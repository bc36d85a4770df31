//! Localisable messages: a message key and its named parameters, rendered by the user interface.
use vstd::prelude::*;
use crate::text::owned;

verus! {

/// A parameter list seen as pairs of character sequences.
pub open spec fn params_view(ps: Seq<(String, String)>) -> Seq<(Seq<char>, Seq<char>)> {
    ps.map_values(|p: (String, String)| (p.0@, p.1@))
}

/// A message to show the user: its key in the message catalogue and its parameters.
#[derive(Debug, Clone)]
pub struct L10n {
    pub key: String,
    pub params: Vec<(String, String)>,
}

impl View for L10n {
    type V = (Seq<char>, Seq<(Seq<char>, Seq<char>)>);

    open spec fn view(&self) -> Self::V {
        (self.key@, params_view(self.params@))
    }
}

impl L10n {
    pub fn new(key: &str) -> (r: L10n)
        ensures
            r@ == (key@, Seq::<(Seq<char>, Seq<char>)>::empty()),
    {
        let r = L10n { key: owned(key), params: Vec::new() };
        assert(params_view(r.params@) =~= Seq::<(Seq<char>, Seq<char>)>::empty());
        r
    }

    /// A copy of this message.
    pub fn copy(&self) -> (r: L10n)
        ensures
            r@ == self@,
    {
        let mut params: Vec<(String, String)> = Vec::new();
        let mut i: usize = 0;
        while i < self.params.len()
            invariant
                i <= self.params.len(),
                params_view(params@) == params_view(self.params@).take(i as int),
            decreases self.params.len() - i,
        {
            let ghost before = params@;
            let (a, b) = (self.params[i].0.clone(), self.params[i].1.clone());
            params.push((a, b));
            assert(params_view(params@) =~= params_view(before).push((a@, b@)));
            assert(params_view(self.params@).take(i as int + 1) =~= params_view(self.params@).take(i as int).push(
                params_view(self.params@)[i as int],
            ));
            i += 1;
        }
        assert(params_view(self.params@).take(self.params.len() as int) =~= params_view(self.params@));
        L10n { key: self.key.clone(), params }
    }

    /// Adds a named parameter.
    pub fn p(self, name: &str, value: &str) -> (r: L10n)
        ensures
            r@ == (self@.0, self@.1.push((name@, value@))),
    {
        let mut params = self.params;
        params.push((owned(name), owned(value)));
        let r = L10n { key: self.key, params };
        assert(params_view(r.params@) =~= params_view(self.params@).push((name@, value@)));
        r
    }
}

/// An error of the library, carried as a localisable message.
#[derive(Debug, Clone)]
pub struct AppError {
    pub msg: L10n,
}

impl View for AppError {
    type V = (Seq<char>, Seq<(Seq<char>, Seq<char>)>);

    open spec fn view(&self) -> Self::V {
        self.msg@
    }
}

impl AppError {
    pub fn new(code: &str) -> (r: AppError)
        ensures
            r@ == (code@, Seq::<(Seq<char>, Seq<char>)>::empty()),
    {
        AppError { msg: L10n::new(code) }
    }

    /// Adds a named parameter.
    pub fn p(self, name: &str, value: &str) -> (r: AppError)
        ensures
            r@ == (self@.0, self@.1.push((name@, value@))),
    {
        AppError { msg: self.msg.p(name, value) }
    }

    /// The message key.
    pub fn code(&self) -> (r: &str)
        ensures
            r@ == self@.0,
    {
        self.msg.key.as_str()
    }
}

} // verus!
