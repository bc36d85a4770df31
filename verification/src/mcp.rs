//! The gbrain MCP client of one brain (`<exe> serve` over stdio, with the brain's `GBRAIN_HOME`):
//! what it starts and what it makes of a tool's answer. The session itself (spawned lazily,
//! dropped after a failed call) lives outside.
use vstd::prelude::*;
use crate::text::{owned, push_str};

verus! {

/// The MCP client of one brain: the gbrain executable and the brain's home.
#[derive(Debug, Clone)]
pub struct GbrainMcpClient {
    pub exe: String,
    pub home: Option<String>,
}

impl GbrainMcpClient {
    /// The client of a brain.
    pub fn new(exe: String, home: Option<String>) -> (r: GbrainMcpClient)
        ensures
            r.exe@ == exe@,
            crate::factories::opt_str(r.home) == crate::factories::opt_str(home),
    {
        GbrainMcpClient { exe, home }
    }

    /// The arguments of the server process.
    pub fn serve_args(&self) -> (r: Vec<String>)
        ensures
            crate::text::views_of(r@) == seq!["serve"@],
    {
        let v = vec![owned("serve")];
        assert(crate::text::views_of(v@) =~= seq!["serve"@]);
        v
    }

    /// The environment of the server process: `PYTHONUTF8=1`, and `GBRAIN_HOME` (trimmed) when
    /// the brain has a home that is not blank.
    pub fn serve_env(&self) -> (r: Vec<(String, String)>)
        ensures
            r@.len() >= 1,
            r@[0].0@ == "PYTHONUTF8"@ && r@[0].1@ == "1"@,
            r@.len() == (match self.home {
                Some(h) => if crate::text::trim_spec(h@).len() > 0 { 2int } else { 1 },
                None => 1,
            }),
            r@.len() == 2 ==> r@[1].0@ == "GBRAIN_HOME"@ && r@[1].1@ == crate::text::trim_spec(self.home->0@),
    {
        let h = match &self.home {
            Some(h) => Some(h.as_str()),
            None => None,
        };
        crate::gbrain_cli::env_for_brain(h)
    }
}

/// The text of a tool's answer: its text blocks joined by newlines (other blocks left out).
pub open spec fn joined_text(blocks: Seq<Option<Seq<char>>>) -> Seq<char>
    decreases blocks.len(),
{
    if blocks.len() == 0 {
        Seq::empty()
    } else {
        let rest = joined_text(blocks.drop_last());
        match blocks.last() {
            Some(t) => if rest.len() == 0 {
                t
            } else {
                rest + "\n"@ + t
            },
            None => rest,
        }
    }
}

pub open spec fn blocks_view(v: Seq<Option<String>>) -> Seq<Option<Seq<char>>> {
    v.map_values(|b: Option<String>| crate::factories::opt_str(b))
}

/// What a tool call gave: an error when the tool reported one, else the text of its answer.
pub fn tool_text(tool: &str, is_error: Option<bool>, blocks: &Vec<Option<String>>) -> (r: Result<String, String>)
    ensures
        is_error == Some(true) ==> (r matches Err(m) && m@ == "MCP tool "@ + tool@ + " 回報錯誤"@),
        is_error != Some(true) ==> (r matches Ok(t) && t@ == joined_text(blocks_view(blocks@))),
{
    if let Some(true) = is_error {
        let mut m = owned("MCP tool ");
        push_str(&mut m, tool);
        push_str(&mut m, " 回報錯誤");
        return Err(m);
    }
    let ghost bv = blocks_view(blocks@);
    let mut text = String::new();
    let mut i: usize = 0;
    while i < blocks.len()
        invariant
            i <= blocks@.len(),
            bv == blocks_view(blocks@),
            text@ == joined_text(bv.take(i as int)),
        decreases blocks@.len() - i,
    {
        assert(bv.take(i as int + 1).drop_last() =~= bv.take(i as int));
        assert(bv.take(i as int + 1).last() == bv[i as int]);
        match &blocks[i] {
            Some(t) => {
                if !text.as_str().is_empty() {
                    crate::text::push_char(&mut text, '\n');
                }
                push_str(&mut text, t.as_str());
                proof {
                    reveal_strlit("\n");
                }
                assert(text@ =~= joined_text(bv.take(i as int + 1)));
            },
            None => {},
        }
        i += 1;
    }
    assert(bv.take(i as int) =~= bv);
    Ok(text)
}

/// The error of a call that failed (the session is then dropped).
pub fn call_failed(tool: &str, err: &str) -> (r: String)
    ensures
        r@ == "MCP call "@ + tool@ + " 失敗："@ + err@,
{
    let mut m = owned("MCP call ");
    push_str(&mut m, tool);
    push_str(&mut m, " 失敗：");
    push_str(&mut m, err);
    m
}

} // verus!
