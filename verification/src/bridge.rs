//! The bridge's own decisions: where its configuration file is, the registry of channels by
//! source label, which configured channels it can build, and what the send endpoint and the
//! ingress client answer. Reading files, serving HTTP and running the channels happen outside.
use vstd::prelude::*;
use crate::text::{after_last, after_last_exec, owned, push_str, str_eq, views_of};

verus! {

/// The configuration file: the path after `--config` when given, else the first candidate
/// (`obridge.toml` in the working directory, then beside the executable) that exists, else
/// `obridge.toml`.
pub open spec fn config_path_spec(args: Seq<Seq<char>>, candidates: Seq<(Seq<char>, bool)>) -> Seq<char> {
    let flag = args.index_of_first("--config"@);
    match flag {
        Some(i) if i + 1 < args.len() => args[i + 1],
        _ => first_existing(candidates),
    }
}

/// The first candidate that exists, else `obridge.toml`.
pub open spec fn first_existing(c: Seq<(Seq<char>, bool)>) -> Seq<char>
    decreases c.len(),
{
    if c.len() == 0 {
        "obridge.toml"@
    } else if c[0].1 {
        c[0].0
    } else {
        first_existing(c.drop_first())
    }
}

/// The configuration file, from the command line and the candidate files (path, exists).
pub fn config_path(args: &Vec<String>, candidates: &Vec<(String, bool)>) -> (r: String)
    ensures
        r@ == config_path_spec(
            views_of(args@),
            candidates@.map_values(|c: (String, bool)| (c.0@, c.1)),
        ),
{
    let ghost av = views_of(args@);
    let mut i: usize = 0;
    while i < args.len() && !str_eq(args[i].as_str(), "--config")
        invariant
            i <= args@.len(),
            av == views_of(args@),
            forall|k: int| 0 <= k < i ==> av[k] != "--config"@,
        decreases args@.len() - i,
    {
        i += 1;
    }
    proof {
        av.index_of_first_ensures("--config"@);
        if i < args@.len() {
            assert(av[i as int] == "--config"@);
            assert(av.contains("--config"@));
        } else {
            if av.contains("--config"@) {
                let j = av.index_of_first("--config"@).unwrap();
                assert(av[j] == "--config"@);
            }
        }
    }
    if i < args.len() && i + 1 < args.len() {
        return owned(args[i + 1].as_str());
    }
    let ghost cv = candidates@.map_values(|c: (String, bool)| (c.0@, c.1));
    let mut k: usize = 0;
    assert(cv.skip(0) =~= cv);
    assert(config_path_spec(av, cv) == first_existing(cv));
    while k < candidates.len()
        invariant
            k <= candidates@.len(),
            cv == candidates@.map_values(|c: (String, bool)| (c.0@, c.1)),
            av == views_of(args@),
            config_path_spec(av, cv) == first_existing(cv),
            first_existing(cv) == first_existing(cv.skip(k as int)),
        decreases candidates@.len() - k,
    {
        assert(cv.skip(k as int)[0] == cv[k as int]);
        if candidates[k].1 {
            return owned(candidates[k].0.as_str());
        }
        assert(cv.skip(k as int).drop_first() =~= cv.skip(k as int + 1));
        k += 1;
    }
    owned("obridge.toml")
}

/// The channels of the bridge by source label; a label names one channel.
pub struct Registry<C> {
    channels: Vec<(String, C)>,
}

impl<C> Registry<C> {
    /// The source labels, in the order they were registered.
    pub closed spec fn labels(&self) -> Seq<Seq<char>> {
        self.channels@.map_values(|e: (String, C)| e.0@)
    }

    /// The channel of each label.
    pub closed spec fn channel_of(&self, i: int) -> C {
        self.channels@[i].1
    }

    /// No label occurs twice.
    pub open spec fn wf(&self) -> bool {
        self.labels().no_duplicates()
    }

    /// An empty registry.
    pub fn new() -> (r: Registry<C>)
        ensures
            r.wf(),
            r.labels() == Seq::<Seq<char>>::empty(),
    {
        let r = Registry { channels: Vec::new() };
        assert(r.labels() =~= Seq::<Seq<char>>::empty());
        r
    }

    /// Registers a channel under its source label; a label already taken is refused and the
    /// registry is left as it was.
    pub fn register(&mut self, source: &str, ch: C) -> (r: Result<(), String>)
        requires
            old(self).wf(),
        ensures
            final(self).wf(),
            old(self).labels().contains(source@) ==> (r matches Err(m) && m@ == "通道 source 標籤重複："@ + source@)
                && final(self).labels() == old(self).labels(),
            !old(self).labels().contains(source@) ==> r is Ok && final(self).labels() == old(self).labels().push(
                source@,
            ) && final(self).channel_of(old(self).labels().len() as int) == ch,
            forall|i: int| 0 <= i < old(self).labels().len() ==> final(self).channel_of(i) == old(self).channel_of(i),
    {
        let mut i: usize = 0;
        while i < self.channels.len()
            invariant
                i <= self.channels@.len(),
                self.wf(),
                *self == *old(self),
                forall|k: int| 0 <= k < i ==> self.labels()[k] != source@,
            decreases self.channels@.len() - i,
        {
            if str_eq(self.channels[i].0.as_str(), source) {
                assert(self.labels()[i as int] == source@);
                let mut m = owned("通道 source 標籤重複：");
                push_str(&mut m, source);
                return Err(m);
            }
            i += 1;
        }
        assert(!self.labels().contains(source@));
        let ghost before = self.labels();
        self.channels.push((owned(source), ch));
        assert(self.labels() =~= before.push(source@));
        Ok(())
    }

    /// The channel of a source label.
    pub fn get(&self, source: &str) -> (r: Option<&C>)
        requires
            self.wf(),
        ensures
            match r {
                Some(c) => exists|i: int|
                    0 <= i < self.labels().len() && self.labels()[i] == source@ && *c == self.channel_of(i),
                None => !self.labels().contains(source@),
            },
    {
        let mut i: usize = 0;
        while i < self.channels.len()
            invariant
                i <= self.channels@.len(),
                forall|k: int| 0 <= k < i ==> self.labels()[k] != source@,
            decreases self.channels@.len() - i,
        {
            if str_eq(self.channels[i].0.as_str(), source) {
                assert(self.labels()[i as int] == source@);
                assert(self.channel_of(i as int) == self.channels@[i as int].1);
                return Some(&self.channels[i].1);
            }
            i += 1;
        }
        None
    }

    /// The source labels.
    pub fn sources(&self) -> (r: Vec<String>)
        ensures
            views_of(r@) == self.labels(),
    {
        let mut r: Vec<String> = Vec::new();
        let mut i: usize = 0;
        while i < self.channels.len()
            invariant
                i <= self.channels@.len(),
                views_of(r@) == self.labels().take(i as int),
            decreases self.channels@.len() - i,
        {
            let ghost before = views_of(r@);
            r.push(owned(self.channels[i].0.as_str()));
            assert(views_of(r@) =~= before.push(self.labels()[i as int]));
            assert(self.labels().take(i as int + 1) =~= self.labels().take(i as int).push(self.labels()[i as int]));
            i += 1;
        }
        assert(self.labels().take(i as int) =~= self.labels());
        r
    }
}

/// The channel types the bridge builds itself.
#[derive(Debug, Clone, Copy, PartialEq, Eq, Structural)]
pub enum ChannelKind {
    EmailImap,
}

/// The kind of a configured channel type; `None` (skipped, with a note) for any other.
pub fn channel_kind(channel_type: &str) -> (r: Option<ChannelKind>)
    ensures
        channel_type@ == "email-imap"@ ==> r == Some(ChannelKind::EmailImap),
        channel_type@ != "email-imap"@ ==> r is None,
{
    if str_eq(channel_type, "email-imap") {
        Some(ChannelKind::EmailImap)
    } else {
        None
    }
}

/// The note of a channel that is skipped because its type is unknown.
pub fn unknown_channel_note(channel_type: &str, source: &str) -> (r: String)
    ensures
        r@ == "[obridge] 未知通道類型 "@ + channel_type@ + "（source="@ + source@ + "）——跳過"@,
{
    let mut m = owned("[obridge] 未知通道類型 ");
    push_str(&mut m, channel_type);
    push_str(&mut m, "（source=");
    push_str(&mut m, source);
    push_str(&mut m, "）——跳過");
    m
}

/// The answer of the send endpoint before a channel is called: `401` without the right bearer
/// token, `404` for a source that no channel has; `None` to go on and send.
pub fn send_gate(authorized: bool, known_source: bool, source: &str) -> (r: Option<(u16, String)>)
    ensures
        !authorized ==> (r matches Some(x) && x.0 == 401 && x.1@ == "bad credentials"@),
        authorized && !known_source ==> (r matches Some(x) && x.0 == 404 && x.1@ == "unknown source: "@
            + source@),
        authorized && known_source ==> r is None,
{
    if !authorized {
        Some((401, owned("bad credentials")))
    } else if !known_source {
        let mut m = owned("unknown source: ");
        push_str(&mut m, source);
        Some((404, m))
    } else {
        None
    }
}

/// The answer of the send endpoint after the channel sent (`200`) or failed (`500` with why).
pub fn send_reply(sent: Result<(), String>) -> (r: (u16, String))
    ensures
        match sent {
            Ok(()) => r.0 == 200 && r.1@ == "sent"@,
            Err(e) => r.0 == 500 && r.1@ == "send failed: "@ + e@,
        },
{
    match sent {
        Ok(()) => (200, owned("sent")),
        Err(e) => {
            let mut m = owned("send failed: ");
            push_str(&mut m, e.as_str());
            (500, m)
        },
    }
}

/// What the ingress client makes of the studio's answer: `2xx` delivered it; any other status is
/// an error (the channel's next poll sends the event again).
pub fn ingress_outcome(status: u16, status_text: &str) -> (r: Result<(), String>)
    ensures
        200 <= status <= 299 ==> r is Ok,
        !(200 <= status <= 299) ==> (r matches Err(m) && m@ == "Operoid ingress 回 HTTP "@ + status_text@),
{
    if 200 <= status && status <= 299 {
        Ok(())
    } else {
        let mut m = owned("Operoid ingress 回 HTTP ");
        push_str(&mut m, status_text);
        Err(m)
    }
}


/// The poll interval of a plugin, by the naming convention `<name>-<seconds>.wasm`: the number
/// after the last `-` of the file stem when it reads as a number from 1 to 3600 (an optional `+`,
/// then digits), else 60 seconds.
pub open spec fn poll_secs_spec(stem: Seq<char>) -> u64 {
    let d = crate::server::unsigned_part(after_last(stem, '-'));
    if stem.contains('-') && d.len() > 0 && crate::server::all_digits(d) && 1 <= crate::server::dec_value(d)
        <= 3600 {
        crate::server::dec_value(d) as u64
    } else {
        60
    }
}

/// The poll interval of a plugin, from its file stem.
pub fn plugin_poll_secs(stem: &str) -> (r: u64)
    ensures
        r == poll_secs_spec(stem@),
        1 <= r <= 3600,
{
    let v = crate::text::chars_of(stem);
    let mut has_dash = false;
    let mut k: usize = 0;
    while k < v.len()
        invariant
            k <= v@.len(),
            has_dash == (exists|j: int| 0 <= j < k && v@[j] == '-'),
        decreases v@.len() - k,
    {
        if v[k] == '-' {
            has_dash = true;
        }
        k += 1;
    }
    assert(has_dash == stem@.contains('-')) by {
        if stem@.contains('-') {
            let j = choose|j: int| 0 <= j < stem@.len() && stem@[j] == '-';
            assert(v@[j] == '-');
        }
    }
    if !has_dash {
        return 60;
    }
    let tail = after_last_exec(&v, '-');
    let t = crate::text::string_of(&tail);
    let p = crate::server::parse_u16(t.as_str());
    match p {
        Some(x) => {
            if 1 <= x && x <= 3600 {
                x as u64
            } else {
                60
            }
        },
        None => {
            proof {
                let d = crate::server::unsigned_part(t@);
                if d.len() > 0 && crate::server::all_digits(d) && crate::server::dec_value(d) <= 3600 {
                    assert(crate::server::parse_u16_spec(t@) is Some);
                }
            }
            60
        },
    }
}

} // verus!
