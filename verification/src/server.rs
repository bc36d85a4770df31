//! The server's own decisions: the HTTP status of an error, the health answer, the brain registry
//! edits of its API, and the event ingress (authorised, parsed, first seen, dispatched).
//! Serving HTTP, loading and saving the settings and the store happen outside.
use vstd::prelude::*;
use crate::app_config::{AppConfig, BrainEntry, BrainView, DEFAULT_BRAIN_ID, brains_view, opt_view};
use crate::l10n::AppError;
use crate::text::{owned, str_eq};

verus! {

/// The HTTP status of an error: missing things `404`, a busy employee or an invalid transition
/// `409`, a disabled or unready server `503`, anything else `500`.
pub open spec fn err_status_spec(code: Seq<char>) -> u16 {
    if code == "agent_os.employeeNotFound"@ || code == "agent_os.templateNotFound"@ || code
        == "agent_os.commitmentNotFound"@ || code == "agent_os.taskNotFound"@ {
        404
    } else if code == "agent_os.employeeBusy"@ {
        409
    } else if code == "agent_os.disabled"@ || code == "server.notReady"@ || code == "server.dbOpenFail"@ {
        503
    } else if code == "agent_os.invalidTransition"@ {
        409
    } else {
        500
    }
}

/// The HTTP status of an error.
pub fn err_status(code: &str) -> (r: u16)
    ensures
        r == err_status_spec(code@),
{
    if str_eq(code, "agent_os.employeeNotFound") || str_eq(code, "agent_os.templateNotFound") || str_eq(
        code,
        "agent_os.commitmentNotFound",
    ) || str_eq(code, "agent_os.taskNotFound") {
        404
    } else if str_eq(code, "agent_os.employeeBusy") {
        409
    } else if str_eq(code, "agent_os.disabled") || str_eq(code, "server.notReady") || str_eq(
        code,
        "server.dbOpenFail",
    ) {
        503
    } else if str_eq(code, "agent_os.invalidTransition") {
        409
    } else {
        500
    }
}

/// The health answer: `ready` once the server has started, `warming` before.
pub fn health_status(ready: bool) -> (r: &'static str)
    ensures
        ready ==> r@ == "ready"@,
        !ready ==> r@ == "warming"@,
{
    if ready { "ready" } else { "warming" }
}

/// The error of an API that needs the agent runtime while it is off.
pub fn check_enabled(agent_os_enabled: bool) -> (r: Result<(), AppError>)
    ensures
        agent_os_enabled ==> r is Ok,
        !agent_os_enabled ==> (r matches Err(e) && e@ == ("agent_os.disabled"@, Seq::<(Seq<char>, Seq<char>)>::empty())),
{
    if agent_os_enabled {
        Ok(())
    } else {
        Err(AppError::new("agent_os.disabled"))
    }
}

// ---------------------------------------------------------------------------
// Brain registry edits
// ---------------------------------------------------------------------------

/// The brains without those of id `id`, in order.
pub open spec fn without_id(bs: Seq<BrainView>, id: Seq<char>) -> Seq<BrainView>
    decreases bs.len(),
{
    if bs.len() == 0 {
        bs
    } else if bs.last().id == id {
        without_id(bs.drop_last(), id)
    } else {
        without_id(bs.drop_last(), id).push(bs.last())
    }
}

pub open spec fn has_brain(bs: Seq<BrainView>, id: Seq<char>) -> bool {
    exists|i: int| 0 <= i < bs.len() && bs[i].id == id
}

/// Every setting but the brain list, the active brain and the active source is the same.
pub open spec fn others_same(a: &AppConfig, b: &AppConfig) -> bool {
    &&& a.notes_repo_path == b.notes_repo_path
    &&& a.gbrain_exe_path == b.gbrain_exe_path
    &&& a.gbrain_home_override == b.gbrain_home_override
    &&& a.auto_sync == b.auto_sync
    &&& a.sync_no_pull == b.sync_no_pull
    &&& a.llm_temperature_bits == b.llm_temperature_bits
    &&& a.llm_max_tokens == b.llm_max_tokens
    &&& a.locale == b.locale
    &&& a.recent_claude_cwds == b.recent_claude_cwds
    &&& a.claude_terminal == b.claude_terminal
    &&& a.claude_terminal_template == b.claude_terminal_template
    &&& a.agent_os_enabled == b.agent_os_enabled
    &&& a.llm_concurrency == b.llm_concurrency
    &&& a.event_review_enabled == b.event_review_enabled
    &&& a.event_ingress_port == b.event_ingress_port
    &&& a.event_ingress_secret == b.event_ingress_secret
    &&& a.event_outbound_url == b.event_outbound_url
    &&& a.event_outbound_secret == b.event_outbound_secret
    &&& a.obridge_config_path == b.obridge_config_path
    &&& a.obridge_autostart == b.obridge_autostart
    &&& a.obridge_executable == b.obridge_executable
    &&& a.server_autostart == b.server_autostart
    &&& a.server_port == b.server_port
    &&& a.server_token == b.server_token
    &&& a.server_executable == b.server_executable
    &&& a.prereq_cache == b.prereq_cache
    &&& a.llm_env == b.llm_env
}

fn not_found(id: &str) -> (r: AppError)
    ensures
        r@ == ("brain.notFound"@, seq![("id"@, id@)]),
{
    let e = AppError::new("brain.notFound").p("id", id);
    assert(e@.1 =~= seq![("id"@, id@)]);
    e
}

/// Removes the brain `id` from the registry: the default brain cannot be removed
/// (`brain.cannotRemoveDefault`), an unknown id is `brain.notFound`; when the removed brain was
/// active, the default brain becomes active and the active source is cleared.
pub fn remove_brain(c: &mut AppConfig, id: &str) -> (r: Result<(), AppError>)
    ensures
        id@ == DEFAULT_BRAIN_ID@ ==> (r matches Err(e) && e@ == ("brain.cannotRemoveDefault"@, Seq::<
            (Seq<char>, Seq<char>),
        >::empty())) && *final(c) == *old(c),
        id@ != DEFAULT_BRAIN_ID@ && !has_brain(brains_view(old(c).brains@), id@) ==> (r matches Err(e) && e@ == (
            "brain.notFound"@,
            seq![("id"@, id@)],
        )) && *final(c) == *old(c),
        id@ != DEFAULT_BRAIN_ID@ && has_brain(brains_view(old(c).brains@), id@) ==> {
            &&& r is Ok
            &&& brains_view(final(c).brains@) == without_id(brains_view(old(c).brains@), id@)
            &&& others_same(&*final(c), &*old(c))
            &&& if opt_view(old(c).active_brain_id) == Some(id@) {
                opt_view(final(c).active_brain_id) == Some(DEFAULT_BRAIN_ID@) && final(c).active_source_id is None
            } else {
                final(c).active_brain_id == old(c).active_brain_id && final(c).active_source_id
                    == old(c).active_source_id
            }
        },
{
    if str_eq(id, DEFAULT_BRAIN_ID) {
        return Err(AppError::new("brain.cannotRemoveDefault"));
    }
    let ghost bv = brains_view(c.brains@);
    let mut kept: Vec<BrainEntry> = Vec::new();
    let mut found = false;
    let mut i: usize = 0;
    while i < c.brains.len()
        invariant
            i <= c.brains@.len(),
            bv == brains_view(c.brains@),
            brains_view(kept@) == without_id(bv.take(i as int), id@),
            found == has_brain(bv.take(i as int), id@),
        decreases c.brains@.len() - i,
    {
        let ghost t = bv.take(i as int + 1);
        assert(t.drop_last() =~= bv.take(i as int));
        assert(t.last() == bv[i as int]);
        let b = &c.brains[i];
        if str_eq(b.id.as_str(), id) {
            found = true;
            assert(t[i as int].id == id@);
        } else {
            let ghost before = brains_view(kept@);
            kept.push(BrainEntry { id: owned(b.id.as_str()), name: owned(b.name.as_str()), gbrain_home: crate::bridge_config::copy_opt(&b.gbrain_home) });
            assert(brains_view(kept@) =~= before.push(bv[i as int]));
            proof {
                if has_brain(t, id@) {
                    let k = choose|k: int| 0 <= k < t.len() && t[k].id == id@;
                    if k < i as int {
                        assert(bv.take(i as int)[k] == t[k]);
                    }
                }
            }
        }
        proof {
            if has_brain(bv.take(i as int), id@) {
                let k = choose|k: int| 0 <= k < i as int && bv.take(i as int)[k].id == id@;
                assert(t[k] == bv.take(i as int)[k]);
            }
        }
        i += 1;
    }
    assert(bv.take(i as int) =~= bv);
    if !found {
        return Err(not_found(id));
    }
    c.brains = kept;
    let active_removed = match &c.active_brain_id {
        Some(a) => str_eq(a.as_str(), id),
        None => false,
    };
    if active_removed {
        c.active_brain_id = Some(owned(DEFAULT_BRAIN_ID));
        c.active_source_id = None;
    }
    Ok(())
}

/// Makes the brain `id` the active one, with no active source; an unknown id is
/// `brain.notFound` and changes nothing.
pub fn set_active_brain(c: &mut AppConfig, id: &str) -> (r: Result<(), AppError>)
    ensures
        !has_brain(brains_view(old(c).brains@), id@) ==> (r matches Err(e) && e@ == ("brain.notFound"@, seq![
            ("id"@, id@),
        ])) && *final(c) == *old(c),
        has_brain(brains_view(old(c).brains@), id@) ==> {
            &&& r is Ok
            &&& opt_view(final(c).active_brain_id) == Some(id@)
            &&& final(c).active_source_id is None
            &&& final(c).brains == old(c).brains
            &&& others_same(&*final(c), &*old(c))
        },
{
    let mut i: usize = 0;
    while i < c.brains.len()
        invariant
            i <= c.brains@.len(),
            *c == *old(c),
            forall|k: int| 0 <= k < i ==> brains_view(c.brains@)[k].id != id@,
        decreases c.brains@.len() - i,
    {
        if str_eq(c.brains[i].id.as_str(), id) {
            assert(brains_view(c.brains@)[i as int].id == id@);
            c.active_brain_id = Some(owned(id));
            c.active_source_id = None;
            return Ok(());
        }
        i += 1;
    }
    Err(not_found(id))
}

/// Sets the active source of the active brain (or clears it).
pub fn set_active_source(c: &mut AppConfig, source_id: Option<String>) -> (r: ())
    ensures
        opt_view(final(c).active_source_id) == opt_view(source_id),
        final(c).brains == old(c).brains,
        final(c).active_brain_id == old(c).active_brain_id,
        others_same(&*final(c), &*old(c)),
{
    c.active_source_id = source_id;
}

// ---------------------------------------------------------------------------
// Event ingress
// ---------------------------------------------------------------------------

/// The `(source, external reference)` pairs seen in this session.
pub struct SeenRefs {
    seen: Vec<(String, String)>,
}

impl SeenRefs {
    /// The pairs seen.
    pub closed spec fn pairs(&self) -> Set<(Seq<char>, Seq<char>)> {
        self.seen@.map_values(|p: (String, String)| (p.0@, p.1@)).to_set()
    }

    /// None seen yet.
    pub fn new() -> (r: SeenRefs)
        ensures
            r.pairs() == Set::<(Seq<char>, Seq<char>)>::empty(),
    {
        let r = SeenRefs { seen: Vec::new() };
        assert(r.pairs() =~= Set::<(Seq<char>, Seq<char>)>::empty()) by {
            assert(r.seen@.map_values(|p: (String, String)| (p.0@, p.1@)) =~= Seq::<(Seq<char>, Seq<char>)>::empty());
        }
        r
    }

    /// Whether the pair is seen for the first time; it is seen from now on.
    pub fn is_new(&mut self, source: &str, external_ref: &str) -> (r: bool)
        ensures
            r == !old(self).pairs().contains((source@, external_ref@)),
            final(self).pairs() == old(self).pairs().insert((source@, external_ref@)),
    {
        let ghost m = self.seen@.map_values(|p: (String, String)| (p.0@, p.1@));
        let mut i: usize = 0;
        while i < self.seen.len()
            invariant
                i <= self.seen@.len(),
                m == self.seen@.map_values(|p: (String, String)| (p.0@, p.1@)),
                forall|k: int| 0 <= k < i ==> m[k] != (source@, external_ref@),
            decreases self.seen@.len() - i,
        {
            if str_eq(self.seen[i].0.as_str(), source) && str_eq(self.seen[i].1.as_str(), external_ref) {
                assert(m[i as int] == (source@, external_ref@));
                assert(m.to_set().contains((source@, external_ref@)));
                assert(m.to_set().insert((source@, external_ref@)) =~= m.to_set());
                return false;
            }
            i += 1;
        }
        assert(!m.contains((source@, external_ref@)));
        assert(!m.to_set().contains((source@, external_ref@)));
        self.seen.push((owned(source), owned(external_ref)));
        let ghost m2 = self.seen@.map_values(|p: (String, String)| (p.0@, p.1@));
        assert(m2 =~= m.push((source@, external_ref@)));
        assert(m2.to_set() =~= m.to_set().insert((source@, external_ref@))) by {
            assert forall|x| m2.to_set().contains(x) <==> m.to_set().insert((source@, external_ref@)).contains(x) by {
                if m2.to_set().contains(x) {
                    let k = choose|k: int| 0 <= k < m2.len() && m2[k] == x;
                    if k < m.len() {
                        assert(m[k] == x);
                    }
                }
                if m.to_set().contains(x) {
                    let k = choose|k: int| 0 <= k < m.len() && m[k] == x;
                    assert(m2[k] == x);
                }
                if x == (source@, external_ref@) {
                    assert(m2[m.len() as int] == x);
                }
            }
        }
        true
    }
}

/// The answer of the event ingress.
#[derive(Debug, Clone, PartialEq, Eq)]
pub enum IngressAnswer {
    /// An error: the status, the message key and a detail.
    Refused(u16, String, Option<String>),
    /// Not routed: the status and what was done.
    Done(u16, String),
    /// Hand the event to the dispatcher.
    Dispatch,
}

/// The ingress before dispatch: `401` without the server token, `400` for a body that is not an
/// event (with why), `503` before the runtime is ready, `200 duplicate; ignored` for an external
/// reference already seen from the same source; otherwise the event is dispatched (and its
/// reference is seen from now on).
pub fn ingress(
    authorized: bool,
    parsed: Result<(String, Option<String>), String>,
    ready: bool,
    seen: &mut SeenRefs,
) -> (r: IngressAnswer)
    ensures
        !authorized ==> (r matches IngressAnswer::Refused(s, k, None) && s == 401 && k@ == "auth.unauthorized"@),
        authorized ==> match parsed {
            Err(d) => (r matches IngressAnswer::Refused(s, k, Some(x)) && s == 400 && k@ == "ingress.badRequest"@
                && x@ == d@),
            Ok((src, ext)) => if !ready {
                r matches IngressAnswer::Refused(s, k, None) && s == 503 && k@ == "server.notReady"@
            } else {
                match ext {
                    Some(e) => if old(seen).pairs().contains((src@, e@)) {
                        r matches IngressAnswer::Done(s, t) && s == 200 && t@ == "duplicate; ignored"@
                    } else {
                        r == IngressAnswer::Dispatch && final(seen).pairs() == old(seen).pairs().insert((src@, e@))
                    },
                    None => r == IngressAnswer::Dispatch && final(seen).pairs() == old(seen).pairs(),
                }
            },
        },
        (!authorized || parsed is Err || !ready) ==> final(seen).pairs() == old(seen).pairs(),
{
    if !authorized {
        return IngressAnswer::Refused(401, owned("auth.unauthorized"), None);
    }
    match parsed {
        Err(d) => IngressAnswer::Refused(400, owned("ingress.badRequest"), Some(d)),
        Ok((src, ext)) => {
            if !ready {
                return IngressAnswer::Refused(503, owned("server.notReady"), None);
            }
            match ext {
                Some(e) => {
                    if seen.is_new(src.as_str(), e.as_str()) {
                        IngressAnswer::Dispatch
                    } else {
                        IngressAnswer::Done(200, owned("duplicate; ignored"))
                    }
                },
                None => IngressAnswer::Dispatch,
            }
        },
    }
}

/// The answer after dispatch: `202 accepted`, or `500` with why it failed.
pub fn dispatched(res: Result<(), String>) -> (r: IngressAnswer)
    ensures
        match res {
            Ok(()) => r matches IngressAnswer::Done(s, t) && s == 202 && t@ == "accepted"@,
            Err(d) => r matches IngressAnswer::Refused(s, k, Some(x)) && s == 500 && k@ == "ingress.dispatchFail"@ && x@ == d@,
        },
{
    match res {
        Ok(()) => IngressAnswer::Done(202, owned("accepted")),
        Err(d) => IngressAnswer::Refused(500, owned("ingress.dispatchFail"), Some(d)),
    }
}


// ---------------------------------------------------------------------------
// Start-up and shutdown
// ---------------------------------------------------------------------------

pub open spec fn is_digit(c: char) -> bool {
    '0' <= c && c <= '9'
}

/// The value of a string of decimal digits.
pub open spec fn dec_value(s: Seq<char>) -> nat
    decreases s.len(),
{
    if s.len() == 0 {
        0
    } else {
        dec_value(s.drop_last()) * 10 + ((s.last() as u32) - ('0' as u32)) as nat
    }
}

/// A number's text without its optional leading `+`.
pub open spec fn unsigned_part(s: Seq<char>) -> Seq<char> {
    if s.len() > 0 && s[0] == '+' {
        s.drop_first()
    } else {
        s
    }
}

pub open spec fn all_digits(d: Seq<char>) -> bool {
    forall|i: int| 0 <= i < d.len() ==> is_digit(#[trigger] d[i])
}

/// `str::parse::<u16>`: an optional `+`, then one or more decimal digits whose value fits.
pub open spec fn parse_u16_spec(s: Seq<char>) -> Option<u16> {
    let d = unsigned_part(s);
    if d.len() > 0 && all_digits(d) && dec_value(d) <= 65535 {
        Some(dec_value(d) as u16)
    } else {
        None
    }
}

proof fn lemma_dec_value_grows(s: Seq<char>, n: int)
    requires
        0 <= n <= s.len(),
        all_digits(s),
    ensures
        dec_value(s.take(n)) <= dec_value(s),
    decreases s.len() - n,
{
    if n < s.len() {
        lemma_dec_value_grows(s, n + 1);
        assert(s.take(n + 1).drop_last() =~= s.take(n));
    } else {
        assert(s.take(n) =~= s);
    }
}

/// A port number as `str::parse::<u16>` reads it.
pub fn parse_u16(s: &str) -> (r: Option<u16>)
    ensures
        r == parse_u16_spec(s@),
{
    let v = crate::text::chars_of(s);
    let start: usize = if v.len() > 0 && v[0] == '+' { 1 } else { 0 };
    let ghost d = unsigned_part(s@);
    assert(d =~= v@.skip(start as int));
    if start == v.len() {
        return None;
    }
    let mut value: u32 = 0;
    let mut i: usize = start;
    while i < v.len()
        invariant
            start <= i <= v@.len(),
            v@ == s@,
            d == unsigned_part(s@),
            d == v@.skip(start as int),
            forall|k: int| start <= k < i ==> is_digit(#[trigger] v@[k]),
            value as nat == dec_value(d.take(i - start)),
            value <= 65535,
        decreases v@.len() - i,
    {
        let c = v[i];
        assert(d[i - start] == v@[i as int]);
        if !('0' <= c && c <= '9') {
            assert(!is_digit(d[i - start]));
            return None;
        }
        let digit: u32 = (c as u32) - ('0' as u32);
        let ghost t = d.take(i - start + 1);
        assert(t.drop_last() =~= d.take(i - start));
        assert(t.last() == c);
        assert(dec_value(t) == value * 10 + digit);
        let next: u32 = value * 10 + digit;
        if next > 65535 {
            proof {
                if all_digits(d) {
                    lemma_dec_value_grows(d, i - start + 1);
                }
            }
            return None;
        }
        value = next;
        i += 1;
    }
    assert(d.take(i - start) =~= d);
    Some(value as u16)
}

/// The server's command line: `--data-dir <dir>` and `--port <port>` (a port that does not parse
/// keeps the one before); later occurrences win.
pub open spec fn scan_args(args: Seq<Seq<char>>, i: int, dir: Option<Seq<char>>, port: u16) -> (Option<Seq<char>>, u16)
    decreases args.len() - i,
{
    if i < 0 || i >= args.len() {
        (dir, port)
    } else if args[i] == "--data-dir"@ && i + 1 < args.len() {
        scan_args(args, i + 2, Some(args[i + 1]), port)
    } else if args[i] == "--port"@ && i + 1 < args.len() {
        scan_args(
            args,
            i + 2,
            dir,
            match parse_u16_spec(args[i + 1]) {
                Some(p) => p,
                None => port,
            },
        )
    } else {
        scan_args(args, i + 1, dir, port)
    }
}

/// The port before the command line: `OSERVER_PORT` when it parses, else 7340.
pub open spec fn env_port_spec(env_port: Option<Seq<char>>) -> u16 {
    match env_port {
        Some(p) => match parse_u16_spec(p) {
            Some(x) => x,
            None => 7340,
        },
        None => 7340,
    }
}

/// The data directory override and the port of the server, from its command line (the program
/// name first) and `OSERVER_PORT`.
pub fn server_args(args: &Vec<String>, env_port: Option<String>) -> (r: (Option<String>, u16))
    ensures
        (opt_view(r.0), r.1) == scan_args(
            crate::text::views_of(args@),
            1,
            None,
            env_port_spec(opt_view(env_port)),
        ),
{
    let ghost av = crate::text::views_of(args@);
    let mut port: u16 = match &env_port {
        Some(p) => match parse_u16(p.as_str()) {
            Some(x) => x,
            None => 7340,
        },
        None => 7340,
    };
    let mut dir: Option<String> = None;
    let mut i: usize = 1;
    while i < args.len()
        invariant
            1 <= i,
            av == crate::text::views_of(args@),
            scan_args(av, i as int, opt_view(dir), port) == scan_args(av, 1, None, env_port_spec(opt_view(env_port))),
        decreases args@.len() - i,
    {
        if str_eq(args[i].as_str(), "--data-dir") && i + 1 < args.len() {
            dir = Some(owned(args[i + 1].as_str()));
            i += 2;
        } else if str_eq(args[i].as_str(), "--port") && i + 1 < args.len() {
            port = match parse_u16(args[i + 1].as_str()) {
                Some(p) => p,
                None => port,
            };
            i += 2;
        } else {
            i += 1;
        }
    }
    (dir, port)
}

/// The shared secret of the server: `OSERVER_TOKEN` when it is not blank; the server does not
/// start without one.
pub fn server_token(env_token: Option<String>) -> (r: Result<String, String>)
    ensures
        match env_token {
            Some(t) => if crate::text::trim_spec(t@).len() > 0 {
                r matches Ok(x) && x@ == t@
            } else {
                r is Err
            },
            None => r is Err,
        },
        r matches Err(m) ==> m@
            == "未設 OSERVER_TOKEN——服務需要共享密鑰才能啟動（PowerShell：$env:OSERVER_TOKEN=\"<任意密鑰>\"）"@,
{
    let msg = "未設 OSERVER_TOKEN——服務需要共享密鑰才能啟動（PowerShell：$env:OSERVER_TOKEN=\"<任意密鑰>\"）";
    match env_token {
        Some(t) => {
            let tr = crate::text::trim(t.as_str());
            if tr.as_str().is_empty() {
                Err(owned(msg))
            } else {
                Ok(t)
            }
        },
        None => Err(owned(msg)),
    }
}

/// What the shutdown does next.
#[derive(Debug, Clone, Copy, PartialEq, Eq, Structural)]
pub enum ShutdownStep {
    /// No employee is busy: exit.
    Exit,
    /// The wait ran out with employees still busy: exit anyway.
    ForceExit,
    /// Wait five more seconds.
    Wait,
}

/// The graceful shutdown: exit once no employee is busy, but wait at most 120 seconds.
pub fn shutdown_step(busy: usize, elapsed_secs: u64) -> (r: ShutdownStep)
    ensures
        busy == 0 ==> r == ShutdownStep::Exit,
        busy > 0 && elapsed_secs >= 120 ==> r == ShutdownStep::ForceExit,
        busy > 0 && elapsed_secs < 120 ==> r == ShutdownStep::Wait,
{
    if busy == 0 {
        ShutdownStep::Exit
    } else if elapsed_secs >= 120 {
        ShutdownStep::ForceExit
    } else {
        ShutdownStep::Wait
    }
}


// ---------------------------------------------------------------------------
// Data directories
// ---------------------------------------------------------------------------

/// The name of the desktop app's directory under the platform's data directories.
pub open spec fn app_dir_name() -> Seq<char> {
    "com.operoid.studio"@
}

/// Where the server finds the settings and the agent database.
#[derive(Debug, Clone)]
pub struct DataDirs {
    pub settings_dir: String,
    pub db_dir: String,
}

/// The user's configuration directory (`dirs::config_dir`); it depends on the platform and the
/// environment, so nothing is promised of it.
#[verifier::external_body]
fn config_dir() -> Option<String> {
    dirs::config_dir().map(|d| d.to_string_lossy().into_owned())
}

/// The user's local data directory (`dirs::data_local_dir`); it depends on the platform and the
/// environment, so nothing is promised of it.
#[verifier::external_body]
fn data_local_dir() -> Option<String> {
    dirs::data_local_dir().map(|d| d.to_string_lossy().into_owned())
}

/// The data directories: both the override when one is given; else the desktop app's settings
/// directory (under the configuration directory) and its database directory (under the local data
/// directory), each refused when the platform has no such directory.
pub fn resolve_dirs(override_dir: Option<&str>) -> (r: Result<DataDirs, String>)
    ensures
        override_dir matches Some(d) ==> (r matches Ok(x) && x.settings_dir@ == d@ && x.db_dir@ == d@),
        r matches Err(m) ==> override_dir is None && (m@ == "無法解析 Roaming AppData 目錄"@ || m@
            == "無法解析 Local AppData 目錄"@),
        override_dir is None && r is Ok ==> crate::text::has_suffix(r->Ok_0.settings_dir@, app_dir_name())
            && crate::text::has_suffix(r->Ok_0.db_dir@, app_dir_name()),
{
    proof {
        reveal_strlit("com.operoid.studio");
    }
    match override_dir {
        Some(d) => Ok(DataDirs { settings_dir: owned(d), db_dir: owned(d) }),
        None => {
            let settings_dir = match config_dir() {
                Some(c) => crate::app_config::path_join(c.as_str(), "com.operoid.studio"),
                None => return Err(owned("無法解析 Roaming AppData 目錄")),
            };
            let db_dir = match data_local_dir() {
                Some(l) => crate::app_config::path_join(l.as_str(), "com.operoid.studio"),
                None => return Err(owned("無法解析 Local AppData 目錄")),
            };
            Ok(DataDirs { settings_dir, db_dir })
        },
    }
}

/// The desktop app's data directories: the app's directory under the configuration directory
/// and under the local data directory.
pub fn default_dirs() -> (r: Result<DataDirs, String>)
    ensures
        r matches Err(m) ==> (m@ == "無法解析 Roaming AppData 目錄"@ || m@ == "無法解析 Local AppData 目錄"@),
        r matches Ok(x) ==> crate::text::has_suffix(x.settings_dir@, app_dir_name()) && crate::text::has_suffix(
            x.db_dir@,
            app_dir_name(),
        ),
{
    resolve_dirs(None)
}

} // verus!
