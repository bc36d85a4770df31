//! The `email-imap` channel: mail fetched over IMAP becomes inbound events, and replies go out
//! over SMTP.
//!
//! Reply anchors carry no state: `<source>:msg:<encoded Message-ID>?to=<encoded address>` holds
//! both the thread to answer and the address to answer to, so a restarted bridge can still reply.
//! Talking to the IMAP and SMTP servers happens outside, behind [`MailSource`] and [`MailSink`];
//! this module reads the mail, routes it, builds the events and plans the replies.
use vstd::prelude::*;
use mail_parser::MimeHeaders;
use crate::bridge_config::{ChannelCfg, EmailImapCfg, ImapCfg, RouteCfg, SenderCfg, SmtpCfg};
use crate::contract::{EventKind, InboundEvent};
use crate::bridge_config::copy_opt;
use crate::gbrain_cli::{after_first, before_first, find_first, first_occ, lemma_first_occ_unique};
use crate::percent::{lemma_pct_no_question, lemma_pct_roundtrip, pct_decode, pct_decoded, pct_encode, pct_encoded};
use crate::text::{
    chars_eq, chars_of, dec_seq, has_prefix, join, join_spec, owned, push_dec, push_str, str_eq,
    string_of, views_of,
};

verus! {

// ---------------------------------------------------------------------------
// Mail as read by `mail-parser`
// ---------------------------------------------------------------------------

/// Whether `mail-parser` reads these bytes as a message.
pub uninterp spec fn mail_parses(raw: Seq<u8>) -> bool;

/// The address groups of `From` (a plain list is one group), each address as `mail-parser`
/// gives it.
pub uninterp spec fn mail_from_groups(raw: Seq<u8>) -> Seq<Seq<Option<Seq<char>>>>;

/// The address groups of `To`.
pub uninterp spec fn mail_to_groups(raw: Seq<u8>) -> Seq<Seq<Option<Seq<char>>>>;

/// The address groups of `Cc`.
pub uninterp spec fn mail_cc_groups(raw: Seq<u8>) -> Seq<Seq<Option<Seq<char>>>>;

/// The decoded `Subject`.
pub uninterp spec fn mail_subject(raw: Seq<u8>) -> Option<Seq<char>>;

/// The `Message-ID`, without angle brackets.
pub uninterp spec fn mail_message_id(raw: Seq<u8>) -> Option<Seq<char>>;

/// The first `text/plain` body.
pub uninterp spec fn mail_text_body(raw: Seq<u8>) -> Option<Seq<char>>;

/// The first `text/html` body.
pub uninterp spec fn mail_html_body(raw: Seq<u8>) -> Option<Seq<char>>;

/// The file names of the attachments, in order.
pub uninterp spec fn mail_attachment_names(raw: Seq<u8>) -> Seq<Option<Seq<char>>>;

/// The `Date` in RFC 822 form.
pub uninterp spec fn mail_date_rfc822(raw: Seq<u8>) -> Option<Seq<char>>;

/// The `Date` in RFC 3339 form.
pub uninterp spec fn mail_date_rfc3339(raw: Seq<u8>) -> Option<Seq<char>>;

/// What `str::to_lowercase` gives (Unicode lower case).
pub uninterp spec fn unicode_lowered(s: Seq<char>) -> Seq<char>;

pub open spec fn opt_string(o: Option<String>) -> Option<Seq<char>> {
    match o {
        Some(s) => Some(s@),
        None => None,
    }
}

pub open spec fn opt_strings(v: Seq<Option<String>>) -> Seq<Option<Seq<char>>> {
    v.map_values(|o: Option<String>| opt_string(o))
}

pub open spec fn groups_view(v: Seq<Vec<Option<String>>>) -> Seq<Seq<Option<Seq<char>>>> {
    v.map_values(|g: Vec<Option<String>>| opt_strings(g@))
}

/// Whether `MessageParser::parse` succeeds on these bytes; the contract names the answer
/// (`mail_parses`).
#[verifier::external_body]
fn parses(raw: &[u8]) -> (r: bool)
    ensures
        r == mail_parses(raw@),
{
    mail_parser::MessageParser::default().parse(raw).is_some()
}

/// The `From` address groups of `Message::from` (a plain list is one group), each address as
/// `Addr::address`; the contract names the result (`mail_from_groups`).
#[verifier::external_body]
fn from_groups(raw: &[u8]) -> (r: Vec<Vec<Option<String>>>)
    ensures
        groups_view(r@) == mail_from_groups(raw@),
{
    let m = match mail_parser::MessageParser::default().parse(raw) { Some(m) => m, None => return Vec::new() };
    match m.from() {
        Some(mail_parser::Address::List(v)) => vec![v.iter().map(|x| x.address().map(|s| s.to_string())).collect()],
        Some(mail_parser::Address::Group(gs)) => gs.iter().map(|g| g.addresses.iter().map(|x| x.address().map(|s| s.to_string())).collect()).collect(),
        None => Vec::new(),
    }
}

/// The `To` address groups of `Message::to` (a plain list is one group); the contract names the
/// result (`mail_to_groups`).
#[verifier::external_body]
fn to_groups(raw: &[u8]) -> (r: Vec<Vec<Option<String>>>)
    ensures
        groups_view(r@) == mail_to_groups(raw@),
{
    let m = match mail_parser::MessageParser::default().parse(raw) { Some(m) => m, None => return Vec::new() };
    match m.to() {
        Some(mail_parser::Address::List(v)) => vec![v.iter().map(|x| x.address().map(|s| s.to_string())).collect()],
        Some(mail_parser::Address::Group(gs)) => gs.iter().map(|g| g.addresses.iter().map(|x| x.address().map(|s| s.to_string())).collect()).collect(),
        None => Vec::new(),
    }
}

/// The `Cc` address groups of `Message::cc` (a plain list is one group); the contract names the
/// result (`mail_cc_groups`).
#[verifier::external_body]
fn cc_groups(raw: &[u8]) -> (r: Vec<Vec<Option<String>>>)
    ensures
        groups_view(r@) == mail_cc_groups(raw@),
{
    let m = match mail_parser::MessageParser::default().parse(raw) { Some(m) => m, None => return Vec::new() };
    match m.cc() {
        Some(mail_parser::Address::List(v)) => vec![v.iter().map(|x| x.address().map(|s| s.to_string())).collect()],
        Some(mail_parser::Address::Group(gs)) => gs.iter().map(|g| g.addresses.iter().map(|x| x.address().map(|s| s.to_string())).collect()).collect(),
        None => Vec::new(),
    }
}

/// `Message::subject`; the contract names the result (`mail_subject`).
#[verifier::external_body]
fn subject_of(raw: &[u8]) -> (r: Option<String>)
    ensures
        opt_string(r) == mail_subject(raw@),
{
    mail_parser::MessageParser::default().parse(raw).and_then(|m| m.subject().map(|s| s.to_string()))
}

/// `Message::message_id`; the contract names the result (`mail_message_id`).
#[verifier::external_body]
fn message_id_of(raw: &[u8]) -> (r: Option<String>)
    ensures
        opt_string(r) == mail_message_id(raw@),
{
    mail_parser::MessageParser::default().parse(raw).and_then(|m| m.message_id().map(|s| s.to_string()))
}

/// `Message::body_text(0)`; the contract names the result (`mail_text_body`).
#[verifier::external_body]
fn text_body_of(raw: &[u8]) -> (r: Option<String>)
    ensures
        opt_string(r) == mail_text_body(raw@),
{
    let m = mail_parser::MessageParser::default().parse(raw)?;
    m.body_text(0).map(|t| t.into_owned())
}

/// `Message::body_html(0)`; the contract names the result (`mail_html_body`).
#[verifier::external_body]
fn html_body_of(raw: &[u8]) -> (r: Option<String>)
    ensures
        opt_string(r) == mail_html_body(raw@),
{
    let m = mail_parser::MessageParser::default().parse(raw)?;
    m.body_html(0).map(|t| t.into_owned())
}

/// The attachments' names (`Message::attachments`, `MimeHeaders::attachment_name`); the
/// contract names the result (`mail_attachment_names`).
#[verifier::external_body]
fn attachment_names_of(raw: &[u8]) -> (r: Vec<Option<String>>)
    ensures
        opt_strings(r@) == mail_attachment_names(raw@),
{
    match mail_parser::MessageParser::default().parse(raw) {
        Some(m) => m.attachments().map(|a| a.attachment_name().map(|s| s.to_string())).collect(),
        None => Vec::new(),
    }
}

/// `DateTime::to_rfc822` of `Message::date`; the contract names the result (`mail_date_rfc822`).
#[verifier::external_body]
fn date_rfc822_of(raw: &[u8]) -> (r: Option<String>)
    ensures
        opt_string(r) == mail_date_rfc822(raw@),
{
    mail_parser::MessageParser::default().parse(raw).and_then(|m| m.date().map(|d| d.to_rfc822()))
}

/// `DateTime::to_rfc3339` of `Message::date`; the contract names the result
/// (`mail_date_rfc3339`).
#[verifier::external_body]
fn date_rfc3339_of(raw: &[u8]) -> (r: Option<String>)
    ensures
        opt_string(r) == mail_date_rfc3339(raw@),
{
    mail_parser::MessageParser::default().parse(raw).and_then(|m| m.date().map(|d| d.to_rfc3339()))
}

/// `str::to_lowercase` (Unicode lower case); the contract names the result (`unicode_lowered`).
#[verifier::external_body]
pub(crate) fn to_lowercase(s: &str) -> (r: String)
    ensures
        r@ == unicode_lowered(s@),
{
    s.to_lowercase()
}


// ---------------------------------------------------------------------------
// Reading a mail
// ---------------------------------------------------------------------------

/// The addresses of a group, those that `mail-parser` gives, in order.
pub open spec fn somes(g: Seq<Option<Seq<char>>>) -> Seq<Seq<char>>
    decreases g.len(),
{
    if g.len() == 0 {
        Seq::empty()
    } else {
        match g.last() {
            Some(a) => somes(g.drop_last()).push(a),
            None => somes(g.drop_last()),
        }
    }
}

/// The addresses of an address header, groups flattened in order.
pub open spec fn addresses(gs: Seq<Seq<Option<Seq<char>>>>) -> Seq<Seq<char>>
    decreases gs.len(),
{
    if gs.len() == 0 {
        Seq::empty()
    } else {
        addresses(gs.drop_last()) + somes(gs.last())
    }
}

fn push_somes(out: &mut Vec<String>, g: &Vec<Option<String>>)
    ensures
        views_of(final(out)@) == views_of(old(out)@) + somes(opt_strings(g@)),
{
    let ghost gv = opt_strings(g@);
    let mut i: usize = 0;
    while i < g.len()
        invariant
            i <= g.len(),
            gv == opt_strings(g@),
            views_of(out@) == views_of(old(out)@) + somes(gv.take(i as int)),
        decreases g.len() - i,
    {
        assert(gv.take(i as int + 1).drop_last() =~= gv.take(i as int));
        let ghost before = out@;
        match &g[i] {
            Some(a) => {
                out.push(owned(a.as_str()));
                assert(views_of(out@) =~= views_of(before).push(a@));
            },
            None => {},
        }
        i += 1;
    }
    assert(gv.take(g.len() as int) =~= gv);
}

/// The addresses of an address header (groups flattened).
fn addr_list(gs: &Vec<Vec<Option<String>>>) -> (r: Vec<String>)
    ensures
        views_of(r@) == addresses(groups_view(gs@)),
{
    let ghost gv = groups_view(gs@);
    let mut out: Vec<String> = Vec::new();
    let mut i: usize = 0;
    while i < gs.len()
        invariant
            i <= gs.len(),
            gv == groups_view(gs@),
            views_of(out@) == addresses(gv.take(i as int)),
        decreases gs.len() - i,
    {
        assert(gv.take(i as int + 1).drop_last() =~= gv.take(i as int));
        push_somes(&mut out, &gs[i]);
        i += 1;
    }
    assert(gv.take(gs.len() as int) =~= gv);
    out
}

/// HTML with its tags dropped (everything from `<` to `>`).
pub open spec fn strip_tags(s: Seq<char>, in_tag: bool) -> Seq<char>
    decreases s.len(),
{
    if s.len() == 0 {
        Seq::empty()
    } else if s[0] == '<' {
        strip_tags(s.drop_first(), true)
    } else if s[0] == '>' {
        strip_tags(s.drop_first(), false)
    } else if !in_tag {
        seq![s[0]] + strip_tags(s.drop_first(), in_tag)
    } else {
        strip_tags(s.drop_first(), in_tag)
    }
}

fn strip_html(h: &str) -> (r: String)
    ensures
        r@ == strip_tags(h@, false),
{
    let v = chars_of(h);
    let mut out = String::new();
    let mut in_tag = false;
    let mut i: usize = 0;
    assert(v@.skip(0) =~= v@);
    while i < v.len()
        invariant
            i <= v.len(),
            out@ + strip_tags(v@.skip(i as int), in_tag) == strip_tags(v@, false),
        decreases v.len() - i,
    {
        let c = v[i];
        assert(v@.skip(i as int).drop_first() =~= v@.skip(i as int + 1));
        if c == '<' {
            in_tag = true;
        } else if c == '>' {
            in_tag = false;
        } else if !in_tag {
            let ghost before = out@;
            crate::text::push_char(&mut out, c);
            assert(before + (seq![c] + strip_tags(v@.skip(i as int + 1), in_tag)) =~= out@ + strip_tags(v@.skip(i as int + 1), in_tag));
        }
        i += 1;
    }
    assert(v@.skip(v.len() as int) =~= Seq::<char>::empty());
    assert(out@ + Seq::<char>::empty() =~= out@);
    out
}

/// The text of a mail: its plain-text body, else its HTML body without tags, else `(無本文)`.
pub open spec fn body_spec(raw: Seq<u8>) -> Seq<char> {
    match mail_text_body(raw) {
        Some(t) => t,
        None => match mail_html_body(raw) {
            Some(h) => strip_tags(h, false),
            None => "(無本文)"@,
        },
    }
}

fn body_text(raw: &[u8]) -> (r: String)
    ensures
        r@ == body_spec(raw@),
{
    match text_body_of(raw) {
        Some(t) => t,
        None => match html_body_of(raw) {
            Some(h) => strip_html(h.as_str()),
            None => owned("(無本文)"),
        },
    }
}

pub open spec fn or_empty(o: Option<Seq<char>>) -> Seq<char> {
    match o {
        Some(s) => s,
        None => Seq::empty(),
    }
}

/// The sender: the first `From` address, or empty.
pub open spec fn from_spec(raw: Seq<u8>) -> Seq<char> {
    let a = addresses(mail_from_groups(raw));
    if a.len() > 0 {
        a[0]
    } else {
        Seq::empty()
    }
}

pub open spec fn subject_spec(raw: Seq<u8>) -> Seq<char> {
    match mail_subject(raw) {
        Some(s) => s,
        None => "(無主旨)"@,
    }
}

/// The attachment names that are known, in order.
pub open spec fn attachments_spec(raw: Seq<u8>) -> Seq<Seq<char>> {
    somes(mail_attachment_names(raw))
}

/// The event content: the headers as text, a blank line, the body, and the attachment names.
pub open spec fn content_spec(raw: Seq<u8>) -> Seq<char> {
    let att = attachments_spec(raw);
    "From: "@ + from_spec(raw) + "\nTo: "@ + join_spec(addresses(mail_to_groups(raw)), "; "@) + "\nCc: "@
        + join_spec(addresses(mail_cc_groups(raw)), "; "@) + "\nSubject: "@ + subject_spec(raw) + "\nDate: "@
        + or_empty(mail_date_rfc822(raw)) + "\n\n"@ + body_spec(raw) + if att.len() == 0 {
        Seq::empty()
    } else {
        "\n\n（附件："@ + join_spec(att, "、"@) + "）"@
    }
}

/// The de-duplication key: the Message-ID, else `uidv<UIDVALIDITY>-uid<UID>`.
pub open spec fn external_ref_spec(raw: Seq<u8>, uid: u32, uidvalidity: u32) -> Seq<char> {
    let mid = or_empty(mail_message_id(raw));
    if mid.len() == 0 {
        "uidv"@ + dec_seq(uidvalidity as nat) + "-uid"@ + dec_seq(uid as nat)
    } else {
        mid
    }
}

/// The reply anchor of a message.
pub open spec fn anchor(source: Seq<char>, message_id: Seq<char>, address: Seq<char>) -> Seq<char> {
    source + ":msg:"@ + pct_encoded(message_id) + "?to="@ + pct_encoded(address)
}

/// The reply anchor of a mail: none without a Message-ID or a sender.
pub open spec fn reply_spec(source: Seq<char>, raw: Seq<u8>) -> Option<Seq<char>> {
    let mid = or_empty(mail_message_id(raw));
    let from = from_spec(raw);
    if mid.len() == 0 || from.len() == 0 {
        None
    } else {
        Some(anchor(source, mid, from))
    }
}

/// The recipients that routes are matched against: `To` then `Cc`, lower-cased.
pub open spec fn recipients_spec(raw: Seq<u8>) -> Seq<Seq<char>> {
    (addresses(mail_to_groups(raw)) + addresses(mail_cc_groups(raw))).map_values(|a: Seq<char>| unicode_lowered(a))
}

/// The routes whose address (lower-cased) is among the recipients, in configuration order.
pub open spec fn routed(routes: Seq<RouteCfg>, rcpts: Seq<Seq<char>>) -> Seq<RouteCfg>
    decreases routes.len(),
{
    if routes.len() == 0 {
        Seq::empty()
    } else {
        let rest = routed(routes.drop_last(), rcpts);
        if rcpts.contains(unicode_lowered(routes.last().address@)) {
            rest.push(routes.last())
        } else {
            rest
        }
    }
}

/// A route is taken exactly when its address, lower-cased, is one of the recipients: every route
/// taken is a configured route whose address is among them, and every configured route whose
/// address is among them is taken.
pub proof fn lemma_routed_members(routes: Seq<RouteCfg>, rcpts: Seq<Seq<char>>)
    ensures
        forall|k: int|
            0 <= k < routes.len() && rcpts.contains(unicode_lowered((#[trigger] routes[k]).address@)) ==> routed(
                routes,
                rcpts,
            ).contains(routes[k]),
        forall|j: int|
            0 <= j < routed(routes, rcpts).len() ==> routes.contains(#[trigger] routed(routes, rcpts)[j])
                && rcpts.contains(unicode_lowered(routed(routes, rcpts)[j].address@)),
    decreases routes.len(),
{
    if routes.len() > 0 {
        let p = routes.drop_last();
        lemma_routed_members(p, rcpts);
        let rp = routed(p, rcpts);
        let r = routed(routes, rcpts);
        assert forall|k: int|
            0 <= k < routes.len() && rcpts.contains(unicode_lowered((#[trigger] routes[k]).address@)) implies r.contains(
            routes[k],
        ) by {
            if k < p.len() {
                assert(p[k] == routes[k]);
                assert(rp.contains(p[k]));
                let j = choose|j: int| 0 <= j < rp.len() && rp[j] == p[k];
                if r != rp {
                    assert(r[j] == rp[j]);
                }
            } else {
                assert(routes[k] == routes.last());
                assert(r[r.len() - 1] == routes.last());
            }
        }
        assert forall|j: int| 0 <= j < r.len() implies routes.contains(#[trigger] r[j]) && rcpts.contains(
            unicode_lowered(r[j].address@),
        ) by {
            if j < rp.len() {
                if r != rp {
                    assert(r[j] == rp[j]);
                }
                assert(p.contains(rp[j]));
                let k = choose|k: int| 0 <= k < p.len() && p[k] == rp[j];
                assert(routes[k] == p[k]);
            } else {
                assert(r[j] == routes.last());
                assert(routes[routes.len() - 1] == routes.last());
            }
        }
    }
}

/// `x` is the lower-cased form of some address of the mail's `To` or `Cc` header.
pub open spec fn addressed_to(raw: Seq<u8>, x: Seq<char>) -> bool {
    exists|a: Seq<char>|
        (addresses(mail_to_groups(raw)).contains(a) || addresses(mail_cc_groups(raw)).contains(a)) && unicode_lowered(a)
            == x
}

/// The recipients a mail is routed by are its `To` and its `Cc` addresses, each lower-cased: a
/// configured route whose address matches any address of either header (without regard to case)
/// yields one of the mail's events.
pub proof fn lemma_to_and_cc_route(routes: Seq<RouteCfg>, raw: Seq<u8>, k: int, a: Seq<char>)
    requires
        0 <= k < routes.len(),
        addresses(mail_to_groups(raw)).contains(a) || addresses(mail_cc_groups(raw)).contains(a),
        unicode_lowered(routes[k].address@) == unicode_lowered(a),
    ensures
        routed(routes, recipients_spec(raw)).contains(routes[k]),
{
    let tos = addresses(mail_to_groups(raw));
    let ccs = addresses(mail_cc_groups(raw));
    let all = tos + ccs;
    let rc = recipients_spec(raw);
    if tos.contains(a) {
        let j = choose|j: int| 0 <= j < tos.len() && tos[j] == a;
        assert(all[j] == a);
        assert(rc[j] == unicode_lowered(a));
    } else {
        let j = choose|j: int| 0 <= j < ccs.len() && ccs[j] == a;
        assert(all[tos.len() + j] == a);
        assert(rc[tos.len() + j] == unicode_lowered(a));
    }
    assert(rc.contains(unicode_lowered(routes[k].address@)));
    lemma_routed_members(routes, rc);
}

/// `e` is the event that a mail gives for route `route`.
pub open spec fn mail_event(e: InboundEvent, source: Seq<char>, route: RouteCfg, m: RawMail) -> bool {
    &&& e.kind == EventKind::ExternalMessage
    &&& e.source@ == source
    &&& e.brain_id == route.brain
    &&& e.employee_id == route.employee
    &&& e.title@ == subject_spec(m.raw@)
    &&& e.content@ == content_spec(m.raw@)
    &&& opt_string(e.external_ref) == Some(external_ref_spec(m.raw@, m.uid, m.uidvalidity))
    &&& opt_string(e.occurred_at) == mail_date_rfc3339(m.raw@)
    &&& opt_string(e.reply_to) == reply_spec(source, m.raw@)
    &&& e.category is None
}

// ---------------------------------------------------------------------------
// Reply anchors
// ---------------------------------------------------------------------------

/// Why a reply anchor could not be read.
#[derive(Debug, Clone, Copy, PartialEq, Eq, Structural)]
pub enum AnchorError {
    /// The Message-ID part is not percent-encoded UTF-8.
    BadMessageId,
    /// The address part is not percent-encoded UTF-8.
    BadAddress,
    /// The anchor has no `?to=` part.
    NoAddress,
}

/// The target of a reply: an anchor of this channel gives the thread's Message-ID and the
/// address; anything else is an explicit address.
pub open spec fn parse_to_spec(source: Seq<char>, to: Seq<char>) -> Result<(Option<Seq<char>>, Seq<char>), AnchorError> {
    let prefix = source + ":msg:"@;
    if !has_prefix(to, prefix) {
        Ok((None, to))
    } else {
        let rest = to.skip(prefix.len() as int);
        match pct_decoded(before_first(rest, "?to="@)) {
            None => Err(AnchorError::BadMessageId),
            Some(mid) => match after_first(rest, "?to="@) {
                None => Err(AnchorError::NoAddress),
                Some(t) => match pct_decoded(t) {
                    None => Err(AnchorError::BadAddress),
                    Some(a) => Ok((Some(mid), a)),
                },
            },
        }
    }
}

/// The message for an anchor that could not be read.
pub open spec fn anchor_error_prefix(e: AnchorError) -> Seq<char> {
    match e {
        AnchorError::BadMessageId => "錨點 Message-ID 解碼失敗："@,
        AnchorError::BadAddress => "錨點回覆地址解碼失敗："@,
        AnchorError::NoAddress => "錨點缺少 ?to= 回覆地址（無法送達）"@,
    }
}

/// Reading an anchor that a mail's events carry gives back the mail's Message-ID and sender.
pub proof fn lemma_anchor_roundtrip(source: Seq<char>, message_id: Seq<char>, address: Seq<char>)
    ensures
        parse_to_spec(source, anchor(source, message_id, address)) == Ok::<(Option<Seq<char>>, Seq<char>), AnchorError>(
            (Some(message_id), address),
        ),
{
    let prefix = source + ":msg:"@;
    let em = pct_encoded(message_id);
    let ea = pct_encoded(address);
    let key = "?to="@;
    let to = anchor(source, message_id, address);
    reveal_strlit("?to=");
    assert(to =~= prefix + (em + key + ea));
    assert(to.subrange(0, prefix.len() as int) =~= prefix);
    let rest = to.skip(prefix.len() as int);
    assert(rest =~= em + key + ea);
    lemma_pct_no_question(message_id);
    let k = em.len() as int;
    assert(rest.subrange(k, k + key.len()) =~= key);
    assert forall|j: int| 0 <= j < k implies !crate::text::occurs_at(rest, key, j) by {
        assert(rest[j] == em[j]);
        if crate::text::occurs_at(rest, key, j) {
            assert(rest.subrange(j, j + key.len())[0] == key[0]);
        }
    }
    assert(first_occ(rest, key, k));
    lemma_first_occ_unique(rest, key, k);
    assert(before_first(rest, key) =~= em);
    assert(rest.skip(k + key.len()) =~= ea);
    assert(after_first(rest, key) == Some(ea));
    lemma_pct_roundtrip(message_id);
    lemma_pct_roundtrip(address);
}

// ---------------------------------------------------------------------------
// The channel
// ---------------------------------------------------------------------------

/// One mail as fetched: its UID, the mailbox's UIDVALIDITY and the RFC 822 bytes.
#[derive(Debug, Clone)]
pub struct RawMail {
    pub uid: u32,
    pub uidvalidity: u32,
    pub raw: Vec<u8>,
}

/// The mail already seen: the mailbox's UIDVALIDITY and the last UID taken.
#[derive(Debug, Clone, Copy, Default, PartialEq, Eq)]
pub struct Seen {
    pub uidvalidity: u32,
    pub last_uid: u32,
}

/// What a mail source may hand back for `seen`: a new state whose last UID is not before the one
/// already seen (for its UIDVALIDITY), and mail of that UIDVALIDITY whose UIDs lie after the seen
/// one and not after the new last UID.
pub open spec fn fetch_fits(seen: Seen, mails: Seq<RawMail>, s: Seen) -> bool {
    &&& fetch_after(seen, s.uidvalidity) <= s.last_uid
    &&& forall|i: int|
        0 <= i < mails.len() ==> (#[trigger] mails[i]).uidvalidity == s.uidvalidity && fetch_after(
            seen,
            s.uidvalidity,
        ) < mails[i].uid <= s.last_uid
}

/// Where new mail comes from.
pub trait MailSource {
    /// The mail after `seen.last_uid` (everything when the mailbox's UIDVALIDITY changed), and the
    /// new state.
    fn fetch_new(&self, seen: &Seen) -> (r: Result<(Vec<RawMail>, Seen), String>)
        ensures
            r matches Ok(x) ==> fetch_fits(*seen, x.0@, x.1),
    ;
}

/// One mail to send; the anchor has been read already.
#[derive(Debug, Clone)]
pub struct OutgoingMail {
    pub to: String,
    pub from_addr: String,
    pub from_name: Option<String>,
    pub subject: String,
    pub body: String,
    /// The Message-ID to answer (sets `In-Reply-To` and `References`).
    pub in_reply_to: Option<String>,
}

/// Where outgoing mail goes.
pub trait MailSink {
    fn send_mail(&self, mail: OutgoingMail) -> Result<(), String>;
}

/// The IMAP server of a channel.
pub struct ImapSource {
    pub cfg: ImapCfg,
}

impl ImapSource {
    pub fn new(cfg: ImapCfg) -> (r: ImapSource)
        ensures
            r.cfg == cfg,
    {
        ImapSource { cfg }
    }
}

/// The UID after which mail is new: the seen one, unless the mailbox was rebuilt (its
/// UIDVALIDITY changed), when everything is new.
pub open spec fn fetch_after(seen: Seen, uidvalidity: u32) -> u32 {
    if uidvalidity == seen.uidvalidity {
        seen.last_uid
    } else {
        0
    }
}

pub open spec fn sorted(v: Seq<u32>) -> bool {
    forall|i: int, j: int| 0 <= i <= j < v.len() ==> v[i] <= v[j]
}

/// The count of UIDs above `last`.
pub open spec fn count_above(uids: Seq<u32>, last: u32) -> nat
    decreases uids.len(),
{
    if uids.len() == 0 {
        0
    } else {
        count_above(uids.drop_last(), last) + if uids.last() > last { 1nat } else { 0 }
    }
}

/// Which mail to fetch from a mailbox with this UIDVALIDITY and these UIDs: the UIDs after the
/// seen one, in ascending order, and the state after fetching them (the last UID fetched, or the
/// previous one when nothing is new).
#[verifier::spinoff_prover]
#[verifier::rlimit(30)]
pub fn plan_fetch(seen: &Seen, uidvalidity: u32, uids: &Vec<u32>) -> (r: (Vec<u32>, Seen))
    ensures
        sorted(r.0@),
        forall|x: u32| r.0@.contains(x) <==> (uids@.contains(x) && x > fetch_after(*seen, uidvalidity)),
        r.0@.len() == count_above(uids@, fetch_after(*seen, uidvalidity)),
        r.1.uidvalidity == uidvalidity,
        r.1.last_uid == (if r.0@.len() == 0 { fetch_after(*seen, uidvalidity) } else { r.0@.last() }),
{
    let last = if uidvalidity == seen.uidvalidity { seen.last_uid } else { 0 };
    let mut v: Vec<u32> = Vec::new();
    let mut i: usize = 0;
    while i < uids.len()
        invariant
            i <= uids.len(),
            last == fetch_after(*seen, uidvalidity),
            sorted(v@),
            forall|x: u32| v@.contains(x) <==> (uids@.take(i as int).contains(x) && x > last),
            v@.len() == count_above(uids@.take(i as int), last),
        decreases uids.len() - i,
    {
        let u = uids[i];
        let ghost t0 = uids@.take(i as int);
        let ghost t1 = uids@.take(i as int + 1);
        assert(t1.drop_last() =~= t0);
        assert(t1 =~= t0.push(u));
        if u > last {
            let mut pos: usize = 0;
            while pos < v.len() && v[pos] <= u
                invariant
                    pos <= v.len(),
                    forall|k: int| 0 <= k < pos ==> v@[k] <= u,
                decreases v.len() - pos,
            {
                pos += 1;
            }
            let ghost old_v = v@;
            v.insert(pos, u);
            assert forall|a: int, b: int| 0 <= a <= b < v@.len() implies v@[a] <= v@[b] by {
                if a < pos as int && b > pos as int {
                    assert(v@[a] == old_v[a]);
                    assert(v@[b] == old_v[b - 1]);
                } else if b < pos as int {
                    assert(v@[a] == old_v[a] && v@[b] == old_v[b]);
                } else if a > pos as int {
                    assert(v@[a] == old_v[a - 1] && v@[b] == old_v[b - 1]);
                } else if a == pos as int && b > pos as int {
                    assert(v@[b] == old_v[b - 1]);
                    if pos < old_v.len() {
                        assert(old_v[pos as int] > u);
                    }
                } else if b == pos as int && a < pos as int {
                    assert(v@[a] == old_v[a]);
                }
            }
            assert forall|x: u32| v@.contains(x) <==> (t1.contains(x) && x > last) by {
                if v@.contains(x) {
                    let k = choose|k: int| 0 <= k < v@.len() && v@[k] == x;
                    if k < pos as int {
                        assert(old_v[k] == x);
                        assert(old_v.contains(x));
                    } else if k > pos as int {
                        assert(old_v[k - 1] == x);
                        assert(old_v.contains(x));
                    }
                    assert(t1[i as int] == u);
                    if x != u {
                        let w = choose|w: int| 0 <= w < t0.len() && t0[w] == x;
                        assert(t1[w] == x);
                    }
                }
                if t1.contains(x) && x > last {
                    let w = choose|w: int| 0 <= w < t1.len() && t1[w] == x;
                    if w < i as int {
                        assert(t0[w] == x);
                        assert(old_v.contains(x));
                        let k = choose|k: int| 0 <= k < old_v.len() && old_v[k] == x;
                        if k < pos as int {
                            assert(v@[k] == x);
                        } else {
                            assert(v@[k + 1] == x);
                        }
                    } else {
                        assert(v@[pos as int] == u);
                    }
                }
            }
        } else {
            assert forall|x: u32| v@.contains(x) <==> (t1.contains(x) && x > last) by {
                if t1.contains(x) && x > last {
                    let w = choose|w: int| 0 <= w < t1.len() && t1[w] == x;
                    if w < i as int {
                        assert(t0[w] == x);
                    }
                }
                if v@.contains(x) {
                    let w = choose|w: int| 0 <= w < t0.len() && t0[w] == x;
                    assert(t1[w] == x);
                }
            }
        }
        i += 1;
    }
    assert(uids@.take(uids.len() as int) =~= uids@);
    let new_last = if v.len() == 0 { last } else { v[v.len() - 1] };
    (v, Seen { uidvalidity, last_uid: new_last })
}

/// The mail of one fetch: of what the server answered (UID and RFC 822 bytes, in its order), the
/// mail whose UID the fetch asked for.
pub open spec fn planned_mails(planned: Seq<u32>, uidvalidity: u32, fetched: Seq<(u32, Vec<u8>)>) -> Seq<RawMail>
    decreases fetched.len(),
{
    if fetched.len() == 0 {
        Seq::empty()
    } else {
        let f = fetched.last();
        let rest = planned_mails(planned, uidvalidity, fetched.drop_last());
        if planned.contains(f.0) {
            rest.push(RawMail { uid: f.0, uidvalidity, raw: f.1 })
        } else {
            rest
        }
    }
}

/// The outcome of a fetch from a mailbox with this UIDVALIDITY and these UIDs, given what the
/// server answered for the UIDs that `plan_fetch` asked for: the planned mail and the new state.
/// It always fits what a mail source may hand back.
pub fn fetch_outcome(seen: &Seen, uidvalidity: u32, uids: &Vec<u32>, fetched: Vec<(u32, Vec<u8>)>) -> (r: (
    Vec<RawMail>,
    Seen,
))
    ensures
        r.1.uidvalidity == uidvalidity,
        forall|x: u32| uids@.contains(x) && x > fetch_after(*seen, uidvalidity) ==> x <= r.1.last_uid,
        r.1.last_uid == fetch_after(*seen, uidvalidity) || (uids@.contains(r.1.last_uid) && r.1.last_uid
            > fetch_after(*seen, uidvalidity)),
        exists|planned: Seq<u32>|
            (forall|x: u32| #[trigger] planned.contains(x) <==> (uids@.contains(x) && x > fetch_after(*seen, uidvalidity)))
                && r.0@ == planned_mails(planned, uidvalidity, fetched@),
        fetch_fits(*seen, r.0@, r.1),
{
    let (plan, state) = plan_fetch(seen, uidvalidity, uids);
    let ghost after = fetch_after(*seen, uidvalidity);
    proof {
        if plan@.len() > 0 {
            assert(plan@.contains(plan@.last()));
        }
        assert forall|x: u32| uids@.contains(x) && x > after implies x <= state.last_uid by {
            assert(plan@.contains(x));
            let k = choose|k: int| 0 <= k < plan@.len() && plan@[k] == x;
            assert(plan@[k] <= plan@[plan@.len() - 1]);
        }
    }
    let mut mails: Vec<RawMail> = Vec::new();
    let mut fetched = fetched;
    let ghost all = fetched@;
    let ghost mut taken: Seq<(u32, Vec<u8>)> = Seq::empty();
    while fetched.len() > 0
        invariant
            all == taken + fetched@,
            mails@ == planned_mails(plan@, uidvalidity, taken),
            forall|x: u32| plan@.contains(x) <==> (uids@.contains(x) && x > after),
            forall|x: u32| uids@.contains(x) && x > after ==> x <= state.last_uid,
            state.uidvalidity == uidvalidity,
            after == fetch_after(*seen, uidvalidity),
            forall|k: int|
                0 <= k < mails@.len() ==> (#[trigger] mails@[k]).uidvalidity == uidvalidity && after < mails@[k].uid
                    <= state.last_uid,
        decreases fetched.len(),
    {
        let (uid, raw) = fetched.remove(0);
        let ghost f = (uid, raw);
        let ghost before = taken;
        let mut j: usize = 0;
        let mut found = false;
        while j < plan.len()
            invariant
                j <= plan@.len(),
                found == (exists|k: int| 0 <= k < j && plan@[k] == uid),
            decreases plan@.len() - j,
        {
            if plan[j] == uid {
                found = true;
            }
            j += 1;
        }
        proof {
            taken = taken.push(f);
            assert(taken.drop_last() =~= before);
            assert(found == plan@.contains(uid));
        }
        if found {
            mails.push(RawMail { uid, uidvalidity, raw });
        }
        assert(all =~= taken + fetched@);
    }
    assert(taken =~= all);
    (mails, state)
}

/// The SMTP server of a channel.
pub struct SmtpSink {
    pub cfg: SmtpCfg,
}

impl SmtpSink {
    pub fn new(cfg: SmtpCfg) -> (r: SmtpSink)
        ensures
            r.cfg == cfg,
    {
        SmtpSink { cfg }
    }
}

/// An `email-imap` channel instance with its mail source and sink.
pub struct EmailImapChannel<S, K> {
    pub cfg: EmailImapCfg,
    pub source: String,
    pub mail_source: S,
    pub mail_sink: K,
    /// Where the seen-mail state is kept.
    pub state_path: String,
}

impl EmailImapChannel<ImapSource, SmtpSink> {
    /// The channel for a configuration, talking to its IMAP and SMTP servers; the state file is
    /// the configured one or `<source>-state.json` joined under `state_dir`. A channel without its
    /// `email_imap` section is an error.
    pub fn new(cfg: ChannelCfg, state_dir: &str) -> (r: Result<EmailImapChannel<ImapSource, SmtpSink>, String>)
        ensures
            cfg.email_imap is None <==> r is Err,
            r matches Err(m) ==> m@ == "email-imap 通道 "@ + cfg.source@ + " 缺少設定"@,
            r matches Ok(ch) ==> ch.cfg == cfg.email_imap->0 && ch.source == cfg.source
                && ch.mail_source.cfg == cfg.email_imap->0.imap && ch.mail_sink.cfg == cfg.email_imap->0.smtp
                && (cfg.email_imap->0.state_file matches Some(p) ==> ch.state_path == p) && (cfg.email_imap->0.state_file
                is None && !cfg.source@.contains('/') && !cfg.source@.contains('\\') && !cfg.source@.contains(':')
                ==> crate::app_config::joined_under(state_dir@, cfg.source@ + "-state.json"@, ch.state_path@)),
    {
        proof {
            reveal_strlit("-state.json");
        }
        let ChannelCfg { channel_type, source, email_imap } = cfg;
        let e = match email_imap {
            Some(e) => e,
            None => {
                let mut m = owned("email-imap 通道 ");
                push_str(&mut m, source.as_str());
                push_str(&mut m, " 缺少設定");
                return Err(m);
            },
        };
        let state_path = match &e.state_file {
            Some(p) => p.clone(),
            None => {
                let mut f = owned(source.as_str());
                push_str(&mut f, "-state.json");
                proof {
                    let n = source@.len();
                    if !source@.contains('/') && !source@.contains('\\') && !source@.contains(':') {
                        assert forall|i: int| 0 <= i < f@.len() implies f@[i] != '/' && f@[i] != '\\' && f@[i] != ':' by {
                            if i < n {
                                assert(f@[i] == source@[i]);
                            } else {
                                assert(f@[i] == "-state.json"@[i - n]);
                            }
                        }
                    }
                }
                crate::app_config::path_join(state_dir, f.as_str())
            },
        };
        let imap = ImapSource::new(e.imap.copy());
        let smtp = SmtpSink::new(e.smtp.copy());
        Ok(EmailImapChannel { cfg: e, source, mail_source: imap, mail_sink: smtp, state_path })
    }
}

impl<S, K> EmailImapChannel<S, K> {
    /// A channel with the given mail source and sink.
    pub fn with_io(cfg: ChannelCfg, mail_source: S, mail_sink: K, state_path: String) -> (r: EmailImapChannel<S, K>)
        requires
            cfg.email_imap is Some,
        ensures
            r.cfg == cfg.email_imap->0,
            r.source == cfg.source,
            r.mail_source == mail_source,
            r.mail_sink == mail_sink,
            r.state_path == state_path,
    {
        let ChannelCfg { channel_type, source, email_imap } = cfg;
        let e = email_imap.unwrap();
        EmailImapChannel { cfg: e, source, mail_source, mail_sink, state_path }
    }

    /// The channel's source label.
    pub fn source(&self) -> (r: &str)
        ensures
            r@ == self.source@,
    {
        self.source.as_str()
    }

    /// The events of one mail: one per route whose address is among its `To`/`Cc` recipients
    /// (none for a mail that does not parse or that no route matches).
    pub fn build_events(&self, m: &RawMail) -> (r: Vec<InboundEvent>)
        requires
            m.raw@.len() < usize::MAX,
        ensures
            !mail_parses(m.raw@) ==> r@.len() == 0,
            mail_parses(m.raw@) ==> {
                let hits = routed(self.cfg.routes@, recipients_spec(m.raw@));
                &&& r@.len() == hits.len()
                &&& forall|i: int| 0 <= i < r@.len() ==> mail_event(#[trigger] r@[i], self.source@, hits[i], *m)
            },
            mail_parses(m.raw@) ==> forall|k: int|
                0 <= k < self.cfg.routes@.len() && addressed_to(
                    m.raw@,
                    unicode_lowered((#[trigger] self.cfg.routes@[k]).address@),
                ) ==> exists|i: int|
                    0 <= i < r@.len() && r@[i].employee_id == self.cfg.routes@[k].employee && r@[i].brain_id
                        == self.cfg.routes@[k].brain,
    {
        let raw = m.raw.as_slice();
        if !parses(raw) {
            return Vec::new();
        }
        let froms = addr_list(&from_groups(raw));
        let from = if froms.len() > 0 {
            owned(froms[0].as_str())
        } else {
            String::new()
        };
        assert(from@ == from_spec(m.raw@));
        let tos = addr_list(&to_groups(raw));
        let ccs = addr_list(&cc_groups(raw));
        let subject = match subject_of(raw) {
            Some(s) => s,
            None => owned("(無主旨)"),
        };
        let message_id = match message_id_of(raw) {
            Some(s) => s,
            None => String::new(),
        };
        let body = body_text(raw);
        let names = attachment_names_of(raw);
        let mut atts: Vec<String> = Vec::new();
        push_somes(&mut atts, &names);
        assert(views_of(atts@) =~= attachments_spec(m.raw@));
        let external_ref = if message_id.as_str().is_empty() {
            let mut x = owned("uidv");
            push_dec(&mut x, m.uidvalidity as u128);
            push_str(&mut x, "-uid");
            push_dec(&mut x, m.uid as u128);
            x
        } else {
            message_id.clone()
        };
        assert(external_ref@ =~= external_ref_spec(m.raw@, m.uid, m.uidvalidity));
        let reply_to = if message_id.as_str().is_empty() || from.as_str().is_empty() {
            None
        } else {
            let mut a = owned(self.source.as_str());
            push_str(&mut a, ":msg:");
            let em = pct_encode(message_id.as_str());
            push_str(&mut a, em.as_str());
            push_str(&mut a, "?to=");
            let ef = pct_encode(from.as_str());
            push_str(&mut a, ef.as_str());
            assert(a@ =~= anchor(self.source@, message_id@, from@));
            Some(a)
        };
        assert(opt_string(reply_to) == reply_spec(self.source@, m.raw@));
        let mut content = owned("From: ");
        push_str(&mut content, from.as_str());
        push_str(&mut content, "\nTo: ");
        let tj = join(&tos, "; ");
        push_str(&mut content, tj.as_str());
        push_str(&mut content, "\nCc: ");
        let cj = join(&ccs, "; ");
        push_str(&mut content, cj.as_str());
        push_str(&mut content, "\nSubject: ");
        push_str(&mut content, subject.as_str());
        push_str(&mut content, "\nDate: ");
        match date_rfc822_of(raw) {
            Some(d) => push_str(&mut content, d.as_str()),
            None => {},
        }
        push_str(&mut content, "\n\n");
        push_str(&mut content, body.as_str());
        if atts.len() > 0 {
            push_str(&mut content, "\n\n（附件：");
            let aj = join(&atts, "、");
            push_str(&mut content, aj.as_str());
            push_str(&mut content, "）");
        }
        assert(content@ =~= content_spec(m.raw@));
        let rcpts = lower_all(&tos, &ccs);
        assert(views_of(rcpts@) =~= recipients_spec(m.raw@));
        let occurred = date_rfc3339_of(raw);
        let routes = &self.cfg.routes;
        let ghost hits_all = routed(routes@, views_of(rcpts@));
        let mut out: Vec<InboundEvent> = Vec::new();
        let mut i: usize = 0;
        while i < routes.len()
            invariant
                i <= routes.len(),
                routes@ == self.cfg.routes@,
                out@.len() == routed(routes@.take(i as int), views_of(rcpts@)).len(),
                forall|k: int|
                    0 <= k < out@.len() ==> mail_event(
                        #[trigger] out@[k],
                        self.source@,
                        routed(routes@.take(i as int), views_of(rcpts@))[k],
                        *m,
                    ),
                subject@ == subject_spec(m.raw@),
                content@ == content_spec(m.raw@),
                external_ref@ == external_ref_spec(m.raw@, m.uid, m.uidvalidity),
                opt_string(occurred) == mail_date_rfc3339(m.raw@),
                opt_string(reply_to) == reply_spec(self.source@, m.raw@),
            decreases routes.len() - i,
        {
            let r = &routes[i];
            let key = to_lowercase(r.address.as_str());
            let hit = contains_string(&rcpts, key.as_str());
            let ghost pre = routed(routes@.take(i as int), views_of(rcpts@));
            assert(routes@.take(i as int + 1).drop_last() =~= routes@.take(i as int));
            if hit {
                let e = InboundEvent {
                    kind: EventKind::ExternalMessage,
                    source: self.source.clone(),
                    brain_id: copy_opt(&r.brain),
                    employee_id: copy_opt(&r.employee),
                    title: subject.clone(),
                    content: content.clone(),
                    external_ref: Some(external_ref.clone()),
                    occurred_at: copy_opt(&occurred),
                    reply_to: copy_opt(&reply_to),
                    category: None,
                };
                out.push(e);
                assert(routed(routes@.take(i as int + 1), views_of(rcpts@)) == pre.push(*r));
            }
            i += 1;
        }
        assert(routes@.take(routes.len() as int) =~= routes@);
        proof {
            let hits = routed(self.cfg.routes@, recipients_spec(m.raw@));
            assert forall|k: int|
                0 <= k < self.cfg.routes@.len() && addressed_to(
                    m.raw@,
                    unicode_lowered((#[trigger] self.cfg.routes@[k]).address@),
                ) implies exists|i: int|
                0 <= i < out@.len() && out@[i].employee_id == self.cfg.routes@[k].employee && out@[i].brain_id
                    == self.cfg.routes@[k].brain by {
                let a = choose|a: Seq<char>|
                    (addresses(mail_to_groups(m.raw@)).contains(a) || addresses(mail_cc_groups(m.raw@)).contains(a))
                        && unicode_lowered(a) == unicode_lowered(self.cfg.routes@[k].address@);
                lemma_to_and_cc_route(self.cfg.routes@, m.raw@, k, a);
                let j = choose|j: int| 0 <= j < hits.len() && hits[j] == self.cfg.routes@[k];
                assert(mail_event(out@[j], self.source@, hits[j], *m));
            }
        }
        out
    }

    /// The mail that a reply becomes: to the anchor's address (answering its Message-ID, in
    /// angle brackets) or to the explicit address; from the employee's sender identity or the
    /// SMTP account; with the configured subject, prefixed `Re: ` for an answer.
    pub fn plan_send(&self, to: &str, employee_id: &str, text: &str) -> (r: Result<OutgoingMail, String>)
        ensures
            match parse_to_spec(self.source@, to@) {
                Ok((mid, addr)) => r matches Ok(m) && m.to@ == addr && m.body@ == text@
                    && opt_string(m.in_reply_to) == (match mid {
                        Some(x) => Some(bracketed(x)),
                        None => None,
                    }) && m.subject@ == (if mid is Some {
                        "Re: "@ + self.cfg.smtp.subject@
                    } else {
                        self.cfg.smtp.subject@
                    }) && sender_of(self.cfg.senders@, self.cfg.smtp.username@, employee_id@) == (
                        m.from_addr@,
                        opt_string(m.from_name),
                    ),
                Err(e) => r matches Err(msg) && has_prefix(msg@, anchor_error_prefix(e)),
            },
    {
        let (in_reply_to, addr) = match self.parse_to(to) {
            Ok(p) => p,
            Err(e) => return Err(e),
        };
        let in_reply_to = match in_reply_to {
            Some(mid) => Some(bracket(mid.as_str())),
            None => None,
        };
        let senders = &self.cfg.senders;
        let found = find_sender(senders, employee_id);
        let (from_addr, from_name) = match found {
            Some(k) => {
                proof { lemma_first_sender(senders@, employee_id@, k as int); }
                (senders[k].address.clone(), copy_opt(&senders[k].name))
            },
            None => (self.cfg.smtp.username.clone(), None),
        };
        let subject = match &in_reply_to {
            Some(_) => {
                let mut s = owned("Re: ");
                push_str(&mut s, self.cfg.smtp.subject.as_str());
                s
            },
            None => self.cfg.smtp.subject.clone(),
        };
        Ok(OutgoingMail { to: addr, from_addr, from_name, subject, body: owned(text), in_reply_to })
    }

    /// The target of a reply (see [`parse_to_spec`]).
    pub fn parse_to(&self, to: &str) -> (r: Result<(Option<String>, String), String>)
        ensures
            match parse_to_spec(self.source@, to@) {
                Ok((mid, addr)) => r matches Ok(p) && opt_string(p.0) == mid && p.1@ == addr,
                Err(e) => r matches Err(msg) && has_prefix(msg@, anchor_error_prefix(e)),
            },
    {
        let mut prefix = owned(self.source.as_str());
        push_str(&mut prefix, ":msg:");
        let tv = chars_of(to);
        let pv = chars_of(prefix.as_str());
        if !crate::text::occurs_at_exec(&tv, &pv, 0) {
            return Ok((None, owned(to)));
        }
        let rest = crate::text::slice_chars(&tv, pv.len(), tv.len());
        assert(rest@ =~= to@.skip(prefix@.len() as int));
        let key = chars_of("?to=");
        let (mid_part, to_part) = match find_first(&rest, &key) {
            Some(k) => {
                let a = crate::text::slice_chars(&rest, 0, k);
                assert(a@ =~= before_first(rest@, "?to="@));
                let kl = key.len();
                let rl = rest.len();
                let b = crate::text::slice_chars(&rest, k + kl, rl);
                assert(b@ =~= rest@.skip(k + "?to="@.len()));
                (a, Some(b))
            },
            None => {
                assert(rest@ =~= before_first(rest@, "?to="@));
                (rest, None)
            },
        };
        let mid_s = string_of(&mid_part);
        let mid = match pct_decode(mid_s.as_str()) {
            Ok(x) => x,
            Err(e) => {
                let mut msg = owned("錨點 Message-ID 解碼失敗：");
                push_str(&mut msg, e.as_str());
                assert(msg@.subrange(0, "錨點 Message-ID 解碼失敗："@.len() as int) =~= "錨點 Message-ID 解碼失敗："@);
                return Err(msg);
            },
        };
        let addr = match to_part {
            Some(t) => {
                let ts = string_of(&t);
                match pct_decode(ts.as_str()) {
                    Ok(x) => x,
                    Err(e) => {
                        let mut msg = owned("錨點回覆地址解碼失敗：");
                        push_str(&mut msg, e.as_str());
                        assert(msg@.subrange(0, "錨點回覆地址解碼失敗："@.len() as int) =~= "錨點回覆地址解碼失敗："@);
                        return Err(msg);
                    },
                }
            },
            None => {
                let msg = owned("錨點缺少 ?to= 回覆地址（無法送達）");
                assert(msg@.subrange(0, msg@.len() as int) =~= msg@);
                return Err(msg);
            },
        };
        Ok((Some(mid), addr))
    }
}

/// A Message-ID in angle brackets (as `In-Reply-To` needs it).
pub open spec fn bracketed(x: Seq<char>) -> Seq<char> {
    if has_prefix(x, "<"@) && crate::text::has_suffix(x, ">"@) {
        x
    } else {
        "<"@ + x + ">"@
    }
}

fn bracket(x: &str) -> (r: String)
    ensures
        r@ == bracketed(x@),
{
    if crate::text::starts_with_str(x, "<") && crate::text::ends_with_str(x, ">") {
        owned(x)
    } else {
        let mut s = owned("<");
        push_str(&mut s, x);
        push_str(&mut s, ">");
        s
    }
}

/// `i` is the first sender identity of `employee`.
pub open spec fn first_sender(ss: Seq<SenderCfg>, employee: Seq<char>, i: int) -> bool {
    &&& 0 <= i < ss.len()
    &&& ss[i].employee@ == employee
    &&& forall|j: int| 0 <= j < i ==> ss[j].employee@ != employee
}

/// The sender of an employee's mail: its first sender identity (address and name), else the
/// SMTP account without a name.
pub open spec fn sender_of(ss: Seq<SenderCfg>, account: Seq<char>, employee: Seq<char>) -> (Seq<char>, Option<Seq<char>>) {
    if exists|i: int| first_sender(ss, employee, i) {
        let i = choose|i: int| first_sender(ss, employee, i);
        (ss[i].address@, opt_string(ss[i].name))
    } else {
        (account, None)
    }
}

fn find_sender(ss: &Vec<SenderCfg>, employee: &str) -> (r: Option<usize>)
    ensures
        match r {
            Some(k) => first_sender(ss@, employee@, k as int),
            None => forall|j: int| 0 <= j < ss@.len() ==> ss@[j].employee@ != employee@,
        },
{
    let mut i: usize = 0;
    while i < ss.len()
        invariant
            i <= ss.len(),
            forall|k: int| 0 <= k < i ==> ss@[k].employee@ != employee@,
        decreases ss.len() - i,
    {
        if str_eq(ss[i].employee.as_str(), employee) {
            return Some(i);
        }
        i += 1;
    }
    None
}

proof fn lemma_first_sender(ss: Seq<SenderCfg>, employee: Seq<char>, i: int)
    requires
        first_sender(ss, employee, i),
    ensures
        (choose|k: int| first_sender(ss, employee, k)) == i,
{
    let k = choose|k: int| first_sender(ss, employee, k);
    assert(first_sender(ss, employee, k));
    if k < i {
        assert(ss[k].employee@ != employee);
    } else if i < k {
        assert(ss[i].employee@ != employee);
    }
}

/// The recipients, lower-cased, `To` first.
fn lower_all(tos: &Vec<String>, ccs: &Vec<String>) -> (r: Vec<String>)
    ensures
        views_of(r@) == (views_of(tos@) + views_of(ccs@)).map_values(|a: Seq<char>| unicode_lowered(a)),
{
    let mut r: Vec<String> = Vec::new();
    let mut i: usize = 0;
    while i < tos.len()
        invariant
            i <= tos.len(),
            views_of(r@) == views_of(tos@).take(i as int).map_values(|a: Seq<char>| unicode_lowered(a)),
        decreases tos.len() - i,
    {
        let ghost before = r@;
        let l = to_lowercase(tos[i].as_str());
        r.push(l);
        assert(views_of(r@) =~= views_of(before).push(l@));
        assert(views_of(tos@).take(i as int + 1) =~= views_of(tos@).take(i as int).push(tos@[i as int]@));
        assert(views_of(r@) =~= views_of(tos@).take(i as int + 1).map_values(|a: Seq<char>| unicode_lowered(a)));
        i += 1;
    }
    assert(views_of(tos@).take(tos.len() as int) =~= views_of(tos@));
    assert(views_of(tos@) + views_of(ccs@).take(0) =~= views_of(tos@));
    let mut j: usize = 0;
    while j < ccs.len()
        invariant
            j <= ccs.len(),
            views_of(r@) == (views_of(tos@) + views_of(ccs@).take(j as int)).map_values(|a: Seq<char>| unicode_lowered(a)),
        decreases ccs.len() - j,
    {
        let ghost before = r@;
        let l = to_lowercase(ccs[j].as_str());
        r.push(l);
        assert(views_of(r@) =~= views_of(before).push(l@));
        assert(views_of(tos@) + views_of(ccs@).take(j as int + 1) =~= (views_of(tos@) + views_of(ccs@).take(j as int)).push(ccs@[j as int]@));
        assert(views_of(r@) =~= (views_of(tos@) + views_of(ccs@).take(j as int + 1)).map_values(|a: Seq<char>| unicode_lowered(a)));
        j += 1;
    }
    assert(views_of(ccs@).take(ccs.len() as int) =~= views_of(ccs@));
    r
}

/// Whether `v` holds `s`.
fn contains_string(v: &Vec<String>, s: &str) -> (r: bool)
    ensures
        r == views_of(v@).contains(s@),
{
    let mut i: usize = 0;
    while i < v.len()
        invariant
            i <= v.len(),
            forall|k: int| 0 <= k < i ==> v@[k]@ != s@,
        decreases v.len() - i,
    {
        if str_eq(v[i].as_str(), s) {
            assert(views_of(v@)[i as int] == s@);
            return true;
        }
        i += 1;
    }
    false
}


/// The `From` header of an outgoing mail: `name <address>` when the sender has a name, else the
/// address.
pub fn from_header(mail: &OutgoingMail) -> (r: String)
    ensures
        match mail.from_name {
            Some(n) => r@ == n@ + " <"@ + mail.from_addr@ + ">"@,
            None => r@ == mail.from_addr@,
        },
{
    match &mail.from_name {
        Some(n) => {
            let mut s = owned(n.as_str());
            push_str(&mut s, " <");
            push_str(&mut s, mail.from_addr.as_str());
            push_str(&mut s, ">");
            s
        },
        None => owned(mail.from_addr.as_str()),
    }
}

/// How an SMTP connection is secured.
#[derive(Debug, Clone, Copy, PartialEq, Eq, Structural)]
pub enum SmtpSecurity {
    /// TLS from the first byte (SMTPS).
    ImplicitTls,
    /// A plain connection upgraded with `STARTTLS`.
    StartTls,
}

/// Port 465 is SMTPS; any other port upgrades with `STARTTLS`.
pub fn smtp_security(port: u16) -> (r: SmtpSecurity)
    ensures
        port == 465 ==> r == SmtpSecurity::ImplicitTls,
        port != 465 ==> r == SmtpSecurity::StartTls,
{
    if port == 465 {
        SmtpSecurity::ImplicitTls
    } else {
        SmtpSecurity::StartTls
    }
}


/// The UID set of an IMAP fetch: the UIDs in decimal, separated by commas.
pub open spec fn uid_set_spec(uids: Seq<u32>) -> Seq<char>
    decreases uids.len(),
{
    if uids.len() == 0 {
        Seq::empty()
    } else if uids.len() == 1 {
        dec_seq(uids[0] as nat)
    } else {
        uid_set_spec(uids.drop_last()) + ","@ + dec_seq(uids.last() as nat)
    }
}

/// The UID set of an IMAP fetch.
pub fn uid_set(uids: &Vec<u32>) -> (r: String)
    ensures
        r@ == uid_set_spec(uids@),
{
    let mut s = String::new();
    let mut i: usize = 0;
    while i < uids.len()
        invariant
            i <= uids@.len(),
            s@ == uid_set_spec(uids@.take(i as int)),
        decreases uids@.len() - i,
    {
        let ghost t = uids@.take(i as int + 1);
        assert(t.drop_last() =~= uids@.take(i as int));
        assert(t.last() == uids@[i as int]);
        if i > 0 {
            push_str(&mut s, ",");
        }
        crate::text::push_dec(&mut s, uids[i] as u128);
        proof {
            if i == 0 {
                assert(uids@.take(0) =~= Seq::<u32>::empty());
                assert(s@ =~= dec_seq(t[0] as nat));
            } else {
                assert(s@ =~= uid_set_spec(t));
            }
        }
        i += 1;
    }
    assert(uids@.take(i as int) =~= uids@);
    s
}

/// The pause between two polls of a channel, in seconds: the configured one, at least one.
pub fn poll_interval(poll_secs: u64) -> (r: u64)
    ensures
        r == (if poll_secs >= 1 { poll_secs } else { 1 }),
{
    if poll_secs >= 1 {
        poll_secs
    } else {
        1
    }
}

} // verus!
