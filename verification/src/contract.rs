//! The JSON contract between the studio and the bridge: an inbound event (bridge → studio
//! `POST /event`) and an outbound payload (studio → bridge `POST /send`).
use vstd::prelude::*;
use crate::text::{has_prefix, has_suffix, owned, push_str};

verus! {

/// The kind of an inbound event.
#[derive(Debug, Clone, Copy, PartialEq, Eq, Structural)]
pub enum EventKind {
    /// Pages written by a factory.
    FactoryWritten,
    /// A message from outside (webhook, mail, chat).
    ExternalMessage,
}

/// An inbound event. Source-specific details (From/To/Cc, context) live in `content`, written
/// by the bridge for the employees to read.
#[derive(Debug, Clone)]
pub struct InboundEvent {
    pub kind: EventKind,
    /// The bridge's label for the channel instance.
    pub source: String,
    /// Wake every employee of this brain.
    pub brain_id: Option<String>,
    /// Wake this employee (takes precedence over `brain_id`).
    pub employee_id: Option<String>,
    /// A short title (mail subject, first line, factory slug).
    pub title: String,
    /// The whole message as the bridge serialised it.
    pub content: String,
    /// The de-duplication key of the source system.
    pub external_ref: Option<String>,
    /// When the event happened at the source (RFC 3339).
    pub occurred_at: Option<String>,
    /// The reply anchor that the bridge reads back when a reply is sent.
    pub reply_to: Option<String>,
    /// The factory category (factory events only).
    pub category: Option<String>,
}

pub open spec fn trailer() -> Seq<char> {
    "請審閱此內容；若有需要長期追蹤的事項（待辦、決議、行動項目），請提案。"@
}

/// The review text of an event: a factory write frames the title and a preview of the content
/// under its category (`內容` when none); an outside message frames the source and title before the
/// content.
pub open spec fn review_prompt_spec(e: InboundEvent) -> Seq<char> {
    match e.kind {
        EventKind::FactoryWritten => {
            let category = match e.category {
                Some(c) => c@,
                None => "內容"@,
            };
            "📋 知識庫新增內容（"@ + category + "）：〈"@ + e.title@ + "〉。\n"@ + trailer() + "\n\n內容預覽：\n"@
                + e.content@
        },
        EventKind::ExternalMessage => "📨 外部訊息（"@ + e.source@ + "）：〈"@ + e.title@ + "〉\n"@ + trailer()
            + "\n\n"@ + e.content@,
    }
}

/// The review text always ends with what the event carries: a factory write ends with the
/// `內容預覽` heading and the content, an outside message with a blank line and the content; it
/// starts with the event's kind mark.
pub proof fn lemma_review_shows_content(e: InboundEvent)
    ensures
        has_suffix(review_prompt_spec(e), e.content@),
        e.kind == EventKind::FactoryWritten ==> has_suffix(review_prompt_spec(e), "\n\n內容預覽：\n"@ + e.content@)
            && has_prefix(review_prompt_spec(e), "📋 知識庫新增內容（"@),
        e.kind == EventKind::ExternalMessage ==> has_suffix(review_prompt_spec(e), "\n\n"@ + e.content@)
            && has_prefix(review_prompt_spec(e), "📨 外部訊息（"@),
{
    let s = review_prompt_spec(e);
    match e.kind {
        EventKind::FactoryWritten => {
            let category = match e.category {
                Some(c) => c@,
                None => "內容"@,
            };
            let head = "📋 知識庫新增內容（"@ + category + "）：〈"@ + e.title@ + "〉。\n"@ + trailer();
            let tail = "\n\n內容預覽：\n"@ + e.content@;
            assert(s =~= head + tail);
            assert(s.subrange(s.len() - tail.len(), s.len() as int) =~= tail);
            assert(s.subrange(s.len() - e.content@.len(), s.len() as int) =~= e.content@);
            let m = "📋 知識庫新增內容（"@;
            assert(s.subrange(0, m.len() as int) =~= m);
        },
        EventKind::ExternalMessage => {
            let head = "📨 外部訊息（"@ + e.source@ + "）：〈"@ + e.title@ + "〉\n"@ + trailer();
            let tail = "\n\n"@ + e.content@;
            assert(s =~= head + tail);
            assert(s.subrange(s.len() - tail.len(), s.len() as int) =~= tail);
            assert(s.subrange(s.len() - e.content@.len(), s.len() as int) =~= e.content@);
            let m = "📨 外部訊息（"@;
            assert(s.subrange(0, m.len() as int) =~= m);
        },
    }
}

impl InboundEvent {
    /// The text that an employee reviews for this event; it ends with the event's content.
    pub fn review_prompt(&self) -> (r: String)
        ensures
            r@ == review_prompt_spec(*self),
            has_suffix(r@, self.content@),
    {
        proof {
            lemma_review_shows_content(*self);
        }
        let tr = "請審閱此內容；若有需要長期追蹤的事項（待辦、決議、行動項目），請提案。";
        match self.kind {
            EventKind::FactoryWritten => {
                let mut s = owned("📋 知識庫新增內容（");
                match &self.category {
                    Some(c) => push_str(&mut s, c.as_str()),
                    None => push_str(&mut s, "內容"),
                }
                push_str(&mut s, "）：〈");
                push_str(&mut s, self.title.as_str());
                push_str(&mut s, "〉。\n");
                push_str(&mut s, tr);
                push_str(&mut s, "\n\n內容預覽：\n");
                push_str(&mut s, self.content.as_str());
                assert(s@ =~= review_prompt_spec(*self));
                s
            },
            EventKind::ExternalMessage => {
                let mut s = owned("📨 外部訊息（");
                push_str(&mut s, self.source.as_str());
                push_str(&mut s, "）：〈");
                push_str(&mut s, self.title.as_str());
                push_str(&mut s, "〉\n");
                push_str(&mut s, tr);
                push_str(&mut s, "\n\n");
                push_str(&mut s, self.content.as_str());
                assert(s@ =~= review_prompt_spec(*self));
                s
            },
        }
    }
}

/// An outbound message: the channel label, the target (a reply anchor or an explicit address),
/// the sending employee and the text.
#[derive(Debug, Clone)]
pub struct SendPayload {
    pub source: String,
    pub to: String,
    pub employee_id: String,
    pub text: String,
}

} // verus!
