use operoid::email::{poll_interval, uid_set};
use operoid::email::{from_header, smtp_security, OutgoingMail, SmtpSecurity};
use operoid::bridge_config::{
    default_folder, default_imap_port, default_poll, default_smtp_port, default_source,
    default_subject, validate, ChannelCfg, Config, EmailImapCfg, ImapCfg, ListenCfg, OperoidCfg,
    RouteCfg, SenderCfg, SmtpCfg,
};
use operoid::contract::{EventKind, InboundEvent, SendPayload};
use operoid::email::{fetch_outcome, plan_fetch, EmailImapChannel, RawMail, Seen};

fn sample_mail(msg_id: &str, to: &str) -> Vec<u8> {
    format!(
        "Message-ID: {msg_id}\r\nFrom: 張雅婷 <yt@corp.com>\r\nTo: {to}\r\n\
         Subject: RE: E-07 良率\r\nDate: Fri, 15 Aug 2026 09:30:00 +0800\r\n\
         Content-Type: text/plain; charset=utf-8\r\n\r\n良率降到 91%，請查收附件報告。\r\n"
    )
    .into_bytes()
}

fn email_cfg() -> EmailImapCfg {
    EmailImapCfg {
        imap: ImapCfg {
            host: "imap.corp.com".into(),
            port: default_imap_port(),
            username: "bot@corp.com".into(),
            password: "pw".into(),
            folder: default_folder(),
        },
        smtp: SmtpCfg {
            host: "smtp.corp.com".into(),
            port: default_smtp_port(),
            username: "bot@corp.com".into(),
            password: "pw".into(),
            subject: default_subject(),
        },
        poll_secs: 30,
        state_file: None,
        routes: vec![RouteCfg { address: "steve@corp.com".into(), employee: Some("Steve-TW".into()), brain: None }],
        senders: vec![SenderCfg { employee: "Steve-TW".into(), address: "steve@corp.com".into(), name: None }],
    }
}

fn channel_cfg() -> ChannelCfg {
    ChannelCfg { channel_type: "email-imap".into(), source: default_source(), email_imap: Some(email_cfg()) }
}

fn channel() -> EmailImapChannel<(), ()> {
    EmailImapChannel::with_io(channel_cfg(), (), (), "state.json".into())
}

#[test]
fn serializes_mail_to_contract_event() {
    let ch = channel();
    let m = RawMail { uid: 3, uidvalidity: 7, raw: sample_mail("<CAB123@mailer>", "steve@corp.com") };
    let evs = ch.build_events(&m);
    assert_eq!(evs.len(), 1);
    let ev = &evs[0];
    assert_eq!(ev.kind, EventKind::ExternalMessage);
    assert_eq!(ev.source, "email");
    assert_eq!(ev.title, "RE: E-07 良率");
    assert_eq!(ev.external_ref.as_deref(), Some("CAB123@mailer"));
    assert!(ev.content.contains("From: yt@corp.com"));
    assert!(ev.content.contains("91%"));
    let anchor = ev.reply_to.clone().unwrap();
    assert!(anchor.starts_with("email:msg:"), "{anchor}");
    assert!(anchor.contains("?to="), "{anchor}");
    assert_eq!(ev.employee_id.as_deref(), Some("Steve-TW"));
    assert!(ev.occurred_at.as_deref().unwrap().starts_with("2026-"));
}

#[test]
fn unrouted_mail_not_delivered() {
    let ch = channel();
    let m = RawMail { uid: 3, uidvalidity: 7, raw: sample_mail("<x@y>", "someone@else.com") };
    assert_eq!(ch.build_events(&m).len(), 0);
}

#[test]
fn anchor_and_plain_send_parse() {
    let ch = channel();
    let m = RawMail { uid: 3, uidvalidity: 7, raw: sample_mail("<CAB123@mailer>", "STEVE@corp.com") };
    let anchor = ch.build_events(&m)[0].reply_to.clone().unwrap();
    let mail = ch.plan_send(&anchor, "Steve-TW", "已收到，處理中。").unwrap();
    assert_eq!(mail.to, "yt@corp.com");
    assert_eq!(mail.in_reply_to.as_deref(), Some("<CAB123@mailer>"));
    assert_eq!(mail.from_addr, "steve@corp.com");
    assert!(mail.subject.starts_with("Re:"));
    assert_eq!(mail.body, "已收到，處理中。");
    let plain = ch.plan_send("boss@corp.com", "Nobody", "結論報告").unwrap();
    assert_eq!(plain.to, "boss@corp.com");
    assert_eq!(plain.in_reply_to, None);
    assert_eq!(plain.from_addr, "bot@corp.com");
    assert_eq!(plain.subject, "Operoid");
}

#[test]
fn anchors_without_address_or_with_bad_encoding_fail() {
    let ch = channel();
    let e = ch.parse_to("email:msg:abc").unwrap_err();
    assert_eq!(e, "錨點缺少 ?to= 回覆地址（無法送達）");
    assert!(ch.parse_to("email:msg:%FF?to=a").unwrap_err().starts_with("錨點 Message-ID 解碼失敗："));
    assert!(ch.parse_to("email:msg:a?to=%C3").unwrap_err().starts_with("錨點回覆地址解碼失敗："));
    assert_eq!(ch.parse_to("other:msg:a").unwrap(), (None, "other:msg:a".to_string()));
}

#[test]
fn mail_without_message_id_uses_uid_key() {
    let ch = channel();
    let raw = "From: a@b.c\r\nTo: steve@corp.com\r\nSubject: hi\r\n\r\nbody\r\n".as_bytes().to_vec();
    let evs = ch.build_events(&RawMail { uid: 9, uidvalidity: 2, raw });
    assert_eq!(evs.len(), 1);
    assert_eq!(evs[0].external_ref.as_deref(), Some("uidv2-uid9"));
    assert_eq!(evs[0].reply_to, None);
}

#[test]
fn html_only_mail_is_stripped() {
    let ch = channel();
    let raw = "Message-ID: <h@x>\r\nFrom: a@b.c\r\nTo: steve@corp.com\r\nSubject: h\r\nContent-Type: text/html\r\n\r\n<p>Hello <b>there</b></p>\r\n".as_bytes().to_vec();
    let evs = ch.build_events(&RawMail { uid: 1, uidvalidity: 1, raw });
    assert!(evs[0].content.contains("Hello there"), "{}", evs[0].content);
}

#[test]
fn channel_new_requires_section_and_names_state_file() {
    let mut c = channel_cfg();
    c.email_imap = None;
    assert_eq!(EmailImapChannel::new(c, "/tmp").err().unwrap(), "email-imap 通道 email 缺少設定");
    let ch = EmailImapChannel::new(channel_cfg(), "/var/ob").ok().unwrap();
    assert!(ch.state_path.ends_with("email-state.json"));
    assert_eq!(ch.mail_source.cfg.port, 993);
    assert_eq!(ch.source(), "email");
}

#[test]
fn fetch_plan_takes_new_uids_in_order() {
    let seen = Seen { uidvalidity: 7, last_uid: 3 };
    let (uids, next) = plan_fetch(&seen, 7, &vec![5, 1, 4, 3, 9]);
    assert_eq!(uids, vec![4, 5, 9]);
    assert_eq!(next, Seen { uidvalidity: 7, last_uid: 9 });
    let (uids, next) = plan_fetch(&seen, 8, &vec![2, 1]);
    assert_eq!(uids, vec![1, 2]);
    assert_eq!(next.last_uid, 2);
    let (uids, next) = plan_fetch(&seen, 7, &vec![1, 2]);
    assert!(uids.is_empty());
    assert_eq!(next.last_uid, 3);
}

fn config(chs: Vec<ChannelCfg>) -> Config {
    Config {
        operoid: OperoidCfg { ingress_url: "http://127.0.0.1:1/event".into(), ingress_secret: "s".into() },
        listen: ListenCfg { port: 1, secret: "s".into() },
        channels: chs,
    }
}

#[test]
fn duplicate_source_rejected() {
    assert!(validate(&config(vec![channel_cfg()])).is_ok());
    let e = validate(&config(vec![channel_cfg(), channel_cfg()])).unwrap_err();
    assert_eq!(e, "通道 source 標籤重複：email");
}

#[test]
fn email_imap_without_section_rejected() {
    let bad = ChannelCfg { channel_type: "email-imap".into(), source: "email".into(), email_imap: None };
    let e = validate(&config(vec![bad])).unwrap_err();
    assert_eq!(e, "通道 email（email-imap）缺少 [channels.email_imap] 設定");
    assert_eq!(default_poll(), 60);
}

#[test]
fn review_prompts_by_kind() {
    let mut ev = InboundEvent {
        kind: EventKind::ExternalMessage,
        source: "email".into(),
        brain_id: None,
        employee_id: None,
        title: "測試".into(),
        content: "From: x\n\n本體".into(),
        external_ref: None,
        occurred_at: None,
        reply_to: None,
        category: None,
    };
    let p = ev.review_prompt();
    assert!(p.contains("外部訊息"));
    assert!(p.starts_with("📨 外部訊息（email）：〈測試〉\n"));
    assert!(p.ends_with("\n\nFrom: x\n\n本體"));
    ev.kind = EventKind::FactoryWritten;
    assert!(ev.review_prompt().starts_with("📋 知識庫新增內容（內容）：〈測試〉。\n"));
    ev.category = Some("people".into());
    assert!(ev.review_prompt().contains("（people）"));
    let sp = SendPayload { source: "email".into(), to: "x".into(), employee_id: "e".into(), text: "t".into() };
    assert_eq!(sp.employee_id, "e");
}

#[test]
fn outgoing_mail_headers_and_transport() {
    let mut m = OutgoingMail {
        to: "boss@corp.com".into(),
        from_addr: "yt@corp.com".into(),
        from_name: Some("Steve-TW".into()),
        subject: "Re: x".into(),
        body: "b".into(),
        in_reply_to: None,
    };
    assert_eq!(from_header(&m), "Steve-TW <yt@corp.com>");
    m.from_name = None;
    assert_eq!(from_header(&m), "yt@corp.com");
    assert!(smtp_security(465) == SmtpSecurity::ImplicitTls);
    assert!(smtp_security(587) == SmtpSecurity::StartTls);
}

#[test]
fn fetch_uid_set_and_poll_interval() {
    assert_eq!(uid_set(&vec![3, 10, 42]), "3,10,42");
    assert_eq!(uid_set(&vec![7]), "7");
    assert_eq!(uid_set(&vec![]), "");
    assert_eq!(poll_interval(0), 1);
    assert_eq!(poll_interval(30), 30);
}

#[test]
fn fetch_outcome_keeps_the_planned_mail() {
    let seen = Seen { uidvalidity: 7, last_uid: 3 };
    let fetched = vec![(4u32, b"four".to_vec()), (2u32, b"old".to_vec()), (9u32, b"nine".to_vec())];
    let (mails, next) = fetch_outcome(&seen, 7, &vec![5, 1, 4, 3, 9], fetched);
    assert_eq!(mails.iter().map(|m| m.uid).collect::<Vec<_>>(), vec![4, 9]);
    assert!(mails.iter().all(|m| m.uidvalidity == 7));
    assert_eq!(mails[0].raw, b"four".to_vec());
    assert_eq!(next, Seen { uidvalidity: 7, last_uid: 9 });
    let (mails, next) = fetch_outcome(&seen, 8, &vec![2], vec![(2u32, b"x".to_vec())]);
    assert_eq!(mails.len(), 1);
    assert_eq!(next, Seen { uidvalidity: 8, last_uid: 2 });
}

#[test]
fn default_state_path_is_under_the_state_dir() {
    let ch = EmailImapChannel::new(channel_cfg(), "/var/ob").ok().unwrap();
    assert!(ch.state_path.starts_with("/var/ob"));
    assert!(ch.state_path.ends_with("email-state.json"));
}
