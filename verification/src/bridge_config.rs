//! The bridge's configuration (`obridge.toml`): where the studio's ingress is, the bridge's own
//! send endpoint, and its channel instances. Reading the TOML happens outside; this module holds
//! the settings, their defaults, and the checks a configuration must pass.
use vstd::prelude::*;
use crate::text::{owned, push_str, str_eq};

verus! {

/// The whole configuration.
#[derive(Debug, Clone)]
pub struct Config {
    pub operoid: OperoidCfg,
    pub listen: ListenCfg,
    pub channels: Vec<ChannelCfg>,
}

/// The studio's ingress (`POST /event`) and its shared secret.
#[derive(Debug, Clone)]
pub struct OperoidCfg {
    pub ingress_url: String,
    pub ingress_secret: String,
}

/// The bridge's send endpoint.
#[derive(Debug, Clone)]
pub struct ListenCfg {
    pub port: u16,
    pub secret: String,
}

/// One channel instance; `source` is its label, unique in the bridge.
#[derive(Debug, Clone)]
pub struct ChannelCfg {
    pub channel_type: String,
    pub source: String,
    pub email_imap: Option<EmailImapCfg>,
}

/// An `email-imap` channel.
#[derive(Debug, Clone)]
pub struct EmailImapCfg {
    pub imap: ImapCfg,
    pub smtp: SmtpCfg,
    /// Seconds between polls.
    pub poll_secs: u64,
    /// Where the seen-mail state is kept (default: `<source>-state.json` beside the config).
    pub state_file: Option<String>,
    /// Recipient address → employee or brain.
    pub routes: Vec<RouteCfg>,
    /// Employee → sender address.
    pub senders: Vec<SenderCfg>,
}

#[derive(Debug, Clone)]
pub struct ImapCfg {
    pub host: String,
    pub port: u16,
    pub username: String,
    pub password: String,
    pub folder: String,
}

#[derive(Debug, Clone)]
pub struct SmtpCfg {
    pub host: String,
    pub port: u16,
    pub username: String,
    pub password: String,
    /// The subject of replies (the original subject is not kept).
    pub subject: String,
}

/// A route: mail to `address` (To or Cc, any case) wakes `employee` or the employees of `brain`.
#[derive(Debug, Clone)]
pub struct RouteCfg {
    pub address: String,
    pub employee: Option<String>,
    pub brain: Option<String>,
}

/// A sender identity: mail from `employee` goes out as `address` (with display `name`).
#[derive(Debug, Clone)]
pub struct SenderCfg {
    pub employee: String,
    pub address: String,
    pub name: Option<String>,
}

pub fn copy_opt(o: &Option<String>) -> (r: Option<String>)
    ensures
        r == *o,
{
    match o {
        Some(s) => Some(s.clone()),
        None => None,
    }
}

impl ImapCfg {
    /// A copy of these settings.
    pub fn copy(&self) -> (r: ImapCfg)
        ensures
            r == *self,
    {
        ImapCfg {
            host: self.host.clone(),
            port: self.port,
            username: self.username.clone(),
            password: self.password.clone(),
            folder: self.folder.clone(),
        }
    }
}

impl SmtpCfg {
    /// A copy of these settings.
    pub fn copy(&self) -> (r: SmtpCfg)
        ensures
            r == *self,
    {
        SmtpCfg {
            host: self.host.clone(),
            port: self.port,
            username: self.username.clone(),
            password: self.password.clone(),
            subject: self.subject.clone(),
        }
    }
}

pub fn default_source() -> (r: String)
    ensures
        r@ == "email"@,
{
    owned("email")
}

pub fn default_poll() -> (r: u64)
    ensures
        r == 60,
{
    60
}

pub fn default_imap_port() -> (r: u16)
    ensures
        r == 993,
{
    993
}

pub fn default_folder() -> (r: String)
    ensures
        r@ == "INBOX"@,
{
    owned("INBOX")
}

pub fn default_smtp_port() -> (r: u16)
    ensures
        r == 465,
{
    465
}

pub fn default_subject() -> (r: String)
    ensures
        r@ == "Operoid"@,
{
    owned("Operoid")
}

/// The check of channel `i`, given those before it: a label used before is rejected, and so is
/// an `email-imap` channel without its `[channels.email_imap]` section.
pub open spec fn channel_check(chs: Seq<ChannelCfg>, i: int) -> Result<(), Seq<char>> {
    let c = chs[i];
    if exists|j: int| 0 <= j < i && (#[trigger] chs[j]).source@ == c.source@ {
        Err("通道 source 標籤重複："@ + c.source@)
    } else if c.channel_type@ == "email-imap"@ && c.email_imap is None {
        Err("通道 "@ + c.source@ + "（email-imap）缺少 [channels.email_imap] 設定"@)
    } else {
        Ok(())
    }
}

/// The checks of the first `n` channels, in order; the first failure is the answer.
pub open spec fn checks_upto(chs: Seq<ChannelCfg>, n: int) -> Result<(), Seq<char>>
    decreases n,
{
    if n <= 0 {
        Ok(())
    } else {
        match checks_upto(chs, n - 1) {
            Err(e) => Err(e),
            Ok(()) => channel_check(chs, n - 1),
        }
    }
}

proof fn lemma_checks_stable(chs: Seq<ChannelCfg>, n: int, m: int)
    requires
        0 <= n <= m,
        checks_upto(chs, n) is Err,
    ensures
        checks_upto(chs, m) == checks_upto(chs, n),
    decreases m - n,
{
    if m > n {
        lemma_checks_stable(chs, n, m - 1);
    }
}

pub open spec fn unit_res(r: Result<(), String>) -> Result<(), Seq<char>> {
    match r {
        Ok(()) => Ok(()),
        Err(e) => Err(e@),
    }
}

/// Checks a configuration: channel labels are unique (sends are dispatched by label) and every
/// `email-imap` channel has its settings.
pub fn validate(cfg: &Config) -> (r: Result<(), String>)
    ensures
        unit_res(r) == checks_upto(cfg.channels@, cfg.channels@.len() as int),
{
    let chs = &cfg.channels;
    let mut i: usize = 0;
    while i < chs.len()
        invariant
            i <= chs.len(),
            chs@ == cfg.channels@,
            checks_upto(chs@, i as int) == Ok::<(), Seq<char>>(()),
        decreases chs.len() - i,
    {
        let c = &chs[i];
        let mut j: usize = 0;
        while j < i
            invariant
                j <= i < chs.len(),
                *c == chs@[i as int],
                chs@ == cfg.channels@,
                checks_upto(chs@, i as int) == Ok::<(), Seq<char>>(()),
                forall|k: int| 0 <= k < j ==> (#[trigger] chs@[k]).source@ != c.source@,
            decreases i - j,
        {
            if str_eq(chs[j].source.as_str(), c.source.as_str()) {
                let mut m = owned("通道 source 標籤重複：");
                push_str(&mut m, c.source.as_str());
                assert(chs@[j as int].source@ == c.source@);
                assert(m@ =~= "通道 source 標籤重複："@ + c.source@);
                assert(channel_check(chs@, i as int) == Err::<(), Seq<char>>(m@));
                assert(checks_upto(chs@, i as int + 1) == channel_check(chs@, i as int));
                proof { lemma_checks_stable(chs@, i as int + 1, chs@.len() as int); }
                return Err(m);
            }
            j += 1;
        }
        if str_eq(c.channel_type.as_str(), "email-imap") && c.email_imap.is_none() {
            let mut m = owned("通道 ");
            push_str(&mut m, c.source.as_str());
            push_str(&mut m, "（email-imap）缺少 [channels.email_imap] 設定");
            assert(checks_upto(chs@, i as int + 1) == channel_check(chs@, i as int));
            assert(m@ =~= "通道 "@ + c.source@ + "（email-imap）缺少 [channels.email_imap] 設定"@);
            assert(channel_check(chs@, i as int) == Err::<(), Seq<char>>(m@));
            proof { lemma_checks_stable(chs@, i as int + 1, chs@.len() as int); }
            return Err(m);
        }
        assert(checks_upto(chs@, i as int + 1) == channel_check(chs@, i as int));
        i += 1;
    }
    Ok(())
}

} // verus!
