//! Registering the server as a boot-time service: the arguments a service process is started
//! with, the systemd system unit (Linux) and the launchd daemon (macOS), both run as the user who
//! installed them, and the messages of the tools that install them. Talking to the service managers happens outside.
use vstd::prelude::*;
use crate::text::{has_sub, lemma_middle_occurs, join, join_spec, owned, push_str, trim, trim_spec, views_of};

verus! {

/// The service's name with the service manager.
pub const SERVICE_NAME: &'static str = "Operoid";

/// The arguments of the service process: `--service` and the user's data directories (a service
/// process has no user environment).
pub fn service_args(settings_dir: &str, db_dir: &str) -> (r: Vec<String>)
    ensures
        views_of(r@) == seq!["--service"@, "--settings-dir"@, settings_dir@, "--db-dir"@, db_dir@],
{
    let mut r: Vec<String> = Vec::new();
    r.push(owned("--service"));
    r.push(owned("--settings-dir"));
    r.push(owned(settings_dir));
    r.push(owned("--db-dir"));
    r.push(owned(db_dir));
    assert(views_of(r@) =~= seq!["--service"@, "--settings-dir"@, settings_dir@, "--db-dir"@, db_dir@]);
    r
}

/// The arguments that `install` hands on when it restarts itself with elevated rights.
pub fn install_args(settings_dir: &str, db_dir: &str) -> (r: Vec<String>)
    ensures
        views_of(r@) == seq!["--settings-dir"@, settings_dir@, "--db-dir"@, db_dir@],
{
    let mut r: Vec<String> = Vec::new();
    r.push(owned("--settings-dir"));
    r.push(owned(settings_dir));
    r.push(owned("--db-dir"));
    r.push(owned(db_dir));
    assert(views_of(r@) =~= seq!["--settings-dir"@, settings_dir@, "--db-dir"@, db_dir@]);
    r
}

/// The command line of the elevated restart: the command, then its arguments.
pub fn elevated_command(cmd: &str, args: &Vec<String>) -> (r: Vec<String>)
    ensures
        views_of(r@) == seq![cmd@] + views_of(args@),
{
    let mut r: Vec<String> = Vec::new();
    r.push(owned(cmd));
    let mut i: usize = 0;
    while i < args.len()
        invariant
            i <= args@.len(),
            views_of(r@) == seq![cmd@] + views_of(args@).take(i as int),
        decreases args@.len() - i,
    {
        let ghost before = views_of(r@);
        r.push(owned(args[i].as_str()));
        assert(views_of(r@) =~= before.push(args@[i as int]@));
        assert(views_of(args@).take(i as int + 1) =~= views_of(args@).take(i as int).push(args@[i as int]@));
        i += 1;
    }
    assert(views_of(args@).take(i as int) =~= views_of(args@));
    r
}

/// The account the boot-time service runs as: the one that invoked the installer through `sudo`
/// (`SUDO_USER`). When it cannot be told (no or a blank name, as from a pure root shell), the
/// install is refused.
pub fn service_user(sudo_user: Option<&str>) -> (r: Result<String, String>)
    ensures
        match sudo_user {
            Some(u) => if trim_spec(u@).len() > 0 {
                r matches Ok(x) && x@ == trim_spec(u@)
            } else {
                r matches Err(m) && m@ == "無法判斷安裝者帳號——請從自己的帳號以 sudo 安裝"@
            },
            None => r matches Err(m) && m@ == "無法判斷安裝者帳號——請從自己的帳號以 sudo 安裝"@,
        },
{
    match sudo_user {
        Some(u) => {
            let t = trim(u);
            if t.as_str().is_empty() {
                Err(owned("無法判斷安裝者帳號——請從自己的帳號以 sudo 安裝"))
            } else {
                Ok(t)
            }
        },
        None => Err(owned("無法判斷安裝者帳號——請從自己的帳號以 sudo 安裝")),
    }
}

/// The systemd system unit of the service: started at boot before any user logs in, run as the
/// user who installed it, with that user's `HOME` set explicitly.
pub open spec fn unit_spec(
    exe: Seq<char>,
    settings_dir: Seq<char>,
    db_dir: Seq<char>,
    user: Seq<char>,
    home: Seq<char>,
) -> Seq<char> {
    "[Unit]\nDescription=Operoid Agent Service\nAfter=network.target\n\n[Service]\nUser="@ + user
        + "\nEnvironment=HOME="@ + home + "\nExecStart="@ + exe + " --service --settings-dir "@ + settings_dir
        + " --db-dir "@ + db_dir
        + "\nRestart=on-failure\nRestartSec=5\n\n[Install]\nWantedBy=multi-user.target\n"@
}

/// The systemd system unit of the service (for `/etc/systemd/system`), run as `user` with `HOME`
/// set to `home`.
pub fn unit_content(exe: &str, settings_dir: &str, db_dir: &str, user: &str, home: &str) -> (r: String)
    ensures
        r@ == unit_spec(exe@, settings_dir@, db_dir@, user@, home@),
{
    let mut s = owned("[Unit]\nDescription=Operoid Agent Service\nAfter=network.target\n\n[Service]\nUser=");
    push_str(&mut s, user);
    push_str(&mut s, "\nEnvironment=HOME=");
    push_str(&mut s, home);
    push_str(&mut s, "\nExecStart=");
    push_str(&mut s, exe);
    push_str(&mut s, " --service --settings-dir ");
    push_str(&mut s, settings_dir);
    push_str(&mut s, " --db-dir ");
    push_str(&mut s, db_dir);
    push_str(&mut s, "\nRestart=on-failure\nRestartSec=5\n\n[Install]\nWantedBy=multi-user.target\n");
    s
}

/// The start of the launchd property list, up to its label.
pub open spec fn plist_head() -> Seq<char> {
    "<?xml version=\"1.0\" encoding=\"UTF-8\"?>\n<!DOCTYPE plist PUBLIC \"-//Apple//DTD PLIST 1.0//EN\" \"http://www.apple.com/DTDs/PropertyList-1.0.dtd\">\n<plist version=\"1.0\">\n<dict>\n<key>Label</key><string>com.operoid.studio.server</string>\n"@
}

/// The key that names the user the daemon runs as.
pub open spec fn plist_user(user: Seq<char>) -> Seq<char> {
    "<key>UserName</key><string>"@ + user + "</string>"@
}

/// The program arguments of the daemon, in order: the executable, `--service`, and the two data
/// directories.
pub open spec fn plist_args(exe: Seq<char>, settings_dir: Seq<char>, db_dir: Seq<char>) -> Seq<char> {
    "<array>\n<string>"@ + exe + "</string>\n<string>--service</string>\n<string>--settings-dir</string>\n<string>"@
        + settings_dir + "</string>\n<string>--db-dir</string>\n<string>"@ + db_dir + "</string>\n</array>"@
}

/// The daemon starts when it is loaded (at boot).
pub open spec fn plist_run_at_load() -> Seq<char> {
    "<key>RunAtLoad</key><true/>"@
}

/// The launchd daemon of the service: loaded at boot before any user logs in and run as the user
/// who installed it (`UserName`).
pub open spec fn plist_spec(exe: Seq<char>, settings_dir: Seq<char>, db_dir: Seq<char>, user: Seq<char>) -> Seq<char> {
    plist_head() + plist_user(user) + "\n<key>ProgramArguments</key>\n"@ + plist_args(exe, settings_dir, db_dir) + "\n"@
        + plist_run_at_load()
        + "\n<key>KeepAlive</key><dict><key>SuccessfulExit</key><false/></dict>\n</dict>\n</plist>\n"@
}

/// The launchd daemon of the service (for `/Library/LaunchDaemons`), run as `user`: the whole text,
/// which names the user, holds the program arguments in order and starts at load.
pub fn plist_content(exe: &str, settings_dir: &str, db_dir: &str, user: &str) -> (r: String)
    ensures
        r@ == plist_spec(exe@, settings_dir@, db_dir@, user@),
        has_sub(r@, plist_user(user@)),
        has_sub(r@, plist_args(exe@, settings_dir@, db_dir@)),
        has_sub(r@, plist_run_at_load()),
{
    let mut s = owned(
        "<?xml version=\"1.0\" encoding=\"UTF-8\"?>\n<!DOCTYPE plist PUBLIC \"-//Apple//DTD PLIST 1.0//EN\" \"http://www.apple.com/DTDs/PropertyList-1.0.dtd\">\n<plist version=\"1.0\">\n<dict>\n<key>Label</key><string>com.operoid.studio.server</string>\n",
    );
    let ghost head = s@;
    push_str(&mut s, "<key>UserName</key><string>");
    push_str(&mut s, user);
    push_str(&mut s, "</string>");
    let ghost after_user = s@;
    push_str(&mut s, "\n<key>ProgramArguments</key>\n");
    let ghost before_args = s@;
    push_str(&mut s, "<array>\n<string>");
    push_str(&mut s, exe);
    push_str(&mut s, "</string>\n<string>--service</string>\n<string>--settings-dir</string>\n<string>");
    push_str(&mut s, settings_dir);
    push_str(&mut s, "</string>\n<string>--db-dir</string>\n<string>");
    push_str(&mut s, db_dir);
    push_str(&mut s, "</string>\n</array>");
    let ghost after_args = s@;
    push_str(&mut s, "\n");
    let ghost before_run = s@;
    push_str(&mut s, "<key>RunAtLoad</key><true/>");
    let ghost after_run = s@;
    push_str(&mut s, "\n<key>KeepAlive</key><dict><key>SuccessfulExit</key><false/></dict>\n</dict>\n</plist>\n");
    proof {
        let u = plist_user(user@);
        let a = plist_args(exe@, settings_dir@, db_dir@);
        let l = plist_run_at_load();
        assert(after_user =~= head + u);
        assert(after_args =~= before_args + a);
        assert(after_run =~= before_run + l);
        let rest_u = s@.skip(after_user.len() as int);
        assert(s@ =~= head + u + rest_u);
        lemma_middle_occurs(head, u, rest_u);
        let rest_a = s@.skip(after_args.len() as int);
        assert(s@ =~= before_args + a + rest_a);
        lemma_middle_occurs(before_args, a, rest_a);
        let rest_l = s@.skip(after_run.len() as int);
        assert(s@ =~= before_run + l + rest_l);
        lemma_middle_occurs(before_run, l, rest_l);
        assert(s@ =~= plist_spec(exe@, settings_dir@, db_dir@, user@));
    }
    s
}

/// The error of a failed `systemctl` run: its arguments and what it printed on standard error.
pub fn systemctl_failure(args: &Vec<String>, stderr: &str) -> (r: String)
    ensures
        r@ == "systemctl "@ + join_spec(views_of(args@), " "@) + " 失敗："@ + trim_spec(stderr@),
{
    let mut s = owned("systemctl ");
    let j = join(args, " ");
    push_str(&mut s, j.as_str());
    push_str(&mut s, " 失敗：");
    let t = trim(stderr);
    push_str(&mut s, t.as_str());
    s
}

/// The error of a failed `launchctl load`: what it printed on standard error.
pub fn launchctl_failure(stderr: &str) -> (r: String)
    ensures
        r@ == "launchctl load 失敗："@ + trim_spec(stderr@),
{
    let mut s = owned("launchctl load 失敗：");
    let t = trim(stderr);
    push_str(&mut s, t.as_str());
    s
}

} // verus!
