use operoid::service::{
    service_user,
    elevated_command, install_args, launchctl_failure, plist_content, service_args, systemctl_failure, unit_content,
    SERVICE_NAME,
};

#[test]
fn service_process_arguments() {
    assert_eq!(SERVICE_NAME, "Operoid");
    assert_eq!(service_args("/s", "/d"), vec!["--service", "--settings-dir", "/s", "--db-dir", "/d"]);
    let a = install_args("/s", "/d");
    assert_eq!(a, vec!["--settings-dir", "/s", "--db-dir", "/d"]);
    assert_eq!(elevated_command("install", &a), vec!["install", "--settings-dir", "/s", "--db-dir", "/d"]);
    assert_eq!(elevated_command("uninstall", &vec![]), vec!["uninstall"]);
}

#[test]
fn systemd_unit_text() {
    let u = unit_content("/usr/bin/oserver", "/home/u/.config/x", "/home/u/.local/x", "u", "/home/u");
    assert_eq!(
        u,
        "[Unit]\nDescription=Operoid Agent Service\nAfter=network.target\n\n[Service]\n\
User=u\nEnvironment=HOME=/home/u\n\
ExecStart=/usr/bin/oserver --service --settings-dir /home/u/.config/x --db-dir /home/u/.local/x\n\
Restart=on-failure\nRestartSec=5\n\n[Install]\nWantedBy=multi-user.target\n"
    );
    assert!(u.contains("\nUser=u\n"));
    assert!(u.contains("\nEnvironment=HOME=/home/u\n"));
    assert!(!u.contains("default.target"));
}

#[test]
fn launchd_plist_text() {
    let p = plist_content("/Applications/oserver", "/S", "/D", "alice");
    assert!(p.starts_with("<?xml version=\"1.0\" encoding=\"UTF-8\"?>\n<!DOCTYPE plist"));
    assert!(p.contains("\n<key>Label</key><string>com.operoid.studio.server</string>\n"));
    assert!(p.contains("\n<key>UserName</key><string>alice</string>\n"));
    assert!(p.contains("<array>\n<string>/Applications/oserver</string>\n<string>--service</string>\n<string>--settings-dir</string>\n<string>/S</string>\n<string>--db-dir</string>\n<string>/D</string>\n</array>\n"));
    assert!(p.contains("<key>RunAtLoad</key><true/>"));
    assert!(p.ends_with("</dict>\n</plist>\n"));
}

#[test]
fn tool_failures() {
    let args = vec!["--user".to_string(), "daemon-reload".to_string()];
    assert_eq!(systemctl_failure(&args, "  boom \n"), "systemctl --user daemon-reload 失敗：boom");
    assert_eq!(launchctl_failure("nope\n"), "launchctl load 失敗：nope");
}

#[test]
fn the_installer_needs_the_invoking_user() {
    assert_eq!(service_user(Some("alice")).unwrap(), "alice");
    assert_eq!(service_user(Some(" bob \n")).unwrap(), "bob");
    assert_eq!(service_user(None).unwrap_err(), "無法判斷安裝者帳號——請從自己的帳號以 sudo 安裝");
    assert!(service_user(Some("  ")).is_err());
}
