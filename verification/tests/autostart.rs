use ig::autostart::{
    act_failed, install, launchd, restart, run, status, systemd, uninstall, Act, Call, Plan, Ran,
    Supervisor, UnitPath,
};
use ig::client::Format;
use ig::protocol::{ErrorKind, Failure};

fn plan() -> Plan {
    Plan::new(
        "/usr/local/bin/ig".to_string(),
        "/tmp/ig.sock".to_string(),
        vec!["--service".into(), "/home/me/my services.toml".into()],
    )
}

fn place(supervisor: Supervisor) -> UnitPath {
    supervisor.unit_path(Some("/x"), Some("/h")).unwrap()
}

fn words(call: &Call) -> String {
    format!("{} {}", call.program, call.args.join(" "))
}

#[test]
fn the_unit_names_the_binary_by_absolute_path() {
    let argv = plan().argv();
    assert_eq!(argv[0], "/usr/local/bin/ig");
    assert!(argv.contains(&"daemon".to_string()));
    // Always spelled out, so the unit stays correct if the default moves.
    assert!(argv.contains(&"--socket".to_string()));
    assert_eq!(
        argv,
        [
            "/usr/local/bin/ig",
            "--socket",
            "/tmp/ig.sock",
            "daemon",
            "--service",
            "/home/me/my services.toml"
        ]
    );
}

#[test]
fn installing_restarts_rather_than_only_enabling() {
    let plan = systemd::load_plan();
    assert!(
        plan.iter().any(|args| args.contains(&"restart")),
        "install would be a no-op against a running unit: {plan:?}"
    );
}

#[test]
fn an_argument_with_a_space_survives_the_unit() {
    for unit in [systemd::render(&plan()), launchd::render(&plan())] {
        // Either quoted (systemd) or its own element (launchd), but never split
        // into two arguments the daemon would reject.
        assert!(
            unit.contains("\"/home/me/my services.toml\"")
                || unit.contains("<string>/home/me/my services.toml</string>"),
            "argument was not kept whole:\n{unit}"
        );
    }
}

#[test]
fn a_systemd_unit_reads_as_documented() {
    let unit = Supervisor::Systemd.render(&plan());
    let want = "\
# Generated by `ig autostart install`. Edit freely; `install` again
# to regenerate from the current arguments.
[Unit]
Description=ig
Documentation=https://github.com/Lincyaw/ig
After=network-online.target
Wants=network-online.target

[Service]
# Not Type=forking: ig stays in the foreground so systemd tracks
# the process it started rather than guessing at a pidfile.
Type=simple
ExecStart=/usr/local/bin/ig --socket /tmp/ig.sock daemon --service \"/home/me/my services.toml\"
Restart=always
RestartSec=5
# The journal rotates. A redirected file does not.
StandardOutput=journal
StandardError=journal

[Install]
WantedBy=default.target
";
    assert_eq!(unit, want);
}

#[test]
fn a_launchd_unit_reads_as_documented() {
    let unit = Supervisor::Launchd.render(&plan());
    let want = "\
<?xml version=\"1.0\" encoding=\"UTF-8\"?>
<!-- Generated by `ig autostart install`. Edit freely; `install`
     again to regenerate from the current arguments. -->
<plist version=\"1.0\">
<dict>
  <key>Label</key>
  <string>com.github.lincyaw.ig</string>
  <key>ProgramArguments</key>
  <array>
    <string>/usr/local/bin/ig</string>
    <string>--socket</string>
    <string>/tmp/ig.sock</string>
    <string>daemon</string>
    <string>--service</string>
    <string>/home/me/my services.toml</string>
  </array>
  <key>RunAtLoad</key>
  <true/>
  <key>KeepAlive</key>
  <true/>
  <!-- launchd does not rotate these. Point them somewhere
       newsyslog manages if the size matters. -->
  <key>StandardOutPath</key>
  <string>/tmp/ig.log</string>
  <key>StandardErrorPath</key>
  <string>/tmp/ig.log</string>
</dict>
</plist>
";
    assert_eq!(unit, want);
}

#[test]
fn arguments_are_quoted_where_they_have_to_be() {
    assert_eq!(systemd::quote("--key=/a_b.c:1,2@x+y"), "--key=/a_b.c:1,2@x+y");
    assert_eq!(systemd::quote(""), "\"\"");
    assert_eq!(systemd::quote("a b"), "\"a b\"");
    assert_eq!(systemd::quote("a\"b\\c"), "\"a\\\"b\\\\c\"");
    assert_eq!(launchd::escape("<a & 'b' \"c\">"), "&lt;a &amp; &apos;b&apos; &quot;c&quot;&gt;");
}

#[test]
fn the_unit_goes_where_the_supervisor_looks() {
    let path = |xdg: Option<&str>, home: Option<&str>| Supervisor::Systemd.unit_path(xdg, home);
    assert_eq!(path(Some("/x"), Some("/h")).unwrap().path(), "/x/systemd/user/ig.service");
    assert_eq!(path(Some("/x"), Some("/h")).unwrap().dir(), "/x/systemd/user");
    assert_eq!(path(Some("rel"), Some("/h")).unwrap().path(), "/h/.config/systemd/user/ig.service");
    assert_eq!(path(None, Some("/h/")).unwrap().path(), "/h/.config/systemd/user/ig.service");
    assert_eq!(
        path(Some(""), None).unwrap_err().text(),
        "neither XDG_CONFIG_HOME nor HOME is set"
    );
    let path = |home: Option<&str>| Supervisor::Launchd.unit_path(None, home);
    assert_eq!(
        path(Some("/h")).unwrap().path(),
        "/h/Library/LaunchAgents/com.github.lincyaw.ig.plist"
    );
    assert_eq!(path(None).unwrap_err().text(), "HOME is not set");
}

#[test]
fn installing_writes_the_unit_and_loads_it() {
    let work = install(Supervisor::Systemd, &plan(), &place(Supervisor::Systemd), false, Format::Text);
    assert_eq!(work.output.stderr, "installed /x/systemd/user/ig.service and started it\n");
    let mut calls = vec![];
    for (i, act) in work.acts.iter().enumerate() {
        match act {
            Act::MakeDir { path } => assert_eq!((i, path.as_str()), (0, "/x/systemd/user")),
            Act::Write { path, text } => {
                assert_eq!((i, path.as_str()), (1, "/x/systemd/user/ig.service"));
                assert!(text.contains("ExecStart=/usr/local/bin/ig"));
            }
            Act::Run(call) => calls.push(words(call)),
            other => panic!("{other:?}"),
        }
    }
    assert_eq!(
        calls,
        [
            "systemctl --user daemon-reload",
            "systemctl --user enable ig.service",
            "systemctl --user restart ig.service"
        ]
    );

    let calls: Vec<(String, bool)> =
        Supervisor::Launchd.load("/p").iter().map(|c| (words(c), c.must)).collect();
    assert_eq!(
        calls,
        [
            ("launchctl unload /p".to_string(), false),
            ("launchctl load -w /p".to_string(), true)
        ]
    );
}

#[test]
fn a_dry_run_shows_the_unit_and_does_nothing() {
    let work =
        install(Supervisor::Systemd, &plan(), &place(Supervisor::Systemd), true, Format::Text);
    assert!(work.acts.is_empty());
    assert!(work
        .output
        .stderr
        .starts_with("would: write /x/systemd/user/ig.service and load it\n\n# Generated"));
    assert_eq!(work.output.stdout, "");
    let work =
        install(Supervisor::Launchd, &plan(), &place(Supervisor::Launchd), true, Format::Json);
    let v: serde_json::Value = serde_json::from_str(&work.output.stdout).unwrap();
    assert_eq!(v["ok"], true);
    assert_eq!(v["dry_run"], true);
    assert_eq!(
        v["detail"],
        "write /h/Library/LaunchAgents/com.github.lincyaw.ig.plist and load it"
    );
    assert_eq!(v["unit"], launchd::render(&plan()));
    let work = uninstall(Supervisor::Systemd, "/u", true, true, Format::Text).unwrap();
    assert!(work.acts.is_empty());
    assert_eq!(work.output.stderr, "would: stop it and remove /u\n");
    let work = restart(Supervisor::Systemd, "/u", true, true, Format::Text).unwrap();
    assert!(work.acts.is_empty());
    assert_eq!(work.output.stderr, "would: restart the supervised daemon\n");
}

#[test]
fn a_unit_is_unloaded_before_it_is_removed() {
    let work = uninstall(Supervisor::Launchd, "/u", true, false, Format::Json).unwrap();
    assert!(matches!(&work.acts[0], Act::Run(c) if words(c) == "launchctl unload -w /u"));
    assert!(matches!(&work.acts[1], Act::Remove { path } if path == "/u"));
    assert_eq!(work.acts.len(), 2);
    let v: serde_json::Value = serde_json::from_str(&work.output.stdout).unwrap();
    assert_eq!(v["detail"], "removed /u");
    let work = restart(Supervisor::Launchd, "/u", true, false, Format::Text).unwrap();
    assert_eq!(work.acts.len(), 2);
    assert_eq!(work.output.stderr, "restarted\n");
    let calls: Vec<String> = Supervisor::Systemd.unload("/u").iter().map(words).collect();
    assert_eq!(calls, ["systemctl --user disable --now ig.service"]);
    assert_eq!(
        words(&Supervisor::Systemd.is_running()),
        "systemctl --user is-active --quiet ig.service"
    );
    assert_eq!(
        words(&Supervisor::Launchd.is_running()),
        "launchctl list com.github.lincyaw.ig"
    );
}

#[test]
fn what_is_not_installed_is_not_found() {
    let e = uninstall(Supervisor::Systemd, "/u", false, true, Format::Text).unwrap_err();
    assert_eq!(e.text(), "nothing installed at /u");
    assert_eq!(Failure::kind_of(&e), ErrorKind::NotFound);
    let e = restart(Supervisor::Systemd, "/u", false, false, Format::Text).unwrap_err();
    assert_eq!(e.text(), "nothing installed at /u; run `ig autostart install`");
}

#[test]
fn a_supervisor_command_that_fails_says_why() {
    let calls = Supervisor::Systemd.restart("/u");
    assert!(run(&calls[0], Ran::Done).is_ok());
    let e = run(&calls[0], Ran::Failed(" bad unit\n".to_string())).unwrap_err();
    assert_eq!(e.text(), "systemctl --user restart ig.service failed: bad unit");
    let e = run(&calls[0], Ran::Failed("\n".to_string())).unwrap_err();
    assert_eq!(e.text(), "systemctl --user restart ig.service failed: no output");
    let e = run(&calls[0], Ran::NotStarted("enoent".to_string())).unwrap_err();
    assert_eq!(e.text(), "cannot run systemctl: enoent; is it installed?");
    assert_eq!(Failure::kind_of(&e), ErrorKind::Unavailable);
    let calls = Supervisor::Launchd.restart("/u");
    assert!(run(&calls[0], Ran::Failed("not loaded".to_string())).is_ok());
    assert!(run(&calls[1], Ran::Failed("no".to_string())).is_err());
    let act = Act::Write { path: "/u".to_string(), text: String::new() };
    assert_eq!(act_failed(&act, "full").text(), "failed to write /u: full");
    // The directory that could not be made is the one that is named.
    let work =
        install(Supervisor::Systemd, &plan(), &place(Supervisor::Systemd), false, Format::Text);
    assert_eq!(
        act_failed(&work.acts[0], "ro").text(),
        "failed to create /x/systemd/user: ro"
    );
    let act = Act::Remove { path: "/u".to_string() };
    assert_eq!(act_failed(&act, "ro").text(), "failed to remove /u: ro");
}

#[test]
fn the_state_of_the_unit_is_a_value() {
    let text = |installed: bool, running: bool| {
        status(Supervisor::Systemd, "/u", installed, running, Format::Text).stdout
    };
    assert_eq!(
        text(true, true),
        "supervisor  systemd (user)\nunit        /u\nstate       running\n"
    );
    assert!(text(true, false).ends_with("state       installed, not running\n"));
    assert!(text(false, true).ends_with("state       not installed\n"));
    let out = status(Supervisor::Launchd, "/u", false, true, Format::Json);
    let v: serde_json::Value = serde_json::from_str(&out.stdout).unwrap();
    assert_eq!(v["supervisor"], "launchd (LaunchAgent)");
    assert_eq!(v["unit"], "/u");
    assert_eq!(v["installed"], false);
    assert_eq!(v["running"], false);
}
