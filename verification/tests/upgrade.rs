use ig::client::Format;
use ig::protocol::{ErrorKind, Failure};
use ig::upgrade::{
    accept_status, approved, asset_name, check_sum, decide, find_sum, finish, swap_name, token,
    token_from, unreachable_github, unwritable, verify, Asset, Release, Upgrade,
};

const TARGET: &str = "x86_64-unknown-linux-gnu";

fn release(tag: &str, assets: &[&str]) -> Release {
    Release {
        tag_name: tag.to_string(),
        assets: assets
            .iter()
            .map(|n| Asset { name: n.to_string(), url: format!("https://api/{n}") })
            .collect(),
    }
}

#[test]
fn the_asset_is_named_for_the_build() {
    assert!(!TARGET.is_empty());
    assert!(asset_name(TARGET).starts_with("ig-"));
    assert_eq!(asset_name(TARGET), format!("ig-{TARGET}"));
}

#[test]
fn a_matching_checksum_passes_and_a_wrong_one_does_not() {
    let sums = "\
e3b0c44298fc1c149afbf4c8996fb92427ae41e4649b934ca495991b7852b855  ig-other\n\
9f86d081884c7d659a2feaa0c55ad015a3bf4f1b2b0b822cd15d6c15b0f00a08  ig-mine\n";
    assert!(verify(b"test", sums, "ig-mine").is_ok());
    assert!(verify(b"tampered", sums, "ig-mine").is_err());
    assert!(verify(b"", sums, "ig-other").is_ok());
    let e = verify(b"test", sums, "ig-other").unwrap_err();
    assert_eq!(Failure::kind_of(&e), ErrorKind::Invalid);
    assert_eq!(
        e.text(),
        "ig-other failed its checksum: expected \
         e3b0c44298fc1c149afbf4c8996fb92427ae41e4649b934ca495991b7852b855, got \
         9f86d081884c7d659a2feaa0c55ad015a3bf4f1b2b0b822cd15d6c15b0f00a08"
    );
}

#[test]
fn a_checksum_is_read_in_either_case() {
    let sums = "9F86D081884C7D659A2FEAA0C55AD015A3BF4F1B2B0B822CD15D6C15B0F00A08  ig-mine\r\n";
    assert!(verify(b"test", sums, "ig-mine").is_ok());
    assert!(verify(b"tset", sums, "ig-mine").is_err());
}

#[test]
fn only_a_checked_download_is_swapped_in() {
    let sums = "\
e3b0c44298fc1c149afbf4c8996fb92427ae41e4649b934ca495991b7852b855  ig-other\n\
9f86d081884c7d659a2feaa0c55ad015a3bf4f1b2b0b822cd15d6c15b0f00a08  ig-mine\n";
    assert_eq!(approved(b"test".to_vec(), sums, "mine").unwrap(), b"test");
    let e = approved(b"tampered".to_vec(), sums, "mine").unwrap_err();
    assert_eq!(Failure::kind_of(&e), ErrorKind::Invalid);
    // The sum of another build does not count.
    assert!(approved(b"test".to_vec(), sums, "other").is_err());
    let e = approved(b"test".to_vec(), sums, "third").unwrap_err();
    assert_eq!(e.text(), "SHA256SUMS does not cover ig-third");
}

#[test]
fn an_uncovered_asset_is_a_failure_not_a_pass() {
    // The dangerous bug here is treating "no line for me" as nothing to
    // check, which would let an unlisted asset install unverified.
    assert!(verify(b"anything", "", "ig-mine").is_err());
    let e = verify(b"anything", "abc ig-mine\n", "ig-mine").unwrap_err();
    assert_eq!(e.text(), "SHA256SUMS does not cover ig-mine");
    assert_eq!(Failure::kind_of(&e), ErrorKind::NotFound);
}

#[test]
fn the_first_covering_line_counts() {
    let sums = "junk\nA   ig-mine \nB  ig-mine\n";
    assert_eq!(find_sum(sums, "ig-mine").as_deref(), Some("A"));
    assert_eq!(find_sum("x  a\ny  b", "b").as_deref(), Some("y"));
    assert_eq!(find_sum("x  a\ny  b", "c"), None);
    assert!(check_sum("a", Some("a".to_string()), "n").is_ok());
    assert!(check_sum("a", Some("b".to_string()), "n").is_err());
    assert!(check_sum("a", None, "n").is_err());
}

#[test]
fn a_tag_is_compared_without_its_v() {
    let release = Release {
        tag_name: "v1.2.3".into(),
        assets: vec![],
    };
    assert_eq!(release.version(), "1.2.3");
    assert_eq!(Release { tag_name: "vv2".into(), assets: vec![] }.version(), "2");
    assert_eq!(Release { tag_name: "3v".into(), assets: vec![] }.version(), "3v");
}

#[test]
fn the_latest_version_needs_no_upgrade() {
    let r = release("v1.0.0", &[]);
    match decide(&r, "1.0.0", TARGET, false, Format::Text).unwrap() {
        Upgrade::Report(out) => {
            assert_eq!(out.stderr, "already on 1.0.0\n");
            assert_eq!(out.stdout, "");
            assert_eq!(out.code, 0);
        }
        other => panic!("{other:?}"),
    }
}

#[test]
fn a_dry_run_only_says_what_it_would_do() {
    let r = release("v1.1.0", &[]);
    match decide(&r, "1.0.0", TARGET, true, Format::Json).unwrap() {
        Upgrade::Report(out) => {
            let v: serde_json::Value = serde_json::from_str(&out.stdout).unwrap();
            assert_eq!(v["detail"], "upgrade 1.0.0 -> 1.1.0");
            assert_eq!(v["current"], "1.0.0");
            assert_eq!(v["latest"], "1.1.0");
            assert_eq!(v["upgraded"], false);
            assert_eq!(v["dry_run"], true);
            assert_eq!(v["ok"], true);
            assert_eq!(out.stderr, "");
        }
        other => panic!("{other:?}"),
    }
}

#[test]
fn an_upgrade_fetches_the_asset_of_its_own_build() {
    let r = release("v1.1.0", &["ig-other", "ig-x86_64-unknown-linux-gnu"]);
    match decide(&r, "1.0.0", TARGET, false, Format::Text).unwrap() {
        Upgrade::Fetch { url } => assert_eq!(url, "https://api/ig-x86_64-unknown-linux-gnu"),
        other => panic!("{other:?}"),
    }
    let r = release("v1.1.0", &["ig-other"]);
    let e = decide(&r, "1.0.0", TARGET, false, Format::Text).unwrap_err();
    assert_eq!(e.text(), "v1.1.0 has no ig-x86_64-unknown-linux-gnu");
    assert_eq!(Failure::kind_of(&e), ErrorKind::NotFound);
    assert!(r.asset("ig-other").is_ok());
    let out = finish(&r, "1.0.0", "/usr/bin/ig", Format::Text);
    assert_eq!(
        out.stderr,
        "upgraded 1.0.0 -> 1.1.0 at /usr/bin/ig; restart the daemon to run it\n"
    );
}

#[test]
fn a_token_comes_from_the_first_variable_that_holds_one() {
    assert_eq!(token(Some(" a\n"), Some("b")).as_deref(), Some("a"));
    assert_eq!(token(Some("  "), Some("b ")).as_deref(), Some("b"));
    assert_eq!(token(None, Some("b")).as_deref(), Some("b"));
    assert_eq!(token(None, Some("")), None);
    assert_eq!(token_from(Some("x\n")).as_deref(), Some("x"));
}

#[test]
fn a_refusal_says_what_to_do_about_it() {
    assert!(accept_status(200, "200 OK", false).is_ok());
    let e = accept_status(404, "404 Not Found", false).unwrap_err();
    assert_eq!(
        e.text(),
        "GitHub answered 404 Not Found; set GH_TOKEN or run `gh auth login` -- the repository is private"
    );
    assert_eq!(Failure::kind_of(&e), ErrorKind::NotFound);
    let e = accept_status(403, "403 Forbidden", true).unwrap_err();
    assert_eq!(e.text(), "GitHub answered 403 Forbidden");
    assert_eq!(Failure::kind_of(&e), ErrorKind::Denied);
    let e = accept_status(500, "500", true).unwrap_err();
    assert_eq!(Failure::kind_of(&e), ErrorKind::Unavailable);
    assert_eq!(unreachable_github("dns").text(), "cannot reach GitHub (dns)");
    assert_eq!(Failure::kind_of(&unwritable("/usr", "ro")), ErrorKind::Denied);
    assert_eq!(swap_name(7), ".ig-upgrade-7");
}
