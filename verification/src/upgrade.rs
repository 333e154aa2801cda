//! `ig upgrade`: replacing this binary with the latest release.
//!
//! Three things make this safe enough to run unattended. The asset is named
//! after the triple this binary was compiled for, so a binary can only ever
//! fetch the artifact it already is. What comes down is checked against the
//! release's own `SHA256SUMS` before anything on disk moves. And the swap is a
//! rename within the same directory, which is atomic: an interrupted upgrade
//! leaves the old binary, never half a new one.

use crate::client::{
    done_line, done_text, json_lines, line, write_json_lines, Format, Output, OutputView,
};
use crate::json::{
    a_field_is_found_by_its_name, field, fields_of, json_bool, json_object, json_text, no_fields,
    object, pretty_text, Json,
};
use crate::protocol::{ErrorKind, FailureView, Report};
use crate::service::opt_str;
use crate::text::{
    chars_of, decimal, find_from, first_from, hex, hex_digit, hex_text, holds, opt_text,
    push_decimal, same, text_of, the_first_is_found, trim, trimmed,
    trimming_takes_whitespace_from_the_ends, white, whitespace_around_makes_no_difference,
};
use vstd::prelude::*;

verus! {

// ---------------------------------------------------------------------------
// Releases
// ---------------------------------------------------------------------------

/// A file that goes with a release.
#[derive(Debug)]
pub struct Asset {
    pub name: String,
    /// Where the API serves it.
    pub url: String,
}

/// A release.
#[derive(Debug)]
pub struct Release {
    pub tag_name: String,
    pub assets: Vec<Asset>,
}

/// A tag without the letter in front of its number.
pub open spec fn without_v(tag: Seq<char>) -> Seq<char>
    decreases tag.len(),
{
    if tag.len() > 0 && tag[0] == 'v' {
        without_v(tag.skip(1))
    } else {
        tag
    }
}

/// The first of `assets`, from `from` on, that has this name.
pub open spec fn asset_from(assets: Seq<Asset>, name: Seq<char>, from: int) -> Option<int>
    decreases assets.len() - from,
{
    if from < 0 || from >= assets.len() {
        None
    } else if assets[from].name@ == name {
        Some(from)
    } else {
        asset_from(assets, name, from + 1)
    }
}

/// The failure to find an asset.
pub open spec fn no_asset(tag: Seq<char>, name: Seq<char>) -> FailureView {
    FailureView { kind: ErrorKind::NotFound, message: tag + " has no "@ + name }
}

impl Release {
    /// The version that the tag names: a tag is compared without its "v".
    pub fn version(&self) -> (r: &str)
        ensures
            r@ == without_v(self.tag_name@),
    {
        let tag = self.tag_name.as_str();
        let v = chars_of(tag);
        let mut i: usize = 0;
        proof {
            assert(v@.skip(0) =~= v@);
        }
        while i < v.len() && v[i] == 'v'
            invariant
                i <= v@.len(),
                v@ == tag@,
                without_v(v@) == without_v(v@.skip(i as int)),
            decreases v@.len() - i,
        {
            proof {
                assert(v@.skip(i as int).skip(1) =~= v@.skip(i + 1));
            }
            i = i + 1;
        }
        let rest = tag.substring_char(i, v.len());
        proof {
            assert(rest@ =~= v@.skip(i as int));
        }
        rest
    }

    /// The asset with this name.
    pub fn asset(&self, name: &str) -> (r: Result<&Asset, Report>)
        ensures
            match asset_from(self.assets@, name@, 0) {
                Some(i) => r matches Ok(asset) && *asset == self.assets@[i],
                None => r matches Err(e) && e@ == no_asset(self.tag_name@, name@),
            },
    {
        let mut i: usize = 0;
        while i < self.assets.len()
            invariant
                i <= self.assets@.len(),
                asset_from(self.assets@, name@, 0) == asset_from(
                    self.assets@,
                    name@,
                    i as int,
                ),
            decreases self.assets@.len() - i,
        {
            if same(self.assets[i].name.as_str(), name) {
                return Ok(&self.assets[i]);
            }
            i = i + 1;
        }
        let mut m = self.tag_name.clone();
        m.append(" has no ");
        m.append(name);
        Err(Report::failure(ErrorKind::NotFound, m))
    }
}

/// What the asset for a build is called.
pub open spec fn built_for(target: Seq<char>) -> Seq<char> {
    "ig-"@ + target
}

/// What the asset for a build is called: it is named after the triple.
pub fn asset_name(target: &str) -> (r: String)
    ensures
        r@ == built_for(target@),
{
    let mut out = "ig-".to_owned();
    out.append(target);
    out
}

// ---------------------------------------------------------------------------
// Deciding
// ---------------------------------------------------------------------------

/// What is to be done about a release.
#[derive(Debug)]
pub enum Upgrade {
    /// Nothing more: this is the report.
    Report(Output),
    /// Fetch the binary from this url, then the sums, verify, and swap.
    Fetch { url: String },
}

/// The object that reports an upgrade.
pub open spec fn upgrade_json(
    dry_run: bool,
    current: Seq<char>,
    latest: Seq<char>,
    upgraded: bool,
    detail: Seq<char>,
) -> Json {
    Json::Object(
        object(
            seq![
                ("ok"@, Json::Bool(true)),
                ("dry_run"@, Json::Bool(dry_run)),
                ("current"@, Json::Text(current)),
                ("latest"@, Json::Text(latest)),
                ("upgraded"@, Json::Bool(upgraded)),
                ("detail"@, Json::Text(detail)),
            ],
        ),
    )
}

/// How an upgrade is reported.
pub open spec fn reported(
    format: Format,
    dry_run: bool,
    current: Seq<char>,
    latest: Seq<char>,
    upgraded: bool,
    detail: Seq<char>,
) -> OutputView {
    match format {
        Format::Text => OutputView {
            stdout: Seq::empty(),
            stderr: line(done_text(dry_run, detail)),
            code: 0,
        },
        Format::Json => OutputView {
            stdout: json_lines(upgrade_json(dry_run, current, latest, upgraded, detail)),
            stderr: Seq::empty(),
            code: 0,
        },
    }
}

/// Reports an upgrade. An action, so text mode writes nothing to stdout.
/// `current` and `latest` are carried in the JSON alongside the usual fields
/// because a caller deciding whether to roll this out needs the versions, not
/// the prose.
pub fn report(
    format: Format,
    dry_run: bool,
    current: &str,
    latest: &str,
    upgraded: bool,
    detail: &str,
) -> (r: Output)
    ensures
        r@ == reported(format, dry_run, current@, latest@, upgraded, detail@),
{
    match format {
        Format::Text => Output {
            stdout: String::new(),
            stderr: done_line(dry_run, detail),
            code: 0,
        },
        Format::Json => {
            let mut fields = no_fields();
            field(&mut fields, "ok", json_bool(true));
            field(&mut fields, "dry_run", json_bool(dry_run));
            field(&mut fields, "current", json_text(current));
            field(&mut fields, "latest", json_text(latest));
            field(&mut fields, "upgraded", json_bool(upgraded));
            field(&mut fields, "detail", json_text(detail));
            proof {
                assert(fields_of(fields@) =~= seq![
                    ("ok"@, Json::Bool(true)),
                    ("dry_run"@, Json::Bool(dry_run)),
                    ("current"@, Json::Text(current@)),
                    ("latest"@, Json::Text(latest@)),
                    ("upgraded"@, Json::Bool(upgraded)),
                    ("detail"@, Json::Text(detail@)),
                ]);
            }
            Output {
                stdout: write_json_lines(&json_object(fields)),
                stderr: String::new(),
                code: 0,
            }
        },
    }
}

/// "1.2.2 -> 1.2.3".
pub open spec fn from_to(current: Seq<char>, latest: Seq<char>) -> Seq<char> {
    current + " -> "@ + latest
}

/// Decides what is to be done about the latest release, for a binary of version
/// `current` that was built for `target`.
pub fn decide(release: &Release, current: &str, target: &str, dry_run: bool, format: Format) -> (r:
    Result<Upgrade, Report>)
    ensures
        ({
            let latest = without_v(release.tag_name@);
            let name = built_for(target@);
            if latest == current@ {
                r matches Ok(Upgrade::Report(out)) && out@ == reported(
                    format,
                    dry_run,
                    current@,
                    latest,
                    false,
                    "already on "@ + current@,
                )
            } else if dry_run {
                r matches Ok(Upgrade::Report(out)) && out@ == reported(
                    format,
                    true,
                    current@,
                    latest,
                    false,
                    "upgrade "@ + from_to(current@, latest),
                )
            } else {
                match asset_from(release.assets@, name, 0) {
                    Some(i) => r matches Ok(Upgrade::Fetch { url }) && url@
                        == release.assets@[i].url@,
                    None => r matches Err(e) && e@ == no_asset(release.tag_name@, name),
                }
            }
        }),
{
    let latest = release.version();
    if same(latest, current) {
        let mut detail = "already on ".to_owned();
        detail.append(current);
        return Ok(
            Upgrade::Report(report(format, dry_run, current, latest, false, detail.as_str())),
        );
    }
    if dry_run {
        let mut detail = "upgrade ".to_owned();
        detail.append(current);
        detail.append(" -> ");
        detail.append(latest);
        proof {
            assert(detail@ =~= "upgrade "@ + from_to(current@, latest@));
        }
        return Ok(
            Upgrade::Report(report(format, true, current, latest, false, detail.as_str())),
        );
    }
    match release.asset(asset_name(target).as_str()) {
        Ok(asset) => Ok(Upgrade::Fetch { url: asset.url.clone() }),
        Err(e) => Err(e),
    }
}

/// What an upgrade that was made says.
pub open spec fn upgraded_detail(current: Seq<char>, latest: Seq<char>, path: Seq<char>) -> Seq<
    char,
> {
    "upgraded "@ + from_to(current, latest) + " at "@ + path + "; restart the daemon to run it"@
}

/// Reports an upgrade that was made: the binary at `path` is the new one.
pub fn finish(release: &Release, current: &str, path: &str, format: Format) -> (r: Output)
    ensures
        r@ == reported(
            format,
            false,
            current@,
            without_v(release.tag_name@),
            true,
            upgraded_detail(current@, without_v(release.tag_name@), path@),
        ),
{
    let latest = release.version();
    let mut detail = "upgraded ".to_owned();
    detail.append(current);
    detail.append(" -> ");
    detail.append(latest);
    detail.append(" at ");
    detail.append(path);
    detail.append("; restart the daemon to run it");
    proof {
        assert(detail@ =~= upgraded_detail(current@, latest@, path@));
    }
    report(format, false, current, latest, true, detail.as_str())
}

// ---------------------------------------------------------------------------
// GitHub
// ---------------------------------------------------------------------------

/// A token, unless it is blank.
pub open spec fn token_in(found: Option<Seq<char>>) -> Option<Seq<char>> {
    match found {
        Some(t) => if trimmed(t).len() > 0 {
            Some(trimmed(t))
        } else {
            None
        },
        None => None,
    }
}

/// A token, unless it is blank.
pub fn token_from(found: Option<&str>) -> (r: Option<String>)
    ensures
        match r {
            Some(t) => token_in(opt_str(found)) == Some(t@),
            None => token_in(opt_str(found)) is None,
        },
{
    match found {
        Some(t) => {
            let token = trim(t);
            if token.as_str().is_empty() {
                None
            } else {
                Some(token)
            }
        },
        None => None,
    }
}

/// A token from the environment: the first variable that holds one.
pub fn token(gh: Option<&str>, github: Option<&str>) -> (r: Option<String>)
    ensures
        ({
            let want = if token_in(opt_str(gh)) is Some {
                token_in(opt_str(gh))
            } else {
                token_in(opt_str(github))
            };
            match r {
                Some(t) => want == Some(t@),
                None => want is None,
            }
        }),
{
    match token_from(gh) {
        Some(t) => Some(t),
        None => token_from(github),
    }
}

/// The kind of failure that a status stands for.
pub open spec fn status_kind(code: u16) -> ErrorKind {
    if code == 401 || code == 403 {
        ErrorKind::Denied
    } else if code == 404 {
        ErrorKind::NotFound
    } else {
        ErrorKind::Unavailable
    }
}

/// What is to be done about a refusal that no token was sent with.
pub open spec fn token_hint(has_token: bool) -> Seq<char> {
    if has_token {
        ""@
    } else {
        "; set GH_TOKEN or run `gh auth login` -- the repository is private"@
    }
}

/// Accepts a status, with its code and how it is written, if it is one of success.
/// A private repository with no credentials looks exactly like one that does not
/// exist, so a refusal says what to do about both.
pub fn accept_status(code: u16, status: &str, has_token: bool) -> (r: Result<(), Report>)
    ensures
        match r {
            Ok(_) => 200 <= code < 300,
            Err(e) => !(200 <= code < 300) && e@ == (FailureView {
                kind: status_kind(code),
                message: "GitHub answered "@ + status@ + token_hint(has_token),
            }),
        },
{
    if 200 <= code && code < 300 {
        return Ok(());
    }
    let kind = match code {
        401 => ErrorKind::Denied,
        403 => ErrorKind::Denied,
        404 => ErrorKind::NotFound,
        _ => ErrorKind::Unavailable,
    };
    let mut m = "GitHub answered ".to_owned();
    m.append(status);
    m.append(
        if has_token {
            ""
        } else {
            "; set GH_TOKEN or run `gh auth login` -- the repository is private"
        },
    );
    Err(Report::failure(kind, m))
}

/// The failure to reach GitHub at all.
pub fn unreachable_github(why: &str) -> (r: Report)
    ensures
        r@ == (FailureView {
            kind: ErrorKind::Unavailable,
            message: "cannot reach GitHub ("@ + why@ + ")"@,
        }),
{
    let mut m = "cannot reach GitHub (".to_owned();
    m.append(why);
    m.append(")");
    Report::failure(ErrorKind::Unavailable, m)
}

// ---------------------------------------------------------------------------
// Verifying
// ---------------------------------------------------------------------------

/// The SHA-256 digest of some bytes.
pub uninterp spec fn sha256(data: Seq<u8>) -> Seq<u8>;

/// `ring::digest::digest` with `ring::digest::SHA256`: 32 bytes, which rest on the
/// data alone. ring does not take data whose length in bits is over 64 bits.
#[verifier::external_body]
fn digest_of(data: &[u8]) -> (r: Vec<u8>)
    requires
        data@.len() < 0x2000_0000_0000_0000,
    ensures
        r@ == sha256(data@),
        r@.len() == 32,
{
    ring::digest::digest(&ring::digest::SHA256, data).as_ref().to_vec()
}

/// Whether a text is in ASCII.
pub open spec fn is_ascii_text(s: Seq<char>) -> bool {
    forall|i: int| 0 <= i < s.len() ==> (#[trigger] s[i] as u32) < 128
}

/// A text in lower case, where only the letters of ASCII have a case.
pub open spec fn ascii_lower(s: Seq<char>) -> Seq<char> {
    Seq::new(
        s.len(),
        |i: int|
            if 'A' <= s[i] <= 'Z' {
                (s[i] as u32 + 32) as char
            } else {
                s[i]
            },
    )
}

/// A text in lower case.
pub uninterp spec fn lowercase(s: Seq<char>) -> Seq<char>;

/// `str::to_lowercase`: in a text that is in ASCII, the letters A to Z become a to
/// z, and nothing else changes. What becomes of other letters is not stated.
#[verifier::external_body]
fn lower(s: &str) -> (r: String)
    ensures
        r@ == lowercase(s@),
        is_ascii_text(s@) ==> r@ == ascii_lower(s@),
{
    s.to_lowercase()
}

/// Where two spaces first stand in `s`, from `from` on, or past the end.
pub open spec fn two_spaces(s: Seq<char>, from: int) -> int
    decreases s.len() - from,
{
    if from < 0 || from + 1 >= s.len() {
        s.len() as int
    } else if s[from] == ' ' && s[from + 1] == ' ' {
        from
    } else {
        two_spaces(s, from + 1)
    }
}

/// The sum that a line of the sums gives for `name`, if it is for `name`: what
/// stands before the first two spaces, where what follows them is the name.
pub open spec fn sum_on(line: Seq<char>, name: Seq<char>) -> Option<Seq<char>> {
    let at = two_spaces(line, 0);
    if at < line.len() && trimmed(line.skip(at + 2)) == name {
        Some(trimmed(line.take(at)))
    } else {
        None
    }
}

/// The sum that the first line for `name` gives, from `from` on.
pub open spec fn sum_from(sums: Seq<char>, name: Seq<char>, from: int) -> Option<Seq<char>>
    decreases sums.len() - from,
{
    let end = first_from(sums, '\n', from);
    if from < 0 || end < from || end > sums.len() {
        None
    } else {
        match sum_on(sums.subrange(from, end), name) {
            Some(sum) => Some(sum),
            None => if end == sums.len() {
                None
            } else {
                sum_from(sums, name, end + 1)
            },
        }
    }
}

/// The sum that the sums give for `name`.
pub open spec fn sum_for(sums: Seq<char>, name: Seq<char>) -> Option<Seq<char>> {
    sum_from(sums, name, 0)
}

/// What a checksum comes to: a binary that the sums do not cover fails, and so does
/// one whose sum, in lower case, is another.
pub open spec fn checked(got: Seq<char>, want: Option<Seq<char>>, name: Seq<char>) -> Option<
    FailureView,
> {
    match want {
        None => Some(
            FailureView {
                kind: ErrorKind::NotFound,
                message: "SHA256SUMS does not cover "@ + name,
            },
        ),
        Some(want) => if got == want {
            None
        } else {
            Some(
                FailureView {
                    kind: ErrorKind::Invalid,
                    message: name + " failed its checksum: expected "@ + want + ", got "@ + got,
                },
            )
        },
    }
}

/// A sum as it is held against the digest.
pub open spec fn lowered(sum: Option<Seq<char>>) -> Option<Seq<char>> {
    match sum {
        Some(s) => Some(lowercase(s)),
        None => None,
    }
}

fn find_two_spaces(s: &Vec<char>) -> (r: usize)
    ensures
        r == two_spaces(s@, 0),
        r < s@.len() ==> r + 2 <= s@.len(),
        r <= s@.len(),
{
    let mut i: usize = 0;
    while i < s.len() && i + 1 < s.len()
        invariant
            i <= s@.len(),
            two_spaces(s@, 0) == two_spaces(s@, i as int),
        decreases s@.len() - i,
    {
        if s[i] == ' ' && s[i + 1] == ' ' {
            return i;
        }
        i = i + 1;
    }
    s.len()
}

fn find_sum_on(line: &str, name: &str) -> (r: Option<String>)
    ensures
        match r {
            Some(sum) => sum_on(line@, name@) == Some(sum@),
            None => sum_on(line@, name@) is None,
        },
{
    let v = chars_of(line);
    let at: usize = find_two_spaces(&v);
    if at >= v.len() {
        return None;
    }
    let file = text_of(&v, at + 2, v.len());
    proof {
        assert(file@ =~= line@.skip(at + 2));
    }
    if !same(trim(file.as_str()).as_str(), name) {
        return None;
    }
    let sum = text_of(&v, 0, at);
    proof {
        assert(sum@ =~= line@.take(at as int));
    }
    Some(trim(sum.as_str()))
}

/// The sum that the sums give for `name`.
pub fn find_sum(sums: &str, name: &str) -> (r: Option<String>)
    ensures
        match r {
            Some(sum) => sum_for(sums@, name@) == Some(sum@),
            None => sum_for(sums@, name@) is None,
        },
{
    let v = chars_of(sums);
    let mut from: usize = 0;
    loop
        invariant
            from <= v@.len(),
            v@ == sums@,
            sum_for(sums@, name@) == sum_from(v@, name@, from as int),
        decreases v@.len() - from,
    {
        let end: usize = find_from(&v, '\n', from);
        let line = text_of(&v, from, end);
        match find_sum_on(line.as_str(), name) {
            Some(sum) => {
                return Some(sum);
            },
            None => {},
        }
        if end == v.len() {
            return None;
        }
        from = end + 1;
    }
}

/// Holds a digest, in hexadecimal, against the sum that is wanted.
pub fn check_sum(got: &str, want: Option<String>, name: &str) -> (r: Result<(), Report>)
    ensures
        match r {
            Ok(_) => checked(got@, opt_text(want), name@) is None,
            Err(e) => checked(got@, opt_text(want), name@) == Some(e@),
        },
{
    match want {
        None => {
            let mut m = "SHA256SUMS does not cover ".to_owned();
            m.append(name);
            Err(Report::failure(ErrorKind::NotFound, m))
        },
        Some(want) => {
            if same(got, want.as_str()) {
                return Ok(());
            }
            let mut m = name.to_owned();
            m.append(" failed its checksum: expected ");
            m.append(want.as_str());
            m.append(", got ");
            m.append(got);
            Err(Report::failure(ErrorKind::Invalid, m))
        },
    }
}

/// A number in hexadecimal is in ASCII and in lower case.
proof fn lemma_hex_is_lower(bytes: Seq<u8>)
    ensures
        is_ascii_text(hex(bytes)),
        ascii_lower(hex(bytes)) == hex(bytes),
    decreases bytes.len(),
{
    if bytes.len() > 0 {
        lemma_hex_is_lower(bytes.drop_last());
        let front = hex(bytes.drop_last());
        let high = hex_digit(bytes.last() as int / 16);
        let low = hex_digit(bytes.last() as int % 16);
        let all = hex(bytes);
        assert(all == front.push(high).push(low));
        assert forall|i: int| 0 <= i < all.len() implies (#[trigger] all[i] as u32) < 128
            && !('A' <= all[i] <= 'Z') by {
            if i < front.len() {
                assert(all[i] == front[i]);
                assert(ascii_lower(front)[i] == front[i]);
            }
        }
    }
    assert(ascii_lower(hex(bytes)) =~= hex(bytes));
}

/// Checks a download against the release's own sums. Without this the upgrade
/// path is "run whatever the network handed us".
pub fn verify(binary: &[u8], sums: &str, name: &str) -> (r: Result<(), Report>)
    requires
        binary@.len() < 0x2000_0000_0000_0000,
    ensures
        ({
            let fault = checked(
                hex(sha256(binary@)),
                lowered(sum_for(sums@, name@)),
                name@,
            );
            match r {
                Ok(_) => fault is None,
                Err(e) => fault == Some(e@),
            }
        }),
        sum_for(sums@, name@) == Some(hex(sha256(binary@))) ==> r is Ok,
        sum_for(sums@, name@) matches Some(sum) && is_ascii_text(sum) && ascii_lower(sum) == hex(
            sha256(binary@),
        ) ==> r is Ok,
        sum_for(sums@, name@) matches Some(sum) && is_ascii_text(sum) && ascii_lower(sum) != hex(
            sha256(binary@),
        ) ==> (r matches Err(e) && e@.kind == ErrorKind::Invalid),
{
    proof {
        lemma_hex_is_lower(sha256(binary@));
    }
    let got = hex_text(&digest_of(binary));
    let want = match find_sum(sums, name) {
        Some(sum) => Some(lower(sum.as_str())),
        None => None,
    };
    check_sum(got.as_str(), want, name)
}

/// How a download for `target` fails its check against the sums, if it does.
pub open spec fn download_fault(
    binary: Seq<u8>,
    sums: Seq<char>,
    target: Seq<char>,
) -> Option<FailureView> {
    let name = built_for(target);
    checked(hex(sha256(binary)), lowered(sum_for(sums, name)), name)
}

/// What may be swapped in: a download for `target` that passed its check against
/// the release's own sums, as it came down. Nothing else is handed on.
pub fn approved(binary: Vec<u8>, sums: &str, target: &str) -> (r: Result<Vec<u8>, Report>)
    requires
        binary@.len() < 0x2000_0000_0000_0000,
    ensures
        match r {
            Ok(bytes) => bytes@ == binary@ && download_fault(binary@, sums@, target@) is None,
            Err(e) => download_fault(binary@, sums@, target@) == Some(e@),
        },
        match sum_for(sums@, built_for(target@)) {
            Some(sum) => is_ascii_text(sum) ==> (r is Ok) == (ascii_lower(sum) == hex(
                sha256(binary@),
            )),
            None => r is Err,
        },
{
    match verify(binary.as_slice(), sums, asset_name(target).as_str()) {
        Ok(_) => Ok(binary),
        Err(e) => Err(e),
    }
}

/// Where the new binary is written before it is swapped in: a sibling of the old
/// one, since a rename is atomic within a filesystem.
pub fn swap_name(pid: u32) -> (r: String)
    ensures
        r@ == ".ig-upgrade-"@ + decimal(pid as nat),
{
    let mut out = ".ig-upgrade-".to_owned();
    push_decimal(&mut out, pid as u64);
    out
}

/// The failure to write beside the old binary.
pub fn unwritable(dir: &str, why: &str) -> (r: Report)
    ensures
        r@ == (FailureView {
            kind: ErrorKind::Denied,
            message: "cannot write to "@ + dir@ + ": "@ + why@
                + "; install ig somewhere you own, or re-run with sudo"@,
        }),
{
    let mut m = "cannot write to ".to_owned();
    m.append(dir);
    m.append(": ");
    m.append(why);
    m.append("; install ig somewhere you own, or re-run with sudo");
    Report::failure(ErrorKind::Denied, m)
}

// ---------------------------------------------------------------------------
// What can be relied on
// ---------------------------------------------------------------------------

/// A binary that no line of the sums covers is never accepted.
pub proof fn an_uncovered_asset_never_passes(got: Seq<char>, sums: Seq<char>, name: Seq<char>)
    requires
        sum_for(sums, name) is None,
    ensures
        checked(got, lowered(sum_for(sums, name)), name) is Some,
{
}

/// The executable is replaced only by a download whose digest is the sum that the
/// release gives for the asset of this very build.
pub proof fn only_a_checked_download_is_swapped_in(
    binary: Seq<u8>,
    sums: Seq<char>,
    target: Seq<char>,
)
    ensures
        download_fault(binary, sums, target) is None <==> (sum_for(
            sums,
            built_for(target),
        ) matches Some(sum) && lowercase(sum) == hex(sha256(binary))),
{
}

/// A binary is accepted exactly where the sum that covers it is its digest.
pub proof fn only_the_covered_digest_passes(got: Seq<char>, sums: Seq<char>, name: Seq<char>)
    ensures
        checked(got, lowered(sum_for(sums, name)), name) is None <==> (sum_for(
            sums,
            name,
        ) matches Some(sum) && lowercase(sum) == got),
{
}

/// A tag loses the letters in front of its number and nothing else.
pub proof fn a_tag_loses_its_letters_only(letters: Seq<char>, version: Seq<char>)
    requires
        forall|i: int| 0 <= i < letters.len() ==> #[trigger] letters[i] == 'v',
        version.len() == 0 || version[0] != 'v',
    ensures
        without_v(letters + version) == version,
    decreases letters.len(),
{
    let tag = letters + version;
    if letters.len() == 0 {
        assert(tag =~= version);
    } else {
        assert(tag[0] == letters[0]);
        assert(tag.skip(1) =~= letters.skip(1) + version);
        assert forall|i: int| 0 <= i < letters.skip(1).len() implies #[trigger] letters.skip(1)[i]
            == 'v' by {
            assert(letters[i + 1] == 'v');
        }
        a_tag_loses_its_letters_only(letters.skip(1), version);
    }
}

/// The asset that is found has the name that was asked for, and none before it has;
/// where none is found, none has it.
pub proof fn the_asset_that_is_found_has_the_name(assets: Seq<Asset>, name: Seq<char>, from: int)
    requires
        0 <= from,
    ensures
        match asset_from(assets, name, from) {
            Some(i) => {
                &&& from <= i < assets.len()
                &&& assets[i].name@ == name
                &&& forall|j: int| from <= j < i ==> (#[trigger] assets[j]).name@ != name
            },
            None => forall|j: int|
                from <= j < assets.len() ==> (#[trigger] assets[j]).name@ != name,
        },
    decreases assets.len() - from,
{
    if from < assets.len() && assets[from].name@ != name {
        the_asset_that_is_found_has_the_name(assets, name, from + 1);
    }
}

/// A token is what a variable holds without the whitespace around it, and a variable
/// that holds nothing else holds none.
pub proof fn a_token_is_what_is_not_blank(
    before: Seq<char>,
    token: Seq<char>,
    after: Seq<char>,
)
    requires
        forall|i: int| 0 <= i < before.len() ==> white(#[trigger] before[i]),
        forall|i: int| 0 <= i < after.len() ==> white(#[trigger] after[i]),
        token.len() > 0,
        !white(token[0]),
        !white(token.last()),
    ensures
        token_in(Some(before + token + after)) == Some(token),
        token_in(Some(before)) is None,
        token_in(None) is None,
{
    whitespace_around_makes_no_difference(before, token, after);
    let ends = trimming_takes_whitespace_from_the_ends(before);
    if trimmed(before).len() > 0 {
        assert(trimmed(before)[0] == before[ends.0]);
    }
}

/// A status is refused for what it says: a missing right, a missing thing, or a service
/// that does not serve; and what to do about it is said where no token was sent.
pub proof fn a_status_is_refused_for_what_it_says(code: u16)
    ensures
        status_kind(code) == ErrorKind::Denied <==> code == 401 || code == 403,
        status_kind(code) == ErrorKind::NotFound <==> code == 404,
        status_kind(code) == ErrorKind::Unavailable <==> code != 401 && code != 403 && code != 404,
        token_hint(true).len() == 0,
        token_hint(false).len() > 0,
{
    reveal_strlit("");
    reveal_strlit("; set GH_TOKEN or run `gh auth login` -- the repository is private");
}

/// Where two spaces are found, they stand there, and nowhere before; where they are
/// not, they stand nowhere.
proof fn lemma_two_spaces(s: Seq<char>, from: int)
    requires
        0 <= from,
    ensures
        ({
            let at = two_spaces(s, from);
            &&& at < s.len() ==> from <= at && at + 1 < s.len() && s[at] == ' ' && s[at + 1] == ' '
            &&& at <= s.len()
            &&& forall|i: int|
                from <= i < at && i + 1 < s.len() ==> !(#[trigger] s[i] == ' ' && s[i + 1] == ' ')
        }),
    decreases s.len() - from,
{
    if from + 1 < s.len() && !(s[from] == ' ' && s[from + 1] == ' ') {
        lemma_two_spaces(s, from + 1);
    }
}

/// A line gives its sum for the file that it names, and for no other: the sum is what
/// stands before the first two spaces, and the file what follows them, each without the
/// whitespace around it. A line without two spaces gives none.
pub proof fn a_line_gives_its_sum_for_its_file(
    sum: Seq<char>,
    file: Seq<char>,
    name: Seq<char>,
    line: Seq<char>,
)
    requires
        !sum.contains(' '),
        forall|i: int| 0 <= i && i + 1 < line.len() ==> !(#[trigger] line[i] == ' ' && line[i + 1]
            == ' '),
    ensures
        trimmed(file) == name ==> sum_on(sum + seq![' ', ' '] + file, name) == Some(trimmed(sum)),
        trimmed(file) != name ==> sum_on(sum + seq![' ', ' '] + file, name) is None,
        sum_on(line, name) is None,
{
    let all = sum + seq![' ', ' '] + file;
    let n = sum.len() as int;
    lemma_two_spaces(all, 0);
    let at = two_spaces(all, 0);
    assert(all[n] == ' ' && all[n + 1] == ' ');
    if at < n {
        assert(all[at] == sum[at]);
        assert(sum.contains(sum[at]));
    }
    assert(at == n);
    assert(all.take(n) =~= sum);
    assert(all.skip(n + 2) =~= file);
    lemma_two_spaces(line, 0);
}

proof fn lemma_first_shifts(s: Seq<char>, c: char, from: int, cut: int)
    requires
        0 <= cut <= from <= s.len(),
    ensures
        first_from(s, c, from) == cut + first_from(s.skip(cut), c, from - cut),
    decreases s.len() - from,
{
    let t = s.skip(cut);
    if from < s.len() {
        assert(t[from - cut] == s[from]);
        if s[from] != c {
            lemma_first_shifts(s, c, from + 1, cut);
        }
    }
}

proof fn lemma_sum_shifts(s: Seq<char>, name: Seq<char>, from: int, cut: int)
    requires
        0 <= cut <= from <= s.len(),
    ensures
        sum_from(s, name, from) == sum_from(s.skip(cut), name, from - cut),
    decreases s.len() - from,
{
    let t = s.skip(cut);
    lemma_first_shifts(s, '\n', from, cut);
    the_first_is_found(s, '\n', from);
    let end = first_from(s, '\n', from);
    assert(s.subrange(from, end) =~= t.subrange(from - cut, end - cut));
    if end < s.len() {
        lemma_sum_shifts(s, name, end + 1, cut);
    }
}

/// The sums are looked through line by line: what the first line gives for a file
/// counts, and where it gives none, what the rest gives.
pub proof fn sums_are_looked_through_line_by_line(
    line: Seq<char>,
    rest: Seq<char>,
    name: Seq<char>,
)
    requires
        !line.contains('\n'),
    ensures
        sum_on(line, name) is Some ==> sum_for(line + seq!['\n'] + rest, name) == sum_on(line, name),
        sum_on(line, name) is None ==> sum_for(line + seq!['\n'] + rest, name) == sum_for(rest, name),
        sum_for(line, name) == sum_on(line, name),
{
    let all = line + seq!['\n'] + rest;
    let n = line.len() as int;
    the_first_is_found(all, '\n', 0);
    let end = first_from(all, '\n', 0);
    assert(all[n] == '\n');
    if end < n {
        assert(all[end] == line[end]);
        assert(line.contains(line[end]));
    }
    assert(end == n);
    assert(all.subrange(0, n) =~= line);
    lemma_sum_shifts(all, name, n + 1, n + 1);
    assert(all.skip(n + 1) =~= rest);
    the_first_is_found(line, '\n', 0);
    let last = first_from(line, '\n', 0);
    if last < line.len() {
        assert(line.contains(line[last]));
    }
    assert(line.subrange(0, n) =~= line);
}

/// A download passes exactly where a sum covers it and is its digest, and each failure
/// says which of the two it is.
pub proof fn a_check_fails_for_what_is_wrong(got: Seq<char>, want: Seq<char>, name: Seq<char>)
    ensures
        checked(got, Some(got), name) is None,
        got != want ==> (checked(got, Some(want), name) matches Some(f) && f.kind
            == ErrorKind::Invalid && holds(f.message, want) && holds(f.message, got)),
        checked(got, None, name) matches Some(f) && f.kind == ErrorKind::NotFound,
{
    if got != want {
        let m = name + " failed its checksum: expected "@ + want + ", got "@ + got;
        assert(m =~= (name + " failed its checksum: expected "@) + want + (", got "@ + got));
        assert(m =~= (name + " failed its checksum: expected "@ + want + ", got "@) + got + Seq::<
            char,
        >::empty());
    }
}

/// An upgrade is reported with both versions and whether it was made; in text it goes
/// to stderr and nothing to stdout.
pub proof fn an_upgrade_is_reported_with_its_versions(
    dry_run: bool,
    current: Seq<char>,
    latest: Seq<char>,
    upgraded: bool,
    detail: Seq<char>,
)
    ensures
        ({
            let m = upgrade_json(dry_run, current, latest, upgraded, detail)->Object_0;
            &&& upgrade_json(dry_run, current, latest, upgraded, detail) is Object
            &&& m.contains_key("ok"@) && m["ok"@] == Json::Bool(true)
            &&& m.contains_key("dry_run"@) && m["dry_run"@] == Json::Bool(dry_run)
            &&& m.contains_key("current"@) && m["current"@] == Json::Text(current)
            &&& m.contains_key("latest"@) && m["latest"@] == Json::Text(latest)
            &&& m.contains_key("upgraded"@) && m["upgraded"@] == Json::Bool(upgraded)
            &&& m.contains_key("detail"@) && m["detail"@] == Json::Text(detail)
        }),
        reported(Format::Text, dry_run, current, latest, upgraded, detail) == (OutputView {
            stdout: Seq::empty(),
            stderr: line(
                if dry_run {
                    "would: "@ + detail
                } else {
                    detail
                },
            ),
            code: 0,
        }),
        reported(Format::Json, dry_run, current, latest, upgraded, detail) == (OutputView {
            stdout: line(
                pretty_text(upgrade_json(dry_run, current, latest, upgraded, detail)),
            ),
            stderr: Seq::empty(),
            code: 0,
        }),
{
    reveal_strlit("");
    assert(""@ + detail =~= detail);
    reveal_strlit("ok");
    reveal_strlit("dry_run");
    reveal_strlit("current");
    reveal_strlit("latest");
    reveal_strlit("upgraded");
    reveal_strlit("detail");
    assert("ok"@.len() == 2 && "dry_run"@.len() == 7 && "current"@.len() == 7);
    assert("latest"@.len() == 6 && "upgraded"@.len() == 8 && "detail"@.len() == 6);
    assert("dry_run"@[0] == 'd' && "current"@[0] == 'c');
    assert("latest"@[0] == 'l' && "detail"@[0] == 'd');
    let f = seq![
        ("ok"@, Json::Bool(true)),
        ("dry_run"@, Json::Bool(dry_run)),
        ("current"@, Json::Text(current)),
        ("latest"@, Json::Text(latest)),
        ("upgraded"@, Json::Bool(upgraded)),
        ("detail"@, Json::Text(detail)),
    ];
    a_field_is_found_by_its_name(f, 0);
    a_field_is_found_by_its_name(f, 1);
    a_field_is_found_by_its_name(f, 2);
    a_field_is_found_by_its_name(f, 3);
    a_field_is_found_by_its_name(f, 4);
    a_field_is_found_by_its_name(f, 5);
}

/// A build asks for the asset that is named after its own triple: two builds ask for
/// two assets.
pub proof fn every_build_asks_for_its_own_asset(a: Seq<char>, b: Seq<char>)
    ensures
        built_for(a).skip(3) == a,
        built_for(a) == built_for(b) ==> a == b,
{
    reveal_strlit("ig-");
    assert("ig-"@.len() == 3);
    assert(built_for(a).skip(3) =~= a);
    assert(built_for(b).skip(3) =~= b);
}

}
