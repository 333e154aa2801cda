//! systemd, as the user's own instance runs it.

use crate::autostart::{
    call, call_rows, full_argv, says, Call, CallView, Plan, UnitPath, UnitPathView,
};
use crate::protocol::{ErrorKind, FailureView, Report};
use crate::service::opt_str;
use crate::text::{chars_of, join, join_path, joined, lemma_joined_front, texts, under};
use vstd::prelude::*;

verus! {

/// The unit, up to the command that it starts.
pub const UNIT_HEAD: &'static str = "\
# Generated by `ig autostart install`. Edit freely; `install` again\n\
# to regenerate from the current arguments.\n\
[Unit]\n\
Description=ig\n\
Documentation=https://github.com/Lincyaw/ig\n\
After=network-online.target\n\
Wants=network-online.target\n\
\n\
[Service]\n\
# Not Type=forking: ig stays in the foreground so systemd tracks\n\
# the process it started rather than guessing at a pidfile.\n\
Type=simple\n\
ExecStart=";

/// The unit, after the command that it starts.
pub const UNIT_TAIL: &'static str = "\n\
Restart=always\n\
RestartSec=5\n\
# The journal rotates. A redirected file does not.\n\
StandardOutput=journal\n\
StandardError=journal\n\
\n\
[Install]\n\
WantedBy=default.target\n";

// ---------------------------------------------------------------------------
// Quoting
// ---------------------------------------------------------------------------

/// Whether `c` stands for itself outside quotes.
pub open spec fn is_plain(c: char) -> bool {
    ||| '0' <= c <= '9'
    ||| 'A' <= c <= 'Z'
    ||| 'a' <= c <= 'z'
    ||| c == '-'
    ||| c == '_'
    ||| c == '.'
    ||| c == '/'
    ||| c == ':'
    ||| c == '='
    ||| c == ','
    ||| c == '@'
    ||| c == '+'
}

/// Whether an argument is plainly a word.
pub open spec fn is_word(arg: Seq<char>) -> bool {
    arg.len() > 0 && forall|i: int| 0 <= i < arg.len() ==> is_plain(#[trigger] arg[i])
}

/// How `c` is written inside quotes.
pub open spec fn escape_of(c: char) -> Seq<char> {
    if c == '\\' || c == '"' {
        seq!['\\', c]
    } else {
        seq![c]
    }
}

/// How `arg` is written inside quotes.
pub open spec fn escaped(arg: Seq<char>) -> Seq<char>
    decreases arg.len(),
{
    if arg.len() == 0 {
        Seq::empty()
    } else {
        escape_of(arg[0]) + escaped(arg.skip(1))
    }
}

/// How an argument is written: as it is if it is plainly a word, or in quotes.
pub open spec fn quoted(arg: Seq<char>) -> Seq<char> {
    if is_word(arg) {
        arg
    } else {
        seq!['"'] + escaped(arg) + seq!['"']
    }
}

/// How each argument is written.
pub open spec fn all_quoted(argv: Seq<Seq<char>>) -> Seq<Seq<char>> {
    argv.map_values(|a: Seq<char>| quoted(a))
}

/// The unit that starts `argv`.
pub open spec fn unit_text(argv: Seq<Seq<char>>) -> Seq<char> {
    UNIT_HEAD@ + joined(all_quoted(argv), " "@) + UNIT_TAIL@
}

fn plain(c: char) -> (r: bool)
    ensures
        r == is_plain(c),
{
    ('0' <= c && c <= '9') || ('A' <= c && c <= 'Z') || ('a' <= c && c <= 'z') || c == '-' || c
        == '_' || c == '.' || c == '/' || c == ':' || c == '=' || c == ',' || c == '@' || c == '+'
}

/// Quotes an argument. systemd splits a command on whitespace and reads its own
/// quoting, so any argument that is not plainly a word gets double-quoted.
pub fn quote(arg: &str) -> (r: String)
    ensures
        r@ == quoted(arg@),
{
    let v = chars_of(arg);
    let mut word = v.len() > 0;
    let mut i: usize = 0;
    while i < v.len()
        invariant
            i <= v@.len(),
            word == (v@.len() > 0 && forall|j: int| 0 <= j < i ==> is_plain(#[trigger] v@[j])),
        decreases v@.len() - i,
    {
        if !plain(v[i]) {
            word = false;
        }
        i = i + 1;
    }
    if word {
        return arg.to_owned();
    }
    let mut out = String::new();
    out.push('"');
    let mut k: usize = 0;
    proof {
        assert(v@.skip(0) =~= v@);
        assert(out@ + escaped(v@.skip(0)) =~= seq!['"'] + escaped(v@));
    }
    while k < v.len()
        invariant
            k <= v@.len(),
            out@ + escaped(v@.skip(k as int)) == seq!['"'] + escaped(v@),
        decreases v@.len() - k,
    {
        let c: char = v[k];
        let ghost before = out@;
        if c == '\\' || c == '"' {
            out.push('\\');
        }
        out.push(c);
        proof {
            assert(v@.skip(k as int).skip(1) =~= v@.skip(k + 1));
            assert(out@ =~= before + escape_of(c));
            assert(out@ + escaped(v@.skip(k + 1)) =~= before + escaped(v@.skip(k as int)));
        }
        k = k + 1;
    }
    proof {
        assert(escaped(v@.skip(v@.len() as int)) =~= Seq::empty());
        assert(out@ =~= seq!['"'] + escaped(v@));
    }
    out.push('"');
    proof {
        assert(out@ =~= quoted(arg@));
    }
    out
}

/// The unit for a plan.
pub fn render(plan: &Plan) -> (r: String)
    ensures
        r@ == unit_text(full_argv(*plan)),
{
    let argv = plan.argv();
    let mut parts: Vec<String> = Vec::new();
    let mut i: usize = 0;
    while i < argv.len()
        invariant
            i <= argv@.len(),
            parts@.len() == i,
            forall|j: int| 0 <= j < i ==> (#[trigger] parts@[j])@ == quoted(argv@[j]@),
        decreases argv@.len() - i,
    {
        parts.push(quote(argv[i].as_str()));
        i = i + 1;
    }
    proof {
        assert(texts(parts@) =~= all_quoted(texts(argv@)));
    }
    let mut out = UNIT_HEAD.to_owned();
    out.append(join(&parts, " ").as_str());
    out.append(UNIT_TAIL);
    out
}

// ---------------------------------------------------------------------------
// Commands
// ---------------------------------------------------------------------------

/// `systemctl` with these arguments.
pub open spec fn systemctl(args: Seq<Seq<char>>) -> CallView {
    CallView { program: "systemctl"@, args, must: true }
}

/// What loads the unit.
pub open spec fn loading() -> Seq<CallView> {
    seq![
        systemctl(seq!["--user"@, "daemon-reload"@]),
        systemctl(seq!["--user"@, "enable"@, "ig.service"@]),
        systemctl(seq!["--user"@, "restart"@, "ig.service"@]),
    ]
}

/// What unloads the unit.
pub open spec fn unloading() -> Seq<CallView> {
    seq![systemctl(seq!["--user"@, "disable"@, "--now"@, "ig.service"@])]
}

/// What restarts the unit.
pub open spec fn restarting() -> Seq<CallView> {
    seq![systemctl(seq!["--user"@, "restart"@, "ig.service"@])]
}

/// What tells, by succeeding, that the unit is running.
pub open spec fn asking() -> CallView {
    systemctl(seq!["--user"@, "is-active"@, "--quiet"@, "ig.service"@])
}

/// The install sequence.
///
/// `restart` rather than `enable --now`: --now does nothing to a unit that is
/// already running, so installing over one would rewrite the file and go on
/// running the arguments you just replaced -- a config change that reports success
/// and has no effect. The launchd path unloads first for exactly the same reason.
pub fn load_plan() -> (r: Vec<Vec<&'static str>>)
    ensures
        r@.len() == loading().len(),
        forall|i: int| 0 <= i < r@.len() ==> says((#[trigger] r@[i])@) == loading()[i].args,
{
    let reload: Vec<&'static str> = vec!["--user", "daemon-reload"];
    let enable: Vec<&'static str> = vec!["--user", "enable", "ig.service"];
    let restart: Vec<&'static str> = vec!["--user", "restart", "ig.service"];
    proof {
        assert(says(reload@) =~= loading()[0].args);
        assert(says(enable@) =~= loading()[1].args);
        assert(says(restart@) =~= loading()[2].args);
    }
    vec![reload, enable, restart]
}

/// What loads the unit.
pub fn load() -> (r: Vec<Call>)
    ensures
        call_rows(r@) == loading(),
{
    let plan = load_plan();
    let mut r: Vec<Call> = Vec::new();
    let mut i: usize = 0;
    while i < plan.len()
        invariant
            i <= plan@.len(),
            plan@.len() == loading().len(),
            forall|j: int|
                0 <= j < plan@.len() ==> says((#[trigger] plan@[j])@) == loading()[j].args,
            call_rows(r@) =~= loading().take(i as int),
        decreases plan@.len() - i,
    {
        let ghost before = r@;
        r.push(call("systemctl", &plan[i], true));
        proof {
            assert(says(plan@[i as int]@) == loading()[i as int].args);
            assert(call_rows(r@) =~= call_rows(before).push(loading()[i as int]));
        }
        i = i + 1;
    }
    proof {
        assert(loading().take(loading().len() as int) =~= loading());
    }
    r
}

/// What unloads the unit.
pub fn unload() -> (r: Vec<Call>)
    ensures
        call_rows(r@) == unloading(),
{
    let args: Vec<&'static str> = vec!["--user", "disable", "--now", "ig.service"];
    let r = vec![call("systemctl", &args, true)];
    proof {
        assert(says(args@) =~= unloading()[0].args);
        assert(call_rows(r@) =~= unloading());
    }
    r
}

/// What restarts the unit.
pub fn restart() -> (r: Vec<Call>)
    ensures
        call_rows(r@) == restarting(),
{
    let args: Vec<&'static str> = vec!["--user", "restart", "ig.service"];
    let r = vec![call("systemctl", &args, true)];
    proof {
        assert(says(args@) =~= restarting()[0].args);
        assert(call_rows(r@) =~= restarting());
    }
    r
}

/// What tells, by succeeding, that the unit is running.
pub fn is_running() -> (r: Call)
    ensures
        r@ == asking(),
{
    let args: Vec<&'static str> = vec!["--user", "is-active", "--quiet", "ig.service"];
    proof {
        assert(says(args@) =~= asking().args);
    }
    call("systemctl", &args, true)
}

/// Where the unit goes: under `XDG_CONFIG_HOME` if that is absolute, or else under
/// `.config` in `HOME`.
pub open spec fn unit_place(xdg: Option<Seq<char>>, home: Option<Seq<char>>) -> Result<
    UnitPathView,
    FailureView,
> {
    let place = |base: Seq<char>|
        UnitPathView { dir: under(base, "systemd/user"@), file: "ig.service"@ };
    if xdg matches Some(x) && x.len() > 0 && x[0] == '/' {
        Ok(place(xdg->0))
    } else {
        match home {
            Some(h) => Ok(place(under(h, ".config"@))),
            None => Err(
                FailureView {
                    kind: ErrorKind::Internal,
                    message: "neither XDG_CONFIG_HOME nor HOME is set"@,
                },
            ),
        }
    }
}

/// Where the unit goes.
pub fn unit_path(xdg: Option<&str>, home: Option<&str>) -> (r: Result<UnitPath, Report>)
    ensures
        match r {
            Ok(path) => unit_place(opt_str(xdg), opt_str(home)) == Ok::<UnitPathView, FailureView>(
                path@,
            ),
            Err(e) => unit_place(opt_str(xdg), opt_str(home)) == Err::<UnitPathView, FailureView>(
                e@,
            ),
        },
{
    let mut base: Option<String> = None;
    match xdg {
        Some(x) => {
            if x.unicode_len() > 0 && x.get_char(0) == '/' {
                base = Some(x.to_owned());
            }
        },
        None => {},
    }
    if base.is_none() {
        match home {
            Some(h) => {
                base = Some(join_path(h, ".config"));
            },
            None => {},
        }
    }
    match base {
        Some(b) => {
            let dir = join_path(b.as_str(), "systemd/user");
            Ok(UnitPath::new(dir, "ig.service"))
        },
        None => Err(Report::internal("neither XDG_CONFIG_HOME nor HOME is set".to_owned())),
    }
}

// ---------------------------------------------------------------------------
// What can be relied on
// ---------------------------------------------------------------------------

/// Installing restarts the unit, after it was reloaded and enabled, rather than
/// only enabling it.
pub proof fn installing_restarts()
    ensures
        loading().last().args.contains("restart"@),
        loading().last() == restarting().last(),
{
    assert(loading().last().args[1] == "restart"@);
}

/// What is read inside quotes, up to the closing one, and what follows it. A
/// backslash stands for what follows it.
pub open spec fn read_quoted(s: Seq<char>) -> Option<(Seq<char>, Seq<char>)>
    decreases s.len(),
{
    if s.len() == 0 {
        None
    } else if s[0] == '"' {
        Some((Seq::empty(), s.skip(1)))
    } else if s[0] == '\\' {
        if s.len() < 2 {
            None
        } else {
            match read_quoted(s.skip(2)) {
                Some((text, rest)) => Some((seq![s[1]] + text, rest)),
                None => None,
            }
        }
    } else {
        match read_quoted(s.skip(1)) {
            Some((text, rest)) => Some((seq![s[0]] + text, rest)),
            None => None,
        }
    }
}

/// What is read outside quotes, up to a space, and what follows.
pub open spec fn read_bare(s: Seq<char>) -> (Seq<char>, Seq<char>)
    decreases s.len(),
{
    if s.len() == 0 || s[0] == ' ' {
        (Seq::empty(), s)
    } else {
        let (text, rest) = read_bare(s.skip(1));
        (seq![s[0]] + text, rest)
    }
}

/// The arguments that a command line is split into: they are parted by one space
/// each, and those in double quotes are taken whole.
pub open spec fn read_words(s: Seq<char>) -> Option<Seq<Seq<char>>>
    decreases s.len(),
{
    let first = if s.len() > 0 && s[0] == '"' {
        read_quoted(s.skip(1))
    } else {
        Some(read_bare(s))
    };
    match first {
        None => None,
        Some((word, rest)) => if rest.len() == 0 {
            Some(seq![word])
        } else if rest[0] != ' ' || rest.len() > s.len() {
            None
        } else {
            match read_words(rest.skip(1)) {
                Some(words) => Some(seq![word] + words),
                None => None,
            }
        },
    }
}

/// What was escaped is read back, up to the quote that closes it.
proof fn lemma_escaped_is_read(arg: Seq<char>, rest: Seq<char>)
    ensures
        read_quoted(escaped(arg) + seq!['"'] + rest) == Some((arg, rest)),
    decreases arg.len(),
{
    let s = escaped(arg) + seq!['"'] + rest;
    if arg.len() == 0 {
        assert(s.skip(1) =~= rest);
        assert(s[0] == '"');
        assert(arg =~= Seq::empty());
    } else {
        let tail = escaped(arg.skip(1)) + seq!['"'] + rest;
        lemma_escaped_is_read(arg.skip(1), rest);
        assert(seq![arg[0]] + arg.skip(1) =~= arg);
        if arg[0] == '\\' || arg[0] == '"' {
            assert(s[0] == '\\');
            assert(s[1] == arg[0]);
            assert(s.skip(2) =~= tail);
        } else {
            assert(s[0] == arg[0]);
            assert(s.skip(1) =~= tail);
        }
    }
}

/// A plain word is read back, up to the space that ends it.
proof fn lemma_word_is_read(arg: Seq<char>, rest: Seq<char>)
    requires
        forall|i: int| 0 <= i < arg.len() ==> is_plain(#[trigger] arg[i]),
        rest.len() == 0 || rest[0] == ' ',
    ensures
        read_bare(arg + rest) == (arg, rest),
    decreases arg.len(),
{
    if arg.len() == 0 {
        assert(arg + rest =~= rest);
        assert(arg =~= Seq::empty());
    } else {
        assert((arg + rest).skip(1) =~= arg.skip(1) + rest);
        assert((arg + rest)[0] == arg[0]);
        assert(is_plain(arg[0]));
        assert forall|i: int| 0 <= i < arg.skip(1).len() implies is_plain(
            #[trigger] arg.skip(1)[i],
        ) by {
            assert(is_plain(arg[i + 1]));
        }
        lemma_word_is_read(arg.skip(1), rest);
        assert(seq![arg[0]] + arg.skip(1) =~= arg);
    }
}

/// Every argument survives the unit: where the command that the unit starts is
/// split again, with double quotes and backslashes read as quoting, each argument
/// comes out whole and as it was. This says nothing of `%` and `$`, which systemd
/// reads on top of that.
pub proof fn every_argument_survives_the_unit(argv: Seq<Seq<char>>)
    requires
        argv.len() > 0,
    ensures
        read_words(joined(all_quoted(argv), " "@)) == Some(argv),
    decreases argv.len(),
{
    reveal_strlit(" ");
    let quotes = all_quoted(argv);
    let s = joined(quotes, " "@);
    let arg = argv[0];
    let others = argv.skip(1);
    let rest = if others.len() == 0 {
        Seq::<char>::empty()
    } else {
        " "@ + joined(all_quoted(others), " "@)
    };
    if others.len() == 0 {
        assert(quotes =~= seq![quoted(arg)]);
        assert(s =~= quoted(arg) + rest);
        assert(argv =~= seq![arg]);
    } else {
        assert(quotes =~= seq![quoted(arg)] + all_quoted(others));
        lemma_joined_front(quoted(arg), all_quoted(others), " "@);
        assert(s =~= quoted(arg) + rest);
        every_argument_survives_the_unit(others);
        assert(rest.skip(1) =~= joined(all_quoted(others), " "@));
        assert(argv =~= seq![arg] + others);
    }
    if is_word(arg) {
        lemma_word_is_read(arg, rest);
        assert(is_plain(arg[0]));
        assert(s[0] == arg[0]);
    } else {
        lemma_escaped_is_read(arg, rest);
        assert(s[0] == '"');
        assert(s.skip(1) =~= escaped(arg) + seq!['"'] + rest);
    }
}

/// The unit starts the command, the whole of it and nothing else: between what stands
/// before and after it, it is one line that is split into the arguments again.
pub proof fn the_unit_starts_the_command(argv: Seq<Seq<char>>)
    requires
        argv.len() > 0,
    ensures
        ({
            let unit = unit_text(argv);
            let from = UNIT_HEAD@.len() as int;
            let to = unit.len() - UNIT_TAIL@.len();
            &&& from <= to
            &&& unit.take(from) == UNIT_HEAD@
            &&& unit.skip(to) == UNIT_TAIL@
            &&& read_words(unit.subrange(from, to)) == Some(argv)
        }),
{
    let unit = unit_text(argv);
    let command = joined(all_quoted(argv), " "@);
    let from = UNIT_HEAD@.len() as int;
    let to = unit.len() - UNIT_TAIL@.len();
    assert(unit.take(from) =~= UNIT_HEAD@);
    assert(unit.skip(to) =~= UNIT_TAIL@);
    assert(unit.subrange(from, to) =~= command);
    every_argument_survives_the_unit(argv);
}

/// The unit is looked for in the directory that the environment names, if that is
/// absolute, and otherwise in the one that goes with the home directory; with neither
/// there is none.
pub proof fn a_relative_directory_does_not_count(xdg: Seq<char>, home: Seq<char>)
    ensures
        xdg.len() > 0 && xdg[0] == '/' ==> unit_place(Some(xdg), Some(home)) == unit_place(
            Some(xdg),
            None,
        ),
        xdg.len() == 0 || xdg[0] != '/' ==> unit_place(Some(xdg), Some(home)) == unit_place(
            None,
            Some(home),
        ),
        xdg.len() == 0 || xdg[0] != '/' ==> unit_place(Some(xdg), None) is Err,
        unit_place(None, None) is Err,
        xdg.len() > 0 && xdg[0] == '/' ==> unit_place(Some(xdg), None) == Ok::<
            UnitPathView,
            FailureView,
        >(UnitPathView { dir: under(xdg, "systemd/user"@), file: "ig.service"@ }),
        unit_place(None, Some(home)) == Ok::<UnitPathView, FailureView>(
            UnitPathView {
                dir: under(under(home, ".config"@), "systemd/user"@),
                file: "ig.service"@,
            },
        ),
{
}

/// An argument is written as it is exactly where it is not empty and made of letters,
/// digits, and the few signs that mean nothing to systemd; any other stands in quotes.
pub proof fn only_plain_words_go_without_quotes(arg: Seq<char>, c: char)
    ensures
        is_plain(c) <==> ('0' <= c <= '9') || ('a' <= c <= 'z') || ('A' <= c <= 'Z')
            || "-_./:=,@+"@.contains(c),
        is_word(arg) ==> quoted(arg) == arg,
        !is_word(arg) ==> quoted(arg).len() >= 2 && quoted(arg)[0] == '"' && quoted(arg).last()
            == '"',
        arg.len() == 0 ==> !is_word(arg),
        arg.contains(' ') || arg.contains('"') || arg.contains('\\') ==> !is_word(arg),
{
    reveal_strlit("-_./:=,@+");
    let signs = "-_./:=,@+"@;
    assert(signs.len() == 9);
    assert(signs[0] == '-' && signs[1] == '_' && signs[2] == '.' && signs[3] == '/' && signs[4]
        == ':' && signs[5] == '=' && signs[6] == ',' && signs[7] == '@' && signs[8] == '+');
    if arg.contains(' ') {
        let i = choose|i: int| 0 <= i < arg.len() && arg[i] == ' ';
        assert(!is_plain(arg[i]));
    }
    if arg.contains('"') {
        let i = choose|i: int| 0 <= i < arg.len() && arg[i] == '"';
        assert(!is_plain(arg[i]));
    }
    if arg.contains('\\') {
        let i = choose|i: int| 0 <= i < arg.len() && arg[i] == '\\';
        assert(!is_plain(arg[i]));
    }
}

}
