//! launchd, with an agent of the user's own.
//!
//! A LaunchAgent, not a LaunchDaemon: ig runs as you, reads your key out of your
//! home directory, and should reach what your login session can.

use crate::autostart::{
    call, call_rows, full_argv, says, Call, CallView, Plan, UnitPath, UnitPathView,
};
use crate::protocol::{ErrorKind, FailureView, Report};
use crate::service::opt_str;
use crate::text::{
    chars_of, concat, every_part_is_there, holds, join_path, texts, under, what_is_held_stays_held,
};
use vstd::prelude::*;

verus! {

/// The unit, up to the arguments.
pub const UNIT_HEAD: &'static str = "\
<?xml version=\"1.0\" encoding=\"UTF-8\"?>\n\
<!-- Generated by `ig autostart install`. Edit freely; `install`\n\
\x20    again to regenerate from the current arguments. -->\n\
<plist version=\"1.0\">\n\
<dict>\n\
\x20 <key>Label</key>\n\
\x20 <string>com.github.lincyaw.ig</string>\n\
\x20 <key>ProgramArguments</key>\n\
\x20 <array>\n";

/// The unit, after the arguments.
pub const UNIT_TAIL: &'static str = "\
\x20 </array>\n\
\x20 <key>RunAtLoad</key>\n\
\x20 <true/>\n\
\x20 <key>KeepAlive</key>\n\
\x20 <true/>\n\
\x20 <!-- launchd does not rotate these. Point them somewhere\n\
\x20      newsyslog manages if the size matters. -->\n\
\x20 <key>StandardOutPath</key>\n\
\x20 <string>/tmp/ig.log</string>\n\
\x20 <key>StandardErrorPath</key>\n\
\x20 <string>/tmp/ig.log</string>\n\
</dict>\n\
</plist>\n";

// ---------------------------------------------------------------------------
// Escaping
// ---------------------------------------------------------------------------

/// How `c` is written in XML.
pub open spec fn entity(c: char) -> Seq<char> {
    if c == '&' {
        "&amp;"@
    } else if c == '<' {
        "&lt;"@
    } else if c == '>' {
        "&gt;"@
    } else if c == '"' {
        "&quot;"@
    } else if c == '\'' {
        "&apos;"@
    } else {
        seq![c]
    }
}

/// How a text is written in XML.
pub open spec fn escaped(s: Seq<char>) -> Seq<char>
    decreases s.len(),
{
    if s.len() == 0 {
        Seq::empty()
    } else {
        entity(s[0]) + escaped(s.skip(1))
    }
}

/// The element for an argument, on a line of its own.
pub open spec fn element(arg: Seq<char>) -> Seq<char> {
    "    <string>"@ + escaped(arg) + "</string>\n"@
}

/// The unit that starts `argv`.
pub open spec fn unit_text(argv: Seq<Seq<char>>) -> Seq<char> {
    UNIT_HEAD@ + concat(argv.map_values(|a: Seq<char>| element(a))) + UNIT_TAIL@
}

/// Writes a text in XML.
pub fn escape(s: &str) -> (r: String)
    ensures
        r@ == escaped(s@),
{
    let v = chars_of(s);
    let mut out = String::new();
    let mut i: usize = 0;
    proof {
        assert(v@.skip(0) =~= v@);
        assert(out@ + escaped(v@.skip(0)) =~= escaped(v@));
    }
    while i < v.len()
        invariant
            i <= v@.len(),
            out@ + escaped(v@.skip(i as int)) == escaped(v@),
        decreases v@.len() - i,
    {
        let c: char = v[i];
        let ghost before = out@;
        if c == '&' {
            out.append("&amp;");
        } else if c == '<' {
            out.append("&lt;");
        } else if c == '>' {
            out.append("&gt;");
        } else if c == '"' {
            out.append("&quot;");
        } else if c == '\'' {
            out.append("&apos;");
        } else {
            out.push(c);
        }
        proof {
            assert(v@.skip(i as int).skip(1) =~= v@.skip(i + 1));
            assert(out@ =~= before + entity(c));
            assert(out@ + escaped(v@.skip(i + 1)) =~= before + escaped(v@.skip(i as int)));
        }
        i = i + 1;
    }
    proof {
        assert(escaped(v@.skip(v@.len() as int)) =~= Seq::empty());
        assert(out@ =~= escaped(v@));
    }
    out
}

/// The unit for a plan.
pub fn render(plan: &Plan) -> (r: String)
    ensures
        r@ == unit_text(full_argv(*plan)),
{
    let argv = plan.argv();
    let ghost rows = texts(argv@).map_values(|a: Seq<char>| element(a));
    let mut out = UNIT_HEAD.to_owned();
    let ghost head = out@;
    let mut i: usize = 0;
    proof {
        assert(rows.take(0) =~= Seq::empty());
    }
    while i < argv.len()
        invariant
            i <= argv@.len(),
            rows == texts(argv@).map_values(|a: Seq<char>| element(a)),
            out@ =~= head + concat(rows.take(i as int)),
        decreases argv@.len() - i,
    {
        proof {
            assert(rows.take(i + 1).drop_last() =~= rows.take(i as int));
            assert(rows.take(i + 1).last() == element(argv@[i as int]@));
        }
        out.append("    <string>");
        out.append(escape(argv[i].as_str()).as_str());
        out.append("</string>\n");
        i = i + 1;
    }
    proof {
        assert(rows.take(rows.len() as int) =~= rows);
    }
    out.append(UNIT_TAIL);
    out
}

// ---------------------------------------------------------------------------
// Commands
// ---------------------------------------------------------------------------

/// `launchctl` with these arguments.
pub open spec fn launchctl(args: Seq<Seq<char>>, must: bool) -> CallView {
    CallView { program: "launchctl"@, args, must }
}

/// What loads the unit at `path`. It is unloaded first, so that installing over an
/// agent is a replace rather than an "already loaded" error.
pub open spec fn loading(path: Seq<char>) -> Seq<CallView> {
    seq![
        launchctl(seq!["unload"@, path], false),
        launchctl(seq!["load"@, "-w"@, path], true),
    ]
}

/// What unloads the unit at `path`.
pub open spec fn unloading(path: Seq<char>) -> Seq<CallView> {
    seq![launchctl(seq!["unload"@, "-w"@, path], true)]
}

/// What restarts the unit at `path`.
pub open spec fn restarting(path: Seq<char>) -> Seq<CallView> {
    seq![launchctl(seq!["unload"@, path], false), launchctl(seq!["load"@, path], true)]
}

/// What tells, by succeeding, that the unit is running.
pub open spec fn asking() -> CallView {
    launchctl(seq!["list"@, "com.github.lincyaw.ig"@], true)
}

/// What loads the unit at `path`.
pub fn load(path: &str) -> (r: Vec<Call>)
    ensures
        call_rows(r@) == loading(path@),
{
    let first: Vec<&str> = vec!["unload", path];
    let second: Vec<&str> = vec!["load", "-w", path];
    let r = vec![call("launchctl", &first, false), call("launchctl", &second, true)];
    proof {
        assert(says(first@) =~= loading(path@)[0].args);
        assert(says(second@) =~= loading(path@)[1].args);
        assert(call_rows(r@) =~= loading(path@));
    }
    r
}

/// What unloads the unit at `path`.
pub fn unload(path: &str) -> (r: Vec<Call>)
    ensures
        call_rows(r@) == unloading(path@),
{
    let args: Vec<&str> = vec!["unload", "-w", path];
    let r = vec![call("launchctl", &args, true)];
    proof {
        assert(says(args@) =~= unloading(path@)[0].args);
        assert(call_rows(r@) =~= unloading(path@));
    }
    r
}

/// What restarts the unit at `path`.
pub fn restart(path: &str) -> (r: Vec<Call>)
    ensures
        call_rows(r@) == restarting(path@),
{
    let first: Vec<&str> = vec!["unload", path];
    let second: Vec<&str> = vec!["load", path];
    let r = vec![call("launchctl", &first, false), call("launchctl", &second, true)];
    proof {
        assert(says(first@) =~= restarting(path@)[0].args);
        assert(says(second@) =~= restarting(path@)[1].args);
        assert(call_rows(r@) =~= restarting(path@));
    }
    r
}

/// What tells, by succeeding, that the unit is running.
pub fn is_running() -> (r: Call)
    ensures
        r@ == asking(),
{
    let args: Vec<&str> = vec!["list", "com.github.lincyaw.ig"];
    proof {
        assert(says(args@) =~= asking().args);
    }
    call("launchctl", &args, true)
}

/// Where the unit goes: in `HOME`.
pub open spec fn unit_place(home: Option<Seq<char>>) -> Result<UnitPathView, FailureView> {
    match home {
        Some(h) => Ok(
            UnitPathView {
                dir: under(h, "Library/LaunchAgents"@),
                file: "com.github.lincyaw.ig.plist"@,
            },
        ),
        None => Err(FailureView { kind: ErrorKind::Internal, message: "HOME is not set"@ }),
    }
}

/// Where the unit goes.
pub fn unit_path(home: Option<&str>) -> (r: Result<UnitPath, Report>)
    ensures
        match r {
            Ok(path) => unit_place(opt_str(home)) == Ok::<UnitPathView, FailureView>(path@),
            Err(e) => unit_place(opt_str(home)) == Err::<UnitPathView, FailureView>(e@),
        },
{
    match home {
        Some(h) => {
            let dir = join_path(h, "Library/LaunchAgents");
            Ok(UnitPath::new(dir, "com.github.lincyaw.ig.plist"))
        },
        None => Err(Report::internal("HOME is not set".to_owned())),
    }
}

// ---------------------------------------------------------------------------
// What can be relied on
// ---------------------------------------------------------------------------

/// What the entities in a text stand for.
pub open spec fn read_entities(s: Seq<char>) -> Seq<char>
    decreases s.len(),
{
    if s.len() == 0 {
        Seq::empty()
    } else if "&amp;"@.is_prefix_of(s) && "&amp;"@.len() > 0 {
        seq!['&'] + read_entities(s.skip("&amp;"@.len() as int))
    } else if "&lt;"@.is_prefix_of(s) && "&lt;"@.len() > 0 {
        seq!['<'] + read_entities(s.skip("&lt;"@.len() as int))
    } else if "&gt;"@.is_prefix_of(s) && "&gt;"@.len() > 0 {
        seq!['>'] + read_entities(s.skip("&gt;"@.len() as int))
    } else if "&quot;"@.is_prefix_of(s) && "&quot;"@.len() > 0 {
        seq!['"'] + read_entities(s.skip("&quot;"@.len() as int))
    } else if "&apos;"@.is_prefix_of(s) && "&apos;"@.len() > 0 {
        seq!['\''] + read_entities(s.skip("&apos;"@.len() as int))
    } else {
        seq![s[0]] + read_entities(s.skip(1))
    }
}

/// What does not begin alike is no prefix.
proof fn lemma_no_prefix(p: Seq<char>, s: Seq<char>, i: int)
    requires
        0 <= i < p.len(),
        i < s.len() ==> p[i] != s[i],
    ensures
        !p.is_prefix_of(s),
{
    if p.is_prefix_of(s) {
        assert(s.subrange(0, p.len() as int)[i] == s[i]);
    }
}

/// Every argument survives the unit: what is written holds no bracket that would
/// end its element, and where its entities are read it is the argument again.
pub proof fn every_argument_survives_the_unit(arg: Seq<char>)
    ensures
        !escaped(arg).contains('<'),
        !escaped(arg).contains('>'),
        read_entities(escaped(arg)) == arg,
    decreases arg.len(),
{
    reveal_strlit("&amp;");
    reveal_strlit("&lt;");
    reveal_strlit("&gt;");
    reveal_strlit("&quot;");
    reveal_strlit("&apos;");
    if arg.len() > 0 {
        let c = arg[0];
        let rest = arg.skip(1);
        every_argument_survives_the_unit(rest);
        let s = escaped(arg);
        let tail = escaped(rest);
        assert(s == entity(c) + tail);
        assert(s.skip(entity(c).len() as int) =~= tail);
        assert(seq![c] + rest =~= arg);
        assert forall|i: int| 0 <= i < s.len() implies s[i] != '<' && s[i] != '>' by {
            if i >= entity(c).len() {
                assert(s[i] == tail[i - entity(c).len()]);
                assert(tail.contains(tail[i - entity(c).len()]));
            }
        }
        assert(s[0] == entity(c)[0]);
        if c == '&' {
            assert("&amp;"@.is_prefix_of(s));
        } else if c == '<' {
            lemma_no_prefix("&amp;"@, s, 1);
            assert("&lt;"@.is_prefix_of(s));
        } else if c == '>' {
            lemma_no_prefix("&amp;"@, s, 1);
            lemma_no_prefix("&lt;"@, s, 1);
            assert("&gt;"@.is_prefix_of(s));
        } else if c == '"' {
            lemma_no_prefix("&amp;"@, s, 1);
            lemma_no_prefix("&lt;"@, s, 1);
            lemma_no_prefix("&gt;"@, s, 1);
            assert("&quot;"@.is_prefix_of(s));
        } else if c == '\'' {
            lemma_no_prefix("&amp;"@, s, 2);
            lemma_no_prefix("&lt;"@, s, 1);
            lemma_no_prefix("&gt;"@, s, 1);
            lemma_no_prefix("&quot;"@, s, 1);
            assert("&apos;"@.is_prefix_of(s));
        } else {
            lemma_no_prefix("&amp;"@, s, 0);
            lemma_no_prefix("&lt;"@, s, 0);
            lemma_no_prefix("&gt;"@, s, 0);
            lemma_no_prefix("&quot;"@, s, 0);
            lemma_no_prefix("&apos;"@, s, 0);
        }
    }
}

/// The unit holds every argument, in order, each in an element of its own.
pub proof fn the_unit_holds_every_argument(argv: Seq<Seq<char>>, i: int)
    requires
        0 <= i < argv.len(),
    ensures
        holds(
            unit_text(argv),
            "    <string>"@ + escaped(argv[i]) + "</string>\n"@,
        ),
        unit_text(argv) == UNIT_HEAD@ + concat(
            Seq::new(
                argv.len(),
                |j: int| "    <string>"@ + escaped(argv[j]) + "</string>\n"@,
            ),
        ) + UNIT_TAIL@,
{
    let rows = argv.map_values(|a: Seq<char>| element(a));
    every_part_is_there(rows, i);
    what_is_held_stays_held(UNIT_HEAD@, concat(rows), UNIT_TAIL@, rows[i]);
    assert(rows =~= Seq::new(
        argv.len(),
        |j: int| "    <string>"@ + escaped(argv[j]) + "</string>\n"@,
    ));
}

/// Whatever is done to an agent is done to the one at the path that was given: it is
/// loaded and restarted by unloading it first, which may fail, and then loading it,
/// which may not.
pub proof fn an_agent_is_unloaded_before_it_is_loaded(path: Seq<char>)
    ensures
        loading(path) == seq![
            launchctl(seq!["unload"@, path], false),
            launchctl(seq!["load"@, "-w"@, path], true),
        ],
        restarting(path) == seq![
            launchctl(seq!["unload"@, path], false),
            launchctl(seq!["load"@, path], true),
        ],
        unloading(path) == seq![launchctl(seq!["unload"@, "-w"@, path], true)],
{
}

/// The agent goes to the home directory, and without one there is no place for it.
pub proof fn an_agent_goes_to_the_home_directory(home: Seq<char>)
    ensures
        unit_place(Some(home)) == Ok::<UnitPathView, FailureView>(
            UnitPathView {
                dir: under(home, "Library/LaunchAgents"@),
                file: "com.github.lincyaw.ig.plist"@,
            },
        ),
        unit_place(None) is Err,
{
}

}
