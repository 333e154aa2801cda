//! `ig autostart`: handing the daemon to the platform's supervisor.
//!
//! `ig daemon` stays in the foreground on purpose. systemd and launchd both want
//! to own the process they started, and a tool that forks away leaves them
//! guessing at a pidfile, so self-daemonizing would buy backgrounding at the cost
//! of the thing that actually restarts you after a crash or a reboot.
//!
//! What is left is the boilerplate: knowing where the unit file goes, what it has
//! to say, and which commands load it.

pub mod launchd;
pub mod systemd;

use crate::client::{
    done_json, done_line, done_text, json_lines, line, write_json_lines, Format, Output, OutputView,
};
use crate::json::{
    a_field_is_found_by_its_name, field, fields_of, json_bool, json_object, json_text, no_fields,
    object, pretty_text, Json,
};
use crate::protocol::{ErrorKind, FailureView, Report};
use crate::service::opt_str;
use crate::text::{copy_texts, holds, join, join_path, joined, texts, trim, trimmed, under};
use vstd::prelude::*;

verus! {

/// What the supervisor is asked to run, resolved once so the unit records an
/// absolute path. A unit pointing at whatever `ig` is on `$PATH` at boot is a
/// unit that silently starts a different build than the one you installed.
#[derive(Debug)]
pub struct Plan {
    pub exe: String,
    pub socket: String,
    pub args: Vec<String>,
}

/// The full argument vector of a plan.
pub open spec fn full_argv(plan: Plan) -> Seq<Seq<char>> {
    seq![plan.exe@, "--socket"@, plan.socket@, "daemon"@] + texts(plan.args@)
}

impl Plan {
    pub fn new(exe: String, socket: String, args: Vec<String>) -> (r: Self)
        ensures
            r == (Plan { exe, socket, args }),
    {
        Plan { exe, socket, args }
    }

    /// The full argument vector, `--socket` given even when it is the default: a
    /// unit that spells out what it runs stays correct if the default ever moves,
    /// and reads honestly when you open it a year later.
    pub fn argv(&self) -> (r: Vec<String>)
        ensures
            texts(r@) == full_argv(*self),
    {
        let mut argv: Vec<String> = Vec::new();
        argv.push(self.exe.clone());
        argv.push("--socket".to_owned());
        argv.push(self.socket.clone());
        argv.push("daemon".to_owned());
        let mut args = copy_texts(&self.args);
        argv.append(&mut args);
        proof {
            assert(texts(argv@) =~= full_argv(*self));
        }
        argv
    }
}

/// Where a unit goes: a directory, and the name of a file in it.
#[derive(Debug)]
pub struct UnitPath {
    dir: String,
    file: String,
}

/// What a [`UnitPath`] holds.
#[verifier::ext_equal]
pub struct UnitPathView {
    pub dir: Seq<char>,
    pub file: Seq<char>,
}

impl UnitPathView {
    /// The whole path.
    pub open spec fn whole(self) -> Seq<char> {
        under(self.dir, self.file)
    }
}

impl View for UnitPath {
    type V = UnitPathView;

    closed spec fn view(&self) -> UnitPathView {
        UnitPathView { dir: self.dir@, file: self.file@ }
    }
}

impl UnitPath {
    pub(crate) fn new(dir: String, file: &str) -> (r: Self)
        ensures
            r@ == (UnitPathView { dir: dir@, file: file@ }),
    {
        UnitPath { dir, file: file.to_owned() }
    }

    /// The directory that the unit is in.
    pub fn dir(&self) -> (r: &str)
        ensures
            r@ == self@.dir,
    {
        self.dir.as_str()
    }

    /// The whole path.
    pub fn path(&self) -> (r: String)
        ensures
            r@ == self@.whole(),
    {
        join_path(self.dir.as_str(), self.file.as_str())
    }
}

// ---------------------------------------------------------------------------
// Supervisors
// ---------------------------------------------------------------------------

/// A command of the supervisor.
#[derive(Debug)]
pub struct Call {
    pub program: String,
    pub args: Vec<String>,
    /// Whether it has to succeed.
    pub must: bool,
}

/// What a [`Call`] holds.
#[verifier::ext_equal]
pub struct CallView {
    pub program: Seq<char>,
    pub args: Seq<Seq<char>>,
    pub must: bool,
}

impl View for Call {
    type V = CallView;

    open spec fn view(&self) -> CallView {
        CallView { program: self.program@, args: texts(self.args@), must: self.must }
    }
}

/// What each call holds.
pub open spec fn call_rows(v: Seq<Call>) -> Seq<CallView> {
    v.map_values(|c: Call| c@)
}

/// What running a command came to.
#[derive(Debug)]
pub enum Ran {
    /// It succeeded.
    Done,
    /// It ran and failed, and this is what it wrote to stderr.
    Failed(String),
    /// It could not be run, and why.
    NotStarted(String),
}

/// How a command that was run failed, if it did and had to succeed.
pub open spec fn call_fault(call: CallView, ran: Ran) -> Option<FailureView> {
    if !call.must {
        None
    } else {
        match ran {
            Ran::Done => None,
            Ran::NotStarted(why) => Some(
                FailureView {
                    kind: ErrorKind::Unavailable,
                    message: "cannot run "@ + call.program + ": "@ + why@ + "; is it installed?"@,
                },
            ),
            Ran::Failed(stderr) => Some(
                FailureView {
                    kind: ErrorKind::Internal,
                    message: call.program + " "@ + joined(call.args, " "@) + " failed: "@ + (
                    if trimmed(stderr@).len() == 0 {
                        "no output"@
                    } else {
                        trimmed(stderr@)
                    }),
                },
            ),
        }
    }
}

/// Judges a command that was run, turning a failure into what the command wrote
/// rather than a bare status: `launchctl` in particular says useful things there
/// and nowhere else.
pub fn run(call: &Call, ran: Ran) -> (r: Result<(), Report>)
    ensures
        match r {
            Ok(_) => call_fault(call@, ran) is None,
            Err(e) => call_fault(call@, ran) == Some(e@),
        },
{
    if !call.must {
        return Ok(());
    }
    match ran {
        Ran::Done => Ok(()),
        Ran::NotStarted(why) => {
            let mut m = "cannot run ".to_owned();
            m.append(call.program.as_str());
            m.append(": ");
            m.append(why.as_str());
            m.append("; is it installed?");
            Err(Report::failure(ErrorKind::Unavailable, m))
        },
        Ran::Failed(stderr) => {
            let said = trim(stderr.as_str());
            let mut m = call.program.clone();
            m.append(" ");
            m.append(join(&call.args, " ").as_str());
            m.append(" failed: ");
            if said.as_str().is_empty() {
                m.append("no output");
            } else {
                m.append(said.as_str());
            }
            Err(Report::internal(m))
        },
    }
}

/// Who starts the daemon, and starts it again.
#[derive(Debug, Clone, Copy, PartialEq, Eq, Structural)]
pub enum Supervisor {
    Systemd,
    Launchd,
}

impl Supervisor {
    /// What it is called.
    pub open spec fn title(self) -> Seq<char> {
        match self {
            Supervisor::Systemd => "systemd (user)"@,
            Supervisor::Launchd => "launchd (LaunchAgent)"@,
        }
    }

    /// The unit for a plan.
    pub open spec fn unit(self, plan: Plan) -> Seq<char> {
        match self {
            Supervisor::Systemd => systemd::unit_text(full_argv(plan)),
            Supervisor::Launchd => launchd::unit_text(full_argv(plan)),
        }
    }

    /// What loads the unit at `path`.
    pub open spec fn loading(self, path: Seq<char>) -> Seq<CallView> {
        match self {
            Supervisor::Systemd => systemd::loading(),
            Supervisor::Launchd => launchd::loading(path),
        }
    }

    /// What unloads the unit at `path`.
    pub open spec fn unloading(self, path: Seq<char>) -> Seq<CallView> {
        match self {
            Supervisor::Systemd => systemd::unloading(),
            Supervisor::Launchd => launchd::unloading(path),
        }
    }

    /// What restarts the unit at `path`.
    pub open spec fn restarting(self, path: Seq<char>) -> Seq<CallView> {
        match self {
            Supervisor::Systemd => systemd::restarting(),
            Supervisor::Launchd => launchd::restarting(path),
        }
    }

    /// What it is called.
    pub fn name(self) -> (r: &'static str)
        ensures
            r@ == self.title(),
    {
        match self {
            Supervisor::Systemd => "systemd (user)",
            Supervisor::Launchd => "launchd (LaunchAgent)",
        }
    }

    /// The unit for a plan.
    pub fn render(self, plan: &Plan) -> (r: String)
        ensures
            r@ == self.unit(*plan),
    {
        match self {
            Supervisor::Systemd => systemd::render(plan),
            Supervisor::Launchd => launchd::render(plan),
        }
    }

    /// What loads the unit at `path`.
    pub fn load(self, path: &str) -> (r: Vec<Call>)
        ensures
            call_rows(r@) == self.loading(path@),
    {
        match self {
            Supervisor::Systemd => systemd::load(),
            Supervisor::Launchd => launchd::load(path),
        }
    }

    /// What unloads the unit at `path`.
    pub fn unload(self, path: &str) -> (r: Vec<Call>)
        ensures
            call_rows(r@) == self.unloading(path@),
    {
        match self {
            Supervisor::Systemd => systemd::unload(),
            Supervisor::Launchd => launchd::unload(path),
        }
    }

    /// What restarts the unit at `path`.
    pub fn restart(self, path: &str) -> (r: Vec<Call>)
        ensures
            call_rows(r@) == self.restarting(path@),
    {
        match self {
            Supervisor::Systemd => systemd::restart(),
            Supervisor::Launchd => launchd::restart(path),
        }
    }

    /// What tells, by succeeding, that the unit is running.
    pub fn is_running(self) -> (r: Call)
        ensures
            r@ == (match self {
                Supervisor::Systemd => systemd::asking(),
                Supervisor::Launchd => launchd::asking(),
            }),
    {
        match self {
            Supervisor::Systemd => systemd::is_running(),
            Supervisor::Launchd => launchd::is_running(),
        }
    }

    /// Where the unit goes, given `XDG_CONFIG_HOME` and `HOME`.
    pub fn unit_path(self, xdg: Option<&str>, home: Option<&str>) -> (r: Result<UnitPath, Report>)
        ensures
            ({
                let place = match self {
                    Supervisor::Systemd => systemd::unit_place(opt_str(xdg), opt_str(home)),
                    Supervisor::Launchd => launchd::unit_place(opt_str(home)),
                };
                match r {
                    Ok(path) => place == Ok::<UnitPathView, FailureView>(path@),
                    Err(e) => place == Err::<UnitPathView, FailureView>(e@),
                }
            }),
    {
        match self {
            Supervisor::Systemd => systemd::unit_path(xdg, home),
            Supervisor::Launchd => launchd::unit_path(home),
        }
    }
}

/// What each argument says.
pub open spec fn says(args: Seq<&str>) -> Seq<Seq<char>> {
    args.map_values(|a: &str| a@)
}

/// A command with these arguments.
pub(crate) fn call(program: &str, args: &Vec<&str>, must: bool) -> (r: Call)
    ensures
        r@ == (CallView {
            program: program@,
            args: says(args@),
            must,
        }),
{
    let mut list: Vec<String> = Vec::new();
    let mut i: usize = 0;
    while i < args.len()
        invariant
            i <= args@.len(),
            texts(list@) =~= says(args@).take(i as int),
        decreases args@.len() - i,
    {
        let ghost before = list@;
        list.push(args[i].to_owned());
        proof {
            assert(texts(list@) =~= texts(before).push(args@[i as int]@));
        }
        i = i + 1;
    }
    proof {
        assert(texts(list@) =~= says(args@));
    }
    Call { program: program.to_owned(), args: list, must }
}

// ---------------------------------------------------------------------------
// Commands
// ---------------------------------------------------------------------------

/// Something to be done.
#[derive(Debug)]
#[allow(inconsistent_fields)]
pub enum Act {
    /// Make the directory `path`, and those above it.
    MakeDir { path: String },
    /// Write `text` to `path`.
    Write { path: String, text: String },
    /// Run a command.
    Run(Call),
    /// Remove the file at `path`.
    Remove { path: String },
}

/// What an [`Act`] holds.
#[verifier::ext_equal]
#[allow(inconsistent_fields)]
pub enum ActView {
    MakeDir { path: Seq<char> },
    Write { path: Seq<char>, text: Seq<char> },
    Run(CallView),
    Remove { path: Seq<char> },
}

impl View for Act {
    type V = ActView;

    open spec fn view(&self) -> ActView {
        match *self {
            Act::MakeDir { path } => ActView::MakeDir { path: path@ },
            Act::Write { path, text } => ActView::Write { path: path@, text: text@ },
            Act::Run(c) => ActView::Run(c@),
            Act::Remove { path } => ActView::Remove { path: path@ },
        }
    }
}

/// What each act holds.
pub open spec fn act_rows(v: Seq<Act>) -> Seq<ActView> {
    v.map_values(|a: Act| a@)
}

/// The commands, as acts.
pub open spec fn running(calls: Seq<CallView>) -> Seq<ActView> {
    calls.map_values(|c: CallView| ActView::Run(c))
}

/// What is to be done for a command, and what it leaves behind once all of it was
/// done, in order.
#[derive(Debug)]
pub struct Work {
    pub acts: Vec<Act>,
    pub output: Output,
}

/// What a [`Work`] holds.
#[verifier::ext_equal]
pub struct WorkView {
    pub acts: Seq<ActView>,
    pub output: OutputView,
}

impl View for Work {
    type V = WorkView;

    open spec fn view(&self) -> WorkView {
        WorkView { acts: act_rows(self.acts@), output: self.output@ }
    }
}

/// The object that reports an action, with the unit if there is one to show.
pub open spec fn unit_json(dry_run: bool, detail: Seq<char>, unit: Option<Seq<char>>) -> Json {
    match unit {
        None => done_json(dry_run, detail),
        Some(unit) => Json::Object(
            object(
                seq![
                    ("ok"@, Json::Bool(true)),
                    ("dry_run"@, Json::Bool(dry_run)),
                    ("detail"@, Json::Text(detail)),
                    ("unit"@, Json::Text(unit)),
                ],
            ),
        ),
    }
}

/// How an action is reported.
pub open spec fn reported(
    format: Format,
    dry_run: bool,
    detail: Seq<char>,
    unit: Option<Seq<char>>,
) -> OutputView {
    match format {
        Format::Text => OutputView {
            stdout: Seq::empty(),
            stderr: match unit {
                Some(unit) => line(done_text(dry_run, detail)) + "\n"@ + unit,
                None => line(done_text(dry_run, detail)),
            },
            code: 0,
        },
        Format::Json => OutputView {
            stdout: json_lines(unit_json(dry_run, detail, unit)),
            stderr: Seq::empty(),
            code: 0,
        },
    }
}

/// Reports an action: nothing on stdout in text mode, so `ig autostart install`
/// stays safe to run inside a pipeline. `unit` is the rendered file, shown only for
/// a dry run, where seeing what would be written is the entire point.
pub fn done(format: Format, dry_run: bool, detail: &str, unit: Option<&str>) -> (r: Output)
    ensures
        r@ == reported(format, dry_run, detail@, opt_str(unit)),
{
    match format {
        Format::Text => {
            let mut stderr = done_line(dry_run, detail);
            match unit {
                Some(unit) => {
                    stderr.append("\n");
                    stderr.append(unit);
                },
                None => {},
            }
            Output { stdout: String::new(), stderr, code: 0 }
        },
        Format::Json => {
            let mut fields = no_fields();
            field(&mut fields, "ok", json_bool(true));
            field(&mut fields, "dry_run", json_bool(dry_run));
            field(&mut fields, "detail", json_text(detail));
            match unit {
                Some(unit) => {
                    field(&mut fields, "unit", json_text(unit));
                    proof {
                        assert(fields_of(fields@) =~= seq![
                            ("ok"@, Json::Bool(true)),
                            ("dry_run"@, Json::Bool(dry_run)),
                            ("detail"@, Json::Text(detail@)),
                            ("unit"@, Json::Text(unit@)),
                        ]);
                    }
                },
                None => {
                    proof {
                        assert(fields_of(fields@) =~= seq![
                            ("ok"@, Json::Bool(true)),
                            ("dry_run"@, Json::Bool(dry_run)),
                            ("detail"@, Json::Text(detail@)),
                        ]);
                    }
                },
            }
            Output {
                stdout: write_json_lines(&json_object(fields)),
                stderr: String::new(),
                code: 0,
            }
        },
    }
}

/// Nothing to be done, and this report.
pub open spec fn only(output: OutputView) -> WorkView {
    WorkView { acts: Seq::empty(), output }
}

fn nothing_but(output: Output) -> (r: Work)
    ensures
        r@ == only(output@),
{
    let acts: Vec<Act> = Vec::new();
    proof {
        assert(act_rows(acts@) =~= Seq::empty());
    }
    Work { acts, output }
}

fn push_calls(acts: &mut Vec<Act>, calls: Vec<Call>)
    ensures
        act_rows(final(acts)@) == act_rows(old(acts)@) + running(call_rows(calls@)),
{
    let ghost all = call_rows(calls@);
    let mut i: usize = 0;
    while i < calls.len()
        invariant
            i <= calls@.len(),
            all == call_rows(calls@),
            act_rows(acts@) =~= act_rows(old(acts)@) + running(all.take(i as int)),
        decreases calls@.len() - i,
    {
        let ghost before = acts@;
        let copy = Call {
            program: calls[i].program.clone(),
            args: copy_texts(&calls[i].args),
            must: calls[i].must,
        };
        acts.push(Act::Run(copy));
        proof {
            assert(copy@ =~= calls@[i as int]@);
            assert(act_rows(acts@) =~= act_rows(before).push(ActView::Run(all[i as int])));
        }
        i = i + 1;
    }
    proof {
        assert(all.take(calls@.len() as int) =~= all);
    }
}

/// What installing a plan takes: the directory that the unit goes to is made, the
/// unit is written there, and then loaded.
pub open spec fn installing(
    supervisor: Supervisor,
    plan: Plan,
    place: UnitPathView,
    dry_run: bool,
    format: Format,
) -> WorkView {
    let path = place.whole();
    let unit = supervisor.unit(plan);
    if dry_run {
        only(reported(format, true, "write "@ + path + " and load it"@, Some(unit)))
    } else {
        WorkView {
            acts: seq![
                ActView::MakeDir { path: place.dir },
                ActView::Write { path, text: unit },
            ] + running(supervisor.loading(path)),
            output: reported(format, false, "installed "@ + path + " and started it"@, None),
        }
    }
}

/// Says what installing a plan takes.
pub fn install(
    supervisor: Supervisor,
    plan: &Plan,
    place: &UnitPath,
    dry_run: bool,
    format: Format,
) -> (r: Work)
    ensures
        r@ == installing(supervisor, *plan, place@, dry_run, format),
{
    let whole = place.path();
    let path = whole.as_str();
    let unit = supervisor.render(plan);
    if dry_run {
        let mut detail = "write ".to_owned();
        detail.append(path);
        detail.append(" and load it");
        return nothing_but(done(format, true, detail.as_str(), Some(unit.as_str())));
    }
    let mut acts: Vec<Act> = Vec::new();
    acts.push(Act::MakeDir { path: place.dir().to_owned() });
    acts.push(Act::Write { path: path.to_owned(), text: unit });
    proof {
        assert(act_rows(acts@) =~= seq![
            ActView::MakeDir { path: place@.dir },
            ActView::Write { path: path@, text: supervisor.unit(*plan) },
        ]);
    }
    push_calls(&mut acts, supervisor.load(path));
    let mut detail = "installed ".to_owned();
    detail.append(path);
    detail.append(" and started it");
    Work { acts, output: done(format, false, detail.as_str(), None) }
}

/// The failure to find a unit.
pub open spec fn not_installed(path: Seq<char>, hint: Seq<char>) -> FailureView {
    FailureView { kind: ErrorKind::NotFound, message: "nothing installed at "@ + path + hint }
}

/// What uninstalling takes, where `installed` says whether there is a unit. It is
/// unloaded before it is removed: taking the file away first leaves the supervisor
/// holding a job it can no longer describe.
pub open spec fn uninstalling(
    supervisor: Supervisor,
    path: Seq<char>,
    installed: bool,
    dry_run: bool,
    format: Format,
) -> Result<WorkView, FailureView> {
    if !installed {
        Err(not_installed(path, ""@))
    } else if dry_run {
        Ok(only(reported(format, true, "stop it and remove "@ + path, None)))
    } else {
        Ok(
            WorkView {
                acts: running(supervisor.unloading(path)).push(ActView::Remove { path }),
                output: reported(format, false, "removed "@ + path, None),
            },
        )
    }
}

/// Says what uninstalling takes.
pub fn uninstall(
    supervisor: Supervisor,
    path: &str,
    installed: bool,
    dry_run: bool,
    format: Format,
) -> (r: Result<Work, Report>)
    ensures
        match r {
            Ok(work) => uninstalling(supervisor, path@, installed, dry_run, format) == Ok::<
                WorkView,
                FailureView,
            >(work@),
            Err(e) => uninstalling(supervisor, path@, installed, dry_run, format) == Err::<
                WorkView,
                FailureView,
            >(e@),
        },
{
    if !installed {
        let mut m = "nothing installed at ".to_owned();
        m.append(path);
        proof {
            reveal_strlit("");
            assert(m@ =~= not_installed(path@, ""@).message);
        }
        return Err(Report::failure(ErrorKind::NotFound, m));
    }
    if dry_run {
        let mut detail = "stop it and remove ".to_owned();
        detail.append(path);
        return Ok(nothing_but(done(format, true, detail.as_str(), None)));
    }
    let mut acts: Vec<Act> = Vec::new();
    push_calls(&mut acts, supervisor.unload(path));
    let ghost before = acts@;
    acts.push(Act::Remove { path: path.to_owned() });
    proof {
        assert(act_rows(before) =~= running(supervisor.unloading(path@)));
        assert(act_rows(acts@) =~= act_rows(before).push(ActView::Remove { path: path@ }));
    }
    let mut detail = "removed ".to_owned();
    detail.append(path);
    Ok(Work { acts, output: done(format, false, detail.as_str(), None) })
}

/// What restarting takes, where `installed` says whether there is a unit.
pub open spec fn restarting(
    supervisor: Supervisor,
    path: Seq<char>,
    installed: bool,
    dry_run: bool,
    format: Format,
) -> Result<WorkView, FailureView> {
    if !installed {
        Err(not_installed(path, "; run `ig autostart install`"@))
    } else if dry_run {
        Ok(only(reported(format, true, "restart the supervised daemon"@, None)))
    } else {
        Ok(
            WorkView {
                acts: running(supervisor.restarting(path)),
                output: reported(format, false, "restarted"@, None),
            },
        )
    }
}

/// Says what restarting takes.
pub fn restart(
    supervisor: Supervisor,
    path: &str,
    installed: bool,
    dry_run: bool,
    format: Format,
) -> (r: Result<Work, Report>)
    ensures
        match r {
            Ok(work) => restarting(supervisor, path@, installed, dry_run, format) == Ok::<
                WorkView,
                FailureView,
            >(work@),
            Err(e) => restarting(supervisor, path@, installed, dry_run, format) == Err::<
                WorkView,
                FailureView,
            >(e@),
        },
{
    if !installed {
        let mut m = "nothing installed at ".to_owned();
        m.append(path);
        m.append("; run `ig autostart install`");
        return Err(Report::failure(ErrorKind::NotFound, m));
    }
    if dry_run {
        return Ok(nothing_but(done(format, true, "restart the supervised daemon", None)));
    }
    let mut acts: Vec<Act> = Vec::new();
    push_calls(&mut acts, supervisor.restart(path));
    proof {
        assert(act_rows(acts@) =~= running(supervisor.restarting(path@)));
    }
    Ok(Work { acts, output: done(format, false, "restarted", None) })
}

/// How an act that failed is reported.
pub open spec fn act_fault(act: ActView, why: Seq<char>) -> Seq<char> {
    match act {
        ActView::MakeDir { path } => "failed to create "@ + path + ": "@ + why,
        ActView::Write { path, .. } => "failed to write "@ + path + ": "@ + why,
        ActView::Remove { path } => "failed to remove "@ + path + ": "@ + why,
        ActView::Run(_) => why,
    }
}

/// Reports a file or directory that could not be dealt with.
pub fn act_failed(act: &Act, why: &str) -> (r: Report)
    ensures
        r@ == (FailureView { kind: ErrorKind::Internal, message: act_fault(act@, why@) }),
{
    let mut m = String::new();
    match act {
        Act::MakeDir { path } => {
            m.append("failed to create ");
            m.append(path.as_str());
            m.append(": ");
        },
        Act::Write { path, .. } => {
            m.append("failed to write ");
            m.append(path.as_str());
            m.append(": ");
        },
        Act::Remove { path } => {
            m.append("failed to remove ");
            m.append(path.as_str());
            m.append(": ");
        },
        Act::Run(_) => {},
    }
    m.append(why);
    proof {
        assert(m@ =~= act_fault(act@, why@));
    }
    Report::internal(m)
}

/// What is said of the unit.
pub open spec fn state_text(installed: bool, running: bool) -> Seq<char> {
    if !installed {
        "not installed"@
    } else if running {
        "running"@
    } else {
        "installed, not running"@
    }
}

/// How the state of the unit is shown: a value, so it goes to stdout in both
/// formats. A unit that is not there is not running.
pub open spec fn state_shown(
    supervisor: Supervisor,
    path: Seq<char>,
    installed: bool,
    running: bool,
    format: Format,
) -> OutputView {
    OutputView {
        stdout: match format {
            Format::Text => "supervisor  "@ + supervisor.title() + "\nunit        "@ + path
                + "\nstate       "@ + state_text(installed, running) + "\n"@,
            Format::Json => json_lines(
                Json::Object(
                    object(
                        seq![
                            ("supervisor"@, Json::Text(supervisor.title())),
                            ("unit"@, Json::Text(path)),
                            ("installed"@, Json::Bool(installed)),
                            ("running"@, Json::Bool(installed && running)),
                        ],
                    ),
                ),
            ),
        },
        stderr: Seq::empty(),
        code: 0,
    }
}

/// Shows where the unit is and whether it is running.
pub fn status(
    supervisor: Supervisor,
    path: &str,
    installed: bool,
    running: bool,
    format: Format,
) -> (r: Output)
    ensures
        r@ == state_shown(supervisor, path@, installed, running, format),
{
    let stdout = match format {
        Format::Text => {
            let mut out = "supervisor  ".to_owned();
            out.append(supervisor.name());
            out.append("\nunit        ");
            out.append(path);
            out.append("\nstate       ");
            if !installed {
                out.append("not installed");
            } else if running {
                out.append("running");
            } else {
                out.append("installed, not running");
            }
            out.append("\n");
            out
        },
        Format::Json => {
            let mut fields = no_fields();
            field(&mut fields, "supervisor", json_text(supervisor.name()));
            field(&mut fields, "unit", json_text(path));
            field(&mut fields, "installed", json_bool(installed));
            field(&mut fields, "running", json_bool(installed && running));
            proof {
                assert(fields_of(fields@) =~= seq![
                    ("supervisor"@, Json::Text(supervisor.title())),
                    ("unit"@, Json::Text(path@)),
                    ("installed"@, Json::Bool(installed)),
                    ("running"@, Json::Bool(installed && running)),
                ]);
            }
            write_json_lines(&json_object(fields))
        },
    };
    Output { stdout, stderr: String::new(), code: 0 }
}

/// Installing over a running daemon replaces it: systemd is told to restart the unit
/// last, and launchd to unload it first, as where it is restarted.
pub proof fn installing_replaces_what_runs(plan: Plan, place: UnitPathView, format: Format)
    ensures
        installing(Supervisor::Systemd, plan, place, false, format).acts.last() == running(
            Supervisor::Systemd.restarting(place.whole()),
        ).last(),
        installing(Supervisor::Launchd, plan, place, false, format).acts[2] == running(
            Supervisor::Launchd.restarting(place.whole()),
        )[0],
{
}

/// A dry run does nothing.
pub proof fn a_dry_run_does_nothing(
    supervisor: Supervisor,
    plan: Plan,
    place: UnitPathView,
    path: Seq<char>,
    installed: bool,
    format: Format,
)
    ensures
        installing(supervisor, plan, place, true, format).acts.len() == 0,
        uninstalling(supervisor, path, installed, true, format) matches Ok(work)
            ==> work.acts.len() == 0,
        restarting(supervisor, path, installed, true, format) matches Ok(work)
            ==> work.acts.len() == 0,
{
}

/// What the supervisor is asked to run is this binary, with the socket spelled out, the
/// word `daemon`, and every argument that was given, in order.
pub proof fn the_unit_runs_what_was_planned(plan: Plan, i: int)
    ensures
        full_argv(plan).len() == plan.args@.len() + 4,
        full_argv(plan)[0] == plan.exe@,
        full_argv(plan)[1] == "--socket"@,
        full_argv(plan)[2] == plan.socket@,
        full_argv(plan)[3] == "daemon"@,
        0 <= i < plan.args@.len() ==> full_argv(plan)[4 + i] == plan.args@[i]@,
{
}

/// A command that has to succeed is held to it, and one that does not have to is not: a
/// failure is reported exactly where it had to succeed and did not.
pub proof fn a_command_is_held_to_what_it_has_to_do(call: CallView, ran: Ran)
    ensures
        call_fault(call, ran) is None <==> !call.must || ran is Done,
        call.must && ran is NotStarted ==> call_fault(call, ran)->0.kind == ErrorKind::Unavailable,
        call.must && ran is Failed ==> call_fault(call, ran)->0.kind == ErrorKind::Internal,
        call.must && ran is Failed && trimmed(ran->Failed_0@).len() > 0 ==> holds(
            call_fault(call, ran)->0.message,
            trimmed(ran->Failed_0@),
        ),
{
    if call.must && ran is Failed && trimmed(ran->Failed_0@).len() > 0 {
        let m = call_fault(call, ran)->0.message;
        let said = trimmed(ran->Failed_0@);
        let front = call.program + " "@ + joined(call.args, " "@) + " failed: "@;
        assert(m =~= front + said + Seq::<char>::empty());
    }
}

/// Installing makes the directory that the unit goes to, writes the whole unit there,
/// and loads it, in that order and nothing else.
pub proof fn installing_is_done_in_order(
    supervisor: Supervisor,
    plan: Plan,
    place: UnitPathView,
    format: Format,
    i: int,
)
    ensures
        ({
            let acts = installing(supervisor, plan, place, false, format).acts;
            let calls = supervisor.loading(under(place.dir, place.file));
            &&& acts.len() == calls.len() + 2
            &&& acts[0] == ActView::MakeDir { path: place.dir }
            &&& acts[1] == ActView::Write {
                path: under(place.dir, place.file),
                text: supervisor.unit(plan),
            }
            &&& 0 <= i < calls.len() ==> acts[2 + i] == ActView::Run(calls[i])
        }),
{
}

/// Uninstalling unloads the unit and then removes it, and restarting only restarts it;
/// both are refused exactly where there is no unit.
pub proof fn a_unit_is_unloaded_before_it_is_removed(
    supervisor: Supervisor,
    path: Seq<char>,
    installed: bool,
    dry_run: bool,
    format: Format,
    i: int,
)
    ensures
        uninstalling(supervisor, path, installed, dry_run, format) is Ok <==> installed,
        restarting(supervisor, path, installed, dry_run, format) is Ok <==> installed,
        installed && !dry_run ==> ({
            let acts = uninstalling(supervisor, path, installed, dry_run, format)->Ok_0.acts;
            let calls = supervisor.unloading(path);
            &&& acts.len() == calls.len() + 1
            &&& 0 <= i < calls.len() ==> acts[i] == ActView::Run(calls[i])
            &&& acts.last() == ActView::Remove { path }
        }),
        installed && !dry_run ==> ({
            let acts = restarting(supervisor, path, installed, dry_run, format)->Ok_0.acts;
            let calls = supervisor.restarting(path);
            &&& acts.len() == calls.len()
            &&& 0 <= i < calls.len() ==> acts[i] == ActView::Run(calls[i])
        }),
{
}

/// An action is reported on stderr in text, with the unit if there is one to show, and
/// as an object on stdout in JSON; never on both.
pub proof fn an_action_is_reported_in_one_place(
    dry_run: bool,
    detail: Seq<char>,
    unit: Seq<char>,
)
    ensures
        reported(Format::Text, dry_run, detail, Some(unit)).stdout == Seq::<char>::empty(),
        reported(Format::Text, dry_run, detail, Some(unit)).stderr == reported(
            Format::Text,
            dry_run,
            detail,
            None,
        ).stderr + "\n"@ + unit,
        reported(Format::Text, dry_run, detail, None).stderr == line(done_text(dry_run, detail)),
        reported(Format::Json, dry_run, detail, Some(unit)).stderr == Seq::<char>::empty(),
        ({
            let m = unit_json(dry_run, detail, Some(unit))->Object_0;
            &&& reported(Format::Json, dry_run, detail, Some(unit)).stdout == line(
                pretty_text(Json::Object(m)),
            )
            &&& m.contains_key("ok"@) && m["ok"@] == Json::Bool(true)
            &&& m.contains_key("dry_run"@) && m["dry_run"@] == Json::Bool(dry_run)
            &&& m.contains_key("detail"@) && m["detail"@] == Json::Text(detail)
            &&& m.contains_key("unit"@) && m["unit"@] == Json::Text(unit)
        }),
        unit_json(dry_run, detail, None) == done_json(dry_run, detail),
{
    reveal_strlit("ok");
    reveal_strlit("dry_run");
    reveal_strlit("detail");
    reveal_strlit("unit");
    assert("ok"@.len() == 2 && "dry_run"@.len() == 7 && "detail"@.len() == 6);
    assert("unit"@.len() == 4);
    let f = seq![
        ("ok"@, Json::Bool(true)),
        ("dry_run"@, Json::Bool(dry_run)),
        ("detail"@, Json::Text(detail)),
        ("unit"@, Json::Text(unit)),
    ];
    a_field_is_found_by_its_name(f, 0);
    a_field_is_found_by_its_name(f, 1);
    a_field_is_found_by_its_name(f, 2);
    a_field_is_found_by_its_name(f, 3);
}

/// The state of the unit is told apart: not installed, installed, or running, where one
/// that is not installed is not running.
pub proof fn the_state_of_the_unit_is_told_apart(
    supervisor: Supervisor,
    path: Seq<char>,
    installed: bool,
    running: bool,
)
    ensures
        state_text(false, running) == "not installed"@,
        state_text(true, false) == "installed, not running"@,
        state_text(true, true) == "running"@,
        ({
            let m = Map::<Seq<char>, Json>::empty().insert(
                "supervisor"@,
                Json::Text(supervisor.title()),
            ).insert("unit"@, Json::Text(path)).insert("installed"@, Json::Bool(installed)).insert(
                "running"@,
                Json::Bool(installed && running),
            );
            state_shown(supervisor, path, installed, running, Format::Json).stdout == line(
                pretty_text(Json::Object(m)),
            )
        }),
        holds(
            state_shown(supervisor, path, installed, running, Format::Text).stdout,
            state_text(installed, running),
        ),
        holds(state_shown(supervisor, path, installed, running, Format::Text).stdout, path),
{
    let f = seq![
        ("supervisor"@, Json::Text(supervisor.title())),
        ("unit"@, Json::Text(path)),
        ("installed"@, Json::Bool(installed)),
        ("running"@, Json::Bool(installed && running)),
    ];
    assert(f.drop_last() =~= f.take(3));
    assert(f.take(3).drop_last() =~= f.take(2));
    assert(f.take(2).drop_last() =~= f.take(1));
    assert(f.take(1).drop_last() =~= Seq::empty());
    assert(object(Seq::<(Seq<char>, Json)>::empty()) == Map::<Seq<char>, Json>::empty());
    assert(object(f.take(1)) == Map::<Seq<char>, Json>::empty().insert(f[0].0, f[0].1));
    assert(object(f.take(2)) == object(f.take(1)).insert(f[1].0, f[1].1));
    assert(object(f.take(3)) == object(f.take(2)).insert(f[2].0, f[2].1));
    let text = state_shown(supervisor, path, installed, running, Format::Text).stdout;
    let state = state_text(installed, running);
    let head = "supervisor  "@ + supervisor.title() + "\nunit        "@;
    let mid = "\nstate       "@;
    assert(text =~= head + path + (mid + state + "\n"@));
    assert(text =~= (head + path + mid) + state + "\n"@);
}

/// What an act or a command holds is what it was made of.
pub proof fn an_act_holds_what_it_was_made_of(c: Call, path: String, text: String)
    ensures
        c@.program == c.program@,
        c@.must == c.must,
        c@.args.len() == c.args@.len(),
        forall|i: int| 0 <= i < c.args@.len() ==> #[trigger] c@.args[i] == c.args@[i]@,
        (Act::MakeDir { path })@ == (ActView::MakeDir { path: path@ }),
        (Act::Write { path, text })@ == (ActView::Write { path: path@, text: text@ }),
        (Act::Remove { path })@ == (ActView::Remove { path: path@ }),
        Act::Run(c)@ == ActView::Run(c@),
{
}

/// Each supervisor is dealt with by its own commands, and its unit is its own.
pub proof fn every_supervisor_has_its_own_commands(plan: Plan, path: Seq<char>)
    ensures
        Supervisor::Systemd.loading(path) == systemd::loading(),
        Supervisor::Systemd.unloading(path) == systemd::unloading(),
        Supervisor::Systemd.restarting(path) == systemd::restarting(),
        Supervisor::Systemd.unit(plan) == systemd::unit_text(full_argv(plan)),
        Supervisor::Launchd.loading(path) == launchd::loading(path),
        Supervisor::Launchd.unloading(path) == launchd::unloading(path),
        Supervisor::Launchd.restarting(path) == launchd::restarting(path),
        Supervisor::Launchd.unit(plan) == launchd::unit_text(full_argv(plan)),
{
}

}
