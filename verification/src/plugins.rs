//! What plugins answer, and what is told of installing and removing them.

use vstd::prelude::*;
use vstd::string::*;
use crate::console::{ConsoleSeverity, LogLine};
use crate::dock_ops::SplitRequest;
use crate::mounting::install_mount_tab;
#[allow(unused_imports)]
use crate::mounting::mount_installed;
use crate::palette::{Mode, PaletteState, PluginCascade, PluginCommand, PluginPrompt};
#[allow(unused_imports)]
use crate::palette::opened_at;
#[allow(unused_imports)]
use crate::panels::{lines_logged, message_logged};
use crate::panels::log_lines;
use crate::session::HxyApp;
use crate::tabs::MountId;
#[allow(unused_imports)]
use crate::dispatch::shut;
use crate::text::{join2, push_dec};
#[allow(unused_imports)]
use crate::text::dec;

verus! {

/// What a plugin answers to a command.
pub enum InvokeOutcome {
    Done,
    /// More commands to choose from.
    Cascade(Vec<PluginCommand>),
    /// Something is to be mounted from a token.
    Mount { token: String, title: String },
    /// A question for the user.
    Prompt { title: String, default_value: Option<String> },
}

/// A mount that a plugin is to make.
pub struct MountRequest {
    pub plugin_name: String,
    pub token: String,
    pub title: String,
}

/// Whether the palette shows the commands that a plugin answered with.
pub open spec fn cascade_shown(
    before: PaletteState,
    plugin_name: Seq<char>,
    commands: Vec<PluginCommand>,
    after: PaletteState,
) -> bool {
    &&& after.plugin_cascade matches Some(c) && c.plugin_name@ == plugin_name && c.commands
        == commands
    &&& opened_at(
        PaletteState { plugin_cascade: after.plugin_cascade, ..before },
        Mode::PluginCascade,
        after,
    )
}

/// Whether the palette shows a question of a plugin, with an answer offered.
pub open spec fn prompt_shown(
    before: PaletteState,
    plugin_name: Seq<char>,
    command_id: Seq<char>,
    title: Seq<char>,
    offered: Option<String>,
    after: PaletteState,
) -> bool {
    &&& after == (PaletteState {
        mode: Mode::PluginPrompt,
        open: true,
        query: after.query,
        selected: 0,
        plugin_prompt: after.plugin_prompt,
        ..before
    })
    &&& after.query@ == match offered {
        Some(text) => text@,
        None => seq![],
    }
    &&& after.plugin_prompt matches Some(p) && p.plugin_name@ == plugin_name && p.command_id@
        == command_id && p.title@ == title
}

impl PaletteState {
    /// Shows the commands that a plugin answered with.
    pub fn enter_plugin_cascade(&mut self, plugin_name: String, commands: Vec<PluginCommand>)
        ensures
            cascade_shown(*old(self), plugin_name@, commands, *final(self)),
    {
        self.plugin_cascade = Some(PluginCascade { plugin_name, commands });
        self.open_at(Mode::PluginCascade);
    }

    /// Shows a question of a plugin.
    pub fn enter_plugin_prompt(
        &mut self,
        plugin_name: String,
        command_id: String,
        title: String,
        offered: Option<String>,
    )
        ensures
            prompt_shown(
                *old(self),
                plugin_name@,
                command_id@,
                title@,
                offered,
                *final(self),
            ),
    {
        self.plugin_prompt = Some(PluginPrompt { plugin_name, command_id, title });
        self.open_at(Mode::PluginPrompt);
        if let Some(text) = offered {
            self.query = text;
        } else {
            assert(self.query@ =~= seq![]);
        }
    }
}

/// Whether one editor is another after a plugin answered: it is done or gave no
/// answer, and the palette closes; it has more commands or a question, and the
/// palette shows them; or it is to mount something.
pub open spec fn outcome_dispatched(
    before: HxyApp,
    plugin_name: Seq<char>,
    command_id: Seq<char>,
    outcome: Option<InvokeOutcome>,
    r: Option<MountRequest>,
    after: HxyApp,
) -> bool {
    match outcome {
        None | Some(InvokeOutcome::Done) => r is None && after == shut(before),
        Some(InvokeOutcome::Cascade(commands)) => r is None && after == (HxyApp {
            palette: after.palette,
            ..before
        }) && cascade_shown(before.palette, plugin_name, commands, after.palette),
        Some(InvokeOutcome::Mount { token, title }) => after == shut(before) && (
        r matches Some(req) && req.plugin_name@ == plugin_name && req.token == token && req.title
            == title),
        Some(InvokeOutcome::Prompt { title, default_value }) => r is None && after == (HxyApp {
            palette: after.palette,
            ..before
        }) && prompt_shown(
            before.palette,
            plugin_name,
            command_id,
            title@,
            default_value,
            after.palette,
        ),
    }
}

/// Does what a plugin's answer asks for. Returns a mount that is to be made.
pub fn dispatch_plugin_outcome(
    app: &mut HxyApp,
    plugin_name: &String,
    command_id: &String,
    outcome: Option<InvokeOutcome>,
) -> (r: Option<MountRequest>)
    requires
        old(app).wf(),
    ensures
        final(app).wf(),
        outcome_dispatched(
            *old(app),
            plugin_name@,
            command_id@,
            outcome,
            r,
            *final(app),
        ),
{
    match outcome {
        None | Some(InvokeOutcome::Done) => {
            app.palette.close();
            None
        },
        Some(InvokeOutcome::Cascade(commands)) => {
            app.palette.enter_plugin_cascade(plugin_name.clone(), commands);
            None
        },
        Some(InvokeOutcome::Mount { token, title }) => {
            app.palette.close();
            Some(MountRequest { plugin_name: plugin_name.clone(), token, title })
        },
        Some(InvokeOutcome::Prompt { title, default_value }) => {
            app.palette.enter_plugin_prompt(
                plugin_name.clone(),
                command_id.clone(),
                title,
                default_value,
            );
            None
        },
    }
}

/// What came of a call of a plugin in the background.
pub enum OpResult {
    /// It is still running.
    Pending,
    /// A command or an answer came back, with what it asks for if anything.
    Answered { command_id: String, outcome: Option<InvokeOutcome> },
    /// Something was mounted, or could not be.
    Mounted { token: String, title: String, result: Result<bool, String> },
}

/// A call of a plugin in the background, and what came of it.
pub struct PluginOp {
    /// What tells the call.
    pub ticket: u64,
    pub plugin_name: String,
    /// What the call is for.
    pub label: String,
    pub elapsed_ms: u64,
    pub result: OpResult,
}

/// What is told of a call that came back.
pub open spec fn completion_text(label: Seq<char>, elapsed_ms: u64, detail: Seq<char>) -> Seq<char> {
    label + ": "@ + detail + " (completed in "@ + dec(elapsed_ms as nat) + " ms)"@
}

fn completion_message(label: &String, elapsed_ms: u64, detail: &str) -> (r: String)
    ensures
        r@ == completion_text(label@, elapsed_ms, detail@),
{
    let mut out = label.clone();
    out.append(": ");
    out.append(detail);
    out.append(" (completed in ");
    push_dec(&mut out, elapsed_ms);
    out.append(" ms)");
    out
}

/// How a call that came back is told: an answer or a mount is good, no answer
/// is worth a warning, and a mount that failed is an error.
pub open spec fn completion_line(result: OpResult) -> (ConsoleSeverity, Seq<char>) {
    match result {
        OpResult::Answered { outcome: None, .. } => (
            ConsoleSeverity::Warning,
            "no outcome (call trapped or grant denied)"@,
        ),
        OpResult::Mounted { result: Err(e), .. } => (ConsoleSeverity::Error, "failed: "@ + e@),
        _ => (ConsoleSeverity::Info, "ok"@),
    }
}

fn log_completion(app: &mut HxyApp, op: &PluginOp) -> (r: Option<SplitRequest>)
    requires
        old(app).wf(),
    ensures
        final(app).wf(),
        message_logged(
            *old(app),
            completion_line(op.result).0,
            op.plugin_name@,
            completion_text(op.label@, op.elapsed_ms, completion_line(op.result).1),
            r,
            *final(app),
        ),
{
    let (severity, detail) = match &op.result {
        OpResult::Answered { outcome: None, .. } => (
            ConsoleSeverity::Warning,
            "no outcome (call trapped or grant denied)".to_owned(),
        ),
        OpResult::Mounted { result: Err(e), .. } => (
            ConsoleSeverity::Error,
            join2("failed: ", e.as_str()),
        ),
        _ => (ConsoleSeverity::Info, "ok".to_owned()),
    };
    let message = completion_message(&op.label, op.elapsed_ms, detail.as_str());
    app.console_log(severity, op.plugin_name.clone(), message)
}

/// What a call that came back leaves to do.
pub struct OpDone {
    pub spawn: Option<MountRequest>,
    /// A pane for the console.
    pub console_split: Option<SplitRequest>,
    /// A pane for what was mounted.
    pub mount_split: Option<SplitRequest>,
}

/// Whether one editor is another after a call came back: that is told, and what
/// the answer asks for is done.
pub open spec fn op_finished(
    before: HxyApp,
    op: PluginOp,
    r: OpDone,
    mid: HxyApp,
    after: HxyApp,
) -> bool {
    &&& message_logged(
        before,
        completion_line(op.result).0,
        op.plugin_name@,
        completion_text(op.label@, op.elapsed_ms, completion_line(op.result).1),
        r.console_split,
        mid,
    )
    &&& match op.result {
        OpResult::Answered { command_id, outcome } => r.mount_split is None && outcome_dispatched(
            mid,
            op.plugin_name@,
            command_id@,
            outcome,
            r.spawn,
            after,
        ),
        OpResult::Mounted { token, title, result: Ok(writable) } => r.spawn is None
            && mount_installed(
            mid,
            op.plugin_name,
            token,
            title,
            writable,
            (MountId(mid.next_mount_id), r.mount_split),
            after,
        ),
        OpResult::Mounted { result: Err(_), .. } => r.spawn is None && r.mount_split is None
            && after == mid,
        OpResult::Pending => false,
    }
}

/// Takes over a call that came back.
#[verifier::rlimit(40)]
#[verifier::spinoff_prover]
pub fn finish_op(app: &mut HxyApp, op: PluginOp) -> (r: OpDone)
    requires
        old(app).wf(),
        old(app).next_mount_id < u64::MAX,
        !(op.result is Pending),
    ensures
        final(app).wf(),
        final(app).next_mount_id <= old(app).next_mount_id + 1,
        exists|mid: HxyApp| #[trigger] op_finished(*old(app), op, r, mid, *final(app)),
{
    let console_split = log_completion(app, &op);
    let ghost mid = *app;
    let ghost all = op;
    match op.result {
        OpResult::Answered { command_id, outcome } => {
            let spawn = dispatch_plugin_outcome(app, &op.plugin_name, &command_id, outcome);
            let r = OpDone { spawn, console_split, mount_split: None };
            assert(op_finished(*old(app), all, r, mid, *app));
            r
        },
        OpResult::Mounted { token, title, result: Ok(writable) } => {
            let done = install_mount_tab(app, op.plugin_name, token, title, writable);
            let r = OpDone { spawn: None, console_split, mount_split: done.1 };
            assert(done == (MountId(mid.next_mount_id), done.1));
            assert(op_finished(*old(app), all, r, mid, *app));
            r
        },
        _ => {
            let r = OpDone { spawn: None, console_split, mount_split: None };
            assert(op_finished(*old(app), all, r, mid, *app));
            r
        },
    }
}

/// The calls that have not come back, in order.
pub open spec fn still_pending(ops: Seq<PluginOp>) -> Seq<u64>
    decreases ops.len(),
{
    if ops.len() == 0 {
        seq![]
    } else if ops.last().result is Pending {
        still_pending(ops.drop_last()).push(ops.last().ticket)
    } else {
        still_pending(ops.drop_last())
    }
}

/// The calls that came back, in order.
pub open spec fn came_back(ops: Seq<PluginOp>) -> Seq<PluginOp>
    decreases ops.len(),
{
    if ops.len() == 0 {
        seq![]
    } else if ops.last().result is Pending {
        came_back(ops.drop_last())
    } else {
        came_back(ops.drop_last()).push(ops.last())
    }
}

/// No call is lost: each has come back or is still waited for.
pub proof fn law_no_call_lost(ops: Seq<PluginOp>, i: int)
    requires
        0 <= i < ops.len(),
    ensures
        ops[i].result is Pending ==> still_pending(ops).contains(ops[i].ticket),
        !(ops[i].result is Pending) ==> came_back(ops).contains(ops[i]),
        still_pending(ops).len() + came_back(ops).len() == ops.len(),
    decreases ops.len(),
{
    let init = ops.drop_last();
    reveal_with_fuel(still_pending, 2);
    reveal_with_fuel(came_back, 2);
    if init.len() > 0 {
        law_no_call_lost(init, if i < init.len() {
            i
        } else {
            0
        });
    }
    if i < init.len() {
        assert(init[i] == ops[i]);
        if ops[i].result is Pending {
            let k = choose|k: int|
                0 <= k < still_pending(init).len() && still_pending(init)[k] == ops[i].ticket;
            if ops.last().result is Pending {
                assert(still_pending(ops)[k] == ops[i].ticket);
            }
        } else {
            let k = choose|k: int| 0 <= k < came_back(init).len() && came_back(init)[k] == ops[i];
            if !(ops.last().result is Pending) {
                assert(came_back(ops)[k] == ops[i]);
            }
        }
    } else {
        if ops.last().result is Pending {
            assert(still_pending(ops)[still_pending(init).len() as int] == ops.last().ticket);
        } else {
            assert(came_back(ops)[came_back(init).len() as int] == ops.last());
        }
    }
}

/// What a round over the calls leaves.
pub struct Drained {
    /// The calls that are waited for further.
    pub waiting: Vec<u64>,
    /// What the calls that came back leave to do, in their order.
    pub done: Vec<OpDone>,
}

/// Whether a chain of editors leads from one to another, each the one before
/// after the next call that came back.
pub open spec fn ops_finished(
    states: Seq<HxyApp>,
    mids: Seq<HxyApp>,
    back: Seq<PluginOp>,
    done: Seq<OpDone>,
) -> bool {
    &&& states.len() == back.len() + 1
    &&& mids.len() == back.len()
    &&& done.len() == back.len()
    &&& forall|k: int|
        0 <= k < back.len() ==> #[trigger] op_finished(
            states[k],
            back[k],
            done[k],
            mids[k],
            states[k + 1],
        )
}

/// Whether a round over the calls leads from one editor to another.
pub open spec fn drained_to(before: HxyApp, ops: Seq<PluginOp>, r: Drained, after: HxyApp) -> bool {
    &&& r.waiting@ == still_pending(ops)
    &&& exists|states: Seq<HxyApp>, mids: Seq<HxyApp>| #[trigger]
        ops_finished(states, mids, came_back(ops), r.done@) && states[0] == before
            && states.last() == after
}

/// Goes over the calls: those that came back are taken over in order, and the
/// others are waited for further.
#[verifier::rlimit(60)]
#[verifier::spinoff_prover]
pub fn drain_pending_plugin_ops(app: &mut HxyApp, ops: Vec<PluginOp>) -> (r: Drained)
    requires
        old(app).wf(),
        old(app).next_mount_id + ops@.len() <= u64::MAX,
    ensures
        final(app).wf(),
        drained_to(*old(app), ops@, r, *final(app)),
{
    let ghost before = *app;
    let ghost all = ops@;
    let ghost mut taken: int = 0;
    let ghost mut states: Seq<HxyApp> = seq![*app];
    let ghost mut mids: Seq<HxyApp> = seq![];
    let mut rest = ops;
    let mut waiting: Vec<u64> = Vec::new();
    let mut done: Vec<OpDone> = Vec::new();
    assert(rest@ =~= all.skip(0));
    assert(all.take(0) =~= seq![]);
    while rest.len() > 0
        invariant
            0 <= taken <= all.len(),
            rest@ == all.skip(taken),
            app.wf(),
            app.next_mount_id + rest@.len() <= u64::MAX,
            waiting@ == still_pending(all.take(taken)),
            ops_finished(states, mids, came_back(all.take(taken)), done@),
            states[0] == before,
            states.last() == *app,
        decreases rest.len(),
    {
        assert(all.take(taken + 1).drop_last() =~= all.take(taken));
        let ghost back = came_back(all.take(taken));
        let op = rest.remove(0);
        assert(op == all[taken]);
        let pending = match &op.result {
            OpResult::Pending => true,
            _ => false,
        };
        if pending {
            waiting.push(op.ticket);
        } else {
            let ghost start = *app;
            let ghost this = op;
            let ghost old_done = done@;
            let step = finish_op(app, op);
            let ghost told = step;
            done.push(step);
            proof {
                let mid = choose|mid: HxyApp| #[trigger] op_finished(start, this, told, mid, *app);
                let next_states = states.push(*app);
                let next_mids = mids.push(mid);
                let next_back = back.push(this);
                assert forall|k: int| 0 <= k < next_back.len() implies #[trigger] op_finished(
                    next_states[k],
                    next_back[k],
                    done@[k],
                    next_mids[k],
                    next_states[k + 1],
                ) by {
                    if k < back.len() {
                        assert(op_finished(states[k], back[k], old_done[k], mids[k], states[k + 1]));
                        assert(next_states[k] == states[k] && next_states[k + 1] == states[k + 1]);
                        assert(done@[k] == old_done[k]);
                    } else {
                        assert(next_states[k] == states.last());
                    }
                }
                states = next_states;
                mids = next_mids;
            }
        }
        proof {
            taken = taken + 1;
        }
        assert(rest@ =~= all.skip(taken));
    }
    assert(all.take(taken) =~= all);
    let r = Drained { waiting, done };
    assert(ops_finished(states, mids, came_back(all), r.done@));
    r
}

/// What came of a click in the list of plugins.
pub enum PluginsEvent {
    /// The plugins are to be read again.
    Rescan,
    /// What a plugin may do was changed.
    SetGrant,
    /// What a plugin remembers is to be wiped.
    WipeState { plugin_name: String },
    RequestPatternsDownload,
}

/// What clicks in the list of plugins ask for.
pub struct PluginsStep {
    /// Whether what plugins may do is to be kept at once, and the plugins are to
    /// be read again with it.
    pub grants_changed: bool,
    /// Plugins whose memory is to be wiped, in order.
    pub wipe: Vec<String>,
    pub download: bool,
}

/// Whether one of some events is of a sort.
pub open spec fn some_rescan(events: Seq<PluginsEvent>) -> bool {
    exists|i: int| 0 <= i < events.len() && (#[trigger] events[i]) is Rescan
}

pub open spec fn some_grant(events: Seq<PluginsEvent>) -> bool {
    exists|i: int| 0 <= i < events.len() && (#[trigger] events[i]) is SetGrant
}

pub open spec fn some_download(events: Seq<PluginsEvent>) -> bool {
    exists|i: int| 0 <= i < events.len() && (#[trigger] events[i]) is RequestPatternsDownload
}

/// The plugins that events ask to be wiped, in order.
pub open spec fn wiped(events: Seq<PluginsEvent>) -> Seq<String>
    decreases events.len(),
{
    if events.len() == 0 {
        seq![]
    } else {
        match events.last() {
            PluginsEvent::WipeState { plugin_name } => wiped(events.drop_last()).push(plugin_name),
            _ => wiped(events.drop_last()),
        }
    }
}

/// Whether clicks in the list of plugins were taken over.
pub open spec fn plugin_events_taken(
    before: HxyApp,
    events: Seq<PluginsEvent>,
    r: PluginsStep,
    after: HxyApp,
) -> bool {
    &&& after == (HxyApp {
        plugin_rescan: before.plugin_rescan || some_rescan(events),
        ..before
    })
    &&& r.grants_changed == some_grant(events)
    &&& r.wipe@ == wiped(events)
    &&& r.download == some_download(events)
}

/// Takes over clicks in the list of plugins.
pub fn apply_plugin_events(app: &mut HxyApp, events: Vec<PluginsEvent>) -> (r: PluginsStep)
    requires
        old(app).wf(),
    ensures
        final(app).wf(),
        plugin_events_taken(*old(app), events@, r, *final(app)),
{
    let ghost all = events@;
    let ghost mut taken: int = 0;
    let mut rest = events;
    let mut rescan = false;
    let mut grants_changed = false;
    let mut download = false;
    let mut wipe: Vec<String> = Vec::new();
    assert(rest@ =~= all.skip(0));
    assert(all.take(0) =~= seq![]);
    while rest.len() > 0
        invariant
            0 <= taken <= all.len(),
            rest@ == all.skip(taken),
            rescan == some_rescan(all.take(taken)),
            grants_changed == some_grant(all.take(taken)),
            download == some_download(all.take(taken)),
            wipe@ == wiped(all.take(taken)),
        decreases rest.len(),
    {
        let ghost part = all.take(taken);
        let ghost next = all.take(taken + 1);
        assert(next.drop_last() =~= part);
        let event = rest.remove(0);
        proof {
            assert(event == all[taken]);
            assert(next[taken] == all[taken]);
            assert forall|i: int| 0 <= i < taken implies #[trigger] next[i] == part[i] by {}
            if rescan {
                let k = choose|k: int| 0 <= k < part.len() && (#[trigger] part[k]) is Rescan;
                assert(next[k] is Rescan);
            }
            if grants_changed {
                let k = choose|k: int| 0 <= k < part.len() && (#[trigger] part[k]) is SetGrant;
                assert(next[k] is SetGrant);
            }
            if download {
                let k = choose|k: int|
                    0 <= k < part.len() && (#[trigger] part[k]) is RequestPatternsDownload;
                assert(next[k] is RequestPatternsDownload);
            }
        }
        match event {
            PluginsEvent::Rescan => {
                rescan = true;
            },
            PluginsEvent::SetGrant => {
                grants_changed = true;
            },
            PluginsEvent::WipeState { plugin_name } => {
                wipe.push(plugin_name);
            },
            PluginsEvent::RequestPatternsDownload => {
                download = true;
            },
        }
        proof {
            taken = taken + 1;
        }
        assert(rest@ =~= all.skip(taken));
    }
    assert(all.take(taken) =~= all);
    if rescan {
        app.plugin_rescan = true;
    }
    PluginsStep { grants_changed, wipe, download }
}

/// What came of installing a template with what it needs.
pub struct InstallReport {
    pub copied: Vec<String>,
    pub existing: Vec<String>,
    /// Files and what they name but was not found.
    pub missing: Vec<(String, String)>,
    /// Files that could not be copied, and why.
    pub errors: Vec<(String, String)>,
}

/// The lines that tell of an install, in order.
pub open spec fn install_lines(report: InstallReport) -> Seq<(ConsoleSeverity, Seq<char>)> {
    report.copied@.map_values(
        |p: String| (ConsoleSeverity::Info, "installed "@ + p@),
    ) + report.existing@.map_values(
        |p: String| (ConsoleSeverity::Info, "already present: "@ + p@),
    ) + report.missing@.map_values(
        |m: (String, String)|
            (
                ConsoleSeverity::Warning,
                m.0@ + " references `"@ + m.1@ + "` but it couldn't be resolved"@,
            ),
    ) + report.errors@.map_values(
        |e: (String, String)|
            (ConsoleSeverity::Error, "copy "@ + e.0@ + " failed: "@ + e.1@),
    )
}

/// Whether lines tell things, one each.
pub open spec fn lines_are(lines: Seq<LogLine>, told: Seq<(ConsoleSeverity, Seq<char>)>) -> bool {
    &&& lines.len() == told.len()
    &&& forall|i: int|
        0 <= i < lines.len() ==> (#[trigger] lines[i]).severity == told[i].0 && lines[i].message@
            == told[i].1
}

proof fn lemma_lines_push(
    lines: Seq<LogLine>,
    told: Seq<(ConsoleSeverity, Seq<char>)>,
    line: LogLine,
    next: (ConsoleSeverity, Seq<char>),
)
    requires
        lines_are(lines, told),
        line.severity == next.0,
        line.message@ == next.1,
    ensures
        lines_are(lines.push(line), told.push(next)),
{
}

fn tell_paths(
    lines: &mut Vec<LogLine>,
    paths: &Vec<String>,
    prefix: &str,
    Ghost(told): Ghost<Seq<(ConsoleSeverity, Seq<char>)>>,
)
    requires
        lines_are(old(lines)@, told),
    ensures
        lines_are(
            final(lines)@,
            told + paths@.map_values(|p: String| (ConsoleSeverity::Info, prefix@ + p@)),
        ),
{
    let ghost part = paths@.map_values(|p: String| (ConsoleSeverity::Info, prefix@ + p@));
    let mut i: usize = 0;
    assert(told + part.take(0) =~= told);
    while i < paths.len()
        invariant
            i <= paths@.len(),
            part == paths@.map_values(|p: String| (ConsoleSeverity::Info, prefix@ + p@)),
            lines_are(lines@, told + part.take(i as int)),
        decreases paths.len() - i,
    {
        let message = join2(prefix, paths[i].as_str());
        let line = LogLine { severity: ConsoleSeverity::Info, message };
        proof {
            lemma_lines_push(lines@, told + part.take(i as int), line, part[i as int]);
            assert((told + part.take(i as int)).push(part[i as int]) =~= told + part.take(
                i as int + 1,
            ));
        }
        lines.push(line);
        i = i + 1;
    }
    assert(told + part.take(part.len() as int) =~= told + part);
}

/// Writes the lines that tell of an install.
#[verifier::rlimit(40)]
pub fn report_install(report: &InstallReport) -> (r: Vec<LogLine>)
    ensures
        lines_are(r@, install_lines(*report)),
{
    let mut lines: Vec<LogLine> = Vec::new();
    let ghost none: Seq<(ConsoleSeverity, Seq<char>)> = seq![];
    tell_paths(&mut lines, &report.copied, "installed ", Ghost(none));
    let ghost copied = report.copied@.map_values(
        |p: String| (ConsoleSeverity::Info, "installed "@ + p@),
    );
    assert(none + copied =~= copied);
    tell_paths(&mut lines, &report.existing, "already present: ", Ghost(copied));
    let ghost first = copied + report.existing@.map_values(
        |p: String| (ConsoleSeverity::Info, "already present: "@ + p@),
    );
    let ghost missing = report.missing@.map_values(
        |m: (String, String)|
            (
                ConsoleSeverity::Warning,
                m.0@ + " references `"@ + m.1@ + "` but it couldn't be resolved"@,
            ),
    );
    let mut i: usize = 0;
    assert(first + missing.take(0) =~= first);
    while i < report.missing.len()
        invariant
            i <= report.missing@.len(),
            missing == report.missing@.map_values(
                |m: (String, String)|
                    (
                        ConsoleSeverity::Warning,
                        m.0@ + " references `"@ + m.1@ + "` but it couldn't be resolved"@,
                    ),
            ),
            lines_are(lines@, first + missing.take(i as int)),
        decreases report.missing.len() - i,
    {
        let mut message = report.missing[i].0.clone();
        message.append(" references `");
        message.append(report.missing[i].1.as_str());
        message.append("` but it couldn't be resolved");
        let line = LogLine { severity: ConsoleSeverity::Warning, message };
        proof {
            lemma_lines_push(lines@, first + missing.take(i as int), line, missing[i as int]);
            assert((first + missing.take(i as int)).push(missing[i as int]) =~= first
                + missing.take(i as int + 1));
        }
        lines.push(line);
        i = i + 1;
    }
    assert(missing.take(missing.len() as int) =~= missing);
    let ghost second = first + missing;
    let ghost errors = report.errors@.map_values(
        |e: (String, String)|
            (ConsoleSeverity::Error, "copy "@ + e.0@ + " failed: "@ + e.1@),
    );
    let mut k: usize = 0;
    assert(second + errors.take(0) =~= second);
    while k < report.errors.len()
        invariant
            k <= report.errors@.len(),
            errors == report.errors@.map_values(
                |e: (String, String)|
                    (ConsoleSeverity::Error, "copy "@ + e.0@ + " failed: "@ + e.1@),
            ),
            lines_are(lines@, second + errors.take(k as int)),
        decreases report.errors.len() - k,
    {
        let mut message = "copy ".to_owned();
        message.append(report.errors[k].0.as_str());
        message.append(" failed: ");
        message.append(report.errors[k].1.as_str());
        let line = LogLine { severity: ConsoleSeverity::Error, message };
        proof {
            lemma_lines_push(lines@, second + errors.take(k as int), line, errors[k as int]);
            assert((second + errors.take(k as int)).push(errors[k as int]) =~= second
                + errors.take(k as int + 1));
        }
        lines.push(line);
        k = k + 1;
    }
    assert(errors.take(errors.len() as int) =~= errors);
    lines
}

/// What came of removing a template.
pub fn report_template_removal(removed: &Result<(), String>) -> (r: LogLine)
    ensures
        match *removed {
            Ok(_) => r.severity is Info && r.message@ == "deleted"@,
            Err(e) => r.severity is Error && r.message@ == "delete failed: "@ + e@,
        },
{
    match removed {
        Ok(_) => LogLine { severity: ConsoleSeverity::Info, message: "deleted".to_owned() },
        Err(e) => LogLine {
            severity: ConsoleSeverity::Error,
            message: join2("delete failed: ", e.as_str()),
        },
    }
}

/// What came of a step of removing a plugin.
pub enum StepOutcome {
    Done,
    Failed(String),
    /// There was nothing to do.
    Unneeded,
}

/// The steps of removing a plugin that were taken, each with what came of it.
pub struct RemovalReport {
    /// Reading the plugin, to know what it was allowed.
    pub read: Option<StepOutcome>,
    pub component: Option<StepOutcome>,
    /// Removing the manifest, with its path.
    pub manifest: Option<(String, StepOutcome)>,
    /// Keeping the grants without those of the plugin.
    pub grants: Option<StepOutcome>,
    /// Clearing what the plugin remembers.
    pub memory: Option<StepOutcome>,
}

/// A step of removing a plugin.
#[derive(Clone, Copy, Debug, PartialEq, Eq, Structural)]
pub enum RemovalStep {
    Read,
    RemoveComponent,
    RemoveManifest,
    ForgetGrants,
    ClearMemory,
}

/// Whether a step was taken.
pub open spec fn step_taken(report: RemovalReport, step: RemovalStep) -> bool {
    match step {
        RemovalStep::Read => report.read is Some,
        RemovalStep::RemoveComponent => report.component is Some,
        RemovalStep::RemoveManifest => report.manifest is Some,
        RemovalStep::ForgetGrants => report.grants is Some,
        RemovalStep::ClearMemory => report.memory is Some,
    }
}

/// Whether a step belongs to the removal: the manifest where there is one, and the
/// grants where the plugin could be read, since they are known by what it holds.
pub open spec fn step_wanted(report: RemovalReport, has_manifest: bool, step: RemovalStep) -> bool {
    match step {
        RemovalStep::RemoveManifest => has_manifest,
        RemovalStep::ForgetGrants => report.read matches Some(o) && o is Done,
        _ => true,
    }
}

/// The steps in order.
pub open spec fn all_steps() -> Seq<RemovalStep> {
    seq![
        RemovalStep::Read,
        RemovalStep::RemoveComponent,
        RemovalStep::RemoveManifest,
        RemovalStep::ForgetGrants,
        RemovalStep::ClearMemory,
    ]
}

/// Whether a step is still to be taken.
pub open spec fn step_due(report: RemovalReport, has_manifest: bool, step: RemovalStep) -> bool {
    step_wanted(report, has_manifest, step) && !step_taken(report, step)
}

/// Whether a step is the first that is due; none where all were taken.
pub open spec fn step_next(report: RemovalReport, has_manifest: bool, r: Option<RemovalStep>) -> bool {
    match r {
        Some(step) => exists|k: int|
            0 <= k < all_steps().len() && #[trigger] all_steps()[k] == step && step_due(
                report,
                has_manifest,
                step,
            ) && forall|j: int|
                0 <= j < k ==> !step_due(report, has_manifest, #[trigger] all_steps()[j]),
        None => forall|j: int|
            0 <= j < all_steps().len() ==> !step_due(
                report,
                has_manifest,
                #[trigger] all_steps()[j],
            ),
    }
}

/// Decides which step of removing a plugin comes next, whatever came of the steps
/// before it.
pub fn next_removal_step(done: &RemovalReport, has_manifest: bool) -> (r: Option<RemovalStep>)
    ensures
        step_next(*done, has_manifest, r),
{
    let ghost steps = all_steps();
    if done.read.is_none() {
        assert(steps[0] == RemovalStep::Read);
        return Some(RemovalStep::Read);
    }
    if done.component.is_none() {
        assert(steps[1] == RemovalStep::RemoveComponent);
        return Some(RemovalStep::RemoveComponent);
    }
    if has_manifest && done.manifest.is_none() {
        assert(steps[2] == RemovalStep::RemoveManifest);
        return Some(RemovalStep::RemoveManifest);
    }
    if let Some(StepOutcome::Done) = &done.read {
        if done.grants.is_none() {
            assert(steps[3] == RemovalStep::ForgetGrants);
            return Some(RemovalStep::ForgetGrants);
        }
    }
    if done.memory.is_none() {
        assert(steps[4] == RemovalStep::ClearMemory);
        return Some(RemovalStep::ClearMemory);
    }
    None
}

/// A step that failed keeps no other from being taken: with the same steps taken,
/// and the plugin read or not alike, the same step comes next.
pub proof fn law_failed_step_stops_no_other(
    a: RemovalReport,
    b: RemovalReport,
    has_manifest: bool,
    r: Option<RemovalStep>,
)
    requires
        forall|step: RemovalStep| #[trigger] step_taken(a, step) == step_taken(b, step),
        (a.read matches Some(o) && o is Done) == (b.read matches Some(o) && o is Done),
        step_next(a, has_manifest, r),
    ensures
        step_next(b, has_manifest, r),
{
    assert forall|step: RemovalStep| #[trigger]
        step_due(a, has_manifest, step) == step_due(b, has_manifest, step) by {
        assert(step_taken(a, step) == step_taken(b, step));
    }
}

/// A report that no step was taken of yet.
pub fn new_removal() -> (r: RemovalReport)
    ensures
        forall|step: RemovalStep| !#[trigger] step_taken(r, step),
{
    RemovalReport { read: None, component: None, manifest: None, grants: None, memory: None }
}

/// Whether one report is another in which a step was taken.
pub open spec fn step_recorded(
    before: RemovalReport,
    step: RemovalStep,
    manifest: String,
    outcome: StepOutcome,
    after: RemovalReport,
) -> bool {
    after == match step {
        RemovalStep::Read => RemovalReport { read: Some(outcome), ..before },
        RemovalStep::RemoveComponent => RemovalReport { component: Some(outcome), ..before },
        RemovalStep::RemoveManifest => RemovalReport {
            manifest: Some((manifest, outcome)),
            ..before
        },
        RemovalStep::ForgetGrants => RemovalReport { grants: Some(outcome), ..before },
        RemovalStep::ClearMemory => RemovalReport { memory: Some(outcome), ..before },
    }
}

/// Takes over what came of a step. `manifest` is the path of the manifest.
pub fn record_removal_step(
    report: &mut RemovalReport,
    step: RemovalStep,
    manifest: String,
    outcome: StepOutcome,
)
    ensures
        step_recorded(*old(report), step, manifest, outcome, *final(report)),
{
    match step {
        RemovalStep::Read => {
            report.read = Some(outcome);
        },
        RemovalStep::RemoveComponent => {
            report.component = Some(outcome);
        },
        RemovalStep::RemoveManifest => {
            report.manifest = Some((manifest, outcome));
        },
        RemovalStep::ForgetGrants => {
            report.grants = Some(outcome);
        },
        RemovalStep::ClearMemory => {
            report.memory = Some(outcome);
        },
    }
}

/// A step that was taken is not taken again, and none that was taken is forgotten.
pub proof fn law_step_taken_once(
    before: RemovalReport,
    step: RemovalStep,
    manifest: String,
    outcome: StepOutcome,
    after: RemovalReport,
    has_manifest: bool,
    next: Option<RemovalStep>,
)
    requires
        step_recorded(before, step, manifest, outcome, after),
        step_next(after, has_manifest, next),
    ensures
        next != Some(step),
        forall|other: RemovalStep| #[trigger]
            step_taken(after, other) == (other == step || step_taken(before, other)),
{
}

/// Lines with one more.
pub open spec fn told_with(
    lines: Seq<(ConsoleSeverity, Seq<char>)>,
    line: Option<(ConsoleSeverity, Seq<char>)>,
) -> Seq<(ConsoleSeverity, Seq<char>)> {
    match line {
        Some(l) => lines.push(l),
        None => lines,
    }
}

/// The lines that tell of the removal of a plugin. Every step is told of, one
/// that failed too, and none keeps the others from being taken.
pub open spec fn removal_lines(report: RemovalReport) -> Seq<(ConsoleSeverity, Seq<char>)> {
    let read = told_with(
        seq![],
        match report.read {
            Some(StepOutcome::Failed(e)) => Some(
                (ConsoleSeverity::Warning, "read for grant cleanup: "@ + e@),
            ),
            _ => None,
        },
    );
    let component = told_with(
        read,
        match report.component {
            Some(StepOutcome::Done) => Some((ConsoleSeverity::Info, "removed component"@)),
            Some(StepOutcome::Failed(e)) => Some(
                (ConsoleSeverity::Error, "remove component: "@ + e@),
            ),
            _ => None,
        },
    );
    let manifest = told_with(
        component,
        match report.manifest {
            Some((_, StepOutcome::Done)) => Some((ConsoleSeverity::Info, "removed manifest"@)),
            Some((path, StepOutcome::Failed(e))) => Some(
                (ConsoleSeverity::Warning, "remove manifest "@ + path@ + ": "@ + e@),
            ),
            _ => None,
        },
    );
    let grants = told_with(
        manifest,
        match report.grants {
            Some(StepOutcome::Failed(e)) => Some(
                (ConsoleSeverity::Warning, "persist grants after uninstall: "@ + e@),
            ),
            _ => None,
        },
    );
    told_with(
        grants,
        match report.memory {
            Some(StepOutcome::Done) => Some((ConsoleSeverity::Info, "cleared persisted state"@)),
            Some(StepOutcome::Failed(e)) => Some(
                (ConsoleSeverity::Warning, "clear persisted state: "@ + e@),
            ),
            _ => None,
        },
    )
}

fn say(
    lines: &mut Vec<LogLine>,
    severity: ConsoleSeverity,
    message: String,
    Ghost(told): Ghost<Seq<(ConsoleSeverity, Seq<char>)>>,
)
    requires
        lines_are(old(lines)@, told),
    ensures
        lines_are(final(lines)@, told.push((severity, message@))),
{
    let line = LogLine { severity, message };
    proof {
        lemma_lines_push(lines@, told, line, (severity, message@));
    }
    lines.push(line);
}

/// Writes the lines that tell of the removal of a plugin.
#[verifier::rlimit(40)]
pub fn report_plugin_removal(report: &RemovalReport) -> (r: Vec<LogLine>)
    ensures
        lines_are(r@, removal_lines(*report)),
{
    let mut lines: Vec<LogLine> = Vec::new();
    let ghost mut told: Seq<(ConsoleSeverity, Seq<char>)> = seq![];
    if let Some(StepOutcome::Failed(e)) = &report.read {
        let message = join2("read for grant cleanup: ", e.as_str());
        let ghost text = message@;
        say(&mut lines, ConsoleSeverity::Warning, message, Ghost(told));
        proof {
            told = told.push((ConsoleSeverity::Warning, text));
        }
    }
    match &report.component {
        Some(StepOutcome::Done) => {
            say(&mut lines, ConsoleSeverity::Info, "removed component".to_owned(), Ghost(told));
            proof {
                told = told.push((ConsoleSeverity::Info, "removed component"@));
            }
        },
        Some(StepOutcome::Failed(e)) => {
            let message = join2("remove component: ", e.as_str());
            let ghost text = message@;
            say(&mut lines, ConsoleSeverity::Error, message, Ghost(told));
            proof {
                told = told.push((ConsoleSeverity::Error, text));
            }
        },
        _ => {},
    }
    match &report.manifest {
        Some((_, StepOutcome::Done)) => {
            say(&mut lines, ConsoleSeverity::Info, "removed manifest".to_owned(), Ghost(told));
            proof {
                told = told.push((ConsoleSeverity::Info, "removed manifest"@));
            }
        },
        Some((path, StepOutcome::Failed(e))) => {
            let mut message = "remove manifest ".to_owned();
            message.append(path.as_str());
            message.append(": ");
            message.append(e.as_str());
            let ghost text = message@;
            say(&mut lines, ConsoleSeverity::Warning, message, Ghost(told));
            proof {
                told = told.push((ConsoleSeverity::Warning, text));
            }
        },
        _ => {},
    }
    if let Some(StepOutcome::Failed(e)) = &report.grants {
        let message = join2("persist grants after uninstall: ", e.as_str());
        let ghost text = message@;
        say(&mut lines, ConsoleSeverity::Warning, message, Ghost(told));
        proof {
            told = told.push((ConsoleSeverity::Warning, text));
        }
    }
    match &report.memory {
        Some(StepOutcome::Done) => {
            say(
                &mut lines,
                ConsoleSeverity::Info,
                "cleared persisted state".to_owned(),
                Ghost(told),
            );
            proof {
                told = told.push((ConsoleSeverity::Info, "cleared persisted state"@));
            }
        },
        Some(StepOutcome::Failed(e)) => {
            let message = join2("clear persisted state: ", e.as_str());
            let ghost text = message@;
            say(&mut lines, ConsoleSeverity::Warning, message, Ghost(told));
            proof {
                told = told.push((ConsoleSeverity::Warning, text));
            }
        },
        _ => {},
    }
    assert(told =~= removal_lines(*report));
    lines
}

/// Whether one editor is another after something was installed or removed: lines
/// tell of it, and what is installed is looked for anew.
pub open spec fn change_told(
    before: HxyApp,
    context: Seq<char>,
    told: Seq<(ConsoleSeverity, Seq<char>)>,
    lines: Seq<LogLine>,
    split: Option<SplitRequest>,
    after: HxyApp,
) -> bool {
    &&& lines_are(lines, told)
    &&& lines_logged(HxyApp { plugin_rescan: true, ..before }, context, lines, split, after)
}

/// Tells what came of installing a template, and has what is installed looked for
/// anew.
pub fn finish_install(app: &mut HxyApp, path: &str, report: &InstallReport) -> (r: Option<
    SplitRequest,
>)
    requires
        old(app).wf(),
    ensures
        final(app).wf(),
        exists|lines: Seq<LogLine>| #[trigger]
            change_told(
                *old(app),
                "Install "@ + path@,
                install_lines(*report),
                lines,
                r,
                *final(app),
            ),
{
    let lines = report_install(report);
    app.plugin_rescan = true;
    let context = join2("Install ", path);
    let r = log_lines(app, &context, &lines);
    assert(change_told(*old(app), context@, install_lines(*report), lines@, r, *app));
    r
}

/// Whether it was told what came of removing a template.
pub open spec fn template_removal_told(
    before: HxyApp,
    path: Seq<char>,
    removed: Result<(), String>,
    r: Option<SplitRequest>,
    after: HxyApp,
) -> bool {
    &&& match removed {
        Ok(_) => message_logged(
            HxyApp { plugin_rescan: true, ..before },
            ConsoleSeverity::Info,
            "Uninstall "@ + path,
            "deleted"@,
            r,
            after,
        ),
        Err(e) => message_logged(
            before,
            ConsoleSeverity::Error,
            "Uninstall "@ + path,
            "delete failed: "@ + e@,
            r,
            after,
        ),
    }
}

/// Tells what came of removing a template. Where it is gone, what is installed is
/// looked for anew.
pub fn finish_template_removal(app: &mut HxyApp, path: &str, removed: &Result<(), String>) -> (r:
    Option<SplitRequest>)
    requires
        old(app).wf(),
    ensures
        final(app).wf(),
        template_removal_told(*old(app), path@, *removed, r, *final(app)),
{
    let line = report_template_removal(removed);
    if removed.is_ok() {
        app.plugin_rescan = true;
    }
    app.console_log(line.severity, join2("Uninstall ", path), line.message)
}

/// Tells what came of removing a plugin, and has plugins looked for anew.
pub fn finish_plugin_removal(app: &mut HxyApp, path: &str, report: &RemovalReport) -> (r: Option<
    SplitRequest,
>)
    requires
        old(app).wf(),
    ensures
        final(app).wf(),
        exists|lines: Seq<LogLine>| #[trigger]
            change_told(
                *old(app),
                "Uninstall "@ + path@,
                removal_lines(*report),
                lines,
                r,
                *final(app),
            ),
{
    let lines = report_plugin_removal(report);
    app.plugin_rescan = true;
    let context = join2("Uninstall ", path);
    let r = log_lines(app, &context, &lines);
    assert(change_told(*old(app), context@, removal_lines(*report), lines@, r, *app));
    r
}

/// A plugin that is done, or gave no answer, closes the palette; one with more commands
/// shows them, one with a question shows that with the answer that it offers, and one
/// that mounts something asks for that mount and no other.
pub proof fn law_answer_of_plugin_is_followed(
    before: HxyApp,
    plugin_name: Seq<char>,
    command_id: Seq<char>,
    outcome: Option<InvokeOutcome>,
    r: Option<MountRequest>,
    after: HxyApp,
)
    requires
        outcome_dispatched(before, plugin_name, command_id, outcome, r, after),
    ensures
        after.files == before.files && after.dock == before.dock,
        outcome is None || outcome->0 is Done ==> !after.palette.open && r is None,
        outcome matches Some(InvokeOutcome::Cascade(commands)) ==> after.palette.open
            && after.palette.mode is PluginCascade && after.palette.query@.len() == 0 && (
        after.palette.plugin_cascade matches Some(c) && c.plugin_name@ == plugin_name && c.commands
            == commands) && r is None,
        outcome matches Some(InvokeOutcome::Mount { token, title }) ==> !after.palette.open && (
        r matches Some(req) && req.plugin_name@ == plugin_name && req.token@ == token@ && req.title@
            == title@),
        outcome matches Some(InvokeOutcome::Prompt { title, default_value }) ==> {
            &&& after.palette.open && after.palette.mode is PluginPrompt && r is None
            &&& after.palette.plugin_prompt matches Some(p) && p.plugin_name@ == plugin_name
                && p.command_id@ == command_id && p.title@ == title@
            &&& default_value matches Some(text) ==> after.palette.query@ == text@
            &&& default_value is None ==> after.palette.query@.len() == 0
        },
{
}

/// A call that came back with an answer or a mount is told as good, one without an
/// answer as a warning, and a mount that failed as an error with its reason.
pub proof fn law_call_is_told_by_its_result(result: OpResult)
    ensures
        result matches OpResult::Answered { command_id: _, outcome } ==> (outcome is Some
            ==> completion_line(result).0 is Info) && (outcome is None ==> completion_line(
            result,
        ).0 is Warning),
        result matches OpResult::Mounted { token: _, title: _, result: Ok(_) } ==> completion_line(
            result,
        ).0 is Info,
        result matches OpResult::Mounted { token: _, title: _, result: Err(e) } ==> completion_line(
            result,
        ).0 is Error && completion_line(result).1 == "failed: "@ + e@,
{
}

/// A mount that went through is installed under its plugin, token and title; one that
/// failed adds no mount.
pub proof fn law_mount_that_came_back_is_installed(
    before: HxyApp,
    op: PluginOp,
    r: OpDone,
    mid: HxyApp,
    after: HxyApp,
)
    requires
        op_finished(before, op, r, mid, after),
    ensures
        op.result matches OpResult::Mounted { token, title, result: Ok(writable) } ==> {
            let n = before.mounts@.len() as int;
            &&& after.mounts@.len() == n + 1
            &&& after.mounts@[n].plugin_name@ == op.plugin_name@ && after.mounts@[n].token@
                == token@ && after.mounts@[n].display_name@ == title@
            &&& after.mounts@[n].status == (crate::session::MountStatus::Ready { writable })
        },
        (op.result matches OpResult::Mounted { token: _, title: _, result: Err(_) })
            ==> after.mounts == before.mounts && r.mount_split is None,
        after.files == before.files,
{
    if op.result is Mounted {
        if after.mounts@.len() > 0 {
            assert(after.mounts@.last() == after.mounts@[after.mounts@.len() - 1]);
        }
    }
}

/// Calls are taken over, or waited for further, in their order.
pub proof fn law_calls_keep_their_order(ops: Seq<PluginOp>, op: PluginOp)
    ensures
        op.result is Pending ==> still_pending(ops.push(op)) == still_pending(ops).push(op.ticket)
            && came_back(ops.push(op)) == came_back(ops),
        !(op.result is Pending) ==> came_back(ops.push(op)) == came_back(ops).push(op)
            && still_pending(ops.push(op)) == still_pending(ops),
        still_pending(seq![]) == Seq::<u64>::empty() && came_back(seq![])
            == Seq::<PluginOp>::empty(),
{
    assert(ops.push(op).drop_last() =~= ops);
}

/// Clicks in the list of plugins do what they say: each plugin whose memory is to be
/// wiped is listed in order, and plugins are read again where one click asks for it.
pub proof fn law_plugin_clicks_are_followed(
    before: HxyApp,
    events: Seq<PluginsEvent>,
    r: PluginsStep,
    after: HxyApp,
    i: int,
    event: PluginsEvent,
)
    requires
        plugin_events_taken(before, events, r, after),
        0 <= i < events.len(),
    ensures
        events[i] is Rescan ==> after.plugin_rescan,
        events[i] is SetGrant ==> r.grants_changed,
        events[i] is RequestPatternsDownload ==> r.download,
        (forall|k: int| 0 <= k < events.len() ==> !((#[trigger] events[k]) is SetGrant))
            ==> !r.grants_changed,
        (forall|k: int| 0 <= k < events.len() ==> !((#[trigger] events[k]) is Rescan))
            ==> after.plugin_rescan == before.plugin_rescan,
        (forall|k: int|
            0 <= k < events.len() ==> !((#[trigger] events[k]) is RequestPatternsDownload))
            ==> !r.download,
        event matches PluginsEvent::WipeState { plugin_name } ==> wiped(events.push(event))
            == wiped(events).push(plugin_name),
        !(event is WipeState) ==> wiped(events.push(event)) == wiped(events),
        r.wipe@ == wiped(events) && after.files == before.files,
{
    assert(events.push(event).drop_last() =~= events);
}

/// The steps of removing a plugin come in their order: it is read, its component and its
/// manifest go, its grants are forgotten where it could be read, and its memory is
/// cleared.
pub proof fn law_removal_goes_in_order(done: RemovalReport, has_manifest: bool, r: Option<RemovalStep>)
    requires
        step_next(done, has_manifest, r),
    ensures
        done.read is None ==> r == Some(RemovalStep::Read),
        done.read is Some && done.component is None ==> r == Some(RemovalStep::RemoveComponent),
        done.read is Some && done.component is Some && has_manifest && done.manifest is None ==> r
            == Some(RemovalStep::RemoveManifest),
        r == Some(RemovalStep::RemoveManifest) ==> has_manifest,
        r == Some(RemovalStep::ForgetGrants) ==> (done.read matches Some(o) && o is Done),
        (done.read matches Some(o) && o is Done) && done.component is Some && (!has_manifest
            || done.manifest is Some) && done.grants is None ==> r == Some(
            RemovalStep::ForgetGrants,
        ),
        r is None ==> done.read is Some && done.component is Some && done.memory is Some && (
        has_manifest ==> done.manifest is Some),
{
    let steps = all_steps();
    assert(steps.len() == 5);
    assert(steps[0] is Read && steps[1] is RemoveComponent && steps[2] is RemoveManifest && steps[3]
        is ForgetGrants && steps[4] is ClearMemory);
    if r is None {
        assert(!step_due(done, has_manifest, steps[0]));
        assert(!step_due(done, has_manifest, steps[1]));
        assert(!step_due(done, has_manifest, steps[2]));
        assert(!step_due(done, has_manifest, steps[3]));
        assert(!step_due(done, has_manifest, steps[4]));
    } else {
        let step = r->0;
        let k = choose|k: int|
            0 <= k < all_steps().len() && #[trigger] all_steps()[k] == step && step_due(
                done,
                has_manifest,
                step,
            ) && forall|j: int|
                0 <= j < k ==> !step_due(done, has_manifest, #[trigger] all_steps()[j]);
        assert(k > 0 ==> !step_due(done, has_manifest, steps[0]));
        assert(k > 1 ==> !step_due(done, has_manifest, steps[1]));
        assert(k > 2 ==> !step_due(done, has_manifest, steps[2]));
        assert(k > 3 ==> !step_due(done, has_manifest, steps[3]));
    }
}

/// Installing tells of every file: copied ones and those that were there as good, those
/// that were not found as warnings, those that could not be copied as errors.
pub proof fn law_install_tells_of_every_file(report: InstallReport, i: int)
    ensures
        install_lines(report).len() == report.copied@.len() + report.existing@.len()
            + report.missing@.len() + report.errors@.len(),
        0 <= i < report.copied@.len() ==> install_lines(report)[i] == (
            ConsoleSeverity::Info,
            "installed "@ + report.copied@[i]@,
        ),
        0 <= i < report.existing@.len() ==> install_lines(report)[report.copied@.len() + i] == (
            ConsoleSeverity::Info,
            "already present: "@ + report.existing@[i]@,
        ),
        0 <= i < report.missing@.len() ==> install_lines(report)[report.copied@.len()
            + report.existing@.len() + i].0 is Warning,
        0 <= i < report.errors@.len() ==> install_lines(report)[report.copied@.len()
            + report.existing@.len() + report.missing@.len() + i] == (
            ConsoleSeverity::Error,
            "copy "@ + report.errors@[i].0@ + " failed: "@ + report.errors@[i].1@,
        ),
{
}

/// A template that was removed lets what is installed be looked for anew; one that could
/// not be is told as an error, and nothing is looked for.
pub proof fn law_removed_template_is_told(
    before: HxyApp,
    path: Seq<char>,
    removed: Result<(), String>,
    r: Option<SplitRequest>,
    after: HxyApp,
)
    requires
        template_removal_told(before, path, removed, r, after),
    ensures
        removed is Ok ==> after.plugin_rescan && after.console@.last().severity is Info,
        removed matches Err(e) ==> after.plugin_rescan == before.plugin_rescan
            && after.console@.last().severity is Error && after.console@.last().message@
            == "delete failed: "@ + e@,
        after.console@.len() > 0 && after.console@.last().context@ == "Uninstall "@ + path,
        after.files == before.files,
{
}

/// Removing a plugin tells what went wrong with its reason, as an error only where the
/// plugin itself is still there, and what is gone. Of steps that were not done, and of
/// grants that were forgotten, nothing is told.
pub proof fn law_removal_tells_what_went_wrong(report: RemovalReport)
    ensures
        report.component matches Some(StepOutcome::Failed(e)) ==> removal_lines(report).contains(
            (ConsoleSeverity::Error, "remove component: "@ + e@),
        ),
        (report.component matches Some(StepOutcome::Done)) ==> removal_lines(report).contains(
            (ConsoleSeverity::Info, "removed component"@),
        ),
        report.memory matches Some(StepOutcome::Failed(e)) ==> removal_lines(report).contains(
            (ConsoleSeverity::Warning, "clear persisted state: "@ + e@),
        ),
        report.read is None && report.component is None && report.manifest is None && report.grants
            is None && report.memory is None ==> removal_lines(report).len() == 0,
        removal_lines(report).len() <= 5,
{
    let lines = removal_lines(report);
    match report.component {
        Some(StepOutcome::Failed(e)) => {
            let at = if report.read is Some && report.read->0 is Failed {
                1int
            } else {
                0int
            };
            assert(lines[at] == (ConsoleSeverity::Error, "remove component: "@ + e@));
        },
        Some(StepOutcome::Done) => {
            let at = if report.read is Some && report.read->0 is Failed {
                1int
            } else {
                0int
            };
            assert(lines[at] == (ConsoleSeverity::Info, "removed component"@));
        },
        _ => {},
    }
    match report.memory {
        Some(StepOutcome::Failed(e)) => {
            assert(lines.last() == (ConsoleSeverity::Warning, "clear persisted state: "@ + e@));
            assert(lines[lines.len() - 1] == lines.last());
        },
        _ => {},
    }
}

/// Calls that came back are finished one after the other, each on what the one before
/// it left; those that did not are waited for further.
pub proof fn law_calls_are_finished_in_turn(
    before: HxyApp,
    ops: Seq<PluginOp>,
    r: Drained,
    after: HxyApp,
)
    requires
        drained_to(before, ops, r, after),
    ensures
        r.done@.len() == came_back(ops).len(),
        r.waiting@ == still_pending(ops),
        came_back(ops).len() == 0 ==> after == before,
        came_back(ops).len() == 1 ==> exists|mid: HxyApp|
            #[trigger] op_finished(before, came_back(ops)[0], r.done@[0], mid, after),
{
    let (states, mids) = choose|states: Seq<HxyApp>, mids: Seq<HxyApp>| #[trigger]
        ops_finished(states, mids, came_back(ops), r.done@) && states[0] == before && states.last()
            == after;
    if came_back(ops).len() == 1 {
        let k: int = 0;
        assert(op_finished(states[k], came_back(ops)[k], r.done@[k], mids[k], states[k + 1]));
        assert(states[k + 1] == states.last());
    }
}

} // verus!
