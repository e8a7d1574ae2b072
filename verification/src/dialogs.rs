//! The answers to the questions that the editor asks: about files that are
//! open twice, patterns to download, entries that are gone, changes on disk,
//! and edits of an earlier run.

use vstd::prelude::*;
use vstd::string::*;
use crate::active::file_replaced;
use crate::closing::close_file_tab_by_id;
#[allow(unused_imports)]
use crate::closing::file_closed;
use crate::console::ConsoleSeverity;
use crate::dock_ops::SplitRequest;
use crate::kept_edits::{lay_over, KeptEdits};
#[allow(unused_imports)]
use crate::kept_edits::edits_laid;
#[allow(unused_imports)]
use crate::panels::message_logged;
use crate::reload::ReloadDecision;
#[allow(unused_imports)]
use crate::reload::reload_context;
use crate::session::{
    find_file, find_file_by_source, focus_file_tab, HxyApp, OpenFile, PendingDuplicate,
};
#[allow(unused_imports)]
use crate::session::{file_at, file_focused, file_with_source};
use crate::settings::{AppSettings, AutoReload};
#[allow(unused_imports)]
use crate::settings::pref_set;
use crate::source::TabSource;
#[allow(unused_imports)]
use crate::source::SourceView;
use crate::tabs::FileId;
use crate::text::join2;
use crate::watching::{current_mode, WatchPlan};
#[allow(unused_imports)]
use crate::watching::{file_key, mode_for, watch_refreshed, watches_nothing};

verus! {

/// What becomes of a request for a file that is open.
#[derive(Clone, Copy, Debug, PartialEq, Eq, Structural)]
pub enum DuplicateAction {
    /// Its tab comes to the front.
    Focus,
    /// It is opened a second time.
    OpenNewTab,
    Cancel,
}

/// The editor without the question about a file that is open.
pub open spec fn duplicate_settled(app: HxyApp) -> HxyApp {
    HxyApp { pending_duplicate: None, ..app }
}

/// Whether the answer about a file that is open was taken.
pub open spec fn duplicate_answered(
    before: HxyApp,
    action: DuplicateAction,
    r: Option<PendingDuplicate>,
    after: HxyApp,
) -> bool {
    &&& match before.pending_duplicate {
        Some(pending) => match action {
            DuplicateAction::Focus => r is None && file_focused(
                duplicate_settled(before),
                pending.existing,
                after,
            ),
            DuplicateAction::OpenNewTab => r == Some(pending) && after
                == duplicate_settled(before),
            DuplicateAction::Cancel => r is None && after == duplicate_settled(before),
        },
        None => r is None && after == before,
    }
}

/// Takes the answer about a file that is open. Returns the request where it is
/// to be opened a second time.
pub fn answer_duplicate(app: &mut HxyApp, action: DuplicateAction) -> (r: Option<PendingDuplicate>)
    requires
        old(app).wf(),
    ensures
        final(app).wf(),
        duplicate_answered(*old(app), action, r, *final(app)),
{
    let pending = match app.pending_duplicate.take() {
        Some(p) => p,
        None => return None,
    };
    match action {
        DuplicateAction::Focus => {
            focus_file_tab(app, pending.existing);
            None
        },
        DuplicateAction::OpenNewTab => Some(pending),
        DuplicateAction::Cancel => None,
    }
}

/// The answer to the offer to download patterns.
#[derive(Clone, Copy, Debug, PartialEq, Eq, Structural)]
pub enum PatternsAnswer {
    Download,
    /// It is asked again at the next start.
    NotNow,
    /// It is never asked again.
    DontAsk,
}

/// What the answer to the offer to download patterns asks for.
#[derive(Clone, Copy, Debug, PartialEq, Eq, Structural)]
pub struct PatternsDecision {
    pub download: bool,
    /// Whether it is to be remembered that the user declined.
    pub declined: bool,
}

/// Whether the answer to the offer to download patterns was taken.
pub open spec fn patterns_answered(
    before: HxyApp,
    answer: PatternsAnswer,
    r: PatternsDecision,
    after: HxyApp,
) -> bool {
    &&& after == (HxyApp { patterns_prompt: false, ..before })
    &&& r.download == (before.patterns_prompt && answer is Download)
    &&& r.declined == (before.patterns_prompt && answer is DontAsk)
}

/// Takes the answer to the offer to download patterns.
pub fn answer_patterns(app: &mut HxyApp, answer: PatternsAnswer) -> (r: PatternsDecision)
    requires
        old(app).wf(),
    ensures
        final(app).wf(),
        patterns_answered(*old(app), answer, r, *final(app)),
{
    let asked = app.patterns_prompt;
    app.patterns_prompt = false;
    PatternsDecision {
        download: asked && answer == PatternsAnswer::Download,
        declined: asked && answer == PatternsAnswer::DontAsk,
    }
}

/// How far a download of patterns has come.
pub enum FetchStatus {
    Progress { downloaded: u64 },
    Success { hash: String },
    Failed { message: String },
}

/// The download of patterns.
pub struct PatternFetch {
    pub running: bool,
    /// How much of it is there.
    pub downloaded: Option<u64>,
    /// Whether a download was asked for.
    pub requested: bool,
    /// What tells the patterns that are installed.
    pub installed_hash: Option<String>,
    /// When patterns were last looked for, in seconds.
    pub last_check: Option<i64>,
}

/// What the user is told of the download of patterns.
pub enum FetchNotice {
    Started,
    /// There is no place to put them.
    NoPlace,
    Done,
    Failed { message: String },
}

/// Whether a download of patterns was started, unless one was running.
pub open spec fn download_begun(
    before: PatternFetch,
    started: bool,
    r: Option<FetchNotice>,
    after: PatternFetch,
) -> bool {
    &&& if before.running {
        r is None && after == before
    } else if started {
        (r matches Some(FetchNotice::Started)) && after == (PatternFetch {
            running: true,
            ..before
        })
    } else {
        (r matches Some(FetchNotice::NoPlace)) && after == before
    }
}

/// Starts a download of patterns unless one is running. `started` tells whether
/// there is a place to put them, so that it could start.
pub fn kick_off_pattern_download(fetch: &mut PatternFetch, started: bool) -> (r: Option<
    FetchNotice,
>)
    ensures
        download_begun(*old(fetch), started, r, *final(fetch)),
{
    if fetch.running {
        return None;
    }
    if started {
        fetch.running = true;
        Some(FetchNotice::Started)
    } else {
        Some(FetchNotice::NoPlace)
    }
}

/// Whether the latest news of a download of patterns was taken.
pub open spec fn fetch_pumped(
    before: PatternFetch,
    status: Option<FetchStatus>,
    now: i64,
    r: (Option<FetchNotice>, bool),
    after: PatternFetch,
) -> bool {
    &&& if !before.running {
        r.0 is None && !r.1 && after == (PatternFetch {
            downloaded: None,
            ..before
        })
    } else {
        match status {
            None => r.0 is None && !r.1 && after == before,
            Some(FetchStatus::Progress { downloaded }) => r.0 is None && !r.1 && after
                == (PatternFetch { downloaded: Some(downloaded), ..before }),
            Some(FetchStatus::Success { hash }) => (r.0 matches Some(FetchNotice::Done)) && r.1
                && after == (PatternFetch {
                running: false,
                downloaded: None,
                installed_hash: Some(hash),
                last_check: Some(now),
                ..before
            }),
            Some(FetchStatus::Failed { message }) => r.0 == Some(
                FetchNotice::Failed { message },
            ) && !r.1 && after == (PatternFetch {
                running: false,
                downloaded: None,
                ..before
            }),
        }
    }
}

/// Takes the latest news of a download of patterns. Once it is over, the hash
/// of what was installed and the time are remembered, or the failure is told.
/// Returns what the user is told, and whether the templates are to be read
/// again.
pub fn pump_pattern_fetch(fetch: &mut PatternFetch, status: Option<FetchStatus>, now: i64) -> (r: (
    Option<FetchNotice>,
    bool,
))
    ensures
        fetch_pumped(*old(fetch), status, now, r, *final(fetch)),
{
    if !fetch.running {
        fetch.downloaded = None;
        return (None, false);
    }
    match status {
        None => (None, false),
        Some(FetchStatus::Progress { downloaded }) => {
            fetch.downloaded = Some(downloaded);
            (None, false)
        },
        Some(FetchStatus::Success { hash }) => {
            fetch.running = false;
            fetch.downloaded = None;
            fetch.installed_hash = Some(hash);
            fetch.last_check = Some(now);
            (Some(FetchNotice::Done), true)
        },
        Some(FetchStatus::Failed { message }) => {
            fetch.running = false;
            fetch.downloaded = None;
            (Some(FetchNotice::Failed { message }), false)
        },
    }
}

/// What becomes of the tab of an entry that is gone.
#[derive(Clone, Copy, Debug, PartialEq, Eq, Structural)]
pub enum OrphanAction {
    Close,
    Keep,
}

/// The editor without the first question about an entry that is gone.
pub open spec fn orphan_settled(before: HxyApp, after: HxyApp) -> bool {
    &&& after == (HxyApp { pending_orphans: after.pending_orphans, ..before })
    &&& before.pending_orphans@.len() > 0
    &&& after.pending_orphans@ == before.pending_orphans@.drop_first()
}

/// Whether one editor is another after the answer about the first entry that is
/// gone.
pub open spec fn orphan_answered(
    before: HxyApp,
    action: OrphanAction,
    mid: HxyApp,
    after: HxyApp,
) -> bool {
    &&& orphan_settled(before, mid)
    &&& match action {
        OrphanAction::Close => file_closed(mid, before.pending_orphans@[0].file_id, after),
        OrphanAction::Keep => after == mid,
    }
}

/// Whether the answer about the first entry that is gone was taken.
pub open spec fn orphan_decided(
    before: HxyApp,
    action: OrphanAction,
    after: HxyApp,
) -> bool {
    &&& before.pending_orphans@.len() == 0 ==> after == before
    &&& before.pending_orphans@.len() > 0 ==> exists|mid: HxyApp| #[trigger]
        orphan_answered(before, action, mid, after)
}

/// Takes the answer about the first entry that is gone.
pub fn answer_orphan(app: &mut HxyApp, action: OrphanAction)
    requires
        old(app).wf(),
    ensures
        final(app).wf(),
        orphan_decided(*old(app), action, *final(app)),
{
    if app.pending_orphans.len() == 0 {
        return;
    }
    let orphan = app.pending_orphans.remove(0);
    assert(app.pending_orphans@ =~= old(app).pending_orphans@.drop_first());
    let ghost mid = *app;
    assert(orphan_settled(*old(app), mid));
    if action == OrphanAction::Close {
        close_file_tab_by_id(app, orphan.file_id);
    }
    assert(orphan_answered(*old(app), action, mid, *app));
}

/// How a file changed on disk.
#[derive(Clone, Copy, Debug, PartialEq, Eq, Structural)]
pub enum ExternalChangeKind {
    Modified,
    Removed,
}

/// A file that changed on disk and is asked about.
pub struct PendingReload {
    pub file_id: FileId,
    pub path: String,
    pub kind: ExternalChangeKind,
    pub has_unsaved: bool,
}

/// What a change on disk leads to.
pub enum ChangeStep {
    Nothing,
    /// The file is read again.
    Reload(FileId),
    /// The user is asked.
    Ask(PendingReload),
}

/// Whether a file is asked about already.
pub open spec fn asked_about(waiting: Seq<PendingReload>, id: FileId) -> bool {
    exists|i: int| 0 <= i < waiting.len() && (#[trigger] waiting[i]).file_id == id
}

fn is_asked_about(waiting: &Vec<PendingReload>, id: FileId) -> (r: bool)
    ensures
        r == asked_about(waiting@, id),
{
    let mut i: usize = 0;
    while i < waiting.len()
        invariant
            i <= waiting@.len(),
            forall|j: int| 0 <= j < i ==> (#[trigger] waiting@[j]).file_id != id,
        decreases waiting.len() - i,
    {
        if waiting[i].file_id == id {
            return true;
        }
        i = i + 1;
    }
    false
}

/// Whether a step is what a change of a file on disk leads to. A file that is never
/// to be read again is left alone, and one that always is is read again where that
/// loses nothing. Otherwise the user is asked, once.
pub open spec fn change_noticed(
    app: HxyApp,
    i: int,
    path: Seq<char>,
    kind: ExternalChangeKind,
    waiting: Seq<PendingReload>,
    step: ChangeStep,
) -> bool {
    let file = app.files@[i];
    let unsaved = file.editor.spec_is_dirty();
    match mode_for(app, file.id) {
        AutoReload::Never => step is Nothing,
        mode => if mode is Always && kind is Modified && !unsaved {
            step == ChangeStep::Reload(file.id)
        } else if asked_about(waiting, file.id) {
            step is Nothing
        } else {
            step matches ChangeStep::Ask(p) && p.file_id == file.id && p.path@ == path && p.kind
                == kind && p.has_unsaved == unsaved
        },
    }
}

/// Whether a step is what a change on disk leads to.
pub open spec fn change_decided(
    app: HxyApp,
    path: Seq<char>,
    kind: ExternalChangeKind,
    waiting: Seq<PendingReload>,
    r: ChangeStep,
) -> bool {
    &&& match file_with_source(app.files@, SourceView::Filesystem(path)) {
        Some(i) => change_noticed(app, i, path, kind, waiting, r),
        None => r is Nothing,
    }
}

/// Decides what a change on disk leads to. `waiting` are the files that are asked
/// about already.
pub fn notice_change(
    app: &HxyApp,
    path: String,
    kind: ExternalChangeKind,
    waiting: &Vec<PendingReload>,
) -> (r: ChangeStep)
    ensures
        change_decided(*app, path@, kind, waiting@, r),
{
    let source = TabSource::Filesystem(path.clone());
    let i = match find_file_by_source(&app.files, &source) {
        Some(i) => i,
        None => return ChangeStep::Nothing,
    };
    let file_id = app.files[i].id;
    let has_unsaved = app.files[i].editor.is_dirty();
    let mode = current_mode(app, file_id);
    if mode == AutoReload::Never {
        return ChangeStep::Nothing;
    }
    if mode == AutoReload::Always && kind == ExternalChangeKind::Modified && !has_unsaved {
        return ChangeStep::Reload(file_id);
    }
    if is_asked_about(waiting, file_id) {
        return ChangeStep::Nothing;
    }
    ChangeStep::Ask(PendingReload { file_id, path, kind, has_unsaved })
}

/// No unsaved edit is lost to a change on disk without asking.
pub proof fn law_edits_outlive_changes(
    app: HxyApp,
    i: int,
    path: Seq<char>,
    kind: ExternalChangeKind,
    waiting: Seq<PendingReload>,
    step: ChangeStep,
)
    requires
        change_noticed(app, i, path, kind, waiting, step),
        app.files@[i].editor.spec_is_dirty(),
    ensures
        !(step is Reload),
{
}

/// The key of the text that tells how a file changed.
pub fn reload_body_key(kind: ExternalChangeKind) -> (r: &'static str)
    ensures
        r@ == match kind {
            ExternalChangeKind::Modified => "reload-prompt-body-modified"@,
            ExternalChangeKind::Removed => "reload-prompt-body-removed"@,
        },
{
    match kind {
        ExternalChangeKind::Modified => "reload-prompt-body-modified",
        ExternalChangeKind::Removed => "reload-prompt-body-removed",
    }
}

/// The choice that an answer stands for if it is to hold from now on: reading
/// the file again without asking, or leaving it alone. To keep edits is no such
/// choice.
pub open spec fn remembered_mode(decision: ReloadDecision) -> Option<AutoReload> {
    match decision {
        ReloadDecision::DiscardEdits => Some(AutoReload::Always),
        ReloadDecision::Ignore => Some(AutoReload::Never),
        ReloadDecision::KeepEdits => None,
    }
}

/// Whether one editor is another in which the answer about a file that changed
/// on disk is remembered. An answer that is no choice takes back what was
/// chosen for the file's path.
pub open spec fn answer_remembered(
    before: HxyApp,
    pending: PendingReload,
    decision: ReloadDecision,
    plan: WatchPlan,
    after: HxyApp,
) -> bool {
    let key = match remembered_mode(decision) {
        Some(_) => file_key(before, pending.file_id),
        None => Some(pending.path@),
    };
    match key {
        None => after == before && watches_nothing(plan),
        Some(k) => {
            &&& after == (HxyApp { settings: after.settings, ..before })
            &&& after.settings == (AppSettings {
                watch_prefs: after.settings.watch_prefs,
                ..before.settings
            })
            &&& pref_set(
                before.settings.watch_prefs@,
                k,
                match remembered_mode(decision) {
                    Some(mode) => if mode == before.settings.auto_reload {
                        None
                    } else {
                        Some(mode)
                    },
                    None => None,
                },
                after.settings.watch_prefs@,
            )
            &&& match remembered_mode(decision) {
                Some(_) => watch_refreshed(after, pending.file_id, plan),
                None => watches_nothing(plan),
            }
        },
    }
}

fn remember_answer(app: &mut HxyApp, pending: &PendingReload, decision: ReloadDecision) -> (r:
    WatchPlan)
    requires
        old(app).wf(),
    ensures
        final(app).wf(),
        answer_remembered(*old(app), *pending, decision, r, *final(app)),
{
    match decision {
        ReloadDecision::DiscardEdits => app.set_file_watch_pref(
            pending.file_id,
            AutoReload::Always,
        ),
        ReloadDecision::Ignore => app.set_file_watch_pref(pending.file_id, AutoReload::Never),
        ReloadDecision::KeepEdits => {
            app.settings.set_auto_reload_for(pending.path.clone(), None);
            WatchPlan { watch_path: None, poll: false, unwatch_path: None, stop_polling: false }
        },
    }
}

/// What the answer about a file that changed on disk asks for.
pub struct ReloadStep {
    pub plan: WatchPlan,
    /// Whether the file is to be read again.
    pub reload: Option<FileId>,
    /// Whether the change is to count as seen.
    pub mark_seen: bool,
    pub split: Option<SplitRequest>,
}

/// Whether one editor is another after the answer about a file that changed on
/// disk: it is remembered where that is wanted, and a change that is ignored is
/// told.
pub open spec fn reload_answered(
    before: HxyApp,
    pending: PendingReload,
    decision: ReloadDecision,
    remember: bool,
    r: ReloadStep,
    mid: HxyApp,
    after: HxyApp,
) -> bool {
    &&& if remember {
        answer_remembered(before, pending, decision, r.plan, mid)
    } else {
        mid == before && watches_nothing(r.plan)
    }
    &&& if decision is Ignore {
        r.reload is None && r.mark_seen && message_logged(
            mid,
            ConsoleSeverity::Info,
            reload_context(pending.path@),
            "ignored disk change; in-memory bytes unchanged"@,
            r.split,
            after,
        )
    } else {
        r.reload == Some(pending.file_id) && !r.mark_seen && r.split is None && after == mid
    }
}

/// Takes the answer about a file that changed on disk.
pub fn answer_reload(
    app: &mut HxyApp,
    pending: PendingReload,
    decision: ReloadDecision,
    remember: bool,
) -> (r: ReloadStep)
    requires
        old(app).wf(),
    ensures
        final(app).wf(),
        exists|mid: HxyApp| #[trigger]
            reload_answered(*old(app), pending, decision, remember, r, mid, *final(app)),
{
    let plan = if remember {
        remember_answer(app, &pending, decision)
    } else {
        WatchPlan { watch_path: None, poll: false, unwatch_path: None, stop_polling: false }
    };
    let ghost mid = *app;
    if decision == ReloadDecision::Ignore {
        let context = join2("Reload ", pending.path.as_str());
        let split = app.console_log(
            ConsoleSeverity::Info,
            context,
            "ignored disk change; in-memory bytes unchanged".to_owned(),
        );
        let r = ReloadStep { plan, reload: None, mark_seen: true, split };
        assert(reload_answered(*old(app), pending, decision, remember, r, mid, *app));
        r
    } else {
        let r = ReloadStep {
            plan,
            reload: Some(pending.file_id),
            mark_seen: false,
            split: None,
        };
        assert(reload_answered(*old(app), pending, decision, remember, r, mid, *app));
        r
    }
}

/// Whether the edits of an earlier run fit the file on disk.
#[derive(Clone, Copy, Debug, PartialEq, Eq, Structural)]
pub enum RestoreIntegrity {
    Clean,
    /// The file changed in between.
    Modified,
    Unknown,
}

/// What becomes of the edits of an earlier run.
#[derive(Clone, Copy, Debug, PartialEq, Eq, Structural)]
pub enum RestoreAction {
    Restore,
    Discard,
}

/// Whether one file is another over which the edits of an earlier run were laid;
/// it accepts edits from now on.
pub open spec fn edits_restored(a: OpenFile, kept: KeptEdits, b: OpenFile) -> bool {
    &&& b == (OpenFile { editor: b.editor, ..a })
    &&& edits_laid(a.editor, kept, b.editor)
}

/// What is told once edits of an earlier run were taken over, or were not
/// because the file is not what they were made in.
pub open spec fn restore_line(
    integrity: RestoreIntegrity,
    verified: Result<(), String>,
) -> (ConsoleSeverity, Seq<char>) {
    match (integrity, verified) {
        (RestoreIntegrity::Clean, Err(e)) => (
            ConsoleSeverity::Warning,
            "source verification failed; not restoring: "@ + e@,
        ),
        (RestoreIntegrity::Clean, Ok(_)) => (ConsoleSeverity::Info, "restored unsaved edits"@),
        _ => (
            ConsoleSeverity::Warning,
            "restored unsaved edits onto a file whose on-disk state has changed"@,
        ),
    }
}

/// Whether the edits of an earlier run are taken over: with a file that seems
/// unchanged only if its bytes prove to be.
pub open spec fn restore_accepted(integrity: RestoreIntegrity, verified: Result<(), String>) -> bool {
    !(integrity is Clean) || verified is Ok
}

/// Whether one editor is another after the answer about the edits of an earlier
/// run.
pub open spec fn restore_answered(
    before: HxyApp,
    i: int,
    path: Seq<char>,
    integrity: RestoreIntegrity,
    verified: Result<(), String>,
    kept: KeptEdits,
    split: Option<SplitRequest>,
    mid: HxyApp,
    after: HxyApp,
) -> bool {
    &&& if restore_accepted(integrity, verified) {
        file_replaced(before, i, mid) && edits_restored(before.files@[i], kept, mid.files@[i])
    } else {
        mid == before
    }
    &&& message_logged(
        mid,
        restore_line(integrity, verified).0,
        "Restore "@ + path,
        restore_line(integrity, verified).1,
        split,
        after,
    )
}

fn restore_message(integrity: RestoreIntegrity, verified: &Result<(), String>) -> (r: (
    ConsoleSeverity,
    String,
))
    ensures
        r.0 == restore_line(integrity, *verified).0,
        r.1@ == restore_line(integrity, *verified).1,
{
    if integrity == RestoreIntegrity::Clean {
        match verified {
            Ok(_) => (ConsoleSeverity::Info, "restored unsaved edits".to_owned()),
            Err(e) => (
                ConsoleSeverity::Warning,
                join2("source verification failed; not restoring: ", e.as_str()),
            ),
        }
    } else {
        (
            ConsoleSeverity::Warning,
            "restored unsaved edits onto a file whose on-disk state has changed".to_owned(),
        )
    }
}

fn take_edits(app: &mut HxyApp, i: usize, kept: KeptEdits)
    requires
        old(app).wf(),
        i < old(app).files@.len(),
    ensures
        final(app).wf(),
        file_replaced(*old(app), i as int, *final(app)),
        edits_restored(old(app).files@[i as int], kept, final(app).files@[i as int]),
{
    lay_over(&mut app.files[i].editor, kept);
    assert(app.files@ =~= old(app).files@.update(i as int, app.files@[i as int]));
}

/// Whether the answer about the edits of an earlier run was taken.
pub open spec fn restore_decided(
    before: HxyApp,
    file_id: FileId,
    path: Seq<char>,
    integrity: RestoreIntegrity,
    verified: Result<(), String>,
    kept: KeptEdits,
    action: RestoreAction,
    r: Option<SplitRequest>,
    after: HxyApp,
) -> bool {
    &&& match (action, file_at(before.files@, file_id)) {
        (RestoreAction::Restore, Some(i)) => exists|mid: HxyApp| #[trigger]
            restore_answered(
                before,
                i,
                path,
                integrity,
                verified,
                kept,
                r,
                mid,
                after,
            ),
        _ => r is None && after == before,
    }
}

/// Takes the answer about the edits of an earlier run. `verified` tells whether
/// the file's bytes are those that the edits were made in.
#[verifier::rlimit(40)]
pub fn answer_restore(
    app: &mut HxyApp,
    file_id: FileId,
    path: String,
    integrity: RestoreIntegrity,
    verified: Result<(), String>,
    kept: KeptEdits,
    action: RestoreAction,
) -> (r: Option<SplitRequest>)
    requires
        old(app).wf(),
    ensures
        final(app).wf(),
        restore_decided(*old(app), file_id, path@, integrity, verified, kept, action, r, *final(app)),
{
    if action == RestoreAction::Discard {
        return None;
    }
    let i = match find_file(&app.files, file_id) {
        Some(i) => i,
        None => return None,
    };
    let (severity, message) = restore_message(integrity, &verified);
    let ghost all = kept;
    if integrity != RestoreIntegrity::Clean || verified.is_ok() {
        take_edits(app, i, kept);
    }
    let ghost mid = *app;
    let context = join2("Restore ", path.as_str());
    let split = app.console_log(severity, context, message);
    assert(restore_answered(
        *old(app),
        i as int,
        path@,
        integrity,
        verified,
        all,
        split,
        mid,
        *app,
    ));
    split
}

/// A file that is open is brought to the front, or handed back to be opened a second
/// time, or left alone, as the answer says; the question is gone.
pub proof fn law_duplicate_answer_is_followed(
    before: HxyApp,
    action: DuplicateAction,
    r: Option<PendingDuplicate>,
    after: HxyApp,
    pending: PendingDuplicate,
)
    requires
        before.pending_duplicate == Some(pending),
        duplicate_answered(before, action, r, after),
    ensures
        action is OpenNewTab <==> r is Some,
        r matches Some(p) ==> p == pending,
        after.pending_duplicate is None && after.files == before.files,
        action is Cancel || action is OpenNewTab ==> after.dock == before.dock,
        action is Focus && before.dock@.holds(
            crate::tabs::DockTab::Outer(crate::tabs::Tab::File(pending.existing)),
        ) && before.dock@.find(
            crate::tabs::DockTab::Outer(crate::tabs::Tab::File(pending.existing)),
        ) is Some ==> crate::session::active_file(after) == Some(pending.existing),
{
    if action is Focus && before.dock@.holds(
        crate::tabs::DockTab::Outer(crate::tabs::Tab::File(pending.existing)),
    ) && before.dock@.find(crate::tabs::DockTab::Outer(crate::tabs::Tab::File(pending.existing)))
        is Some {
        crate::session::law_focused_file_becomes_active(
            duplicate_settled(before),
            pending.existing,
            after,
        );
    }
}

/// Patterns are downloaded only where the user was asked and said so, and it is
/// remembered that they were declined only where the user does not want to be asked.
pub proof fn law_patterns_answer_is_followed(
    before: HxyApp,
    answer: PatternsAnswer,
    r: PatternsDecision,
    after: HxyApp,
)
    requires
        patterns_answered(before, answer, r, after),
    ensures
        !before.patterns_prompt ==> !r.download && !r.declined,
        before.patterns_prompt ==> (r.download <==> answer is Download) && (r.declined <==> answer
            is DontAsk),
        !after.patterns_prompt && after.files == before.files,
{
}

/// While a download runs none is started. One that ends well leaves its hash and the
/// time behind and lets the templates be read again; one that fails leaves what was
/// installed as it was and is told.
pub proof fn law_download_ends_once(
    before: PatternFetch,
    started: bool,
    notice: Option<FetchNotice>,
    begun: PatternFetch,
    status: Option<FetchStatus>,
    now: i64,
    r: (Option<FetchNotice>, bool),
    after: PatternFetch,
)
    requires
        download_begun(before, started, notice, begun),
        fetch_pumped(before, status, now, r, after),
    ensures
        before.running ==> notice is None && begun == before,
        !before.running && started ==> begun.running && (notice matches Some(FetchNotice::Started)),
        !before.running && !started ==> !begun.running && (notice matches Some(
            FetchNotice::NoPlace,
        )),
        begun.installed_hash == before.installed_hash,
        !before.running ==> r.0 is None && !r.1 && after.installed_hash == before.installed_hash,
        before.running ==> {
            &&& status matches Some(FetchStatus::Success { hash }) ==> !after.running
                && after.installed_hash == Some(hash) && after.last_check == Some(now) && r.1 && (
            r.0 matches Some(FetchNotice::Done))
            &&& status matches Some(FetchStatus::Failed { message }) ==> !after.running
                && after.installed_hash == before.installed_hash && !r.1 && r.0 == Some(
                FetchNotice::Failed { message },
            )
            &&& status matches Some(FetchStatus::Progress { downloaded }) ==> after.running
                && after.downloaded == Some(downloaded) && r.0 is None && !r.1
            &&& status is None ==> after == before
        },
{
}

/// The first entry that is gone is decided about: closed, or kept as it is; the other
/// questions stay in order.
pub proof fn law_orphan_answer_is_followed(before: HxyApp, action: OrphanAction, after: HxyApp)
    requires
        before.wf(),
        before.pending_orphans@.len() > 0,
        orphan_decided(before, action, after),
    ensures
        after.pending_orphans@ == before.pending_orphans@.drop_first(),
        action is Keep ==> after.files == before.files && after.dock == before.dock,
        action is Close ==> !crate::closing::is_open(
            after.files@,
            before.pending_orphans@[0].file_id,
        ),
{
    let mid = choose|mid: HxyApp| #[trigger] orphan_answered(before, action, mid, after);
    if action is Close {
        crate::closing::law_closing_takes_one_file(
            mid,
            before.pending_orphans@[0].file_id,
            after,
            0,
        );
    }
}

/// A change on disk of a file that is not open leads to nothing. One that is never to be
/// read again is left alone; one that always is is read again where it only changed and
/// nothing of it is unsaved; any other is asked about, and only once.
pub proof fn law_changed_file_is_asked_about(
    app: HxyApp,
    path: Seq<char>,
    kind: ExternalChangeKind,
    waiting: Seq<PendingReload>,
    r: ChangeStep,
    i: int,
)
    requires
        change_decided(app, path, kind, waiting, r),
        0 <= i < app.files@.len(),
        app.files@[i].source is Some && app.files@[i].source->0@ == SourceView::Filesystem(path),
        forall|j: int|
            0 <= j < i ==> !((#[trigger] app.files@[j]).source is Some && app.files@[j].source->0@
                == SourceView::Filesystem(path)),
    ensures
        ({
            let file = app.files@[i];
            let mode = mode_for(app, file.id);
            let safe = mode is Always && kind is Modified && !file.editor.spec_is_dirty();
            let waits = exists|k: int|
                0 <= k < waiting.len() && (#[trigger] waiting[k]).file_id == file.id;
            &&& mode is Never ==> r is Nothing
            &&& safe <==> r == ChangeStep::Reload(file.id)
            &&& !(mode is Never) && !safe && waits ==> r is Nothing
            &&& !(mode is Never) && !safe && !waits ==> (r matches ChangeStep::Ask(p) && p.file_id
                == file.id && p.path@ == path && p.kind == kind && p.has_unsaved
                == file.editor.spec_is_dirty())
        }),
{
    crate::session::law_file_of_source_is_found(app.files@, SourceView::Filesystem(path));
    let k = file_with_source(app.files@, SourceView::Filesystem(path))->0;
    assert(k == i);
}

/// The answer about a changed file reads it again unless the change is ignored, and is
/// remembered only where that is wanted: a change that is ignored from now on is no
/// longer heard of, one that discards edits is taken over without asking.
pub proof fn law_reload_answer_is_followed(
    before: HxyApp,
    pending: PendingReload,
    decision: ReloadDecision,
    remember: bool,
    r: ReloadStep,
    mid: HxyApp,
    after: HxyApp,
)
    requires
        reload_answered(before, pending, decision, remember, r, mid, after),
    ensures
        decision is Ignore ==> r.reload is None && r.mark_seen,
        !(decision is Ignore) ==> r.reload == Some(pending.file_id) && !r.mark_seen,
        after.files == before.files,
        !remember ==> after.settings == before.settings,
        remember ==> (file_key(before, pending.file_id) matches Some(key) ==> {
            &&& decision is Ignore ==> after.settings.reload_mode(key) is Never
            &&& decision is DiscardEdits ==> after.settings.reload_mode(key) is Always
        }),
        remember && decision is KeepEdits ==> after.settings.reload_mode(pending.path@)
            == before.settings.auto_reload,
{
    if remember {
        if remembered_mode(decision) is Some {
            if file_key(before, pending.file_id) is Some {
                let key = file_key(before, pending.file_id)->0;
                crate::watching::law_watch_pref_holds(
                    before,
                    key,
                    remembered_mode(decision)->0,
                    mid,
                );
            }
        } else {
            crate::settings::law_pref_read_back(
                before.settings.watch_prefs@,
                pending.path@,
                None,
                mid.settings.watch_prefs@,
                pending.path@,
            );
        }
    }
}

/// The edits of an earlier run are laid over the file only where the user wants them, and
/// over a file that seems unchanged only where its bytes prove to be; otherwise the file
/// stays as it is.
pub proof fn law_restore_answer_is_followed(
    before: HxyApp,
    i: int,
    path: Seq<char>,
    integrity: RestoreIntegrity,
    verified: Result<(), String>,
    kept: KeptEdits,
    action: RestoreAction,
    r: Option<SplitRequest>,
    after: HxyApp,
)
    requires
        before.wf(),
        0 <= i < before.files@.len(),
        restore_decided(
            before,
            before.files@[i].id,
            path,
            integrity,
            verified,
            kept,
            action,
            r,
            after,
        ),
    ensures
        action is Discard ==> after == before,
        action is Restore && integrity is Clean && verified is Err ==> after.files == before.files,
        action is Restore && !(integrity is Clean && verified is Err) ==> edits_laid(
            before.files@[i].editor,
            kept,
            after.files@[i].editor,
        ) && after.files@[i].id == before.files@[i].id,
{
    crate::session::lemma_file_at(before.files@, before.files@[i].id, i);
    if action is Restore {
        let mid = choose|mid: HxyApp| #[trigger]
            restore_answered(before, i, path, integrity, verified, kept, r, mid, after);
        assert(after.files == mid.files);
    }
}

/// Restored edits are told as good only where the file is as it was; else they are told
/// with a warning. Where the file could not be checked, nothing was restored, and the
/// reason is told.
pub proof fn law_restored_edits_are_told(integrity: RestoreIntegrity, verified: Result<(), String>)
    ensures
        restore_line(integrity, verified).0 is Info <==> integrity is Clean && verified is Ok,
        !(restore_line(integrity, verified).0 is Info) ==> restore_line(integrity, verified).0
            is Warning,
        integrity is Clean ==> (verified matches Err(e) ==> restore_line(integrity, verified).1
            == "source verification failed; not restoring: "@ + e@),
{
}

} // verus!
