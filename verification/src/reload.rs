//! Reading files again after they changed on disk: the file itself, the
//! workspace around it, and the entries that are open in it.

use vstd::prelude::*;
use vstd::string::*;
use crate::active::file_replaced;
use crate::console::ConsoleSeverity;
use crate::dock_ops::SplitRequest;
use crate::editor::{copy_bytes, Edit, HexEditor};
#[allow(unused_imports)]
use crate::editor::{future_fits, law_splice_back, spliced, swapped_to};
#[allow(unused_imports)]
use crate::moves::tab_list;
#[allow(unused_imports)]
use crate::panels::message_logged;
#[allow(unused_imports)]
use crate::save::{patch_ops, unwound};
use crate::session::{
    find_file,
    find_workspace_of_file,
    HxyApp,
    OpenFile,
    PendingOrphanEntry,
};
#[allow(unused_imports)]
use crate::session::{file_at, workspace_of_file, Workspace};
use crate::source::TabSource;
use crate::tabs::FileId;
use crate::text::{join2, push_dec};
#[allow(unused_imports)]
use crate::text::dec;
use crate::tool_pane::workspace_entries;
#[allow(unused_imports)]
use crate::tool_pane::entries_of;
#[allow(unused_imports)]
use crate::watching::{root_of, same_text};

verus! {

/// What becomes of a file that changed on disk.
#[derive(Clone, Copy, Debug, PartialEq, Eq, Structural)]
pub enum ReloadDecision {
    /// It is read again and the unsaved edits go.
    DiscardEdits,
    /// It is read again and the unsaved edits are made again.
    KeepEdits,
    /// It stays as it is.
    Ignore,
}

/// Whether an edit can be made in contents.
pub open spec fn edit_fits(bytes: Seq<u8>, e: Edit) -> bool {
    e.offset + e.removed@.len() <= bytes.len()
}

/// Contents in which edits were made again in order. One that reaches behind
/// the end is passed over.
pub open spec fn replayed(base: Seq<u8>, edits: Seq<Edit>) -> Seq<u8>
    decreases edits.len(),
{
    if edits.len() == 0 {
        base
    } else {
        let before = replayed(base, edits.drop_last());
        let e = edits.last();
        if edit_fits(before, e) {
            spliced(before, e.offset as int, e.removed@.len() as int, e.inserted@)
        } else {
            before
        }
    }
}

/// Whether steps are those of edits that were made again in order: each puts in
/// what its edit did, where its edit did, in place of what it found there. An
/// edit that reaches behind the end leaves no step.
pub open spec fn replays(base: Seq<u8>, edits: Seq<Edit>, steps: Seq<Edit>) -> bool
    decreases edits.len(),
{
    if edits.len() == 0 {
        steps.len() == 0
    } else {
        let before = replayed(base, edits.drop_last());
        let e = edits.last();
        if edit_fits(before, e) {
            &&& steps.len() > 0
            &&& steps.last().offset == e.offset
            &&& steps.last().inserted@ == e.inserted@
            &&& steps.last().removed@ == before.subrange(
                e.offset as int,
                e.offset + e.removed@.len(),
            )
            &&& replays(base, edits.drop_last(), steps.drop_last())
        } else {
            replays(base, edits.drop_last(), steps)
        }
    }
}

/// Whether one editor is another over new contents in which the unsaved edits
/// were made again, as its history. The steps that had been taken back can still
/// be done, as far as they fit.
pub open spec fn rebased_to(before: HexEditor, base: Seq<u8>, after: HexEditor) -> bool {
    &&& after.bytes@ == replayed(base, patch_ops(before))
    &&& replays(base, patch_ops(before), after.undo_stack@)
    &&& replays(after.bytes@, before.redo_stack@.reverse(), after.redo_stack@.reverse())
    &&& after.restored@.len() == 0
    &&& after.selection == before.selection
    &&& after.edit_mode == before.edit_mode
    &&& after.low_nibble == before.low_nibble
}

/// Without edits, keeping them is the same as reading the file again.
pub proof fn law_keep_nothing(before: HexEditor, base: Seq<u8>, after: HexEditor)
    requires
        patch_ops(before).len() == 0,
        rebased_to(before, base, after),
    ensures
        after.bytes@ == base,
        !after.spec_is_dirty(),
{
}

/// Taking back every edit that was kept gives the new contents of the file.
pub proof fn law_kept_edits_come_off(before: HexEditor, base: Seq<u8>, after: HexEditor)
    requires
        rebased_to(before, base, after),
    ensures
        unwound(after.bytes@, after.undo_stack@) == base,
{
    lemma_replay_unwinds(base, patch_ops(before), after.undo_stack@);
}

pub proof fn lemma_replay_unwinds(base: Seq<u8>, edits: Seq<Edit>, steps: Seq<Edit>)
    requires
        replays(base, edits, steps),
    ensures
        unwound(replayed(base, edits), steps) == base,
    decreases edits.len(),
{
    if edits.len() > 0 {
        let before = replayed(base, edits.drop_last());
        let e = edits.last();
        if edit_fits(before, e) {
            lemma_replay_unwinds(base, edits.drop_last(), steps.drop_last());
            law_splice_back(before, e.offset as int, e.removed@.len() as int, e.inserted@);
        } else {
            lemma_replay_unwinds(base, edits.drop_last(), steps);
        }
    }
}

/// The steps of edits that were made again can be done from the contents that
/// they were made in.
proof fn lemma_replay_is_future(base: Seq<u8>, edits: Seq<Edit>, steps: Seq<Edit>, later: Seq<Edit>)
    requires
        replays(base, edits, steps),
        future_fits(replayed(base, edits), later),
    ensures
        future_fits(base, later + steps.reverse()),
    decreases edits.len(),
{
    if edits.len() == 0 {
        assert(later + steps.reverse() =~= later);
    } else {
        let before = replayed(base, edits.drop_last());
        let e = edits.last();
        if edit_fits(before, e) {
            let step = steps.last();
            let more = later.push(step);
            assert(more.drop_last() =~= later);
            assert(future_fits(before, more));
            lemma_replay_is_future(base, edits.drop_last(), steps.drop_last(), more);
            assert(more + steps.drop_last().reverse() =~= later + steps.reverse());
        } else {
            lemma_replay_is_future(base, edits.drop_last(), steps, later);
        }
    }
}

/// Makes edits again, behind others that were.
pub(crate) fn replay(editor: &mut HexEditor, edits: &Vec<Edit>, Ghost(base): Ghost<Seq<u8>>, Ghost(
    done,
): Ghost<Seq<Edit>>)
    requires
        old(editor).wf(),
        old(editor).bytes@ == replayed(base, done),
        replays(base, done, old(editor).undo_stack@),
        old(editor).redo_stack@.len() == 0,
    ensures
        final(editor).wf(),
        final(editor).bytes@ == replayed(base, done + edits@),
        replays(base, done + edits@, final(editor).undo_stack@),
        final(editor).redo_stack@.len() == 0,
        final(editor).restored == old(editor).restored,
        final(editor).selection == old(editor).selection,
        final(editor).edit_mode == old(editor).edit_mode,
        final(editor).low_nibble == old(editor).low_nibble,
{
    let ghost start = *editor;
    let mut i: usize = 0;
    assert(done + edits@.take(0) =~= done);
    while i < edits.len()
        invariant
            i <= edits@.len(),
            editor.wf(),
            editor.bytes@ == replayed(base, done + edits@.take(i as int)),
            replays(base, done + edits@.take(i as int), editor.undo_stack@),
            editor.redo_stack@.len() == 0,
            editor.restored == start.restored,
            editor.selection == start.selection,
            editor.edit_mode == start.edit_mode,
            editor.low_nibble == start.low_nibble,
        decreases edits.len() - i,
    {
        let ghost next = done + edits@.take(i as int + 1);
        assert(next.drop_last() =~= done + edits@.take(i as int));
        assert(next.last() == edits@[i as int]);
        let inserted = copy_bytes(&edits[i].inserted);
        editor.splice(edits[i].offset, edits[i].removed.len() as u64, inserted);
        i = i + 1;
    }
    assert(done + edits@.take(edits@.len() as int) =~= done + edits@);
}

/// The steps of a list in the opposite order.
fn reversed(steps: Vec<Edit>) -> (r: Vec<Edit>)
    ensures
        r@ == steps@.reverse(),
{
    let ghost all = steps@;
    let mut rest = steps;
    let mut out: Vec<Edit> = Vec::new();
    assert(all.take(all.len() as int) =~= all);
    while rest.len() > 0
        invariant
            rest@.len() + out@.len() == all.len(),
            rest@ == all.take(rest@.len() as int),
            forall|k: int| 0 <= k < out@.len() ==> out@[k] == all[all.len() - 1 - k],
        decreases rest.len(),
    {
        if let Some(step) = rest.pop() {
            out.push(step);
        }
    }
    assert(out@ =~= all.reverse());
    out
}

/// The steps of edits that had been taken back, as far as they can be done from
/// contents.
pub(crate) fn redo_over(bytes: &Vec<u8>, undone: Vec<Edit>) -> (r: Vec<Edit>)
    ensures
        future_fits(bytes@, r@),
        replays(bytes@, undone@.reverse(), r@.reverse()),
{
    let ghost none: Seq<Edit> = seq![];
    let next = reversed(undone);
    let mut ahead = HexEditor::new(copy_bytes(bytes));
    replay(&mut ahead, &next, Ghost(bytes@), Ghost(none));
    proof {
        let steps = ahead.undo_stack@;
        assert(none + next@ =~= next@);
        lemma_replay_is_future(bytes@, next@, steps, none);
        assert(none + steps.reverse() =~= steps.reverse());
        assert(steps.reverse().reverse() =~= steps);
    }
    reversed(ahead.undo_stack)
}

/// Makes the unsaved edits of an editor again in new contents.
fn rebase(editor: &mut HexEditor, bytes: Vec<u8>)
    requires
        old(editor).wf(),
    ensures
        final(editor).wf(),
        rebased_to(*old(editor), bytes@, *final(editor)),
{
    let ghost base = bytes@;
    let ghost start = *editor;
    let mut fresh = HexEditor::new(bytes);
    fresh.selection = editor.selection;
    fresh.edit_mode = editor.edit_mode;
    fresh.low_nibble = editor.low_nibble;
    let ghost none: Seq<Edit> = seq![];
    replay(&mut fresh, &editor.restored, Ghost(base), Ghost(none));
    assert(none + editor.restored@ =~= editor.restored@);
    replay(&mut fresh, &editor.undo_stack, Ghost(base), Ghost(editor.restored@));
    let mut undone: Vec<Edit> = Vec::new();
    std::mem::swap(&mut undone, &mut editor.redo_stack);
    fresh.redo_stack = redo_over(&fresh.bytes, undone);
    *editor = fresh;
}

/// The context of what is told about the reading of a file.
pub open spec fn reload_context(path: Seq<char>) -> Seq<char> {
    "Reload "@ + path
}

/// What is told once a file was read again.
pub open spec fn reloaded_text(len: nat, kept: bool, name: Seq<char>) -> Seq<char> {
    if kept {
        "reloaded "@ + dec(len) + " byte(s); kept local edits on top of new base ("@ + name + ")"@
    } else {
        "reloaded "@ + dec(len) + " byte(s); local edits discarded ("@ + name + ")"@
    }
}

fn reloaded_message(len: u64, kept: bool, name: &String) -> (r: String)
    ensures
        r@ == reloaded_text(len as nat, kept, name@),
{
    let mut out = "reloaded ".to_owned();
    push_dec(&mut out, len);
    if kept {
        out.append(" byte(s); kept local edits on top of new base (");
    } else {
        out.append(" byte(s); local edits discarded (");
    }
    out.append(name.as_str());
    out.append(")");
    out
}

/// The path on disk from which a file is to be read again; none where it is
/// to stay, is not open, or comes from nowhere on disk.
pub open spec fn reload_path(app: HxyApp, id: FileId, decision: ReloadDecision) -> Option<Seq<char>> {
    match file_at(app.files@, id) {
        Some(i) => if decision is Ignore {
            None
        } else {
            root_of(app.files@[i])
        },
        None => None,
    }
}

/// Finds the path from which a file is to be read again.
pub fn plan_reload(app: &HxyApp, id: FileId, decision: ReloadDecision) -> (r: Option<String>)
    ensures
        same_text(reload_path(*app, id, decision), r),
{
    match find_file(&app.files, id) {
        Some(i) => if decision == ReloadDecision::Ignore {
            None
        } else {
            match &app.files[i].source {
                Some(s) => s.root_path(),
                None => None,
            }
        },
        None => None,
    }
}

/// Whether one editor is another in which a file was read again: from its new
/// contents, with the unsaved edits or without them.
pub open spec fn file_reread(
    before: HxyApp,
    i: int,
    decision: ReloadDecision,
    bytes: Seq<u8>,
    after: HxyApp,
) -> bool {
    &&& file_replaced(before, i, after)
    &&& after.files@[i] == (OpenFile { editor: after.files@[i].editor, ..before.files@[i] })
    &&& if decision is KeepEdits {
        rebased_to(before.files@[i].editor, bytes, after.files@[i].editor)
    } else {
        swapped_to(before.files@[i].editor, bytes, after.files@[i].editor)
    }
}

/// What came of reading a file again.
pub struct Reloaded {
    /// Whether the file is as the decision wants it.
    pub ok: bool,
    /// The entries of its workspace that are to be read again.
    pub entries: Vec<EntrySpec>,
    pub split: Option<SplitRequest>,
}

/// Whether one editor is another after a file was read again: its workspace was
/// mounted again over the new contents, or that failed, and at last it was told.
pub open spec fn reload_finished(
    before: HxyApp,
    id: FileId,
    i: int,
    decision: ReloadDecision,
    path: Seq<char>,
    bytes: Seq<u8>,
    mounted: Result<bool, String>,
    r: Reloaded,
    swapped: HxyApp,
    mounts: Remounted,
    mid: HxyApp,
    after: HxyApp,
) -> bool {
    &&& file_reread(before, i, decision, bytes, swapped)
    &&& refreshed(swapped, id, mounted, mounts, mid)
    &&& r.entries@ == mounts.entries@
    &&& message_logged(
        mid,
        ConsoleSeverity::Info,
        reload_context(path),
        reloaded_text(bytes.len(), decision is KeepEdits, before.files@[i].display_name@),
        r.split,
        after,
    )
}

/// Whether one editor is another after a file was read again, or could not be,
/// and that was told.
pub open spec fn reload_answered(
    before: HxyApp,
    id: FileId,
    decision: ReloadDecision,
    path: Seq<char>,
    read: Result<Vec<u8>, String>,
    mounted: Result<bool, String>,
    r: Reloaded,
    after: HxyApp,
) -> bool {
    let i = file_at(before.files@, id)->0;
    match read {
        Ok(bytes) => r.ok && exists|swapped: HxyApp, mounts: Remounted, mid: HxyApp| #[trigger]
            reload_finished(
                before,
                id,
                i,
                decision,
                path,
                bytes@,
                mounted,
                r,
                swapped,
                mounts,
                mid,
                after,
            ),
        Err(e) => !r.ok && r.entries@.len() == 0 && message_logged(
            before,
            ConsoleSeverity::Error,
            reload_context(path),
            "re-open disk source: "@ + e@,
            r.split,
            after,
        ),
    }
}

/// Whether one editor is another after what was decided about a changed file was done.
pub open spec fn reload_applied(
    before: HxyApp,
    id: FileId,
    decision: ReloadDecision,
    read: Result<Vec<u8>, String>,
    mounted: Result<bool, String>,
    r: Reloaded,
    after: HxyApp,
) -> bool {
    if decision is Ignore {
        r.ok && r.entries@.len() == 0 && r.split is None && after == before
    } else {
        match reload_path(before, id, decision) {
            Some(path) => reload_answered(before, id, decision, path, read, mounted, r, after),
            None => !r.ok && r.entries@.len() == 0 && r.split is None && after == before,
        }
    }
}

/// What an editor shows once its file was read again.
pub open spec fn reread_contents(
    editor: HexEditor,
    decision: ReloadDecision,
    bytes: Seq<u8>,
) -> Seq<u8> {
    if decision is KeepEdits {
        replayed(bytes, patch_ops(editor))
    } else {
        bytes
    }
}

/// What is mounted again after a file was read again is what the file then shows.
pub proof fn law_reread_contents(
    before: HxyApp,
    i: int,
    decision: ReloadDecision,
    bytes: Seq<u8>,
    after: HxyApp,
)
    requires
        0 <= i < before.files@.len(),
        file_reread(before, i, decision, bytes, after),
    ensures
        after.files@[i].editor.bytes@ == reread_contents(before.files@[i].editor, decision, bytes),
{
}

/// Tells what a file will show once it was read again, so that it can be mounted.
/// One that is not open shows nothing.
pub fn contents_after_reload(
    app: &HxyApp,
    id: FileId,
    decision: ReloadDecision,
    bytes: &Vec<u8>,
) -> (r: Vec<u8>)
    requires
        app.wf(),
    ensures
        r@ == match file_at(app.files@, id) {
            Some(i) => reread_contents(app.files@[i].editor, decision, bytes@),
            None => seq![],
        },
{
    match find_file(&app.files, id) {
        Some(i) => {
            if decision != ReloadDecision::KeepEdits {
                return copy_bytes(bytes);
            }
            let editor = &app.files[i].editor;
            let ghost none: Seq<Edit> = seq![];
            let mut fresh = HexEditor::new(copy_bytes(bytes));
            replay(&mut fresh, &editor.restored, Ghost(bytes@), Ghost(none));
            assert(none + editor.restored@ =~= editor.restored@);
            replay(&mut fresh, &editor.undo_stack, Ghost(bytes@), Ghost(editor.restored@));
            fresh.bytes
        },
        None => Vec::new(),
    }
}

fn reread(app: &mut HxyApp, i: usize, decision: ReloadDecision, bytes: Vec<u8>)
    requires
        old(app).wf(),
        i < old(app).files@.len(),
    ensures
        final(app).wf(),
        file_reread(*old(app), i as int, decision, bytes@, *final(app)),
{
    if decision == ReloadDecision::KeepEdits {
        rebase(&mut app.files[i].editor, bytes);
    } else {
        app.files[i].editor.swap_source(bytes);
    }
    assert(app.files@ =~= old(app).files@.update(i as int, app.files@[i as int]));
}

impl HxyApp {
    /// Takes over a file that was read again, or tells why it could not be. What
    /// is to stay as it is is left alone. `mounted` tells what came of mounting its
    /// new contents; it counts where there is a workspace around the file.
    #[verifier::rlimit(40)]
    pub fn apply_reload_decision(
        &mut self,
        id: FileId,
        decision: ReloadDecision,
        read: Result<Vec<u8>, String>,
        mounted: Result<bool, String>,
    ) -> (r: Reloaded)
        requires
            old(self).wf(),
        ensures
            final(self).wf(),
            reload_applied(*old(self), id, decision, read, mounted, r, *final(self)),
    {
        if decision == ReloadDecision::Ignore {
            return Reloaded { ok: true, entries: Vec::new(), split: None };
        }
        let path = match plan_reload(self, id, decision) {
            Some(path) => path,
            None => return Reloaded { ok: false, entries: Vec::new(), split: None },
        };
        let i = match find_file(&self.files, id) {
            Some(i) => i,
            None => return Reloaded { ok: false, entries: Vec::new(), split: None },
        };
        let context = join2("Reload ", path.as_str());
        match read {
            Ok(bytes) => {
                let len: u64 = bytes.len() as u64;
                let ghost content = bytes@;
                let name = self.files[i].display_name.clone();
                reread(self, i, decision, bytes);
                let ghost swapped = *self;
                let again = refresh_workspace_for_file(self, id, mounted);
                let ghost mounts = again;
                let ghost mid = *self;
                let message = reloaded_message(
                    len,
                    decision == ReloadDecision::KeepEdits,
                    &name,
                );
                let split = self.console_log(ConsoleSeverity::Info, context, message);
                let r = Reloaded { ok: true, entries: again.entries, split };
                assert(reload_finished(
                    *old(self),
                    id,
                    i as int,
                    decision,
                    path@,
                    content,
                    mounted,
                    r,
                    swapped,
                    mounts,
                    mid,
                    *self,
                ));
                r
            },
            Err(e) => {
                let message = join2("re-open disk source: ", e.as_str());
                let split = self.console_log(ConsoleSeverity::Error, context, message);
                Reloaded { ok: false, entries: Vec::new(), split }
            },
        }
    }
}

/// An entry that is open in a workspace.
pub struct EntrySpec {
    pub file_id: FileId,
    pub entry_path: String,
}

/// The path of a file within its archive, if it is an entry.
pub open spec fn entry_of(files: Seq<OpenFile>, id: FileId) -> Option<Seq<char>> {
    match file_at(files, id) {
        Some(i) => match files[i].source {
            Some(TabSource::VfsEntry { entry_path, .. }) => Some(entry_path@),
            _ => None,
        },
        None => None,
    }
}

/// Whether a list tells the entries among some files, in order.
pub open spec fn lists_entries(files: Seq<OpenFile>, ids: Seq<FileId>, specs: Seq<EntrySpec>) -> bool
    decreases ids.len(),
{
    if ids.len() == 0 {
        specs.len() == 0
    } else {
        match entry_of(files, ids.last()) {
            Some(path) => specs.len() > 0 && specs.last().file_id == ids.last()
                && specs.last().entry_path@ == path && lists_entries(
                files,
                ids.drop_last(),
                specs.drop_last(),
            ),
            None => lists_entries(files, ids.drop_last(), specs),
        }
    }
}

fn collect_entries(files: &Vec<OpenFile>, ids: &Vec<FileId>) -> (r: Vec<EntrySpec>)
    ensures
        lists_entries(files@, ids@, r@),
{
    let mut out: Vec<EntrySpec> = Vec::new();
    let mut i: usize = 0;
    assert(ids@.take(0) =~= seq![]);
    while i < ids.len()
        invariant
            i <= ids@.len(),
            lists_entries(files@, ids@.take(i as int), out@),
        decreases ids.len() - i,
    {
        assert(ids@.take(i as int + 1).drop_last() =~= ids@.take(i as int));
        let ghost before = out@;
        if let Some(k) = find_file(files, ids[i]) {
            if let Some(TabSource::VfsEntry { entry_path, .. }) = &files[k].source {
                out.push(EntrySpec { file_id: ids[i], entry_path: entry_path.clone() });
                assert(out@.drop_last() =~= before);
            }
        }
        i = i + 1;
    }
    assert(ids@.take(ids@.len() as int) =~= ids@);
    out
}

/// The workspace around a file that is to be mounted again, and by what.
pub open spec fn remount_of(app: HxyApp, id: FileId) -> Option<(int, Seq<char>)> {
    match (workspace_of_file(app.workspaces@, id), file_at(app.files@, id)) {
        (Some(w), Some(i)) => match app.files@[i].handler {
            Some(h) => Some((w, h@)),
            None => None,
        },
        _ => None,
    }
}

/// Finds by what the workspace around a file is to be mounted again; nothing
/// where there is none.
pub fn plan_remount(app: &HxyApp, id: FileId) -> (r: Option<String>)
    ensures
        match (remount_of(*app, id), r) {
            (Some(a), Some(b)) => a.1 == b@,
            (None, None) => true,
            _ => false,
        },
{
    match (find_workspace_of_file(&app.workspaces, id), find_file(&app.files, id)) {
        (Some(_), Some(i)) => match &app.files[i].handler {
            Some(h) => Some(h.clone()),
            None => None,
        },
        _ => None,
    }
}

/// What came of mounting a workspace again.
pub struct Remounted {
    /// The entries that are to be read again.
    pub entries: Vec<EntrySpec>,
    pub split: Option<SplitRequest>,
}

/// Whether one editor is another after the workspace around a file was mounted
/// again. Its entries are to be read again then. Where it could not be mounted
/// that is told, and all stays as it is.
pub open spec fn remounted(
    before: HxyApp,
    w: int,
    handler: Seq<char>,
    mounted: Result<bool, String>,
    r: Remounted,
    after: HxyApp,
) -> bool {
    match mounted {
        Ok(writable) => {
            &&& r.split is None
            &&& after == (HxyApp { workspaces: after.workspaces, ..before })
            &&& after.workspaces@.len() == before.workspaces@.len()
            &&& after.workspaces@ == before.workspaces@.update(w, after.workspaces@[w])
            &&& after.workspaces@[w] == (Workspace { writable, ..before.workspaces@[w] })
            &&& lists_entries(
                before.files@,
                entries_of(tab_list(before.workspaces@[w].dock@)),
                r.entries@,
            )
        },
        Err(e) => {
            &&& r.entries@.len() == 0
            &&& message_logged(
                before,
                ConsoleSeverity::Warning,
                "Reload"@,
                "re-mount "@ + handler + " after reload failed: "@ + e@,
                r.split,
                after,
            )
        },
    }
}

/// Whether one editor is another after the workspace around a file was to be
/// mounted again; without one all stays as it is.
pub open spec fn refreshed(
    before: HxyApp,
    id: FileId,
    mounted: Result<bool, String>,
    r: Remounted,
    after: HxyApp,
) -> bool {
    match remount_of(before, id) {
        Some((w, handler)) => remounted(before, w, handler, mounted, r, after),
        None => r.entries@.len() == 0 && r.split is None && after == before,
    }
}

/// Takes over that the workspace around a file was mounted again.
pub fn refresh_workspace_for_file(app: &mut HxyApp, id: FileId, mounted: Result<bool, String>)
    -> (r: Remounted)
    requires
        old(app).wf(),
    ensures
        final(app).wf(),
        refreshed(*old(app), id, mounted, r, *final(app)),
{
    let handler = match plan_remount(app, id) {
        Some(h) => h,
        None => return Remounted { entries: Vec::new(), split: None },
    };
    let w = match find_workspace_of_file(&app.workspaces, id) {
        Some(w) => w,
        None => return Remounted { entries: Vec::new(), split: None },
    };
    match mounted {
        Ok(writable) => {
            let ids = workspace_entries(&app.workspaces[w].dock);
            let entries = collect_entries(&app.files, &ids);
            app.workspaces[w].writable = writable;
            assert(app.workspaces@ =~= old(app).workspaces@.update(
                w as int,
                app.workspaces@[w as int],
            ));
            Remounted { entries, split: None }
        },
        Err(e) => {
            let mut message = "re-mount ".to_owned();
            message.append(handler.as_str());
            message.append(" after reload failed: ");
            message.append(e.as_str());
            let split = app.console_log(ConsoleSeverity::Warning, "Reload".to_owned(), message);
            Remounted { entries: Vec::new(), split }
        },
    }
}

/// Whether one editor is another after an entry was read again. One that is
/// gone is asked about.
pub open spec fn entry_reread(
    before: HxyApp,
    entry: EntrySpec,
    read: Option<Vec<u8>>,
    after: HxyApp,
) -> bool {
    match read {
        Some(bytes) => match file_at(before.files@, entry.file_id) {
            Some(i) => file_reread(before, i, ReloadDecision::DiscardEdits, bytes@, after),
            None => after == before,
        },
        None => {
            &&& after == (HxyApp { pending_orphans: after.pending_orphans, ..before })
            &&& after.pending_orphans@.len() == before.pending_orphans@.len() + 1
            &&& after.pending_orphans@.drop_last() == before.pending_orphans@
            &&& after.pending_orphans@.last().file_id == entry.file_id
            &&& after.pending_orphans@.last().entry_path@ == entry.entry_path@
            &&& after.pending_orphans@.last().display_name@ == match file_at(
                before.files@,
                entry.file_id,
            ) {
                Some(i) => before.files@[i].display_name@,
                None => seq![],
            }
        },
    }
}

/// Takes over an entry that was read again, or asks what becomes of one that is
/// gone.
pub fn finish_entry(app: &mut HxyApp, entry: EntrySpec, read: Option<Vec<u8>>)
    requires
        old(app).wf(),
    ensures
        final(app).wf(),
        entry_reread(*old(app), entry, read, *final(app)),
{
    match read {
        Some(bytes) => {
            if let Some(i) = find_file(&app.files, entry.file_id) {
                reread(app, i, ReloadDecision::DiscardEdits, bytes);
            }
        },
        None => {
            let display_name = match find_file(&app.files, entry.file_id) {
                Some(i) => app.files[i].display_name.clone(),
                None => String::new(),
            };
            app.pending_orphans.push(
                PendingOrphanEntry {
                    file_id: entry.file_id,
                    display_name,
                    entry_path: entry.entry_path,
                },
            );
            assert(app.pending_orphans@.drop_last() =~= old(app).pending_orphans@);
        },
    }
}

/// Making one edit more puts what it inserted in the place of what it removed, and
/// leaves the bytes before and behind alone. One that reaches behind the end changes
/// nothing.
pub proof fn law_replay_makes_each_edit(base: Seq<u8>, edits: Seq<Edit>, e: Edit)
    ensures
        replayed(base, seq![]) == base,
        ({
            let before = replayed(base, edits);
            let after = replayed(base, edits.push(e));
            let end = e.offset + e.removed@.len();
            if end <= before.len() {
                after == before.take(e.offset as int) + e.inserted@ + before.skip(end)
            } else {
                after == before
            }
        }),
{
    assert(edits.push(e).drop_last() =~= edits);
    let before = replayed(base, edits);
    let end = e.offset + e.removed@.len();
    if end <= before.len() {
        assert(replayed(base, edits.push(e)) =~= before.take(e.offset as int) + e.inserted@
            + before.skip(end));
    }
}

/// A file that changed on disk and is to stay as it is stays, and so does every other.
/// One that is read again without its edits shows exactly the new bytes and has nothing
/// unsaved; with its edits it shows the new bytes in which they were made again. One
/// that could not be read stays as it is.
pub proof fn law_reload_does_what_was_decided(
    before: HxyApp,
    i: int,
    decision: ReloadDecision,
    read: Result<Vec<u8>, String>,
    mounted: Result<bool, String>,
    r: Reloaded,
    after: HxyApp,
    k: int,
)
    requires
        before.wf(),
        0 <= i < before.files@.len(),
        reload_applied(before, before.files@[i].id, decision, read, mounted, r, after),
    ensures
        decision is Ignore ==> after == before && r.ok,
        root_of(before.files@[i]) is None && !(decision is Ignore) ==> after == before && !r.ok,
        root_of(before.files@[i]) is Some && !(decision is Ignore) ==> {
            &&& read is Ok <==> r.ok
            &&& read is Err ==> after.files == before.files
            &&& read matches Ok(bytes) ==> {
                let old_editor = before.files@[i].editor;
                let editor = after.files@[i].editor;
                &&& decision is DiscardEdits ==> editor.bytes@ == bytes@ && !editor.spec_is_dirty()
                    && editor.undo_stack@.len() == 0
                &&& decision is KeepEdits ==> editor.bytes@ == replayed(
                    bytes@,
                    old_editor.restored@ + old_editor.undo_stack@,
                )
                &&& editor.selection == old_editor.selection
                &&& after.files@[i].id == before.files@[i].id
                &&& 0 <= k < before.files@.len() && k != i ==> after.files@[k] == before.files@[k]
            }
        },
{
    let id = before.files@[i].id;
    crate::session::lemma_file_at(before.files@, id, i);
    if !(decision is Ignore) && root_of(before.files@[i]) is Some && read is Ok {
        let path = root_of(before.files@[i])->0;
        let bytes = read->Ok_0;
        let (swapped, mounts, mid) = choose|swapped: HxyApp, mounts: Remounted, mid: HxyApp|
         #[trigger]
            reload_finished(
                before,
                id,
                i,
                decision,
                path,
                bytes@,
                mounted,
                r,
                swapped,
                mounts,
                mid,
                after,
            );
        assert(file_reread(before, i, decision, bytes@, swapped));
        assert(after.files == swapped.files);
    }
}

/// A file is read again from the path that it comes from, and only where it is to be.
pub proof fn law_file_is_read_from_its_path(
    app: HxyApp,
    i: int,
    decision: ReloadDecision,
    path: String,
)
    requires
        app.wf(),
        0 <= i < app.files@.len(),
    ensures
        decision is Ignore ==> reload_path(app, app.files@[i].id, decision) is None,
        !(decision is Ignore) && app.files@[i].source == Some(TabSource::Filesystem(path))
            ==> reload_path(app, app.files@[i].id, decision) == Some(path@),
        app.files@[i].source is None ==> reload_path(app, app.files@[i].id, decision) is None,
{
    crate::session::lemma_file_at(app.files@, app.files@[i].id, i);
    reveal_with_fuel(crate::source::source_root, 2);
    reveal_with_fuel(crate::source::source_view, 2);
}

/// An entry that was read again shows exactly its new bytes; one that is gone is asked
/// about under its own name and path, and its bytes stay.
pub proof fn law_lost_entry_is_asked_about(
    before: HxyApp,
    entry: EntrySpec,
    read: Option<Vec<u8>>,
    after: HxyApp,
    i: int,
)
    requires
        before.wf(),
        0 <= i < before.files@.len(),
        before.files@[i].id == entry.file_id,
        entry_reread(before, entry, read, after),
    ensures
        read matches Some(bytes) ==> after.files@[i].editor.bytes@ == bytes@
            && !after.files@[i].editor.spec_is_dirty() && after.pending_orphans
            == before.pending_orphans,
        read is None ==> after.files == before.files && after.pending_orphans@.len()
            == before.pending_orphans@.len() + 1 && after.pending_orphans@.last().file_id
            == entry.file_id && after.pending_orphans@.last().entry_path@ == entry.entry_path@
            && after.pending_orphans@.last().display_name@ == before.files@[i].display_name@,
{
    crate::session::lemma_file_at(before.files@, entry.file_id, i);
}

/// A workspace that was mounted again is as writable as the new mount is; where that
/// failed, it stays as it is, and a warning tells why.
pub proof fn law_remount_takes_over_writability(
    before: HxyApp,
    w: int,
    handler: Seq<char>,
    mounted: Result<bool, String>,
    r: Remounted,
    after: HxyApp,
    k: int,
)
    requires
        0 <= w < before.workspaces@.len(),
        remounted(before, w, handler, mounted, r, after),
    ensures
        mounted matches Ok(writable) ==> after.workspaces@[w].writable == writable
            && after.workspaces@[w].editor_id == before.workspaces@[w].editor_id && (0 <= k
            < before.workspaces@.len() && k != w ==> after.workspaces@[k] == before.workspaces@[k])
            && after.files == before.files,
        mounted is Err ==> after.workspaces == before.workspaces && after.files == before.files
            && r.entries@.len() == 0,
{
}

/// A file that was written is mounted anew where it has a workspace and something can
/// mount it; else nothing changes.
pub proof fn law_only_mounted_file_is_refreshed(
    before: HxyApp,
    id: FileId,
    mounted: Result<bool, String>,
    r: Remounted,
    after: HxyApp,
    i: int,
)
    requires
        before.wf(),
        0 <= i < before.files@.len(),
        before.files@[i].id == id,
        refreshed(before, id, mounted, r, after),
    ensures
        before.files@[i].handler is None || workspace_of_file(before.workspaces@, id) is None
            ==> after == before && r.split is None && r.entries@.len() == 0,
        workspace_of_file(before.workspaces@, id) matches Some(w) ==> (
        before.files@[i].handler matches Some(h) ==> remounted(before, w, h@, mounted, r, after)),
{
    crate::session::lemma_file_at(before.files@, id, i);
}

} // verus!
