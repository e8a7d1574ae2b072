//! Saving files: to disk, and back into the archive that an entry came from.

use vstd::prelude::*;
use vstd::string::*;
use crate::active::file_replaced;
use crate::console::{ConsoleSeverity, LogLine};
use crate::dock_ops::SplitRequest;
use crate::editor::{copy_bytes, Edit};
#[allow(unused_imports)]
use crate::editor::{history_fits, spliced, swapped_to, HexEditor};
use crate::panels::log_lines;
#[allow(unused_imports)]
use crate::panels::{lines_logged, message_logged};
use crate::session::{active_file_id, find_file, find_mount_for_source, HxyApp, MountRef};
#[allow(unused_imports)]
use crate::session::{
    active_file, after_active_file, file_at, law_file_of_id_is_found, lemma_file_at, live_mount,
    OpenFile,
};
use crate::source::{record_tab, OpenTabState, TabSource};
#[allow(unused_imports)]
use crate::source::{source_root, source_view, sources_distinct, tab_recorded, SourceView};
use crate::tabs::FileId;
use crate::text::{join2, push_dec};
#[allow(unused_imports)]
use crate::text::dec;

verus! {

/// The edits that make up the difference between a file and what was saved of
/// it, in the order in which they were made.
pub open spec fn patch_ops(editor: HexEditor) -> Seq<Edit> {
    editor.restored@ + editor.undo_stack@
}

/// Whether an edit keeps the length.
pub open spec fn in_place(edit: Edit) -> bool {
    edit.removed@.len() == edit.inserted@.len()
}

/// Contents after edits that keep the length were written over them in order.
pub open spec fn overwritten(base: Seq<u8>, edits: Seq<Edit>) -> Seq<u8>
    decreases edits.len(),
{
    if edits.len() == 0 {
        base
    } else {
        let e = edits.last();
        spliced(
            overwritten(base, edits.drop_last()),
            e.offset as int,
            e.inserted@.len() as int,
            e.inserted@,
        )
    }
}

/// Contents from which the edits of a history were taken back.
pub open spec fn unwound(bytes: Seq<u8>, undo: Seq<Edit>) -> Seq<u8>
    decreases undo.len(),
{
    if undo.len() == 0 {
        bytes
    } else {
        let e = undo.last();
        unwound(
            spliced(bytes, e.offset as int, e.inserted@.len() as int, e.removed@),
            undo.drop_last(),
        )
    }
}

/// Writing the edits of a history over the contents from which they were taken
/// back gives the edited contents, as long as none of them changes the length.
pub proof fn law_writeback_gives_contents(bytes: Seq<u8>, undo: Seq<Edit>)
    requires
        history_fits(bytes, undo),
        forall|i: int| 0 <= i < undo.len() ==> in_place(#[trigger] undo[i]),
    ensures
        overwritten(unwound(bytes, undo), undo) == bytes,
    decreases undo.len(),
{
    if undo.len() > 0 {
        let e = undo.last();
        let before = spliced(bytes, e.offset as int, e.inserted@.len() as int, e.removed@);
        assert forall|i: int| 0 <= i < undo.drop_last().len() implies in_place(
            #[trigger] undo.drop_last()[i],
        ) by {
            assert(in_place(undo[i]));
        }
        assert(in_place(undo[undo.len() - 1]));
        law_writeback_gives_contents(before, undo.drop_last());
        assert(spliced(before, e.offset as int, e.inserted@.len() as int, e.inserted@) =~= bytes);
    }
}

/// Bytes to write at an offset.
pub struct WriteOp {
    pub offset: u64,
    pub bytes: Vec<u8>,
}

/// What saving a file takes.
pub enum SavePlan {
    /// There is no such file.
    Nothing,
    /// The user is to be asked for a path.
    Ask {
        /// The name that is offered.
        name: String,
        /// A file in whose directory the question starts.
        near: Option<String>,
    },
    WriteTo { path: String },
    /// The edits are to be written back into the archive.
    WriteBack { mount: MountRef, entry_path: String, ops: Vec<WriteOp> },
    /// Nothing is left to save.
    Clean,
    /// The archive cannot take the edits; the console tells why.
    Refused { split: Option<SplitRequest> },
}

/// The context of what is told about the saving of a thing.
pub open spec fn save_context(name: Seq<char>) -> Seq<char> {
    "Save "@ + name
}

/// What is told of an edit that cannot be written back.
pub open spec fn resize_text(e: Edit) -> Seq<char> {
    "can't poke insert/delete (offset="@ + dec(e.offset as nat) + ", old_len="@ + dec(
        e.removed@.len(),
    ) + ", new_len="@ + dec(e.inserted@.len()) + "); only in-place writes"@
}

fn resize_message(e: &Edit) -> (r: String)
    ensures
        r@ == resize_text(*e),
{
    let mut out = "can't poke insert/delete (offset=".to_owned();
    push_dec(&mut out, e.offset);
    out.append(", old_len=");
    push_dec(&mut out, e.removed.len() as u64);
    out.append(", new_len=");
    push_dec(&mut out, e.inserted.len() as u64);
    out.append("); only in-place writes");
    out
}

/// The first of some edits that changes the length.
pub open spec fn first_resize(ops: Seq<Edit>) -> Option<int>
    decreases ops.len(),
{
    if ops.len() == 0 {
        None
    } else {
        match first_resize(ops.drop_last()) {
            Some(i) => Some(i),
            None => if in_place(ops.last()) {
                None
            } else {
                Some(ops.len() - 1)
            },
        }
    }
}

proof fn lemma_first_resize(ops: Seq<Edit>)
    ensures
        match first_resize(ops) {
            Some(i) => 0 <= i < ops.len() && !in_place(ops[i]) && forall|j: int|
                0 <= j < i ==> in_place(#[trigger] ops[j]),
            None => forall|j: int| 0 <= j < ops.len() ==> in_place(#[trigger] ops[j]),
        },
    decreases ops.len(),
{
    if ops.len() > 0 {
        lemma_first_resize(ops.drop_last());
        assert forall|j: int| 0 <= j < ops.len() - 1 implies #[trigger] ops[j]
            == ops.drop_last()[j] by {}
    }
}

/// Whether operations write what edits put in, one for each.
pub open spec fn ops_write(ops: Seq<WriteOp>, edits: Seq<Edit>) -> bool {
    &&& ops.len() == edits.len()
    &&& forall|i: int|
        0 <= i < ops.len() ==> (#[trigger] ops[i]).offset == edits[i].offset && ops[i].bytes@
            == edits[i].inserted@
}

/// Turns edits into operations, up to the first that changes the length.
fn push_ops(ops: &mut Vec<WriteOp>, edits: &Vec<Edit>) -> (bad: Option<usize>)
    ensures
        match bad {
            Some(i) => first_resize(edits@) == Some(i as int) && i < edits@.len(),
            None => first_resize(edits@) is None && final(ops)@.len() == old(ops)@.len()
                + edits@.len() && final(ops)@.take(old(ops)@.len() as int) == old(ops)@
                && ops_write(final(ops)@.skip(old(ops)@.len() as int), edits@),
        },
{
    let ghost start = ops@;
    let mut i: usize = 0;
    assert(edits@.take(0) =~= seq![]);
    assert(ops@.skip(start.len() as int) =~= seq![]);
    assert(ops@.take(start.len() as int) =~= start);
    while i < edits.len()
        invariant
            i <= edits@.len(),
            first_resize(edits@.take(i as int)) is None,
            ops@.len() == start.len() + i,
            ops@.take(start.len() as int) == start,
            ops_write(ops@.skip(start.len() as int), edits@.take(i as int)),
        decreases edits.len() - i,
    {
        assert(edits@.take(i as int + 1).drop_last() =~= edits@.take(i as int));
        if edits[i].removed.len() != edits[i].inserted.len() {
            proof {
                lemma_first_resize(edits@.take(i as int));
                lemma_first_resize(edits@);
                let k = first_resize(edits@);
                if k is None {
                    assert(in_place(edits@[i as int]));
                } else if k->0 < i {
                    assert(edits@.take(i as int)[k->0] == edits@[k->0]);
                } else if k->0 > i {
                    assert(in_place(edits@[i as int]));
                }
            }
            return Some(i);
        }
        let ghost before = ops@;
        ops.push(WriteOp { offset: edits[i].offset, bytes: copy_bytes(&edits[i].inserted) });
        proof {
            let n = start.len() as int;
            assert(ops@.skip(n) =~= before.skip(n).push(ops@.last()));
            assert(ops@.take(n) =~= before.take(n));
            let told = ops@.skip(n);
            let asked = edits@.take(i as int + 1);
            assert forall|j: int| 0 <= j < told.len() implies (#[trigger] told[j]).offset
                == asked[j].offset && told[j].bytes@ == asked[j].inserted@ by {
                if j < i {
                    assert(told[j] == before.skip(n)[j]);
                    assert(asked[j] == edits@.take(i as int)[j]);
                }
            }
        }
        i = i + 1;
    }
    assert(edits@.take(edits@.len() as int) =~= edits@);
    None
}

/// Whether a plan is what saving an entry back into its archive takes, and what
/// was told of it.
pub open spec fn writeback_planned(
    before: HxyApp,
    file: OpenFile,
    parent: SourceView,
    entry: Seq<char>,
    plan: SavePlan,
    after: HxyApp,
) -> bool {
    let ops = patch_ops(file.editor);
    match live_mount(before, parent) {
        None => plan matches SavePlan::Refused { split } && message_logged(
            before,
            ConsoleSeverity::Error,
            save_context(file.display_name@),
            "parent VFS tab is gone -- close + reopen this tab"@,
            split,
            after,
        ),
        Some(m) => if !m.spec_writable() {
            plan matches SavePlan::Refused { split } && message_logged(
                before,
                ConsoleSeverity::Error,
                save_context(file.display_name@),
                "this VFS handler doesn't support writeback"@,
                split,
                after,
            )
        } else {
            match first_resize(ops) {
                Some(i) => plan matches SavePlan::Refused { split } && message_logged(
                    before,
                    ConsoleSeverity::Error,
                    save_context(file.display_name@),
                    resize_text(ops[i]),
                    split,
                    after,
                ),
                None => if ops.len() == 0 {
                    plan is Clean && message_logged(
                        before,
                        ConsoleSeverity::Info,
                        save_context(file.display_name@),
                        "no changes to save"@,
                        None,
                        after,
                    )
                } else {
                    after == before && (plan matches SavePlan::WriteBack {
                        mount,
                        entry_path,
                        ops: told,
                    } && mount == m && entry_path@ == entry && ops_write(told@, ops))
                },
            }
        },
    }
}

proof fn lemma_resize_joined(a: Seq<Edit>, b: Seq<Edit>)
    ensures
        first_resize(a + b) == match first_resize(a) {
            Some(i) => Some(i),
            None => match first_resize(b) {
                Some(j) => Some(a.len() + j),
                None => None,
            },
        },
{
    lemma_first_resize(a);
    lemma_first_resize(b);
    lemma_first_resize(a + b);
    let s = a + b;
    let r = first_resize(s);
    match first_resize(a) {
        Some(i) => {
            assert(s[i] == a[i]);
            if r is None {
                assert(in_place(s[i]));
            } else if r->0 < i {
                assert(s[r->0] == a[r->0]);
            } else if r->0 > i {
                assert(in_place(s[i]));
            }
        },
        None => match first_resize(b) {
            Some(j) => {
                let k = a.len() + j;
                assert(s[k] == b[j]);
                if r is None {
                    assert(in_place(s[k]));
                } else if r->0 < a.len() {
                    assert(s[r->0] == a[r->0]);
                } else if r->0 < k {
                    assert(s[r->0] == b[r->0 - a.len()]);
                } else if r->0 > k {
                    assert(in_place(s[k]));
                }
            },
            None => {
                if r is Some {
                    if r->0 < a.len() {
                        assert(s[r->0] == a[r->0]);
                    } else {
                        assert(s[r->0] == b[r->0 - a.len()]);
                    }
                }
            },
        },
    }
}

proof fn lemma_ops_joined(ops: Seq<WriteOp>, n: int, a: Seq<Edit>, b: Seq<Edit>)
    requires
        0 <= n <= ops.len(),
        ops_write(ops.take(n), a),
        ops_write(ops.skip(n), b),
    ensures
        ops_write(ops, a + b),
{
    assert forall|i: int| 0 <= i < ops.len() implies (#[trigger] ops[i]).offset == (a
        + b)[i].offset && ops[i].bytes@ == (a + b)[i].inserted@ by {
        if i < n {
            assert(ops.take(n)[i] == ops[i]);
        } else {
            assert(ops.skip(n)[i - n] == ops[i]);
        }
    }
}

/// What the edits of a file come to as operations, or the message that tells
/// why they cannot be written back.
fn collect_ops(editor: &crate::editor::HexEditor) -> (r: Result<Vec<WriteOp>, String>)
    ensures
        match (first_resize(patch_ops(*editor)), r) {
            (None, Ok(ops)) => ops_write(ops@, patch_ops(*editor)),
            (Some(i), Err(message)) => message@ == resize_text(patch_ops(*editor)[i]),
            _ => false,
        },
{
    let mut ops: Vec<WriteOp> = Vec::new();
    proof {
        lemma_resize_joined(editor.restored@, editor.undo_stack@);
    }
    if let Some(i) = push_ops(&mut ops, &editor.restored) {
        assert(patch_ops(*editor)[i as int] == editor.restored@[i as int]);
        return Err(resize_message(&editor.restored[i]));
    }
    let ghost first = ops@;
    if let Some(i) = push_ops(&mut ops, &editor.undo_stack) {
        assert(patch_ops(*editor)[editor.restored@.len() + i] == editor.undo_stack@[i as int]);
        return Err(resize_message(&editor.undo_stack[i]));
    }
    proof {
        assert(first.skip(0) =~= first);
        lemma_ops_joined(
            ops@,
            editor.restored@.len() as int,
            editor.restored@,
            editor.undo_stack@,
        );
    }
    Ok(ops)
}

fn plan_writeback(app: &mut HxyApp, i: usize, parent: &TabSource, entry_path: String) -> (r: SavePlan)
    requires
        old(app).wf(),
        i < old(app).files@.len(),
    ensures
        final(app).wf(),
        writeback_planned(
            *old(app),
            old(app).files@[i as int],
            parent@,
            entry_path@,
            r,
            *final(app),
        ),
{
    let context = join2("Save ", app.files[i].display_name.as_str());
    let mount = match find_mount_for_source(app, parent) {
        Some(m) => m,
        None => {
            let split = app.console_log(
                ConsoleSeverity::Error,
                context,
                "parent VFS tab is gone -- close + reopen this tab".to_owned(),
            );
            return SavePlan::Refused { split };
        },
    };
    if !mount.writable() {
        let split = app.console_log(
            ConsoleSeverity::Error,
            context,
            "this VFS handler doesn't support writeback".to_owned(),
        );
        return SavePlan::Refused { split };
    }
    match collect_ops(&app.files[i].editor) {
        Err(message) => {
            let split = app.console_log(ConsoleSeverity::Error, context, message);
            SavePlan::Refused { split }
        },
        Ok(ops) => {
            if ops.len() == 0 {
                app.console_log(ConsoleSeverity::Info, context, "no changes to save".to_owned());
                SavePlan::Clean
            } else {
                SavePlan::WriteBack { mount, entry_path, ops }
            }
        },
    }
}

/// Whether a plan is what saving a file takes. An entry goes back into its
/// archive unless a path is to be asked for. Any other file goes where it came
/// from, and the user is asked where that is nowhere on disk.
pub open spec fn save_planned(
    before: HxyApp,
    id: FileId,
    force_dialog: bool,
    plan: SavePlan,
    after: HxyApp,
) -> bool {
    match file_at(before.files@, id) {
        None => plan is Nothing && after == before,
        Some(i) => {
            let file = before.files@[i];
            let root = match file.source {
                Some(s) => source_root(s@),
                None => None,
            };
            match (force_dialog, file.source) {
                (false, Some(TabSource::VfsEntry { parent, entry_path })) => writeback_planned(
                    before,
                    file,
                    (*parent)@,
                    entry_path@,
                    plan,
                    after,
                ),
                _ => after == before && if force_dialog || root is None {
                    plan matches SavePlan::Ask { name, near } && name@ == file.display_name@
                        && match (root, near) {
                        (Some(a), Some(b)) => a == b@,
                        (None, None) => true,
                        _ => false,
                    }
                } else {
                    plan matches SavePlan::WriteTo { path } && path@ == root->0
                },
            }
        },
    }
}

/// Plans the saving of a file.
pub fn plan_save(app: &mut HxyApp, id: FileId, force_dialog: bool) -> (r: SavePlan)
    requires
        old(app).wf(),
    ensures
        final(app).wf(),
        save_planned(*old(app), id, force_dialog, r, *final(app)),
{
    let i = match find_file(&app.files, id) {
        Some(i) => i,
        None => return SavePlan::Nothing,
    };
    if !force_dialog {
        if let Some(TabSource::VfsEntry { parent, entry_path }) = &app.files[i].source {
            let parent = (&**parent).clone();
            let entry_path = entry_path.clone();
            return plan_writeback(app, i, &parent, entry_path);
        }
    }
    let root = match &app.files[i].source {
        Some(s) => s.root_path(),
        None => None,
    };
    if !force_dialog {
        if let Some(path) = root {
            return SavePlan::WriteTo { path };
        }
    }
    SavePlan::Ask {
        name: app.files[i].display_name.clone(),
        near: if force_dialog {
            root
        } else {
            None
        },
    }
}

/// Plans the saving of the active file; nothing without one.
pub fn save_active_file(app: &mut HxyApp, force_dialog: bool) -> (r: (Option<FileId>, SavePlan))
    requires
        old(app).wf(),
    ensures
        final(app).wf(),
        r.0 == active_file(*old(app)),
        match r.0 {
            Some(id) => save_planned(
                after_active_file(*old(app)),
                id,
                force_dialog,
                r.1,
                *final(app),
            ),
            None => r.1 is Nothing && *final(app) == after_active_file(*old(app)),
        },
{
    match active_file_id(app) {
        Some(id) => {
            let plan = plan_save(app, id, force_dialog);
            (Some(id), plan)
        },
        None => (None, SavePlan::Nothing),
    }
}

/// Whether a remembered tab is that of a scratch buffer.
pub open spec fn is_scratch(t: OpenTabState, scratch: u64) -> bool {
    t.source matches TabSource::Anonymous { id, .. } && id == scratch
}

/// Remembered tabs without those of a scratch buffer.
pub open spec fn without_scratch(tabs: Seq<OpenTabState>, scratch: u64) -> Seq<OpenTabState>
    decreases tabs.len(),
{
    if tabs.len() == 0 {
        seq![]
    } else if is_scratch(tabs.last(), scratch) {
        without_scratch(tabs.drop_last(), scratch)
    } else {
        without_scratch(tabs.drop_last(), scratch).push(tabs.last())
    }
}

/// Once its tabs are forgotten a scratch buffer is not remembered, and all else
/// is.
pub proof fn law_scratch_forgotten(tabs: Seq<OpenTabState>, scratch: u64, other: SourceView)
    ensures
        forall|i: int|
            0 <= i < without_scratch(tabs, scratch).len() ==> !is_scratch(
                #[trigger] without_scratch(tabs, scratch)[i],
                scratch,
            ),
        tab_recorded(without_scratch(tabs, scratch), other) ==> tab_recorded(tabs, other),
        !(other is Anonymous) ==> tab_recorded(without_scratch(tabs, scratch), other)
            == tab_recorded(tabs, other),
        sources_distinct(tabs) ==> sources_distinct(without_scratch(tabs, scratch)),
    decreases tabs.len(),
{
    if tabs.len() > 0 {
        let init = tabs.drop_last();
        let kept = without_scratch(init, scratch);
        let last = tabs.last();
        law_scratch_forgotten(init, scratch, other);
        law_scratch_forgotten(init, scratch, last.source@);
        assert(tab_recorded(tabs, other) == (tab_recorded(init, other) || last.source@ == other))
            by {
            if tab_recorded(init, other) {
                let i = choose|i: int| 0 <= i < init.len() && (#[trigger] init[i]).source@ == other;
                assert(tabs[i].source@ == other);
            }
            if last.source@ == other {
                assert(tabs[tabs.len() - 1].source@ == other);
            }
            if tab_recorded(tabs, other) {
                let i = choose|i: int| 0 <= i < tabs.len() && (#[trigger] tabs[i]).source@ == other;
                if i < init.len() {
                    assert(init[i].source@ == other);
                }
            }
        }
        if !is_scratch(last, scratch) {
            let all = kept.push(last);
            assert(tab_recorded(all, other) == (tab_recorded(kept, other) || last.source@ == other))
                by {
                if tab_recorded(kept, other) {
                    let i = choose|i: int|
                        0 <= i < kept.len() && (#[trigger] kept[i]).source@ == other;
                    assert(all[i].source@ == other);
                }
                if last.source@ == other {
                    assert(all[kept.len() as int].source@ == other);
                }
                if tab_recorded(all, other) {
                    let i = choose|i: int| 0 <= i < all.len() && (#[trigger] all[i]).source@ == other;
                    if i < kept.len() {
                        assert(kept[i].source@ == other);
                    }
                }
            }
            if sources_distinct(tabs) {
                assert(sources_distinct(init)) by {
                    assert forall|i: int, j: int| 0 <= i < j < init.len() implies (
                    #[trigger] init[i]).source@ != (#[trigger] init[j]).source@ by {
                        assert(tabs[i].source@ != tabs[j].source@);
                    }
                }
                assert(!tab_recorded(init, last.source@)) by {
                    if tab_recorded(init, last.source@) {
                        let i = choose|i: int|
                            0 <= i < init.len() && (#[trigger] init[i]).source@ == last.source@;
                        assert(tabs[i].source@ != tabs[tabs.len() - 1].source@);
                    }
                }
                assert forall|i: int, j: int| 0 <= i < j < all.len() implies (
                #[trigger] all[i]).source@ != (#[trigger] all[j]).source@ by {
                    if j < kept.len() {
                        assert(kept[i].source@ != kept[j].source@);
                    } else {
                        if kept[i].source@ == last.source@ {
                            assert(tab_recorded(kept, last.source@));
                        }
                    }
                }
            }
        } else {
            assert(last.source@ is Anonymous) by {
                reveal_with_fuel(source_view, 1);
            }
            if sources_distinct(tabs) {
                assert forall|i: int, j: int| 0 <= i < j < init.len() implies (
                #[trigger] init[i]).source@ != (#[trigger] init[j]).source@ by {
                    assert(tabs[i].source@ != tabs[j].source@);
                }
            }
        }
    }
}

fn forget_scratch(tabs: &mut Vec<OpenTabState>, scratch: u64)
    ensures
        final(tabs)@ == without_scratch(old(tabs)@, scratch),
        sources_distinct(old(tabs)@) ==> sources_distinct(final(tabs)@),
{
    let ghost all = tabs@;
    let ghost mut done: int = 0;
    let mut rest: Vec<OpenTabState> = Vec::new();
    std::mem::swap(tabs, &mut rest);
    assert(rest@ =~= all.skip(0));
    assert(all.take(0) =~= seq![]);
    assert(tabs@ =~= without_scratch(all.take(0), scratch));
    while rest.len() > 0
        invariant
            0 <= done <= all.len(),
            rest@ == all.skip(done),
            tabs@ == without_scratch(all.take(done), scratch),
        decreases rest.len(),
    {
        assert(all.take(done + 1).drop_last() =~= all.take(done));
        let t = rest.remove(0);
        assert(t == all[done]);
        let gone = match &t.source {
            TabSource::Anonymous { id, .. } => *id == scratch,
            _ => false,
        };
        if !gone {
            tabs.push(t);
        }
        proof {
            done = done + 1;
        }
        assert(rest@ =~= all.skip(done));
    }
    proof {
        assert(all.take(done) =~= all);
        law_scratch_forgotten(all, scratch, SourceView::Filesystem(seq![]));
    }
}

/// The scratch buffer that a file was, if it was one.
pub open spec fn scratch_of(file: OpenFile) -> Option<u64> {
    match file.source {
        Some(TabSource::Anonymous { id, .. }) => Some(id),
        _ => None,
    }
}

/// A remembered tab of a file on disk, with nothing selected.
pub open spec fn plain_tab(t: OpenTabState, path: Seq<char>) -> bool {
    &&& t.source@ == SourceView::Filesystem(path)
    &&& t.selection is None
    &&& t.scroll == 0
    &&& !t.as_workspace
    &&& !t.visualizer_open
}

/// Whether one list of remembered tabs is another after a file was saved to
/// disk: one that was a scratch buffer is remembered by its path from now on.
pub open spec fn tabs_after_save(
    before: Seq<OpenTabState>,
    scratch: Option<u64>,
    path: Seq<char>,
    after: Seq<OpenTabState>,
) -> bool {
    match scratch {
        Some(n) => {
            let kept = without_scratch(before, n);
            if tab_recorded(kept, SourceView::Filesystem(path)) {
                after == kept
            } else {
                after.len() == kept.len() + 1 && after.drop_last() == kept && plain_tab(
                    after.last(),
                    path,
                )
            }
        },
        None => after == before,
    }
}

/// Whether one file is another after it was saved to disk: its contents are the
/// saved ones, without history, it comes from that path, and it is called after
/// it.
pub open spec fn file_saved(a: OpenFile, path: Seq<char>, name: Option<String>, b: OpenFile)
    -> bool {
    &&& b == (OpenFile {
        editor: b.editor,
        source: b.source,
        display_name: b.display_name,
        ..a
    })
    &&& swapped_to(a.editor, a.editor.bytes@, b.editor)
    &&& (b.source matches Some(s) && s@ == SourceView::Filesystem(path))
    &&& b.display_name == match name {
        Some(n) => n,
        None => a.display_name,
    }
}

/// What came of saving a file to disk.
pub struct Saved {
    /// Whether the bytes were written.
    pub ok: bool,
    /// A scratch buffer that is not needed any more.
    pub drop_scratch: Option<u64>,
    pub split: Option<SplitRequest>,
}

/// Whether one editor is another after its file was written to disk, or could
/// not be.
pub open spec fn save_finished(
    before: HxyApp,
    i: int,
    path: Seq<char>,
    name: Option<String>,
    written: Result<(), String>,
    r: Saved,
    mid: HxyApp,
    after: HxyApp,
) -> bool {
    match written {
        Ok(_) => {
            &&& mid == (HxyApp { files: mid.files, open_tabs: mid.open_tabs, ..before })
            &&& mid.files@.len() == before.files@.len()
            &&& mid.files@ == before.files@.update(i, mid.files@[i])
            &&& file_saved(before.files@[i], path, name, mid.files@[i])
            &&& tabs_after_save(
                before.open_tabs@,
                scratch_of(before.files@[i]),
                path,
                mid.open_tabs@,
            )
            &&& r.ok
            &&& r.drop_scratch == scratch_of(before.files@[i])
            &&& message_logged(
                mid,
                ConsoleSeverity::Info,
                save_context(path),
                "saved"@,
                r.split,
                after,
            )
        },
        Err(e) => {
            &&& mid == before
            &&& !r.ok
            &&& r.drop_scratch is None
            &&& message_logged(
                before,
                ConsoleSeverity::Error,
                save_context(path),
                "write: "@ + e@,
                r.split,
                after,
            )
        },
    }
}

fn rebase_file(app: &mut HxyApp, i: usize, path: &String, name: Option<String>)
    requires
        old(app).wf(),
        i < old(app).files@.len(),
    ensures
        final(app).wf(),
        file_replaced(*old(app), i as int, *final(app)),
        file_saved(old(app).files@[i as int], path@, name, final(app).files@[i as int]),
{
    let bytes = copy_bytes(&app.files[i].editor.bytes);
    app.files[i].editor.swap_source(bytes);
    app.files[i].source = Some(TabSource::Filesystem(path.clone()));
    if let Some(n) = name {
        app.files[i].display_name = n;
    }
    assert(app.files@ =~= old(app).files@.update(i as int, app.files@[i as int]));
}

fn rebase_tabs(tabs: &mut Vec<OpenTabState>, scratch: Option<u64>, path: &String)
    ensures
        tabs_after_save(old(tabs)@, scratch, path@, final(tabs)@),
        sources_distinct(old(tabs)@) ==> sources_distinct(final(tabs)@),
{
    if let Some(n) = scratch {
        forget_scratch(tabs, n);
        let ghost kept = tabs@;
        let entry = OpenTabState {
            source: TabSource::Filesystem(path.clone()),
            selection: None,
            scroll: 0,
            as_workspace: false,
            visualizer_open: false,
        };
        record_tab(tabs, entry);
        assert(tabs@.len() == kept.len() + 1 ==> tabs@.drop_last() =~= kept);
    }
}

/// Takes over that a file was written to disk, or tells why it was not.
#[verifier::rlimit(40)]
pub fn finish_save(
    app: &mut HxyApp,
    id: FileId,
    path: String,
    name: Option<String>,
    written: Result<(), String>,
) -> (r: Saved)
    requires
        old(app).wf(),
    ensures
        final(app).wf(),
        match file_at(old(app).files@, id) {
            Some(i) => exists|mid: HxyApp| #[trigger]
                save_finished(*old(app), i, path@, name, written, r, mid, *final(app)),
            None => !r.ok && r.drop_scratch is None && r.split is None && *final(app) == *old(app),
        },
{
    let i = match find_file(&app.files, id) {
        Some(i) => i,
        None => return Saved { ok: false, drop_scratch: None, split: None },
    };
    let context = join2("Save ", path.as_str());
    match written {
        Ok(()) => {
            let scratch = match &app.files[i].source {
                Some(TabSource::Anonymous { id, .. }) => Some(*id),
                _ => None,
            };
            rebase_file(app, i, &path, name);
            rebase_tabs(&mut app.open_tabs, scratch, &path);
            let ghost mid = *app;
            let split = app.console_log(ConsoleSeverity::Info, context, "saved".to_owned());
            let r = Saved { ok: true, drop_scratch: scratch, split };
            assert(save_finished(*old(app), i as int, path@, name, written, r, mid, *app));
            r
        },
        Err(e) => {
            let message = join2("write: ", e.as_str());
            let ghost mid = *app;
            let split = app.console_log(ConsoleSeverity::Error, context, message);
            let r = Saved { ok: false, drop_scratch: None, split };
            assert(save_finished(*old(app), i as int, path@, name, written, r, mid, *app));
            r
        },
    }
}

/// What is told of bytes of which only a part was written.
pub open spec fn partial_text(offset: u64, asked: nat, written: u64) -> Seq<char> {
    "partial write at offset "@ + dec(offset as nat) + ": requested "@ + dec(asked) + ", wrote "@
        + dec(written as nat)
}

/// What is told of bytes that could not be written.
pub open spec fn failed_text(offset: u64, reason: Seq<char>) -> Seq<char> {
    "write @ offset "@ + dec(offset as nat) + ": "@ + reason
}

/// What is told once everything was written.
pub open spec fn written_text(written: nat, asked: nat) -> Seq<char> {
    "wrote "@ + dec(written) + "/"@ + dec(asked) + " bytes via plugin writer"@
}

/// Whether a line tells a thing.
pub open spec fn line_is(line: LogLine, severity: ConsoleSeverity, message: Seq<char>) -> bool {
    line.severity == severity && line.message@ == message
}

/// What is told of one write: nothing where all of it was written.
pub open spec fn told_of(op: WriteOp, result: Result<u64, String>) -> Option<
    (ConsoleSeverity, Seq<char>),
> {
    match result {
        Ok(written) => if written < op.bytes@.len() {
            Some(
                (ConsoleSeverity::Warning, partial_text(op.offset, op.bytes@.len(), written)),
            )
        } else {
            None
        },
        Err(e) => Some((ConsoleSeverity::Error, failed_text(op.offset, e@))),
    }
}

/// Whether lines tell of writes in order.
pub open spec fn writes_told(ops: Seq<WriteOp>, results: Seq<Result<u64, String>>, lines: Seq<LogLine>)
    -> bool
    decreases results.len(),
{
    if results.len() == 0 {
        lines.len() == 0
    } else {
        match told_of(ops[results.len() - 1], results.last()) {
            Some((severity, message)) => lines.len() > 0 && line_is(lines.last(), severity, message)
                && writes_told(ops, results.drop_last(), lines.drop_last()),
            None => writes_told(ops, results.drop_last(), lines),
        }
    }
}

/// How much was asked to be written.
pub open spec fn asked_total(ops: Seq<WriteOp>) -> nat
    decreases ops.len(),
{
    if ops.len() == 0 {
        0
    } else {
        asked_total(ops.drop_last()) + ops.last().bytes@.len()
    }
}

/// How much was written.
pub open spec fn written_total(results: Seq<Result<u64, String>>) -> nat
    decreases results.len(),
{
    if results.len() == 0 {
        0
    } else {
        written_total(results.drop_last()) + match results.last() {
            Ok(n) => n as nat,
            Err(_) => 0,
        }
    }
}

/// Whether results are those of writing operations in order up to the first
/// that failed.
pub open spec fn results_of(ops: Seq<WriteOp>, results: Seq<Result<u64, String>>) -> bool {
    &&& results.len() <= ops.len()
    &&& forall|i: int| 0 <= i < results.len() - 1 ==> (#[trigger] results[i]) is Ok
    &&& (results.len() == 0 || results.last() is Ok) ==> results.len() == ops.len()
}

/// Whether the writing of operations went through.
pub open spec fn went_through(results: Seq<Result<u64, String>>) -> bool {
    results.len() == 0 || results.last() is Ok
}

proof fn lemma_totals_grow(ops: Seq<WriteOp>, results: Seq<Result<u64, String>>, k: int)
    requires
        0 <= k <= results.len() <= ops.len(),
    ensures
        asked_total(ops.take(k)) <= asked_total(ops),
        written_total(results.take(k)) <= written_total(results),
    decreases ops.len() + results.len(),
{
    assert(ops.take(ops.len() as int) =~= ops);
    assert(results.take(results.len() as int) =~= results);
    if k < results.len() {
        lemma_totals_grow(ops, results.drop_last(), k);
        assert(results.drop_last().take(k) =~= results.take(k));
    } else if k < ops.len() {
        lemma_totals_grow(ops.drop_last(), results, k);
        assert(ops.drop_last().take(k) =~= ops.take(k));
    }
}

fn tell_write(lines: &mut Vec<LogLine>, op: &WriteOp, result: &Result<u64, String>)
    ensures
        match told_of(*op, *result) {
            Some((severity, message)) => final(lines)@.len() == old(lines)@.len() + 1
                && final(lines)@.drop_last() == old(lines)@ && line_is(
                final(lines)@.last(),
                severity,
                message,
            ),
            None => final(lines)@ == old(lines)@,
        },
{
    let n: u64 = op.bytes.len() as u64;
    match result {
        Ok(written) => {
            if *written < n {
                let mut message = "partial write at offset ".to_owned();
                push_dec(&mut message, op.offset);
                message.append(": requested ");
                push_dec(&mut message, n);
                message.append(", wrote ");
                push_dec(&mut message, *written);
                lines.push(LogLine { severity: ConsoleSeverity::Warning, message });
                assert(lines@.drop_last() =~= old(lines)@);
            }
        },
        Err(e) => {
            let mut message = "write @ offset ".to_owned();
            push_dec(&mut message, op.offset);
            message.append(": ");
            message.append(e.as_str());
            lines.push(LogLine { severity: ConsoleSeverity::Error, message });
            assert(lines@.drop_last() =~= old(lines)@);
        },
    }
}

fn tell_writes(ops: &Vec<WriteOp>, results: &Vec<Result<u64, String>>) -> (r: (
    Vec<LogLine>,
    u64,
    u64,
))
    requires
        results@.len() <= ops@.len(),
        asked_total(ops@) <= u64::MAX,
        written_total(results@) <= u64::MAX,
    ensures
        writes_told(ops@, results@, r.0@),
        r.1 == written_total(results@),
        r.2 == asked_total(ops@.take(results@.len() as int)),
{
    let mut lines: Vec<LogLine> = Vec::new();
    let mut written: u64 = 0;
    let mut asked: u64 = 0;
    let mut i: usize = 0;
    assert(results@.take(0) =~= seq![]);
    assert(ops@.take(0) =~= seq![]);
    while i < results.len()
        invariant
            i <= results@.len() <= ops@.len(),
            asked_total(ops@) <= u64::MAX,
            written_total(results@) <= u64::MAX,
            writes_told(ops@, results@.take(i as int), lines@),
            written == written_total(results@.take(i as int)),
            asked == asked_total(ops@.take(i as int)),
        decreases results.len() - i,
    {
        assert(results@.take(i as int + 1).drop_last() =~= results@.take(i as int));
        assert(ops@.take(i as int + 1).drop_last() =~= ops@.take(i as int));
        proof {
            lemma_totals_grow(ops@, results@, i as int + 1);
        }
        tell_write(&mut lines, &ops[i], &results[i]);
        asked = asked + ops[i].bytes.len() as u64;
        if let Ok(n) = &results[i] {
            written = written + *n;
        }
        i = i + 1;
    }
    assert(results@.take(results@.len() as int) =~= results@);
    (lines, written, asked)
}

/// Whether one editor is another after edits were written back into an archive.
/// What went wrong is told. Where all went through, the file's contents are the
/// saved ones, without history, and what was written is told.
pub open spec fn writeback_finished(
    before: HxyApp,
    i: int,
    ops: Seq<WriteOp>,
    results: Seq<Result<u64, String>>,
    lines: Seq<LogLine>,
    split: Option<SplitRequest>,
    mid: HxyApp,
    after: HxyApp,
) -> bool {
    let context = save_context(before.files@[i].display_name@);
    if went_through(results) {
        &&& file_replaced(before, i, mid)
        &&& mid.files@[i] == (OpenFile { editor: mid.files@[i].editor, ..before.files@[i] })
        &&& swapped_to(
            before.files@[i].editor,
            before.files@[i].editor.bytes@,
            mid.files@[i].editor,
        )
        &&& lines.len() > 0
        &&& writes_told(ops, results, lines.drop_last())
        &&& line_is(
            lines.last(),
            ConsoleSeverity::Info,
            written_text(written_total(results), asked_total(ops)),
        )
        &&& lines_logged(mid, context, lines, split, after)
    } else {
        &&& mid == before
        &&& writes_told(ops, results, lines)
        &&& lines_logged(before, context, lines, split, after)
    }
}

fn settle_file(app: &mut HxyApp, i: usize)
    requires
        old(app).wf(),
        i < old(app).files@.len(),
    ensures
        final(app).wf(),
        file_replaced(*old(app), i as int, *final(app)),
        final(app).files@[i as int] == (OpenFile {
            editor: final(app).files@[i as int].editor,
            ..old(app).files@[i as int]
        }),
        swapped_to(
            old(app).files@[i as int].editor,
            old(app).files@[i as int].editor.bytes@,
            final(app).files@[i as int].editor,
        ),
{
    let bytes = copy_bytes(&app.files[i].editor.bytes);
    app.files[i].editor.swap_source(bytes);
    assert(app.files@ =~= old(app).files@.update(i as int, app.files@[i as int]));
}

/// Takes over that edits were written back into an archive, or tells what went
/// wrong. Returns whether all of them were written, at least in part.
#[verifier::rlimit(40)]
pub fn finish_writeback(
    app: &mut HxyApp,
    id: FileId,
    ops: &Vec<WriteOp>,
    results: &Vec<Result<u64, String>>,
) -> (r: (bool, Option<SplitRequest>))
    requires
        old(app).wf(),
        results_of(ops@, results@),
        asked_total(ops@) <= u64::MAX,
        written_total(results@) <= u64::MAX,
    ensures
        final(app).wf(),
        match file_at(old(app).files@, id) {
            Some(i) => r.0 == went_through(results@) && exists|lines: Seq<LogLine>, mid: HxyApp|
             #[trigger]
                writeback_finished(
                    *old(app),
                    i,
                    ops@,
                    results@,
                    lines,
                    r.1,
                    mid,
                    *final(app),
                ),
            None => !r.0 && r.1 is None && *final(app) == *old(app),
        },
{
    let i = match find_file(&app.files, id) {
        Some(i) => i,
        None => return (false, None),
    };
    let context = join2("Save ", app.files[i].display_name.as_str());
    let (mut lines, written, asked) = tell_writes(ops, results);
    let through = results.len() == 0 || results[results.len() - 1].is_ok();
    if through {
        let ghost told = lines@;
        settle_file(app, i);
        let mut message = "wrote ".to_owned();
        push_dec(&mut message, written);
        message.append("/");
        push_dec(&mut message, asked);
        message.append(" bytes via plugin writer");
        lines.push(LogLine { severity: ConsoleSeverity::Info, message });
        assert(lines@.drop_last() =~= told);
        assert(ops@.take(ops@.len() as int) =~= ops@);
    }
    let ghost mid = *app;
    let split = log_lines(app, &context, &lines);
    assert(writeback_finished(
        *old(app),
        i as int,
        ops@,
        results@,
        lines@,
        split,
        mid,
        *app,
    ));
    (through, split)
}

/// A saved entry has no unsaved edits and shows the same bytes as before.
pub proof fn law_written_back_is_clean(before: HexEditor, after: HexEditor)
    requires
        swapped_to(before, before.bytes@, after),
    ensures
        !after.spec_is_dirty(),
        after.bytes@ == before.bytes@,
        patch_ops(after).len() == 0,
{
}

/// A file on disk is saved to its own path. A file that comes from no path, and any file
/// where a path is to be asked for, is asked for under its own name, next to the path that
/// it comes from. Planning changes nothing then. A file that is not open is not saved.
pub proof fn law_file_is_saved_where_it_came_from(
    before: HxyApp,
    i: int,
    id: FileId,
    force_dialog: bool,
    plan: SavePlan,
    after: HxyApp,
)
    requires
        before.wf(),
        save_planned(before, id, force_dialog, plan, after),
    ensures
        0 <= i < before.files@.len() && before.files@[i].id == id ==> {
            let file = before.files@[i];
            &&& file.source matches Some(TabSource::Filesystem(path)) ==> {
                &&& after == before
                &&& !force_dialog ==> (plan matches SavePlan::WriteTo { path: to } && to@ == path@)
                &&& force_dialog ==> (plan matches SavePlan::Ask { name, near: Some(near) } && name@
                    == file.display_name@ && near@ == path@)
            }
            &&& (file.source is None || file.source->0 is Anonymous || file.source->0 is PluginMount)
                ==> (plan matches SavePlan::Ask { name, near } && name@ == file.display_name@ && near
                is None) && after == before
            &&& (file.source is Some && file.source->0 is VfsEntry && force_dialog) ==> (
            plan matches SavePlan::Ask { name, near } && name@ == file.display_name@) && after
                == before
        },
        (forall|k: int| 0 <= k < before.files@.len() ==> (#[trigger] before.files@[k]).id != id)
            ==> plan is Nothing && after == before,
{
    law_file_of_id_is_found(before.files@, id);
    if 0 <= i < before.files@.len() && before.files@[i].id == id {
        lemma_file_at(before.files@, id, i);
        if before.files@[i].source is Some {
            reveal_with_fuel(source_root, 2);
        }
    }
}

/// An entry is written back into its archive where that is mounted, can be written and
/// no edit changes the length: each edit in order, at its place, with the bytes that it
/// put in. One edit that changes the length, or an archive that is gone or cannot be
/// written, refuses it.
pub proof fn law_entry_is_written_back_edit_by_edit(
    before: HxyApp,
    file: OpenFile,
    parent: SourceView,
    entry: Seq<char>,
    plan: SavePlan,
    after: HxyApp,
    k: int,
)
    requires
        writeback_planned(before, file, parent, entry, plan, after),
    ensures
        ({
            let edits = file.editor.restored@ + file.editor.undo_stack@;
            let can_write = live_mount(before, parent) matches Some(m) && (match m {
                MountRef::Workspace { workspace_id: _, writable } => writable,
                MountRef::Plugin { mount_id: _, writable } => writable,
            });
            &&& !can_write ==> plan is Refused
            &&& 0 <= k < edits.len() && edits[k].removed@.len() != edits[k].inserted@.len() ==> plan
                is Refused
            &&& (can_write && forall|j: int|
                0 <= j < edits.len() ==> (#[trigger] edits[j]).removed@.len()
                    == edits[j].inserted@.len()) ==> {
                &&& edits.len() == 0 <==> plan is Clean
                &&& edits.len() > 0 ==> (plan matches SavePlan::WriteBack {
                    mount,
                    entry_path,
                    ops,
                } && Some(mount) == live_mount(before, parent) && entry_path@ == entry && ops@.len()
                    == edits.len() && (0 <= k < edits.len() ==> ops@[k].offset == edits[k].offset
                    && ops@[k].bytes@ == edits[k].inserted@) && after == before)
            }
            &&& after.files == before.files
        }),
{
    let edits = patch_ops(file.editor);
    lemma_first_resize(edits);
    if 0 <= k < edits.len() && edits[k].removed@.len() != edits[k].inserted@.len() {
        assert(!in_place(edits[k]));
    }
    if forall|j: int|
        0 <= j < edits.len() ==> (#[trigger] edits[j]).removed@.len()
            == edits[j].inserted@.len() {
        assert forall|j: int| 0 <= j < edits.len() implies in_place(#[trigger] edits[j]) by {}
    }
}

/// A file that was written to disk shows the same bytes as before, has no unsaved edits
/// and nothing to undo, and comes from that path from now on; no other file changes. One
/// that could not be written changes nothing about files.
pub proof fn law_saved_file_is_clean(
    before: HxyApp,
    i: int,
    path: Seq<char>,
    name: Option<String>,
    written: Result<(), String>,
    r: Saved,
    mid: HxyApp,
    after: HxyApp,
    k: int,
)
    requires
        0 <= i < before.files@.len(),
        save_finished(before, i, path, name, written, r, mid, after),
    ensures
        written is Ok <==> r.ok,
        written is Ok ==> {
            let file = after.files@[i];
            &&& file.editor.bytes@ == before.files@[i].editor.bytes@
            &&& !file.editor.spec_is_dirty() && file.editor.undo_stack@.len() == 0
            &&& file.source matches Some(TabSource::Filesystem(p)) && p@ == path
            &&& file.id == before.files@[i].id
            &&& name matches Some(n) ==> file.display_name@ == n@
            &&& name is None ==> file.display_name@ == before.files@[i].display_name@
            &&& after.files@.len() == before.files@.len()
            &&& 0 <= k < before.files@.len() && k != i ==> after.files@[k] == before.files@[k]
        },
        written is Err ==> after.files == before.files && after.open_tabs == before.open_tabs
            && r.drop_scratch is None,
{
    if written is Ok {
        law_written_back_is_clean(before.files@[i].editor, mid.files@[i].editor);
        assert(after.files == mid.files);
        reveal_with_fuel(crate::source::source_view, 2);
        match mid.files@[i].source {
            Some(TabSource::Filesystem(p)) => {},
            _ => {},
        }
    }
}

/// A scratch file that was saved is remembered by its path from now on and no longer as
/// a scratch file, and its buffer is to be dropped; other files on disk keep their place
/// among the tabs to open again.
pub proof fn law_saved_scratch_becomes_file(
    before: Seq<OpenTabState>,
    n: u64,
    path: Seq<char>,
    after: Seq<OpenTabState>,
    i: int,
)
    requires
        tabs_after_save(before, Some(n), path, after),
    ensures
        tab_recorded(after, SourceView::Filesystem(path)),
        0 <= i < after.len() ==> !(after[i].source matches TabSource::Anonymous { id, title: _ } && id
            == n),
        tabs_after_save(before, None, path, before),
{
    let kept = without_scratch(before, n);
    law_scratch_forgotten(before, n, SourceView::Filesystem(path));
    if !tab_recorded(kept, SourceView::Filesystem(path)) {
        assert(after.last() == after[after.len() - 1]);
        assert(after[after.len() - 1].source@ == SourceView::Filesystem(path));
    }
    if 0 <= i < after.len() {
        if i < kept.len() {
            if tab_recorded(kept, SourceView::Filesystem(path)) {
                assert(!is_scratch(kept[i], n));
            } else {
                assert(after.drop_last()[i] == after[i]);
                assert(!is_scratch(kept[i], n));
            }
        } else {
            assert(after.last().source@ == SourceView::Filesystem(path));
            reveal_with_fuel(crate::source::source_view, 2);
        }
    }
}

/// What was asked for and what was written add up write by write; a write that failed
/// wrote nothing.
pub proof fn law_totals_add_up(
    ops: Seq<WriteOp>,
    op: WriteOp,
    results: Seq<Result<u64, String>>,
    result: Result<u64, String>,
)
    ensures
        asked_total(seq![]) == 0 && written_total(seq![]) == 0,
        asked_total(ops.push(op)) == asked_total(ops) + op.bytes@.len(),
        result matches Ok(n) ==> written_total(results.push(result)) == written_total(results) + n,
        result is Err ==> written_total(results.push(result)) == written_total(results),
{
    assert(ops.push(op).drop_last() =~= ops);
    assert(results.push(result).drop_last() =~= results);
}

/// A write is told of exactly where it failed or wrote less than was asked for: as an
/// error or as a warning.
pub proof fn law_short_writes_are_told(op: WriteOp, result: Result<u64, String>)
    ensures
        result matches Ok(n) ==> {
            &&& n >= op.bytes@.len() ==> told_of(op, result) is None
            &&& n < op.bytes@.len() ==> (told_of(op, result) matches Some((s, m)) && s is Warning && m
                == "partial write at offset "@ + dec(op.offset as nat) + ": requested "@ + dec(
                op.bytes@.len(),
            ) + ", wrote "@ + dec(n as nat))
        },
        result matches Err(e) ==> (told_of(op, result) matches Some((s, m)) && s is Error && m
            == "write @ offset "@ + dec(op.offset as nat) + ": "@ + e@),
{
}

/// Edits that were written back leave the bytes as they are and nothing unsaved, where
/// all of them went through; where one failed, the edits stay unsaved and the file as it
/// is.
pub proof fn law_failed_writeback_keeps_edits(
    before: HxyApp,
    i: int,
    ops: Seq<WriteOp>,
    results: Seq<Result<u64, String>>,
    lines: Seq<LogLine>,
    split: Option<SplitRequest>,
    mid: HxyApp,
    after: HxyApp,
    k: int,
)
    requires
        0 <= i < before.files@.len(),
        results_of(ops, results),
        writeback_finished(before, i, ops, results, lines, split, mid, after),
    ensures
        (0 <= k < results.len() && results[k] is Err) ==> mid.files == before.files,
        (forall|j: int| 0 <= j < results.len() ==> (#[trigger] results[j]) is Ok) ==> {
            &&& !mid.files@[i].editor.spec_is_dirty()
            &&& mid.files@[i].editor.bytes@ == before.files@[i].editor.bytes@
            &&& 0 <= k < before.files@.len() && k != i ==> mid.files@[k] == before.files@[k]
        },
{
    if 0 <= k < results.len() && results[k] is Err {
        assert(k == results.len() - 1);
        assert(results.last() == results[k]);
    }
    if forall|j: int| 0 <= j < results.len() ==> (#[trigger] results[j]) is Ok {
        if results.len() > 0 {
            assert(results[results.len() - 1] is Ok);
        }
        law_written_back_is_clean(before.files@[i].editor, mid.files@[i].editor);
    }
}

} // verus!
