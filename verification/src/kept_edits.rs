//! Unsaved edits that outlive a run: they are kept without the file they were
//! made in, and laid over what the file holds when it is opened again.

use vstd::prelude::*;
use crate::editor::{copy_bytes, splice_bytes, Edit, EditMode, HexEditor};
#[allow(unused_imports)]
use crate::editor::history_fits;
use crate::reload::{redo_over, replay};
#[allow(unused_imports)]
use crate::reload::{edit_fits, lemma_replay_unwinds, replayed, replays};
#[allow(unused_imports)]
use crate::save::{patch_ops, unwound};

verus! {

/// The edits of an earlier run.
pub struct KeptEdits {
    /// Edits below the history.
    pub below: Vec<Edit>,
    pub undo: Vec<Edit>,
    pub redo: Vec<Edit>,
}

/// What a file holds without its unsaved edits.
pub open spec fn unedited(editor: HexEditor) -> Seq<u8> {
    unwound(editor.bytes@, patch_ops(editor))
}

/// Whether one editor is another in which kept edits took the place of its own:
/// they were made again in what the file holds, first those below the history and
/// then those of it, and the steps that had been taken back can still be done as
/// far as they fit. It accepts edits.
pub open spec fn edits_laid(before: HexEditor, kept: KeptEdits, after: HexEditor) -> bool {
    let base = unedited(before);
    let under = replayed(base, kept.below@);
    &&& replays(base, kept.below@, after.restored@)
    &&& after.bytes@ == replayed(under, kept.undo@)
    &&& replays(under, kept.undo@, after.undo_stack@)
    &&& replays(after.bytes@, kept.redo@.reverse(), after.redo_stack@.reverse())
    &&& after.selection == before.selection
    &&& after.low_nibble == before.low_nibble
    &&& after.edit_mode is Mutable
}

/// Making edits again in two parts is making all of them again.
pub proof fn law_replay_in_parts(base: Seq<u8>, first: Seq<Edit>, second: Seq<Edit>)
    ensures
        replayed(base, first + second) == replayed(replayed(base, first), second),
    decreases second.len(),
{
    let all = first + second;
    if second.len() == 0 {
        assert(all =~= first);
    } else {
        assert(all.drop_last() =~= first + second.drop_last());
        law_replay_in_parts(base, first, second.drop_last());
    }
}

proof fn lemma_replays_in_parts(
    base: Seq<u8>,
    first: Seq<Edit>,
    second: Seq<Edit>,
    first_steps: Seq<Edit>,
    second_steps: Seq<Edit>,
)
    requires
        replays(base, first, first_steps),
        replays(replayed(base, first), second, second_steps),
    ensures
        replays(base, first + second, first_steps + second_steps),
    decreases second.len(),
{
    let all = first + second;
    let steps = first_steps + second_steps;
    if second.len() == 0 {
        assert(all =~= first);
        assert(steps =~= first_steps);
    } else {
        let before = replayed(replayed(base, first), second.drop_last());
        assert(all.drop_last() =~= first + second.drop_last());
        law_replay_in_parts(base, first, second.drop_last());
        if edit_fits(before, second.last()) {
            lemma_replays_in_parts(
                base,
                first,
                second.drop_last(),
                first_steps,
                second_steps.drop_last(),
            );
            assert(steps.drop_last() =~= first_steps + second_steps.drop_last());
        } else {
            lemma_replays_in_parts(base, first, second.drop_last(), first_steps, second_steps);
        }
    }
}

/// In a file without unsaved edits, kept edits are made again in what it shows.
pub proof fn law_laid_over_file(before: HexEditor, kept: KeptEdits, after: HexEditor)
    requires
        edits_laid(before, kept, after),
        !before.spec_is_dirty(),
    ensures
        after.bytes@ == replayed(before.bytes@, kept.below@ + kept.undo@),
        replays(before.bytes@, kept.below@ + kept.undo@, patch_ops(after)),
{
    assert(unedited(before) == before.bytes@) by {
        assert(patch_ops(before).len() == 0);
    }
    law_replay_in_parts(before.bytes@, kept.below@, kept.undo@);
    lemma_replays_in_parts(
        before.bytes@,
        kept.below@,
        kept.undo@,
        after.restored@,
        after.undo_stack@,
    );
}

/// Laying kept edits over a file leaves alone what it holds without them: taking
/// all of them back gives it.
pub proof fn law_laid_edits_come_off(before: HexEditor, kept: KeptEdits, after: HexEditor)
    requires
        edits_laid(before, kept, after),
    ensures
        unedited(after) == unedited(before),
{
    let base = unedited(before);
    law_replay_in_parts(base, kept.below@, kept.undo@);
    lemma_replays_in_parts(base, kept.below@, kept.undo@, after.restored@, after.undo_stack@);
    lemma_replay_unwinds(base, kept.below@ + kept.undo@, patch_ops(after));
}

/// Without kept edits a file shows what it holds, and nothing is unsaved.
pub proof fn law_lay_nothing(before: HexEditor, kept: KeptEdits, after: HexEditor)
    requires
        edits_laid(before, kept, after),
        kept.below@.len() == 0,
        kept.undo@.len() == 0,
    ensures
        after.bytes@ == unedited(before),
        !after.spec_is_dirty(),
{
}

/// Takes edits back, down to those below them.
fn take_back(bytes: Vec<u8>, edits: &Vec<Edit>, Ghost(below): Ghost<Seq<Edit>>) -> (r: Vec<u8>)
    requires
        history_fits(bytes@, below + edits@),
    ensures
        history_fits(r@, below),
        unwound(r@, below) == unwound(bytes@, below + edits@),
{
    let ghost start = bytes@;
    let mut current = bytes;
    let mut i: usize = edits.len();
    assert(edits@.take(i as int) =~= edits@);
    while i > 0
        invariant
            i <= edits@.len(),
            history_fits(current@, below + edits@.take(i as int)),
            unwound(current@, below + edits@.take(i as int)) == unwound(start, below + edits@),
        decreases i,
    {
        let ghost part = below + edits@.take(i as int);
        assert(part.drop_last() =~= below + edits@.take(i as int - 1));
        assert(part.last() == edits@[i as int - 1]);
        i = i - 1;
        let len: usize = current.len();
        assert(len == current@.len());
        let at: usize = edits[i].offset as usize;
        current = splice_bytes(&current, at, edits[i].inserted.len(), &edits[i].removed);
    }
    assert(below + edits@.take(0) =~= below);
    current
}

/// What a file holds without its unsaved edits.
fn unedited_bytes(editor: &HexEditor) -> (r: Vec<u8>)
    requires
        editor.wf(),
    ensures
        r@ == unedited(*editor),
{
    let ghost none: Seq<Edit> = seq![];
    let shown = copy_bytes(&editor.bytes);
    let under = take_back(shown, &editor.undo_stack, Ghost(editor.restored@));
    assert(none + editor.restored@ =~= editor.restored@);
    let base = take_back(under, &editor.restored, Ghost(none));
    assert(unwound(base@, none) == base@);
    base
}

/// Lays kept edits over what a file holds, in place of its own.
pub fn lay_over(editor: &mut HexEditor, kept: KeptEdits)
    requires
        old(editor).wf(),
    ensures
        final(editor).wf(),
        edits_laid(*old(editor), kept, *final(editor)),
{
    let bytes = unedited_bytes(editor);
    let ghost base = bytes@;
    let ghost none: Seq<Edit> = seq![];
    let mut fresh = HexEditor::new(bytes);
    fresh.selection = editor.selection;
    fresh.low_nibble = editor.low_nibble;
    fresh.edit_mode = EditMode::Mutable;
    replay(&mut fresh, &kept.below, Ghost(base), Ghost(none));
    assert(none + kept.below@ =~= kept.below@);
    let ghost under = fresh.bytes@;
    std::mem::swap(&mut fresh.restored, &mut fresh.undo_stack);
    assert(fresh.restored@ + fresh.undo_stack@ =~= fresh.restored@);
    replay(&mut fresh, &kept.undo, Ghost(under), Ghost(none));
    assert(none + kept.undo@ =~= kept.undo@);
    fresh.redo_stack = redo_over(&fresh.bytes, kept.redo);
    *editor = fresh;
}

/// Laying kept edits over a file unlocks it and leaves the caret where it was; every
/// step that was kept can be taken back or done again.
pub proof fn law_laid_edits_can_go_on(before: HexEditor, kept: KeptEdits, after: HexEditor)
    requires
        edits_laid(before, kept, after),
    ensures
        after.edit_mode is Mutable,
        after.selection == before.selection && after.low_nibble == before.low_nibble,
        kept.undo@.len() == 0 ==> after.undo_stack@.len() == 0,
        kept.redo@.len() == 0 ==> after.redo_stack@.len() == 0,
{
    if kept.redo@.len() == 0 {
        assert(kept.redo@.reverse().len() == 0);
        assert(after.redo_stack@.reverse().len() == after.redo_stack@.len());
    }
}

} // verus!
