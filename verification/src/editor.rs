//! The byte editor behind a file tab: contents, selection and undo history.

use vstd::prelude::*;

verus! {

/// A selection of bytes. Both ends lie inside it.
#[derive(Clone, Copy, Debug, PartialEq, Eq, Structural)]
pub struct Selection {
    pub anchor: u64,
    pub cursor: u64,
}

/// Whether edits are accepted.
#[derive(Clone, Copy, Debug, PartialEq, Eq, Structural)]
pub enum EditMode {
    Readonly,
    Mutable,
}

impl EditMode {
    /// The other mode.
    pub open spec fn spec_toggled(self) -> EditMode {
        match self {
            EditMode::Readonly => EditMode::Mutable,
            EditMode::Mutable => EditMode::Readonly,
        }
    }

    #[verifier::when_used_as_spec(spec_toggled)]
    pub fn toggled(self) -> (r: EditMode)
        ensures
            r == self.spec_toggled(),
    {
        match self {
            EditMode::Readonly => EditMode::Mutable,
            EditMode::Mutable => EditMode::Readonly,
        }
    }
}

impl Selection {
    /// A selection that is just a caret.
    pub open spec fn spec_caret(at: u64) -> Selection {
        Selection { anchor: at, cursor: at }
    }

    #[verifier::when_used_as_spec(spec_caret)]
    pub fn caret(at: u64) -> (r: Selection)
        ensures
            r == Selection::spec_caret(at),
    {
        Selection { anchor: at, cursor: at }
    }

    /// Whether the selection is just a caret.
    pub open spec fn spec_is_caret(self) -> bool {
        self.anchor == self.cursor
    }

    #[verifier::when_used_as_spec(spec_is_caret)]
    pub fn is_caret(self) -> (r: bool)
        ensures
            r == self.spec_is_caret(),
    {
        self.anchor == self.cursor
    }

    /// First selected offset.
    pub open spec fn spec_start(self) -> u64 {
        if self.anchor <= self.cursor {
            self.anchor
        } else {
            self.cursor
        }
    }

    #[verifier::when_used_as_spec(spec_start)]
    pub fn start(self) -> (r: u64)
        ensures
            r == self.spec_start(),
    {
        if self.anchor <= self.cursor {
            self.anchor
        } else {
            self.cursor
        }
    }

    /// First offset behind the selection, or the largest offset where that
    /// does not fit.
    pub open spec fn spec_end(self) -> u64 {
        let last = if self.anchor <= self.cursor {
            self.cursor
        } else {
            self.anchor
        };
        if last == u64::MAX {
            u64::MAX
        } else {
            (last + 1) as u64
        }
    }

    #[verifier::when_used_as_spec(spec_end)]
    pub fn end(self) -> (r: u64)
        ensures
            r == self.spec_end(),
    {
        let last: u64 = if self.anchor <= self.cursor {
            self.cursor
        } else {
            self.anchor
        };
        if last == u64::MAX {
            u64::MAX
        } else {
            last + 1
        }
    }

    /// Number of selected bytes.
    pub open spec fn spec_len(self) -> u64 {
        (self.end() - self.start()) as u64
    }

    #[verifier::when_used_as_spec(spec_len)]
    pub fn len(self) -> (r: u64)
        ensures
            r == self.spec_len(),
    {
        self.end() - self.start()
    }
}

/// One step of the history: at `offset`, `removed` was replaced by `inserted`.
pub struct Edit {
    pub offset: u64,
    pub removed: Vec<u8>,
    pub inserted: Vec<u8>,
}

/// A byte buffer that is being edited.
pub struct HexEditor {
    pub bytes: Vec<u8>,
    pub selection: Option<Selection>,
    pub edit_mode: EditMode,
    /// Whether the next typed digit fills the low half of the byte.
    pub low_nibble: bool,
    pub undo_stack: Vec<Edit>,
    pub redo_stack: Vec<Edit>,
    /// Edits that were taken over from an earlier run, below the history.
    pub restored: Vec<Edit>,
}

/// The bytes with `removed` of them at `offset` replaced.
pub open spec fn spliced(bytes: Seq<u8>, offset: int, removed: int, inserted: Seq<u8>) -> Seq<u8> {
    bytes.take(offset) + inserted + bytes.skip(offset + removed)
}

/// Putting back what a splice took out restores the bytes.
pub proof fn law_splice_back(bytes: Seq<u8>, offset: int, removed: int, inserted: Seq<u8>)
    requires
        0 <= offset,
        0 <= removed,
        offset + removed <= bytes.len(),
    ensures
        spliced(
            spliced(bytes, offset, removed, inserted),
            offset,
            inserted.len() as int,
            bytes.subrange(offset, offset + removed),
        ) == bytes,
{
    assert(spliced(
        spliced(bytes, offset, removed, inserted),
        offset,
        inserted.len() as int,
        bytes.subrange(offset, offset + removed),
    ) =~= bytes);
}

/// Whether the history fits the bytes: undoing the steps from the last to the
/// first is possible.
pub open spec fn history_fits(bytes: Seq<u8>, undo: Seq<Edit>) -> bool
    decreases undo.len(),
{
    undo.len() > 0 ==> {
        let last = undo.last();
        &&& last.offset + last.inserted@.len() <= bytes.len()
        &&& bytes.subrange(last.offset as int, last.offset + last.inserted@.len())
            == last.inserted@
        &&& history_fits(
            spliced(
                bytes,
                last.offset as int,
                last.inserted@.len() as int,
                last.removed@,
            ),
            undo.drop_last(),
        )
    }
}

/// Whether redoing the steps from the last to the first is possible.
pub open spec fn future_fits(bytes: Seq<u8>, redo: Seq<Edit>) -> bool
    decreases redo.len(),
{
    redo.len() > 0 ==> {
        let last = redo.last();
        &&& last.offset + last.removed@.len() <= bytes.len()
        &&& bytes.subrange(last.offset as int, last.offset + last.removed@.len()) == last.removed@
        &&& future_fits(
            spliced(
                bytes,
                last.offset as int,
                last.removed@.len() as int,
                last.inserted@,
            ),
            redo.drop_last(),
        )
    }
}

/// The bytes between two places.
pub(crate) fn copy_range(from: &Vec<u8>, start: usize, end: usize) -> (r: Vec<u8>)
    requires
        start <= end <= from@.len(),
    ensures
        r@ == from@.subrange(start as int, end as int),
{
    let mut out: Vec<u8> = Vec::new();
    let mut i: usize = start;
    while i < end
        invariant
            start <= i <= end <= from@.len(),
            out@ == from@.subrange(start as int, i as int),
        decreases end - i,
    {
        out.push(from[i]);
        i = i + 1;
        assert(out@ =~= from@.subrange(start as int, i as int));
    }
    out
}

/// A copy of bytes.
pub(crate) fn copy_bytes(bytes: &Vec<u8>) -> (r: Vec<u8>)
    ensures
        r@ == bytes@,
{
    let r = copy_range(bytes, 0, bytes.len());
    assert(r@ =~= bytes@);
    r
}

pub(crate) fn splice_bytes(bytes: &Vec<u8>, offset: usize, removed: usize, inserted: &Vec<u8>) -> (r: Vec<u8>)
    requires
        offset + removed <= bytes@.len(),
    ensures
        r@ == spliced(bytes@, offset as int, removed as int, inserted@),
{
    let len: usize = bytes.len();
    let mut out: Vec<u8> = copy_range(bytes, 0, offset);
    let mut mid: Vec<u8> = copy_range(inserted, 0, inserted.len());
    let mut tail: Vec<u8> = copy_range(bytes, offset + removed, len);
    out.append(&mut mid);
    out.append(&mut tail);
    assert(out@ =~= spliced(bytes@, offset as int, removed as int, inserted@));
    out
}

impl HexEditor {
    /// The history fits the contents, and so do the edits below it.
    pub open spec fn wf(&self) -> bool {
        &&& history_fits(self.bytes@, self.undo_stack@)
        &&& history_fits(self.bytes@, self.restored@ + self.undo_stack@)
        &&& future_fits(self.bytes@, self.redo_stack@)
    }

    /// An editor over the given bytes, without history.
    pub fn new(bytes: Vec<u8>) -> (r: HexEditor)
        ensures
            r.wf(),
            r.bytes@ == bytes@,
            r.selection is None,
            r.edit_mode is Readonly,
            !r.low_nibble,
            r.undo_stack@.len() == 0,
            r.redo_stack@.len() == 0,
            r.restored@.len() == 0,
    {
        HexEditor {
            bytes,
            selection: None,
            edit_mode: EditMode::Readonly,
            low_nibble: false,
            undo_stack: Vec::new(),
            redo_stack: Vec::new(),
            restored: Vec::new(),
        }
    }

    /// Number of bytes.
    pub fn source_len(&self) -> (r: u64)
        ensures
            r == self.bytes@.len(),
    {
        self.bytes.len() as u64
    }

    pub fn can_undo(&self) -> (r: bool)
        ensures
            r == (self.undo_stack@.len() > 0),
    {
        self.undo_stack.len() > 0
    }

    pub fn can_redo(&self) -> (r: bool)
        ensures
            r == (self.redo_stack@.len() > 0),
    {
        self.redo_stack.len() > 0
    }

    /// Whether there are edits that were not saved.
    pub open spec fn spec_is_dirty(&self) -> bool {
        self.undo_stack@.len() > 0 || self.restored@.len() > 0
    }

    #[verifier::when_used_as_spec(spec_is_dirty)]
    pub fn is_dirty(&self) -> (r: bool)
        ensures
            r == self.spec_is_dirty(),
    {
        self.undo_stack.len() > 0 || self.restored.len() > 0
    }

    /// Replaces `removed` bytes at `offset` as one step of the history. A
    /// range that leaves the buffer is refused.
    pub fn splice(&mut self, offset: u64, removed: u64, inserted: Vec<u8>) -> (ok: bool)
        requires
            old(self).wf(),
        ensures
            final(self).wf(),
            ok == (offset + removed <= old(self).bytes@.len()),
            !ok ==> *final(self) == *old(self),
            ok ==> {
                &&& final(self).bytes@ == spliced(
                    old(self).bytes@,
                    offset as int,
                    removed as int,
                    inserted@,
                )
                &&& final(self).undo_stack@.len() == old(self).undo_stack@.len() + 1
                &&& final(self).undo_stack@.drop_last() == old(self).undo_stack@
                &&& final(self).undo_stack@.last().offset == offset
                &&& final(self).undo_stack@.last().inserted@ == inserted@
                &&& final(self).undo_stack@.last().removed@ == old(self).bytes@.subrange(
                    offset as int,
                    offset + removed,
                )
                &&& final(self).redo_stack@.len() == 0
                &&& final(self).selection == old(self).selection
                &&& final(self).edit_mode == old(self).edit_mode
                &&& final(self).low_nibble == old(self).low_nibble
                &&& final(self).restored == old(self).restored
            },
    {
        let len: u64 = self.bytes.len() as u64;
        if offset > len || removed > len - offset {
            return false;
        }
        let at: usize = offset as usize;
        let count: usize = removed as usize;
        let taken = copy_range(&self.bytes, at, at + count);
        let next = splice_bytes(&self.bytes, at, count, &inserted);
        proof {
            law_splice_back(self.bytes@, at as int, count as int, inserted@);
            assert(next@.subrange(at as int, at + inserted@.len()) =~= inserted@);
        }
        self.bytes = next;
        self.undo_stack.push(Edit { offset, removed: taken, inserted });
        self.redo_stack = Vec::new();
        assert(self.undo_stack@.drop_last() =~= old(self).undo_stack@);
        assert((self.restored@ + self.undo_stack@).drop_last() =~= old(self).restored@ + old(
            self,
        ).undo_stack@);
        true
    }

    /// Takes the last step of the history back; its offset.
    pub fn undo(&mut self) -> (r: Option<u64>)
        requires
            old(self).wf(),
        ensures
            final(self).wf(),
            r is Some <==> old(self).undo_stack@.len() > 0,
            r is None ==> *final(self) == *old(self),
            r matches Some(offset) ==> {
                let step = old(self).undo_stack@.last();
                &&& offset == step.offset
                &&& final(self).bytes@ == spliced(
                    old(self).bytes@,
                    step.offset as int,
                    step.inserted@.len() as int,
                    step.removed@,
                )
                &&& final(self).undo_stack@ == old(self).undo_stack@.drop_last()
                &&& final(self).redo_stack@ == old(self).redo_stack@.push(step)
                &&& final(self).selection == old(self).selection
                &&& final(self).edit_mode == old(self).edit_mode
                &&& final(self).low_nibble == old(self).low_nibble
                &&& final(self).restored == old(self).restored
            },
    {
        if self.undo_stack.len() == 0 {
            return None;
        }
        let len: usize = self.bytes.len();
        match self.undo_stack.pop() {
            Some(step) => {
                let at: usize = step.offset as usize;
                assert(old(self).undo_stack@.last() == step);
                assert(self.bytes@.subrange(at as int, at + step.inserted@.len()) == step.inserted@);
                let next = splice_bytes(&self.bytes, at, step.inserted.len(), &step.removed);
                proof {
                    law_splice_back(
                        self.bytes@,
                        at as int,
                        step.inserted@.len() as int,
                        step.removed@,
                    );
                    assert(next@.subrange(at as int, at + step.removed@.len()) =~= step.removed@);
                    assert(old(self).undo_stack@.drop_last() =~= self.undo_stack@);
                    let all = old(self).restored@ + old(self).undo_stack@;
                    assert(all.last() == step);
                    assert(all.drop_last() =~= self.restored@ + self.undo_stack@);
                }
                self.bytes = next;
                let offset: u64 = step.offset;
                self.redo_stack.push(step);
                assert(self.redo_stack@.drop_last() =~= old(self).redo_stack@);
                Some(offset)
            },
            None => None,
        }
    }

    /// Does the last step that was taken back again; its offset.
    pub fn redo(&mut self) -> (r: Option<u64>)
        requires
            old(self).wf(),
        ensures
            final(self).wf(),
            r is Some <==> old(self).redo_stack@.len() > 0,
            r is None ==> *final(self) == *old(self),
            r matches Some(offset) ==> {
                let step = old(self).redo_stack@.last();
                &&& offset == step.offset
                &&& final(self).bytes@ == spliced(
                    old(self).bytes@,
                    step.offset as int,
                    step.removed@.len() as int,
                    step.inserted@,
                )
                &&& final(self).redo_stack@ == old(self).redo_stack@.drop_last()
                &&& final(self).undo_stack@ == old(self).undo_stack@.push(step)
                &&& final(self).selection == old(self).selection
                &&& final(self).edit_mode == old(self).edit_mode
                &&& final(self).low_nibble == old(self).low_nibble
                &&& final(self).restored == old(self).restored
            },
    {
        if self.redo_stack.len() == 0 {
            return None;
        }
        let len: usize = self.bytes.len();
        match self.redo_stack.pop() {
            Some(step) => {
                let at: usize = step.offset as usize;
                assert(old(self).redo_stack@.last() == step);
                assert(self.bytes@.subrange(at as int, at + step.removed@.len()) == step.removed@);
                let next = splice_bytes(&self.bytes, at, step.removed.len(), &step.inserted);
                proof {
                    law_splice_back(
                        self.bytes@,
                        at as int,
                        step.removed@.len() as int,
                        step.inserted@,
                    );
                    assert(next@.subrange(at as int, at + step.inserted@.len())
                        =~= step.inserted@);
                    assert(old(self).redo_stack@.drop_last() =~= self.redo_stack@);
                }
                self.bytes = next;
                let offset: u64 = step.offset;
                self.undo_stack.push(step);
                assert(self.undo_stack@.drop_last() =~= old(self).undo_stack@);
                assert((self.restored@ + self.undo_stack@).drop_last() =~= old(self).restored@
                    + old(self).undo_stack@);
                Some(offset)
            },
            None => None,
        }
    }

    /// Replaces the contents with saved bytes; the history goes.
    pub fn swap_source(&mut self, bytes: Vec<u8>)
        ensures
            final(self).wf(),
            swapped_to(*old(self), bytes@, *final(self)),
            !final(self).is_dirty(),
    {
        self.bytes = bytes;
        self.undo_stack = Vec::new();
        self.redo_stack = Vec::new();
        self.restored = Vec::new();
    }
}

/// Whether one editor is another whose contents were replaced by saved bytes:
/// the history is gone, the caret and the mode stay.
pub open spec fn swapped_to(before: HexEditor, bytes: Seq<u8>, after: HexEditor) -> bool {
    &&& after.bytes@ == bytes
    &&& after.undo_stack@.len() == 0
    &&& after.redo_stack@.len() == 0
    &&& after.restored@.len() == 0
    &&& after.selection == before.selection
    &&& after.edit_mode == before.edit_mode
    &&& after.low_nibble == before.low_nibble
}

/// Where a paste goes: the start of the selection, or the start of the buffer
/// where nothing is selected, and no further than the end.
pub open spec fn paste_start(editor: HexEditor) -> int {
    match editor.selection {
        Some(sel) => if sel.start() <= editor.bytes@.len() {
            sel.start() as int
        } else {
            editor.bytes@.len() as int
        },
        None => 0,
    }
}

/// The bytes after a paste: it overwrites what is there and appends what goes
/// beyond the end.
pub open spec fn pasted(bytes: Seq<u8>, start: int, clip: Seq<u8>) -> Seq<u8> {
    Seq::new(
        if start + clip.len() > bytes.len() {
            (start + clip.len()) as nat
        } else {
            bytes.len()
        },
        |i: int|
            if start <= i < start + clip.len() {
                clip[i - start]
            } else {
                bytes[i]
            },
    )
}

/// Whether one editor is another after bytes were pasted: they stand at the
/// cursor, the caret behind them, and taking the one new step of the history
/// back gives the old bytes. Pasting nothing changes nothing.
pub open spec fn pasted_to(before: HexEditor, clip: Seq<u8>, after: HexEditor) -> bool {
    if clip.len() == 0 {
        after == before
    } else {
        let start = paste_start(before);
        &&& after.bytes@ == pasted(before.bytes@, start, clip)
        &&& after.selection == Some(Selection::spec_caret((start + clip.len()) as u64))
        &&& !after.low_nibble
        &&& after.undo_stack@.len() == before.undo_stack@.len() + 1
        &&& after.undo_stack@.drop_last() == before.undo_stack@
        &&& after.undo_stack@.last().offset == start
        &&& after.redo_stack@.len() == 0
        &&& after.edit_mode == before.edit_mode
        &&& after.restored == before.restored
        &&& spliced(
            after.bytes@,
            after.undo_stack@.last().offset as int,
            after.undo_stack@.last().inserted@.len() as int,
            after.undo_stack@.last().removed@,
        ) == before.bytes@
    }
}

/// Writes the clipboard's bytes at the cursor and parks the caret behind
/// them. An empty clipboard changes nothing.
pub fn paste_bytes_at_cursor(editor: &mut HexEditor, bytes: Vec<u8>)
    requires
        old(editor).wf(),
        old(editor).bytes@.len() + bytes@.len() <= usize::MAX,
    ensures
        final(editor).wf(),
        pasted_to(*old(editor), bytes@, *final(editor)),
{
    if bytes.len() == 0 {
        return;
    }
    let len: u64 = editor.source_len();
    let start: u64 = match editor.selection {
        Some(sel) => if sel.start() <= len {
            sel.start()
        } else {
            len
        },
        None => 0,
    };
    let n: u64 = bytes.len() as u64;
    let overwrite: u64 = if n <= len - start {
        n
    } else {
        len - start
    };
    let ghost clip = bytes@;
    editor.splice(start, overwrite, bytes);
    proof {
        law_splice_back(old(editor).bytes@, start as int, overwrite as int, clip);
        assert(editor.bytes@ =~= pasted(old(editor).bytes@, start as int, clip));
    }
    editor.selection = Some(Selection::caret(start + n));
    editor.low_nibble = false;
}

/// Parks the caret at an offset, clamped to the last byte, so that the next
/// typed digit starts a byte.
pub fn jump_cursor_to(editor: &mut HexEditor, offset: u64)
    requires
        old(editor).wf(),
    ensures
        final(editor).wf(),
        *final(editor) == (HexEditor {
            selection: Some(Selection::spec_caret(clamped(offset, old(editor).bytes@.len()))),
            low_nibble: false,
            ..*old(editor)
        }),
{
    editor.selection = Some(Selection::caret(clamp_offset(offset, editor.source_len())));
    editor.low_nibble = false;
}

/// An offset moved back to the last byte of a buffer that is too short for it.
pub open spec fn clamped(offset: u64, len: nat) -> u64 {
    if len == 0 {
        0
    } else if offset < len {
        offset
    } else {
        (len - 1) as u64
    }
}

/// An offset moved back to the last byte.
pub fn clamp_offset(offset: u64, len: u64) -> (r: u64)
    ensures
        r == clamped(offset, len as nat),
{
    if len == 0 {
        0
    } else if offset < len {
        offset
    } else {
        len - 1
    }
}

/// Whether one editor is another after its last edit was taken back and the
/// caret went there. Without an edit it is the same.
pub open spec fn undone_to(before: HexEditor, after: HexEditor) -> bool {
    if before.undo_stack@.len() > 0 {
        let step = before.undo_stack@.last();
        &&& after.bytes@ == spliced(
            before.bytes@,
            step.offset as int,
            step.inserted@.len() as int,
            step.removed@,
        )
        &&& after.undo_stack@ == before.undo_stack@.drop_last()
        &&& after.redo_stack@ == before.redo_stack@.push(step)
        &&& after.selection == Some(
            Selection::spec_caret(clamped(step.offset, after.bytes@.len())),
        )
        &&& !after.low_nibble
        &&& after.edit_mode == before.edit_mode
        &&& after.restored == before.restored
    } else {
        after == before
    }
}

/// Whether one editor is another after the edit that was last taken back was
/// applied again and the caret went there. Without one it is the same.
pub open spec fn redone_to(before: HexEditor, after: HexEditor) -> bool {
    if before.redo_stack@.len() > 0 {
        let step = before.redo_stack@.last();
        &&& after.bytes@ == spliced(
            before.bytes@,
            step.offset as int,
            step.removed@.len() as int,
            step.inserted@,
        )
        &&& after.redo_stack@ == before.redo_stack@.drop_last()
        &&& after.undo_stack@ == before.undo_stack@.push(step)
        &&& after.selection == Some(
            Selection::spec_caret(clamped(step.offset, after.bytes@.len())),
        )
        &&& !after.low_nibble
        &&& after.edit_mode == before.edit_mode
        &&& after.restored == before.restored
    } else {
        after == before
    }
}

/// Takes the last edit back and shows where it was.
pub fn undo_and_jump(editor: &mut HexEditor) -> (changed: bool)
    requires
        old(editor).wf(),
    ensures
        final(editor).wf(),
        changed == (old(editor).undo_stack@.len() > 0),
        undone_to(*old(editor), *final(editor)),
{
    match editor.undo() {
        Some(offset) => {
            jump_cursor_to(editor, offset);
            true
        },
        None => false,
    }
}

/// Does the last undone edit again and shows where it is.
pub fn redo_and_jump(editor: &mut HexEditor) -> (changed: bool)
    requires
        old(editor).wf(),
    ensures
        final(editor).wf(),
        changed == (old(editor).redo_stack@.len() > 0),
        redone_to(*old(editor), *final(editor)),
{
    match editor.redo() {
        Some(offset) => {
            jump_cursor_to(editor, offset);
            true
        },
        None => false,
    }
}

/// Pasting never shortens a buffer: the pasted bytes stand where they were put,
/// over what was there and then behind the end, and every other byte stays.
pub proof fn law_paste_overwrites_then_appends(before: HexEditor, clip: Seq<u8>, after: HexEditor)
    requires
        pasted_to(before, clip, after),
        clip.len() > 0,
    ensures
        ({
            let start = paste_start(before);
            &&& after.bytes@.len() == (if start + clip.len() > before.bytes@.len() {
                start + clip.len()
            } else {
                before.bytes@.len() as int
            })
            &&& forall|i: int|
                0 <= i < after.bytes@.len() ==> #[trigger] after.bytes@[i] == (if start <= i < start
                    + clip.len() {
                    clip[i - start]
                } else {
                    before.bytes@[i]
                })
        }),
{
}

/// Pasting twice is pasting both texts at once: the second stands right behind
/// the first.
pub proof fn law_pastes_join(
    before: HexEditor,
    first: Seq<u8>,
    mid: HexEditor,
    second: Seq<u8>,
    after: HexEditor,
    joined: HexEditor,
)
    requires
        before.bytes@.len() + first.len() + second.len() <= usize::MAX,
        pasted_to(before, first, mid),
        pasted_to(mid, second, after),
        pasted_to(before, first + second, joined),
        first.len() > 0,
        second.len() > 0,
    ensures
        after.bytes@ == joined.bytes@,
        after.selection == joined.selection,
{
    let start = paste_start(before);
    assert(paste_start(mid) == start + first.len());
    assert(after.bytes@ =~= joined.bytes@);
}

/// Undoing an edit and doing it again gives the same bytes.
pub proof fn law_undo_redo(editor: HexEditor)
    requires
        editor.wf(),
        editor.undo_stack@.len() > 0,
    ensures
        ({
            let step = editor.undo_stack@.last();
            let undone = spliced(
                editor.bytes@,
                step.offset as int,
                step.inserted@.len() as int,
                step.removed@,
            );
            spliced(
                undone,
                step.offset as int,
                step.removed@.len() as int,
                step.inserted@,
            ) == editor.bytes@
        }),
{
    let step = editor.undo_stack@.last();
    law_splice_back(
        editor.bytes@,
        step.offset as int,
        step.inserted@.len() as int,
        step.removed@,
    );
}

/// The bytes shown by the inspector: up to sixteen from the caret on.
pub open spec fn inspector_window(bytes: Seq<u8>, caret: int) -> Seq<u8> {
    if caret >= bytes.len() {
        seq![]
    } else if caret + 16 <= bytes.len() {
        bytes.subrange(caret, caret + 16)
    } else {
        bytes.skip(caret)
    }
}

/// Whether a pair is the caret of an editor and the bytes behind it; nothing without
/// a selection.
pub open spec fn inspected(editor: HexEditor, r: Option<(u64, Vec<u8>)>) -> bool {
    match editor.selection {
        Some(sel) => r matches Some(pair) && pair.0 == sel.cursor && pair.1@ == inspector_window(
            editor.bytes@,
            sel.cursor as int,
        ),
        None => r is None,
    }
}

/// The caret and the bytes behind it; nothing without a selection.
pub fn snapshot_inspector_bytes(editor: &HexEditor) -> (r: Option<(u64, Vec<u8>)>)
    ensures
        inspected(*editor, r),
{
    match editor.selection {
        Some(sel) => {
            let len: u64 = editor.source_len();
            if sel.cursor >= len {
                let none: Vec<u8> = Vec::new();
                assert(none@ =~= seq![]);
                return Some((sel.cursor, none));
            }
            let start: usize = sel.cursor as usize;
            let left: usize = editor.bytes.len() - start;
            let count: usize = if left < 16 {
                left
            } else {
                16
            };
            let window = copy_range(&editor.bytes, start, start + count);
            assert(window@ =~= inspector_window(editor.bytes@, start as int));
            Some((sel.cursor, window))
        },
        None => None,
    }
}

/// A selection reaches from the lower of its two ends to the higher, both of them in
/// it, and has as many bytes as lie there.
pub proof fn law_selection_covers_both_ends(sel: Selection)
    ensures
        sel.start() <= sel.anchor,
        sel.start() <= sel.cursor,
        sel.start() == sel.anchor || sel.start() == sel.cursor,
        sel.anchor < u64::MAX && sel.cursor < u64::MAX ==> {
            &&& sel.anchor < sel.end() && sel.cursor < sel.end()
            &&& sel.end() == sel.anchor + 1 || sel.end() == sel.cursor + 1
            &&& sel.len() == if sel.anchor <= sel.cursor {
                sel.cursor - sel.anchor + 1
            } else {
                sel.anchor - sel.cursor + 1
            }
        },
        sel.is_caret() <==> sel.anchor == sel.cursor,
        forall|at: u64|
            #![trigger Selection::spec_caret(at)]
            Selection::spec_caret(at).anchor == at && Selection::spec_caret(at).cursor == at,
{
}

/// A paste goes over what is selected, from its lower end on: the clipboard stands
/// there byte for byte and the caret behind it, what lies before stays, and so does
/// what lies behind. Nothing moves, and the buffer grows only by what does not fit.
pub proof fn law_paste_goes_over_selection(before: HexEditor, clip: Seq<u8>, after: HexEditor)
    requires
        clip.len() > 0,
        before.bytes@.len() + clip.len() <= usize::MAX,
        pasted_to(before, clip, after),
    ensures
        ({
            let low = match before.selection {
                Some(sel) => if sel.anchor <= sel.cursor {
                    sel.anchor as int
                } else {
                    sel.cursor as int
                },
                None => 0,
            };
            let len = before.bytes@.len() as int;
            let at = if low <= len {
                low
            } else {
                len
            };
            &&& after.bytes@.len() == if at + clip.len() <= len {
                len
            } else {
                at + clip.len()
            }
            &&& forall|k: int|
                0 <= k < clip.len() ==> after.bytes@[at + k] == #[trigger] clip[k]
            &&& forall|k: int| 0 <= k < at ==> #[trigger] after.bytes@[k] == before.bytes@[k]
            &&& forall|k: int|
                at + clip.len() <= k < len ==> #[trigger] after.bytes@[k] == before.bytes@[k]
            &&& after.selection matches Some(sel) && sel.anchor == at + clip.len() && sel.cursor
                == at + clip.len()
            &&& !after.low_nibble
            &&& after.edit_mode == before.edit_mode
        }),
{
}

/// A paste of nothing changes nothing.
pub proof fn law_paste_of_nothing(before: HexEditor, clip: Seq<u8>, after: HexEditor)
    requires
        clip.len() == 0,
        pasted_to(before, clip, after),
    ensures
        after == before,
{
}

/// Taking a paste back gives the bytes from before it, byte for byte, and the steps
/// from before it. Doing it again gives what the paste gave.
pub proof fn law_paste_is_one_step(
    before: HexEditor,
    clip: Seq<u8>,
    after: HexEditor,
    undone: HexEditor,
    redone: HexEditor,
)
    requires
        clip.len() > 0,
        after.wf(),
        pasted_to(before, clip, after),
        undone_to(after, undone),
        redone_to(undone, redone),
    ensures
        undone.bytes@ =~= before.bytes@,
        undone.undo_stack@ =~= before.undo_stack@,
        undone.redo_stack@.len() == 1,
        redone.bytes@ =~= after.bytes@,
        redone.undo_stack@ =~= after.undo_stack@,
        redone.redo_stack@.len() == 0,
{
    let step = after.undo_stack@.last();
    assert(undone.redo_stack@.last() == step);
    law_undo_redo(after);
    assert(after.undo_stack@.drop_last().push(step) =~= after.undo_stack@);
}

/// Undo takes the last step back and nothing else: all other bytes keep their
/// values, and the caret stands where the step was, or on the last byte. What was
/// taken back can be done again, which gives the same contents and the same steps.
pub proof fn law_undo_takes_one_step_back(before: HexEditor, undone: HexEditor, redone: HexEditor)
    requires
        before.wf(),
        before.undo_stack@.len() > 0,
        undone_to(before, undone),
        redone_to(undone, redone),
    ensures
        ({
            let step = before.undo_stack@[before.undo_stack@.len() - 1];
            let at = step.offset as int;
            let shift = step.removed@.len() - step.inserted@.len();
            &&& undone.bytes@.len() == before.bytes@.len() + shift
            &&& forall|k: int| 0 <= k < at ==> #[trigger] undone.bytes@[k] == before.bytes@[k]
            &&& forall|k: int|
                0 <= k < step.removed@.len() ==> undone.bytes@[at + k] == #[trigger] step.removed@[k]
            &&& forall|k: int|
                at + step.removed@.len() <= k < undone.bytes@.len() ==> #[trigger] undone.bytes@[k]
                    == before.bytes@[k - shift]
            &&& undone.selection matches Some(sel) && sel.anchor == sel.cursor && if at
                < undone.bytes@.len() {
                sel.cursor == at
            } else if undone.bytes@.len() > 0 {
                sel.cursor == undone.bytes@.len() - 1
            } else {
                sel.cursor == 0
            }
            &&& undone.undo_stack@.len() == before.undo_stack@.len() - 1
            &&& undone.redo_stack@.len() == before.redo_stack@.len() + 1
        }),
        redone.bytes@ =~= before.bytes@,
        redone.undo_stack@ =~= before.undo_stack@,
        redone.redo_stack@ =~= before.redo_stack@,
        redone.restored == before.restored,
        redone.edit_mode == before.edit_mode,
{
    let step = before.undo_stack@.last();
    assert(undone.redo_stack@.last() == step);
    law_undo_redo(before);
    assert(before.undo_stack@.drop_last().push(step) =~= before.undo_stack@);
    assert(before.redo_stack@.push(step).drop_last() =~= before.redo_stack@);
}

/// Without a step to take back, or one to do again, nothing changes.
pub proof fn law_nothing_to_undo(before: HexEditor, undone: HexEditor, redone: HexEditor)
    requires
        undone_to(before, undone),
        redone_to(before, redone),
    ensures
        before.undo_stack@.len() == 0 ==> undone == before,
        before.redo_stack@.len() == 0 ==> redone == before,
{
}

/// Replacing the contents by saved bytes shows those bytes and leaves nothing
/// unsaved, nothing to undo and nothing to redo.
pub proof fn law_saved_contents_are_clean(before: HexEditor, bytes: Seq<u8>, after: HexEditor)
    requires
        swapped_to(before, bytes, after),
    ensures
        after.bytes@ == bytes,
        after.undo_stack@.len() == 0,
        after.redo_stack@.len() == 0,
        after.restored@.len() == 0,
        after.selection == before.selection,
        after.edit_mode == before.edit_mode,
{
}

/// An offset behind the end of a buffer is moved back to the last byte, and no other
/// is moved.
pub proof fn law_clamped_is_a_byte(offset: u64, len: nat)
    ensures
        offset < len ==> clamped(offset, len) == offset,
        offset >= len && len > 0 ==> clamped(offset, len) + 1 == len,
        len == 0 ==> clamped(offset, len) == 0,
{
}

/// The inspector shows the bytes from the caret on: sixteen of them, or as many as
/// are left.
pub proof fn law_inspector_shows_bytes_at_caret(editor: HexEditor, r: Option<(u64, Vec<u8>)>)
    requires
        inspected(editor, r),
    ensures
        r is Some <==> editor.selection is Some,
        editor.selection matches Some(sel) ==> {
            let shown = (r->0).1@;
            let left = editor.bytes@.len() - sel.cursor;
            &&& (r->0).0 == sel.cursor
            &&& shown.len() == if left >= 16 {
                16
            } else if left > 0 {
                left
            } else {
                0
            }
            &&& forall|k: int|
                0 <= k < shown.len() ==> #[trigger] shown[k] == editor.bytes@[sel.cursor + k]
        },
{
}

/// Whether an editor has unsaved edits is whether a step of its history, or an edit
/// below it, is there to be saved.
pub proof fn law_dirty_means_unsaved(editor: HexEditor)
    ensures
        editor.spec_is_dirty() <==> editor.undo_stack@.len() > 0 || editor.restored@.len() > 0,
{
}

/// The two edit modes are each other's opposite.
pub proof fn law_edit_modes_alternate(mode: EditMode)
    ensures
        mode is Readonly <==> mode.spec_toggled() is Mutable,
        mode is Mutable <==> mode.spec_toggled() is Readonly,
{
}

/// A spliced buffer has the new bytes in place of the old ones, and the rest before
/// and behind them.
pub proof fn law_splice_replaces(bytes: Seq<u8>, offset: int, removed: int, inserted: Seq<u8>)
    requires
        0 <= offset,
        0 <= removed,
        offset + removed <= bytes.len(),
    ensures
        ({
            let after = spliced(bytes, offset, removed, inserted);
            let shift = inserted.len() - removed;
            &&& after.len() == bytes.len() + shift
            &&& forall|k: int| 0 <= k < offset ==> #[trigger] after[k] == bytes[k]
            &&& forall|k: int|
                0 <= k < inserted.len() ==> after[offset + k] == #[trigger] inserted[k]
            &&& forall|k: int|
                offset + inserted.len() <= k < after.len() ==> #[trigger] after[k] == bytes[k
                    - shift]
        }),
{
}

/// A selection goes from the lower of its ends to the higher one, both of them in it,
/// whichever of them is the caret.
pub proof fn law_selection_spans_its_ends(sel: Selection)
    ensures
        sel.spec_start() <= sel.anchor && sel.spec_start() <= sel.cursor,
        sel.spec_start() == sel.anchor || sel.spec_start() == sel.cursor,
        sel.anchor < u64::MAX && sel.cursor < u64::MAX ==> {
            &&& sel.spec_end() > sel.anchor && sel.spec_end() > sel.cursor
            &&& sel.spec_end() == sel.anchor + 1 || sel.spec_end() == sel.cursor + 1
            &&& sel.anchor <= sel.cursor ==> sel.spec_len() == sel.cursor - sel.anchor + 1
            &&& sel.cursor <= sel.anchor ==> sel.spec_len() == sel.anchor - sel.cursor + 1
        },
        sel.spec_is_caret() <==> sel.anchor == sel.cursor,
{
}

} // verus!
