//! Copying bytes and offsets as text.

use vstd::prelude::*;
use vstd::string::*;
use crate::editor::{HexEditor, Selection};
use crate::hexview::{format_offset, format_range};
#[allow(unused_imports)]
use crate::hexview::{offset_text, range_text};
use crate::settings::OffsetBase;
use crate::template::{end_of_span, scalar_value_u64, Node};
#[allow(unused_imports)]
use crate::template::{scalar_bits, span_end};
use crate::text::{dec_string, join2, push_hex};
#[allow(unused_imports)]
use crate::text::{dec, hex};

verus! {

/// How copied bytes are written.
#[derive(Clone, Copy, Debug, PartialEq, Eq, Structural)]
pub enum CopyKind {
    /// As text, with what is no text replaced.
    BytesLossyUtf8,
    /// Two hexadecimal digits to a byte, divided by spaces.
    BytesHexSpaced,
    /// As one of the byte formats of the copy menu.
    Bytes(u8),
    /// As one of the number formats of the copy menu.
    Value(u8),
    /// As a struct literal in Rust.
    StructRust,
    /// As a struct literal in C.
    StructC,
}

impl CopyKind {
    /// Whether the bytes are taken as one number.
    pub open spec fn spec_is_value(self) -> bool {
        self is Value
    }

    #[verifier::when_used_as_spec(spec_is_value)]
    pub fn is_value(self) -> (r: bool)
        ensures
            r == self.spec_is_value(),
    {
        matches!(self, CopyKind::Value(_))
    }

    /// Whether the bytes are written as a struct literal.
    pub open spec fn spec_is_struct(self) -> bool {
        self is StructRust || self is StructC
    }

    #[verifier::when_used_as_spec(spec_is_struct)]
    pub fn is_struct(self) -> (r: bool)
        ensures
            r == self.spec_is_struct(),
    {
        matches!(self, CopyKind::StructRust | CopyKind::StructC)
    }
}

/// What is to be written in a copy format.
pub enum CopyRequest {
    /// A number.
    Scalar { kind: CopyKind, raw: u64 },
    /// Bytes, with the name and type that they get in source text.
    Bytes { kind: CopyKind, bytes: Vec<u8>, ident: String, type_hint: String },
}

/// The number whose bytes are given, lowest first.
pub open spec fn le_value(bytes: Seq<u8>) -> nat
    decreases bytes.len(),
{
    if bytes.len() == 0 {
        0
    } else {
        bytes[0] as nat + 256 * le_value(bytes.drop_first())
    }
}

/// `256` to the power of `n`.
pub open spec fn pow256(n: nat) -> nat
    decreases n,
{
    if n == 0 {
        1
    } else {
        256 * pow256((n - 1) as nat)
    }
}

proof fn lemma_le_value_bound(bytes: Seq<u8>)
    ensures
        le_value(bytes) < pow256(bytes.len()),
    decreases bytes.len(),
{
    if bytes.len() > 0 {
        lemma_le_value_bound(bytes.drop_first());
    }
}

proof fn lemma_pow256_small(n: nat)
    requires
        n <= 8,
    ensures
        pow256(n) <= 0x1_0000_0000_0000_0000,
{
    reveal_with_fuel(pow256, 9);
}

/// Reads up to eight bytes as a number, lowest first.
pub fn read_le(bytes: &Vec<u8>) -> (r: u64)
    requires
        bytes@.len() <= 8,
    ensures
        r == le_value(bytes@),
{
    let len: usize = bytes.len();
    let mut value: u64 = 0;
    let mut i: usize = len;
    assert(bytes@.skip(len as int) =~= Seq::<u8>::empty());
    while i > 0
        invariant
            i <= len,
            len == bytes@.len(),
            len <= 8,
            value == le_value(bytes@.skip(i as int)),
        decreases i,
    {
        i = i - 1;
        let ghost here = bytes@.skip(i as int);
        proof {
            assert(here.drop_first() =~= bytes@.skip(i as int + 1));
            lemma_le_value_bound(here);
            lemma_pow256_small(here.len());
        }
        value = 256 * value + bytes[i] as u64;
    }
    assert(bytes@.skip(0) =~= bytes@);
    value
}

/// The bytes that a selection covers, or nothing where it reaches behind the
/// end.
pub open spec fn selected_bytes(editor: HexEditor, sel: Selection) -> Option<Seq<u8>> {
    if sel.spec_end() <= editor.bytes@.len() {
        Some(editor.bytes@.subrange(sel.spec_start() as int, sel.spec_end() as int))
    } else {
        None
    }
}

fn read_between(bytes: &Vec<u8>, start: u64, end: u64) -> (r: Option<Vec<u8>>)
    requires
        start <= end,
    ensures
        match r {
            Some(out) => end <= bytes@.len() && out@ == bytes@.subrange(start as int, end as int),
            None => end > bytes@.len(),
        },
{
    let len: u64 = bytes.len() as u64;
    if end > len {
        return None;
    }
    let mut out: Vec<u8> = Vec::new();
    let mut i: u64 = start;
    while i < end
        invariant
            start <= i <= end,
            end <= bytes@.len(),
            bytes@.len() <= usize::MAX,
            out@ == bytes@.subrange(start as int, i as int),
        decreases end - i,
    {
        out.push(bytes[i as usize]);
        i = i + 1;
        assert(out@ =~= bytes@.subrange(start as int, i as int));
    }
    Some(out)
}

/// Whether what is selected was read: nothing where nothing is selected or the
/// selection reaches behind the end.
pub open spec fn selection_read(editor: HexEditor, r: Option<Vec<u8>>) -> bool {
    match (editor.selection, r) {
        (Some(sel), Some(out)) => selected_bytes(editor, sel) == Some(out@),
        (Some(sel), None) => selected_bytes(editor, sel) is None,
        (None, r) => r is None,
    }
}

/// The bytes that are selected.
pub fn read_selection(editor: &HexEditor) -> (r: Option<Vec<u8>>)
    ensures
        selection_read(*editor, r),
{
    match editor.selection {
        Some(sel) => read_between(&editor.bytes, sel.start(), sel.end()),
        None => None,
    }
}

/// Whether a request asks for the copy of bytes in a format: as a number if
/// the format is one for numbers, else under a name that tells the offset.
pub open spec fn asks_copy(r: CopyRequest, kind: CopyKind, bytes: Seq<u8>, offset: u64) -> bool {
    match r {
        CopyRequest::Scalar { kind: k, raw } => kind.is_value() && k == kind && raw == le_value(
            bytes,
        ),
        CopyRequest::Bytes { kind: k, bytes: b, ident, type_hint } => !kind.is_value() && k == kind
            && b@ == bytes && ident@ == "data_"@ + hex(offset as nat) && type_hint@ == "u8["@ + dec(
            bytes.len(),
        ) + "]"@,
    }
}

/// Whether the copy of what is selected was planned.
pub open spec fn copy_planned(editor: HexEditor, kind: CopyKind, r: Option<CopyRequest>) -> bool {
    match r {
        Some(request) => editor.selection matches Some(sel) && selected_bytes(editor, sel)
            matches Some(bytes) && bytes.len() > 0 && (kind.is_value() ==> bytes.len() <= 8)
            && asks_copy(request, kind, bytes, sel.spec_start()),
        None => match editor.selection {
            Some(sel) => match selected_bytes(editor, sel) {
                Some(bytes) => bytes.len() == 0 || (kind.is_value() && bytes.len() > 8),
                None => true,
            },
            None => true,
        },
    }
}

/// Plans the copy of what is selected. Nothing comes of it where nothing is
/// selected, where the selection reaches behind the end, or where more than
/// eight bytes should be a number.
pub fn do_copy(editor: &HexEditor, kind: CopyKind) -> (r: Option<CopyRequest>)
    ensures
        copy_planned(*editor, kind, r),
{
    let sel = match editor.selection {
        Some(sel) => sel,
        None => {
            return None;
        },
    };
    let bytes = match read_between(&editor.bytes, sel.start(), sel.end()) {
        Some(bytes) => bytes,
        None => {
            return None;
        },
    };
    let len: usize = bytes.len();
    if len == 0 {
        return None;
    }
    if kind.is_value() {
        if len > 8 {
            return None;
        }
        return Some(CopyRequest::Scalar { kind, raw: read_le(&bytes) });
    }
    let mut ident = "data_".to_owned();
    push_hex(&mut ident, sel.start());
    let count = dec_string(len as u64);
    let mut type_hint = join2("u8[", count.as_str());
    type_hint.append("]");
    Some(CopyRequest::Bytes { kind, bytes, ident, type_hint })
}

/// Whether a node of a template was planned to be copied: its number in a
/// format for numbers, its bytes in any other.
pub open spec fn node_copied(
    bytes: Seq<u8>,
    node: Node,
    kind: CopyKind,
    r: Option<CopyRequest>,
) -> bool {
    if kind.spec_is_value() {
        match r {
            Some(CopyRequest::Scalar { kind: k, raw }) => k == kind && (node.value matches Some(v)
                && scalar_bits(v) == Some(raw)),
            Some(_) => false,
            None => node.value matches Some(v) ==> scalar_bits(v) is None,
        }
    } else {
        match r {
            Some(CopyRequest::Bytes { kind: k, bytes: b, ident, type_hint }) => k == kind
                && span_end(node.span) <= bytes.len() && b@ == bytes.subrange(
                node.span.offset as int,
                span_end(node.span) as int,
            ) && ident@ == node.name@ && type_hint@ == node.type_label@,
            Some(_) => false,
            None => span_end(node.span) > bytes.len(),
        }
    }
}

/// Plans the copy of a template node: its value as a number, or its bytes
/// under its name and type. Nothing comes of it where the value is no
/// integer or the bytes reach behind the end.
pub fn format_template_copy(bytes: &Vec<u8>, node: &Node, kind: CopyKind) -> (r: Option<
    CopyRequest,
>)
    ensures
        node_copied(bytes@, *node, kind, r),
{
    if kind.is_value() {
        return match &node.value {
            Some(v) => match scalar_value_u64(v) {
                Some(raw) => Some(CopyRequest::Scalar { kind, raw }),
                None => None,
            },
            None => None,
        };
    }
    match read_between(bytes, node.span.offset, end_of_span(node.span)) {
        Some(b) => Some(
            CopyRequest::Bytes {
                kind,
                bytes: b,
                ident: node.name.clone(),
                type_hint: node.type_label.clone(),
            },
        ),
        None => None,
    }
}

/// Whether a node's bytes were taken to be saved, under a name made of its own.
pub open spec fn node_saved(bytes: Seq<u8>, node: Node, r: Option<(String, Vec<u8>)>) -> bool {
    match r {
        Some((name, b)) => span_end(node.span) <= bytes.len() && b@ == bytes.subrange(
            node.span.offset as int,
            span_end(node.span) as int,
        ) && name@ == node.ident@ + ".bin"@,
        None => span_end(node.span) > bytes.len(),
    }
}

/// The bytes of a template node and the name of the file that they are saved
/// to, or nothing where they reach behind the end.
pub fn save_template_bytes(bytes: &Vec<u8>, node: &Node) -> (r: Option<(String, Vec<u8>)>)
    ensures
        node_saved(bytes@, *node, r),
{
    match read_between(bytes, node.span.offset, end_of_span(node.span)) {
        Some(b) => Some((join2(node.ident.as_str(), ".bin"), b)),
        None => None,
    }
}

/// Numbers about a file that can be copied.
#[derive(Clone, Copy, Debug, PartialEq, Eq, Structural)]
pub enum OffsetCopy {
    Caret,
    SelectionRange,
    SelectionLength,
    FileLength,
}

/// The text that copying a number about a file gives. Only the file's length
/// can be told without a selection.
pub open spec fn offset_copy_text(
    kind: OffsetCopy,
    sel: Option<Selection>,
    source_len: u64,
    base: OffsetBase,
) -> Option<Seq<char>> {
    match (kind, sel) {
        (OffsetCopy::FileLength, _) => Some(offset_text(source_len, base)),
        (_, None) => None,
        (OffsetCopy::Caret, Some(s)) => Some(offset_text(s.cursor, base)),
        (OffsetCopy::SelectionRange, Some(s)) => Some(range_text(s, base)),
        (OffsetCopy::SelectionLength, Some(s)) => Some(offset_text(s.spec_len(), base)),
    }
}

/// Writes a number about a file for the clipboard, as the status bar does.
pub fn copy_formatted_offset(
    kind: OffsetCopy,
    sel: Option<Selection>,
    source_len: u64,
    base: OffsetBase,
) -> (r: Option<String>)
    ensures
        match r {
            Some(text) => offset_copy_text(kind, sel, source_len, base) == Some(text@),
            None => offset_copy_text(kind, sel, source_len, base) is None,
        },
{
    match (kind, sel) {
        (OffsetCopy::FileLength, _) => Some(format_offset(source_len, base)),
        (_, None) => None,
        (OffsetCopy::Caret, Some(s)) => Some(format_offset(s.cursor, base)),
        (OffsetCopy::SelectionRange, Some(s)) => Some(format_range(s, base)),
        (OffsetCopy::SelectionLength, Some(s)) => Some(format_offset(s.len(), base)),
    }
}

/// A byte, or zero where there is none.
pub open spec fn byte_or_zero(bytes: Seq<u8>, i: int) -> int {
    if 0 <= i < bytes.len() {
        bytes[i] as int
    } else {
        0
    }
}

/// Up to eight bytes are read as a number whose lowest byte comes first.
pub proof fn law_lowest_byte_comes_first(bytes: Seq<u8>)
    requires
        bytes.len() <= 8,
    ensures
        le_value(bytes) == byte_or_zero(bytes, 0) + 0x100 * byte_or_zero(bytes, 1) + 0x1_0000
            * byte_or_zero(bytes, 2) + 0x100_0000 * byte_or_zero(bytes, 3) + 0x1_0000_0000
            * byte_or_zero(bytes, 4) + 0x100_0000_0000 * byte_or_zero(bytes, 5) + 0x1_0000_0000_0000
            * byte_or_zero(bytes, 6) + 0x100_0000_0000_0000 * byte_or_zero(bytes, 7),
{
    let b1 = bytes.drop_first();
    let b2 = b1.drop_first();
    let b3 = b2.drop_first();
    let b4 = b3.drop_first();
    let b5 = b4.drop_first();
    let b6 = b5.drop_first();
    let b7 = b6.drop_first();
    if bytes.len() > 0 {
        assert(le_value(bytes) == bytes[0] + 256 * le_value(b1));
        if bytes.len() > 1 {
            assert(le_value(b1) == bytes[1] + 256 * le_value(b2));
            if bytes.len() > 2 {
                assert(le_value(b2) == bytes[2] + 256 * le_value(b3));
                if bytes.len() > 3 {
                    assert(le_value(b3) == bytes[3] + 256 * le_value(b4));
                    if bytes.len() > 4 {
                        assert(le_value(b4) == bytes[4] + 256 * le_value(b5));
                        if bytes.len() > 5 {
                            assert(le_value(b5) == bytes[5] + 256 * le_value(b6));
                            if bytes.len() > 6 {
                                assert(le_value(b6) == bytes[6] + 256 * le_value(b7));
                                if bytes.len() > 7 {
                                    let b8 = b7.drop_first();
                                    assert(le_value(b7) == bytes[7] + 256 * le_value(b8));
                                }
                            }
                        }
                    }
                }
            }
        }
    }
}

/// The bytes from the lower to the upper end of a selection, both with it.
pub open spec fn is_selected_part(part: Seq<u8>, bytes: Seq<u8>, sel: Selection) -> bool {
    let first = if sel.anchor < sel.cursor {
        sel.anchor as int
    } else {
        sel.cursor as int
    };
    let last = if sel.anchor < sel.cursor {
        sel.cursor as int
    } else {
        sel.anchor as int
    };
    &&& part.len() == last - first + 1
    &&& forall|i: int| 0 <= i < part.len() ==> #[trigger] part[i] == bytes[first + i]
}

/// Whether both ends of a selection lie in a file.
pub open spec fn selection_inside(sel: Selection, len: nat) -> bool {
    sel.anchor < len && sel.cursor < len
}

/// Where a selection lies in the file, reading it and copying it take exactly the
/// bytes from its lower to its upper end, and a number is made of them lowest byte
/// first. More than eight bytes make no number, and a selection that reaches behind the
/// end gives nothing.
pub proof fn law_copy_takes_selected_bytes(
    editor: HexEditor,
    sel: Selection,
    kind: CopyKind,
    request: Option<CopyRequest>,
    read: Option<Vec<u8>>,
)
    requires
        editor.selection == Some(sel),
        editor.bytes@.len() < u64::MAX,
        copy_planned(editor, kind, request),
        selection_read(editor, read),
    ensures
        selection_inside(sel, editor.bytes@.len()) ==> (read matches Some(out) && is_selected_part(
            out@,
            editor.bytes@,
            sel,
        )),
        !selection_inside(sel, editor.bytes@.len()) ==> read is None && request is None,
        read matches Some(out) ==> {
            &&& kind is Value && out@.len() > 8 ==> request is None
            &&& kind is Value && out@.len() <= 8 ==> (request matches Some(
                CopyRequest::Scalar { kind: k, raw },
            ) && k == kind && raw == le_value(out@))
            &&& !(kind is Value) ==> (request matches Some(
                CopyRequest::Bytes { kind: k, bytes, ident, type_hint },
            ) && k == kind && bytes@ == out@ && ident@ == "data_"@ + hex(
                if sel.anchor < sel.cursor {
                    sel.anchor as nat
                } else {
                    sel.cursor as nat
                },
            ) && type_hint@ == "u8["@ + dec(out@.len()) + "]"@)
        },
{
}

/// Without a selection nothing is read and nothing copied.
pub proof fn law_nothing_selected_nothing_copied(
    editor: HexEditor,
    kind: CopyKind,
    request: Option<CopyRequest>,
    read: Option<Vec<u8>>,
)
    requires
        editor.selection is None,
        copy_planned(editor, kind, request),
        selection_read(editor, read),
    ensures
        request is None && read is None,
{
}

/// Copying a template node takes exactly the bytes of its span, under its name and
/// type, or the bit pattern of its value as a number; saving it takes the same bytes.
pub proof fn law_node_copy_takes_its_bytes(
    bytes: Seq<u8>,
    node: Node,
    kind: CopyKind,
    r: Option<CopyRequest>,
    saved: Option<(String, Vec<u8>)>,
)
    requires
        node_copied(bytes, node, kind, r),
        node_saved(bytes, node, saved),
        bytes.len() < u64::MAX,
    ensures
        !(kind is Value) && node.span.offset + node.span.length <= bytes.len() ==> (r matches Some(
            CopyRequest::Bytes { kind: k, bytes: b, ident, type_hint },
        ) && k == kind && b@.len() == node.span.length && (forall|i: int|
            0 <= i < b@.len() ==> #[trigger] b@[i] == bytes[node.span.offset + i]) && ident@
            == node.name@ && type_hint@ == node.type_label@),
        node.span.offset + node.span.length <= bytes.len() ==> (saved matches Some((name, b))
            && name@ == node.ident@ + ".bin"@ && b@.len() == node.span.length && forall|i: int|
            0 <= i < b@.len() ==> #[trigger] b@[i] == bytes[node.span.offset + i]),
        node.span.offset + node.span.length > bytes.len() ==> saved is None && (!(kind is Value)
            ==> r is None),
        kind is Value ==> match r {
            Some(CopyRequest::Scalar { kind: k, raw }) => k == kind && (node.value matches Some(v)
                && scalar_bits(v) == Some(raw)),
            Some(_) => false,
            None => node.value matches Some(v) ==> scalar_bits(v) is None,
        },
{
}

/// The number that is copied about a file is the caret's offset, the bytes from first
/// to last, how many they are, or the length of the file, each written as an offset
/// is; only the last can be told without a selection.
pub proof fn law_copied_number_is_asked_one(
    sel: Selection,
    source_len: u64,
    base: OffsetBase,
    low: u64,
    high: u64,
)
    requires
        high < u64::MAX,
        low <= high,
        (sel.anchor == low && sel.cursor == high) || (sel.anchor == high && sel.cursor == low),
    ensures
        offset_copy_text(OffsetCopy::Caret, Some(sel), source_len, base) == Some(
            offset_text(sel.cursor, base),
        ),
        offset_copy_text(OffsetCopy::SelectionLength, Some(sel), source_len, base) == Some(
            offset_text((high - low + 1) as u64, base),
        ),
        offset_copy_text(OffsetCopy::SelectionRange, Some(sel), source_len, base) == Some(
            offset_text(low, base) + "-"@ + offset_text(high, base) + " ("@ + offset_text(
                (high - low + 1) as u64,
                base,
            ) + " bytes)"@,
        ),
        offset_copy_text(OffsetCopy::FileLength, None, source_len, base) == Some(
            offset_text(source_len, base),
        ),
        offset_copy_text(OffsetCopy::FileLength, Some(sel), source_len, base) == Some(
            offset_text(source_len, base),
        ),
        offset_copy_text(OffsetCopy::Caret, None, source_len, base) is None,
        offset_copy_text(OffsetCopy::SelectionLength, None, source_len, base) is None,
        offset_copy_text(OffsetCopy::SelectionRange, None, source_len, base) is None,
{
}

} // verus!
