//! Parsed templates: the node tree and its rendering as source text.

use vstd::prelude::*;
use vstd::string::*;
use crate::copy::CopyKind;
use crate::editor::Selection;
use crate::text::{debug_quote, push_char, push_dec, push_hex_padded};
#[allow(unused_imports)]
use crate::text::{debug_quoted, dec, digits, digits_value, zero_padded, zeros};
#[allow(unused_imports)]
use crate::text::law_digits_read_back;

verus! {

/// Width and interpretation of a scalar field.
#[derive(Clone, Copy, Debug, PartialEq, Eq, Structural)]
pub enum ScalarKind {
    U8K,
    U16K,
    U32K,
    U64K,
    U128K,
    S8K,
    S16K,
    S32K,
    S64K,
    S128K,
    F32K,
    F64K,
    BoolK,
    BytesK,
    StringK,
}

/// What a node of the tree stands for.
pub enum NodeType {
    Scalar(ScalarKind),
    ScalarArray(ScalarKind, u64),
    StructType(String),
    StructArray(String, u64),
    EnumType(String),
    EnumArray(String, u64),
    Unknown(String),
}

/// The value of a node. A floating-point value carries its decimal text.
pub enum Value {
    U8Val(u8),
    U16Val(u16),
    U32Val(u32),
    U64Val(u64),
    S8Val(i8),
    S16Val(i16),
    S32Val(i32),
    S64Val(i64),
    F32Val(String),
    F64Val(String),
    BoolVal(bool),
    StringVal(String),
    BytesVal(Vec<u8>),
    EnumVal(String, u64),
}

/// How the value of a node is meant to be shown.
#[derive(Clone, Copy, Debug, PartialEq, Eq, Structural)]
pub enum DisplayHint {
    Hex,
    Decimal,
    Binary,
    Ascii,
}

/// Bytes that a node covers.
#[derive(Clone, Copy, Debug, PartialEq, Eq, Structural)]
pub struct Span {
    pub offset: u64,
    pub length: u64,
}

/// A field, struct or array of a parsed template.
pub struct Node {
    pub name: String,
    /// The name made fit to stand in source text.
    pub ident: String,
    /// The type as it is shown.
    pub type_label: String,
    pub node_type: NodeType,
    pub span: Span,
    pub value: Option<Value>,
    pub parent: Option<u32>,
    pub display: Option<DisplayHint>,
    pub attributes: Vec<(String, String)>,
}

/// Language of a struct literal.
#[derive(Clone, Copy, Debug, PartialEq, Eq, Structural)]
pub enum StructSyntax {
    Rust,
    C,
}

/// The bracket that opens an array.
pub open spec fn array_open(syntax: StructSyntax) -> Seq<char> {
    match syntax {
        StructSyntax::Rust => seq!['['],
        StructSyntax::C => seq!['{'],
    }
}

/// The bracket that closes an array.
pub open spec fn array_close(syntax: StructSyntax) -> Seq<char> {
    match syntax {
        StructSyntax::Rust => seq![']'],
        StructSyntax::C => seq!['}'],
    }
}

/// Appends the bracket that opens an array.
pub fn open_array(out: &mut String, syntax: StructSyntax)
    ensures
        final(out)@ == old(out)@ + array_open(syntax),
{
    push_char(
        out,
        match syntax {
            StructSyntax::Rust => '[',
            StructSyntax::C => '{',
        },
    );
    assert(out@ =~= old(out)@ + array_open(syntax));
}

/// Appends the bracket that closes an array.
pub fn close_array(out: &mut String, syntax: StructSyntax)
    ensures
        final(out)@ == old(out)@ + array_close(syntax),
{
    push_char(
        out,
        match syntax {
            StructSyntax::Rust => ']',
            StructSyntax::C => '}',
        },
    );
    assert(out@ =~= old(out)@ + array_close(syntax));
}

/// `0x` and `n` in upper-case hexadecimal, `width` digits at least.
pub open spec fn hex_literal(n: nat, width: nat) -> Seq<char> {
    "0x"@ + zero_padded(digits(n, 16, true), width)
}

/// Appends a hexadecimal literal.
pub fn push_hex_literal(out: &mut String, n: u64, width: usize)
    ensures
        final(out)@ == old(out)@ + hex_literal(n as nat, width as nat),
{
    out.append("0x");
    push_hex_padded(out, n, width, true);
    assert(out@ =~= old(out)@ + hex_literal(n as nat, width as nat));
}

/// Byte literals divided by commas.
pub open spec fn byte_list(bytes: Seq<u8>) -> Seq<char>
    decreases bytes.len(),
{
    if bytes.len() == 0 {
        seq![]
    } else {
        byte_list(bytes.drop_last()) + (if bytes.len() > 1 {
            ", "@
        } else {
            seq![]
        }) + hex_literal(bytes.last() as nat, 2)
    }
}

fn push_byte_list(out: &mut String, bytes: &Vec<u8>)
    ensures
        final(out)@ == old(out)@ + byte_list(bytes@),
{
    let mut i: usize = 0;
    assert(bytes@.take(0) =~= seq![]);
    assert(out@ =~= old(out)@ + byte_list(bytes@.take(0)));
    while i < bytes.len()
        invariant
            i <= bytes.len(),
            out@ == old(out)@ + byte_list(bytes@.take(i as int)),
        decreases bytes.len() - i,
    {
        if i > 0 {
            out.append(", ");
        }
        push_hex_literal(out, bytes[i] as u64, 2);
        assert(bytes@.take(i as int + 1).drop_last() =~= bytes@.take(i as int));
        i = i + 1;
        assert(out@ =~= old(out)@ + byte_list(bytes@.take(i as int)));
    }
    assert(bytes@.take(bytes@.len() as int) =~= bytes@);
}

/// A hexadecimal literal of a signed number: a sign where it is negative, and
/// the digits of its magnitude.
pub open spec fn signed_hex_literal(n: int, width: nat) -> Seq<char> {
    if n < 0 {
        "-"@ + hex_literal((-n) as nat, width)
    } else {
        hex_literal(n as nat, width)
    }
}

fn push_signed_hex_literal(out: &mut String, n: i64, width: usize)
    ensures
        final(out)@ == old(out)@ + signed_hex_literal(n as int, width as nat),
{
    if n < 0 {
        let magnitude: u64 = (-(n + 1)) as u64 + 1;
        out.append("-");
        push_hex_literal(out, magnitude, width);
        assert(out@ =~= old(out)@ + signed_hex_literal(n as int, width as nat));
    } else {
        push_hex_literal(out, n as u64, width);
    }
}

/// A value as a literal. Numbers are in hexadecimal with the digits of their
/// width, and an enum's number carries its name in a comment.
pub open spec fn scalar_literal(v: Value, syntax: StructSyntax) -> Seq<char> {
    match v {
        Value::U8Val(x) => hex_literal(x as nat, 2),
        Value::U16Val(x) => hex_literal(x as nat, 4),
        Value::U32Val(x) => hex_literal(x as nat, 8),
        Value::U64Val(x) => hex_literal(x as nat, 16),
        Value::S8Val(x) => signed_hex_literal(x as int, 2),
        Value::S16Val(x) => signed_hex_literal(x as int, 4),
        Value::S32Val(x) => signed_hex_literal(x as int, 8),
        Value::S64Val(x) => signed_hex_literal(x as int, 16),
        Value::F32Val(text) => text@ + match syntax {
            StructSyntax::Rust => "f32"@,
            StructSyntax::C => "f"@,
        },
        Value::F64Val(text) => match syntax {
            StructSyntax::Rust => text@ + "f64"@,
            StructSyntax::C => text@,
        },
        Value::BoolVal(b) => if b {
            "true"@
        } else {
            "false"@
        },
        Value::StringVal(s) => debug_quoted(s@),
        Value::BytesVal(bs) => array_open(syntax) + byte_list(bs@) + array_close(syntax),
        Value::EnumVal(name, value) => dec(value as nat) + " /* "@ + name@ + " */"@,
    }
}

/// Appends a value as a literal.
pub fn push_scalar_literal(out: &mut String, v: &Value, syntax: StructSyntax)
    ensures
        final(out)@ == old(out)@ + scalar_literal(*v, syntax),
{
    match v {
        Value::U8Val(x) => push_hex_literal(out, *x as u64, 2),
        Value::U16Val(x) => push_hex_literal(out, *x as u64, 4),
        Value::U32Val(x) => push_hex_literal(out, *x as u64, 8),
        Value::U64Val(x) => push_hex_literal(out, *x, 16),
        Value::S8Val(x) => push_signed_hex_literal(out, *x as i64, 2),
        Value::S16Val(x) => push_signed_hex_literal(out, *x as i64, 4),
        Value::S32Val(x) => push_signed_hex_literal(out, *x as i64, 8),
        Value::S64Val(x) => push_signed_hex_literal(out, *x, 16),
        Value::F32Val(text) => {
            out.append(text.as_str());
            match syntax {
                StructSyntax::Rust => out.append("f32"),
                StructSyntax::C => out.append("f"),
            }
            assert(out@ =~= old(out)@ + scalar_literal(*v, syntax));
        },
        Value::F64Val(text) => {
            out.append(text.as_str());
            match syntax {
                StructSyntax::Rust => out.append("f64"),
                StructSyntax::C => {},
            }
            assert(out@ =~= old(out)@ + scalar_literal(*v, syntax));
        },
        Value::BoolVal(b) => {
            if *b {
                out.append("true");
            } else {
                out.append("false");
            }
        },
        Value::StringVal(s) => {
            let quoted = debug_quote(s.as_str());
            out.append(quoted.as_str());
        },
        Value::BytesVal(bs) => {
            open_array(out, syntax);
            push_byte_list(out, bs);
            close_array(out, syntax);
            assert(out@ =~= old(out)@ + scalar_literal(*v, syntax));
        },
        Value::EnumVal(name, value) => {
            push_dec(out, *value);
            out.append(" /* ");
            out.append(name.as_str());
            out.append(" */");
            assert(out@ =~= old(out)@ + scalar_literal(*v, syntax));
        },
    }
}

/// A value as a literal of its own.
pub fn format_scalar_literal(v: &Value, syntax: StructSyntax) -> (r: String)
    ensures
        r@ == scalar_literal(*v, syntax),
{
    let mut out = String::new();
    push_scalar_literal(&mut out, v, syntax);
    assert(out@ =~= scalar_literal(*v, syntax));
    out
}

/// The bit pattern of a signed value in `bits` bits.
pub open spec fn bit_pattern(x: int, modulus: int) -> u64 {
    if x < 0 {
        (x + modulus) as u64
    } else {
        x as u64
    }
}

/// The bit pattern of an integer value; nothing for other values.
pub open spec fn scalar_bits(v: Value) -> Option<u64> {
    match v {
        Value::U8Val(x) => Some(x as u64),
        Value::U16Val(x) => Some(x as u64),
        Value::U32Val(x) => Some(x as u64),
        Value::U64Val(x) => Some(x),
        Value::S8Val(x) => Some(bit_pattern(x as int, 0x100)),
        Value::S16Val(x) => Some(bit_pattern(x as int, 0x1_0000)),
        Value::S32Val(x) => Some(bit_pattern(x as int, 0x1_0000_0000)),
        Value::S64Val(x) => Some(bit_pattern(x as int, 0x1_0000_0000_0000_0000)),
        _ => None,
    }
}

fn signed_bits(x: i64, modulus: u128) -> (r: u64)
    requires
        modulus <= 0x1_0000_0000_0000_0000,
        -(modulus as int) <= x < modulus,
    ensures
        r == bit_pattern(x as int, modulus as int),
{
    if x < 0 {
        let magnitude: u128 = ((-(x + 1)) as u128) + 1;
        (modulus - magnitude) as u64
    } else {
        x as u64
    }
}

/// The bit pattern of an integer value.
pub fn scalar_value_u64(v: &Value) -> (r: Option<u64>)
    ensures
        r == scalar_bits(*v),
{
    match v {
        Value::U8Val(x) => Some(*x as u64),
        Value::U16Val(x) => Some(*x as u64),
        Value::U32Val(x) => Some(*x as u64),
        Value::U64Val(x) => Some(*x),
        Value::S8Val(x) => Some(signed_bits(*x as i64, 0x100)),
        Value::S16Val(x) => Some(signed_bits(*x as i64, 0x1_0000)),
        Value::S32Val(x) => Some(signed_bits(*x as i64, 0x1_0000_0000)),
        Value::S64Val(x) => Some(signed_bits(*x, 0x1_0000_0000_0000_0000)),
        _ => None,
    }
}

/// Whether node `i` hangs below node `idx`.
pub open spec fn is_child(nodes: Seq<Node>, idx: int, i: int) -> bool {
    nodes[i].parent matches Some(p) && p == idx
}

/// The children of a node among the first `end` nodes, in order.
pub open spec fn children_below(nodes: Seq<Node>, idx: int, end: int) -> Seq<int>
    decreases end,
{
    if end <= 0 {
        seq![]
    } else if is_child(nodes, idx, end - 1) {
        children_below(nodes, idx, end - 1).push(end - 1)
    } else {
        children_below(nodes, idx, end - 1)
    }
}

/// The children of a node, in order.
pub open spec fn children(nodes: Seq<Node>, idx: int) -> Seq<int> {
    children_below(nodes, idx, nodes.len() as int)
}

proof fn lemma_children(nodes: Seq<Node>, idx: int, end: int)
    requires
        0 <= end <= nodes.len(),
    ensures
        forall|k: int|
            0 <= k < children_below(nodes, idx, end).len() ==> 0 <= #[trigger] children_below(
                nodes,
                idx,
                end,
            )[k] < end && is_child(nodes, idx, children_below(nodes, idx, end)[k]),
    decreases end,
{
    if end > 0 {
        lemma_children(nodes, idx, end - 1);
        let rest = children_below(nodes, idx, end - 1);
        let all = children_below(nodes, idx, end);
        assert forall|k: int| 0 <= k < all.len() implies 0 <= #[trigger] all[k] < end && is_child(
            nodes,
            idx,
            all[k],
        ) by {
            if k < rest.len() {
                assert(all[k] == rest[k]);
            }
        }
    }
}

fn child_indices(nodes: &Vec<Node>, idx: usize) -> (r: Vec<usize>)
    ensures
        r@.map_values(|k: usize| k as int) == children(nodes@, idx as int),
        forall|k: int| 0 <= k < r@.len() ==> r@[k] < nodes@.len(),
{
    let mut out: Vec<usize> = Vec::new();
    let mut i: usize = 0;
    while i < nodes.len()
        invariant
            i <= nodes.len(),
            out@.map_values(|k: usize| k as int) == children_below(nodes@, idx as int, i as int),
            forall|k: int| 0 <= k < out@.len() ==> out@[k] < i,
        decreases nodes.len() - i,
    {
        let ghost before = out@;
        let hit: bool = match nodes[i].parent {
            Some(p) => p as u64 == idx as u64,
            None => false,
        };
        if hit {
            out.push(i);
        }
        i = i + 1;
        assert(out@.map_values(|k: usize| k as int) =~= children_below(
            nodes@,
            idx as int,
            i as int,
        ));
    }
    out
}

/// Indentation of a nesting level.
pub open spec fn indent(depth: nat) -> Seq<char>
    decreases depth,
{
    if depth == 0 {
        seq![]
    } else {
        indent((depth - 1) as nat) + "    "@
    }
}

/// What stands before the value of a struct's field.
pub open spec fn field_head(ident: Seq<char>, syntax: StructSyntax) -> Seq<char> {
    match syntax {
        StructSyntax::Rust => ident + ": "@,
        StructSyntax::C => "."@ + ident + " = "@,
    }
}

/// What stands before the fields of a struct.
pub open spec fn struct_head(name: Seq<char>, syntax: StructSyntax) -> Seq<char> {
    match syntax {
        StructSyntax::Rust => name + " {"@,
        StructSyntax::C => "{"@,
    }
}

/// The text of a node: a struct literal, an array, or a scalar. Nothing for a
/// node that is not there, for a struct without fields, or where the nesting is
/// deeper than there are nodes, as happens only where parents form a circle.
pub open spec fn node_text(nodes: Seq<Node>, idx: int, syntax: StructSyntax, depth: nat) -> Option<
    Seq<char>,
>
    decreases nodes.len() + 1 - depth, 1int, 0nat,
{
    if idx < 0 || idx >= nodes.len() || depth >= nodes.len() {
        None
    } else {
        let kids = children(nodes, idx);
        match nodes[idx].node_type {
            NodeType::StructType(name) => if kids.len() == 0 {
                None
            } else {
                match fields_text(nodes, kids, syntax, depth) {
                    Some(fields) => Some(
                        struct_head(name@, syntax) + fields + "\n"@ + indent(depth) + "}"@,
                    ),
                    None => None,
                }
            },
            NodeType::StructArray(_, _) => match items_text(nodes, kids, syntax, depth) {
                Some(items) => Some(array_open(syntax) + items + array_close(syntax)),
                None => None,
            },
            NodeType::ScalarArray(_, _) | NodeType::EnumArray(_, _) => if kids.len() > 0 {
                match items_text(nodes, kids, syntax, depth) {
                    Some(items) => Some(array_open(syntax) + items + array_close(syntax)),
                    None => None,
                }
            } else {
                Some(
                    array_open(syntax) + (match nodes[idx].value {
                        Some(v) => scalar_literal(v, syntax),
                        None => seq![],
                    }) + array_close(syntax),
                )
            },
            _ => Some(
                match nodes[idx].value {
                    Some(v) => scalar_literal(v, syntax),
                    None => "0"@,
                },
            ),
        }
    }
}

/// The fields of a struct, one to a line, each with a comma behind it.
pub open spec fn fields_text(
    nodes: Seq<Node>,
    kids: Seq<int>,
    syntax: StructSyntax,
    depth: nat,
) -> Option<Seq<char>>
    decreases nodes.len() + 1 - depth, 0int, kids.len(),
{
    if depth >= nodes.len() {
        None
    } else if kids.len() == 0 {
        Some(seq![])
    } else {
        match (
            fields_text(nodes, kids.drop_last(), syntax, depth),
            node_text(nodes, kids.last(), syntax, depth + 1),
        ) {
            (Some(before), Some(value)) => Some(
                before + "\n"@ + indent(depth + 1) + field_head(
                    nodes[kids.last()].ident@,
                    syntax,
                ) + value + ","@,
            ),
            _ => None,
        }
    }
}

/// The items of an array, with a comma and a space between them.
pub open spec fn items_text(
    nodes: Seq<Node>,
    kids: Seq<int>,
    syntax: StructSyntax,
    depth: nat,
) -> Option<Seq<char>>
    decreases nodes.len() + 1 - depth, 0int, kids.len(),
{
    if depth >= nodes.len() {
        None
    } else if kids.len() == 0 {
        Some(seq![])
    } else {
        match (
            items_text(nodes, kids.drop_last(), syntax, depth),
            node_text(nodes, kids.last(), syntax, depth + 1),
        ) {
            (Some(before), Some(value)) => Some(
                before + (if kids.len() > 1 {
                    ", "@
                } else {
                    seq![]
                }) + value,
            ),
            _ => None,
        }
    }
}

fn push_indent(out: &mut String, depth: usize)
    ensures
        final(out)@ == old(out)@ + indent(depth as nat),
    decreases depth,
{
    if depth > 0 {
        push_indent(out, depth - 1);
        out.append("    ");
    }
    assert(out@ =~= old(out)@ + indent(depth as nat));
}

proof fn lemma_none_spreads(nodes: Seq<Node>, kids: Seq<int>, k: int, syntax: StructSyntax, depth: nat)
    requires
        0 <= k <= kids.len(),
    ensures
        fields_text(nodes, kids.take(k), syntax, depth) is None ==> fields_text(
            nodes,
            kids,
            syntax,
            depth,
        ) is None,
        items_text(nodes, kids.take(k), syntax, depth) is None ==> items_text(
            nodes,
            kids,
            syntax,
            depth,
        ) is None,
    decreases kids.len() - k,
{
    if k < kids.len() {
        lemma_none_spreads(nodes, kids, k + 1, syntax, depth);
        assert(kids.take(k + 1).drop_last() =~= kids.take(k));
    } else {
        assert(kids.take(k) =~= kids);
    }
}

#[verifier::rlimit(40)]
#[verifier::spinoff_prover]
fn write_fields(
    out: &mut String,
    nodes: &Vec<Node>,
    kids: &Vec<usize>,
    syntax: StructSyntax,
    depth: usize,
) -> (ok: bool)
    requires
        depth < nodes@.len(),
        forall|k: int| 0 <= k < kids@.len() ==> kids@[k] < nodes@.len(),
    ensures
        ({
            let ids = kids@.map_values(|k: usize| k as int);
            &&& ok == (fields_text(nodes@, ids, syntax, depth as nat) is Some)
            &&& ok ==> final(out)@ == old(out)@ + fields_text(
                nodes@,
                ids,
                syntax,
                depth as nat,
            )->0
        }),
    decreases nodes.len() + 1 - depth, 0int,
{
    let ghost ids = kids@.map_values(|k: usize| k as int);
    let mut i: usize = 0;
    let count: usize = nodes.len();
    assert(ids.take(0) =~= seq![]);
    assert(out@ =~= old(out)@ + seq![]);
    while i < kids.len()
        invariant
            i <= kids.len(),
            depth < nodes@.len() <= usize::MAX,
            ids == kids@.map_values(|k: usize| k as int),
            forall|k: int| 0 <= k < kids@.len() ==> kids@[k] < nodes@.len(),
            fields_text(nodes@, ids.take(i as int), syntax, depth as nat) is Some,
            out@ == old(out)@ + fields_text(
                nodes@,
                ids.take(i as int),
                syntax,
                depth as nat,
            )->0,
        decreases kids.len() - i,
    {
        let ghost before = out@;
        let child: usize = kids[i];
        out.append("\n");
        push_indent(out, depth + 1);
        match syntax {
            StructSyntax::Rust => {
                out.append(nodes[child].ident.as_str());
                out.append(": ");
            },
            StructSyntax::C => {
                out.append(".");
                out.append(nodes[child].ident.as_str());
                out.append(" = ");
            },
        }
        let ghost mid = out@;
        assert(mid =~= before + "\n"@ + indent(depth as nat + 1) + field_head(
            nodes@[child as int].ident@,
            syntax,
        ));
        assert(ids.take(i as int + 1).drop_last() =~= ids.take(i as int));
        assert(ids.take(i as int + 1).last() == child as int);
        if !write_struct_body(out, nodes, child, syntax, depth + 1) {
            proof {
                lemma_none_spreads(nodes@, ids, i as int + 1, syntax, depth as nat);
            }
            return false;
        }
        out.append(",");
        i = i + 1;
        assert(out@ =~= old(out)@ + fields_text(
            nodes@,
            ids.take(i as int),
            syntax,
            depth as nat,
        )->0);
    }
    assert(ids.take(ids.len() as int) =~= ids);
    true
}

fn write_items(
    out: &mut String,
    nodes: &Vec<Node>,
    kids: &Vec<usize>,
    syntax: StructSyntax,
    depth: usize,
) -> (ok: bool)
    requires
        depth < nodes@.len(),
        forall|k: int| 0 <= k < kids@.len() ==> kids@[k] < nodes@.len(),
    ensures
        ({
            let ids = kids@.map_values(|k: usize| k as int);
            &&& ok == (items_text(nodes@, ids, syntax, depth as nat) is Some)
            &&& ok ==> final(out)@ == old(out)@ + items_text(
                nodes@,
                ids,
                syntax,
                depth as nat,
            )->0
        }),
    decreases nodes.len() + 1 - depth, 0int,
{
    let ghost ids = kids@.map_values(|k: usize| k as int);
    let mut i: usize = 0;
    let count: usize = nodes.len();
    assert(ids.take(0) =~= seq![]);
    assert(out@ =~= old(out)@ + seq![]);
    while i < kids.len()
        invariant
            i <= kids.len(),
            depth < nodes@.len() <= usize::MAX,
            ids == kids@.map_values(|k: usize| k as int),
            forall|k: int| 0 <= k < kids@.len() ==> kids@[k] < nodes@.len(),
            items_text(nodes@, ids.take(i as int), syntax, depth as nat) is Some,
            out@ == old(out)@ + items_text(
                nodes@,
                ids.take(i as int),
                syntax,
                depth as nat,
            )->0,
        decreases kids.len() - i,
    {
        let ghost before = out@;
        let child: usize = kids[i];
        if i > 0 {
            out.append(", ");
        }
        assert(ids.take(i as int + 1).drop_last() =~= ids.take(i as int));
        assert(ids.take(i as int + 1).last() == child as int);
        if !write_struct_body(out, nodes, child, syntax, depth + 1) {
            proof {
                lemma_none_spreads(nodes@, ids, i as int + 1, syntax, depth as nat);
            }
            return false;
        }
        i = i + 1;
        assert(out@ =~= old(out)@ + items_text(
            nodes@,
            ids.take(i as int),
            syntax,
            depth as nat,
        )->0);
    }
    assert(ids.take(ids.len() as int) =~= ids);
    true
}

fn write_scalar_or_array(
    out: &mut String,
    nodes: &Vec<Node>,
    idx: usize,
    kids: &Vec<usize>,
    syntax: StructSyntax,
    depth: usize,
) -> (ok: bool)
    requires
        idx < nodes@.len(),
        depth < nodes@.len(),
        kids@.map_values(|k: usize| k as int) == children(nodes@, idx as int),
        forall|k: int| 0 <= k < kids@.len() ==> kids@[k] < nodes@.len(),
        !(nodes@[idx as int].node_type is StructType),
        !(nodes@[idx as int].node_type is StructArray),
    ensures
        ok == (node_text(nodes@, idx as int, syntax, depth as nat) is Some),
        ok ==> final(out)@ == old(out)@ + node_text(
            nodes@,
            idx as int,
            syntax,
            depth as nat,
        )->0,
    decreases nodes.len() + 1 - depth, 1int,
{
    let node = &nodes[idx];
    let array: bool = match node.node_type {
        NodeType::ScalarArray(_, _) | NodeType::EnumArray(_, _) => true,
        _ => false,
    };
    if array {
        open_array(out, syntax);
        let ghost opened = out@;
        if kids.len() > 0 {
            if !write_items(out, nodes, kids, syntax, depth) {
                return false;
            }
        } else if let Some(v) = &node.value {
            push_scalar_literal(out, v, syntax);
        }
        close_array(out, syntax);
        assert(out@ =~= old(out)@ + node_text(nodes@, idx as int, syntax, depth as nat)->0);
    } else if let Some(v) = &node.value {
        push_scalar_literal(out, v, syntax);
    } else {
        out.append("0");
    }
    true
}

fn write_struct_body(
    out: &mut String,
    nodes: &Vec<Node>,
    idx: usize,
    syntax: StructSyntax,
    depth: usize,
) -> (ok: bool)
    ensures
        ok == (node_text(nodes@, idx as int, syntax, depth as nat) is Some),
        ok ==> final(out)@ == old(out)@ + node_text(
            nodes@,
            idx as int,
            syntax,
            depth as nat,
        )->0,
    decreases
        if depth <= nodes.len() {
            nodes.len() + 1 - depth
        } else {
            0
        },
        2int,
{
    if idx >= nodes.len() || depth >= nodes.len() {
        return false;
    }
    let kids = child_indices(nodes, idx);
    match &nodes[idx].node_type {
        NodeType::StructType(name) => {
            assert(kids@.map_values(|k: usize| k as int).len() == kids@.len());
            if kids.len() == 0 {
                return false;
            }
            match syntax {
                StructSyntax::Rust => {
                    out.append(name.as_str());
                    out.append(" {");
                },
                StructSyntax::C => out.append("{"),
            }
            assert(out@ =~= old(out)@ + struct_head(name@, syntax));
            if !write_fields(out, nodes, &kids, syntax, depth) {
                return false;
            }
            out.append("\n");
            push_indent(out, depth);
            out.append("}");
            assert(out@ =~= old(out)@ + node_text(nodes@, idx as int, syntax, depth as nat)->0);
            true
        },
        NodeType::StructArray(_, _) => {
            open_array(out, syntax);
            if !write_items(out, nodes, &kids, syntax, depth) {
                return false;
            }
            close_array(out, syntax);
            assert(out@ =~= old(out)@ + node_text(nodes@, idx as int, syntax, depth as nat)->0);
            true
        },
        _ => write_scalar_or_array(out, nodes, idx, &kids, syntax, depth),
    }
}

/// A node as a complete declaration with its literal.
pub open spec fn declaration(nodes: Seq<Node>, root: int, kind: CopyKind) -> Option<Seq<char>> {
    if root < 0 || root >= nodes.len() {
        None
    } else {
        let ident = nodes[root].ident@;
        let ty = nodes[root].type_label@;
        match kind {
            CopyKind::StructRust => match node_text(nodes, root, StructSyntax::Rust, 0) {
                Some(body) => Some("let "@ + ident + ": "@ + ty + " = "@ + body + ";"@),
                None => None,
            },
            CopyKind::StructC => match node_text(nodes, root, StructSyntax::C, 0) {
                Some(body) => Some(ty + " "@ + ident + " = "@ + body + ";"@),
                None => None,
            },
            _ => None,
        }
    }
}

/// Renders a node and all below it as a declaration in Rust or C; nothing for
/// other kinds.
pub fn format_template_struct(nodes: &Vec<Node>, root_idx: usize, kind: CopyKind) -> (r: Option<
    String,
>)
    ensures
        match (declaration(nodes@, root_idx as int, kind), r) {
            (Some(a), Some(b)) => a == b@,
            (None, None) => true,
            _ => false,
        },
{
    if root_idx >= nodes.len() {
        return None;
    }
    let mut out = String::new();
    let root = &nodes[root_idx];
    match kind {
        CopyKind::StructRust => {
            out.append("let ");
            out.append(root.ident.as_str());
            out.append(": ");
            out.append(root.type_label.as_str());
            out.append(" = ");
            if !write_struct_body(&mut out, nodes, root_idx, StructSyntax::Rust, 0) {
                return None;
            }
            out.append(";");
        },
        CopyKind::StructC => {
            out.append(root.type_label.as_str());
            out.append(" ");
            out.append(root.ident.as_str());
            out.append(" = ");
            if !write_struct_body(&mut out, nodes, root_idx, StructSyntax::C, 0) {
                return None;
            }
            out.append(";");
        },
        _ => {
            return None;
        },
    }
    assert(out@ =~= declaration(nodes@, root_idx as int, kind)->0);
    Some(out)
}

/// Whether every node comes behind its parent.
pub open spec fn parents_first(nodes: Seq<Node>) -> bool {
    forall|i: int|
        0 <= i < nodes.len() ==> ((#[trigger] nodes[i]).parent matches Some(p) ==> p < i)
}

/// Whether every struct has a field.
pub open spec fn structs_filled(nodes: Seq<Node>) -> bool {
    forall|i: int|
        0 <= i < nodes.len() && (#[trigger] nodes[i]).node_type is StructType ==> children(
            nodes,
            i,
        ).len() > 0
}

/// Where every node comes behind its parent and every struct has a field, each
/// node has a text.
pub proof fn law_tree_has_text(nodes: Seq<Node>, idx: int, syntax: StructSyntax, depth: nat)
    requires
        parents_first(nodes),
        structs_filled(nodes),
        0 <= idx < nodes.len(),
        depth <= idx,
    ensures
        node_text(nodes, idx, syntax, depth) is Some,
    decreases nodes.len() - idx, 1int, 0nat,
{
    let kids = children(nodes, idx);
    lemma_children(nodes, idx, nodes.len() as int);
    lemma_kids_have_text(nodes, idx, kids, syntax, depth);
}

proof fn lemma_kids_have_text(
    nodes: Seq<Node>,
    idx: int,
    kids: Seq<int>,
    syntax: StructSyntax,
    depth: nat,
)
    requires
        parents_first(nodes),
        structs_filled(nodes),
        0 <= idx < nodes.len(),
        depth <= idx,
        forall|k: int|
            0 <= k < kids.len() ==> 0 <= #[trigger] kids[k] < nodes.len() && is_child(
                nodes,
                idx,
                kids[k],
            ),
    ensures
        fields_text(nodes, kids, syntax, depth) is Some,
        items_text(nodes, kids, syntax, depth) is Some,
    decreases nodes.len() - idx, 0int, kids.len(),
{
    if kids.len() > 0 {
        let last = kids.last();
        assert(last == kids[kids.len() - 1]);
        assert(nodes[last].parent is Some);
        assert(idx < last);
        law_tree_has_text(nodes, last, syntax, depth + 1);
        lemma_kids_have_text(nodes, idx, kids.drop_last(), syntax, depth);
    }
}

/// A struct without fields has no text, and neither has any struct around it.
pub proof fn law_empty_struct_has_no_text(
    nodes: Seq<Node>,
    outer: int,
    idx: int,
    syntax: StructSyntax,
    depth: nat,
)
    requires
        0 <= idx < nodes.len(),
        nodes[idx].node_type is StructType,
        children(nodes, idx).len() == 0,
        outer == idx || (0 <= outer < nodes.len() && nodes[outer].node_type is StructType
            && is_child(nodes, outer, idx)),
    ensures
        node_text(nodes, outer, syntax, depth) is None,
{
    if outer != idx {
        let kids = children(nodes, outer);
        lemma_child_listed(nodes, outer, idx, nodes.len() as int);
        let k = choose|k: int| 0 <= k < kids.len() && kids[k] == idx;
        lemma_none_spreads(nodes, kids, k + 1, syntax, depth);
        assert(kids.take(k + 1).last() == idx);
        assert(node_text(nodes, idx, syntax, depth + 1) is None);
        assert(fields_text(nodes, kids.take(k + 1), syntax, depth) is None);
    }
}

proof fn lemma_child_listed(nodes: Seq<Node>, idx: int, i: int, end: int)
    requires
        0 <= i < end <= nodes.len(),
        is_child(nodes, idx, i),
    ensures
        exists|k: int|
            0 <= k < children_below(nodes, idx, end).len() && children_below(nodes, idx, end)[k]
                == i,
    decreases end,
{
    let all = children_below(nodes, idx, end);
    if i == end - 1 {
        assert(all[all.len() - 1] == i);
    } else {
        lemma_child_listed(nodes, idx, i, end - 1);
        let rest = children_below(nodes, idx, end - 1);
        let k = choose|k: int| 0 <= k < rest.len() && rest[k] == i;
        assert(all[k] == i);
    }
}

/// The bytes of a node as a selection: at least one byte.
pub open spec fn node_selection(span: Span) -> Selection {
    let length = if span.length == 0 {
        1
    } else {
        span.length as int
    };
    Selection {
        anchor: span.offset,
        cursor: if span.offset + length - 1 > u64::MAX {
            u64::MAX
        } else {
            (span.offset + length - 1) as u64
        },
    }
}

/// The selection that shows a node in the hex view.
pub fn select_node(nodes: &Vec<Node>, idx: usize) -> (r: Option<Selection>)
    ensures
        r == if idx < nodes@.len() {
            Some(node_selection(nodes@[idx as int].span))
        } else {
            None
        },
{
    if idx < nodes.len() {
        let span: Span = nodes[idx].span;
        let extra: u64 = if span.length == 0 {
            0
        } else {
            span.length - 1
        };
        let last: u64 = if extra > u64::MAX - span.offset {
            u64::MAX
        } else {
            span.offset + extra
        };
        Some(Selection { anchor: span.offset, cursor: last })
    } else {
        None
    }
}

/// First offset behind a span, or the largest offset where that does not fit.
pub open spec fn span_end(span: Span) -> u64 {
    if span.offset + span.length > u64::MAX {
        u64::MAX
    } else {
        (span.offset + span.length) as u64
    }
}

/// First offset behind a span.
pub fn end_of_span(span: Span) -> (r: u64)
    ensures
        r == span_end(span),
{
    if span.length > u64::MAX - span.offset {
        u64::MAX
    } else {
        span.offset + span.length
    }
}

/// `16` to the power of `k`.
pub open spec fn pow16(k: nat) -> nat
    decreases k,
{
    if k == 0 {
        1
    } else {
        16 * pow16((k - 1) as nat)
    }
}

proof fn lemma_hex_fits(n: nat, k: nat)
    requires
        k > 0,
        n < pow16(k),
    ensures
        digits(n, 16, true).len() <= k,
    decreases k,
{
    if n >= 16 {
        reveal_with_fuel(pow16, 2);
        lemma_hex_fits(n / 16, (k - 1) as nat);
    }
}

proof fn lemma_zeros_add_nothing(z: nat, s: Seq<char>)
    ensures
        digits_value(zeros(z) + s, 16) == digits_value(s, 16),
    decreases z + s.len(),
{
    let t = zeros(z) + s;
    if s.len() > 0 {
        assert(t.drop_last() =~= zeros(z) + s.drop_last());
        lemma_zeros_add_nothing(z, s.drop_last());
    } else if z > 0 {
        assert(t.drop_last() =~= zeros((z - 1) as nat) + s);
        lemma_zeros_add_nothing((z - 1) as nat, s);
        assert(digits_value(s, 16) == 0);
    } else {
        assert(t =~= s);
    }
}

/// Whether text is a hexadecimal literal of a number with a count of digits.
pub open spec fn is_hex_literal(text: Seq<char>, n: nat, width: nat) -> bool {
    &&& text.len() == width + 2
    &&& text[0] == '0' && text[1] == 'x'
    &&& digits_value(text.skip(2), 16) == n
}

proof fn lemma_hex_literal(n: nat, width: nat)
    requires
        width > 0,
        n < pow16(width),
    ensures
        is_hex_literal(hex_literal(n, width), n, width),
{
    reveal_strlit("0x");
    let d = digits(n, 16, true);
    lemma_hex_fits(n, width);
    law_digits_read_back(n, 16, true);
    let padded = zero_padded(d, width);
    if d.len() < width {
        lemma_zeros_add_nothing((width - d.len()) as nat, d);
    }
    assert(hex_literal(n, width).skip(2) =~= padded);
}

/// A number's literal is the hexadecimal literal of that number, two digits to a byte
/// of its type, behind a minus sign where it is below zero.
pub proof fn law_number_literals(syntax: StructSyntax, v: Value)
    ensures
        v matches Value::U8Val(x) ==> is_hex_literal(scalar_literal(v, syntax), x as nat, 2),
        v matches Value::U16Val(x) ==> is_hex_literal(scalar_literal(v, syntax), x as nat, 4),
        v matches Value::U32Val(x) ==> is_hex_literal(scalar_literal(v, syntax), x as nat, 8),
        v matches Value::U64Val(x) ==> is_hex_literal(scalar_literal(v, syntax), x as nat, 16),
        v matches Value::S8Val(x) ==> is_signed_literal(scalar_literal(v, syntax), x as int, 2),
        v matches Value::S16Val(x) ==> is_signed_literal(scalar_literal(v, syntax), x as int, 4),
        v matches Value::S32Val(x) ==> is_signed_literal(scalar_literal(v, syntax), x as int, 8),
        v matches Value::S64Val(x) ==> is_signed_literal(scalar_literal(v, syntax), x as int, 16),
{
    reveal_with_fuel(pow16, 17);
    match v {
        Value::U8Val(x) => lemma_hex_literal(x as nat, 2),
        Value::U16Val(x) => lemma_hex_literal(x as nat, 4),
        Value::U32Val(x) => lemma_hex_literal(x as nat, 8),
        Value::U64Val(x) => lemma_hex_literal(x as nat, 16),
        Value::S8Val(x) => lemma_signed_literal(x as int, 2),
        Value::S16Val(x) => lemma_signed_literal(x as int, 4),
        Value::S32Val(x) => lemma_signed_literal(x as int, 8),
        Value::S64Val(x) => lemma_signed_literal(x as int, 16),
        _ => {},
    }
}

/// Whether text is a hexadecimal literal of a number, behind a minus sign where it is
/// below zero.
pub open spec fn is_signed_literal(text: Seq<char>, x: int, width: nat) -> bool {
    if x < 0 {
        text.len() > 0 && text[0] == '-' && is_hex_literal(text.skip(1), (-x) as nat, width)
    } else {
        is_hex_literal(text, x as nat, width)
    }
}

proof fn lemma_signed_literal(x: int, width: nat)
    requires
        width > 0,
        -(pow16(width) as int) < x < pow16(width),
    ensures
        is_signed_literal(signed_hex_literal(x, width), x, width),
{
    reveal_strlit("-");
    if x < 0 {
        lemma_hex_literal((-x) as nat, width);
        assert(signed_hex_literal(x, width).skip(1) =~= hex_literal((-x) as nat, width));
    } else {
        lemma_hex_literal(x as nat, width);
    }
}

/// Other literals: truth values by their words, an enum's number with its name in a
/// comment, floating-point text with the suffix that the language has for its type.
pub proof fn law_other_literals(syntax: StructSyntax, v: Value)
    ensures
        v matches Value::BoolVal(b) ==> scalar_literal(v, syntax) == (if b {
            "true"@
        } else {
            "false"@
        }),
        v matches Value::EnumVal(name, n) ==> scalar_literal(v, syntax) == dec(n as nat) + " /* "@
            + name@ + " */"@,
        v matches Value::F32Val(t) ==> scalar_literal(v, syntax) == t@ + (if syntax is Rust {
            "f32"@
        } else {
            "f"@
        }),
        v matches Value::F64Val(t) ==> scalar_literal(v, syntax) == t@ + (if syntax is Rust {
            "f64"@
        } else {
            ""@
        }),
{
    reveal_strlit("");
    match v {
        Value::F64Val(t) => {
            assert(t@ + ""@ =~= t@);
        },
        _ => {},
    }
}

/// The literal of bytes has brackets for Rust and braces for C around it. One byte
/// more adds its two digits, behind a comma where it is not the first.
pub proof fn law_bytes_literal(bytes: Seq<u8>, b: u8, syntax: StructSyntax, v: Value)
    ensures
        v matches Value::BytesVal(bs) ==> scalar_literal(v, syntax) == (if syntax is Rust {
            seq!['['] + byte_list(bs@) + seq![']']
        } else {
            seq!['{'] + byte_list(bs@) + seq!['}']
        }),
        byte_list(seq![]) == Seq::<char>::empty(),
        is_hex_literal(byte_list(seq![b]), b as nat, 2),
        bytes.len() > 0 ==> byte_list(bytes.push(b)) == byte_list(bytes) + ", "@ + byte_list(
            seq![b],
        ),
{
    reveal_with_fuel(pow16, 3);
    lemma_hex_literal(b as nat, 2);
    let one = seq![b];
    assert(one.drop_last() =~= Seq::<u8>::empty());
    assert(byte_list(one.drop_last()) =~= Seq::<char>::empty());
    assert(byte_list(one) =~= hex_literal(b as nat, 2));
    assert(bytes.push(b).drop_last() =~= bytes);
}

/// The bit pattern of an integer is the number itself, or where it is below zero the
/// one number of its width that differs from it by a multiple of what the width can
/// count. No other value has one.
pub proof fn law_bit_pattern_of_value(v: Value)
    ensures
        v matches Value::U8Val(x) ==> scalar_bits(v) == Some(x as u64),
        v matches Value::U16Val(x) ==> scalar_bits(v) == Some(x as u64),
        v matches Value::U32Val(x) ==> scalar_bits(v) == Some(x as u64),
        v matches Value::U64Val(x) ==> scalar_bits(v) == Some(x),
        v matches Value::S8Val(x) ==> (scalar_bits(v) matches Some(r) && r < 0x100 && (r == x || r
            == x + 0x100)),
        v matches Value::S16Val(x) ==> (scalar_bits(v) matches Some(r) && r < 0x1_0000 && (r == x
            || r == x + 0x1_0000)),
        v matches Value::S32Val(x) ==> (scalar_bits(v) matches Some(r) && r < 0x1_0000_0000 && (r
            == x || r == x + 0x1_0000_0000)),
        v matches Value::S64Val(x) ==> (scalar_bits(v) matches Some(r) && (r == x || r == x
            + 0x1_0000_0000_0000_0000)),
        scalar_bits(v) is None <==> v is F32Val || v is F64Val || v is BoolVal || v is StringVal
            || v is BytesVal || v is EnumVal,
{
}

/// Showing a node selects from its first byte on as many bytes as it has, or one
/// where it has none.
pub proof fn law_shown_node_is_selected(span: Span)
    requires
        span.offset + span.length <= u64::MAX,
    ensures
        node_selection(span).anchor == span.offset,
        span.length > 0 ==> node_selection(span).cursor - node_selection(span).anchor + 1
            == span.length,
        span.length == 0 ==> node_selection(span).cursor == span.offset,
{
}

/// The span of a node ends as many bytes on as it has.
pub proof fn law_span_has_its_length(span: Span)
    ensures
        span.offset + span.length <= u64::MAX ==> span_end(span) - span.offset == span.length,
        span.offset + span.length > u64::MAX ==> span_end(span) == u64::MAX,
{
}

/// The children of a node are all those that name it as their parent, each once and
/// in their order.
pub proof fn law_children_name_their_parent(nodes: Seq<Node>, idx: int)
    ensures
        forall|a: int, b: int|
            0 <= a < b < children(nodes, idx).len() ==> #[trigger] children(nodes, idx)[a]
                < #[trigger] children(nodes, idx)[b],
        forall|i: int|
            0 <= i < nodes.len() ==> (children(nodes, idx).contains(i) <==> ((
            #[trigger] nodes[i]).parent matches Some(p) && p == idx)),
{
    lemma_children(nodes, idx, nodes.len() as int);
    lemma_children_rise(nodes, idx, nodes.len() as int);
    let all = children(nodes, idx);
    assert forall|i: int| 0 <= i < nodes.len() implies (children(nodes, idx).contains(i) <==> ((
    #[trigger] nodes[i]).parent matches Some(p) && p == idx)) by {
        if is_child(nodes, idx, i) {
            lemma_child_listed(nodes, idx, i, nodes.len() as int);
        } else if all.contains(i) {
            let k = choose|k: int| 0 <= k < all.len() && all[k] == i;
            assert(is_child(nodes, idx, all[k]));
        }
    }
}

proof fn lemma_children_rise(nodes: Seq<Node>, idx: int, end: int)
    requires
        0 <= end <= nodes.len(),
    ensures
        forall|a: int, b: int|
            0 <= a < b < children_below(nodes, idx, end).len() ==> #[trigger] children_below(
                nodes,
                idx,
                end,
            )[a] < #[trigger] children_below(nodes, idx, end)[b],
    decreases end,
{
    if end > 0 {
        lemma_children_rise(nodes, idx, end - 1);
        lemma_children(nodes, idx, end - 1);
        let rest = children_below(nodes, idx, end - 1);
        let all = children_below(nodes, idx, end);
        assert forall|a: int, b: int| 0 <= a < b < all.len() implies #[trigger] all[a]
            < #[trigger] all[b] by {
            assert(all[a] == rest[a]);
            if b < rest.len() {
                assert(all[b] == rest[b]);
            }
        }
    }
}

/// Whether text holds another, at any place.
#[verifier::opaque]
pub open spec fn holds(text: Seq<char>, part: Seq<char>) -> bool {
    exists|at: int|
        0 <= at && at + part.len() <= text.len() && #[trigger] text.subrange(
            at,
            at + part.len(),
        ) == part
}

proof fn lemma_holds_in_larger(a: Seq<char>, text: Seq<char>, b: Seq<char>, part: Seq<char>)
    requires
        holds(text, part),
    ensures
        holds(a + text + b, part),
{
    reveal(holds);
    let at = choose|at: int|
        0 <= at && at + part.len() <= text.len() && #[trigger] text.subrange(at, at + part.len())
            == part;
    let all = a + text + b;
    assert(all.subrange(a.len() + at, a.len() + at + part.len()) =~= text.subrange(
        at,
        at + part.len(),
    ));
}

proof fn lemma_holds_middle(a: Seq<char>, part: Seq<char>, b: Seq<char>)
    ensures
        holds(a + part + b, part),
{
    reveal(holds);
    let all = a + part + b;
    assert(all.subrange(a.len() as int, a.len() as int + part.len()) =~= part);
}

proof fn lemma_last_field(
    before: Seq<char>,
    end: Seq<char>,
    space: Seq<char>,
    head: Seq<char>,
    value: Seq<char>,
    comma: Seq<char>,
)
    ensures
        before + end + space + head + value + comma == before + (end + space) + (head + value
            + comma) + Seq::<char>::empty(),
        before + (end + space) + (head + value + comma) + Seq::<char>::empty()
            == Seq::<char>::empty() + before + ((end + space) + (head + value + comma)),
{
    assert(before + end + space + head + value + comma =~= before + (end + space) + (head + value
        + comma) + Seq::<char>::empty());
    assert(before + (end + space) + (head + value + comma) + Seq::<char>::empty() =~= Seq::<
        char,
    >::empty() + before + ((end + space) + (head + value + comma)));
}

proof fn lemma_field_in_fields(
    nodes: Seq<Node>,
    kids: Seq<int>,
    k: int,
    syntax: StructSyntax,
    depth: nat,
)
    requires
        0 <= k < kids.len(),
        fields_text(nodes, kids, syntax, depth) is Some,
    ensures
        node_text(nodes, kids[k], syntax, depth + 1) is Some,
        holds(
            fields_text(nodes, kids, syntax, depth)->0,
            field_head(nodes[kids[k]].ident@, syntax) + node_text(
                nodes,
                kids[k],
                syntax,
                depth + 1,
            )->0 + ","@,
        ),
    decreases kids.len(),
{
    let before = fields_text(nodes, kids.drop_last(), syntax, depth)->0;
    let all = fields_text(nodes, kids, syntax, depth)->0;
    let value = node_text(nodes, kids.last(), syntax, depth + 1)->0;
    let last = field_head(nodes[kids.last()].ident@, syntax) + value + ","@;
    let gap = "\n"@ + indent(depth + 1);
    lemma_last_field(
        before,
        "\n"@,
        indent(depth + 1),
        field_head(nodes[kids.last()].ident@, syntax),
        value,
        ","@,
    );
    assert(all == before + gap + last + Seq::<char>::empty());
    if k == kids.len() - 1 {
        lemma_holds_middle(before + gap, last, Seq::empty());
    } else {
        lemma_field_in_fields(nodes, kids.drop_last(), k, syntax, depth);
        lemma_holds_in_larger(
            Seq::empty(),
            before,
            gap + last,
            field_head(nodes[kids[k]].ident@, syntax) + node_text(
                nodes,
                kids[k],
                syntax,
                depth + 1,
            )->0 + ","@,
        );
    }
}

/// The text of a struct has every field in it, each under its own name with its own
/// text, in the form of the language.
pub proof fn law_struct_text_has_every_field(
    nodes: Seq<Node>,
    idx: int,
    i: int,
    syntax: StructSyntax,
    depth: nat,
)
    requires
        0 <= idx < nodes.len(),
        0 <= i < nodes.len(),
        nodes[idx].node_type is StructType,
        nodes[i].parent matches Some(p) && p == idx,
        node_text(nodes, idx, syntax, depth) is Some,
    ensures
        node_text(nodes, i, syntax, depth + 1) is Some,
        syntax is Rust ==> holds(
            node_text(nodes, idx, syntax, depth)->0,
            nodes[i].ident@ + ": "@ + node_text(nodes, i, syntax, depth + 1)->0 + ","@,
        ),
        syntax is C ==> holds(
            node_text(nodes, idx, syntax, depth)->0,
            "."@ + nodes[i].ident@ + " = "@ + node_text(nodes, i, syntax, depth + 1)->0 + ","@,
        ),
{
    let kids = children(nodes, idx);
    lemma_child_listed(nodes, idx, i, nodes.len() as int);
    let k = choose|k: int| 0 <= k < kids.len() && kids[k] == i;
    lemma_field_in_fields(nodes, kids, k, syntax, depth);
    let fields = fields_text(nodes, kids, syntax, depth)->0;
    let part = field_head(nodes[i].ident@, syntax) + node_text(nodes, i, syntax, depth + 1)->0
        + ","@;
    match nodes[idx].node_type {
        NodeType::StructType(name) => {
            let tail = "\n"@ + indent(depth) + "}"@;
            lemma_holds_in_larger(struct_head(name@, syntax), fields, tail, part);
            assert(node_text(nodes, idx, syntax, depth)->0 =~= struct_head(name@, syntax) + fields
                + tail);
        },
        _ => {},
    }
}

/// A copied declaration in Rust is a `let` with the name and type of the node, one in
/// C puts the type before the name; both end the node's text with a semicolon. Other
/// formats give none.
pub proof fn law_declaration_names_node(nodes: Seq<Node>, root: int, kind: CopyKind)
    requires
        0 <= root < nodes.len(),
    ensures
        kind is StructRust ==> match node_text(nodes, root, StructSyntax::Rust, 0) {
            Some(body) => declaration(nodes, root, kind) == Some(
                "let "@ + nodes[root].ident@ + ": "@ + nodes[root].type_label@ + " = "@ + body
                    + ";"@,
            ),
            None => declaration(nodes, root, kind) is None,
        },
        kind is StructC ==> match node_text(nodes, root, StructSyntax::C, 0) {
            Some(body) => declaration(nodes, root, kind) == Some(
                nodes[root].type_label@ + " "@ + nodes[root].ident@ + " = "@ + body + ";"@,
            ),
            None => declaration(nodes, root, kind) is None,
        },
        !(kind is StructRust || kind is StructC) ==> declaration(nodes, root, kind) is None,
{
}

/// A node that is no struct and no array is written as its value, or as a zero where
/// it has none.
pub proof fn law_scalar_node_is_its_value(
    nodes: Seq<Node>,
    idx: int,
    syntax: StructSyntax,
    depth: nat,
)
    requires
        0 <= idx < nodes.len(),
        depth < nodes.len(),
        nodes[idx].node_type is Scalar || nodes[idx].node_type is EnumType
            || nodes[idx].node_type is Unknown,
    ensures
        nodes[idx].value matches Some(v) ==> node_text(nodes, idx, syntax, depth) == Some(
            scalar_literal(v, syntax),
        ),
        nodes[idx].value is None ==> node_text(nodes, idx, syntax, depth) == Some("0"@),
{
}

/// The items of an array stand in their order with a comma and a space between two; one
/// more item follows the others.
pub proof fn law_items_stand_in_order(
    nodes: Seq<Node>,
    kids: Seq<int>,
    k: int,
    syntax: StructSyntax,
    depth: nat,
)
    requires
        depth < nodes.len(),
    ensures
        items_text(nodes, seq![], syntax, depth) == Some(Seq::<char>::empty()),
        items_text(nodes, kids, syntax, depth) matches Some(before) ==> (node_text(
            nodes,
            k,
            syntax,
            depth + 1,
        ) matches Some(value) ==> (kids.len() > 0 ==> items_text(nodes, kids.push(k), syntax, depth)
            == Some(before + ", "@ + value)) && (kids.len() == 0 ==> items_text(
            nodes,
            kids.push(k),
            syntax,
            depth,
        ) == Some(value))),
        items_text(nodes, kids, syntax, depth) is None ==> items_text(
            nodes,
            kids.push(k),
            syntax,
            depth,
        ) is None,
{
    assert(kids.push(k).drop_last() =~= kids);
    assert(kids.push(k).last() == k);
    if kids.len() == 0 {
        match node_text(nodes, k, syntax, depth + 1) {
            Some(value) => {
                assert(Seq::<char>::empty() + Seq::<char>::empty() + value =~= value);
                assert(items_text(nodes, kids, syntax, depth) == Some(Seq::<char>::empty()));
            },
            None => {},
        }
    }
}

/// A struct is written between braces, in Rust behind its name; an array between square
/// brackets in Rust and between braces in C. Each level of nesting is four blanks wide.
pub proof fn law_text_has_its_brackets(nodes: Seq<Node>, idx: int, depth: nat, j: int)
    requires
        0 <= idx < nodes.len(),
    ensures
        nodes[idx].node_type matches NodeType::StructType(name) ==> (node_text(
            nodes,
            idx,
            StructSyntax::Rust,
            depth,
        ) matches Some(text) ==> text.len() > name@.len() + 2 && text.take(name@.len() as int)
            == name@ && text[name@.len() as int] == ' ' && text[name@.len() as int + 1] == '{'
            && text.last() == '}'),
        nodes[idx].node_type is StructType ==> (node_text(nodes, idx, StructSyntax::C, depth) matches Some(
            text,
        ) ==> text.len() > 1 && text[0] == '{' && text.last() == '}'),
        nodes[idx].node_type is StructArray || nodes[idx].node_type is ScalarArray
            || nodes[idx].node_type is EnumArray ==> (node_text(
            nodes,
            idx,
            StructSyntax::Rust,
            depth,
        ) matches Some(text) ==> text[0] == '[' && text.last() == ']') && (node_text(
            nodes,
            idx,
            StructSyntax::C,
            depth,
        ) matches Some(text) ==> text[0] == '{' && text.last() == '}'),
        indent(depth).len() == 4 * depth,
        0 <= j < indent(depth).len() ==> indent(depth)[j] == ' ',
    decreases depth,
{
    reveal_strlit(" {");
    reveal_strlit("{");
    reveal_strlit("}");
    reveal_strlit("\n");
    reveal_strlit("    ");
    if depth > 0 {
        law_text_has_its_brackets(nodes, idx, (depth - 1) as nat, j);
    }
    match nodes[idx].node_type {
        NodeType::StructType(name) => {
            match node_text(nodes, idx, StructSyntax::Rust, depth) {
                Some(text) => {
                    assert(text.take(name@.len() as int) =~= name@);
                },
                None => {},
            }
        },
        _ => {},
    }
}

} // verus!
