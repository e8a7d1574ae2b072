//! The template languages that come with the editor: what they are called,
//! which files they take, and how their results become template nodes.

use vstd::prelude::*;
use vstd::string::*;
use crate::template::{DisplayHint, Node, NodeType, ScalarKind, Span, Value};
use crate::text::{eq_ignore_ascii_case, join2, text_eq};
#[allow(unused_imports)]
use crate::text::lowered;

verus! {

/// A template language.
pub struct Runtime {
    pub name: String,
    pub extensions: Vec<String>,
}

/// The binary-template language.
pub struct Bt010Runtime {
    pub extensions: Vec<String>,
}

impl Bt010Runtime {
    /// Takes files that end in `bt`.
    pub fn new() -> (r: Self)
        ensures
            r.extensions@.len() == 1,
            r.extensions@[0]@ == "bt"@,
    {
        let mut extensions: Vec<String> = Vec::new();
        extensions.push("bt".to_owned());
        Bt010Runtime { extensions }
    }
}

/// The pattern language.
pub struct ImHexRuntime {
    pub extensions: Vec<String>,
}

impl ImHexRuntime {
    /// Takes files that end in `hexpat` or `pat`.
    pub fn new() -> (r: Self)
        ensures
            r.extensions@.len() == 2,
            r.extensions@[0]@ == "hexpat"@,
            r.extensions@[1]@ == "pat"@,
    {
        let mut extensions: Vec<String> = Vec::new();
        extensions.push("hexpat".to_owned());
        extensions.push("pat".to_owned());
        ImHexRuntime { extensions }
    }
}

/// The languages that come with the editor; the first that takes a file wins.
pub fn builtins() -> (r: Vec<Runtime>)
    ensures
        r@.len() == 2,
        r@[0].name@ == "010-bt"@,
        r@[0].extensions@.len() == 1,
        r@[0].extensions@[0]@ == "bt"@,
        r@[1].name@ == "imhex-pattern"@,
        r@[1].extensions@.len() == 2,
        r@[1].extensions@[0]@ == "hexpat"@,
        r@[1].extensions@[1]@ == "pat"@,
{
    let mut out: Vec<Runtime> = Vec::new();
    out.push(Runtime { name: "010-bt".to_owned(), extensions: Bt010Runtime::new().extensions });
    out.push(
        Runtime { name: "imhex-pattern".to_owned(), extensions: ImHexRuntime::new().extensions },
    );
    out
}

/// The order in which languages are tried: installed ones, the latest first,
/// before those that come with the editor.
pub open spec fn runtime_order(own: Seq<Runtime>, installed: Seq<Runtime>) -> Seq<Runtime> {
    installed.reverse() + own
}

/// Puts installed languages before those that come with the editor.
pub fn order_runtimes(own: Vec<Runtime>, installed: Vec<Runtime>) -> (r: Vec<Runtime>)
    ensures
        r@ == runtime_order(own@, installed@),
{
    let mut out: Vec<Runtime> = own;
    let mut rest: Vec<Runtime> = installed;
    let ghost all = installed@;
    let ghost mut done: int = 0;
    assert(out@ =~= all.take(0).reverse() + own@);
    while rest.len() > 0
        invariant
            0 <= done <= all.len(),
            rest@ == all.skip(done),
            out@ == all.take(done).reverse() + own@,
        decreases rest.len(),
    {
        let next = rest.remove(0);
        out.insert(0, next);
        proof {
            done = done + 1;
        }
        assert(rest@ =~= all.skip(done));
        assert(out@ =~= all.take(done).reverse() + own@);
    }
    assert(done == all.len());
    assert(all.take(all.len() as int) =~= all);
    out
}

/// Whether a language takes files with an extension, in whatever case.
pub open spec fn takes(runtime: Runtime, extension: Seq<char>) -> bool {
    exists|i: int|
        0 <= i < runtime.extensions@.len() && lowered(#[trigger] runtime.extensions@[i]@)
            == lowered(extension)
}

fn runtime_takes(runtime: &Runtime, extension: &str) -> (r: bool)
    ensures
        r == takes(*runtime, extension@),
{
    let mut i: usize = 0;
    while i < runtime.extensions.len()
        invariant
            i <= runtime.extensions@.len(),
            forall|j: int|
                0 <= j < i ==> lowered(#[trigger] runtime.extensions@[j]@) != lowered(extension@),
        decreases runtime.extensions.len() - i,
    {
        if eq_ignore_ascii_case(runtime.extensions[i].as_str(), extension) {
            assert(lowered(runtime.extensions@[i as int]@) == lowered(extension@));
            return true;
        }
        i = i + 1;
    }
    false
}

/// Whether the first language that takes files with an extension stands at a
/// place.
pub open spec fn first_taker(runtimes: Seq<Runtime>, extension: Seq<char>, i: int) -> bool {
    &&& 0 <= i < runtimes.len()
    &&& takes(runtimes[i], extension)
    &&& forall|j: int| 0 <= j < i ==> !takes(#[trigger] runtimes[j], extension)
}

/// Whether some language takes files with an extension.
pub open spec fn some_taker(runtimes: Seq<Runtime>, extension: Seq<char>) -> bool {
    exists|i: int| 0 <= i < runtimes.len() && takes(#[trigger] runtimes[i], extension)
}

/// Whether the language for an extension was found.
pub open spec fn runtime_found(
    runtimes: Seq<Runtime>,
    extension: Seq<char>,
    r: Option<usize>,
) -> bool {
    &&& match r {
        Some(i) => first_taker(runtimes, extension, i as int),
        None => !some_taker(runtimes, extension),
    }
}

/// Index of the first language that takes files with the extension.
pub fn template_runtime_for(runtimes: &Vec<Runtime>, extension: &str) -> (r: Option<usize>)
    ensures
        runtime_found(runtimes@, extension@, r),
{
    let mut i: usize = 0;
    while i < runtimes.len()
        invariant
            i <= runtimes@.len(),
            forall|j: int| 0 <= j < i ==> !takes(#[trigger] runtimes@[j], extension@),
        decreases runtimes.len() - i,
    {
        if runtime_takes(&runtimes[i], extension) {
            return Some(i);
        }
        i = i + 1;
    }
    None
}

/// Why a template could not be used.
pub enum HandlerError {
    Malformed(String),
    Unsupported(String),
}

/// How far reading a template got: the text of the error that stopped it.
pub enum ParseStep {
    Lexed(Option<String>),
    Parsed(Option<String>),
}

/// Whether it is told what went wrong in a step of parsing.
pub open spec fn parse_told(
    step: ParseStep,
    r: Option<HandlerError>,
) -> bool {
    &&& match (step, r) {
        (ParseStep::Lexed(Some(e)), Some(HandlerError::Malformed(text))) => text@ == "lex: "@
            + e@,
        (ParseStep::Parsed(Some(e)), Some(HandlerError::Malformed(text))) => text@
            == "parse: "@ + e@,
        (ParseStep::Lexed(None), None) => true,
        (ParseStep::Parsed(None), None) => true,
        _ => false,
    }
}

/// The error of a template that could not be read, which says at what step;
/// nothing where the step went well.
pub fn parse_error(step: ParseStep) -> (r: Option<HandlerError>)
    ensures
        parse_told(step, r),
{
    match step {
        ParseStep::Lexed(Some(e)) => Some(HandlerError::Malformed(join2("lex: ", e.as_str()))),
        ParseStep::Parsed(Some(e)) => Some(HandlerError::Malformed(join2("parse: ", e.as_str()))),
        _ => None,
    }
}

/// Asking a language that comes with the editor to expand an array later is
/// refused: it has expanded all of them.
pub fn expand_array_refusal(runtime_name: &str) -> (r: HandlerError)
    ensures
        r matches HandlerError::Unsupported(text) && text@ == "the built-in "@ + runtime_name@
            + " runtime materialises arrays eagerly; no deferred expansion"@,
{
    let mut text = join2("the built-in ", runtime_name);
    text.append(" runtime materialises arrays eagerly; no deferred expansion");
    HandlerError::Unsupported(text)
}

/// Whether an offset is where a read ends.
pub open spec fn read_ends(
    offset: u64,
    length: u64,
    r: u64,
) -> bool {
    &&& r == if offset + length > u64::MAX {
        u64::MAX
    } else {
        (offset + length) as u64
    }
}

/// The end of a read of `length` bytes at `offset`, or the largest offset where
/// that does not fit.
pub fn read_end(offset: u64, length: u64) -> (r: u64)
    ensures
        read_ends(offset, length, r),
{
    if length > u64::MAX - offset {
        u64::MAX
    } else {
        offset + length
    }
}

/// Where imports of the pattern language are looked up.
#[derive(Clone, Copy, Debug, PartialEq, Eq, Structural)]
pub enum PatternBase {
    /// The directory for includes of the application's data.
    DataIncludes,
    /// The application's data.
    Data,
    /// The directory for includes of a local checkout.
    RepoIncludes,
    /// A local checkout.
    Repo,
}

/// The bases for imports in the order in which they are tried.
pub open spec fn import_bases(data: bool, repo: bool) -> Seq<PatternBase> {
    (if data {
        seq![PatternBase::DataIncludes, PatternBase::Data]
    } else {
        seq![]
    }) + (if repo {
        seq![PatternBase::RepoIncludes, PatternBase::Repo]
    } else {
        seq![]
    })
}

/// Chooses the bases for imports: the application's data before a local
/// checkout, and in each the includes first. No base means no imports.
pub fn build_default_resolver(data: bool, repo: bool) -> (r: Vec<PatternBase>)
    ensures
        r@ == import_bases(data, repo),
{
    let mut bases: Vec<PatternBase> = Vec::new();
    if data {
        bases.push(PatternBase::DataIncludes);
        bases.push(PatternBase::Data);
    }
    if repo {
        bases.push(PatternBase::RepoIncludes);
        bases.push(PatternBase::Repo);
    }
    assert(bases@ =~= import_bases(data, repo));
    bases
}

/// How many directories above the program are searched for a checkout.
pub const REPO_SEARCH_DEPTH: usize = 6;

/// Whether a directory is the one of the repository.
pub open spec fn repository_found(
    found: Seq<bool>,
    r: Option<usize>,
) -> bool {
    &&& match r {
        Some(i) => i < found.len() && i < REPO_SEARCH_DEPTH && found[i as int] && forall|
            j: int,
        |
            0 <= j < i ==> !found[j],
        None => forall|j: int|
            0 <= j < found.len() && j < REPO_SEARCH_DEPTH ==> !found[j],
    }
}

/// Picks the directory that holds a checkout, given for the program's
/// directory and each one above it whether it does.
pub fn imhex_patterns_repo_local(found: &Vec<bool>) -> (r: Option<usize>)
    ensures
        repository_found(found@, r),
{
    let mut i: usize = 0;
    while i < found.len() && i < REPO_SEARCH_DEPTH
        invariant
            i <= found@.len(),
            i <= REPO_SEARCH_DEPTH,
            forall|j: int| 0 <= j < i ==> !found@[j],
        decreases found.len() - i,
    {
        if found[i] {
            return Some(i);
        }
        i = i + 1;
    }
    None
}

/// Scalar kinds of the binary-template language.
#[derive(Clone, Copy, Debug, PartialEq, Eq, Structural)]
pub enum BtScalar {
    U8,
    U16,
    U32,
    U64,
    S8,
    S16,
    S32,
    S64,
    F32,
    F64,
    Bool,
    Bytes,
    Str,
}

/// Node types of the binary-template language.
pub enum BtType {
    Scalar(BtScalar),
    ScalarArray(BtScalar, u64),
    StructType(String),
    StructArray(String, u64),
    EnumType(String),
    EnumArray(String, u64),
    Unknown(String),
}

/// Values of the binary-template language. `width` is in bytes.
#[allow(inconsistent_fields)]
pub enum BtValue {
    Void,
    UInt { value: u128, width: u8 },
    SInt { value: i128, width: u8 },
    Float { text: String, width: u8 },
    Char { value: u32 },
    Str(String),
    Bool(bool),
}

/// Scalar kinds of the pattern language.
#[derive(Clone, Copy, Debug, PartialEq, Eq, Structural)]
pub enum HexpatScalar {
    U8,
    U16,
    U32,
    U64,
    U128,
    S8,
    S16,
    S32,
    S64,
    S128,
    F32,
    F64,
    Bool,
    Bytes,
    Str,
    Char,
    Char16,
}

/// Node types of the pattern language.
pub enum HexpatType {
    Scalar(HexpatScalar),
    ScalarArray(HexpatScalar, u64),
    StructType(String),
    StructArray(String, u64),
    EnumType(String),
    EnumArray(String, u64),
    BitfieldType(String),
    Unknown(String),
}

/// Values of the pattern language. `width` is in bytes.
#[allow(inconsistent_fields)]
pub enum HexpatValue {
    Void,
    UInt { value: u128, width: u8 },
    SInt { value: i128, width: u8 },
    Float { text: String, width: u8 },
    Bool(bool),
    Char { value: u32 },
    Str(String),
    Bytes(Vec<u8>),
}

/// Whether a kind of number is that of a node type.
pub open spec fn scalar_converted(
    k: BtScalar,
    r: ScalarKind,
) -> bool {
    &&& r == match k {
        BtScalar::U8 => ScalarKind::U8K,
        BtScalar::U16 => ScalarKind::U16K,
        BtScalar::U32 => ScalarKind::U32K,
        BtScalar::U64 => ScalarKind::U64K,
        BtScalar::S8 => ScalarKind::S8K,
        BtScalar::S16 => ScalarKind::S16K,
        BtScalar::S32 => ScalarKind::S32K,
        BtScalar::S64 => ScalarKind::S64K,
        BtScalar::F32 => ScalarKind::F32K,
        BtScalar::F64 => ScalarKind::F64K,
        BtScalar::Bool => ScalarKind::BoolK,
        BtScalar::Bytes => ScalarKind::BytesK,
        BtScalar::Str => ScalarKind::StringK,
    }
}

/// The kind of a scalar of the binary-template language.
pub fn convert_scalar(k: BtScalar) -> (r: ScalarKind)
    ensures
        scalar_converted(k, r),
{
    match k {
        BtScalar::U8 => ScalarKind::U8K,
        BtScalar::U16 => ScalarKind::U16K,
        BtScalar::U32 => ScalarKind::U32K,
        BtScalar::U64 => ScalarKind::U64K,
        BtScalar::S8 => ScalarKind::S8K,
        BtScalar::S16 => ScalarKind::S16K,
        BtScalar::S32 => ScalarKind::S32K,
        BtScalar::S64 => ScalarKind::S64K,
        BtScalar::F32 => ScalarKind::F32K,
        BtScalar::F64 => ScalarKind::F64K,
        BtScalar::Bool => ScalarKind::BoolK,
        BtScalar::Bytes => ScalarKind::BytesK,
        BtScalar::Str => ScalarKind::StringK,
    }
}

/// The kind of a scalar of the pattern language. Characters have no kind of
/// their own and take that of their width.
pub open spec fn hexpat_kind(k: HexpatScalar) -> ScalarKind {
    match k {
        HexpatScalar::U8 => ScalarKind::U8K,
        HexpatScalar::U16 => ScalarKind::U16K,
        HexpatScalar::U32 => ScalarKind::U32K,
        HexpatScalar::U64 => ScalarKind::U64K,
        HexpatScalar::U128 => ScalarKind::U128K,
        HexpatScalar::S8 => ScalarKind::S8K,
        HexpatScalar::S16 => ScalarKind::S16K,
        HexpatScalar::S32 => ScalarKind::S32K,
        HexpatScalar::S64 => ScalarKind::S64K,
        HexpatScalar::S128 => ScalarKind::S128K,
        HexpatScalar::F32 => ScalarKind::F32K,
        HexpatScalar::F64 => ScalarKind::F64K,
        HexpatScalar::Bool => ScalarKind::BoolK,
        HexpatScalar::Bytes => ScalarKind::BytesK,
        HexpatScalar::Str => ScalarKind::StringK,
        HexpatScalar::Char => ScalarKind::U8K,
        HexpatScalar::Char16 => ScalarKind::U16K,
    }
}

/// The kind of a scalar of the pattern language.
pub fn convert_imhex_scalar_kind(k: HexpatScalar) -> (r: ScalarKind)
    ensures
        r == hexpat_kind(k),
{
    match k {
        HexpatScalar::U8 => ScalarKind::U8K,
        HexpatScalar::U16 => ScalarKind::U16K,
        HexpatScalar::U32 => ScalarKind::U32K,
        HexpatScalar::U64 => ScalarKind::U64K,
        HexpatScalar::U128 => ScalarKind::U128K,
        HexpatScalar::S8 => ScalarKind::S8K,
        HexpatScalar::S16 => ScalarKind::S16K,
        HexpatScalar::S32 => ScalarKind::S32K,
        HexpatScalar::S64 => ScalarKind::S64K,
        HexpatScalar::S128 => ScalarKind::S128K,
        HexpatScalar::F32 => ScalarKind::F32K,
        HexpatScalar::F64 => ScalarKind::F64K,
        HexpatScalar::Bool => ScalarKind::BoolK,
        HexpatScalar::Bytes => ScalarKind::BytesK,
        HexpatScalar::Str => ScalarKind::StringK,
        HexpatScalar::Char => ScalarKind::U8K,
        HexpatScalar::Char16 => ScalarKind::U16K,
    }
}

/// Whether a node type stands for one of the binary-template language.
pub open spec fn bt_type_stands(t: BtType, r: NodeType) -> bool {
    match (t, r) {
        (BtType::Scalar(k), NodeType::Scalar(s)) => s == bt_kind(k),
        (BtType::ScalarArray(k, n), NodeType::ScalarArray(s, m)) => s == bt_kind(k) && m == n,
        (BtType::StructType(a), NodeType::StructType(b)) => a@ == b@,
        (BtType::StructArray(a, n), NodeType::StructArray(b, m)) => a@ == b@ && m == n,
        (BtType::EnumType(a), NodeType::EnumType(b)) => a@ == b@,
        (BtType::EnumArray(a, n), NodeType::EnumArray(b, m)) => a@ == b@ && m == n,
        (BtType::Unknown(a), NodeType::Unknown(b)) => a@ == b@,
        _ => false,
    }
}

/// The kind of a scalar of the binary-template language.
pub open spec fn bt_kind(k: BtScalar) -> ScalarKind {
    match k {
        BtScalar::U8 => ScalarKind::U8K,
        BtScalar::U16 => ScalarKind::U16K,
        BtScalar::U32 => ScalarKind::U32K,
        BtScalar::U64 => ScalarKind::U64K,
        BtScalar::S8 => ScalarKind::S8K,
        BtScalar::S16 => ScalarKind::S16K,
        BtScalar::S32 => ScalarKind::S32K,
        BtScalar::S64 => ScalarKind::S64K,
        BtScalar::F32 => ScalarKind::F32K,
        BtScalar::F64 => ScalarKind::F64K,
        BtScalar::Bool => ScalarKind::BoolK,
        BtScalar::Bytes => ScalarKind::BytesK,
        BtScalar::Str => ScalarKind::StringK,
    }
}

/// The node type of the binary-template language.
pub fn convert_node_type(t: &BtType) -> (r: NodeType)
    ensures
        bt_type_stands(*t, r),
{
    match t {
        BtType::Scalar(k) => NodeType::Scalar(convert_scalar(*k)),
        BtType::ScalarArray(k, n) => NodeType::ScalarArray(convert_scalar(*k), *n),
        BtType::StructType(s) => NodeType::StructType(s.clone()),
        BtType::StructArray(s, n) => NodeType::StructArray(s.clone(), *n),
        BtType::EnumType(s) => NodeType::EnumType(s.clone()),
        BtType::EnumArray(s, n) => NodeType::EnumArray(s.clone(), *n),
        BtType::Unknown(s) => NodeType::Unknown(s.clone()),
    }
}

/// Whether a node type stands for one of the pattern language. A bit field
/// is shown as a struct.
pub open spec fn hexpat_type_stands(t: HexpatType, r: NodeType) -> bool {
    match (t, r) {
        (HexpatType::Scalar(k), NodeType::Scalar(s)) => s == hexpat_kind(k),
        (HexpatType::ScalarArray(k, n), NodeType::ScalarArray(s, m)) => s == hexpat_kind(k) && m
            == n,
        (HexpatType::StructType(a), NodeType::StructType(b)) => a@ == b@,
        (HexpatType::StructArray(a, n), NodeType::StructArray(b, m)) => a@ == b@ && m == n,
        (HexpatType::EnumType(a), NodeType::EnumType(b)) => a@ == b@,
        (HexpatType::EnumArray(a, n), NodeType::EnumArray(b, m)) => a@ == b@ && m == n,
        (HexpatType::BitfieldType(a), NodeType::StructType(b)) => a@ == b@,
        (HexpatType::Unknown(a), NodeType::Unknown(b)) => a@ == b@,
        _ => false,
    }
}

/// The node type of the pattern language.
pub fn convert_imhex_node_type(t: &HexpatType) -> (r: NodeType)
    ensures
        hexpat_type_stands(*t, r),
{
    match t {
        HexpatType::Scalar(k) => NodeType::Scalar(convert_imhex_scalar_kind(*k)),
        HexpatType::ScalarArray(k, n) => NodeType::ScalarArray(convert_imhex_scalar_kind(*k), *n),
        HexpatType::StructType(s) => NodeType::StructType(s.clone()),
        HexpatType::StructArray(s, n) => NodeType::StructArray(s.clone(), *n),
        HexpatType::EnumType(s) => NodeType::EnumType(s.clone()),
        HexpatType::EnumArray(s, n) => NodeType::EnumArray(s.clone(), *n),
        HexpatType::BitfieldType(s) => NodeType::StructType(s.clone()),
        HexpatType::Unknown(s) => NodeType::Unknown(s.clone()),
    }
}

/// Whether a value stands for one of the binary-template language: integers
/// are cut to the width that they were declared with.
pub open spec fn bt_value_stands(v: BtValue, r: Value) -> bool {
    match v {
        BtValue::Void => r matches Value::StringVal(s) && s@.len() == 0,
        BtValue::UInt { value, width } => match width {
            1 => r == Value::U8Val(value as u8),
            2 => r == Value::U16Val(value as u16),
            4 => r == Value::U32Val(value as u32),
            _ => r == Value::U64Val(value as u64),
        },
        BtValue::SInt { value, width } => match width {
            1 => r == Value::S8Val(value as i8),
            2 => r == Value::S16Val(value as i16),
            4 => r == Value::S32Val(value as i32),
            _ => r == Value::S64Val(value as i64),
        },
        BtValue::Float { text, width } => if width == 4 {
            r matches Value::F32Val(s) && s@ == text@
        } else {
            r matches Value::F64Val(s) && s@ == text@
        },
        BtValue::Char { value } => r == Value::U8Val(value as u8),
        BtValue::Str(text) => r matches Value::StringVal(s) && s@ == text@,
        BtValue::Bool(b) => r == Value::BoolVal(b),
    }
}

/// The value of the binary-template language.
pub fn convert_value(v: &BtValue) -> (r: Value)
    ensures
        bt_value_stands(*v, r),
{
    match v {
        BtValue::Void => Value::StringVal(String::new()),
        BtValue::UInt { value, width } => match *width {
            1 => Value::U8Val(#[verifier::truncate] (*value as u8)),
            2 => Value::U16Val(#[verifier::truncate] (*value as u16)),
            4 => Value::U32Val(#[verifier::truncate] (*value as u32)),
            _ => Value::U64Val(#[verifier::truncate] (*value as u64)),
        },
        BtValue::SInt { value, width } => match *width {
            1 => Value::S8Val(#[verifier::truncate] (*value as i8)),
            2 => Value::S16Val(#[verifier::truncate] (*value as i16)),
            4 => Value::S32Val(#[verifier::truncate] (*value as i32)),
            _ => Value::S64Val(#[verifier::truncate] (*value as i64)),
        },
        BtValue::Float { text, width } => if *width == 4 {
            Value::F32Val(text.clone())
        } else {
            Value::F64Val(text.clone())
        },
        BtValue::Char { value } => Value::U8Val(#[verifier::truncate] (*value as u8)),
        BtValue::Str(s) => Value::StringVal(s.clone()),
        BtValue::Bool(b) => Value::BoolVal(*b),
    }
}

/// The `count` lowest bytes of a number, lowest first.
pub open spec fn le_bytes(n: nat, count: nat) -> Seq<u8>
    decreases count,
{
    if count == 0 {
        seq![]
    } else {
        seq![(n % 256) as u8] + le_bytes(n / 256, (count - 1) as nat)
    }
}

fn push_le_bytes(n: u128, count: usize) -> (r: Vec<u8>)
    ensures
        r@ == le_bytes(n as nat, count as nat),
{
    let mut out: Vec<u8> = Vec::new();
    let mut left: u128 = n;
    let mut i: usize = 0;
    assert(out@ + le_bytes(left as nat, count as nat) =~= le_bytes(n as nat, count as nat));
    while i < count
        invariant
            i <= count,
            out@ + le_bytes(left as nat, (count - i) as nat) == le_bytes(n as nat, count as nat),
        decreases count - i,
    {
        let ghost before = out@;
        out.push((left % 256) as u8);
        assert(le_bytes(left as nat, (count - i) as nat) == seq![(left % 256) as u8] + le_bytes(
            (left / 256) as nat,
            (count - i - 1) as nat,
        ));
        assert(out@ + le_bytes((left / 256) as nat, (count - i - 1) as nat) =~= before + (seq![
            (left % 256) as u8,
        ] + le_bytes((left / 256) as nat, (count - i - 1) as nat)));
        left = left / 256;
        i = i + 1;
    }
    assert(out@ + le_bytes(left as nat, 0) =~= out@);
    out
}

/// Whether a value stands for one of the pattern language: integers are cut to
/// the width that they were declared with, and where no number type is wide
/// enough their bytes are shown.
pub open spec fn hexpat_value_stands(v: HexpatValue, r: Value) -> bool {
    match v {
        HexpatValue::Void => r matches Value::StringVal(s) && s@.len() == 0,
        HexpatValue::UInt { value, width } => match width {
            1 => r == Value::U8Val(value as u8),
            2 => r == Value::U16Val(value as u16),
            4 => r == Value::U32Val(value as u32),
            8 => r == Value::U64Val(value as u64),
            _ => r matches Value::BytesVal(b) && b@ == le_bytes(value as nat, 16),
        },
        HexpatValue::SInt { value, width } => match width {
            1 => r == Value::S8Val(value as i8),
            2 => r == Value::S16Val(value as i16),
            4 => r == Value::S32Val(value as i32),
            8 => r == Value::S64Val(value as i64),
            _ => r matches Value::BytesVal(b) && b@ == le_bytes((value as u128) as nat, 16),
        },
        HexpatValue::Float { text, width } => if width == 4 {
            r matches Value::F32Val(s) && s@ == text@
        } else {
            r matches Value::F64Val(s) && s@ == text@
        },
        HexpatValue::Bool(b) => r == Value::BoolVal(b),
        HexpatValue::Char { value } => r == Value::U8Val(value as u8),
        HexpatValue::Str(text) => r matches Value::StringVal(s) && s@ == text@,
        HexpatValue::Bytes(bytes) => r matches Value::BytesVal(b) && b@ == bytes@,
    }
}

fn copy_bytes(from: &Vec<u8>) -> (r: Vec<u8>)
    ensures
        r@ == from@,
{
    let mut out: Vec<u8> = Vec::new();
    let mut i: usize = 0;
    while i < from.len()
        invariant
            i <= from@.len(),
            out@ == from@.take(i as int),
        decreases from.len() - i,
    {
        out.push(from[i]);
        i = i + 1;
        assert(out@ =~= from@.take(i as int));
    }
    assert(from@.take(from@.len() as int) =~= from@);
    out
}

/// The value of the pattern language.
pub fn convert_imhex_value(v: &HexpatValue) -> (r: Value)
    ensures
        hexpat_value_stands(*v, r),
{
    match v {
        HexpatValue::Void => Value::StringVal(String::new()),
        HexpatValue::UInt { value, width } => match *width {
            1 => Value::U8Val(#[verifier::truncate] (*value as u8)),
            2 => Value::U16Val(#[verifier::truncate] (*value as u16)),
            4 => Value::U32Val(#[verifier::truncate] (*value as u32)),
            8 => Value::U64Val(#[verifier::truncate] (*value as u64)),
            _ => Value::BytesVal(push_le_bytes(*value, 16)),
        },
        HexpatValue::SInt { value, width } => match *width {
            1 => Value::S8Val(#[verifier::truncate] (*value as i8)),
            2 => Value::S16Val(#[verifier::truncate] (*value as i16)),
            4 => Value::S32Val(#[verifier::truncate] (*value as i32)),
            8 => Value::S64Val(#[verifier::truncate] (*value as i64)),
            _ => Value::BytesVal(push_le_bytes(#[verifier::truncate] (*value as u128), 16)),
        },
        HexpatValue::Float { text, width } => if *width == 4 {
            Value::F32Val(text.clone())
        } else {
            Value::F64Val(text.clone())
        },
        HexpatValue::Bool(b) => Value::BoolVal(*b),
        HexpatValue::Char { value } => Value::U8Val(#[verifier::truncate] (*value as u8)),
        HexpatValue::Str(s) => Value::StringVal(s.clone()),
        HexpatValue::Bytes(b) => Value::BytesVal(copy_bytes(b)),
    }
}

/// The attribute that tells how a value is meant to be shown.
pub open spec fn format_attr() -> Seq<char> {
    "hxy_format"@
}

/// What an attribute's text asks for; decimal where it is not understood.
pub open spec fn hint_of(text: Seq<char>) -> DisplayHint {
    if text == "hex"@ {
        DisplayHint::Hex
    } else if text == "decimal"@ {
        DisplayHint::Decimal
    } else if text == "binary"@ {
        DisplayHint::Binary
    } else if text == "ascii"@ {
        DisplayHint::Ascii
    } else {
        DisplayHint::Decimal
    }
}

/// Whether an attribute tells how to show a value. The binary-template
/// language has a shorter name for it as well.
pub open spec fn is_format_key(key: Seq<char>, short_name: bool) -> bool {
    key == format_attr() || (short_name && key == "format"@)
}

/// What the first attribute that tells how to show a value asks for.
pub open spec fn display_of(attrs: Seq<(String, String)>, short_name: bool) -> Option<DisplayHint>
    decreases attrs.len(),
{
    if attrs.len() == 0 {
        None
    } else if is_format_key(attrs[0].0@, short_name) {
        Some(hint_of(attrs[0].1@))
    } else {
        display_of(attrs.drop_first(), short_name)
    }
}

/// What an attribute's text asks for.
pub fn parse_hint(text: &str) -> (r: DisplayHint)
    ensures
        r == hint_of(text@),
{
    if text_eq(text, "hex") {
        DisplayHint::Hex
    } else if text_eq(text, "decimal") {
        DisplayHint::Decimal
    } else if text_eq(text, "binary") {
        DisplayHint::Binary
    } else if text_eq(text, "ascii") {
        DisplayHint::Ascii
    } else {
        DisplayHint::Decimal
    }
}

/// How a node's attributes ask for it to be shown.
pub fn display_hint(attrs: &Vec<(String, String)>, short_name: bool) -> (r: Option<DisplayHint>)
    ensures
        r == display_of(attrs@, short_name),
{
    let mut i: usize = 0;
    assert(attrs@.skip(0) =~= attrs@);
    while i < attrs.len()
        invariant
            i <= attrs@.len(),
            display_of(attrs@.skip(i as int), short_name) == display_of(attrs@, short_name),
        decreases attrs.len() - i,
    {
        let key = attrs[i].0.as_str();
        assert(attrs@.skip(i as int)[0] == attrs@[i as int]);
        assert(attrs@.skip(i as int).drop_first() =~= attrs@.skip(i as int + 1));
        if text_eq(key, "hxy_format") || (short_name && text_eq(key, "format")) {
            return Some(parse_hint(attrs[i].1.as_str()));
        }
        i = i + 1;
    }
    None
}

/// A node as the binary-template language reports it.
pub struct BtNode {
    pub name: String,
    pub ident: String,
    pub type_label: String,
    pub ty: BtType,
    pub offset: u64,
    pub length: u64,
    pub value: Option<BtValue>,
    pub parent: Option<u32>,
    pub attrs: Vec<(String, String)>,
}

/// A node as the pattern language reports it.
pub struct HexpatNode {
    pub name: String,
    pub ident: String,
    pub type_label: String,
    pub ty: HexpatType,
    pub offset: u64,
    pub length: u64,
    pub value: Option<HexpatValue>,
    pub parent: Option<u32>,
    pub attrs: Vec<(String, String)>,
}

/// Whether two attribute lists read the same.
pub open spec fn same_attrs(a: Seq<(String, String)>, b: Seq<(String, String)>) -> bool {
    a.len() == b.len() && forall|i: int|
        0 <= i < a.len() ==> (#[trigger] a[i]).0@ == b[i].0@ && a[i].1@ == b[i].1@
}

fn copy_attrs(from: &Vec<(String, String)>) -> (r: Vec<(String, String)>)
    ensures
        same_attrs(from@, r@),
{
    let mut out: Vec<(String, String)> = Vec::new();
    let mut i: usize = 0;
    while i < from.len()
        invariant
            i <= from@.len(),
            out@.len() == i,
            forall|j: int|
                0 <= j < i ==> (#[trigger] from@[j]).0@ == out@[j].0@ && from@[j].1@ == out@[j].1@,
        decreases from.len() - i,
    {
        out.push((from[i].0.clone(), from[i].1.clone()));
        i = i + 1;
    }
    out
}

/// Whether a node stands for one of the binary-template language.
pub open spec fn bt_node_stands(n: BtNode, r: Node) -> bool {
    &&& r.name@ == n.name@
    &&& r.ident@ == n.ident@
    &&& r.type_label@ == n.type_label@
    &&& bt_type_stands(n.ty, r.node_type)
    &&& r.span == Span { offset: n.offset, length: n.length }
    &&& match (n.value, r.value) {
        (Some(v), Some(w)) => bt_value_stands(v, w),
        (None, None) => true,
        _ => false,
    }
    &&& r.parent == n.parent
    &&& r.display == display_of(n.attrs@, true)
    &&& same_attrs(n.attrs@, r.attributes@)
}

/// The node of the binary-template language.
pub fn convert_node(n: &BtNode) -> (r: Node)
    ensures
        bt_node_stands(*n, r),
{
    Node {
        name: n.name.clone(),
        ident: n.ident.clone(),
        type_label: n.type_label.clone(),
        node_type: convert_node_type(&n.ty),
        span: Span { offset: n.offset, length: n.length },
        value: match &n.value {
            Some(v) => Some(convert_value(v)),
            None => None,
        },
        parent: n.parent,
        display: display_hint(&n.attrs, true),
        attributes: copy_attrs(&n.attrs),
    }
}

/// Whether a node stands for one of the pattern language.
pub open spec fn hexpat_node_stands(n: HexpatNode, r: Node) -> bool {
    &&& r.name@ == n.name@
    &&& r.ident@ == n.ident@
    &&& r.type_label@ == n.type_label@
    &&& hexpat_type_stands(n.ty, r.node_type)
    &&& r.span == Span { offset: n.offset, length: n.length }
    &&& match (n.value, r.value) {
        (Some(v), Some(w)) => hexpat_value_stands(v, w),
        (None, None) => true,
        _ => false,
    }
    &&& r.parent == n.parent
    &&& r.display == display_of(n.attrs@, false)
    &&& same_attrs(n.attrs@, r.attributes@)
}

/// The node of the pattern language.
pub fn convert_imhex_node(n: &HexpatNode) -> (r: Node)
    ensures
        hexpat_node_stands(*n, r),
{
    Node {
        name: n.name.clone(),
        ident: n.ident.clone(),
        type_label: n.type_label.clone(),
        node_type: convert_imhex_node_type(&n.ty),
        span: Span { offset: n.offset, length: n.length },
        value: match &n.value {
            Some(v) => Some(convert_imhex_value(v)),
            None => None,
        },
        parent: n.parent,
        display: display_hint(&n.attrs, false),
        attributes: copy_attrs(&n.attrs),
    }
}

/// How grave a message of a template is.
#[derive(Clone, Copy, Debug, PartialEq, Eq, Structural)]
pub enum Severity {
    Error,
    Warning,
    Info,
}

/// A message of a template.
pub struct Diagnostic {
    pub message: String,
    pub severity: Severity,
    pub file_offset: Option<u64>,
    pub template_line: Option<u32>,
}

/// Whether two messages say the same.
pub open spec fn same_diagnostic(a: Diagnostic, b: Diagnostic) -> bool {
    a.message@ == b.message@ && a.severity == b.severity && a.file_offset == b.file_offset
        && a.template_line == b.template_line
}

/// The message of a template language, field by field.
pub fn convert_diagnostic(d: &Diagnostic) -> (r: Diagnostic)
    ensures
        same_diagnostic(*d, r),
{
    Diagnostic {
        message: d.message.clone(),
        severity: match d.severity {
            Severity::Error => Severity::Error,
            Severity::Warning => Severity::Warning,
            Severity::Info => Severity::Info,
        },
        file_offset: d.file_offset,
        template_line: d.template_line,
    }
}

/// What running a template gave.
pub struct ResultTree {
    pub nodes: Vec<Node>,
    pub diagnostics: Vec<Diagnostic>,
}

fn copy_diagnostics(from: &Vec<Diagnostic>) -> (r: Vec<Diagnostic>)
    ensures
        r@.len() == from@.len(),
        forall|i: int| 0 <= i < from@.len() ==> same_diagnostic(#[trigger] from@[i], r@[i]),
{
    let mut out: Vec<Diagnostic> = Vec::new();
    let mut i: usize = 0;
    while i < from.len()
        invariant
            i <= from@.len(),
            out@.len() == i,
            forall|j: int| 0 <= j < i ==> same_diagnostic(#[trigger] from@[j], out@[j]),
        decreases from.len() - i,
    {
        out.push(convert_diagnostic(&from[i]));
        i = i + 1;
    }
    out
}

/// The result of a run of the binary-template language, node for node.
pub fn to_result_tree(nodes: &Vec<BtNode>, diagnostics: &Vec<Diagnostic>) -> (r: ResultTree)
    ensures
        r.nodes@.len() == nodes@.len(),
        forall|i: int| 0 <= i < nodes@.len() ==> bt_node_stands(#[trigger] nodes@[i], r.nodes@[i]),
        r.diagnostics@.len() == diagnostics@.len(),
        forall|i: int|
            0 <= i < diagnostics@.len() ==> same_diagnostic(
                #[trigger] diagnostics@[i],
                r.diagnostics@[i],
            ),
{
    let mut out: Vec<Node> = Vec::new();
    let mut i: usize = 0;
    while i < nodes.len()
        invariant
            i <= nodes@.len(),
            out@.len() == i,
            forall|j: int| 0 <= j < i ==> bt_node_stands(#[trigger] nodes@[j], out@[j]),
        decreases nodes.len() - i,
    {
        out.push(convert_node(&nodes[i]));
        i = i + 1;
    }
    ResultTree { nodes: out, diagnostics: copy_diagnostics(diagnostics) }
}

/// The result of a run of the pattern language, node for node.
pub fn to_imhex_result_tree(nodes: &Vec<HexpatNode>, diagnostics: &Vec<Diagnostic>) -> (r:
    ResultTree)
    ensures
        r.nodes@.len() == nodes@.len(),
        forall|i: int|
            0 <= i < nodes@.len() ==> hexpat_node_stands(#[trigger] nodes@[i], r.nodes@[i]),
        r.diagnostics@.len() == diagnostics@.len(),
        forall|i: int|
            0 <= i < diagnostics@.len() ==> same_diagnostic(
                #[trigger] diagnostics@[i],
                r.diagnostics@[i],
            ),
{
    let mut out: Vec<Node> = Vec::new();
    let mut i: usize = 0;
    while i < nodes.len()
        invariant
            i <= nodes@.len(),
            out@.len() == i,
            forall|j: int| 0 <= j < i ==> hexpat_node_stands(#[trigger] nodes@[j], out@[j]),
        decreases nodes.len() - i,
    {
        out.push(convert_imhex_node(&nodes[i]));
        i = i + 1;
    }
    ResultTree { nodes: out, diagnostics: copy_diagnostics(diagnostics) }
}

/// The number that a value holds, if it holds one.
pub open spec fn number_in(v: Value) -> Option<int> {
    match v {
        Value::U8Val(n) => Some(n as int),
        Value::U16Val(n) => Some(n as int),
        Value::U32Val(n) => Some(n as int),
        Value::U64Val(n) => Some(n as int),
        Value::S8Val(n) => Some(n as int),
        Value::S16Val(n) => Some(n as int),
        Value::S32Val(n) => Some(n as int),
        Value::S64Val(n) => Some(n as int),
        _ => None,
    }
}

/// How many bytes the number in a value takes, and whether it has a sign.
pub open spec fn shape_in(v: Value) -> Option<(int, bool)> {
    match v {
        Value::U8Val(_) => Some((1, false)),
        Value::U16Val(_) => Some((2, false)),
        Value::U32Val(_) => Some((4, false)),
        Value::U64Val(_) => Some((8, false)),
        Value::S8Val(_) => Some((1, true)),
        Value::S16Val(_) => Some((2, true)),
        Value::S32Val(_) => Some((4, true)),
        Value::S64Val(_) => Some((8, true)),
        _ => None,
    }
}

/// How many numbers a number of bytes can tell apart.
pub open spec fn room(bytes: nat) -> nat
    decreases bytes,
{
    if bytes == 0 {
        1
    } else {
        256 * room((bytes - 1) as nat)
    }
}

/// The number whose bytes are given, lowest first.
pub open spec fn number_of_bytes(bytes: Seq<u8>) -> nat
    decreases bytes.len(),
{
    if bytes.len() == 0 {
        0
    } else {
        bytes[0] as nat + 256 * number_of_bytes(bytes.drop_first())
    }
}

proof fn lemma_room()
    ensures
        room(1) == 0x100,
        room(2) == 0x1_0000,
        room(4) == 0x1_0000_0000,
        room(8) == 0x1_0000_0000_0000_0000,
        room(16) == 0x1_0000_0000_0000_0000_0000_0000_0000_0000,
{
    reveal_with_fuel(room, 17);
}

proof fn lemma_le_bytes(n: nat, count: nat)
    requires
        n < room(count),
    ensures
        le_bytes(n, count).len() == count,
        number_of_bytes(le_bytes(n, count)) == n,
    decreases count,
{
    if count > 0 {
        let rest = le_bytes(n / 256, (count - 1) as nat);
        lemma_le_bytes(n / 256, (count - 1) as nat);
        assert(le_bytes(n, count).drop_first() =~= rest);
        assert(le_bytes(n, count)[0] == (n % 256) as u8);
    }
}

/// A field without a sign shows its number, in as many bytes as it was declared
/// with. Of a number that does not fit, the low bytes are shown.
pub proof fn law_unsigned_field_shows_its_number(value: u128, width: u8, r: Value)
    requires
        bt_value_stands(BtValue::UInt { value, width }, r),
    ensures
        width == 1 || width == 2 || width == 4 || width == 8 ==> {
            &&& shape_in(r) == Some((width as int, false))
            &&& number_in(r) == Some(value as int % room(width as nat) as int)
            &&& value < room(width as nat) ==> number_in(r) == Some(value as int)
        },
        value <= u64::MAX && width != 1 && width != 2 && width != 4 ==> number_in(r) == Some(
            value as int,
        ),
{
    lemma_room();
    assert(value as u8 == value % 0x100) by (bit_vector);
    assert(value as u16 == value % 0x1_0000) by (bit_vector);
    assert(value as u32 == value % 0x1_0000_0000) by (bit_vector);
    assert(value as u64 == value % 0x1_0000_0000_0000_0000) by (bit_vector);
}

/// A field with a sign shows its number, in as many bytes as it was declared with.
pub proof fn law_signed_field_shows_its_number(value: i128, width: u8, r: Value)
    requires
        bt_value_stands(BtValue::SInt { value, width }, r),
    ensures
        width == 1 || width == 2 || width == 4 || width == 8 ==> {
            &&& shape_in(r) == Some((width as int, true))
            &&& -room(width as nat) <= 2 * value < room(width as nat) ==> number_in(r) == Some(
                value as int,
            )
        },
        i64::MIN <= value <= i64::MAX && width != 1 && width != 2 && width != 4 ==> number_in(r)
            == Some(value as int),
{
    lemma_room();
}

/// Texts, truth values, characters and fractions are shown as they were read.
pub proof fn law_other_fields_show_their_value(v: BtValue, r: Value)
    requires
        bt_value_stands(v, r),
    ensures
        v matches BtValue::Str(text) ==> r matches Value::StringVal(s) && s@ == text@,
        v matches BtValue::Bool(b) ==> r == Value::BoolVal(b),
        v matches BtValue::Char { value } ==> (value < 256 ==> number_in(r) == Some(value as int)),
        v matches BtValue::Float { text, width } ==> {
            &&& width == 4 ==> (r matches Value::F32Val(s) && s@ == text@)
            &&& width == 8 ==> (r matches Value::F64Val(s) && s@ == text@)
        },
        v is Void ==> (r matches Value::StringVal(s) && s@ =~= seq![]),
{
}

/// A number without a sign of the pattern language is shown in as many bytes as it
/// was declared with. One that no number type holds is shown by its sixteen bytes,
/// the lowest first.
pub proof fn law_unsigned_pattern_shows_its_number(value: u128, width: u8, r: Value)
    requires
        hexpat_value_stands(HexpatValue::UInt { value, width }, r),
    ensures
        width == 1 || width == 2 || width == 4 || width == 8 ==> {
            &&& shape_in(r) == Some((width as int, false))
            &&& number_in(r) == Some(value as int % room(width as nat) as int)
            &&& value < room(width as nat) ==> number_in(r) == Some(value as int)
        },
        width != 1 && width != 2 && width != 4 && width != 8 ==> (r matches Value::BytesVal(b)
            && b@.len() == 16 && number_of_bytes(b@) == value),
{
    lemma_room();
    lemma_le_bytes(value as nat, 16);
    assert(value as u8 == value % 0x100) by (bit_vector);
    assert(value as u16 == value % 0x1_0000) by (bit_vector);
    assert(value as u32 == value % 0x1_0000_0000) by (bit_vector);
    assert(value as u64 == value % 0x1_0000_0000_0000_0000) by (bit_vector);
}

/// A number with a sign of the pattern language is shown in as many bytes as it was
/// declared with. Of one that no number type holds the sixteen bytes are shown, in
/// which a negative number stands for itself less the room of sixteen bytes.
pub proof fn law_signed_pattern_shows_its_number(value: i128, width: u8, r: Value)
    requires
        hexpat_value_stands(HexpatValue::SInt { value, width }, r),
    ensures
        width == 1 || width == 2 || width == 4 || width == 8 ==> {
            &&& shape_in(r) == Some((width as int, true))
            &&& -room(width as nat) <= 2 * value < room(width as nat) ==> number_in(r) == Some(
                value as int,
            )
        },
        width != 1 && width != 2 && width != 4 && width != 8 ==> (r matches Value::BytesVal(b)
            && b@.len() == 16 && number_of_bytes(b@) == if value >= 0 {
            value as int
        } else {
            value + room(16)
        }),
{
    lemma_room();
    lemma_le_bytes((value as u128) as nat, 16);
    assert(value < 0 ==> (value as u128) == value + 0x1_0000_0000_0000_0000_0000_0000_0000_0000)
        by (bit_vector);
}

/// Texts, bytes, truth values, characters and fractions of the pattern language are
/// shown as they were read.
pub proof fn law_other_patterns_show_their_value(v: HexpatValue, r: Value)
    requires
        hexpat_value_stands(v, r),
    ensures
        v matches HexpatValue::Str(text) ==> r matches Value::StringVal(s) && s@ == text@,
        v matches HexpatValue::Bytes(bytes) ==> r matches Value::BytesVal(b) && b@ == bytes@,
        v matches HexpatValue::Bool(b) ==> r == Value::BoolVal(b),
        v matches HexpatValue::Char { value } ==> (value < 256 ==> number_in(r) == Some(
            value as int,
        )),
        v matches HexpatValue::Float { text, width } ==> {
            &&& width == 4 ==> (r matches Value::F32Val(s) && s@ == text@)
            &&& width == 8 ==> (r matches Value::F64Val(s) && s@ == text@)
        },
        v is Void ==> (r matches Value::StringVal(s) && s@ =~= seq![]),
{
}

/// How many bytes a kind of number takes and whether it has a sign; nothing for
/// what is no whole number.
pub open spec fn kind_shape(k: ScalarKind) -> Option<(int, bool)> {
    match k {
        ScalarKind::U8K => Some((1, false)),
        ScalarKind::U16K => Some((2, false)),
        ScalarKind::U32K => Some((4, false)),
        ScalarKind::U64K => Some((8, false)),
        ScalarKind::U128K => Some((16, false)),
        ScalarKind::S8K => Some((1, true)),
        ScalarKind::S16K => Some((2, true)),
        ScalarKind::S32K => Some((4, true)),
        ScalarKind::S64K => Some((8, true)),
        ScalarKind::S128K => Some((16, true)),
        _ => None,
    }
}

/// The type of a field is shown as it was declared: numbers with their width and
/// sign, arrays with their length, and what has a name with that name.
pub proof fn law_field_type_kept(t: BtType, r: NodeType)
    requires
        bt_type_stands(t, r),
    ensures
        t matches BtType::Scalar(k) ==> r matches NodeType::Scalar(s) && {
            &&& k is U8 ==> kind_shape(s) == Some((1int, false))
            &&& k is U16 ==> kind_shape(s) == Some((2int, false))
            &&& k is U32 ==> kind_shape(s) == Some((4int, false))
            &&& k is U64 ==> kind_shape(s) == Some((8int, false))
            &&& k is S8 ==> kind_shape(s) == Some((1int, true))
            &&& k is S16 ==> kind_shape(s) == Some((2int, true))
            &&& k is S32 ==> kind_shape(s) == Some((4int, true))
            &&& k is S64 ==> kind_shape(s) == Some((8int, true))
            &&& (k is F32 <==> s is F32K) && (k is F64 <==> s is F64K)
            &&& (k is Bool <==> s is BoolK) && (k is Bytes <==> s is BytesK)
            &&& k is Str <==> s is StringK
        },
        t matches BtType::ScalarArray(k, n) ==> r matches NodeType::ScalarArray(s, m) && m == n
            && bt_type_stands(BtType::Scalar(k), NodeType::Scalar(s)),
        t matches BtType::StructType(a) ==> r matches NodeType::StructType(b) && b@ == a@,
        t matches BtType::StructArray(a, n) ==> r matches NodeType::StructArray(b, m) && b@ == a@
            && m == n,
        t matches BtType::EnumType(a) ==> r matches NodeType::EnumType(b) && b@ == a@,
        t matches BtType::EnumArray(a, n) ==> r matches NodeType::EnumArray(b, m) && b@ == a@ && m
            == n,
        t matches BtType::Unknown(a) ==> r matches NodeType::Unknown(b) && b@ == a@,
{
}

/// The type of a pattern is shown as it was declared, a bit field as a struct and a
/// character as the number that it is.
pub proof fn law_pattern_type_kept(t: HexpatType, r: NodeType)
    requires
        hexpat_type_stands(t, r),
    ensures
        t matches HexpatType::Scalar(k) ==> r matches NodeType::Scalar(s) && {
            &&& k is U8 || k is Char ==> kind_shape(s) == Some((1int, false))
            &&& k is U16 || k is Char16 ==> kind_shape(s) == Some((2int, false))
            &&& k is U32 ==> kind_shape(s) == Some((4int, false))
            &&& k is U64 ==> kind_shape(s) == Some((8int, false))
            &&& k is U128 ==> kind_shape(s) == Some((16int, false))
            &&& k is S8 ==> kind_shape(s) == Some((1int, true))
            &&& k is S16 ==> kind_shape(s) == Some((2int, true))
            &&& k is S32 ==> kind_shape(s) == Some((4int, true))
            &&& k is S64 ==> kind_shape(s) == Some((8int, true))
            &&& k is S128 ==> kind_shape(s) == Some((16int, true))
            &&& (k is F32 <==> s is F32K) && (k is F64 <==> s is F64K)
            &&& (k is Bool <==> s is BoolK) && (k is Bytes <==> s is BytesK)
            &&& k is Str <==> s is StringK
        },
        t matches HexpatType::ScalarArray(k, n) ==> r matches NodeType::ScalarArray(s, m) && m == n
            && hexpat_type_stands(HexpatType::Scalar(k), NodeType::Scalar(s)),
        t matches HexpatType::StructType(a) ==> r matches NodeType::StructType(b) && b@ == a@,
        t matches HexpatType::StructArray(a, n) ==> r matches NodeType::StructArray(b, m) && b@
            == a@ && m == n,
        t matches HexpatType::EnumType(a) ==> r matches NodeType::EnumType(b) && b@ == a@,
        t matches HexpatType::EnumArray(a, n) ==> r matches NodeType::EnumArray(b, m) && b@ == a@
            && m == n,
        t matches HexpatType::BitfieldType(a) ==> r matches NodeType::StructType(b) && b@ == a@,
        t matches HexpatType::Unknown(a) ==> r matches NodeType::Unknown(b) && b@ == a@,
{
}

/// A field is found where the template put it: at its offset, with its length, below
/// its parent and under its names.
pub proof fn law_field_stays_in_place(n: BtNode, r: Node)
    requires
        bt_node_stands(n, r),
    ensures
        r.span.offset == n.offset,
        r.span.length == n.length,
        r.parent == n.parent,
        r.name@ == n.name@,
        r.ident@ == n.ident@,
        r.type_label@ == n.type_label@,
        r.value is Some <==> n.value is Some,
        r.attributes@.len() == n.attrs@.len(),
        forall|i: int|
            0 <= i < n.attrs@.len() ==> (#[trigger] r.attributes@[i]).0@ == n.attrs@[i].0@
                && r.attributes@[i].1@ == n.attrs@[i].1@,
        n.value is Some ==> bt_value_stands(n.value->0, r.value->0),
        bt_type_stands(n.ty, r.node_type),
{
    assert forall|i: int| 0 <= i < n.attrs@.len() implies (#[trigger] r.attributes@[i]).0@
        == n.attrs@[i].0@ && r.attributes@[i].1@ == n.attrs@[i].1@ by {
        let _ = n.attrs@[i];
    }
}

/// A field of the pattern language is found where the pattern put it.
pub proof fn law_pattern_stays_in_place(n: HexpatNode, r: Node)
    requires
        hexpat_node_stands(n, r),
    ensures
        r.span.offset == n.offset,
        r.span.length == n.length,
        r.parent == n.parent,
        r.name@ == n.name@,
        r.ident@ == n.ident@,
        r.type_label@ == n.type_label@,
        r.value is Some <==> n.value is Some,
        r.attributes@.len() == n.attrs@.len(),
        forall|i: int|
            0 <= i < n.attrs@.len() ==> (#[trigger] r.attributes@[i]).0@ == n.attrs@[i].0@
                && r.attributes@[i].1@ == n.attrs@[i].1@,
        n.value is Some ==> hexpat_value_stands(n.value->0, r.value->0),
        hexpat_type_stands(n.ty, r.node_type),
{
    assert forall|i: int| 0 <= i < n.attrs@.len() implies (#[trigger] r.attributes@[i]).0@
        == n.attrs@[i].0@ && r.attributes@[i].1@ == n.attrs@[i].1@ by {
        let _ = n.attrs@[i];
    }
}

/// How a field is shown is what its first attribute on that says, by the words for
/// the ways to show a number; where no attribute says anything nothing is asked for.
pub proof fn law_first_format_counts(attrs: Seq<(String, String)>, short_name: bool, i: int)
    requires
        0 <= i <= attrs.len(),
        forall|j: int|
            0 <= j < i ==> (#[trigger] attrs[j]).0@ != "hxy_format"@ && !(short_name && attrs[j].0@
                == "format"@),
        i < attrs.len() ==> attrs[i].0@ == "hxy_format"@ || (short_name && attrs[i].0@
            == "format"@),
    ensures
        i == attrs.len() ==> display_of(attrs, short_name) is None,
        i < attrs.len() ==> {
            let hint = display_of(attrs, short_name);
            let word = attrs[i].1@;
            &&& hint is Some
            &&& word == "hex"@ ==> hint == Some(DisplayHint::Hex)
            &&& word == "binary"@ ==> hint == Some(DisplayHint::Binary)
            &&& word == "ascii"@ ==> hint == Some(DisplayHint::Ascii)
            &&& word != "hex"@ && word != "binary"@ && word != "ascii"@ ==> hint == Some(
                DisplayHint::Decimal,
            )
        },
    decreases attrs.len(),
{
    reveal_strlit("hex");
    reveal_strlit("decimal");
    reveal_strlit("binary");
    reveal_strlit("ascii");
    assert("hex"@.len() == 3 && "decimal"@.len() == 7 && "binary"@.len() == 6 && "ascii"@.len()
        == 5);
    if attrs.len() > 0 && i > 0 {
        let rest = attrs.drop_first();
        assert forall|j: int| 0 <= j < i - 1 implies (#[trigger] rest[j]).0@ != "hxy_format"@ && !(
        short_name && rest[j].0@ == "format"@) by {
            assert(rest[j] == attrs[j + 1]);
        }
        assert(attrs[0].0@ != "hxy_format"@);
        law_first_format_counts(rest, short_name, i - 1);
    }
}

/// Installed languages come before the built-in ones, the one that was installed last
/// first; the built-in ones keep their order.
pub proof fn law_installed_languages_come_first(
    own: Seq<Runtime>,
    installed: Seq<Runtime>,
    i: int,
)
    ensures
        runtime_order(own, installed).len() == own.len() + installed.len(),
        0 <= i < installed.len() ==> runtime_order(own, installed)[i] == installed[installed.len()
            - 1 - i],
        0 <= i < own.len() ==> runtime_order(own, installed)[installed.len() + i] == own[i],
{
}

/// The language for an extension is the first in the list that names it, whatever the
/// case of the letters; there is none only where no language names it.
pub proof fn law_language_names_extension(
    runtimes: Seq<Runtime>,
    extension: Seq<char>,
    r: Option<usize>,
    i: int,
    k: int,
)
    requires
        runtime_found(runtimes, extension, r),
    ensures
        r matches Some(n) ==> n < runtimes.len() && exists|j: int|
            0 <= j < runtimes[n as int].extensions@.len() && lowered(
                (#[trigger] runtimes[n as int].extensions@[j])@,
            ) == lowered(extension),
        0 <= i < runtimes.len() && 0 <= k < runtimes[i].extensions@.len() && lowered(
            runtimes[i].extensions@[k]@,
        ) == lowered(extension) ==> (r matches Some(n) && n <= i),
{
    if 0 <= i < runtimes.len() && 0 <= k < runtimes[i].extensions@.len() && lowered(
        runtimes[i].extensions@[k]@,
    ) == lowered(extension) {
        assert(takes(runtimes[i], extension));
    }
}

/// A read ends as many bytes on as it is long, or at the largest offset; an error of a
/// step of parsing is told with the step that it came in.
pub proof fn law_read_ends_behind_its_bytes(
    offset: u64,
    length: u64,
    end: u64,
    step: ParseStep,
    r: Option<HandlerError>,
)
    requires
        read_ends(offset, length, end),
        parse_told(step, r),
    ensures
        offset + length <= u64::MAX ==> end - offset == length,
        offset + length > u64::MAX ==> end == u64::MAX,
        step matches ParseStep::Lexed(Some(e)) ==> (r matches Some(HandlerError::Malformed(t)) && t@
            == "lex: "@ + e@),
        step matches ParseStep::Parsed(Some(e)) ==> (r matches Some(HandlerError::Malformed(t))
            && t@ == "parse: "@ + e@),
        (step matches ParseStep::Lexed(None)) || (step matches ParseStep::Parsed(None)) ==> r is None,
{
}

/// Imports are looked for in the user's patterns before those of the repository, and in
/// the directory for includes before the other.
pub proof fn law_imports_are_looked_for_in_order(data: bool, repo: bool)
    ensures
        data && repo ==> import_bases(data, repo) == seq![
            PatternBase::DataIncludes,
            PatternBase::Data,
            PatternBase::RepoIncludes,
            PatternBase::Repo,
        ],
        data && !repo ==> import_bases(data, repo) == seq![
            PatternBase::DataIncludes,
            PatternBase::Data,
        ],
        !data && repo ==> import_bases(data, repo) == seq![
            PatternBase::RepoIncludes,
            PatternBase::Repo,
        ],
        !data && !repo ==> import_bases(data, repo).len() == 0,
{
    assert(seq![PatternBase::DataIncludes, PatternBase::Data] + seq![
        PatternBase::RepoIncludes,
        PatternBase::Repo,
    ] =~= seq![
        PatternBase::DataIncludes,
        PatternBase::Data,
        PatternBase::RepoIncludes,
        PatternBase::Repo,
    ]);
}

/// A number keeps its width, and whether it has a sign, in both languages.
pub proof fn law_scalar_keeps_its_kind(k: BtScalar, r: ScalarKind, h: HexpatScalar)
    requires
        scalar_converted(k, r),
    ensures
        k is U8 <==> r is U8K,
        k is U16 <==> r is U16K,
        k is U32 <==> r is U32K,
        k is U64 <==> r is U64K,
        k is S8 <==> r is S8K,
        k is S16 <==> r is S16K,
        k is S32 <==> r is S32K,
        k is S64 <==> r is S64K,
        k is F32 <==> r is F32K,
        k is F64 <==> r is F64K,
        k is Bool <==> r is BoolK,
        k is Bytes <==> r is BytesK,
        k is Str <==> r is StringK,
        h is U8 || h is Char <==> hexpat_kind(h) is U8K,
        h is U16 || h is Char16 <==> hexpat_kind(h) is U16K,
        h is U32 <==> hexpat_kind(h) is U32K,
        h is U64 <==> hexpat_kind(h) is U64K,
        h is U128 <==> hexpat_kind(h) is U128K,
        h is S8 <==> hexpat_kind(h) is S8K,
        h is S16 <==> hexpat_kind(h) is S16K,
        h is S32 <==> hexpat_kind(h) is S32K,
        h is S64 <==> hexpat_kind(h) is S64K,
        h is S128 <==> hexpat_kind(h) is S128K,
        h is F32 <==> hexpat_kind(h) is F32K,
        h is F64 <==> hexpat_kind(h) is F64K,
        h is Bool <==> hexpat_kind(h) is BoolK,
        h is Bytes <==> hexpat_kind(h) is BytesK,
        h is Str <==> hexpat_kind(h) is StringK,
{
}

/// A hint is read by its name; any other name shows decimal digits.
pub proof fn law_hint_is_read_by_name(text: Seq<char>)
    ensures
        hint_of(text) is Hex <==> text == "hex"@,
        hint_of(text) is Binary <==> text == "binary"@,
        hint_of(text) is Ascii <==> text == "ascii"@,
        !(hint_of(text) is Hex || hint_of(text) is Binary || hint_of(text) is Ascii) ==> hint_of(
            text,
        ) is Decimal,
{
    reveal_strlit("hex");
    reveal_strlit("decimal");
    reveal_strlit("binary");
    reveal_strlit("ascii");
    assert("hex"@.len() == 3 && "decimal"@.len() == 7 && "binary"@.len() == 6 && "ascii"@.len()
        == 5);
}

/// The repository is the nearest directory that has it, going up.
pub proof fn law_nearest_repository_is_taken(found: Seq<bool>, r: Option<usize>, k: int)
    requires
        repository_found(found, r),
    ensures
        r matches Some(i) ==> i < found.len() && found[i as int],
        0 <= k < found.len() && k < REPO_SEARCH_DEPTH && found[k] ==> (r matches Some(i) && i <= k),
{
}

} // verus!
