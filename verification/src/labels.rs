//! Text, icons and key bindings as the interface refers to them: messages by their
//! key, icons and bindings by name.

use vstd::prelude::*;
use vstd::string::*;

verus! {

/// A piece of text to show.
pub enum Label {
    /// The message of a key.
    Key(&'static str),
    /// The message of a key with named values put in.
    Args(&'static str, Vec<(&'static str, String)>),
    /// The message of a key with another label put in under a name.
    With(&'static str, &'static str, Box<Label>),
    /// Text as it stands.
    Text(String),
}

/// What a label refers to.
pub enum LabelView {
    Key(Seq<char>),
    Args(Seq<char>, Seq<(Seq<char>, Seq<char>)>),
    With(Seq<char>, Seq<char>, Box<LabelView>),
    Text(Seq<char>),
}

/// Named values as plain text.
pub open spec fn args_view(args: Seq<(&'static str, String)>) -> Seq<(Seq<char>, Seq<char>)> {
    args.map_values(|a: (&'static str, String)| (a.0@, a.1@))
}

/// What a label refers to.
pub open spec fn label_view(l: Label) -> LabelView
    decreases l,
{
    match l {
        Label::Key(k) => LabelView::Key(k@),
        Label::Args(k, args) => LabelView::Args(k@, args_view(args@)),
        Label::With(k, name, inner) => LabelView::With(
            k@,
            name@,
            Box::new(label_view(*inner)),
        ),
        Label::Text(t) => LabelView::Text(t@),
    }
}

impl View for Label {
    type V = LabelView;

    open spec fn view(&self) -> LabelView {
        label_view(*self)
    }
}

/// A label with one value put in.
pub fn label_arg(key: &'static str, name: &'static str, value: String) -> (r: Label)
    ensures
        r@ == LabelView::Args(key@, seq![(name@, value@)]),
{
    let mut args: Vec<(&'static str, String)> = Vec::new();
    args.push((name, value));
    assert(args_view(args@) =~= seq![(name@, value@)]);
    Label::Args(key, args)
}

/// A label with two values put in.
pub fn label_args2(
    key: &'static str,
    first: (&'static str, String),
    second: (&'static str, String),
) -> (r: Label)
    ensures
        r@ == LabelView::Args(key@, seq![(first.0@, first.1@), (second.0@, second.1@)]),
{
    let mut args: Vec<(&'static str, String)> = Vec::new();
    args.push(first);
    args.push(second);
    assert(args_view(args@) =~= seq![(first.0@, first.1@), (second.0@, second.1@)]);
    Label::Args(key, args)
}

/// A label with three values put in.
pub fn label_args3(
    key: &'static str,
    first: (&'static str, String),
    second: (&'static str, String),
    third: (&'static str, String),
) -> (r: Label)
    ensures
        r@ == LabelView::Args(
            key@,
            seq![(first.0@, first.1@), (second.0@, second.1@), (third.0@, third.1@)],
        ),
{
    let mut args: Vec<(&'static str, String)> = Vec::new();
    args.push(first);
    args.push(second);
    args.push(third);
    assert(args_view(args@) =~= seq![
        (first.0@, first.1@),
        (second.0@, second.1@),
        (third.0@, third.1@),
    ]);
    Label::Args(key, args)
}

/// The icons in use.
#[derive(Clone, Copy, Debug, PartialEq, Eq, Structural)]
pub enum Icon {
    ArrowBendDownLeft,
    ArrowBendDownRight,
    ArrowBendUpRight,
    ArrowClockwise,
    ArrowCounterClockwise,
    ArrowDown,
    ArrowFatDown,
    ArrowFatLeft,
    ArrowFatRight,
    ArrowFatUp,
    ArrowLeft,
    ArrowLineDown,
    ArrowLineLeft,
    ArrowLineRight,
    ArrowLineUp,
    ArrowRight,
    ArrowSquareDown,
    ArrowSquareLeft,
    ArrowSquareRight,
    ArrowSquareUp,
    ArrowUp,
    ArrowsInCardinal,
    ArrowsLeftRight,
    ArrowsOutCardinal,
    ArrowsOutLineHorizontal,
    BracketsCurly,
    ChartLine,
    Clipboard,
    ClipboardText,
    ClockCounterClockwise,
    Columns,
    ColumnsPlusRight,
    Copy,
    Crosshair,
    CrosshairSimple,
    Download,
    Eye,
    File,
    FilePlus,
    Fingerprint,
    FolderOpen,
    Gear,
    House,
    Info,
    Keyboard,
    Lock,
    LockOpen,
    MagnifyingGlass,
    Memory,
    PuzzlePiece,
    Ruler,
    Scroll,
    SquaresFour,
    Target,
    Terminal,
    TerminalWindow,
    TextAa,
    Trash,
    TreeStructure,
    Warning,
    XCircle,
    XSquare,
}

/// The key bindings in use.
#[derive(Clone, Copy, Debug, PartialEq, Eq, Structural)]
pub enum Shortcut {
    NewFile,
    Undo,
    Redo,
    ToggleEditMode,
    Paste,
    PasteAsHex,
    FocusPane,
    CopyBytes,
    CopyHex,
    FindLocal,
    ReopenClosed,
}

} // verus!
