//! Toolbar commands and the effects they ask for.

use vstd::prelude::*;
use vstd::string::*;
use crate::labels::{Icon, Label, Shortcut};
#[allow(unused_imports)]
use crate::labels::LabelView;
use crate::text::join2;

verus! {

/// Direction of a split, merge or move between dock panes.
#[derive(Clone, Copy, Debug, PartialEq, Eq, Structural)]
pub enum DockDir {
    Left,
    Right,
    Up,
    Down,
}

/// What a command asks the application to do.
pub enum CommandEffect {
    OpenFileDialog,
    MountActiveFile,
    OpenRecent(String),
    RunTemplateDialog,
    /// Runs a template without asking for one.
    RunTemplateDirect(String),
    UndoActiveFile,
    RedoActiveFile,
    /// Splits the focused pane.
    DockSplit(DockDir),
    /// Merges the focused pane into its neighbour.
    DockMerge(DockDir),
    /// Moves the active tab of the focused pane to its neighbour.
    DockMoveTab(DockDir),
}

/// What an effect asks for.
pub enum EffectView {
    OpenFileDialog,
    MountActiveFile,
    OpenRecent(Seq<char>),
    RunTemplateDialog,
    RunTemplateDirect(Seq<char>),
    UndoActiveFile,
    RedoActiveFile,
    DockSplit(DockDir),
    DockMerge(DockDir),
    DockMoveTab(DockDir),
}

impl View for CommandEffect {
    type V = EffectView;

    open spec fn view(&self) -> EffectView {
        match *self {
            CommandEffect::OpenFileDialog => EffectView::OpenFileDialog,
            CommandEffect::MountActiveFile => EffectView::MountActiveFile,
            CommandEffect::OpenRecent(p) => EffectView::OpenRecent(p@),
            CommandEffect::RunTemplateDialog => EffectView::RunTemplateDialog,
            CommandEffect::RunTemplateDirect(p) => EffectView::RunTemplateDirect(p@),
            CommandEffect::UndoActiveFile => EffectView::UndoActiveFile,
            CommandEffect::RedoActiveFile => EffectView::RedoActiveFile,
            CommandEffect::DockSplit(d) => EffectView::DockSplit(d),
            CommandEffect::DockMerge(d) => EffectView::DockMerge(d),
            CommandEffect::DockMoveTab(d) => EffectView::DockMoveTab(d),
        }
    }
}

/// A template that fits the active file.
pub struct SuggestedTemplate {
    pub display_name: String,
    pub path: String,
}

/// What commands see of the active file.
pub struct ActiveFile {
    /// Whether something can mount it.
    pub has_handler: bool,
    pub suggested_template: Option<SuggestedTemplate>,
    pub can_undo: bool,
    pub can_redo: bool,
}

/// What commands see and fill during one pass over the toolbar.
pub struct ToolbarCtx {
    pub active_file: Option<ActiveFile>,
    /// The effects asked for, in order.
    pub effects: Vec<CommandEffect>,
}

/// Whether one effect was added and nothing else changed.
pub open spec fn asked(before: ToolbarCtx, effect: EffectView, after: ToolbarCtx) -> bool {
    &&& after.active_file == before.active_file
    &&& after.effects@.len() == before.effects@.len() + 1
    &&& after.effects@.drop_last() == before.effects@
    &&& after.effects@.last()@ == effect
}

/// A button of the toolbar.
pub trait ToolbarCommand {
    spec fn spec_id(&self) -> Seq<char>;

    spec fn spec_label(&self, cx: ToolbarCtx) -> LabelView;

    spec fn spec_icon(&self) -> Icon;

    spec fn spec_enabled(&self, cx: ToolbarCtx) -> bool;

    spec fn spec_shortcut(&self) -> Option<Shortcut>;

    spec fn spec_effect(&self, cx: ToolbarCtx) -> EffectView;

    /// A name that does not change.
    fn id(&self) -> (r: &'static str)
        ensures
            r@ == self.spec_id(),
    ;

    /// The text of its tooltip.
    fn label(&self, cx: &ToolbarCtx) -> (r: Label)
        ensures
            r@ == self.spec_label(*cx),
    ;

    fn icon(&self) -> (r: Icon)
        ensures
            r == self.spec_icon(),
    ;

    /// Whether it can be clicked.
    fn enabled(&self, cx: &ToolbarCtx) -> (r: bool)
        ensures
            r == self.spec_enabled(*cx),
    ;

    /// The key binding shown next to its text.
    fn shortcut(&self) -> (r: Option<Shortcut>)
        ensures
            r == self.spec_shortcut(),
    ;

    /// What a click does.
    fn invoke(&self, cx: &mut ToolbarCtx)
        ensures
            asked(*old(cx), self.spec_effect(*old(cx)), *final(cx)),
    ;
}

fn ask(cx: &mut ToolbarCtx, effect: CommandEffect)
    ensures
        asked(*old(cx), effect@, *final(cx)),
{
    cx.effects.push(effect);
    assert(cx.effects@.drop_last() =~= old(cx).effects@);
}

/// Asks for files to open.
pub struct OpenFileCommand;

impl ToolbarCommand for OpenFileCommand {
    open spec fn spec_id(&self) -> Seq<char> {
        "open-file"@
    }

    open spec fn spec_label(&self, cx: ToolbarCtx) -> LabelView {
        LabelView::Key("toolbar-open-file"@)
    }

    open spec fn spec_icon(&self) -> Icon {
        Icon::FolderOpen
    }

    open spec fn spec_enabled(&self, cx: ToolbarCtx) -> bool {
        true
    }

    open spec fn spec_shortcut(&self) -> Option<Shortcut> {
        None
    }

    open spec fn spec_effect(&self, cx: ToolbarCtx) -> EffectView {
        EffectView::OpenFileDialog
    }

    fn id(&self) -> (r: &'static str) {
        "open-file"
    }

    fn label(&self, cx: &ToolbarCtx) -> (r: Label) {
        Label::Key("toolbar-open-file")
    }

    fn icon(&self) -> (r: Icon) {
        Icon::FolderOpen
    }

    fn enabled(&self, cx: &ToolbarCtx) -> (r: bool) {
        true
    }

    fn shortcut(&self) -> (r: Option<Shortcut>) {
        None
    }

    fn invoke(&self, cx: &mut ToolbarCtx) {
        ask(cx, CommandEffect::OpenFileDialog);
    }
}

/// Mounts the active file as an archive, where something can.
pub struct BrowseArchiveCommand;

impl ToolbarCommand for BrowseArchiveCommand {
    open spec fn spec_id(&self) -> Seq<char> {
        "browse-archive"@
    }

    open spec fn spec_label(&self, cx: ToolbarCtx) -> LabelView {
        LabelView::Key("toolbar-browse-archive"@)
    }

    open spec fn spec_icon(&self) -> Icon {
        Icon::TreeStructure
    }

    open spec fn spec_enabled(&self, cx: ToolbarCtx) -> bool {
        cx.active_file matches Some(f) && f.has_handler
    }

    open spec fn spec_shortcut(&self) -> Option<Shortcut> {
        None
    }

    open spec fn spec_effect(&self, cx: ToolbarCtx) -> EffectView {
        EffectView::MountActiveFile
    }

    fn id(&self) -> (r: &'static str) {
        "browse-archive"
    }

    fn label(&self, cx: &ToolbarCtx) -> (r: Label) {
        Label::Key("toolbar-browse-archive")
    }

    fn icon(&self) -> (r: Icon) {
        Icon::TreeStructure
    }

    fn enabled(&self, cx: &ToolbarCtx) -> (r: bool) {
        match &cx.active_file {
            Some(f) => f.has_handler,
            None => false,
        }
    }

    fn shortcut(&self) -> (r: Option<Shortcut>) {
        None
    }

    fn invoke(&self, cx: &mut ToolbarCtx) {
        ask(cx, CommandEffect::MountActiveFile);
    }
}

/// Runs a template on the active file: the one that fits it, where one does,
/// and else one that the user is asked for.
pub struct RunTemplateCommand;

/// The template that fits the active file.
pub open spec fn suggestion(cx: ToolbarCtx) -> Option<SuggestedTemplate> {
    match cx.active_file {
        Some(f) => f.suggested_template,
        None => None,
    }
}

impl ToolbarCommand for RunTemplateCommand {
    open spec fn spec_id(&self) -> Seq<char> {
        "run-template"@
    }

    open spec fn spec_label(&self, cx: ToolbarCtx) -> LabelView {
        match suggestion(cx) {
            Some(t) => LabelView::Text("Run "@ + t.display_name@),
            None => LabelView::Key("toolbar-run-template"@),
        }
    }

    open spec fn spec_icon(&self) -> Icon {
        Icon::Scroll
    }

    open spec fn spec_enabled(&self, cx: ToolbarCtx) -> bool {
        cx.active_file is Some
    }

    open spec fn spec_shortcut(&self) -> Option<Shortcut> {
        None
    }

    open spec fn spec_effect(&self, cx: ToolbarCtx) -> EffectView {
        match suggestion(cx) {
            Some(t) => EffectView::RunTemplateDirect(t.path@),
            None => EffectView::RunTemplateDialog,
        }
    }

    fn id(&self) -> (r: &'static str) {
        "run-template"
    }

    fn label(&self, cx: &ToolbarCtx) -> (r: Label) {
        if let Some(f) = &cx.active_file {
            if let Some(t) = &f.suggested_template {
                return Label::Text(join2("Run ", t.display_name.as_str()));
            }
        }
        Label::Key("toolbar-run-template")
    }

    fn icon(&self) -> (r: Icon) {
        Icon::Scroll
    }

    fn enabled(&self, cx: &ToolbarCtx) -> (r: bool) {
        cx.active_file.is_some()
    }

    fn shortcut(&self) -> (r: Option<Shortcut>) {
        None
    }

    fn invoke(&self, cx: &mut ToolbarCtx) {
        let path = match &cx.active_file {
            Some(f) => match &f.suggested_template {
                Some(t) => Some(t.path.clone()),
                None => None,
            },
            None => None,
        };
        match path {
            Some(p) => ask(cx, CommandEffect::RunTemplateDirect(p)),
            None => ask(cx, CommandEffect::RunTemplateDialog),
        }
    }
}

/// Takes back the last edit of the active file, where there is one.
pub struct UndoCommand;

impl ToolbarCommand for UndoCommand {
    open spec fn spec_id(&self) -> Seq<char> {
        "undo"@
    }

    open spec fn spec_label(&self, cx: ToolbarCtx) -> LabelView {
        LabelView::Key("menu-edit-undo"@)
    }

    open spec fn spec_icon(&self) -> Icon {
        Icon::ArrowCounterClockwise
    }

    open spec fn spec_enabled(&self, cx: ToolbarCtx) -> bool {
        cx.active_file matches Some(f) && f.can_undo
    }

    open spec fn spec_shortcut(&self) -> Option<Shortcut> {
        Some(Shortcut::Undo)
    }

    open spec fn spec_effect(&self, cx: ToolbarCtx) -> EffectView {
        EffectView::UndoActiveFile
    }

    fn id(&self) -> (r: &'static str) {
        "undo"
    }

    fn label(&self, cx: &ToolbarCtx) -> (r: Label) {
        Label::Key("menu-edit-undo")
    }

    fn icon(&self) -> (r: Icon) {
        Icon::ArrowCounterClockwise
    }

    fn enabled(&self, cx: &ToolbarCtx) -> (r: bool) {
        match &cx.active_file {
            Some(f) => f.can_undo,
            None => false,
        }
    }

    fn shortcut(&self) -> (r: Option<Shortcut>) {
        Some(Shortcut::Undo)
    }

    fn invoke(&self, cx: &mut ToolbarCtx) {
        ask(cx, CommandEffect::UndoActiveFile);
    }
}

/// Applies the edit that was last taken back, where there is one.
pub struct RedoCommand;

impl ToolbarCommand for RedoCommand {
    open spec fn spec_id(&self) -> Seq<char> {
        "redo"@
    }

    open spec fn spec_label(&self, cx: ToolbarCtx) -> LabelView {
        LabelView::Key("menu-edit-redo"@)
    }

    open spec fn spec_icon(&self) -> Icon {
        Icon::ArrowClockwise
    }

    open spec fn spec_enabled(&self, cx: ToolbarCtx) -> bool {
        cx.active_file matches Some(f) && f.can_redo
    }

    open spec fn spec_shortcut(&self) -> Option<Shortcut> {
        Some(Shortcut::Redo)
    }

    open spec fn spec_effect(&self, cx: ToolbarCtx) -> EffectView {
        EffectView::RedoActiveFile
    }

    fn id(&self) -> (r: &'static str) {
        "redo"
    }

    fn label(&self, cx: &ToolbarCtx) -> (r: Label) {
        Label::Key("menu-edit-redo")
    }

    fn icon(&self) -> (r: Icon) {
        Icon::ArrowClockwise
    }

    fn enabled(&self, cx: &ToolbarCtx) -> (r: bool) {
        match &cx.active_file {
            Some(f) => f.can_redo,
            None => false,
        }
    }

    fn shortcut(&self) -> (r: Option<Shortcut>) {
        Some(Shortcut::Redo)
    }

    fn invoke(&self, cx: &mut ToolbarCtx) {
        ask(cx, CommandEffect::RedoActiveFile);
    }
}

/// A button as it is drawn.
pub struct Button {
    pub id: &'static str,
    pub label: Label,
    pub icon: Icon,
    pub enabled: bool,
    pub shortcut: Option<Shortcut>,
}

/// A command of the toolbar, by its place.
#[derive(Clone, Copy, Debug, PartialEq, Eq, Structural)]
pub enum CommandKind {
    OpenFile,
    BrowseArchive,
    RunTemplate,
    Undo,
    Redo,
}

/// The commands of the toolbar, from left to right.
pub open spec fn toolbar_commands() -> Seq<CommandKind> {
    seq![
        CommandKind::OpenFile,
        CommandKind::BrowseArchive,
        CommandKind::RunTemplate,
        CommandKind::Undo,
        CommandKind::Redo,
    ]
}

/// The commands of the toolbar, from left to right.
pub fn default_commands() -> (r: Vec<CommandKind>)
    ensures
        r@ == toolbar_commands(),
{
    let mut out: Vec<CommandKind> = Vec::new();
    out.push(CommandKind::OpenFile);
    out.push(CommandKind::BrowseArchive);
    out.push(CommandKind::RunTemplate);
    out.push(CommandKind::Undo);
    out.push(CommandKind::Redo);
    out
}

/// Whether a button shows a command.
pub open spec fn shows<C: ToolbarCommand>(b: Button, command: C, cx: ToolbarCtx) -> bool {
    &&& b.id@ == command.spec_id()
    &&& b.label@ == command.spec_label(cx)
    &&& b.icon == command.spec_icon()
    &&& b.enabled == command.spec_enabled(cx)
    &&& b.shortcut == command.spec_shortcut()
}

fn button_of<C: ToolbarCommand>(command: &C, cx: &ToolbarCtx) -> (r: Button)
    ensures
        shows(r, *command, *cx),
{
    Button {
        id: command.id(),
        label: command.label(cx),
        icon: command.icon(),
        enabled: command.enabled(cx),
        shortcut: command.shortcut(),
    }
}

/// Whether a button is that of a command.
pub open spec fn drawn(
    kind: CommandKind,
    cx: ToolbarCtx,
    r: Button,
) -> bool {
    &&& match kind {
        CommandKind::OpenFile => shows(r, OpenFileCommand, cx),
        CommandKind::BrowseArchive => shows(r, BrowseArchiveCommand, cx),
        CommandKind::RunTemplate => shows(r, RunTemplateCommand, cx),
        CommandKind::Undo => shows(r, UndoCommand, cx),
        CommandKind::Redo => shows(r, RedoCommand, cx),
    }
}

/// The button of a command.
pub fn draw(kind: CommandKind, cx: &ToolbarCtx) -> (r: Button)
    ensures
        drawn(kind, *cx, r),
{
    match kind {
        CommandKind::OpenFile => button_of(&OpenFileCommand, cx),
        CommandKind::BrowseArchive => button_of(&BrowseArchiveCommand, cx),
        CommandKind::RunTemplate => button_of(&RunTemplateCommand, cx),
        CommandKind::Undo => button_of(&UndoCommand, cx),
        CommandKind::Redo => button_of(&RedoCommand, cx),
    }
}

/// Whether a command that was clicked was run.
pub open spec fn clicked(
    kind: CommandKind,
    before: ToolbarCtx,
    after: ToolbarCtx,
) -> bool {
    &&& asked(
        before,
        match kind {
            CommandKind::OpenFile => OpenFileCommand.spec_effect(before),
            CommandKind::BrowseArchive => BrowseArchiveCommand.spec_effect(before),
            CommandKind::RunTemplate => RunTemplateCommand.spec_effect(before),
            CommandKind::Undo => UndoCommand.spec_effect(before),
            CommandKind::Redo => RedoCommand.spec_effect(before),
        },
        after,
    )
}

/// Runs a command that was clicked.
pub fn click(kind: CommandKind, cx: &mut ToolbarCtx)
    ensures
        clicked(kind, *old(cx), *final(cx)),
{
    match kind {
        CommandKind::OpenFile => OpenFileCommand.invoke(cx),
        CommandKind::BrowseArchive => BrowseArchiveCommand.invoke(cx),
        CommandKind::RunTemplate => RunTemplateCommand.invoke(cx),
        CommandKind::Undo => UndoCommand.invoke(cx),
        CommandKind::Redo => RedoCommand.invoke(cx),
    }
}

/// The toolbar has a button for each command, once.
pub proof fn law_toolbar_has_each_command(kind: CommandKind)
    ensures
        toolbar_commands().len() == 5,
        toolbar_commands().contains(kind),
{
    let all = toolbar_commands();
    assert(all[0] is OpenFile && all[1] is BrowseArchive && all[2] is RunTemplate && all[3] is Undo
        && all[4] is Redo);
    match kind {
        CommandKind::OpenFile => assert(all[0] == kind),
        CommandKind::BrowseArchive => assert(all[1] == kind),
        CommandKind::RunTemplate => assert(all[2] == kind),
        CommandKind::Undo => assert(all[3] == kind),
        CommandKind::Redo => assert(all[4] == kind),
    }
}

/// A button can be clicked exactly where its command can do something: files can always
/// be opened, an archive is browsed where something can mount the active file, a template
/// needs an active file, undo and redo a step to take.
pub proof fn law_button_is_enabled_where_it_acts(kind: CommandKind, cx: ToolbarCtx, r: Button)
    requires
        drawn(kind, cx, r),
    ensures
        kind is OpenFile ==> r.enabled,
        kind is BrowseArchive ==> (r.enabled <==> (cx.active_file matches Some(f)
            && f.has_handler)),
        kind is RunTemplate ==> (r.enabled <==> cx.active_file is Some),
        kind is Undo ==> (r.enabled <==> (cx.active_file matches Some(f) && f.can_undo))
            && r.shortcut == Some(Shortcut::Undo),
        kind is Redo ==> (r.enabled <==> (cx.active_file matches Some(f) && f.can_redo))
            && r.shortcut == Some(Shortcut::Redo),
        kind is RunTemplate ==> (cx.active_file matches Some(f) ==> (
        f.suggested_template matches Some(t) ==> r.label@ == LabelView::Text(
            "Run "@ + t.display_name@,
        ))),
{
}

/// A click asks for what the button is for, behind what was asked for before: undo for
/// undo, redo for redo, and the template that fits the active file where one does.
pub proof fn law_click_asks_for_command(kind: CommandKind, before: ToolbarCtx, after: ToolbarCtx)
    requires
        clicked(kind, before, after),
    ensures
        ({
            let n = before.effects@.len() as int;
            let effect = after.effects@[n]@;
            &&& after.effects@.len() == n + 1
            &&& after.effects@.take(n) == before.effects@
            &&& kind is OpenFile ==> effect is OpenFileDialog
            &&& kind is BrowseArchive ==> effect is MountActiveFile
            &&& kind is Undo ==> effect is UndoActiveFile
            &&& kind is Redo ==> effect is RedoActiveFile
            &&& kind is RunTemplate ==> match before.active_file {
                Some(f) => match f.suggested_template {
                    Some(t) => effect == EffectView::RunTemplateDirect(t.path@),
                    None => effect is RunTemplateDialog,
                },
                None => effect is RunTemplateDialog,
            }
        }),
{
    let n = before.effects@.len() as int;
    assert(after.effects@.last() == after.effects@[n]);
    assert(after.effects@.take(n) =~= after.effects@.drop_last());
}

} // verus!
