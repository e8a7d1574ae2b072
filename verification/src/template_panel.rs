//! The panel that shows what a template found in a file.

use vstd::prelude::*;
use vstd::string::*;
use crate::copy::{format_template_copy, save_template_bytes, CopyKind, CopyRequest};
#[allow(unused_imports)]
use crate::copy::{node_copied, node_saved};
use crate::editor::HexEditor;
use crate::template::{format_template_struct, select_node, Node};
#[allow(unused_imports)]
use crate::template::{declaration, node_selection};

verus! {

/// What the panel shows.
pub struct TemplatePanel {
    pub nodes: Vec<Node>,
    pub show_panel: bool,
    /// The node under the pointer.
    pub hovered: Option<usize>,
    /// Whether fields are tinted in the hex view.
    pub show_colors: bool,
}

/// Whether the panel shows.
pub open spec fn panel_shows(shown: Option<bool>, running: bool) -> bool {
    running || shown == Some(true)
}

/// Whether the panel shows: while a template runs, and afterwards until it is
/// closed. `shown` tells of a template that ran.
pub fn panel_visible(shown: Option<bool>, running: bool) -> (r: bool)
    ensures
        r == panel_shows(shown, running),
{
    running || match shown {
        Some(b) => b,
        None => false,
    }
}

/// What happens in the panel. Nodes are given by their places.
pub enum TemplateEvent {
    Close,
    ExpandArray { array_id: u64, count: u64 },
    ToggleCollapse(usize),
    Hover(Option<usize>),
    Select(usize),
    Copy { idx: usize, kind: CopyKind },
    SaveBytes(usize),
    ToggleColors(bool),
}

/// What is left to do after an event.
pub enum TemplateEffect {
    Nothing,
    /// Shows more items of an array.
    ExpandArray { array_id: u64, count: u64 },
    /// Folds a node, or unfolds it.
    ToggleCollapse(usize),
    /// Scrolls to an offset.
    ScrollTo(u64),
    CopyText(String),
    Copy(CopyRequest),
    /// Asks where to save bytes, with a name to begin with.
    SaveBytes { name: String, bytes: Vec<u8> },
}

/// Whether a node was copied: as a declaration in source text, or in another
/// format.
pub open spec fn copied_node(panel: TemplatePanel, bytes: Seq<u8>, idx: usize, kind: CopyKind, r: TemplateEffect)
    -> bool {
    if kind.spec_is_struct() {
        match declaration(panel.nodes@, idx as int, kind) {
            Some(text) => r matches TemplateEffect::CopyText(t) && t@ == text,
            None => r is Nothing,
        }
    } else if idx < panel.nodes@.len() {
        match r {
            TemplateEffect::Copy(request) => node_copied(
                bytes,
                panel.nodes@[idx as int],
                kind,
                Some(request),
            ),
            TemplateEffect::Nothing => node_copied(bytes, panel.nodes@[idx as int], kind, None),
            _ => false,
        }
    } else {
        r is Nothing
    }
}

/// Whether the bytes of a node were taken to be saved.
pub open spec fn saved_node(panel: TemplatePanel, bytes: Seq<u8>, idx: usize, r: TemplateEffect)
    -> bool {
    if idx < panel.nodes@.len() {
        match r {
            TemplateEffect::SaveBytes { name, bytes: b } => node_saved(
                bytes,
                panel.nodes@[idx as int],
                Some((name, b)),
            ),
            TemplateEffect::Nothing => node_saved(bytes, panel.nodes@[idx as int], None),
            _ => false,
        }
    } else {
        r is Nothing
    }
}

/// What an event does to the panel.
pub open spec fn panel_after(panel: TemplatePanel, event: TemplateEvent) -> TemplatePanel {
    match event {
        TemplateEvent::Close => TemplatePanel { show_panel: false, ..panel },
        TemplateEvent::Hover(idx) => TemplatePanel { hovered: idx, ..panel },
        TemplateEvent::ToggleColors(on) => TemplatePanel { show_colors: on, ..panel },
        _ => panel,
    }
}

/// What an event does to the file: the bytes of a node that is picked are
/// selected.
pub open spec fn editor_after(panel: TemplatePanel, editor: HexEditor, event: TemplateEvent)
    -> HexEditor {
    match event {
        TemplateEvent::Select(idx) => if idx < panel.nodes@.len() {
            HexEditor {
                selection: Some(node_selection(panel.nodes@[idx as int].span)),
                ..editor
            }
        } else {
            editor
        },
        _ => editor,
    }
}

/// What an event leaves to do.
pub open spec fn event_leaves(
    panel: TemplatePanel,
    bytes: Seq<u8>,
    event: TemplateEvent,
    r: TemplateEffect,
) -> bool {
    match event {
        TemplateEvent::ExpandArray { array_id, count } => r == (TemplateEffect::ExpandArray {
            array_id,
            count,
        }),
        TemplateEvent::ToggleCollapse(idx) => r == TemplateEffect::ToggleCollapse(idx),
        TemplateEvent::Select(idx) => if idx < panel.nodes@.len() {
            r == TemplateEffect::ScrollTo(panel.nodes@[idx as int].span.offset)
        } else {
            r is Nothing
        },
        TemplateEvent::Copy { idx, kind } => copied_node(panel, bytes, idx, kind, r),
        TemplateEvent::SaveBytes(idx) => saved_node(panel, bytes, idx, r),
        _ => r is Nothing,
    }
}

fn copy_node(panel: &TemplatePanel, bytes: &Vec<u8>, idx: usize, kind: CopyKind) -> (r:
    TemplateEffect)
    ensures
        copied_node(*panel, bytes@, idx, kind, r),
{
    if kind.is_struct() {
        return match format_template_struct(&panel.nodes, idx, kind) {
            Some(text) => TemplateEffect::CopyText(text),
            None => TemplateEffect::Nothing,
        };
    }
    if idx >= panel.nodes.len() {
        return TemplateEffect::Nothing;
    }
    match format_template_copy(bytes, &panel.nodes[idx], kind) {
        Some(request) => TemplateEffect::Copy(request),
        None => TemplateEffect::Nothing,
    }
}

fn save_node(panel: &TemplatePanel, bytes: &Vec<u8>, idx: usize) -> (r: TemplateEffect)
    ensures
        saved_node(*panel, bytes@, idx, r),
{
    if idx >= panel.nodes.len() {
        return TemplateEffect::Nothing;
    }
    match save_template_bytes(bytes, &panel.nodes[idx]) {
        Some((name, b)) => TemplateEffect::SaveBytes { name, bytes: b },
        None => TemplateEffect::Nothing,
    }
}

/// Answers what happens in the panel.
pub fn apply_template_event(
    panel: &mut TemplatePanel,
    editor: &mut HexEditor,
    event: TemplateEvent,
) -> (r: TemplateEffect)
    requires
        old(editor).wf(),
    ensures
        final(editor).wf(),
        *final(panel) == panel_after(*old(panel), event),
        *final(editor) == editor_after(*old(panel), *old(editor), event),
        event_leaves(*old(panel), old(editor).bytes@, event, r),
{
    match event {
        TemplateEvent::Close => {
            panel.show_panel = false;
            TemplateEffect::Nothing
        },
        TemplateEvent::ExpandArray { array_id, count } => TemplateEffect::ExpandArray {
            array_id,
            count,
        },
        TemplateEvent::ToggleCollapse(idx) => TemplateEffect::ToggleCollapse(idx),
        TemplateEvent::Hover(idx) => {
            panel.hovered = idx;
            TemplateEffect::Nothing
        },
        TemplateEvent::Select(idx) => match select_node(&panel.nodes, idx) {
            Some(sel) => {
                editor.selection = Some(sel);
                TemplateEffect::ScrollTo(panel.nodes[idx].span.offset)
            },
            None => TemplateEffect::Nothing,
        },
        TemplateEvent::Copy { idx, kind } => copy_node(panel, &editor.bytes, idx, kind),
        TemplateEvent::SaveBytes(idx) => save_node(panel, &editor.bytes, idx),
        TemplateEvent::ToggleColors(on) => {
            panel.show_colors = on;
            TemplateEffect::Nothing
        },
    }
}

/// The panel shows while a template runs and while it has not been closed since.
pub proof fn law_panel_shows_until_closed(shown: Option<bool>, running: bool)
    ensures
        running ==> panel_shows(shown, running),
        !running ==> (panel_shows(shown, running) <==> (shown matches Some(b) && b)),
{
}

/// Picking a node selects exactly its bytes, one at least, and scrolls to the first of
/// them; the bytes of the file stay. A node that is not there is passed over.
pub proof fn law_picked_node_is_selected(
    panel: TemplatePanel,
    editor: HexEditor,
    idx: usize,
    r: TemplateEffect,
)
    requires
        event_leaves(panel, editor.bytes@, TemplateEvent::Select(idx), r),
    ensures
        ({
            let after = editor_after(panel, editor, TemplateEvent::Select(idx));
            &&& after.bytes == editor.bytes
            &&& idx >= panel.nodes@.len() ==> after == editor && r is Nothing
            &&& idx < panel.nodes@.len() ==> {
                let span = panel.nodes@[idx as int].span;
                &&& r == TemplateEffect::ScrollTo(span.offset)
                &&& span.offset + span.length <= u64::MAX ==> (after.selection matches Some(s)
                    && s.anchor == span.offset && s.cursor == span.offset + (if span.length > 0 {
                    span.length - 1
                } else {
                    0
                }))
            }
        }),
{
}

/// No other event touches the file, and each changes only its own part of the panel.
pub proof fn law_panel_events_keep_the_rest(
    panel: TemplatePanel,
    editor: HexEditor,
    event: TemplateEvent,
    r: TemplateEffect,
)
    requires
        event_leaves(panel, editor.bytes@, event, r),
    ensures
        !(event is Select) ==> editor_after(panel, editor, event) == editor,
        panel_after(panel, event).nodes == panel.nodes,
        event is Close ==> !panel_after(panel, event).show_panel,
        !(event is Close) ==> panel_after(panel, event).show_panel == panel.show_panel,
        event matches TemplateEvent::Hover(at) ==> panel_after(panel, event).hovered == at,
        !(event is Hover) ==> panel_after(panel, event).hovered == panel.hovered,
        event matches TemplateEvent::ToggleColors(on) ==> panel_after(panel, event).show_colors
            == on,
        !(event is ToggleColors) ==> panel_after(panel, event).show_colors == panel.show_colors,
        event matches TemplateEvent::ToggleCollapse(idx) ==> r == TemplateEffect::ToggleCollapse(
            idx,
        ),
        event matches TemplateEvent::ExpandArray { array_id: a, count: c } ==> r == (
        TemplateEffect::ExpandArray { array_id: a, count: c }),
        event is Close || event is Hover || event is ToggleColors ==> r is Nothing,
{
}

/// Copying a node in a format for bytes takes exactly the bytes of its span; saving it
/// takes the same, under a name made of its own. A format for source text gives the
/// node's declaration.
pub proof fn law_copied_node_is_its_bytes(
    panel: TemplatePanel,
    bytes: Seq<u8>,
    idx: usize,
    kind: CopyKind,
    copied: TemplateEffect,
    saved: TemplateEffect,
)
    requires
        idx < panel.nodes@.len(),
        bytes.len() < u64::MAX,
        event_leaves(panel, bytes, TemplateEvent::Copy { idx, kind }, copied),
        event_leaves(panel, bytes, TemplateEvent::SaveBytes(idx), saved),
    ensures
        ({
            let node = panel.nodes@[idx as int];
            let fits = node.span.offset + node.span.length <= bytes.len();
            &&& fits ==> (saved matches TemplateEffect::SaveBytes { name, bytes: b } && name@
                == node.ident@ + ".bin"@ && b@.len() == node.span.length && forall|i: int|
                0 <= i < b@.len() ==> #[trigger] b@[i] == bytes[node.span.offset + i])
            &&& !fits ==> saved is Nothing
            &&& kind is StructRust || kind is StructC ==> match declaration(
                panel.nodes@,
                idx as int,
                kind,
            ) {
                Some(text) => copied matches TemplateEffect::CopyText(t) && t@ == text,
                None => copied is Nothing,
            }
            &&& !(kind is StructRust || kind is StructC || kind is Value) && fits ==> (
            copied matches TemplateEffect::Copy(
                CopyRequest::Bytes { kind: k, bytes: b, ident, type_hint },
            ) && k == kind && b@.len() == node.span.length && (forall|i: int|
                0 <= i < b@.len() ==> #[trigger] b@[i] == bytes[node.span.offset + i]) && ident@
                == node.name@ && type_hint@ == node.type_label@)
            &&& !(kind is StructRust || kind is StructC || kind is Value) && !fits ==> copied
                is Nothing
        }),
{
}

} // verus!
