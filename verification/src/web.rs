//! Files in the browser: they live in memory, and tabs that were closed can be
//! opened again.

use vstd::prelude::*;
use vstd::string::*;
use std::collections::VecDeque;
use crate::compare::{ComparePane, CompareSession};
use crate::closing::{active_without, files_without};
use crate::copy::read_selection;
#[allow(unused_imports)]
use crate::copy::selected_bytes;
#[allow(unused_imports)]
use crate::closing::redocked;
use crate::dock_ops::{close_tab, show_in_pane, show_page, LeafKind, SplitRequest, TOOL_PANE_KEEP};
#[allow(unused_imports)]
use crate::dock_ops::{
    asks_root_split, closed, find_leaf_spec, page_shown, pane_shown,
};
use crate::commands::DockDir;
#[allow(unused_imports)]
use crate::dock::{law_push_adds_tab, DockView};
use crate::editor::{clamp_offset, copy_bytes, snapshot_inspector_bytes, Selection};
#[allow(unused_imports)]
use crate::editor::{clamped, inspector_window, HexEditor};
use crate::opening::{create_open_file, place_file, OpenRequest};
#[allow(unused_imports)]
use crate::opening::{file_made, file_placed};
use crate::session::{find_file, find_workspace, HxyApp, OpenFile};
#[allow(unused_imports)]
use crate::session::{dock_changed, file_at, opened_in_leaf, workspace_at};
use crate::source::{entry_name, TabSource};
#[allow(unused_imports)]
use crate::source::{leaf_name, SourceView};
use crate::tabs::{is_web_tool_tab, CompareId, DockTab, FileId, Tab, WorkspaceId, WorkspaceTab};
#[allow(unused_imports)]
use crate::tabs::web_tool_tab;
use crate::text::{numbered, parse_dec, push_char, push_hex_padded};
#[allow(unused_imports)]
use crate::text::{dec, digits, law_dec_read_back, parsed_dec, zero_padded};
use crate::web_rows::WebContext;
#[allow(unused_imports)]
use crate::hexview::has_selection;
use crate::hexview::selection_nonempty;

verus! {

/// A tab that was closed.
pub struct ClosedTab {
    pub name: String,
    pub bytes: Vec<u8>,
    pub selection: Option<Selection>,
    pub scroll: u64,
}

/// How many closed tabs are kept.
pub const CLOSED_TABS_CAPACITY: usize = 32;

/// The tabs that were closed, the last one at the end.
pub struct ClosedTabs {
    pub tabs: VecDeque<ClosedTab>,
}

/// Closed tabs after one more was closed: the oldest makes room where there are
/// too many.
pub open spec fn closed_more(tabs: Seq<ClosedTab>, tab: ClosedTab) -> Seq<ClosedTab> {
    if tabs.len() >= CLOSED_TABS_CAPACITY {
        tabs.drop_first().push(tab)
    } else {
        tabs.push(tab)
    }
}

impl ClosedTabs {
    /// There are never more than can be kept.
    pub open spec fn wf(&self) -> bool {
        self.tabs@.len() <= CLOSED_TABS_CAPACITY
    }

    /// Nothing was closed yet.
    pub fn new() -> (r: ClosedTabs)
        ensures
            r.wf(),
            r.tabs@.len() == 0,
    {
        ClosedTabs { tabs: VecDeque::with_capacity(CLOSED_TABS_CAPACITY) }
    }

    /// Keeps a tab that was closed.
    pub fn keep(&mut self, tab: ClosedTab)
        requires
            old(self).wf(),
        ensures
            final(self).wf(),
            final(self).tabs@ == closed_more(old(self).tabs@, tab),
    {
        if self.tabs.len() >= CLOSED_TABS_CAPACITY {
            let _ = self.tabs.pop_front();
            assert(self.tabs@ =~= old(self).tabs@.drop_first());
        }
        self.tabs.push_back(tab);
    }
}

/// Whether bytes were opened as a file in a tab of its own. The welcome page
/// goes, and the file is the active one.
pub open spec fn bytes_opened(
    before: HxyApp,
    name: String,
    bytes: Vec<u8>,
    handler: Option<String>,
    id: FileId,
    after: HxyApp,
) -> bool {
    let req = OpenRequest {
        display_name: name,
        source: None,
        bytes,
        selection: None,
        scroll: None,
        handler,
        suggested_template: None,
        parent_dir: None,
        loading: false,
    };
    &&& id == FileId(before.next_file_id)
    &&& after == (HxyApp {
        next_file_id: (before.next_file_id + 1) as u64,
        files: after.files,
        dock: after.dock,
        last_active_file: Some(id),
        ..before
    })
    &&& after.files@.len() == before.files@.len() + 1
    &&& after.files@.drop_last() == before.files@
    &&& file_made(req, id, false, after.files@.last())
    &&& after.dock@ == closed(
        before.dock@.pushed(DockTab::Outer(Tab::File(id))),
        DockTab::Outer(Tab::Welcome),
    )
    &&& after.dock@.holds(DockTab::Outer(Tab::File(id)))
}

impl HxyApp {
    /// Opens bytes as a file. `handler` tells what can mount them, found by
    /// their first part.
    pub fn open_bytes_wasm(&mut self, name: String, bytes: Vec<u8>, handler: Option<String>) -> (r:
        FileId)
        requires
            old(self).wf(),
            old(self).next_file_id < u64::MAX,
        ensures
            final(self).wf(),
            bytes_opened(*old(self), name, bytes, handler, r, *final(self)),
    {
        let req = OpenRequest {
            display_name: name,
            source: None,
            bytes,
            selection: None,
            scroll: None,
            handler,
            suggested_template: None,
            parent_dir: None,
            loading: false,
        };
        let id = create_open_file(self, req);
        proof {
            law_push_adds_tab(self.dock@, DockTab::Outer(Tab::File(id)));
        }
        self.dock.push_to_focused_leaf(DockTab::Outer(Tab::File(id)));
        close_tab(&mut self.dock, DockTab::Outer(Tab::Welcome));
        self.last_active_file = Some(id);
        id
    }
}

/// Whether a closed tab keeps a file as it was.
pub open spec fn keeps_file(tab: ClosedTab, file: OpenFile) -> bool {
    &&& tab.name@ == file.display_name@
    &&& tab.bytes@ == file.editor.bytes@
    &&& tab.selection == file.editor.selection
    &&& tab.scroll == file.scroll
}

/// Whether a file's tab was closed and kept. A file that is not open is left
/// alone.
pub open spec fn web_closed(
    before: HxyApp,
    kept: Seq<ClosedTab>,
    id: FileId,
    after: HxyApp,
    now_kept: Seq<ClosedTab>,
) -> bool {
    match file_at(before.files@, id) {
        Some(i) => {
            &&& now_kept.len() > 0
            &&& now_kept == closed_more(kept, now_kept.last())
            &&& keeps_file(now_kept.last(), before.files@[i])
            &&& after == (HxyApp {
                dock: after.dock,
                files: after.files,
                last_active_file: active_without(before.last_active_file, id),
                ..before
            })
            &&& after.dock@ == closed(before.dock@, DockTab::Outer(Tab::File(id)))
            &&& after.files@ == files_without(before.files@, id)
        },
        None => after == before && now_kept == kept,
    }
}

/// Closes a file's tab and keeps it to be opened again.
pub fn close_file_tab_wasm(app: &mut HxyApp, kept: &mut ClosedTabs, id: FileId)
    requires
        old(app).wf(),
        old(kept).wf(),
    ensures
        final(app).wf(),
        final(kept).wf(),
        web_closed(*old(app), old(kept).tabs@, id, *final(app), final(kept).tabs@),
{
    let i: usize = match find_file(&app.files, id) {
        Some(i) => i,
        None => {
            return;
        },
    };
    let tab = ClosedTab {
        name: app.files[i].display_name.clone(),
        bytes: copy_bytes(&app.files[i].editor.bytes),
        selection: app.files[i].editor.selection,
        scroll: app.files[i].scroll,
    };
    kept.keep(tab);
    assert(kept.tabs@.last() == tab);
    close_tab(&mut app.dock, DockTab::Outer(Tab::File(id)));
    let _ = app.files.remove(i);
    if app.last_active_file == Some(id) {
        app.last_active_file = None;
    }
}

/// Whether the tab that was closed last came back, as a file of a new number.
pub open spec fn web_reopened(
    before: HxyApp,
    kept: Seq<ClosedTab>,
    handler: Option<String>,
    after: HxyApp,
    now_kept: Seq<ClosedTab>,
) -> bool {
    if kept.len() == 0 {
        after == before && now_kept == kept
    } else {
        &&& now_kept == kept.drop_last()
        &&& exists|mid: HxyApp|
            {
                &&& #[trigger] bytes_opened(
                    before,
                    kept.last().name,
                    kept.last().bytes,
                    handler,
                    FileId(before.next_file_id),
                    mid,
                )
                &&& after == (HxyApp { files: after.files, ..mid })
                &&& after.files@.len() == mid.files@.len()
                &&& after.files@.drop_last() == mid.files@.drop_last()
                &&& after.files@.last() == (OpenFile {
                    editor: HexEditor {
                        selection: kept.last().selection,
                        ..mid.files@.last().editor
                    },
                    scroll: kept.last().scroll,
                    ..mid.files@.last()
                })
            }
    }
}

/// Opens the tab again that was closed last. `handler` tells what can mount its
/// bytes.
pub fn reopen_last_closed_wasm(app: &mut HxyApp, kept: &mut ClosedTabs, handler: Option<String>)
    requires
        old(app).wf(),
        old(kept).wf(),
        old(app).next_file_id < u64::MAX,
    ensures
        final(app).wf(),
        final(kept).wf(),
        web_reopened(*old(app), old(kept).tabs@, handler, *final(app), final(kept).tabs@),
{
    let tab = match kept.tabs.pop_back() {
        Some(tab) => tab,
        None => {
            return;
        },
    };
    assert(kept.tabs@ =~= old(kept).tabs@.drop_last());
    assert(tab == old(kept).tabs@.last());
    let _ = app.open_bytes_wasm(tab.name, tab.bytes, handler);
    let ghost mid = *app;
    let n: usize = app.files.len() - 1;
    app.files[n].editor.selection = tab.selection;
    app.files[n].scroll = tab.scroll;
    assert(app.files@ =~= mid.files@.update(n as int, app.files@[n as int]));
    assert(app.files@.drop_last() =~= mid.files@.drop_last());
    assert(bytes_opened(
        *old(app),
        old(kept).tabs@.last().name,
        old(kept).tabs@.last().bytes,
        handler,
        FileId(old(app).next_file_id),
        mid,
    ));
}

/// A tab that was closed and opened again shows what it showed, as a file of a
/// number that no file had, and the tabs that were closed earlier are still there,
/// but for one that had to make room.
pub proof fn law_reopened_as_closed(
    before: HxyApp,
    kept: Seq<ClosedTab>,
    id: FileId,
    mid: HxyApp,
    mid_kept: Seq<ClosedTab>,
    handler: Option<String>,
    after: HxyApp,
    now_kept: Seq<ClosedTab>,
)
    requires
        before.wf(),
        kept.len() <= CLOSED_TABS_CAPACITY,
        web_closed(before, kept, id, mid, mid_kept),
        web_reopened(mid, mid_kept, handler, after, now_kept),
        file_at(before.files@, id) is Some,
    ensures
        after.files@.len() == before.files@.len(),
        after.files@.last().id == FileId(before.next_file_id),
        forall|i: int|
            0 <= i < before.files@.len() ==> (#[trigger] before.files@[i]).id
                != after.files@.last().id,
        after.dock@.holds(DockTab::Outer(Tab::File(after.files@.last().id))),
        mid_kept.len() <= CLOSED_TABS_CAPACITY,
        now_kept.len() <= CLOSED_TABS_CAPACITY,
        after.files@.last().display_name@ == before.files@[file_at(
            before.files@,
            id,
        )->0].display_name@,
        after.files@.last().editor.bytes@ == before.files@[file_at(
            before.files@,
            id,
        )->0].editor.bytes@,
        after.files@.last().editor.selection == before.files@[file_at(
            before.files@,
            id,
        )->0].editor.selection,
        after.files@.last().scroll == before.files@[file_at(before.files@, id)->0].scroll,
        kept.len() < CLOSED_TABS_CAPACITY ==> now_kept == kept,
        kept.len() == CLOSED_TABS_CAPACITY ==> now_kept == kept.drop_first(),
{
    crate::closing::lemma_file_at_found(before.files@, id);
    if kept.len() < CLOSED_TABS_CAPACITY {
        assert(kept.push(mid_kept.last()).drop_last() =~= kept);
    } else {
        assert(kept.drop_first().push(mid_kept.last()).drop_last() =~= kept.drop_first());
    }
}

/// Place of the file that was last focused.
pub open spec fn last_place(app: HxyApp) -> Option<int> {
    match app.last_active_file {
        Some(id) => file_at(app.files@, id),
        None => None,
    }
}

/// Finds the file that was last focused.
pub fn find_last(app: &HxyApp) -> (r: Option<usize>)
    ensures
        match (last_place(*app), r) {
            (Some(a), Some(b)) => a == b && b < app.files@.len() && app.last_active_file == Some(
                app.files@[b as int].id,
            ),
            (None, None) => true,
            _ => false,
        },
{
    match app.last_active_file {
        Some(id) => find_file(&app.files, id),
        None => None,
    }
}

/// A byte as two hexadecimal digits.
pub open spec fn hex_byte(b: u8) -> Seq<char> {
    zero_padded(digits(b as nat, 16, true), 2)
}

/// Bytes as hexadecimal digits, divided by spaces.
pub open spec fn hex_spaced(bytes: Seq<u8>) -> Seq<char>
    decreases bytes.len(),
{
    if bytes.len() == 0 {
        seq![]
    } else if bytes.len() == 1 {
        hex_byte(bytes[0])
    } else {
        hex_spaced(bytes.drop_last()).push(' ') + hex_byte(bytes.last())
    }
}

/// Writes bytes as hexadecimal digits, divided by spaces.
pub fn spaced_hex(bytes: &Vec<u8>) -> (r: String)
    ensures
        r@ == hex_spaced(bytes@),
{
    let mut out = String::new();
    let mut i: usize = 0;
    assert(out@ =~= hex_spaced(bytes@.take(0)));
    while i < bytes.len()
        invariant
            i <= bytes@.len(),
            out@ == hex_spaced(bytes@.take(i as int)),
        decreases bytes@.len() - i,
    {
        assert(bytes@.take(i + 1).drop_last() =~= bytes@.take(i as int));
        if i > 0 {
            push_char(&mut out, ' ');
        }
        push_hex_padded(&mut out, bytes[i] as u64, 2, true);
        assert(out@ =~= hex_spaced(bytes@.take(i + 1)));
        i = i + 1;
    }
    assert(bytes@.take(i as int) =~= bytes@);
    out
}

/// The text that `String::from_utf8_lossy` reads bytes as.
pub uninterp spec fn lossy_text(bytes: Seq<u8>) -> Seq<char>;

/// `String::from_utf8_lossy`: reads bytes as text, with a mark in place of what
/// is none. How many marks stand for what carries a name.
#[verifier::external_body]
fn read_lossy(bytes: &Vec<u8>) -> (r: String)
    ensures
        r@ == lossy_text(bytes@),
{
    String::from_utf8_lossy(bytes).into_owned()
}

/// The bytes that are selected in the file that was last focused, if there are
/// any.
pub open spec fn last_selected(app: HxyApp) -> Option<Seq<u8>> {
    match last_place(app) {
        Some(i) => match app.files@[i].editor.selection {
            Some(sel) => if sel.spec_len() > 0 {
                selected_bytes(app.files@[i].editor, sel)
            } else {
                None
            },
            None => None,
        },
        None => None,
    }
}

/// Whether text is what is selected, to be copied.
pub open spec fn selection_copied(
    app: HxyApp,
    as_hex: bool,
    r: Option<String>,
) -> bool {
    &&& match (last_selected(app), r) {
        (Some(bytes), Some(text)) => text@ == if as_hex {
            hex_spaced(bytes)
        } else {
            lossy_text(bytes)
        },
        (None, None) => true,
        _ => false,
    }
}

/// Reads what is selected as text to copy: as hexadecimal digits or as the text
/// that it is.
pub fn copy_active_selection_wasm(app: &HxyApp, as_hex: bool) -> (r: Option<String>)
    ensures
        selection_copied(*app, as_hex, r),
{
    let i: usize = match find_last(app) {
        Some(i) => i,
        None => {
            return None;
        },
    };
    if !selection_nonempty(app.files[i].editor.selection) {
        return None;
    }
    match read_selection(&app.files[i].editor) {
        Some(bytes) => if as_hex {
            Some(spaced_hex(&bytes))
        } else {
            Some(read_lossy(&bytes))
        },
        None => None,
    }
}

/// Whether a pair is name and bytes of the file that was last focused.
pub open spec fn file_downloaded(
    app: HxyApp,
    r: Option<(String, Vec<u8>)>,
) -> bool {
    &&& match (last_place(app), r) {
        (Some(i), Some(pair)) => pair.0@ == app.files@[i].display_name@ && pair.1@
            == app.files@[i].editor.bytes@,
        (None, None) => true,
        _ => false,
    }
}

/// Name and bytes of the file that was last focused, to be downloaded.
pub fn active_file_bytes_wasm(app: &HxyApp) -> (r: Option<(String, Vec<u8>)>)
    ensures
        file_downloaded(*app, r),
{
    match find_last(app) {
        Some(i) => Some(
            (app.files[i].display_name.clone(), copy_bytes(&app.files[i].editor.bytes)),
        ),
        None => None,
    }
}

/// A dock after a tab was asked for: where it is open it is focused, a tool or
/// the console goes into the pane of the tools, and anything else beside what is
/// focused.
pub open spec fn web_shown(v: DockView, tab: Tab) -> DockView {
    if web_tool_tab(tab) {
        pane_shown(v, LeafKind::WebTool, tab)
    } else {
        page_shown(v, tab)
    }
}

/// Whether a tab was shown. A tool without a pane asks for one.
pub open spec fn tab_came(before: HxyApp, tab: Tab, split: Option<SplitRequest>, after: HxyApp)
    -> bool {
    &&& redocked(before, web_shown(before.dock@, tab), after)
    &&& split is Some <==> web_tool_tab(tab) && !before.dock@.holds(DockTab::Outer(tab))
        && find_leaf_spec(before.dock@, LeafKind::WebTool) is None
    &&& split matches Some(s) ==> asks_root_split(
        s,
        DockDir::Right,
        TOOL_PANE_KEEP,
        DockTab::Outer(tab),
    )
}

/// Shows a tab.
pub fn toggle_tab_wasm(app: &mut HxyApp, tab: Tab) -> (r: Option<SplitRequest>)
    requires
        old(app).wf(),
    ensures
        final(app).wf(),
        tab_came(*old(app), tab, r, *final(app)),
{
    if is_web_tool_tab(&tab) {
        show_in_pane(&mut app.dock, LeafKind::WebTool, tab)
    } else {
        show_page(&mut app.dock, tab);
        None
    }
}

/// Whether it was taken over that a tab is drawn.
pub open spec fn drawing_noted(
    before: HxyApp,
    tab: Tab,
    after: HxyApp,
) -> bool {
    &&& after == (HxyApp {
        last_active_file: match tab {
            Tab::File(id) => if file_at(before.files@, id) is Some {
                Some(id)
            } else {
                before.last_active_file
            },
            _ => before.last_active_file,
        },
        ..before
    })
}

/// Takes over that a tab is drawn: a file that is drawn is the one that was last
/// focused.
pub fn note_drawn_wasm(app: &mut HxyApp, tab: Tab)
    requires
        old(app).wf(),
    ensures
        final(app).wf(),
        drawing_noted(*old(app), tab, *final(app)),
{
    if let Tab::File(id) = tab {
        if find_file(&app.files, id).is_some() {
            app.last_active_file = Some(id);
        }
    }
}

/// The range that a tool works on: the one that was chosen, or the whole file
/// where none was.
pub open spec fn range_or_all(chosen: (u64, u64), len: u64) -> (u64, u64) {
    if chosen.0 >= chosen.1 {
        (0, len)
    } else {
        chosen
    }
}

/// Settles the range that a tool works on.
pub fn tool_range(chosen: (u64, u64), len: u64) -> (r: (u64, u64))
    ensures
        r == range_or_all(chosen, len),
{
    if chosen.0 >= chosen.1 {
        (0, len)
    } else {
        chosen
    }
}

/// A computation of a tool and what it last gave.
pub struct ToolRun<T> {
    pub running: bool,
    pub result: Option<T>,
}

/// The last result among outcomes, or the one that was there before.
pub open spec fn latest<T>(before: Option<T>, outcomes: Seq<Result<T, String>>) -> Option<T>
    decreases outcomes.len(),
{
    if outcomes.len() == 0 {
        before
    } else {
        match outcomes.last() {
            Ok(v) => Some(v),
            Err(_) => latest(before, outcomes.drop_last()),
        }
    }
}

/// Takes in what a computation gave. An error leaves the last result.
pub fn drain_panel_run<T>(run: &mut ToolRun<T>, outcomes: Vec<Result<T, String>>)
    ensures
        if old(run).running && outcomes@.len() > 0 {
            !final(run).running && final(run).result == latest(old(run).result, outcomes@)
        } else {
            *final(run) == *old(run)
        },
{
    if !run.running || outcomes.len() == 0 {
        return;
    }
    run.running = false;
    let ghost all = outcomes@;
    let ghost first = run.result;
    let ghost mut done: int = 0;
    let mut rest = outcomes;
    assert(rest@ =~= all.skip(0));
    assert(all.take(0) =~= seq![]);
    while rest.len() > 0
        invariant
            0 <= done <= all.len(),
            rest@ == all.skip(done),
            !run.running,
            run.result == latest(first, all.take(done)),
        decreases rest.len(),
    {
        assert(all.take(done + 1).drop_last() =~= all.take(done));
        let outcome = rest.remove(0);
        assert(outcome == all[done]);
        if let Ok(v) = outcome {
            run.result = Some(v);
        }
        proof {
            done = done + 1;
        }
        assert(rest@ =~= all.skip(done));
    }
    assert(all.take(done) =~= all);
}

/// What stands in front of the number of a file in memory.
pub const MEMORY_PREFIX: &'static str = "/__memory__/";

/// The path that stands for a file in memory.
pub open spec fn memory_path_of(id: FileId) -> Seq<char> {
    MEMORY_PREFIX@ + dec(id.0 as nat)
}

/// Names a file in memory by a path.
pub fn memory_path(id: FileId) -> (r: String)
    ensures
        r@ == memory_path_of(id),
{
    numbered(MEMORY_PREFIX, id.0)
}

/// The file in memory that a path stands for.
pub open spec fn memory_file(path: Seq<char>) -> Option<FileId> {
    let n = MEMORY_PREFIX@.len() as int;
    if path.len() >= n && path.take(n) == MEMORY_PREFIX@ {
        match parsed_dec(path.skip(n)) {
            Some(id) => Some(FileId(id)),
            None => None,
        }
    } else {
        None
    }
}

/// A file in memory is found by the path that stands for it.
pub proof fn law_memory_path_found(id: FileId)
    ensures
        memory_file(memory_path_of(id)) == Some(id),
{
    let n = MEMORY_PREFIX@.len() as int;
    let path = memory_path_of(id);
    assert(path.take(n) =~= MEMORY_PREFIX@);
    assert(path.skip(n) =~= dec(id.0 as nat));
    law_dec_read_back(id.0);
}

fn read_memory_path(path: &str) -> (r: Option<FileId>)
    ensures
        r == memory_file(path@),
{
    let n: usize = MEMORY_PREFIX.unicode_len();
    let len: usize = path.unicode_len();
    if len < n {
        return None;
    }
    let front = path.substring_char(0, n);
    assert(front@ =~= path@.take(n as int));
    if !crate::text::text_eq(front, MEMORY_PREFIX) {
        return None;
    }
    let rest = path.substring_char(n, len);
    assert(rest@ =~= path@.skip(n as int));
    match parse_dec(rest) {
        Some(id) => Some(FileId(id)),
        None => None,
    }
}

/// Place of the file that a source stands for: a path that names a file in
/// memory, and nothing else.
pub open spec fn side_place(app: HxyApp, source: SourceView) -> Option<int> {
    match source {
        SourceView::Filesystem(path) => match memory_file(path) {
            Some(id) => file_at(app.files@, id),
            None => None,
        },
        _ => None,
    }
}

/// Whether a side of a comparison is a file as it is.
pub open spec fn side_is(side: (String, Vec<u8>), file: OpenFile) -> bool {
    side.0@ == file.display_name@ && side.1@ == file.editor.bytes@
}

/// Whether a pair is name and bytes of one side of a comparison.
pub open spec fn side_read(
    app: HxyApp,
    source: SourceView,
    r: Option<(String, Vec<u8>)>,
) -> bool {
    &&& match (side_place(app, source), r) {
        (Some(i), Some(side)) => side_is(side, app.files@[i]),
        (None, None) => true,
        _ => false,
    }
}

/// Name and bytes of one side of a comparison.
pub fn read_compare_side_wasm(app: &HxyApp, source: &TabSource) -> (r: Option<(String, Vec<u8>)>)
    ensures
        side_read(*app, source@, r),
{
    let id = match source {
        TabSource::Filesystem(path) => match read_memory_path(path.as_str()) {
            Some(id) => id,
            None => {
                return None;
            },
        },
        _ => {
            return None;
        },
    };
    match find_file(&app.files, id) {
        Some(i) => Some(
            (app.files[i].display_name.clone(), copy_bytes(&app.files[i].editor.bytes)),
        ),
        None => None,
    }
}

/// Whether a pane of a comparison shows a file as it is, and tells by what it was
/// asked for.
pub open spec fn pane_is(pane: ComparePane, source: TabSource, file: OpenFile) -> bool {
    pane.source == source && side_is((pane.name, pane.bytes), file)
}

/// Whether a comparison was started in a tab of its own: where both files are
/// there, and not otherwise.
pub open spec fn web_compared(
    before: HxyApp,
    a: TabSource,
    b: TabSource,
    r: Option<CompareSession>,
    after: HxyApp,
) -> bool {
    match (side_place(before, a@), side_place(before, b@)) {
        (Some(i), Some(j)) => {
            let tab = DockTab::Outer(Tab::Compare(CompareId(before.next_compare_id)));
            &&& r matches Some(c) && c.id == CompareId(before.next_compare_id) && pane_is(
                c.first,
                a,
                before.files@[i],
            ) && pane_is(c.second, b, before.files@[j])
            &&& redocked(
                HxyApp { next_compare_id: (before.next_compare_id + 1) as u64, ..before },
                opened_in_leaf(before.dock@.pushed(tab), tab),
                after,
            )
        },
        _ => r is None && after == before,
    }
}

/// Starts a comparison.
pub fn spawn_compare_wasm(app: &mut HxyApp, a: TabSource, b: TabSource) -> (r: Option<
    CompareSession,
>)
    requires
        old(app).wf(),
        old(app).next_compare_id < u64::MAX,
    ensures
        final(app).wf(),
        web_compared(*old(app), a, b, r, *final(app)),
{
    let first = match read_compare_side_wasm(app, &a) {
        Some(side) => side,
        None => {
            return None;
        },
    };
    let second = match read_compare_side_wasm(app, &b) {
        Some(side) => side,
        None => {
            return None;
        },
    };
    let id = CompareId(app.next_compare_id);
    app.next_compare_id = app.next_compare_id + 1;
    let tab = DockTab::Outer(Tab::Compare(id));
    app.dock.push_to_focused_leaf(tab);
    if let Some(at) = app.dock.find_tab(&tab) {
        app.dock.set_active_tab(at);
    }
    Some(
        CompareSession {
            id,
            first: ComparePane { source: a, name: first.0, bytes: first.1 },
            second: ComparePane { source: b, name: second.0, bytes: second.1 },
        },
    )
}

/// Whether an entry of an archive was opened in the workspace that shows the
/// archive.
pub open spec fn web_entry_opened(
    before: HxyApp,
    workspace_id: WorkspaceId,
    entry_path: Seq<char>,
    read: Option<Vec<u8>>,
    after: HxyApp,
) -> bool {
    match (workspace_at(before.workspaces@, workspace_id), read) {
        (Some(w), Some(bytes)) => {
            let id = FileId(before.next_file_id);
            &&& after == (HxyApp {
                next_file_id: (before.next_file_id + 1) as u64,
                files: after.files,
                workspaces: after.workspaces,
                last_active_file: Some(id),
                ..before
            })
            &&& after.files@.len() == before.files@.len() + 1
            &&& after.files@.drop_last() == before.files@
            &&& entry_file(entry_path, bytes, id, after.files@.last())
            &&& dock_changed(
                before.workspaces@,
                w,
                before.workspaces@[w].dock@.pushed(DockTab::Inner(WorkspaceTab::Entry(id))),
                after.workspaces@,
            )
        },
        _ => after == before,
    }
}

/// Whether a file holds an entry's bytes under the last part of its path.
pub open spec fn entry_file(entry_path: Seq<char>, bytes: Vec<u8>, id: FileId, f: OpenFile)
    -> bool {
    exists|req: OpenRequest|
        {
            &&& #[trigger] file_made(req, id, false, f)
            &&& req.display_name@ == leaf_name(entry_path)
            &&& req.source is None
            &&& req.bytes == bytes
            &&& req.selection is None
            &&& req.scroll is None
            &&& req.handler is None
            &&& req.suggested_template is None
            &&& !req.loading
        }
}

/// Opens an entry of an archive. `read` is what was read of it, nothing where
/// that failed.
pub fn open_vfs_entry_wasm(
    app: &mut HxyApp,
    workspace_id: WorkspaceId,
    entry_path: &String,
    read: Option<Vec<u8>>,
)
    requires
        old(app).wf(),
        old(app).next_file_id < u64::MAX,
    ensures
        final(app).wf(),
        web_entry_opened(*old(app), workspace_id, entry_path@, read, *final(app)),
{
    let w: usize = match find_workspace(&app.workspaces, workspace_id) {
        Some(w) => w,
        None => {
            return;
        },
    };
    let bytes = match read {
        Some(bytes) => bytes,
        None => {
            return;
        },
    };
    let req = OpenRequest {
        display_name: entry_name(entry_path.as_str()),
        source: None,
        bytes,
        selection: None,
        scroll: None,
        handler: None,
        suggested_template: None,
        parent_dir: None,
        loading: false,
    };
    let ghost asked = req;
    let id = create_open_file(app, req);
    assert(file_made(asked, id, false, app.files@.last()));
    app.workspaces[w].dock.push_to_focused_leaf(DockTab::Inner(WorkspaceTab::Entry(id)));
    assert(app.workspaces@ =~= old(app).workspaces@.update(w as int, app.workspaces@[w as int]));
    app.last_active_file = Some(id);
}

/// The selection from an offset up to an end, kept inside the file.
pub open spec fn jump_selection(offset: u64, end: u64, len: nat) -> Option<Selection> {
    if len == 0 {
        None
    } else {
        Some(
            Selection {
                anchor: clamped(offset, len),
                cursor: clamped(
                    if end == 0 {
                        0
                    } else {
                        (end - 1) as u64
                    },
                    len,
                ),
            },
        )
    }
}

/// A jump stays inside the file, and selects what was asked for where that is.
pub proof fn law_jump_in_bounds(offset: u64, end: u64, len: nat)
    ensures
        jump_selection(offset, end, len) matches Some(sel) ==> sel.anchor < len && sel.cursor < len
            && (offset < end && end <= len ==> sel.anchor == offset && sel.cursor == end - 1),
{
}

/// Whether a file's selection was replaced.
pub open spec fn reselected_at(before: HxyApp, i: int, sel: Selection, after: HxyApp) -> bool {
    crate::active::file_replaced(before, i, after) && after.files@[i] == crate::active::reselected(
        before.files@[i],
        Some(sel),
    )
}

/// Whether a place that was found in a file was selected.
pub open spec fn place_jumped_to(
    before: HxyApp,
    id: FileId,
    offset: u64,
    end: u64,
    r: Option<u64>,
    after: HxyApp,
) -> bool {
    &&& match file_at(before.files@, id) {
        Some(i) => match jump_selection(offset, end, before.files@[i].editor.bytes@.len()) {
            Some(sel) => r == Some(sel.anchor) && reselected_at(
                before,
                i,
                sel,
                after,
            ),
            None => r is None && after == before,
        },
        None => r is None && after == before,
    }
}

/// Selects a place that was found in a file. Tells the offset to bring into
/// view.
pub fn jump_to_offset_wasm(app: &mut HxyApp, id: FileId, offset: u64, end: u64) -> (r: Option<u64>)
    requires
        old(app).wf(),
    ensures
        final(app).wf(),
        place_jumped_to(*old(app), id, offset, end, r, *final(app)),
{
    let i: usize = match find_file(&app.files, id) {
        Some(i) => i,
        None => {
            return None;
        },
    };
    let len: u64 = app.files[i].editor.source_len();
    if len == 0 {
        return None;
    }
    let last: u64 = if end == 0 {
        0
    } else {
        end - 1
    };
    let anchor: u64 = clamp_offset(offset, len);
    let cursor: u64 = clamp_offset(last, len);
    app.files[i].editor.selection = Some(Selection { anchor, cursor });
    assert(app.files@ =~= old(app).files@.update(i as int, app.files@[i as int]));
    Some(anchor)
}

/// Whether a pair is the caret of a file and the bytes that the inspector shows.
pub open spec fn window_shown(
    file: OpenFile,
    r: Option<(u64, Vec<u8>)>,
) -> bool {
    &&& match file.editor.selection {
        Some(sel) => if file.editor.bytes@.len() == 0 || sel.cursor > file.editor.bytes@.len() {
            r is None
        } else {
            r matches Some(pair) && pair.0 == sel.cursor && pair.1@ == inspector_window(
                file.editor.bytes@,
                sel.cursor as int,
            )
        },
        None => r is None,
    }
}

/// The caret and the bytes from it on that the inspector shows. A caret behind
/// the end shows nothing.
pub fn inspector_window_wasm(file: &OpenFile) -> (r: Option<(u64, Vec<u8>)>)
    ensures
        window_shown(*file, r),
{
    let len: u64 = file.editor.source_len();
    match file.editor.selection {
        Some(sel) => if len == 0 || sel.cursor > len {
            None
        } else {
            snapshot_inspector_bytes(&file.editor)
        },
        None => None,
    }
}

/// The name of a file that was dropped: a made-up one where it came without.
pub fn dropped_name(name: String) -> (r: String)
    ensures
        r@ == if name@.len() == 0 {
            "dropped"@
        } else {
            name@
        },
{
    if name.as_str().unicode_len() == 0 {
        "dropped".to_owned()
    } else {
        name
    }
}

/// Queues a file to be opened.
pub fn push_open_request_wasm(queue: &mut Vec<(String, Vec<u8>)>, name: String, bytes: Vec<u8>)
    ensures
        final(queue)@ == old(queue)@.push((name, bytes)),
{
    queue.push((name, bytes));
}

/// Takes the files that are to be opened out of the queue.
pub fn drain_open_requests_wasm(queue: &mut Vec<(String, Vec<u8>)>) -> (r: Vec<(String, Vec<u8>)>)
    ensures
        r@ == old(queue)@,
        final(queue)@.len() == 0,
{
    let mut taken: Vec<(String, Vec<u8>)> = Vec::new();
    std::mem::swap(queue, &mut taken);
    taken
}

/// Whether a mounted file moved from its tab into a workspace of its own.
pub open spec fn web_browsed(
    before: HxyApp,
    id: FileId,
    mounted: Option<bool>,
    r: Option<(WorkspaceId, SplitRequest)>,
    after: HxyApp,
) -> bool {
    if browsable(before, id) && mounted is Some {
        exists|mid: HxyApp| #[trigger]
            file_placed(before, id, mounted, r, mid) && redocked(
                mid,
                closed(mid.dock@, DockTab::Outer(Tab::File(id))),
                after,
            )
    } else {
        r is None && after == before
    }
}

/// Whether something can mount a file.
pub open spec fn browsable(app: HxyApp, id: FileId) -> bool {
    file_at(app.files@, id) matches Some(i) && app.files@[i].handler is Some
}

/// Shows a file that was mounted as a workspace. `mounted` tells whether its
/// entries can be written; nothing where mounting failed.
pub fn finish_browse_wasm(app: &mut HxyApp, id: FileId, mounted: Option<bool>) -> (r: Option<
    (WorkspaceId, SplitRequest),
>)
    requires
        old(app).wf(),
        old(app).next_workspace_id < u64::MAX,
    ensures
        final(app).wf(),
        web_browsed(*old(app), id, mounted, r, *final(app)),
{
    let can = match find_file(&app.files, id) {
        Some(i) => app.files[i].handler.is_some(),
        None => false,
    };
    if !can || mounted.is_none() {
        return None;
    }
    let r = place_file(app, id, mounted);
    let ghost mid = *app;
    close_tab(&mut app.dock, DockTab::Outer(Tab::File(id)));
    assert(file_placed(*old(app), id, mounted, r, mid));
    r
}

/// What the palette's main list depends on.
pub open spec fn web_context_of(app: HxyApp, kept: Seq<ClosedTab>) -> WebContext {
    let place = last_place(app);
    WebContext {
        has_active: app.last_active_file is Some,
        has_closed: kept.len() > 0,
        has_selection: place matches Some(i) && has_selection(app.files@[i].editor.selection),
        virtual_base: match place {
            Some(i) => app.files@[i].virtual_base,
            None => None,
        },
        has_handler: place matches Some(i) && app.files@[i].handler is Some,
        has_workspaces: app.workspaces@.len() > 0,
        several_files: app.files@.len() >= 2,
    }
}

/// Tells what the palette's main list depends on.
pub fn web_context(app: &HxyApp, kept: &ClosedTabs) -> (r: WebContext)
    ensures
        r == web_context_of(*app, kept.tabs@),
{
    let place = find_last(app);
    WebContext {
        has_active: app.last_active_file.is_some(),
        has_closed: kept.tabs.len() > 0,
        has_selection: match place {
            Some(i) => selection_nonempty(app.files[i].editor.selection),
            None => false,
        },
        virtual_base: match place {
            Some(i) => app.files[i].virtual_base,
            None => None,
        },
        has_handler: match place {
            Some(i) => app.files[i].handler.is_some(),
            None => false,
        },
        has_workspaces: app.workspaces.len() > 0,
        several_files: app.files.len() >= 2,
    }
}

/// Bytes that are opened become a file at the end of the list, under their name, with a
/// number that no file had, not yet to be edited; it is the active one and has a tab.
/// Every file that was open stays as it was.
pub proof fn law_opened_bytes_become_active_file(
    before: HxyApp,
    name: String,
    bytes: Vec<u8>,
    handler: Option<String>,
    id: FileId,
    after: HxyApp,
    i: int,
)
    requires
        bytes_opened(before, name, bytes, handler, id, after),
    ensures
        ({
            let f = after.files@[before.files@.len() as int];
            &&& after.files@.len() == before.files@.len() + 1
            &&& f.display_name@ == name@ && f.editor.bytes@ == bytes@ && f.id == id && f.handler
                == handler
            &&& f.editor.selection is None && f.editor.edit_mode is Readonly && f.scroll == 0
                && f.source is None
        }),
        0 <= i < before.files@.len() ==> after.files@[i] == before.files@[i],
        id.0 == before.next_file_id,
        before.next_file_id < u64::MAX ==> after.next_file_id > id.0,
        after.last_active_file == Some(id),
        after.dock@.holds(DockTab::Outer(Tab::File(id))),
        after.workspaces == before.workspaces && after.settings == before.settings,
{
    if 0 <= i < before.files@.len() {
        assert(after.files@.drop_last()[i] == after.files@[i]);
    }
    assert(after.files@.last() == after.files@[before.files@.len() as int]);
}

/// A tab that is closed is the last one kept. The others stay in their order; where
/// thirty-two are kept already, the oldest goes.
pub proof fn law_closed_tab_is_kept_last(tabs: Seq<ClosedTab>, tab: ClosedTab, i: int)
    requires
        tabs.len() <= 32,
    ensures
        closed_more(tabs, tab).len() == (if tabs.len() < 32 {
            tabs.len() + 1
        } else {
            32
        }),
        closed_more(tabs, tab).last() == tab,
        tabs.len() < 32 && 0 <= i < tabs.len() ==> closed_more(tabs, tab)[i] == tabs[i],
        tabs.len() == 32 && 0 <= i < 31 ==> closed_more(tabs, tab)[i] == tabs[i + 1],
{
}

/// Closing a file's tab takes that file and no other, and keeps its name, its bytes,
/// what is selected and how far it is scrolled. A file that is not open changes nothing.
pub proof fn law_web_close_takes_one_file(
    before: HxyApp,
    kept: Seq<ClosedTab>,
    after: HxyApp,
    now_kept: Seq<ClosedTab>,
    id: FileId,
    i: int,
    j: int,
)
    requires
        before.wf(),
        web_closed(before, kept, id, after, now_kept),
    ensures
        (forall|k: int| 0 <= k < before.files@.len() ==> (#[trigger] before.files@[k]).id != id)
            ==> after == before && now_kept == kept,
        0 <= i < before.files@.len() && before.files@[i].id == id ==> {
            &&& now_kept.last().name@ == before.files@[i].display_name@
            &&& now_kept.last().bytes@ == before.files@[i].editor.bytes@
            &&& now_kept.last().selection == before.files@[i].editor.selection
            &&& now_kept.last().scroll == before.files@[i].scroll
            &&& after.files@.len() + 1 == before.files@.len()
            &&& 0 <= j < after.files@.len() ==> after.files@[j].id != id && before.files@.contains(
                after.files@[j],
            )
            &&& before.last_active_file == Some(id) ==> after.last_active_file is None
            &&& before.last_active_file != Some(id) ==> after.last_active_file
                == before.last_active_file
        },
{
    crate::session::law_file_of_id_is_found(before.files@, id);
    if 0 <= i < before.files@.len() && before.files@[i].id == id {
        let p = file_at(before.files@, id)->0;
        crate::session::lemma_file_at(before.files@, id, i);
        assert(p == i);
        if 0 <= j < after.files@.len() {
            let k = if j < i {
                j
            } else {
                j + 1
            };
            assert(after.files@[j] == before.files@[k]);
        }
    }
}

/// Two hexadecimal digits stand for a byte: the first for its sixteenth part, the
/// second for the rest.
pub proof fn law_byte_is_two_digits(b: u8)
    ensures
        hex_byte(b).len() == 2,
        hex_byte(b)[0] == (if b / 16 < 10 {
            (48 + b / 16) as char
        } else {
            (55 + b / 16) as char
        }),
        hex_byte(b)[1] == (if b % 16 < 10 {
            (48 + b % 16) as char
        } else {
            (55 + b % 16) as char
        }),
{
    let n = b as nat;
    reveal_with_fuel(digits, 3);
    if n < 16 {
        assert(digits(n, 16, true).len() == 1);
        assert(hex_byte(b) =~= seq!['0'] + digits(n, 16, true));
    } else {
        assert(n / 16 < 16);
        assert(digits(n, 16, true).len() == 2);
    }
}

/// Bytes are copied as the digits of each in its place, one space between two.
pub proof fn law_copied_digits_keep_order(bytes: Seq<u8>, k: int)
    requires
        0 <= k < bytes.len(),
    ensures
        hex_spaced(bytes).len() == 3 * bytes.len() - 1,
        hex_spaced(bytes)[3 * k] == hex_byte(bytes[k])[0],
        hex_spaced(bytes)[3 * k + 1] == hex_byte(bytes[k])[1],
        k + 1 < bytes.len() ==> hex_spaced(bytes)[3 * k + 2] == ' ',
    decreases bytes.len(),
{
    law_byte_is_two_digits(bytes.last());
    if bytes.len() > 1 {
        let init = bytes.drop_last();
        if k < init.len() {
            law_copied_digits_keep_order(init, k);
        } else {
            law_copied_digits_keep_order(init, 0);
        }
    }
}

/// What is copied is every byte that is selected and no other, as digits where that is
/// asked for; without a selection nothing is copied.
pub proof fn law_selected_bytes_are_copied(app: HxyApp, as_hex: bool, r: Option<String>, i: int, k: int)
    requires
        selection_copied(app, as_hex, r),
        last_place(app) == Some(i),
    ensures
        app.files@[i].editor.selection is None ==> r is None,
        app.files@[i].editor.selection matches Some(sel) ==> ({
            let low = if sel.anchor <= sel.cursor {
                sel.anchor
            } else {
                sel.cursor
            };
            let high = if sel.anchor <= sel.cursor {
                sel.cursor
            } else {
                sel.anchor
            };
            let bytes = app.files@[i].editor.bytes@;
            high < bytes.len() && high < u64::MAX && as_hex && low <= k <= high ==> (
            r matches Some(text) && text@.len() == 3 * (high + 1 - low) - 1 && text@[3 * (k - low)]
                == hex_byte(bytes[k])[0] && text@[3 * (k - low) + 1] == hex_byte(bytes[k])[1])
        }),
{
    match app.files@[i].editor.selection {
        Some(sel) => {
            let low = sel.spec_start();
            let high = if sel.anchor <= sel.cursor {
                sel.cursor
            } else {
                sel.anchor
            };
            let bytes = app.files@[i].editor.bytes@;
            if high < bytes.len() && high < u64::MAX && low <= k <= high {
                let part = bytes.subrange(low as int, high + 1);
                law_copied_digits_keep_order(part, k - low);
                assert(part[k - low] == bytes[k]);
            }
        },
        None => {},
    }
}

/// What is downloaded is the file that was last focused: its name and every byte.
pub proof fn law_download_is_last_file(app: HxyApp, r: Option<(String, Vec<u8>)>, i: int)
    requires
        file_downloaded(app, r),
    ensures
        0 <= i < app.files@.len() && app.last_active_file == Some(app.files@[i].id) && app.wf() ==> (
        r matches Some(pair) && pair.0@ == app.files@[i].display_name@ && pair.1@
            == app.files@[i].editor.bytes@),
        app.last_active_file is None ==> r is None,
{
    if 0 <= i < app.files@.len() && app.wf() {
        crate::session::lemma_file_at(app.files@, app.files@[i].id, i);
    }
}

/// A file that is drawn is the one that was last focused; any other tab leaves that.
pub proof fn law_drawn_file_is_last(before: HxyApp, tab: Tab, after: HxyApp, i: int)
    requires
        drawing_noted(before, tab, after),
    ensures
        before.wf() && 0 <= i < before.files@.len() && tab == Tab::File(before.files@[i].id)
            ==> after.last_active_file == Some(before.files@[i].id),
        !(tab is File) ==> after == before,
        after.files == before.files && after.dock == before.dock,
{
    if before.wf() && 0 <= i < before.files@.len() {
        crate::session::lemma_file_at(before.files@, before.files@[i].id, i);
    }
}

/// A tool works on the range that was chosen; where that is empty, on the whole file.
pub proof fn law_tool_works_on_chosen_range(start: u64, end: u64, len: u64)
    ensures
        start < end ==> range_or_all((start, end), len) == (start, end),
        end <= start ==> range_or_all((start, end), len).0 == 0 && range_or_all(
            (start, end),
            len,
        ).1 == len,
{
}

/// The result of a tool is the last one that was computed; an error changes none.
pub proof fn law_last_result_counts<T>(
    before: Option<T>,
    outcomes: Seq<Result<T, String>>,
    v: T,
    e: String,
)
    ensures
        latest(before, outcomes.push(Ok(v))) == Some(v),
        latest(before, outcomes.push(Err(e))) == latest(before, outcomes),
        latest(before, Seq::<Result<T, String>>::empty()) == before,
{
    assert(outcomes.push(Err(e)).drop_last() =~= outcomes);
}

/// A side of a comparison is the file that its path stands for, and there is none for a
/// path of another form.
pub proof fn law_side_is_file_of_its_path(
    app: HxyApp,
    source: SourceView,
    r: Option<(String, Vec<u8>)>,
    i: int,
)
    requires
        app.wf(),
        side_read(app, source, r),
    ensures
        0 <= i < app.files@.len() && source == SourceView::Filesystem(
            memory_path_of(app.files@[i].id),
        ) ==> (r matches Some(pair) && pair.0@ == app.files@[i].display_name@ && pair.1@
            == app.files@[i].editor.bytes@),
        !(source is Filesystem) ==> r is None,
{
    if 0 <= i < app.files@.len() {
        law_memory_path_found(app.files@[i].id);
        crate::session::lemma_file_at(app.files@, app.files@[i].id, i);
    }
}

/// A comparison shows the first file that was picked first and the second one second,
/// each with all its bytes, under a number that no comparison had.
pub proof fn law_comparison_shows_both_files(
    before: HxyApp,
    a: TabSource,
    b: TabSource,
    r: Option<CompareSession>,
    after: HxyApp,
    i: int,
    j: int,
)
    requires
        before.wf(),
        web_compared(before, a, b, r, after),
        0 <= i < before.files@.len(),
        0 <= j < before.files@.len(),
        a@ == SourceView::Filesystem(memory_path_of(before.files@[i].id)),
        b@ == SourceView::Filesystem(memory_path_of(before.files@[j].id)),
    ensures
        r matches Some(c) && c.first.bytes@ == before.files@[i].editor.bytes@ && c.first.name@
            == before.files@[i].display_name@ && c.second.bytes@ == before.files@[j].editor.bytes@
            && c.second.name@ == before.files@[j].display_name@ && c.id.0 == before.next_compare_id,
        before.next_compare_id < u64::MAX ==> after.next_compare_id > before.next_compare_id,
        after.files == before.files,
{
    law_memory_path_found(before.files@[i].id);
    law_memory_path_found(before.files@[j].id);
    crate::session::lemma_file_at(before.files@, before.files@[i].id, i);
    crate::session::lemma_file_at(before.files@, before.files@[j].id, j);
}

/// An entry that was read is opened with all its bytes under the last part of its path,
/// in the workspace that was asked for; without its bytes nothing changes.
pub proof fn law_entry_is_opened_in_its_workspace(
    before: HxyApp,
    workspace_id: WorkspaceId,
    entry_path: Seq<char>,
    read: Option<Vec<u8>>,
    after: HxyApp,
    w: int,
    k: int,
)
    requires
        before.wf(),
        web_entry_opened(before, workspace_id, entry_path, read, after),
    ensures
        read is None ==> after == before,
        0 <= w < before.workspaces@.len() && before.workspaces@[w].id == workspace_id ==> (
        read matches Some(bytes) ==> {
            let f = after.files@[before.files@.len() as int];
            &&& after.files@.len() == before.files@.len() + 1
            &&& f.editor.bytes@ == bytes@ && f.display_name@ == leaf_name(entry_path) && f.id.0
                == before.next_file_id
            &&& after.last_active_file == Some(f.id)
            &&& after.dock == before.dock
            &&& after.workspaces@.len() == before.workspaces@.len()
            &&& 0 <= k < before.workspaces@.len() && k != w ==> after.workspaces@[k]
                == before.workspaces@[k]
            &&& after.workspaces@[w].dock@ == before.workspaces@[w].dock@.pushed(
                DockTab::Inner(WorkspaceTab::Entry(f.id)),
            )
        }),
        0 <= k < before.files@.len() ==> after.files@[k] == before.files@[k],
{
    if 0 <= w < before.workspaces@.len() && before.workspaces@[w].id == workspace_id {
        crate::session::lemma_workspace_at(before.workspaces@, workspace_id, w);
        if read is Some {
            assert(after.files@.last() == after.files@[before.files@.len() as int]);
        }
    }
    if 0 <= k < before.files@.len() && after != before {
        assert(after.files@.drop_last()[k] == after.files@[k]);
    }
}

/// A place that was found is selected from its first byte to its last and is to be
/// seen; what lies behind the end is moved back to the last byte. No byte changes, and
/// no other file does.
pub proof fn law_found_place_is_selected(
    before: HxyApp,
    offset: u64,
    end: u64,
    r: Option<u64>,
    after: HxyApp,
    i: int,
    k: int,
)
    requires
        before.wf(),
        0 <= i < before.files@.len(),
        place_jumped_to(before, before.files@[i].id, offset, end, r, after),
    ensures
        ({
            let len = before.files@[i].editor.bytes@.len();
            &&& len == 0 ==> r is None && after == before
            &&& offset < end && end <= len ==> r == Some(offset) && (
            after.files@[i].editor.selection matches Some(sel) && sel.anchor == offset && sel.cursor
                + 1 == end)
            &&& len > 0 && offset >= len ==> (r matches Some(at) && at + 1 == len)
            &&& after.files@[i].editor.bytes == before.files@[i].editor.bytes
            &&& 0 <= k < before.files@.len() && k != i ==> after.files@[k] == before.files@[k]
        }),
{
    crate::session::lemma_file_at(before.files@, before.files@[i].id, i);
}

/// The inspector shows the bytes from the caret on, sixteen at most; nothing without a
/// caret, for an empty file or for a caret behind the end.
pub proof fn law_inspector_shows_bytes_at_caret(file: OpenFile, r: Option<(u64, Vec<u8>)>, k: int)
    requires
        window_shown(file, r),
    ensures
        file.editor.selection is None || file.editor.bytes@.len() == 0 ==> r is None,
        file.editor.selection matches Some(sel) ==> (sel.cursor < file.editor.bytes@.len() ==> (
        r matches Some(pair) && pair.0 == sel.cursor && pair.1@.len() == (if file.editor.bytes@.len()
            - sel.cursor < 16 {
            file.editor.bytes@.len() - sel.cursor
        } else {
            16
        }) && (0 <= k < pair.1@.len() ==> pair.1@[k] == file.editor.bytes@[sel.cursor + k]))),
        file.editor.selection matches Some(sel) ==> (sel.cursor > file.editor.bytes@.len() ==> r
            is None),
{
}

/// A file that is mounted gets a workspace of its own; without a mount, or where
/// nothing can mount it, nothing changes.
pub proof fn law_browsed_file_gets_workspace(
    before: HxyApp,
    id: FileId,
    mounted: Option<bool>,
    r: Option<(WorkspaceId, SplitRequest)>,
    after: HxyApp,
    i: int,
)
    requires
        before.wf(),
        0 <= i < before.files@.len(),
        before.files@[i].id == id,
        web_browsed(before, id, mounted, r, after),
    ensures
        mounted is None || before.files@[i].handler is None ==> r is None && after == before,
        before.files@[i].handler is Some ==> (mounted matches Some(writable) ==> {
            let n = before.workspaces@.len() as int;
            &&& r matches Some(pair) && (pair.0).0 == before.next_workspace_id
            &&& after.workspaces@.len() == n + 1
            &&& after.workspaces@[n].editor_id == id && after.workspaces@[n].writable == writable
            &&& after.files == before.files
        }),
{
    crate::session::lemma_file_at(before.files@, id, i);
    if before.files@[i].handler is Some && mounted is Some {
        let mid = choose|mid: HxyApp| #[trigger]
            file_placed(before, id, mounted, r, mid) && redocked(
                mid,
                closed(mid.dock@, DockTab::Outer(Tab::File(id))),
                after,
            );
        assert(after.workspaces@.last() == after.workspaces@[before.workspaces@.len() as int]);
    }
}

/// A tool that has no pane yet asks for one to the right of all others, with itself as
/// the one tab; any other tab asks for none.
pub proof fn law_tool_asks_for_pane(
    before: HxyApp,
    tab: Tab,
    split: Option<SplitRequest>,
    after: HxyApp,
)
    requires
        tab_came(before, tab, split, after),
    ensures
        split matches Some(s) ==> s.dir is Right && s.tabs@ == seq![DockTab::Outer(tab)],
        before.dock@.holds(DockTab::Outer(tab)) || tab is File || tab is Settings || tab is Welcome
            ==> split is None,
        (tab is Inspector || tab is Memory || tab is Console) && !before.dock@.holds(
            DockTab::Outer(tab),
        ) && find_leaf_spec(before.dock@, LeafKind::WebTool) is None ==> split is Some
            && after.dock@ == before.dock@,
        after.files == before.files,
{
}

/// The palette knows the file that was last focused: what is selected in it, its
/// address and what can mount it; and how many files there are to compare.
pub proof fn law_palette_knows_last_file(app: HxyApp, kept: Seq<ClosedTab>, i: int)
    requires
        app.wf(),
    ensures
        web_context_of(app, kept).has_closed <==> kept.len() > 0,
        web_context_of(app, kept).has_workspaces <==> app.workspaces@.len() > 0,
        web_context_of(app, kept).several_files <==> app.files@.len() >= 2,
        app.last_active_file is None ==> !web_context_of(app, kept).has_active && !web_context_of(
            app,
            kept,
        ).has_selection,
        0 <= i < app.files@.len() && app.last_active_file == Some(app.files@[i].id) ==> {
            let c = web_context_of(app, kept);
            &&& c.has_active
            &&& c.virtual_base == app.files@[i].virtual_base
            &&& c.has_handler <==> app.files@[i].handler is Some
            &&& app.files@[i].editor.selection is None ==> !c.has_selection
        },
{
    if 0 <= i < app.files@.len() {
        crate::session::lemma_file_at(app.files@, app.files@[i].id, i);
    }
}

} // verus!
