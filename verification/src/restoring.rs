//! Opening the tabs of an earlier run again: in which order, and what becomes
//! of each.

use vstd::prelude::*;
use vstd::string::*;
use crate::dock::Dock;
use crate::dock_ops::SplitRequest;
use crate::editor::Selection;
use crate::mounting::restore_mount;
#[allow(unused_imports)]
use crate::mounting::{entry_opened, mount_restored};
use crate::opening::{FileFacts, OpenRequest, Opened};
#[allow(unused_imports)]
use crate::opening::{becomes_workspace, file_opened, opened_to};
use crate::session::{
    find_file, find_mount_for_source, find_workspace, parent_mount_pending, workspace_for_source,
    HxyApp, LoadStatus, MountStatus,
};
#[allow(unused_imports)]
use crate::session::{
    file_at, live_mount, mount_pending, workspace_for, workspaces_ordered, Workspace,
};
use crate::source::{entry_name, OpenTabState, TabSource};
#[allow(unused_imports)]
use crate::source::{leaf_name, source_depth, sources_distinct, SourceView};
use crate::tabs::{FileId, MountId, OpenTarget, WorkspaceId};
use crate::text::numbered;
#[allow(unused_imports)]
use crate::text::dec;

verus! {

/// How deep a remembered tab is nested.
pub open spec fn tab_depth(t: OpenTabState) -> nat {
    source_depth(t.source@)
}

/// Tabs in order of their depth with one more put behind those that are no
/// deeper.
pub open spec fn depth_inserted(sorted: Seq<OpenTabState>, t: OpenTabState) -> Seq<OpenTabState>
    decreases sorted.len(),
{
    if sorted.len() == 0 || tab_depth(sorted.last()) <= tab_depth(t) {
        sorted.push(t)
    } else {
        depth_inserted(sorted.drop_last(), t).push(sorted.last())
    }
}

/// Tabs in order of their depth, those of one depth in the order in which they
/// came.
pub open spec fn by_depth(tabs: Seq<OpenTabState>) -> Seq<OpenTabState>
    decreases tabs.len(),
{
    if tabs.len() == 0 {
        seq![]
    } else {
        depth_inserted(by_depth(tabs.drop_last()), tabs.last())
    }
}

/// Whether tabs stand in order of their depth.
pub open spec fn depth_ordered(tabs: Seq<OpenTabState>) -> bool {
    forall|i: int, j: int|
        0 <= i <= j < tabs.len() ==> tab_depth(#[trigger] tabs[i]) <= tab_depth(
            #[trigger] tabs[j],
        )
}

proof fn lemma_depth_inserted(sorted: Seq<OpenTabState>, t: OpenTabState)
    requires
        depth_ordered(sorted),
    ensures
        depth_ordered(depth_inserted(sorted, t)),
        depth_inserted(sorted, t).len() == sorted.len() + 1,
        depth_inserted(sorted, t).to_multiset() == sorted.to_multiset().insert(t),
        sorted.len() > 0 ==> tab_depth(depth_inserted(sorted, t).last()) == if tab_depth(
            sorted.last(),
        ) <= tab_depth(t) {
            tab_depth(t)
        } else {
            tab_depth(sorted.last())
        },
    decreases sorted.len(),
{
    broadcast use vstd::seq_lib::group_to_multiset_ensures;

    if sorted.len() == 0 || tab_depth(sorted.last()) <= tab_depth(t) {
        let r = sorted.push(t);
        assert forall|i: int, j: int| 0 <= i <= j < r.len() implies tab_depth(#[trigger] r[i])
            <= tab_depth(#[trigger] r[j]) by {
            if j == sorted.len() && i < j {
                assert(tab_depth(sorted[i]) <= tab_depth(sorted[sorted.len() - 1]));
            }
        }
    } else {
        let init = sorted.drop_last();
        assert(depth_ordered(init)) by {
            assert forall|i: int, j: int| 0 <= i <= j < init.len() implies tab_depth(
                #[trigger] init[i],
            ) <= tab_depth(#[trigger] init[j]) by {
                assert(tab_depth(sorted[i]) <= tab_depth(sorted[j]));
            }
        }
        lemma_depth_inserted(init, t);
        let inner = depth_inserted(init, t);
        let r = inner.push(sorted.last());
        assert(sorted =~= init.push(sorted.last()));
        assert(tab_depth(inner.last()) <= tab_depth(sorted.last())) by {
            if init.len() > 0 {
                assert(tab_depth(sorted[init.len() - 1]) <= tab_depth(sorted[sorted.len() - 1]));
            } else {
                assert(inner =~= seq![t]);
            }
        }
        assert forall|i: int, j: int| 0 <= i <= j < r.len() implies tab_depth(#[trigger] r[i])
            <= tab_depth(#[trigger] r[j]) by {
            if j == inner.len() && i < j {
                assert(tab_depth(inner[i]) <= tab_depth(inner[inner.len() - 1]));
            }
        }
        assert(r.to_multiset() =~= sorted.to_multiset().insert(t));
    }
}

/// The order in which tabs are restored has all of them, each once, and none
/// before one that is nested less deep.
pub proof fn law_restore_order(tabs: Seq<OpenTabState>)
    ensures
        depth_ordered(by_depth(tabs)),
        by_depth(tabs).len() == tabs.len(),
        by_depth(tabs).to_multiset() == tabs.to_multiset(),
    decreases tabs.len(),
{
    broadcast use vstd::seq_lib::group_to_multiset_ensures;

    if tabs.len() > 0 {
        law_restore_order(tabs.drop_last());
        lemma_depth_inserted(by_depth(tabs.drop_last()), tabs.last());
        assert(tabs =~= tabs.drop_last().push(tabs.last()));
    } else {
        assert(by_depth(tabs) =~= tabs);
    }
}

/// A tab that another is nested in is restored before it.
pub proof fn law_parent_restored_first(tabs: Seq<OpenTabState>, i: int, j: int)
    requires
        0 <= i < by_depth(tabs).len(),
        0 <= j < by_depth(tabs).len(),
        by_depth(tabs)[j].source@ matches SourceView::VfsEntry { parent, .. } && *parent
            == by_depth(tabs)[i].source@,
    ensures
        i < j,
{
    law_restore_order(tabs);
    let order = by_depth(tabs);
    assert(tab_depth(order[i]) < tab_depth(order[j]));
    if j <= i {
        assert(tab_depth(order[j]) <= tab_depth(order[i]));
    }
}

/// Whether a tab is what another is nested in.
pub open spec fn is_parent(source: SourceView, tabs: Seq<OpenTabState>) -> bool {
    exists|i: int|
        0 <= i < tabs.len() && ((#[trigger] tabs[i]).source@ matches SourceView::VfsEntry {
            parent,
            ..
        } && *parent == source)
}

fn is_parent_of_any(source: &TabSource, tabs: &Vec<OpenTabState>) -> (r: bool)
    ensures
        r == is_parent(source@, tabs@),
{
    let mut i: usize = 0;
    while i < tabs.len()
        invariant
            i <= tabs@.len(),
            forall|j: int|
                0 <= j < i ==> !((#[trigger] tabs@[j]).source@ matches SourceView::VfsEntry {
                    parent,
                    ..
                } && *parent == source@),
        decreases tabs.len() - i,
    {
        if let TabSource::VfsEntry { parent, .. } = &tabs[i].source {
            if parent.same(source) {
                assert(tabs@[i as int].source@ matches SourceView::VfsEntry { parent: p, .. } && *p
                    == source@);
                return true;
            }
        }
        i = i + 1;
    }
    false
}

fn depth_of(t: &OpenTabState) -> (r: u64)
    requires
        tab_depth(*t) <= u64::MAX,
    ensures
        r == tab_depth(*t),
{
    t.source.depth()
}

/// Sorts the tabs of an earlier run for restoring.
pub fn restore_order(tabs: Vec<OpenTabState>) -> (r: Vec<OpenTabState>)
    requires
        forall|i: int| 0 <= i < tabs@.len() ==> tab_depth(#[trigger] tabs@[i]) <= u64::MAX,
    ensures
        r@ == by_depth(tabs@),
        depth_ordered(r@),
        sources_distinct(tabs@) ==> sources_distinct(r@),
{
    let ghost all = tabs@;
    let mut rest: Vec<OpenTabState> = tabs;
    let mut out: Vec<OpenTabState> = Vec::new();
    let ghost mut done: int = 0;
    assert(all.take(0) =~= seq![]);
    while rest.len() > 0
        invariant
            0 <= done <= all.len(),
            rest@ == all.skip(done),
            out@ == by_depth(all.take(done)),
            forall|i: int| 0 <= i < all.len() ==> tab_depth(#[trigger] all[i]) <= u64::MAX,
            forall|i: int| 0 <= i < out@.len() ==> tab_depth(#[trigger] out@[i]) <= u64::MAX,
        decreases rest.len(),
    {
        let next = rest.remove(0);
        assert(next == all[done]);
        assert(all.take(done + 1).drop_last() =~= all.take(done));
        insert_by_depth(&mut out, next);
        proof {
            done = done + 1;
        }
        assert(rest@ =~= all.skip(done));
    }
    assert(all.take(all.len() as int) =~= all);
    assert(done == all.len());
    proof {
        law_restore_order(all);
        if sources_distinct(all) {
            lemma_order_distinct(all);
        }
    }
    out
}

proof fn lemma_inserted_items(s: Seq<OpenTabState>, t: OpenTabState, k: int)
    requires
        0 <= k < depth_inserted(s, t).len(),
    ensures
        depth_inserted(s, t)[k] == t || s.contains(depth_inserted(s, t)[k]),
    decreases s.len(),
{
    let all = depth_inserted(s, t);
    if s.len() > 0 && tab_depth(s.last()) > tab_depth(t) {
        let rest = depth_inserted(s.drop_last(), t);
        if k < rest.len() {
            lemma_inserted_items(s.drop_last(), t, k);
            if s.drop_last().contains(rest[k]) {
                let i = choose|i: int| 0 <= i < s.len() - 1 && s.drop_last()[i] == rest[k];
                assert(s[i] == all[k]);
            }
        } else {
            assert(s[s.len() - 1] == all[k]);
        }
    } else if k < s.len() {
        assert(s[k] == all[k]);
    }
}

proof fn lemma_inserted_distinct(s: Seq<OpenTabState>, t: OpenTabState)
    requires
        sources_distinct(s.push(t)),
    ensures
        sources_distinct(depth_inserted(s, t)),
    decreases s.len(),
{
    if s.len() > 0 && tab_depth(s.last()) > tab_depth(t) {
        let head = s.drop_last();
        let both = s.push(t);
        assert forall|i: int, j: int| 0 <= i < j < head.push(t).len() implies (
        #[trigger] head.push(t)[i]).source@ != (#[trigger] head.push(t)[j]).source@ by {
            let jj = if j == head.len() {
                both.len() - 1
            } else {
                j
            };
            assert(both[i].source@ != both[jj].source@);
        }
        lemma_inserted_distinct(head, t);
        let rest = depth_inserted(head, t);
        let all = depth_inserted(s, t);
        assert(all == rest.push(s.last()));
        assert forall|i: int, j: int| 0 <= i < j < all.len() implies (#[trigger] all[i]).source@ != (
        #[trigger] all[j]).source@ by {
            if j == rest.len() {
                lemma_inserted_items(head, t, i);
                if rest[i] == t {
                    assert(both[s.len() - 1].source@ != both[s.len() as int].source@);
                } else {
                    let k = choose|k: int| 0 <= k < head.len() && head[k] == rest[i];
                    assert(both[k].source@ != both[s.len() - 1].source@);
                }
            } else {
                assert(rest[i].source@ != rest[j].source@);
            }
        }
    }
}

proof fn lemma_order_items(tabs: Seq<OpenTabState>, k: int)
    requires
        0 <= k < by_depth(tabs).len(),
    ensures
        tabs.contains(by_depth(tabs)[k]),
    decreases tabs.len(),
{
    if tabs.len() > 0 {
        let rest = by_depth(tabs.drop_last());
        lemma_inserted_items(rest, tabs.last(), k);
        let item = by_depth(tabs)[k];
        if item == tabs.last() {
            assert(tabs[tabs.len() - 1] == item);
        } else {
            let i = choose|i: int| 0 <= i < rest.len() && rest[i] == item;
            lemma_order_items(tabs.drop_last(), i);
            let j = choose|j: int| 0 <= j < tabs.len() - 1 && tabs.drop_last()[j] == item;
            assert(tabs[j] == item);
        }
    }
}

proof fn lemma_order_distinct(tabs: Seq<OpenTabState>)
    requires
        sources_distinct(tabs),
    ensures
        sources_distinct(by_depth(tabs)),
    decreases tabs.len(),
{
    if tabs.len() > 0 {
        let head = tabs.drop_last();
        assert forall|i: int, j: int| 0 <= i < j < head.len() implies (#[trigger] head[i]).source@
            != (#[trigger] head[j]).source@ by {
            assert(tabs[i].source@ != tabs[j].source@);
        }
        lemma_order_distinct(head);
        let rest = by_depth(head);
        let both = rest.push(tabs.last());
        assert forall|i: int, j: int| 0 <= i < j < both.len() implies (#[trigger] both[i]).source@
            != (#[trigger] both[j]).source@ by {
            if j == rest.len() {
                lemma_order_items(head, i);
                let k = choose|k: int| 0 <= k < head.len() && head[k] == rest[i];
                assert(tabs[k].source@ != tabs[tabs.len() - 1].source@);
            } else {
                assert(rest[i].source@ != rest[j].source@);
            }
        }
        lemma_inserted_distinct(rest, tabs.last());
    }
}

fn insert_by_depth(out: &mut Vec<OpenTabState>, t: OpenTabState)
    requires
        tab_depth(t) <= u64::MAX,
        forall|i: int| 0 <= i < old(out)@.len() ==> tab_depth(#[trigger] old(out)@[i]) <= u64::MAX,
    ensures
        final(out)@ == depth_inserted(old(out)@, t),
        forall|i: int| 0 <= i < final(out)@.len() ==> tab_depth(#[trigger] final(out)@[i])
            <= u64::MAX,
{
    let depth: u64 = depth_of(&t);
    let mut at: usize = out.len();
    let ghost before = out@;
    assert(before.take(at as int) =~= before);
    while at > 0 && depth_of(&out[at - 1]) > depth
        invariant
            at <= out@.len(),
            out@ == before,
            depth == tab_depth(t),
            forall|i: int| 0 <= i < before.len() ==> tab_depth(#[trigger] before[i]) <= u64::MAX,
            depth_inserted(before, t) == depth_inserted(before.take(at as int), t) + before.skip(
                at as int,
            ),
        decreases at,
    {
        proof {
            let head = before.take(at as int);
            assert(head.last() == before[at - 1]);
            assert(head.drop_last() =~= before.take(at - 1));
            assert(depth_inserted(head, t) == depth_inserted(before.take(at - 1), t).push(
                before[at - 1],
            ));
            assert(depth_inserted(before.take(at - 1), t).push(before[at - 1]) + before.skip(
                at as int,
            ) =~= depth_inserted(before.take(at - 1), t) + before.skip(at - 1));
        }
        at = at - 1;
    }
    proof {
        let head = before.take(at as int);
        if at > 0 {
            assert(head.last() == before[at - 1]);
        }
        assert(depth_inserted(head, t) == head.push(t));
    }
    out.insert(at, t);
    assert(out@ =~= depth_inserted(before, t));
}

/// Whether it is told that a tab is to be opened as a workspace.
pub open spec fn workspace_wanted(
    tab: OpenTabState,
    tabs: Seq<OpenTabState>,
    r: bool,
) -> bool {
    &&& r == (tab.as_workspace || is_parent(tab.source@, tabs))
}

/// Whether a tab is to be opened as a workspace: it was one, or another tab is
/// nested in it and needs its mount.
pub fn opens_as_workspace(tab: &OpenTabState, tabs: &Vec<OpenTabState>) -> (r: bool)
    ensures
        workspace_wanted(*tab, tabs@, r),
{
    tab.as_workspace || is_parent_of_any(&tab.source, tabs)
}

/// Why a file could not be opened.
pub enum FileOpenError {
    Cancelled,
    /// Its bytes could not be read.
    Read { path: String, reason: String },
    /// A plugin could not make its mount.
    PluginMount { plugin_name: String, token: String, reason: String },
}

/// What reading the bytes of a tab gave.
pub enum ReadResult {
    Bytes(Vec<u8>),
    /// There is nothing to read from.
    NotFound,
    Failed(String),
}

/// What asking a plugin for a mount gave.
pub enum PluginAnswer {
    NotInstalled,
    Ready { writable: bool },
    Failed { message: String, retry_label: Option<String> },
}

/// What is known of a tab beyond its record once its source was looked up.
pub struct RestoreInput {
    /// The last part of a path on disk.
    pub file_name: String,
    pub parent_dir: Option<String>,
    /// The bytes of a file on disk or of a scratch file.
    pub read: ReadResult,
    /// Where a scratch file's bytes are kept; nothing where there is no place
    /// for them.
    pub scratch_path: Option<String>,
    pub handler: Option<String>,
    /// Whether mounting the file went well, and if so whether its entries can
    /// be written back.
    pub mounted: Option<bool>,
    pub plugin: PluginAnswer,
}

/// How many zeros a scratch file holds whose bytes are lost.
pub const ANONYMOUS_DEFAULT_SIZE: usize = 256;

/// What came of restoring a tab.
pub enum Restored {
    /// The file is open; a workspace was made around it or not.
    Opened(Opened),
    /// The file is open without bytes; they are to be read from its entry.
    Loading { file_id: FileId },
    /// The mount it needs cannot be used right now; it stays remembered.
    Waiting,
    /// The mount is there, and its tab needs a pane or not.
    Mounted { mount_id: MountId, split: Option<SplitRequest> },
}

fn zeros(count: usize) -> (r: Vec<u8>)
    ensures
        r@ == Seq::new(count as nat, |i: int| 0u8),
{
    let mut out: Vec<u8> = Vec::new();
    let mut i: usize = 0;
    while i < count
        invariant
            i <= count,
            out@ == Seq::new(i as nat, |k: int| 0u8),
        decreases count - i,
    {
        out.push(0);
        i = i + 1;
        assert(out@ =~= Seq::new(i as nat, |k: int| 0u8));
    }
    out
}

/// Whether a request asks for a remembered tab with given bytes.
pub open spec fn asks_restore(
    req: OpenRequest,
    tab: OpenTabState,
    name: Seq<char>,
    bytes: Seq<u8>,
    handler: Option<String>,
    loading: bool,
) -> bool {
    &&& req.display_name@ == name
    &&& req.source == Some(tab.source)
    &&& req.bytes@ == bytes
    &&& req.selection == tab.selection
    &&& req.scroll == Some(tab.scroll)
    &&& req.handler == handler
    &&& req.suggested_template is None
    &&& req.loading == loading
}

fn restore_request(
    tab: &OpenTabState,
    name: String,
    bytes: Vec<u8>,
    handler: Option<String>,
    parent_dir: Option<String>,
    loading: bool,
) -> (r: OpenRequest)
    ensures
        asks_restore(r, *tab, name@, bytes@, handler, loading),
{
    OpenRequest {
        display_name: name,
        source: Some(tab.source.clone()),
        bytes,
        selection: tab.selection,
        scroll: Some(tab.scroll),
        handler,
        suggested_template: None,
        parent_dir,
        loading,
    }
}

/// Restores a file on disk.
fn restore_file(
    app: &mut HxyApp,
    tab: &OpenTabState,
    path: &String,
    as_workspace: bool,
    input: RestoreInput,
) -> (r: Result<Restored, FileOpenError>)
    requires
        old(app).wf(),
        old(app).next_file_id < u64::MAX,
        old(app).next_workspace_id < u64::MAX,
    ensures
        final(app).wf(),
        match (input.read, r) {
            (ReadResult::Bytes(bytes), Ok(Restored::Opened(done))) => exists|req: OpenRequest|
                #[trigger] asks_restore(
                    req,
                    *tab,
                    input.file_name@,
                    bytes@,
                    input.handler,
                    false,
                ) && opened_to(
                    *old(app),
                    req,
                    if as_workspace && becomes_workspace(req, input.mounted) {
                        input.mounted
                    } else {
                        None
                    },
                    done,
                    *final(app),
                ),
            (ReadResult::NotFound, Err(FileOpenError::Read { path: p, reason })) => *final(app)
                == *old(app) && p@ == path@ && reason@ == "not found"@,
            (ReadResult::Failed(e), Err(FileOpenError::Read { path: p, reason })) => *final(app)
                == *old(app) && p@ == path@ && reason@ == e@,
            _ => false,
        },
{
    match input.read {
        ReadResult::Bytes(bytes) => {
            let req = restore_request(
                tab,
                input.file_name,
                bytes,
                input.handler,
                input.parent_dir,
                false,
            );
            let ghost asked = req;
            let done = app.open(req, as_workspace, input.mounted);
            assert(asks_restore(asked, *tab, input.file_name@, bytes@, input.handler, false));
            Ok(Restored::Opened(done))
        },
        ReadResult::NotFound => Err(
            FileOpenError::Read { path: path.clone(), reason: "not found".to_owned() },
        ),
        ReadResult::Failed(e) => Err(FileOpenError::Read { path: path.clone(), reason: e }),
    }
}

/// The bytes of a scratch file that is restored: those that were kept, or
/// zeros where they are lost.
pub open spec fn scratch_bytes(read: ReadResult) -> Option<Seq<u8>> {
    match read {
        ReadResult::Bytes(b) => Some(b@),
        ReadResult::NotFound => Some(Seq::new(ANONYMOUS_DEFAULT_SIZE as nat, |i: int| 0u8)),
        ReadResult::Failed(_) => None,
    }
}

/// Restores a scratch file.
fn restore_scratch(
    app: &mut HxyApp,
    tab: &OpenTabState,
    id: u64,
    title: &String,
    input: RestoreInput,
) -> (r: Result<Restored, FileOpenError>)
    requires
        old(app).wf(),
        old(app).next_file_id < u64::MAX,
        old(app).next_workspace_id < u64::MAX,
    ensures
        final(app).wf(),
        match input.scratch_path {
            None => *final(app) == *old(app) && (r matches Err(
                FileOpenError::Read { path, reason },
            ) && path@ == "anonymous/"@ + dec(id as nat) && reason@ == "no data dir"@),
            Some(kept) => match (scratch_bytes(input.read), r) {
                (Some(bytes), Ok(Restored::Opened(done))) => exists|req: OpenRequest| #[trigger]
                    asks_restore(req, *tab, title@, bytes, input.handler, false) && opened_to(
                        *old(app),
                        req,
                        None,
                        done,
                        *final(app),
                    ),
                (None, Err(FileOpenError::Read { path, reason })) => *final(app) == *old(app)
                    && path == kept && (input.read matches ReadResult::Failed(e) && reason == e),
                _ => false,
            },
        },
{
    let kept = match input.scratch_path {
        Some(p) => p,
        None => {
            return Err(
                FileOpenError::Read {
                    path: numbered("anonymous/", id),
                    reason: "no data dir".to_owned(),
                },
            );
        },
    };
    let bytes = match input.read {
        ReadResult::Bytes(b) => b,
        ReadResult::NotFound => zeros(ANONYMOUS_DEFAULT_SIZE),
        ReadResult::Failed(e) => {
            return Err(FileOpenError::Read { path: kept, reason: e });
        },
    };
    let ghost content = bytes@;
    let req = restore_request(tab, title.clone(), bytes, input.handler, None, false);
    let ghost asked = req;
    let done = app.open(req, false, None);
    assert(scratch_bytes(input.read) matches Some(b) && b =~= content);
    assert(asks_restore(asked, *tab, title@, content, input.handler, false));
    Ok(Restored::Opened(done))
}

/// Where an entry that is restored goes: inside the workspace that mounts its
/// archive, or in the dock.
pub open spec fn entry_target(app: HxyApp, parent: SourceView) -> OpenTarget {
    match workspace_for(app, parent) {
        Some(i) => OpenTarget::Workspace(app.workspaces@[i].id),
        None => OpenTarget::Toplevel,
    }
}

/// Whether one editor is another in which a file was opened where it was asked
/// for.
pub open spec fn opened_at(
    before: HxyApp,
    req: OpenRequest,
    target: OpenTarget,
    id: FileId,
    after: HxyApp,
) -> bool {
    match target {
        OpenTarget::Workspace(w) => entry_opened(before, req, w, id, after),
        OpenTarget::Toplevel => exists|done: Opened|
            done.id == id && #[trigger] opened_to(before, req, None, done, after),
    }
}

/// Whether one editor is another in which an entry has its tab and waits for
/// its bytes.
pub open spec fn entry_loading(
    before: HxyApp,
    tab: OpenTabState,
    parent: SourceView,
    entry_path: Seq<char>,
    id: FileId,
    after: HxyApp,
) -> bool {
    exists|req: OpenRequest| #[trigger]
        asks_restore(req, tab, leaf_name(entry_path), seq![], None, true) && opened_at(
            before,
            req,
            entry_target(before, parent),
            id,
            after,
        )
}

/// Restores an entry of an archive. Its tab comes at once; its bytes come
/// later.
fn restore_entry(
    app: &mut HxyApp,
    tab: &OpenTabState,
    parent: &TabSource,
    entry_path: &String,
) -> (r: Result<Restored, FileOpenError>)
    requires
        old(app).wf(),
        old(app).next_file_id < u64::MAX,
        old(app).next_workspace_id < u64::MAX,
    ensures
        final(app).wf(),
        live_mount(*old(app), parent@) is Some ==> (r matches Ok(
            Restored::Loading { file_id },
        ) && entry_loading(*old(app), *tab, parent@, entry_path@, file_id, *final(app))),
        live_mount(*old(app), parent@) is None ==> *final(app) == *old(app),
        live_mount(*old(app), parent@) is None && mount_pending(*old(app), parent@) ==> r
            matches Ok(Restored::Waiting),
        live_mount(*old(app), parent@) is None && !mount_pending(*old(app), parent@) ==> (r
            matches Err(FileOpenError::Read { path, reason }) && path@ == entry_path@ && reason@
            == "parent tab / mount not available"@),
{
    let mount = find_mount_for_source(app, parent);
    if mount.is_none() {
        if parent_mount_pending(app, parent) {
            return Ok(Restored::Waiting);
        }
        return Err(
            FileOpenError::Read {
                path: entry_path.clone(),
                reason: "parent tab / mount not available".to_owned(),
            },
        );
    }
    let target = match workspace_for_source(app, parent) {
        Some(w) => OpenTarget::Workspace(w),
        None => OpenTarget::Toplevel,
    };
    assert(target == entry_target(*old(app), parent@));
    let req = restore_request(tab, entry_name(entry_path.as_str()), Vec::new(), None, None, true);
    let ghost asked = req;
    assert(asks_restore(asked, *tab, leaf_name(entry_path@), seq![], None, true)) by {
        assert(asked.bytes@ =~= seq![]);
    }
    let id = app.open_with_target(req, target);
    assert(opened_at(*old(app), asked, target, id, *app));
    Ok(Restored::Loading { file_id: id })
}

/// Restores a plugin's mount. One that cannot be made right now keeps its tab,
/// from where it can be tried again.
fn restore_plugin(
    app: &mut HxyApp,
    plugin_name: &String,
    token: &String,
    title: &String,
    input: RestoreInput,
) -> (r: Result<Restored, FileOpenError>)
    requires
        old(app).wf(),
        old(app).next_mount_id < u64::MAX,
    ensures
        final(app).wf(),
        match (input.plugin, r) {
            (
                PluginAnswer::NotInstalled,
                Err(FileOpenError::PluginMount { plugin_name: p, token: t, reason }),
            ) => *final(app) == *old(app) && p == *plugin_name && t == *token && reason@
                == "plugin no longer installed"@,
            (PluginAnswer::Ready { writable }, Ok(Restored::Mounted { mount_id, split })) => mount_restored(
                *old(app),
                *plugin_name,
                *token,
                *title,
                MountStatus::Ready { writable },
                mount_id,
                split,
                *final(app),
            ),
            (
                PluginAnswer::Failed { message, retry_label },
                Ok(Restored::Mounted { mount_id, split }),
            ) => mount_restored(
                *old(app),
                *plugin_name,
                *token,
                *title,
                MountStatus::Failed { message, retry_label },
                mount_id,
                split,
                *final(app),
            ),
            _ => false,
        },
{
    let status = match input.plugin {
        PluginAnswer::NotInstalled => {
            return Err(
                FileOpenError::PluginMount {
                    plugin_name: plugin_name.clone(),
                    token: token.clone(),
                    reason: "plugin no longer installed".to_owned(),
                },
            );
        },
        PluginAnswer::Ready { writable } => MountStatus::Ready { writable },
        PluginAnswer::Failed { message, retry_label } => MountStatus::Failed {
            message,
            retry_label,
        },
    };
    let (id, split) = restore_mount(
        app,
        plugin_name.clone(),
        token.clone(),
        title.clone(),
        status,
    );
    Ok(Restored::Mounted { mount_id: id, split })
}

/// Whether restoring a tab fails, so that it is forgotten.
pub open spec fn restore_fails(app: HxyApp, tab: OpenTabState, input: RestoreInput) -> bool {
    match tab.source {
        TabSource::Filesystem(_) => !(input.read is Bytes),
        TabSource::VfsEntry { parent, .. } => live_mount(app, (*parent)@) is None
            && !mount_pending(app, (*parent)@),
        TabSource::Anonymous { .. } => input.scratch_path is None || input.read is Failed,
        TabSource::PluginMount { .. } => input.plugin is NotInstalled,
    }
}

/// Whether one tab was restored, or why it was not.
pub open spec fn tab_restored(
    before: HxyApp,
    tab: OpenTabState,
    must_mount: bool,
    input: RestoreInput,
    r: Result<Restored, FileOpenError>,
    after: HxyApp,
) -> bool {
    &&& r is Err == restore_fails(before, tab, input)
    &&& r is Err ==> after == before
    &&& match tab.source {
        TabSource::Filesystem(path) => match (input.read, r) {
            (ReadResult::Bytes(bytes), Ok(Restored::Opened(done))) => exists|
                req: OpenRequest,
            | #[trigger]
                asks_restore(
                    req,
                    tab,
                    input.file_name@,
                    bytes@,
                    input.handler,
                    false,
                ) && opened_to(
                    before,
                    req,
                    if (tab.as_workspace || must_mount) && becomes_workspace(
                        req,
                        input.mounted,
                    ) {
                        input.mounted
                    } else {
                        None
                    },
                    done,
                    after,
                ),
            (ReadResult::NotFound, Err(FileOpenError::Read { path: p, reason })) => p@ == path@
                && reason@ == "not found"@,
            (ReadResult::Failed(e), Err(FileOpenError::Read { path: p, reason })) => p@ == path@
                && reason@ == e@,
            _ => false,
        },
        TabSource::VfsEntry { parent, entry_path } => match live_mount(
            before,
            (*parent)@,
        ) {
            Some(_) => r matches Ok(Restored::Loading { file_id }) && entry_loading(
                before,
                tab,
                (*parent)@,
                entry_path@,
                file_id,
                after,
            ),
            None => after == before && if mount_pending(before, (*parent)@) {
                r matches Ok(Restored::Waiting)
            } else {
                r matches Err(FileOpenError::Read { path, reason }) && path@ == entry_path@
                    && reason@ == "parent tab / mount not available"@
            },
        },
        TabSource::Anonymous { id, title } => match input.scratch_path {
            None => r matches Err(FileOpenError::Read { path, reason }) && path@
                == "anonymous/"@ + dec(id as nat) && reason@ == "no data dir"@,
            Some(kept) => match (scratch_bytes(input.read), r) {
                (Some(bytes), Ok(Restored::Opened(done))) => exists|req: OpenRequest| #[trigger]
                    asks_restore(req, tab, title@, bytes, input.handler, false) && opened_to(
                        before,
                        req,
                        None,
                        done,
                        after,
                    ),
                (None, Err(FileOpenError::Read { path, reason })) => path == kept && (
                input.read matches ReadResult::Failed(e) && reason == e),
                _ => false,
            },
        },
        TabSource::PluginMount { plugin_name, token, title } => match (input.plugin, r) {
            (
                PluginAnswer::NotInstalled,
                Err(FileOpenError::PluginMount { plugin_name: p, token: t, reason }),
            ) => p == plugin_name && t == token && reason@ == "plugin no longer installed"@,
            (PluginAnswer::Ready { writable }, Ok(Restored::Mounted { mount_id, split })) => mount_restored(
                before,
                plugin_name,
                token,
                title,
                MountStatus::Ready { writable },
                mount_id,
                split,
                after,
            ),
            (
                PluginAnswer::Failed { message, retry_label },
                Ok(Restored::Mounted { mount_id, split }),
            ) => mount_restored(
                before,
                plugin_name,
                token,
                title,
                MountStatus::Failed { message, retry_label },
                mount_id,
                split,
                after,
            ),
            _ => false,
        },
    }
}

/// Restores one tab. `must_mount` is set where another tab is nested in it.
pub fn restore_one_tab(
    app: &mut HxyApp,
    tab: &OpenTabState,
    must_mount: bool,
    input: RestoreInput,
) -> (r: Result<Restored, FileOpenError>)
    requires
        old(app).wf(),
        old(app).next_file_id < u64::MAX,
        old(app).next_workspace_id < u64::MAX,
        old(app).next_mount_id < u64::MAX,
    ensures
        final(app).wf(),
        tab_restored(*old(app), *tab, must_mount, input, r, *final(app)),
{
    let as_workspace = tab.as_workspace || must_mount;
    match &tab.source {
        TabSource::Filesystem(path) => restore_file(app, tab, path, as_workspace, input),
        TabSource::VfsEntry { parent, entry_path } => restore_entry(app, tab, parent, entry_path),
        TabSource::Anonymous { id, title } => restore_scratch(app, tab, *id, title, input),
        TabSource::PluginMount { plugin_name, token, title } => restore_plugin(
            app,
            plugin_name,
            token,
            title,
            input,
        ),
    }
}

/// The tabs that were restored, in order. `restored` tells of each whether it was.
pub open spec fn surviving(tabs: Seq<OpenTabState>, restored: Seq<bool>) -> Seq<OpenTabState>
    decreases tabs.len(),
{
    if tabs.len() == 0 {
        seq![]
    } else if restored[tabs.len() - 1] {
        surviving(tabs.drop_last(), restored).push(tabs.last())
    } else {
        surviving(tabs.drop_last(), restored)
    }
}

proof fn lemma_surviving_source(tabs: Seq<OpenTabState>, restored: Seq<bool>, k: int)
    requires
        0 <= k < surviving(tabs, restored).len(),
    ensures
        exists|i: int| 0 <= i < tabs.len() && restored[i] && #[trigger] tabs[i] == surviving(
            tabs,
            restored,
        )[k],
    decreases tabs.len(),
{
    let rest = surviving(tabs.drop_last(), restored);
    if k < rest.len() {
        lemma_surviving_source(tabs.drop_last(), restored, k);
        let i = choose|i: int|
            0 <= i < tabs.drop_last().len() && restored[i] && #[trigger] tabs.drop_last()[i]
                == rest[k];
        assert(tabs[i] == surviving(tabs, restored)[k]);
    } else {
        assert(tabs[tabs.len() - 1] == surviving(tabs, restored)[k]);
    }
}

proof fn lemma_surviving_distinct(tabs: Seq<OpenTabState>, restored: Seq<bool>)
    requires
        sources_distinct(tabs),
    ensures
        sources_distinct(surviving(tabs, restored)),
    decreases tabs.len(),
{
    if tabs.len() > 0 {
        let head = tabs.drop_last();
        assert forall|i: int, j: int| 0 <= i < j < head.len() implies (#[trigger] head[i]).source@
            != (#[trigger] head[j]).source@ by {
            assert(tabs[i].source@ != tabs[j].source@);
        }
        lemma_surviving_distinct(head, restored);
        let rest = surviving(head, restored);
        let all = surviving(tabs, restored);
        assert forall|i: int, j: int| 0 <= i < j < all.len() implies (#[trigger] all[i]).source@ != (
        #[trigger] all[j]).source@ by {
            if j == rest.len() {
                lemma_surviving_source(head, restored, i);
                let k = choose|k: int|
                    0 <= k < head.len() && restored[k] && #[trigger] head[k] == rest[i];
                assert(tabs[k].source@ != tabs[tabs.len() - 1].source@);
            } else {
                assert(rest[i].source@ != rest[j].source@);
            }
        }
    }
}

/// A tab stays remembered exactly where it was restored.
pub proof fn law_restored_tabs_stay(tabs: Seq<OpenTabState>, restored: Seq<bool>, i: int)
    requires
        sources_distinct(tabs),
        0 <= i < tabs.len(),
    ensures
        surviving(tabs, restored).contains(tabs[i]) <==> restored[i],
    decreases tabs.len(),
{
    let all = surviving(tabs, restored);
    let head = tabs.drop_last();
    let rest = surviving(head, restored);
    if i == tabs.len() - 1 {
        if restored[i] {
            assert(all[all.len() - 1] == tabs[i]);
        } else if all.contains(tabs[i]) {
            let k = choose|k: int| 0 <= k < all.len() && all[k] == tabs[i];
            lemma_surviving_source(head, restored, k);
            let j = choose|j: int|
                0 <= j < head.len() && restored[j] && #[trigger] head[j] == rest[k];
            assert(tabs[j].source@ != tabs[i].source@);
        }
    } else {
        assert forall|a: int, b: int| 0 <= a < b < head.len() implies (#[trigger] head[a]).source@
            != (#[trigger] head[b]).source@ by {
            assert(tabs[a].source@ != tabs[b].source@);
        }
        law_restored_tabs_stay(head, restored, i);
        assert(tabs[i].source@ != tabs[tabs.len() - 1].source@);
        if rest.contains(head[i]) {
            let k = choose|k: int| 0 <= k < rest.len() && rest[k] == head[i];
            assert(all[k] == tabs[i]);
        }
        if all.contains(tabs[i]) {
            let k = choose|k: int| 0 <= k < all.len() && all[k] == tabs[i];
            assert(k < rest.len());
            assert(rest[k] == head[i]);
        }
    }
}

fn keep_restored(tabs: Vec<OpenTabState>, restored: &Vec<bool>) -> (r: Vec<OpenTabState>)
    requires
        restored@.len() == tabs@.len(),
    ensures
        r@ == surviving(tabs@, restored@),
{
    let ghost all = tabs@;
    let mut rest = tabs;
    let mut out: Vec<OpenTabState> = Vec::new();
    let mut i: usize = 0;
    assert(rest@ =~= all.skip(0));
    assert(all.take(0) =~= seq![]);
    while i < restored.len()
        invariant
            i <= all.len() == restored@.len(),
            rest@ == all.skip(i as int),
            out@ == surviving(all.take(i as int), restored@),
        decreases restored.len() - i,
    {
        assert(all.take(i as int + 1).drop_last() =~= all.take(i as int));
        let tab = rest.remove(0);
        assert(tab == all[i as int]);
        if restored[i] {
            out.push(tab);
        }
        i = i + 1;
        assert(rest@ =~= all.skip(i as int));
    }
    assert(all.take(all.len() as int) =~= all);
    out
}

/// Remembers the tabs that were restored, in the order in which that was tried,
/// and no others.
pub fn finish_restore(app: &mut HxyApp, tabs: Vec<OpenTabState>, restored: &Vec<bool>)
    requires
        old(app).wf(),
        sources_distinct(tabs@),
        restored@.len() == tabs@.len(),
    ensures
        final(app).wf(),
        *final(app) == (HxyApp { open_tabs: final(app).open_tabs, ..*old(app) }),
        final(app).open_tabs@ == surviving(tabs@, restored@),
{
    proof {
        lemma_surviving_distinct(tabs@, restored@);
    }
    app.open_tabs = keep_restored(tabs, restored);
}

/// Whether what was read of an entry was taken over.
pub open spec fn loading_finished(
    before_app: HxyApp,
    id: FileId,
    result: Result<Vec<u8>, String>,
    after_app: HxyApp,
) -> bool {
    &&& after_app == (HxyApp { files: after_app.files, ..before_app })
    &&& match file_at(before_app.files@, id) {
        Some(i) => {
            let before = before_app.files@[i];
            let after = after_app.files@[i];
            &&& after_app.files@ == before_app.files@.update(i, after)
            &&& match result {
                Ok(bytes) => crate::editor::swapped_to(before.editor, bytes@, after.editor)
                    && after == (crate::session::OpenFile {
                    editor: after.editor,
                    load: LoadStatus::Ready,
                    ..before
                }),
                Err(e) => after == (crate::session::OpenFile {
                    load: LoadStatus::Failed(e),
                    ..before
                }),
            }
        },
        None => after_app.files@ == before_app.files@,
    }
}

/// What became of reading an entry whose tab waits for its bytes: the bytes
/// replace what the tab shows, or the tab tells the error. A tab that was
/// closed meanwhile changes nothing.
pub fn finish_loading(app: &mut HxyApp, id: FileId, result: Result<Vec<u8>, String>)
    requires
        old(app).wf(),
    ensures
        final(app).wf(),
        loading_finished(*old(app), id, result, *final(app)),
{
    if let Some(i) = find_file(&app.files, id) {
        match result {
            Ok(bytes) => {
                app.files[i].editor.swap_source(bytes);
                app.files[i].load = LoadStatus::Ready;
            },
            Err(e) => {
                app.files[i].load = LoadStatus::Failed(e);
            },
        }
        assert(app.files@ =~= old(app).files@.update(i as int, app.files@[i as int]));
    }
}

/// Whether a file on disk was opened, or why it was not.
pub open spec fn path_opened(
    before: HxyApp,
    display_name: Seq<char>,
    path: Seq<char>,
    read: Result<Vec<u8>, String>,
    selection: Option<Selection>,
    scroll: Option<u64>,
    facts: FileFacts,
    r: Result<FileId, FileOpenError>,
    after: HxyApp,
) -> bool {
    &&& match (read, r) {
        (Ok(bytes), Ok(id)) => file_opened(
            before,
            display_name,
            path,
            bytes@,
            selection,
            scroll,
            facts,
            id,
            after,
        ),
        (Err(e), Err(FileOpenError::Read { path: p, reason })) => after == before
            && p@ == path && reason@ == e@,
        _ => false,
    }
}

impl HxyApp {
    /// Opens a file on disk, or tells why its bytes could not be read.
    pub fn open_filesystem_path(
        &mut self,
        display_name: String,
        path: String,
        read: Result<Vec<u8>, String>,
        selection: Option<Selection>,
        scroll: Option<u64>,
        facts: FileFacts,
    ) -> (r: Result<FileId, FileOpenError>)
        requires
            old(self).wf(),
            old(self).next_file_id < u64::MAX,
            old(self).next_workspace_id < u64::MAX,
        ensures
            final(self).wf(),
            path_opened(*old(self), display_name@, path@, read, selection, scroll, facts, r, *final(self)),
    {
        match read {
            Ok(bytes) => Ok(
                self.open_filesystem(display_name, path, bytes, selection, scroll, facts),
            ),
            Err(e) => Err(FileOpenError::Read { path, reason: e }),
        }
    }
}

/// A layout of the docks that was kept by an earlier run.
pub enum KeptLayout {
    /// None was kept.
    Absent,
    /// It cannot be read, or its form is that of another version.
    Unusable,
    /// The dock, and the docks of workspaces.
    Fit { outer: Dock, inner: Vec<(WorkspaceId, Dock)> },
}

/// The dock that a layout has for a workspace, the last one where there are
/// several; without one the dock stays.
pub open spec fn dock_for(inner: Seq<(WorkspaceId, Dock)>, id: WorkspaceId, dock: Dock) -> Dock
    decreases inner.len(),
{
    if inner.len() == 0 {
        dock
    } else if inner.last().0 == id {
        inner.last().1
    } else {
        dock_for(inner.drop_last(), id, dock)
    }
}

/// Whether workspaces got the docks that a layout has for them.
pub open spec fn docks_taken(
    before: Seq<Workspace>,
    inner: Seq<(WorkspaceId, Dock)>,
    after: Seq<Workspace>,
) -> bool {
    &&& after.len() == before.len()
    &&& forall|i: int|
        0 <= i < before.len() ==> (#[trigger] after[i]) == (Workspace {
            dock: dock_for(inner, before[i].id, before[i].dock),
            ..before[i]
        })
}

/// Whether the docks of a layout are well formed.
pub open spec fn layout_wf(layout: KeptLayout) -> bool {
    match layout {
        KeptLayout::Fit { outer, inner } => outer.wf() && forall|i: int|
            0 <= i < inner@.len() ==> (#[trigger] inner@[i]).1.wf(),
        _ => true,
    }
}

/// Whether a layout was put back.
pub open spec fn layout_applied(
    before: HxyApp,
    layout: KeptLayout,
    after: HxyApp,
) -> bool {
    &&& match layout {
        KeptLayout::Fit { outer, inner } => after == (HxyApp {
            dock: outer,
            workspaces: after.workspaces,
            ..before
        }) && docks_taken(before.workspaces@, inner@, after.workspaces@),
        _ => after == before,
    }
}

/// Puts a layout back. One that is not fit changes nothing, and so does a dock
/// for a workspace that is gone.
pub fn apply_persisted_dock_layout(app: &mut HxyApp, layout: KeptLayout)
    requires
        old(app).wf(),
        layout_wf(layout),
    ensures
        final(app).wf(),
        layout_applied(*old(app), layout, *final(app)),
{
    let (outer, inner) = match layout {
        KeptLayout::Fit { outer, inner } => (outer, inner),
        _ => {
            return;
        },
    };
    app.dock = outer;
    let ghost first = *app;
    let ghost all = inner@;
    let ghost mut done: int = 0;
    let mut rest = inner;
    assert(rest@ =~= all.skip(0));
    assert(all.take(0) =~= seq![]);
    while rest.len() > 0
        invariant
            0 <= done <= all.len(),
            rest@ == all.skip(done),
            app.wf(),
            *app == (HxyApp { workspaces: app.workspaces, ..first }),
            docks_taken(first.workspaces@, all.take(done), app.workspaces@),
            forall|i: int| 0 <= i < all.len() ==> (#[trigger] all[i]).1.wf(),
            workspaces_ordered(first.workspaces@, first.next_workspace_id),
        decreases rest.len(),
    {
        assert(all.take(done + 1).drop_last() =~= all.take(done));
        let ghost mid = app.workspaces@;
        let (id, dock) = rest.remove(0);
        assert((id, dock) == all[done]);
        assert(dock.wf());
        if let Some(w) = find_workspace(&app.workspaces, id) {
            app.workspaces[w].dock = dock;
            assert(app.workspaces@ =~= mid.update(w as int, app.workspaces@[w as int]));
            assert forall|i: int| 0 <= i < mid.len() && i != w implies (#[trigger] mid[i]).id
                != id by {
                assert(mid[w as int].id == id);
            }
        }
        proof {
            done = done + 1;
        }
        assert(rest@ =~= all.skip(done));
    }
    assert(all.take(done) =~= all);
}

/// A file on disk comes back with the bytes that were read of it, under its name and
/// with its selection; one that cannot be read does not come back, and nothing changes.
pub proof fn law_restored_file_has_its_bytes(
    before: HxyApp,
    tab: OpenTabState,
    must_mount: bool,
    input: RestoreInput,
    r: Result<Restored, FileOpenError>,
    after: HxyApp,
)
    requires
        tab_restored(before, tab, must_mount, input, r, after),
        tab.source is Filesystem,
    ensures
        input.read matches ReadResult::Bytes(bytes) ==> {
            let n = before.files@.len() as int;
            &&& r matches Ok(Restored::Opened(done)) && done.id.0 == before.next_file_id
            &&& after.files@.len() == n + 1
            &&& after.files@[n].editor.bytes@ == bytes@
            &&& after.files@[n].display_name@ == input.file_name@
            &&& after.files@[n].editor.selection == tab.selection
            &&& after.files@[n].scroll == tab.scroll
            &&& after.files@[n].source == Some(tab.source)
        },
        !(input.read is Bytes) ==> r is Err && after == before,
        (r matches Ok(Restored::Opened(done)) && done.workspace is Some) ==> (tab.as_workspace
            || must_mount) && input.mounted is Some,
        ((tab.as_workspace || must_mount) && input.handler is Some && input.mounted is Some
            && input.read is Bytes) ==> (r matches Ok(Restored::Opened(done)) && done.workspace
            is Some),
{
    if input.read is Bytes {
        let n = before.files@.len() as int;
        assert(after.files@.last() == after.files@[n]);
    }
}

/// A scratch file comes back with the bytes that were kept, or with 256 zeros where they
/// are lost; one whose bytes cannot be read, or for which there is no place, does not.
pub proof fn law_restored_scratch_has_its_bytes(
    before: HxyApp,
    tab: OpenTabState,
    must_mount: bool,
    input: RestoreInput,
    r: Result<Restored, FileOpenError>,
    after: HxyApp,
    k: int,
)
    requires
        tab_restored(before, tab, must_mount, input, r, after),
        tab.source is Anonymous,
    ensures
        input.scratch_path is None || input.read is Failed ==> r is Err && after == before,
        input.scratch_path is Some ==> (input.read matches ReadResult::Bytes(bytes)
            ==> after.files@.len() == before.files@.len() + 1
            && after.files@[before.files@.len() as int].editor.bytes@ == bytes@),
        input.scratch_path is Some && input.read is NotFound ==> after.files@.len()
            == before.files@.len() + 1 && after.files@[before.files@.len() as int].editor.bytes@.len()
            == 256 && (0 <= k < 256
            ==> after.files@[before.files@.len() as int].editor.bytes@[k] == 0),
{
    if after.files@.len() > 0 {
        assert(after.files@.last() == after.files@[after.files@.len() - 1]);
    }
}

/// An entry waits for its bytes where its archive is mounted, stays remembered where
/// that cannot be used right now, and is given up where it is gone.
pub proof fn law_restored_entry_waits_for_its_archive(
    before: HxyApp,
    tab: OpenTabState,
    parent: TabSource,
    entry_path: String,
    must_mount: bool,
    input: RestoreInput,
    r: Result<Restored, FileOpenError>,
    after: HxyApp,
)
    requires
        tab_restored(before, tab, must_mount, input, r, after),
        tab.source == (TabSource::VfsEntry { parent: Box::new(parent), entry_path }),
    ensures
        live_mount(before, parent@) is Some ==> r matches Ok(Restored::Loading { file_id: _ }),
        live_mount(before, parent@) is None && mount_pending(before, parent@) ==> (r matches Ok(
            Restored::Waiting,
        )) && after == before,
        live_mount(before, parent@) is None && !mount_pending(before, parent@) ==> r is Err && after
            == before,
{
}

/// The bytes of an entry that were read are what its tab shows, and nothing of it is
/// unsaved; an error is what its tab tells, and no other file changes.
pub proof fn law_loaded_entry_shows_its_bytes(
    before: HxyApp,
    i: int,
    result: Result<Vec<u8>, String>,
    after: HxyApp,
    k: int,
)
    requires
        before.wf(),
        0 <= i < before.files@.len(),
        loading_finished(before, before.files@[i].id, result, after),
    ensures
        result matches Ok(bytes) ==> after.files@[i].editor.bytes@ == bytes@
            && after.files@[i].load is Ready && !after.files@[i].editor.spec_is_dirty(),
        result matches Err(e) ==> after.files@[i].load == LoadStatus::Failed(e)
            && after.files@[i].editor == before.files@[i].editor,
        0 <= k < before.files@.len() && k != i ==> after.files@[k] == before.files@[k],
        after.files@.len() == before.files@.len(),
{
    crate::session::lemma_file_at(before.files@, before.files@[i].id, i);
}

/// A layout that fits is put back: the outer dock is the one that was kept, and each
/// workspace gets the one that was kept for it. Any other changes nothing.
pub proof fn law_layout_is_put_back(
    before: HxyApp,
    layout: KeptLayout,
    after: HxyApp,
    w: int,
    k: int,
)
    requires
        layout_applied(before, layout, after),
        0 <= w < before.workspaces@.len(),
    ensures
        !(layout is Fit) ==> after == before,
        layout matches KeptLayout::Fit { outer, inner } ==> {
            &&& after.dock == outer
            &&& after.files == before.files
            &&& after.workspaces@.len() == before.workspaces@.len()
            &&& after.workspaces@[w].id == before.workspaces@[w].id
            &&& (0 <= k < inner@.len() && inner@[k].0 == before.workspaces@[w].id && forall|j: int|
                k < j < inner@.len() ==> (#[trigger] inner@[j]).0 != before.workspaces@[w].id)
                ==> after.workspaces@[w].dock == inner@[k].1
            &&& (forall|j: int|
                0 <= j < inner@.len() ==> (#[trigger] inner@[j]).0 != before.workspaces@[w].id)
                ==> after.workspaces@[w].dock == before.workspaces@[w].dock
        },
{
    match layout {
        KeptLayout::Fit { outer, inner } => {
            lemma_dock_for(inner@, before.workspaces@[w].id, before.workspaces@[w].dock, k);
            assert(after.workspaces@[w].dock == dock_for(
                inner@,
                before.workspaces@[w].id,
                before.workspaces@[w].dock,
            ));
        },
        _ => {},
    }
}

proof fn lemma_dock_for(inner: Seq<(WorkspaceId, Dock)>, id: WorkspaceId, dock: Dock, k: int)
    ensures
        (0 <= k < inner.len() && inner[k].0 == id && forall|j: int|
            k < j < inner.len() ==> (#[trigger] inner[j]).0 != id) ==> dock_for(inner, id, dock)
            == inner[k].1,
        (forall|j: int| 0 <= j < inner.len() ==> (#[trigger] inner[j]).0 != id) ==> dock_for(
            inner,
            id,
            dock,
        ) == dock,
    decreases inner.len(),
{
    if inner.len() > 0 {
        let init = inner.drop_last();
        lemma_dock_for(init, id, dock, k);
        assert(inner.last() == inner[inner.len() - 1]);
        assert forall|j: int| 0 <= j < init.len() implies init[j] == #[trigger] inner[j] by {}
    }
}

/// Tabs of one depth are restored in the order in which they are remembered.
pub proof fn law_restore_order_is_stable(tabs: Seq<OpenTabState>, t: OpenTabState)
    ensures
        by_depth(seq![]) == Seq::<OpenTabState>::empty(),
        (forall|i: int|
            0 <= i < by_depth(tabs).len() ==> tab_depth(#[trigger] by_depth(tabs)[i]) <= tab_depth(
                t,
            )) ==> by_depth(tabs.push(t)) == by_depth(tabs).push(t),
{
    assert(tabs.push(t).drop_last() =~= tabs);
    if by_depth(tabs).len() > 0 {
        assert(by_depth(tabs).last() == by_depth(tabs)[by_depth(tabs).len() - 1]);
    }
}

/// A tab opens as a workspace exactly where it was one or another remembered tab is an
/// entry of it.
pub proof fn law_parent_of_entry_opens_as_workspace(
    tab: OpenTabState,
    tabs: Seq<OpenTabState>,
    r: bool,
    i: int,
)
    requires
        workspace_wanted(tab, tabs, r),
    ensures
        tab.as_workspace ==> r,
        0 <= i < tabs.len() && (tabs[i].source@ matches SourceView::VfsEntry {
            parent,
            entry_path: _,
        } && *parent == tab.source@) ==> r,
        !tab.as_workspace && (forall|k: int|
            0 <= k < tabs.len() ==> !((#[trigger] tabs[k]).source@ matches SourceView::VfsEntry {
                parent,
                entry_path: _,
            } && *parent == tab.source@)) ==> !r,
{
    if 0 <= i < tabs.len() {
        let t = tabs[i];
    }
}

/// A file on disk is opened with the bytes that were read; where reading failed nothing
/// changes and the error names the path.
pub proof fn law_unreadable_file_is_not_opened(
    before: HxyApp,
    display_name: Seq<char>,
    path: Seq<char>,
    read: Result<Vec<u8>, String>,
    selection: Option<Selection>,
    scroll: Option<u64>,
    facts: FileFacts,
    r: Result<FileId, FileOpenError>,
    after: HxyApp,
)
    requires
        path_opened(before, display_name, path, read, selection, scroll, facts, r, after),
    ensures
        read matches Ok(bytes) ==> {
            let file = after.files@[before.files@.len() as int];
            &&& r matches Ok(id) && id == file.id
            &&& after.files@.len() == before.files@.len() + 1
            &&& file.editor.bytes@ == bytes@ && file.display_name@ == display_name
            &&& file.editor.selection == selection
            &&& file.source matches Some(s) && s@ == SourceView::Filesystem(path)
        },
        read matches Err(e) ==> after == before && (r matches Err(
            FileOpenError::Read { path: p, reason },
        ) && p@ == path && reason@ == e@),
{
    if read is Ok {
        assert(after.files@.last() == after.files@[before.files@.len() as int]);
    }
}

/// A scratch file comes back with the bytes that were kept, with zeros where none were,
/// and not at all where they could not be read.
pub proof fn law_kept_scratch_bytes(read: ReadResult, i: int)
    ensures
        read matches ReadResult::Bytes(b) ==> scratch_bytes(read) == Some(b@),
        read is NotFound ==> (scratch_bytes(read) matches Some(s) && s.len()
            == 256 && (0 <= i < s.len() ==> s[i] == 0)),
        read is Failed ==> scratch_bytes(read) is None,
{
}

/// An entry comes back in the workspace of the file that holds it; without one it gets
/// a tab of its own.
pub proof fn law_entry_comes_back_in_its_workspace(app: HxyApp, parent: SourceView, i: int, w: int)
    ensures
        crate::session::file_with_source(app.files@, parent) == Some(i)
            && crate::session::workspace_of_file(app.workspaces@, app.files@[i].id) == Some(w)
            ==> entry_target(app, parent) == OpenTarget::Workspace(app.workspaces@[w].id),
        crate::session::file_with_source(app.files@, parent) is None ==> entry_target(app, parent)
            is Toplevel,
{
}

} // verus!
