//! Comparisons: where the bytes of each side come from, and the tab that shows
//! them.

use vstd::prelude::*;
use vstd::string::*;
#[allow(unused_imports)]
use crate::closing::redocked;
use crate::session::{find_mount_for_source, HxyApp, MountRef};
#[allow(unused_imports)]
use crate::session::{live_mount, opened_in_leaf};
use crate::source::{entry_name, TabSource};
#[allow(unused_imports)]
use crate::source::{leaf_name, SourceView};
use crate::tabs::{CompareId, DockTab, Tab};

verus! {

/// Why a side of a comparison has no bytes.
pub enum CompareSpawnError {
    /// A file on disk could not be read.
    ReadFile { path: String, reason: String },
    /// An entry could not be read.
    ReadOpenFile(String),
    /// A scratch file or a mount of a plugin is no side of a comparison.
    Unsupported,
}

/// Where the bytes of a side come from.
pub enum SidePlan {
    Disk { path: String },
    Entry { mount: MountRef, entry_path: String },
}

/// Whether it is told where the bytes of a side come from.
pub open spec fn side_planned(
    app: HxyApp,
    source: SourceView,
    r: Result<SidePlan, CompareSpawnError>,
) -> bool {
    &&& match (source, r) {
        (SourceView::Filesystem(p), Ok(SidePlan::Disk { path })) => path@ == p,
        (
            SourceView::VfsEntry { parent, entry_path: e },
            Ok(SidePlan::Entry { mount, entry_path }),
        ) => live_mount(app, *parent) == Some(mount) && entry_path@ == e,
        (
            SourceView::VfsEntry { parent, .. },
            Err(CompareSpawnError::ReadOpenFile(reason)),
        ) => live_mount(app, *parent) is None && reason@ == "parent VFS mount missing"@,
        (SourceView::Anonymous { .. }, Err(CompareSpawnError::Unsupported)) => true,
        (SourceView::PluginMount { .. }, Err(CompareSpawnError::Unsupported)) => true,
        _ => false,
    }
}

/// Tells where the bytes of a side come from.
pub fn plan_side(app: &HxyApp, source: &TabSource) -> (r: Result<SidePlan, CompareSpawnError>)
    ensures
        side_planned(*app, source@, r),
{
    match source {
        TabSource::Filesystem(path) => Ok(SidePlan::Disk { path: path.clone() }),
        TabSource::VfsEntry { parent, entry_path } => match find_mount_for_source(app, &**parent) {
            Some(mount) => Ok(SidePlan::Entry { mount, entry_path: entry_path.clone() }),
            None => Err(CompareSpawnError::ReadOpenFile("parent VFS mount missing".to_owned())),
        },
        _ => Err(CompareSpawnError::Unsupported),
    }
}

/// One side of a comparison.
pub struct CompareSideBytes {
    pub name: String,
    pub bytes: Vec<u8>,
}

/// Whether what was read of a side was taken in.
pub open spec fn side_finished(
    plan: SidePlan,
    file_name: Option<String>,
    read: Result<Vec<u8>, String>,
    r: Result<CompareSideBytes, CompareSpawnError>,
) -> bool {
    &&& match (plan, read) {
        (SidePlan::Disk { path }, Ok(bytes)) => r matches Ok(side) && side.bytes == bytes
            && side.name == (match file_name {
            Some(name) => name,
            None => path,
        }),
        (SidePlan::Disk { path }, Err(reason)) => r == Err::<
            CompareSideBytes,
            CompareSpawnError,
        >(CompareSpawnError::ReadFile { path, reason }),
        (SidePlan::Entry { entry_path, .. }, Ok(bytes)) => r matches Ok(side) && side.bytes
            == bytes && side.name@ == leaf_name(entry_path@),
        (SidePlan::Entry { .. }, Err(reason)) => r == Err::<
            CompareSideBytes,
            CompareSpawnError,
        >(CompareSpawnError::ReadOpenFile(reason)),
    }
}

/// Takes in what was read of a side. `file_name` is the last part of a path on
/// disk, where it has one.
pub fn finish_side(plan: SidePlan, file_name: Option<String>, read: Result<Vec<u8>, String>) -> (r:
    Result<CompareSideBytes, CompareSpawnError>)
    ensures
        side_finished(plan, file_name, read, r),
{
    match plan {
        SidePlan::Disk { path } => match read {
            Ok(bytes) => {
                let name = match file_name {
                    Some(name) => name,
                    None => path,
                };
                Ok(CompareSideBytes { name, bytes })
            },
            Err(reason) => Err(CompareSpawnError::ReadFile { path, reason }),
        },
        SidePlan::Entry { entry_path, .. } => match read {
            Ok(bytes) => Ok(CompareSideBytes { name: entry_name(entry_path.as_str()), bytes }),
            Err(reason) => Err(CompareSpawnError::ReadOpenFile(reason)),
        },
    }
}

/// One side of a comparison as it is shown, with where it came from.
pub struct ComparePane {
    pub source: TabSource,
    pub name: String,
    pub bytes: Vec<u8>,
}

/// A comparison of two files.
pub struct CompareSession {
    pub id: CompareId,
    pub first: ComparePane,
    pub second: ComparePane,
}

/// The pane of a side that was read.
pub open spec fn pane_of(source: TabSource, side: CompareSideBytes) -> ComparePane {
    ComparePane { source, name: side.name, bytes: side.bytes }
}

/// Whether a comparison of two sources was started.
pub open spec fn compare_spawned(
    before: HxyApp,
    a: TabSource,
    b: TabSource,
    first: Result<CompareSideBytes, CompareSpawnError>,
    second: Result<CompareSideBytes, CompareSpawnError>,
    r: Result<CompareSession, CompareSpawnError>,
    after: HxyApp,
) -> bool {
    &&& match (first, second) {
        (Ok(x), Ok(y)) => r == Ok::<CompareSession, CompareSpawnError>(
            CompareSession {
                id: CompareId(before.next_compare_id),
                first: pane_of(a, x),
                second: pane_of(b, y),
            },
        ) && after == (HxyApp {
            next_compare_id: (before.next_compare_id + 1) as u64,
            ..before
        }),
        (Err(e), _) => r == Err::<CompareSession, CompareSpawnError>(e) && after == before,
        (_, Err(e)) => r == Err::<CompareSession, CompareSpawnError>(e) && after == before,
    }
}

/// Starts a comparison of two sources. It takes what was read of both; the error
/// of the first counts where neither is there.
pub fn spawn_compare_from_sources(
    app: &mut HxyApp,
    a: TabSource,
    b: TabSource,
    first: Result<CompareSideBytes, CompareSpawnError>,
    second: Result<CompareSideBytes, CompareSpawnError>,
) -> (r: Result<CompareSession, CompareSpawnError>)
    requires
        old(app).wf(),
        old(app).next_compare_id < u64::MAX,
    ensures
        final(app).wf(),
        compare_spawned(*old(app), a, b, first, second, r, *final(app)),
{
    let x = match first {
        Ok(x) => x,
        Err(e) => {
            return Err(e);
        },
    };
    let y = match second {
        Ok(y) => y,
        Err(e) => {
            return Err(e);
        },
    };
    let id = CompareId(app.next_compare_id);
    app.next_compare_id = app.next_compare_id + 1;
    Ok(
        CompareSession {
            id,
            first: ComparePane { source: a, name: x.name, bytes: x.bytes },
            second: ComparePane { source: b, name: y.name, bytes: y.bytes },
        },
    )
}

/// Whether a comparison is one of two sources.
pub open spec fn compares(session: CompareSession, a: SourceView, b: SourceView) -> bool {
    session.first.source@ == a && session.second.source@ == b
}

/// Whether a place is the first of a comparison of two sources.
pub open spec fn comparison_found(
    sessions: Seq<CompareSession>,
    a: SourceView,
    b: SourceView,
    r: Option<usize>,
) -> bool {
    &&& match r {
        Some(i) => i < sessions.len() && compares(sessions[i as int], a, b) && forall|j: int|
            0 <= j < i ==> !compares(#[trigger] sessions[j], a, b),
        None => forall|j: int|
            0 <= j < sessions.len() ==> !compares(#[trigger] sessions[j], a, b),
    }
}

/// Finds the first comparison of two sources, so that the tab of an earlier run
/// is found again.
pub fn find_compare_of(sessions: &Vec<CompareSession>, a: &TabSource, b: &TabSource) -> (r: Option<
    usize,
>)
    ensures
        comparison_found(sessions@, a@, b@, r),
{
    let mut i: usize = 0;
    while i < sessions.len()
        invariant
            i <= sessions@.len(),
            forall|j: int| 0 <= j < i ==> !compares(#[trigger] sessions@[j], a@, b@),
        decreases sessions@.len() - i,
    {
        if sessions[i].first.source.same(a) && sessions[i].second.source.same(b) {
            return Some(i);
        }
        i = i + 1;
    }
    None
}

/// Shows a comparison in a tab of its own.
pub fn show_compare(app: &mut HxyApp, id: CompareId)
    requires
        old(app).wf(),
    ensures
        final(app).wf(),
        redocked(
            *old(app),
            opened_in_leaf(
                old(app).dock@.pushed(DockTab::Outer(Tab::Compare(id))),
                DockTab::Outer(Tab::Compare(id)),
            ),
            *final(app),
        ),
{
    let tab = DockTab::Outer(Tab::Compare(id));
    app.dock.push_to_focused_leaf(tab);
    if let Some(at) = app.dock.find_tab(&tab) {
        app.dock.set_active_tab(at);
    }
}

/// Whether a pair of sources is in a list.
pub open spec fn pair_listed(list: Seq<(TabSource, TabSource)>, a: SourceView, b: SourceView)
    -> bool {
    exists|i: int| 0 <= i < list.len() && (#[trigger] list[i]).0@ == a && list[i].1@ == b
}

/// Pairs of sources without those that were there before.
pub open spec fn distinct_pairs(list: Seq<(TabSource, TabSource)>) -> Seq<(TabSource, TabSource)>
    decreases list.len(),
{
    if list.len() == 0 {
        seq![]
    } else {
        let init = list.drop_last();
        if pair_listed(init, list.last().0@, list.last().1@) {
            distinct_pairs(init)
        } else {
            distinct_pairs(init).push(list.last())
        }
    }
}

proof fn lemma_pair_listed(list: Seq<(TabSource, TabSource)>, a: SourceView, b: SourceView)
    ensures
        pair_listed(distinct_pairs(list), a, b) == pair_listed(list, a, b),
    decreases list.len(),
{
    if list.len() > 0 {
        let init = list.drop_last();
        let last = list.last();
        lemma_pair_listed(init, a, b);
        lemma_listed_push(init, last, a, b);
        assert(init.push(last) =~= list);
        if !pair_listed(init, last.0@, last.1@) {
            lemma_listed_push(distinct_pairs(init), last, a, b);
        }
    }
}

proof fn lemma_listed_push(
    list: Seq<(TabSource, TabSource)>,
    pair: (TabSource, TabSource),
    a: SourceView,
    b: SourceView,
)
    ensures
        pair_listed(list.push(pair), a, b) == (pair_listed(list, a, b) || (pair.0@ == a && pair.1@
            == b)),
{
    let all = list.push(pair);
    if pair_listed(list, a, b) {
        let i = choose|i: int| 0 <= i < list.len() && (#[trigger] list[i]).0@ == a && list[i].1@ == b;
        assert(all[i].0@ == a && all[i].1@ == b);
    }
    if pair.0@ == a && pair.1@ == b {
        assert(all[list.len() as int].0@ == a && all[list.len() as int].1@ == b);
    }
    if pair_listed(all, a, b) {
        let i = choose|i: int| 0 <= i < all.len() && (#[trigger] all[i]).0@ == a && all[i].1@ == b;
        if i < list.len() {
            assert(list[i].0@ == a && list[i].1@ == b);
        }
    }
}

fn is_pair_listed(list: &Vec<(TabSource, TabSource)>, a: &TabSource, b: &TabSource) -> (r: bool)
    ensures
        r == pair_listed(list@, a@, b@),
{
    let mut i: usize = 0;
    while i < list.len()
        invariant
            i <= list@.len(),
            forall|j: int|
                0 <= j < i ==> !((#[trigger] list@[j]).0@ == a@ && list@[j].1@ == b@),
        decreases list@.len() - i,
    {
        if list[i].0.same(a) && list[i].1.same(b) {
            return true;
        }
        i = i + 1;
    }
    false
}

/// The comparisons to start again for a layout that was kept: each pair once,
/// in the order of the tabs.
pub fn respawn_persisted_compares(pairs: Vec<(TabSource, TabSource)>) -> (r: Vec<
    (TabSource, TabSource),
>)
    ensures
        r@ == distinct_pairs(pairs@),
{
    let ghost all = pairs@;
    let ghost mut done: int = 0;
    let mut rest = pairs;
    let mut out: Vec<(TabSource, TabSource)> = Vec::new();
    assert(rest@ =~= all.skip(0));
    assert(all.take(0) =~= seq![]);
    while rest.len() > 0
        invariant
            0 <= done <= all.len(),
            rest@ == all.skip(done),
            out@ == distinct_pairs(all.take(done)),
        decreases rest.len(),
    {
        assert(all.take(done + 1).drop_last() =~= all.take(done));
        let pair = rest.remove(0);
        assert(pair == all[done]);
        proof {
            lemma_pair_listed(all.take(done), pair.0@, pair.1@);
        }
        if !is_pair_listed(&out, &pair.0, &pair.1) {
            out.push(pair);
        }
        proof {
            done = done + 1;
        }
        assert(rest@ =~= all.skip(done));
    }
    assert(all.take(done) =~= all);
    out
}

/// Every pair of a layout is compared, and none twice.
pub proof fn law_each_pair_once(
    list: Seq<(TabSource, TabSource)>,
    a: SourceView,
    b: SourceView,
    i: int,
    j: int,
)
    ensures
        pair_listed(distinct_pairs(list), a, b) == pair_listed(list, a, b),
        0 <= i < j < distinct_pairs(list).len() ==> !(distinct_pairs(list)[i].0@ == distinct_pairs(
            list,
        )[j].0@ && distinct_pairs(list)[i].1@ == distinct_pairs(list)[j].1@),
    decreases list.len(),
{
    lemma_pair_listed(list, a, b);
    if list.len() > 0 {
        let init = list.drop_last();
        let last = list.last();
        let d = distinct_pairs(init);
        law_each_pair_once(init, a, b, i, j);
        if !pair_listed(init, last.0@, last.1@) && 0 <= i < j && j == d.len() {
            lemma_pair_listed(init, last.0@, last.1@);
            assert(d.push(last)[i] == d[i]);
            if d[i].0@ == last.0@ && d[i].1@ == last.1@ {
                assert(pair_listed(d, last.0@, last.1@));
            }
        }
    }
}

/// The bytes of a file on disk come from its path, those of an entry from the mount of
/// its archive; scratch files and plugins' mounts are no sides.
pub proof fn law_side_is_read_from_its_source(
    app: HxyApp,
    source: SourceView,
    r: Result<SidePlan, CompareSpawnError>,
)
    requires
        side_planned(app, source, r),
    ensures
        source matches SourceView::Filesystem(p) ==> (r matches Ok(SidePlan::Disk { path }) && path@
            == p),
        source matches SourceView::VfsEntry { parent, entry_path: e } ==> match live_mount(
            app,
            *parent,
        ) {
            Some(m) => r matches Ok(SidePlan::Entry { mount, entry_path }) && mount == m
                && entry_path@ == e,
            None => r matches Err(CompareSpawnError::ReadOpenFile(_)),
        },
        source is Anonymous || source is PluginMount ==> r matches Err(
            CompareSpawnError::Unsupported,
        ),
{
}

/// A side has exactly the bytes that were read; what could not be read is no side.
pub proof fn law_side_has_its_bytes(
    plan: SidePlan,
    file_name: Option<String>,
    read: Result<Vec<u8>, String>,
    r: Result<CompareSideBytes, CompareSpawnError>,
)
    requires
        side_finished(plan, file_name, read, r),
    ensures
        read matches Ok(bytes) ==> (r matches Ok(side) && side.bytes@ == bytes@),
        read is Err ==> r is Err,
        read is Ok ==> (plan matches SidePlan::Disk { path } ==> (r matches Ok(side) && side.name@
            == match file_name {
            Some(name) => name@,
            None => path@,
        })),
        read is Ok ==> (plan matches SidePlan::Entry { mount: _, entry_path } ==> (r matches Ok(side)
            && side.name@ == leaf_name(entry_path@))),
{
}

/// A comparison shows the first source on the first side and the second on the second,
/// each with its own bytes and name, under an id that no comparison had. Where one of
/// them is not there, nothing starts and no id is used.
pub proof fn law_comparison_shows_both_sides(
    before: HxyApp,
    a: TabSource,
    b: TabSource,
    first: Result<CompareSideBytes, CompareSpawnError>,
    second: Result<CompareSideBytes, CompareSpawnError>,
    r: Result<CompareSession, CompareSpawnError>,
    after: HxyApp,
)
    requires
        before.next_compare_id < u64::MAX,
        compare_spawned(before, a, b, first, second, r, after),
    ensures
        r is Ok <==> first is Ok && second is Ok,
        first matches Ok(x) ==> (second matches Ok(y) ==> {
            &&& r matches Ok(s) && s.first.source == a && s.second.source == b
                && s.first.bytes@ == x.bytes@ && s.second.bytes@ == y.bytes@ && s.first.name@
                == x.name@ && s.second.name@ == y.name@ && s.id.0 == before.next_compare_id
            &&& after.next_compare_id == before.next_compare_id + 1
        }),
        first matches Err(e) ==> r == Err::<CompareSession, CompareSpawnError>(e),
        r is Err ==> after == before,
        after.files == before.files,
{
}

/// A comparison is found by its first source and its second one, in that order; none is
/// found only where there is none.
pub proof fn law_comparison_of_sources_is_found(
    sessions: Seq<CompareSession>,
    a: SourceView,
    b: SourceView,
    r: Option<usize>,
    k: int,
)
    requires
        comparison_found(sessions, a, b, r),
    ensures
        r matches Some(i) ==> i < sessions.len() && sessions[i as int].first.source@ == a
            && sessions[i as int].second.source@ == b,
        0 <= k < sessions.len() && sessions[k].first.source@ == a && sessions[k].second.source@ == b
            ==> (r matches Some(i) && i <= k),
{
    if 0 <= k < sessions.len() && sessions[k].first.source@ == a && sessions[k].second.source@ == b {
        assert(compares(sessions[k], a, b));
    }
}

} // verus!
