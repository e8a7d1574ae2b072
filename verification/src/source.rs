//! Where a tab's bytes come from, and the record of open tabs that survives a
//! restart.

use vstd::prelude::*;
use vstd::string::*;
use crate::editor::Selection;

verus! {

/// Identity of a tab's byte source.
pub enum TabSource {
    /// A file on disk, by path.
    Filesystem(String),
    /// An entry inside a mounted source.
    VfsEntry { parent: Box<TabSource>, entry_path: String },
    /// A scratch buffer.
    Anonymous { id: u64, title: String },
    /// A mount that a plugin made from a token.
    PluginMount { plugin_name: String, token: String, title: String },
}

/// What two sources must share to be the same.
pub enum SourceView {
    Filesystem(Seq<char>),
    VfsEntry { parent: Box<SourceView>, entry_path: Seq<char> },
    Anonymous { id: u64, title: Seq<char> },
    PluginMount { plugin_name: Seq<char>, token: Seq<char>, title: Seq<char> },
}

/// The view of a source.
pub open spec fn source_view(s: TabSource) -> SourceView
    decreases s,
{
    match s {
        TabSource::Filesystem(path) => SourceView::Filesystem(path@),
        TabSource::VfsEntry { parent, entry_path } => SourceView::VfsEntry {
            parent: Box::new(source_view(*parent)),
            entry_path: entry_path@,
        },
        TabSource::Anonymous { id, title } => SourceView::Anonymous { id, title: title@ },
        TabSource::PluginMount { plugin_name, token, title } => SourceView::PluginMount {
            plugin_name: plugin_name@,
            token: token@,
            title: title@,
        },
    }
}

impl View for TabSource {
    type V = SourceView;

    open spec fn view(&self) -> SourceView {
        source_view(*self)
    }
}

impl Clone for TabSource {
    fn clone(&self) -> (r: Self)
        ensures
            r == *self,
        decreases self,
    {
        match self {
            TabSource::Filesystem(path) => TabSource::Filesystem(path.clone()),
            TabSource::VfsEntry { parent, entry_path } => TabSource::VfsEntry {
                parent: Box::new((&**parent).clone()),
                entry_path: entry_path.clone(),
            },
            TabSource::Anonymous { id, title } => TabSource::Anonymous {
                id: *id,
                title: title.clone(),
            },
            TabSource::PluginMount { plugin_name, token, title } => TabSource::PluginMount {
                plugin_name: plugin_name.clone(),
                token: token.clone(),
                title: title.clone(),
            },
        }
    }
}

/// How many mounts a source is nested in.
pub open spec fn source_depth(s: SourceView) -> nat
    decreases s,
{
    match s {
        SourceView::VfsEntry { parent, .. } => source_depth(*parent) + 1,
        _ => 0,
    }
}

/// The path on disk that a source ultimately derives from.
pub open spec fn source_root(s: SourceView) -> Option<Seq<char>>
    decreases s,
{
    match s {
        SourceView::Filesystem(path) => Some(path),
        SourceView::VfsEntry { parent, .. } => source_root(*parent),
        _ => None,
    }
}

/// A child source lies deeper than its parent.
pub proof fn law_child_is_deeper(parent: SourceView, entry_path: Seq<char>)
    ensures
        source_depth(SourceView::VfsEntry { parent: Box::new(parent), entry_path }) > source_depth(
            parent,
        ),
{
}

impl TabSource {
    /// Whether both name the same bytes.
    pub fn same(&self, other: &TabSource) -> (r: bool)
        ensures
            r == (self@ == other@),
        decreases self,
    {
        match (self, other) {
            (TabSource::Filesystem(a), TabSource::Filesystem(b)) => *a == *b,
            (
                TabSource::VfsEntry { parent: p, entry_path: a },
                TabSource::VfsEntry { parent: q, entry_path: b },
            ) => (&**p).same(&**q) && *a == *b,
            (
                TabSource::Anonymous { id: i, title: a },
                TabSource::Anonymous { id: j, title: b },
            ) => *i == *j && *a == *b,
            (
                TabSource::PluginMount { plugin_name: n, token: t, title: a },
                TabSource::PluginMount { plugin_name: m, token: u, title: b },
            ) => *n == *m && *t == *u && *a == *b,
            _ => false,
        }
    }

    /// How many mounts the source is nested in. The count stops at the largest
    /// number that fits.
    pub fn depth(&self) -> (r: u64)
        ensures
            source_depth(self@) <= u64::MAX ==> r == source_depth(self@),
            source_depth(self@) > u64::MAX ==> r == u64::MAX,
        decreases self,
    {
        match self {
            TabSource::VfsEntry { parent, .. } => {
                let below: u64 = (&**parent).depth();
                if below == u64::MAX {
                    u64::MAX
                } else {
                    below + 1
                }
            },
            _ => 0,
        }
    }

    /// The path on disk that the source ultimately derives from.
    pub fn root_path(&self) -> (r: Option<String>)
        ensures
            match (source_root(self@), r) {
                (Some(a), Some(b)) => a == b@,
                (None, None) => true,
                _ => false,
            },
        decreases self,
    {
        match self {
            TabSource::Filesystem(path) => Some(path.clone()),
            TabSource::VfsEntry { parent, .. } => (&**parent).root_path(),
            _ => None,
        }
    }
}

/// One remembered tab.
pub struct OpenTabState {
    pub source: TabSource,
    pub selection: Option<Selection>,
    /// Scroll position, in whatever unit the view measures it.
    pub scroll: u64,
    pub as_workspace: bool,
    pub visualizer_open: bool,
}

/// Whether a source is among the remembered tabs.
pub open spec fn tab_recorded(tabs: Seq<OpenTabState>, source: SourceView) -> bool {
    exists|i: int| 0 <= i < tabs.len() && (#[trigger] tabs[i]).source@ == source
}

/// Whether no source is remembered twice.
pub open spec fn sources_distinct(tabs: Seq<OpenTabState>) -> bool {
    forall|i: int, j: int|
        0 <= i < j < tabs.len() ==> (#[trigger] tabs[i]).source@ != (#[trigger] tabs[j]).source@
}

/// Place of the first remembered tab with a source.
pub open spec fn tab_index(tabs: Seq<OpenTabState>, source: SourceView) -> Option<int>
    decreases tabs.len(),
{
    if tabs.len() == 0 {
        None
    } else {
        match tab_index(tabs.drop_last(), source) {
            Some(i) => Some(i),
            None => if tabs.last().source@ == source {
                Some(tabs.len() - 1)
            } else {
                None
            },
        }
    }
}

proof fn lemma_tab_index(tabs: Seq<OpenTabState>, source: SourceView, i: int)
    requires
        0 <= i < tabs.len(),
        tabs[i].source@ == source,
        forall|j: int| 0 <= j < i ==> (#[trigger] tabs[j]).source@ != source,
    ensures
        tab_index(tabs, source) == Some(i),
    decreases tabs.len(),
{
    if i < tabs.len() - 1 {
        lemma_tab_index(tabs.drop_last(), source, i);
    } else {
        lemma_tab_index_none(tabs.drop_last(), source);
    }
}

proof fn lemma_tab_index_none(tabs: Seq<OpenTabState>, source: SourceView)
    requires
        forall|j: int| 0 <= j < tabs.len() ==> (#[trigger] tabs[j]).source@ != source,
    ensures
        tab_index(tabs, source) is None,
    decreases tabs.len(),
{
    if tabs.len() > 0 {
        lemma_tab_index_none(tabs.drop_last(), source);
    }
}

/// Place of the first remembered tab with a source.
pub fn find_tab_state(tabs: &Vec<OpenTabState>, source: &TabSource) -> (r: Option<usize>)
    ensures
        match (tab_index(tabs@, source@), r) {
            (Some(a), Some(b)) => a == b && b < tabs@.len() && tabs@[b as int].source@ == source@,
            (None, None) => !tab_recorded(tabs@, source@),
            _ => false,
        },
{
    let mut i: usize = 0;
    while i < tabs.len()
        invariant
            i <= tabs.len(),
            forall|j: int| 0 <= j < i ==> (#[trigger] tabs@[j]).source@ != source@,
        decreases tabs.len() - i,
    {
        if tabs[i].source.same(source) {
            proof {
                lemma_tab_index(tabs@, source@, i as int);
            }
            return Some(i);
        }
        i = i + 1;
    }
    proof {
        lemma_tab_index_none(tabs@, source@);
    }
    None
}

/// The remembered tabs after one was recorded: appended unless its source is
/// there already.
pub open spec fn recorded(tabs: Seq<OpenTabState>, entry: OpenTabState) -> Seq<OpenTabState> {
    if tab_recorded(tabs, entry.source@) {
        tabs
    } else {
        tabs.push(entry)
    }
}

/// Records a tab unless its source is remembered already.
pub fn record_tab(tabs: &mut Vec<OpenTabState>, entry: OpenTabState)
    ensures
        final(tabs)@ == recorded(old(tabs)@, entry),
        sources_distinct(old(tabs)@) ==> sources_distinct(final(tabs)@),
        tab_recorded(final(tabs)@, entry.source@),
{
    match find_tab_state(tabs, &entry.source) {
        Some(_) => {
            assert(tab_recorded(tabs@, entry.source@));
        },
        None => {
            let ghost before = tabs@;
            tabs.push(entry);
            assert(tabs@[before.len() as int].source@ == entry.source@);
        },
    }
}

/// The remembered tabs that do not have the given source, in order.
pub open spec fn tabs_without(tabs: Seq<OpenTabState>, source: SourceView) -> Seq<OpenTabState>
    decreases tabs.len(),
{
    if tabs.len() == 0 {
        seq![]
    } else if tabs.last().source@ == source {
        tabs_without(tabs.drop_last(), source)
    } else {
        tabs_without(tabs.drop_last(), source).push(tabs.last())
    }
}

/// What is forgotten is gone, and what else was remembered stays.
pub proof fn law_forgotten(tabs: Seq<OpenTabState>, source: SourceView, other: SourceView)
    ensures
        !tab_recorded(tabs_without(tabs, source), source),
        other != source ==> tab_recorded(tabs_without(tabs, source), other) == tab_recorded(
            tabs,
            other,
        ),
        sources_distinct(tabs) ==> sources_distinct(tabs_without(tabs, source)),
        tabs_without(tabs, source).len() <= tabs.len(),
    decreases tabs.len(),
{
    if tabs.len() > 0 {
        let rest = tabs.drop_last();
        law_forgotten(rest, source, other);
        law_forgotten(rest, source, tabs.last().source@);
        let kept = tabs_without(rest, source);
        let out = tabs_without(tabs, source);
        if tabs.last().source@ != source {
            assert(out == kept.push(tabs.last()));
            assert forall|i: int| 0 <= i < out.len() implies (#[trigger] out[i]).source@
                != source by {
                if i < kept.len() {
                    assert(out[i] == kept[i]);
                    assert(kept[i].source@ != source);
                }
            }
            if tab_recorded(out, other) {
                let i = choose|i: int| 0 <= i < out.len() && (#[trigger] out[i]).source@ == other;
                if i < kept.len() {
                    assert(kept[i].source@ == other);
                    assert(tab_recorded(rest, other) || other == source);
                    if other != source {
                        let j = choose|j: int|
                            0 <= j < rest.len() && (#[trigger] rest[j]).source@ == other;
                        assert(tabs[j].source@ == other);
                    }
                } else {
                    assert(tabs[tabs.len() - 1].source@ == other);
                }
            }
            if tab_recorded(tabs, other) && other != source {
                let i = choose|i: int| 0 <= i < tabs.len() && (#[trigger] tabs[i]).source@ == other;
                if i < rest.len() {
                    assert(rest[i].source@ == other);
                    let j = choose|j: int| 0 <= j < kept.len() && (#[trigger] kept[j]).source@ == other;
                    assert(out[j].source@ == other);
                } else {
                    assert(out[kept.len() as int].source@ == other);
                }
            }
            if sources_distinct(tabs) {
                assert(sources_distinct(rest)) by {
                    assert forall|i: int, j: int| 0 <= i < j < rest.len() implies (
                    #[trigger] rest[i]).source@ != (#[trigger] rest[j]).source@ by {
                        assert(rest[i] == tabs[i] && rest[j] == tabs[j]);
                    }
                }
                assert(!tab_recorded(rest, tabs.last().source@)) by {
                    if tab_recorded(rest, tabs.last().source@) {
                        let j = choose|j: int|
                            0 <= j < rest.len() && (#[trigger] rest[j]).source@
                                == tabs.last().source@;
                        assert(tabs[j].source@ == tabs[tabs.len() - 1].source@);
                    }
                }
                assert forall|i: int, j: int| 0 <= i < j < out.len() implies (
                #[trigger] out[i]).source@ != (#[trigger] out[j]).source@ by {
                    if j < kept.len() {
                        assert(kept[i].source@ != kept[j].source@);
                    } else {
                        assert(kept[i].source@ != tabs.last().source@);
                    }
                }
            }
        } else {
            if sources_distinct(tabs) {
                assert forall|i: int, j: int| 0 <= i < j < rest.len() implies (
                #[trigger] rest[i]).source@ != (#[trigger] rest[j]).source@ by {
                    assert(rest[i] == tabs[i] && rest[j] == tabs[j]);
                }
            }
            if tab_recorded(tabs, other) && other != source {
                let i = choose|i: int| 0 <= i < tabs.len() && (#[trigger] tabs[i]).source@ == other;
                assert(rest[i].source@ == other);
            }
            if tab_recorded(rest, other) {
                let i = choose|i: int| 0 <= i < rest.len() && (#[trigger] rest[i]).source@ == other;
                assert(tabs[i].source@ == other);
            }
        }
    }
}

/// Forgets every remembered tab with a source.
pub fn forget_source(tabs: &mut Vec<OpenTabState>, source: &TabSource)
    ensures
        final(tabs)@ == tabs_without(old(tabs)@, source@),
        !tab_recorded(final(tabs)@, source@),
{
    let mut kept: Vec<OpenTabState> = Vec::new();
    let mut rest: Vec<OpenTabState> = Vec::new();
    std::mem::swap(tabs, &mut rest);
    let ghost all = rest@;
    let ghost mut done: int = 0;
    assert(all.take(0) =~= seq![]);
    while rest.len() > 0
        invariant
            0 <= done <= all.len(),
            rest@ == all.skip(done),
            kept@ == tabs_without(all.take(done), source@),
        decreases rest.len(),
    {
        let entry = rest.remove(0);
        assert(entry == all[done]);
        assert(all.take(done + 1).drop_last() =~= all.take(done));
        if !entry.source.same(source) {
            kept.push(entry);
        }
        proof {
            done = done + 1;
        }
        assert(rest@ =~= all.skip(done));
    }
    assert(all.take(all.len() as int) =~= all);
    assert(done == all.len());
    proof {
        law_forgotten(all, source@, source@);
    }
    std::mem::swap(tabs, &mut kept);
}

/// The last part of a path that is not empty, with parts divided by `/`; the
/// whole path where every part is empty.
pub open spec fn leaf_name(path: Seq<char>) -> Seq<char> {
    let end = trimmed_end(path, path.len() as int);
    if end == 0 {
        path
    } else {
        path.subrange(part_start(path, end), end)
    }
}

/// `end` moved left over slashes.
pub open spec fn trimmed_end(path: Seq<char>, end: int) -> int
    decreases end,
{
    if end <= 0 {
        0
    } else if path[end - 1] == '/' {
        trimmed_end(path, end - 1)
    } else {
        end
    }
}

/// Where the part that ends at `end` begins.
pub open spec fn part_start(path: Seq<char>, end: int) -> int
    decreases end,
{
    if end <= 0 {
        0
    } else if path[end - 1] == '/' {
        end
    } else {
        part_start(path, end - 1)
    }
}

proof fn lemma_part_start(path: Seq<char>, end: int)
    requires
        0 <= end <= path.len(),
    ensures
        0 <= part_start(path, end) <= end,
        forall|i: int| part_start(path, end) <= i < end ==> path[i] != '/',
        part_start(path, end) > 0 ==> path[part_start(path, end) - 1] == '/',
    decreases end,
{
    if end > 0 && path[end - 1] != '/' {
        lemma_part_start(path, end - 1);
    }
}

/// The name of a path is a part without slashes, and not empty unless the
/// path is made of slashes alone.
pub proof fn law_leaf_name(path: Seq<char>)
    ensures
        (exists|i: int| 0 <= i < path.len() && path[i] != '/') ==> leaf_name(path).len() > 0
            && !leaf_name(path).contains('/'),
        (forall|i: int| 0 <= i < path.len() ==> path[i] == '/') ==> leaf_name(path) == path,
{
    let end = trimmed_end(path, path.len() as int);
    lemma_trimmed_end(path, path.len() as int);
    if end > 0 {
        lemma_part_start(path, end);
    }
}

proof fn lemma_trimmed_end(path: Seq<char>, end: int)
    requires
        0 <= end <= path.len(),
    ensures
        0 <= trimmed_end(path, end) <= end,
        trimmed_end(path, end) > 0 ==> path[trimmed_end(path, end) - 1] != '/',
        forall|i: int| trimmed_end(path, end) <= i < end ==> path[i] == '/',
    decreases end,
{
    if end > 0 && path[end - 1] == '/' {
        lemma_trimmed_end(path, end - 1);
    }
}

/// The display name of an entry inside a mount.
pub fn entry_name(path: &str) -> (r: String)
    ensures
        r@ == leaf_name(path@),
{
    let len: usize = path.unicode_len();
    let mut end: usize = len;
    while end > 0 && path.get_char(end - 1) == '/'
        invariant
            end <= len,
            len == path@.len(),
            trimmed_end(path@, end as int) == trimmed_end(path@, len as int),
        decreases end,
    {
        end = end - 1;
    }
    if end == 0 {
        return path.to_owned();
    }
    let mut start: usize = end;
    while start > 0 && path.get_char(start - 1) != '/'
        invariant
            start <= end <= len,
            len == path@.len(),
            part_start(path@, start as int) == part_start(path@, end as int),
        decreases start,
    {
        start = start - 1;
    }
    path.substring_char(start, end).to_owned()
}

/// An entry of a mount lies one deeper than the mount and comes from the same path on
/// disk; a file lies in no mount and comes from its own path; scratch buffers and
/// plugins' mounts come from none.
pub proof fn law_entry_comes_from_its_mount(parent: SourceView, entry: Seq<char>, path: Seq<char>)
    ensures
        source_depth(SourceView::VfsEntry { parent: Box::new(parent), entry_path: entry })
            == source_depth(parent) + 1,
        source_root(SourceView::VfsEntry { parent: Box::new(parent), entry_path: entry })
            == source_root(parent),
        source_depth(SourceView::Filesystem(path)) == 0,
        source_root(SourceView::Filesystem(path)) == Some(path),
        parent is Anonymous || parent is PluginMount ==> source_root(parent) is None
            && source_depth(parent) == 0,
{
}

/// The place of a source is the first of it; there is none only where it is not
/// remembered.
pub proof fn law_remembered_tab_is_found(tabs: Seq<OpenTabState>, source: SourceView)
    ensures
        match tab_index(tabs, source) {
            Some(i) => 0 <= i < tabs.len() && tabs[i].source@ == source && forall|j: int|
                0 <= j < i ==> (#[trigger] tabs[j]).source@ != source,
            None => forall|j: int| 0 <= j < tabs.len() ==> (#[trigger] tabs[j]).source@ != source,
        },
    decreases tabs.len(),
{
    if tabs.len() > 0 {
        let init = tabs.drop_last();
        law_remembered_tab_is_found(init, source);
        assert forall|j: int| 0 <= j < init.len() implies init[j] == #[trigger] tabs[j] by {}
        assert(tabs.last() == tabs[init.len() as int]);
        if tab_index(init, source) is None {
            assert forall|j: int| 0 <= j < init.len() implies (#[trigger] tabs[j]).source@
                != source by {
                assert(init[j] == tabs[j]);
            }
        }
    }
}

/// A tab is recorded behind the others, and only where its source is not remembered
/// yet; the others stay as they are.
pub proof fn law_recorded_once(tabs: Seq<OpenTabState>, entry: OpenTabState)
    ensures
        (exists|i: int| 0 <= i < tabs.len() && (#[trigger] tabs[i]).source@ == entry.source@)
            ==> recorded(tabs, entry) == tabs,
        (forall|i: int| 0 <= i < tabs.len() ==> (#[trigger] tabs[i]).source@ != entry.source@)
            ==> recorded(tabs, entry) == tabs.push(entry),
{
}

/// Forgetting a source keeps the other tabs as they are and in order.
pub proof fn law_forgetting_keeps_order(
    tabs: Seq<OpenTabState>,
    entry: OpenTabState,
    source: SourceView,
)
    ensures
        tabs_without(seq![], source) == Seq::<OpenTabState>::empty(),
        entry.source@ == source ==> tabs_without(tabs.push(entry), source) == tabs_without(
            tabs,
            source,
        ),
        entry.source@ != source ==> tabs_without(tabs.push(entry), source) == tabs_without(
            tabs,
            source,
        ).push(entry),
{
    assert(tabs.push(entry).drop_last() =~= tabs);
}

/// The name of an entry is what stands behind the last slash; a slash at the end does
/// not count.
pub proof fn law_entry_is_named_by_last_part(dir: Seq<char>, name: Seq<char>)
    requires
        name.len() > 0,
        forall|i: int| 0 <= i < name.len() ==> name[i] != '/',
    ensures
        leaf_name(name) == name,
        leaf_name(dir + seq!['/'] + name) == name,
        leaf_name(dir + seq!['/'] + name + seq!['/']) == name,
{
    lemma_leaf_of(Seq::empty(), name, Seq::empty());
    assert(Seq::<char>::empty() + name + Seq::<char>::empty() =~= name);
    lemma_leaf_of(dir + seq!['/'], name, Seq::empty());
    assert(dir + seq!['/'] + name + Seq::<char>::empty() =~= dir + seq!['/'] + name);
    lemma_leaf_of(dir + seq!['/'], name, seq!['/']);
}

proof fn lemma_leaf_of(front: Seq<char>, name: Seq<char>, slashes: Seq<char>)
    requires
        name.len() > 0,
        forall|i: int| 0 <= i < name.len() ==> name[i] != '/',
        front.len() > 0 ==> front.last() == '/',
        forall|i: int| 0 <= i < slashes.len() ==> slashes[i] == '/',
    ensures
        leaf_name(front + name + slashes) == name,
{
    let path = front + name + slashes;
    let end = front.len() + name.len();
    lemma_trimmed_end(path, path.len() as int);
    let t = trimmed_end(path, path.len() as int);
    assert(path[end - 1] == name[name.len() - 1]);
    if t < end {
        assert(path[end - 1] == '/');
    }
    if t > end {
        assert(path[t - 1] == slashes[t - 1 - end]);
    }
    assert(t == end);
    lemma_part_start(path, t);
    let s = part_start(path, t);
    if s < front.len() {
        assert(path[front.len() - 1] == front.last());
    }
    if s > front.len() {
        assert(path[s - 1] == name[s - 1 - front.len()]);
    }
    assert(s == front.len());
    assert(path.subrange(s, t) =~= name);
}

} // verus!
