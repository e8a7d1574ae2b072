//! Searching bytes, within one file and across all open files.

use vstd::prelude::*;
use crate::editor::Selection;
use crate::tabs::FileId;

verus! {

/// Whether the pattern stands at an offset. An empty pattern stands nowhere.
pub open spec fn occurs(bytes: Seq<u8>, pattern: Seq<u8>, at: int) -> bool {
    &&& pattern.len() > 0
    &&& 0 <= at
    &&& at + pattern.len() <= bytes.len()
    &&& bytes.subrange(at, at + pattern.len()) == pattern
}

/// The offsets below `end` at which the pattern stands, in order.
pub open spec fn matches_below(bytes: Seq<u8>, pattern: Seq<u8>, end: int) -> Seq<u64>
    decreases end,
{
    if end <= 0 {
        seq![]
    } else if occurs(bytes, pattern, end - 1) {
        matches_below(bytes, pattern, end - 1).push((end - 1) as u64)
    } else {
        matches_below(bytes, pattern, end - 1)
    }
}

/// All offsets at which the pattern stands, in order.
pub open spec fn all_matches(bytes: Seq<u8>, pattern: Seq<u8>) -> Seq<u64> {
    matches_below(bytes, pattern, bytes.len() as int)
}

/// The list of matches holds exactly the offsets at which the pattern stands,
/// in ascending order.
pub proof fn law_matches(bytes: Seq<u8>, pattern: Seq<u8>, end: int)
    requires
        0 <= end <= bytes.len() <= u64::MAX,
    ensures
        forall|i: int|
            0 <= i < matches_below(bytes, pattern, end).len() ==> occurs(
                bytes,
                pattern,
                #[trigger] matches_below(bytes, pattern, end)[i] as int,
            ) && matches_below(bytes, pattern, end)[i] < end,
        forall|at: int|
            0 <= at < end && occurs(bytes, pattern, at) ==> matches_below(
                bytes,
                pattern,
                end,
            ).contains(at as u64),
        forall|i: int, j: int|
            0 <= i < j < matches_below(bytes, pattern, end).len() ==> matches_below(
                bytes,
                pattern,
                end,
            )[i] < matches_below(bytes, pattern, end)[j],
    decreases end,
{
    if end > 0 {
        law_matches(bytes, pattern, end - 1);
        let rest = matches_below(bytes, pattern, end - 1);
        let all = matches_below(bytes, pattern, end);
        assert forall|at: int| 0 <= at < end && occurs(bytes, pattern, at) implies all.contains(
            at as u64,
        ) by {
            if at < end - 1 {
                assert(rest.contains(at as u64));
                let k = choose|k: int| 0 <= k < rest.len() && rest[k] == at as u64;
                assert(all[k] == rest[k]);
            } else {
                assert(all[rest.len() as int] == at as u64);
            }
        }
    }
}

/// The first match at or after an offset.
pub open spec fn first_from(bytes: Seq<u8>, pattern: Seq<u8>, from: int) -> Option<u64>
    decreases bytes.len() - from,
{
    if from < 0 || from >= bytes.len() {
        None
    } else if occurs(bytes, pattern, from) {
        Some(from as u64)
    } else {
        first_from(bytes, pattern, from + 1)
    }
}

/// The last match before an offset.
pub open spec fn last_before(bytes: Seq<u8>, pattern: Seq<u8>, end: int) -> Option<u64>
    decreases end,
{
    if end <= 0 {
        None
    } else if occurs(bytes, pattern, end - 1) {
        Some((end - 1) as u64)
    } else {
        last_before(bytes, pattern, end - 1)
    }
}

/// The next match from an offset on; behind the last one the search starts
/// over.
pub open spec fn next_match(bytes: Seq<u8>, pattern: Seq<u8>, from: int) -> Option<u64> {
    match first_from(bytes, pattern, from) {
        Some(at) => Some(at),
        None => first_from(bytes, pattern, 0),
    }
}

/// The match before an offset; before the first one the search starts over
/// from the end.
pub open spec fn prev_match(bytes: Seq<u8>, pattern: Seq<u8>, from: int) -> Option<u64> {
    match last_before(
        bytes,
        pattern,
        if from < bytes.len() {
            from
        } else {
            bytes.len() as int
        },
    ) {
        Some(at) => Some(at),
        None => last_before(bytes, pattern, bytes.len() as int),
    }
}

/// A search that starts over misses nothing: it fails only where the pattern
/// stands nowhere, and what it finds is a match.
pub proof fn law_wrapping_search_is_complete(bytes: Seq<u8>, pattern: Seq<u8>, from: int, at: int)
    requires
        bytes.len() <= u64::MAX,
        0 <= from,
    ensures
        occurs(bytes, pattern, at) ==> next_match(bytes, pattern, from) is Some && prev_match(
            bytes,
            pattern,
            from,
        ) is Some,
        next_match(bytes, pattern, from) matches Some(m) ==> occurs(bytes, pattern, m as int),
        prev_match(bytes, pattern, from) matches Some(m) ==> occurs(bytes, pattern, m as int),
{
    lemma_first_from(bytes, pattern, from);
    lemma_first_from(bytes, pattern, 0);
    lemma_last_before(bytes, pattern, bytes.len() as int);
    lemma_last_before(
        bytes,
        pattern,
        if from < bytes.len() {
            from
        } else {
            bytes.len() as int
        },
    );
}

proof fn lemma_first_from(bytes: Seq<u8>, pattern: Seq<u8>, from: int)
    requires
        bytes.len() <= u64::MAX,
        0 <= from,
    ensures
        match first_from(bytes, pattern, from) {
            Some(m) => occurs(bytes, pattern, m as int) && from <= m && forall|k: int|
                from <= k < m ==> !occurs(bytes, pattern, k),
            None => forall|k: int| from <= k ==> !occurs(bytes, pattern, k),
        },
    decreases bytes.len() - from,
{
    if from < bytes.len() && !occurs(bytes, pattern, from) {
        lemma_first_from(bytes, pattern, from + 1);
    }
}

proof fn lemma_last_before(bytes: Seq<u8>, pattern: Seq<u8>, end: int)
    requires
        bytes.len() <= u64::MAX,
        end <= bytes.len(),
    ensures
        match last_before(bytes, pattern, end) {
            Some(m) => occurs(bytes, pattern, m as int) && m < end && forall|k: int|
                m < k < end ==> !occurs(bytes, pattern, k),
            None => forall|k: int| 0 <= k < end ==> !occurs(bytes, pattern, k),
        },
    decreases end,
{
    if end > 0 && !occurs(bytes, pattern, end - 1) {
        lemma_last_before(bytes, pattern, end - 1);
    }
}

fn occurs_at(bytes: &Vec<u8>, pattern: &Vec<u8>, at: usize) -> (r: bool)
    requires
        at < bytes@.len(),
    ensures
        r == occurs(bytes@, pattern@, at as int),
{
    let len: usize = bytes.len();
    if pattern.len() == 0 || pattern.len() > len - at {
        return false;
    }
    let mut i: usize = 0;
    while i < pattern.len()
        invariant
            i <= pattern.len(),
            len == bytes@.len(),
            at + pattern@.len() <= len,
            forall|j: int| 0 <= j < i ==> bytes@[at + j] == pattern@[j],
        decreases pattern.len() - i,
    {
        if bytes[at + i] != pattern[i] {
            assert(bytes@.subrange(at as int, at + pattern@.len())[i as int] != pattern@[
                i as int
            ]);
            return false;
        }
        i = i + 1;
    }
    assert(bytes@.subrange(at as int, at + pattern@.len()) =~= pattern@);
    true
}

/// All offsets at which the pattern stands.
pub fn find_all(bytes: &Vec<u8>, pattern: &Vec<u8>) -> (r: Vec<u64>)
    ensures
        r@ == all_matches(bytes@, pattern@),
{
    let mut out: Vec<u64> = Vec::new();
    let mut i: usize = 0;
    while i < bytes.len()
        invariant
            i <= bytes.len(),
            out@ == matches_below(bytes@, pattern@, i as int),
        decreases bytes.len() - i,
    {
        if occurs_at(bytes, pattern, i) {
            out.push(i as u64);
        }
        i = i + 1;
    }
    out
}

fn find_from(bytes: &Vec<u8>, pattern: &Vec<u8>, from: u64) -> (r: Option<u64>)
    ensures
        r == first_from(bytes@, pattern@, from as int),
{
    let mut i: u64 = from;
    while i < bytes.len() as u64
        invariant
            first_from(bytes@, pattern@, i as int) == first_from(bytes@, pattern@, from as int),
        decreases bytes.len() - i,
    {
        if occurs_at(bytes, pattern, i as usize) {
            return Some(i);
        }
        i = i + 1;
    }
    None
}

fn find_before(bytes: &Vec<u8>, pattern: &Vec<u8>, end: usize) -> (r: Option<u64>)
    requires
        end <= bytes@.len(),
    ensures
        r == last_before(bytes@, pattern@, end as int),
{
    let mut i: usize = end;
    while i > 0
        invariant
            i <= end <= bytes@.len(),
            last_before(bytes@, pattern@, i as int) == last_before(bytes@, pattern@, end as int),
        decreases i,
    {
        if occurs_at(bytes, pattern, i - 1) {
            return Some((i - 1) as u64);
        }
        i = i - 1;
    }
    None
}

/// The next match from an offset on, starting over behind the last.
pub fn find_next(bytes: &Vec<u8>, pattern: &Vec<u8>, from: u64) -> (r: Option<u64>)
    ensures
        r == next_match(bytes@, pattern@, from as int),
{
    match find_from(bytes, pattern, from) {
        Some(at) => Some(at),
        None => find_from(bytes, pattern, 0),
    }
}

/// The match before an offset, starting over before the first.
pub fn find_prev(bytes: &Vec<u8>, pattern: &Vec<u8>, from: u64) -> (r: Option<u64>)
    ensures
        r == prev_match(bytes@, pattern@, from as int),
{
    let end: usize = if from < bytes.len() as u64 {
        from as usize
    } else {
        bytes.len()
    };
    match find_before(bytes, pattern, end) {
        Some(at) => Some(at),
        None => find_before(bytes, pattern, bytes.len()),
    }
}

/// Index of the first match at or behind the caret, else of the last match.
pub open spec fn nearest_idx(matches: Seq<u64>, caret: u64) -> Option<nat> {
    if matches.len() == 0 {
        None
    } else {
        let k = count_before(matches, caret);
        Some(
            if k < matches.len() {
                k
            } else {
                (matches.len() - 1) as nat
            },
        )
    }
}

/// How many of the leading matches lie before the caret.
pub open spec fn count_before(matches: Seq<u64>, caret: u64) -> nat
    decreases matches.len(),
{
    if matches.len() == 0 || matches[0] >= caret {
        0
    } else {
        count_before(matches.drop_first(), caret) + 1
    }
}

proof fn lemma_count_before(matches: Seq<u64>, caret: u64, k: int)
    requires
        0 <= k <= matches.len(),
        forall|j: int| 0 <= j < k ==> matches[j] < caret,
        k < matches.len() ==> matches[k] >= caret,
    ensures
        count_before(matches, caret) == k,
    decreases matches.len(),
{
    if k > 0 {
        lemma_count_before(matches.drop_first(), caret, k - 1);
    }
}

/// Index of the match that is shown first: the one at or behind the caret, or
/// the last where all lie before it.
pub fn nearest_match_idx(matches: &Vec<u64>, caret: u64) -> (r: Option<usize>)
    ensures
        match (nearest_idx(matches@, caret), r) {
            (Some(a), Some(b)) => a == b,
            (None, None) => true,
            _ => false,
        },
{
    if matches.len() == 0 {
        return None;
    }
    let mut k: usize = 0;
    while k < matches.len() && matches[k] < caret
        invariant
            k <= matches.len(),
            forall|j: int| 0 <= j < k ==> matches@[j] < caret,
        decreases matches.len() - k,
    {
        k = k + 1;
    }
    proof {
        lemma_count_before(matches@, caret, k as int);
    }
    if k < matches.len() {
        Some(k)
    } else {
        Some(matches.len() - 1)
    }
}

/// Index of the first element that equals `value`.
pub open spec fn index_of(matches: Seq<u64>, value: u64) -> Option<nat>
    decreases matches.len(),
{
    if matches.len() == 0 {
        None
    } else if matches[0] == value {
        Some(0)
    } else {
        match index_of(matches.drop_first(), value) {
            Some(i) => Some(i + 1),
            None => None,
        }
    }
}

proof fn lemma_index_of(matches: Seq<u64>, value: u64, k: int)
    requires
        0 <= k <= matches.len(),
        forall|j: int| 0 <= j < k ==> matches[j] != value,
        k < matches.len() ==> matches[k] == value,
    ensures
        index_of(matches, value) == if k < matches.len() {
            Some(k as nat)
        } else {
            None
        },
    decreases matches.len(),
{
    if k > 0 {
        lemma_index_of(matches.drop_first(), value, k - 1);
    }
}

fn position(matches: &Vec<u64>, value: u64) -> (r: Option<usize>)
    ensures
        match (index_of(matches@, value), r) {
            (Some(a), Some(b)) => a == b,
            (None, None) => true,
            _ => false,
        },
{
    let mut k: usize = 0;
    while k < matches.len() && matches[k] != value
        invariant
            k <= matches.len(),
            forall|j: int| 0 <= j < k ==> matches@[j] != value,
        decreases matches.len() - k,
    {
        k = k + 1;
    }
    proof {
        lemma_index_of(matches@, value, k as int);
    }
    if k < matches.len() {
        Some(k)
    } else {
        None
    }
}

/// What a search covers.
#[derive(Clone, Copy, Debug, PartialEq, Eq, Structural)]
pub enum SearchScope {
    File,
    Selection { start: u64, end_exclusive: u64 },
}

/// The search bar of one file.
pub struct SearchState {
    pub open: bool,
    /// Whether the list of all matches is shown.
    pub all_results: bool,
    pub pattern: Option<Vec<u8>>,
    pub matches: Vec<u64>,
    pub active_idx: Option<usize>,
    pub scope: SearchScope,
    /// Offset that the view is asked to scroll to.
    pub scroll_to: Option<u64>,
}

/// The view of a search bar and of the selection that it moves.
#[verifier::ext_equal]
pub struct SearchView {
    pub open: bool,
    pub all_results: bool,
    pub pattern: Option<Seq<u8>>,
    pub matches: Seq<u64>,
    pub active: Option<nat>,
    pub scope: SearchScope,
    pub scroll_to: Option<u64>,
    pub selection: Option<Selection>,
}

/// The view of an optional byte string.
pub open spec fn bytes_view(b: Option<Vec<u8>>) -> Option<Seq<u8>> {
    match b {
        Some(v) => Some(v@),
        None => None,
    }
}

/// The view of a search bar and a selection.
pub open spec fn search_view(s: SearchState, selection: Option<Selection>) -> SearchView {
    SearchView {
        open: s.open,
        all_results: s.all_results,
        pattern: bytes_view(s.pattern),
        matches: s.matches@,
        active: match s.active_idx {
            Some(i) => Some(i as nat),
            None => None,
        },
        scope: s.scope,
        scroll_to: s.scroll_to,
        selection,
    }
}

/// What happened in the search bar.
pub enum SearchEvent {
    /// The text changed; it stands for this pattern now, or for none.
    Refresh { pattern: Option<Vec<u8>> },
    Next,
    Prev,
    FindAll,
    ClearAll,
    Close,
    JumpTo(usize),
}

/// The caret of a selection.
pub open spec fn caret_of(selection: Option<Selection>) -> u64 {
    match selection {
        Some(sel) => sel.cursor,
        None => 0,
    }
}

/// The caret, or the start of the file where nothing is selected.
pub fn current_caret(selection: Option<Selection>) -> (r: u64)
    ensures
        r == caret_of(selection),
{
    match selection {
        Some(sel) => sel.cursor,
        None => 0,
    }
}

/// The selection that covers a match.
pub open spec fn match_selection(off: u64, len: nat) -> Selection {
    Selection {
        anchor: off,
        cursor: if off + len > u64::MAX {
            (u64::MAX - 1) as u64
        } else if off + len == 0 {
            0
        } else {
            (off + len - 1) as u64
        },
    }
}

/// The search bar after a match was jumped to.
pub open spec fn jumped(v: SearchView, off: u64, len: nat) -> SearchView {
    SearchView {
        selection: Some(match_selection(off, len)),
        scroll_to: Some(off),
        active: match index_of(v.matches, off) {
            Some(i) => Some(i),
            None => v.active,
        },
        ..v
    }
}

/// The search bar after all matches were listed.
pub open spec fn listed(v: SearchView, bytes: Seq<u8>, pattern: Seq<u8>) -> SearchView {
    SearchView {
        matches: all_matches(bytes, pattern),
        active: nearest_idx(all_matches(bytes, pattern), caret_of(v.selection)),
        ..v
    }
}

/// The search bar after one event.
pub open spec fn after_event(v: SearchView, bytes: Seq<u8>, ev: SearchEvent) -> SearchView {
    match ev {
        SearchEvent::Refresh { pattern } => {
            let w = SearchView { pattern: bytes_view(pattern), ..v };
            match w.pattern {
                Some(p) => if w.all_results {
                    listed(w, bytes, p)
                } else {
                    w
                },
                None => w,
            }
        },
        SearchEvent::Next => match v.pattern {
            Some(p) => {
                let caret = caret_of(v.selection);
                let from = if caret == u64::MAX {
                    caret as int
                } else {
                    caret + 1
                };
                match next_match(bytes, p, from) {
                    Some(off) => jumped(v, off, p.len()),
                    None => v,
                }
            },
            None => v,
        },
        SearchEvent::Prev => match v.pattern {
            Some(p) => match prev_match(bytes, p, caret_of(v.selection) as int) {
                Some(off) => jumped(v, off, p.len()),
                None => v,
            },
            None => v,
        },
        SearchEvent::FindAll => {
            let w = SearchView { all_results: true, ..v };
            match w.pattern {
                Some(p) => {
                    let x = listed(w, bytes, p);
                    match x.active {
                        Some(i) => jumped(x, x.matches[i as int], p.len()),
                        None => x,
                    }
                },
                None => w,
            }
        },
        SearchEvent::ClearAll => SearchView {
            all_results: false,
            matches: seq![],
            active: None,
            ..v
        },
        SearchEvent::Close => SearchView { open: false, ..v },
        SearchEvent::JumpTo(idx) => match v.pattern {
            Some(p) => if idx < v.matches.len() {
                jumped(
                    SearchView { active: Some(idx as nat), ..v },
                    v.matches[idx as int],
                    p.len(),
                )
            } else {
                v
            },
            None => v,
        },
    }
}

/// The search bar after several events.
pub open spec fn after_events(v: SearchView, bytes: Seq<u8>, events: Seq<SearchEvent>) -> SearchView
    decreases events.len(),
{
    if events.len() == 0 {
        v
    } else {
        after_event(after_events(v, bytes, events.drop_last()), bytes, events.last())
    }
}

/// Highlights a match and asks for it to be scrolled into view.
pub fn apply_match_jump(
    search: &mut SearchState,
    selection: &mut Option<Selection>,
    off: u64,
    pattern_len: usize,
)
    ensures
        search_view(*final(search), *final(selection)) == jumped(
            search_view(*old(search), *old(selection)),
            off,
            pattern_len as nat,
        ),
        final(search).pattern == old(search).pattern,
{
    let end: u64 = if pattern_len as u64 > u64::MAX - off {
        u64::MAX
    } else {
        off + pattern_len as u64
    };
    let last: u64 = if end == 0 {
        0
    } else {
        end - 1
    };
    *selection = Some(Selection { anchor: off, cursor: last });
    search.scroll_to = Some(off);
    if let Some(idx) = position(&search.matches, off) {
        search.active_idx = Some(idx);
    }
}

fn list_matches(search: &mut SearchState, bytes: &Vec<u8>, selection: Option<Selection>)
    ensures
        search_view(*final(search), selection) == match bytes_view(old(search).pattern) {
            Some(p) => listed(search_view(*old(search), selection), bytes@, p),
            None => search_view(*old(search), selection),
        },
        final(search).pattern == old(search).pattern,
{
    let found: Option<Vec<u64>> = match &search.pattern {
        Some(p) => Some(find_all(bytes, p)),
        None => None,
    };
    if let Some(m) = found {
        search.matches = m;
        search.active_idx = nearest_match_idx(&search.matches, current_caret(selection));
    }
}

fn apply_search_event(
    search: &mut SearchState,
    selection: &mut Option<Selection>,
    bytes: &Vec<u8>,
    ev: SearchEvent,
)
    ensures
        search_view(*final(search), *final(selection)) == after_event(
            search_view(*old(search), *old(selection)),
            bytes@,
            ev,
        ),
{
    match ev {
        SearchEvent::Refresh { pattern } => {
            search.pattern = pattern;
            if search.all_results {
                list_matches(search, bytes, *selection);
            }
        },
        SearchEvent::Next => {
            let caret: u64 = current_caret(*selection);
            let from: u64 = if caret == u64::MAX {
                caret
            } else {
                caret + 1
            };
            let hit: Option<(u64, usize)> = match &search.pattern {
                Some(p) => match find_next(bytes, p, from) {
                    Some(off) => Some((off, p.len())),
                    None => None,
                },
                None => None,
            };
            if let Some(h) = hit {
                apply_match_jump(search, selection, h.0, h.1);
            }
        },
        SearchEvent::Prev => {
            let caret: u64 = current_caret(*selection);
            let hit: Option<(u64, usize)> = match &search.pattern {
                Some(p) => match find_prev(bytes, p, caret) {
                    Some(off) => Some((off, p.len())),
                    None => None,
                },
                None => None,
            };
            if let Some(h) = hit {
                apply_match_jump(search, selection, h.0, h.1);
            }
        },
        SearchEvent::FindAll => {
            search.all_results = true;
            list_matches(search, bytes, *selection);
            let len: Option<usize> = match &search.pattern {
                Some(p) => Some(p.len()),
                None => None,
            };
            if let Some(n) = len {
                if let Some(idx) = search.active_idx {
                    let off: u64 = search.matches[idx];
                    apply_match_jump(search, selection, off, n);
                }
            }
        },
        SearchEvent::ClearAll => {
            search.all_results = false;
            search.matches = Vec::new();
            search.active_idx = None;
        },
        SearchEvent::Close => {
            search.open = false;
        },
        SearchEvent::JumpTo(idx) => {
            let len: Option<usize> = match &search.pattern {
                Some(p) => Some(p.len()),
                None => None,
            };
            if let Some(n) = len {
                if idx < search.matches.len() {
                    let off: u64 = search.matches[idx];
                    search.active_idx = Some(idx);
                    apply_match_jump(search, selection, off, n);
                }
            }
        },
    }
}

/// Applies what happened in the search bar since the last frame.
pub fn apply_search_events(
    search: &mut SearchState,
    selection: &mut Option<Selection>,
    bytes: &Vec<u8>,
    events: Vec<SearchEvent>,
)
    ensures
        search_view(*final(search), *final(selection)) == after_events(
            search_view(*old(search), *old(selection)),
            bytes@,
            events@,
        ),
{
    let mut rest: Vec<SearchEvent> = events;
    let ghost all = events@;
    let ghost mut done: int = 0;
    let ghost start = search_view(*search, *selection);
    assert(all.take(0) =~= seq![]);
    while rest.len() > 0
        invariant
            0 <= done <= all.len(),
            rest@ == all.skip(done),
            search_view(*search, *selection) == after_events(start, bytes@, all.take(done)),
        decreases rest.len(),
    {
        let ev = rest.remove(0);
        assert(ev == all[done]);
        assert(all.take(done + 1).drop_last() =~= all.take(done));
        apply_search_event(search, selection, bytes, ev);
        proof {
            done = done + 1;
        }
        assert(rest@ =~= all.skip(done));
    }
    assert(all.take(all.len() as int) =~= all);
    assert(done == all.len());
}

/// What a search covers when its bar opens: the selection unless it is just a
/// caret.
pub open spec fn scope_for(selection: Option<Selection>) -> SearchScope {
    match selection {
        Some(sel) => if sel.is_caret() {
            SearchScope::File
        } else {
            SearchScope::Selection { start: sel.start(), end_exclusive: sel.end() }
        },
        None => SearchScope::File,
    }
}

/// The search bar after it was opened or closed. On opening, the scope follows the
/// selection and a pattern is taken over.
pub open spec fn bar_toggled(v: SearchView, pattern: Option<Seq<u8>>) -> SearchView {
    if v.open {
        SearchView { open: false, ..v }
    } else {
        SearchView { open: true, scope: scope_for(v.selection), pattern, ..v }
    }
}

/// Opens or closes the search bar. On opening, the scope follows the selection
/// and the text's pattern is taken over.
pub fn toggle_local_search(
    search: &mut SearchState,
    selection: Option<Selection>,
    pattern: Option<Vec<u8>>,
)
    ensures
        search_view(*final(search), selection) == bar_toggled(
            search_view(*old(search), selection),
            bytes_view(pattern),
        ),
{
    search.open = !search.open;
    if search.open {
        search.scope = match selection {
            Some(sel) => if sel.is_caret() {
                SearchScope::File
            } else {
                SearchScope::Selection { start: sel.start(), end_exclusive: sel.end() }
            },
            None => SearchScope::File,
        };
        search.pattern = pattern;
    }
}

/// A match in one of the open files.
#[derive(Clone, Copy, Debug, PartialEq, Eq, Structural)]
pub struct GlobalMatch {
    pub file_id: FileId,
    pub offset: u64,
}

/// Matches of one file, with the file's identity.
pub open spec fn tagged(id: FileId, offsets: Seq<u64>) -> Seq<GlobalMatch> {
    offsets.map_values(|o: u64| GlobalMatch { file_id: id, offset: o })
}

/// Appends the matches of one file.
pub fn push_file_matches(out: &mut Vec<GlobalMatch>, id: FileId, bytes: &Vec<u8>, pattern: &Vec<u8>)
    ensures
        final(out)@ == old(out)@ + tagged(id, all_matches(bytes@, pattern@)),
{
    let found = find_all(bytes, pattern);
    let mut i: usize = 0;
    while i < found.len()
        invariant
            i <= found.len(),
            out@ == old(out)@ + tagged(id, found@.take(i as int)),
        decreases found.len() - i,
    {
        out.push(GlobalMatch { file_id: id, offset: found[i] });
        i = i + 1;
        assert(out@ =~= old(out)@ + tagged(id, found@.take(i as int)));
    }
    assert(found@.take(found@.len() as int) =~= found@);
}

/// Whether bytes read as a pattern from an offset on, byte for byte.
pub open spec fn reads_as(bytes: Seq<u8>, pattern: Seq<u8>, at: int) -> bool {
    &&& pattern.len() > 0
    &&& 0 <= at
    &&& at + pattern.len() <= bytes.len()
    &&& forall|k: int| 0 <= k < pattern.len() ==> bytes[at + k] == #[trigger] pattern[k]
}

/// The pattern stands where the bytes read as it, and nowhere else.
pub proof fn law_occurs_reads_as(bytes: Seq<u8>, pattern: Seq<u8>, at: int)
    ensures
        occurs(bytes, pattern, at) <==> reads_as(bytes, pattern, at),
{
    if reads_as(bytes, pattern, at) {
        assert(bytes.subrange(at, at + pattern.len()) =~= pattern);
    }
    if occurs(bytes, pattern, at) {
        let cut = bytes.subrange(at, at + pattern.len());
        assert forall|k: int| 0 <= k < pattern.len() implies bytes[at + k]
            == #[trigger] pattern[k] by {
            assert(cut[k] == bytes[at + k]);
        }
    }
}

proof fn lemma_occurs_everywhere(bytes: Seq<u8>, pattern: Seq<u8>)
    ensures
        forall|at: int| #[trigger]
            occurs(bytes, pattern, at) == reads_as(bytes, pattern, at),
        forall|at: int| #[trigger]
            reads_as(bytes, pattern, at) == occurs(bytes, pattern, at),
{
    assert forall|at: int| #[trigger]
        occurs(bytes, pattern, at) == reads_as(bytes, pattern, at) by {
        law_occurs_reads_as(bytes, pattern, at);
    }
    assert forall|at: int| #[trigger]
        reads_as(bytes, pattern, at) == occurs(bytes, pattern, at) by {
        law_occurs_reads_as(bytes, pattern, at);
    }
}

/// The caret as the search sees it: the moving end of the selection, or the start of
/// the file.
pub open spec fn search_caret(selection: Option<Selection>) -> int {
    match selection {
        Some(sel) => sel.cursor as int,
        None => 0,
    }
}

/// Whether a search bar shows a match: it is selected from its first byte to its
/// last, scrolled into view, and chosen in the list where the list has it. Nothing
/// else changed.
pub open spec fn shows_match(before: SearchView, after: SearchView, at: int, len: nat) -> bool {
    &&& after.selection matches Some(sel) && sel.anchor == at && sel.cursor == at + len - 1
    &&& after.scroll_to matches Some(to) && to == at
    &&& forall|k: int|
        0 <= k < before.matches.len() && (#[trigger] before.matches[k]) == at ==> (
        after.active matches Some(i) && i < before.matches.len() && before.matches[i as int] == at)
    &&& (forall|k: int| 0 <= k < before.matches.len() ==> (#[trigger] before.matches[k]) != at)
        ==> after.active == before.active
    &&& after.matches == before.matches
    &&& after.pattern == before.pattern
    &&& after.open == before.open
    &&& after.all_results == before.all_results
    &&& after.scope == before.scope
}

proof fn lemma_index_of_found(matches: Seq<u64>, value: u64)
    ensures
        match index_of(matches, value) {
            Some(i) => i < matches.len() && matches[i as int] == value,
            None => forall|k: int| 0 <= k < matches.len() ==> (#[trigger] matches[k]) != value,
        },
    decreases matches.len(),
{
    if matches.len() > 0 && matches[0] != value {
        let rest = matches.drop_first();
        lemma_index_of_found(rest, value);
        match index_of(rest, value) {
            Some(i) => {
                assert(rest[i as int] == matches[i as int + 1]);
            },
            None => {
                assert forall|k: int| 0 <= k < matches.len() implies (#[trigger] matches[k])
                    != value by {
                    if k > 0 {
                        assert(rest[k - 1] == matches[k]);
                    }
                }
            },
        }
    }
}

/// Jumping to a match shows it.
pub proof fn law_jump_shows_match(v: SearchView, off: u64, len: nat)
    requires
        0 < len,
        off + len <= u64::MAX,
    ensures
        shows_match(v, jumped(v, off, len), off as int, len),
{
    lemma_index_of_found(v.matches, off);
}

/// Going to the previous match goes back: to the last match before the caret, and
/// only where there is none to the last match of all. Without any match nothing
/// changes.
pub proof fn law_previous_goes_back(v: SearchView, bytes: Seq<u8>, p: Seq<u8>)
    requires
        v.pattern == Some(p),
        bytes.len() <= usize::MAX,
    ensures
        ({
            let after = after_event(v, bytes, SearchEvent::Prev);
            let caret = search_caret(v.selection);
            &&& (exists|at: int| at < caret && reads_as(bytes, p, at)) ==> exists|m: int|
                {
                    &&& m < caret
                    &&& #[trigger] reads_as(bytes, p, m)
                    &&& forall|k: int| m < k < caret ==> !reads_as(bytes, p, k)
                    &&& shows_match(v, after, m, p.len())
                }
            &&& (forall|at: int| at < caret ==> !reads_as(bytes, p, at)) && (exists|at: int|
                reads_as(bytes, p, at)) ==> exists|m: int|
                {
                    &&& #[trigger] reads_as(bytes, p, m)
                    &&& forall|k: int| m < k ==> !reads_as(bytes, p, k)
                    &&& shows_match(v, after, m, p.len())
                }
            &&& (forall|at: int| !reads_as(bytes, p, at)) ==> after == v
        }),
{
    let len = bytes.len() as int;
    let caret = search_caret(v.selection);
    let end = if caret < len {
        caret
    } else {
        len
    };
    lemma_occurs_everywhere(bytes, p);
    lemma_last_before(bytes, p, end);
    lemma_last_before(bytes, p, len);
    assert(forall|k: int| k >= len ==> !occurs(bytes, p, k));
    match prev_match(bytes, p, caret) {
        Some(m) => {
            assert(occurs(bytes, p, m as int));
            law_jump_shows_match(v, m, p.len());
            assert(reads_as(bytes, p, m as int));
        },
        None => {},
    }
}

/// Going to the next match goes on: to the first match behind the caret, and only
/// where there is none to the first match of all. Without any match nothing changes.
pub proof fn law_next_goes_on(v: SearchView, bytes: Seq<u8>, p: Seq<u8>)
    requires
        v.pattern == Some(p),
        bytes.len() <= usize::MAX,
    ensures
        ({
            let after = after_event(v, bytes, SearchEvent::Next);
            let caret = search_caret(v.selection);
            &&& (exists|at: int| caret < at && reads_as(bytes, p, at)) ==> exists|m: int|
                {
                    &&& caret < m
                    &&& #[trigger] reads_as(bytes, p, m)
                    &&& forall|k: int| caret < k < m ==> !reads_as(bytes, p, k)
                    &&& shows_match(v, after, m, p.len())
                }
            &&& (forall|at: int| caret < at ==> !reads_as(bytes, p, at)) && (exists|at: int|
                reads_as(bytes, p, at)) ==> exists|m: int|
                {
                    &&& #[trigger] reads_as(bytes, p, m)
                    &&& forall|k: int| k < m ==> !reads_as(bytes, p, k)
                    &&& shows_match(v, after, m, p.len())
                }
            &&& (forall|at: int| !reads_as(bytes, p, at)) ==> after == v
        }),
{
    let caret = search_caret(v.selection);
    let from = if caret == u64::MAX {
        caret
    } else {
        caret + 1
    };
    lemma_occurs_everywhere(bytes, p);
    lemma_first_from(bytes, p, from);
    lemma_first_from(bytes, p, 0);
    match next_match(bytes, p, from) {
        Some(m) => {
            assert(occurs(bytes, p, m as int));
            law_jump_shows_match(v, m, p.len());
            assert(reads_as(bytes, p, m as int));
        },
        None => {},
    }
}

/// Whether a list tells all places at which bytes read as a pattern, in order and
/// each once.
pub open spec fn lists_all(matches: Seq<u64>, bytes: Seq<u8>, pattern: Seq<u8>) -> bool {
    &&& forall|i: int|
        0 <= i < matches.len() ==> reads_as(bytes, pattern, (#[trigger] matches[i]) as int)
    &&& forall|at: u64|
        reads_as(bytes, pattern, at as int) ==> exists|i: int|
            0 <= i < matches.len() && #[trigger] matches[i] == at
    &&& forall|i: int, j: int| 0 <= i < j < matches.len() ==> matches[i] < matches[j]
}

/// The list of all matches has every place at which the bytes read as the pattern,
/// in order, and no other.
pub proof fn law_all_matches_listed(bytes: Seq<u8>, pattern: Seq<u8>)
    requires
        bytes.len() <= usize::MAX,
    ensures
        lists_all(all_matches(bytes, pattern), bytes, pattern),
{
    let all = all_matches(bytes, pattern);
    lemma_occurs_everywhere(bytes, pattern);
    law_matches(bytes, pattern, bytes.len() as int);
    assert forall|at: u64| reads_as(bytes, pattern, at as int) implies exists|i: int|
        0 <= i < all.len() && #[trigger] all[i] == at by {
        assert(occurs(bytes, pattern, at as int));
        assert(all.contains(at));
    }
    assert forall|i: int| 0 <= i < all.len() implies reads_as(
        bytes,
        pattern,
        (#[trigger] all[i]) as int,
    ) by {
        assert(occurs(bytes, pattern, all[i] as int));
    }
}

/// Whether an index is that of the first match at or behind a caret, or of the last
/// match where all lie before it; none without matches.
pub open spec fn is_nearest(matches: Seq<u64>, caret: int, r: Option<nat>) -> bool {
    match r {
        Some(i) => {
            &&& i < matches.len()
            &&& matches[i as int] >= caret || i == matches.len() - 1
            &&& forall|j: int| 0 <= j < i ==> (#[trigger] matches[j]) < caret
        },
        None => matches.len() == 0,
    }
}

/// The match that is shown first is the first at or behind the caret, or the last
/// one.
pub proof fn law_nearest_match(matches: Seq<u64>, caret: u64)
    ensures
        is_nearest(matches, caret as int, nearest_idx(matches, caret)),
{
    lemma_count_bounds(matches, caret);
}

proof fn lemma_count_bounds(matches: Seq<u64>, caret: u64)
    ensures
        count_before(matches, caret) <= matches.len(),
        forall|j: int| 0 <= j < count_before(matches, caret) ==> (#[trigger] matches[j]) < caret,
        count_before(matches, caret) < matches.len() ==> matches[count_before(
            matches,
            caret,
        ) as int] >= caret,
    decreases matches.len(),
{
    if matches.len() > 0 && matches[0] < caret {
        let rest = matches.drop_first();
        lemma_count_bounds(rest, caret);
        assert forall|j: int| 0 <= j < count_before(matches, caret) implies (#[trigger] matches[j])
            < caret by {
            if j > 0 {
                assert(rest[j - 1] == matches[j]);
            }
        }
        if count_before(rest, caret) < rest.len() {
            assert(rest[count_before(rest, caret) as int] == matches[count_before(rest, caret) as int + 1]);
        }
    }
}

/// Listing all matches lists them all and shows the one nearest to the caret.
pub proof fn law_find_all_lists_all(v: SearchView, bytes: Seq<u8>, p: Seq<u8>)
    requires
        v.pattern == Some(p),
        bytes.len() <= usize::MAX,
    ensures
        ({
            let after = after_event(v, bytes, SearchEvent::FindAll);
            &&& after.all_results
            &&& after.open == v.open
            &&& after.pattern == v.pattern
            &&& after.scope == v.scope
            &&& lists_all(after.matches, bytes, p)
            &&& is_nearest(after.matches, search_caret(v.selection), after.active)
            &&& match after.active {
                Some(i) => after.selection matches Some(sel) && sel.anchor
                    == after.matches[i as int] && sel.cursor == sel.anchor + p.len() - 1
                    && after.scroll_to == Some(sel.anchor),
                None => after.selection == v.selection && after.scroll_to == v.scroll_to,
            }
        }),
{
    law_all_matches_listed(bytes, p);
    let all = all_matches(bytes, p);
    law_nearest_match(all, caret_of(v.selection));
    match nearest_idx(all, caret_of(v.selection)) {
        Some(i) => {
            let off = all[i as int];
            assert(reads_as(bytes, p, off as int));
            lemma_index_of_found(all, off);
            let k = index_of(all, off)->0;
            assert(all[k as int] == off);
            assert(k == i) by {
                if k < i {
                    assert(all[k as int] < all[i as int]);
                }
                if i < k {
                    assert(all[i as int] < all[k as int]);
                }
            }
        },
        None => {},
    }
}

/// A changed text changes what is searched for. A list that is shown follows it, and
/// the selection stays.
pub proof fn law_typing_follows(
    v: SearchView,
    bytes: Seq<u8>,
    pattern: Option<Vec<u8>>,
)
    requires
        bytes.len() <= usize::MAX,
    ensures
        ({
            let after = after_event(v, bytes, SearchEvent::Refresh { pattern });
            &&& after.selection == v.selection
            &&& after.scroll_to == v.scroll_to
            &&& after.open == v.open
            &&& after.all_results == v.all_results
            &&& after.scope == v.scope
            &&& match pattern {
                Some(p) => after.pattern == Some(p@) && if v.all_results {
                    lists_all(after.matches, bytes, p@) && is_nearest(
                        after.matches,
                        search_caret(v.selection),
                        after.active,
                    )
                } else {
                    after.matches == v.matches && after.active == v.active
                },
                None => after.pattern is None && after.matches == v.matches && after.active
                    == v.active,
            }
        }),
{
    if let Some(p) = pattern {
        law_all_matches_listed(bytes, p@);
        law_nearest_match(all_matches(bytes, p@), caret_of(v.selection));
    }
}

/// Picking a match of the list shows that match, in the list too.
pub proof fn law_picked_match_is_shown(v: SearchView, bytes: Seq<u8>, idx: usize, p: Seq<u8>)
    requires
        v.pattern == Some(p),
        p.len() > 0,
        idx < v.matches.len(),
        v.matches[idx as int] + p.len() <= u64::MAX,
    ensures
        ({
            let after = after_event(v, bytes, SearchEvent::JumpTo(idx));
            &&& after.selection matches Some(sel) && sel.anchor == v.matches[idx as int]
                && sel.cursor == sel.anchor + p.len() - 1
            &&& after.scroll_to == Some(v.matches[idx as int])
            &&& after.active matches Some(i) && i < v.matches.len() && v.matches[i as int]
                == v.matches[idx as int]
            &&& after.matches == v.matches
            &&& after.pattern == v.pattern
        }),
{
    lemma_index_of_found(v.matches, v.matches[idx as int]);
}

/// Clearing the list leaves no match in it, and closing the bar closes it. Neither
/// moves the selection, and neither forgets the pattern.
pub proof fn law_clear_and_close(v: SearchView, bytes: Seq<u8>)
    ensures
        ({
            let cleared = after_event(v, bytes, SearchEvent::ClearAll);
            let closed = after_event(v, bytes, SearchEvent::Close);
            &&& cleared.matches.len() == 0 && cleared.active is None && !cleared.all_results
            &&& cleared.open == v.open && cleared.pattern == v.pattern
            &&& cleared.selection == v.selection && cleared.scroll_to == v.scroll_to
            &&& !closed.open && closed.pattern == v.pattern && closed.matches == v.matches
            &&& closed.selection == v.selection && closed.active == v.active
            &&& closed.all_results == v.all_results
        }),
{
}

/// What happens in the search bar takes effect in turn: first all that came before,
/// then the rest.
pub proof fn law_events_in_turn(
    v: SearchView,
    bytes: Seq<u8>,
    first: Seq<SearchEvent>,
    event: SearchEvent,
)
    ensures
        after_events(v, bytes, seq![]) == v,
        after_events(v, bytes, first.push(event)) == after_event(
            after_events(v, bytes, first),
            bytes,
            event,
        ),
        after_events(v, bytes, seq![event]) == after_event(v, bytes, event),
{
    let none: Seq<SearchEvent> = seq![];
    assert(first.push(event).drop_last() =~= first);
    assert(seq![event].drop_last() =~= none);
    assert(after_events(v, bytes, none) == v);
}

/// Opening the bar looks into the selection where it has two bytes or more, from its
/// first to its last, and else into the whole file. Closing it leaves the rest alone.
pub proof fn law_bar_opens_on_selection(v: SearchView, pattern: Option<Seq<u8>>)
    ensures
        bar_toggled(v, pattern).open == !v.open,
        bar_toggled(v, pattern).selection == v.selection,
        bar_toggled(v, pattern).matches == v.matches,
        bar_toggled(v, pattern).active == v.active,
        v.open ==> bar_toggled(v, pattern).pattern == v.pattern && bar_toggled(v, pattern).scope
            == v.scope,
        !v.open ==> bar_toggled(v, pattern).pattern == pattern && match v.selection {
            Some(sel) => if sel.anchor == sel.cursor {
                bar_toggled(v, pattern).scope is File
            } else {
                bar_toggled(v, pattern).scope matches SearchScope::Selection {
                    start,
                    end_exclusive,
                } && {
                    &&& start <= sel.anchor && start <= sel.cursor
                    &&& start == sel.anchor || start == sel.cursor
                    &&& sel.anchor < u64::MAX && sel.cursor < u64::MAX ==> {
                        &&& sel.anchor < end_exclusive && sel.cursor < end_exclusive
                        &&& end_exclusive == sel.anchor + 1 || end_exclusive == sel.cursor + 1
                    }
                }
            },
            None => bar_toggled(v, pattern).scope is File,
        },
{
}

} // verus!
