//! New scratch files: an id and a title that nothing else has.

use vstd::prelude::*;
use vstd::string::*;
use crate::editor::Selection;
use crate::opening::{OpenRequest, Opened};
#[allow(unused_imports)]
use crate::opening::opened_to;
use crate::session::{focus_file_tab, HxyApp, MountedPlugin, OpenFile};
#[allow(unused_imports)]
use crate::session::file_focused;
use crate::source::{entry_name, OpenTabState, TabSource};
#[allow(unused_imports)]
use crate::source::leaf_name;
use crate::tabs::FileId;
use crate::text::{numbered, push_hex_padded, text_eq};
#[allow(unused_imports)]
use crate::text::{
    dec, digits, digits_value, law_digits_injective, law_digits_read_back, zero_padded, zeros,
};

verus! {

/// Whether a number is among some.
pub open spec fn has_number(list: Seq<u64>, n: u64) -> bool {
    exists|i: int| 0 <= i < list.len() && #[trigger] list[i] == n
}

fn position_of_number(list: &Vec<u64>, n: u64) -> (r: Option<usize>)
    ensures
        match r {
            Some(i) => i < list@.len() && list@[i as int] == n,
            None => !has_number(list@, n),
        },
{
    let mut i: usize = 0;
    while i < list.len()
        invariant
            i <= list@.len(),
            forall|j: int| 0 <= j < i ==> #[trigger] list@[j] != n,
        decreases list.len() - i,
    {
        if list[i] == n {
            return Some(i);
        }
        i = i + 1;
    }
    None
}

/// The smallest number that is not among some.
pub fn smallest_free(used: Vec<u64>) -> (r: u64)
    ensures
        !has_number(used@, r),
        forall|n: u64| n < r ==> #[trigger] has_number(used@, n),
        r <= used@.len(),
{
    let ghost all = used@;
    let mut rest: Vec<u64> = used;
    let mut next: u64 = 0;
    let total: usize = rest.len();
    loop
        invariant
            total == all.len(),
            next + rest@.len() == total,
            forall|n: u64| n < next ==> #[trigger] has_number(all, n),
            forall|k: int|
                0 <= k < all.len() ==> (#[trigger] all[k]) < next || has_number(rest@, all[k]),
            forall|k: int| 0 <= k < rest@.len() ==> has_number(all, #[trigger] rest@[k]),
            all == used@,
        decreases rest.len(),
    {
        let i: usize = match position_of_number(&rest, next) {
            Some(i) => i,
            None => {
                proof {
                    if has_number(all, next) {
                        let k = choose|k: int| 0 <= k < all.len() && #[trigger] all[k] == next;
                        assert(has_number(rest@, all[k]));
                    }
                }
                return next;
            },
        };
        let ghost before = rest@;
        assert(has_number(all, before[i as int]));
        rest.remove(i);
        proof {
            assert forall|k: int| 0 <= k < all.len() implies (#[trigger] all[k]) < next + 1
                || has_number(rest@, all[k]) by {
                if all[k] != next && all[k] >= next {
                    let m = choose|m: int| 0 <= m < before.len() && #[trigger] before[m] == all[k];
                    if m < i {
                        assert(rest@[m] == all[k]);
                    } else {
                        assert(rest@[m - 1] == all[k]);
                    }
                }
            }
            assert forall|k: int| 0 <= k < rest@.len() implies has_number(
                all,
                #[trigger] rest@[k],
            ) by {
                if k < i {
                    assert(rest@[k] == before[k]);
                } else {
                    assert(rest@[k] == before[k + 1]);
                }
            }
        }
        next = next + 1;
    }
}

/// The title of the `n`-th scratch file.
pub open spec fn untitled(n: u64) -> Seq<char> {
    if n <= 1 {
        "Untitled"@
    } else {
        "Untitled "@ + dec(n as nat)
    }
}

/// Scratch files with other numbers have other titles.
pub proof fn law_untitled_injective(a: u64, b: u64)
    requires
        1 <= a,
        1 <= b,
        untitled(a) == untitled(b),
    ensures
        a == b,
{
    reveal_strlit("Untitled");
    reveal_strlit("Untitled ");
    if a >= 2 && b >= 2 {
        let prefix = "Untitled "@;
        assert(untitled(a).skip(prefix.len() as int) =~= dec(a as nat));
        assert(untitled(b).skip(prefix.len() as int) =~= dec(b as nat));
        law_digits_injective(a as nat, b as nat, 10, true);
    } else if a >= 2 {
        assert(untitled(a).len() >= 9);
    } else if b >= 2 {
        assert(untitled(b).len() >= 9);
    }
}

fn untitled_title(n: u64) -> (r: String)
    ensures
        r@ == untitled(n),
{
    if n <= 1 {
        "Untitled".to_owned()
    } else {
        numbered("Untitled ", n)
    }
}

/// Whether a text is among some.
pub open spec fn has_text(list: Seq<String>, text: Seq<char>) -> bool {
    exists|i: int| 0 <= i < list.len() && (#[trigger] list[i])@ == text
}

fn position_of_text(list: &Vec<String>, text: &String) -> (r: Option<usize>)
    ensures
        match r {
            Some(i) => i < list@.len() && list@[i as int]@ == text@,
            None => !has_text(list@, text@),
        },
{
    let mut i: usize = 0;
    while i < list.len()
        invariant
            i <= list@.len(),
            forall|j: int| 0 <= j < i ==> (#[trigger] list@[j])@ != text@,
        decreases list.len() - i,
    {
        if text_eq(list[i].as_str(), text.as_str()) {
            return Some(i);
        }
        i = i + 1;
    }
    None
}

/// The number of the first scratch title that is not among some.
pub fn free_title_number(used: Vec<String>) -> (r: u64)
    requires
        used@.len() < u64::MAX,
    ensures
        1 <= r,
        !has_text(used@, untitled(r)),
        forall|n: u64| 1 <= n < r ==> has_text(used@, #[trigger] untitled(n)),
{
    let ghost all = used@;
    let mut rest: Vec<String> = used;
    let total: usize = rest.len();
    let mut next: u64 = 1;
    let mut title = untitled_title(next);
    loop
        invariant
            total == all.len(),
            total < u64::MAX,
            1 <= next,
            next - 1 + rest@.len() == total,
            title@ == untitled(next),
            forall|n: u64| 1 <= n < next ==> has_text(all, #[trigger] untitled(n)),
            forall|k: int|
                0 <= k < all.len() ==> taken(#[trigger] all[k]@, next) || has_text(
                    rest@,
                    all[k]@,
                ),
            forall|k: int| 0 <= k < rest@.len() ==> has_text(all, (#[trigger] rest@[k])@),
            all == used@,
        decreases rest.len(),
    {
        let i: usize = match position_of_text(&rest, &title) {
            Some(i) => i,
            None => {
                proof {
                    if has_text(all, untitled(next)) {
                        let k = choose|k: int|
                            0 <= k < all.len() && (#[trigger] all[k])@ == untitled(next);
                        if taken(all[k]@, next) {
                            let n = choose|n: u64|
                                1 <= n < next && all[k]@ == #[trigger] untitled(n);
                            law_untitled_injective(n, next);
                        }
                        assert(has_text(rest@, all[k]@));
                    }
                }
                return next;
            },
        };
        let ghost before = rest@;
        assert(has_text(all, before[i as int]@));
        rest.remove(i);
        proof {
            assert forall|k: int| 0 <= k < all.len() implies taken(
                #[trigger] all[k]@,
                (next + 1) as u64,
            ) || has_text(rest@, all[k]@) by {
                if taken(all[k]@, next) {
                    let n = choose|n: u64| 1 <= n < next && all[k]@ == #[trigger] untitled(n);
                    assert(1 <= n < next + 1 && all[k]@ == untitled(n));
                } else if all[k]@ == untitled(next) {
                    assert(1 <= next < next + 1 && all[k]@ == untitled(next));
                } else {
                    let m = choose|m: int| 0 <= m < before.len() && (#[trigger] before[m])@ == all[k]@;
                    if m < i {
                        assert(rest@[m]@ == all[k]@);
                    } else {
                        assert(rest@[m - 1]@ == all[k]@);
                    }
                }
            }
            assert forall|k: int| 0 <= k < rest@.len() implies has_text(
                all,
                (#[trigger] rest@[k])@,
            ) by {
                if k < i {
                    assert(rest@[k] == before[k]);
                } else {
                    assert(rest@[k] == before[k + 1]);
                }
            }
        }
        next = next + 1;
        title = untitled_title(next);
    }
}

/// Whether a text is the title of a scratch file below a number.
pub open spec fn taken(text: Seq<char>, next: u64) -> bool {
    exists|n: u64| 1 <= n < next && text == #[trigger] untitled(n)
}

/// Whether a scratch file has an id.
pub open spec fn is_scratch(source: TabSource, id: u64) -> bool {
    source matches TabSource::Anonymous { id: n, .. } && n == id
}

/// Whether a scratch file with an id is open or remembered.
pub open spec fn scratch_id_used(app: HxyApp, id: u64) -> bool {
    ||| exists|i: int|
        0 <= i < app.files@.len() && ((#[trigger] app.files@[i]).source matches Some(s)
            && is_scratch(s, id))
    ||| exists|i: int|
        0 <= i < app.open_tabs@.len() && is_scratch((#[trigger] app.open_tabs@[i]).source, id)
}

/// The title of a tab that is remembered: that of a scratch file or of a plugin's
/// mount, or the last part of a path.
pub open spec fn source_title(source: TabSource) -> Seq<char> {
    match source {
        TabSource::Filesystem(path) => leaf_name(path@),
        TabSource::VfsEntry { entry_path, .. } => leaf_name(entry_path@),
        TabSource::Anonymous { title, .. } => title@,
        TabSource::PluginMount { title, .. } => title@,
    }
}

/// Whether one of the first few files has a title.
pub open spec fn file_titled(files: Seq<OpenFile>, n: int, title: Seq<char>) -> bool {
    exists|i: int| 0 <= i < n && (#[trigger] files[i]).display_name@ == title
}

/// Whether one of the first few mounts has a title.
pub open spec fn mount_titled(mounts: Seq<MountedPlugin>, n: int, title: Seq<char>) -> bool {
    exists|i: int| 0 <= i < n && (#[trigger] mounts[i]).display_name@ == title
}

/// Whether one of the first few tabs that are remembered has a title.
pub open spec fn tab_titled(tabs: Seq<OpenTabState>, n: int, title: Seq<char>) -> bool {
    exists|i: int| 0 <= i < n && source_title((#[trigger] tabs[i]).source) == title
}

/// Whether a tab has a title, open or remembered.
pub open spec fn title_used(app: HxyApp, title: Seq<char>) -> bool {
    ||| file_titled(app.files@, app.files@.len() as int, title)
    ||| mount_titled(app.mounts@, app.mounts@.len() as int, title)
    ||| tab_titled(app.open_tabs@, app.open_tabs@.len() as int, title)
}

fn used_ids(app: &HxyApp) -> (r: Vec<u64>)
    ensures
        forall|n: u64| #[trigger] has_number(r@, n) == scratch_id_used(*app, n),
{
    let mut out: Vec<u64> = Vec::new();
    let mut i: usize = 0;
    while i < app.files.len()
        invariant
            i <= app.files@.len(),
            forall|n: u64| #[trigger]
                has_number(out@, n) == exists|k: int|
                    0 <= k < i && ((#[trigger] app.files@[k]).source matches Some(s) && is_scratch(
                        s,
                        n,
                    )),
        decreases app.files.len() - i,
    {
        let ghost before = out@;
        if let Some(TabSource::Anonymous { id, .. }) = &app.files[i].source {
            out.push(*id);
            proof {
                lemma_number_pushed(before, *id);
            }
        }
        i = i + 1;
        proof {
            lemma_open_ids(app.files@, before, out@, i as int);
        }
    }
    let ghost of_files = out@;
    let mut j: usize = 0;
    while j < app.open_tabs.len()
        invariant
            j <= app.open_tabs@.len(),
            forall|n: u64| #[trigger]
                has_number(out@, n) == (has_number(of_files, n) || exists|k: int|
                    0 <= k < j && is_scratch((#[trigger] app.open_tabs@[k]).source, n)),
        decreases app.open_tabs.len() - j,
    {
        let ghost before = out@;
        if let TabSource::Anonymous { id, .. } = &app.open_tabs[j].source {
            out.push(*id);
            proof {
                lemma_number_pushed(before, *id);
            }
        }
        j = j + 1;
        proof {
            lemma_tab_ids(app.open_tabs@, of_files, before, out@, j as int);
        }
    }
    out
}

proof fn lemma_number_pushed(list: Seq<u64>, id: u64)
    ensures
        forall|n: u64| #[trigger] has_number(list.push(id), n) == (has_number(list, n) || n == id),
{
    assert forall|n: u64| #[trigger] has_number(list.push(id), n) == (has_number(list, n) || n
        == id) by {
        if has_number(list, n) {
            let i = choose|i: int| 0 <= i < list.len() && #[trigger] list[i] == n;
            assert(list.push(id)[i] == n);
        }
        if n == id {
            assert(list.push(id)[list.len() as int] == n);
        }
        if has_number(list.push(id), n) && n != id {
            let i = choose|i: int|
                0 <= i < list.push(id).len() && #[trigger] list.push(id)[i] == n;
            assert(list[i] == n);
        }
    }
}

proof fn lemma_open_ids(files: Seq<OpenFile>, before: Seq<u64>, after: Seq<u64>, i: int)
    requires
        0 < i <= files.len(),
        forall|n: u64| #[trigger]
            has_number(before, n) == exists|k: int|
                0 <= k < i - 1 && ((#[trigger] files[k]).source matches Some(s) && is_scratch(s, n)),
        forall|n: u64| #[trigger]
            has_number(after, n) == (has_number(before, n) || (files[i - 1].source matches Some(s)
                && is_scratch(s, n))),
    ensures
        forall|n: u64| #[trigger]
            has_number(after, n) == exists|k: int|
                0 <= k < i && ((#[trigger] files[k]).source matches Some(s) && is_scratch(s, n)),
{
    assert forall|n: u64| #[trigger] has_number(after, n) == exists|k: int|
        0 <= k < i && ((#[trigger] files[k]).source matches Some(s) && is_scratch(s, n)) by {
        if has_number(after, n) {
            if has_number(before, n) {
                let k = choose|k: int|
                    0 <= k < i - 1 && ((#[trigger] files[k]).source matches Some(s) && is_scratch(
                        s,
                        n,
                    ));
                assert(files[k].source matches Some(s) && is_scratch(s, n));
            } else {
                assert(files[i - 1].source matches Some(s) && is_scratch(s, n));
            }
        }
    }
}

proof fn lemma_tab_ids(
    tabs: Seq<OpenTabState>,
    base: Seq<u64>,
    before: Seq<u64>,
    after: Seq<u64>,
    j: int,
)
    requires
        0 < j <= tabs.len(),
        forall|n: u64| #[trigger]
            has_number(before, n) == (has_number(base, n) || exists|k: int|
                0 <= k < j - 1 && is_scratch((#[trigger] tabs[k]).source, n)),
        forall|n: u64| #[trigger]
            has_number(after, n) == (has_number(before, n) || is_scratch(tabs[j - 1].source, n)),
    ensures
        forall|n: u64| #[trigger]
            has_number(after, n) == (has_number(base, n) || exists|k: int|
                0 <= k < j && is_scratch((#[trigger] tabs[k]).source, n)),
{
    assert forall|n: u64| #[trigger] has_number(after, n) == (has_number(base, n) || exists|k: int|
        0 <= k < j && is_scratch((#[trigger] tabs[k]).source, n)) by {
        if has_number(after, n) && !has_number(base, n) {
            if has_number(before, n) {
                let k = choose|k: int| 0 <= k < j - 1 && is_scratch((#[trigger] tabs[k]).source, n);
                assert(is_scratch(tabs[k].source, n));
            } else {
                assert(is_scratch(tabs[j - 1].source, n));
            }
        }
    }
}

/// The title of a tab that is remembered.
fn title_of(source: &TabSource) -> (r: String)
    ensures
        r@ == source_title(*source),
{
    match source {
        TabSource::Filesystem(path) => entry_name(path.as_str()),
        TabSource::VfsEntry { entry_path, .. } => entry_name(entry_path.as_str()),
        TabSource::Anonymous { title, .. } => title.clone(),
        TabSource::PluginMount { title, .. } => title.clone(),
    }
}

proof fn lemma_text_pushed(list: Seq<String>, text: String)
    ensures
        forall|t: Seq<char>| #[trigger]
            has_text(list.push(text), t) == (has_text(list, t) || text@ == t),
{
    assert forall|t: Seq<char>| #[trigger] has_text(list.push(text), t) == (has_text(list, t)
        || text@ == t) by {
        let more = list.push(text);
        if has_text(list, t) {
            let i = choose|i: int| 0 <= i < list.len() && (#[trigger] list[i])@ == t;
            assert(more[i]@ == t);
        }
        if text@ == t {
            assert(more[list.len() as int]@ == t);
        }
        if has_text(more, t) && text@ != t {
            let i = choose|i: int| 0 <= i < more.len() && (#[trigger] more[i])@ == t;
            assert(list[i]@ == t);
        }
    }
}

proof fn lemma_file_titled(files: Seq<OpenFile>, n: int, title: Seq<char>)
    requires
        0 <= n < files.len(),
    ensures
        file_titled(files, n + 1, title) == (file_titled(files, n, title)
            || files[n].display_name@ == title),
{
    if file_titled(files, n, title) {
        let i = choose|i: int| 0 <= i < n && (#[trigger] files[i]).display_name@ == title;
        assert(files[i].display_name@ == title);
    }
}

proof fn lemma_mount_titled(mounts: Seq<MountedPlugin>, n: int, title: Seq<char>)
    requires
        0 <= n < mounts.len(),
    ensures
        mount_titled(mounts, n + 1, title) == (mount_titled(mounts, n, title)
            || mounts[n].display_name@ == title),
{
    if mount_titled(mounts, n, title) {
        let i = choose|i: int| 0 <= i < n && (#[trigger] mounts[i]).display_name@ == title;
        assert(mounts[i].display_name@ == title);
    }
}

proof fn lemma_tab_titled(tabs: Seq<OpenTabState>, n: int, title: Seq<char>)
    requires
        0 <= n < tabs.len(),
    ensures
        tab_titled(tabs, n + 1, title) == (tab_titled(tabs, n, title) || source_title(
            tabs[n].source,
        ) == title),
{
    if tab_titled(tabs, n, title) {
        let i = choose|i: int| 0 <= i < n && source_title((#[trigger] tabs[i]).source) == title;
        assert(source_title(tabs[i].source) == title);
    }
}

fn used_titles(app: &HxyApp) -> (r: Vec<String>)
    ensures
        r@.len() == app.files@.len() + app.mounts@.len() + app.open_tabs@.len(),
        forall|t: Seq<char>| #[trigger] has_text(r@, t) == title_used(*app, t),
{
    let mut out: Vec<String> = Vec::new();
    let mut i: usize = 0;
    while i < app.files.len()
        invariant
            i <= app.files@.len(),
            out@.len() == i,
            forall|t: Seq<char>| #[trigger]
                has_text(out@, t) == file_titled(app.files@, i as int, t),
        decreases app.files.len() - i,
    {
        let name = app.files[i].display_name.clone();
        proof {
            lemma_text_pushed(out@, name);
            assert forall|t: Seq<char>| #[trigger]
                has_text(out@.push(name), t) == file_titled(app.files@, i + 1, t) by {
                lemma_file_titled(app.files@, i as int, t);
                assert(has_text(out@, t) == file_titled(app.files@, i as int, t));
            }
        }
        out.push(name);
        i = i + 1;
    }
    let ghost of_files = out@;
    let mut j: usize = 0;
    while j < app.mounts.len()
        invariant
            j <= app.mounts@.len(),
            out@.len() == of_files.len() + j,
            forall|t: Seq<char>| #[trigger]
                has_text(out@, t) == (has_text(of_files, t) || mount_titled(
                    app.mounts@,
                    j as int,
                    t,
                )),
        decreases app.mounts.len() - j,
    {
        let name = app.mounts[j].display_name.clone();
        proof {
            lemma_text_pushed(out@, name);
            assert forall|t: Seq<char>| #[trigger]
                has_text(out@.push(name), t) == (has_text(of_files, t) || mount_titled(
                    app.mounts@,
                    j + 1,
                    t,
                )) by {
                lemma_mount_titled(app.mounts@, j as int, t);
                assert(has_text(out@, t) == (has_text(of_files, t) || mount_titled(
                    app.mounts@,
                    j as int,
                    t,
                )));
            }
        }
        out.push(name);
        j = j + 1;
    }
    let ghost of_open = out@;
    let mut k: usize = 0;
    while k < app.open_tabs.len()
        invariant
            k <= app.open_tabs@.len(),
            out@.len() == of_open.len() + k,
            forall|t: Seq<char>| #[trigger]
                has_text(out@, t) == (has_text(of_open, t) || tab_titled(
                    app.open_tabs@,
                    k as int,
                    t,
                )),
        decreases app.open_tabs.len() - k,
    {
        let name = title_of(&app.open_tabs[k].source);
        proof {
            lemma_text_pushed(out@, name);
            assert forall|t: Seq<char>| #[trigger]
                has_text(out@.push(name), t) == (has_text(of_open, t) || tab_titled(
                    app.open_tabs@,
                    k + 1,
                    t,
                )) by {
                lemma_tab_titled(app.open_tabs@, k as int, t);
                assert(has_text(out@, t) == (has_text(of_open, t) || tab_titled(
                    app.open_tabs@,
                    k as int,
                    t,
                )));
            }
        }
        out.push(name);
        k = k + 1;
    }
    proof {
        assert forall|t: Seq<char>| #[trigger] has_text(out@, t) == title_used(*app, t) by {
            assert(has_text(of_open, t) == (has_text(of_files, t) || mount_titled(
                app.mounts@,
                app.mounts@.len() as int,
                t,
            )));
            assert(has_text(of_files, t) == file_titled(app.files@, app.files@.len() as int, t));
        }
    }
    out
}

/// The id and the number of the title that a new scratch file gets.
pub struct NewFile {
    pub id: u64,
    pub number: u64,
    pub title: String,
}

/// Picks the id and title of a new scratch file: the smallest id that none has,
/// open or remembered, and the first title that none has.
pub fn pick_new_file(app: &HxyApp) -> (r: NewFile)
    requires
        app.files@.len() + app.open_tabs@.len() + app.mounts@.len() < u64::MAX,
    ensures
        !scratch_id_used(*app, r.id),
        forall|n: u64| n < r.id ==> #[trigger] scratch_id_used(*app, n),
        1 <= r.number,
        r.title@ == untitled(r.number),
        !title_used(*app, r.title@),
        forall|n: u64| 1 <= n < r.number ==> title_used(*app, #[trigger] untitled(n)),
{
    let ids = used_ids(app);
    let ghost ids_seq = ids@;
    let id = smallest_free(ids);
    proof {
        assert(has_number(ids_seq, id) == scratch_id_used(*app, id));
        assert forall|n: u64| n < id implies #[trigger] scratch_id_used(*app, n) by {
            assert(has_number(ids_seq, n));
        }
    }
    let titles = used_titles(app);
    let ghost titles_seq = titles@;
    let number = free_title_number(titles);
    proof {
        assert(has_text(titles_seq, untitled(number)) == title_used(*app, untitled(number)));
        assert forall|n: u64| 1 <= n < number implies title_used(*app, #[trigger] untitled(n)) by {
            assert(has_text(titles_seq, untitled(n)));
        }
    }
    NewFile { id, number, title: untitled_title(number) }
}

/// The request that opens a new scratch file: empty, with the caret at its
/// start.
pub open spec fn asks_new_file(req: OpenRequest, id: u64, title: Seq<char>) -> bool {
    &&& req.display_name@ == title
    &&& req.source matches Some(TabSource::Anonymous { id: n, title: t }) && n == id && t@ == title
    &&& req.bytes@.len() == 0
    &&& req.selection == Some(Selection::spec_caret(0))
    &&& req.scroll is None
    &&& req.handler is None
    &&& req.suggested_template is None
    &&& !req.loading
}

/// Whether one editor is another in which a new scratch file was opened and
/// brought to the front: with the first title that none had.
pub open spec fn new_file_opened(
    before: HxyApp,
    scratch: u64,
    number: u64,
    req: OpenRequest,
    done: Opened,
    mid: HxyApp,
    after: HxyApp,
) -> bool {
    &&& 1 <= number
    &&& !title_used(before, untitled(number))
    &&& forall|n: u64| 1 <= n < number ==> title_used(before, #[trigger] untitled(n))
    &&& asks_new_file(req, scratch, untitled(number))
    &&& opened_to(before, req, None, done, mid)
    &&& file_focused(mid, done.id, after)
}

/// Whether one editor is another in which a new scratch file was opened, with
/// its id and that of its buffer: the smallest that no scratch file has.
pub open spec fn scratch_made(before: HxyApp, made: (FileId, u64), after: HxyApp) -> bool {
    &&& made.0 == FileId(before.next_file_id)
    &&& !scratch_id_used(before, made.1)
    &&& forall|n: u64| n < made.1 ==> #[trigger] scratch_id_used(before, n)
    &&& exists|number: u64, req: OpenRequest, done: Opened, mid: HxyApp| #[trigger]
        new_file_opened(before, made.1, number, req, done, mid, after)
}

/// Opens a new scratch file and brings it to the front. Returns its id, and
/// the id of the scratch buffer that keeps its bytes, the smallest that none
/// has.
#[verifier::rlimit(40)]
#[verifier::spinoff_prover]
pub fn handle_new_file(app: &mut HxyApp) -> (r: (FileId, u64))
    requires
        old(app).wf(),
        old(app).next_file_id < u64::MAX,
        old(app).next_workspace_id < u64::MAX,
        old(app).files@.len() + old(app).open_tabs@.len() + old(app).mounts@.len() < u64::MAX,
    ensures
        final(app).wf(),
        scratch_made(*old(app), r, *final(app)),
{
    let fresh = pick_new_file(app);
    let req = OpenRequest {
        display_name: fresh.title.clone(),
        source: Some(TabSource::Anonymous { id: fresh.id, title: fresh.title.clone() }),
        bytes: Vec::new(),
        selection: Some(Selection::caret(0)),
        scroll: None,
        handler: None,
        suggested_template: None,
        parent_dir: None,
        loading: false,
    };
    let ghost asked = req;
    let done = app.open(req, false, None);
    let ghost mid = *app;
    let id = done.id;
    focus_file_tab(app, id);
    let scratch: u64 = fresh.id;
    let r = (id, scratch);
    assert(new_file_opened(*old(app), r.1, fresh.number, asked, done, mid, *app));
    r
}

/// Name of the file that keeps the bytes of a scratch file between runs.
pub open spec fn scratch_file_name(id: u64) -> Seq<char> {
    zero_padded(digits(id as nat, 16, false), 16) + ".bin"@
}

/// Name of the file that keeps the bytes of a scratch file between runs.
pub fn anonymous_file_name(id: u64) -> (r: String)
    ensures
        r@ == scratch_file_name(id),
{
    let mut out = String::new();
    push_hex_padded(&mut out, id, 16, false);
    out.append(".bin");
    assert(out@ =~= zero_padded(digits(id as nat, 16, false), 16) + ".bin"@);
    out
}

/// Scratch files with other ids are kept in files with other names.
pub proof fn law_scratch_files_are_kept_apart(a: u64, b: u64)
    requires
        scratch_file_name(a) == scratch_file_name(b),
    ensures
        a == b,
{
    let da = digits(a as nat, 16, false);
    let db = digits(b as nat, 16, false);
    let pa = zero_padded(da, 16);
    let pb = zero_padded(db, 16);
    assert(scratch_file_name(a).take(pa.len() as int) =~= pa);
    assert(scratch_file_name(b).take(pb.len() as int) =~= pb);
    assert(scratch_file_name(a).len() == pa.len() + ".bin"@.len());
    assert(scratch_file_name(b).len() == pb.len() + ".bin"@.len());
    assert(pa == pb);
    lemma_padding_reads(da, 16);
    lemma_padding_reads(db, 16);
    law_digits_read_back(a as nat, 16, false);
    law_digits_read_back(b as nat, 16, false);
}

proof fn lemma_padding_reads(s: Seq<char>, width: nat)
    ensures
        digits_value(zero_padded(s, width), 16) == digits_value(s, 16),
{
    if s.len() < width {
        lemma_leading_zeros((width - s.len()) as nat, s);
    }
}

proof fn lemma_leading_zeros(z: nat, s: Seq<char>)
    ensures
        digits_value(zeros(z) + s, 16) == digits_value(s, 16),
    decreases z + s.len(),
{
    let t = zeros(z) + s;
    if s.len() > 0 {
        assert(t.drop_last() =~= zeros(z) + s.drop_last());
        lemma_leading_zeros(z, s.drop_last());
    } else if z > 0 {
        assert(t.drop_last() =~= zeros((z - 1) as nat) + s);
        lemma_leading_zeros((z - 1) as nat, s);
        assert(digits_value(s, 16) == 0);
    } else {
        assert(t =~= s);
    }
}

/// The first scratch file has no number in its title, later ones have theirs.
pub proof fn law_scratch_titles(n: u64)
    ensures
        n == 1 ==> untitled(n) == "Untitled"@,
        n > 1 ==> untitled(n) == "Untitled "@ + dec(n as nat),
{
}

/// A new file is empty with the caret at its start, is kept under the smallest id that
/// no scratch file has, open or remembered, and has a title that no tab has.
pub proof fn law_new_file_is_fresh(
    before: HxyApp,
    scratch: u64,
    number: u64,
    req: OpenRequest,
    done: Opened,
    mid: HxyApp,
    after: HxyApp,
    i: int,
)
    requires
        new_file_opened(before, scratch, number, req, done, mid, after),
    ensures
        req.bytes@.len() == 0,
        req.selection matches Some(sel) && sel.anchor == 0 && sel.cursor == 0,
        0 <= i < before.files@.len() ==> before.files@[i].display_name@ != req.display_name@,
        0 <= i < before.mounts@.len() ==> before.mounts@[i].display_name@ != req.display_name@,
        0 <= i < before.open_tabs@.len() ==> source_title(before.open_tabs@[i].source)
            != req.display_name@,
        req.source matches Some(TabSource::Anonymous { id: n, title: t }) && n == scratch && t@
            == req.display_name@,
{
    if 0 <= i < before.files@.len() && before.files@[i].display_name@ == untitled(number) {
        assert(file_titled(before.files@, before.files@.len() as int, untitled(number)));
    }
    if 0 <= i < before.mounts@.len() && before.mounts@[i].display_name@ == untitled(number) {
        assert(mount_titled(before.mounts@, before.mounts@.len() as int, untitled(number)));
    }
    if 0 <= i < before.open_tabs@.len() && source_title(before.open_tabs@[i].source) == untitled(
        number,
    ) {
        assert(tab_titled(before.open_tabs@, before.open_tabs@.len() as int, untitled(number)));
    }
}

/// The id of a new scratch file is one that no scratch file has, and every smaller one
/// is had.
pub proof fn law_new_id_is_smallest_free(before: HxyApp, made: (FileId, u64), after: HxyApp, i: int)
    requires
        scratch_made(before, made, after),
    ensures
        (made.0).0 == before.next_file_id,
        0 <= i < before.files@.len() ==> !(before.files@[i].source matches Some(
            TabSource::Anonymous { id: n, title: _ },
        ) && n == made.1),
        0 <= i < before.open_tabs@.len() ==> !(
        before.open_tabs@[i].source matches TabSource::Anonymous { id: n, title: _ } && n == made.1),
        forall|n: u64|
            n < made.1 ==> #[trigger] scratch_id_used(before, n),
{
    if 0 <= i < before.files@.len() && (before.files@[i].source matches Some(s) && is_scratch(
        s,
        made.1,
    )) {
        assert(scratch_id_used(before, made.1));
    }
    if 0 <= i < before.open_tabs@.len() && is_scratch(before.open_tabs@[i].source, made.1) {
        assert(scratch_id_used(before, made.1));
    }
}

/// A file on disk and an entry of an archive are titled by the last part of their path,
/// anything else by its own title; a title that any of them has is not free.
pub proof fn law_title_of_remembered_tab_is_used(app: HxyApp, i: int)
    requires
        0 <= i < app.open_tabs@.len(),
    ensures
        app.open_tabs@[i].source matches TabSource::Filesystem(path) ==> title_used(
            app,
            leaf_name(path@),
        ),
        app.open_tabs@[i].source matches TabSource::VfsEntry { parent: _, entry_path } ==> title_used(
            app,
            leaf_name(entry_path@),
        ),
        app.open_tabs@[i].source matches TabSource::Anonymous { id: _, title } ==> title_used(
            app,
            title@,
        ),
{
    assert(source_title(app.open_tabs@[i].source) == source_title(app.open_tabs@[i].source));
}

/// The name of an open file is not free.
pub proof fn law_name_of_open_file_is_used(app: HxyApp, i: int)
    requires
        0 <= i < app.files@.len(),
    ensures
        title_used(app, app.files@[i].display_name@),
{
}

} // verus!
