//! Watching files for changes from outside: which are watched, and what is
//! remembered of the user's choice.

use vstd::prelude::*;
use vstd::string::*;
use crate::session::{find_file, HxyApp, OpenFile};
#[allow(unused_imports)]
use crate::session::file_at;
use crate::settings::{AppSettings, AutoReload};
#[allow(unused_imports)]
use crate::settings::pref_set;
use crate::source::TabSource;
#[allow(unused_imports)]
use crate::source::{source_root, SourceView};
use crate::tabs::FileId;
use crate::text::text_eq;

verus! {

/// The key of something that a plugin mounted: the plugin, its token and the
/// entries on the way. What comes from a file on disk or from a scratch buffer
/// has none.
pub open spec fn mount_key(source: SourceView) -> Option<Seq<char>>
    decreases source,
{
    match source {
        SourceView::PluginMount { plugin_name, token, .. } => Some(
            "vfs://"@ + plugin_name + "/"@ + token,
        ),
        SourceView::VfsEntry { parent, entry_path } => match mount_key(*parent) {
            Some(key) => Some(key + "/"@ + entry_path),
            None => None,
        },
        _ => None,
    }
}

fn key_of_mount(source: &TabSource) -> (r: Option<String>)
    ensures
        match (mount_key(source@), r) {
            (Some(a), Some(b)) => a == b@,
            (None, None) => true,
            _ => false,
        },
    decreases source,
{
    match source {
        TabSource::PluginMount { plugin_name, token, .. } => {
            let mut out = "vfs://".to_owned();
            out.append(plugin_name.as_str());
            out.append("/");
            out.append(token.as_str());
            Some(out)
        },
        TabSource::VfsEntry { parent, entry_path } => match key_of_mount(&**parent) {
            Some(mut out) => {
                out.append("/");
                out.append(entry_path.as_str());
                Some(out)
            },
            None => None,
        },
        _ => None,
    }
}

/// What a choice about a file is remembered under: the path of what it comes
/// from on disk, else the key of what a plugin mounted. A scratch buffer and
/// bytes from memory have none.
pub open spec fn watch_key(source: Option<TabSource>) -> Option<Seq<char>> {
    match source {
        Some(s) => match source_root(s@) {
            Some(path) => Some(path),
            None => mount_key(s@),
        },
        None => None,
    }
}

fn key_of(source: &Option<TabSource>) -> (r: Option<String>)
    ensures
        match (watch_key(*source), r) {
            (Some(a), Some(b)) => a == b@,
            (None, None) => true,
            _ => false,
        },
{
    match source {
        Some(s) => match s.root_path() {
            Some(path) => Some(path),
            None => key_of_mount(s),
        },
        None => None,
    }
}

/// The key of an open file.
pub open spec fn file_key(app: HxyApp, id: FileId) -> Option<Seq<char>> {
    match file_at(app.files@, id) {
        Some(i) => watch_key(app.files@[i].source),
        None => None,
    }
}

/// Finds what a choice about a file is remembered under.
pub fn watch_key_for(app: &HxyApp, id: FileId) -> (r: Option<String>)
    ensures
        match (file_key(*app, id), r) {
            (Some(a), Some(b)) => a == b@,
            (None, None) => true,
            _ => false,
        },
{
    match find_file(&app.files, id) {
        Some(i) => key_of(&app.files[i].source),
        None => None,
    }
}

/// What is done when a file changes, by its key; the user is asked where it has
/// none.
pub open spec fn mode_for(app: HxyApp, id: FileId) -> AutoReload {
    match file_key(app, id) {
        Some(key) => app.settings.reload_mode(key),
        None => AutoReload::Ask,
    }
}

/// Whether a file is an entry of something that is not mounted from a file on
/// disk, so that only reading it again shows a change.
pub open spec fn needs_polling(file: OpenFile) -> bool {
    file.source matches Some(TabSource::VfsEntry { parent, .. }) && !(*parent is Filesystem)
}

/// What is to be watched, and what not any more.
pub struct WatchPlan {
    pub watch_path: Option<String>,
    /// Whether the file's bytes are to be compared from time to time.
    pub poll: bool,
    pub unwatch_path: Option<String>,
    pub stop_polling: bool,
}

/// A text that is there, or none.
pub open spec fn same_text(a: Option<Seq<char>>, b: Option<String>) -> bool {
    match (a, b) {
        (Some(x), Some(y)) => x == y@,
        (None, None) => true,
        _ => false,
    }
}

/// The path on disk that a file comes from.
pub open spec fn root_of(file: OpenFile) -> Option<Seq<char>> {
    match file.source {
        Some(s) => source_root(s@),
        None => None,
    }
}

/// Whether a plan asks for nothing.
pub open spec fn watches_nothing(plan: WatchPlan) -> bool {
    plan.watch_path is None && !plan.poll && plan.unwatch_path is None && !plan.stop_polling
}

/// Whether a plan starts the watching of a file: its path on disk, and its
/// bytes where those alone show a change. Nothing is watched that the user
/// wants to hear nothing of.
pub open spec fn starts_watching(app: HxyApp, id: FileId, plan: WatchPlan) -> bool {
    match file_at(app.files@, id) {
        Some(i) => if mode_for(app, id) is Never {
            watches_nothing(plan)
        } else {
            same_text(root_of(app.files@[i]), plan.watch_path) && plan.poll == needs_polling(
                app.files@[i],
            ) && plan.unwatch_path is None && !plan.stop_polling
        },
        None => watches_nothing(plan),
    }
}

fn no_watch() -> (r: WatchPlan)
    ensures
        watches_nothing(r),
{
    WatchPlan { watch_path: None, poll: false, unwatch_path: None, stop_polling: false }
}

pub(crate) fn current_mode(app: &HxyApp, id: FileId) -> (r: AutoReload)
    ensures
        r == mode_for(*app, id),
{
    match watch_key_for(app, id) {
        Some(key) => app.settings.auto_reload_for(&key),
        None => AutoReload::Ask,
    }
}

fn root_path_of(file: &OpenFile) -> (r: Option<String>)
    ensures
        same_text(root_of(*file), r),
{
    match &file.source {
        Some(s) => s.root_path(),
        None => None,
    }
}

/// Plans the watching of a file that was opened.
pub fn watch_root_for_file(app: &HxyApp, id: FileId) -> (r: WatchPlan)
    ensures
        starts_watching(*app, id, r),
{
    let i = match find_file(&app.files, id) {
        Some(i) => i,
        None => return no_watch(),
    };
    if current_mode(app, id) == AutoReload::Never {
        return no_watch();
    }
    let poll = match &app.files[i].source {
        Some(TabSource::VfsEntry { parent, .. }) => match &**parent {
            TabSource::Filesystem(_) => false,
            _ => true,
        },
        _ => false,
    };
    WatchPlan {
        watch_path: root_path_of(&app.files[i]),
        poll,
        unwatch_path: None,
        stop_polling: false,
    }
}

/// Whether an open file comes from a path on disk.
pub open spec fn path_used(files: Seq<OpenFile>, path: Seq<char>) -> bool {
    exists|i: int| 0 <= i < files.len() && root_of(#[trigger] files[i]) == Some(path)
}

/// Tells whether an open file comes from a path on disk, so that it stays
/// watched.
pub fn path_in_use(files: &Vec<OpenFile>, path: &String) -> (r: bool)
    ensures
        r == path_used(files@, path@),
{
    let mut i: usize = 0;
    while i < files.len()
        invariant
            i <= files@.len(),
            forall|j: int| 0 <= j < i ==> root_of(#[trigger] files@[j]) != Some(path@),
        decreases files.len() - i,
    {
        if let Some(root) = root_path_of(&files[i]) {
            if text_eq(root.as_str(), path.as_str()) {
                assert(root_of(files@[i as int]) == Some(path@));
                return true;
            }
        }
        i = i + 1;
    }
    false
}

/// Whether a plan is what the choice about a file asks for now: the watching
/// starts, or it ends where no open file needs the path.
pub open spec fn watch_refreshed(app: HxyApp, id: FileId, plan: WatchPlan) -> bool {
    match file_at(app.files@, id) {
        Some(i) => if mode_for(app, id) is Never {
            &&& plan.watch_path is None
            &&& !plan.poll
            &&& plan.stop_polling
            &&& match root_of(app.files@[i]) {
                Some(path) => if path_used(app.files@, path) {
                    plan.unwatch_path is None
                } else {
                    plan.unwatch_path matches Some(p) && p@ == path
                },
                None => plan.unwatch_path is None,
            }
        } else {
            starts_watching(app, id, plan)
        },
        None => watches_nothing(plan),
    }
}

/// Plans the watching of a file anew.
pub fn refresh_watch_for_file(app: &HxyApp, id: FileId) -> (r: WatchPlan)
    ensures
        watch_refreshed(*app, id, r),
{
    let i = match find_file(&app.files, id) {
        Some(i) => i,
        None => return no_watch(),
    };
    if current_mode(app, id) != AutoReload::Never {
        return watch_root_for_file(app, id);
    }
    let unwatch_path = match root_path_of(&app.files[i]) {
        Some(path) => if path_in_use(&app.files, &path) {
            None
        } else {
            Some(path)
        },
        None => None,
    };
    WatchPlan { watch_path: None, poll: false, unwatch_path, stop_polling: true }
}

/// Whether it was remembered what is done when a file changes, and its watching planned.
pub open spec fn watch_pref_set(
    before: HxyApp,
    id: FileId,
    mode: AutoReload,
    r: WatchPlan,
    after: HxyApp,
) -> bool {
    match file_key(before, id) {
        Some(key) => {
            &&& after == (HxyApp { settings: after.settings, ..before })
            &&& after.settings == (AppSettings {
                watch_prefs: after.settings.watch_prefs,
                ..before.settings
            })
            &&& pref_set(
                before.settings.watch_prefs@,
                key,
                if mode == before.settings.auto_reload {
                    None
                } else {
                    Some(mode)
                },
                after.settings.watch_prefs@,
            )
            &&& watch_refreshed(after, id, r)
        },
        None => after == before && watches_nothing(r),
    }
}

impl HxyApp {
    /// Remembers what is done when a file changes, and plans its watching
    /// accordingly. A choice that is the one for all is not remembered. A file
    /// without a key is left alone.
    pub fn set_file_watch_pref(&mut self, id: FileId, mode: AutoReload) -> (r: WatchPlan)
        requires
            old(self).wf(),
        ensures
            final(self).wf(),
            watch_pref_set(*old(self), id, mode, r, *final(self)),
    {
        let key = match watch_key_for(self, id) {
            Some(key) => key,
            None => return no_watch(),
        };
        let pref = if mode == self.settings.auto_reload {
            None
        } else {
            Some(mode)
        };
        self.settings.set_auto_reload_for(key, pref);
        refresh_watch_for_file(self, id)
    }
}

/// What was chosen for a file is what is done when it changes.
pub proof fn law_watch_pref_holds(
    before: HxyApp,
    key: Seq<char>,
    mode: AutoReload,
    after: HxyApp,
)
    requires
        after.settings.auto_reload == before.settings.auto_reload,
        pref_set(
            before.settings.watch_prefs@,
            key,
            if mode == before.settings.auto_reload {
                None
            } else {
                Some(mode)
            },
            after.settings.watch_prefs@,
        ),
    ensures
        after.settings.reload_mode(key) == mode,
{
    crate::settings::law_pref_read_back(
        before.settings.watch_prefs@,
        key,
        if mode == before.settings.auto_reload {
            None
        } else {
            Some(mode)
        },
        after.settings.watch_prefs@,
        key,
    );
}

/// A choice about a file on disk is remembered under its path, and so is one about an
/// entry of it; one about what a plugin mounted under the plugin and its token, and one
/// about an entry of that under the same with the entry's path behind it.
pub proof fn law_choices_are_kept_under_their_source(
    path: String,
    entry: String,
    plugin_name: String,
    token: String,
    title: String,
    id: u64,
)
    ensures
        watch_key(Some(TabSource::Filesystem(path))) == Some(path@),
        watch_key(
            Some(
                TabSource::VfsEntry {
                    parent: Box::new(TabSource::Filesystem(path)),
                    entry_path: entry,
                },
            ),
        ) == Some(path@),
        watch_key(Some(TabSource::PluginMount { plugin_name, token, title })) == Some(
            "vfs://"@ + plugin_name@ + "/"@ + token@,
        ),
        watch_key(
            Some(
                TabSource::VfsEntry {
                    parent: Box::new(TabSource::PluginMount { plugin_name, token, title }),
                    entry_path: entry,
                },
            ),
        ) == Some("vfs://"@ + plugin_name@ + "/"@ + token@ + "/"@ + entry@),
        watch_key(Some(TabSource::Anonymous { id, title })) is None,
        watch_key(None) is None,
{
    reveal_with_fuel(crate::source::source_view, 3);
    reveal_with_fuel(source_root, 3);
    reveal_with_fuel(mount_key, 3);
}

/// A file is watched on disk by the path that it comes from, unless the user wants to
/// hear nothing of it. Its bytes are compared where it is an entry of what is not mounted
/// from a file on disk.
pub proof fn law_open_file_is_watched(app: HxyApp, i: int, path: String, plan: WatchPlan)
    requires
        app.wf(),
        0 <= i < app.files@.len(),
        starts_watching(app, app.files@[i].id, plan),
    ensures
        plan.unwatch_path is None && !plan.stop_polling,
        mode_for(app, app.files@[i].id) is Never ==> plan.watch_path is None && !plan.poll,
        !(mode_for(app, app.files@[i].id) is Never) ==> {
            &&& app.files@[i].source == Some(TabSource::Filesystem(path)) ==> (
            plan.watch_path matches Some(p) && p@ == path@) && !plan.poll
            &&& app.files@[i].source is None ==> plan.watch_path is None && !plan.poll
            &&& plan.poll <==> (app.files@[i].source matches Some(
                TabSource::VfsEntry { parent, entry_path: _ },
            ) && !(*parent is Filesystem))
        },
{
    crate::session::lemma_file_at(app.files@, app.files@[i].id, i);
    reveal_with_fuel(crate::source::source_view, 2);
    reveal_with_fuel(source_root, 2);
}

/// A path is no longer watched only where the user wants to hear nothing of its file and
/// no open file comes from it.
pub proof fn law_used_path_stays_watched(app: HxyApp, id: FileId, plan: WatchPlan, k: int)
    requires
        watch_refreshed(app, id, plan),
        0 <= k < app.files@.len(),
    ensures
        plan.unwatch_path matches Some(p) ==> root_of(app.files@[k]) != Some(p@) && mode_for(
            app,
            id,
        ) is Never,
{
    if plan.unwatch_path is Some {
        if root_of(app.files@[k]) == Some(plan.unwatch_path->0@) {
            assert(path_used(app.files@, plan.unwatch_path->0@));
        }
    }
}

/// What was chosen for a file is done when it changes from now on, and other files go by
/// what they did. A file without a key is left alone.
pub proof fn law_choice_for_file_is_taken(
    before: HxyApp,
    id: FileId,
    mode: AutoReload,
    r: WatchPlan,
    after: HxyApp,
    other: Seq<char>,
)
    requires
        watch_pref_set(before, id, mode, r, after),
    ensures
        file_key(before, id) matches Some(key) ==> {
            &&& after.settings.reload_mode(key) == mode
            &&& other != key ==> after.settings.reload_mode(other) == before.settings.reload_mode(
                other,
            )
            &&& after.files == before.files
        },
        file_key(before, id) is None ==> after == before,
{
    if file_key(before, id) is Some {
        let key = file_key(before, id)->0;
        law_watch_pref_holds(before, key, mode, after);
        crate::settings::law_pref_read_back(
            before.settings.watch_prefs@,
            key,
            if mode == before.settings.auto_reload {
                None
            } else {
                Some(mode)
            },
            after.settings.watch_prefs@,
            other,
        );
    }
}

/// A file that is not to be reloaded is neither watched nor polled, and its path is no
/// longer watched unless an open file is on it; any other file starts to be watched.
pub proof fn law_unwatched_file_is_left_alone(app: HxyApp, plan: WatchPlan, i: int, k: int)
    requires
        app.wf(),
        0 <= i < app.files@.len(),
        watch_refreshed(app, app.files@[i].id, plan),
    ensures
        mode_for(app, app.files@[i].id) is Never ==> {
            &&& plan.watch_path is None && !plan.poll && plan.stop_polling
            &&& root_of(app.files@[i]) is None ==> plan.unwatch_path is None
            &&& plan.unwatch_path matches Some(p) ==> root_of(app.files@[i]) == Some(p@) && (0 <= k
                < app.files@.len() ==> root_of(app.files@[k]) != Some(p@))
        },
        !(mode_for(app, app.files@[i].id) is Never) ==> !plan.stop_polling && plan.unwatch_path
            is None,
{
    crate::session::lemma_file_at(app.files@, app.files@[i].id, i);
    if mode_for(app, app.files@[i].id) is Never {
        match plan.unwatch_path {
            Some(p) => {
                if 0 <= k < app.files@.len() && root_of(app.files@[k]) == Some(p@) {
                    assert(path_used(app.files@, p@));
                }
            },
            None => {},
        }
    }
}

} // verus!
