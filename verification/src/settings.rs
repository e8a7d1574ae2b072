//! Preferences that shape what the editor shows.

use vstd::prelude::*;
use vstd::string::*;

verus! {

/// Base in which offsets are shown.
#[derive(Clone, Copy, Debug, PartialEq, Eq, Structural)]
pub enum OffsetBase {
    Hex,
    Decimal,
}

impl OffsetBase {
    pub open spec fn spec_toggle(self) -> OffsetBase {
        match self {
            OffsetBase::Hex => OffsetBase::Decimal,
            OffsetBase::Decimal => OffsetBase::Hex,
        }
    }

    /// The other base.
    pub fn toggle(self) -> (r: OffsetBase)
        ensures
            r == self.spec_toggle(),
    {
        match self {
            OffsetBase::Hex => OffsetBase::Decimal,
            OffsetBase::Decimal => OffsetBase::Hex,
        }
    }
}

/// Switching the base twice changes nothing.
pub proof fn law_base_toggle_back(base: OffsetBase)
    ensures
        base.spec_toggle().spec_toggle() == base,
{
}

/// What a byte's highlight colours.
#[derive(Clone, Copy, Debug, PartialEq, Eq, Structural)]
pub enum ByteHighlightMode {
    Background,
    Text,
}

/// What a byte's highlight is chosen by.
#[derive(Clone, Copy, Debug, PartialEq, Eq, Structural)]
pub enum ByteHighlightScheme {
    Class,
    Value,
}

/// Whether a file that changed on disk is read again without asking.
#[derive(Clone, Copy, Debug, PartialEq, Eq, Structural)]
pub enum AutoReload {
    Always,
    Ask,
    Never,
}

/// Fewest columns of the hex view.
pub const MIN_COLUMNS: u16 = 1;

/// Most columns of the hex view that the palette and the settings offer.
pub const MAX_COLUMNS: u16 = 64;

/// A file that was open before.
pub struct RecentFile {
    pub path: String,
    /// The last part of the path.
    pub name: String,
    /// What stands before the last part.
    pub parent: Option<String>,
}

/// Preferences.
pub struct AppSettings {
    pub offset_base: OffsetBase,
    pub hex_columns: u16,
    pub byte_value_highlight: bool,
    pub byte_highlight_mode: ByteHighlightMode,
    pub byte_highlight_scheme: ByteHighlightScheme,
    pub show_minimap: bool,
    pub minimap_colored: bool,
    pub address_separator_enabled: bool,
    pub address_separator_char: char,
    pub check_for_updates: bool,
    pub palette_escape_pops_to_parent: bool,
    pub vim_keys: bool,
    pub auto_reload: AutoReload,
    /// Files for which another answer than that was chosen.
    pub watch_prefs: Vec<WatchPref>,
    pub recent_files: Vec<RecentFile>,
}

/// What was chosen for a file that changes on disk.
pub struct WatchPref {
    /// What tells the file.
    pub key: String,
    pub mode: AutoReload,
}

/// What was chosen for a file last.
pub open spec fn pref_for(prefs: Seq<WatchPref>, key: Seq<char>) -> Option<AutoReload>
    decreases prefs.len(),
{
    if prefs.len() == 0 {
        None
    } else if prefs.last().key@ == key {
        Some(prefs.last().mode)
    } else {
        pref_for(prefs.drop_last(), key)
    }
}

/// What was chosen, without one file.
pub open spec fn prefs_without(prefs: Seq<WatchPref>, key: Seq<char>) -> Seq<WatchPref>
    decreases prefs.len(),
{
    if prefs.len() == 0 {
        seq![]
    } else if prefs.last().key@ == key {
        prefs_without(prefs.drop_last(), key)
    } else {
        prefs_without(prefs.drop_last(), key).push(prefs.last())
    }
}

/// Whether one list of choices is another in which a file got a choice, or lost
/// it.
pub open spec fn pref_set(
    before: Seq<WatchPref>,
    key: Seq<char>,
    mode: Option<AutoReload>,
    after: Seq<WatchPref>,
) -> bool {
    match mode {
        Some(m) => after.len() > 0 && after.drop_last() == prefs_without(before, key)
            && after.last().key@ == key && after.last().mode == m,
        None => after == prefs_without(before, key),
    }
}

/// A choice that was set is the one that is read, and no other file's choice
/// changes.
pub proof fn law_pref_read_back(
    before: Seq<WatchPref>,
    key: Seq<char>,
    mode: Option<AutoReload>,
    after: Seq<WatchPref>,
    other: Seq<char>,
)
    requires
        pref_set(before, key, mode, after),
    ensures
        pref_for(after, key) == mode,
        other != key ==> pref_for(after, other) == pref_for(before, other),
{
    lemma_prefs_without(before, key, other);
}

proof fn lemma_prefs_without(prefs: Seq<WatchPref>, key: Seq<char>, other: Seq<char>)
    ensures
        pref_for(prefs_without(prefs, key), key) is None,
        other != key ==> pref_for(prefs_without(prefs, key), other) == pref_for(prefs, other),
    decreases prefs.len(),
{
    if prefs.len() > 0 {
        lemma_prefs_without(prefs.drop_last(), key, other);
        let kept = prefs_without(prefs.drop_last(), key);
        assert(kept.push(prefs.last()).drop_last() =~= kept);
    }
}

fn drop_pref(prefs: &mut Vec<WatchPref>, key: &String)
    ensures
        final(prefs)@ == prefs_without(old(prefs)@, key@),
{
    let ghost all = prefs@;
    let ghost mut done: int = 0;
    let mut rest: Vec<WatchPref> = Vec::new();
    std::mem::swap(prefs, &mut rest);
    assert(rest@ =~= all.skip(0));
    assert(all.take(0) =~= seq![]);
    assert(prefs@ =~= prefs_without(all.take(0), key@));
    while rest.len() > 0
        invariant
            0 <= done <= all.len(),
            rest@ == all.skip(done),
            prefs@ == prefs_without(all.take(done), key@),
        decreases rest.len(),
    {
        assert(all.take(done + 1).drop_last() =~= all.take(done));
        let p = rest.remove(0);
        assert(p == all[done]);
        if p.key != *key {
            prefs.push(p);
        }
        proof {
            done = done + 1;
        }
        assert(rest@ =~= all.skip(done));
    }
    assert(all.take(done) =~= all);
}

/// Whether a number of columns is offered.
pub open spec fn columns_allowed(n: int) -> bool {
    MIN_COLUMNS <= n <= MAX_COLUMNS
}

impl AppSettings {
    /// There is a column at least.
    pub open spec fn wf(self) -> bool {
        self.hex_columns >= MIN_COLUMNS
    }

    /// The preferences with another number of columns; zero is passed over.
    pub open spec fn with_columns(self, columns: u16) -> AppSettings {
        AppSettings {
            hex_columns: if columns >= MIN_COLUMNS {
                columns
            } else {
                self.hex_columns
            },
            ..self
        }
    }

    /// Takes over a number of columns; zero is passed over.
    pub fn set_columns(&mut self, columns: u16)
        ensures
            *final(self) == old(self).with_columns(columns),
            old(self).wf() ==> final(self).wf(),
    {
        if columns >= MIN_COLUMNS {
            self.hex_columns = columns;
        }
    }

    /// What is done when a file changes on disk: what was chosen for it, else
    /// what is chosen for all.
    pub open spec fn reload_mode(self, key: Seq<char>) -> AutoReload {
        match pref_for(self.watch_prefs@, key) {
            Some(mode) => mode,
            None => self.auto_reload,
        }
    }

    pub fn auto_reload_for(&self, key: &String) -> (r: AutoReload)
        ensures
            r == self.reload_mode(key@),
    {
        let mut i: usize = self.watch_prefs.len();
        assert(self.watch_prefs@.take(i as int) =~= self.watch_prefs@);
        while i > 0
            invariant
                i <= self.watch_prefs@.len(),
                pref_for(self.watch_prefs@.take(i as int), key@) == pref_for(
                    self.watch_prefs@,
                    key@,
                ),
            decreases i,
        {
            let ghost part = self.watch_prefs@.take(i as int);
            assert(part.drop_last() =~= self.watch_prefs@.take(i as int - 1));
            assert(part.last() == self.watch_prefs@[i as int - 1]);
            i = i - 1;
            if self.watch_prefs[i].key == *key {
                return self.watch_prefs[i].mode;
            }
        }
        self.auto_reload
    }

    /// Chooses what is done when a file changes on disk, or takes the choice
    /// back.
    pub fn set_auto_reload_for(&mut self, key: String, mode: Option<AutoReload>)
        ensures
            *final(self) == (AppSettings { watch_prefs: final(self).watch_prefs, ..*old(self) }),
            pref_set(old(self).watch_prefs@, key@, mode, final(self).watch_prefs@),
    {
        drop_pref(&mut self.watch_prefs, &key);
        if let Some(m) = mode {
            let ghost kept = self.watch_prefs@;
            self.watch_prefs.push(WatchPref { key, mode: m });
            assert(self.watch_prefs@.drop_last() =~= kept);
        }
    }

    /// The preferences with another separator.
    pub open spec fn with_separator(self, typed: Seq<char>) -> AppSettings {
        AppSettings {
            address_separator_char: if typed.len() > 0 {
                typed[0]
            } else {
                self.address_separator_char
            },
            ..self
        }
    }

    /// Takes over the separator that was typed: its first character, and
    /// nothing where the field was emptied.
    pub fn set_address_separator(&mut self, typed: &str)
        ensures
            *final(self) == old(self).with_separator(typed@),
    {
        if typed.unicode_len() > 0 {
            self.address_separator_char = typed.get_char(0);
        }
    }
}

/// A number of columns from one on is taken over as it is, and nothing else changes;
/// zero changes nothing. From one to sixty-four are offered.
pub proof fn law_columns_are_taken_over(settings: AppSettings, columns: u16)
    ensures
        columns > 0 ==> settings.with_columns(columns).hex_columns == columns,
        columns == 0 ==> settings.with_columns(columns) == settings,
        settings.with_columns(columns).recent_files == settings.recent_files,
        settings.with_columns(columns).with_columns(settings.hex_columns) == settings
            || settings.hex_columns == 0,
        columns_allowed(columns as int) <==> 1 <= columns <= 64,
{
}

/// The first character that was typed is the separator; an empty field changes
/// nothing.
pub proof fn law_separator_is_first_character(settings: AppSettings, typed: Seq<char>)
    ensures
        typed.len() > 0 ==> settings.with_separator(typed).address_separator_char == typed[0],
        typed.len() == 0 ==> settings.with_separator(typed) == settings,
        settings.with_separator(typed).address_separator_enabled
            == settings.address_separator_enabled,
{
}

/// Hexadecimal and decimal are each other's other base.
pub proof fn law_other_base(base: OffsetBase)
    ensures
        base is Hex <==> base.spec_toggle() is Decimal,
        base is Decimal <==> base.spec_toggle() is Hex,
{
}

/// What a file got chosen wins over what is chosen for all files, and the file of
/// another key goes by what is chosen for all where it got nothing.
pub proof fn law_choice_for_file_wins(
    settings: AppSettings,
    key: Seq<char>,
    mode: Option<AutoReload>,
    after: AppSettings,
    other: Seq<char>,
)
    requires
        pref_set(settings.watch_prefs@, key, mode, after.watch_prefs@),
        after == (AppSettings { watch_prefs: after.watch_prefs, ..settings }),
    ensures
        mode matches Some(m) ==> after.reload_mode(key) == m,
        mode is None ==> after.reload_mode(key) == settings.auto_reload,
        other != key ==> after.reload_mode(other) == settings.reload_mode(other),
        (forall|i: int|
            0 <= i < settings.watch_prefs@.len() ==> (#[trigger] settings.watch_prefs@[i]).key@
                != other) ==> settings.reload_mode(other) == settings.auto_reload,
{
    law_pref_read_back(settings.watch_prefs@, key, mode, after.watch_prefs@, other);
    if forall|i: int|
        0 <= i < settings.watch_prefs@.len() ==> (#[trigger] settings.watch_prefs@[i]).key@
            != other {
        lemma_no_pref(settings.watch_prefs@, other);
    }
}

proof fn lemma_no_pref(prefs: Seq<WatchPref>, key: Seq<char>)
    requires
        forall|i: int| 0 <= i < prefs.len() ==> (#[trigger] prefs[i]).key@ != key,
    ensures
        pref_for(prefs, key) is None,
    decreases prefs.len(),
{
    if prefs.len() > 0 {
        assert(prefs[prefs.len() - 1].key@ != key);
        assert forall|i: int| 0 <= i < prefs.drop_last().len() implies (
        #[trigger] prefs.drop_last()[i]).key@ != key by {
            assert(prefs.drop_last()[i] == prefs[i]);
        }
        lemma_no_pref(prefs.drop_last(), key);
    }
}

} // verus!
