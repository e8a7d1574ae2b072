//! What the hex view and the status bar under it show.

use vstd::prelude::*;
use vstd::string::*;
use crate::editor::{EditMode, Selection};
use crate::labels::{Icon, Label};
#[allow(unused_imports)]
use crate::labels::LabelView;
use crate::settings::{AppSettings, ByteHighlightMode, ByteHighlightScheme, OffsetBase};
use crate::tabs::TabFocus;
use crate::template::Span;
use crate::text::{join2, push_dec, push_hex};
#[allow(unused_imports)]
use crate::text::{dec, digits_value, hex, law_digits_read_back};

verus! {

/// An offset as it is shown in a base.
pub open spec fn offset_text(value: u64, base: OffsetBase) -> Seq<char> {
    match base {
        OffsetBase::Hex => "0x"@ + hex(value as nat),
        OffsetBase::Decimal => dec(value as nat),
    }
}

/// Writes an offset in a base.
pub fn format_offset(value: u64, base: OffsetBase) -> (r: String)
    ensures
        r@ == offset_text(value, base),
{
    let mut out = String::new();
    match base {
        OffsetBase::Hex => {
            out.append("0x");
            push_hex(&mut out, value);
        },
        OffsetBase::Decimal => {
            push_dec(&mut out, value);
        },
    }
    assert(out@ =~= offset_text(value, base));
    out
}

/// First and last byte of a selection and how many bytes it has.
pub open spec fn range_text(sel: Selection, base: OffsetBase) -> Seq<char> {
    ends_text(sel, base) + " ("@ + offset_text(sel.spec_len(), base) + " bytes)"@
}

/// First and last byte of a selection.
pub open spec fn ends_text(sel: Selection, base: OffsetBase) -> Seq<char> {
    offset_text(sel.spec_start(), base) + "-"@ + offset_text(last_byte(sel), base)
}

/// The last byte of a selection.
pub open spec fn last_byte(sel: Selection) -> u64 {
    if sel.spec_end() == 0 {
        0
    } else {
        (sel.spec_end() - 1) as u64
    }
}

fn last_of(sel: Selection) -> (r: u64)
    ensures
        r == last_byte(sel),
{
    let end: u64 = sel.end();
    if end == 0 {
        0
    } else {
        end - 1
    }
}

/// Writes the first and last byte of a selection.
pub fn format_ends(sel: Selection, base: OffsetBase) -> (r: String)
    ensures
        r@ == ends_text(sel, base),
{
    let mut out = format_offset(sel.start(), base);
    out.append("-");
    let last = format_offset(last_of(sel), base);
    out.append(last.as_str());
    out
}

/// Writes a selection as first byte, last byte and length.
pub fn format_range(sel: Selection, base: OffsetBase) -> (r: String)
    ensures
        r@ == range_text(sel, base),
{
    let mut out = format_ends(sel, base);
    out.append(" (");
    let len = format_offset(sel.len(), base);
    out.append(len.as_str());
    out.append(" bytes)");
    out
}

/// A field of the status bar: what it shows, what copying it gives, and the
/// same in the other base for its tooltip. One that has nothing to show can
/// be neither copied nor hovered.
pub struct StatusField {
    pub display: String,
    pub copy: Option<String>,
    pub tooltip: Option<String>,
}

/// What a field of the status bar says.
pub struct StatusFieldView {
    pub display: Seq<char>,
    pub copy: Option<Seq<char>>,
    pub tooltip: Option<Seq<char>>,
}

impl View for StatusField {
    type V = StatusFieldView;

    open spec fn view(&self) -> StatusFieldView {
        StatusFieldView {
            display: self.display@,
            copy: match self.copy {
                Some(s) => Some(s@),
                None => None,
            },
            tooltip: match self.tooltip {
                Some(s) => Some(s@),
                None => None,
            },
        }
    }
}

/// The field for one offset.
pub open spec fn offset_field(prefix: Seq<char>, value: u64, base: OffsetBase) -> StatusFieldView {
    StatusFieldView {
        display: prefix + offset_text(value, base),
        copy: Some(offset_text(value, base)),
        tooltip: Some(offset_text(value, base.spec_toggle())),
    }
}

/// The field that tells where the pointer is.
pub open spec fn hover_field(hovered: Option<u64>, base: OffsetBase) -> StatusFieldView {
    match hovered {
        Some(at) => offset_field("Hover: "@, at, base),
        None => StatusFieldView { display: "Hover: --"@, copy: None, tooltip: None },
    }
}

/// The field that tells what is selected.
pub open spec fn selection_field(sel: Option<Selection>, base: OffsetBase) -> StatusFieldView {
    match sel {
        Some(s) => if s.spec_is_caret() {
            offset_field("Caret: "@, s.spec_start(), base)
        } else {
            StatusFieldView {
                display: "Sel: "@ + range_text(s, base),
                copy: Some(range_text(s, base)),
                tooltip: Some(ends_text(s, base.spec_toggle())),
            }
        },
        None => StatusFieldView { display: "Sel: --"@, copy: None, tooltip: None },
    }
}

fn make_offset_field(prefix: &str, value: u64, base: OffsetBase) -> (r: StatusField)
    ensures
        r@ == offset_field(prefix@, value, base),
{
    let text = format_offset(value, base);
    StatusField {
        display: join2(prefix, text.as_str()),
        copy: Some(text),
        tooltip: Some(format_offset(value, base.toggle())),
    }
}

/// The status bar.
pub struct StatusBar {
    pub focus_icon: Icon,
    pub focus_label: &'static str,
    pub focus_tooltip: &'static str,
    pub hover: StatusField,
    pub selection: StatusField,
    pub length: StatusField,
    pub lock_icon: Icon,
    pub lock_tooltip: Label,
    /// The mode that a click on the lock asks for; none where it is inert.
    pub lock_click: Option<EditMode>,
}

/// The lock's tooltip.
pub open spec fn lock_tooltip(reason: Option<&'static str>, mode: EditMode) -> LabelView {
    match (reason, mode) {
        (Some(why), _) => LabelView::With(
            "status-lock-readonly-locked-tooltip"@,
            "reason"@,
            Box::new(LabelView::Key(why@)),
        ),
        (None, EditMode::Readonly) => LabelView::Key("status-lock-readonly-tooltip"@),
        (None, EditMode::Mutable) => LabelView::Key("status-lock-mutable-tooltip"@),
    }
}

/// Whether a status bar shows what it should of a file.
pub open spec fn bar_shows(
    focus: TabFocus,
    hovered: Option<u64>,
    selection: Option<Selection>,
    source_len: u64,
    read_only: Option<&'static str>,
    mode: EditMode,
    base: OffsetBase,
    r: StatusBar,
) -> bool {
    &&& r.focus_icon == (if focus is Outer {
        Icon::SquaresFour
    } else {
        Icon::TreeStructure
    })
    &&& r.focus_label@ == (if focus is Outer {
        "Tabs: Outer"@
    } else {
        "Tabs: VFS"@
    })
    &&& r.focus_tooltip@ == (if focus is Outer {
        "Ctrl+Tab cycles top-level tabs. Alt+Tab to switch into a workspace."@
    } else {
        "Ctrl+Tab cycles workspace sub-tabs. Alt+Tab to switch back to outer tabs."@
    })
    &&& r.hover@ == hover_field(hovered, base)
    &&& r.selection@ == selection_field(selection, base)
    &&& r.length@ == offset_field("Length: "@, source_len, base)
    &&& r.lock_icon == (if read_only is None && mode is Mutable {
        Icon::LockOpen
    } else {
        Icon::Lock
    })
    &&& r.lock_tooltip@ == lock_tooltip(read_only, mode)
    &&& r.lock_click == (if read_only is None {
        Some(mode.spec_toggled())
    } else {
        None
    })
}

/// Lays out the status bar of a file. `read_only` is the key of the message
/// that tells why the file must stay read-only, if it must. The lock is shut
/// where the file is or must stay read-only, and a click on it asks for the
/// other mode unless there is a reason against that.
pub fn status_bar(
    focus: TabFocus,
    hovered: Option<u64>,
    selection: Option<Selection>,
    source_len: u64,
    read_only: Option<&'static str>,
    mode: EditMode,
    base: OffsetBase,
) -> (r: StatusBar)
    ensures
        bar_shows(focus, hovered, selection, source_len, read_only, mode, base, r),
{
    let (focus_icon, focus_label, focus_tooltip) = match focus {
        TabFocus::Outer => (
            Icon::SquaresFour,
            "Tabs: Outer",
            "Ctrl+Tab cycles top-level tabs. Alt+Tab to switch into a workspace.",
        ),
        TabFocus::Workspace(_) => (
            Icon::TreeStructure,
            "Tabs: VFS",
            "Ctrl+Tab cycles workspace sub-tabs. Alt+Tab to switch back to outer tabs.",
        ),
    };
    let hover = match hovered {
        Some(at) => make_offset_field("Hover: ", at, base),
        None => StatusField { display: "Hover: --".to_owned(), copy: None, tooltip: None },
    };
    let selection = match selection {
        Some(s) => if s.is_caret() {
            make_offset_field("Caret: ", s.start(), base)
        } else {
            let copy = format_range(s, base);
            StatusField {
                display: join2("Sel: ", copy.as_str()),
                copy: Some(copy),
                tooltip: Some(format_ends(s, base.toggle())),
            }
        },
        None => StatusField { display: "Sel: --".to_owned(), copy: None, tooltip: None },
    };
    proof {
        reveal_with_fuel(crate::labels::label_view, 2);
    }
    let (lock_icon, lock_tooltip) = match (read_only, mode) {
        (Some(why), _) => (
            Icon::Lock,
            Label::With(
                "status-lock-readonly-locked-tooltip",
                "reason",
                Box::new(Label::Key(why)),
            ),
        ),
        (None, EditMode::Readonly) => (Icon::Lock, Label::Key("status-lock-readonly-tooltip")),
        (None, EditMode::Mutable) => (Icon::LockOpen, Label::Key("status-lock-mutable-tooltip")),
    };
    StatusBar {
        focus_icon,
        focus_label,
        focus_tooltip,
        hover,
        selection,
        length: make_offset_field("Length: ", source_len, base),
        lock_icon,
        lock_tooltip,
        lock_click: if read_only.is_none() {
            Some(mode.toggled())
        } else {
            None
        },
    }
}

/// Ranges in order that do not overlap, each given by its first byte and the
/// byte after its last.
pub open spec fn ranges_ordered(ranges: Seq<(u64, u64)>) -> bool {
    &&& forall|i: int| 0 <= i < ranges.len() ==> (#[trigger] ranges[i]).0 <= ranges[i].1
    &&& forall|i: int, j: int|
        0 <= i < j < ranges.len() ==> (#[trigger] ranges[i]).1 <= (#[trigger] ranges[j]).0
}

/// Whether one of the ranges covers an offset.
pub open spec fn covered(ranges: Seq<(u64, u64)>, offset: u64) -> bool {
    exists|i: int|
        0 <= i < ranges.len() && (#[trigger] ranges[i]).0 <= offset && offset < ranges[i].1
}

/// Pairs ordered by their first component.
pub open spec fn starts_ordered(pairs: Seq<(u64, u64)>) -> bool {
    forall|i: int, j: int|
        0 <= i <= j < pairs.len() ==> (#[trigger] pairs[i]).0 <= (#[trigger] pairs[j]).0
}

/// How many pairs start at or before an offset, found by halving.
fn starts_at_or_before(pairs: &Vec<(u64, u64)>, offset: u64) -> (r: usize)
    requires
        starts_ordered(pairs@),
    ensures
        r <= pairs@.len(),
        forall|i: int| 0 <= i < r ==> (#[trigger] pairs@[i]).0 <= offset,
        forall|i: int| r <= i < pairs@.len() ==> (#[trigger] pairs@[i]).0 > offset,
{
    let mut low: usize = 0;
    let mut high: usize = pairs.len();
    while low < high
        invariant
            low <= high <= pairs@.len(),
            starts_ordered(pairs@),
            forall|i: int| 0 <= i < low ==> (#[trigger] pairs@[i]).0 <= offset,
            forall|i: int| high <= i < pairs@.len() ==> (#[trigger] pairs@[i]).0 > offset,
        decreases high - low,
    {
        let mid: usize = low + (high - low) / 2;
        if pairs[mid].0 <= offset {
            assert forall|i: int| 0 <= i < mid + 1 implies (#[trigger] pairs@[i]).0 <= offset by {
                assert(pairs@[i].0 <= pairs@[mid as int].0);
            }
            low = mid + 1;
        } else {
            assert forall|i: int| mid <= i < pairs@.len() implies (#[trigger] pairs@[i]).0
                > offset by {
                assert(pairs@[mid as int].0 <= pairs@[i].0);
            }
            high = mid;
        }
    }
    low
}

/// Whether one of the ranges covers an offset.
pub fn range_contains(ranges: &Vec<(u64, u64)>, offset: u64) -> (r: bool)
    requires
        ranges_ordered(ranges@),
    ensures
        r == covered(ranges@, offset),
{
    assert(starts_ordered(ranges@)) by {
        assert forall|i: int, j: int| 0 <= i <= j < ranges@.len() implies (#[trigger] ranges@[i]).0
            <= (#[trigger] ranges@[j]).0 by {
            if i < j {
                assert(ranges@[i].0 <= ranges@[i].1);
            }
        }
    }
    let idx: usize = starts_at_or_before(ranges, offset);
    if idx == 0 {
        return false;
    }
    let hit = offset < ranges[idx - 1].1;
    if hit {
        assert(ranges@[idx - 1].0 <= offset);
    } else {
        assert forall|i: int|
            0 <= i < ranges@.len() && (#[trigger] ranges@[i]).0 <= offset implies offset
            >= ranges@[i].1 by {
            if i < idx - 1 {
                assert(ranges@[i].1 <= ranges@[idx - 1].0);
            }
        }
    }
    hit
}

/// The field that covers an offset: the last that starts at or before it, if
/// it reaches that far.
pub open spec fn field_at(fields: Seq<(u64, u64)>, offset: u64) -> Option<nat>
    decreases fields.len(),
{
    if fields.len() == 0 {
        None
    } else if fields.last().0 <= offset {
        if offset < u64::MAX && offset < fields.last().0 + fields.last().1 {
            Some((fields.len() - 1) as nat)
        } else {
            None
        }
    } else {
        field_at(fields.drop_last(), offset)
    }
}

proof fn lemma_field_at(fields: Seq<(u64, u64)>, n: int, offset: u64)
    requires
        0 <= n <= fields.len(),
        forall|i: int| n <= i < fields.len() ==> (#[trigger] fields[i]).0 > offset,
    ensures
        field_at(fields, offset) == field_at(fields.take(n), offset),
    decreases fields.len() - n,
{
    if n == fields.len() {
        assert(fields.take(n) =~= fields);
    } else {
        lemma_field_at(fields, n + 1, offset);
        assert(fields.take(n + 1).last() == fields[n]);
        assert(fields.take(n + 1).drop_last() =~= fields.take(n));
    }
}

/// Index of the field that covers an offset, given each field's first byte
/// and length in order.
pub fn find_field(fields: &Vec<(u64, u64)>, offset: u64) -> (r: Option<usize>)
    requires
        starts_ordered(fields@),
    ensures
        match r {
            Some(i) => field_at(fields@, offset) == Some(i as nat),
            None => field_at(fields@, offset) is None,
        },
{
    let idx: usize = starts_at_or_before(fields, offset);
    proof {
        lemma_field_at(fields@, idx as int, offset);
    }
    if idx == 0 {
        return None;
    }
    assert(fields@.take(idx as int).last() == fields@[idx - 1]);
    assert(fields@.take(idx as int).len() == idx);
    assert(fields@[idx - 1].0 <= offset);
    let start: u64 = fields[idx - 1].0;
    let len: u64 = fields[idx - 1].1;
    let end: u64 = if len > u64::MAX - start {
        u64::MAX
    } else {
        start + len
    };
    if offset >= end {
        None
    } else {
        Some(idx - 1)
    }
}

/// How a byte is tinted over what its value gives it. A field is told by its
/// index.
#[derive(Clone, Copy, Debug, PartialEq, Eq, Structural)]
pub enum ByteTint {
    Plain,
    ModifiedBackground,
    ModifiedText,
    FieldText(usize),
    FieldBackground(usize),
}

/// How a byte is tinted: an edited byte wins over the field that it stands
/// in, and whichever of text and background the highlight leaves free is
/// used for edited bytes.
pub open spec fn tint_of(
    modified: Seq<(u64, u64)>,
    fields: Option<Seq<(u64, u64)>>,
    mode: ByteHighlightMode,
    offset: u64,
) -> ByteTint {
    if covered(modified, offset) {
        match mode {
            ByteHighlightMode::Text => ByteTint::ModifiedBackground,
            ByteHighlightMode::Background => ByteTint::ModifiedText,
        }
    } else {
        match fields {
            Some(list) => match field_at(list, offset) {
                Some(i) => match mode {
                    ByteHighlightMode::Text => ByteTint::FieldText(i as usize),
                    ByteHighlightMode::Background => ByteTint::FieldBackground(i as usize),
                },
                None => ByteTint::Plain,
            },
            None => ByteTint::Plain,
        }
    }
}

/// Tints a byte.
pub fn byte_tint(
    modified: &Vec<(u64, u64)>,
    fields: Option<&Vec<(u64, u64)>>,
    mode: ByteHighlightMode,
    offset: u64,
) -> (r: ByteTint)
    requires
        ranges_ordered(modified@),
        fields matches Some(list) ==> starts_ordered(list@),
    ensures
        r == tint_of(
            modified@,
            match fields {
                Some(list) => Some(list@),
                None => None,
            },
            mode,
            offset,
        ),
{
    if range_contains(modified, offset) {
        return match mode {
            ByteHighlightMode::Text => ByteTint::ModifiedBackground,
            ByteHighlightMode::Background => ByteTint::ModifiedText,
        };
    }
    match fields {
        Some(list) => match find_field(list, offset) {
            Some(i) => match mode {
                ByteHighlightMode::Text => ByteTint::FieldText(i),
                ByteHighlightMode::Background => ByteTint::FieldBackground(i),
            },
            None => ByteTint::Plain,
        },
        None => ByteTint::Plain,
    }
}

/// Colours for byte values.
#[derive(Clone, Copy, Debug, PartialEq, Eq, Structural)]
pub enum PaletteChoice {
    /// By the class of a byte, fit to a dark or light theme.
    Class { dark: bool, mode: ByteHighlightMode },
    /// By a gradient over byte values, fit to a dark or light theme.
    Value { dark: bool, mode: ByteHighlightMode },
    /// The table that the template brought.
    Template,
}

/// The colours that the preferences ask for, where bytes are highlighted at
/// all.
pub open spec fn palette_for(
    dark: bool,
    scheme: ByteHighlightScheme,
    highlight: Option<ByteHighlightMode>,
) -> Option<PaletteChoice> {
    match highlight {
        None => None,
        Some(mode) => Some(
            match scheme {
                ByteHighlightScheme::Class => PaletteChoice::Class { dark, mode },
                ByteHighlightScheme::Value => PaletteChoice::Value { dark, mode },
            },
        ),
    }
}

/// Chooses the colours for byte values.
pub fn build_palette(
    dark: bool,
    scheme: ByteHighlightScheme,
    highlight: Option<ByteHighlightMode>,
) -> (r: Option<PaletteChoice>)
    ensures
        r == palette_for(dark, scheme, highlight),
{
    match highlight {
        None => None,
        Some(mode) => Some(
            match scheme {
                ByteHighlightScheme::Class => PaletteChoice::Class { dark, mode },
                ByteHighlightScheme::Value => PaletteChoice::Value { dark, mode },
            },
        ),
    }
}

/// What a template adds to the hex view.
pub struct TemplateOverlay {
    /// It brings a colour table of its own.
    pub own_palette: bool,
    /// Its fields are tinted.
    pub show_colors: bool,
    /// First byte and length of each leaf field, in order.
    pub leaves: Vec<(u64, u64)>,
    /// The node under the pointer in the template panel.
    pub hovered: Option<Span>,
}

/// How the hex view of a file is drawn.
pub struct HexBodyPlan {
    pub columns: u16,
    pub highlight: Option<ByteHighlightMode>,
    pub palette: Option<PaletteChoice>,
    /// Whether the copy menu is enabled.
    pub can_copy: bool,
    /// Whether the copy menu offers numbers.
    pub offers_values: bool,
    /// First byte and end of the stretch to point out.
    pub hover_span: Option<(u64, u64)>,
    pub tint_fields: bool,
    /// Whether bytes have to be tinted one by one.
    pub needs_tints: bool,
    pub address_separator: Option<char>,
    pub minimap: bool,
    pub minimap_colored: bool,
}

/// Whether a length is that of a machine integer.
pub open spec fn scalar_width(len: u64) -> bool {
    len == 1 || len == 2 || len == 4 || len == 8
}

/// Whether something is selected.
pub open spec fn has_selection(sel: Option<Selection>) -> bool {
    sel matches Some(s) && s.spec_len() > 0
}

/// Whether what is selected is as wide as a machine integer.
pub open spec fn selects_scalar(sel: Option<Selection>) -> bool {
    sel matches Some(s) && scalar_width(s.spec_len())
}

/// Whether something is selected.
pub fn selection_nonempty(sel: Option<Selection>) -> (r: bool)
    ensures
        r == has_selection(sel),
{
    match sel {
        Some(s) => s.len() > 0,
        None => false,
    }
}

/// Whether what is selected is as wide as a machine integer.
pub fn selection_is_scalar(sel: Option<Selection>) -> (r: bool)
    ensures
        r == selects_scalar(sel),
{
    match sel {
        Some(s) => {
            let len: u64 = s.len();
            len == 1 || len == 2 || len == 4 || len == 8
        },
        None => false,
    }
}

/// Where a span ends, or the largest offset where that does not fit.
pub open spec fn hover_end(span: Span) -> u64 {
    if span.offset + span.length > u64::MAX {
        u64::MAX
    } else {
        (span.offset + span.length) as u64
    }
}

/// Whether a hex view is planned as preferences, selection and template ask.
pub open spec fn body_planned(
    settings: AppSettings,
    dark: bool,
    columns_override: Option<u16>,
    selection: Option<Selection>,
    template: Option<&TemplateOverlay>,
    modified: Seq<(u64, u64)>,
    r: HexBodyPlan,
) -> bool {
    &&& r.columns == (match columns_override {
        Some(c) => c,
        None => settings.hex_columns,
    })
    &&& (template matches Some(t) && t.own_palette) ==> {
        &&& r.highlight == Some(settings.byte_highlight_mode)
        &&& r.palette == Some(PaletteChoice::Template)
    }
    &&& !(template matches Some(t) && t.own_palette) ==> {
        &&& r.highlight == (if settings.byte_value_highlight {
            Some(settings.byte_highlight_mode)
        } else {
            None
        })
        &&& r.palette == palette_for(dark, settings.byte_highlight_scheme, r.highlight)
    }
    &&& r.can_copy == has_selection(selection)
    &&& r.offers_values == selects_scalar(selection)
    &&& r.hover_span == (match template {
        Some(t) => match t.hovered {
            Some(span) => Some((span.offset, hover_end(span))),
            None => None,
        },
        None => None,
    })
    &&& r.tint_fields == (template matches Some(t) && t.show_colors && t.leaves@.len() > 0)
    &&& r.needs_tints == (r.tint_fields || modified.len() > 0)
    &&& r.address_separator == (if settings.address_separator_enabled {
        Some(settings.address_separator_char)
    } else {
        None
    })
    &&& r.minimap == settings.show_minimap
    &&& r.minimap_colored == settings.minimap_colored
}

/// Plans the hex view of a file. A template's own colour table forces the
/// highlight on; a file's own number of columns wins over the preference.
pub fn hex_body_plan(
    settings: &AppSettings,
    dark: bool,
    columns_override: Option<u16>,
    selection: Option<Selection>,
    template: Option<&TemplateOverlay>,
    modified: &Vec<(u64, u64)>,
) -> (r: HexBodyPlan)
    ensures
        body_planned(*settings, dark, columns_override, selection, template, modified@, r),
{
    let own_palette = match template {
        Some(t) => t.own_palette,
        None => false,
    };
    let (highlight, palette) = if own_palette {
        (Some(settings.byte_highlight_mode), Some(PaletteChoice::Template))
    } else {
        let highlight = if settings.byte_value_highlight {
            Some(settings.byte_highlight_mode)
        } else {
            None
        };
        (highlight, build_palette(dark, settings.byte_highlight_scheme, highlight))
    };
    let hover_span = match template {
        Some(t) => match t.hovered {
            Some(span) => {
                let end: u64 = if span.length > u64::MAX - span.offset {
                    u64::MAX
                } else {
                    span.offset + span.length
                };
                Some((span.offset, end))
            },
            None => None,
        },
        None => None,
    };
    let tint_fields = match template {
        Some(t) => t.show_colors && t.leaves.len() > 0,
        None => false,
    };
    HexBodyPlan {
        columns: match columns_override {
            Some(c) => c,
            None => settings.hex_columns,
        },
        highlight,
        palette,
        can_copy: selection_nonempty(selection),
        offers_values: selection_is_scalar(selection),
        hover_span,
        tint_fields,
        needs_tints: tint_fields || modified.len() > 0,
        address_separator: if settings.address_separator_enabled {
            Some(settings.address_separator_char)
        } else {
            None
        },
        minimap: settings.show_minimap,
        minimap_colored: settings.minimap_colored,
    }
}

/// An offset in hexadecimal is written behind `0x`, one in decimal without a mark, and
/// its digits read back as the offset.
pub proof fn law_offset_text_reads_back(value: u64)
    ensures
        offset_text(value, OffsetBase::Hex).len() > 2,
        offset_text(value, OffsetBase::Hex).take(2) == "0x"@,
        digits_value(offset_text(value, OffsetBase::Hex).skip(2), 16) == value,
        digits_value(offset_text(value, OffsetBase::Decimal), 10) == value,
{
    reveal_strlit("0x");
    law_digits_read_back(value as nat, 16, true);
    law_digits_read_back(value as nat, 10, true);
    assert(offset_text(value, OffsetBase::Hex).skip(2) =~= hex(value as nat));
    assert(offset_text(value, OffsetBase::Hex).take(2) =~= "0x"@);
}

/// The status bar tells hovered offset, caret or selection, and length in the base of
/// the preferences; what is copied from it is what it shows behind the field's name,
/// and the tooltip has the same in the other base.
pub proof fn law_status_bar_tells_offsets(
    focus: TabFocus,
    hovered: Option<u64>,
    selection: Option<Selection>,
    source_len: u64,
    read_only: Option<&'static str>,
    mode: EditMode,
    base: OffsetBase,
    other: OffsetBase,
    r: StatusBar,
)
    requires
        bar_shows(focus, hovered, selection, source_len, read_only, mode, base, r),
        base != other,
    ensures
        r.length@.display == "Length: "@ + offset_text(source_len, base),
        r.length@.copy == Some(offset_text(source_len, base)),
        r.length@.tooltip == Some(offset_text(source_len, other)),
        hovered matches Some(at) ==> r.hover@.display == "Hover: "@ + offset_text(at, base)
            && r.hover@.copy == Some(offset_text(at, base)) && r.hover@.tooltip == Some(
            offset_text(at, other),
        ),
        hovered is None ==> r.hover@.display == "Hover: --"@ && r.hover@.copy is None
            && r.hover@.tooltip is None,
        selection is None ==> r.selection@.display == "Sel: --"@ && r.selection@.copy is None
            && r.selection@.tooltip is None,
        selection matches Some(s) ==> {
            &&& s.anchor == s.cursor ==> r.selection@.display == "Caret: "@ + offset_text(
                s.cursor,
                base,
            ) && r.selection@.copy == Some(offset_text(s.cursor, base)) && r.selection@.tooltip
                == Some(offset_text(s.cursor, other))
            &&& s.anchor < s.cursor < u64::MAX ==> r.selection@.copy == Some(
                offset_text(s.anchor, base) + "-"@ + offset_text(s.cursor, base) + " ("@
                    + offset_text((s.cursor - s.anchor + 1) as u64, base) + " bytes)"@,
            ) && r.selection@.tooltip == Some(
                offset_text(s.anchor, other) + "-"@ + offset_text(s.cursor, other),
            )
            &&& s.cursor < s.anchor < u64::MAX ==> r.selection@.copy == Some(
                offset_text(s.cursor, base) + "-"@ + offset_text(s.anchor, base) + " ("@
                    + offset_text((s.anchor - s.cursor + 1) as u64, base) + " bytes)"@,
            ) && r.selection@.tooltip == Some(
                offset_text(s.cursor, other) + "-"@ + offset_text(s.anchor, other),
            )
            &&& s.anchor != s.cursor ==> (r.selection@.copy matches Some(c)
                && r.selection@.display == "Sel: "@ + c)
        },
{
}

/// The lock is open exactly where the file can be edited. A click on it asks for the
/// other mode, unless there is a reason why the file must stay read-only: then it does
/// nothing and tells the reason.
pub proof fn law_lock_shows_edit_mode(
    focus: TabFocus,
    hovered: Option<u64>,
    selection: Option<Selection>,
    source_len: u64,
    read_only: Option<&'static str>,
    mode: EditMode,
    base: OffsetBase,
    r: StatusBar,
)
    requires
        bar_shows(focus, hovered, selection, source_len, read_only, mode, base, r),
    ensures
        r.lock_icon is LockOpen <==> read_only is None && mode is Mutable,
        r.lock_icon is Lock <==> !(read_only is None && mode is Mutable),
        read_only is Some ==> r.lock_click is None,
        read_only is None && mode is Mutable ==> r.lock_click == Some(EditMode::Readonly),
        read_only is None && mode is Readonly ==> r.lock_click == Some(EditMode::Mutable),
        read_only matches Some(why) ==> r.lock_tooltip@ == LabelView::With(
            "status-lock-readonly-locked-tooltip"@,
            "reason"@,
            Box::new(LabelView::Key(why@)),
        ),
        read_only is None && mode is Readonly ==> r.lock_tooltip@ == LabelView::Key(
            "status-lock-readonly-tooltip"@,
        ),
        read_only is None && mode is Mutable ==> r.lock_tooltip@ == LabelView::Key(
            "status-lock-mutable-tooltip"@,
        ),
        focus is Outer ==> r.focus_label@ == "Tabs: Outer"@ && r.focus_icon is SquaresFour,
        !(focus is Outer) ==> r.focus_label@ == "Tabs: VFS"@ && r.focus_icon is TreeStructure,
{
}

/// Where fields are in order, the field at an offset starts at or before it and
/// reaches behind it, and no later field starts at or before it. There is none only
/// where no field starts at or before the offset, or the last that does ends there.
pub proof fn law_field_covers_offset(fields: Seq<(u64, u64)>, offset: u64)
    requires
        starts_ordered(fields),
        offset < u64::MAX,
    ensures
        match field_at(fields, offset) {
            Some(i) => i < fields.len() && fields[i as int].0 <= offset && offset
                < fields[i as int].0 + fields[i as int].1 && forall|j: int|
                i < j < fields.len() ==> (#[trigger] fields[j]).0 > offset,
            None => forall|i: int|
                0 <= i < fields.len() && (#[trigger] fields[i]).0 <= offset && (i + 1
                    == fields.len() || fields[i + 1].0 > offset) ==> fields[i].0 + fields[i].1
                    <= offset,
        },
    decreases fields.len(),
{
    if fields.len() > 0 {
        let rest = fields.drop_last();
        let n = fields.len() - 1;
        assert(fields.last() == fields[n]);
        law_field_covers_offset(rest, offset);
        if fields.last().0 > offset {
            match field_at(rest, offset) {
                Some(i) => {
                    assert forall|j: int| i < j < fields.len() implies (#[trigger] fields[j]).0
                        > offset by {
                        if j < n {
                            assert(fields[j] == rest[j]);
                        }
                    }
                },
                None => {
                    assert forall|i: int|
                        0 <= i < fields.len() && (#[trigger] fields[i]).0 <= offset && (i + 1
                            == fields.len() || fields[i + 1].0 > offset) implies fields[i].0
                        + fields[i].1 <= offset by {
                        assert(i < n);
                        assert(rest[i] == fields[i]);
                        if i + 1 < n {
                            assert(rest[i + 1] == fields[i + 1]);
                        }
                    }
                },
            }
        } else if field_at(fields, offset) is None {
            assert forall|i: int|
                0 <= i < fields.len() && (#[trigger] fields[i]).0 <= offset && (i + 1
                    == fields.len() || fields[i + 1].0 > offset) implies fields[i].0 + fields[i].1
                <= offset by {
                if i < n {
                    assert(fields[i + 1].0 <= fields[n].0);
                }
            }
        }
    }
}

/// An edited byte is told apart by the background where text carries the highlight
/// and by the text where the background does. Any other byte is tinted for its field
/// in the way of the highlight, and is plain where it has none.
pub proof fn law_edited_bytes_are_told_apart(
    modified: Seq<(u64, u64)>,
    fields: Option<Seq<(u64, u64)>>,
    mode: ByteHighlightMode,
    offset: u64,
    i: int,
)
    ensures
        0 <= i < modified.len() && modified[i].0 <= offset < modified[i].1 ==> (if mode is Text {
            tint_of(modified, fields, mode, offset) is ModifiedBackground
        } else {
            tint_of(modified, fields, mode, offset) is ModifiedText
        }),
        (forall|k: int|
            0 <= k < modified.len() ==> !((#[trigger] modified[k]).0 <= offset < modified[k].1))
            ==> {
            let tint = tint_of(modified, fields, mode, offset);
            &&& !(tint is ModifiedBackground) && !(tint is ModifiedText)
            &&& (fields is None ==> tint is Plain)
            &&& (fields matches Some(list) ==> match field_at(list, offset) {
                Some(f) => f <= usize::MAX ==> (if mode is Text {
                    tint matches ByteTint::FieldText(n) && n == f
                } else {
                    tint matches ByteTint::FieldBackground(n) && n == f
                }),
                None => tint is Plain,
            })
        },
{
}

/// A file's own number of columns wins over the preference; bytes are coloured as the
/// preferences say unless the template brings its own colours; the copy menu needs a
/// selection and offers numbers for one, two, four or eight bytes.
pub proof fn law_hex_view_follows_preferences(
    settings: AppSettings,
    dark: bool,
    columns_override: Option<u16>,
    selection: Option<Selection>,
    template: Option<&TemplateOverlay>,
    modified: Seq<(u64, u64)>,
    r: HexBodyPlan,
)
    requires
        body_planned(settings, dark, columns_override, selection, template, modified, r),
    ensures
        columns_override matches Some(c) ==> r.columns == c,
        columns_override is None ==> r.columns == settings.hex_columns,
        template is None && !settings.byte_value_highlight ==> r.highlight is None && r.palette
            is None,
        template is None && settings.byte_value_highlight ==> {
            &&& r.highlight == Some(settings.byte_highlight_mode)
            &&& settings.byte_highlight_scheme is Class ==> r.palette == Some(
                PaletteChoice::Class { dark, mode: settings.byte_highlight_mode },
            )
            &&& settings.byte_highlight_scheme is Value ==> r.palette == Some(
                PaletteChoice::Value { dark, mode: settings.byte_highlight_mode },
            )
        },
        (template matches Some(t) && t.own_palette) ==> r.highlight == Some(
            settings.byte_highlight_mode,
        ) && r.palette == Some(PaletteChoice::Template),
        (template matches Some(t) && !t.own_palette) ==> (r.palette is Some
            <==> settings.byte_value_highlight) && !(r.palette == Some(PaletteChoice::Template)),
        selection is None ==> !r.can_copy && !r.offers_values,
        selection matches Some(s) ==> {
            let count = if s.anchor < s.cursor {
                s.cursor - s.anchor + 1
            } else {
                s.anchor - s.cursor + 1
            };
            s.anchor < u64::MAX && s.cursor < u64::MAX ==> r.can_copy && (r.offers_values <==> count
                == 1 || count == 2 || count == 4 || count == 8)
        },
        (template matches Some(t) && t.hovered matches Some(span) && span.offset + span.length
            <= u64::MAX) ==> (r.hover_span matches Some((start, end)) && start
            == template->0.hovered->0.offset && end - start == template->0.hovered->0.length),
        template is None ==> r.hover_span is None && !r.tint_fields,
        (template matches Some(t) && t.hovered is None) ==> r.hover_span is None,
        template matches Some(t) ==> (r.tint_fields <==> t.show_colors && t.leaves@.len() > 0),
        modified.len() > 0 ==> r.needs_tints,
        modified.len() == 0 ==> r.needs_tints == r.tint_fields,
        settings.address_separator_enabled ==> r.address_separator == Some(
            settings.address_separator_char,
        ),
        !settings.address_separator_enabled ==> r.address_separator is None,
        r.minimap == settings.show_minimap && r.minimap_colored == settings.minimap_colored,
{
}

/// The text of a range tells its first byte, its last byte and how many there are.
pub proof fn law_range_text_tells_both_ends(sel: Selection, base: OffsetBase)
    requires
        sel.anchor < u64::MAX,
        sel.cursor < u64::MAX,
    ensures
        sel.anchor <= sel.cursor ==> range_text(sel, base) == offset_text(sel.anchor, base) + "-"@
            + offset_text(sel.cursor, base) + " ("@ + offset_text(
            (sel.cursor - sel.anchor + 1) as u64,
            base,
        ) + " bytes)"@,
        sel.cursor <= sel.anchor ==> range_text(sel, base) == offset_text(sel.cursor, base) + "-"@
            + offset_text(sel.anchor, base) + " ("@ + offset_text(
            (sel.anchor - sel.cursor + 1) as u64,
            base,
        ) + " bytes)"@,
{
}

/// Bytes are coloured only where that is asked for, by the scheme and in the manner
/// that were chosen, and for the theme that is on.
pub proof fn law_colours_follow_preferences(
    dark: bool,
    scheme: ByteHighlightScheme,
    highlight: Option<ByteHighlightMode>,
)
    ensures
        palette_for(dark, scheme, highlight) is Some <==> highlight is Some,
        palette_for(dark, scheme, highlight) matches Some(PaletteChoice::Class { dark: d, mode })
            ==> scheme is Class && d == dark && highlight == Some(mode),
        palette_for(dark, scheme, highlight) matches Some(PaletteChoice::Value { dark: d, mode })
            ==> scheme is Value && d == dark && highlight == Some(mode),
{
}

} // verus!
