//! Template runs: their start and end, which templates are offered for a file,
//! and which are run again.

use vstd::prelude::*;
use vstd::string::*;
use crate::console::{
    refusal_message, run_context, run_lines, running_message, ConsoleSeverity, RunOutcome,
    RunRefusal,
};
#[allow(unused_imports)]
use crate::console::{refusal_text, run_told, LogLine};
use crate::dock_ops::SplitRequest;
use crate::panels::log_lines;
#[allow(unused_imports)]
use crate::panels::{lines_logged, message_logged};
use crate::runtimes::{template_runtime_for, Runtime};
#[allow(unused_imports)]
use crate::runtimes::{first_taker, some_taker};
use crate::session::{find_file, find_file_by_source, HxyApp, LoadStatus};
#[allow(unused_imports)]
use crate::session::{file_at, file_with_source, OpenFile};
use crate::source::{find_tab_state, TabSource};
#[allow(unused_imports)]
use crate::source::{tab_index, SourceView};
use crate::tabs::FileId;
#[allow(unused_imports)]
use crate::text::dec;
use crate::text::{numbered, text_eq};

verus! {

/// What a file is called in the console.
pub open spec fn data_name(app: HxyApp, id: FileId) -> Seq<char> {
    match file_at(app.files@, id) {
        Some(i) => app.files@[i].display_name@,
        None => "file-"@ + dec(id.0 as nat),
    }
}

/// What a template run is called in the console.
pub open spec fn run_title(app: HxyApp, id: FileId, template_name: Seq<char>) -> Seq<char> {
    data_name(app, id) + " / "@ + template_name
}

fn title_of_run(app: &HxyApp, id: FileId, template_name: &str) -> (r: String)
    ensures
        r@ == run_title(*app, id, template_name@),
{
    let name = match find_file(&app.files, id) {
        Some(i) => app.files[i].display_name.clone(),
        None => numbered("file-", id.0),
    };
    run_context(name.as_str(), template_name)
}

/// A template that is to be run on a file.
pub struct RunRequest {
    pub file_id: FileId,
    /// The template's file name.
    pub template_name: String,
    pub path: String,
    /// The extension of the template's file name.
    pub extension: String,
    /// Where languages can be installed, where that is known.
    pub plugin_dir: Option<String>,
    /// The template's text, or why it could not be read.
    pub text: Result<String, String>,
}

/// How a template run begins.
pub enum RunStart {
    /// It cannot start; the template panel shows the message.
    Refused(String),
    /// The file is not open any more.
    Gone,
    /// The language at this place takes the text.
    Started { runtime: usize, text: String },
}

/// Why a run cannot start, if so: no language takes the template, or else the
/// template cannot be read.
pub open spec fn refusal_of(runtimes: Seq<Runtime>, req: RunRequest) -> Option<RunRefusal> {
    if !some_taker(runtimes, req.extension@) {
        Some(RunRefusal::NoRuntime { extension: req.extension, dir: req.plugin_dir })
    } else {
        match req.text {
            Err(reason) => Some(RunRefusal::Unreadable { path: req.path, reason }),
            Ok(_) => None,
        }
    }
}

/// Whether a run began: a refusal and a start are logged.
pub open spec fn run_begun(
    before: HxyApp,
    runtimes: Seq<Runtime>,
    req: RunRequest,
    r: (RunStart, Option<SplitRequest>),
    after: HxyApp,
) -> bool {
    let title = run_title(before, req.file_id, req.template_name@);
    match refusal_of(runtimes, req) {
        Some(refusal) => (r.0 matches RunStart::Refused(m) && m@ == refusal_text(refusal))
            && message_logged(
            before,
            ConsoleSeverity::Error,
            title,
            refusal_text(refusal),
            r.1,
            after,
        ),
        None => if file_at(before.files@, req.file_id) is None {
            r.0 is Gone && r.1 is None && after == before
        } else {
            (r.0 matches RunStart::Started { runtime, text } && first_taker(
                runtimes,
                req.extension@,
                runtime as int,
            ) && req.text == Ok::<String, String>(text)) && message_logged(
                before,
                ConsoleSeverity::Info,
                title,
                "running template `"@ + req.template_name@ + "`..."@,
                r.1,
                after,
            )
        },
    }
}

fn refuse_run(app: &mut HxyApp, title: String, refusal: RunRefusal) -> (r: (
    RunStart,
    Option<SplitRequest>,
))
    requires
        old(app).wf(),
    ensures
        final(app).wf(),
        r.0 matches RunStart::Refused(m) && m@ == refusal_text(refusal),
        message_logged(
            *old(app),
            ConsoleSeverity::Error,
            title@,
            refusal_text(refusal),
            r.1,
            *final(app),
        ),
{
    let message = refusal_message(&refusal);
    let split = app.console_log(ConsoleSeverity::Error, title, message.clone());
    (RunStart::Refused(message), split)
}

/// Begins a template run.
pub fn run_template_from_path(app: &mut HxyApp, runtimes: &Vec<Runtime>, req: RunRequest) -> (r: (
    RunStart,
    Option<SplitRequest>,
))
    requires
        old(app).wf(),
    ensures
        final(app).wf(),
        run_begun(*old(app), runtimes@, req, r, *final(app)),
{
    let title = title_of_run(app, req.file_id, req.template_name.as_str());
    let runtime: usize = match template_runtime_for(runtimes, req.extension.as_str()) {
        Some(i) => i,
        None => {
            return refuse_run(
                app,
                title,
                RunRefusal::NoRuntime { extension: req.extension, dir: req.plugin_dir },
            );
        },
    };
    let text = match req.text {
        Ok(text) => text,
        Err(reason) => {
            return refuse_run(app, title, RunRefusal::Unreadable { path: req.path, reason });
        },
    };
    if find_file(&app.files, req.file_id).is_none() {
        return (RunStart::Gone, None);
    }
    let message = running_message(req.template_name.as_str());
    let split = app.console_log(ConsoleSeverity::Info, title, message);
    (RunStart::Started { runtime, text }, split)
}

/// Whether the end of a run was logged.
pub open spec fn run_ended(
    before: HxyApp,
    id: FileId,
    template_name: Seq<char>,
    outcome: RunOutcome,
    split: Option<SplitRequest>,
    after: HxyApp,
) -> bool {
    exists|lines: Seq<LogLine>| #[trigger]
        run_told(outcome, lines) && lines_logged(
            before,
            run_title(before, id, template_name),
            lines,
            split,
            after,
        )
}

/// Ends a template run: logs its messages, or the error that stopped it.
pub fn finish_template_run(
    app: &mut HxyApp,
    id: FileId,
    template_name: &str,
    outcome: &RunOutcome,
) -> (r: Option<SplitRequest>)
    requires
        old(app).wf(),
    ensures
        final(app).wf(),
        run_ended(*old(app), id, template_name@, *outcome, r, *final(app)),
{
    let title = title_of_run(app, id, template_name);
    let lines = run_lines(outcome);
    let r = log_lines(app, &title, &lines);
    assert(run_told(*outcome, lines@));
    r
}

/// A template with what it is for.
pub struct TemplateEntry {
    pub path: String,
    pub name: String,
    pub description: Option<String>,
    /// Extensions of the files that it is for, in lower case.
    pub extensions: Vec<String>,
    /// What such files begin with, each on its own.
    pub magic: Vec<Vec<u8>>,
}

/// Whether bytes begin with others.
pub open spec fn begins_with(head: Seq<u8>, magic: Seq<u8>) -> bool {
    magic.len() <= head.len() && head.take(magic.len() as int) == magic
}

/// Whether a template is for files with an extension.
pub open spec fn fits_extension(t: TemplateEntry, extension: Seq<char>) -> bool {
    exists|i: int| 0 <= i < t.extensions@.len() && (#[trigger] t.extensions@[i])@ == extension
}

/// Whether a template is for files that begin with some bytes.
pub open spec fn fits_magic(t: TemplateEntry, head: Seq<u8>) -> bool {
    exists|i: int| 0 <= i < t.magic@.len() && begins_with(head, (#[trigger] t.magic@[i])@)
}

/// Whether a template is for a file.
pub open spec fn fits(t: TemplateEntry, extension: Option<String>, head: Seq<u8>) -> bool {
    (extension matches Some(e) && fits_extension(t, e@)) || fits_magic(t, head)
}

/// How many templates at the front of a list are for a file.
pub open spec fn leading_fits(
    list: Seq<TemplateEntry>,
    extension: Option<String>,
    head: Seq<u8>,
    from: int,
) -> int
    decreases list.len() - from,
{
    if 0 <= from < list.len() && fits(list[from], extension, head) {
        leading_fits(list, extension, head, from + 1)
    } else {
        from
    }
}

/// How many templates are offered at most.
pub const MAX_SUGGESTIONS: usize = 3;

/// How many templates are offered for a file.
pub open spec fn offered(list: Seq<TemplateEntry>, extension: Option<String>, head: Seq<u8>)
    -> int {
    let n = leading_fits(list, extension, head, 0);
    if n <= MAX_SUGGESTIONS {
        n
    } else {
        MAX_SUGGESTIONS as int
    }
}

fn does_begin_with(head: &Vec<u8>, magic: &Vec<u8>) -> (r: bool)
    ensures
        r == begins_with(head@, magic@),
{
    if magic.len() > head.len() {
        return false;
    }
    let mut i: usize = 0;
    while i < magic.len()
        invariant
            i <= magic@.len() <= head@.len(),
            forall|j: int| 0 <= j < i ==> head@[j] == magic@[j],
        decreases magic@.len() - i,
    {
        if head[i] != magic[i] {
            assert(head@.take(magic@.len() as int)[i as int] != magic@[i as int]);
            return false;
        }
        i = i + 1;
    }
    assert(head@.take(magic@.len() as int) =~= magic@);
    true
}

fn does_fit(t: &TemplateEntry, extension: &Option<String>, head: &Vec<u8>) -> (r: bool)
    ensures
        r == fits(*t, *extension, head@),
{
    if let Some(e) = extension {
        let mut i: usize = 0;
        while i < t.extensions.len()
            invariant
                i <= t.extensions@.len(),
                *extension == Some(*e),
                forall|j: int| 0 <= j < i ==> (#[trigger] t.extensions@[j])@ != e@,
            decreases t.extensions@.len() - i,
        {
            if text_eq(t.extensions[i].as_str(), e.as_str()) {
                return true;
            }
            i = i + 1;
        }
    }
    let mut k: usize = 0;
    while k < t.magic.len()
        invariant
            k <= t.magic@.len(),
            forall|j: int| 0 <= j < k ==> !begins_with(head@, (#[trigger] t.magic@[j])@),
        decreases t.magic@.len() - k,
    {
        if does_begin_with(head, &t.magic[k]) {
            return true;
        }
        k = k + 1;
    }
    false
}

/// The templates that are offered for a file: of a list in which those that fit
/// stand first, the ones that do, a few at most.
pub fn suggest_templates_for(
    ranked: Vec<TemplateEntry>,
    extension: &Option<String>,
    head: &Vec<u8>,
) -> (r: Vec<TemplateEntry>)
    ensures
        r@ == ranked@.take(offered(ranked@, *extension, head@)),
{
    let mut n: usize = 0;
    while n < ranked.len() && n < MAX_SUGGESTIONS && does_fit(&ranked[n], extension, head)
        invariant
            n <= ranked@.len(),
            n <= MAX_SUGGESTIONS,
            leading_fits(ranked@, *extension, head@, n as int) == leading_fits(
                ranked@,
                *extension,
                head@,
                0,
            ),
        decreases MAX_SUGGESTIONS - n,
    {
        n = n + 1;
    }
    proof {
        lemma_leading_fits_from(ranked@, *extension, head@, n as int);
    }
    let mut out = ranked;
    out.truncate(n);
    out
}

proof fn lemma_leading_fits_from(
    list: Seq<TemplateEntry>,
    extension: Option<String>,
    head: Seq<u8>,
    from: int,
)
    requires
        0 <= from <= list.len(),
    ensures
        from <= leading_fits(list, extension, head, from) <= list.len(),
    decreases list.len() - from,
{
    if from < list.len() && fits(list[from], extension, head) {
        lemma_leading_fits_from(list, extension, head, from + 1);
    }
}

proof fn lemma_leading_all_fit(
    list: Seq<TemplateEntry>,
    extension: Option<String>,
    head: Seq<u8>,
    from: int,
    i: int,
)
    requires
        0 <= from <= i < leading_fits(list, extension, head, from),
        from <= list.len(),
    ensures
        i < list.len(),
        fits(list[i], extension, head),
    decreases list.len() - from,
{
    lemma_leading_fits_from(list, extension, head, from);
    if from < i {
        lemma_leading_all_fit(list, extension, head, from + 1, i);
    }
}

/// What is offered fits, and there are only a few.
pub proof fn law_offered_fit(
    list: Seq<TemplateEntry>,
    extension: Option<String>,
    head: Seq<u8>,
    i: int,
)
    requires
        0 <= i < offered(list, extension, head),
    ensures
        i < list.len(),
        fits(list[i], extension, head),
        offered(list, extension, head) <= MAX_SUGGESTIONS,
{
    lemma_leading_all_fit(list, extension, head, 0, i);
}

/// A template that ran on a part of a file.
pub struct RanTemplate {
    pub path: String,
    pub start: u64,
    pub end: u64,
    /// Tells one text of the template from another.
    pub fingerprint: u64,
    /// Colours that were picked for nodes.
    pub colors: Vec<(u64, u32)>,
}

/// The templates of a file.
pub struct TemplateSlots {
    pub done: Vec<RanTemplate>,
    /// The one that shows.
    pub active: Option<usize>,
    /// How many runs have not ended yet.
    pub running: usize,
}

/// Whether the templates to run again were taken: all that ran, unless a run has not
/// ended yet.
pub open spec fn reruns_taken(
    before: TemplateSlots,
    taken: Seq<RanTemplate>,
    after: TemplateSlots,
) -> bool {
    if before.running > 0 {
        taken.len() == 0 && after == before
    } else {
        &&& taken == before.done@
        &&& after.done@.len() == 0
        &&& after.active == (if before.done@.len() == 0 {
            before.active
        } else {
            None
        })
        &&& after.running == before.running
    }
}

/// Takes the templates to run again after a file changed: all that ran, unless
/// a run has not ended yet.
pub fn rerun_template_for_file(slots: &mut TemplateSlots) -> (r: Vec<RanTemplate>)
    ensures
        reruns_taken(*old(slots), r@, *final(slots)),
{
    let mut taken: Vec<RanTemplate> = Vec::new();
    if slots.running > 0 || slots.done.len() == 0 {
        assert(slots.done@.len() == 0 ==> taken@ =~= slots.done@);
        return taken;
    }
    std::mem::swap(&mut slots.done, &mut taken);
    slots.active = None;
    taken
}

/// Place of the file whose remembered templates can be run: it is remembered
/// with templates, open, and its bytes are there.
pub open spec fn restorable(app: HxyApp, source: SourceView, has_templates: bool) -> Option<int> {
    if !has_templates || tab_index(app.open_tabs@, source) is None {
        None
    } else {
        match file_with_source(app.files@, source) {
            Some(i) => if app.files@[i].load is Loading {
                None
            } else {
                Some(i)
            },
            None => None,
        }
    }
}

/// Whether the run of the templates that are remembered for a file was prepared.
pub open spec fn templates_restored(
    before: HxyApp,
    source: SourceView,
    has_templates: bool,
    r: Option<FileId>,
    after: HxyApp,
) -> bool {
    match restorable(before, source, has_templates) {
        Some(i) => {
            let t = before.open_tabs@[tab_index(before.open_tabs@, source)->0];
            &&& r == Some(before.files@[i].id)
            &&& crate::active::file_replaced(before, i, after)
            &&& after.files@[i] == (OpenFile {
                visualizer_open: t.visualizer_open,
                ..before.files@[i]
            })
        },
        None => r is None && after == before,
    }
}

/// Prepares the run of the templates that are remembered for a file: whether
/// its visualizer shows is remembered too. Gives the file to run them on.
pub fn restore_persisted_templates_for_source(
    app: &mut HxyApp,
    source: &TabSource,
    has_templates: bool,
) -> (r: Option<FileId>)
    requires
        old(app).wf(),
    ensures
        final(app).wf(),
        templates_restored(*old(app), source@, has_templates, r, *final(app)),
{
    let t: usize = match find_tab_state(&app.open_tabs, source) {
        Some(t) => t,
        None => {
            return None;
        },
    };
    if !has_templates {
        return None;
    }
    let i: usize = match find_file_by_source(&app.files, source) {
        Some(i) => i,
        None => {
            return None;
        },
    };
    if matches!(app.files[i].load, LoadStatus::Loading) {
        return None;
    }
    let id = app.files[i].id;
    app.files[i].visualizer_open = app.open_tabs[t].visualizer_open;
    assert(app.files@ =~= old(app).files@.update(i as int, app.files@[i as int]));
    Some(id)
}

/// A template is offered exactly where it and all before it in the list are for the
/// file, and it is one of the first three: each of them has the file's extension or
/// begins as the file does.
pub proof fn law_fitting_templates_are_offered(
    list: Seq<TemplateEntry>,
    extension: Option<String>,
    head: Seq<u8>,
)
    ensures
        0 <= offered(list, extension, head) <= 3,
        offered(list, extension, head) <= list.len(),
        forall|i: int|
            0 <= i < offered(list, extension, head) ==> template_matches(
                #[trigger] list[i],
                extension,
                head,
            ),
        offered(list, extension, head) < 3 && offered(list, extension, head) < list.len()
            ==> !template_matches(list[offered(list, extension, head)], extension, head),
{
    lemma_leading_fits_from(list, extension, head, 0);
    lemma_leading_stops(list, extension, head, 0);
    assert forall|i: int| 0 <= i < offered(list, extension, head) implies template_matches(
        #[trigger] list[i],
        extension,
        head,
    ) by {
        lemma_leading_all_fit(list, extension, head, 0, i);
        lemma_fits_matches(list[i], extension, head);
    }
    let n = offered(list, extension, head);
    if n < 3 && n < list.len() {
        lemma_fits_matches(list[n], extension, head);
    }
}

/// Whether a template has a file's extension among its own, or one of its byte strings
/// stands at the file's very start.
pub open spec fn template_matches(
    t: TemplateEntry,
    extension: Option<String>,
    head: Seq<u8>,
) -> bool {
    ||| exists|i: int|
        0 <= i < t.extensions@.len() && (extension matches Some(e) && (
        #[trigger] t.extensions@[i])@ == e@)
    ||| exists|i: int|
        0 <= i < t.magic@.len() && (#[trigger] t.magic@[i])@.len() <= head.len() && forall|k: int|
            0 <= k < t.magic@[i]@.len() ==> head[k] == #[trigger] t.magic@[i]@[k]
}

proof fn lemma_fits_matches(t: TemplateEntry, extension: Option<String>, head: Seq<u8>)
    ensures
        fits(t, extension, head) == template_matches(t, extension, head),
{
    assert forall|i: int| 0 <= i < t.magic@.len() implies begins_with(
        head,
        (#[trigger] t.magic@[i])@,
    ) == (t.magic@[i]@.len() <= head.len() && forall|k: int|
        0 <= k < t.magic@[i]@.len() ==> head[k] == #[trigger] t.magic@[i]@[k]) by {
        let m = t.magic@[i]@;
        if m.len() <= head.len() {
            if begins_with(head, m) {
                assert forall|k: int| 0 <= k < m.len() implies head[k] == #[trigger] m[k] by {
                    assert(head.take(m.len() as int)[k] == m[k]);
                }
            } else if forall|k: int| 0 <= k < m.len() ==> head[k] == #[trigger] m[k] {
                assert(head.take(m.len() as int) =~= m);
            }
        }
    }
}

proof fn lemma_leading_stops(
    list: Seq<TemplateEntry>,
    extension: Option<String>,
    head: Seq<u8>,
    from: int,
)
    requires
        0 <= from <= list.len(),
    ensures
        ({
            let n = leading_fits(list, extension, head, from);
            0 <= n < list.len() ==> !fits(list[n], extension, head)
        }),
    decreases list.len() - from,
{
    if from < list.len() && fits(list[from], extension, head) {
        lemma_leading_stops(list, extension, head, from + 1);
    }
}

/// After a file changed, every template that ran on it is run again, in the order in
/// which they stand, and none shows meanwhile. While a run has not ended, nothing
/// changes.
pub proof fn law_changed_file_runs_its_templates_again(
    before: TemplateSlots,
    taken: Seq<RanTemplate>,
    after: TemplateSlots,
)
    requires
        reruns_taken(before, taken, after),
    ensures
        before.running == 0 ==> taken.len() == before.done@.len() && (forall|i: int|
            0 <= i < taken.len() ==> #[trigger] taken[i] == before.done@[i]) && after.done@.len()
            == 0,
        before.running == 0 && before.done@.len() > 0 ==> after.active is None,
        before.running > 0 ==> taken.len() == 0 && after == before,
        after.running == before.running,
{
}

/// Templates that are remembered run again only on a file that is remembered, open and
/// read; its visualizer then shows as it did, and no other file changes.
pub proof fn law_remembered_templates_run_on_open_file(
    before: HxyApp,
    source: SourceView,
    has_templates: bool,
    r: Option<FileId>,
    after: HxyApp,
)
    requires
        before.wf(),
        templates_restored(before, source, has_templates, r, after),
    ensures
        !has_templates ==> r is None && after == before,
        tab_index(before.open_tabs@, source) is None ==> r is None,
        r matches Some(id) ==> exists|i: int|
            0 <= i < before.files@.len() && (#[trigger] before.files@[i]).id == id
                && !(before.files@[i].load is Loading) && after.files@[i].visualizer_open
                == before.open_tabs@[tab_index(before.open_tabs@, source)->0].visualizer_open
                && after.files@.len() == before.files@.len() && forall|k: int|
                0 <= k < before.files@.len() && k != i ==> #[trigger] after.files@[k]
                    == before.files@[k],
        r is None ==> after == before,
{
    if r is Some {
        let i = restorable(before, source, has_templates)->0;
        crate::session::law_file_of_source_is_found(before.files@, source);
        assert(before.files@[i].id == r->0);
    }
}

/// A run is refused where no language takes the template's extension, or where one
/// does and the template cannot be read; nothing else refuses it. On a file that is not
/// open nothing happens then; else the first language that takes the extension gets the
/// template's text.
pub proof fn law_run_starts_with_its_language(
    before: HxyApp,
    runtimes: Seq<Runtime>,
    req: RunRequest,
    r: (RunStart, Option<SplitRequest>),
    after: HxyApp,
)
    requires
        run_begun(before, runtimes, req, r, after),
    ensures
        r.0 is Refused <==> !some_taker(runtimes, req.extension@) || req.text is Err,
        r.0 is Gone ==> after == before && r.1 is None && file_at(before.files@, req.file_id)
            is None,
        r.0 matches RunStart::Started { runtime, text } ==> req.text == Ok::<String, String>(text)
            && first_taker(runtimes, req.extension@, runtime as int),
        some_taker(runtimes, req.extension@) && req.text is Ok && file_at(
            before.files@,
            req.file_id,
        ) is Some ==> r.0 is Started,
        !some_taker(runtimes, req.extension@) ==> (r.0 matches RunStart::Refused(m) && m@
            == "No template runtime is registered for ."@ + req.extension@
            + " files.\nInstall a matching runtime component (.wasm) into:\n"@ + (
        match req.plugin_dir {
            Some(d) => d@,
            None => "$DATA/hxy/template-plugins"@,
        })),
        some_taker(runtimes, req.extension@) ==> (req.text matches Err(reason) ==> (
        r.0 matches RunStart::Refused(m) && m@ == "Failed to read template source "@ + req.path@
            + ": "@ + reason@)),
{
}

/// A run of a template that failed is told in the console as an error with the reason,
/// under the name of the file and that of the template. No file changes.
pub proof fn law_run_reaches_console(
    before: HxyApp,
    template_name: Seq<char>,
    outcome: RunOutcome,
    split: Option<SplitRequest>,
    after: HxyApp,
    i: int,
)
    requires
        before.wf(),
        before.console@.len() < 2048,
        0 <= i < before.files@.len(),
        run_ended(before, before.files@[i].id, template_name, outcome, split, after),
    ensures
        after.files == before.files && after.settings == before.settings,
        outcome matches RunOutcome::ParseFailed(e) ==> {
            let entry = after.console@[before.console@.len() as int];
            &&& after.console@.len() == before.console@.len() + 1
            &&& entry.severity is Error && entry.message@ == "Parse failed: "@ + e@
            &&& entry.context@ == before.files@[i].display_name@ + " / "@ + template_name
        },
        outcome matches RunOutcome::ExecuteFailed(e) ==> {
            let entry = after.console@[before.console@.len() as int];
            &&& after.console@.len() == before.console@.len() + 1
            &&& entry.severity is Error && entry.message@ == "Execute failed: "@ + e@
            &&& entry.context@ == before.files@[i].display_name@ + " / "@ + template_name
        },
{
    let id = before.files@[i].id;
    crate::session::lemma_file_at(before.files@, id, i);
    let lines = choose|lines: Seq<LogLine>| #[trigger]
        run_told(outcome, lines) && lines_logged(
            before,
            run_title(before, id, template_name),
            lines,
            split,
            after,
        );
    if outcome is ParseFailed || outcome is ExecuteFailed {
        crate::panels::law_lines_reach_console(
            before,
            run_title(before, id, template_name),
            lines,
            split,
            after,
            0,
        );
    }
}

} // verus!
