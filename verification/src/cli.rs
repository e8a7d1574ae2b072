//! The command line: files to open.

use vstd::prelude::*;
use vstd::string::*;

verus! {

/// The name of the program.
pub const APP_NAME: &'static str = "hxy";

/// What the help says of the files on the command line.
pub const FILES_HELP: &'static str = "Files to open. Each becomes its own tab. Relative paths are resolved against the current working directory before the process exits, so a forwarded path opens the right file even when the running instance was launched from a different CWD";

/// A command line that names nothing to open: the text to show in place of a
/// window, and whether it tells of a mistake rather than answers a request for
/// help or the version.
pub struct CliStop {
    pub text: String,
    pub mistake: bool,
}

/// What clap makes of a command line, the program's name in front, for a program
/// with the given name, version and description that takes any number of files,
/// which its help calls and describes as given: the files, or the text to show in
/// their place and whether that text belongs on the error output.
pub uninterp spec fn line_read(
    name: Seq<char>,
    version: Seq<char>,
    about: Seq<char>,
    value_name: Seq<char>,
    help: Seq<char>,
    args: Seq<Seq<char>>,
) -> Result<Seq<Seq<char>>, (Seq<char>, bool)>;

/// Whether a result tells what was made of a command line.
pub open spec fn tells_line(
    r: Result<Vec<String>, CliStop>,
    line: Result<Seq<Seq<char>>, (Seq<char>, bool)>,
) -> bool {
    match (line, r) {
        (Ok(files), Ok(found)) => texts(found@) == files,
        (Err((text, mistake)), Err(stop)) => stop.text@ == text && stop.mistake == mistake,
        _ => false,
    }
}

/// Texts as plain text.
pub open spec fn texts(list: Seq<String>) -> Seq<Seq<char>> {
    list.map_values(|s: String| s@)
}

/// `clap::Command::try_get_matches_from`, for a command with the built-in flags
/// for help and version and one positional argument of any number of values, of
/// which `clap::builder::NonEmptyStringValueParser` refuses an empty one. It
/// is a function of its arguments alone, since no value comes from the
/// environment and help is not wrapped to a terminal, and how it reads a line
/// carries a name. The text of an error is what `to_string` gives, and
/// `use_stderr` tells where it belongs.
#[verifier::external_body]
fn match_files(
    name: &'static str,
    version: &'static str,
    about: &'static str,
    value_name: &'static str,
    help: &'static str,
    args: Vec<String>,
) -> (r: Result<Vec<String>, CliStop>)
    ensures
        tells_line(r, line_read(name@, version@, about@, value_name@, help@, texts(args@))),
        r matches Ok(found) ==> forall|i: int|
            0 <= i < found@.len() ==> (#[trigger] found@[i])@.len() > 0,
{
    let files = clap::Arg::new("files")
        .value_name(value_name)
        .help(help)
        .value_parser(clap::builder::NonEmptyStringValueParser::new())
        .action(clap::ArgAction::Append)
        .num_args(1..);
    clap::Command::new(name)
        .version(version)
        .about(about)
        .arg(files)
        .try_get_matches_from(args)
        .map(|m| m.get_many::<String>("files").unwrap_or_default().cloned().collect())
        .map_err(|e| CliStop { text: e.to_string(), mistake: e.use_stderr() })
}

/// What the command line asks for.
pub struct Cli {
    /// Files to open, each in a tab of its own.
    pub files: Vec<String>,
}

impl Cli {
    /// Reads a command line, the program's name in front.
    pub fn parse_args(args: Vec<String>, version: &'static str) -> (r: Result<Cli, CliStop>)
        ensures
            tells_line(
                match r {
                    Ok(cli) => Ok(cli.files),
                    Err(stop) => Err(stop),
                },
                line_read(APP_NAME@, version@, "A hex editor"@, "FILE"@, FILES_HELP@, texts(args@)),
            ),
            r matches Ok(cli) ==> forall|i: int|
                0 <= i < cli.files@.len() ==> (#[trigger] cli.files@[i])@.len() > 0,
    {
        match match_files(APP_NAME, version, "A hex editor", "FILE", FILES_HELP, args) {
            Ok(files) => Ok(Cli { files }),
            Err(e) => Err(e),
        }
    }

    /// The files that were found, by their full paths and in the order in which
    /// they were named. `found` tells the full path of each, or that it does not
    /// exist.
    pub fn resolved_files(&self, found: Vec<Option<String>>) -> (r: Vec<String>)
        requires
            found@.len() == self.files@.len(),
        ensures
            r@ == kept_paths(found@),
    {
        let ghost all = found@;
        let ghost mut done: int = 0;
        let mut rest = found;
        let mut out: Vec<String> = Vec::new();
        assert(rest@ =~= all.skip(0));
        assert(all.take(0) =~= seq![]);
        while rest.len() > 0
            invariant
                0 <= done <= all.len(),
                rest@ == all.skip(done),
                out@ == kept_paths(all.take(done)),
            decreases rest.len(),
        {
            assert(all.take(done + 1).drop_last() =~= all.take(done));
            let path = rest.remove(0);
            assert(path == all[done]);
            if let Some(p) = path {
                out.push(p);
            }
            proof {
                done = done + 1;
            }
            assert(rest@ =~= all.skip(done));
        }
        assert(all.take(done) =~= all);
        out
    }
}

/// The paths that are there, in order.
pub open spec fn kept_paths(found: Seq<Option<String>>) -> Seq<String>
    decreases found.len(),
{
    if found.len() == 0 {
        seq![]
    } else {
        match found.last() {
            Some(p) => kept_paths(found.drop_last()).push(p),
            None => kept_paths(found.drop_last()),
        }
    }
}

/// No file that exists is left out, and nothing else is opened.
pub proof fn law_existing_files_kept(found: Seq<Option<String>>, path: String)
    ensures
        kept_paths(found).contains(path) <==> found.contains(Some(path)),
        kept_paths(found).len() <= found.len(),
    decreases found.len(),
{
    if found.len() > 0 {
        let init = found.drop_last();
        law_existing_files_kept(init, path);
        assert(found.contains(Some(path)) <==> (init.contains(Some(path)) || found.last() == Some(
            path,
        ))) by {
            if init.contains(Some(path)) {
                let i = choose|i: int| 0 <= i < init.len() && init[i] == Some(path);
                assert(found[i] == Some(path));
            }
            if found.last() == Some(path) {
                assert(found[found.len() - 1] == Some(path));
            }
            if found.contains(Some(path)) {
                let i = choose|i: int| 0 <= i < found.len() && found[i] == Some(path);
                if i < init.len() {
                    assert(init[i] == Some(path));
                }
            }
        }
        if let Some(p) = found.last() {
            let kept = kept_paths(init);
            let all = kept.push(p);
            assert(all.contains(path) <==> (kept.contains(path) || p == path)) by {
                if kept.contains(path) {
                    let i = choose|i: int| 0 <= i < kept.len() && kept[i] == path;
                    assert(all[i] == path);
                }
                if p == path {
                    assert(all[kept.len() as int] == path);
                }
                if all.contains(path) {
                    let i = choose|i: int| 0 <= i < all.len() && all[i] == path;
                    if i < kept.len() {
                        assert(kept[i] == path);
                    }
                }
            }
        }
    }
}

/// Files are opened in the order in which they were named; those that do not exist are
/// passed over.
pub proof fn law_files_are_opened_in_order(found: Seq<Option<String>>, next: Option<String>)
    ensures
        kept_paths(seq![]) == Seq::<String>::empty(),
        next matches Some(p) ==> kept_paths(found.push(next)) == kept_paths(found).push(p),
        next is None ==> kept_paths(found.push(next)) == kept_paths(found),
{
    assert(found.push(next).drop_last() =~= found);
}

/// A line that names files is told as those files, each in its place; one that stops is
/// told with its text, and as a mistake where it is one.
pub proof fn law_line_is_told_as_read(
    r: Result<Vec<String>, CliStop>,
    line: Result<Seq<Seq<char>>, (Seq<char>, bool)>,
    i: int,
)
    requires
        tells_line(r, line),
    ensures
        line matches Ok(files) ==> (r matches Ok(found) && found@.len() == files.len() && (0 <= i
            < files.len() ==> found@[i]@ == files[i])),
        line matches Err(pair) ==> (r matches Err(stop) && stop.text@ == pair.0 && stop.mistake
            == pair.1),
{
    match (line, r) {
        (Ok(files), Ok(found)) => {
            assert(texts(found@).len() == found@.len());
            if 0 <= i < files.len() {
                assert(texts(found@)[i] == found@[i]@);
            }
        },
        _ => {},
    }
}

} // verus!
