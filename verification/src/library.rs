//! One library's processing pass: decide which classified files the
//! library's filter accepts, and prepare the command line for each accepted
//! file. The pass is pure decision logic — walking directories, reading
//! files, and spawning the prepared commands happen outside the library and
//! hand plain values in and out.

pub mod mime_type;
pub mod patterns;

use crate::config;
use crate::library::patterns::{regex_is_match, regex_matches, regex_new, regex_valid};
use crate::template::{render_spec, Template};
use vstd::prelude::*;
use vstd::string::{StrSliceExecFns, StringExecFns};

verus! {

/// A file together with the content type the classifier assigned to it.
#[derive(Debug, Clone)]
pub struct ClassifiedFile {
    pub path: String,
    pub mime_type: String,
}

impl View for ClassifiedFile {
    type V = (Seq<char>, Seq<char>);

    /// A classified file is its path and its content type.
    open spec fn view(&self) -> (Seq<char>, Seq<char>) {
        (self.path@, self.mime_type@)
    }
}

impl DeepView for ClassifiedFile {
    type V = (Seq<char>, Seq<char>);

    open spec fn deep_view(&self) -> (Seq<char>, Seq<char>) {
        self@
    }
}

/// The errors of a processing pass.
#[derive(Debug, Clone, Copy, PartialEq, Eq, Structural)]
pub enum Error {
    /// A configuration error was handed down by the caller.
    Config,
    /// A file's MIME type could not be determined.
    Mime,
    /// Rendering the command template failed.
    Template,
    /// A directory or file could not be read.
    Io,
    /// A MIME pattern is not a valid regular expression.
    Regex,
}

impl Error {
    /// The line shown to an operator for this error.
    pub fn to_message(&self) -> (m: String)
        ensures
            self == Error::Config ==> m@ == "A config error was thrown"@,
            self == Error::Mime ==> m@ == "A MIME type error was thrown"@,
            self == Error::Template ==> m@ == "A templating error was thrown"@,
            self == Error::Io ==> m@ == "An IO error was thrown"@,
            self == Error::Regex ==> m@ == "A regex error was thrown"@,
    {
        match self {
            Error::Config => String::from_str("A config error was thrown"),
            Error::Mime => String::from_str("A MIME type error was thrown"),
            Error::Template => String::from_str("A templating error was thrown"),
            Error::Io => String::from_str("An IO error was thrown"),
            Error::Regex => String::from_str("A regex error was thrown"),
        }
    }
}

/// The MIME patterns of a library's filter, if it has any.
pub open spec fn patterns_of(cfg: config::Libraries) -> Option<Seq<Seq<char>>> {
    match cfg.filter.mime_type_regexes {
        Some(v) => Some(v.deep_view()),
        None => None,
    }
}

/// What scanning a pattern list against a classified type yields.
#[derive(Debug, Clone, Copy, PartialEq, Eq, Structural)]
pub enum ScanOutcome {
    /// Some pattern matched; the scan stopped there.
    Accepted,
    /// Every pattern compiled and none matched.
    Rejected,
    /// A pattern that is not a valid regular expression was reached.
    BadPattern,
}

/// Scans the patterns front to back: the first invalid pattern reached is an
/// error, the first match accepts, and a scan past every pattern rejects.
pub open spec fn scan_patterns(ps: Seq<Seq<char>>, mime: Seq<char>) -> ScanOutcome
    decreases ps.len(),
{
    if ps.len() == 0 {
        ScanOutcome::Rejected
    } else if !regex_valid(ps[0]) {
        ScanOutcome::BadPattern
    } else if regex_matches(ps[0], mime) {
        ScanOutcome::Accepted
    } else {
        scan_patterns(ps.drop_first(), mime)
    }
}

/// Whether a library's filter accepts a classified type: a filter with no
/// patterns accepts every file, one with patterns accepts a file whose type
/// some pattern matches.
pub open spec fn filter_matches(cfg: config::Libraries, mime: Seq<char>) -> bool {
    match patterns_of(cfg) {
        None => true,
        Some(ps) => scan_patterns(ps, mime) is Accepted,
    }
}

/// The two variables every command template may reference: the file's path
/// and its classified type.
pub open spec fn command_vars(path: Seq<char>, mime: Seq<char>) -> Seq<(Seq<char>, Seq<char>)> {
    seq![("file_path"@, path), ("mime_type"@, mime)]
}

/// What preparing the command for one accepted file yields: the command
/// template rendered with the file's path and type. A dry run prepares the
/// very same line — it is printed instead of run, so that its output is
/// representative — and so takes the same rendering path.
pub open spec fn spec_run_command(
    cfg: config::Libraries,
    path: Seq<char>,
    mime: Seq<char>,
) -> Result<Seq<char>, Error> {
    match render_spec(cfg.command@, command_vars(path, mime)) {
        Some(cmd) => Ok(cmd),
        None => Err(Error::Template),
    }
}

/// What processing one classified file yields: `Ok(Some(line))` with the
/// prepared line when the filter accepts the file, `Ok(None)` when it
/// rejects it, and an error when a pattern is invalid or rendering fails.
pub open spec fn spec_process_file(
    cfg: config::Libraries,
    path: Seq<char>,
    mime: Seq<char>,
) -> Result<Option<Seq<char>>, Error> {
    let run = match patterns_of(cfg) {
        None => Ok(true),
        Some(ps) => match scan_patterns(ps, mime) {
            ScanOutcome::Accepted => Ok(true),
            ScanOutcome::Rejected => Ok(false),
            ScanOutcome::BadPattern => Err(Error::Regex),
        },
    };
    match run {
        Err(e) => Err(e),
        Ok(false) => Ok(None),
        Ok(true) => match spec_run_command(cfg, path, mime) {
            Ok(line) => Ok(Some(line)),
            Err(e) => Err(e),
        },
    }
}

/// What one whole pass yields: the prepared lines of the accepted files in
/// order, or the first error, files being processed front to back.
pub open spec fn spec_process(
    cfg: config::Libraries,
    files: Seq<(Seq<char>, Seq<char>)>,
) -> Result<Seq<Seq<char>>, Error>
    decreases files.len(),
{
    if files.len() == 0 {
        Ok(Seq::empty())
    } else {
        match spec_process_file(cfg, files[0].0, files[0].1) {
            Err(e) => Err(e),
            Ok(None) => spec_process(cfg, files.drop_first()),
            Ok(Some(line)) => match spec_process(cfg, files.drop_first()) {
                Err(e) => Err(e),
                Ok(rest) => Ok(seq![line] + rest),
            },
        }
    }
}

/// How many of the files the filter accepts.
pub open spec fn matching_count(cfg: config::Libraries, files: Seq<(Seq<char>, Seq<char>)>) -> nat
    decreases files.len(),
{
    if files.len() == 0 {
        0nat
    } else {
        (if filter_matches(cfg, files[0].1) {
            1nat
        } else {
            0nat
        }) + matching_count(cfg, files.drop_first())
    }
}

/// A pass that completes prepares exactly one line per file its filter
/// accepts: over a tree with some number of accepted files, the pass yields
/// that many commands, and reports that count.
pub proof fn lemma_process_count(
    cfg: config::Libraries,
    files: Seq<(Seq<char>, Seq<char>)>,
    lines: Seq<Seq<char>>,
)
    requires
        spec_process(cfg, files) == Ok::<Seq<Seq<char>>, Error>(lines),
    ensures
        lines.len() == matching_count(cfg, files),
    decreases files.len(),
{
    if files.len() == 0 {
    } else {
        match spec_process_file(cfg, files[0].0, files[0].1) {
            Err(e) => {
                assert(false);
            },
            Ok(None) => {
                assert(!filter_matches(cfg, files[0].1));
                lemma_process_count(cfg, files.drop_first(), lines);
            },
            Ok(Some(line)) => {
                assert(filter_matches(cfg, files[0].1));
                match spec_process(cfg, files.drop_first()) {
                    Err(e) => {
                        assert(false);
                    },
                    Ok(rest) => {
                        lemma_process_count(cfg, files.drop_first(), rest);
                        assert(lines == seq![line] + rest);
                        assert(lines.len() == 1 + rest.len());
                    },
                }
            },
        }
    }
}

/// When a pass is owed success: with every MIME pattern a valid regular
/// expression and a well-formed command template that references only the
/// two supplied variables, processing never fails, whatever files are
/// handed in.
pub proof fn lemma_process_succeeds(
    cfg: config::Libraries,
    files: Seq<(Seq<char>, Seq<char>)>,
)
    requires
        patterns_of(cfg) matches Some(ps) ==> forall|i: int|
            0 <= i < ps.len() ==> regex_valid(#[trigger] ps[i]),
        crate::template::well_formed(cfg.command@),
        forall|n: Seq<char>|
            crate::template::referenced_vars(cfg.command@).contains(n) ==> n == "file_path"@ || n
                == "mime_type"@,
    ensures
        spec_process(cfg, files) is Ok,
    decreases files.len(),
{
    if files.len() > 0 {
        let path = files[0].0;
        let mime = files[0].1;
        match patterns_of(cfg) {
            None => {
            },
            Some(ps) => {
                lemma_scan_semantics(ps, mime);
            },
        }
        crate::template::lemma_render_success(cfg.command@, command_vars(path, mime));
        assert forall|n: Seq<char>|
            crate::template::referenced_vars(cfg.command@).contains(
                n,
            ) implies crate::template::lookup(command_vars(path, mime), n) is Some by {
            let vars = command_vars(path, mime);
            if n == "file_path"@ {
                assert(vars[0].0 == n);
            } else {
                assert(vars[0].0 == "file_path"@);
                assert(vars.drop_first()[0].0 == "mime_type"@);
                if vars[0].0 != n {
                    assert(crate::template::lookup(vars, n) == crate::template::lookup(
                        vars.drop_first(),
                        n,
                    ));
                }
            }
        }
        assert(spec_run_command(cfg, path, mime) is Ok);
        lemma_process_succeeds(cfg, files.drop_first());
    }
}

/// With every pattern valid, a filter with patterns accepts a type exactly
/// when at least one pattern matches it; a filter without patterns accepts
/// every type. An invalid pattern is never reported as a quiet rejection:
/// the scan stops on it.
pub proof fn lemma_rule_matching(cfg: config::Libraries, mime: Seq<char>)
    ensures
        patterns_of(cfg) is None ==> filter_matches(cfg, mime),
        patterns_of(cfg) matches Some(ps) ==> ((forall|i: int|
            0 <= i < ps.len() ==> regex_valid(#[trigger] ps[i])) ==> (filter_matches(cfg, mime)
            <==> exists|i: int| 0 <= i < ps.len() && regex_matches(#[trigger] ps[i], mime))),
{
    match patterns_of(cfg) {
        None => {
        },
        Some(ps) => {
            if forall|i: int| 0 <= i < ps.len() ==> regex_valid(#[trigger] ps[i]) {
                lemma_scan_semantics(ps, mime);
            }
        },
    }
}

/// With every pattern valid, the scan accepts exactly when some pattern
/// matches.
proof fn lemma_scan_semantics(ps: Seq<Seq<char>>, mime: Seq<char>)
    requires
        forall|i: int| 0 <= i < ps.len() ==> regex_valid(#[trigger] ps[i]),
    ensures
        scan_patterns(ps, mime) is Accepted <==> exists|i: int|
            0 <= i < ps.len() && regex_matches(#[trigger] ps[i], mime),
        !(scan_patterns(ps, mime) is BadPattern),
    decreases ps.len(),
{
    if ps.len() == 0 {
    } else if regex_matches(ps[0], mime) {
        assert(regex_matches(ps[0], mime));
    } else {
        assert(forall|i: int|
            0 <= i < ps.drop_first().len() ==> regex_valid(#[trigger] ps.drop_first()[i]));
        lemma_scan_semantics(ps.drop_first(), mime);
        if scan_patterns(ps, mime) is Accepted {
            let i = choose|i: int|
                0 <= i < ps.drop_first().len() && regex_matches(#[trigger] ps.drop_first()[i], mime);
            assert(ps.drop_first()[i] == ps[i + 1]);
        } else {
            if exists|i: int| 0 <= i < ps.len() && regex_matches(#[trigger] ps[i], mime) {
                let i = choose|i: int| 0 <= i < ps.len() && regex_matches(#[trigger] ps[i], mime);
                assert(i != 0);
                assert(ps.drop_first()[i - 1] == ps[i]);
            }
        }
    }
}

/// Whether `path` lies at or under the directory `dir`: the directory is a
/// prefix of the path that ends on a path boundary. A raw substring or a
/// prefix that splits a name (`/lib/books` against `/lib/books2/x`) does not
/// count.
pub open spec fn path_within_spec(dir: Seq<char>, path: Seq<char>) -> bool {
    path == dir || (path.len() > dir.len() && path.subrange(0, dir.len() as int) == dir && path[
        dir.len() as int
    ] == '/')
}

/// Whether one canonicalized directory — `None` where canonicalizing found
/// none — contains the path.
pub open spec fn dir_entry_contains(entry: Option<String>, path: Seq<char>) -> bool {
    match entry {
        Some(d) => path_within_spec(d@, path),
        None => false,
    }
}

/// Decides whether `path` lies at or under `dir`, both already in canonical
/// form.
pub fn path_within(dir: &str, path: &str) -> (b: bool)
    ensures
        b == path_within_spec(dir@, path@),
{
    let nd = dir.unicode_len();
    let np = path.unicode_len();
    if np < nd {
        proof {
            assert(path@ != dir@) by {
                if path@ == dir@ {
                    assert(path@.len() == dir@.len());
                }
            }
        }
        return false;
    }
    let mut i: usize = 0;
    while i < nd
        invariant
            i <= nd,
            nd == dir@.len(),
            np == path@.len(),
            nd <= np,
            forall|k: int| 0 <= k < i ==> dir@[k] == path@[k],
        decreases nd - i,
    {
        if dir.get_char(i) != path.get_char(i) {
            proof {
                assert(path@ != dir@);
                if path@.len() > dir@.len() {
                    assert(path@.subrange(0, dir@.len() as int)[i as int] == path@[i as int]);
                }
            }
            return false;
        }
        i = i + 1;
    }
    if np == nd {
        proof {
            assert(path@ =~= dir@);
        }
        return true;
    }
    let sep = path.get_char(nd);
    proof {
        assert(path@.subrange(0, dir@.len() as int) =~= dir@);
        assert(path@ != dir@) by {
            if path@ == dir@ {
                assert(path@.len() == dir@.len());
            }
        }
    }
    sep == '/'
}

/// Scans a filter's patterns against one classified type, front to back:
/// an invalid pattern stops the scan with an error, the first match accepts.
fn scan_accepts(regexes: &Vec<String>, mime: &String) -> (r: Result<bool, Error>)
    ensures
        r matches Ok(true) ==> scan_patterns(regexes.deep_view(), mime@) is Accepted,
        r matches Ok(false) ==> scan_patterns(regexes.deep_view(), mime@) is Rejected,
        r matches Err(e) ==> scan_patterns(regexes.deep_view(), mime@) is BadPattern && e
            == Error::Regex,
{
    let ghost ps = regexes.deep_view();
    let mut k: usize = 0;
    proof {
        assert(ps.skip(0) =~= ps);
    }
    while k < regexes.len()
        invariant
            k <= regexes@.len(),
            ps == regexes.deep_view(),
            ps.len() == regexes@.len(),
            forall|q: int| 0 <= q < ps.len() ==> ps[q] == regexes@[q]@,
            scan_patterns(ps, mime@) == scan_patterns(ps.skip(k as int), mime@),
        decreases regexes@.len() - k,
    {
        proof {
            assert(ps.skip(k as int)[0] == ps[k as int]);
        }
        let re = match regex_new(regexes[k].as_str()) {
            None => {
                return Err(Error::Regex);
            },
            Some(re) => re,
        };
        if regex_is_match(&re, mime.as_str()) {
            return Ok(true);
        }
        proof {
            assert(ps.skip(k as int).drop_first() =~= ps.skip(k + 1));
        }
        k = k + 1;
    }
    proof {
        assert(ps.skip(k as int) =~= Seq::<Seq<char>>::empty());
    }
    Ok(false)
}

/// One library under processing: its configuration and whether commands are
/// only printed rather than run.
#[derive(Debug)]
pub struct Library<'a> {
    config: &'a config::Libraries,
    skip_running_commands: &'a bool,
}

impl<'a> Library<'a> {
    /// The configuration the library was built over.
    pub closed spec fn spec_config(&self) -> config::Libraries {
        *self.config
    }

    /// Whether the pass only prints what it would run.
    pub closed spec fn spec_dry_run(&self) -> bool {
        *self.skip_running_commands
    }

    /// Pairs a library's configuration with the dry-run switch.
    pub fn new(config: &'a config::Libraries, skip_running_commands: &'a bool) -> (lib: Library<
        'a,
    >)
        ensures
            lib.spec_config() == *config,
            lib.spec_dry_run() == *skip_running_commands,
    {
        Library { config, skip_running_commands }
    }

    /// Whether the pass's prepared lines are to be printed rather than run.
    pub fn is_dry_run(&self) -> (b: bool)
        ensures
            b == self.spec_dry_run(),
    {
        *self.skip_running_commands
    }

    /// Prepares the command line for one accepted file: the command
    /// template rendered with the file's path and type. A dry run prepares
    /// the same line, so that what it prints is what a real run would
    /// execute.
    pub fn run_command(&self, path: &String, mime: &String) -> (r: Result<String, Error>)
        ensures
            r matches Ok(line) ==> spec_run_command(self.spec_config(), path@, mime@) == Ok::<
                Seq<char>,
                Error,
            >(line@),
            r matches Err(e) ==> spec_run_command(self.spec_config(), path@, mime@) == Err::<
                Seq<char>,
                Error,
            >(e),
    {
        let mut data: Vec<(String, String)> = Vec::new();
        data.push((String::from_str("file_path"), path.clone()));
        data.push((String::from_str("mime_type"), mime.clone()));
        proof {
            assert(data.deep_view() =~= command_vars(path@, mime@));
        }
        let tmpl = match Template::new(self.config.command.clone()) {
            Ok(t) => t,
            Err(e) => {
                proof {
                    assert(false);
                }
                return Err(Error::Template);
            },
        };
        match tmpl.render(&data) {
            Ok(cmd) => Ok(cmd),
            Err(e) => Err(Error::Template),
        }
    }

    /// Decides one classified file: filters it against the MIME patterns and
    /// prepares its command line if the filter accepts it.
    pub fn process_file(&self, file: &ClassifiedFile) -> (r: Result<Option<String>, Error>)
        ensures
            r matches Ok(line) ==> spec_process_file(
                self.spec_config(),
                file.path@,
                file.mime_type@,
            ) == Ok::<Option<Seq<char>>, Error>(line.deep_view()),
            r matches Err(e) ==> spec_process_file(
                self.spec_config(),
                file.path@,
                file.mime_type@,
            ) == Err::<Option<Seq<char>>, Error>(e),
    {
        let ghost cfg = self.spec_config();
        let accepted: bool = match &self.config.filter.mime_type_regexes {
            None => true,
            Some(regexes) => {
                proof {
                    assert(patterns_of(cfg) == Some(regexes.deep_view()));
                }
                match scan_accepts(regexes, &file.mime_type) {
                    Err(e) => {
                        return Err(e);
                    },
                    Ok(b) => b,
                }
            },
        };
        if !accepted {
            return Ok(None);
        }
        match self.run_command(&file.path, &file.mime_type) {
            Ok(line) => Ok(Some(line)),
            Err(e) => Err(e),
        }
    }

    /// Processes one batch of classified files front to back: the result
    /// carries the count of accepted files and their prepared lines, or the
    /// first error.
    pub fn process(&self, files: &Vec<ClassifiedFile>) -> (r: Result<(u64, Vec<String>), Error>)
        ensures
            r matches Ok(p) ==> spec_process(self.spec_config(), files.deep_view()) == Ok::<
                Seq<Seq<char>>,
                Error,
            >(p.1.deep_view()) && p.0 == p.1@.len(),
            r matches Err(e) ==> spec_process(self.spec_config(), files.deep_view()) == Err::<
                Seq<Seq<char>>,
                Error,
            >(e),
    {
        let ghost cfg = self.spec_config();
        let ghost fv = files.deep_view();
        let mut lines: Vec<String> = Vec::new();
        let mut i: usize = 0;
        proof {
            assert(fv.skip(0) =~= fv);
        }
        while i < files.len()
            invariant
                i <= files@.len(),
                fv == files.deep_view(),
                fv.len() == files@.len(),
                cfg == self.spec_config(),
                forall|q: int| 0 <= q < fv.len() ==> fv[q] == files@[q]@,
                match spec_process(cfg, fv.skip(i as int)) {
                    Ok(rest) => spec_process(cfg, fv) == Ok::<Seq<Seq<char>>, Error>(
                        lines.deep_view() + rest,
                    ),
                    Err(e) => spec_process(cfg, fv) == Err::<Seq<Seq<char>>, Error>(e),
                },
            decreases files@.len() - i,
        {
            let ghost lines_before = lines.deep_view();
            proof {
                assert(fv.skip(i as int)[0] == fv[i as int]);
                assert(fv.skip(i as int).drop_first() =~= fv.skip(i + 1));
            }
            match self.process_file(&files[i]) {
                Err(e) => {
                    return Err(e);
                },
                Ok(None) => {
                },
                Ok(Some(line)) => {
                    let ghost lv = line@;
                    lines.push(line);
                    proof {
                        assert(lines.deep_view() =~= lines_before + seq![lv]);
                        assert(match spec_process(cfg, fv.skip(i + 1)) {
                            Ok(rest) => (lines_before + seq![lv]) + rest =~= lines_before + (
                            seq![lv] + rest),
                            Err(e) => true,
                        });
                    }
                },
            }
            i = i + 1;
        }
        proof {
            assert(fv.skip(i as int) =~= Seq::<(Seq<char>, Seq<char>)>::empty());
            if spec_process(cfg, fv) is Ok {
                assert(lines.deep_view() + Seq::<Seq<char>>::empty() =~= lines.deep_view());
            }
        }
        let count = lines.len() as u64;
        Ok((count, lines))
    }

    /// Decides whether an event's path falls inside the library's directory
    /// scope. Canonicalizing is the caller's part: `canonical_dirs[i]` holds
    /// the canonical form of the library's i-th configured directory, `None`
    /// where it has none (the directory does not exist), and
    /// `canonical_path` the canonical form of the event's path.
    pub fn contains_path(&self, canonical_dirs: &Vec<Option<String>>, canonical_path: &str) -> (b:
        bool)
        requires
            canonical_dirs@.len() == self.spec_config().filter.directories@.len(),
        ensures
            b == exists|i: int|
                0 <= i < canonical_dirs@.len() && dir_entry_contains(
                    #[trigger] canonical_dirs@[i],
                    canonical_path@,
                ),
    {
        let mut i: usize = 0;
        while i < canonical_dirs.len()
            invariant
                i <= canonical_dirs@.len(),
                forall|k: int|
                    0 <= k < i ==> !dir_entry_contains(
                        #[trigger] canonical_dirs@[k],
                        canonical_path@,
                    ),
            decreases canonical_dirs@.len() - i,
        {
            match &canonical_dirs[i] {
                None => {
                },
                Some(d) => {
                    if path_within(d.as_str(), canonical_path) {
                        return true;
                    }
                },
            }
            i = i + 1;
        }
        false
    }
}

} // verus!
