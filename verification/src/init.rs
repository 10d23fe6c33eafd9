//! Templates sources: where `dock init` takes its templates from.

use vstd::prelude::*;

use crate::canon_path::path_components;
use crate::canon_path::path_view;
use crate::canon_path::rel_path_from_path_buf;
use crate::canon_path::rel_path_spec;
use crate::canon_path::NewRelPathError;
use crate::canon_path::RelPath;
use crate::text::chars_of;
use crate::text::concat;
use crate::text::str_eq;
use crate::text::substring;

verus! {

/// Whether `s` holds no `:`.
pub open spec fn colon_free(s: Seq<char>) -> bool {
    forall|i: int| 0 <= i < s.len() ==> s[i] != ':'
}

/// Whether `raw` is `scheme:addr:reference:subdir`, where only `addr` may
/// hold further colons.
pub open spec fn is_split(
    raw: Seq<char>,
    scheme: Seq<char>,
    addr: Seq<char>,
    reference: Seq<char>,
    subdir: Seq<char>,
) -> bool {
    &&& raw == scheme + seq![':'] + addr + seq![':'] + reference + seq![':'] + subdir
    &&& colon_free(scheme)
    &&& colon_free(reference)
    &&& colon_free(subdir)
}

pub open spec fn has_split(raw: Seq<char>) -> bool {
    exists|a: Seq<char>, b: Seq<char>, c: Seq<char>, d: Seq<char>| is_split(raw, a, b, c, d)
}

/// The parts of `raw`, where it has them.
pub open spec fn split_of(raw: Seq<char>) -> (Seq<char>, Seq<char>, Seq<char>, Seq<char>) {
    choose|a: Seq<char>, b: Seq<char>, c: Seq<char>, d: Seq<char>| is_split(raw, a, b, c, d)
}

proof fn lemma_split_indices(
    raw: Seq<char>,
    a: Seq<char>,
    b: Seq<char>,
    c: Seq<char>,
    d: Seq<char>,
)
    requires
        is_split(raw, a, b, c, d),
    ensures
        raw.len() == a.len() + b.len() + c.len() + d.len() + 3,
        raw.take(a.len() as int) == a,
        raw[a.len() as int] == ':',
        raw.subrange((a.len() + 1) as int, (a.len() + 1 + b.len()) as int) == b,
        raw[(a.len() + 1 + b.len()) as int] == ':',
        raw.subrange(raw.len() - d.len() - 1 - c.len(), raw.len() - d.len() - 1) == c,
        raw[raw.len() - d.len() - 1] == ':',
        raw.skip(raw.len() - d.len()) == d,
{
    let s1 = a + seq![':'];
    let s2 = s1 + b;
    let s3 = s2 + seq![':'];
    let s4 = s3 + c;
    let s5 = s4 + seq![':'];
    assert(raw == s5 + d);
    assert(raw.take(a.len() as int) =~= a);
    assert(raw[a.len() as int] == s1[a.len() as int]);
    assert(raw.subrange((a.len() + 1) as int, (a.len() + 1 + b.len()) as int) =~= b);
    assert(raw[(a.len() + 1 + b.len()) as int] == s3[(a.len() + 1 + b.len()) as int]);
    assert(raw.subrange(raw.len() - d.len() - 1 - c.len(), raw.len() - d.len() - 1) =~= c);
    assert(raw[raw.len() - d.len() - 1] == s5[raw.len() - d.len() - 1]);
    assert(raw.skip(raw.len() - d.len()) =~= d);
}

/// A templates source splits in at most one way.
pub proof fn lemma_split_unique(
    raw: Seq<char>,
    a: Seq<char>,
    b: Seq<char>,
    c: Seq<char>,
    d: Seq<char>,
    a2: Seq<char>,
    b2: Seq<char>,
    c2: Seq<char>,
    d2: Seq<char>,
)
    requires
        is_split(raw, a, b, c, d),
        is_split(raw, a2, b2, c2, d2),
    ensures
        a == a2 && b == b2 && c == c2 && d == d2,
{
    lemma_split_indices(raw, a, b, c, d);
    lemma_split_indices(raw, a2, b2, c2, d2);
    let n = raw.len();
    if a.len() < a2.len() {
        assert(raw.take(a2.len() as int)[a.len() as int] == raw[a.len() as int]);
    }
    if a2.len() < a.len() {
        assert(raw.take(a.len() as int)[a2.len() as int] == raw[a2.len() as int]);
    }
    if d.len() < d2.len() {
        assert(raw.skip(n - d2.len())[d2.len() - d.len() - 1] == raw[n - d.len() - 1]);
    }
    if d2.len() < d.len() {
        assert(raw.skip(n - d.len())[d.len() - d2.len() - 1] == raw[n - d2.len() - 1]);
    }
    assert(d.len() == d2.len());
    let e = n - d.len() - 1;
    if c.len() < c2.len() {
        assert(raw.subrange(e - c2.len(), e)[c2.len() - c.len() - 1] == raw[e - c.len() - 1]);
        assert(raw[e - c.len() - 1] == ':') by {
            assert(a.len() + 1 + b.len() == e - c.len() - 1);
        }
    }
    if c2.len() < c.len() {
        assert(raw.subrange(e - c.len(), e)[c.len() - c2.len() - 1] == raw[e - c2.len() - 1]);
        assert(raw[e - c2.len() - 1] == ':') by {
            assert(a2.len() + 1 + b2.len() == e - c2.len() - 1);
        }
    }
}

/// The parts of a templates source.
struct TemplatesSourceParts {
    scheme: String,
    addr: String,
    reference: String,
    subdir: String,
}

/// The ways in which a templates source can fail to split.
#[derive(Debug, Clone, Copy, PartialEq, Eq)]
pub enum SplitTemplatesSourceError {
    TooFewColons,
}

impl SplitTemplatesSourceError {
    /// The human-readable description of the error.
    pub fn message(&self) -> (msg: String)
        ensures
            msg@ == "The templates source contained too few ':'"@,
    {
        String::from_str("The templates source contained too few ':'")
    }
}

/// Splits `raw_source` into `scheme:addr:reference:subdir`, where `addr` is
/// everything between the first colon and the second-last colon.
fn split_templates_source(raw_source: &str) -> (r: Result<
    TemplatesSourceParts,
    SplitTemplatesSourceError,
>)
    ensures
        match r {
            Ok(parts) => is_split(
                raw_source@,
                parts.scheme@,
                parts.addr@,
                parts.reference@,
                parts.subdir@,
            ),
            Err(_) => !has_split(raw_source@),
        },
{
    let cs = chars_of(raw_source);
    let n = cs.len();
    let ghost s = raw_source@;
    // The number of colons seen (at most 3), the first, the last, and the
    // one before the last.
    let mut cnt: usize = 0;
    let mut f: usize = 0;
    let mut m: usize = 0;
    let mut l: usize = 0;
    let mut i: usize = 0;
    while i < n
        invariant
            cs@ == s,
            n == s.len(),
            i <= n,
            cnt <= 3,
            cnt == 0 ==> forall|j: int| 0 <= j < i ==> s[j] != ':',
            cnt >= 1 ==> {
                &&& f < i && s[f as int] == ':'
                &&& forall|j: int| 0 <= j < f ==> s[j] != ':'
                &&& l < i && s[l as int] == ':'
                &&& forall|j: int| l < j < i ==> s[j] != ':'
            },
            cnt == 1 ==> f == l,
            cnt >= 2 ==> {
                &&& m < l && s[m as int] == ':' && f <= m
                &&& forall|j: int| m < j < l ==> s[j] != ':'
            },
            cnt == 2 ==> f == m,
            cnt >= 3 ==> f < m,
        decreases n - i,
    {
        if cs[i] == ':' {
            if cnt == 0 {
                f = i;
                l = i;
                cnt = 1;
            } else if cnt == 1 {
                m = l;
                l = i;
                cnt = 2;
            } else {
                m = l;
                l = i;
                cnt = 3;
            }
        }
        i += 1;
    }
    if cnt < 3 {
        proof {
            if has_split(s) {
                let (a, b, c, d) = split_of(s);
                lemma_split_indices(s, a, b, c, d);
                let p1 = a.len() as int;
                let p2 = (a.len() + 1 + b.len()) as int;
                let p3 = s.len() - d.len() - 1;
                assert(s[p1] == ':' && s[p2] == ':' && s[p3] == ':');
                assert(p1 < p2 < p3);
                if cnt == 0 {
                    assert(s[p1] != ':');
                }
            }
        }
        return Err(SplitTemplatesSourceError::TooFewColons);
    }
    let scheme = substring(raw_source, 0, f);
    let addr = substring(raw_source, f + 1, m);
    let reference = substring(raw_source, m + 1, l);
    let subdir = substring(raw_source, l + 1, n);
    proof {
        assert(s =~= scheme@ + seq![':'] + addr@ + seq![':'] + reference@ + seq![':'] + subdir@);
    }
    Ok(TemplatesSourceParts { scheme, addr, reference, subdir })
}

/// A source of templates, and the directory in it that holds the templates.
pub struct TemplatesSource {
    pub scheme: TemplatesSourceScheme,
    pub subdir: RelPath,
}

/// Where templates are fetched from.
pub enum TemplatesSourceScheme {
    Git(GitTemplatesSource),
    Dir(DirTemplatesSource),
}

/// A reference of a Git repository.
pub struct GitTemplatesSource {
    pub url: String,
    pub reference: String,
}

impl GitTemplatesSource {
    pub fn new(url: String, reference: String) -> (s: Self)
        ensures
            s.url == url,
            s.reference == reference,
    {
        GitTemplatesSource { url, reference }
    }

    /// The arguments of the `git` command that clones the reference, and
    /// only it, into the current directory.
    pub fn clone_args(&self) -> (args: Vec<String>)
        ensures
            args@.len() == 7,
            args@[0]@ == "clone"@,
            args@[1]@ == "--branch"@,
            args@[2]@ == self.reference@,
            args@[3]@ == "--no-tags"@,
            args@[4]@ == "--depth=1"@,
            args@[5]@ == self.url@,
            args@[6]@ == "."@,
    {
        let mut args: Vec<String> = Vec::new();
        args.push(String::from_str("clone"));
        args.push(String::from_str("--branch"));
        args.push(self.reference.clone());
        args.push(String::from_str("--no-tags"));
        args.push(String::from_str("--depth=1"));
        args.push(self.url.clone());
        args.push(String::from_str("."));
        args
    }
}

/// A directory on the local file system.
pub struct DirTemplatesSource {
    pub path: String,
}

impl DirTemplatesSource {
    pub fn new(path: String) -> (s: Self)
        ensures
            s.path == path,
    {
        DirTemplatesSource { path }
    }

    /// The arguments of the `cp` command that copies the directory to
    /// `dir`.
    pub fn copy_args(&self, dir: &str) -> (args: Vec<String>)
        ensures
            args@.len() == 3,
            args@[0]@ == "-r"@,
            args@[1]@ == self.path@,
            args@[2]@ == dir@,
    {
        let mut args: Vec<String> = Vec::new();
        args.push(String::from_str("-r"));
        args.push(self.path.clone());
        args.push(String::from_str(dir));
        args
    }
}

/// The ways in which a templates source can fail to parse.
#[derive(Debug)]
pub enum ParseTemplatesSourceError {
    SplitTemplatesSourceFailed { source: SplitTemplatesSourceError },
    UnsupportedDirReference { reference: String },
    UnsupportedSourceType { source_scheme: String },
    SubdirToRelPathFailed { source: NewRelPathError, subdir_path: String },
}

impl ParseTemplatesSourceError {
    pub open spec fn spec_message(&self) -> Seq<char> {
        match self {
            ParseTemplatesSourceError::SplitTemplatesSourceFailed { .. } =>
                "Couldn't split the templates source: "@
                    + "The templates source contained too few ':'"@,
            ParseTemplatesSourceError::UnsupportedDirReference { reference } => "'"@ + reference@
                + "' can't be used as a reference for the 'dir' scheme (only '-' is supported)"@,
            ParseTemplatesSourceError::UnsupportedSourceType { source_scheme } =>
                "Unsupported templates source scheme: "@ + source_scheme@,
            ParseTemplatesSourceError::SubdirToRelPathFailed { source, subdir_path } =>
                "Couldn't convert '"@ + subdir_path@ + "' to a relative path: "@
                    + source.spec_message(),
        }
    }

    /// The human-readable description of the error.
    pub fn message(&self) -> (msg: String)
        ensures
            msg@ == self.spec_message(),
    {
        match self {
            ParseTemplatesSourceError::SplitTemplatesSourceFailed { source } => {
                let m = source.message();
                concat("Couldn't split the templates source: ", m.as_str())
            },
            ParseTemplatesSourceError::UnsupportedDirReference { reference } => {
                let m = concat("'", reference.as_str());
                concat(
                    m.as_str(),
                    "' can't be used as a reference for the 'dir' scheme (only '-' is supported)",
                )
            },
            ParseTemplatesSourceError::UnsupportedSourceType { source_scheme } => {
                concat("Unsupported templates source scheme: ", source_scheme.as_str())
            },
            ParseTemplatesSourceError::SubdirToRelPathFailed { source, subdir_path } => {
                let m = concat("Couldn't convert '", subdir_path.as_str());
                let m = concat(m.as_str(), "' to a relative path: ");
                let e = source.message();
                concat(m.as_str(), e.as_str())
            },
        }
    }
}

/// What parsing the templates source `raw` gives, where `raw` splits into
/// `scheme:addr:reference:subdir`.
pub open spec fn parse_outcome(
    raw: Seq<char>,
    r: Result<TemplatesSource, ParseTemplatesSourceError>,
) -> bool {
    if !has_split(raw) {
        r matches Err(ParseTemplatesSourceError::SplitTemplatesSourceFailed { .. })
    } else {
        let (scheme, addr, reference, subdir) = split_of(raw);
        if scheme == "git"@ || (scheme == "dir"@ && reference == "-"@) {
            match rel_path_spec(path_components(subdir)) {
                Ok(sub) => {
                    &&& r matches Ok(ts)
                    &&& path_view(ts.subdir@) == sub
                    &&& if scheme == "git"@ {
                        ts.scheme matches TemplatesSourceScheme::Git(g) && g.url@ == addr
                            && g.reference@ == reference
                    } else {
                        ts.scheme matches TemplatesSourceScheme::Dir(dir) && dir.path@ == addr
                    }
                },
                Err(e) => {
                    &&& r matches Err(
                        ParseTemplatesSourceError::SubdirToRelPathFailed { source, subdir_path },
                    )
                    &&& source == e
                    &&& subdir_path@ == subdir
                },
            }
        } else if scheme == "dir"@ {
            r matches Err(ParseTemplatesSourceError::UnsupportedDirReference { reference: rf })
                && rf@ == reference
        } else {
            r matches Err(ParseTemplatesSourceError::UnsupportedSourceType { source_scheme })
                && source_scheme@ == scheme
        }
    }
}

/// Parses a templates source of the form `scheme:addr:reference:subdir`,
/// where `scheme` is `git` or `dir` (whose only reference is `-`), and
/// `subdir` is a relative path.
pub fn parse_templates_source(raw_source: &str) -> (r: Result<
    TemplatesSource,
    ParseTemplatesSourceError,
>)
    ensures
        parse_outcome(raw_source@, r),
{
    let parts = match split_templates_source(raw_source) {
        Ok(parts) => parts,
        Err(source) => {
            return Err(ParseTemplatesSourceError::SplitTemplatesSourceFailed { source });
        },
    };
    let ghost s = raw_source@;
    proof {
        let (a, b, c, d) = split_of(s);
        lemma_split_unique(s, a, b, c, d, parts.scheme@, parts.addr@, parts.reference@, parts.subdir@);
        reveal_strlit("git");
        reveal_strlit("dir");
        reveal_strlit("-");
    }
    let scheme = if str_eq(parts.scheme.as_str(), "git") {
        TemplatesSourceScheme::Git(GitTemplatesSource::new(parts.addr, parts.reference))
    } else if str_eq(parts.scheme.as_str(), "dir") {
        if !str_eq(parts.reference.as_str(), "-") {
            return Err(
                ParseTemplatesSourceError::UnsupportedDirReference { reference: parts.reference },
            );
        }
        TemplatesSourceScheme::Dir(DirTemplatesSource::new(parts.addr))
    } else {
        return Err(ParseTemplatesSourceError::UnsupportedSourceType { source_scheme: parts.scheme });
    };
    match rel_path_from_path_buf(parts.subdir.as_str()) {
        Ok(subdir) => Ok(TemplatesSource { scheme, subdir }),
        Err(source) => Err(
            ParseTemplatesSourceError::SubdirToRelPathFailed { source, subdir_path: parts.subdir },
        ),
    }
}

/// What happened to a file of a template when it was copied.
#[derive(Debug, Clone, Copy, PartialEq, Eq)]
pub enum FileAction {
    Create,
    Skip,
}

/// The line that reports `action` on `file`: `Created 'file'` or
/// `Skipped 'file'`.
pub fn file_action_line(action: FileAction, file: &str) -> (line: String)
    ensures
        line@ == (match action {
            FileAction::Create => "Created"@,
            FileAction::Skip => "Skipped"@,
        }) + " '"@ + file@ + "'"@,
{
    let verb = match action {
        FileAction::Create => "Created",
        FileAction::Skip => "Skipped",
    };
    let line = concat(verb, " '");
    let line = concat(line.as_str(), file);
    concat(line.as_str(), "'")
}


/// The command that clones a templates source into a directory.
pub struct CloneCommand {
    /// Whether the (empty) directory is removed first, for the command to
    /// make it anew.
    pub remove_dir_first: bool,
    pub prog: String,
    pub args: Vec<String>,
    /// Whether the command runs in the directory (else in the current
    /// one).
    pub in_dir: bool,
}

impl TemplatesSourceScheme {
    /// Returns the command that clones the source into `dir`: a shallow
    /// `git clone` of the reference, run in `dir`, or a recursive `cp` of
    /// the directory to `dir`, once `dir` is removed.
    pub fn clone_command(&self, dir: &str) -> (c: CloneCommand)
        ensures
            match self {
                TemplatesSourceScheme::Git(g) => {
                    &&& !c.remove_dir_first
                    &&& c.in_dir
                    &&& c.prog@ == "git"@
                    &&& c.args@.len() == 7
                    &&& c.args@[0]@ == "clone"@
                    &&& c.args@[1]@ == "--branch"@
                    &&& c.args@[2]@ == g.reference@
                    &&& c.args@[3]@ == "--no-tags"@
                    &&& c.args@[4]@ == "--depth=1"@
                    &&& c.args@[5]@ == g.url@
                    &&& c.args@[6]@ == "."@
                },
                TemplatesSourceScheme::Dir(d) => {
                    &&& c.remove_dir_first
                    &&& !c.in_dir
                    &&& c.prog@ == "cp"@
                    &&& c.args@.len() == 3
                    &&& c.args@[0]@ == "-r"@
                    &&& c.args@[1]@ == d.path@
                    &&& c.args@[2]@ == dir@
                },
            },
    {
        match self {
            TemplatesSourceScheme::Git(g) => CloneCommand {
                remove_dir_first: false,
                prog: String::from_str("git"),
                args: g.clone_args(),
                in_dir: true,
            },
            TemplatesSourceScheme::Dir(d) => CloneCommand {
                remove_dir_first: true,
                prog: String::from_str("cp"),
                args: d.copy_args(dir),
                in_dir: false,
            },
        }
    }
}

} // verus!
