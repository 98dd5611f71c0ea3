//! Deterministic traversal of a file tree, with gitignore-style filtering.
//!
//! Nothing here touches the file system. A walk is a state machine: it names
//! the directory to read next, takes what was found there, and decides what
//! to yield and where to descend.

use vstd::prelude::*;
use vstd::string::StringExecFns;
use vstd::string::StrSliceExecFns;
use crate::order::name_order;
use crate::sorting::sort_entries;
use crate::walk::{relative, relative_to, PendingView, Walk, WalkView};

verus! {

/// `std::io::Error`, carried through as it is.
#[verifier::external_type_specification]
#[verifier::external_body]
pub struct ExIoError(std::io::Error);

/// The kinds of I/O failure that a walk tells apart.
#[derive(Debug, Clone, Copy, PartialEq, Eq, Structural)]
pub enum IoKind {
    /// Nothing is at the path.
    NotFound,
    /// What was asked for cannot be done with what is at the path.
    InvalidInput,
    /// Any other failure.
    Other,
}

/// The kind of an `std::io::Error`, every kind that `IoKind` does not list
/// counted as `Other`, and the text that the error displays.
pub uninterp spec fn io_error_parts(err: &std::io::Error) -> (IoKind, Seq<char>);

/// `std::io::Error::new`: an error of the given kind that displays
/// `message`.
#[verifier::external_body]
pub(crate) fn new_io_error(kind: IoKind, message: &str) -> (err: std::io::Error)
    ensures
        io_error_parts(&err) == (kind, message@),
{
    let kind = match kind {
        IoKind::NotFound => std::io::ErrorKind::NotFound,
        IoKind::InvalidInput => std::io::ErrorKind::InvalidInput,
        IoKind::Other => std::io::ErrorKind::Other,
    };
    std::io::Error::new(kind, message.to_string())
}

/// `<std::io::Error as ToString>::to_string`: the text that the error
/// displays.
#[verifier::external_body]
pub(crate) fn io_error_text(err: &std::io::Error) -> (text: String)
    ensures
        text@ == io_error_parts(err).1,
{
    err.to_string()
}

/// What is at the path where a walk is to start.
#[derive(Debug, Clone, Copy, PartialEq, Eq, Structural)]
pub enum PathKind {
    /// Nothing.
    Missing,
    /// A directory.
    Directory,
    /// Something that is not a directory.
    NotDirectory,
}

/// Error types for treewalk operations.
#[derive(Debug)]
pub enum TreewalkError {
    /// The file system refused something.
    IoError(std::io::Error),
    /// A path or a pattern cannot be used; the text says why.
    InvalidPath(String),
}

impl TreewalkError {
    /// The text of the error.
    pub open spec fn text(&self) -> Seq<char> {
        match self {
            TreewalkError::IoError(err) => "IO error: "@ + io_error_parts(err).1,
            TreewalkError::InvalidPath(path) => "Invalid path: "@ + path@,
        }
    }

    /// Whether the error is an invalid path with the message `text`.
    pub open spec fn is_invalid_path(&self, text: Seq<char>) -> bool {
        match self {
            TreewalkError::InvalidPath(message) => message@ == text,
            TreewalkError::IoError(_) => false,
        }
    }

    /// The text of the error.
    pub fn message(&self) -> (text: String)
        ensures
            text@ == self.text(),
    {
        match self {
            TreewalkError::IoError(err) => {
                let mut text = String::from_str("IO error: ");
                text.append(io_error_text(err).as_str());
                text
            },
            TreewalkError::InvalidPath(path) => {
                let mut text = String::from_str("Invalid path: ");
                text.append(path.as_str());
                text
            },
        }
    }
}

impl From<std::io::Error> for TreewalkError {
    fn from(err: std::io::Error) -> (e: TreewalkError) {
        TreewalkError::IoError(err)
    }
}

impl vstd::std_specs::convert::FromSpecImpl<std::io::Error> for TreewalkError {
    open spec fn obeys_from_spec() -> bool {
        true
    }

    open spec fn from_spec(err: std::io::Error) -> TreewalkError {
        TreewalkError::IoError(err)
    }
}

/// Whether `c` has the Unicode property White_Space.
pub open spec fn is_white_space(c: char) -> bool {
    let n = c as u32;
    (0x09 <= n && n <= 0x0D) || n == 0x20 || n == 0x85 || n == 0xA0 || n == 0x1680 || (0x2000 <= n
        && n <= 0x200A) || n == 0x2028 || n == 0x2029 || n == 0x202F || n == 0x205F || n == 0x3000
}

/// `s` without its leading white space.
pub open spec fn trim_start(s: Seq<char>) -> Seq<char>
    decreases s.len(),
{
    if s.len() > 0 && is_white_space(s[0]) {
        trim_start(s.drop_first())
    } else {
        s
    }
}

/// `s` without its trailing white space.
pub open spec fn trim_end(s: Seq<char>) -> Seq<char>
    decreases s.len(),
{
    if s.len() > 0 && is_white_space(s.last()) {
        trim_end(s.drop_last())
    } else {
        s
    }
}

/// `s` without leading and trailing white space.
pub open spec fn trimmed(s: Seq<char>) -> Seq<char> {
    trim_end(trim_start(s))
}

/// `str::trim`: the slice with leading and trailing white space removed,
/// white space being the characters of the Unicode property White_Space.
#[verifier::external_body]
pub(crate) fn trim(s: &str) -> (t: &str)
    ensures
        t@ == trimmed(s@),
{
    s.trim()
}

/// Whether a trimmed line is a pattern: it is not empty and not a comment.
pub open spec fn is_pattern_line(line: Seq<char>) -> bool {
    line.len() > 0 && line[0] != '#'
}

/// The patterns of a sequence of lines: each line trimmed, empty lines and
/// comments left out, in the order of the lines.
pub open spec fn patterns_of(lines: Seq<Seq<char>>) -> Seq<Seq<char>>
    decreases lines.len(),
{
    if lines.len() == 0 {
        Seq::empty()
    } else {
        let before = patterns_of(lines.drop_last());
        let line = trimmed(lines.last());
        if is_pattern_line(line) {
            before.push(line)
        } else {
            before
        }
    }
}

/// Whether `s` holds no backslash. Globs and paths without one are read the
/// same way on every platform.
pub open spec fn portable(s: Seq<char>) -> bool {
    forall|i: int| 0 <= i < s.len() ==> s[i] != '\\'
}

/// Whether every pattern is portable.
pub open spec fn all_portable(patterns: Seq<Seq<char>>) -> bool {
    forall|i: int| 0 <= i < patterns.len() ==> portable(#[trigger] patterns[i])
}

/// A parsed glob of the `globset` crate.
#[verifier::external_type_specification]
#[verifier::external_body]
pub struct ExGlob(globset::Glob);

/// A compiled set of globs of the `globset` crate.
#[verifier::external_type_specification]
#[verifier::external_body]
pub struct ExGlobSet(globset::GlobSet);

/// The builder of a set of globs of the `globset` crate.
#[verifier::external_type_specification]
#[verifier::external_body]
pub struct ExGlobSetBuilder(globset::GlobSetBuilder);

/// The error of the `globset` crate.
#[verifier::external_type_specification]
#[verifier::external_body]
pub struct ExGlobError(globset::Error);

/// What `globset::Glob::new` objects to in `glob`: nothing, or the text of
/// its error.
pub uninterp spec fn glob_error(glob: Seq<char>) -> Option<Seq<char>>;

/// What `globset::GlobSetBuilder::build` objects to in a list of globs:
/// nothing, or the text of its error.
pub uninterp spec fn set_error(globs: Seq<Seq<char>>) -> Option<Seq<char>>;

/// Whether the glob parsed from `glob` matches `path`, as
/// `globset::GlobSet::is_match` finds it for a set that holds the glob.
pub uninterp spec fn glob_matches(glob: Seq<char>, path: Seq<char>) -> bool;

/// The text that a parsed glob was made from.
pub uninterp spec fn glob_source(glob: &globset::Glob) -> Seq<char>;

/// The sources of the globs that a builder holds, in the order they were
/// added.
pub uninterp spec fn builder_globs(builder: &globset::GlobSetBuilder) -> Seq<Seq<char>>;

/// The sources of the globs that a set was built from.
pub uninterp spec fn set_globs(set: &globset::GlobSet) -> Seq<Seq<char>>;

/// The text that a `globset::Error` displays.
pub uninterp spec fn error_text(err: &globset::Error) -> Seq<char>;

/// `globset::Glob::new`: parses `glob` with the default options. For a glob
/// without a backslash the outcome is the same on every platform: the glob,
/// or the error that `glob_error` names.
#[verifier::external_body]
pub(crate) fn glob_new(glob: &str) -> (res: Result<globset::Glob, globset::Error>)
    ensures
        res matches Ok(g) ==> glob_source(&g) == glob@,
        portable(glob@) ==> match res {
            Ok(_) => glob_error(glob@) is None,
            Err(e) => glob_error(glob@) == Some(error_text(&e)),
        },
{
    globset::Glob::new(glob)
}

/// `<globset::Error as ToString>::to_string`: the text that the error
/// displays.
#[verifier::external_body]
pub(crate) fn glob_error_text(err: &globset::Error) -> (text: String)
    ensures
        text@ == error_text(err),
{
    err.to_string()
}

/// `globset::GlobSetBuilder::new`: a builder that holds no glob.
#[verifier::external_body]
pub(crate) fn builder_new() -> (builder: globset::GlobSetBuilder)
    ensures
        builder_globs(&builder) == Seq::<Seq<char>>::empty(),
{
    globset::GlobSetBuilder::new()
}

/// `globset::GlobSetBuilder::add`: the builder holds `glob` after the globs
/// it held.
#[verifier::external_body]
pub(crate) fn builder_add(builder: &mut globset::GlobSetBuilder, glob: globset::Glob)
    ensures
        builder_globs(final(builder)) == builder_globs(old(builder)).push(glob_source(&glob)),
{
    builder.add(glob);
}

/// `globset::GlobSetBuilder::build`: a set of the globs that the builder
/// holds. A builder without globs always gives the empty set. For globs
/// without a backslash the outcome is the same on every platform: the set,
/// or the error that `set_error` names.
#[verifier::external_body]
pub(crate) fn builder_build(builder: &globset::GlobSetBuilder) -> (res: Result<
    globset::GlobSet,
    globset::Error,
>)
    ensures
        res matches Ok(set) ==> set_globs(&set) == builder_globs(builder),
        builder_globs(builder).len() == 0 ==> res is Ok,
        all_portable(builder_globs(builder)) ==> match res {
            Ok(_) => set_error(builder_globs(builder)) is None,
            Err(e) => set_error(builder_globs(builder)) == Some(error_text(&e)),
        },
{
    builder.build()
}

/// `globset::GlobSet::is_match`: whether any glob of the set matches `path`.
/// For globs and a path without a backslash the answer is the same on every
/// platform.
#[verifier::external_body]
pub(crate) fn set_is_match(set: &globset::GlobSet, path: &str) -> (found: bool)
    ensures
        set_globs(set).len() == 0 ==> !found,
        all_portable(set_globs(set)) && portable(path@) ==> (found <==> (exists|i: int|
            0 <= i < set_globs(set).len() && glob_matches(#[trigger] set_globs(set)[i], path@))),
{
    set.is_match(path)
}

/// Whether any of `globs` matches `path`.
pub open spec fn any_glob_matches(globs: Seq<Seq<char>>, path: Seq<char>) -> bool {
    exists|i: int| 0 <= i < globs.len() && glob_matches(#[trigger] globs[i], path)
}

/// Whether a pattern is a negation, which is passed over.
pub open spec fn is_negation(pattern: Seq<char>) -> bool {
    pattern.len() > 0 && pattern[0] == '!'
}

/// The glob that stands for a gitignore pattern: a directory pattern takes
/// everything below it, an anchored pattern loses its leading slash, and any
/// other pattern may begin in any directory.
pub open spec fn glob_of(pattern: Seq<char>) -> Seq<char> {
    if pattern.len() > 0 && pattern.last() == '/' {
        pattern + seq!['*', '*']
    } else if pattern.len() > 0 && pattern[0] == '/' {
        pattern.subrange(1, pattern.len() as int)
    } else {
        seq!['*', '*', '/'] + pattern
    }
}

/// The globs of a list of patterns, negations left out, in order.
pub open spec fn globs_of(patterns: Seq<Seq<char>>) -> Seq<Seq<char>>
    decreases patterns.len(),
{
    if patterns.len() == 0 {
        Seq::empty()
    } else if is_negation(patterns.last()) {
        globs_of(patterns.drop_last())
    } else {
        globs_of(patterns.drop_last()).push(glob_of(patterns.last()))
    }
}

/// Whether a pattern gives a glob that does not parse.
pub open spec fn pattern_fails(pattern: Seq<char>) -> bool {
    !is_negation(pattern) && glob_error(glob_of(pattern)) is Some
}

/// Whether none of the first `n` patterns fails.
pub open spec fn none_fails(patterns: Seq<Seq<char>>, n: int) -> bool {
    forall|k: int| 0 <= k < n ==> !pattern_fails(#[trigger] patterns[k])
}

/// The message for a pattern whose glob does not parse.
pub open spec fn invalid_pattern_message(pattern: Seq<char>, reason: Seq<char>) -> Seq<char> {
    "Invalid pattern '"@ + pattern + "': "@ + reason
}

/// The message for a list of globs that does not build.
pub open spec fn build_failure_message(reason: Seq<char>) -> Seq<char> {
    "Failed to build pattern set: "@ + reason
}


/// Whether the patterns ignore `path`: some glob of theirs matches it, or,
/// for a directory, matches it with a slash after it.
pub open spec fn ignores(patterns: Seq<Seq<char>>, path: Seq<char>, as_dir: bool) -> bool {
    any_glob_matches(globs_of(patterns), path) || (as_dir && any_glob_matches(
        globs_of(patterns),
        path.push('/'),
    ))
}

/// What stops the globs of `patterns` from being built: nothing, or the
/// message of the error.
pub open spec fn build_failure(patterns: Seq<Seq<char>>, message: Seq<char>) -> bool {
    ||| exists|k: int|
        0 <= k < patterns.len() && none_fails(patterns, k) && pattern_fails(
            #[trigger] patterns[k],
        ) && message == invalid_pattern_message(
            patterns[k],
            glob_error(glob_of(patterns[k]))->Some_0,
        )
    ||| none_fails(patterns, patterns.len() as int) && set_error(globs_of(patterns)) is Some
        && message == build_failure_message(set_error(globs_of(patterns))->Some_0)
}

/// Whether the patterns can be built into a set.
pub open spec fn builds(patterns: Seq<Seq<char>>) -> bool {
    none_fails(patterns, patterns.len() as int) && set_error(globs_of(patterns)) is None
}

/// Whether `res` is the answer to matching `path` against `patterns`.
pub open spec fn is_match_result(
    res: Result<bool, TreewalkError>,
    patterns: Seq<Seq<char>>,
    path: Seq<char>,
    as_dir: bool,
) -> bool {
    match res {
        Ok(found) => builds(patterns) && found == ignores(patterns, path, as_dir),
        Err(TreewalkError::InvalidPath(message)) => build_failure(patterns, message@),
        Err(TreewalkError::IoError(_)) => false,
    }
}

/// Whether `res` is what building the globs of `patterns` gives: the set of
/// all the globs, or the message for the first pattern that fails, or the
/// message for what the set objects to.
pub open spec fn is_built(
    res: Result<globset::GlobSet, TreewalkError>,
    patterns: Seq<Seq<char>>,
) -> bool {
    match res {
        Ok(set) => set_globs(&set) == globs_of(patterns) && builds(patterns),
        Err(TreewalkError::InvalidPath(message)) => build_failure(patterns, message@),
        Err(TreewalkError::IoError(_)) => false,
    }
}
/// The globs of portable patterns are portable.
pub proof fn lemma_globs_portable(patterns: Seq<Seq<char>>)
    requires
        all_portable(patterns),
    ensures
        all_portable(globs_of(patterns)),
    decreases patterns.len(),
{
    if patterns.len() > 0 {
        let front = patterns.drop_last();
        assert forall|i: int| 0 <= i < front.len() implies portable(#[trigger] front[i]) by {
            assert(front[i] == patterns[i]);
        }
        lemma_globs_portable(front);
        assert(portable(patterns.last()));
        assert(portable(glob_of(patterns.last())));
    }
}

/// The glob pattern that stands for a gitignore pattern.
pub fn glob_pattern(pattern: &str) -> (glob: String)
    ensures
        glob@ == glob_of(pattern@),
{
    let n = pattern.unicode_len();
    if n > 0 && pattern.get_char(n - 1) == '/' {
        let mut glob = String::from_str(pattern);
        proof {
            reveal_strlit("**");
            assert("**"@ =~= seq!['*', '*']);
        }
        glob.append("**");
        glob
    } else if n > 0 && pattern.get_char(0) == '/' {
        String::from_str(pattern.substring_char(1, n))
    } else {
        let mut glob = String::from_str("**/");
        proof {
            reveal_strlit("**/");
            assert("**/"@ =~= seq!['*', '*', '/']);
        }
        glob.append(pattern);
        glob
    }
}

/// The lines of a text: the pieces between its newlines, the last one
/// included even where it is empty.
pub open spec fn lines_of(text: Seq<char>) -> Seq<Seq<char>>
    decreases text.len(),
{
    if text.len() == 0 {
        seq![Seq::empty()]
    } else {
        let before = lines_of(text.drop_last());
        if text.last() == '\n' {
            before.push(Seq::empty())
        } else {
            before.drop_last().push(before.last().push(text.last()))
        }
    }
}

/// A text has at least one line.
pub proof fn lemma_lines_nonempty(text: Seq<char>)
    ensures
        lines_of(text).len() > 0,
    decreases text.len(),
{
    if text.len() > 0 {
        lemma_lines_nonempty(text.drop_last());
    }
}

/// Takes one more line: where its trimmed form is a pattern, the pattern
/// joins the list.
fn push_line(patterns: &mut Vec<String>, line: &str)
    ensures
        final(patterns)@.map_values(|p: String| p@) == if is_pattern_line(trimmed(line@)) {
            old(patterns)@.map_values(|p: String| p@).push(trimmed(line@))
        } else {
            old(patterns)@.map_values(|p: String| p@)
        },
{
    let bare = trim(line);
    let ghost views = patterns@.map_values(|p: String| p@);
    if bare.unicode_len() > 0 && bare.get_char(0) != '#' {
        patterns.push(String::from_str(bare));
        assert(patterns@.map_values(|p: String| p@) =~= views.push(bare@));
    }
}

/// A list of gitignore-style patterns.
#[derive(Debug, Clone, Default)]
pub struct IgnoreSpec {
    patterns: Vec<String>,
}

impl View for IgnoreSpec {
    type V = Seq<Seq<char>>;

    /// The patterns, oldest first.
    closed spec fn view(&self) -> Seq<Seq<char>> {
        self.patterns@.map_values(|p: String| p@)
    }
}

impl IgnoreSpec {
    /// Create a new empty IgnoreSpec.
    pub fn new() -> (spec: IgnoreSpec)
        ensures
            spec@ == Seq::<Seq<char>>::empty(),
    {
        let spec = IgnoreSpec { patterns: Vec::new() };
        assert(spec@ =~= Seq::<Seq<char>>::empty());
        spec
    }

    /// Parse gitignore-style patterns from lines. Every list of lines is
    /// accepted.
    pub fn from_lines(lines: Vec<&str>) -> (res: Result<IgnoreSpec, TreewalkError>)
        ensures
            res is Ok,
            res->Ok_0@ == patterns_of(lines@.map_values(|l: &str| l@)),
    {
        let ghost all = lines@.map_values(|l: &str| l@);
        let mut patterns: Vec<String> = Vec::new();
        let mut i: usize = 0;
        assert(all.subrange(0, 0) =~= Seq::<Seq<char>>::empty());
        while i < lines.len()
            invariant
                i <= lines@.len(),
                all == lines@.map_values(|l: &str| l@),
                patterns@.map_values(|p: String| p@) == patterns_of(all.subrange(0, i as int)),
            decreases lines@.len() - i,
        {
            proof {
                let upto = all.subrange(0, i + 1);
                assert(upto.drop_last() =~= all.subrange(0, i as int));
                assert(upto.last() == lines@[i as int]@);
            }
            push_line(&mut patterns, lines[i]);
            i = i + 1;
        }
        assert(all.subrange(0, all.len() as int) =~= all);
        Ok(IgnoreSpec { patterns })
    }

    /// Parse gitignore-style patterns from the text of an ignore file, one
    /// pattern to a line.
    pub fn from_text(text: &str) -> (spec: IgnoreSpec)
        ensures
            spec@ == patterns_of(lines_of(text@)),
    {
        let mut patterns: Vec<String> = Vec::new();
        let mut current = String::new();
        for c in it: text.chars()
            invariant
                it.seq() == text@,
                lines_of(text@.subrange(0, it.index() as int)).len() > 0,
                current@ == lines_of(text@.subrange(0, it.index() as int)).last(),
                patterns@.map_values(|p: String| p@) == patterns_of(
                    lines_of(text@.subrange(0, it.index() as int)).drop_last(),
                ),
        {
            proof {
                let upto = text@.subrange(0, it.index() + 1);
                assert(upto.drop_last() =~= text@.subrange(0, it.index() as int));
                assert(upto.last() == c);
                lemma_lines_nonempty(upto);
                let before = lines_of(upto.drop_last());
                if c == '\n' {
                    assert(lines_of(upto).drop_last() =~= before);
                    assert(before.drop_last().push(before.last()) =~= before);
                } else {
                    assert(lines_of(upto).drop_last() =~= before.drop_last());
                }
            }
            if c == '\n' {
                push_line(&mut patterns, current.as_str());
                current = String::new();
            } else {
                current.push(c);
            }
        }
        proof {
            assert(text@.subrange(0, text@.len() as int) =~= text@);
            let all = lines_of(text@);
            assert(all.drop_last().push(all.last()) =~= all);
        }
        push_line(&mut patterns, current.as_str());
        IgnoreSpec { patterns }
    }

    /// Combine two IgnoreSpec instances: the patterns of `self`, then those
    /// of `other`.
    pub fn combine(&self, other: &IgnoreSpec) -> (both: IgnoreSpec)
        ensures
            both@ == self@ + other@,
    {
        let mut patterns: Vec<String> = Vec::new();
        let mut i: usize = 0;
        while i < self.patterns.len()
            invariant
                i <= self.patterns@.len(),
                patterns@.map_values(|p: String| p@) == self@.subrange(0, i as int),
            decreases self.patterns@.len() - i,
        {
            patterns.push(self.patterns[i].clone());
            assert(patterns@.map_values(|p: String| p@) =~= self@.subrange(0, i as int).push(
                self@[i as int],
            ));
            assert(self@.subrange(0, i + 1) =~= self@.subrange(0, i as int).push(self@[i as int]));
            i = i + 1;
        }
        assert(self@.subrange(0, self@.len() as int) =~= self@);
        let mut j: usize = 0;
        while j < other.patterns.len()
            invariant
                j <= other.patterns@.len(),
                patterns@.map_values(|p: String| p@) == self@ + other@.subrange(0, j as int),
            decreases other.patterns@.len() - j,
        {
            let ghost before = patterns@.map_values(|p: String| p@);
            patterns.push(other.patterns[j].clone());
            assert(patterns@.map_values(|p: String| p@) =~= before.push(other@[j as int]));
            assert(self@ + other@.subrange(0, j + 1) =~= (self@ + other@.subrange(
                0,
                j as int,
            )).push(other@[j as int]));
            j = j + 1;
        }
        assert(other@.subrange(0, other@.len() as int) =~= other@);
        IgnoreSpec { patterns }
    }

    /// Build the set of globs of the accumulated patterns.
    fn build_globset(&self) -> (res: Result<globset::GlobSet, TreewalkError>)
        ensures
            self@.len() == 0 ==> res is Ok,
            res matches Ok(set) ==> set_globs(&set) == globs_of(self@),
            res matches Err(e) ==> e is InvalidPath,
            all_portable(self@) ==> is_built(res, self@),
    {
        let mut builder = builder_new();
        let mut i: usize = 0;
        assert(self@.subrange(0, 0) =~= Seq::<Seq<char>>::empty());
        while i < self.patterns.len()
            invariant
                i <= self.patterns@.len(),
                builder_globs(&builder) == globs_of(self@.subrange(0, i as int)),
                all_portable(self@) ==> none_fails(self@, i as int),
            decreases self.patterns@.len() - i,
        {
            let pattern = self.patterns[i].as_str();
            proof {
                let upto = self@.subrange(0, i + 1);
                assert(upto.drop_last() =~= self@.subrange(0, i as int));
                assert(upto.last() == pattern@);
                assert(self@[i as int] == pattern@);
            }
            if !(pattern.unicode_len() > 0 && pattern.get_char(0) == '!') {
                let glob_text = glob_pattern(pattern);
                match glob_new(glob_text.as_str()) {
                    Ok(glob) => {
                        builder_add(&mut builder, glob);
                    },
                    Err(e) => {
                        let mut message = String::from_str("Invalid pattern '");
                        message.append(pattern);
                        message.append("': ");
                        message.append(glob_error_text(&e).as_str());
                        return Err(TreewalkError::InvalidPath(message));
                    },
                }
            }
            i = i + 1;
        }
        assert(self@.subrange(0, self@.len() as int) =~= self@);
        proof {
            if all_portable(self@) {
                lemma_globs_portable(self@);
            }
        }
        match builder_build(&builder) {
            Ok(set) => Ok(set),
            Err(e) => {
                let mut message = String::from_str("Failed to build pattern set: ");
                message.append(glob_error_text(&e).as_str());
                Err(TreewalkError::InvalidPath(message))
            },
        }
    }

    /// Check if a path matches any ignore pattern.
    pub fn matches(&self, path: &str) -> (res: Result<bool, TreewalkError>)
        ensures
            self@.len() == 0 ==> res == Ok::<bool, TreewalkError>(false),
            res matches Err(e) ==> e is InvalidPath,
            all_portable(self@) && portable(path@) ==> is_match_result(res, self@, path@, false),
    {
        proof {
            if all_portable(self@) {
                lemma_globs_portable(self@);
            }
        }
        match self.build_globset() {
            Ok(set) => Ok(set_is_match(&set, path)),
            Err(e) => Err(e),
        }
    }

    /// Check if a path matches as a directory: with a trailing slash, or as
    /// it is.
    pub fn matches_dir(&self, path: &str) -> (res: Result<bool, TreewalkError>)
        ensures
            self@.len() == 0 ==> res == Ok::<bool, TreewalkError>(false),
            res matches Err(e) ==> e is InvalidPath,
            all_portable(self@) && portable(path@) ==> is_match_result(res, self@, path@, true),
    {
        proof {
            if all_portable(self@) {
                lemma_globs_portable(self@);
            }
        }
        match self.build_globset() {
            Ok(set) => {
                let mut dir_path = String::from_str(path);
                proof {
                    assert(portable(path@) ==> portable(path@.push('/')));
                    reveal_strlit("/");
                    assert("/"@ =~= seq!['/']);
                    assert(path@ + seq!['/'] =~= path@.push('/'));
                }
                dir_path.append("/");
                Ok(set_is_match(&set, dir_path.as_str()) || set_is_match(&set, path))
            },
            Err(e) => Err(e),
        }
    }

    /// A second list with the same patterns.
    pub fn fork(&self) -> (copy: IgnoreSpec)
        ensures
            copy@ == self@,
    {
        let copy = self.combine(&IgnoreSpec::new());
        assert(self@ + Seq::<Seq<char>>::empty() =~= self@);
        copy
    }

    /// The patterns, oldest first.
    pub fn patterns(&self) -> (p: &Vec<String>)
        ensures
            p@.map_values(|s: String| s@) == self@,
    {
        &self.patterns
    }
}

/// What a directory entry is, as the contracts see it.
pub struct EntryView {
    pub name: Seq<char>,
    pub path: Seq<char>,
    pub is_dir: bool,
    pub is_file: bool,
}

/// Represents a directory entry with type information.
#[derive(Debug, Clone)]
pub struct DirEntry {
    pub name: String,
    pub path: String,
    pub is_dir: bool,
    pub is_file: bool,
}

impl View for DirEntry {
    type V = EntryView;

    open spec fn view(&self) -> EntryView {
        EntryView {
            name: self.name@,
            path: self.path@,
            is_dir: self.is_dir,
            is_file: self.is_file,
        }
    }
}

/// What was found under one name when a directory was read.
#[derive(Debug, Clone)]
pub struct FoundEntry {
    pub name: String,
    pub is_dir: bool,
    pub is_file: bool,
    pub is_symlink: bool,
}

/// The views of a list of entries.
pub open spec fn entry_views(entries: Seq<DirEntry>) -> Seq<EntryView> {
    entries.map_values(|e: DirEntry| e@)
}

/// Whether a listing is in the order of its names.
pub open spec fn is_sorted(listing: Seq<EntryView>) -> bool {
    forall|i: int, j: int|
        0 <= i < j < listing.len() ==> name_order(
            (#[trigger] listing[i]).name,
            (#[trigger] listing[j]).name,
        ) <= 0
}

/// The path of `name` inside the directory `dir`.
pub open spec fn joined_path(dir: Seq<char>, name: Seq<char>) -> Seq<char> {
    if dir.len() == 0 || dir.last() == '/' {
        dir + name
    } else {
        dir + seq!['/'] + name
    }
}

/// The entries of a directory that a walk looks at: everything found but the
/// symlinks, in the order it was found.
pub open spec fn kept_entries(dir: Seq<char>, found: Seq<FoundEntry>) -> Seq<EntryView>
    decreases found.len(),
{
    if found.len() == 0 {
        Seq::empty()
    } else {
        let before = kept_entries(dir, found.drop_last());
        let f = found.last();
        if f.is_symlink {
            before
        } else {
            before.push(
                EntryView {
                    name: f.name@,
                    path: joined_path(dir, f.name@),
                    is_dir: f.is_dir,
                    is_file: f.is_file,
                },
            )
        }
    }
}

/// The path of `name` inside the directory `dir`.
pub fn join_path(dir: &str, name: &str) -> (path: String)
    ensures
        path@ == joined_path(dir@, name@),
{
    let n = dir.unicode_len();
    let mut path = String::from_str(dir);
    if !(n == 0 || dir.get_char(n - 1) == '/') {
        proof {
            reveal_strlit("/");
            assert("/"@ =~= seq!['/']);
        }
        path.append("/");
    }
    path.append(name);
    path
}

/// List directory entries with deterministic cross-platform sorting: what
/// was found in `dir`, without the symlinks, sorted by NFC-normalized name
/// with the name itself as tie-breaker.
pub fn listdir(dir: &str, found: &Vec<FoundEntry>) -> (listing: Vec<DirEntry>)
    ensures
        is_sorted(entry_views(listing@)),
        entry_views(listing@).to_multiset() == kept_entries(dir@, found@).to_multiset(),
{
    let mut entries: Vec<DirEntry> = Vec::new();
    let mut i: usize = 0;
    assert(found@.subrange(0, 0) =~= Seq::<FoundEntry>::empty());
    assert(entry_views(entries@) =~= Seq::<EntryView>::empty());
    while i < found.len()
        invariant
            i <= found@.len(),
            entry_views(entries@) == kept_entries(dir@, found@.subrange(0, i as int)),
        decreases found@.len() - i,
    {
        proof {
            let upto = found@.subrange(0, i + 1);
            assert(upto.drop_last() =~= found@.subrange(0, i as int));
            assert(upto.last() == found@[i as int]);
        }
        let f = &found[i];
        if !f.is_symlink {
            let ghost before = entry_views(entries@);
            let entry = DirEntry {
                name: f.name.clone(),
                path: join_path(dir, f.name.as_str()),
                is_dir: f.is_dir,
                is_file: f.is_file,
            };
            entries.push(entry);
            assert(entry_views(entries@) =~= before.push(entry@));
        }
        i = i + 1;
    }
    assert(found@.subrange(0, found@.len() as int) =~= found@);
    sort_entries(&mut entries);
    entries
}

/// Whether `res` is the refusal of a path that is no directory, or the walk
/// that `expected` describes.
pub open spec fn is_start(
    res: Result<Walk, TreewalkError>,
    path: Seq<char>,
    kind: PathKind,
    expected: WalkView,
) -> bool {
    match kind {
        PathKind::Missing => res matches Err(TreewalkError::IoError(err)) && io_error_parts(&err)
            == (IoKind::NotFound, "Path does not exist: "@ + path),
        PathKind::NotDirectory => res matches Err(TreewalkError::IoError(err))
            && io_error_parts(&err) == (
            IoKind::InvalidInput,
            "Path is not a directory: "@ + path,
        ),
        PathKind::Directory => res matches Ok(walk) && walk@ == expected,
    }
}

/// Refuses a path that is no directory.
fn check_root(path: &str, kind: PathKind) -> (res: Result<(), TreewalkError>)
    ensures
        match kind {
            PathKind::Missing => res matches Err(TreewalkError::IoError(err))
                && io_error_parts(&err) == (IoKind::NotFound, "Path does not exist: "@ + path@),
            PathKind::NotDirectory => res matches Err(TreewalkError::IoError(err))
                && io_error_parts(&err) == (
                IoKind::InvalidInput,
                "Path is not a directory: "@ + path@,
            ),
            PathKind::Directory => res is Ok,
        },
{
    match kind {
        PathKind::Missing => {
            let mut message = String::from_str("Path does not exist: ");
            message.append(path);
            Err(TreewalkError::IoError(new_io_error(IoKind::NotFound, message.as_str())))
        },
        PathKind::NotDirectory => {
            let mut message = String::from_str("Path is not a directory: ");
            message.append(path);
            Err(TreewalkError::IoError(new_io_error(IoKind::InvalidInput, message.as_str())))
        },
        PathKind::Directory => Ok(()),
    }
}

/// Starts a walk of the directory tree at `path` with deterministic
/// ordering. A path that does not exist or is no directory is refused. The
/// walk yields, for each directory, its ignore files, then its other files,
/// and then walks its subdirectories in order.
pub fn treewalk(path: &str, kind: PathKind) -> (res: Result<Walk, TreewalkError>)
    ensures
        is_start(
            res,
            path@,
            kind,
            WalkView {
                filtering: false,
                queue: seq![PendingView { path: path@, rel: None, patterns: Seq::empty() }],
                yielded: Seq::empty(),
            },
        ),
{
    match check_root(path, kind) {
        Ok(()) => Ok(Walk::start(path, false, "", None, IgnoreSpec::new())),
        Err(e) => Err(e),
    }
}

/// Starts a walk of the directory tree at `path` that respects ignore
/// files. The patterns of `ignore_spec` hold from the start; each directory
/// adds those of its file named `ignore_file_name`. Paths are matched below
/// `root_path`, which is `path` itself where none is given.
pub fn treewalk_ignore(
    path: &str,
    kind: PathKind,
    ignore_file_name: &str,
    root_path: Option<&str>,
    ignore_spec: Option<&IgnoreSpec>,
) -> (res: Result<Walk, TreewalkError>)
    ensures
        is_start(
            res,
            path@,
            kind,
            WalkView {
                filtering: true,
                queue: seq![
                    PendingView {
                        path: path@,
                        rel: relative(
                            path@,
                            match root_path {
                                Some(root) => root@,
                                None => path@,
                            },
                        ),
                        patterns: match ignore_spec {
                            Some(spec) => spec@,
                            None => Seq::empty(),
                        },
                    },
                ],
                yielded: Seq::empty(),
            },
        ),
        res matches Ok(walk) ==> walk.ignore_name() == ignore_file_name@,
{
    match check_root(path, kind) {
        Ok(()) => {
            let root = match root_path {
                Some(root) => root,
                None => path,
            };
            let rel = relative_to(path, root);
            let spec = match ignore_spec {
                Some(spec) => spec.fork(),
                None => IgnoreSpec::new(),
            };
            Ok(Walk::start(path, true, ignore_file_name, rel, spec))
        },
        Err(e) => Err(e),
    }
}

} // verus!
