//! The decisions of a tree walk, one directory at a time.
//!
//! A walk keeps the directories it still has to read and the file paths it
//! has yielded. Whoever drives it reads the directory that the walk names and
//! hands in the listing; the walk yields the ignore files of that directory,
//! then its other files, and puts its subdirectories first in line.

use vstd::prelude::*;
use vstd::string::StringExecFns;
use crate::treewalk::{
    all_portable, build_failure, builds, entry_views, ignores, join_path, joined_path,
    lines_of, patterns_of, portable, DirEntry, EntryView, IgnoreSpec, TreewalkError,
};

verus! {

/// What a walk does with a directory entry.
#[derive(Debug, Clone, Copy, PartialEq, Eq, Structural)]
pub enum EntryClass {
    /// A directory: the walk descends into it.
    Directory,
    /// A file whose name starts with a dot and ends in `ignore`: yielded
    /// before the other files.
    IgnoreFile,
    /// Any other file.
    RegularFile,
    /// Neither a file nor a directory: passed over.
    Neither,
}

/// Whether `s` ends in `suffix`.
pub open spec fn has_suffix(s: Seq<char>, suffix: Seq<char>) -> bool {
    s.len() >= suffix.len() && s.subrange(s.len() - suffix.len(), s.len() as int) == suffix
}

/// Whether a file of this name is an ignore file.
pub open spec fn is_ignore_file_name(name: Seq<char>) -> bool {
    name.len() > 0 && name[0] == '.' && has_suffix(name, seq!['i', 'g', 'n', 'o', 'r', 'e'])
}

/// The class of an entry.
pub open spec fn class_of(e: EntryView) -> EntryClass {
    if e.is_dir {
        EntryClass::Directory
    } else if e.is_file {
        if is_ignore_file_name(e.name) {
            EntryClass::IgnoreFile
        } else {
            EntryClass::RegularFile
        }
    } else {
        EntryClass::Neither
    }
}

/// The characters of a string.
pub fn chars_of(text: &str) -> (chars: Vec<char>)
    ensures
        chars@ == text@,
{
    let mut chars: Vec<char> = Vec::new();
    for c in it: text.chars()
        invariant
            it.seq() == text@,
            chars@ == text@.subrange(0, it.index() as int),
    {
        assert(text@.subrange(0, it.index() + 1) =~= text@.subrange(0, it.index() as int).push(c));
        chars.push(c);
    }
    assert(text@.subrange(0, text@.len() as int) =~= text@);
    chars
}

/// Whether a file of this name is an ignore file.
pub fn ignore_file_name(name: &str) -> (b: bool)
    ensures
        b == is_ignore_file_name(name@),
{
    let chars = chars_of(name);
    let n = chars.len();
    if n < 6 || chars[0] != '.' {
        return false;
    }
    let b = chars[n - 6] == 'i' && chars[n - 5] == 'g' && chars[n - 4] == 'n' && chars[n - 3]
        == 'o' && chars[n - 2] == 'r' && chars[n - 1] == 'e';
    proof {
        let tail = name@.subrange(n - 6, n as int);
        let word = seq!['i', 'g', 'n', 'o', 'r', 'e'];
        if b {
            assert(tail =~= word);
        } else {
            assert(tail[0] == name@[n - 6] && tail[1] == name@[n - 5] && tail[2] == name@[n - 4]
                && tail[3] == name@[n - 3] && tail[4] == name@[n - 2] && tail[5] == name@[n
                - 1]);
            assert(word[0] == 'i' && word[1] == 'g' && word[2] == 'n' && word[3] == 'o'
                && word[4] == 'r' && word[5] == 'e');
        }
    }
    b
}

/// The class of an entry.
pub fn classify(entry: &DirEntry) -> (class: EntryClass)
    ensures
        class == class_of(entry@),
{
    if entry.is_dir {
        EntryClass::Directory
    } else if entry.is_file {
        if ignore_file_name(entry.name.as_str()) {
            EntryClass::IgnoreFile
        } else {
            EntryClass::RegularFile
        }
    } else {
        EntryClass::Neither
    }
}

/// The path of `path` below `root`: empty where they are the same path, the
/// rest of `path` where it lies below `root`, nothing where it does not.
pub open spec fn relative(path: Seq<char>, root: Seq<char>) -> Option<Seq<char>> {
    if !root.is_prefix_of(path) {
        None
    } else if root.len() == path.len() {
        Some(Seq::empty())
    } else if root.len() == 0 || root.last() == '/' {
        Some(path.skip(root.len() as int))
    } else if path[root.len() as int] == '/' {
        Some(path.skip(root.len() as int + 1))
    } else {
        None
    }
}

/// The path of `path` below `root`.
pub fn relative_to(path: &str, root: &str) -> (rel: Option<String>)
    ensures
        match rel {
            Some(r) => relative(path@, root@) == Some(r@),
            None => relative(path@, root@) is None,
        },
{
    let p = chars_of(path);
    let r = chars_of(root);
    if r.len() > p.len() {
        return None;
    }
    let mut i: usize = 0;
    while i < r.len()
        invariant
            i <= r@.len() <= p@.len(),
            p@ == path@,
            r@ == root@,
            forall|k: int| 0 <= k < i ==> r@[k] == p@[k],
        decreases r@.len() - i,
    {
        if r[i] != p[i] {
            assert(p@.subrange(0, r@.len() as int)[i as int] != r@[i as int]);
            assert(!r@.is_prefix_of(p@));
            return None;
        }
        i = i + 1;
    }
    assert(r@ =~= p@.subrange(0, r@.len() as int));
    let start = if r.len() == p.len() {
        p.len()
    } else if r.len() == 0 || r[r.len() - 1] == '/' {
        r.len()
    } else if p[r.len()] == '/' {
        r.len() + 1
    } else {
        return None;
    };
    let mut rest = String::new();
    let mut j: usize = start;
    assert(p@.subrange(start as int, start as int) =~= Seq::<char>::empty());
    while j < p.len()
        invariant
            start <= j <= p@.len(),
            rest@ == p@.subrange(start as int, j as int),
        decreases p@.len() - j,
    {
        rest.push(p[j]);
        assert(p@.subrange(start as int, j + 1) =~= p@.subrange(start as int, j as int).push(
            p@[j as int],
        ));
        j = j + 1;
    }
    assert(p@.subrange(start as int, p@.len() as int) =~= p@.skip(start as int));
    assert(p@.skip(p@.len() as int) =~= Seq::<char>::empty());
    Some(rest)
}

/// Whether a walk lets an entry of class `class` through: it has that class
/// and, where the walk filters, the patterns do not ignore its path below
/// the root, `rel` being the path of its directory there.
pub open spec fn lets_through(
    e: EntryView,
    class: EntryClass,
    rel: Seq<char>,
    patterns: Seq<Seq<char>>,
    filtering: bool,
) -> bool {
    class_of(e) == class && (!filtering || !ignores(
        patterns,
        joined_path(rel, e.name),
        class == EntryClass::Directory,
    ))
}

/// The places, among the first `n` of a listing, of the entries that a walk
/// lets through as `class`, in the order of the listing.
pub open spec fn selected(
    listing: Seq<EntryView>,
    n: nat,
    class: EntryClass,
    rel: Seq<char>,
    patterns: Seq<Seq<char>>,
    filtering: bool,
) -> Seq<int>
    decreases n,
{
    if n == 0 {
        Seq::empty()
    } else {
        let before = selected(listing, (n - 1) as nat, class, rel, patterns, filtering);
        if lets_through(listing[n - 1], class, rel, patterns, filtering) {
            before.push(n - 1)
        } else {
            before
        }
    }
}

/// Whether one of the first `n` entries of a listing has class `class`.
pub open spec fn has_class(listing: Seq<EntryView>, n: nat, class: EntryClass) -> bool {
    exists|i: int| 0 <= i < n && class_of(#[trigger] listing[i]) == class
}

/// Whether the paths below the root of the entries of class `class` hold no
/// backslash.
pub open spec fn class_portable(listing: Seq<EntryView>, class: EntryClass, rel: Seq<char>) -> bool {
    forall|i: int|
        0 <= i < listing.len() && class_of(#[trigger] listing[i]) == class ==> portable(
            joined_path(rel, listing[i].name),
        )
}

/// The place of the first of the first `n` entries of a listing that has
/// class `class`, or -1 where none has.
pub open spec fn first_of_class(listing: Seq<EntryView>, n: nat, class: EntryClass) -> int
    decreases n,
{
    if n == 0 {
        -1
    } else {
        let before = first_of_class(listing, (n - 1) as nat, class);
        if before >= 0 {
            before
        } else if class_of(listing[n - 1]) == class {
            n - 1
        } else {
            -1
        }
    }
}

/// The first entry of a class is the one that no entry of the class comes
/// before; there is none exactly where no entry has the class.
pub proof fn lemma_first_of_class(listing: Seq<EntryView>, n: nat, class: EntryClass, i: int)
    requires
        n <= listing.len(),
    ensures
        !has_class(listing, n, class) ==> first_of_class(listing, n, class) == -1,
        0 <= i < n && class_of(listing[i]) == class && !has_class(listing, i as nat, class)
            ==> first_of_class(listing, n, class) == i,
    decreases n,
{
    if n > 0 {
        let m = (n - 1) as nat;
        lemma_first_of_class(listing, m, class, i);
        if !has_class(listing, n, class) {
            assert(!has_class(listing, m, class)) by {
                if has_class(listing, m, class) {
                    let w = choose|w: int| 0 <= w < m && class_of(#[trigger] listing[w]) == class;
                    assert(0 <= w < n);
                }
            }
            assert(class_of(listing[n - 1]) != class);
        }
        if 0 <= i < n && class_of(listing[i]) == class && !has_class(listing, i as nat, class) {
            if i == n - 1 {
                lemma_first_of_class(listing, m, class, -1);
            }
        }
    }
}

/// Where a listing holds an entry of a class, the first of them is in the
/// listing.
pub proof fn lemma_first_is_in_class(listing: Seq<EntryView>, n: nat, class: EntryClass)
    requires
        n <= listing.len(),
    ensures
        first_of_class(listing, n, class) == -1 || (0 <= first_of_class(listing, n, class) < n
            && class_of(listing[first_of_class(listing, n, class)]) == class),
        has_class(listing, n, class) ==> first_of_class(listing, n, class) >= 0,
    decreases n,
{
    if n > 0 {
        let m = (n - 1) as nat;
        lemma_first_is_in_class(listing, m, class);
        if has_class(listing, n, class) && first_of_class(listing, n, class) < 0 {
            let w = choose|w: int| 0 <= w < n && class_of(#[trigger] listing[w]) == class;
            assert(w < m);
            assert(has_class(listing, m, class));
        }
    }
}

/// The message for an entry whose path below the root is not known.
pub open spec fn relative_failure_message(path: Seq<char>) -> Seq<char> {
    "Failed to compute relative path for: "@ + path
}

/// The places of a selection as numbers.
pub open spec fn places(sel: Seq<usize>) -> Seq<int> {
    sel.map_values(|i: usize| i as int)
}

/// Selects the entries of one class that the walk lets through.
pub fn select(
    listing: &Vec<DirEntry>,
    class: EntryClass,
    rel: &Option<String>,
    spec: &IgnoreSpec,
    filtering: bool,
) -> (res: Result<Vec<usize>, TreewalkError>)
    ensures
        res matches Err(e) ==> e is InvalidPath && filtering && has_class(
            entry_views(listing@),
            listing@.len(),
            class,
        ),
        res matches Ok(sel) ==> forall|k: int|
            0 <= k < sel@.len() ==> (#[trigger] sel@[k]) < listing@.len(),
        !filtering ==> res is Ok && places(res->Ok_0@) == selected(
            entry_views(listing@),
            listing@.len(),
            class,
            Seq::empty(),
            spec@,
            false,
        ),
        filtering && !has_class(entry_views(listing@), listing@.len(), class) ==> res is Ok
            && res->Ok_0@.len() == 0,
        filtering && has_class(entry_views(listing@), listing@.len(), class) && rel is None
            ==> res is Err && res->Err_0.is_invalid_path(
            relative_failure_message(
                entry_views(listing@)[first_of_class(
                    entry_views(listing@),
                    listing@.len(),
                    class,
                )].path,
            ),
        ),
        filtering && rel is Some && all_portable(spec@) && class_portable(
            entry_views(listing@),
            class,
            rel->Some_0@,
        ) ==> match res {
            Ok(sel) => places(sel@) == selected(
                entry_views(listing@),
                listing@.len(),
                class,
                rel->Some_0@,
                spec@,
                true,
            ) && (has_class(entry_views(listing@), listing@.len(), class) ==> builds(spec@)),
            Err(TreewalkError::InvalidPath(m)) => build_failure(spec@, m@),
            Err(TreewalkError::IoError(_)) => false,
        },
{
    let ghost views = entry_views(listing@);
    let ghost r = match rel {
        Some(r) => r@,
        None => Seq::<char>::empty(),
    };
    let ghost exact = !filtering || (rel is Some && all_portable(spec@) && class_portable(
        views,
        class,
        r,
    ));
    let mut sel: Vec<usize> = Vec::new();
    let mut i: usize = 0;
    assert(places(sel@) =~= Seq::<int>::empty());
    while i < listing.len()
        invariant
            i <= listing@.len(),
            views == entry_views(listing@),
            r == match rel {
                Some(r) => r@,
                None => Seq::<char>::empty(),
            },
            exact == (!filtering || (rel is Some && all_portable(spec@) && class_portable(
                views,
                class,
                r,
            ))),
            forall|k: int| 0 <= k < sel@.len() ==> (#[trigger] sel@[k]) < i,
            filtering && !has_class(views, i as nat, class) ==> sel@.len() == 0,
            filtering && has_class(views, i as nat, class) ==> rel is Some,
            exact ==> places(sel@) == selected(
                views,
                i as nat,
                class,
                if filtering {
                    r
                } else {
                    Seq::empty()
                },
                spec@,
                filtering,
            ),
            exact && filtering && has_class(views, i as nat, class) ==> builds(spec@),
        decreases listing@.len() - i,
    {
        let entry = &listing[i];
        let ghost before = places(sel@);
        assert(views[i as int] == entry@);
        if classify(entry) == class {
            assert(has_class(views, (i + 1) as nat, class));
            if filtering {
                match rel {
                    None => {
                        let mut message = String::from_str("Failed to compute relative path for: ");
                        message.append(entry.path.as_str());
                        assert(has_class(views, listing@.len(), class));
                        proof {
                            lemma_first_of_class(views, listing@.len(), class, i as int);
                        }
                        return Err(TreewalkError::InvalidPath(message));
                    },
                    Some(dir_rel) => {
                        let path = join_path(dir_rel.as_str(), entry.name.as_str());
                        let answer = if class == EntryClass::Directory {
                            spec.matches_dir(path.as_str())
                        } else {
                            spec.matches(path.as_str())
                        };
                        match answer {
                            Ok(found) => {
                                if !found {
                                    sel.push(i);
                                    assert(places(sel@) =~= before.push(i as int));
                                }
                            },
                            Err(e) => {
                                assert(has_class(views, listing@.len(), class));
                                return Err(e);
                            },
                        }
                    },
                }
            } else {
                sel.push(i);
                assert(places(sel@) =~= before.push(i as int));
            }
        } else {
            assert(has_class(views, (i + 1) as nat, class) ==> has_class(views, i as nat, class))
                by {
                if has_class(views, (i + 1) as nat, class) {
                    let w = choose|w: int|
                        0 <= w < i + 1 && class_of(#[trigger] views[w]) == class;
                    assert(w < i);
                }
            }
        }
        assert(has_class(views, i as nat, class) ==> has_class(views, (i + 1) as nat, class)) by {
            if has_class(views, i as nat, class) {
                let w = choose|w: int| 0 <= w < i && class_of(#[trigger] views[w]) == class;
                assert(0 <= w < i + 1);
            }
        }
        i = i + 1;
    }
    Ok(sel)
}

/// A directory that a walk still has to read, as the contracts see it.
pub struct PendingView {
    /// The path of the directory.
    pub path: Seq<char>,
    /// Its path below the root of the ignore rules, where that is known.
    pub rel: Option<Seq<char>>,
    /// The patterns gathered on the way down to it.
    pub patterns: Seq<Seq<char>>,
}

/// A directory that a walk still has to read.
pub struct Pending {
    path: String,
    rel: Option<String>,
    spec: IgnoreSpec,
}

impl View for Pending {
    type V = PendingView;

    closed spec fn view(&self) -> PendingView {
        PendingView {
            path: self.path@,
            rel: match self.rel {
                Some(r) => Some(r@),
                None => None,
            },
            patterns: self.spec@,
        }
    }
}

/// A walk, as the contracts see it.
pub struct WalkView {
    /// Whether the walk filters by ignore patterns.
    pub filtering: bool,
    /// The directories still to read, the next one first.
    pub queue: Seq<PendingView>,
    /// The file paths yielded so far.
    pub yielded: Seq<Seq<char>>,
}

/// A tree walk in progress.
pub struct Walk {
    filtering: bool,
    ignore_file_name: String,
    stack: Vec<Pending>,
    yielded: Vec<String>,
}

impl View for Walk {
    type V = WalkView;

    closed spec fn view(&self) -> WalkView {
        WalkView {
            filtering: self.filtering,
            queue: Seq::new(self.stack@.len(), |i: int| self.stack@[self.stack@.len() - 1 - i]@),
            yielded: self.yielded@.map_values(|p: String| p@),
        }
    }
}

/// The text that was handed in, if any.
pub open spec fn text_of(text: Option<&str>) -> Option<Seq<char>> {
    match text {
        Some(t) => Some(t@),
        None => None,
    }
}

/// The patterns in force in a directory: those gathered above it and, where
/// the walk filters and the directory has an ignore file, those of the file
/// after them.
pub open spec fn patterns_in(
    filtering: bool,
    above: Seq<Seq<char>>,
    ignore_text: Option<Seq<char>>,
) -> Seq<Seq<char>> {
    match ignore_text {
        Some(text) if filtering => above + patterns_of(lines_of(text)),
        _ => above,
    }
}

/// The path below the root that a walk uses for the entries of a directory.
pub open spec fn rel_or_empty(rel: Option<Seq<char>>) -> Seq<char> {
    match rel {
        Some(r) => r,
        None => Seq::empty(),
    }
}

/// The subdirectory at place `i` of a listing, as a directory to read.
pub open spec fn descent(
    listing: Seq<EntryView>,
    i: int,
    filtering: bool,
    rel: Seq<char>,
    patterns: Seq<Seq<char>>,
) -> PendingView {
    PendingView {
        path: listing[i].path,
        rel: if filtering {
            Some(joined_path(rel, listing[i].name))
        } else {
            None
        },
        patterns,
    }
}

/// The walk after it has taken the listing of its next directory: the
/// ignore files and then the other files that it lets through are yielded,
/// and the subdirectories that it lets through are next in line, before the
/// directories that were waiting.
pub open spec fn visited(
    walk: WalkView,
    listing: Seq<EntryView>,
    ignore_text: Option<Seq<char>>,
) -> WalkView {
    let top = walk.queue[0];
    let patterns = patterns_in(walk.filtering, top.patterns, ignore_text);
    let rel = rel_or_empty(top.rel);
    let n = listing.len();
    let ignore_files = selected(listing, n, EntryClass::IgnoreFile, rel, patterns, walk.filtering);
    let files = selected(listing, n, EntryClass::RegularFile, rel, patterns, walk.filtering);
    let dirs = selected(listing, n, EntryClass::Directory, rel, patterns, walk.filtering);
    WalkView {
        filtering: walk.filtering,
        queue: dirs.map_values(|i: int| descent(listing, i, walk.filtering, rel, patterns))
            + walk.queue.drop_first(),
        yielded: walk.yielded + ignore_files.map_values(|i: int| listing[i].path)
            + files.map_values(|i: int| listing[i].path),
    }
}

/// Whether a listing holds anything that a walk decides on: a file or a
/// directory.
pub open spec fn has_candidate(listing: Seq<EntryView>) -> bool {
    has_class(listing, listing.len(), EntryClass::IgnoreFile) || has_class(
        listing,
        listing.len(),
        EntryClass::RegularFile,
    ) || has_class(listing, listing.len(), EntryClass::Directory)
}

/// The place of the entry that a walk decides on first: the first ignore
/// file, or else the first other file, or else the first directory; -1
/// where there is nothing to decide on.
pub open spec fn first_candidate(listing: Seq<EntryView>) -> int {
    let ignore_file = first_of_class(listing, listing.len(), EntryClass::IgnoreFile);
    let file = first_of_class(listing, listing.len(), EntryClass::RegularFile);
    if ignore_file >= 0 {
        ignore_file
    } else if file >= 0 {
        file
    } else {
        first_of_class(listing, listing.len(), EntryClass::Directory)
    }
}

/// Whether `e` is the error of a walk that cannot take a listing: the path
/// below the root of the first entry is not known, or the patterns do not
/// build.
pub open spec fn is_visit_error(
    e: TreewalkError,
    walk: WalkView,
    listing: Seq<EntryView>,
    ignore_text: Option<Seq<char>>,
) -> bool {
    let top = walk.queue[0];
    let patterns = patterns_in(walk.filtering, top.patterns, ignore_text);
    &&& walk.filtering
    &&& has_candidate(listing)
    &&& e is InvalidPath
    &&& top.rel is None ==> e.is_invalid_path(
        relative_failure_message(listing[first_candidate(listing)].path),
    )
    &&& top.rel is Some && decisions_portable(walk, listing, ignore_text) ==> build_failure(
        patterns,
        e->InvalidPath_0@,
    )
}

/// Whether the walk's decisions on a listing are the same on every
/// platform: it does not filter, or there is nothing to decide on, or no
/// pattern and no path below the root holds a backslash.
pub open spec fn decisions_portable(
    walk: WalkView,
    listing: Seq<EntryView>,
    ignore_text: Option<Seq<char>>,
) -> bool {
    let top = walk.queue[0];
    let patterns = patterns_in(walk.filtering, top.patterns, ignore_text);
    let rel = rel_or_empty(top.rel);
    ||| !walk.filtering
    ||| !has_candidate(listing)
    ||| {
        &&& all_portable(patterns)
        &&& class_portable(listing, EntryClass::IgnoreFile, rel)
        &&& class_portable(listing, EntryClass::RegularFile, rel)
        &&& class_portable(listing, EntryClass::Directory, rel)
    }
}

/// Whether a walk takes a listing without an error: it does not filter, or
/// there is nothing to decide on, or the path below the root is known and
/// the patterns build.
pub open spec fn visit_succeeds(
    walk: WalkView,
    listing: Seq<EntryView>,
    ignore_text: Option<Seq<char>>,
) -> bool {
    let top = walk.queue[0];
    let patterns = patterns_in(walk.filtering, top.patterns, ignore_text);
    ||| !walk.filtering
    ||| !has_candidate(listing)
    ||| top.rel is Some && builds(patterns)
}

/// Every place of a selection is a place of the listing, and has the class
/// that was selected.
pub proof fn lemma_selected_in_range(
    listing: Seq<EntryView>,
    n: nat,
    class: EntryClass,
    rel: Seq<char>,
    patterns: Seq<Seq<char>>,
    filtering: bool,
)
    requires
        n <= listing.len(),
    ensures
        forall|k: int|
            0 <= k < selected(listing, n, class, rel, patterns, filtering).len() ==> {
                let i = #[trigger] selected(listing, n, class, rel, patterns, filtering)[k];
                0 <= i < n && class_of(listing[i]) == class
            },
    decreases n,
{
    if n > 0 {
        lemma_selected_in_range(listing, (n - 1) as nat, class, rel, patterns, filtering);
    }
}

/// A selection of no class holds nothing.
pub proof fn lemma_selected_none(
    listing: Seq<EntryView>,
    n: nat,
    class: EntryClass,
    rel: Seq<char>,
    patterns: Seq<Seq<char>>,
    filtering: bool,
)
    requires
        n <= listing.len(),
        !has_class(listing, n, class),
    ensures
        selected(listing, n, class, rel, patterns, filtering).len() == 0,
    decreases n,
{
    if n > 0 {
        assert(!has_class(listing, (n - 1) as nat, class)) by {
            if has_class(listing, (n - 1) as nat, class) {
                let w = choose|w: int| 0 <= w < n - 1 && class_of(#[trigger] listing[w]) == class;
                assert(0 <= w < n);
            }
        }
        lemma_selected_none(listing, (n - 1) as nat, class, rel, patterns, filtering);
        assert(class_of(listing[n - 1]) != class);
    }
}

/// Where a walk does not filter, a selection does not depend on the path
/// below the root nor on the patterns.
pub proof fn lemma_selected_unfiltered(
    listing: Seq<EntryView>,
    n: nat,
    class: EntryClass,
    rel: Seq<char>,
    patterns: Seq<Seq<char>>,
    other_rel: Seq<char>,
    other_patterns: Seq<Seq<char>>,
)
    ensures
        selected(listing, n, class, rel, patterns, false) == selected(
            listing,
            n,
            class,
            other_rel,
            other_patterns,
            false,
        ),
    decreases n,
{
    if n > 0 {
        lemma_selected_unfiltered(
            listing,
            (n - 1) as nat,
            class,
            rel,
            patterns,
            other_rel,
            other_patterns,
        );
    }
}

impl Walk {
    /// A walk that has the one directory `path` to read.
    pub fn start(
        path: &str,
        filtering: bool,
        ignore_file_name: &str,
        rel: Option<String>,
        spec: IgnoreSpec,
    ) -> (walk: Walk)
        ensures
            walk@ == (WalkView {
                filtering,
                queue: seq![
                    PendingView {
                        path: path@,
                        rel: match rel {
                            Some(r) => Some(r@),
                            None => None,
                        },
                        patterns: spec@,
                    },
                ],
                yielded: Seq::empty(),
            }),
            walk.ignore_name() == ignore_file_name@,
    {
        let mut stack: Vec<Pending> = Vec::new();
        stack.push(Pending { path: String::from_str(path), rel, spec });
        let walk = Walk {
            filtering,
            ignore_file_name: String::from_str(ignore_file_name),
            stack,
            yielded: Vec::new(),
        };
        assert(walk@.queue =~= seq![walk.stack@[0]@]);
        assert(walk@.yielded =~= Seq::<Seq<char>>::empty());
        walk
    }

    /// The name of the ignore file that the walk was started with.
    pub closed spec fn ignore_name(&self) -> Seq<char> {
        self.ignore_file_name@
    }

    /// Whether the walk has read every directory.
    pub fn is_done(&self) -> (done: bool)
        ensures
            done == (self@.queue.len() == 0),
    {
        self.stack.len() == 0
    }

    /// The directory to read next.
    pub fn next_dir(&self) -> (dir: Option<String>)
        ensures
            match dir {
                Some(path) => self@.queue.len() > 0 && path@ == self@.queue[0].path,
                None => self@.queue.len() == 0,
            },
    {
        let n = self.stack.len();
        if n == 0 {
            None
        } else {
            Some(self.stack[n - 1].path.clone())
        }
    }

    /// The name of the file whose text the walk wants with each listing: the
    /// ignore file, where the walk filters.
    pub fn wanted_file(&self) -> (name: Option<String>)
        ensures
            match name {
                Some(n) => self@.filtering && n@ == self.ignore_name(),
                None => !self@.filtering,
            },
    {
        if self.filtering {
            Some(self.ignore_file_name.clone())
        } else {
            None
        }
    }

    /// The file paths yielded so far.
    pub fn paths(&self) -> (paths: &Vec<String>)
        ensures
            paths@.map_values(|p: String| p@) == self@.yielded,
    {
        &self.yielded
    }

    /// Ends the walk and gives the file paths it yielded.
    pub fn into_paths(self) -> (paths: Vec<String>)
        ensures
            paths@.map_values(|p: String| p@) == self@.yielded,
    {
        self.yielded
    }

    /// Takes the listing of the next directory and, where the walk filters,
    /// the text of the directory's ignore file if it has one. On an error
    /// the walk stays as it was.
    pub fn visit(&mut self, listing: &Vec<DirEntry>, ignore_text: Option<&str>) -> (res: Result<
        (),
        TreewalkError,
    >)
        requires
            old(self)@.queue.len() > 0,
        ensures
            final(self).ignore_name() == old(self).ignore_name(),
            res matches Err(e) ==> final(self)@ == old(self)@ && is_visit_error(
                e,
                old(self)@,
                entry_views(listing@),
                text_of(ignore_text),
            ),
            !visit_succeeds(
                old(self)@,
                entry_views(listing@),
                text_of(ignore_text),
            ) && decisions_portable(
                old(self)@,
                entry_views(listing@),
                text_of(ignore_text),
            ) ==> res is Err,
            res is Ok && decisions_portable(
                old(self)@,
                entry_views(listing@),
                text_of(ignore_text),
            ) ==> final(self)@ == visited(
                old(self)@,
                entry_views(listing@),
                text_of(ignore_text),
            ) && visit_succeeds(
                old(self)@,
                entry_views(listing@),
                text_of(ignore_text),
            ),
    {
        let ghost views = entry_views(listing@);
        let ghost text = text_of(ignore_text);
        let ghost before = self@;
        let ghost top_view = self@.queue[0];
        let n = self.stack.len();
        let top = &self.stack[n - 1];
        assert(top@ == top_view);
        let spec = match ignore_text {
            Some(t) if self.filtering => top.spec.combine(&IgnoreSpec::from_text(t)),
            _ => top.spec.fork(),
        };
        assert(spec@ == patterns_in(self.filtering, top_view.patterns, text));
        let ghost rel = rel_or_empty(top_view.rel);
        let filtering = self.filtering;
        proof {
            let len = listing@.len() as nat;
            lemma_first_of_class(views, len, EntryClass::IgnoreFile, -1);
            lemma_first_of_class(views, len, EntryClass::RegularFile, -1);
            lemma_first_of_class(views, len, EntryClass::Directory, -1);
            lemma_first_is_in_class(views, len, EntryClass::IgnoreFile);
            lemma_first_is_in_class(views, len, EntryClass::RegularFile);
            lemma_first_is_in_class(views, len, EntryClass::Directory);
        }
        let ignore_files = match select(listing, EntryClass::IgnoreFile, &top.rel, &spec, filtering) {
            Ok(sel) => sel,
            Err(e) => {
                return Err(e);
            },
        };
        let files = match select(listing, EntryClass::RegularFile, &top.rel, &spec, filtering) {
            Ok(sel) => sel,
            Err(e) => {
                return Err(e);
            },
        };
        let dirs = match select(listing, EntryClass::Directory, &top.rel, &spec, filtering) {
            Ok(sel) => sel,
            Err(e) => {
                return Err(e);
            },
        };
        let mut below: Vec<Pending> = Vec::new();
        let mut k: usize = dirs.len();
        while k > 0
            invariant
                k <= dirs@.len(),
                views == entry_views(listing@),
                forall|j: int| 0 <= j < dirs@.len() ==> (#[trigger] dirs@[j]) < listing@.len(),
                below@.len() == dirs@.len() - k,
                top@ == top_view,
                filtering && dirs@.len() > 0 ==> top_view.rel is Some,
                rel == rel_or_empty(top_view.rel),
                forall|j: int|
                    0 <= j < below@.len() ==> (#[trigger] below@[j])@ == descent(
                        views,
                        dirs@[dirs@.len() - 1 - j] as int,
                        filtering,
                        rel,
                        spec@,
                    ),
            decreases k,
        {
            k = k - 1;
            let entry = &listing[dirs[k]];
            assert(views[dirs@[k as int] as int] == entry@);
            let below_rel = match &top.rel {
                Some(r) if filtering => Some(join_path(r.as_str(), entry.name.as_str())),
                _ => None,
            };
            below.push(Pending { path: entry.path.clone(), rel: below_rel, spec: spec.fork() });
        }
        let ghost old_stack = self.stack@;
        let ghost old_yielded = self.yielded@.map_values(|p: String| p@);
        let ghost added = below@;
        let ghost name = self.ignore_file_name@;
        self.stack.pop();
        self.stack.append(&mut below);
        assert(self.stack@ =~= old_stack.drop_last() + added);
        let mut a: usize = 0;
        while a < ignore_files.len()
            invariant
                a <= ignore_files@.len(),
                views == entry_views(listing@),
                self.stack@ == old_stack.drop_last() + added,
                self.filtering == filtering,
                self.ignore_file_name@ == name,
                forall|j: int|
                    0 <= j < ignore_files@.len() ==> (#[trigger] ignore_files@[j]) < listing@.len(),
                self.yielded@.map_values(|p: String| p@) == old_yielded + places(
                    ignore_files@,
                ).subrange(0, a as int).map_values(|i: int| views[i].path),
            decreases ignore_files@.len() - a,
        {
            let ghost so_far = self.yielded@.map_values(|p: String| p@);
            let entry = &listing[ignore_files[a]];
            assert(views[ignore_files@[a as int] as int] == entry@);
            self.yielded.push(entry.path.clone());
            assert(self.yielded@.map_values(|p: String| p@) =~= so_far.push(entry.path@));
            assert(places(ignore_files@).subrange(0, a + 1).map_values(|i: int| views[i].path)
                =~= places(ignore_files@).subrange(0, a as int).map_values(
                |i: int| views[i].path,
            ).push(entry.path@));
            a = a + 1;
        }
        assert(places(ignore_files@).subrange(0, ignore_files@.len() as int) =~= places(
            ignore_files@,
        ));
        let ghost mid_yielded = self.yielded@.map_values(|p: String| p@);
        let mut b: usize = 0;
        while b < files.len()
            invariant
                b <= files@.len(),
                views == entry_views(listing@),
                self.stack@ == old_stack.drop_last() + added,
                self.filtering == filtering,
                self.ignore_file_name@ == name,
                forall|j: int| 0 <= j < files@.len() ==> (#[trigger] files@[j]) < listing@.len(),
                self.yielded@.map_values(|p: String| p@) == mid_yielded + places(
                    files@,
                ).subrange(0, b as int).map_values(|i: int| views[i].path),
            decreases files@.len() - b,
        {
            let ghost so_far = self.yielded@.map_values(|p: String| p@);
            let entry = &listing[files[b]];
            assert(views[files@[b as int] as int] == entry@);
            self.yielded.push(entry.path.clone());
            assert(self.yielded@.map_values(|p: String| p@) =~= so_far.push(entry.path@));
            assert(places(files@).subrange(0, b + 1).map_values(|i: int| views[i].path)
                =~= places(files@).subrange(0, b as int).map_values(|i: int| views[i].path).push(
                entry.path@,
            ));
            b = b + 1;
        }
        assert(places(files@).subrange(0, files@.len() as int) =~= places(files@));
        proof {
            let len = listing@.len() as nat;
            if decisions_portable(before, views, text) {
                if !filtering {
                    lemma_selected_unfiltered(views, len, EntryClass::IgnoreFile, Seq::empty(), spec@, rel, spec@);
                    lemma_selected_unfiltered(views, len, EntryClass::RegularFile, Seq::empty(), spec@, rel, spec@);
                    lemma_selected_unfiltered(views, len, EntryClass::Directory, Seq::empty(), spec@, rel, spec@);
                } else if !has_candidate(views) {
                    lemma_selected_none(views, len, EntryClass::IgnoreFile, rel, spec@, filtering);
                    lemma_selected_none(views, len, EntryClass::RegularFile, rel, spec@, filtering);
                    lemma_selected_none(views, len, EntryClass::Directory, rel, spec@, filtering);
                    assert(places(ignore_files@) =~= Seq::<int>::empty());
                    assert(places(files@) =~= Seq::<int>::empty());
                    assert(places(dirs@) =~= Seq::<int>::empty());
                }
                let want = visited(before, views, text);
                let d = selected(views, len, EntryClass::Directory, rel, spec@, filtering);
                assert(places(dirs@) == d);
                assert(self@.queue =~= want.queue) by {
                    assert(added.len() == d.len());
                    assert(before.queue.len() == old_stack.len());
                    assert(self.stack@.len() == old_stack.len() - 1 + d.len());
                    assert(want.queue.len() == d.len() + old_stack.len() - 1);
                    assert forall|q: int| 0 <= q < self@.queue.len() implies self@.queue[q]
                        == want.queue[q] by {
                        if q < d.len() {
                            assert(added[d.len() - 1 - q]@ == descent(
                                views,
                                dirs@[q] as int,
                                filtering,
                                rel,
                                spec@,
                            ));
                            assert(d[q] == dirs@[q] as int);
                        } else {
                            assert(before.queue.drop_first()[q - d.len()] == before.queue[q
                                - d.len() + 1]);
                            assert(self.stack@[self.stack@.len() - 1 - q] == old_stack[
                                old_stack.len() - 1 - (q - d.len() + 1)]);
                        }
                    }
                }
                assert(self@.yielded =~= want.yielded);
            }
        }
        Ok(())
    }
}

} // verus!
