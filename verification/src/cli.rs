//! The command line surface of `isum`: which inputs a command names, and the
//! lines it prints.

use vstd::prelude::*;
use vstd::string::StringExecFns;

verus! {

/// Exit code of a run that failed.
pub const EXIT_ERROR: i32 = 1;

/// Size of the buffer through which inputs are read: 2 MiB.
pub const BUFFER_SIZE: usize = 2 * 1024 * 1024;

/// The arguments of a command.
#[derive(Debug, Clone)]
pub struct Cli {
    /// Files to process; standard input is read where there is none.
    pub files: Vec<String>,
    /// Whether the narrow form, 64 bits of each code, is asked for.
    pub narrow: bool,
}

/// One input of a command.
#[derive(Debug, Clone)]
pub enum Input {
    /// Standard input.
    Stdin,
    /// The file at this path.
    File(String),
}

/// What is at the path of an input file.
#[derive(Debug, Clone, Copy, PartialEq, Eq, Structural)]
pub enum FileKind {
    /// Nothing.
    Missing,
    /// A regular file.
    Regular,
    /// Something that is not a regular file.
    NotRegular,
}

/// The name under which an input is printed: a hyphen for standard input.
pub open spec fn input_name(input: Input) -> Seq<char> {
    match input {
        Input::Stdin => seq!['-'],
        Input::File(path) => path@,
    }
}

/// The line printed for an input: the token, a space, an asterisk and the
/// input's name.
pub open spec fn checksum_text(iscc: Seq<char>, input: Input) -> Seq<char> {
    iscc + seq![' ', '*'] + input_name(input)
}

/// The line printed for an error.
pub open spec fn error_text(message: Seq<char>) -> Seq<char> {
    seq!['i', 's', 'u', 'm', ':', ' '] + message
}

/// What is wrong with an input file, if anything.
pub open spec fn file_problem_text(path: Seq<char>, kind: FileKind) -> Option<Seq<char>> {
    match kind {
        FileKind::Missing => Some(path + ": No such file or directory"@),
        FileKind::NotRegular => Some(path + ": Is not a regular file"@),
        FileKind::Regular => None,
    }
}

/// The inputs of a command, in order: its files, or standard input where it
/// names none.
pub fn inputs(cli: &Cli) -> (list: Vec<Input>)
    ensures
        cli.files@.len() == 0 ==> list@.len() == 1 && list@[0] is Stdin,
        cli.files@.len() > 0 ==> list@.len() == cli.files@.len() && forall|i: int|
            0 <= i < list@.len() ==> (#[trigger] list@[i]) is File && list@[i]->File_0@
                == cli.files@[i]@,
{
    let mut list: Vec<Input> = Vec::new();
    if cli.files.len() == 0 {
        list.push(Input::Stdin);
        return list;
    }
    let mut i: usize = 0;
    while i < cli.files.len()
        invariant
            i <= cli.files@.len(),
            list@.len() == i,
            forall|k: int|
                0 <= k < i ==> (#[trigger] list@[k]) is File && list@[k]->File_0@
                    == cli.files@[k]@,
        decreases cli.files@.len() - i,
    {
        list.push(Input::File(cli.files[i].clone()));
        i = i + 1;
    }
    list
}

/// Whether the wide form is computed: it is unless the narrow one is asked
/// for.
pub fn wide_form(cli: &Cli) -> (wide: bool)
    ensures
        wide == !cli.narrow,
{
    !cli.narrow
}

/// What is wrong with an input file, if anything.
pub fn file_problem(path: &str, kind: FileKind) -> (problem: Option<String>)
    ensures
        match problem {
            Some(text) => file_problem_text(path@, kind) == Some(text@),
            None => file_problem_text(path@, kind) is None,
        },
{
    match kind {
        FileKind::Missing => {
            let mut text = String::from_str(path);
            text.append(": No such file or directory");
            Some(text)
        },
        FileKind::NotRegular => {
            let mut text = String::from_str(path);
            text.append(": Is not a regular file");
            Some(text)
        },
        FileKind::Regular => None,
    }
}

/// The line printed for an input.
pub fn checksum_line(iscc: &str, input: &Input) -> (line: String)
    ensures
        line@ == checksum_text(iscc@, *input),
{
    let mut line = String::from_str(iscc);
    proof {
        reveal_strlit(" *");
        reveal_strlit("-");
        assert(" *"@ =~= seq![' ', '*']);
        assert("-"@ =~= seq!['-']);
    }
    line.append(" *");
    match input {
        Input::Stdin => {
            line.append("-");
        },
        Input::File(path) => {
            line.append(path.as_str());
        },
    }
    line
}

/// The line printed for an error.
pub fn error_line(message: &str) -> (line: String)
    ensures
        line@ == error_text(message@),
{
    let mut line = String::from_str("isum: ");
    proof {
        reveal_strlit("isum: ");
        assert("isum: "@ =~= seq!['i', 's', 'u', 'm', ':', ' ']);
    }
    line.append(message);
    line
}

} // verus!
