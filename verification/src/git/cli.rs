//! The provider that asks the `git` command-line tool.
//!
//! Running `git` is left to the caller. This module says which commands to
//! run, and reads what they print.

use std::convert::Infallible;
use std::string::FromUtf8Error;
use vstd::prelude::*;
use vstd::string::{StrSliceExecFns, StringExecFns};
use vstd::utf8::{decode_utf8, valid_utf8};
use crate::git::RefResult;
use crate::text::chars_of;

verus! {

/// The error of [`String::from_utf8`].
#[verifier::external_type_specification]
#[verifier::external_body]
pub struct ExFromUtf8Error(FromUtf8Error);

/// [`String::from_utf8`] accepts exactly the byte sequences that are UTF-8,
/// and returns the characters that they encode.
pub assume_specification[ String::from_utf8 ](vec: Vec<u8>) -> (res: Result<String, FromUtf8Error>)
    ensures
        res is Ok <==> valid_utf8(vec@),
        res matches Ok(text) ==> text@ == decode_utf8(vec@),
;

/// A text without the whitespace at its start and at its end, where
/// whitespace is what Unicode's property `White_Space` says it is.
pub uninterp spec fn trimmed(text: Seq<char>) -> Seq<char>;

/// [`str::trim`] returns the text without its leading and trailing
/// whitespace.
pub assume_specification[ str::trim ](text: &str) -> (out: &str)
    ensures
        out@ == trimmed(text@),
;

/// What a finished `git` process left behind.
pub struct ProcessOutput {
    /// The exit code, or `None` where a signal ended the process.
    pub code: Option<i32>,
    /// What the process wrote to its standard output.
    pub stdout: Vec<u8>,
}

/// What came of running a command: its output, or the reason why it could
/// not be run.
pub type ProcessResult = Result<ProcessOutput, String>;

/// The command ran, ended with the exit code 0, and printed text.
pub open spec fn succeeded(result: ProcessResult) -> bool {
    result matches Ok(output) && output.code == Some(0i32) && valid_utf8(output.stdout@)
}

/// The text that a command printed.
pub open spec fn printed(result: ProcessResult) -> Seq<char>
    recommends
        succeeded(result),
{
    decode_utf8(result->Ok_0.stdout@)
}

/// Why the output of a command gave no lines.
#[derive(Debug)]
pub enum StdoutLinesError {
    /// The command could not be run.
    FailedToSpawnSubprocess { message: String },
    /// The command ended with another exit code than 0.
    NonZeroExitStatus { code: Option<i32> },
    /// The command printed something that is no text.
    StdoutNotUtf8 { source: FromUtf8Error },
}

/// The error `e` is the one that a command with the result `result` gives:
/// that it could not be run, else that it ended with another exit code than
/// 0, else that it printed what is no text.
pub open spec fn is_lines_error(result: ProcessResult, e: StdoutLinesError) -> bool {
    match result {
        Err(message) => e == (StdoutLinesError::FailedToSpawnSubprocess { message }),
        Ok(output) => if output.code != Some(0i32) {
            e == (StdoutLinesError::NonZeroExitStatus { code: output.code })
        } else {
            !valid_utf8(output.stdout@) && e is StdoutNotUtf8
        },
    }
}

/// Which of the two commands of a listing failed, and why.
#[derive(Debug)]
pub enum QueryInitErrorKind {
    /// The command that shows the current branch.
    ShowCurrentBranch { source: StdoutLinesError },
    /// The command that lists the branches.
    ListBranches { source: StdoutLinesError },
}

/// Why the local references could not be listed.
#[derive(Debug)]
pub struct QueryInitError {
    pub kind: QueryInitErrorKind,
}

impl From<QueryInitErrorKind> for QueryInitError {
    fn from(kind: QueryInitErrorKind) -> (e: QueryInitError) {
        QueryInitError { kind }
    }
}

impl vstd::std_specs::convert::FromSpecImpl<QueryInitErrorKind> for QueryInitError {
    open spec fn obeys_from_spec() -> bool {
        true
    }

    open spec fn from_spec(kind: QueryInitErrorKind) -> QueryInitError {
        QueryInitError { kind }
    }
}

/// Where the line that begins at `from` ends: at the next newline, or at
/// the end of the text.
pub open spec fn line_end(text: Seq<char>, from: int) -> int
    decreases text.len() - from,
{
    if 0 <= from < text.len() && text[from] != '\n' {
        line_end(text, from + 1)
    } else {
        from
    }
}

/// A line ends at or after its start and within the text.
pub proof fn lemma_line_end(text: Seq<char>, from: int)
    requires
        0 <= from <= text.len(),
    ensures
        from <= line_end(text, from) <= text.len(),
    decreases text.len() - from,
{
    if from < text.len() && text[from] != '\n' {
        lemma_line_end(text, from + 1);
    }
}

/// The lines of `text` from position `from` on. A newline ends a line and
/// is no part of it; after the last newline no empty line follows.
pub open spec fn lines_from(text: Seq<char>, from: int) -> Seq<Seq<char>>
    decreases text.len() - from,
    when 0 <= from
{
    if from >= text.len() {
        Seq::empty()
    } else {
        let end = line_end(text, from);
        proof {
            lemma_line_end(text, from);
        }
        seq![text.subrange(from, end)] + if end < text.len() {
            lines_from(text, end + 1)
        } else {
            Seq::empty()
        }
    }
}

/// The lines of a text.
pub open spec fn lines_of(text: Seq<char>) -> Seq<Seq<char>> {
    lines_from(text, 0)
}

/// The lines of a command's output, each without the whitespace around it.
pub open spec fn trimmed_lines(text: Seq<char>) -> Seq<Seq<char>> {
    Seq::new(lines_of(text).len(), |i: int| trimmed(lines_of(text)[i]))
}

/// The views of a sequence of strings.
pub open spec fn string_views(strings: Seq<String>) -> Seq<Seq<char>> {
    Seq::new(strings.len(), |i: int| strings[i]@)
}

/// Splits a text into its lines.
pub fn split_lines(text: &str) -> (lines: Vec<String>)
    ensures
        string_views(lines@) == lines_of(text@),
{
    let chars = chars_of(text);
    let mut lines: Vec<String> = Vec::new();
    let mut from: usize = 0;
    while from < chars.len()
        invariant
            chars@ == text@,
            from <= chars.len(),
            lines_of(text@) == string_views(lines@) + lines_from(text@, from as int),
        decreases chars.len() - from,
    {
        let mut end = from;
        while end < chars.len() && chars[end] != '\n'
            invariant
                from <= end <= chars.len(),
                line_end(chars@, from as int) == line_end(chars@, end as int),
            decreases chars.len() - end,
        {
            end += 1;
        }
        let line = text.substring_char(from, end).to_owned();
        let ghost rest = if end < chars.len() {
            lines_from(text@, end + 1)
        } else {
            Seq::empty()
        };
        lines.push(line);
        if end < chars.len() {
            from = end + 1;
        } else {
            from = end;
        }
    }
    lines
}

/// Reads the output of a command as lines of text, each without the
/// whitespace around it. A command that could not be run, ended with
/// another exit code than 0, or printed what is no text, gives an error.
pub fn stdout_lines(result: ProcessResult) -> (res: Result<Vec<String>, StdoutLinesError>)
    ensures
        res is Ok <==> succeeded(result),
        res matches Ok(lines) ==> string_views(lines@) == trimmed_lines(printed(result)),
        res matches Err(e) ==> is_lines_error(result, e),
{
    let output = match result {
        Ok(output) => output,
        Err(message) => {
            return Err(StdoutLinesError::FailedToSpawnSubprocess { message });
        },
    };
    let ProcessOutput { code, stdout } = output;
    match code {
        Some(0) => {},
        _ => {
            return Err(StdoutLinesError::NonZeroExitStatus { code });
        },
    }
    let text = match String::from_utf8(stdout) {
        Ok(text) => text,
        Err(source) => {
            return Err(StdoutLinesError::StdoutNotUtf8 { source });
        },
    };
    let lines = split_lines(text.as_str());
    let mut out: Vec<String> = Vec::new();
    let mut i: usize = 0;
    while i < lines.len()
        invariant
            i <= lines.len(),
            out.len() == i,
            forall|k: int| 0 <= k < i ==> (#[trigger] out[k])@ == trimmed(lines[k]@),
        decreases lines.len() - i,
    {
        out.push(lines[i].as_str().trim().to_owned());
        i += 1;
    }
    Ok(out)
}

/// The format that `git branch --list` is asked to print each branch in:
/// the branch's short name; where `HEAD` is detached, the line that stands
/// for `HEAD` reads `HEAD`.
pub open spec fn branch_format(head_is_detached: bool) -> Seq<char> {
    if head_is_detached {
        "--format=%(if)%(HEAD)%(then)HEAD%(else)%(refname:short)%(end)"@
    } else {
        "--format=%(refname:short)"@
    }
}

/// The local branches that a listing found, handed out one at a time.
pub struct QueryIterator {
    branches: Vec<String>,
    /// How many of them have been handed out.
    taken: usize,
}

impl QueryIterator {
    #[verifier::type_invariant]
    spec fn wf(&self) -> bool {
        self.taken <= self.branches.len()
    }

    /// The names that are still to come.
    pub closed spec fn remaining(&self) -> Seq<Seq<char>> {
        string_views(self.branches@).skip(self.taken as int)
    }

    fn new(branches: Vec<String>) -> (iter: QueryIterator)
        ensures
            iter.remaining() == string_views(branches@),
    {
        QueryIterator { branches, taken: 0 }
    }

    /// Hands out the next name, or `None` once all have been handed out.
    pub fn next(&mut self) -> (item: Option<RefResult<Infallible>>)
        ensures
            old(self).remaining().len() == 0 ==> item is None && final(self).remaining() == old(
                self,
            ).remaining(),
            old(self).remaining().len() > 0 ==> {
                &&& item matches Some(Ok(name))
                &&& name@ == old(self).remaining().first()
                &&& final(self).remaining() == old(self).remaining().drop_first()
            },
    {
        proof {
            use_type_invariant(&*self);
        }
        if self.taken < self.branches.len() {
            let name = self.branches[self.taken].clone();
            self.taken += 1;
            Some(Ok(name))
        } else {
            None
        }
    }
}

/// The provider backed by the `git` command-line tool.
pub struct GitCli {
    _no_pub_ctor: (),
}

impl GitCli {
    pub fn new() -> (cli: GitCli) {
        GitCli { _no_pub_ctor: () }
    }

    /// The arguments of the `git` command that prints the current branch,
    /// and nothing where `HEAD` is detached.
    pub fn show_current_command(&self) -> (args: Vec<String>)
        ensures
            string_views(args@) == seq!["branch"@, "--show-current"@],
    {
        let mut args: Vec<String> = Vec::new();
        args.push(String::from_str("branch"));
        args.push(String::from_str("--show-current"));
        args
    }

    /// Reads what the command of [`GitCli::show_current_command`] printed,
    /// and gives the arguments of the `git` command that lists the local
    /// branches. `HEAD` is detached where the first command printed no
    /// line.
    pub fn list_command(&self, shown: ProcessResult) -> (res: Result<Vec<String>, QueryInitError>)
        ensures
            res is Ok <==> succeeded(shown),
            res matches Ok(args) ==> string_views(args@) == seq![
                "branch"@,
                "--list"@,
                branch_format(lines_of(printed(shown)).len() == 0),
            ],
            res matches Err(e) ==> e.kind matches QueryInitErrorKind::ShowCurrentBranch { source }
                && is_lines_error(shown, source),
    {
        let lines = match stdout_lines(shown) {
            Ok(lines) => lines,
            Err(source) => {
                return Err(QueryInitError::from(QueryInitErrorKind::ShowCurrentBranch { source }));
            },
        };
        let head_is_detached = lines.len() == 0;
        let mut format = String::from_str("--format=");
        if head_is_detached {
            format.append("%(if)%(HEAD)%(then)HEAD%(else)");
        }
        format.append("%(refname:short)");
        if head_is_detached {
            format.append("%(end)");
        }
        proof {
            reveal_strlit("--format=");
            reveal_strlit("%(if)%(HEAD)%(then)HEAD%(else)");
            reveal_strlit("%(refname:short)");
            reveal_strlit("%(end)");
            reveal_strlit("--format=%(if)%(HEAD)%(then)HEAD%(else)%(refname:short)%(end)");
            reveal_strlit("--format=%(refname:short)");
            assert(format@ =~= branch_format(head_is_detached));
            assert(string_views(lines@).len() == lines.len());
        }
        let mut args: Vec<String> = Vec::new();
        args.push(String::from_str("branch"));
        args.push(String::from_str("--list"));
        args.push(format);
        Ok(args)
    }

    /// Reads what the command of [`GitCli::list_command`] printed: the
    /// local branches, one on each line.
    pub fn listed(&self, listed: ProcessResult) -> (res: Result<QueryIterator, QueryInitError>)
        ensures
            res is Ok <==> succeeded(listed),
            res matches Ok(iter) ==> iter.remaining() == trimmed_lines(printed(listed)),
            res matches Err(e) ==> e.kind matches QueryInitErrorKind::ListBranches { source }
                && is_lines_error(listed, source),
    {
        match stdout_lines(listed) {
            Ok(branches) => Ok(QueryIterator::new(branches)),
            Err(source) => Err(QueryInitError::from(QueryInitErrorKind::ListBranches { source })),
        }
    }
}

} // verus!
