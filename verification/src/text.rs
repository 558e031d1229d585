//! Character classes of the query language, and maximal runs of them.

use vstd::prelude::*;
use vstd::std_specs::iter::IteratorSpec;

verus! {

/// One of `a` to `z` and `A` to `Z`.
pub open spec fn is_ascii_letter(c: char) -> bool {
    ('a' <= c && c <= 'z') || ('A' <= c && c <= 'Z')
}

/// One of `0` to `9`.
pub open spec fn is_ascii_digit(c: char) -> bool {
    '0' <= c && c <= '9'
}

/// A printable ASCII character other than the space: a letter, a digit or a
/// punctuation mark.
pub open spec fn is_ascii_graphic(c: char) -> bool {
    '!' <= c && c <= '~'
}

/// The classes of characters that the tokenizer reads in runs.
#[derive(Clone, Copy, Debug, PartialEq, Eq, Structural)]
pub enum CharClass {
    /// A space or a tab.
    InlineSpace,
    /// A letter, a digit or an underscore: what an identifier continues with.
    Word,
    /// What may stand between double quotes: any printable ASCII character
    /// but the space and the double quote itself.
    Quoted,
    /// A letter, a digit, or one of `/`, `-`, `_`: what an unquoted
    /// reference name is made of.
    Path,
}

impl CharClass {
    pub open spec fn contains(self, c: char) -> bool {
        match self {
            CharClass::InlineSpace => c == ' ' || c == '\t',
            CharClass::Word => is_ascii_letter(c) || is_ascii_digit(c) || c == '_',
            CharClass::Quoted => is_ascii_graphic(c) && c != '"',
            CharClass::Path => is_ascii_letter(c) || is_ascii_digit(c) || c == '/' || c == '-'
                || c == '_',
        }
    }

    pub fn has(self, c: char) -> (b: bool)
        ensures
            b == self.contains(c),
    {
        let letter = (c >= 'a' && c <= 'z') || (c >= 'A' && c <= 'Z');
        let digit = c >= '0' && c <= '9';
        match self {
            CharClass::InlineSpace => c == ' ' || c == '\t',
            CharClass::Word => letter || digit || c == '_',
            CharClass::Quoted => c >= '!' && c <= '~' && c != '"',
            CharClass::Path => letter || digit || c == '/' || c == '-' || c == '_',
        }
    }
}

/// A character that can begin an identifier: a letter or an underscore.
pub open spec fn is_ident_start(c: char) -> bool {
    is_ascii_letter(c) || c == '_'
}

/// Where the maximal run of `class` characters that begins at `from` ends:
/// the first position at or after `from` that holds no character of the
/// class, or the length of the text.
pub open spec fn run_end(text: Seq<char>, from: int, class: CharClass) -> int
    decreases text.len() - from,
{
    if 0 <= from < text.len() && class.contains(text[from]) {
        run_end(text, from + 1, class)
    } else {
        from
    }
}

/// A run ends at or after its start and within the text, holds only
/// characters of the class, and cannot be extended.
pub proof fn lemma_run_end(text: Seq<char>, from: int, class: CharClass)
    requires
        0 <= from <= text.len(),
    ensures
        from <= run_end(text, from, class) <= text.len(),
        forall|k: int| from <= k < run_end(text, from, class) ==> class.contains(#[trigger] text[k]),
        run_end(text, from, class) < text.len() ==> !class.contains(
            text[run_end(text, from, class)],
        ),
    decreases text.len() - from,
{
    if from < text.len() && class.contains(text[from]) {
        lemma_run_end(text, from + 1, class);
    }
}

/// Finds the end of the run of `class` characters that begins at `from`.
pub fn scan_run(chars: &Vec<char>, from: usize, class: CharClass) -> (end: usize)
    ensures
        end == run_end(chars@, from as int, class),
        from <= end,
        from <= chars.len() ==> end <= chars.len(),
{
    let mut end: usize = from;
    while end < chars.len() && class.has(chars[end])
        invariant
            from <= end,
            from <= chars.len() ==> end <= chars.len(),
            run_end(chars@, from as int, class) == run_end(chars@, end as int, class),
        decreases chars.len() - end,
    {
        end += 1;
    }
    end
}

/// The characters of `s`, in order.
pub fn chars_of(s: &str) -> (chars: Vec<char>)
    ensures
        chars@ == s@,
{
    let mut chars: Vec<char> = Vec::new();
    let it = s.chars();
    for c in iter: it
        invariant
            iter.seq() == s@,
            chars@ == s@.take(iter.index()),
    {
        chars.push(c);
    }
    chars
}

} // verus!
