//! Words of a command.

use crate::text;
use vstd::prelude::*;

verus! {

/// How far a command has been read: the words that have ended, the word that has
/// not, and the quotes that are open.
pub struct ReadView {
    pub words: Seq<Seq<char>>,
    pub word: Seq<char>,
    pub single: bool,
    pub double: bool,
}

/// A command of which nothing has been read.
pub open spec fn unread() -> ReadView {
    ReadView { words: seq![], word: seq![], single: false, double: false }
}

/// The words that there are, with the one that has not ended, unless that is
/// empty.
pub open spec fn all_words(read: ReadView) -> Seq<Seq<char>> {
    if read.word.len() == 0 {
        read.words
    } else {
        read.words.push(read.word)
    }
}

/// A command after one more character: a quote opens or closes, white space
/// outside quotes ends the word, and all else belongs to it.
pub open spec fn read_char(read: ReadView, c: char) -> ReadView {
    if c == '\'' && !read.double {
        ReadView { single: !read.single, ..read }
    } else if c == '"' && !read.single {
        ReadView { double: !read.double, ..read }
    } else if text::is_space(c) && !read.single && !read.double {
        ReadView { words: all_words(read), word: seq![], ..read }
    } else {
        ReadView { word: read.word.push(c), ..read }
    }
}

/// A command after more characters.
pub open spec fn read_chars(read: ReadView, cs: Seq<char>) -> ReadView
    decreases cs.len(),
{
    if cs.len() == 0 {
        read
    } else {
        read_char(read_chars(read, cs.drop_last()), cs.last())
    }
}

/// The words of a command, without the quotes round them.
pub open spec fn words(command: Seq<char>) -> Seq<Seq<char>> {
    all_words(read_chars(unread(), command))
}

/// The words of a command, without the quotes round them.
pub fn split_shell_args(command: &str) -> (r: Vec<String>)
    ensures
        r.deep_view() == words(command@),
{
    let cs = text::chars_of(command);
    let mut tokens: Vec<String> = Vec::new();
    let mut current = String::new();
    let mut in_single_quote = false;
    let mut in_double_quote = false;
    assert(tokens.deep_view() =~= seq![]);
    assert(current@ =~= seq![]);
    for i in 0..cs.len()
        invariant
            read_chars(unread(), cs@.take(i as int)) == (ReadView {
                words: tokens.deep_view(),
                word: current@,
                single: in_single_quote,
                double: in_double_quote,
            }),
    {
        assert(cs@.take(i + 1).drop_last() =~= cs@.take(i as int));
        assert(cs@.take(i + 1).last() == cs@[i as int]);
        let c = cs[i];
        if c == '\'' && !in_double_quote {
            in_single_quote = !in_single_quote;
        } else if c == '"' && !in_single_quote {
            in_double_quote = !in_double_quote;
        } else if text::is_whitespace(c) && !in_single_quote && !in_double_quote {
            if !current.as_str().is_empty() {
                let ghost before = tokens.deep_view();
                let ghost word = current@;
                tokens.push(current);
                assert(tokens.deep_view() =~= before.push(word));
                current = String::new();
            }
            assert(current@ =~= seq![]);
        } else {
            current.push(c);
        }
    }
    assert(cs@.take(cs@.len() as int) =~= cs@);
    if !current.as_str().is_empty() {
        let ghost before = tokens.deep_view();
        let ghost word = current@;
        tokens.push(current);
        assert(tokens.deep_view() =~= before.push(word));
    }
    tokens
}

} // verus!
