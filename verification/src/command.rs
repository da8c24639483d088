//! A command line as a program and its arguments.
//!
//! The first word of a command line names the program, the words after it
//! are the arguments. A line without words stands for the fallback editor,
//! called without arguments.

use crate::tokens::{
    is_blank, is_word, lemma_tokens_of_blank, lemma_tokens_of_spaced, separates, spaced,
    split_whitespace, tokens,
};
use vstd::prelude::*;

verus! {

/// The editor that is taken where nothing else is named.
pub const FALLBACK_EDITOR: &'static str = "vi";

/// The name of the fallback editor, `vi`, as a sequence of characters.
pub open spec fn fallback_editor() -> Seq<char> {
    seq!['v', 'i']
}

/// The program that `command` names: its first word, or the fallback editor
/// where it has no words.
pub open spec fn program_of(command: Seq<char>) -> Seq<char> {
    if tokens(command).len() == 0 {
        fallback_editor()
    } else {
        tokens(command).first()
    }
}

/// The arguments that `command` hands to its program: its words but the
/// first, in order.
pub open spec fn arguments_of(command: Seq<char>) -> Seq<Seq<char>> {
    if tokens(command).len() == 0 {
        Seq::empty()
    } else {
        tokens(command).drop_first()
    }
}

/// `FALLBACK_EDITOR` spells the fallback editor.
pub proof fn lemma_fallback_editor()
    ensures
        FALLBACK_EDITOR@ == fallback_editor(),
{
    reveal_strlit("vi");
}

/// A command line put together from at least one word, with white space
/// between the words and any white space around them, names its first word
/// as the program and hands it the other words, each of them and in their
/// order.
pub proof fn lemma_parse_of_spaced(gaps: Seq<Seq<char>>, words: Seq<Seq<char>>)
    requires
        separates(gaps, words),
        forall|i: int| 0 <= i < words.len() ==> is_word(#[trigger] words[i]),
        words.len() >= 1,
    ensures
        program_of(spaced(gaps, words)) == words.first(),
        arguments_of(spaced(gaps, words)) == words.drop_first(),
        arguments_of(spaced(gaps, words)).len() == words.len() - 1,
{
    lemma_tokens_of_spaced(gaps, words);
}

/// An empty command line, or one of white space only, names the fallback
/// editor and hands it no argument.
pub proof fn lemma_parse_of_blank(command: Seq<char>)
    requires
        is_blank(command),
    ensures
        program_of(command) == fallback_editor(),
        arguments_of(command) == Seq::<Seq<char>>::empty(),
{
    lemma_tokens_of_blank(command);
}

/// Cuts `command` at its white space into the program and its arguments.
pub fn parse_command_program_with_args(command: &str) -> (parsed: (String, Vec<String>))
    ensures
        parsed.0@ == program_of(command@),
        parsed.1.deep_view() == arguments_of(command@),
{
    let mut words = split_whitespace(command);
    if words.len() == 0 {
        proof {
            lemma_fallback_editor();
        }
        (FALLBACK_EDITOR.to_string(), words)
    } else {
        let program = words.remove(0);
        (program, words)
    }
}

} // verus!
