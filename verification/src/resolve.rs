//! Which command line the environment names as the editor.
//!
//! Two variables are asked, `VISUAL` before `EDITOR`. The first that is
//! present gives the command line. A lookup that fails, for a value that is
//! no valid text, ends the search with its error. Where neither variable is
//! present, the fallback editor is taken.

use crate::command::{
    arguments_of, fallback_editor, lemma_fallback_editor, parse_command_program_with_args,
    program_of, FALLBACK_EDITOR,
};
use vstd::prelude::*;

verus! {

/// The variable that is asked first.
pub const VISUAL: &'static str = "VISUAL";

/// The variable that is asked where the first is not set.
pub const EDITOR: &'static str = "EDITOR";

/// What asking the environment for one variable gave. `E` is the error of
/// a lookup that failed.
#[derive(Debug, Clone, PartialEq, Eq)]
pub enum Lookup<E> {
    /// The variable is set, to this value.
    Present(String),
    /// The variable is not set.
    NotPresent,
    /// The variable is set, but its value could not be had.
    Failed(E),
}

/// The command line that the two lookups name, or the error that ends the
/// search: `visual` decides unless it is not present, then `editor` decides
/// unless it is not present, then the fallback editor is taken.
pub open spec fn resolved<E>(visual: Lookup<E>, editor: Lookup<E>) -> Result<Seq<char>, E> {
    match visual {
        Lookup::Present(command) => Ok(command@),
        Lookup::Failed(error) => Err(error),
        Lookup::NotPresent => match editor {
            Lookup::Present(command) => Ok(command@),
            Lookup::Failed(error) => Err(error),
            Lookup::NotPresent => Ok(fallback_editor()),
        },
    }
}

/// Where `VISUAL` is set, its value is the command line, whatever the
/// lookup of `EDITOR` gave.
pub proof fn lemma_visual_decides<E>(visual: String, editor: Lookup<E>)
    ensures
        resolved(Lookup::Present(visual), editor) == Ok::<Seq<char>, E>(visual@),
{
}

/// Where `VISUAL` is not set and `EDITOR` is, the value of `EDITOR` is the
/// command line.
pub proof fn lemma_editor_decides<E>(editor: String)
    ensures
        resolved(Lookup::<E>::NotPresent, Lookup::Present(editor)) == Ok::<Seq<char>, E>(editor@),
{
}

/// Where neither variable is set, the command line is the fallback editor.
pub proof fn lemma_fallback_decides<E>()
    ensures
        resolved(Lookup::<E>::NotPresent, Lookup::NotPresent) == Ok::<Seq<char>, E>(
            fallback_editor(),
        ),
{
}

/// Where both variables are set, the command line is the value of
/// `VISUAL` alone: nothing of `EDITOR` enters it.
pub proof fn lemma_visual_before_editor<E>(visual: String, editor: String)
    ensures
        resolved(Lookup::<E>::Present(visual), Lookup::Present(editor)) == Ok::<Seq<char>, E>(
            visual@,
        ),
{
}

/// A failed lookup of `VISUAL` ends the search with its error, whatever
/// the lookup of `EDITOR` gave; a failed lookup of `EDITOR` does so where
/// `VISUAL` is not set.
pub proof fn lemma_failure_ends_search<E>(error: E, editor: Lookup<E>)
    ensures
        resolved(Lookup::Failed(error), editor) == Err::<Seq<char>, E>(error),
        resolved(Lookup::NotPresent, Lookup::Failed(error)) == Err::<Seq<char>, E>(error),
{
}

/// The command line of the editor, from what the lookups of `VISUAL` and
/// of `EDITOR` gave.
pub fn get_editor_command<E>(visual: Lookup<E>, editor: Lookup<E>) -> (result: Result<String, E>)
    ensures
        resolved(visual, editor) matches Ok(command) ==> (result matches Ok(found) && found@
            == command),
        resolved(visual, editor) matches Err(error) ==> result == Err::<String, E>(error),
{
    match visual {
        Lookup::Present(command) => return Ok(command),
        Lookup::NotPresent => {},
        Lookup::Failed(error) => return Err(error),
    }
    match editor {
        Lookup::Present(command) => return Ok(command),
        Lookup::NotPresent => {},
        Lookup::Failed(error) => return Err(error),
    }
    proof {
        lemma_fallback_editor();
    }
    Ok(FALLBACK_EDITOR.to_string())
}

/// The command line of the user's editor, as one string.
pub fn get<E>(visual: Lookup<E>, editor: Lookup<E>) -> (result: Result<String, E>)
    ensures
        resolved(visual, editor) matches Ok(command) ==> (result matches Ok(found) && found@
            == command),
        resolved(visual, editor) matches Err(error) ==> result == Err::<String, E>(error),
{
    match get_editor_command(visual, editor) {
        Ok(command) => Ok(command),
        Err(error) => Err(error),
    }
}

/// The user's editor as a program and the arguments to call it with.
pub fn get_with_args<E>(visual: Lookup<E>, editor: Lookup<E>) -> (result: Result<
    (String, Vec<String>),
    E,
>)
    ensures
        resolved(visual, editor) matches Ok(command) ==> (result matches Ok(parsed) && parsed.0@
            == program_of(command) && parsed.1.deep_view() == arguments_of(command)),
        resolved(visual, editor) matches Err(error) ==> result == Err::<(String, Vec<String>), E>(
            error,
        ),
{
    match get_editor_command(visual, editor) {
        Ok(command) => Ok(parse_command_program_with_args(command.as_str())),
        Err(error) => Err(error),
    }
}

} // verus!
