//! Event types as atoms.
//!
//! The document keeps the type of an event as an interned string, an atom.

use crate::operation::Operation;
use stylo_atoms::Atom;
use vstd::prelude::*;

verus! {

/// The atom type of the `string_cache` crate, of which `stylo_atoms::Atom` is an
/// instance.
#[verifier::external_type_specification]
#[verifier::external_body]
#[verifier::reject_recursive_types(Static)]
pub struct ExAtom<Static>(string_cache::Atom<Static>);

/// The set of atoms that the `stylo_atoms` crate knows ahead of time.
#[verifier::external_type_specification]
#[verifier::external_body]
pub struct ExAtomStaticSet(stylo_atoms::AtomStaticSet);

/// The string that an atom holds.
pub uninterp spec fn atom_text(atom: Atom) -> Seq<char>;

/// Calls `Atom::from`, which interns a string: the atom holds that string.
#[verifier::external_body]
fn atom_from(text: String) -> (atom: Atom)
    ensures
        atom_text(atom) == text@,
{
    Atom::from(text)
}

/// The type of the event that an operation creates, where it creates one.
pub fn event_type(op: Operation<String>) -> (atom: Option<Atom>)
    ensures
        atom is Some <==> op@ is NewEvent,
        atom matches Some(a) ==> atom_text(a) == op@->NewEvent_0,
{
    match op {
        Operation::NewEvent(text) => Some(atom_from(text)),
        _ => None,
    }
}

}
