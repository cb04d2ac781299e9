//! The OVSDB value algebra: atoms, sets of atoms and maps between atoms.
use vstd::prelude::*;
use crate::json::str_eq;
use crate::uuid_text::Uuid;

verus! {

/// The mathematical form of an atom.
pub enum AtomV {
    String(Seq<char>),
    Integer(i64),
    Real(u64),
    Boolean(bool),
    Uuid(u128),
    NamedUuid(Seq<char>),
}

/// The mathematical form of a value.
pub enum ValueV {
    Atom(AtomV),
    AtomSet(Seq<AtomV>),
    AtomMap(Seq<(AtomV, AtomV)>),
}

/// A single OVSDB scalar. A real is held as the bit pattern of its
/// IEEE-754 double.
#[derive(Debug, Clone, PartialEq)]
pub enum OvsdbAtom {
    String(String),
    Integer(i64),
    Real(u64),
    Boolean(bool),
    Uuid(Uuid),
    NamedUuid(String),
}

/// An atom, a set of atoms, or a map from atoms to atoms.
#[derive(Debug, Clone, PartialEq)]
pub enum OvsdbValue {
    Atom(OvsdbAtom),
    AtomSet(Vec<OvsdbAtom>),
    AtomMap(Vec<(OvsdbAtom, OvsdbAtom)>),
}

impl View for OvsdbAtom {
    type V = AtomV;

    open spec fn view(&self) -> AtomV {
        match self {
            OvsdbAtom::String(s) => AtomV::String(s@),
            OvsdbAtom::Integer(i) => AtomV::Integer(*i),
            OvsdbAtom::Real(r) => AtomV::Real(*r),
            OvsdbAtom::Boolean(b) => AtomV::Boolean(*b),
            OvsdbAtom::Uuid(u) => AtomV::Uuid(u@),
            OvsdbAtom::NamedUuid(n) => AtomV::NamedUuid(n@),
        }
    }
}

pub open spec fn atoms_view(atoms: Seq<OvsdbAtom>) -> Seq<AtomV> {
    atoms.map_values(|a: OvsdbAtom| a@)
}

pub open spec fn pairs_view(pairs: Seq<(OvsdbAtom, OvsdbAtom)>) -> Seq<(AtomV, AtomV)> {
    pairs.map_values(|p: (OvsdbAtom, OvsdbAtom)| (p.0@, p.1@))
}

impl View for OvsdbValue {
    type V = ValueV;

    open spec fn view(&self) -> ValueV {
        match self {
            OvsdbValue::Atom(a) => ValueV::Atom(a@),
            OvsdbValue::AtomSet(atoms) => ValueV::AtomSet(atoms_view(atoms@)),
            OvsdbValue::AtomMap(pairs) => ValueV::AtomMap(pairs_view(pairs@)),
        }
    }
}

impl OvsdbAtom {
    /// Whether two atoms are the same.
    pub fn same_as(&self, other: &OvsdbAtom) -> (r: bool)
        ensures
            r == (self@ == other@),
    {
        match (self, other) {
            (OvsdbAtom::String(a), OvsdbAtom::String(b)) => str_eq(a.as_str(), b.as_str()),
            (OvsdbAtom::Integer(a), OvsdbAtom::Integer(b)) => *a == *b,
            (OvsdbAtom::Real(a), OvsdbAtom::Real(b)) => *a == *b,
            (OvsdbAtom::Boolean(a), OvsdbAtom::Boolean(b)) => *a == *b,
            (OvsdbAtom::Uuid(a), OvsdbAtom::Uuid(b)) => a.value == b.value,
            (OvsdbAtom::NamedUuid(a), OvsdbAtom::NamedUuid(b)) => str_eq(a.as_str(), b.as_str()),
            _ => false,
        }
    }

    /// A copy of the atom.
    pub fn duplicate(&self) -> (r: OvsdbAtom)
        ensures
            r@ == self@,
    {
        match self {
            OvsdbAtom::String(s) => OvsdbAtom::String(s.clone()),
            OvsdbAtom::Integer(i) => OvsdbAtom::Integer(*i),
            OvsdbAtom::Real(r) => OvsdbAtom::Real(*r),
            OvsdbAtom::Boolean(b) => OvsdbAtom::Boolean(*b),
            OvsdbAtom::Uuid(u) => OvsdbAtom::Uuid(*u),
            OvsdbAtom::NamedUuid(n) => OvsdbAtom::NamedUuid(n.clone()),
        }
    }
}

} // verus!
