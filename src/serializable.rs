//! Conversion between native values and OVSDB values.
use vstd::prelude::*;
use crate::codec::{
    json_to_ovsdb_value, json_value, lemma_atom_json_round_trip, lemma_value_json_round_trip,
    ovsdb_value_to_json, value_json,
};
use crate::json::JsonV;
use crate::json::Json;
use crate::uuid_text::Uuid;
use crate::value::{atoms_view, pairs_view, AtomV, OvsdbAtom, OvsdbValue, ValueV};

verus! {

impl DeepView for Uuid {
    type V = u128;

    open spec fn deep_view(&self) -> u128 {
        self.value
    }
}

/// The empty set.
pub fn empty_set() -> (r: OvsdbValue)
    ensures
        r@ == ValueV::AtomSet(Seq::empty()),
{
    let atoms: Vec<OvsdbAtom> = Vec::new();
    proof {
        assert(atoms_view(atoms@) =~= Seq::empty());
    }
    OvsdbValue::AtomSet(atoms)
}

/// Whether a value is the atom `b`.
fn is_atom_of(a: &OvsdbValue, b: &OvsdbValue) -> (r: bool)
    requires
        b@ is Atom,
    ensures
        r == (a@ == b@),
{
    match (a, b) {
        (OvsdbValue::Atom(x), OvsdbValue::Atom(y)) => x.same_as(y),
        _ => false,
    }
}

/// A native type that crosses the wire as an OVSDB value.
pub trait OvsdbSerializable: Sized + DeepView {
    /// The OVSDB value that `x` is written as.
    spec fn encode_spec(x: <Self as DeepView>::V) -> ValueV;

    /// Whether `x` can be written: the elements of its collections are atoms.
    spec fn encodable(x: <Self as DeepView>::V) -> bool;

    /// Whether `x` is read back as itself from what it is written as.
    spec fn round_trips(x: <Self as DeepView>::V) -> bool;

    /// What an OVSDB value reads as, or `None` when it does not fit the type.
    spec fn decode_spec(v: ValueV) -> Option<<Self as DeepView>::V>;

    fn to_ovsdb(&self) -> (r: OvsdbValue)
        requires
            Self::encodable(self.deep_view()),
        ensures
            r@ == Self::encode_spec(self.deep_view()),
    ;

    fn from_ovsdb(value: &OvsdbValue) -> (r: Option<Self>)
        ensures
            match Self::decode_spec(value@) {
                Some(x) => r is Some && r->Some_0.deep_view() == x,
                None => r is None,
            },
    ;

    /// Reading back what a value is written as gives the value.
    proof fn lemma_round_trip(x: <Self as DeepView>::V)
        requires
            Self::round_trips(x),
        ensures
            Self::encodable(x),
            Self::decode_spec(Self::encode_spec(x)) == Some(x),
    ;

    /// A lone atom reads as the one-element set of that atom would.
    proof fn lemma_singleton_shorthand(a: AtomV)
        ensures
            Self::decode_spec(ValueV::AtomSet(seq![a])) is Some ==> Self::decode_spec(
                ValueV::Atom(a),
            ) == Self::decode_spec(ValueV::AtomSet(seq![a])),
    ;
}

impl OvsdbSerializable for String {
    open spec fn encode_spec(x: Seq<char>) -> ValueV {
        ValueV::Atom(AtomV::String(x))
    }

    open spec fn encodable(x: Seq<char>) -> bool {
        true
    }

    open spec fn round_trips(x: Seq<char>) -> bool {
        true
    }

    open spec fn decode_spec(v: ValueV) -> Option<Seq<char>> {
        match v {
            ValueV::Atom(AtomV::String(s)) => Some(s),
            _ => None,
        }
    }

    fn to_ovsdb(&self) -> (r: OvsdbValue) {
        OvsdbValue::Atom(OvsdbAtom::String(self.clone()))
    }

    fn from_ovsdb(value: &OvsdbValue) -> (r: Option<String>) {
        match value {
            OvsdbValue::Atom(OvsdbAtom::String(s)) => Some(s.clone()),
            _ => None,
        }
    }

    proof fn lemma_round_trip(x: Seq<char>) {
    }

    proof fn lemma_singleton_shorthand(a: AtomV) {
    }
}

impl OvsdbSerializable for i64 {
    open spec fn encode_spec(x: i64) -> ValueV {
        ValueV::Atom(AtomV::Integer(x))
    }

    open spec fn encodable(x: i64) -> bool {
        true
    }

    open spec fn round_trips(x: i64) -> bool {
        true
    }

    open spec fn decode_spec(v: ValueV) -> Option<i64> {
        match v {
            ValueV::Atom(AtomV::Integer(i)) => Some(i),
            _ => None,
        }
    }

    fn to_ovsdb(&self) -> (r: OvsdbValue) {
        OvsdbValue::Atom(OvsdbAtom::Integer(*self))
    }

    fn from_ovsdb(value: &OvsdbValue) -> (r: Option<i64>) {
        match value {
            OvsdbValue::Atom(OvsdbAtom::Integer(i)) => Some(*i),
            _ => None,
        }
    }

    proof fn lemma_round_trip(x: i64) {
    }

    proof fn lemma_singleton_shorthand(a: AtomV) {
    }
}

impl OvsdbSerializable for bool {
    open spec fn encode_spec(x: bool) -> ValueV {
        ValueV::Atom(AtomV::Boolean(x))
    }

    open spec fn encodable(x: bool) -> bool {
        true
    }

    open spec fn round_trips(x: bool) -> bool {
        true
    }

    open spec fn decode_spec(v: ValueV) -> Option<bool> {
        match v {
            ValueV::Atom(AtomV::Boolean(b)) => Some(b),
            _ => None,
        }
    }

    fn to_ovsdb(&self) -> (r: OvsdbValue) {
        OvsdbValue::Atom(OvsdbAtom::Boolean(*self))
    }

    fn from_ovsdb(value: &OvsdbValue) -> (r: Option<bool>) {
        match value {
            OvsdbValue::Atom(OvsdbAtom::Boolean(b)) => Some(*b),
            _ => None,
        }
    }

    proof fn lemma_round_trip(x: bool) {
    }

    proof fn lemma_singleton_shorthand(a: AtomV) {
    }
}

impl OvsdbSerializable for Uuid {
    open spec fn encode_spec(x: u128) -> ValueV {
        ValueV::Atom(AtomV::Uuid(x))
    }

    open spec fn encodable(x: u128) -> bool {
        true
    }

    open spec fn round_trips(x: u128) -> bool {
        true
    }

    open spec fn decode_spec(v: ValueV) -> Option<u128> {
        match v {
            ValueV::Atom(AtomV::Uuid(u)) => Some(u),
            _ => None,
        }
    }

    fn to_ovsdb(&self) -> (r: OvsdbValue) {
        OvsdbValue::Atom(OvsdbAtom::Uuid(*self))
    }

    fn from_ovsdb(value: &OvsdbValue) -> (r: Option<Uuid>) {
        match value {
            OvsdbValue::Atom(OvsdbAtom::Uuid(u)) => Some(*u),
            _ => None,
        }
    }

    proof fn lemma_round_trip(x: u128) {
    }

    proof fn lemma_singleton_shorthand(a: AtomV) {
    }
}

/// An absent optional value is written as the empty set; a present one as
/// its content. Reading succeeds when the content reads.
impl<T: OvsdbSerializable> OvsdbSerializable for Option<T> {
    open spec fn encode_spec(x: Option<<T as DeepView>::V>) -> ValueV {
        match x {
            Some(y) => T::encode_spec(y),
            None => ValueV::AtomSet(Seq::empty()),
        }
    }

    open spec fn encodable(x: Option<<T as DeepView>::V>) -> bool {
        match x {
            Some(y) => T::encodable(y),
            None => true,
        }
    }

    /// An absent value is written as the empty set, which reads back as
    /// absent only for types that have no empty form.
    open spec fn round_trips(x: Option<<T as DeepView>::V>) -> bool {
        match x {
            Some(y) => T::round_trips(y),
            None => false,
        }
    }

    open spec fn decode_spec(v: ValueV) -> Option<Option<<T as DeepView>::V>> {
        match T::decode_spec(v) {
            Some(y) => Some(Some(y)),
            None => None,
        }
    }

    fn to_ovsdb(&self) -> (r: OvsdbValue) {
        match self {
            Some(v) => v.to_ovsdb(),
            None => empty_set(),
        }
    }

    fn from_ovsdb(value: &OvsdbValue) -> (r: Option<Option<T>>) {
        match T::from_ovsdb(value) {
            Some(v) => Some(Some(v)),
            None => None,
        }
    }

    proof fn lemma_round_trip(x: Option<<T as DeepView>::V>) {
        T::lemma_round_trip(x->Some_0);
    }

    proof fn lemma_singleton_shorthand(a: AtomV) {
        T::lemma_singleton_shorthand(a);
    }
}

/// A sequence is written as the set of its elements' atoms; it reads from a
/// set of atoms, or from a lone atom as a sequence of one.
impl<T: OvsdbSerializable> OvsdbSerializable for Vec<T> {
    open spec fn encode_spec(x: Seq<<T as DeepView>::V>) -> ValueV {
        ValueV::AtomSet(x.map_values(|y: <T as DeepView>::V| T::encode_spec(y)->Atom_0))
    }

    /// Every element can be written, and is written as an atom.
    open spec fn encodable(x: Seq<<T as DeepView>::V>) -> bool {
        forall|i: int|
            0 <= i < x.len() ==> #[trigger] T::encodable(x[i]) && T::encode_spec(x[i]) is Atom
    }

    open spec fn round_trips(x: Seq<<T as DeepView>::V>) -> bool {
        forall|i: int|
            0 <= i < x.len() ==> #[trigger] T::round_trips(x[i]) && T::encode_spec(x[i]) is Atom
    }

    open spec fn decode_spec(v: ValueV) -> Option<Seq<<T as DeepView>::V>> {
        match v {
            ValueV::AtomSet(atoms) => if forall|i: int|
                0 <= i < atoms.len() ==> (#[trigger] T::decode_spec(ValueV::Atom(atoms[i]))) is Some {
                Some(atoms.map_values(|a: AtomV| T::decode_spec(ValueV::Atom(a))->Some_0))
            } else {
                None
            },
            ValueV::Atom(a) => match T::decode_spec(ValueV::Atom(a)) {
                Some(y) => Some(seq![y]),
                None => None,
            },
            ValueV::AtomMap(_) => None,
        }
    }

    fn to_ovsdb(&self) -> (r: OvsdbValue) {
        let ghost x = self.deep_view();
        assert forall|i: int| 0 <= i < self@.len() implies T::encodable(#[trigger] self@[i].deep_view())
            && T::encode_spec(self@[i].deep_view()) is Atom by {
            assert(x[i] == self@[i].deep_view());
        }
        match try_set_of(self) {
            Some(v) => v,
            None => {
                assert(false);
                empty_set()
            },
        }
    }

    fn from_ovsdb(value: &OvsdbValue) -> (r: Option<Vec<T>>) {
        match value {
            OvsdbValue::AtomSet(atoms) => {
                let ghost s = atoms_view(atoms@);
                let mut out: Vec<T> = Vec::new();
                let mut i: usize = 0;
                while i < atoms.len()
                    invariant
                        i <= atoms.len(),
                        s == atoms_view(atoms@),
                        value@ == ValueV::AtomSet(s),
                        forall|k: int|
                            0 <= k < i ==> (#[trigger] T::decode_spec(ValueV::Atom(s[k]))) is Some,
                        out@.len() == i,
                        forall|k: int|
                            0 <= k < i ==> (#[trigger] out@[k]).deep_view() == T::decode_spec(
                                ValueV::Atom(s[k]),
                            )->Some_0,
                    decreases atoms.len() - i,
                {
                    let item = OvsdbValue::Atom(atoms[i].duplicate());
                    match T::from_ovsdb(&item) {
                        Some(v) => {
                            out.push(v);
                        },
                        None => {
                            assert(!(T::decode_spec(ValueV::Atom(s[i as int])) is Some));
                            return None;
                        },
                    }
                    i += 1;
                }
                proof {
                    assert(forall|k: int|
                        0 <= k < s.len() ==> (#[trigger] T::decode_spec(ValueV::Atom(s[k]))) is Some);
                    assert(out.deep_view() =~= s.map_values(
                        |a: AtomV| T::decode_spec(ValueV::Atom(a))->Some_0,
                    ));
                }
                Some(out)
            },
            OvsdbValue::Atom(_) => {
                match T::from_ovsdb(value) {
                    Some(v) => {
                        let out = vec![v];
                        proof {
                            assert(out.deep_view() =~= seq![v.deep_view()]);
                        }
                        Some(out)
                    },
                    None => None,
                }
            },
            OvsdbValue::AtomMap(_) => None,
        }
    }

    proof fn lemma_round_trip(x: Seq<<T as DeepView>::V>) {
        assert forall|i: int| 0 <= i < x.len() implies #[trigger] T::encodable(x[i]) && T::encode_spec(
            x[i],
        ) is Atom by {
            assert(T::round_trips(x[i]));
            T::lemma_round_trip(x[i]);
        }
        let atoms = x.map_values(|y: <T as DeepView>::V| T::encode_spec(y)->Atom_0);
        assert forall|i: int| 0 <= i < atoms.len() implies T::decode_spec(ValueV::Atom(atoms[i]))
            == Some(x[i]) by {
            assert(T::round_trips(x[i]));
            T::lemma_round_trip(x[i]);
            assert(ValueV::Atom(atoms[i]) == T::encode_spec(x[i]));
        }
        assert(forall|i: int|
            0 <= i < atoms.len() ==> (#[trigger] T::decode_spec(ValueV::Atom(atoms[i]))) is Some);
        assert(atoms.map_values(|a: AtomV| T::decode_spec(ValueV::Atom(a))->Some_0) =~= x);
    }

    proof fn lemma_singleton_shorthand(a: AtomV) {
        let one = seq![a];
        if T::decode_spec(ValueV::Atom(a)) is Some {
            assert(one.map_values(|b: AtomV| T::decode_spec(ValueV::Atom(b))->Some_0) =~= seq![
                T::decode_spec(ValueV::Atom(a))->Some_0,
            ]);
        } else {
            assert(!(T::decode_spec(ValueV::Atom(one[0])) is Some));
        }
    }
}

/// The set of the elements' atoms, or `None` when some element is not
/// written as an atom.
pub fn try_set_of<T: OvsdbSerializable>(items: &Vec<T>) -> (r: Option<OvsdbValue>)
    requires
        forall|i: int| 0 <= i < items@.len() ==> T::encodable(#[trigger] items@[i].deep_view()),
    ensures
        (r is None) <==> exists|i: int|
            0 <= i < items@.len() && !(T::encode_spec(#[trigger] items@[i].deep_view()) is Atom),
        r matches Some(v) ==> v@ == ValueV::AtomSet(
            items.deep_view().map_values(|y: <T as DeepView>::V| T::encode_spec(y)->Atom_0),
        ),
{
    let ghost x = items.deep_view();
    let mut atoms: Vec<OvsdbAtom> = Vec::new();
    let mut i: usize = 0;
    while i < items.len()
        invariant
            i <= items.len(),
            x == items.deep_view(),
            forall|k: int| 0 <= k < items@.len() ==> T::encodable(#[trigger] items@[k].deep_view()),
            forall|k: int| 0 <= k < i ==> (T::encode_spec(#[trigger] items@[k].deep_view())) is Atom,
            atoms@.len() == i,
            forall|k: int| 0 <= k < i ==> (#[trigger] atoms@[k])@ == T::encode_spec(x[k])->Atom_0,
        decreases items.len() - i,
    {
        assert(x[i as int] == items@[i as int].deep_view());
        match items[i].to_ovsdb() {
            OvsdbValue::Atom(a) => {
                atoms.push(a);
            },
            _ => {
                return None;
            },
        }
        i += 1;
    }
    proof {
        assert(atoms_view(atoms@) =~= x.map_values(
            |y: <T as DeepView>::V| T::encode_spec(y)->Atom_0,
        ));
    }
    Some(OvsdbValue::AtomSet(atoms))
}

/// An associative container whose keys and values are atoms, kept in the
/// order of its entries. A key appears at most once when built by `insert`.
#[derive(Debug, Clone, PartialEq)]
pub struct OvsdbMap<K, W> {
    pub entries: Vec<(K, W)>,
}

impl<K: DeepView, W: DeepView> DeepView for OvsdbMap<K, W> {
    type V = Seq<(<K as DeepView>::V, <W as DeepView>::V)>;

    open spec fn deep_view(&self) -> Self::V {
        Seq::new(self.entries@.len(), |i: int| (self.entries@[i].0.deep_view(), self.entries@[i].1.deep_view()))
    }
}

impl<K: OvsdbSerializable, W: OvsdbSerializable> OvsdbMap<K, W> {
    pub fn new() -> (r: Self)
        ensures
            r.deep_view().len() == 0,
    {
        OvsdbMap { entries: Vec::new() }
    }

    pub fn len(&self) -> (r: usize)
        ensures
            r == self.deep_view().len(),
    {
        self.entries.len()
    }

    /// Sets the value of `key`: in place of the entry whose key is written
    /// as the same atom, or as a new last entry.
    pub fn insert(&mut self, key: K, value: W)
        requires
            K::encode_spec(key.deep_view()) is Atom,
            K::encodable(key.deep_view()),
            forall|i: int| 0 <= i < old(self).entries@.len() ==>
                K::encodable(#[trigger] old(self).entries@[i].0.deep_view()),
        ensures
            key_index::<K, W>(old(self).deep_view(), K::encode_spec(key.deep_view())) < old(self).deep_view().len()
                ==> final(self).deep_view() == old(self).deep_view().update(
                    key_index::<K, W>(old(self).deep_view(), K::encode_spec(key.deep_view())),
                    (key.deep_view(), value.deep_view()),
                ),
            key_index::<K, W>(old(self).deep_view(), K::encode_spec(key.deep_view())) == old(self).deep_view().len()
                ==> final(self).deep_view() == old(self).deep_view().push(
                    (key.deep_view(), value.deep_view()),
                ),
    {
        let ghost m = self.deep_view();
        let k = key.to_ovsdb();
        let i = self.position_of(&k);
        if i < self.entries.len() {
            self.entries.set(i, (key, value));
            proof {
                assert(self.deep_view() =~= m.update(i as int, (key.deep_view(), value.deep_view())));
            }
        } else {
            self.entries.push((key, value));
            proof {
                assert(self.deep_view() =~= m.push((key.deep_view(), value.deep_view())));
            }
        }
    }

    /// The map of the entries' atoms, or `None` when some key or value is not
    /// written as an atom.
    pub fn try_to_ovsdb(&self) -> (r: Option<OvsdbValue>)
        requires
            forall|i: int|
                0 <= i < self.deep_view().len() ==> #[trigger] entry_writable::<K, W>(self.deep_view()[i]),
        ensures
            (r is None) <==> exists|i: int|
                0 <= i < self.deep_view().len() && !(#[trigger] entry_atoms::<K, W>(self.deep_view()[i])),
            r matches Some(v) ==> v@ == <Self as OvsdbSerializable>::encode_spec(self.deep_view()),
    {
        let ghost x = self.deep_view();
        let mut pairs: Vec<(OvsdbAtom, OvsdbAtom)> = Vec::new();
        let mut i: usize = 0;
        while i < self.entries.len()
            invariant
                i <= self.entries.len(),
                x == self.deep_view(),
                forall|k: int| 0 <= k < x.len() ==> #[trigger] entry_writable::<K, W>(x[k]),
                forall|k: int| 0 <= k < i ==> #[trigger] entry_atoms::<K, W>(x[k]),
                pairs@.len() == i,
                forall|k: int|
                    0 <= k < i ==> ((#[trigger] pairs@[k]).0@, pairs@[k].1@) == (
                        K::encode_spec(x[k].0)->Atom_0,
                        W::encode_spec(x[k].1)->Atom_0,
                    ),
            decreases self.entries.len() - i,
        {
            assert(entry_writable::<K, W>(x[i as int]));
            let kv = self.entries[i].0.to_ovsdb();
            let vv = self.entries[i].1.to_ovsdb();
            match (kv, vv) {
                (OvsdbValue::Atom(ka), OvsdbValue::Atom(va)) => {
                    pairs.push((ka, va));
                },
                _ => {
                    assert(!entry_atoms::<K, W>(x[i as int]));
                    return None;
                },
            }
            assert(entry_atoms::<K, W>(x[i as int]));
            i += 1;
        }
        proof {
            assert(pairs_view(pairs@) =~= x.map_values(
                |e: (<K as DeepView>::V, <W as DeepView>::V)|
                    (K::encode_spec(e.0)->Atom_0, W::encode_spec(e.1)->Atom_0),
            ));
        }
        Some(OvsdbValue::AtomMap(pairs))
    }

    /// Position of the first entry whose key is written as the atom `k`.
    fn position_of(&self, k: &OvsdbValue) -> (r: usize)
        requires
            k@ is Atom,
            forall|i: int| 0 <= i < self.entries@.len() ==>
                K::encodable(#[trigger] self.entries@[i].0.deep_view()),
        ensures
            r == key_index::<K, W>(self.deep_view(), k@),
    {
        let ghost m = self.deep_view();
        let mut i: usize = 0;
        while i < self.entries.len()
            invariant
                i <= self.entries.len(),
                m == self.deep_view(),
                k@ is Atom,
                forall|j: int| 0 <= j < self.entries@.len() ==>
                    K::encodable(#[trigger] self.entries@[j].0.deep_view()),
                forall|j: int| 0 <= j < i ==> K::encode_spec(#[trigger] m[j].0) != k@,
            decreases self.entries.len() - i,
        {
            let e = self.entries[i].0.to_ovsdb();
            if is_atom_of(&e, k) {
                proof {
                    lemma_key_index_found::<K, W>(m, k@, i as int);
                }
                return i;
            }
            i += 1;
        }
        proof {
            lemma_key_index_absent::<K, W>(m, k@);
        }
        i
    }
}

/// Position of the first entry whose key is written as `target`; the length
/// when there is none.
pub open spec fn key_index<K: OvsdbSerializable, W: DeepView>(
    m: Seq<(<K as DeepView>::V, <W as DeepView>::V)>,
    target: ValueV,
) -> int {
    if exists|i: int| 0 <= i < m.len() && K::encode_spec(m[i].0) == target {
        choose|i: int|
            0 <= i < m.len() && K::encode_spec(m[i].0) == target && forall|j: int|
                0 <= j < i ==> K::encode_spec(#[trigger] m[j].0) != target
    } else {
        m.len() as int
    }
}

proof fn lemma_key_index_found<K: OvsdbSerializable, W: DeepView>(
    m: Seq<(<K as DeepView>::V, <W as DeepView>::V)>,
    target: ValueV,
    i: int,
)
    requires
        0 <= i < m.len(),
        K::encode_spec(m[i].0) == target,
        forall|j: int| 0 <= j < i ==> K::encode_spec(#[trigger] m[j].0) != target,
    ensures
        key_index::<K, W>(m, target) == i,
{
    assert(K::encode_spec(m[i].0) == target);
    let c = key_index::<K, W>(m, target);
    assert(0 <= i < m.len() && K::encode_spec(m[i].0) == target && forall|j: int|
        0 <= j < i ==> K::encode_spec(#[trigger] m[j].0) != target);
    assert(0 <= c < m.len() && K::encode_spec(m[c].0) == target && forall|j: int|
        0 <= j < c ==> K::encode_spec(#[trigger] m[j].0) != target);
    if c < i {
        assert(K::encode_spec(m[c].0) != target);
    }
    if c > i {
        assert(K::encode_spec(m[i].0) != target);
    }
}

proof fn lemma_key_index_absent<K: OvsdbSerializable, W: DeepView>(
    m: Seq<(<K as DeepView>::V, <W as DeepView>::V)>,
    target: ValueV,
)
    requires
        forall|j: int| 0 <= j < m.len() ==> K::encode_spec(#[trigger] m[j].0) != target,
    ensures
        key_index::<K, W>(m, target) == m.len(),
{
}

/// A map is written as the pairs of its entries' atoms, in order, and read
/// from such pairs.
impl<K: OvsdbSerializable, W: OvsdbSerializable> OvsdbSerializable for OvsdbMap<K, W> {
    open spec fn encode_spec(x: Seq<(<K as DeepView>::V, <W as DeepView>::V)>) -> ValueV {
        ValueV::AtomMap(
            x.map_values(
                |e: (<K as DeepView>::V, <W as DeepView>::V)|
                    (K::encode_spec(e.0)->Atom_0, W::encode_spec(e.1)->Atom_0),
            ),
        )
    }

    open spec fn encodable(x: Seq<(<K as DeepView>::V, <W as DeepView>::V)>) -> bool {
        forall|i: int|
            0 <= i < x.len() ==> #[trigger] entry_encodable::<K, W>(x[i])
    }

    open spec fn round_trips(x: Seq<(<K as DeepView>::V, <W as DeepView>::V)>) -> bool {
        forall|i: int|
            0 <= i < x.len() ==> #[trigger] entry_encodable::<K, W>(x[i]) && K::round_trips(x[i].0)
                && W::round_trips(x[i].1)
    }

    open spec fn decode_spec(v: ValueV) -> Option<Seq<(<K as DeepView>::V, <W as DeepView>::V)>> {
        match v {
            ValueV::AtomMap(pairs) => if forall|i: int|
                0 <= i < pairs.len() ==> #[trigger] pair_decodes::<K, W>(pairs[i]) {
                Some(
                    pairs.map_values(
                        |p: (AtomV, AtomV)|
                            (
                                K::decode_spec(ValueV::Atom(p.0))->Some_0,
                                W::decode_spec(ValueV::Atom(p.1))->Some_0,
                            ),
                    ),
                )
            } else {
                None
            },
            _ => None,
        }
    }

    fn to_ovsdb(&self) -> (r: OvsdbValue) {
        let ghost x = self.deep_view();
        assert forall|i: int| 0 <= i < x.len() implies entry_writable::<K, W>(#[trigger] x[i])
            && entry_atoms::<K, W>(x[i]) by {
            assert(entry_encodable::<K, W>(x[i]));
        }
        match self.try_to_ovsdb() {
            Some(v) => v,
            None => {
                assert(false);
                empty_set()
            },
        }
    }

    fn from_ovsdb(value: &OvsdbValue) -> (r: Option<OvsdbMap<K, W>>) {
        match value {
            OvsdbValue::AtomMap(pairs) => {
                let ghost s = pairs_view(pairs@);
                let mut entries: Vec<(K, W)> = Vec::new();
                let mut i: usize = 0;
                while i < pairs.len()
                    invariant
                        i <= pairs.len(),
                        s == pairs_view(pairs@),
                        value@ == ValueV::AtomMap(s),
                        forall|k: int| 0 <= k < i ==> #[trigger] pair_decodes::<K, W>(s[k]),
                        entries@.len() == i,
                        forall|k: int|
                            0 <= k < i ==> ((#[trigger] entries@[k]).0.deep_view(),
                            entries@[k].1.deep_view()) == (
                                K::decode_spec(ValueV::Atom(s[k].0))->Some_0,
                                W::decode_spec(ValueV::Atom(s[k].1))->Some_0,
                            ),
                    decreases pairs.len() - i,
                {
                    let kv = OvsdbValue::Atom(pairs[i].0.duplicate());
                    let vv = OvsdbValue::Atom(pairs[i].1.duplicate());
                    match (K::from_ovsdb(&kv), W::from_ovsdb(&vv)) {
                        (Some(k), Some(v)) => {
                            entries.push((k, v));
                        },
                        _ => {
                            assert(!pair_decodes::<K, W>(s[i as int]));
                            return None;
                        },
                    }
                    i += 1;
                }
                let r = OvsdbMap { entries };
                proof {
                    assert(forall|k: int| 0 <= k < s.len() ==> #[trigger] pair_decodes::<K, W>(s[k]));
                    assert(r.deep_view() =~= s.map_values(
                        |p: (AtomV, AtomV)|
                            (
                                K::decode_spec(ValueV::Atom(p.0))->Some_0,
                                W::decode_spec(ValueV::Atom(p.1))->Some_0,
                            ),
                    ));
                }
                Some(r)
            },
            _ => None,
        }
    }

    proof fn lemma_round_trip(x: Seq<(<K as DeepView>::V, <W as DeepView>::V)>) {
        let pairs = x.map_values(
            |e: (<K as DeepView>::V, <W as DeepView>::V)|
                (K::encode_spec(e.0)->Atom_0, W::encode_spec(e.1)->Atom_0),
        );
        assert forall|i: int| 0 <= i < pairs.len() implies #[trigger] pair_decodes::<K, W>(pairs[i])
            && K::decode_spec(ValueV::Atom(pairs[i].0)) == Some(x[i].0) && W::decode_spec(
            ValueV::Atom(pairs[i].1),
        ) == Some(x[i].1) by {
            assert(entry_encodable::<K, W>(x[i]));
            K::lemma_round_trip(x[i].0);
            W::lemma_round_trip(x[i].1);
        }
        let back = pairs.map_values(
            |p: (AtomV, AtomV)|
                (
                    K::decode_spec(ValueV::Atom(p.0))->Some_0,
                    W::decode_spec(ValueV::Atom(p.1))->Some_0,
                ),
        );
        assert forall|i: int| 0 <= i < x.len() implies back[i] == x[i] by {
            assert(pair_decodes::<K, W>(pairs[i]));
        }
        assert(pairs.map_values(
            |p: (AtomV, AtomV)|
                (
                    K::decode_spec(ValueV::Atom(p.0))->Some_0,
                    W::decode_spec(ValueV::Atom(p.1))->Some_0,
                ),
        ) =~= x);
    }

    proof fn lemma_singleton_shorthand(a: AtomV) {
    }
}

/// Both sides of an entry can be written, and each is written as an atom.
pub open spec fn entry_encodable<K: OvsdbSerializable, W: OvsdbSerializable>(
    e: (<K as DeepView>::V, <W as DeepView>::V),
) -> bool {
    &&& K::encodable(e.0)
    &&& W::encodable(e.1)
    &&& K::encode_spec(e.0) is Atom
    &&& W::encode_spec(e.1) is Atom
}

/// Both sides of an entry can be written.
pub open spec fn entry_writable<K: OvsdbSerializable, W: OvsdbSerializable>(
    e: (<K as DeepView>::V, <W as DeepView>::V),
) -> bool {
    K::encodable(e.0) && W::encodable(e.1)
}

/// Both sides of an entry are written as atoms.
pub open spec fn entry_atoms<K: OvsdbSerializable, W: OvsdbSerializable>(
    e: (<K as DeepView>::V, <W as DeepView>::V),
) -> bool {
    K::encode_spec(e.0) is Atom && W::encode_spec(e.1) is Atom
}

/// Both atoms of a pair read as the map's key and value types.
pub open spec fn pair_decodes<K: OvsdbSerializable, W: OvsdbSerializable>(p: (AtomV, AtomV)) -> bool {
    &&& K::decode_spec(ValueV::Atom(p.0)) is Some
    &&& W::decode_spec(ValueV::Atom(p.1)) is Some
}

/// Writes a value as the JSON form of its OVSDB value.
pub fn to_ovsdb_json<T: OvsdbSerializable>(x: &T) -> (r: Json)
    requires
        T::encodable(x.deep_view()),
    ensures
        r@ == value_json(T::encode_spec(x.deep_view())),
{
    ovsdb_value_to_json(&x.to_ovsdb())
}

/// What a JSON document reads as in type `T`, or `None` when it is no
/// OVSDB value or its value does not fit the type.
pub open spec fn json_decode_spec<T: OvsdbSerializable>(j: JsonV) -> Option<<T as DeepView>::V> {
    match json_value(j) {
        Some(v) => T::decode_spec(v),
        None => None,
    }
}

/// Reads a value from the JSON form of an OVSDB value.
pub fn from_ovsdb_json<T: OvsdbSerializable>(j: &Json) -> (r: Option<T>)
    ensures
        match json_decode_spec::<T>(j@) {
            Some(x) => r is Some && r->Some_0.deep_view() == x,
            None => r is None,
        },
{
    match json_to_ovsdb_value(j) {
        Some(v) => T::from_ovsdb(&v),
        None => None,
    }
}

/// Reading back the JSON form that a value is written as gives the value;
/// a one-element sequence, written as its bare atom, reads back too.
pub proof fn lemma_json_field_round_trip<T: OvsdbSerializable>(x: <T as DeepView>::V)
    requires
        T::round_trips(x),
    ensures
        T::encodable(x),
        json_decode_spec::<T>(value_json(T::encode_spec(x))) == Some(x),
{
    T::lemma_round_trip(x);
    let v = T::encode_spec(x);
    if v is AtomSet && v->AtomSet_0.len() == 1 {
        let a = v->AtomSet_0[0];
        lemma_atom_json_round_trip(a);
        assert(v->AtomSet_0 =~= seq![a]);
        T::lemma_singleton_shorthand(a);
    } else {
        lemma_value_json_round_trip(v);
    }
}

} // verus!
