//! The JSON form of OVSDB values: tagged atoms, the set shorthand, and maps.
use vstd::prelude::*;
use crate::json::{items_view, lemma_array_view, str_eq, Json, JsonV};
use crate::uuid_text::{hyphenated, lemma_uuid_text_round_trip, parsed_uuid, Uuid};
use crate::value::{atoms_view, pairs_view, AtomV, OvsdbAtom, OvsdbValue, ValueV};

verus! {

broadcast use vstd::string::to_string_from_display_ensures_for_str;

pub open spec fn uuid_tag() -> Seq<char> {
    seq!['u', 'u', 'i', 'd']
}

pub open spec fn named_uuid_tag() -> Seq<char> {
    seq!['n', 'a', 'm', 'e', 'd', '-', 'u', 'u', 'i', 'd']
}

pub open spec fn set_tag() -> Seq<char> {
    seq!['s', 'e', 't']
}

pub open spec fn map_tag() -> Seq<char> {
    seq!['m', 'a', 'p']
}

/// The two-element tagged form `[tag, payload]`.
pub open spec fn tagged(tag: Seq<char>, payload: JsonV) -> JsonV {
    JsonV::Array(seq![JsonV::Str(tag), payload])
}

/// The JSON form of an atom: scalars inline, identifiers tagged.
pub open spec fn atom_json(a: AtomV) -> JsonV {
    match a {
        AtomV::String(s) => JsonV::Str(s),
        AtomV::Integer(i) => JsonV::Int(i),
        AtomV::Real(r) => JsonV::Real(r),
        AtomV::Boolean(b) => JsonV::Bool(b),
        AtomV::Uuid(u) => tagged(uuid_tag(), JsonV::Str(hyphenated(u))),
        AtomV::NamedUuid(n) => tagged(named_uuid_tag(), JsonV::Str(n)),
    }
}

pub open spec fn pair_json(p: (AtomV, AtomV)) -> JsonV {
    JsonV::Array(seq![atom_json(p.0), atom_json(p.1)])
}

/// The JSON form of a value: an empty set is `[]`, a one-element set is its
/// bare atom, a larger set is `["set", [...]]`, a map is `["map", [[k, v], ...]]`.
pub open spec fn value_json(v: ValueV) -> JsonV {
    match v {
        ValueV::Atom(a) => atom_json(a),
        ValueV::AtomSet(s) => if s.len() == 0 {
            JsonV::Array(Seq::empty())
        } else if s.len() == 1 {
            atom_json(s[0])
        } else {
            tagged(set_tag(), JsonV::Array(s.map_values(|a: AtomV| atom_json(a))))
        },
        ValueV::AtomMap(m) => tagged(
            map_tag(),
            JsonV::Array(m.map_values(|p: (AtomV, AtomV)| pair_json(p))),
        ),
    }
}

/// The atom that a JSON document denotes, if it denotes one.
pub open spec fn json_atom(j: JsonV) -> Option<AtomV> {
    match j {
        JsonV::Str(s) => Some(AtomV::String(s)),
        JsonV::Int(i) => Some(AtomV::Integer(i)),
        JsonV::Real(r) => Some(AtomV::Real(r)),
        JsonV::Bool(b) => Some(AtomV::Boolean(b)),
        JsonV::Array(a) => if a.len() == 2 && a[0] is Str && a[1] is Str {
            let tag = a[0]->Str_0;
            let text = a[1]->Str_0;
            if tag == uuid_tag() {
                match parsed_uuid(text) {
                    Some(u) => Some(AtomV::Uuid(u)),
                    None => None,
                }
            } else if tag == named_uuid_tag() {
                Some(AtomV::NamedUuid(text))
            } else {
                None
            }
        } else {
            None
        },
        _ => None,
    }
}

pub open spec fn json_pair(p: JsonV) -> Option<(AtomV, AtomV)> {
    match p {
        JsonV::Array(kv) => if kv.len() == 2 && json_atom(kv[0]) is Some && json_atom(
            kv[1],
        ) is Some {
            Some((json_atom(kv[0])->Some_0, json_atom(kv[1])->Some_0))
        } else {
            None
        },
        _ => None,
    }
}

/// The atoms of a list whose every element is an atom.
pub open spec fn json_atoms(es: Seq<JsonV>) -> Option<Seq<AtomV>> {
    if forall|i: int| 0 <= i < es.len() ==> (#[trigger] json_atom(es[i])) is Some {
        Some(es.map_values(|e: JsonV| json_atom(e)->Some_0))
    } else {
        None
    }
}

/// The pairs of a list whose every element is a pair of atoms.
pub open spec fn json_pairs(es: Seq<JsonV>) -> Option<Seq<(AtomV, AtomV)>> {
    if forall|i: int| 0 <= i < es.len() ==> (#[trigger] json_pair(es[i])) is Some {
        Some(es.map_values(|e: JsonV| json_pair(e)->Some_0))
    } else {
        None
    }
}

pub open spec fn is_tagged_list(a: Seq<JsonV>, tag: Seq<char>) -> bool {
    a.len() == 2 && a[0] is Str && a[0]->Str_0 == tag && a[1] is Array
}

/// The value that a JSON document denotes, if any. `null` and `[]` are the
/// empty set; a tagged set or map fails as a whole when one element fails.
pub open spec fn json_value(j: JsonV) -> Option<ValueV> {
    match j {
        JsonV::Null => Some(ValueV::AtomSet(Seq::empty())),
        JsonV::Object(_) => None,
        JsonV::Array(a) => if is_tagged_list(a, set_tag()) {
            match json_atoms(a[1]->Array_0) {
                Some(s) => Some(ValueV::AtomSet(s)),
                None => None,
            }
        } else if is_tagged_list(a, map_tag()) {
            match json_pairs(a[1]->Array_0) {
                Some(m) => Some(ValueV::AtomMap(m)),
                None => None,
            }
        } else if a.len() == 0 {
            Some(ValueV::AtomSet(Seq::empty()))
        } else {
            match json_atom(j) {
                Some(x) => Some(ValueV::Atom(x)),
                None => None,
            }
        },
        _ => match json_atom(j) {
            Some(x) => Some(ValueV::Atom(x)),
            None => None,
        },
    }
}

fn uuid_tag_text() -> (r: &'static str)
    ensures
        r@ == uuid_tag(),
{
    proof {
        reveal_strlit("uuid");
    }
    "uuid"
}

fn named_uuid_tag_text() -> (r: &'static str)
    ensures
        r@ == named_uuid_tag(),
{
    proof {
        reveal_strlit("named-uuid");
    }
    "named-uuid"
}

fn set_tag_text() -> (r: &'static str)
    ensures
        r@ == set_tag(),
{
    proof {
        reveal_strlit("set");
    }
    "set"
}

fn map_tag_text() -> (r: &'static str)
    ensures
        r@ == map_tag(),
{
    proof {
        reveal_strlit("map");
    }
    "map"
}

/// Builds `[tag, payload]`.
fn make_tagged(tag: &str, payload: Json) -> (r: Json)
    ensures
        r@ == tagged(tag@, payload@),
{
    let items = vec![Json::Str(tag.to_string()), payload];
    proof {
        lemma_array_view(items);
        assert(items_view(items@) =~= seq![JsonV::Str(tag@), payload@]);
    }
    Json::Array(items)
}

/// Reads an atom from its JSON form.
pub fn json_to_atom(j: &Json) -> (r: Option<OvsdbAtom>)
    ensures
        match json_atom(j@) {
            Some(a) => r is Some && r->Some_0@ == a,
            None => r is None,
        },
{
    match j {
        Json::Str(s) => Some(OvsdbAtom::String(s.clone())),
        Json::Int(i) => Some(OvsdbAtom::Integer(*i)),
        Json::Real(r) => Some(OvsdbAtom::Real(*r)),
        Json::Bool(b) => Some(OvsdbAtom::Boolean(*b)),
        Json::Array(items) => {
            proof {
                lemma_array_view(*items);
            }
            if items.len() != 2 {
                return None;
            }
            match (&items[0], &items[1]) {
                (Json::Str(tag), Json::Str(text)) => {
                    if str_eq(tag.as_str(), uuid_tag_text()) {
                        match Uuid::parse_str(text.as_str()) {
                            Some(u) => Some(OvsdbAtom::Uuid(u)),
                            None => None,
                        }
                    } else if str_eq(tag.as_str(), named_uuid_tag_text()) {
                        Some(OvsdbAtom::NamedUuid(text.clone()))
                    } else {
                        None
                    }
                },
                _ => None,
            }
        },
        _ => None,
    }
}

fn json_to_pair(p: &Json) -> (r: Option<(OvsdbAtom, OvsdbAtom)>)
    ensures
        match json_pair(p@) {
            Some(kv) => r is Some && r->Some_0.0@ == kv.0 && r->Some_0.1@ == kv.1,
            None => r is None,
        },
{
    match p {
        Json::Array(kv) => {
            proof {
                lemma_array_view(*kv);
            }
            if kv.len() != 2 {
                return None;
            }
            match (json_to_atom(&kv[0]), json_to_atom(&kv[1])) {
                (Some(k), Some(v)) => Some((k, v)),
                _ => None,
            }
        },
        _ => None,
    }
}

fn json_to_atom_list(elems: &Vec<Json>) -> (r: Option<Vec<OvsdbAtom>>)
    ensures
        match json_atoms(items_view(elems@)) {
            Some(s) => r is Some && atoms_view(r->Some_0@) == s,
            None => r is None,
        },
{
    let ghost es = items_view(elems@);
    let mut out: Vec<OvsdbAtom> = Vec::new();
    let mut i: usize = 0;
    while i < elems.len()
        invariant
            i <= elems.len(),
            es == items_view(elems@),
            forall|k: int| 0 <= k < i ==> (#[trigger] json_atom(es[k])) is Some,
            out@.len() == i,
            forall|k: int| 0 <= k < i ==> (#[trigger] out@[k])@ == json_atom(es[k])->Some_0,
        decreases elems.len() - i,
    {
        match json_to_atom(&elems[i]) {
            Some(a) => {
                out.push(a);
                i += 1;
            },
            None => {
                assert(!(json_atom(es[i as int]) is Some));
                return None;
            },
        }
    }
    assert(forall|k: int| 0 <= k < es.len() ==> (#[trigger] json_atom(es[k])) is Some);
    assert(atoms_view(out@) =~= es.map_values(|e: JsonV| json_atom(e)->Some_0));
    Some(out)
}

fn json_to_pair_list(elems: &Vec<Json>) -> (r: Option<Vec<(OvsdbAtom, OvsdbAtom)>>)
    ensures
        match json_pairs(items_view(elems@)) {
            Some(m) => r is Some && pairs_view(r->Some_0@) == m,
            None => r is None,
        },
{
    let ghost es = items_view(elems@);
    let mut out: Vec<(OvsdbAtom, OvsdbAtom)> = Vec::new();
    let mut i: usize = 0;
    while i < elems.len()
        invariant
            i <= elems.len(),
            es == items_view(elems@),
            forall|k: int| 0 <= k < i ==> (#[trigger] json_pair(es[k])) is Some,
            out@.len() == i,
            forall|k: int|
                0 <= k < i ==> ((#[trigger] out@[k]).0@, out@[k].1@) == json_pair(es[k])->Some_0,
        decreases elems.len() - i,
    {
        match json_to_pair(&elems[i]) {
            Some(p) => {
                out.push(p);
                i += 1;
            },
            None => {
                assert(!(json_pair(es[i as int]) is Some));
                return None;
            },
        }
    }
    assert(forall|k: int| 0 <= k < es.len() ==> (#[trigger] json_pair(es[k])) is Some);
    assert(pairs_view(out@) =~= es.map_values(|e: JsonV| json_pair(e)->Some_0));
    Some(out)
}

/// Reads an OVSDB value from its JSON form, accepting the shorthand forms.
pub fn json_to_ovsdb_value(j: &Json) -> (r: Option<OvsdbValue>)
    ensures
        match json_value(j@) {
            Some(v) => r is Some && r->Some_0@ == v,
            None => r is None,
        },
{
    match j {
        Json::Null => {
            let empty: Vec<OvsdbAtom> = Vec::new();
            proof {
                assert(atoms_view(empty@) =~= Seq::empty());
            }
            Some(OvsdbValue::AtomSet(empty))
        },
        Json::Object(_) => None,
        Json::Array(items) => {
            proof {
                lemma_array_view(*items);
            }
            if items.len() == 2 {
                if let (Json::Str(tag), Json::Array(elems)) = (&items[0], &items[1]) {
                    proof {
                        lemma_array_view(*elems);
                    }
                    if str_eq(tag.as_str(), set_tag_text()) {
                        return match json_to_atom_list(elems) {
                            Some(atoms) => Some(OvsdbValue::AtomSet(atoms)),
                            None => None,
                        };
                    }
                    if str_eq(tag.as_str(), map_tag_text()) {
                        return match json_to_pair_list(elems) {
                            Some(pairs) => Some(OvsdbValue::AtomMap(pairs)),
                            None => None,
                        };
                    }
                }
            }
            if items.len() == 0 {
                let empty: Vec<OvsdbAtom> = Vec::new();
                proof {
                    assert(atoms_view(empty@) =~= Seq::empty());
                }
                return Some(OvsdbValue::AtomSet(empty));
            }
            match json_to_atom(j) {
                Some(a) => Some(OvsdbValue::Atom(a)),
                None => None,
            }
        },
        _ => match json_to_atom(j) {
            Some(a) => Some(OvsdbValue::Atom(a)),
            None => None,
        },
    }
}

/// Writes an atom in its JSON form.
pub fn atom_to_json(a: &OvsdbAtom) -> (r: Json)
    ensures
        r@ == atom_json(a@),
{
    match a {
        OvsdbAtom::String(s) => Json::Str(s.clone()),
        OvsdbAtom::Integer(i) => Json::Int(*i),
        OvsdbAtom::Real(r) => Json::Real(*r),
        OvsdbAtom::Boolean(b) => Json::Bool(*b),
        OvsdbAtom::Uuid(u) => make_tagged(uuid_tag_text(), Json::Str(u.to_hyphenated())),
        OvsdbAtom::NamedUuid(n) => make_tagged(named_uuid_tag_text(), Json::Str(n.clone())),
    }
}

fn pair_to_json(p: &(OvsdbAtom, OvsdbAtom)) -> (r: Json)
    ensures
        r@ == pair_json((p.0@, p.1@)),
{
    let items = vec![atom_to_json(&p.0), atom_to_json(&p.1)];
    proof {
        lemma_array_view(items);
        assert(items_view(items@) =~= seq![atom_json(p.0@), atom_json(p.1@)]);
    }
    Json::Array(items)
}

/// Writes an OVSDB value in its JSON form, using the shorthand for sets of
/// fewer than two elements.
pub fn ovsdb_value_to_json(v: &OvsdbValue) -> (r: Json)
    ensures
        r@ == value_json(v@),
{
    match v {
        OvsdbValue::Atom(a) => atom_to_json(a),
        OvsdbValue::AtomSet(atoms) => {
            if atoms.len() == 0 {
                let items: Vec<Json> = Vec::new();
                proof {
                    lemma_array_view(items);
                    assert(items_view(items@) =~= Seq::empty());
                }
                Json::Array(items)
            } else if atoms.len() == 1 {
                atom_to_json(&atoms[0])
            } else {
                let ghost s = atoms_view(atoms@);
                let mut items: Vec<Json> = Vec::new();
                let mut i: usize = 0;
                while i < atoms.len()
                    invariant
                        i <= atoms.len(),
                        s == atoms_view(atoms@),
                        items@.len() == i,
                        forall|k: int| 0 <= k < i ==> (#[trigger] items@[k])@ == atom_json(s[k]),
                    decreases atoms.len() - i,
                {
                    items.push(atom_to_json(&atoms[i]));
                    i += 1;
                }
                proof {
                    assert(items_view(items@) =~= s.map_values(|a: AtomV| atom_json(a)));
                    lemma_array_view(items);
                }
                make_tagged(set_tag_text(), Json::Array(items))
            }
        },
        OvsdbValue::AtomMap(pairs) => {
            let ghost m = pairs_view(pairs@);
            let mut items: Vec<Json> = Vec::new();
            let mut i: usize = 0;
            while i < pairs.len()
                invariant
                    i <= pairs.len(),
                    m == pairs_view(pairs@),
                    items@.len() == i,
                    forall|k: int| 0 <= k < i ==> (#[trigger] items@[k])@ == pair_json(m[k]),
                decreases pairs.len() - i,
            {
                items.push(pair_to_json(&pairs[i]));
                i += 1;
            }
            proof {
                assert(items_view(items@) =~= m.map_values(|p: (AtomV, AtomV)| pair_json(p)));
                lemma_array_view(items);
            }
            make_tagged(map_tag_text(), Json::Array(items))
        },
    }
}

/// Reading back the JSON form of an atom gives the atom.
pub proof fn lemma_atom_json_round_trip(a: AtomV)
    ensures
        json_atom(atom_json(a)) == Some(a),
{
    match a {
        AtomV::Uuid(u) => {
            lemma_uuid_text_round_trip(u);
        },
        AtomV::NamedUuid(n) => {
            assert(named_uuid_tag() != uuid_tag()) by {
                assert(named_uuid_tag().len() != uuid_tag().len());
            }
        },
        _ => {},
    }
}

/// Reading back the JSON form of a value gives the value, for every value
/// but a one-element set, which reads back as its bare atom.
pub proof fn lemma_value_json_round_trip(v: ValueV)
    requires
        !(v is AtomSet && v->AtomSet_0.len() == 1),
    ensures
        json_value(value_json(v)) == Some(v),
{
    assert(set_tag() != map_tag());
    assert(uuid_tag() != set_tag() && uuid_tag() != map_tag()) by {
        assert(uuid_tag().len() != set_tag().len());
    }
    assert(named_uuid_tag() != set_tag() && named_uuid_tag() != map_tag()) by {
        assert(named_uuid_tag().len() != set_tag().len());
    }
    match v {
        ValueV::Atom(a) => {
            lemma_atom_json_round_trip(a);
        },
        ValueV::AtomSet(s) => {
            if s.len() == 0 {
                assert(json_value(value_json(v)) == Some(ValueV::AtomSet(Seq::empty())));
                assert(s =~= Seq::empty());
            } else {
                let es = s.map_values(|a: AtomV| atom_json(a));
                assert forall|i: int| 0 <= i < es.len() implies (#[trigger] json_atom(
                    es[i],
                )) is Some by {
                    lemma_atom_json_round_trip(s[i]);
                }
                assert forall|i: int| 0 <= i < s.len() implies json_atom(es[i])->Some_0
                    == s[i] by {
                    lemma_atom_json_round_trip(s[i]);
                }
                assert(es.map_values(|e: JsonV| json_atom(e)->Some_0) =~= s);
            }
        },
        ValueV::AtomMap(m) => {
            let es = m.map_values(|p: (AtomV, AtomV)| pair_json(p));
            assert forall|i: int| 0 <= i < m.len() implies json_pair(es[i]) == Some(m[i]) by {
                lemma_atom_json_round_trip(m[i].0);
                lemma_atom_json_round_trip(m[i].1);
            }
            assert forall|i: int| 0 <= i < es.len() implies (#[trigger] json_pair(
                es[i],
            )) is Some by {
                assert(json_pair(es[i]) == Some(m[i]));
            }
            assert(es.map_values(|e: JsonV| json_pair(e)->Some_0) =~= m);
        },
    }
}

/// The identifier in a tagged `["uuid", text]` document whose text parses.
pub open spec fn extracted_uuid(j: JsonV) -> Option<u128> {
    match j {
        JsonV::Array(a) => if a.len() == 2 && a[0] == JsonV::Str(uuid_tag()) && a[1] is Str {
            parsed_uuid(a[1]->Str_0)
        } else {
            None
        },
        _ => None,
    }
}

/// Reads the identifier from its tagged form `["uuid", text]`.
pub fn extract_uuid(value: &Json) -> (r: Option<Uuid>)
    ensures
        r.deep_view() == extracted_uuid(value@),
{
    match value {
        Json::Array(items) => {
            proof {
                lemma_array_view(*items);
            }
            if items.len() != 2 {
                return None;
            }
            match (&items[0], &items[1]) {
                (Json::Str(tag), Json::Str(text)) => {
                    if str_eq(tag.as_str(), uuid_tag_text()) {
                        Uuid::parse_str(text.as_str())
                    } else {
                        None
                    }
                },
                _ => None,
            }
        },
        _ => None,
    }
}

} // verus!
