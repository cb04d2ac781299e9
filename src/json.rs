//! A JSON document model with a mathematical view.
use vstd::prelude::*;

verus! {

broadcast use vstd::string::to_string_from_display_ensures_for_str;

/// The mathematical form of a JSON document. Numbers that fit in a signed
/// 64-bit integer are `Int`; any other number is `Real`, held as the bit
/// pattern of its IEEE-754 double.
pub enum JsonV {
    Null,
    Bool(bool),
    Int(i64),
    Real(u64),
    Str(Seq<char>),
    Array(Seq<JsonV>),
    Object(Seq<(Seq<char>, JsonV)>),
}

/// A JSON document. An object keeps its members in order; a key is looked
/// up at its first occurrence.
#[derive(Debug, PartialEq)]
pub enum Json {
    Null,
    Bool(bool),
    Int(i64),
    Real(u64),
    Str(String),
    Array(Vec<Json>),
    Object(Vec<(String, Json)>),
}

pub type Entries = Seq<(Seq<char>, JsonV)>;

impl View for Json {
    type V = JsonV;

    open spec fn view(&self) -> JsonV {
        json_view(*self)
    }
}

/// The view of a document, member by member.
pub open spec fn json_view(j: Json) -> JsonV
    decreases j,
{
    match j {
        Json::Null => JsonV::Null,
        Json::Bool(b) => JsonV::Bool(b),
        Json::Int(i) => JsonV::Int(i),
        Json::Real(r) => JsonV::Real(r),
        Json::Str(s) => JsonV::Str(s@),
        Json::Array(items) => JsonV::Array(
            Seq::new(
                items.len() as nat,
                |i: int|
                    if 0 <= i < items.len() {
                        json_view(items[i])
                    } else {
                        JsonV::Null
                    },
            ),
        ),
        Json::Object(es) => JsonV::Object(
            Seq::new(
                es.len() as nat,
                |i: int|
                    if 0 <= i < es.len() {
                        (es[i].0@, json_view(es[i].1))
                    } else {
                        (Seq::empty(), JsonV::Null)
                    },
            ),
        ),
    }
}

/// The view of a sequence of documents.
pub open spec fn items_view(items: Seq<Json>) -> Seq<JsonV> {
    Seq::new(items.len(), |i: int| items[i]@)
}

/// The view of a sequence of object members.
pub open spec fn entries_view(es: Seq<(String, Json)>) -> Entries {
    Seq::new(es.len(), |i: int| (es[i].0@, es[i].1@))
}

pub proof fn lemma_array_view(items: Vec<Json>)
    ensures
        Json::Array(items)@ == JsonV::Array(items_view(items@)),
{
    let v = Json::Array(items)@->Array_0;
    assert(v.len() == items.len());
    assert forall|i: int| 0 <= i < v.len() implies #[trigger] v[i] == items@[i]@ by {
        assert(0 <= i < items.len());
    }
    assert(items_view(items@) =~= v);
}

pub proof fn lemma_object_view(es: Vec<(String, Json)>)
    ensures
        Json::Object(es)@ == JsonV::Object(entries_view(es@)),
{
    let v = Json::Object(es)@->Object_0;
    assert(v.len() == es@.len());
    assert forall|i: int| 0 <= i < v.len() implies #[trigger] v[i] == (es@[i].0@, es@[i].1@) by {
        assert(0 <= i < es.len());
    }
    assert(entries_view(es@) =~= v);
}

/// Position of the first member named `k` at or after `i`; `es.len()` when
/// there is none.
#[verifier::opaque]
pub open spec fn key_pos(es: Entries, k: Seq<char>, i: nat) -> nat
    decreases es.len() - i,
{
    if i >= es.len() {
        es.len()
    } else if es[i as int].0 == k {
        i
    } else {
        key_pos(es, k, i + 1)
    }
}

pub open spec fn has_key(es: Entries, k: Seq<char>) -> bool {
    key_pos(es, k, 0) < es.len()
}

/// The value of the first member named `k`.
pub open spec fn get_key(es: Entries, k: Seq<char>) -> Option<JsonV> {
    if has_key(es, k) {
        Some(es[key_pos(es, k, 0) as int].1)
    } else {
        None
    }
}

/// Sets member `k` to `v`: the first member so named is replaced in place,
/// or the member is appended.
pub open spec fn set_key(es: Entries, k: Seq<char>, v: JsonV) -> Entries {
    if has_key(es, k) {
        es.update(key_pos(es, k, 0) as int, (k, v))
    } else {
        es.push((k, v))
    }
}

/// Removes every member named `k`, keeping the order of the others.
pub open spec fn remove_key(es: Entries, k: Seq<char>) -> Entries {
    es.filter(|e: (Seq<char>, JsonV)| e.0 != k)
}

pub proof fn lemma_key_pos_bounds(es: Entries, k: Seq<char>, i: nat)
    requires
        i <= es.len(),
    ensures
        i <= key_pos(es, k, i) <= es.len(),
        key_pos(es, k, i) < es.len() ==> es[key_pos(es, k, i) as int].0 == k,
        forall|j: int| i <= j < key_pos(es, k, i) ==> es[j].0 != k,
    decreases es.len() - i,
{
    reveal(key_pos);
    if i < es.len() && es[i as int].0 != k {
        lemma_key_pos_bounds(es, k, i + 1);
    }
}

pub proof fn lemma_remove_absent(es: Entries, k: Seq<char>)
    requires
        !has_key(es, k),
    ensures
        remove_key(es, k) == es,
    decreases es.len(),
{
    reveal(Seq::filter);
    lemma_key_pos_bounds(es, k, 0);
    if es.len() > 0 {
        let init = es.drop_last();
        assert forall|j: int| 0 <= j < init.len() implies init[j].0 != k by {
            assert(init[j] == es[j]);
        }
        lemma_key_pos_none(init, k);
        lemma_remove_absent(init, k);
        assert(es.last().0 != k);
        assert(es == init.push(es.last()));
    } else {
        assert(remove_key(es, k) =~= es);
    }
}

pub proof fn lemma_key_pos_none(es: Entries, k: Seq<char>)
    requires
        forall|j: int| 0 <= j < es.len() ==> es[j].0 != k,
    ensures
        !has_key(es, k),
{
    lemma_key_pos_bounds(es, k, 0);
}

/// The first member named `k` is at `p` when it is named so and no earlier
/// one is.
proof fn lemma_key_pos_first(es: Entries, k: Seq<char>, p: int, i: nat)
    requires
        i <= p < es.len(),
        es[p].0 == k,
        forall|j: int| 0 <= j < p ==> es[j].0 != k,
    ensures
        key_pos(es, k, i) == p,
    decreases p - i,
{
    reveal(key_pos);
    if i < p {
        lemma_key_pos_first(es, k, p, i + 1);
    }
}

/// Looking up a member of two member lists joined: the first list wins.
pub proof fn lemma_get_key_append(a: Entries, b: Entries, k: Seq<char>)
    ensures
        get_key(a + b, k) == if has_key(a, k) {
            get_key(a, k)
        } else {
            get_key(b, k)
        },
        has_key(a + b, k) == (has_key(a, k) || has_key(b, k)),
{
    let ab = a + b;
    lemma_key_pos_bounds(a, k, 0);
    lemma_key_pos_bounds(b, k, 0);
    lemma_key_pos_bounds(ab, k, 0);
    if has_key(a, k) {
        let p = key_pos(a, k, 0) as int;
        assert(ab[p] == a[p]);
        assert forall|j: int| 0 <= j < p implies ab[j].0 != k by {
            assert(ab[j] == a[j]);
        }
        lemma_key_pos_first(ab, k, p, 0);
    } else if has_key(b, k) {
        let p = key_pos(b, k, 0) as int;
        assert(ab[a.len() + p] == b[p]);
        assert forall|j: int| 0 <= j < a.len() + p implies ab[j].0 != k by {
            if j < a.len() {
                assert(ab[j] == a[j]);
            } else {
                assert(ab[j] == b[j - a.len()]);
            }
        }
        lemma_key_pos_first(ab, k, a.len() + p, 0);
    } else {
        assert forall|j: int| 0 <= j < ab.len() implies ab[j].0 != k by {
            if j < a.len() {
                assert(ab[j] == a[j]);
            } else {
                assert(ab[j] == b[j - a.len()]);
            }
        }
        lemma_key_pos_none(ab, k);
    }
}

/// Member lists joined in order.
pub open spec fn join(parts: Seq<Entries>) -> Entries
    decreases parts.len(),
{
    if parts.len() == 0 {
        Seq::empty()
    } else {
        join(parts.drop_last()) + parts.last()
    }
}

pub proof fn lemma_join_push(parts: Seq<Entries>, e: Entries)
    ensures
        join(parts.push(e)) == join(parts) + e,
{
    assert(parts.push(e).drop_last() =~= parts);
}

proof fn lemma_join_absent(parts: Seq<Entries>, k: Seq<char>)
    requires
        forall|i: int| 0 <= i < parts.len() ==> !has_key(#[trigger] parts[i], k),
    ensures
        !has_key(join(parts), k),
    decreases parts.len(),
{
    if parts.len() > 0 {
        let init = parts.drop_last();
        assert forall|i: int| 0 <= i < init.len() implies !has_key(#[trigger] init[i], k) by {
            assert(init[i] == parts[i]);
        }
        lemma_join_absent(init, k);
        lemma_get_key_append(join(init), parts.last(), k);
    } else {
        lemma_key_pos_none(join(parts), k);
    }
}

/// Looking up a key in joined member lists of which only part `j` may have
/// it gives what part `j` gives.
pub proof fn lemma_get_key_join(parts: Seq<Entries>, j: int, k: Seq<char>)
    requires
        0 <= j < parts.len(),
        forall|i: int| 0 <= i < parts.len() && i != j ==> !has_key(#[trigger] parts[i], k),
    ensures
        get_key(join(parts), k) == get_key(parts[j], k),
        has_key(join(parts), k) == has_key(parts[j], k),
    decreases parts.len(),
{
    let init = parts.drop_last();
    let n = parts.len() - 1;
    lemma_get_key_append(join(init), parts.last(), k);
    if j == n {
        assert forall|i: int| 0 <= i < init.len() implies !has_key(#[trigger] init[i], k) by {
            assert(init[i] == parts[i]);
        }
        lemma_join_absent(init, k);
    } else {
        assert forall|i: int| 0 <= i < init.len() && i != j implies !has_key(#[trigger] init[i], k) by {
            assert(init[i] == parts[i]);
        }
        lemma_get_key_join(init, j, k);
        assert(!has_key(parts[n], k));
        assert(init[j] == parts[j]);
    }
}

/// Whether two strings hold the same characters.
pub fn str_eq(a: &str, b: &str) -> (r: bool)
    ensures
        r == (a@ == b@),
{
    let x = a.to_string();
    let y = b.to_string();
    x == y
}

impl Json {
    /// The value of member `key`, for an object that has one.
    pub fn get(&self, key: &str) -> (r: Option<&Json>)
        ensures
            match self@ {
                JsonV::Object(es) => match get_key(es, key@) {
                    Some(v) => r is Some && r->Some_0@ == v,
                    None => r is None,
                },
                _ => r is None,
            },
    {
        match self {
            Json::Object(es) => {
                proof {
                    lemma_object_view(*es);
                }
                let i = find_member(es, key);
                if i < es.len() {
                    Some(&es[i].1)
                } else {
                    None
                }
            },
            _ => None,
        }
    }

    /// The string, for a string.
    pub fn as_str(&self) -> (r: Option<&str>)
        ensures
            match self@ {
                JsonV::Str(s) => r is Some && r->Some_0@ == s,
                _ => r is None,
            },
    {
        match self {
            Json::Str(s) => Some(s.as_str()),
            _ => None,
        }
    }

    /// The integer, for a number that fits in an `i64`.
    pub fn as_i64(&self) -> (r: Option<i64>)
        ensures
            r == match self@ {
                JsonV::Int(i) => Some(i),
                _ => None::<i64>,
            },
    {
        match self {
            Json::Int(i) => Some(*i),
            _ => None,
        }
    }

    /// The boolean, for a boolean.
    pub fn as_bool(&self) -> (r: Option<bool>)
        ensures
            r == match self@ {
                JsonV::Bool(b) => Some(b),
                _ => None::<bool>,
            },
    {
        match self {
            Json::Bool(b) => Some(*b),
            _ => None,
        }
    }

    /// The elements, for an array.
    pub fn as_array(&self) -> (r: Option<&Vec<Json>>)
        ensures
            match self@ {
                JsonV::Array(items) => r is Some && items_view(r->Some_0@) == items,
                _ => r is None,
            },
    {
        match self {
            Json::Array(items) => {
                proof {
                    lemma_array_view(*items);
                }
                Some(items)
            },
            _ => None,
        }
    }

    pub fn is_array(&self) -> (r: bool)
        ensures
            r == self@ is Array,
    {
        match self {
            Json::Array(_) => true,
            _ => false,
        }
    }

    pub fn is_null(&self) -> (r: bool)
        ensures
            r == self@ is Null,
    {
        match self {
            Json::Null => true,
            _ => false,
        }
    }
}

/// Index of the first member named `key`; `es.len()` when there is none.
pub fn find_member(es: &Vec<(String, Json)>, key: &str) -> (r: usize)
    ensures
        r == key_pos(entries_view(es@), key@, 0),
{
    let ghost ev = entries_view(es@);
    let mut i: usize = 0;
    while i < es.len()
        invariant
            i <= es.len(),
            ev == entries_view(es@),
            key_pos(ev, key@, 0) == key_pos(ev, key@, i as nat),
        decreases es.len() - i,
    {
        proof {
            lemma_key_pos_step(ev, key@, i as nat);
        }
        if str_eq(es[i].0.as_str(), key) {
            return i;
        }
        i += 1;
    }
    proof {
        lemma_key_pos_step(ev, key@, i as nat);
    }
    i
}

/// One step of the search for a member.
pub proof fn lemma_key_pos_step(es: Entries, k: Seq<char>, i: nat)
    ensures
        i >= es.len() ==> key_pos(es, k, i) == es.len(),
        i < es.len() ==> key_pos(es, k, i) == if es[i as int].0 == k {
            i
        } else {
            key_pos(es, k, i + 1)
        },
{
    reveal(key_pos);
}

} // verus!
