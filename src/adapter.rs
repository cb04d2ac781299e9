//! The per-frame rewrite between the peer's JSON-RPC dialect and
//! JSON-RPC 2.0. Frames that are not objects pass through unchanged.
use vstd::prelude::*;
use crate::json::{
    entries_view, find_member, get_key, has_key, items_view, key_pos, lemma_array_view,
    lemma_key_pos_bounds, lemma_object_view, lemma_remove_absent, remove_key, set_key, str_eq,
    Entries, Json, JsonV,
};

verus! {

broadcast use vstd::string::to_string_from_display_ensures_for_str;

pub open spec fn method_key() -> Seq<char> {
    seq!['m', 'e', 't', 'h', 'o', 'd']
}

pub open spec fn update_method() -> Seq<char> {
    seq!['u', 'p', 'd', 'a', 't', 'e']
}

pub open spec fn jsonrpc_key() -> Seq<char> {
    seq!['j', 's', 'o', 'n', 'r', 'p', 'c']
}

pub open spec fn version_two() -> Seq<char> {
    seq!['2', '.', '0']
}

pub open spec fn params_key() -> Seq<char> {
    seq!['p', 'a', 'r', 'a', 'm', 's']
}

pub open spec fn result_key() -> Seq<char> {
    seq!['r', 'e', 's', 'u', 'l', 't']
}

pub open spec fn error_key() -> Seq<char> {
    seq!['e', 'r', 'r', 'o', 'r']
}

pub open spec fn id_key() -> Seq<char> {
    seq!['i', 'd']
}

/// Whether an outbound frame is an `update` call, which the peer never
/// registered and which is therefore never sent.
pub open spec fn is_update_call(f: JsonV) -> bool {
    f is Object && get_key(f->Object_0, method_key()) == Some(JsonV::Str(update_method()))
}

/// The frame to send for an outbound frame, or `None` when nothing is sent:
/// `jsonrpc` is removed and a missing `params` becomes `[]`.
pub open spec fn outbound_frame(f: JsonV) -> Option<JsonV> {
    if is_update_call(f) {
        None
    } else {
        match f {
            JsonV::Object(es) => {
                let es1 = remove_key(es, jsonrpc_key());
                if has_key(es1, params_key()) {
                    Some(JsonV::Object(es1))
                } else {
                    Some(JsonV::Object(es1.push((params_key(), JsonV::Array(Seq::empty())))))
                }
            },
            _ => Some(f),
        }
    }
}

/// The frame handed on for an inbound frame: `jsonrpc` is set to `"2.0"`,
/// `error` goes when `result` is there, and a null `id` goes.
pub open spec fn inbound_frame(f: JsonV) -> JsonV {
    match f {
        JsonV::Object(es) => {
            let es1 = set_key(es, jsonrpc_key(), JsonV::Str(version_two()));
            let es2 = if has_key(es1, result_key()) {
                remove_key(es1, error_key())
            } else {
                es1
            };
            let es3 = if get_key(es2, id_key()) == Some(JsonV::Null) {
                remove_key(es2, id_key())
            } else {
                es2
            };
            JsonV::Object(es3)
        },
        _ => f,
    }
}

proof fn lemma_remove_key_step(s: Entries, k: Seq<char>, j: int)
    requires
        0 <= j < s.len(),
    ensures
        remove_key(s.subrange(0, j + 1), k) == if s[j].0 != k {
            remove_key(s.subrange(0, j), k).push(s[j])
        } else {
            remove_key(s.subrange(0, j), k)
        },
{
    reveal(Seq::filter);
    let t = s.subrange(0, j + 1);
    assert(t.drop_last() =~= s.subrange(0, j));
    assert(t.last() == s[j]);
}

/// Removes every member named `key`, keeping the order of the others.
fn remove_member(es: &mut Vec<(String, Json)>, key: &str)
    ensures
        entries_view(final(es)@) == remove_key(entries_view(old(es)@), key@),
{
    let ghost orig = entries_view(es@);
    let ghost mut kept: Entries = Seq::empty();
    let ghost mut j: int = 0;
    let mut i: usize = 0;
    proof {
        assert(orig.subrange(0, 0) =~= Seq::<(Seq<char>, JsonV)>::empty());
        reveal(Seq::filter);
        assert(entries_view(es@) =~= kept + orig.subrange(j, orig.len() as int));
    }
    while i < es.len()
        invariant
            0 <= j <= orig.len(),
            kept.len() == i,
            kept == remove_key(orig.subrange(0, j), key@),
            entries_view(es@) =~= kept + orig.subrange(j, orig.len() as int),
        decreases es.len() - i,
    {
        proof {
            lemma_remove_key_step(orig, key@, j);
            assert(orig[j] == entries_view(es@)[i as int]);
        }
        if str_eq(es[i].0.as_str(), key) {
            let ghost before = entries_view(es@);
            es.remove(i);
            proof {
                j = j + 1;
                assert(entries_view(es@) =~= before.remove(i as int));
                assert(entries_view(es@) =~= kept + orig.subrange(j, orig.len() as int));
            }
        } else {
            proof {
                kept = kept.push(orig[j]);
                j = j + 1;
                assert(entries_view(es@) =~= kept + orig.subrange(j, orig.len() as int));
            }
            i += 1;
        }
    }
    proof {
        assert(orig.subrange(0, j) =~= orig);
        assert(entries_view(es@) =~= kept);
    }
}

/// Sets member `key` to `value`, in place of the first member so named or
/// after the others.
fn set_member(es: &mut Vec<(String, Json)>, key: &str, value: Json)
    ensures
        entries_view(final(es)@) == set_key(entries_view(old(es)@), key@, value@),
{
    let ghost ev = entries_view(es@);
    let p = find_member(es, key);
    proof {
        lemma_key_pos_bounds(ev, key@, 0);
    }
    if p < es.len() {
        es.remove(p);
        es.insert(p, (key.to_string(), value));
        proof {
            assert(entries_view(es@) =~= ev.update(p as int, (key@, value@)));
        }
    } else {
        es.push((key.to_string(), value));
        proof {
            assert(entries_view(es@) =~= ev.push((key@, value@)));
        }
    }
}

/// Whether the member named `key` is there.
fn has_member(es: &Vec<(String, Json)>, key: &str) -> (r: bool)
    ensures
        r == has_key(entries_view(es@), key@),
{
    find_member(es, key) < es.len()
}

fn method_text() -> (r: &'static str)
    ensures
        r@ == method_key(),
{
    proof {
        reveal_strlit("method");
    }
    "method"
}

fn update_text() -> (r: &'static str)
    ensures
        r@ == update_method(),
{
    proof {
        reveal_strlit("update");
    }
    "update"
}

fn jsonrpc_text() -> (r: &'static str)
    ensures
        r@ == jsonrpc_key(),
{
    proof {
        reveal_strlit("jsonrpc");
    }
    "jsonrpc"
}

fn version_text() -> (r: &'static str)
    ensures
        r@ == version_two(),
{
    proof {
        reveal_strlit("2.0");
    }
    "2.0"
}

fn params_text() -> (r: &'static str)
    ensures
        r@ == params_key(),
{
    proof {
        reveal_strlit("params");
    }
    "params"
}

fn result_text() -> (r: &'static str)
    ensures
        r@ == result_key(),
{
    proof {
        reveal_strlit("result");
    }
    "result"
}

fn error_text() -> (r: &'static str)
    ensures
        r@ == error_key(),
{
    proof {
        reveal_strlit("error");
    }
    "error"
}

fn id_text() -> (r: &'static str)
    ensures
        r@ == id_key(),
{
    proof {
        reveal_strlit("id");
    }
    "id"
}

/// Rewrites a frame on its way to the peer; `None` means that nothing is
/// to be written.
pub fn rewrite_outbound(frame: Json) -> (r: Option<Json>)
    ensures
        is_update_call(frame@) ==> r is None,
        match outbound_frame(frame@) {
            Some(f) => r is Some && r->Some_0@ == f,
            None => r is None,
        },
{
    match frame {
        Json::Object(es) => {
            proof {
                lemma_object_view(es);
            }
            let mut es = es;
            let ghost ev = entries_view(es@);
            let m = find_member(&es, method_text());
            proof {
                lemma_key_pos_bounds(ev, method_key(), 0);
            }
            if m < es.len() {
                let is_update = match &es[m].1 {
                    Json::Str(s) => str_eq(s.as_str(), update_text()),
                    _ => false,
                };
                if is_update {
                    return None;
                }
            }
            remove_member(&mut es, jsonrpc_text());
            if !has_member(&es, params_text()) {
                let empty: Vec<Json> = Vec::new();
                proof {
                    lemma_array_view(empty);
                    assert(items_view(empty@) =~= Seq::empty());
                }
                let ghost before = entries_view(es@);
                es.push((params_text().to_string(), Json::Array(empty)));
                proof {
                    assert(entries_view(es@) =~= before.push(
                        (params_key(), JsonV::Array(Seq::empty())),
                    ));
                }
            }
            proof {
                lemma_object_view(es);
            }
            Some(Json::Object(es))
        },
        other => Some(other),
    }
}

/// Rewrites a frame on its way from the peer. A frame that is not an
/// object cannot be repaired: `None` reports it as a protocol error.
pub fn rewrite_inbound(frame: Json) -> (r: Option<Json>)
    ensures
        (r is Some) <==> (frame@ is Object),
        r matches Some(f) ==> f@ == inbound_frame(frame@),
{
    match frame {
        Json::Object(es) => {
            proof {
                lemma_object_view(es);
            }
            let mut es = es;
            set_member(&mut es, jsonrpc_text(), Json::Str(version_text().to_string()));
            if has_member(&es, result_text()) {
                remove_member(&mut es, error_text());
            }
            let ghost ev = entries_view(es@);
            let p = find_member(&es, id_text());
            proof {
                lemma_key_pos_bounds(ev, id_key(), 0);
            }
            if p < es.len() && es[p].1.is_null() {
                remove_member(&mut es, id_text());
            }
            proof {
                lemma_object_view(es);
            }
            Some(Json::Object(es))
        },
        _ => None,
    }
}

/// An inbound frame that already says `jsonrpc: "2.0"`, does not carry both
/// `result` and `error`, and has no null `id` is handed on unchanged.
pub proof fn lemma_clean_inbound_frame_unchanged(f: JsonV)
    requires
        f is Object,
        get_key(f->Object_0, jsonrpc_key()) == Some(JsonV::Str(version_two())),
        !(has_key(f->Object_0, result_key()) && has_key(f->Object_0, error_key())),
        get_key(f->Object_0, id_key()) != Some(JsonV::Null),
    ensures
        inbound_frame(f) == f,
{
    let es = f->Object_0;
    lemma_key_pos_bounds(es, jsonrpc_key(), 0);
    let p = key_pos(es, jsonrpc_key(), 0);
    assert(es[p as int] == (jsonrpc_key(), JsonV::Str(version_two())));
    let es1 = set_key(es, jsonrpc_key(), JsonV::Str(version_two()));
    assert(es1 =~= es);
    if has_key(es, result_key()) {
        lemma_remove_absent(es, error_key());
    }
}

} // verus!
