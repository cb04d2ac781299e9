//! Entities of the monitor operation.
use vstd::prelude::*;
use crate::json::{entries_view, items_view, lemma_array_view, lemma_object_view, Entries, Json, JsonV};

verus! {

broadcast use vstd::string::to_string_from_display_ensures_for_str;

/// Which kinds of row change a monitor reports.
#[derive(Clone, Debug, Default)]
pub struct MonitorRequestSelect {
    pub initial: Option<bool>,
    pub insert: Option<bool>,
    pub delete: Option<bool>,
    pub modify: Option<bool>,
}

/// What a monitor watches in one table: absent `columns` means all
/// columns, and an absent `select` lets the server report every change.
#[derive(Clone, Debug, Default)]
pub struct MonitorRequest {
    pub columns: Option<Vec<String>>,
    pub select: Option<MonitorRequestSelect>,
}

pub open spec fn opt_bool_json(b: Option<bool>) -> JsonV {
    match b {
        Some(v) => JsonV::Bool(v),
        None => JsonV::Null,
    }
}

/// The wire form of the select flags: each flag, `null` when unset.
pub open spec fn select_json(s: MonitorRequestSelect) -> JsonV {
    JsonV::Object(
        seq![
            ("initial"@, opt_bool_json(s.initial)),
            ("insert"@, opt_bool_json(s.insert)),
            ("delete"@, opt_bool_json(s.delete)),
            ("modify"@, opt_bool_json(s.modify)),
        ],
    )
}

/// The wire form of a monitor request: `columns` and `select` appear only
/// when they are set.
pub open spec fn monitor_request_json(columns: Option<Seq<Seq<char>>>, select: Option<MonitorRequestSelect>) -> JsonV {
    let c: Entries = match columns {
        Some(cs) => seq![("columns"@, JsonV::Array(cs.map_values(|x: Seq<char>| JsonV::Str(x))))],
        None => Seq::empty(),
    };
    let s: Entries = match select {
        Some(v) => seq![("select"@, select_json(v))],
        None => Seq::empty(),
    };
    JsonV::Object(c + s)
}

fn opt_bool_to_json(b: Option<bool>) -> (r: Json)
    ensures
        r@ == opt_bool_json(b),
{
    match b {
        Some(v) => Json::Bool(v),
        None => Json::Null,
    }
}

impl MonitorRequestSelect {
    /// The wire form of the flags.
    pub fn to_json(&self) -> (r: Json)
        ensures
            r@ == select_json(*self),
    {
        let es = vec![
            ("initial".to_string(), opt_bool_to_json(self.initial)),
            ("insert".to_string(), opt_bool_to_json(self.insert)),
            ("delete".to_string(), opt_bool_to_json(self.delete)),
            ("modify".to_string(), opt_bool_to_json(self.modify)),
        ];
        proof {
            lemma_object_view(es);
            assert(entries_view(es@) =~= select_json(*self)->Object_0);
        }
        Json::Object(es)
    }
}

impl MonitorRequest {
    /// The wire form of the request, without the members that are unset.
    pub fn to_json(&self) -> (r: Json)
        ensures
            r@ == monitor_request_json(self.columns.deep_view(), self.select),
    {
        let mut es: Vec<(String, Json)> = Vec::new();
        let ghost cv = self.columns.deep_view();
        match &self.columns {
            Some(cols) => {
                let mut items: Vec<Json> = Vec::new();
                let mut i: usize = 0;
                while i < cols.len()
                    invariant
                        i <= cols.len(),
                        cv == Some(cols.deep_view()),
                        items@.len() == i,
                        forall|k: int| 0 <= k < i ==> (#[trigger] items@[k])@ == JsonV::Str(cols@[k]@),
                    decreases cols.len() - i,
                {
                    items.push(Json::Str(cols[i].clone()));
                    i += 1;
                }
                proof {
                    lemma_array_view(items);
                    assert(items_view(items@) =~= cv->Some_0.map_values(|x: Seq<char>| JsonV::Str(x)));
                }
                es.push(("columns".to_string(), Json::Array(items)));
            },
            None => {},
        }
        match &self.select {
            Some(sel) => {
                es.push(("select".to_string(), sel.to_json()));
            },
            None => {},
        }
        proof {
            lemma_object_view(es);
            assert(entries_view(es@) =~= monitor_request_json(cv, self.select)->Object_0);
        }
        Json::Object(es)
    }
}

/// The change to one row: an insert has only `new`, a delete only `old`,
/// and a modification both.
#[derive(Debug)]
pub struct RowUpdate {
    pub old: Option<Json>,
    pub new: Option<Json>,
}

/// An `update` notification: the monitor's matcher and the table updates.
#[derive(Debug)]
pub struct UpdateNotification {
    pub id: Option<String>,
    pub message: Json,
}

/// Whether a document maps table names to objects of rows.
pub open spec fn is_table_update(t: JsonV) -> bool {
    &&& t is Object
    &&& forall|i: int| 0 <= i < t->Object_0.len() ==> (#[trigger] t->Object_0[i]).1 is Object
}

/// Whether notification parameters are well formed: a two-element array of
/// a matcher (null or a string) and table updates.
pub open spec fn notification_params_ok(p: JsonV) -> bool {
    &&& p is Array
    &&& p->Array_0.len() == 2
    &&& (p->Array_0[0] is Null || p->Array_0[0] is Str)
    &&& is_table_update(p->Array_0[1])
}

/// Whether every member is an object.
fn members_are_objects(es: &Vec<(String, Json)>) -> (r: bool)
    ensures
        r == forall|i: int| 0 <= i < es@.len() ==> (#[trigger] entries_view(es@)[i]).1 is Object,
{
    let ghost ev = entries_view(es@);
    let mut i: usize = 0;
    while i < es.len()
        invariant
            i <= es.len(),
            ev == entries_view(es@),
            forall|k: int| 0 <= k < i ==> (#[trigger] ev[k]).1 is Object,
        decreases es.len() - i,
    {
        match &es[i].1 {
            Json::Object(_) => {},
            _ => {
                assert(!(ev[i as int].1 is Object));
                return false;
            },
        }
        i += 1;
    }
    true
}

impl UpdateNotification {
    /// Reads the parameters `[matcher, table_updates]` of an `update`
    /// notification.
    pub fn from_params(params: Json) -> (r: Option<UpdateNotification>)
        ensures
            r is Some <==> notification_params_ok(params@),
            r matches Some(n) ==> {
                &&& n.message@ == params@->Array_0[1]
                &&& match params@->Array_0[0] {
                    JsonV::Str(s) => n.id is Some && n.id->Some_0@ == s,
                    _ => n.id is None,
                }
            },
    {
        match params {
            Json::Array(items) => {
                proof {
                    lemma_array_view(items);
                }
                let mut items = items;
                if items.len() != 2 {
                    return None;
                }
                let ghost v = items_view(items@);
                let message = items.pop().unwrap();
                let matcher = items.pop().unwrap();
                proof {
                    assert(message@ == v[1]);
                    assert(matcher@ == v[0]);
                }
                let ok = match &message {
                    Json::Object(es) => {
                        proof {
                            lemma_object_view(*es);
                        }
                        members_are_objects(es)
                    },
                    _ => false,
                };
                if !ok {
                    return None;
                }
                match matcher {
                    Json::Null => Some(UpdateNotification { id: None, message }),
                    Json::Str(s) => Some(UpdateNotification { id: Some(s), message }),
                    _ => None,
                }
            },
            _ => None,
        }
    }
}

} // verus!
