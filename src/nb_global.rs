//! The `NB_Global` row of the OVN northbound database as a record: every
//! column is optional, and the row carries its `_uuid` and `_version`.
use vstd::prelude::*;
use crate::codec::{atom_json, extract_uuid, extracted_uuid, lemma_atom_json_round_trip, value_json};
use crate::json::{
    entries_view, join, lemma_get_key_join, lemma_join_push, get_key, has_key, lemma_object_view,
    Entries, Json, JsonV,
};
use crate::serializable::{
    from_ovsdb_json, json_decode_spec, lemma_json_field_round_trip, to_ovsdb_json, OvsdbMap,
    OvsdbSerializable,
};
use crate::uuid_text::{lemma_uuid_text_round_trip, Uuid};
use crate::value::{AtomV, ValueV};

verus! {

broadcast use vstd::string::to_string_from_display_ensures_for_str;

/// A field that could not be read, by name.
#[derive(Debug)]
pub struct DecodeError {
    pub field: String,
}

/// The `NB_Global` table's row.
#[derive(Debug, PartialEq)]
pub struct NbGlobal {
    pub name: Option<String>,
    pub nb_cfg: Option<i64>,
    pub nb_cfg_timestamp: Option<i64>,
    pub sb_cfg: Option<i64>,
    pub sb_cfg_timestamp: Option<i64>,
    pub hv_cfg: Option<i64>,
    pub hv_cfg_timestamp: Option<i64>,
    pub external_ids: Option<OvsdbMap<String, String>>,
    pub connections: Option<Vec<Uuid>>,
    pub ssl: Option<Vec<Uuid>>,
    pub options: Option<OvsdbMap<String, String>>,
    pub ipsec: Option<bool>,
    pub _uuid: Option<Uuid>,
    pub _version: Option<Uuid>,
}

/// The mathematical form of a row.
pub struct NbGlobalV {
    pub name: Option<Seq<char>>,
    pub nb_cfg: Option<i64>,
    pub nb_cfg_timestamp: Option<i64>,
    pub sb_cfg: Option<i64>,
    pub sb_cfg_timestamp: Option<i64>,
    pub hv_cfg: Option<i64>,
    pub hv_cfg_timestamp: Option<i64>,
    pub external_ids: Option<Seq<(Seq<char>, Seq<char>)>>,
    pub connections: Option<Seq<u128>>,
    pub ssl: Option<Seq<u128>>,
    pub options: Option<Seq<(Seq<char>, Seq<char>)>>,
    pub ipsec: Option<bool>,
    pub _uuid: Option<u128>,
    pub _version: Option<u128>,
}

impl DeepView for NbGlobal {
    type V = NbGlobalV;

    open spec fn deep_view(&self) -> NbGlobalV {
        NbGlobalV {
            name: self.name.deep_view(),
            nb_cfg: self.nb_cfg.deep_view(),
            nb_cfg_timestamp: self.nb_cfg_timestamp.deep_view(),
            sb_cfg: self.sb_cfg.deep_view(),
            sb_cfg_timestamp: self.sb_cfg_timestamp.deep_view(),
            hv_cfg: self.hv_cfg.deep_view(),
            hv_cfg_timestamp: self.hv_cfg_timestamp.deep_view(),
            external_ids: self.external_ids.deep_view(),
            connections: self.connections.deep_view(),
            ssl: self.ssl.deep_view(),
            options: self.options.deep_view(),
            ipsec: self.ipsec.deep_view(),
            _uuid: self._uuid.deep_view(),
            _version: self._version.deep_view(),
        }
    }
}

pub open spec fn key_name() -> Seq<char> {
    seq!['n', 'a', 'm', 'e']
}

fn text_name() -> (r: &'static str)
    ensures
        r@ == key_name(),
{
    proof {
        reveal_strlit("name");
    }
    "name"
}

pub open spec fn key_nb_cfg() -> Seq<char> {
    seq!['n', 'b', '_', 'c', 'f', 'g']
}

fn text_nb_cfg() -> (r: &'static str)
    ensures
        r@ == key_nb_cfg(),
{
    proof {
        reveal_strlit("nb_cfg");
    }
    "nb_cfg"
}

pub open spec fn key_nb_cfg_timestamp() -> Seq<char> {
    seq!['n', 'b', '_', 'c', 'f', 'g', '_', 't', 'i', 'm', 'e', 's', 't', 'a', 'm', 'p']
}

fn text_nb_cfg_timestamp() -> (r: &'static str)
    ensures
        r@ == key_nb_cfg_timestamp(),
{
    proof {
        reveal_strlit("nb_cfg_timestamp");
    }
    "nb_cfg_timestamp"
}

pub open spec fn key_sb_cfg() -> Seq<char> {
    seq!['s', 'b', '_', 'c', 'f', 'g']
}

fn text_sb_cfg() -> (r: &'static str)
    ensures
        r@ == key_sb_cfg(),
{
    proof {
        reveal_strlit("sb_cfg");
    }
    "sb_cfg"
}

pub open spec fn key_sb_cfg_timestamp() -> Seq<char> {
    seq!['s', 'b', '_', 'c', 'f', 'g', '_', 't', 'i', 'm', 'e', 's', 't', 'a', 'm', 'p']
}

fn text_sb_cfg_timestamp() -> (r: &'static str)
    ensures
        r@ == key_sb_cfg_timestamp(),
{
    proof {
        reveal_strlit("sb_cfg_timestamp");
    }
    "sb_cfg_timestamp"
}

pub open spec fn key_hv_cfg() -> Seq<char> {
    seq!['h', 'v', '_', 'c', 'f', 'g']
}

fn text_hv_cfg() -> (r: &'static str)
    ensures
        r@ == key_hv_cfg(),
{
    proof {
        reveal_strlit("hv_cfg");
    }
    "hv_cfg"
}

pub open spec fn key_hv_cfg_timestamp() -> Seq<char> {
    seq!['h', 'v', '_', 'c', 'f', 'g', '_', 't', 'i', 'm', 'e', 's', 't', 'a', 'm', 'p']
}

fn text_hv_cfg_timestamp() -> (r: &'static str)
    ensures
        r@ == key_hv_cfg_timestamp(),
{
    proof {
        reveal_strlit("hv_cfg_timestamp");
    }
    "hv_cfg_timestamp"
}

pub open spec fn key_external_ids() -> Seq<char> {
    seq!['e', 'x', 't', 'e', 'r', 'n', 'a', 'l', '_', 'i', 'd', 's']
}

fn text_external_ids() -> (r: &'static str)
    ensures
        r@ == key_external_ids(),
{
    proof {
        reveal_strlit("external_ids");
    }
    "external_ids"
}

pub open spec fn key_connections() -> Seq<char> {
    seq!['c', 'o', 'n', 'n', 'e', 'c', 't', 'i', 'o', 'n', 's']
}

fn text_connections() -> (r: &'static str)
    ensures
        r@ == key_connections(),
{
    proof {
        reveal_strlit("connections");
    }
    "connections"
}

pub open spec fn key_ssl() -> Seq<char> {
    seq!['s', 's', 'l']
}

fn text_ssl() -> (r: &'static str)
    ensures
        r@ == key_ssl(),
{
    proof {
        reveal_strlit("ssl");
    }
    "ssl"
}

pub open spec fn key_options() -> Seq<char> {
    seq!['o', 'p', 't', 'i', 'o', 'n', 's']
}

fn text_options() -> (r: &'static str)
    ensures
        r@ == key_options(),
{
    proof {
        reveal_strlit("options");
    }
    "options"
}

pub open spec fn key_ipsec() -> Seq<char> {
    seq!['i', 'p', 's', 'e', 'c']
}

fn text_ipsec() -> (r: &'static str)
    ensures
        r@ == key_ipsec(),
{
    proof {
        reveal_strlit("ipsec");
    }
    "ipsec"
}

pub open spec fn key_uuid() -> Seq<char> {
    seq!['_', 'u', 'u', 'i', 'd']
}

fn text_uuid() -> (r: &'static str)
    ensures
        r@ == key_uuid(),
{
    proof {
        reveal_strlit("_uuid");
    }
    "_uuid"
}

pub open spec fn key_version() -> Seq<char> {
    seq!['_', 'v', 'e', 'r', 's', 'i', 'o', 'n']
}

fn text_version() -> (r: &'static str)
    ensures
        r@ == key_version(),
{
    proof {
        reveal_strlit("_version");
    }
    "_version"
}

/// The member that a field contributes to the map: none when absent.
#[verifier::opaque]
pub open spec fn field_entry<T: OvsdbSerializable>(
    name: Seq<char>,
    x: Option<<T as DeepView>::V>,
) -> Entries {
    match x {
        Some(y) => seq![(name, value_json(T::encode_spec(y)))],
        None => Seq::empty(),
    }
}

/// The members of a row's map, in the order of its fields.
pub open spec fn nb_global_entries(r: NbGlobalV) -> Entries {
    join(nb_global_parts(r))
}

/// The members that each field contributes, in the order of the fields.
pub open spec fn nb_global_parts(r: NbGlobalV) -> Seq<Entries> {
    seq![
        field_entry::<String>(key_name(), r.name),
        field_entry::<i64>(key_nb_cfg(), r.nb_cfg),
        field_entry::<i64>(key_nb_cfg_timestamp(), r.nb_cfg_timestamp),
        field_entry::<i64>(key_sb_cfg(), r.sb_cfg),
        field_entry::<i64>(key_sb_cfg_timestamp(), r.sb_cfg_timestamp),
        field_entry::<i64>(key_hv_cfg(), r.hv_cfg),
        field_entry::<i64>(key_hv_cfg_timestamp(), r.hv_cfg_timestamp),
        field_entry::<OvsdbMap<String, String>>(key_external_ids(), r.external_ids),
        field_entry::<Vec<Uuid>>(key_connections(), r.connections),
        field_entry::<Vec<Uuid>>(key_ssl(), r.ssl),
        field_entry::<OvsdbMap<String, String>>(key_options(), r.options),
        field_entry::<bool>(key_ipsec(), r.ipsec),
        field_entry::<Uuid>(key_uuid(), r._uuid),
        field_entry::<Uuid>(key_version(), r._version),
    ]
}

/// The names of the fields, in order.
pub open spec fn field_names() -> Seq<Seq<char>> {
    seq![key_name(), key_nb_cfg(), key_nb_cfg_timestamp(), key_sb_cfg(), key_sb_cfg_timestamp(), key_hv_cfg(), key_hv_cfg_timestamp(), key_external_ids(), key_connections(), key_ssl(), key_options(), key_ipsec(), key_uuid(), key_version()]
}

/// How field `name` reads from a map: `Some(None)` when absent, `None` when
/// present but unreadable.
pub open spec fn read_field_spec<T: OvsdbSerializable>(
    m: JsonV,
    name: Seq<char>,
) -> Option<Option<<T as DeepView>::V>> {
    match m {
        JsonV::Object(es) => match get_key(es, name) {
            Some(j) => match json_decode_spec::<T>(j) {
                Some(x) => Some(Some(x)),
                None => None,
            },
            None => Some(None),
        },
        _ => Some(None),
    }
}

/// The identifier under `name`, when it is there in the tagged form.
pub open spec fn read_uuid_spec(m: JsonV, name: Seq<char>) -> Option<u128> {
    match m {
        JsonV::Object(es) => match get_key(es, name) {
            Some(j) => extracted_uuid(j),
            None => None,
        },
        _ => None,
    }
}

/// The row that a map reads as, or the name of the first field, in field
/// order, that is present but cannot be read.
pub open spec fn nb_global_from_spec(m: JsonV) -> Result<NbGlobalV, Seq<char>> {
    if read_field_spec::<String>(m, key_name()) is None {
        Err(key_name())
    } else if read_field_spec::<i64>(m, key_nb_cfg()) is None {
        Err(key_nb_cfg())
    } else if read_field_spec::<i64>(m, key_nb_cfg_timestamp()) is None {
        Err(key_nb_cfg_timestamp())
    } else if read_field_spec::<i64>(m, key_sb_cfg()) is None {
        Err(key_sb_cfg())
    } else if read_field_spec::<i64>(m, key_sb_cfg_timestamp()) is None {
        Err(key_sb_cfg_timestamp())
    } else if read_field_spec::<i64>(m, key_hv_cfg()) is None {
        Err(key_hv_cfg())
    } else if read_field_spec::<i64>(m, key_hv_cfg_timestamp()) is None {
        Err(key_hv_cfg_timestamp())
    } else if read_field_spec::<OvsdbMap<String, String>>(m, key_external_ids()) is None {
        Err(key_external_ids())
    } else if read_field_spec::<Vec<Uuid>>(m, key_connections()) is None {
        Err(key_connections())
    } else if read_field_spec::<Vec<Uuid>>(m, key_ssl()) is None {
        Err(key_ssl())
    } else if read_field_spec::<OvsdbMap<String, String>>(m, key_options()) is None {
        Err(key_options())
    } else if read_field_spec::<bool>(m, key_ipsec()) is None {
        Err(key_ipsec())
    } else {
        Ok(NbGlobalV {
            name: read_field_spec::<String>(m, key_name())->Some_0,
            nb_cfg: read_field_spec::<i64>(m, key_nb_cfg())->Some_0,
            nb_cfg_timestamp: read_field_spec::<i64>(m, key_nb_cfg_timestamp())->Some_0,
            sb_cfg: read_field_spec::<i64>(m, key_sb_cfg())->Some_0,
            sb_cfg_timestamp: read_field_spec::<i64>(m, key_sb_cfg_timestamp())->Some_0,
            hv_cfg: read_field_spec::<i64>(m, key_hv_cfg())->Some_0,
            hv_cfg_timestamp: read_field_spec::<i64>(m, key_hv_cfg_timestamp())->Some_0,
            external_ids: read_field_spec::<OvsdbMap<String, String>>(m, key_external_ids())->Some_0,
            connections: read_field_spec::<Vec<Uuid>>(m, key_connections())->Some_0,
            ssl: read_field_spec::<Vec<Uuid>>(m, key_ssl())->Some_0,
            options: read_field_spec::<OvsdbMap<String, String>>(m, key_options())->Some_0,
            ipsec: read_field_spec::<bool>(m, key_ipsec())->Some_0,
            _uuid: read_uuid_spec(m, key_uuid()),
            _version: read_uuid_spec(m, key_version()),
        })
    }
}

/// Adds the member of a present field to a map under construction.
pub fn put_field<T: OvsdbSerializable>(es: &mut Vec<(String, Json)>, name: &str, field: &Option<T>)
    requires
        match field {
            Some(x) => T::encodable(x.deep_view()),
            None => true,
        },
    ensures
        entries_view(final(es)@) == entries_view(old(es)@) + field_entry::<T>(name@, field.deep_view()),
{
    let ghost before = entries_view(es@);
    proof {
        reveal(field_entry);
    }
    match field {
        Some(x) => {
            es.push((name.to_string(), to_ovsdb_json(x)));
            proof {
                assert(entries_view(es@) =~= before + field_entry::<T>(name@, field.deep_view()));
            }
        },
        None => {
            proof {
                assert(entries_view(es@) =~= before + field_entry::<T>(name@, field.deep_view()));
            }
        },
    }
}

/// Reads field `name` of a map: absent, present and readable, or an error
/// naming the field.
pub fn read_field<T: OvsdbSerializable>(map: &Json, name: &str) -> (r: Result<Option<T>, DecodeError>)
    ensures
        match read_field_spec::<T>(map@, name@) {
            Some(x) => r is Ok && r->Ok_0.deep_view() == x,
            None => r is Err && r->Err_0.field@ == name@,
        },
{
    match map.get(name) {
        Some(v) => match from_ovsdb_json::<T>(v) {
            Some(x) => Ok(Some(x)),
            None => Err(DecodeError { field: name.to_string() }),
        },
        None => Ok(None),
    }
}

/// Reads an identifier in its tagged form under `name`, if there is one.
pub fn read_uuid(map: &Json, name: &str) -> (r: Option<Uuid>)
    ensures
        r.deep_view() == read_uuid_spec(map@, name@),
{
    match map.get(name) {
        Some(v) => extract_uuid(v),
        None => None,
    }
}

impl Default for NbGlobal {
    /// The same row as `NbGlobal::new`.
    fn default() -> (r: NbGlobal)
        ensures
            r.name is None,
            r.nb_cfg is None,
            r.nb_cfg_timestamp is None,
            r.sb_cfg is None,
            r.sb_cfg_timestamp is None,
            r.hv_cfg is None,
            r.hv_cfg_timestamp is None,
            r.external_ids is None,
            r.connections is None,
            r.ssl is None,
            r.options is None,
            r.ipsec is None,
            r._uuid is None,
            r._version is None,
    {
        NbGlobal::new()
    }
}

impl NbGlobal {
    /// A row with every field absent.
    pub fn new() -> (r: NbGlobal)
        ensures
            r.name is None,
            r.nb_cfg is None,
            r.nb_cfg_timestamp is None,
            r.sb_cfg is None,
            r.sb_cfg_timestamp is None,
            r.hv_cfg is None,
            r.hv_cfg_timestamp is None,
            r.external_ids is None,
            r.connections is None,
            r.ssl is None,
            r.options is None,
            r.ipsec is None,
            r._uuid is None,
            r._version is None,
    {
        NbGlobal {
            name: None,
            nb_cfg: None,
            nb_cfg_timestamp: None,
            sb_cfg: None,
            sb_cfg_timestamp: None,
            hv_cfg: None,
            hv_cfg_timestamp: None,
            external_ids: None,
            connections: None,
            ssl: None,
            options: None,
            ipsec: None,
            _uuid: None,
            _version: None,
        }
    }

    /// The map from field names to the JSON form of each present field.
    pub fn to_map(&self) -> (r: Json)
        ensures
            r@ == JsonV::Object(nb_global_entries(self.deep_view())),
    {
        let mut es: Vec<(String, Json)> = Vec::new();
        let ghost r = self.deep_view();
        let ghost mut parts: Seq<Entries> = Seq::empty();
        proof {
            assert(entries_view(es@) =~= join(parts));
        }
        put_field(&mut es, text_name(), &self.name);
        proof {
            lemma_join_push(parts, field_entry::<String>(key_name(), r.name));
            parts = parts.push(field_entry::<String>(key_name(), r.name));
        }
        put_field(&mut es, text_nb_cfg(), &self.nb_cfg);
        proof {
            lemma_join_push(parts, field_entry::<i64>(key_nb_cfg(), r.nb_cfg));
            parts = parts.push(field_entry::<i64>(key_nb_cfg(), r.nb_cfg));
        }
        put_field(&mut es, text_nb_cfg_timestamp(), &self.nb_cfg_timestamp);
        proof {
            lemma_join_push(parts, field_entry::<i64>(key_nb_cfg_timestamp(), r.nb_cfg_timestamp));
            parts = parts.push(field_entry::<i64>(key_nb_cfg_timestamp(), r.nb_cfg_timestamp));
        }
        put_field(&mut es, text_sb_cfg(), &self.sb_cfg);
        proof {
            lemma_join_push(parts, field_entry::<i64>(key_sb_cfg(), r.sb_cfg));
            parts = parts.push(field_entry::<i64>(key_sb_cfg(), r.sb_cfg));
        }
        put_field(&mut es, text_sb_cfg_timestamp(), &self.sb_cfg_timestamp);
        proof {
            lemma_join_push(parts, field_entry::<i64>(key_sb_cfg_timestamp(), r.sb_cfg_timestamp));
            parts = parts.push(field_entry::<i64>(key_sb_cfg_timestamp(), r.sb_cfg_timestamp));
        }
        put_field(&mut es, text_hv_cfg(), &self.hv_cfg);
        proof {
            lemma_join_push(parts, field_entry::<i64>(key_hv_cfg(), r.hv_cfg));
            parts = parts.push(field_entry::<i64>(key_hv_cfg(), r.hv_cfg));
        }
        put_field(&mut es, text_hv_cfg_timestamp(), &self.hv_cfg_timestamp);
        proof {
            lemma_join_push(parts, field_entry::<i64>(key_hv_cfg_timestamp(), r.hv_cfg_timestamp));
            parts = parts.push(field_entry::<i64>(key_hv_cfg_timestamp(), r.hv_cfg_timestamp));
        }
        put_field(&mut es, text_external_ids(), &self.external_ids);
        proof {
            lemma_join_push(parts, field_entry::<OvsdbMap<String, String>>(key_external_ids(), r.external_ids));
            parts = parts.push(field_entry::<OvsdbMap<String, String>>(key_external_ids(), r.external_ids));
        }
        put_field(&mut es, text_connections(), &self.connections);
        proof {
            lemma_join_push(parts, field_entry::<Vec<Uuid>>(key_connections(), r.connections));
            parts = parts.push(field_entry::<Vec<Uuid>>(key_connections(), r.connections));
        }
        put_field(&mut es, text_ssl(), &self.ssl);
        proof {
            lemma_join_push(parts, field_entry::<Vec<Uuid>>(key_ssl(), r.ssl));
            parts = parts.push(field_entry::<Vec<Uuid>>(key_ssl(), r.ssl));
        }
        put_field(&mut es, text_options(), &self.options);
        proof {
            lemma_join_push(parts, field_entry::<OvsdbMap<String, String>>(key_options(), r.options));
            parts = parts.push(field_entry::<OvsdbMap<String, String>>(key_options(), r.options));
        }
        put_field(&mut es, text_ipsec(), &self.ipsec);
        proof {
            lemma_join_push(parts, field_entry::<bool>(key_ipsec(), r.ipsec));
            parts = parts.push(field_entry::<bool>(key_ipsec(), r.ipsec));
        }
        put_field(&mut es, text_uuid(), &self._uuid);
        proof {
            lemma_join_push(parts, field_entry::<Uuid>(key_uuid(), r._uuid));
            parts = parts.push(field_entry::<Uuid>(key_uuid(), r._uuid));
        }
        put_field(&mut es, text_version(), &self._version);
        proof {
            lemma_join_push(parts, field_entry::<Uuid>(key_version(), r._version));
            parts = parts.push(field_entry::<Uuid>(key_version(), r._version));
        }
        proof {
            assert(parts == nb_global_parts(r));
        }
        proof {
            lemma_object_view(es);
            assert(entries_view(es@) == nb_global_entries(self.deep_view()));
        }
        Json::Object(es)
    }

    /// Reads a row from a map: absent fields stay absent, and the first
    /// present field that cannot be read is named in the error.
    pub fn from_map(map: &Json) -> (r: Result<NbGlobal, DecodeError>)
        ensures
            match nb_global_from_spec(map@) {
                Ok(v) => r is Ok && r->Ok_0.deep_view() == v,
                Err(f) => r is Err && r->Err_0.field@ == f,
            },
    {
        let mut result = NbGlobal::new();
        result._uuid = read_uuid(map, text_uuid());
        result._version = read_uuid(map, text_version());
        result.name = match read_field::<String>(map, text_name()) {
            Ok(x) => x,
            Err(e) => return Err(e),
        };
        result.nb_cfg = match read_field::<i64>(map, text_nb_cfg()) {
            Ok(x) => x,
            Err(e) => return Err(e),
        };
        result.nb_cfg_timestamp = match read_field::<i64>(map, text_nb_cfg_timestamp()) {
            Ok(x) => x,
            Err(e) => return Err(e),
        };
        result.sb_cfg = match read_field::<i64>(map, text_sb_cfg()) {
            Ok(x) => x,
            Err(e) => return Err(e),
        };
        result.sb_cfg_timestamp = match read_field::<i64>(map, text_sb_cfg_timestamp()) {
            Ok(x) => x,
            Err(e) => return Err(e),
        };
        result.hv_cfg = match read_field::<i64>(map, text_hv_cfg()) {
            Ok(x) => x,
            Err(e) => return Err(e),
        };
        result.hv_cfg_timestamp = match read_field::<i64>(map, text_hv_cfg_timestamp()) {
            Ok(x) => x,
            Err(e) => return Err(e),
        };
        result.external_ids = match read_field::<OvsdbMap<String, String>>(map, text_external_ids()) {
            Ok(x) => x,
            Err(e) => return Err(e),
        };
        result.connections = match read_field::<Vec<Uuid>>(map, text_connections()) {
            Ok(x) => x,
            Err(e) => return Err(e),
        };
        result.ssl = match read_field::<Vec<Uuid>>(map, text_ssl()) {
            Ok(x) => x,
            Err(e) => return Err(e),
        };
        result.options = match read_field::<OvsdbMap<String, String>>(map, text_options()) {
            Ok(x) => x,
            Err(e) => return Err(e),
        };
        result.ipsec = match read_field::<bool>(map, text_ipsec()) {
            Ok(x) => x,
            Err(e) => return Err(e),
        };
        Ok(result)
    }
}

proof fn lemma_get_key_field_entry<T: OvsdbSerializable>(
    name: Seq<char>,
    x: Option<<T as DeepView>::V>,
    k: Seq<char>,
)
    ensures
        get_key(field_entry::<T>(name, x), k) == if x is Some && name == k {
            Some(value_json(T::encode_spec(x->Some_0)))
        } else {
            None::<JsonV>
        },
        has_key(field_entry::<T>(name, x), k) == (x is Some && name == k),
{
    reveal(field_entry);
    reveal(crate::json::key_pos);
    reveal_with_fuel(crate::json::key_pos, 3);
}

/// Only the part of the field named `k` can have a member named `k`.
proof fn lemma_parts_keys(r: NbGlobalV, k: Seq<char>)
    ensures
        nb_global_parts(r).len() == field_names().len(),
        forall|i: int|
            0 <= i < nb_global_parts(r).len() && has_key(#[trigger] nb_global_parts(r)[i], k)
                ==> field_names()[i] == k,
{
    assert forall|i: int|
        0 <= i < nb_global_parts(r).len() && has_key(#[trigger] nb_global_parts(r)[i], k)
            implies field_names()[i] == k by {
        if i == 0 {
            lemma_get_key_field_entry::<String>(key_name(), r.name, k);
        } else if i == 1 {
            lemma_get_key_field_entry::<i64>(key_nb_cfg(), r.nb_cfg, k);
        } else if i == 2 {
            lemma_get_key_field_entry::<i64>(key_nb_cfg_timestamp(), r.nb_cfg_timestamp, k);
        } else if i == 3 {
            lemma_get_key_field_entry::<i64>(key_sb_cfg(), r.sb_cfg, k);
        } else if i == 4 {
            lemma_get_key_field_entry::<i64>(key_sb_cfg_timestamp(), r.sb_cfg_timestamp, k);
        } else if i == 5 {
            lemma_get_key_field_entry::<i64>(key_hv_cfg(), r.hv_cfg, k);
        } else if i == 6 {
            lemma_get_key_field_entry::<i64>(key_hv_cfg_timestamp(), r.hv_cfg_timestamp, k);
        } else if i == 7 {
            lemma_get_key_field_entry::<OvsdbMap<String, String>>(key_external_ids(), r.external_ids, k);
        } else if i == 8 {
            lemma_get_key_field_entry::<Vec<Uuid>>(key_connections(), r.connections, k);
        } else if i == 9 {
            lemma_get_key_field_entry::<Vec<Uuid>>(key_ssl(), r.ssl, k);
        } else if i == 10 {
            lemma_get_key_field_entry::<OvsdbMap<String, String>>(key_options(), r.options, k);
        } else if i == 11 {
            lemma_get_key_field_entry::<bool>(key_ipsec(), r.ipsec, k);
        } else if i == 12 {
            lemma_get_key_field_entry::<Uuid>(key_uuid(), r._uuid, k);
        } else if i == 13 {
            lemma_get_key_field_entry::<Uuid>(key_version(), r._version, k);
        }
    }
}

/// The field names differ pairwise: no two share both length and first
/// character.
proof fn lemma_field_names_distinct()
    ensures
        forall|i: int, j: int|
            0 <= i < field_names().len() && 0 <= j < field_names().len() && i != j
                ==> #[trigger] field_names()[i] != #[trigger] field_names()[j],
{
    assert(field_names()[0].len() == 4 && field_names()[0][0] == 'n');
    assert(field_names()[1].len() == 6 && field_names()[1][0] == 'n');
    assert(field_names()[2].len() == 16 && field_names()[2][0] == 'n');
    assert(field_names()[3].len() == 6 && field_names()[3][0] == 's');
    assert(field_names()[4].len() == 16 && field_names()[4][0] == 's');
    assert(field_names()[5].len() == 6 && field_names()[5][0] == 'h');
    assert(field_names()[6].len() == 16 && field_names()[6][0] == 'h');
    assert(field_names()[7].len() == 12 && field_names()[7][0] == 'e');
    assert(field_names()[8].len() == 11 && field_names()[8][0] == 'c');
    assert(field_names()[9].len() == 3 && field_names()[9][0] == 's');
    assert(field_names()[10].len() == 7 && field_names()[10][0] == 'o');
    assert(field_names()[11].len() == 5 && field_names()[11][0] == 'i');
    assert(field_names()[12].len() == 5 && field_names()[12][0] == '_');
    assert(field_names()[13].len() == 8 && field_names()[13][0] == '_');
    assert forall|i: int, j: int|
        0 <= i < field_names().len() && 0 <= j < field_names().len() && i != j
            implies #[trigger] field_names()[i] != #[trigger] field_names()[j] by {
        let li: nat = if i == 0 { 4 } else if i == 1 { 6 } else if i == 2 { 16 } else if i == 3 { 6 } else if i == 4 { 16 } else if i == 5 { 6 } else if i == 6 { 16 } else if i == 7 { 12 } else if i == 8 { 11 } else if i == 9 { 3 } else if i == 10 { 7 } else if i == 11 { 5 } else if i == 12 { 5 } else { 8 };
        let lj: nat = if j == 0 { 4 } else if j == 1 { 6 } else if j == 2 { 16 } else if j == 3 { 6 } else if j == 4 { 16 } else if j == 5 { 6 } else if j == 6 { 16 } else if j == 7 { 12 } else if j == 8 { 11 } else if j == 9 { 3 } else if j == 10 { 7 } else if j == 11 { 5 } else if j == 12 { 5 } else { 8 };
        let ci = if i == 0 { 'n' } else if i == 1 { 'n' } else if i == 2 { 'n' } else if i == 3 { 's' } else if i == 4 { 's' } else if i == 5 { 'h' } else if i == 6 { 'h' } else if i == 7 { 'e' } else if i == 8 { 'c' } else if i == 9 { 's' } else if i == 10 { 'o' } else if i == 11 { 'i' } else if i == 12 { '_' } else { '_' };
        let cj = if j == 0 { 'n' } else if j == 1 { 'n' } else if j == 2 { 'n' } else if j == 3 { 's' } else if j == 4 { 's' } else if j == 5 { 'h' } else if j == 6 { 'h' } else if j == 7 { 'e' } else if j == 8 { 'c' } else if j == 9 { 's' } else if j == 10 { 'o' } else if j == 11 { 'i' } else if j == 12 { '_' } else { '_' };
        assert(field_names()[i].len() == li && field_names()[i][0] == ci);
        assert(field_names()[j].len() == lj && field_names()[j][0] == cj);
    }
}

/// Looking up field `j`'s name in a row's map finds that field's member.
proof fn lemma_lookup(r: NbGlobalV, j: int)
    requires
        0 <= j < field_names().len(),
    ensures
        get_key(nb_global_entries(r), field_names()[j]) == get_key(
            nb_global_parts(r)[j],
            field_names()[j],
        ),
        has_key(nb_global_entries(r), field_names()[j]) == has_key(
            nb_global_parts(r)[j],
            field_names()[j],
        ),
{
    let k = field_names()[j];
    lemma_parts_keys(r, k);
    lemma_field_names_distinct();
    assert forall|i: int| 0 <= i < nb_global_parts(r).len() && i != j implies !has_key(
        #[trigger] nb_global_parts(r)[i],
        k,
    ) by {
        if has_key(nb_global_parts(r)[i], k) {
            assert(field_names()[i] == field_names()[j]);
        }
    }
    lemma_get_key_join(nb_global_parts(r), j, k);
}

proof fn lemma_read_back<T: OvsdbSerializable>(
    es: Entries,
    name: Seq<char>,
    x: Option<<T as DeepView>::V>,
)
    requires
        get_key(es, name) == get_key(field_entry::<T>(name, x), name),
        x is Some ==> T::round_trips(x->Some_0),
    ensures
        read_field_spec::<T>(JsonV::Object(es), name) == Some(x),
{
    lemma_get_key_field_entry::<T>(name, x, name);
    if x is Some {
        lemma_json_field_round_trip::<T>(x->Some_0);
    }
}

proof fn lemma_fields_read_back_0(r: NbGlobalV)
    ensures
        read_field_spec::<String>(JsonV::Object(nb_global_entries(r)), key_name()) == Some(r.name),
        read_field_spec::<i64>(JsonV::Object(nb_global_entries(r)), key_nb_cfg()) == Some(r.nb_cfg),
        read_field_spec::<i64>(JsonV::Object(nb_global_entries(r)), key_nb_cfg_timestamp()) == Some(r.nb_cfg_timestamp),
        read_field_spec::<i64>(JsonV::Object(nb_global_entries(r)), key_sb_cfg()) == Some(r.sb_cfg),
        read_field_spec::<i64>(JsonV::Object(nb_global_entries(r)), key_sb_cfg_timestamp()) == Some(r.sb_cfg_timestamp),
        read_field_spec::<i64>(JsonV::Object(nb_global_entries(r)), key_hv_cfg()) == Some(r.hv_cfg),
{
    lemma_lookup(r, 0);
    lemma_read_back::<String>(nb_global_entries(r), key_name(), r.name);
    lemma_lookup(r, 1);
    lemma_read_back::<i64>(nb_global_entries(r), key_nb_cfg(), r.nb_cfg);
    lemma_lookup(r, 2);
    lemma_read_back::<i64>(nb_global_entries(r), key_nb_cfg_timestamp(), r.nb_cfg_timestamp);
    lemma_lookup(r, 3);
    lemma_read_back::<i64>(nb_global_entries(r), key_sb_cfg(), r.sb_cfg);
    lemma_lookup(r, 4);
    lemma_read_back::<i64>(nb_global_entries(r), key_sb_cfg_timestamp(), r.sb_cfg_timestamp);
    lemma_lookup(r, 5);
    lemma_read_back::<i64>(nb_global_entries(r), key_hv_cfg(), r.hv_cfg);
}

proof fn lemma_fields_read_back_1(r: NbGlobalV)
    ensures
        read_field_spec::<i64>(JsonV::Object(nb_global_entries(r)), key_hv_cfg_timestamp()) == Some(r.hv_cfg_timestamp),
        read_field_spec::<OvsdbMap<String, String>>(JsonV::Object(nb_global_entries(r)), key_external_ids()) == Some(r.external_ids),
        read_field_spec::<Vec<Uuid>>(JsonV::Object(nb_global_entries(r)), key_connections()) == Some(r.connections),
        read_field_spec::<Vec<Uuid>>(JsonV::Object(nb_global_entries(r)), key_ssl()) == Some(r.ssl),
        read_field_spec::<OvsdbMap<String, String>>(JsonV::Object(nb_global_entries(r)), key_options()) == Some(r.options),
        read_field_spec::<bool>(JsonV::Object(nb_global_entries(r)), key_ipsec()) == Some(r.ipsec),
{
    lemma_lookup(r, 6);
    lemma_read_back::<i64>(nb_global_entries(r), key_hv_cfg_timestamp(), r.hv_cfg_timestamp);
    lemma_lookup(r, 7);
    lemma_read_back::<OvsdbMap<String, String>>(nb_global_entries(r), key_external_ids(), r.external_ids);
    lemma_lookup(r, 8);
    lemma_read_back::<Vec<Uuid>>(nb_global_entries(r), key_connections(), r.connections);
    lemma_lookup(r, 9);
    lemma_read_back::<Vec<Uuid>>(nb_global_entries(r), key_ssl(), r.ssl);
    lemma_lookup(r, 10);
    lemma_read_back::<OvsdbMap<String, String>>(nb_global_entries(r), key_options(), r.options);
    lemma_lookup(r, 11);
    lemma_read_back::<bool>(nb_global_entries(r), key_ipsec(), r.ipsec);
}

proof fn lemma_identity_reads_back(r: NbGlobalV)
    ensures
        read_uuid_spec(JsonV::Object(nb_global_entries(r)), key_uuid()) == r._uuid,
        read_uuid_spec(JsonV::Object(nb_global_entries(r)), key_version()) == r._version,
{
    lemma_lookup(r, 12);
    lemma_get_key_field_entry::<Uuid>(key_uuid(), r._uuid, key_uuid());
    if r._uuid is Some {
        lemma_uuid_text_round_trip(r._uuid->Some_0);
    }
    lemma_lookup(r, 13);
    lemma_get_key_field_entry::<Uuid>(key_version(), r._version, key_version());
    if r._version is Some {
        lemma_uuid_text_round_trip(r._version->Some_0);
    }
}

/// Reading back the map that a row is written as gives the row.
pub proof fn lemma_nb_global_round_trip(r: NbGlobalV)
    ensures
        nb_global_from_spec(JsonV::Object(nb_global_entries(r))) == Ok::<NbGlobalV, Seq<char>>(r),
{
    lemma_fields_read_back_0(r);
    lemma_fields_read_back_1(r);
    lemma_identity_reads_back(r);
}

/// A field that is absent has no member in the row's map, and a present
/// one has.
pub proof fn lemma_absent_fields_omitted(r: NbGlobalV)
    ensures
        has_key(nb_global_entries(r), key_name()) == r.name is Some,
        has_key(nb_global_entries(r), key_nb_cfg()) == r.nb_cfg is Some,
        has_key(nb_global_entries(r), key_nb_cfg_timestamp()) == r.nb_cfg_timestamp is Some,
        has_key(nb_global_entries(r), key_sb_cfg()) == r.sb_cfg is Some,
        has_key(nb_global_entries(r), key_sb_cfg_timestamp()) == r.sb_cfg_timestamp is Some,
        has_key(nb_global_entries(r), key_hv_cfg()) == r.hv_cfg is Some,
        has_key(nb_global_entries(r), key_hv_cfg_timestamp()) == r.hv_cfg_timestamp is Some,
        has_key(nb_global_entries(r), key_external_ids()) == r.external_ids is Some,
        has_key(nb_global_entries(r), key_connections()) == r.connections is Some,
        has_key(nb_global_entries(r), key_ssl()) == r.ssl is Some,
        has_key(nb_global_entries(r), key_options()) == r.options is Some,
        has_key(nb_global_entries(r), key_ipsec()) == r.ipsec is Some,
        has_key(nb_global_entries(r), key_uuid()) == r._uuid is Some,
        has_key(nb_global_entries(r), key_version()) == r._version is Some,
{
    lemma_lookup(r, 0);
    lemma_get_key_field_entry::<String>(key_name(), r.name, key_name());
    lemma_lookup(r, 1);
    lemma_get_key_field_entry::<i64>(key_nb_cfg(), r.nb_cfg, key_nb_cfg());
    lemma_lookup(r, 2);
    lemma_get_key_field_entry::<i64>(key_nb_cfg_timestamp(), r.nb_cfg_timestamp, key_nb_cfg_timestamp());
    lemma_lookup(r, 3);
    lemma_get_key_field_entry::<i64>(key_sb_cfg(), r.sb_cfg, key_sb_cfg());
    lemma_lookup(r, 4);
    lemma_get_key_field_entry::<i64>(key_sb_cfg_timestamp(), r.sb_cfg_timestamp, key_sb_cfg_timestamp());
    lemma_lookup(r, 5);
    lemma_get_key_field_entry::<i64>(key_hv_cfg(), r.hv_cfg, key_hv_cfg());
    lemma_lookup(r, 6);
    lemma_get_key_field_entry::<i64>(key_hv_cfg_timestamp(), r.hv_cfg_timestamp, key_hv_cfg_timestamp());
    lemma_lookup(r, 7);
    lemma_get_key_field_entry::<OvsdbMap<String, String>>(key_external_ids(), r.external_ids, key_external_ids());
    lemma_lookup(r, 8);
    lemma_get_key_field_entry::<Vec<Uuid>>(key_connections(), r.connections, key_connections());
    lemma_lookup(r, 9);
    lemma_get_key_field_entry::<Vec<Uuid>>(key_ssl(), r.ssl, key_ssl());
    lemma_lookup(r, 10);
    lemma_get_key_field_entry::<OvsdbMap<String, String>>(key_options(), r.options, key_options());
    lemma_lookup(r, 11);
    lemma_get_key_field_entry::<bool>(key_ipsec(), r.ipsec, key_ipsec());
    lemma_lookup(r, 12);
    lemma_get_key_field_entry::<Uuid>(key_uuid(), r._uuid, key_uuid());
    lemma_lookup(r, 13);
    lemma_get_key_field_entry::<Uuid>(key_version(), r._version, key_version());
}

/// An absent field contributes no member to a row's map.
pub proof fn lemma_absent_field_omitted<T: OvsdbSerializable>(name: Seq<char>, k: Seq<char>)
    ensures
        !has_key(field_entry::<T>(name, None), k),
{
    lemma_get_key_field_entry::<T>(name, None, k);
}

} // verus!
