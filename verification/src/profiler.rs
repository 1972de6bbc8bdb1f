//! The host adapter as macOS's `system_profiler SPBluetoothDataType -json` reports it:
//! the controller's properties are looked up in the parsed report and turned into
//! `HostAdapterInfo`.

use vstd::prelude::*;
use crate::models::{normalize_address, normalized_address, HostAdapterInfo};

verus! {

/// serde_json's parsed document; it is only carried from the parser to the conversion
/// into `JsonValue`.
#[verifier::external_type_specification]
#[verifier::external_body]
pub struct ExSerdeJsonValue(serde_json::Value);

/// A parsed JSON document. Object members keep the order in which the parser lists them.
#[derive(Debug)]
pub enum JsonValue {
    Null,
    Bool(bool),
    /// A number, as its JSON text.
    Number(String),
    Text(String),
    Array(Vec<JsonValue>),
    Object(Vec<(String, JsonValue)>),
}

/// The value of the first member named `key`.
pub open spec fn member_value(entries: Seq<(String, JsonValue)>, key: Seq<char>) -> Option<JsonValue>
    decreases entries.len(),
{
    if entries.len() == 0 {
        None
    } else if entries[0].0@ == key {
        Some(entries[0].1)
    } else {
        member_value(entries.drop_first(), key)
    }
}

/// The member `key` of an object; nothing for any other value.
pub open spec fn get_member(v: JsonValue, key: Seq<char>) -> Option<JsonValue> {
    match v {
        JsonValue::Object(entries) => member_value(entries@, key),
        _ => None,
    }
}

/// The first object, in document order (an object before its members), that has a
/// member named `key`.
pub open spec fn find_object_with_key(v: JsonValue, key: Seq<char>) -> Option<JsonValue>
    decreases v, 0nat,
{
    match v {
        JsonValue::Object(entries) => if member_value(entries@, key) is Some {
            Some(v)
        } else {
            find_in_members(entries@, key, 0)
        },
        JsonValue::Array(items) => find_in_items(items@, key, 0),
        _ => None,
    }
}

pub open spec fn find_in_items(items: Seq<JsonValue>, key: Seq<char>, i: nat) -> Option<JsonValue>
    decreases items, items.len() - i,
{
    if i >= items.len() {
        None
    } else {
        match find_object_with_key(items[i as int], key) {
            Some(found) => Some(found),
            None => find_in_items(items, key, i + 1),
        }
    }
}

pub open spec fn find_in_members(entries: Seq<(String, JsonValue)>, key: Seq<char>, i: nat) -> Option<JsonValue>
    decreases entries, entries.len() - i,
{
    if i >= entries.len() {
        None
    } else {
        match find_object_with_key(entries[i as int].1, key) {
            Some(found) => Some(found),
            None => find_in_members(entries, key, i + 1),
        }
    }
}

fn member<'a>(entries: &'a Vec<(String, JsonValue)>, key: &str) -> (r: Option<&'a JsonValue>)
    ensures
        match member_value(entries@, key@) {
            Some(v) => r == Some(&v),
            None => r is None,
        },
{
    let k = String::from_str(key);
    let mut i: usize = 0;
    assert(entries@.subrange(0, entries@.len() as int) =~= entries@);
    while i < entries.len()
        invariant
            i <= entries@.len(),
            k@ == key@,
            member_value(entries@, key@) == member_value(entries@.subrange(i as int, entries@.len() as int), key@),
        decreases entries.len() - i,
    {
        assert(entries@.subrange(i as int, entries@.len() as int).drop_first() =~= entries@.subrange(
            i + 1,
            entries@.len() as int,
        ));
        if entries[i].0 == k {
            return Some(&entries[i].1);
        }
        i += 1;
    }
    None
}

fn get<'a>(v: &'a JsonValue, key: &str) -> (r: Option<&'a JsonValue>)
    ensures
        match get_member(*v, key@) {
            Some(m) => r == Some(&m),
            None => r is None,
        },
{
    match v {
        JsonValue::Object(entries) => member(entries, key),
        _ => None,
    }
}

/// The first object, in document order, that has a member named `key`.
pub fn find_object<'a>(v: &'a JsonValue, key: &str) -> (r: Option<&'a JsonValue>)
    ensures
        match find_object_with_key(*v, key@) {
            Some(found) => r == Some(&found),
            None => r is None,
        },
    decreases *v, 0nat,
{
    match v {
        JsonValue::Object(entries) => {
            match member(entries, key) {
                Some(_) => Some(v),
                None => find_among_members(entries, key, 0),
            }
        },
        JsonValue::Array(items) => find_among_items(items, key, 0),
        _ => None,
    }
}

fn find_among_items<'a>(items: &'a Vec<JsonValue>, key: &str, i: usize) -> (r: Option<&'a JsonValue>)
    requires
        i <= items@.len(),
    ensures
        match find_in_items(items@, key@, i as nat) {
            Some(found) => r == Some(&found),
            None => r is None,
        },
    decreases items@, items@.len() - i,
{
    if i >= items.len() {
        return None;
    }
    match find_object(&items[i], key) {
        Some(found) => Some(found),
        None => find_among_items(items, key, i + 1),
    }
}

fn find_among_members<'a>(entries: &'a Vec<(String, JsonValue)>, key: &str, i: usize) -> (r: Option<&'a JsonValue>)
    requires
        i <= entries@.len(),
    ensures
        match find_in_members(entries@, key@, i as nat) {
            Some(found) => r == Some(&found),
            None => r is None,
        },
    decreases entries@, entries@.len() - i,
{
    if i >= entries.len() {
        return None;
    }
    match find_object(&entries[i].1, key) {
        Some(found) => Some(found),
        None => find_among_members(entries, key, i + 1),
    }
}

/// The pointer token `0`: member `0` of an object, or the first element of an array.
pub open spec fn index_zero(v: JsonValue) -> Option<JsonValue> {
    match v {
        JsonValue::Object(entries) => member_value(entries@, "0"@),
        JsonValue::Array(items) => if items@.len() > 0 {
            Some(items@[0])
        } else {
            None
        },
        _ => None,
    }
}

/// The controller's properties: at `/SPBluetoothDataType/0/controller_properties`, or
/// else the first object with a `controller_address` member.
pub open spec fn controller_properties(report: JsonValue) -> Option<JsonValue> {
    let by_path = match get_member(report, "SPBluetoothDataType"@) {
        Some(list) => match index_zero(list) {
            Some(first) => get_member(first, "controller_properties"@),
            None => None,
        },
        None => None,
    };
    match by_path {
        Some(found) => Some(found),
        None => find_object_with_key(report, "controller_address"@),
    }
}

/// The text of the first of `keys` whose member in the object is a string.
pub open spec fn first_text(entries: Seq<(String, JsonValue)>, keys: Seq<Seq<char>>) -> Option<Seq<char>>
    decreases keys.len(),
{
    if keys.len() == 0 {
        None
    } else {
        match member_value(entries, keys[0]) {
            Some(JsonValue::Text(t)) => Some(t@),
            _ => first_text(entries, keys.drop_first()),
        }
    }
}

pub open spec fn string_for_any_key(v: JsonValue, keys: Seq<Seq<char>>) -> Option<Seq<char>> {
    match v {
        JsonValue::Object(entries) => first_text(entries@, keys),
        _ => None,
    }
}

pub open spec fn name_keys() -> Seq<Seq<char>> {
    seq!["controller_name"@, "name"@, "_name"@]
}

pub open spec fn address_keys() -> Seq<Seq<char>> {
    seq!["controller_address"@, "address"@]
}

/// The host adapter a profiler report describes: the controller's name (or a generic
/// one) and its normalized address (or nothing), when the report has a controller.
pub open spec fn profiler_host(report: JsonValue) -> Option<(Seq<char>, Seq<char>)> {
    match controller_properties(report) {
        Some(c) => Some(
            (
                match string_for_any_key(c, name_keys()) {
                    Some(n) => n,
                    None => "macOS Bluetooth Adapter"@,
                },
                match string_for_any_key(c, address_keys()) {
                    Some(a) => normalized_address(a),
                    None => Seq::empty(),
                },
            ),
        ),
        None => None,
    }
}

fn step_zero<'a>(v: &'a JsonValue) -> (r: Option<&'a JsonValue>)
    ensures
        match index_zero(*v) {
            Some(m) => r == Some(&m),
            None => r is None,
        },
{
    match v {
        JsonValue::Object(entries) => member(entries, "0"),
        JsonValue::Array(items) => if items.len() > 0 {
            Some(&items[0])
        } else {
            None
        },
        _ => None,
    }
}

fn controller<'a>(report: &'a JsonValue) -> (r: Option<&'a JsonValue>)
    ensures
        match controller_properties(*report) {
            Some(c) => r == Some(&c),
            None => r is None,
        },
{
    let by_path = match get(report, "SPBluetoothDataType") {
        Some(list) => match step_zero(list) {
            Some(first) => get(first, "controller_properties"),
            None => None,
        },
        None => None,
    };
    match by_path {
        Some(found) => Some(found),
        None => find_object(report, "controller_address"),
    }
}

pub open spec fn key_views(keys: Seq<&str>) -> Seq<Seq<char>> {
    keys.map_values(|k: &str| k@)
}

fn text_for_any_key(v: &JsonValue, keys: &Vec<&str>) -> (r: Option<String>)
    ensures
        match string_for_any_key(*v, key_views(keys@)) {
            Some(t) => r matches Some(s) && s@ == t,
            None => r is None,
        },
{
    let ghost kv = key_views(keys@);
    match v {
        JsonValue::Object(entries) => {
            let mut i: usize = 0;
            assert(kv.subrange(0, kv.len() as int) =~= kv);
            while i < keys.len()
                invariant
                    i <= keys@.len(),
                    kv == key_views(keys@),
                    string_for_any_key(*v, kv) == first_text(entries@, kv),
                    first_text(entries@, kv) == first_text(entries@, kv.subrange(i as int, kv.len() as int)),
                decreases keys.len() - i,
            {
                assert(kv.subrange(i as int, kv.len() as int).drop_first() =~= kv.subrange(i + 1, kv.len() as int));
                assert(kv.subrange(i as int, kv.len() as int)[0] == keys@[i as int]@);
                match member(entries, keys[i]) {
                    Some(JsonValue::Text(t)) => {
                        return Some(t.clone());
                    },
                    _ => {},
                }
                i += 1;
            }
            None
        },
        _ => None,
    }
}

/// The host adapter described by a parsed `system_profiler SPBluetoothDataType -json`
/// report, when it has a controller.
pub fn host_info_from_profiler(report: &JsonValue) -> (r: Option<HostAdapterInfo>)
    ensures
        match profiler_host(*report) {
            Some((name, address)) => r matches Some(h) && {
                &&& h.name@ == name
                &&& h.address@ == address
                &&& h.computer_name@ == Seq::<char>::empty()
            },
            None => r is None,
        },
{
    let c = match controller(report) {
        Some(c) => c,
        None => return None,
    };
    let mut name_list: Vec<&str> = Vec::new();
    name_list.push("controller_name");
    name_list.push("name");
    name_list.push("_name");
    let mut address_list: Vec<&str> = Vec::new();
    address_list.push("controller_address");
    address_list.push("address");
    assert(key_views(name_list@) =~= name_keys());
    assert(key_views(address_list@) =~= address_keys());
    let name = match text_for_any_key(c, &name_list) {
        Some(n) => n,
        None => String::from_str("macOS Bluetooth Adapter"),
    };
    let address = match text_for_any_key(c, &address_list) {
        Some(a) => normalize_address(a.as_str()),
        None => String::new(),
    };
    Some(HostAdapterInfo { name, address, computer_name: String::new() })
}

/// What `serde_json::from_slice` makes of `bytes`, as a `JsonValue`; nothing when the
/// bytes are not a single JSON document.
pub uninterp spec fn json_document(bytes: Seq<u8>) -> Option<JsonValue>;

/// Parses `bytes` with `serde_json::from_slice` into serde_json's `Value` and converts it
/// variant for variant. The contract claims only that the result depends on the bytes
/// alone (serde_json walks an object's members in a fixed order); which document the
/// grammar gives is left to the name.
#[verifier::external_body]
fn parse_json(bytes: &[u8]) -> (r: Option<JsonValue>)
    ensures
        r == json_document(bytes@),
{
    serde_json::from_slice::<serde_json::Value>(bytes).ok().as_ref().map(json_value_of)
}

/// serde_json's `Value` as a `JsonValue`, variant for variant: numbers by their JSON
/// text (serde_json's `Number` display), members and items in serde_json's order.
#[verifier::external_body]
fn json_value_of(v: &serde_json::Value) -> JsonValue {
    match v {
        serde_json::Value::Null => JsonValue::Null,
        serde_json::Value::Bool(b) => JsonValue::Bool(*b),
        serde_json::Value::Number(n) => JsonValue::Number(n.to_string()),
        serde_json::Value::String(t) => JsonValue::Text(t.clone()),
        serde_json::Value::Array(items) => JsonValue::Array(items.iter().map(json_value_of).collect()),
        serde_json::Value::Object(m) => JsonValue::Object(m.iter().map(|(k, x)| (k.clone(), json_value_of(x))).collect()),
    }
}

/// The host adapter described by the raw output of `system_profiler SPBluetoothDataType
/// -json`: nothing when the output is not a JSON document or names no controller.
pub fn host_info_from_profiler_output(stdout: &[u8]) -> (r: Option<HostAdapterInfo>)
    ensures
        match json_document(stdout@) {
            Some(report) => match profiler_host(report) {
                Some((name, address)) => r matches Some(h) && {
                    &&& h.name@ == name
                    &&& h.address@ == address
                    &&& h.computer_name@ == Seq::<char>::empty()
                },
                None => r is None,
            },
            None => r is None,
        },
{
    match parse_json(stdout) {
        Some(report) => host_info_from_profiler(&report),
        None => None,
    }
}

} // verus!
