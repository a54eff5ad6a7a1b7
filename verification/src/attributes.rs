//! Parsing of event attributes out of a subscription-response payload,
//! and the round trip law tying that parse to the wire form of an
//! attribute store.

use vstd::prelude::*;

use crate::json::{arr_items, json_lookup, render_json, str_chars, JsonValue};
use crate::store::{kv_map_of, AttributeStore};
use crate::wire::{EventAttribute, WireEvent};
use vstd::string::StringExecFns;

verus! {

/// Errors when reconstructing attributes from a subscription payload.
#[derive(Debug, PartialEq, Eq)]
pub enum Error {
    /// The payload has no `attributes` field.
    MissingAttributes,
    /// A pair record lacks a `key` field; carries the record's JSON
    /// rendering as context.
    MissingKey(String),
    /// A pair record lacks a `value` field; carries the record's JSON
    /// rendering as context.
    MissingValue(String),
}

/// The diagnostic message of a parse error.
pub open spec fn error_message(e: Error) -> Seq<char> {
    match e {
        Error::MissingAttributes => "Json missing `attributes` field"@,
        Error::MissingKey(c) => "Attributes missing key: "@ + c@,
        Error::MissingValue(c) => "Attributes missing value: "@ + c@,
    }
}

impl Error {
    /// The diagnostic message of this error.
    pub fn message(&self) -> (r: String)
        ensures
            r@ == error_message(*self),
    {
        match self {
            Error::MissingAttributes => "Json missing `attributes` field".to_owned(),
            Error::MissingKey(c) => {
                let mut s = "Attributes missing key: ".to_owned();
                s.append(c.as_str());
                s
            },
            Error::MissingValue(c) => {
                let mut s = "Attributes missing value: ".to_owned();
                s.append(c.as_str());
                s
            },
        }
    }
}

/// The `attributes` field of a subscription payload.
pub open spec fn attrs_field(j: JsonValue) -> Option<JsonValue> {
    json_lookup(j, "attributes"@)
}

/// The inner value of an optional one (null when absent).
pub open spec fn opt_val(o: Option<JsonValue>) -> JsonValue {
    match o {
        Option::Some(v) => v,
        Option::None => JsonValue::Null,
    }
}

/// Whether a pair record carries both a `key` and a `value` field.
pub open spec fn good_pair(v: JsonValue) -> bool {
    json_lookup(v, "key"@) is Some && json_lookup(v, "value"@) is Some
}

/// The key string of a pair record.
pub open spec fn pair_key(v: JsonValue) -> Seq<char> {
    str_chars(opt_val(json_lookup(v, "key"@)))
}

/// The value string of a pair record.
pub open spec fn pair_value(v: JsonValue) -> Seq<char> {
    str_chars(opt_val(json_lookup(v, "value"@)))
}

/// A pair record's `key` and `value` fields, where present, hold strings.
pub open spec fn pair_fields_ok(v: JsonValue) -> bool {
    &&& match json_lookup(v, "key"@) {
        Option::Some(k) => k is Str,
        Option::None => true,
    }
    &&& match json_lookup(v, "value"@) {
        Option::Some(w) => w is Str,
        Option::None => true,
    }
}

/// The payloads on which the parser is defined: when an `attributes`
/// field is present it must hold an array, and each pair record's `key`
/// and `value` fields, where present, must hold strings.
pub open spec fn parser_input_ok(j: JsonValue) -> bool {
    match attrs_field(j) {
        Option::Some(a) => a is Arr && (forall|i: int|
            0 <= i < arr_items(a).len() ==> pair_fields_ok(#[trigger] arr_items(a)[i])),
        Option::None => true,
    }
}

/// Index of the first pair record missing a field; the sequence's length
/// when every record is complete.
pub open spec fn first_bad(items: Seq<JsonValue>) -> int
    decreases items.len(),
{
    if items.len() == 0 {
        0
    } else if !good_pair(items[0]) {
        0
    } else {
        1 + first_bad(items.drop_first())
    }
}

proof fn lemma_first_bad_at(items: Seq<JsonValue>, i: int)
    requires
        0 <= i < items.len(),
        forall|j: int| 0 <= j < i ==> good_pair(#[trigger] items[j]),
        !good_pair(items[i]),
    ensures
        first_bad(items) == i,
    decreases i,
{
    if i == 0 {
    } else {
        assert(good_pair(items[0]));
        let rest = items.drop_first();
        assert forall|j: int| 0 <= j < i - 1 implies good_pair(#[trigger] rest[j]) by {
            assert(rest[j] == items[j + 1]);
        }
        assert(rest[i - 1] == items[i]);
        lemma_first_bad_at(rest, i - 1);
    }
}

proof fn lemma_first_bad_all_good(items: Seq<JsonValue>)
    requires
        forall|j: int| 0 <= j < items.len() ==> good_pair(#[trigger] items[j]),
    ensures
        first_bad(items) == items.len(),
    decreases items.len(),
{
    if items.len() > 0 {
        let rest = items.drop_first();
        assert forall|j: int| 0 <= j < rest.len() implies good_pair(#[trigger] rest[j]) by {
            assert(rest[j] == items[j + 1]);
        }
        lemma_first_bad_all_good(rest);
    }
}

/// The mapping described by a sequence of complete pair records, a later
/// record overwriting an earlier one.
pub open spec fn pairs_map(items: Seq<JsonValue>) -> Map<Seq<char>, Seq<char>>
    decreases items.len(),
{
    if items.len() == 0 {
        Map::empty()
    } else {
        pairs_map(items.drop_last()).insert(pair_key(items.last()), pair_value(items.last()))
    }
}

/// A thin wrapper around an attribute store, for attribute maps parsed
/// from event JSONs returned in subscription responses.
#[derive(Debug)]
pub struct Attributes {
    store: AttributeStore,
}

impl View for Attributes {
    type V = Map<Seq<char>, Seq<char>>;

    closed spec fn view(&self) -> Map<Seq<char>, Seq<char>> {
        self.store@
    }
}

impl Attributes {
    /// A reference to the value associated with the input key, if any.
    pub fn get(&self, key: &str) -> (r: Option<&String>)
        ensures
            match r {
                Option::Some(v) => self@.contains_key(key@) && v@ == self@[key@],
                Option::None => !self@.contains_key(key@),
            },
    {
        self.store.get(key)
    }

    /// Ownership of the value associated with the input key, if any; the
    /// entry is removed.
    pub fn take(&mut self, key: &str) -> (r: Option<String>)
        ensures
            final (self)@ == old(self)@.remove(key@),
            match r {
                Option::Some(v) => old(self)@.contains_key(key@) && v@ == old(self)@[key@],
                Option::None => !old(self)@.contains_key(key@),
            },
    {
        self.store.remove(key)
    }

    /// Parse the attribute list of a subscription payload.
    ///
    /// The payload must carry its attributes, if at all, as an array of
    /// pair records whose `key` and `value` fields, where present, are
    /// strings. A missing `attributes` field, and a record without a
    /// `key` or without a `value`, are reported as errors, the latter two
    /// with the record's rendering as context; a repeated key keeps the
    /// last value.
    pub fn from_json(json: &JsonValue) -> (r: Result<Attributes, Error>)
        requires
            parser_input_ok(*json),
        ensures
            match attrs_field(*json) {
                Option::None => r matches Err(e) && e is MissingAttributes,
                Option::Some(a) => {
                    let items = arr_items(a);
                    let bad = first_bad(items);
                    if bad == items.len() {
                        r matches Ok(attrs) && attrs@ == pairs_map(items)
                    } else if json_lookup(items[bad], "key"@) is None {
                        r matches Err(e) && e matches Error::MissingKey(ctx) && ctx@
                            == render_json(items[bad])
                    } else {
                        r matches Err(e) && e matches Error::MissingValue(ctx) && ctx@
                            == render_json(items[bad])
                    }
                },
            },
    {
        let attrs_json = match json.get("attributes") {
            Option::None => {
                return Err(Error::MissingAttributes);
            },
            Option::Some(v) => v,
        };
        match attrs_json {
            JsonValue::Arr(items) => {
                let mut store = AttributeStore::new();
                let n: usize = items.len();
                let mut i: usize = 0;
                proof {
                    assert(items@.subrange(0, 0) =~= Seq::<JsonValue>::empty());
                }
                while i < n
                    invariant
                        attrs_field(*json) == Some(JsonValue::Arr(*items)),
                        n == items@.len(),
                        i <= n,
                        forall|j: int|
                            0 <= j < n ==> pair_fields_ok(#[trigger] items@[j]),
                        forall|j: int| 0 <= j < i ==> good_pair(#[trigger] items@[j]),
                        store@ == pairs_map(items@.subrange(0, i as int)),
                    decreases n - i,
                {
                    let item = &items[i];
                    let key_json = match item.get("key") {
                        Option::None => {
                            let ctx = item.to_json_string();
                            proof {
                                lemma_first_bad_at(items@, i as int);
                            }
                            return Err(Error::MissingKey(ctx));
                        },
                        Option::Some(k) => k,
                    };
                    let value_json = match item.get("value") {
                        Option::None => {
                            let ctx = item.to_json_string();
                            proof {
                                lemma_first_bad_at(items@, i as int);
                            }
                            return Err(Error::MissingValue(ctx));
                        },
                        Option::Some(w) => w,
                    };
                    let key_s: String = match key_json {
                        JsonValue::Str(s) => s.clone(),
                        _ => {
                            proof {
                                assert(false);
                            }
                            vstd::pervasive::unreached()
                        },
                    };
                    let value_s: String = match value_json {
                        JsonValue::Str(s) => s.clone(),
                        _ => {
                            proof {
                                assert(false);
                            }
                            vstd::pervasive::unreached()
                        },
                    };
                    store.set(key_s.as_str(), value_s);
                    proof {
                        let prefix = items@.subrange(0, i as int);
                        let cur = items@.subrange(0, i + 1);
                        assert(cur.drop_last() =~= prefix);
                        assert(cur.last() == items@[i as int]);
                    }
                    i = i + 1;
                }
                proof {
                    lemma_first_bad_all_good(items@);
                    assert(items@.subrange(0, n as int) =~= items@);
                }
                Ok(Attributes { store })
            },
            _ => {
                proof {
                    assert(false);
                }
                vstd::pervasive::unreached()
            },
        }
    }
}

/// `w` is the wire form of `store`: the same (key, value) entries in the
/// same order.
pub open spec fn wire_matches(w: WireEvent, store: AttributeStore) -> bool {
    &&& w.attributes@.len() == store.entries().len()
    &&& forall|i: int|
        0 <= i < w.attributes@.len() ==> {
            &&& (#[trigger] w.attributes@[i]).key@ == store.entries()[i].0@
            &&& w.attributes@[i].value@ == store.entries()[i].1@
        }
}

/// A pair record carries exactly the key and value of a wire attribute,
/// both as strings.
pub open spec fn pair_matches(v: JsonValue, attr: EventAttribute) -> bool {
    &&& json_lookup(v, "key"@) matches Some(k) && k is Str && str_chars(k) == attr.key@
    &&& json_lookup(v, "value"@) matches Some(u) && u is Str && str_chars(u) == attr.value@
}

/// `j` is a subscription payload carrying exactly the attribute triples
/// of `w`, in order, as an array of pair records under `attributes`.
pub open spec fn payload_matches(j: JsonValue, w: WireEvent) -> bool {
    match attrs_field(j) {
        Option::Some(a) => a is Arr && arr_items(a).len() == w.attributes@.len() && (forall|
            i: int,
        |
            0 <= i < arr_items(a).len() ==> pair_matches(
                #[trigger] arr_items(a)[i],
                w.attributes@[i],
            )),
        Option::None => false,
    }
}

proof fn lemma_pairs_map_matches(items: Seq<JsonValue>, entries: Seq<(String, String)>)
    requires
        items.len() == entries.len(),
        forall|i: int|
            0 <= i < items.len() ==> pair_key(#[trigger] items[i]) == entries[i].0@ && pair_value(
                items[i],
            ) == entries[i].1@,
    ensures
        pairs_map(items) == kv_map_of(entries),
    decreases items.len(),
{
    if items.len() == 0 {
        assert(pairs_map(items) =~= kv_map_of(entries));
    } else {
        let it2 = items.drop_last();
        let en2 = entries.drop_last();
        assert forall|i: int|
            0 <= i < it2.len() implies pair_key(#[trigger] it2[i]) == en2[i].0@ && pair_value(
            it2[i],
        ) == en2[i].1@ by {
            assert(it2[i] == items[i]);
            assert(en2[i] == entries[i]);
        }
        lemma_pairs_map_matches(it2, en2);
        assert(items.last() == items[items.len() - 1]);
        assert(entries.last() == entries[entries.len() - 1]);
    }
}

/// Round trip: a payload that carries the wire form of an attribute
/// store is parseable, and parsing it reproduces exactly the store's
/// mapping, whatever order the entries came in.
pub proof fn lemma_wire_round_trip(store: AttributeStore, w: WireEvent, j: JsonValue)
    requires
        wire_matches(w, store),
        payload_matches(j, w),
    ensures
        parser_input_ok(j),
        attrs_field(j) is Some,
        first_bad(arr_items(opt_val(attrs_field(j)))) == arr_items(opt_val(attrs_field(j))).len(),
        pairs_map(arr_items(opt_val(attrs_field(j)))) == store@,
{
    let a = opt_val(attrs_field(j));
    let items = arr_items(a);
    assert forall|i: int| 0 <= i < items.len() implies good_pair(#[trigger] items[i]) by {
        assert(pair_matches(items[i], w.attributes@[i]));
    }
    assert forall|i: int| 0 <= i < items.len() implies pair_fields_ok(#[trigger] items[i]) by {
        assert(pair_matches(items[i], w.attributes@[i]));
    }
    lemma_first_bad_all_good(items);
    assert forall|i: int|
        0 <= i < items.len() implies pair_key(#[trigger] items[i]) == store.entries()[i].0@
        && pair_value(items[i]) == store.entries()[i].1@ by {
        assert(pair_matches(items[i], w.attributes@[i]));
    }
    lemma_pairs_map_matches(items, store.entries());
}

} // verus!
