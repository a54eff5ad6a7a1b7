//! A loosely-typed structured value, the shape in which subscription
//! responses arrive, with field lookup and a JSON rendering used for
//! diagnostics.

use vstd::prelude::*;

use crate::render::{dec_of, push_char, u64_to_dec_string};
use vstd::string::{StrSliceExecFns, StringExecFns};

verus! {

/// A structured value as decoded from a subscription response.
#[derive(Debug, PartialEq, Eq)]
pub enum JsonValue {
    /// The null value.
    Null,
    /// A boolean.
    Bool(bool),
    /// An unsigned number.
    Num(u64),
    /// A string.
    Str(String),
    /// An array of values.
    Arr(Vec<JsonValue>),
    /// An object: named fields in order of appearance.
    Obj(Vec<(String, JsonValue)>),
}

/// A string character in JSON form: quotes and backslashes are escaped.
pub open spec fn escape_char(c: char) -> Seq<char> {
    if c == '"' || c == '\\' {
        seq!['\\', c]
    } else {
        seq![c]
    }
}

/// A whole string escaped, character by character.
pub open spec fn escape_str(s: Seq<char>) -> Seq<char>
    decreases s.len(),
{
    if s.len() == 0 {
        Seq::empty()
    } else {
        escape_str(s.drop_last()) + escape_char(s.last())
    }
}

/// JSON rendering of a string: quoted and escaped.
pub open spec fn render_str(s: Seq<char>) -> Seq<char> {
    seq!['"'] + escape_str(s) + seq!['"']
}

/// JSON rendering of a value.
pub open spec fn render_json(v: JsonValue) -> Seq<char>
    decreases v, 1int,
{
    match v {
        JsonValue::Null => "null"@,
        JsonValue::Bool(b) => if b {
            "true"@
        } else {
            "false"@
        },
        JsonValue::Num(n) => dec_of(n as nat),
        JsonValue::Str(s) => render_str(s@),
        JsonValue::Arr(items) => seq!['['] + render_arr_to(items@, items@.len() as int)
            + seq![']'],
        JsonValue::Obj(fields) => seq!['{'] + render_obj_to(fields@, fields@.len() as int)
            + seq!['}'],
    }
}

/// JSON rendering of the first `i` elements of an array, comma-separated.
pub open spec fn render_arr_to(items: Seq<JsonValue>, i: int) -> Seq<char>
    decreases items, i,
{
    if i <= 0 || i > items.len() {
        Seq::empty()
    } else if i == 1 {
        render_json(items[0])
    } else {
        render_arr_to(items, i - 1) + seq![','] + render_json(items[i - 1])
    }
}

/// JSON rendering of the first `i` fields of an object, comma-separated
/// `"name":value` entries.
pub open spec fn render_obj_to(fields: Seq<(String, JsonValue)>, i: int) -> Seq<char>
    decreases fields, i,
{
    if i <= 0 || i > fields.len() {
        Seq::empty()
    } else {
        let entry = render_str(fields[i - 1].0@) + seq![':'] + render_json(fields[i - 1].1);
        if i == 1 {
            entry
        } else {
            render_obj_to(fields, i - 1) + seq![','] + entry
        }
    }
}

/// The value under `key` in a field list, first occurrence.
pub open spec fn field_lookup(fields: Seq<(String, JsonValue)>, key: Seq<char>) -> Option<
    JsonValue,
>
    decreases fields.len(),
{
    if fields.len() == 0 {
        None
    } else if fields[0].0@ == key {
        Some(fields[0].1)
    } else {
        field_lookup(fields.drop_first(), key)
    }
}

/// The value under `key` when `v` is an object that has such a field;
/// `None` otherwise.
pub open spec fn json_lookup(v: JsonValue, key: Seq<char>) -> Option<JsonValue> {
    match v {
        JsonValue::Obj(fields) => field_lookup(fields@, key),
        _ => None,
    }
}

/// The elements of an array value (empty for any other value).
pub open spec fn arr_items(v: JsonValue) -> Seq<JsonValue> {
    match v {
        JsonValue::Arr(items) => items@,
        _ => Seq::empty(),
    }
}

/// The characters of a string value (empty for any other value).
pub open spec fn str_chars(v: JsonValue) -> Seq<char> {
    match v {
        JsonValue::Str(s) => s@,
        _ => Seq::empty(),
    }
}

impl JsonValue {
    /// The field of an object under `key`; `None` when the value is not
    /// an object or has no such field.
    pub fn get(&self, key: &str) -> (r: Option<&JsonValue>)
        ensures
            match r {
                Some(f) => json_lookup(*self, key@) == Some(*f),
                None => json_lookup(*self, key@) is None,
            },
    {
        match self {
            JsonValue::Obj(fields) => {
                let key_s: String = key.to_owned();
                let n: usize = fields.len();
                let mut i: usize = 0;
                proof {
                    assert(fields@.subrange(0, n as int) =~= fields@);
                }
                while i < n
                    invariant
                        *self == JsonValue::Obj(*fields),
                        n == fields@.len(),
                        i <= n,
                        key_s@ == key@,
                        field_lookup(fields@.subrange(i as int, n as int), key@) == field_lookup(
                            fields@,
                            key@,
                        ),
                    decreases n - i,
                {
                    proof {
                        assert(fields@.subrange(i as int, n as int).len() == n - i);
                        assert(fields@.subrange(i as int, n as int)[0] == fields@[i as int]);
                        assert(fields@.subrange(i as int, n as int).drop_first() =~= fields@
                            .subrange(i + 1, n as int));
                    }
                    if fields[i].0 == key_s {
                        proof {
                            assert(field_lookup(fields@.subrange(i as int, n as int), key@)
                                == Some(fields@[i as int].1));
                        }
                        return Some(&fields[i].1);
                    }
                    proof {
                        assert(field_lookup(fields@.subrange(i as int, n as int), key@)
                            == field_lookup(fields@.subrange(i + 1, n as int), key@));
                    }
                    i = i + 1;
                }
                proof {
                    assert(fields@.subrange(n as int, n as int) =~= Seq::<
                        (String, JsonValue),
                    >::empty());
                }
                None
            },
            _ => None,
        }
    }

    /// This value rendered in JSON form, as used for diagnostics.
    pub fn to_json_string(&self) -> (r: String)
        ensures
            r@ == render_json(*self),
    {
        let mut out = String::new();
        render_into(self, &mut out);
        proof {
            assert(Seq::<char>::empty() + render_json(*self) =~= render_json(*self));
        }
        out
    }
}

/// Append the escaped form of `s` to `out`.
fn push_escaped(out: &mut String, s: &String)
    ensures
        final (out)@ == old(out)@ + escape_str(s@),
{
    let slice: &str = s.as_str();
    let n: usize = slice.unicode_len();
    let mut i: usize = 0;
    proof {
        assert(old(out)@ + escape_str(s@.subrange(0, 0)) =~= old(out)@);
    }
    while i < n
        invariant
            n == s@.len(),
            slice@ == s@,
            i <= n,
            out@ == old(out)@ + escape_str(s@.subrange(0, i as int)),
        decreases n - i,
    {
        let c = slice.get_char(i);
        if c == '"' || c == '\\' {
            push_char(out, '\\');
            push_char(out, c);
        } else {
            push_char(out, c);
        }
        proof {
            let pre = s@.subrange(0, i as int);
            let cur = s@.subrange(0, i + 1);
            assert(cur.drop_last() =~= pre);
            assert(cur.last() == s@[i as int]);
            assert(old(out)@ + escape_str(cur) =~= (old(out)@ + escape_str(pre)) + escape_char(
                s@[i as int],
            ));
        }
        i = i + 1;
    }
    proof {
        assert(s@.subrange(0, n as int) =~= s@);
    }
}

/// Append the JSON rendering of `s` to `out`.
fn push_rendered_str(out: &mut String, s: &String)
    ensures
        final (out)@ == old(out)@ + render_str(s@),
{
    push_char(out, '"');
    push_escaped(out, s);
    push_char(out, '"');
    proof {
        assert(old(out)@ + render_str(s@) =~= (old(out)@.push('"') + escape_str(s@)).push('"'));
    }
}

/// Append the JSON rendering of `v` to `out`.
fn render_into(v: &JsonValue, out: &mut String)
    ensures
        final (out)@ == old(out)@ + render_json(*v),
    decreases *v, 1int,
{
    match v {
        JsonValue::Null => {
            out.append("null");
        },
        JsonValue::Bool(b) => {
            if *b {
                out.append("true");
            } else {
                out.append("false");
            }
        },
        JsonValue::Num(n) => {
            let s = u64_to_dec_string(*n);
            out.append(s.as_str());
        },
        JsonValue::Str(s) => {
            push_rendered_str(out, s);
        },
        JsonValue::Arr(items) => {
            push_char(out, '[');
            let ghost base: Seq<char> = out@;
            let n: usize = items.len();
            let mut i: usize = 0;
            while i < n
                invariant
                    *v == JsonValue::Arr(*items),
                    n == items@.len(),
                    i <= n,
                    out@ == base + render_arr_to(items@, i as int),
                decreases n - i,
            {
                if i > 0 {
                    push_char(out, ',');
                }
                proof {
                    assert(*items == v->Arr_0);
                    assert(decreases_to!(*v => v->Arr_0));
                    assert(decreases_to!(v->Arr_0 => items@));
                    assert(decreases_to!(items@ => items@[i as int]));
                    assert(decreases_to!(*v, 1int => items@[i as int], 1int));
                }
                render_into(&items[i], out);
                proof {
                    if i == 0 {
                        assert(base + render_arr_to(items@, 1) =~= base + render_json(
                            items@[0],
                        ));
                    } else {
                        assert(base + render_arr_to(items@, i + 1) =~= ((base + render_arr_to(
                            items@,
                            i as int,
                        )).push(',')) + render_json(items@[i as int]));
                    }
                }
                i = i + 1;
            }
            push_char(out, ']');
            proof {
                assert(old(out)@ + render_json(*v) =~= (base + render_arr_to(
                    items@,
                    n as int,
                )).push(']'));
            }
        },
        JsonValue::Obj(fields) => {
            push_char(out, '{');
            let ghost base: Seq<char> = out@;
            let n: usize = fields.len();
            let mut i: usize = 0;
            while i < n
                invariant
                    *v == JsonValue::Obj(*fields),
                    n == fields@.len(),
                    i <= n,
                    out@ == base + render_obj_to(fields@, i as int),
                decreases n - i,
            {
                if i > 0 {
                    push_char(out, ',');
                }
                let ghost mid: Seq<char> = out@;
                push_rendered_str(out, &fields[i].0);
                push_char(out, ':');
                proof {
                    assert(*fields == v->Obj_0);
                    assert(decreases_to!(*v => v->Obj_0));
                    assert(decreases_to!(v->Obj_0 => fields@));
                    assert(decreases_to!(fields@ => fields@[i as int]));
                    assert(decreases_to!(fields@[i as int] => fields@[i as int].1));
                    assert(decreases_to!(*v, 1int => fields@[i as int].1, 1int));
                }
                render_into(&fields[i].1, out);
                proof {
                    let entry = render_str(fields@[i as int].0@) + seq![':'] + render_json(
                        fields@[i as int].1,
                    );
                    assert(out@ =~= mid + entry);
                    if i == 0 {
                        assert(base + render_obj_to(fields@, 1) =~= base + entry);
                    } else {
                        assert(base + render_obj_to(fields@, i + 1) =~= ((base + render_obj_to(
                            fields@,
                            i as int,
                        )).push(',')) + entry);
                    }
                }
                i = i + 1;
            }
            push_char(out, '}');
            proof {
                assert(old(out)@ + render_json(*v) =~= (base + render_obj_to(
                    fields@,
                    n as int,
                )).push('}'));
            }
        },
    }
}

} // verus!
