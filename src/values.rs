use vstd::prelude::*;
use vstd::string::StringExecFns;
use crate::json::JsonValue;
use crate::fields::{DecodeError, Failure};

verus! {

/// A string member: its value must be a JSON string.
pub open spec fn text_of(v: JsonValue, field: Seq<char>) -> Result<Seq<char>, Failure> {
    match v {
        JsonValue::Str(s) => Ok(s@),
        _ => Err(Failure::InvalidValue(field)),
    }
}

/// An optional port: `null`, or a number that fits in 16 bits.
pub open spec fn port_of(v: JsonValue, field: Seq<char>) -> Result<Option<u16>, Failure> {
    match v {
        JsonValue::Null => Ok(None),
        JsonValue::Number(n) => if n <= 65535 {
            Ok(Some(n as u16))
        } else {
            Err(Failure::InvalidValue(field))
        },
        _ => Err(Failure::InvalidValue(field)),
    }
}

/// An optional count: `null`, or a number that fits in 32 bits.
pub open spec fn count_of(v: JsonValue, field: Seq<char>) -> Result<Option<u32>, Failure> {
    match v {
        JsonValue::Null => Ok(None),
        JsonValue::Number(n) => if n <= 0xffff_ffff {
            Ok(Some(n as u32))
        } else {
            Err(Failure::InvalidValue(field))
        },
        _ => Err(Failure::InvalidValue(field)),
    }
}

/// A list of strings: a JSON array whose items are all strings.
pub open spec fn texts_of(v: JsonValue, field: Seq<char>) -> Result<Seq<Seq<char>>, Failure> {
    match v {
        JsonValue::Array(items) => if forall|k: int| 0 <= k < items.len() ==> (#[trigger] items[k]) is Str {
            Ok(Seq::new(items.len() as nat, |k: int| items[k]->Str_0@))
        } else {
            Err(Failure::InvalidValue(field))
        },
        _ => Err(Failure::InvalidValue(field)),
    }
}

pub fn invalid(field: &str) -> (e: DecodeError)
    ensures
        e@ == Failure::InvalidValue(field@),
{
    DecodeError::InvalidValue(String::from_str(field))
}

pub fn decode_text(v: &JsonValue, field: &str) -> (r: Result<String, DecodeError>)
    ensures
        match r {
            Ok(s) => text_of(*v, field@) == Ok::<Seq<char>, Failure>(s@),
            Err(e) => text_of(*v, field@) == Err::<Seq<char>, Failure>(e@),
        },
{
    match v {
        JsonValue::Str(s) => Ok(s.clone()),
        _ => Err(invalid(field)),
    }
}

pub fn decode_port(v: &JsonValue, field: &str) -> (r: Result<Option<u16>, DecodeError>)
    ensures
        match r {
            Ok(p) => port_of(*v, field@) == Ok::<Option<u16>, Failure>(p),
            Err(e) => port_of(*v, field@) == Err::<Option<u16>, Failure>(e@),
        },
{
    match v {
        JsonValue::Null => Ok(None),
        JsonValue::Number(n) => if *n <= 65535 {
            Ok(Some(*n as u16))
        } else {
            Err(invalid(field))
        },
        _ => Err(invalid(field)),
    }
}

pub fn decode_count(v: &JsonValue, field: &str) -> (r: Result<Option<u32>, DecodeError>)
    ensures
        match r {
            Ok(p) => count_of(*v, field@) == Ok::<Option<u32>, Failure>(p),
            Err(e) => count_of(*v, field@) == Err::<Option<u32>, Failure>(e@),
        },
{
    match v {
        JsonValue::Null => Ok(None),
        JsonValue::Number(n) => if *n <= 0xffff_ffff {
            Ok(Some(*n as u32))
        } else {
            Err(invalid(field))
        },
        _ => Err(invalid(field)),
    }
}

pub fn decode_texts(v: &JsonValue, field: &str) -> (r: Result<Vec<String>, DecodeError>)
    ensures
        match r {
            Ok(t) => texts_of(*v, field@) == Ok::<Seq<Seq<char>>, Failure>(
                t@.map_values(|s: String| s@),
            ),
            Err(e) => texts_of(*v, field@) == Err::<Seq<Seq<char>>, Failure>(e@),
        },
{
    match v {
        JsonValue::Array(items) => {
            let mut out: Vec<String> = Vec::new();
            let mut i: usize = 0;
            while i < items.len()
                invariant
                    i <= items.len(),
                    *v == JsonValue::Array(*items),
                    out.len() == i,
                    forall|k: int| 0 <= k < i ==> (#[trigger] items@[k]) is Str,
                    forall|k: int| 0 <= k < i ==> #[trigger] out@[k]@ == items@[k]->Str_0@,
                decreases items.len() - i,
            {
                match &items[i] {
                    JsonValue::Str(s) => {
                        out.push(s.clone());
                    },
                    _ => {
                        assert(!(items[i as int] is Str));
                        return Err(invalid(field));
                    },
                }
                i = i + 1;
            }
            assert(out@.map_values(|s: String| s@) =~= Seq::new(
                items.len() as nat,
                |k: int| items[k]->Str_0@,
            ));
            Ok(out)
        },
        _ => Err(invalid(field)),
    }
}

/// `v` is the JSON string `t`.
pub open spec fn is_text(v: JsonValue, t: Seq<char>) -> bool {
    v is Str && v->Str_0@ == t
}

/// `v` is the JSON array of the strings `t`, in order.
pub open spec fn encodes_texts(v: JsonValue, t: Seq<Seq<char>>) -> bool {
    &&& v is Array
    &&& v->Array_0.len() == t.len()
    &&& forall|k: int| 0 <= k < t.len() ==> is_text(#[trigger] v->Array_0@[k], t[k])
}

/// The JSON form of an optional port.
pub open spec fn port_json(p: Option<u16>) -> JsonValue {
    match p {
        Some(n) => JsonValue::Number(n as u64),
        None => JsonValue::Null,
    }
}

/// The JSON form of an optional count.
pub open spec fn count_json(c: Option<u32>) -> JsonValue {
    match c {
        Some(n) => JsonValue::Number(n as u64),
        None => JsonValue::Null,
    }
}

pub proof fn lemma_texts_round_trip(v: JsonValue, t: Seq<Seq<char>>, f: Seq<char>)
    requires
        encodes_texts(v, t),
    ensures
        texts_of(v, f) == Ok::<Seq<Seq<char>>, Failure>(t),
{
    let items = v->Array_0;
    assert forall|k: int| 0 <= k < items.len() implies (#[trigger] items[k]) is Str by {
        assert(is_text(items@[k], t[k]));
    }
    assert(Seq::new(items.len() as nat, |k: int| items[k]->Str_0@) =~= t);
}

/// The JSON array of strings for a list.
pub fn encode_texts(t: &Vec<String>) -> (r: JsonValue)
    ensures
        encodes_texts(r, t@.map_values(|s: String| s@)),
{
    let mut items: Vec<JsonValue> = Vec::new();
    let mut i: usize = 0;
    while i < t.len()
        invariant
            i <= t.len(),
            items.len() == i,
            forall|k: int| 0 <= k < i ==> (#[trigger] items@[k]) is Str && items@[k]->Str_0@ == t@[k]@,
        decreases t.len() - i,
    {
        items.push(JsonValue::Str(t[i].clone()));
        i = i + 1;
    }
    JsonValue::Array(items)
}

pub fn encode_port(p: Option<u16>) -> (r: JsonValue)
    ensures
        r == port_json(p),
        forall|f: Seq<char>| port_of(r, f) == Ok::<Option<u16>, Failure>(p),
{
    match p {
        Some(n) => JsonValue::Number(n as u64),
        None => JsonValue::Null,
    }
}

pub fn encode_count(p: Option<u32>) -> (r: JsonValue)
    ensures
        r == count_json(p),
        forall|f: Seq<char>| count_of(r, f) == Ok::<Option<u32>, Failure>(p),
{
    match p {
        Some(n) => JsonValue::Number(n as u64),
        None => JsonValue::Null,
    }
}

pub proof fn lemma_port_round_trip(p: Option<u16>, f: Seq<char>)
    ensures
        port_of(port_json(p), f) == Ok::<Option<u16>, Failure>(p),
{
}

pub proof fn lemma_count_round_trip(c: Option<u32>, f: Seq<char>)
    ensures
        count_of(count_json(c), f) == Ok::<Option<u32>, Failure>(c),
{
}

/// A member of an object.
pub fn member(name: &str, v: JsonValue) -> (r: (String, JsonValue))
    ensures
        r.0@ == name@,
        r.1 == v,
{
    (String::from_str(name), v)
}

} // verus!
