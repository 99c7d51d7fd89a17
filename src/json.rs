use vstd::prelude::*;

verus! {

/// A JSON document as the library reads it. A number is kept as its value when
/// that is a non-negative integer that fits in 64 bits, and as `None` otherwise.
/// An object keeps its members in the parser's order.
#[derive(Debug)]
pub enum Json {
    Null,
    Bool(bool),
    Num(Option<u64>),
    Str(String),
    Arr(Vec<Json>),
    Obj(Vec<(String, Json)>),
}

#[verifier::external_type_specification]
#[verifier::external_body]
pub struct ExValue(serde_json::Value);

/// The document that a JSON text parses to; `None` when it is not JSON.
pub uninterp spec fn json_doc_of(text: Seq<char>) -> Option<Json>;

/// Relies on serde_json::from_str: a pure parse of the text into a Value, which
/// `json_from_value` carries over variant by variant.
#[verifier::external_body]
pub fn parse_json(text: &str) -> (r: Option<Json>)
    ensures
        r == json_doc_of(text@),
{
    serde_json::from_str::<serde_json::Value>(text).ok().map(|v| json_from_value(&v))
}

/// Relies on serde_json::Value's variants and Number::as_u64: one `Json` for each
/// Value, of the same shape.
#[verifier::external_body]
fn json_from_value(v: &serde_json::Value) -> Json {
    match v {
        serde_json::Value::Null => Json::Null,
        serde_json::Value::Bool(b) => Json::Bool(*b),
        serde_json::Value::Number(n) => Json::Num(n.as_u64()),
        serde_json::Value::String(s) => Json::Str(s.clone()),
        serde_json::Value::Array(a) => Json::Arr(a.iter().map(json_from_value).collect()),
        serde_json::Value::Object(m) => Json::Obj(
            m.iter().map(|(k, x)| (k.clone(), json_from_value(x))).collect(),
        ),
    }
}

/// The value of the first member named `key` among `fields`.
pub open spec fn field(fields: Seq<(String, Json)>, key: Seq<char>) -> Option<Json>
    decreases fields.len(),
{
    if fields.len() == 0 {
        None
    } else if fields[0].0@ == key {
        Some(fields[0].1)
    } else {
        field(fields.drop_first(), key)
    }
}

/// `doc[key]`: the member named `key` of an object, and `Null` where `doc` is no
/// object or has no such member.
pub open spec fn member(doc: Json, key: Seq<char>) -> Json {
    match doc {
        Json::Obj(fields) => match field(fields@, key) {
            Some(v) => v,
            None => Json::Null,
        },
        _ => Json::Null,
    }
}

/// The member named `key` of `doc`; `None` where `member` gives `Null` for want of one.
pub fn member_of<'a>(doc: &'a Json, key: &String) -> (r: Option<&'a Json>)
    ensures
        match r {
            Some(v) => member(*doc, key@) == *v,
            None => member(*doc, key@) == Json::Null,
        },
{
    match doc {
        Json::Obj(fields) => {
            let mut i: usize = 0;
            proof {
                assert(fields@.subrange(0, fields@.len() as int) =~= fields@);
            }
            while i < fields.len()
                invariant
                    i <= fields.len(),
                    *doc == Json::Obj(*fields),
                    field(fields@, key@) == field(fields@.subrange(i as int, fields@.len() as int), key@),
                decreases fields.len() - i,
            {
                let ghost rest = fields@.subrange(i as int, fields@.len() as int);
                proof {
                    assert(rest.drop_first() =~= fields@.subrange(i as int + 1, fields@.len() as int));
                    assert(rest[0] == fields@[i as int]);
                }
                if fields[i].0.eq(key) {
                    proof {
                        assert(field(rest, key@) == Some(fields@[i as int].1));
                    }
                    return Some(&fields[i].1);
                }
                i += 1;
            }
            None
        },
        _ => None,
    }
}

} // verus!
