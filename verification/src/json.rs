//! Trusted view of JSON documents.
//!
//! JSON text is parsed and re-serialized by serde_json; the library's
//! logic never re-implements either.  Each call goes through a small
//! trusted wrapper whose contract speaks of `jmodel`, the mathematical
//! JSON document a `serde_json::Value` denotes.  serde_json maps hold
//! their entries in ascending key order, which is how `Jv::Obj` carries
//! them.

use vstd::prelude::*;
use crate::analysis::spec_lex_le;

verus! {

/// The mathematical JSON document: integers split as serde_json stores
/// them (non-negative, negative), a non-integer number carried as the
/// bit pattern of its `f64`, object entries in ascending key order.
pub enum Jv {
    Null,
    Bool(bool),
    UInt(u64),
    SInt(i64),
    FNum(u64),
    Str(Seq<char>),
    Arr(Seq<Jv>),
    Obj(Seq<(Seq<char>, Jv)>),
}

/// Looks a key up among object entries (first match).
pub open spec fn jv_obj_get(es: Seq<(Seq<char>, Jv)>, key: Seq<char>) -> Option<Jv>
    decreases es.len(),
{
    if es.len() == 0 {
        None
    } else if es[0].0 == key {
        Some(es[0].1)
    } else {
        jv_obj_get(es.drop_first(), key)
    }
}

/// Looks a key up in a document; `None` unless it is an object carrying
/// the key.
pub open spec fn jv_get(m: Jv, key: Seq<char>) -> Option<Jv> {
    match m {
        Jv::Obj(es) => jv_obj_get(es, key),
        _ => None,
    }
}

/// The keys of an object document, in entry order.
pub open spec fn jv_keys(m: Jv) -> Seq<Seq<char>> {
    match m {
        Jv::Obj(es) => es.map_values(|e: (Seq<char>, Jv)| e.0),
        _ => Seq::empty(),
    }
}

/// Strictly ascending (hence unique) keys.
pub open spec fn jv_obj_sorted(es: Seq<(Seq<char>, Jv)>) -> bool {
    forall|i: int, j: int|
        0 <= i < j < es.len() ==> spec_lex_le((#[trigger] es[i]).0, (#[trigger] es[j]).0) && es[i].0
            != es[j].0
}

/// Top-level object entries in ascending key order (vacuous otherwise).
pub open spec fn jv_top_sorted(m: Jv) -> bool {
    match m {
        Jv::Obj(es) => jv_obj_sorted(es),
        _ => true,
    }
}

/// Every element of a top-level array is itself top-sorted (vacuous for
/// other documents).
pub open spec fn jv_elems_top_sorted(m: Jv) -> bool {
    match m {
        Jv::Arr(xs) => forall|i: int| 0 <= i < xs.len() ==> jv_top_sorted(#[trigger] xs[i]),
        _ => true,
    }
}

/// Entries after inserting (or replacing) a key, keeping ascending order.
pub open spec fn jv_obj_insert(es: Seq<(Seq<char>, Jv)>, key: Seq<char>, x: Jv) -> Seq<
    (Seq<char>, Jv),
>
    decreases es.len(),
{
    if es.len() == 0 {
        seq![(key, x)]
    } else if es[0].0 == key {
        seq![(key, x)] + es.drop_first()
    } else if spec_lex_le(key, es[0].0) {
        seq![(key, x)] + es
    } else {
        seq![es[0]] + jv_obj_insert(es.drop_first(), key, x)
    }
}

/// In an object with strictly ascending keys, looking up the i-th key
/// yields the i-th value.
pub proof fn lemma_sorted_obj_get(es: Seq<(Seq<char>, Jv)>, i: int)
    requires
        jv_obj_sorted(es),
        0 <= i < es.len(),
    ensures
        jv_obj_get(es, es[i].0) == Some(es[i].1),
    decreases es.len(),
{
    if i == 0 {
    } else {
        assert(es[0].0 != es[i].0);
        assert forall|a: int, b: int|
            0 <= a < b < es.drop_first().len() implies spec_lex_le(
            (#[trigger] es.drop_first()[a]).0,
            (#[trigger] es.drop_first()[b]).0,
        ) && es.drop_first()[a].0 != es.drop_first()[b].0 by {
            assert(es.drop_first()[a] == es[a + 1]);
            assert(es.drop_first()[b] == es[b + 1]);
        }
        lemma_sorted_obj_get(es.drop_first(), i - 1);
        assert(es.drop_first()[i - 1] == es[i]);
    }
}

/// Inserting into a sorted object keeps it sorted.
pub proof fn lemma_obj_insert_sorted(es: Seq<(Seq<char>, Jv)>, key: Seq<char>, x: Jv)
    requires
        jv_obj_sorted(es),
    ensures
        jv_obj_sorted(jv_obj_insert(es, key, x)),
    decreases es.len(),
{
    let r = jv_obj_insert(es, key, x);
    if es.len() == 0 {
        assert(jv_obj_sorted(r));
    } else if es[0].0 == key {
        assert(r =~= seq![(key, x)] + es.drop_first());
        assert forall|i: int, j: int| 0 <= i < j < r.len() implies crate::analysis::spec_lex_le(
            (#[trigger] r[i]).0,
            (#[trigger] r[j]).0,
        ) && r[i].0 != r[j].0 by {
            assert(r[j] == es.drop_first()[j - 1]);
            assert(es.drop_first()[j - 1] == es[j]);
            if i == 0 {
                assert(crate::analysis::spec_lex_le(es[0].0, es[j].0) && es[0].0 != es[j].0);
            } else {
                assert(r[i] == es.drop_first()[i - 1]);
                assert(es.drop_first()[i - 1] == es[i]);
                assert(crate::analysis::spec_lex_le(es[i].0, es[j].0) && es[i].0 != es[j].0);
            }
        }
    } else if crate::analysis::spec_lex_le(key, es[0].0) {
        assert(r =~= seq![(key, x)] + es);
        assert forall|i: int, j: int| 0 <= i < j < r.len() implies crate::analysis::spec_lex_le(
            (#[trigger] r[i]).0,
            (#[trigger] r[j]).0,
        ) && r[i].0 != r[j].0 by {
            if i == 0 {
                assert(r[j] == es[j - 1]);
                if j == 1 {
                } else {
                    assert(crate::analysis::spec_lex_le(es[0].0, es[j - 1].0) && es[0].0 != es[j
                        - 1].0);
                    crate::analysis::lemma_lex_le_trans(key, es[0].0, es[j - 1].0);
                }
                if key == es[j - 1].0 {
                    crate::analysis::lemma_lex_le_antisym(key, es[0].0);
                    assert(false);
                }
            } else {
                assert(r[i] == es[i - 1] && r[j] == es[j - 1]);
            }
        }
    } else {
        let tail = es.drop_first();
        assert forall|a: int, b: int| 0 <= a < b < tail.len() implies crate::analysis::spec_lex_le(
            (#[trigger] tail[a]).0,
            (#[trigger] tail[b]).0,
        ) && tail[a].0 != tail[b].0 by {
            assert(tail[a] == es[a + 1] && tail[b] == es[b + 1]);
        }
        lemma_obj_insert_sorted(tail, key, x);
        let rt = jv_obj_insert(tail, key, x);
        assert(r =~= seq![es[0]] + rt);
        crate::analysis::lemma_lex_le_total(key, es[0].0);
        assert(crate::analysis::spec_lex_le(es[0].0, key));
        assert forall|i: int, j: int| 0 <= i < j < r.len() implies crate::analysis::spec_lex_le(
            (#[trigger] r[i]).0,
            (#[trigger] r[j]).0,
        ) && r[i].0 != r[j].0 by {
            if i == 0 {
                assert(r[j] == rt[j - 1]);
                lemma_obj_insert_member(tail, key, x, j - 1);
                if rt[j - 1].0 == key {
                    assert(crate::analysis::spec_lex_le(es[0].0, key));
                    if es[0].0 == key {
                        assert(false);
                    }
                } else {
                    let w = choose|w: int|
                        0 <= w < tail.len() && (#[trigger] tail[w]).0 == rt[j - 1].0;
                    assert(tail[w] == es[w + 1]);
                    assert(crate::analysis::spec_lex_le(es[0].0, es[w + 1].0) && es[0].0 != es[w
                        + 1].0);
                }
            } else {
                assert(r[i] == rt[i - 1] && r[j] == rt[j - 1]);
            }
        }
    }
}

/// Every entry of an insertion result carries the new key or one of the
/// old keys.
proof fn lemma_obj_insert_member(es: Seq<(Seq<char>, Jv)>, key: Seq<char>, x: Jv, i: int)
    requires
        0 <= i < jv_obj_insert(es, key, x).len(),
    ensures
        jv_obj_insert(es, key, x)[i].0 == key || exists|w: int|
            0 <= w < es.len() && (#[trigger] es[w]).0 == jv_obj_insert(es, key, x)[i].0,
    decreases es.len(),
{
    let r = jv_obj_insert(es, key, x);
    if es.len() == 0 {
    } else if es[0].0 == key {
        if i > 0 {
            assert(r[i] == es.drop_first()[i - 1]);
            assert(es.drop_first()[i - 1] == es[i]);
            assert(es[i].0 == r[i].0);
        }
    } else if crate::analysis::spec_lex_le(key, es[0].0) {
        if i > 0 {
            assert(r[i] == es[i - 1]);
        }
    } else {
        if i == 0 {
            assert(r[0] == es[0]);
        } else {
            assert(r[i] == jv_obj_insert(es.drop_first(), key, x)[i - 1]);
            lemma_obj_insert_member(es.drop_first(), key, x, i - 1);
            if !(r[i].0 == key) {
                let w = choose|w: int|
                    0 <= w < es.drop_first().len() && (#[trigger] es.drop_first()[w]).0 == r[i].0;
                assert(es.drop_first()[w] == es[w + 1]);
                assert(es[w + 1].0 == r[i].0);
            }
        }
    }
}

/// The document a `serde_json::Value` denotes.
pub uninterp spec fn jmodel(v: serde_json::Value) -> Jv;

/// What parsing a text yields: `None` where the text is not valid JSON.
pub uninterp spec fn text_model(s: Seq<char>) -> Option<Jv>;

/// The compact rendering of a document.
pub uninterp spec fn rendered(j: Jv) -> Seq<char>;

/// The pretty rendering of a document.
pub uninterp spec fn rendered_pretty(j: Jv) -> Seq<char>;

#[verifier::external_type_specification]
#[verifier::external_body]
pub struct ExValue(serde_json::Value);

/// Relies on serde_json::from_str::<Value>: parses JSON text; a parsed
/// object holds its entries in ascending key order (serde_json's map is
/// an ordered map).
#[verifier::external_body]
pub fn json_parse(s: &str) -> (r: Option<serde_json::Value>)
    ensures
        match r {
            Some(v) => text_model(s@) == Some(jmodel(v)) && jv_top_sorted(jmodel(v))
                && jv_elems_top_sorted(jmodel(v)),
            None => text_model(s@) is None,
        },
{
    serde_json::from_str::<serde_json::Value>(s).ok()
}

/// Relies on serde_json::Value::get: looks a key up in an object, `None`
/// on any other document.
#[verifier::external_body]
pub fn value_get<'a>(v: &'a serde_json::Value, key: &str) -> (r: Option<&'a serde_json::Value>)
    ensures
        match r {
            Some(x) => jv_get(jmodel(*v), key@) == Some(jmodel(*x)),
            None => jv_get(jmodel(*v), key@) is None,
        },
{
    v.get(key)
}

/// Relies on serde_json::Value::as_u64: the value of a non-negative
/// integer number.
#[verifier::external_body]
pub fn value_as_u64(v: &serde_json::Value) -> (r: Option<u64>)
    ensures
        r == (match jmodel(*v) {
            Jv::UInt(n) => Some(n),
            _ => None::<u64>,
        }),
{
    v.as_u64()
}

/// Relies on serde_json::Value::as_str: the text of a string document.
#[verifier::external_body]
pub fn value_as_str<'a>(v: &'a serde_json::Value) -> (r: Option<&'a str>)
    ensures
        match r {
            Some(s) => jmodel(*v) == Jv::Str(s@),
            None => !(jmodel(*v) is Str),
        },
{
    v.as_str()
}

/// Relies on serde_json::Value::as_bool.
#[verifier::external_body]
pub fn value_as_bool(v: &serde_json::Value) -> (r: Option<bool>)
    ensures
        r == (match jmodel(*v) {
            Jv::Bool(b) => Some(b),
            _ => None::<bool>,
        }),
{
    v.as_bool()
}

/// Relies on serde_json::Value::is_object.
#[verifier::external_body]
pub fn value_is_object(v: &serde_json::Value) -> (r: bool)
    ensures
        r == (jmodel(*v) is Obj),
{
    v.is_object()
}

/// Relies on serde_json::Value::is_null.
#[verifier::external_body]
pub fn value_is_null(v: &serde_json::Value) -> (r: bool)
    ensures
        r == (jmodel(*v) is Null),
{
    v.is_null()
}

/// Relies on serde_json::Map::keys: the keys of an object, in entry
/// (ascending) order.
#[verifier::external_body]
pub fn object_keys(v: &serde_json::Value) -> (r: Vec<String>)
    requires
        jmodel(*v) is Obj,
    ensures
        r@.map_values(|s: String| s@) == jv_keys(jmodel(*v)),
{
    match v.as_object() {
        Some(m) => m.keys().cloned().collect(),
        None => Vec::new(),
    }
}

/// Relies on serde_json::Value::as_array (length only).
#[verifier::external_body]
pub fn value_array_len(v: &serde_json::Value) -> (r: Option<usize>)
    ensures
        match r {
            Some(n) => jmodel(*v) matches Jv::Arr(xs) && xs.len() == n,
            None => !(jmodel(*v) is Arr),
        },
{
    match v.as_array() {
        Some(a) => Some(a.len()),
        None => None,
    }
}

/// Relies on serde_json::Value::as_array and slice indexing: one element
/// of an array document.
#[verifier::external_body]
pub fn value_array_get<'a>(v: &'a serde_json::Value, i: usize) -> (r: Option<
    &'a serde_json::Value,
>)
    requires
        jmodel(*v) matches Jv::Arr(xs) && i < xs.len(),
    ensures
        match r {
            Some(x) => jmodel(*v) matches Jv::Arr(xs) && jmodel(*x) == xs[i as int],
            None => false,
        },
{
    match v.as_array() {
        Some(a) => a.get(i),
        None => None,
    }
}

/// Relies on serde_json::Value::clone.
#[verifier::external_body]
pub fn value_clone(v: &serde_json::Value) -> (r: serde_json::Value)
    ensures
        jmodel(r) == jmodel(*v),
{
    v.clone()
}

/// Relies on the Value::String constructor.
#[verifier::external_body]
pub fn string_value(s: &str) -> (r: serde_json::Value)
    ensures
        jmodel(r) == Jv::Str(s@),
{
    serde_json::Value::String(s.to_string())
}

/// Relies on Value::from for u64: a non-negative integer number.
#[verifier::external_body]
pub fn u64_value(n: u64) -> (r: serde_json::Value)
    ensures
        jmodel(r) == Jv::UInt(n),
{
    serde_json::Value::from(n)
}

/// Relies on the Value::Null constructor.
#[verifier::external_body]
pub fn null_value() -> (r: serde_json::Value)
    ensures
        jmodel(r) == Jv::Null,
{
    serde_json::Value::Null
}

/// Relies on the Value::Array constructor.
#[verifier::external_body]
pub fn array_value(xs: Vec<serde_json::Value>) -> (r: serde_json::Value)
    ensures
        jmodel(r) == Jv::Arr(xs@.map_values(|x: serde_json::Value| jmodel(x))),
{
    serde_json::Value::Array(xs)
}

/// Relies on the Value::Object constructor over an empty map.
#[verifier::external_body]
pub fn empty_object_value() -> (r: serde_json::Value)
    ensures
        jmodel(r) == Jv::Obj(Seq::empty()),
        jv_top_sorted(jmodel(r)),
{
    serde_json::Value::Object(serde_json::Map::new())
}

/// Relies on serde_json::Map::insert through as_object_mut: inserts or
/// replaces a key; the map keeps its entries in ascending key order.
#[verifier::external_body]
pub fn object_insert(v: &mut serde_json::Value, key: &str, x: serde_json::Value)
    requires
        jmodel(*old(v)) is Obj,
        jv_top_sorted(jmodel(*old(v))),
    ensures
        jmodel(*final(v)) == Jv::Obj(
            jv_obj_insert(jmodel(*old(v))->Obj_0, key@, jmodel(x)),
        ),
{
    if let Some(m) = v.as_object_mut() {
        m.insert(key.to_string(), x);
    }
}

/// Relies on serde_json::to_string: the compact rendering, a function
/// of the document alone; rendering a `Value` never fails.  Any
/// document that some text parses to — so one within the parser's
/// nesting limit — is rendered as text that reparses to it: the
/// renderer writes every entry exactly (ryu round-trips every finite
/// float) and cannot deepen the nesting.
#[verifier::external_body]
pub fn value_to_string(v: &serde_json::Value) -> (r: String)
    ensures
        r@ == rendered(jmodel(*v)),
        forall|s: Seq<char>|
            text_model(s) == Some(jmodel(*v)) ==> #[trigger] text_model(s) == text_model(r@),
{
    match serde_json::to_string(v) {
        Ok(s) => s,
        Err(_) => String::new(),
    }
}

/// Relies on serde_json::to_string_pretty: the pretty rendering, a
/// function of the document alone; rendering a `Value` never fails.
/// The same round trip as the compact rendering: any document some text
/// parses to reparses from its rendering.
#[verifier::external_body]
pub fn value_to_string_pretty(v: &serde_json::Value) -> (r: String)
    ensures
        r@ == rendered_pretty(jmodel(*v)),
        forall|s: Seq<char>|
            text_model(s) == Some(jmodel(*v)) ==> #[trigger] text_model(s) == text_model(r@),
{
    match serde_json::to_string_pretty(v) {
        Ok(s) => s,
        Err(_) => String::new(),
    }
}

} // verus!
