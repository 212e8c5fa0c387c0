//! Building blocks for the canonical record schema.
//!
//! Every structured record serializes as a `Value::Record` whose entries
//! are `(tag, value)` pairs in a fixed order, with fields equal to their
//! type's default omitted.  `opt_entry` is the spec-level form of one
//! optional field; `push_entry` is its executable counterpart.

use vstd::prelude::*;
use vstd::slice::slice_to_vec;
use vstd::string::StrSliceExecFns;
use vstd::utf8::encode_utf8;

use crate::address::zero_bytes;
use crate::address::Address;
use crate::codec::{enc, lookup, model_entries, model_list, lemma_model_entries_props, lemma_model_list_props, Val, Value};

verus! {

/// One optional record field: present exactly when `c` holds.
pub open spec fn opt_entry(c: bool, t: Seq<u8>, v: Val) -> Seq<(Seq<u8>, Val)> {
    if c {
        seq![(t, v)]
    } else {
        Seq::empty()
    }
}

/// The byte form of a record with the given fields.
pub open spec fn record_bytes(fields: Seq<(Seq<u8>, Val)>) -> Seq<u8> {
    enc(Val::Record(fields))
}

/// Appends one tagged field to a record under construction.
pub fn push_entry(es: &mut Vec<(Vec<u8>, Value)>, tag: Vec<u8>, v: Value)
    ensures
        model_entries(final(es)@) == model_entries(old(es)@).push((tag@, v.model())),
{
    let ghost t = tag@;
    let ghost m = v.model();
    let ghost old_es = es@;
    es.push((tag, v));
    proof {
        lemma_model_entries_props(old_es);
        lemma_model_entries_props(es@);
        assert(es@.len() == old_es.len() + 1);
        assert(es@[old_es.len() as int].0@ == t && es@[old_es.len() as int].1.model() == m);
        assert(forall|k: int| 0 <= k < old_es.len() ==> es@[k] == old_es[k]);
        assert(model_entries(es@) =~= model_entries(old_es).push((t, m)));
    }
}

pub fn tag1(a: u8) -> (r: Vec<u8>)
    ensures
        r@ == seq![a],
{
    let mut v: Vec<u8> = Vec::new();
    v.push(a);
    proof {
        assert(v@ =~= seq![a]);
    }
    v
}

pub fn tag2(a: u8, b: u8) -> (r: Vec<u8>)
    ensures
        r@ == seq![a, b],
{
    let mut v: Vec<u8> = Vec::new();
    v.push(a);
    v.push(b);
    proof {
        assert(v@ =~= seq![a, b]);
    }
    v
}

pub fn tag3(a: u8, b: u8, c: u8) -> (r: Vec<u8>)
    ensures
        r@ == seq![a, b, c],
{
    let mut v = tag2(a, b);
    v.push(c);
    proof {
        assert(v@ =~= seq![a, b, c]);
    }
    v
}

pub fn tag4(a: u8, b: u8, c: u8, d: u8) -> (r: Vec<u8>)
    ensures
        r@ == seq![a, b, c, d],
{
    let mut v = tag3(a, b, c);
    v.push(d);
    proof {
        assert(v@ =~= seq![a, b, c, d]);
    }
    v
}

pub fn tag5(a: u8, b: u8, c: u8, d: u8, e: u8) -> (r: Vec<u8>)
    ensures
        r@ == seq![a, b, c, d, e],
{
    let mut v = tag4(a, b, c, d);
    v.push(e);
    proof {
        assert(v@ =~= seq![a, b, c, d, e]);
    }
    v
}

pub fn tag7(a: u8, b: u8, c: u8, d: u8, e: u8, f: u8, g: u8) -> (r: Vec<u8>)
    ensures
        r@ == seq![a, b, c, d, e, f, g],
{
    let mut v = tag5(a, b, c, d, e);
    v.push(f);
    v.push(g);
    proof {
        assert(v@ =~= seq![a, b, c, d, e, f, g]);
    }
    v
}

/// A 32-byte array as a byte-string value.
pub fn arr32_val(a: &[u8; 32]) -> (r: Value)
    ensures
        r.model() == Val::Bytes(a@),
{
    Value::Bytes(slice_to_vec(a.as_slice()))
}

/// A 64-byte array as a byte-string value.
pub fn arr64_val(a: &[u8; 64]) -> (r: Value)
    ensures
        r.model() == Val::Bytes(a@),
{
    Value::Bytes(slice_to_vec(a.as_slice()))
}

/// A byte vector as a byte-string value.
pub fn bytes_val(v: &Vec<u8>) -> (r: Value)
    ensures
        r.model() == Val::Bytes(v@),
{
    Value::Bytes(slice_to_vec(v.as_slice()))
}

/// A string as a byte-string value holding its UTF-8 bytes.
pub fn str_val(s: &String) -> (r: Value)
    ensures
        r.model() == Val::Bytes(encode_utf8(s@)),
{
    Value::Bytes(s.as_str().as_bytes_vec())
}

/// Checks a 32-byte array against the all-zero sentinel.
pub fn is_zero32(a: &[u8; 32]) -> (r: bool)
    ensures
        r == (a@ == zero_bytes()),
{
    let mut i: usize = 0;
    while i < 32
        invariant
            i <= 32,
            forall|k: int| 0 <= k < i ==> a@[k] == 0u8,
        decreases 32 - i,
    {
        if a[i] != 0 {
            proof {
                assert(a@[i as int] != zero_bytes()[i as int]);
            }
            return false;
        }
        i = i + 1;
    }
    proof {
        assert(a@ =~= zero_bytes());
    }
    true
}

/// The all-zero 64-byte value.
pub open spec fn zero_bytes64() -> Seq<u8> {
    Seq::new(64, |i: int| 0u8)
}

/// Checks a 64-byte array against the all-zero sentinel.
pub fn is_zero64(a: &[u8; 64]) -> (r: bool)
    ensures
        r == (a@ == zero_bytes64()),
{
    let mut i: usize = 0;
    while i < 64
        invariant
            i <= 64,
            forall|k: int| 0 <= k < i ==> a@[k] == 0u8,
        decreases 64 - i,
    {
        if a[i] != 0 {
            proof {
                assert(a@[i as int] != zero_bytes64()[i as int]);
            }
            return false;
        }
        i = i + 1;
    }
    proof {
        assert(a@ =~= zero_bytes64());
    }
    true
}

/// Byte-wise equality of two vectors.
pub fn bytes_eq(a: &Vec<u8>, b: &Vec<u8>) -> (r: bool)
    ensures
        r == (a@ == b@),
{
    if a.len() != b.len() {
        proof {
            assert(a@ != b@);
        }
        return false;
    }
    let mut i: usize = 0;
    while i < a.len()
        invariant
            i <= a@.len(),
            a@.len() == b@.len(),
            forall|k: int| 0 <= k < i ==> a@[k] == b@[k],
        decreases a@.len() - i,
    {
        if a[i] != b[i] {
            return false;
        }
        i = i + 1;
    }
    proof {
        assert(a@ =~= b@);
    }
    true
}

/// Serializes a value to its canonical byte form.
pub fn encode_to_vec(v: &Value) -> (r: Vec<u8>)
    ensures
        r@ == enc(v.model()),
{
    let mut out: Vec<u8> = Vec::new();
    crate::codec::encode_value(v, &mut out);
    out
}

pub fn tag6(a: u8, b: u8, c: u8, d: u8, e: u8, f: u8) -> (r: Vec<u8>)
    ensures
        r@ == seq![a, b, c, d, e, f],
{
    let mut v = tag5(a, b, c, d, e);
    v.push(f);
    proof {
        assert(v@ =~= seq![a, b, c, d, e, f]);
    }
    v
}

/// Appends one element to a list value under construction.
pub fn push_item(vs: &mut Vec<Value>, v: Value)
    ensures
        model_list(final(vs)@) == model_list(old(vs)@).push(v.model()),
{
    let ghost m = v.model();
    let ghost old_vs = vs@;
    vs.push(v);
    proof {
        lemma_model_list_props(old_vs);
        lemma_model_list_props(vs@);
        assert(vs@.len() == old_vs.len() + 1);
        assert(vs@[old_vs.len() as int].model() == m);
        assert(forall|k: int| 0 <= k < old_vs.len() ==> vs@[k] == old_vs[k]);
        assert(model_list(vs@) =~= model_list(old_vs).push(m));
    }
}

/// The list model of a sequence of byte strings.
pub open spec fn bytes_vals(s: Seq<Vec<u8>>) -> Seq<Val> {
    Seq::new(s.len(), |i: int| Val::Bytes(s[i]@))
}

/// The list model of a sequence of addresses.
pub open spec fn addr_vals(s: Seq<Address>) -> Seq<Val> {
    Seq::new(s.len(), |i: int| Val::Bytes(s[i].0@))
}

/// The list model of a sequence of integers.
pub open spec fn uint_vals(s: Seq<u64>) -> Seq<Val> {
    Seq::new(s.len(), |i: int| Val::Uint(s[i]))
}

/// A vector of byte strings as a list value.
pub fn bytes_list_val(xs: &Vec<Vec<u8>>) -> (r: Value)
    ensures
        r.model() == Val::List(bytes_vals(xs@)),
{
    let mut vs: Vec<Value> = Vec::new();
    let mut i: usize = 0;
    while i < xs.len()
        invariant
            i <= xs@.len(),
            model_list(vs@) == bytes_vals(xs@).take(i as int),
        decreases xs@.len() - i,
    {
        push_item(&mut vs, bytes_val(&xs[i]));
        proof {
            assert(bytes_vals(xs@).take((i + 1) as int) =~= bytes_vals(xs@).take(i as int).push(
                Val::Bytes(xs@[i as int]@),
            ));
        }
        i = i + 1;
    }
    proof {
        assert(bytes_vals(xs@).take(xs@.len() as int) =~= bytes_vals(xs@));
    }
    Value::List(vs)
}

/// A vector of addresses as a list value.
pub fn addr_list_val(xs: &Vec<Address>) -> (r: Value)
    ensures
        r.model() == Val::List(addr_vals(xs@)),
{
    let mut vs: Vec<Value> = Vec::new();
    let mut i: usize = 0;
    while i < xs.len()
        invariant
            i <= xs@.len(),
            model_list(vs@) == addr_vals(xs@).take(i as int),
        decreases xs@.len() - i,
    {
        push_item(&mut vs, arr32_val(&xs[i].0));
        proof {
            assert(addr_vals(xs@).take((i + 1) as int) =~= addr_vals(xs@).take(i as int).push(
                Val::Bytes(xs@[i as int].0@),
            ));
        }
        i = i + 1;
    }
    proof {
        assert(addr_vals(xs@).take(xs@.len() as int) =~= addr_vals(xs@));
    }
    Value::List(vs)
}

/// A vector of integers as a list value.
pub fn uint_list_val(xs: &Vec<u64>) -> (r: Value)
    ensures
        r.model() == Val::List(uint_vals(xs@)),
{
    let mut vs: Vec<Value> = Vec::new();
    let mut i: usize = 0;
    while i < xs.len()
        invariant
            i <= xs@.len(),
            model_list(vs@) == uint_vals(xs@).take(i as int),
        decreases xs@.len() - i,
    {
        push_item(&mut vs, Value::Uint(xs[i]));
        proof {
            assert(uint_vals(xs@).take((i + 1) as int) =~= uint_vals(xs@).take(i as int).push(
                Val::Uint(xs@[i as int]),
            ));
        }
        i = i + 1;
    }
    proof {
        assert(uint_vals(xs@).take(xs@.len() as int) =~= uint_vals(xs@));
    }
    Value::List(vs)
}

/// Relies on std's `String::from_utf8`: it succeeds exactly on valid UTF-8
/// and yields the characters those bytes encode.
#[verifier::external_body]
pub fn bytes_to_string(b: Vec<u8>) -> (r: Option<String>)
    ensures
        r matches Some(s) ==> vstd::utf8::valid_utf8(b@) && s@ == vstd::utf8::decode_utf8(b@),
        r is None ==> !vstd::utf8::valid_utf8(b@),
{
    String::from_utf8(b).ok()
}

/// Copies a byte vector.
pub fn copy_bytes(v: &Vec<u8>) -> (r: Vec<u8>)
    ensures
        r@ == v@,
{
    slice_to_vec(v.as_slice())
}

/// A record tag written as a string literal.
pub fn tag_lit(t: &str) -> (r: Vec<u8>)
    ensures
        r@ == encode_utf8(t@),
{
    t.as_bytes_vec()
}

/// The list model of a sequence of strings, as their UTF-8 bytes.
pub open spec fn str_vals(s: Seq<String>) -> Seq<Val> {
    Seq::new(s.len(), |i: int| Val::Bytes(encode_utf8(s[i]@)))
}

/// A vector of strings as a list of byte-string values.
pub fn string_list_val(xs: &Vec<String>) -> (r: Value)
    ensures
        r.model() == Val::List(str_vals(xs@)),
{
    let mut vs: Vec<Value> = Vec::new();
    let mut i: usize = 0;
    while i < xs.len()
        invariant
            i <= xs@.len(),
            model_list(vs@) == str_vals(xs@).take(i as int),
        decreases xs@.len() - i,
    {
        push_item(&mut vs, str_val(&xs[i]));
        proof {
            assert(str_vals(xs@).take((i + 1) as int) =~= str_vals(xs@).take(i as int).push(
                Val::Bytes(encode_utf8(xs@[i as int]@)),
            ));
        }
        i = i + 1;
    }
    proof {
        assert(str_vals(xs@).take(xs@.len() as int) =~= str_vals(xs@));
    }
    Value::List(vs)
}

/// The big-endian bytes of an integer, as a record tag.
pub fn u64_tag(x: u64) -> (r: Vec<u8>)
    ensures
        r@ == crate::codec::u64_bytes(x),
{
    let mut v: Vec<u8> = Vec::new();
    crate::codec::push_u64(&mut v, x);
    v
}

pub proof fn lemma_lookup_opt(c: bool, t0: Seq<u8>, v: Val, t: Seq<u8>)
    ensures
        lookup(opt_entry(c, t0, v), t) == (if c && t0 == t {
            Some(v)
        } else {
            None::<Val>
        }),
{
    assert(lookup(Seq::<(Seq<u8>, Val)>::empty(), t) is None);
    if c {
        assert(opt_entry(c, t0, v) == seq![(t0, v)]);
        assert(opt_entry(c, t0, v)[0] == (t0, v));
        assert(opt_entry(c, t0, v).drop_first() =~= Seq::<(Seq<u8>, Val)>::empty());
    } else {
        assert(opt_entry(c, t0, v) =~= Seq::<(Seq<u8>, Val)>::empty());
    }
}

/// A character string is empty exactly when its UTF-8 byte form is.
pub proof fn lemma_encode_utf8_empty(s: Seq<char>)
    ensures
        (encode_utf8(s).len() == 0) <==> (s.len() == 0),
{
    if s.len() > 0 {
        assert(encode_utf8(s) == vstd::utf8::encode_scalar(s[0] as u32) + encode_utf8(
            s.drop_first(),
        ));
        assert(vstd::utf8::encode_scalar(s[0] as u32).len() >= 1);
    }
}

} // verus!
