//! The canonical wire form.
//!
//! Every structured record of the ledger is serialized as a `Value`: an
//! unsigned integer, a byte string, a list, or a record mapping short byte
//! tags to values.  The byte form of a `Value` is fixed and unambiguous, so
//! a value has exactly one encoding and an encoding parses back to exactly
//! one value.

use vstd::prelude::*;
use vstd::std_specs::vec::spec_vec_len;

verus! {

/// A decoding failure: the input is not the canonical encoding of any value
/// of the expected shape.
#[derive(Clone, Copy, Debug, PartialEq, Eq, Structural)]
pub enum CodecError {
    InvalidEncoding,
}

/// A canonical wire value: an unsigned integer, a byte string, a list, or a
/// record of tagged values.
pub enum Value {
    Uint(u64),
    Bytes(Vec<u8>),
    List(Vec<Value>),
    Record(Vec<(Vec<u8>, Value)>),
}

/// Mathematical model of a `Value`.
pub enum Val {
    Uint(u64),
    Bytes(Seq<u8>),
    List(Seq<Val>),
    Record(Seq<(Seq<u8>, Val)>),
}

impl Value {
    pub open spec fn model(self) -> Val
        decreases self,
    {
        match self {
            Value::Uint(x) => Val::Uint(x),
            Value::Bytes(b) => Val::Bytes(b@),
            Value::List(vs) => Val::List(model_list(vs@)),
            Value::Record(es) => Val::Record(model_entries(es@)),
        }
    }
}

pub open spec fn model_list(vs: Seq<Value>) -> Seq<Val>
    decreases vs,
{
    if vs.len() == 0 {
        Seq::empty()
    } else {
        seq![vs[0].model()] + model_list(vs.drop_first())
    }
}

pub open spec fn model_entries(es: Seq<(Vec<u8>, Value)>) -> Seq<(Seq<u8>, Val)>
    decreases es,
{
    if es.len() == 0 {
        Seq::empty()
    } else {
        seq![(es[0].0@, es[0].1.model())] + model_entries(es.drop_first())
    }
}

pub broadcast proof fn lemma_model_list_props(vs: Seq<Value>)
    ensures
        #[trigger] model_list(vs).len() == vs.len(),
        forall|i: int| 0 <= i < vs.len() ==> model_list(vs)[i] == vs[i].model(),
    decreases vs,
{
    if vs.len() > 0 {
        lemma_model_list_props(vs.drop_first());
    }
}

pub broadcast proof fn lemma_model_entries_props(es: Seq<(Vec<u8>, Value)>)
    ensures
        #[trigger] model_entries(es).len() == es.len(),
        forall|i: int|
            0 <= i < es.len() ==> model_entries(es)[i] == (es[i].0@, es[i].1.model()),
    decreases es,
{
    if es.len() > 0 {
        lemma_model_entries_props(es.drop_first());
    }
}

/// Big-endian bytes of a 64-bit integer.
pub open spec fn u64_bytes(x: u64) -> Seq<u8> {
    seq![
        (x >> 56) as u8,
        (x >> 48) as u8,
        (x >> 40) as u8,
        (x >> 32) as u8,
        (x >> 24) as u8,
        (x >> 16) as u8,
        (x >> 8) as u8,
        x as u8,
    ]
}

pub proof fn lemma_u64_bytes_injective(x: u64, y: u64)
    requires
        u64_bytes(x) == u64_bytes(y),
    ensures
        x == y,
{
    assert((x >> 56) as u8 == (y >> 56) as u8 && (x >> 48) as u8 == (y >> 48) as u8 && (x >> 40)
        as u8 == (y >> 40) as u8 && (x >> 32) as u8 == (y >> 32) as u8 && (x >> 24) as u8 == (y
        >> 24) as u8 && (x >> 16) as u8 == (y >> 16) as u8 && (x >> 8) as u8 == (y >> 8) as u8
        && x as u8 == y as u8 ==> x == y) by (bit_vector);
    assert(u64_bytes(x)[0] == u64_bytes(y)[0]);
    assert(u64_bytes(x)[1] == u64_bytes(y)[1]);
    assert(u64_bytes(x)[2] == u64_bytes(y)[2]);
    assert(u64_bytes(x)[3] == u64_bytes(y)[3]);
    assert(u64_bytes(x)[4] == u64_bytes(y)[4]);
    assert(u64_bytes(x)[5] == u64_bytes(y)[5]);
    assert(u64_bytes(x)[6] == u64_bytes(y)[6]);
    assert(u64_bytes(x)[7] == u64_bytes(y)[7]);
}

/// Byte form of a value.  Each variant starts with its own marker byte, so
/// the first byte of an encoding determines the variant.
pub open spec fn enc(v: Val) -> Seq<u8>
    decreases v,
{
    match v {
        Val::Uint(x) => seq![1u8] + u64_bytes(x),
        Val::Bytes(b) => seq![2u8] + u64_bytes(b.len() as u64) + b,
        Val::List(vs) => seq![3u8] + u64_bytes(vs.len() as u64) + enc_list(vs),
        Val::Record(es) => seq![4u8] + u64_bytes(es.len() as u64) + enc_entries(es),
    }
}

pub open spec fn enc_list(vs: Seq<Val>) -> Seq<u8>
    decreases vs,
{
    if vs.len() == 0 {
        Seq::empty()
    } else {
        enc(vs[0]) + enc_list(vs.drop_first())
    }
}

pub open spec fn enc_tag(t: Seq<u8>) -> Seq<u8> {
    u64_bytes(t.len() as u64) + t
}

pub open spec fn enc_entries(es: Seq<(Seq<u8>, Val)>) -> Seq<u8>
    decreases es,
{
    if es.len() == 0 {
        Seq::empty()
    } else {
        enc_tag(es[0].0) + enc(es[0].1) + enc_entries(es.drop_first())
    }
}

pub proof fn lemma_enc_list_snoc(vs: Seq<Val>, v: Val)
    ensures
        enc_list(vs.push(v)) == enc_list(vs) + enc(v),
    decreases vs,
{
    if vs.len() == 0 {
        assert(vs.push(v)[0] == v);
        assert(vs.push(v).drop_first() =~= Seq::<Val>::empty());
        assert(enc_list(Seq::<Val>::empty()) =~= Seq::<u8>::empty());
        assert(enc_list(vs.push(v)) =~= enc_list(vs) + enc(v));
    } else {
        assert(vs.push(v)[0] == vs[0]);
        assert(vs.push(v).drop_first() =~= vs.drop_first().push(v));
        lemma_enc_list_snoc(vs.drop_first(), v);
        assert(enc_list(vs.push(v)) =~= enc_list(vs) + enc(v));
    }
}

pub proof fn lemma_enc_entries_snoc(es: Seq<(Seq<u8>, Val)>, e: (Seq<u8>, Val))
    ensures
        enc_entries(es.push(e)) == enc_entries(es) + enc_tag(e.0) + enc(e.1),
    decreases es,
{
    if es.len() == 0 {
        assert(es.push(e)[0] == e);
        assert(es.push(e).drop_first() =~= Seq::<(Seq<u8>, Val)>::empty());
        assert(enc_entries(Seq::<(Seq<u8>, Val)>::empty()) =~= Seq::<u8>::empty());
        assert(enc_entries(es.push(e)) =~= enc_entries(es) + enc_tag(e.0) + enc(e.1));
    } else {
        assert(es.push(e)[0] == es[0]);
        assert(es.push(e).drop_first() =~= es.drop_first().push(e));
        lemma_enc_entries_snoc(es.drop_first(), e);
        assert(enc_entries(es.push(e)) =~= enc_entries(es) + enc_tag(e.0) + enc(e.1));
    }
}

/// Appends the big-endian bytes of `x`.
pub fn push_u64(out: &mut Vec<u8>, x: u64)
    ensures
        final(out)@ == old(out)@ + u64_bytes(x),
{
    out.push((x >> 56) as u8);
    out.push((x >> 48) as u8);
    out.push((x >> 40) as u8);
    out.push((x >> 32) as u8);
    out.push((x >> 24) as u8);
    out.push((x >> 16) as u8);
    out.push((x >> 8) as u8);
    out.push(x as u8);
    assert(out@ =~= old(out)@ + u64_bytes(x));
}

/// Appends the canonical byte form of `v`.
#[verifier::loop_isolation(false)]
pub fn encode_value(v: &Value, out: &mut Vec<u8>)
    ensures
        final(out)@ == old(out)@ + enc(v.model()),
    decreases v.model(),
{
    broadcast use lemma_model_list_props, lemma_model_entries_props;

    match v {
        Value::Uint(x) => {
            out.push(1u8);
            push_u64(out, *x);
            assert(out@ =~= old(out)@ + enc(v.model()));
        }
        Value::Bytes(b) => {
            out.push(2u8);
            push_u64(out, b.len() as u64);
            let mut i: usize = 0;
            while i < b.len()
                invariant
                    i <= b@.len(),
                    out@ == old(out)@ + seq![2u8] + u64_bytes(b@.len() as u64) + b@.subrange(
                        0,
                        i as int,
                    ),
                decreases b@.len() - i,
            {
                out.push(b[i]);
                assert(b@.subrange(0, (i + 1) as int) =~= b@.subrange(0, i as int).push(b@[i as int]));
                i = i + 1;
            }
            assert(b@.subrange(0, b@.len() as int) =~= b@);
            assert(out@ =~= old(out)@ + enc(v.model()));
        }
        Value::List(vs) => {
            out.push(3u8);
            push_u64(out, vs.len() as u64);
            let mut i: usize = 0;
            while i < vs.len()
                invariant
                    i <= vs@.len(),
                    out@ == old(out)@ + seq![3u8] + u64_bytes(vs@.len() as u64) + enc_list(
                        model_list(vs@).take(i as int),
                    ),
                decreases vs@.len() - i,
            {
                proof {
                    lemma_model_list_props(vs@);
                    assert(decreases_to!(v.model() => vs@[i as int].model())) by {
                        assert(v is List);
                        assert(v.model() == Val::List(model_list(vs@)));
                        assert(v.model()->List_0 == model_list(vs@));
                        assert(decreases_to!(v.model() => v.model()->List_0));
                        assert(decreases_to!(model_list(vs@) => model_list(vs@)[i as int]));
                        assert(model_list(vs@)[i as int] == vs@[i as int].model());
                    }
                }
                encode_value(&vs[i], out);
                proof {
                    lemma_enc_list_snoc(model_list(vs@).take(i as int), vs@[i as int].model());
                    assert(model_list(vs@).take((i + 1) as int) =~= model_list(vs@).take(
                        i as int,
                    ).push(vs@[i as int].model()));
                }
                i = i + 1;
            }
            proof {
                lemma_model_list_props(vs@);
                assert(model_list(vs@).take(vs@.len() as int) =~= model_list(vs@));
                assert(out@ =~= old(out)@ + enc(v.model()));
            }
        }
        Value::Record(es) => {
            out.push(4u8);
            push_u64(out, es.len() as u64);
            let mut i: usize = 0;
            while i < es.len()
                invariant
                    i <= es@.len(),
                    out@ == old(out)@ + seq![4u8] + u64_bytes(es@.len() as u64) + enc_entries(
                        model_entries(es@).take(i as int),
                    ),
                decreases es@.len() - i,
            {
                let entry = &es[i];
                push_u64(out, entry.0.len() as u64);
                let mut j: usize = 0;
                while j < entry.0.len()
                    invariant
                        j <= entry.0@.len(),
                        entry == es@[i as int],
                        i < es@.len(),
                        out@ == old(out)@ + seq![4u8] + u64_bytes(es@.len() as u64) + enc_entries(
                            model_entries(es@).take(i as int),
                        ) + u64_bytes(entry.0@.len() as u64) + entry.0@.subrange(0, j as int),
                    decreases entry.0@.len() - j,
                {
                    out.push(entry.0[j]);
                    assert(entry.0@.subrange(0, (j + 1) as int) =~= entry.0@.subrange(
                        0,
                        j as int,
                    ).push(entry.0@[j as int]));
                    j = j + 1;
                }
                assert(entry.0@.subrange(0, entry.0@.len() as int) =~= entry.0@);
                proof {
                    lemma_model_entries_props(es@);
                    assert(decreases_to!(v.model() => es@[i as int].1.model())) by {
                        assert(v is Record);
                        assert(v.model() == Val::Record(model_entries(es@)));
                        assert(v.model()->Record_0 == model_entries(es@));
                        assert(decreases_to!(v.model() => v.model()->Record_0));
                        assert(decreases_to!(model_entries(es@) => model_entries(es@)[i as int]));
                        assert(decreases_to!(model_entries(es@)[i as int] => model_entries(es@)[i as int].1));
                        assert(model_entries(es@)[i as int].1 == es@[i as int].1.model());
                    }
                }
                encode_value(&entry.1, out);
                proof {
                    lemma_enc_entries_snoc(
                        model_entries(es@).take(i as int),
                        (es@[i as int].0@, es@[i as int].1.model()),
                    );
                    assert(model_entries(es@).take((i + 1) as int) =~= model_entries(es@).take(
                        i as int,
                    ).push((es@[i as int].0@, es@[i as int].1.model())));
                }
                i = i + 1;
            }
            proof {
                lemma_model_entries_props(es@);
                assert(model_entries(es@).take(es@.len() as int) =~= model_entries(es@));
                assert(out@ =~= old(out)@ + enc(v.model()));
            }
        }
    }
}

/// The encoding of `m` occupies `b[pos ..]`'s first `enc(m).len()` bytes.
pub open spec fn parses_at(b: Seq<u8>, pos: int, m: Val) -> bool {
    &&& 0 <= pos
    &&& pos + enc(m).len() <= b.len()
    &&& b.subrange(pos, pos + enc(m).len()) == enc(m)
}

/// The marker byte that starts the encoding of each variant.
pub open spec fn marker(m: Val) -> u8 {
    match m {
        Val::Uint(_) => 1u8,
        Val::Bytes(_) => 2u8,
        Val::List(_) => 3u8,
        Val::Record(_) => 4u8,
    }
}

pub proof fn lemma_enc_shape(m: Val)
    ensures
        enc(m).len() >= 9,
        enc(m)[0] == marker(m),
        m is Uint ==> enc(m).len() == 9 && enc(m).subrange(1, 9) == u64_bytes(m->Uint_0),
        m is Bytes ==> enc(m).len() == 9 + m->Bytes_0.len() && enc(m).subrange(1, 9)
            == u64_bytes(m->Bytes_0.len() as u64) && enc(m).subrange(9, enc(m).len() as int)
            == m->Bytes_0,
        m is List ==> enc(m).len() == 9 + enc_list(m->List_0).len() && enc(m).subrange(1, 9)
            == u64_bytes(m->List_0.len() as u64) && enc(m).subrange(9, enc(m).len() as int)
            == enc_list(m->List_0),
        m is Record ==> enc(m).len() == 9 + enc_entries(m->Record_0).len() && enc(m).subrange(
            1,
            9,
        ) == u64_bytes(m->Record_0.len() as u64) && enc(m).subrange(9, enc(m).len() as int)
            == enc_entries(m->Record_0),
{
    match m {
        Val::Uint(x) => {
            assert(enc(m).subrange(1, 9) =~= u64_bytes(x));
        }
        Val::Bytes(b) => {
            assert(enc(m).subrange(1, 9) =~= u64_bytes(b.len() as u64));
            assert(enc(m).subrange(9, enc(m).len() as int) =~= b);
        }
        Val::List(vs) => {
            assert(enc(m).subrange(1, 9) =~= u64_bytes(vs.len() as u64));
            assert(enc(m).subrange(9, enc(m).len() as int) =~= enc_list(vs));
        }
        Val::Record(es) => {
            assert(enc(m).subrange(1, 9) =~= u64_bytes(es.len() as u64));
            assert(enc(m).subrange(9, enc(m).len() as int) =~= enc_entries(es));
        }
    }
}

pub proof fn lemma_subrange_split(b: Seq<u8>, i: int, j: int, k: int)
    requires
        0 <= i <= j <= k <= b.len(),
    ensures
        b.subrange(i, k) == b.subrange(i, j) + b.subrange(j, k),
{
    assert(b.subrange(i, k) =~= b.subrange(i, j) + b.subrange(j, k));
}


pub proof fn lemma_concat_cancel_left<T>(a: Seq<T>, b: Seq<T>, c: Seq<T>, d: Seq<T>)
    requires
        a + b == c + d,
        a.len() == c.len(),
    ensures
        a == c,
        b == d,
{
    assert((a + b).len() == (c + d).len());
    assert((a + b).len() == a.len() + b.len());
    assert((c + d).len() == c.len() + d.len());
    assert(b.len() == d.len());
    assert forall|i: int| 0 <= i < a.len() implies a[i] == c[i] by {
        assert((a + b)[i] == a[i]);
        assert((c + d)[i] == c[i]);
    }
    assert(a =~= c);
    assert forall|i: int| 0 <= i < b.len() implies b[i] == d[i] by {
        assert((a + b)[a.len() + i] == b[i]);
        assert((c + d)[c.len() + i] == d[i]);
    }
    assert(b =~= d);
}

pub proof fn lemma_enc_list_skip(ms: Seq<Val>, i: int)
    requires
        0 <= i < ms.len(),
    ensures
        enc_list(ms.skip(i)) == enc(ms[i]) + enc_list(ms.skip(i + 1)),
{
    assert(ms.skip(i)[0] == ms[i]);
    assert(ms.skip(i).drop_first() =~= ms.skip(i + 1));
}

pub proof fn lemma_enc_list_cat(a: Seq<Val>, b: Seq<Val>)
    ensures
        enc_list(a + b) == enc_list(a) + enc_list(b),
    decreases a,
{
    if a.len() == 0 {
        assert(a + b =~= b);
        assert(enc_list(a + b) =~= enc_list(a) + enc_list(b));
    } else {
        assert((a + b)[0] == a[0]);
        assert((a + b).drop_first() =~= a.drop_first() + b);
        lemma_enc_list_cat(a.drop_first(), b);
        assert(enc_list(a + b) =~= enc_list(a) + enc_list(b));
    }
}

pub proof fn lemma_enc_entries_skip(es: Seq<(Seq<u8>, Val)>, i: int)
    requires
        0 <= i < es.len(),
    ensures
        enc_entries(es.skip(i)) == enc_tag(es[i].0) + enc(es[i].1) + enc_entries(es.skip(i + 1)),
{
    assert(es.skip(i)[0] == es[i]);
    assert(es.skip(i).drop_first() =~= es.skip(i + 1));
}

pub proof fn lemma_enc_entries_cat(a: Seq<(Seq<u8>, Val)>, b: Seq<(Seq<u8>, Val)>)
    ensures
        enc_entries(a + b) == enc_entries(a) + enc_entries(b),
    decreases a,
{
    if a.len() == 0 {
        assert(a + b =~= b);
        assert(enc_entries(a + b) =~= enc_entries(a) + enc_entries(b));
    } else {
        assert((a + b)[0] == a[0]);
        assert((a + b).drop_first() =~= a.drop_first() + b);
        lemma_enc_entries_cat(a.drop_first(), b);
        assert(enc_entries(a + b) =~= enc_entries(a) + enc_entries(b));
    }
}

/// Reads eight big-endian bytes at `pos`.
fn read_u64(bytes: &Vec<u8>, pos: usize) -> (r: Option<u64>)
    ensures
        r matches Some(x) ==> pos + 8 <= bytes@.len() && u64_bytes(x) == bytes@.subrange(
            pos as int,
            pos as int + 8,
        ),
        r is None ==> pos + 8 > bytes@.len(),
{
    if bytes.len() < 8 || pos > bytes.len() - 8 {
        return None;
    }
    let b0 = bytes[pos];
    let b1 = bytes[pos + 1];
    let b2 = bytes[pos + 2];
    let b3 = bytes[pos + 3];
    let b4 = bytes[pos + 4];
    let b5 = bytes[pos + 5];
    let b6 = bytes[pos + 6];
    let b7 = bytes[pos + 7];
    let x: u64 = ((b0 as u64) << 56) | ((b1 as u64) << 48) | ((b2 as u64) << 40) | ((b3 as u64)
        << 32) | ((b4 as u64) << 24) | ((b5 as u64) << 16) | ((b6 as u64) << 8) | (b7 as u64);
    proof {
        assert((x >> 56) as u8 == b0 && (x >> 48) as u8 == b1 && (x >> 40) as u8 == b2 && (x
            >> 32) as u8 == b3 && (x >> 24) as u8 == b4 && (x >> 16) as u8 == b5 && (x >> 8)
            as u8 == b6 && x as u8 == b7) by (bit_vector)
            requires
                x == ((b0 as u64) << 56) | ((b1 as u64) << 48) | ((b2 as u64) << 40) | ((b3
                    as u64) << 32) | ((b4 as u64) << 24) | ((b5 as u64) << 16) | ((b6 as u64)
                    << 8) | (b7 as u64),
        ;
        assert(u64_bytes(x) =~= bytes@.subrange(pos as int, pos as int + 8));
    }
    Some(x)
}

/// Copies `n` bytes starting at `pos`.
fn read_bytes(bytes: &Vec<u8>, pos: usize, n: usize) -> (r: Vec<u8>)
    requires
        pos + n <= bytes@.len(),
    ensures
        r@ == bytes@.subrange(pos as int, pos as int + n),
{
    let total = bytes.len();
    let mut out: Vec<u8> = Vec::new();
    let mut i: usize = 0;
    while i < n
        invariant
            i <= n,
            total == bytes@.len(),
            pos + n <= total,
            out@ == bytes@.subrange(pos as int, pos as int + i),
        decreases n - i,
    {
        out.push(bytes[pos + i]);
        assert(bytes@.subrange(pos as int, pos as int + (i + 1)) =~= bytes@.subrange(
            pos as int,
            pos as int + i,
        ).push(bytes@[pos + i]));
        i = i + 1;
    }
    out
}


/// Every length that the encoding stores in a 64-bit count field must fit in
/// one; values built at run time always satisfy this.
pub open spec fn bounded(m: Val) -> bool
    decreases m,
{
    match m {
        Val::Uint(_) => true,
        Val::Bytes(b) => b.len() <= u64::MAX,
        Val::List(vs) => vs.len() <= u64::MAX && bounded_list(vs),
        Val::Record(es) => es.len() <= u64::MAX && bounded_entries(es),
    }
}

pub open spec fn bounded_list(vs: Seq<Val>) -> bool
    decreases vs,
{
    vs.len() == 0 || (bounded(vs[0]) && bounded_list(vs.drop_first()))
}

pub open spec fn bounded_entries(es: Seq<(Seq<u8>, Val)>) -> bool
    decreases es,
{
    es.len() == 0 || (es[0].0.len() <= u64::MAX && bounded(es[0].1) && bounded_entries(
        es.drop_first(),
    ))
}

pub proof fn lemma_bounded_list_index(vs: Seq<Val>, i: int)
    requires
        bounded_list(vs),
        0 <= i < vs.len(),
    ensures
        bounded(vs[i]),
    decreases i,
{
    if i > 0 {
        lemma_bounded_list_index(vs.drop_first(), i - 1);
    }
}

pub proof fn lemma_bounded_entries_index(es: Seq<(Seq<u8>, Val)>, i: int)
    requires
        bounded_entries(es),
        0 <= i < es.len(),
    ensures
        es[i].0.len() <= u64::MAX,
        bounded(es[i].1),
    decreases i,
{
    if i > 0 {
        lemma_bounded_entries_index(es.drop_first(), i - 1);
    }
}

/// The model of a run-time value is always bounded.
pub proof fn lemma_model_bounded(v: Value)
    ensures
        bounded(v.model()),
    decreases v.model(),
{
    match v {
        Value::Uint(_) => {}
        Value::Bytes(b) => {
            assert(spec_vec_len(&b) == b@.len());
        }
        Value::List(vs) => {
            lemma_model_list_props(vs@);
            assert(spec_vec_len(&vs) == vs@.len());
            lemma_model_list_bounded_rec(v, vs@, 0);
            assert(model_list(vs@).skip(0) =~= model_list(vs@));
        }
        Value::Record(es) => {
            lemma_model_entries_props(es@);
            assert(spec_vec_len(&es) == es@.len());
            lemma_model_entries_bounded_rec(v, es@, 0);
            assert(model_entries(es@).skip(0) =~= model_entries(es@));
        }
    }
}

proof fn lemma_model_list_bounded_rec(v: Value, vs: Seq<Value>, i: int)
    requires
        0 <= i <= vs.len(),
        v is List,
        v->List_0@ == vs,
    ensures
        bounded_list(model_list(vs).skip(i)),
    decreases v.model(), vs.len() - i,
{
    lemma_model_list_props(vs);
    if i < vs.len() {
        proof_decreases_list(v, vs, i);
        lemma_model_bounded(vs[i]);
        lemma_model_list_bounded_rec(v, vs, i + 1);
        assert(model_list(vs).skip(i)[0] == vs[i].model());
        assert(model_list(vs).skip(i).drop_first() =~= model_list(vs).skip(i + 1));
    }
}

proof fn lemma_model_entries_bounded_rec(v: Value, es: Seq<(Vec<u8>, Value)>, i: int)
    requires
        0 <= i <= es.len(),
        v is Record,
        v->Record_0@ == es,
    ensures
        bounded_entries(model_entries(es).skip(i)),
    decreases v.model(), es.len() - i,
{
    lemma_model_entries_props(es);
    if i < es.len() {
        proof_decreases_entries(v, es, i);
        lemma_model_bounded(es[i].1);
        assert(spec_vec_len(&es[i].0) == es[i].0@.len());
        lemma_model_entries_bounded_rec(v, es, i + 1);
        assert(model_entries(es).skip(i)[0] == (es[i].0@, es[i].1.model()));
        assert(model_entries(es).skip(i).drop_first() =~= model_entries(es).skip(i + 1));
    }
}

proof fn proof_decreases_list(v: Value, vs: Seq<Value>, i: int)
    requires
        0 <= i < vs.len(),
        v is List,
        v->List_0@ == vs,
    ensures
        decreases_to!(v.model() => vs[i].model()),
{
    lemma_model_list_props(vs);
    assert(v.model()->List_0 == model_list(vs));
    assert(decreases_to!(v.model() => v.model()->List_0));
    assert(decreases_to!(model_list(vs) => model_list(vs)[i]));
    assert(model_list(vs)[i] == vs[i].model());
}

proof fn proof_decreases_entries(v: Value, es: Seq<(Vec<u8>, Value)>, i: int)
    requires
        0 <= i < es.len(),
        v is Record,
        v->Record_0@ == es,
    ensures
        decreases_to!(v.model() => es[i].1.model()),
{
    lemma_model_entries_props(es);
    assert(v.model()->Record_0 == model_entries(es));
    assert(decreases_to!(v.model() => v.model()->Record_0));
    assert(decreases_to!(model_entries(es) => model_entries(es)[i]));
    assert(decreases_to!(model_entries(es)[i] => model_entries(es)[i].1));
    assert(model_entries(es)[i].1 == es[i].1.model());
}

/// Parses the value encoded at `pos`: returns the parsed value and the
/// position just past its encoding.  `None` when no value is encoded there.
/// The encoding is unambiguous: whenever some value's encoding starts at
/// `pos`, exactly that value (and end position) comes back.
#[verifier::loop_isolation(false)]
#[verifier::rlimit(60)]
fn decode_uint(bytes: &Vec<u8>, pos: usize) -> (r: Option<(Value, usize)>)
    requires
        pos < bytes@.len(),
        bytes@[pos as int] == 1u8,
    ensures
        r matches Some(x) ==> pos < x.1 <= bytes@.len() && bytes@.subrange(pos as int, x.1 as int)
            == enc(x.0.model()),
        forall|m: Val|
            bounded(m) && parses_at(bytes@, pos as int, m) ==> (r matches Some(x) && x.0.model()
                == m && x.1 == pos + enc(m).len()),
    decreases bytes@.len() - pos, 0int,
{
    let total = bytes.len();
    let tag = bytes[pos];
    proof {
        assert forall|m: Val| bounded(m) && parses_at(bytes@, pos as int, m) implies marker(m)
            == tag by {
            lemma_enc_shape(m);
            assert(bytes@.subrange(pos as int, pos + enc(m).len())[0] == bytes@[pos as int]);
        }
    }
    match read_u64(bytes, pos + 1) {
        None => {
            proof {
                assert forall|m: Val| !(bounded(m) && parses_at(bytes@, pos as int, m)) by {
                    if bounded(m) && parses_at(bytes@, pos as int, m) {
                        lemma_enc_shape(m);
                    }
                }
            }
            None
        }
        Some(x) => {
            proof {
                lemma_subrange_split(bytes@, pos as int, pos as int + 1, pos as int + 9);
                assert(bytes@.subrange(pos as int, pos as int + 1) =~= seq![1u8]);
                assert(bytes@.subrange(pos as int, pos as int + 9) == seq![1u8] + u64_bytes(
                    x,
                ));
                assert(enc(Value::Uint(x).model()) == seq![1u8] + u64_bytes(x));
                assert forall|m: Val| bounded(m) && parses_at(bytes@, pos as int, m) implies m
                    == Value::Uint(x).model() && pos + enc(m).len() == pos + 9 by {
                    lemma_enc_shape(m);
                    assert(m is Uint);
                    assert(bytes@.subrange(pos as int, pos + enc(m).len()).subrange(1, 9)
                        =~= bytes@.subrange(pos as int + 1, pos as int + 9));
                    lemma_u64_bytes_injective(x, m->Uint_0);
                }
            }
            Some((Value::Uint(x), pos + 9))
        }
    }
}

#[verifier::loop_isolation(false)]
#[verifier::rlimit(60)]
fn decode_bytes_value(bytes: &Vec<u8>, pos: usize) -> (r: Option<(Value, usize)>)
    requires
        pos < bytes@.len(),
        bytes@[pos as int] == 2u8,
    ensures
        r matches Some(x) ==> pos < x.1 <= bytes@.len() && bytes@.subrange(pos as int, x.1 as int)
            == enc(x.0.model()),
        forall|m: Val|
            bounded(m) && parses_at(bytes@, pos as int, m) ==> (r matches Some(x) && x.0.model()
                == m && x.1 == pos + enc(m).len()),
    decreases bytes@.len() - pos, 0int,
{
    let total = bytes.len();
    let tag = bytes[pos];
    proof {
        assert forall|m: Val| bounded(m) && parses_at(bytes@, pos as int, m) implies marker(m)
            == tag by {
            lemma_enc_shape(m);
            assert(bytes@.subrange(pos as int, pos + enc(m).len())[0] == bytes@[pos as int]);
        }
    }
    match read_u64(bytes, pos + 1) {
        None => {
            proof {
                assert forall|m: Val| !(bounded(m) && parses_at(bytes@, pos as int, m)) by {
                    if bounded(m) && parses_at(bytes@, pos as int, m) {
                        lemma_enc_shape(m);
                    }
                }
            }
            None
        }
        Some(n) => {
            proof {
                lemma_subrange_split(bytes@, pos as int, pos as int + 1, pos as int + 9);
                assert(bytes@.subrange(pos as int, pos as int + 1) =~= seq![2u8]);
                assert forall|m: Val| bounded(m) && parses_at(bytes@, pos as int, m) implies m is Bytes
                    && m->Bytes_0.len() == n by {
                    lemma_enc_shape(m);
                    assert(m is Bytes);
                    assert(bytes@.subrange(pos as int, pos + enc(m).len()).subrange(1, 9)
                        =~= bytes@.subrange(pos as int + 1, pos as int + 9));
                    lemma_u64_bytes_injective(n, m->Bytes_0.len() as u64);
                }
            }
            let rem = total - (pos + 9);
            if n > rem as u64 {
                proof {
                    assert forall|m: Val| !(bounded(m) && parses_at(bytes@, pos as int, m)) by {
                        if bounded(m) && parses_at(bytes@, pos as int, m) {
                            lemma_enc_shape(m);
                        }
                    }
                }
                return None;
            }
            let data = read_bytes(bytes, pos + 9, n as usize);
            let end = pos + 9 + n as usize;
            proof {
                lemma_subrange_split(bytes@, pos as int, pos as int + 9, end as int);
                lemma_subrange_split(bytes@, pos as int, pos as int + 1, pos as int + 9);
                assert(bytes@.subrange(pos as int, end as int) =~= seq![2u8] + u64_bytes(n)
                    + data@);
                assert(data@.len() == n);
                assert(enc(Value::Bytes(data).model()) == seq![2u8] + u64_bytes(n) + data@);
                assert forall|m: Val| bounded(m) && parses_at(bytes@, pos as int, m) implies m
                    == Value::Bytes(data).model() && pos + enc(m).len() == end as int by {
                    lemma_enc_shape(m);
                    assert(m is Bytes && m->Bytes_0.len() == n);
                    assert(enc(m).len() == 9 + n);
                    assert(bytes@.subrange(pos as int, pos + enc(m).len()).subrange(
                        9,
                        9 + n as int,
                    ) =~= bytes@.subrange(pos as int + 9, pos as int + 9 + n as int));
                    assert(m->Bytes_0 == data@);
                }
            }
            Some((Value::Bytes(data), end))
        }
    }
}

proof fn lemma_list_elem_at(b: Seq<u8>, pos: int, n: u64, cur: int, i: int, ms: Seq<Val>)
    requires
        bounded(Val::List(ms)),
        parses_at(b, pos, Val::List(ms)),
        ms.len() == n,
        0 <= i < ms.len(),
        cur == pos + 9 + enc_list(ms.take(i)).len(),
        b.subrange(pos + 9, cur) == enc_list(ms.take(i)),
    ensures
        bounded(ms[i]),
        parses_at(b, cur, ms[i]),
        cur + enc(ms[i]).len() == pos + 9 + enc_list(ms.take(i + 1)).len(),
{
    let lm = Val::List(ms);
    lemma_enc_shape(lm);
    lemma_bounded_list_index(ms, i);
    assert(ms.take(i) + ms.skip(i) =~= ms);
    lemma_enc_list_cat(ms.take(i), ms.skip(i));
    assert(enc_list(ms) == enc_list(ms.take(i)) + enc_list(ms.skip(i)));
    lemma_enc_list_skip(ms, i);
    assert(b.subrange(pos, pos + enc(lm).len()).subrange(9, enc(lm).len() as int) =~= b.subrange(
        pos + 9,
        pos + enc(lm).len(),
    ));
    assert(b.subrange(pos + 9, pos + enc(lm).len()) == enc_list(ms));
    lemma_subrange_split(b, pos + 9, cur, pos + enc(lm).len());
    lemma_concat_cancel_left(
        b.subrange(pos + 9, cur),
        b.subrange(cur, pos + enc(lm).len()),
        enc_list(ms.take(i)),
        enc_list(ms.skip(i)),
    );
    assert(b.subrange(cur, pos + enc(lm).len()) == enc(ms[i]) + enc_list(ms.skip(i + 1)));
    assert((enc(ms[i]) + enc_list(ms.skip(i + 1))).subrange(0, enc(ms[i]).len() as int)
        =~= enc(ms[i]));
    assert(b.subrange(cur, pos + enc(lm).len()).subrange(0, enc(ms[i]).len() as int)
        =~= b.subrange(cur, cur + enc(ms[i]).len()));
    assert(b.subrange(cur, cur + enc(ms[i]).len()) == enc(ms[i]));
    assert(ms.take(i + 1) =~= ms.take(i).push(ms[i]));
    lemma_enc_list_snoc(ms.take(i), ms[i]);
}

proof fn lemma_record_entry_at(b: Seq<u8>, pos: int, n: u64, cur: int, i: int, ens: Seq<(Seq<u8>, Val)>)
    requires
        bounded(Val::Record(ens)),
        parses_at(b, pos, Val::Record(ens)),
        ens.len() == n,
        0 <= i < ens.len(),
        cur == pos + 9 + enc_entries(ens.take(i)).len(),
        b.subrange(pos + 9, cur) == enc_entries(ens.take(i)),
    ensures
        ens[i].0.len() <= u64::MAX,
        bounded(ens[i].1),
        cur + 8 + ens[i].0.len() <= b.len(),
        b.subrange(cur, cur + 8) == u64_bytes(ens[i].0.len() as u64),
        b.subrange(cur + 8, cur + 8 + ens[i].0.len()) == ens[i].0,
        parses_at(b, cur + 8 + ens[i].0.len(), ens[i].1),
        cur + 8 + ens[i].0.len() + enc(ens[i].1).len() == pos + 9 + enc_entries(
            ens.take(i + 1),
        ).len(),
{
    let rm = Val::Record(ens);
    lemma_enc_shape(rm);
    lemma_bounded_entries_index(ens, i);
    assert(ens.take(i) + ens.skip(i) =~= ens);
    lemma_enc_entries_cat(ens.take(i), ens.skip(i));
    assert(enc_entries(ens) == enc_entries(ens.take(i)) + enc_entries(ens.skip(i)));
    lemma_enc_entries_skip(ens, i);
    assert(b.subrange(pos, pos + enc(rm).len()).subrange(9, enc(rm).len() as int) =~= b.subrange(
        pos + 9,
        pos + enc(rm).len(),
    ));
    assert(b.subrange(pos + 9, pos + enc(rm).len()) == enc_entries(ens));
    lemma_subrange_split(b, pos + 9, cur, pos + enc(rm).len());
    lemma_concat_cancel_left(
        b.subrange(pos + 9, cur),
        b.subrange(cur, pos + enc(rm).len()),
        enc_entries(ens.take(i)),
        enc_entries(ens.skip(i)),
    );
    let tagb = enc_tag(ens[i].0);
    let ev = enc(ens[i].1);
    let rest = enc_entries(ens.skip(i + 1));
    assert(b.subrange(cur, pos + enc(rm).len()) == tagb + ev + rest);
    assert(tagb.len() == 8 + ens[i].0.len());
    assert((tagb + ev + rest).subrange(0, 8) =~= u64_bytes(ens[i].0.len() as u64));
    assert(b.subrange(cur, pos + enc(rm).len()).subrange(0, 8) =~= b.subrange(cur, cur + 8));
    assert(b.subrange(cur, cur + 8) == u64_bytes(ens[i].0.len() as u64));
    assert((tagb + ev + rest).subrange(8, tagb.len() as int) =~= ens[i].0);
    assert(b.subrange(cur, pos + enc(rm).len()).subrange(8, tagb.len() as int) =~= b.subrange(
        cur + 8,
        cur + 8 + ens[i].0.len(),
    ));
    assert(b.subrange(cur + 8, cur + 8 + ens[i].0.len()) == ens[i].0);
    assert((tagb + ev + rest).subrange(tagb.len() as int, tagb.len() + ev.len() as int) =~= ev);
    assert(b.subrange(cur, pos + enc(rm).len()).subrange(tagb.len() as int, tagb.len() + ev.len() as int)
        =~= b.subrange(cur + tagb.len(), cur + tagb.len() + ev.len()));
    assert(b.subrange(cur + 8 + ens[i].0.len(), cur + 8 + ens[i].0.len() + ev.len()) == ev);
    assert(ens.take(i + 1) =~= ens.take(i).push(ens[i]));
    lemma_enc_entries_snoc(ens.take(i), ens[i]);
}

#[verifier::loop_isolation(false)]
#[verifier::rlimit(60)]
fn decode_list(bytes: &Vec<u8>, pos: usize) -> (r: Option<(Value, usize)>)
    requires
        pos < bytes@.len(),
        bytes@[pos as int] == 3u8,
    ensures
        r matches Some(x) ==> pos < x.1 <= bytes@.len() && bytes@.subrange(pos as int, x.1 as int)
            == enc(x.0.model()),
        forall|m: Val|
            bounded(m) && parses_at(bytes@, pos as int, m) ==> (r matches Some(x) && x.0.model()
                == m && x.1 == pos + enc(m).len()),
    decreases bytes@.len() - pos, 0int,
{
    let total = bytes.len();
    proof {
        assert forall|m: Val| bounded(m) && parses_at(bytes@, pos as int, m) implies marker(m)
            == 3u8 by {
            lemma_enc_shape(m);
            assert(bytes@.subrange(pos as int, pos + enc(m).len())[0] == bytes@[pos as int]);
        }
    }
    let n = match read_u64(bytes, pos + 1) {
        None => {
            proof {
                assert forall|m: Val| !(bounded(m) && parses_at(bytes@, pos as int, m)) by {
                    if bounded(m) && parses_at(bytes@, pos as int, m) {
                        lemma_enc_shape(m);
                    }
                }
            }
            return None;
        }
        Some(n) => n,
    };
    proof {
        lemma_subrange_split(bytes@, pos as int, pos as int + 1, pos as int + 9);
        assert(bytes@.subrange(pos as int, pos as int + 1) =~= seq![3u8]);
        assert forall|m: Val| bounded(m) && parses_at(bytes@, pos as int, m) implies m is List
            && m->List_0.len() == n by {
            lemma_enc_shape(m);
            assert(m is List);
            assert(bytes@.subrange(pos as int, pos + enc(m).len()).subrange(1, 9)
                =~= bytes@.subrange(pos as int + 1, pos as int + 9));
            lemma_u64_bytes_injective(n, m->List_0.len() as u64);
        }
    }
    let mut vs: Vec<Value> = Vec::new();
    let mut cur: usize = pos + 9;
    let mut i: u64 = 0;
    while i < n
        invariant
            i <= n,
            vs@.len() == i as int,
            pos + 9 <= cur <= total,
            bytes@.subrange(pos as int + 9, cur as int) == enc_list(model_list(vs@)),
            enc_list(model_list(vs@)).len() == cur - (pos + 9),
            forall|ms: Seq<Val>|
                bounded(Val::List(ms)) && #[trigger] parses_at(
                    bytes@,
                    pos as int,
                    Val::List(ms),
                ) && ms.len() == n ==> model_list(vs@) == ms.take(i as int) && cur == pos + 9
                    + enc_list(ms.take(i as int)).len(),
        decreases n - i,
    {
        proof {
            assert forall|ms: Seq<Val>|
                bounded(Val::List(ms)) && #[trigger] parses_at(bytes@, pos as int, Val::List(ms))
                    && ms.len() == n implies bounded(ms[i as int]) && parses_at(
                bytes@,
                cur as int,
                ms[i as int],
            ) by {
                lemma_list_elem_at(bytes@, pos as int, n, cur as int, i as int, ms);
            }
        }
        match decode_value(bytes, cur) {
            None => {
                proof {
                    assert forall|m: Val| !(bounded(m) && parses_at(bytes@, pos as int, m)) by {
                        if bounded(m) && parses_at(bytes@, pos as int, m) {
                            lemma_enc_shape(m);
                            assert(m is List && m->List_0.len() == n);
                        }
                    }
                }
                return None;
            }
            Some((v, c2)) => {
                let ghost old_vs = vs@;
                let ghost old_cur = cur;
                vs.push(v);
                proof {
                    lemma_model_list_props(old_vs);
                    lemma_model_list_props(vs@);
                    assert(vs@ =~= old_vs.push(v));
                    assert(model_list(vs@) =~= model_list(old_vs).push(v.model()));
                    lemma_enc_list_snoc(model_list(old_vs), v.model());
                    lemma_subrange_split(bytes@, pos as int + 9, cur as int, c2 as int);
                    assert forall|ms: Seq<Val>|
                        bounded(Val::List(ms)) && #[trigger] parses_at(
                            bytes@,
                            pos as int,
                            Val::List(ms),
                        ) && ms.len() == n implies model_list(vs@) == ms.take((i + 1) as int)
                        && c2 == pos + 9 + enc_list(ms.take((i + 1) as int)).len() by {
                        lemma_list_elem_at(bytes@, pos as int, n, old_cur as int, i as int, ms);
                        assert(v.model() == ms[i as int]);
                        assert(ms.take((i + 1) as int) =~= ms.take(i as int).push(ms[i as int]));
                        lemma_enc_list_snoc(ms.take(i as int), ms[i as int]);
                    }
                }
                cur = c2;
                i = i + 1;
            }
        }
    }
    proof {
        lemma_model_list_props(vs@);
        assert(enc(Value::List(vs).model()) == seq![3u8] + u64_bytes(n) + enc_list(
            model_list(vs@),
        ));
        lemma_subrange_split(bytes@, pos as int, pos as int + 9, cur as int);
        lemma_subrange_split(bytes@, pos as int, pos as int + 1, pos as int + 9);
        assert(bytes@.subrange(pos as int, cur as int) =~= seq![3u8] + u64_bytes(n) + enc_list(
            model_list(vs@),
        ));
        assert forall|m: Val| bounded(m) && parses_at(bytes@, pos as int, m) implies m
            == Value::List(vs).model() && pos + enc(m).len() == cur as int by {
            lemma_enc_shape(m);
            assert(m is List && m->List_0.len() == n);
            let ms = m->List_0;
            assert(parses_at(bytes@, pos as int, Val::List(ms)));
            assert(ms.take(n as int) =~= ms);
            assert(model_list(vs@) == ms);
        }
    }
    Some((Value::List(vs), cur))
}

#[verifier::loop_isolation(false)]
#[verifier::rlimit(60)]
fn decode_record(bytes: &Vec<u8>, pos: usize) -> (r: Option<(Value, usize)>)
    requires
        pos < bytes@.len(),
        bytes@[pos as int] == 4u8,
    ensures
        r matches Some(x) ==> pos < x.1 <= bytes@.len() && bytes@.subrange(pos as int, x.1 as int)
            == enc(x.0.model()),
        forall|m: Val|
            bounded(m) && parses_at(bytes@, pos as int, m) ==> (r matches Some(x) && x.0.model()
                == m && x.1 == pos + enc(m).len()),
    decreases bytes@.len() - pos, 0int,
{
    let total = bytes.len();
    proof {
        assert forall|m: Val| bounded(m) && parses_at(bytes@, pos as int, m) implies marker(m)
            == 4u8 by {
            lemma_enc_shape(m);
            assert(bytes@.subrange(pos as int, pos + enc(m).len())[0] == bytes@[pos as int]);
        }
    }
    let n = match read_u64(bytes, pos + 1) {
        None => {
            proof {
                assert forall|m: Val| !(bounded(m) && parses_at(bytes@, pos as int, m)) by {
                    if bounded(m) && parses_at(bytes@, pos as int, m) {
                        lemma_enc_shape(m);
                    }
                }
            }
            return None;
        }
        Some(n) => n,
    };
    proof {
        lemma_subrange_split(bytes@, pos as int, pos as int + 1, pos as int + 9);
        assert(bytes@.subrange(pos as int, pos as int + 1) =~= seq![4u8]);
        assert forall|m: Val| bounded(m) && parses_at(bytes@, pos as int, m) implies m is Record
            && m->Record_0.len() == n by {
            lemma_enc_shape(m);
            assert(m is Record);
            assert(bytes@.subrange(pos as int, pos + enc(m).len()).subrange(1, 9)
                =~= bytes@.subrange(pos as int + 1, pos as int + 9));
            lemma_u64_bytes_injective(n, m->Record_0.len() as u64);
        }
    }
    let mut es: Vec<(Vec<u8>, Value)> = Vec::new();
    let mut cur: usize = pos + 9;
    let mut i: u64 = 0;
    while i < n
        invariant
            i <= n,
            es@.len() == i as int,
            pos + 9 <= cur <= total,
            bytes@.subrange(pos as int + 9, cur as int) == enc_entries(model_entries(es@)),
            enc_entries(model_entries(es@)).len() == cur - (pos + 9),
            forall|ens: Seq<(Seq<u8>, Val)>|
                bounded(Val::Record(ens)) && #[trigger] parses_at(
                    bytes@,
                    pos as int,
                    Val::Record(ens),
                ) && ens.len() == n ==> model_entries(es@) == ens.take(i as int) && cur == pos
                    + 9 + enc_entries(ens.take(i as int)).len(),
        decreases n - i,
    {
        proof {
            assert forall|ens: Seq<(Seq<u8>, Val)>|
                bounded(Val::Record(ens)) && #[trigger] parses_at(
                    bytes@,
                    pos as int,
                    Val::Record(ens),
                ) && ens.len() == n implies bytes@.subrange(cur as int, cur as int + 8)
                == u64_bytes(ens[i as int].0.len() as u64) && cur + 8 + ens[i as int].0.len()
                <= total && bytes@.subrange(
                cur as int + 8,
                cur + 8 + ens[i as int].0.len(),
            ) == ens[i as int].0 && bounded(ens[i as int].1) && parses_at(
                bytes@,
                cur + 8 + ens[i as int].0.len(),
                ens[i as int].1,
            ) by {
                lemma_record_entry_at(bytes@, pos as int, n, cur as int, i as int, ens);
            }
        }
        let tl = match read_u64(bytes, cur) {
            None => {
                proof {
                    assert forall|m: Val| !(bounded(m) && parses_at(bytes@, pos as int, m)) by {
                        if bounded(m) && parses_at(bytes@, pos as int, m) {
                            lemma_enc_shape(m);
                            assert(m is Record && m->Record_0.len() == n);
                        }
                    }
                }
                return None;
            }
            Some(tl) => tl,
        };
        proof {
            assert forall|ens: Seq<(Seq<u8>, Val)>|
                bounded(Val::Record(ens)) && #[trigger] parses_at(
                    bytes@,
                    pos as int,
                    Val::Record(ens),
                ) && ens.len() == n implies ens[i as int].0.len() == tl by {
                lemma_record_entry_at(bytes@, pos as int, n, cur as int, i as int, ens);
                lemma_u64_bytes_injective(tl, ens[i as int].0.len() as u64);
            }
        }
        let rem = total - (cur + 8);
        if tl > rem as u64 {
            proof {
                assert forall|m: Val| !(bounded(m) && parses_at(bytes@, pos as int, m)) by {
                    if bounded(m) && parses_at(bytes@, pos as int, m) {
                        lemma_enc_shape(m);
                        assert(m is Record && m->Record_0.len() == n);
                    }
                }
            }
            return None;
        }
        let tag_bytes = read_bytes(bytes, cur + 8, tl as usize);
        let vstart = cur + 8 + tl as usize;
        match decode_value(bytes, vstart) {
            None => {
                proof {
                    assert forall|m: Val| !(bounded(m) && parses_at(bytes@, pos as int, m)) by {
                        if bounded(m) && parses_at(bytes@, pos as int, m) {
                            lemma_enc_shape(m);
                            assert(m is Record && m->Record_0.len() == n);
                        }
                    }
                }
                return None;
            }
            Some((v, c2)) => {
                let ghost old_es = es@;
                let ghost old_cur = cur;
                es.push((tag_bytes, v));
                proof {
                    lemma_model_entries_props(old_es);
                    lemma_model_entries_props(es@);
                    assert(es@ =~= old_es.push((tag_bytes, v)));
                    assert(model_entries(es@) =~= model_entries(old_es).push(
                        (tag_bytes@, v.model()),
                    ));
                    lemma_enc_entries_snoc(model_entries(old_es), (tag_bytes@, v.model()));
                    lemma_subrange_split(bytes@, pos as int + 9, cur as int, c2 as int);
                    lemma_subrange_split(bytes@, cur as int, vstart as int, c2 as int);
                    lemma_subrange_split(bytes@, cur as int, cur as int + 8, vstart as int);
                    assert(bytes@.subrange(cur as int, vstart as int) =~= u64_bytes(tl)
                        + tag_bytes@);
                    assert forall|ens: Seq<(Seq<u8>, Val)>|
                        bounded(Val::Record(ens)) && #[trigger] parses_at(
                            bytes@,
                            pos as int,
                            Val::Record(ens),
                        ) && ens.len() == n implies model_entries(es@) == ens.take(
                        (i + 1) as int,
                    ) && c2 == pos + 9 + enc_entries(ens.take((i + 1) as int)).len() by {
                        lemma_record_entry_at(bytes@, pos as int, n, old_cur as int, i as int, ens);
                        assert(v.model() == ens[i as int].1);
                        assert(ens[i as int].0 == tag_bytes@);
                        assert(ens[i as int] == (tag_bytes@, v.model()));
                        assert(ens.take((i + 1) as int) =~= ens.take(i as int).push(
                            ens[i as int],
                        ));
                        lemma_enc_entries_snoc(ens.take(i as int), ens[i as int]);
                    }
                }
                cur = c2;
                i = i + 1;
            }
        }
    }
    proof {
        lemma_model_entries_props(es@);
        assert(enc(Value::Record(es).model()) == seq![4u8] + u64_bytes(n) + enc_entries(
            model_entries(es@),
        ));
        lemma_subrange_split(bytes@, pos as int, pos as int + 9, cur as int);
        lemma_subrange_split(bytes@, pos as int, pos as int + 1, pos as int + 9);
        assert(bytes@.subrange(pos as int, cur as int) =~= seq![4u8] + u64_bytes(n) + enc_entries(
            model_entries(es@),
        ));
        assert forall|m: Val| bounded(m) && parses_at(bytes@, pos as int, m) implies m
            == Value::Record(es).model() && pos + enc(m).len() == cur as int by {
            lemma_enc_shape(m);
            assert(m is Record && m->Record_0.len() == n);
            let ens = m->Record_0;
            assert(parses_at(bytes@, pos as int, Val::Record(ens)));
            assert(ens.take(n as int) =~= ens);
            assert(model_entries(es@) == ens);
        }
    }
    Some((Value::Record(es), cur))
}

/// Parses the value encoded at `pos`: returns the parsed value and the
/// position just past its encoding.  `None` when no value is encoded there.
/// The encoding is unambiguous: whenever some (run-time representable)
/// value's encoding starts at `pos`, exactly that value comes back.
pub fn decode_value(bytes: &Vec<u8>, pos: usize) -> (r: Option<(Value, usize)>)
    ensures
        r matches Some(x) ==> pos < x.1 <= bytes@.len() && bytes@.subrange(pos as int, x.1 as int)
            == enc(x.0.model()),
        forall|m: Val|
            bounded(m) && parses_at(bytes@, pos as int, m) ==> (r matches Some(x) && x.0.model()
                == m && x.1 == pos + enc(m).len()),
    decreases bytes@.len() - pos, 1int,
{
    let total = bytes.len();
    if pos >= total {
        proof {
            assert forall|m: Val| !(bounded(m) && parses_at(bytes@, pos as int, m)) by {
                if bounded(m) && parses_at(bytes@, pos as int, m) {
                    lemma_enc_shape(m);
                }
            }
        }
        return None;
    }
    let tag = bytes[pos];
    proof {
        assert forall|m: Val| bounded(m) && parses_at(bytes@, pos as int, m) implies marker(m)
            == tag by {
            lemma_enc_shape(m);
            assert(bytes@.subrange(pos as int, pos + enc(m).len())[0] == bytes@[pos as int]);
        }
    }
    if tag == 1 {
        decode_uint(bytes, pos)
    } else if tag == 2 {
        decode_bytes_value(bytes, pos)
    } else if tag == 3 {
        decode_list(bytes, pos)
    } else if tag == 4 {
        decode_record(bytes, pos)
    } else {
        proof {
            assert forall|m: Val| !(bounded(m) && parses_at(bytes@, pos as int, m)) by {
                if bounded(m) && parses_at(bytes@, pos as int, m) {
                    lemma_enc_shape(m);
                }
            }
        }
        None
    }
}




/// The value stored under the first entry carrying the given tag, if any.
pub open spec fn lookup(es: Seq<(Seq<u8>, Val)>, t: Seq<u8>) -> Option<Val>
    decreases es,
{
    if es.len() == 0 {
        None
    } else if es[0].0 == t {
        Some(es[0].1)
    } else {
        lookup(es.drop_first(), t)
    }
}

pub proof fn lemma_lookup_append(a: Seq<(Seq<u8>, Val)>, b: Seq<(Seq<u8>, Val)>, t: Seq<u8>)
    ensures
        lookup(a + b, t) == if lookup(a, t) is Some {
            lookup(a, t)
        } else {
            lookup(b, t)
        },
    decreases a,
{
    if a.len() == 0 {
        assert(a + b =~= b);
    } else {
        assert((a + b)[0] == a[0]);
        assert((a + b).drop_first() =~= a.drop_first() + b);
        lemma_lookup_append(a.drop_first(), b, t);
    }
}

pub proof fn lemma_lookup_skip(es: Seq<(Seq<u8>, Val)>, t: Seq<u8>, i: int)
    requires
        0 <= i <= es.len(),
        forall|k: int| 0 <= k < i ==> es[k].0 != t,
    ensures
        lookup(es, t) == lookup(es.skip(i), t),
    decreases i,
{
    if i > 0 {
        assert(es[0].0 != t);
        assert(es.drop_first().skip(i - 1) =~= es.skip(i));
        lemma_lookup_skip(es.drop_first(), t, i - 1);
    } else {
        assert(es.skip(0) =~= es);
    }
}

/// Every length that the encoding of a value stores fits its 64-bit count
/// field whenever the whole encoding is no longer than `u64::MAX` bytes --
/// in particular whenever the encoding exists as real bytes in memory.
pub proof fn lemma_enc_len_bounded(m: Val)
    requires
        enc(m).len() <= u64::MAX,
    ensures
        bounded(m),
    decreases m, 1int,
{
    match m {
        Val::Uint(_) => {}
        Val::Bytes(b) => {
            assert(enc(m).len() == 9 + b.len());
        }
        Val::List(vs) => {
            assert(enc(m).len() == 9 + enc_list(vs).len());
            lemma_enc_list_len_ge(vs);
            lemma_enc_list_len_bounded(vs);
        }
        Val::Record(es) => {
            assert(enc(m).len() == 9 + enc_entries(es).len());
            lemma_enc_entries_len_ge(es);
            lemma_enc_entries_len_bounded(es);
        }
    }
}

pub proof fn lemma_enc_list_len_ge(vs: Seq<Val>)
    ensures
        enc_list(vs).len() >= vs.len(),
    decreases vs,
{
    if vs.len() > 0 {
        lemma_enc_shape(vs[0]);
        lemma_enc_list_len_ge(vs.drop_first());
    }
}

pub proof fn lemma_enc_entries_len_ge(es: Seq<(Seq<u8>, Val)>)
    ensures
        enc_entries(es).len() >= es.len(),
    decreases es,
{
    if es.len() > 0 {
        lemma_enc_shape(es[0].1);
        lemma_enc_entries_len_ge(es.drop_first());
    }
}

proof fn lemma_enc_list_len_bounded(vs: Seq<Val>)
    requires
        enc_list(vs).len() <= u64::MAX,
    ensures
        bounded_list(vs),
    decreases vs, 0int,
{
    if vs.len() > 0 {
        assert(enc_list(vs) == enc(vs[0]) + enc_list(vs.drop_first()));
        lemma_enc_len_bounded(vs[0]);
        lemma_enc_list_len_bounded(vs.drop_first());
    }
}

proof fn lemma_enc_entries_len_bounded(es: Seq<(Seq<u8>, Val)>)
    requires
        enc_entries(es).len() <= u64::MAX,
    ensures
        bounded_entries(es),
    decreases es, 0int,
{
    if es.len() > 0 {
        assert(enc_entries(es) == enc_tag(es[0].0) + enc(es[0].1) + enc_entries(
            es.drop_first(),
        ));
        assert(enc_tag(es[0].0).len() == 8 + es[0].0.len());
        lemma_enc_len_bounded(es[0].1);
        lemma_enc_entries_len_bounded(es.drop_first());
    }
}

/// `Some(v)` exactly when the optional field is present.
pub open spec fn opt_val(c: bool, v: Val) -> Option<Val> {
    if c {
        Some(v)
    } else {
        None
    }
}

} // verus!
