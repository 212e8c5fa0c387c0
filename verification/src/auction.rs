//! Auction messages carried in transaction note fields.

use vstd::prelude::*;
use vstd::utf8::encode_utf8;

use crate::address::{zero_bytes, Address};
use crate::codec::{model_entries, Val, Value};
use crate::schema::{
    arr32_val, arr64_val, encode_to_vec, opt_entry, push_entry, record_bytes, str_val, tag1,
    tag2, tag3, tag5, tag6, zero_bytes64,
};
use crate::signature::Signature;

verus! {

/// A bid by a user as part of an auction.
#[derive(Clone, PartialEq, Eq)]
pub struct Bid {
    pub bidder_key: Address,
    pub bid_currency: u64,
    pub max_price: u64,
    pub bid_id: u64,
    pub auction_key: Address,
    pub auction_id: u64,
}

/// A bid together with the bidder's signature over it.
#[derive(Clone, PartialEq, Eq)]
pub struct SignedBid {
    pub bid: Bid,
    pub sig: Signature,
}

/// An auction message: its kind and, for bid messages, the signed bid.
#[derive(Clone, PartialEq, Eq)]
pub struct NoteField {
    pub note_type: String,
    pub signed_bid: SignedBid,
}

/// The note-type marker of a deposit message.
pub fn note_deposit() -> (r: String)
    ensures
        r@ == "d"@,
{
    "d".to_owned()
}

/// The note-type marker of a bid message.
pub fn note_bid() -> (r: String)
    ensures
        r@ == "b"@,
{
    "b".to_owned()
}

/// The note-type marker of a settlement message.
pub fn note_settlement() -> (r: String)
    ensures
        r@ == "s"@,
{
    "s".to_owned()
}

/// The note-type marker of an auction-parameters message.
pub fn note_params() -> (r: String)
    ensures
        r@ == "p"@,
{
    "p".to_owned()
}

/// The canonical record fields of a bid, in tag order, defaults omitted:
/// the two tag groups below.
pub open spec fn bid_fields(b: Bid) -> Seq<(Seq<u8>, Val)> {
    bid_fields_a(b) + bid_fields_b(b)
}

/// Bid fields with tags `aid`, `auc`, `bidder`.
pub open spec fn bid_fields_a(b: Bid) -> Seq<(Seq<u8>, Val)> {
    opt_entry(b.auction_id != 0, seq![97u8, 105, 100], Val::Uint(b.auction_id)) + opt_entry(
        b.auction_key.0@ != zero_bytes(),
        seq![97u8, 117, 99],
        Val::Bytes(b.auction_key.0@),
    ) + opt_entry(
        b.bidder_key.0@ != zero_bytes(),
        seq![98u8, 105, 100, 100, 101, 114],
        Val::Bytes(b.bidder_key.0@),
    )
}

/// Bid fields with tags `cur`, `id`, `price`.
pub open spec fn bid_fields_b(b: Bid) -> Seq<(Seq<u8>, Val)> {
    opt_entry(b.bid_currency != 0, seq![99u8, 117, 114], Val::Uint(b.bid_currency)) + opt_entry(
        b.bid_id != 0,
        seq![105u8, 100],
        Val::Uint(b.bid_id),
    ) + opt_entry(b.max_price != 0, seq![112u8, 114, 105, 99, 101], Val::Uint(b.max_price))
}

fn push_bid_a(b: &Bid, es: &mut Vec<(Vec<u8>, Value)>)
    ensures
        model_entries(final(es)@) == model_entries(old(es)@) + bid_fields_a(*b),
{
    let ghost base = model_entries(es@);
    let ghost mut gs: Seq<(Seq<u8>, Val)> = Seq::empty();
    proof {
        assert(model_entries(es@) =~= base + gs);
    }
    if b.auction_id != 0 {
        push_entry(es, tag3(97, 105, 100), Value::Uint(b.auction_id));
    }
    proof {
        gs = gs + opt_entry(b.auction_id != 0, seq![97u8, 105, 100], Val::Uint(b.auction_id));
        assert(model_entries(es@) =~= base + gs);
    }
    if !b.auction_key.is_zero() {
        push_entry(es, tag3(97, 117, 99), arr32_val(&b.auction_key.0));
    }
    proof {
        gs = gs + opt_entry(b.auction_key.0@ != zero_bytes(), seq![97u8, 117, 99], Val::Bytes(
            b.auction_key.0@,
        ));
        assert(model_entries(es@) =~= base + gs);
    }
    if !b.bidder_key.is_zero() {
        push_entry(es, tag6(98, 105, 100, 100, 101, 114), arr32_val(&b.bidder_key.0));
    }
    proof {
        gs = gs + opt_entry(
            b.bidder_key.0@ != zero_bytes(),
            seq![98u8, 105, 100, 100, 101, 114],
            Val::Bytes(b.bidder_key.0@),
        );
        assert(model_entries(es@) =~= base + gs);
        assert(gs == bid_fields_a(*b));
    }
}

fn push_bid_b(b: &Bid, es: &mut Vec<(Vec<u8>, Value)>)
    ensures
        model_entries(final(es)@) == model_entries(old(es)@) + bid_fields_b(*b),
{
    let ghost base = model_entries(es@);
    let ghost mut gs: Seq<(Seq<u8>, Val)> = Seq::empty();
    proof {
        assert(model_entries(es@) =~= base + gs);
    }
    if b.bid_currency != 0 {
        push_entry(es, tag3(99, 117, 114), Value::Uint(b.bid_currency));
    }
    proof {
        gs = gs + opt_entry(b.bid_currency != 0, seq![99u8, 117, 114], Val::Uint(
            b.bid_currency,
        ));
        assert(model_entries(es@) =~= base + gs);
    }
    if b.bid_id != 0 {
        push_entry(es, tag2(105, 100), Value::Uint(b.bid_id));
    }
    proof {
        gs = gs + opt_entry(b.bid_id != 0, seq![105u8, 100], Val::Uint(b.bid_id));
        assert(model_entries(es@) =~= base + gs);
    }
    if b.max_price != 0 {
        push_entry(es, tag5(112, 114, 105, 99, 101), Value::Uint(b.max_price));
    }
    proof {
        gs = gs + opt_entry(b.max_price != 0, seq![112u8, 114, 105, 99, 101], Val::Uint(
            b.max_price,
        ));
        assert(model_entries(es@) =~= base + gs);
        assert(gs == bid_fields_b(*b));
    }
}

impl Bid {
    /// Whether any field departs from its default; an all-default bid is
    /// omitted from its enclosing record.
    pub open spec fn is_set(self) -> bool {
        ||| self.bidder_key.0@ != zero_bytes()
        ||| self.bid_currency != 0
        ||| self.max_price != 0
        ||| self.bid_id != 0
        ||| self.auction_key.0@ != zero_bytes()
        ||| self.auction_id != 0
    }

    /// Whether any field departs from its default, decided at run time.
    pub fn is_set_exec(&self) -> (r: bool)
        ensures
            r == self.is_set(),
    {
        !self.bidder_key.is_zero() || self.bid_currency != 0 || self.max_price != 0
            || self.bid_id != 0 || !self.auction_key.is_zero() || self.auction_id != 0
    }

    /// The canonical record value of this bid.
    pub fn to_value(&self) -> (r: Value)
        ensures
            r.model() == Val::Record(bid_fields(*self)),
    {
        let mut es: Vec<(Vec<u8>, Value)> = Vec::new();
        proof {
            assert(model_entries(es@) =~= Seq::<(Seq<u8>, Val)>::empty());
        }
        push_bid_a(self, &mut es);
        push_bid_b(self, &mut es);
        proof {
            assert(model_entries(es@) =~= bid_fields(*self));
        }
        Value::Record(es)
    }

    /// The canonical byte encoding of this bid.
    pub fn encode(&self) -> (r: Vec<u8>)
        ensures
            r@ == record_bytes(bid_fields(*self)),
    {
        let v = self.to_value();
        encode_to_vec(&v)
    }
}

/// The canonical record fields of a signed bid, in tag order, defaults
/// omitted.
pub open spec fn signed_bid_fields(s: SignedBid) -> Seq<(Seq<u8>, Val)> {
    opt_entry(s.bid.is_set(), seq![98u8, 105, 100], Val::Record(bid_fields(s.bid))) + opt_entry(
        s.sig.0@ != zero_bytes64(),
        seq![115u8, 105, 103],
        Val::Bytes(s.sig.0@),
    )
}

impl SignedBid {
    /// Whether any field departs from its default.
    pub open spec fn is_set(self) -> bool {
        self.bid.is_set() || self.sig.0@ != zero_bytes64()
    }

    /// Whether any field departs from its default, decided at run time.
    pub fn is_set_exec(&self) -> (r: bool)
        ensures
            r == self.is_set(),
    {
        self.bid.is_set_exec() || !self.sig.is_zero()
    }

    /// The canonical record value of this signed bid.
    pub fn to_value(&self) -> (r: Value)
        ensures
            r.model() == Val::Record(signed_bid_fields(*self)),
    {
        let mut es: Vec<(Vec<u8>, Value)> = Vec::new();
        let ghost mut gs: Seq<(Seq<u8>, Val)> = Seq::empty();
        proof {
            assert(model_entries(es@) =~= gs);
        }
        if self.bid.is_set_exec() {
            push_entry(&mut es, tag3(98, 105, 100), self.bid.to_value());
        }
        proof {
            gs = gs + opt_entry(self.bid.is_set(), seq![98u8, 105, 100], Val::Record(
                bid_fields(self.bid),
            ));
            assert(model_entries(es@) =~= gs);
        }
        if !self.sig.is_zero() {
            push_entry(&mut es, tag3(115, 105, 103), arr64_val(&self.sig.0));
        }
        proof {
            gs = gs + opt_entry(self.sig.0@ != zero_bytes64(), seq![115u8, 105, 103], Val::Bytes(
                self.sig.0@,
            ));
            assert(model_entries(es@) =~= gs);
            assert(gs == signed_bid_fields(*self));
        }
        Value::Record(es)
    }

    /// The canonical byte encoding of this signed bid.
    pub fn encode(&self) -> (r: Vec<u8>)
        ensures
            r@ == record_bytes(signed_bid_fields(*self)),
    {
        let v = self.to_value();
        encode_to_vec(&v)
    }
}

/// The canonical record fields of an auction note message, in tag order,
/// defaults omitted.
pub open spec fn note_field_fields(n: NoteField) -> Seq<(Seq<u8>, Val)> {
    opt_entry(
        n.signed_bid.is_set(),
        seq![98u8],
        Val::Record(signed_bid_fields(n.signed_bid)),
    ) + opt_entry(
        n.note_type@.len() != 0,
        seq![116u8],
        Val::Bytes(encode_utf8(n.note_type@)),
    )
}

impl NoteField {
    /// The canonical record value of this note message.
    pub fn to_value(&self) -> (r: Value)
        ensures
            r.model() == Val::Record(note_field_fields(*self)),
    {
        let mut es: Vec<(Vec<u8>, Value)> = Vec::new();
        let ghost mut gs: Seq<(Seq<u8>, Val)> = Seq::empty();
        proof {
            assert(model_entries(es@) =~= gs);
        }
        if self.signed_bid.is_set_exec() {
            push_entry(&mut es, tag1(98), self.signed_bid.to_value());
        }
        proof {
            gs = gs + opt_entry(self.signed_bid.is_set(), seq![98u8], Val::Record(
                signed_bid_fields(self.signed_bid),
            ));
            assert(model_entries(es@) =~= gs);
        }
        if !self.note_type.as_str().is_empty() {
            push_entry(&mut es, tag1(116), str_val(&self.note_type));
        }
        proof {
            gs = gs + opt_entry(self.note_type@.len() != 0, seq![116u8], Val::Bytes(encode_utf8(
                self.note_type@,
            )));
            assert(model_entries(es@) =~= gs);
            assert(gs == note_field_fields(*self));
        }
        Value::Record(es)
    }

    /// The canonical byte encoding of this note message.
    pub fn encode(&self) -> (r: Vec<u8>)
        ensures
            r@ == record_bytes(note_field_fields(*self)),
    {
        let v = self.to_value();
        encode_to_vec(&v)
    }
}

} // verus!
