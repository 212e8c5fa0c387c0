//! Transactions: the common header, the type-specific field sets, and the
//! signed-transaction envelope.

use vstd::prelude::*;
use vstd::utf8::encode_utf8;

use crate::address::{zero_bytes, Address};
use crate::asset::{AssetIndex, AssetParams};
use crate::applications::AppCallFields;
use crate::basics::{Digest, MicroAlgos, Round, VotePK, VrfPK};
use crate::codec::{bounded, decode_value, enc, lemma_lookup_append, lemma_lookup_skip, lemma_model_entries_props, lookup, model_entries, opt_val, parses_at, CodecError, Val, Value};
use crate::applications::{on_completion_num, on_completion_value, state_schema_fields, OnCompletion};
use crate::asset::asset_params_fields;
use crate::schema::{
    arr64_val, bytes_eq, bytes_to_string, lemma_encode_utf8_empty, lemma_lookup_opt, zero_bytes64, addr_list_val, addr_vals, arr32_val, bytes_list_val, bytes_val, bytes_vals, is_zero32,
    opt_entry, push_entry, record_bytes, str_val, tag2, tag3, tag4, tag5, tag6, uint_list_val,
    uint_vals, encode_to_vec,
};
use crate::signature::{lsig_fields, msig_fields, LogicSig, MultisigSignature, Signature};

verus! {

/// The fields common to every transaction type.
#[derive(Clone, PartialEq, Eq)]
pub struct Header {
    pub sender: Address,
    pub fee: MicroAlgos,
    pub first_valid: Round,
    pub last_valid: Round,
    pub note: Vec<u8>,
    pub genesis_id: String,
    pub genesis_hash: Digest,
    /// Hash of the transaction group this transaction belongs to, if any.
    pub group: Digest,
    /// Mutual-exclusion lease; while it is held no other transaction with
    /// the same (sender, lease) pair can be confirmed.
    pub lease: [u8; 32],
    /// If nonzero, re-keys the sender's authorizing address.
    pub rekey_to: Address,
}

/// The canonical record fields of a header, in tag order, defaults
/// omitted: the concatenation of its three tag groups.
pub open spec fn header_fields(h: Header) -> Seq<(Seq<u8>, Val)> {
    header_fields_a(h) + header_fields_b(h) + header_fields_c(h)
}

/// Header fields with tags `fee`, `fv`, `gen`.
pub open spec fn header_fields_a(h: Header) -> Seq<(Seq<u8>, Val)> {
    opt_entry(h.fee.0 != 0, seq![102u8, 101, 101], Val::Uint(h.fee.0)) + opt_entry(
        h.first_valid != 0,
        seq![102u8, 118],
        Val::Uint(h.first_valid),
    ) + opt_entry(
        h.genesis_id@.len() != 0,
        seq![103u8, 101, 110],
        Val::Bytes(encode_utf8(h.genesis_id@)),
    )
}

/// Header fields with tags `gh`, `grp`, `lv`, `lx`.
pub open spec fn header_fields_b(h: Header) -> Seq<(Seq<u8>, Val)> {
    opt_entry(h.genesis_hash@ != zero_bytes(), seq![103u8, 104], Val::Bytes(h.genesis_hash@))
        + opt_entry(h.group@ != zero_bytes(), seq![103u8, 114, 112], Val::Bytes(h.group@))
        + opt_entry(h.last_valid != 0, seq![108u8, 118], Val::Uint(h.last_valid)) + opt_entry(
        h.lease@ != zero_bytes(),
        seq![108u8, 120],
        Val::Bytes(h.lease@),
    )
}

/// Header fields with tags `note`, `rekey`, `snd`.
pub open spec fn header_fields_c(h: Header) -> Seq<(Seq<u8>, Val)> {
    opt_entry(h.note@.len() != 0, seq![110u8, 111, 116, 101], Val::Bytes(h.note@)) + opt_entry(
        h.rekey_to.0@ != zero_bytes(),
        seq![114u8, 101, 107, 101, 121],
        Val::Bytes(h.rekey_to.0@),
    ) + opt_entry(h.sender.0@ != zero_bytes(), seq![115u8, 110, 100], Val::Bytes(h.sender.0@))
}

fn push_header_a(h: &Header, es: &mut Vec<(Vec<u8>, Value)>)
    ensures
        model_entries(final(es)@) == model_entries(old(es)@) + header_fields_a(*h),
{
    let ghost base = model_entries(es@);
    let ghost mut gs: Seq<(Seq<u8>, Val)> = Seq::empty();
    proof {
        assert(model_entries(es@) =~= base + gs);
    }
    if h.fee.0 != 0 {
        push_entry(es, tag3(102, 101, 101), Value::Uint(h.fee.0));
    }
    proof {
        gs = gs + opt_entry(h.fee.0 != 0, seq![102u8, 101, 101], Val::Uint(h.fee.0));
        assert(model_entries(es@) =~= base + gs);
    }
    if h.first_valid != 0 {
        push_entry(es, tag2(102, 118), Value::Uint(h.first_valid));
    }
    proof {
        gs = gs + opt_entry(h.first_valid != 0, seq![102u8, 118], Val::Uint(h.first_valid));
        assert(model_entries(es@) =~= base + gs);
    }
    if !h.genesis_id.as_str().is_empty() {
        push_entry(es, tag3(103, 101, 110), str_val(&h.genesis_id));
    }
    proof {
        gs = gs + opt_entry(h.genesis_id@.len() != 0, seq![103u8, 101, 110], Val::Bytes(
            encode_utf8(h.genesis_id@),
        ));
        assert(model_entries(es@) =~= base + gs);
        assert(gs == header_fields_a(*h));
    }
}

fn push_header_b(h: &Header, es: &mut Vec<(Vec<u8>, Value)>)
    ensures
        model_entries(final(es)@) == model_entries(old(es)@) + header_fields_b(*h),
{
    let ghost base = model_entries(es@);
    let ghost mut gs: Seq<(Seq<u8>, Val)> = Seq::empty();
    proof {
        assert(model_entries(es@) =~= base + gs);
    }
    if !is_zero32(&h.genesis_hash) {
        push_entry(es, tag2(103, 104), arr32_val(&h.genesis_hash));
    }
    proof {
        gs = gs + opt_entry(h.genesis_hash@ != zero_bytes(), seq![103u8, 104], Val::Bytes(
            h.genesis_hash@,
        ));
        assert(model_entries(es@) =~= base + gs);
    }
    if !is_zero32(&h.group) {
        push_entry(es, tag3(103, 114, 112), arr32_val(&h.group));
    }
    proof {
        gs = gs + opt_entry(h.group@ != zero_bytes(), seq![103u8, 114, 112], Val::Bytes(
            h.group@,
        ));
        assert(model_entries(es@) =~= base + gs);
    }
    if h.last_valid != 0 {
        push_entry(es, tag2(108, 118), Value::Uint(h.last_valid));
    }
    proof {
        gs = gs + opt_entry(h.last_valid != 0, seq![108u8, 118], Val::Uint(h.last_valid));
        assert(model_entries(es@) =~= base + gs);
    }
    if !is_zero32(&h.lease) {
        push_entry(es, tag2(108, 120), arr32_val(&h.lease));
    }
    proof {
        gs = gs + opt_entry(h.lease@ != zero_bytes(), seq![108u8, 120], Val::Bytes(h.lease@));
        assert(model_entries(es@) =~= base + gs);
        assert(gs == header_fields_b(*h));
    }
}

fn push_header_c(h: &Header, es: &mut Vec<(Vec<u8>, Value)>)
    ensures
        model_entries(final(es)@) == model_entries(old(es)@) + header_fields_c(*h),
{
    let ghost base = model_entries(es@);
    let ghost mut gs: Seq<(Seq<u8>, Val)> = Seq::empty();
    proof {
        assert(model_entries(es@) =~= base + gs);
    }
    if h.note.len() != 0 {
        push_entry(es, tag4(110, 111, 116, 101), bytes_val(&h.note));
    }
    proof {
        gs = gs + opt_entry(h.note@.len() != 0, seq![110u8, 111, 116, 101], Val::Bytes(h.note@));
        assert(model_entries(es@) =~= base + gs);
    }
    if !h.rekey_to.is_zero() {
        push_entry(es, tag5(114, 101, 107, 101, 121), arr32_val(&h.rekey_to.0));
    }
    proof {
        gs = gs + opt_entry(
            h.rekey_to.0@ != zero_bytes(),
            seq![114u8, 101, 107, 101, 121],
            Val::Bytes(h.rekey_to.0@),
        );
        assert(model_entries(es@) =~= base + gs);
    }
    if !h.sender.is_zero() {
        push_entry(es, tag3(115, 110, 100), arr32_val(&h.sender.0));
    }
    proof {
        gs = gs + opt_entry(h.sender.0@ != zero_bytes(), seq![115u8, 110, 100], Val::Bytes(
            h.sender.0@,
        ));
        assert(model_entries(es@) =~= base + gs);
        assert(gs == header_fields_c(*h));
    }
}

impl Header {
    /// The canonical record value of this header.
    pub fn to_value(&self) -> (r: Value)
        ensures
            r.model() == Val::Record(header_fields(*self)),
    {
        let mut es: Vec<(Vec<u8>, Value)> = Vec::new();
        proof {
            assert(model_entries(es@) =~= Seq::<(Seq<u8>, Val)>::empty());
        }
        push_header_a(self, &mut es);
        push_header_b(self, &mut es);
        push_header_c(self, &mut es);
        proof {
            assert(model_entries(es@) =~= header_fields(*self));
        }
        Value::Record(es)
    }

    /// The canonical byte encoding of this header.
    pub fn encode(&self) -> (r: Vec<u8>)
        ensures
            r@ == record_bytes(header_fields(*self)),
    {
        let v = self.to_value();
        encode_to_vec(&v)
    }
}

/// Law: a header whose fields all hold their defaults except the sender
/// encodes as a record holding exactly the sender tag.
pub proof fn lemma_header_only_sender(h: Header)
    requires
        h.fee.0 == 0,
        h.first_valid == 0,
        h.last_valid == 0,
        h.note@.len() == 0,
        h.genesis_id@.len() == 0,
        h.genesis_hash@ == zero_bytes(),
        h.group@ == zero_bytes(),
        h.lease@ == zero_bytes(),
        h.rekey_to.0@ == zero_bytes(),
        h.sender.0@ != zero_bytes(),
    ensures
        header_fields(h) == seq![(seq![115u8, 110, 100], Val::Bytes(h.sender.0@))],
{
    assert(header_fields(h) =~= seq![(seq![115u8, 110, 100], Val::Bytes(h.sender.0@))]);
}

/// Law: the header encoding is a function of the header's field values
/// alone, so semantically identical headers encode byte-identically.
pub proof fn lemma_header_encoding_deterministic(h1: Header, h2: Header)
    requires
        h1.sender.0@ == h2.sender.0@,
        h1.fee == h2.fee,
        h1.first_valid == h2.first_valid,
        h1.last_valid == h2.last_valid,
        h1.note@ == h2.note@,
        h1.genesis_id@ == h2.genesis_id@,
        h1.genesis_hash@ == h2.genesis_hash@,
        h1.group@ == h2.group@,
        h1.lease@ == h2.lease@,
        h1.rekey_to.0@ == h2.rekey_to.0@,
    ensures
        record_bytes(header_fields(h1)) == record_bytes(header_fields(h2)),
{
    assert(header_fields(h1) =~= header_fields(h2));
}

/// The fields used by key registration transactions.
#[derive(Clone, PartialEq, Eq)]
pub struct KeyregFields {
    pub vote_pk: VotePK,
    pub selection_pk: VrfPK,
    pub vote_first: Round,
    pub vote_last: Round,
    pub vote_key_dilution: u64,
    pub nonparticipation: bool,
}

/// The fields used by payment transactions.
#[derive(Clone, PartialEq, Eq)]
pub struct PaymentFields {
    pub receiver: Address,
    pub amount: MicroAlgos,
    /// When set, the sender account is closed and its remaining funds are
    /// transferred to this address.
    pub close_remainder_to: Option<Address>,
}

/// Fields used for asset allocation, re-configuration and destruction.
#[derive(Clone, PartialEq, Eq)]
pub struct AssetConfigFields {
    /// The asset being configured; zero means allocation.
    pub config_asset: AssetIndex,
    /// The new parameters; all-default means destruction.
    pub asset_params: AssetParams,
}

/// Fields used for asset transfers.
#[derive(Clone, PartialEq, Eq)]
pub struct AssetTransferFields {
    pub transfer_asset: AssetIndex,
    pub asset_amount: u64,
    /// Nonzero only for clawback transfers by the clawback address.
    pub asset_sender: Address,
    pub asset_receiver: Address,
    /// When set, closes the asset slot and sends remaining holdings here.
    pub asset_close_to: Address,
}

/// Fields used for freezing or unfreezing asset slots.
#[derive(Clone, PartialEq, Eq)]
pub struct AssetFreezeFields {
    pub freeze_account: Address,
    pub freeze_asset: AssetIndex,
    pub asset_frozen: bool,
}

/// The type-specific field set of a transaction: exactly one of the six
/// transaction types.
#[derive(Clone, PartialEq, Eq)]
pub enum TxFields {
    Keyreg(KeyregFields),
    Payment(PaymentFields),
    AssetConfig(AssetConfigFields),
    AssetTransfer(AssetTransferFields),
    AssetFreeze(AssetFreezeFields),
    AppCall(AppCallFields),
}

/// A transaction: the common header plus one type-specific field set,
/// encoded flattened into a single record with a discriminator tag.
#[derive(Clone, PartialEq, Eq)]
pub struct Transaction {
    pub header: Header,
    pub fields: TxFields,
}

/// A transaction plus its authorization: a single signature, a
/// multisignature, or a delegated logic signature, with an optional
/// authorizer override address.  Which mechanisms are populated is the
/// consumer's concern, not validated here.
#[derive(Clone, PartialEq, Eq)]
pub struct SignedTx {
    pub sig: Signature,
    pub msig: Option<MultisigSignature>,
    pub lsig: Option<LogicSig>,
    pub tx: Transaction,
    pub auth_addr: Address,
}

/// The discriminator bytes naming each transaction type.
pub open spec fn tx_type_bytes(f: TxFields) -> Seq<u8> {
    match f {
        TxFields::Keyreg(_) => seq![107u8, 101, 121, 114, 101, 103],
        TxFields::Payment(_) => seq![112u8, 97, 121],
        TxFields::AssetConfig(_) => seq![97u8, 99, 102, 103],
        TxFields::AssetTransfer(_) => seq![97u8, 120, 102, 101, 114],
        TxFields::AssetFreeze(_) => seq![97u8, 102, 114, 122],
        TxFields::AppCall(_) => seq![97u8, 112, 112, 108],
    }
}

/// The canonical record fields of a payment, in tag order, defaults omitted.
pub open spec fn payment_fields(p: PaymentFields) -> Seq<(Seq<u8>, Val)> {
    opt_entry(p.amount.0 != 0, seq![97u8, 109, 116], Val::Uint(p.amount.0)) + (match p
        .close_remainder_to {
        Some(a) => seq![(seq![99u8, 108, 111, 115, 101], Val::Bytes(a.0@))],
        None => Seq::empty(),
    }) + opt_entry(p.receiver.0@ != zero_bytes(), seq![114u8, 99, 118], Val::Bytes(
        p.receiver.0@,
    ))
}

fn push_payment(p: &PaymentFields, es: &mut Vec<(Vec<u8>, Value)>)
    ensures
        model_entries(final(es)@) == model_entries(old(es)@) + payment_fields(*p),
{
    let ghost base = model_entries(es@);
    let ghost mut gs: Seq<(Seq<u8>, Val)> = Seq::empty();
    proof {
        assert(model_entries(es@) =~= base + gs);
    }
    if p.amount.0 != 0 {
        push_entry(es, tag3(97, 109, 116), Value::Uint(p.amount.0));
    }
    proof {
        gs = gs + opt_entry(p.amount.0 != 0, seq![97u8, 109, 116], Val::Uint(p.amount.0));
        assert(model_entries(es@) =~= base + gs);
    }
    match &p.close_remainder_to {
        Some(a) => {
            push_entry(es, tag5(99, 108, 111, 115, 101), arr32_val(&a.0));
        }
        None => {}
    }
    proof {
        gs = gs + (match p.close_remainder_to {
            Some(a) => seq![(seq![99u8, 108, 111, 115, 101], Val::Bytes(a.0@))],
            None => Seq::empty(),
        });
        assert(model_entries(es@) =~= base + gs);
    }
    if !p.receiver.is_zero() {
        push_entry(es, tag3(114, 99, 118), arr32_val(&p.receiver.0));
    }
    proof {
        gs = gs + opt_entry(p.receiver.0@ != zero_bytes(), seq![114u8, 99, 118], Val::Bytes(
            p.receiver.0@,
        ));
        assert(model_entries(es@) =~= base + gs);
        assert(gs == payment_fields(*p));
    }
}

/// The canonical record fields of a key registration, in tag order,
/// defaults omitted: the two tag groups below.
pub open spec fn keyreg_fields(k: KeyregFields) -> Seq<(Seq<u8>, Val)> {
    keyreg_fields_a(k) + keyreg_fields_b(k)
}

/// Key registration fields with tags `nonpart`, `selkey`, `votefst`.
pub open spec fn keyreg_fields_a(k: KeyregFields) -> Seq<(Seq<u8>, Val)> {
    opt_entry(k.nonparticipation, seq![110u8, 111, 110, 112, 97, 114, 116], Val::Uint(1))
        + opt_entry(
        k.selection_pk.0@ != zero_bytes(),
        seq![115u8, 101, 108, 107, 101, 121],
        Val::Bytes(k.selection_pk.0@),
    ) + opt_entry(
        k.vote_first != 0,
        seq![118u8, 111, 116, 101, 102, 115, 116],
        Val::Uint(k.vote_first),
    )
}

/// Key registration fields with tags `votekd`, `votekey`, `votelst`.
pub open spec fn keyreg_fields_b(k: KeyregFields) -> Seq<(Seq<u8>, Val)> {
    opt_entry(
        k.vote_key_dilution != 0,
        seq![118u8, 111, 116, 101, 107, 100],
        Val::Uint(k.vote_key_dilution),
    ) + opt_entry(
        k.vote_pk.0@ != zero_bytes(),
        seq![118u8, 111, 116, 101, 107, 101, 121],
        Val::Bytes(k.vote_pk.0@),
    ) + opt_entry(
        k.vote_last != 0,
        seq![118u8, 111, 116, 101, 108, 115, 116],
        Val::Uint(k.vote_last),
    )
}

fn push_keyreg_a(k: &KeyregFields, es: &mut Vec<(Vec<u8>, Value)>)
    ensures
        model_entries(final(es)@) == model_entries(old(es)@) + keyreg_fields_a(*k),
{
    let ghost base = model_entries(es@);
    let ghost mut gs: Seq<(Seq<u8>, Val)> = Seq::empty();
    proof {
        assert(model_entries(es@) =~= base + gs);
    }
    if k.nonparticipation {
        push_entry(es, crate::schema::tag7(110, 111, 110, 112, 97, 114, 116), Value::Uint(1));
    }
    proof {
        gs = gs + opt_entry(
            k.nonparticipation,
            seq![110u8, 111, 110, 112, 97, 114, 116],
            Val::Uint(1),
        );
        assert(model_entries(es@) =~= base + gs);
    }
    if !k.selection_pk.is_zero() {
        push_entry(es, tag6(115, 101, 108, 107, 101, 121), arr32_val(&k.selection_pk.0));
    }
    proof {
        gs = gs + opt_entry(
            k.selection_pk.0@ != zero_bytes(),
            seq![115u8, 101, 108, 107, 101, 121],
            Val::Bytes(k.selection_pk.0@),
        );
        assert(model_entries(es@) =~= base + gs);
    }
    if k.vote_first != 0 {
        push_entry(es, crate::schema::tag7(118, 111, 116, 101, 102, 115, 116), Value::Uint(
            k.vote_first,
        ));
    }
    proof {
        gs = gs + opt_entry(
            k.vote_first != 0,
            seq![118u8, 111, 116, 101, 102, 115, 116],
            Val::Uint(k.vote_first),
        );
        assert(model_entries(es@) =~= base + gs);
        assert(gs == keyreg_fields_a(*k));
    }
}

fn push_keyreg_b(k: &KeyregFields, es: &mut Vec<(Vec<u8>, Value)>)
    ensures
        model_entries(final(es)@) == model_entries(old(es)@) + keyreg_fields_b(*k),
{
    let ghost base = model_entries(es@);
    let ghost mut gs: Seq<(Seq<u8>, Val)> = Seq::empty();
    proof {
        assert(model_entries(es@) =~= base + gs);
    }
    if k.vote_key_dilution != 0 {
        push_entry(es, tag6(118, 111, 116, 101, 107, 100), Value::Uint(k.vote_key_dilution));
    }
    proof {
        gs = gs + opt_entry(
            k.vote_key_dilution != 0,
            seq![118u8, 111, 116, 101, 107, 100],
            Val::Uint(k.vote_key_dilution),
        );
        assert(model_entries(es@) =~= base + gs);
    }
    if !k.vote_pk.is_zero() {
        push_entry(es, crate::schema::tag7(118, 111, 116, 101, 107, 101, 121), arr32_val(
            &k.vote_pk.0,
        ));
    }
    proof {
        gs = gs + opt_entry(
            k.vote_pk.0@ != zero_bytes(),
            seq![118u8, 111, 116, 101, 107, 101, 121],
            Val::Bytes(k.vote_pk.0@),
        );
        assert(model_entries(es@) =~= base + gs);
    }
    if k.vote_last != 0 {
        push_entry(es, crate::schema::tag7(118, 111, 116, 101, 108, 115, 116), Value::Uint(
            k.vote_last,
        ));
    }
    proof {
        gs = gs + opt_entry(
            k.vote_last != 0,
            seq![118u8, 111, 116, 101, 108, 115, 116],
            Val::Uint(k.vote_last),
        );
        assert(model_entries(es@) =~= base + gs);
        assert(gs == keyreg_fields_b(*k));
    }
}

/// The canonical record fields of an asset configuration, in tag order,
/// defaults omitted.
pub open spec fn asset_config_fields(c: AssetConfigFields) -> Seq<(Seq<u8>, Val)> {
    opt_entry(
        c.asset_params.is_set(),
        seq![97u8, 112, 97, 114],
        Val::Record(asset_params_fields(c.asset_params)),
    ) + opt_entry(c.config_asset != 0, seq![99u8, 97, 105, 100], Val::Uint(c.config_asset))
}

fn push_asset_config(c: &AssetConfigFields, es: &mut Vec<(Vec<u8>, Value)>)
    ensures
        model_entries(final(es)@) == model_entries(old(es)@) + asset_config_fields(*c),
{
    let ghost base = model_entries(es@);
    let ghost mut gs: Seq<(Seq<u8>, Val)> = Seq::empty();
    proof {
        assert(model_entries(es@) =~= base + gs);
    }
    if c.asset_params.is_set_exec() {
        push_entry(es, tag4(97, 112, 97, 114), c.asset_params.to_value());
    }
    proof {
        gs = gs + opt_entry(
            c.asset_params.is_set(),
            seq![97u8, 112, 97, 114],
            Val::Record(asset_params_fields(c.asset_params)),
        );
        assert(model_entries(es@) =~= base + gs);
    }
    if c.config_asset != 0 {
        push_entry(es, tag4(99, 97, 105, 100), Value::Uint(c.config_asset));
    }
    proof {
        gs = gs + opt_entry(c.config_asset != 0, seq![99u8, 97, 105, 100], Val::Uint(
            c.config_asset,
        ));
        assert(model_entries(es@) =~= base + gs);
        assert(gs == asset_config_fields(*c));
    }
}

/// The canonical record fields of an asset transfer, in tag order, defaults
/// omitted.
pub open spec fn asset_transfer_fields(t: AssetTransferFields) -> Seq<(Seq<u8>, Val)> {
    opt_entry(t.asset_amount != 0, seq![97u8, 97, 109, 116], Val::Uint(t.asset_amount))
        + opt_entry(
        t.asset_close_to.0@ != zero_bytes(),
        seq![97u8, 99, 108, 111, 115, 101],
        Val::Bytes(t.asset_close_to.0@),
    ) + opt_entry(
        t.asset_receiver.0@ != zero_bytes(),
        seq![97u8, 114, 99, 118],
        Val::Bytes(t.asset_receiver.0@),
    ) + opt_entry(
        t.asset_sender.0@ != zero_bytes(),
        seq![97u8, 115, 110, 100],
        Val::Bytes(t.asset_sender.0@),
    ) + opt_entry(t.transfer_asset != 0, seq![120u8, 97, 105, 100], Val::Uint(t.transfer_asset))
}

fn push_asset_transfer(t: &AssetTransferFields, es: &mut Vec<(Vec<u8>, Value)>)
    ensures
        model_entries(final(es)@) == model_entries(old(es)@) + asset_transfer_fields(*t),
{
    let ghost base = model_entries(es@);
    let ghost mut gs: Seq<(Seq<u8>, Val)> = Seq::empty();
    proof {
        assert(model_entries(es@) =~= base + gs);
    }
    if t.asset_amount != 0 {
        push_entry(es, tag4(97, 97, 109, 116), Value::Uint(t.asset_amount));
    }
    proof {
        gs = gs + opt_entry(t.asset_amount != 0, seq![97u8, 97, 109, 116], Val::Uint(
            t.asset_amount,
        ));
        assert(model_entries(es@) =~= base + gs);
    }
    if !t.asset_close_to.is_zero() {
        push_entry(es, tag6(97, 99, 108, 111, 115, 101), arr32_val(&t.asset_close_to.0));
    }
    proof {
        gs = gs + opt_entry(
            t.asset_close_to.0@ != zero_bytes(),
            seq![97u8, 99, 108, 111, 115, 101],
            Val::Bytes(t.asset_close_to.0@),
        );
        assert(model_entries(es@) =~= base + gs);
    }
    if !t.asset_receiver.is_zero() {
        push_entry(es, tag4(97, 114, 99, 118), arr32_val(&t.asset_receiver.0));
    }
    proof {
        gs = gs + opt_entry(
            t.asset_receiver.0@ != zero_bytes(),
            seq![97u8, 114, 99, 118],
            Val::Bytes(t.asset_receiver.0@),
        );
        assert(model_entries(es@) =~= base + gs);
    }
    if !t.asset_sender.is_zero() {
        push_entry(es, tag4(97, 115, 110, 100), arr32_val(&t.asset_sender.0));
    }
    proof {
        gs = gs + opt_entry(
            t.asset_sender.0@ != zero_bytes(),
            seq![97u8, 115, 110, 100],
            Val::Bytes(t.asset_sender.0@),
        );
        assert(model_entries(es@) =~= base + gs);
    }
    if t.transfer_asset != 0 {
        push_entry(es, tag4(120, 97, 105, 100), Value::Uint(t.transfer_asset));
    }
    proof {
        gs = gs + opt_entry(t.transfer_asset != 0, seq![120u8, 97, 105, 100], Val::Uint(
            t.transfer_asset,
        ));
        assert(model_entries(es@) =~= base + gs);
        assert(gs == asset_transfer_fields(*t));
    }
}

/// The canonical record fields of an asset freeze, in tag order, defaults
/// omitted.
pub open spec fn asset_freeze_fields(f: AssetFreezeFields) -> Seq<(Seq<u8>, Val)> {
    opt_entry(f.asset_frozen, seq![97u8, 102, 114, 122], Val::Uint(1)) + opt_entry(
        f.freeze_account.0@ != zero_bytes(),
        seq![102u8, 97, 100, 100],
        Val::Bytes(f.freeze_account.0@),
    ) + opt_entry(f.freeze_asset != 0, seq![102u8, 97, 105, 100], Val::Uint(f.freeze_asset))
}

fn push_asset_freeze(f: &AssetFreezeFields, es: &mut Vec<(Vec<u8>, Value)>)
    ensures
        model_entries(final(es)@) == model_entries(old(es)@) + asset_freeze_fields(*f),
{
    let ghost base = model_entries(es@);
    let ghost mut gs: Seq<(Seq<u8>, Val)> = Seq::empty();
    proof {
        assert(model_entries(es@) =~= base + gs);
    }
    if f.asset_frozen {
        push_entry(es, tag4(97, 102, 114, 122), Value::Uint(1));
    }
    proof {
        gs = gs + opt_entry(f.asset_frozen, seq![97u8, 102, 114, 122], Val::Uint(1));
        assert(model_entries(es@) =~= base + gs);
    }
    if !f.freeze_account.is_zero() {
        push_entry(es, tag4(102, 97, 100, 100), arr32_val(&f.freeze_account.0));
    }
    proof {
        gs = gs + opt_entry(
            f.freeze_account.0@ != zero_bytes(),
            seq![102u8, 97, 100, 100],
            Val::Bytes(f.freeze_account.0@),
        );
        assert(model_entries(es@) =~= base + gs);
    }
    if f.freeze_asset != 0 {
        push_entry(es, tag4(102, 97, 105, 100), Value::Uint(f.freeze_asset));
    }
    proof {
        gs = gs + opt_entry(f.freeze_asset != 0, seq![102u8, 97, 105, 100], Val::Uint(
            f.freeze_asset,
        ));
        assert(model_entries(es@) =~= base + gs);
        assert(gs == asset_freeze_fields(*f));
    }
}

/// The canonical record fields of an application call, in tag order,
/// defaults omitted: the three tag groups below.
pub open spec fn app_call_fields(a: AppCallFields) -> Seq<(Seq<u8>, Val)> {
    app_call_fields_a(a) + app_call_fields_b(a) + app_call_fields_c(a)
}

/// Application-call fields with tags `apaa`, `apan`, `apap`, `apas`.
pub open spec fn app_call_fields_a(a: AppCallFields) -> Seq<(Seq<u8>, Val)> {
    opt_entry(
        a.application_args@.len() != 0,
        seq![97u8, 112, 97, 97],
        Val::List(bytes_vals(a.application_args@)),
    ) + opt_entry(
        a.on_completion != OnCompletion::NoOpOC,
        seq![97u8, 112, 97, 110],
        Val::Uint(on_completion_num(a.on_completion)),
    ) + opt_entry(
        a.approval_program@.len() != 0,
        seq![97u8, 112, 97, 112],
        Val::Bytes(a.approval_program@),
    ) + opt_entry(
        a.foreign_assets@.len() != 0,
        seq![97u8, 112, 97, 115],
        Val::List(uint_vals(a.foreign_assets@)),
    )
}

/// Application-call fields with tags `apat`, `apep`, `apfa`, `apgs`.
pub open spec fn app_call_fields_b(a: AppCallFields) -> Seq<(Seq<u8>, Val)> {
    opt_entry(
        a.accounts@.len() != 0,
        seq![97u8, 112, 97, 116],
        Val::List(addr_vals(a.accounts@)),
    ) + opt_entry(
        a.extra_program_pages != 0,
        seq![97u8, 112, 101, 112],
        Val::Uint(a.extra_program_pages as u64),
    ) + opt_entry(
        a.foreign_apps@.len() != 0,
        seq![97u8, 112, 102, 97],
        Val::List(uint_vals(a.foreign_apps@)),
    ) + opt_entry(
        a.global_state_schema.is_set(),
        seq![97u8, 112, 103, 115],
        Val::Record(state_schema_fields(a.global_state_schema)),
    )
}

/// Application-call fields with tags `apid`, `apls`, `apsu`.
pub open spec fn app_call_fields_c(a: AppCallFields) -> Seq<(Seq<u8>, Val)> {
    opt_entry(a.application_id != 0, seq![97u8, 112, 105, 100], Val::Uint(a.application_id))
        + opt_entry(
        a.local_state_schema.is_set(),
        seq![97u8, 112, 108, 115],
        Val::Record(state_schema_fields(a.local_state_schema)),
    ) + opt_entry(
        a.clear_state_program@.len() != 0,
        seq![97u8, 112, 115, 117],
        Val::Bytes(a.clear_state_program@),
    )
}

fn push_app_call_a(a: &AppCallFields, es: &mut Vec<(Vec<u8>, Value)>)
    ensures
        model_entries(final(es)@) == model_entries(old(es)@) + app_call_fields_a(*a),
{
    let ghost base = model_entries(es@);
    let ghost mut gs: Seq<(Seq<u8>, Val)> = Seq::empty();
    proof {
        assert(model_entries(es@) =~= base + gs);
    }
    if a.application_args.len() != 0 {
        push_entry(es, tag4(97, 112, 97, 97), bytes_list_val(&a.application_args));
    }
    proof {
        gs = gs + opt_entry(
            a.application_args@.len() != 0,
            seq![97u8, 112, 97, 97],
            Val::List(bytes_vals(a.application_args@)),
        );
        assert(model_entries(es@) =~= base + gs);
    }
    let is_noop = match a.on_completion {
        OnCompletion::NoOpOC => true,
        _ => false,
    };
    if !is_noop {
        push_entry(es, tag4(97, 112, 97, 110), Value::Uint(on_completion_value(
            &a.on_completion,
        )));
    }
    proof {
        gs = gs + opt_entry(
            a.on_completion != OnCompletion::NoOpOC,
            seq![97u8, 112, 97, 110],
            Val::Uint(on_completion_num(a.on_completion)),
        );
        assert(model_entries(es@) =~= base + gs);
    }
    if a.approval_program.len() != 0 {
        push_entry(es, tag4(97, 112, 97, 112), bytes_val(&a.approval_program));
    }
    proof {
        gs = gs + opt_entry(
            a.approval_program@.len() != 0,
            seq![97u8, 112, 97, 112],
            Val::Bytes(a.approval_program@),
        );
        assert(model_entries(es@) =~= base + gs);
    }
    if a.foreign_assets.len() != 0 {
        push_entry(es, tag4(97, 112, 97, 115), uint_list_val(&a.foreign_assets));
    }
    proof {
        gs = gs + opt_entry(
            a.foreign_assets@.len() != 0,
            seq![97u8, 112, 97, 115],
            Val::List(uint_vals(a.foreign_assets@)),
        );
        assert(model_entries(es@) =~= base + gs);
        assert(gs == app_call_fields_a(*a));
    }
}

fn push_app_call_b(a: &AppCallFields, es: &mut Vec<(Vec<u8>, Value)>)
    ensures
        model_entries(final(es)@) == model_entries(old(es)@) + app_call_fields_b(*a),
{
    let ghost base = model_entries(es@);
    let ghost mut gs: Seq<(Seq<u8>, Val)> = Seq::empty();
    proof {
        assert(model_entries(es@) =~= base + gs);
    }
    if a.accounts.len() != 0 {
        push_entry(es, tag4(97, 112, 97, 116), addr_list_val(&a.accounts));
    }
    proof {
        gs = gs + opt_entry(
            a.accounts@.len() != 0,
            seq![97u8, 112, 97, 116],
            Val::List(addr_vals(a.accounts@)),
        );
        assert(model_entries(es@) =~= base + gs);
    }
    if a.extra_program_pages != 0 {
        push_entry(es, tag4(97, 112, 101, 112), Value::Uint(a.extra_program_pages as u64));
    }
    proof {
        gs = gs + opt_entry(
            a.extra_program_pages != 0,
            seq![97u8, 112, 101, 112],
            Val::Uint(a.extra_program_pages as u64),
        );
        assert(model_entries(es@) =~= base + gs);
    }
    if a.foreign_apps.len() != 0 {
        push_entry(es, tag4(97, 112, 102, 97), uint_list_val(&a.foreign_apps));
    }
    proof {
        gs = gs + opt_entry(
            a.foreign_apps@.len() != 0,
            seq![97u8, 112, 102, 97],
            Val::List(uint_vals(a.foreign_apps@)),
        );
        assert(model_entries(es@) =~= base + gs);
    }
    if a.global_state_schema.is_set_exec() {
        push_entry(es, tag4(97, 112, 103, 115), a.global_state_schema.to_value());
    }
    proof {
        gs = gs + opt_entry(
            a.global_state_schema.is_set(),
            seq![97u8, 112, 103, 115],
            Val::Record(state_schema_fields(a.global_state_schema)),
        );
        assert(model_entries(es@) =~= base + gs);
        assert(gs == app_call_fields_b(*a));
    }
}

fn push_app_call_c(a: &AppCallFields, es: &mut Vec<(Vec<u8>, Value)>)
    ensures
        model_entries(final(es)@) == model_entries(old(es)@) + app_call_fields_c(*a),
{
    let ghost base = model_entries(es@);
    let ghost mut gs: Seq<(Seq<u8>, Val)> = Seq::empty();
    proof {
        assert(model_entries(es@) =~= base + gs);
    }
    if a.application_id != 0 {
        push_entry(es, tag4(97, 112, 105, 100), Value::Uint(a.application_id));
    }
    proof {
        gs = gs + opt_entry(a.application_id != 0, seq![97u8, 112, 105, 100], Val::Uint(
            a.application_id,
        ));
        assert(model_entries(es@) =~= base + gs);
    }
    if a.local_state_schema.is_set_exec() {
        push_entry(es, tag4(97, 112, 108, 115), a.local_state_schema.to_value());
    }
    proof {
        gs = gs + opt_entry(
            a.local_state_schema.is_set(),
            seq![97u8, 112, 108, 115],
            Val::Record(state_schema_fields(a.local_state_schema)),
        );
        assert(model_entries(es@) =~= base + gs);
    }
    if a.clear_state_program.len() != 0 {
        push_entry(es, tag4(97, 112, 115, 117), bytes_val(&a.clear_state_program));
    }
    proof {
        gs = gs + opt_entry(
            a.clear_state_program@.len() != 0,
            seq![97u8, 112, 115, 117],
            Val::Bytes(a.clear_state_program@),
        );
        assert(model_entries(es@) =~= base + gs);
        assert(gs == app_call_fields_c(*a));
    }
}

/// The canonical record fields of a variant's field set, in tag order,
/// defaults omitted.
pub open spec fn variant_fields(f: TxFields) -> Seq<(Seq<u8>, Val)> {
    match f {
        TxFields::Keyreg(k) => keyreg_fields(k),
        TxFields::Payment(p) => payment_fields(p),
        TxFields::AssetConfig(c) => asset_config_fields(c),
        TxFields::AssetTransfer(t) => asset_transfer_fields(t),
        TxFields::AssetFreeze(fr) => asset_freeze_fields(fr),
        TxFields::AppCall(a) => app_call_fields(a),
    }
}

/// The canonical record fields of a whole transaction: the header fields,
/// then the `type` discriminator, then the selected variant's fields.  The
/// order is fixed and reproducible, so semantically equal transactions
/// always encode byte-identically.
pub open spec fn transaction_fields(t: Transaction) -> Seq<(Seq<u8>, Val)> {
    header_fields(t.header) + seq![
        (seq![116u8, 121, 112, 101], Val::Bytes(tx_type_bytes(t.fields))),
    ] + variant_fields(t.fields)
}

/// The canonical byte encoding of a transaction.
pub open spec fn tx_bytes(t: Transaction) -> Seq<u8> {
    record_bytes(transaction_fields(t))
}

impl Transaction {
    /// The canonical record value of this transaction: header fields, the
    /// type discriminator, and the variant's fields, flattened into one
    /// record.
    pub fn to_value(&self) -> (r: Value)
        ensures
            r.model() == Val::Record(transaction_fields(*self)),
    {
        let mut es: Vec<(Vec<u8>, Value)> = Vec::new();
        proof {
            assert(model_entries(es@) =~= Seq::<(Seq<u8>, Val)>::empty());
        }
        push_header_a(&self.header, &mut es);
        push_header_b(&self.header, &mut es);
        push_header_c(&self.header, &mut es);
        let type_bytes = match &self.fields {
            TxFields::Keyreg(_) => tag6(107, 101, 121, 114, 101, 103),
            TxFields::Payment(_) => tag3(112, 97, 121),
            TxFields::AssetConfig(_) => tag4(97, 99, 102, 103),
            TxFields::AssetTransfer(_) => tag5(97, 120, 102, 101, 114),
            TxFields::AssetFreeze(_) => tag4(97, 102, 114, 122),
            TxFields::AppCall(_) => tag4(97, 112, 112, 108),
        };
        push_entry(&mut es, tag4(116, 121, 112, 101), Value::Bytes(type_bytes));
        proof {
            assert(model_entries(es@) =~= header_fields(self.header) + seq![
                (seq![116u8, 121, 112, 101], Val::Bytes(tx_type_bytes(self.fields))),
            ]);
        }
        match &self.fields {
            TxFields::Keyreg(k) => {
                push_keyreg_a(k, &mut es);
                push_keyreg_b(k, &mut es);
            }
            TxFields::Payment(p) => {
                push_payment(p, &mut es);
            }
            TxFields::AssetConfig(c) => {
                push_asset_config(c, &mut es);
            }
            TxFields::AssetTransfer(t) => {
                push_asset_transfer(t, &mut es);
            }
            TxFields::AssetFreeze(fr) => {
                push_asset_freeze(fr, &mut es);
            }
            TxFields::AppCall(a) => {
                push_app_call_a(a, &mut es);
                push_app_call_b(a, &mut es);
                push_app_call_c(a, &mut es);
            }
        }
        proof {
            assert(model_entries(es@) =~= transaction_fields(*self));
        }
        Value::Record(es)
    }

    /// The canonical byte encoding of this transaction.
    pub fn encode(&self) -> (r: Vec<u8>)
        ensures
            r@ == tx_bytes(*self),
    {
        let v = self.to_value();
        encode_to_vec(&v)
    }
}

#[verifier::loop_isolation(false)]
fn rec_get<'a>(es: &'a Vec<(Vec<u8>, Value)>, tag: &Vec<u8>) -> (r: Option<&'a Value>)
    ensures
        r matches Some(v) ==> lookup(model_entries(es@), tag@) == Some(v.model()),
        r is None ==> lookup(model_entries(es@), tag@) is None,
{
    proof {
        lemma_model_entries_props(es@);
    }
    let mut i: usize = 0;
    while i < es.len()
        invariant
            i <= es@.len(),
            forall|k: int| 0 <= k < i ==> model_entries(es@)[k].0 != tag@,
        decreases es@.len() - i,
    {
        if bytes_eq(&es[i].0, tag) {
            proof {
                lemma_lookup_skip(model_entries(es@), tag@, i as int);
                assert(model_entries(es@).skip(i as int)[0] == model_entries(es@)[i as int]);
            }
            return Some(&es[i].1);
        }
        i = i + 1;
    }
    proof {
        lemma_lookup_skip(model_entries(es@), tag@, es@.len() as int);
        assert(model_entries(es@).skip(es@.len() as int) =~= Seq::<(Seq<u8>, Val)>::empty());
    }
    None
}

fn get_u64(es: &Vec<(Vec<u8>, Value)>, tag: Vec<u8>) -> (r: u64)
    ensures
        forall|x: u64| lookup(model_entries(es@), tag@) == Some(Val::Uint(x)) ==> r == x,
        lookup(model_entries(es@), tag@) is None ==> r == 0,
{
    match rec_get(es, &tag) {
        Some(Value::Uint(x)) => *x,
        _ => 0,
    }
}

fn get_bool(es: &Vec<(Vec<u8>, Value)>, tag: Vec<u8>) -> (r: bool)
    ensures
        lookup(model_entries(es@), tag@) == Some(Val::Uint(1)) ==> r == true,
        lookup(model_entries(es@), tag@) is None ==> r == false,
{
    match rec_get(es, &tag) {
        Some(Value::Uint(x)) => *x == 1,
        _ => false,
    }
}

fn get_vec_u8(es: &Vec<(Vec<u8>, Value)>, tag: Vec<u8>) -> (r: Vec<u8>)
    ensures
        forall|bs: Seq<u8>| lookup(model_entries(es@), tag@) == Some(Val::Bytes(bs)) ==> r@ == bs,
        lookup(model_entries(es@), tag@) is None ==> r@ == Seq::<u8>::empty(),
{
    match rec_get(es, &tag) {
        Some(Value::Bytes(b)) => crate::schema::copy_bytes(b),
        _ => Vec::new(),
    }
}

#[verifier::loop_isolation(false)]
fn get_arr32(es: &Vec<(Vec<u8>, Value)>, tag: Vec<u8>) -> (r: [u8; 32])
    ensures
        forall|bs: Seq<u8>|
            lookup(model_entries(es@), tag@) == Some(Val::Bytes(bs)) && bs.len() == 32 ==> r@
                == bs,
        lookup(model_entries(es@), tag@) is None ==> r@ == zero_bytes(),
{
    let mut out = [0u8; 32];
    proof {
        assert(out@ =~= zero_bytes());
    }
    match rec_get(es, &tag) {
        Some(Value::Bytes(b)) => {
            if b.len() == 32 {
                let mut i: usize = 0;
                while i < 32
                    invariant
                        i <= 32,
                        b@.len() == 32,
                        forall|k: int| 0 <= k < i ==> out@[k] == b@[k],
                    decreases 32 - i,
                {
                    out[i] = b[i];
                    i = i + 1;
                }
                proof {
                    assert(out@ =~= b@);
                }
            }
        }
        _ => {}
    }
    out
}

fn get_addr(es: &Vec<(Vec<u8>, Value)>, tag: Vec<u8>) -> (r: Address)
    ensures
        forall|bs: Seq<u8>|
            lookup(model_entries(es@), tag@) == Some(Val::Bytes(bs)) && bs.len() == 32 ==> r.0@
                == bs,
        lookup(model_entries(es@), tag@) is None ==> r.0@ == zero_bytes(),
{
    Address(get_arr32(es, tag))
}

fn get_opt_addr(es: &Vec<(Vec<u8>, Value)>, tag: Vec<u8>) -> (r: Option<Address>)
    ensures
        forall|bs: Seq<u8>|
            lookup(model_entries(es@), tag@) == Some(Val::Bytes(bs)) && bs.len() == 32 ==> (
            r matches Some(a) && a.0@ == bs),
        lookup(model_entries(es@), tag@) is None ==> r is None,
{
    match rec_get(es, &tag) {
        Some(Value::Bytes(_)) => Some(Address(get_arr32(es, tag))),
        _ => None,
    }
}

fn get_string(es: &Vec<(Vec<u8>, Value)>, tag: Vec<u8>) -> (r: String)
    ensures
        forall|bs: Seq<u8>|
            lookup(model_entries(es@), tag@) == Some(Val::Bytes(bs))
                && vstd::utf8::valid_utf8(bs) ==> encode_utf8(r@) == bs,
        lookup(model_entries(es@), tag@) is None ==> r@ == Seq::<char>::empty(),
{
    broadcast use vstd::utf8::decode_utf8_encode_utf8;

    match rec_get(es, &tag) {
        Some(Value::Bytes(b)) => match bytes_to_string(crate::schema::copy_bytes(b)) {
            Some(s) => s,
            None => String::new(),
        },
        _ => String::new(),
    }
}

fn get_u64_list(es: &Vec<(Vec<u8>, Value)>, tag: Vec<u8>) -> Vec<u64> {
    let mut out: Vec<u64> = Vec::new();
    match rec_get(es, &tag) {
        Some(Value::List(vs)) => {
            let mut i: usize = 0;
            while i < vs.len()
                invariant
                    i <= vs@.len(),
                decreases vs@.len() - i,
            {
                match &vs[i] {
                    Value::Uint(x) => out.push(*x),
                    _ => out.push(0),
                }
                i = i + 1;
            }
        }
        _ => {}
    }
    out
}

fn get_bytes_list(es: &Vec<(Vec<u8>, Value)>, tag: Vec<u8>) -> Vec<Vec<u8>> {
    let mut out: Vec<Vec<u8>> = Vec::new();
    match rec_get(es, &tag) {
        Some(Value::List(vs)) => {
            let mut i: usize = 0;
            while i < vs.len()
                invariant
                    i <= vs@.len(),
                decreases vs@.len() - i,
            {
                match &vs[i] {
                    Value::Bytes(b) => out.push(crate::schema::copy_bytes(b)),
                    _ => out.push(Vec::new()),
                }
                i = i + 1;
            }
        }
        _ => {}
    }
    out
}

fn get_addr_list(es: &Vec<(Vec<u8>, Value)>, tag: Vec<u8>) -> Vec<Address> {
    let mut out: Vec<Address> = Vec::new();
    match rec_get(es, &tag) {
        Some(Value::List(vs)) => {
            let mut i: usize = 0;
            while i < vs.len()
                invariant
                    i <= vs@.len(),
                decreases vs@.len() - i,
            {
                match &vs[i] {
                    Value::Bytes(b) => {
                        let mut a = [0u8; 32];
                        if b.len() == 32 {
                            let mut j: usize = 0;
                            while j < 32
                                invariant
                                    j <= 32,
                                    b@.len() == 32,
                                decreases 32 - j,
                            {
                                a[j] = b[j];
                                j = j + 1;
                            }
                        }
                        out.push(Address(a));
                    }
                    _ => out.push(Address([0u8; 32])),
                }
                i = i + 1;
            }
        }
        _ => {}
    }
    out
}

fn get_schema(es: &Vec<(Vec<u8>, Value)>, tag: Vec<u8>) -> crate::applications::StateSchema {
    match rec_get(es, &tag) {
        Some(Value::Record(inner)) => crate::applications::StateSchema {
            num_uint: get_u64(inner, tag3(110, 117, 105)),
            num_byte_slice: get_u64(inner, tag3(110, 98, 115)),
        },
        _ => crate::applications::StateSchema { num_uint: 0, num_byte_slice: 0 },
    }
}

fn oc_of_num(x: u64) -> OnCompletion {
    if x == 1 {
        OnCompletion::OptInOC
    } else if x == 2 {
        OnCompletion::CloseOutOC
    } else if x == 3 {
        OnCompletion::ClearStateOC
    } else if x == 4 {
        OnCompletion::UpdateApplicationOC
    } else if x == 5 {
        OnCompletion::DeleteApplicationOC
    } else {
        OnCompletion::NoOpOC
    }
}

#[verifier::rlimit(100)]
proof fn lemma_payment_lookup_1(t: Transaction, p: PaymentFields)
    requires
        t.fields == TxFields::Payment(p),
    ensures
        lookup(transaction_fields(t), seq![102u8, 101, 101]) == opt_val(t.header.fee.0 != 0, Val::Uint(t.header.fee.0)),
        lookup(transaction_fields(t), seq![102u8, 118]) == opt_val(t.header.first_valid != 0, Val::Uint(t.header.first_valid)),
        lookup(transaction_fields(t), seq![103u8, 101, 110]) == opt_val(t.header.genesis_id@.len() != 0, Val::Bytes(encode_utf8(t.header.genesis_id@))),
        lookup(transaction_fields(t), seq![103u8, 104]) == opt_val(t.header.genesis_hash@ != zero_bytes(), Val::Bytes(t.header.genesis_hash@)),
{
    let fee_e = opt_entry(t.header.fee.0 != 0, seq![102u8, 101, 101], Val::Uint(t.header.fee.0));
    let fv_e = opt_entry(t.header.first_valid != 0, seq![102u8, 118], Val::Uint(t.header.first_valid));
    let gen_e = opt_entry(t.header.genesis_id@.len() != 0, seq![103u8, 101, 110], Val::Bytes(encode_utf8(t.header.genesis_id@)));
    let gh_e = opt_entry(t.header.genesis_hash@ != zero_bytes(), seq![103u8, 104], Val::Bytes(t.header.genesis_hash@));
    let grp_e = opt_entry(t.header.group@ != zero_bytes(), seq![103u8, 114, 112], Val::Bytes(t.header.group@));
    let lv_e = opt_entry(t.header.last_valid != 0, seq![108u8, 118], Val::Uint(t.header.last_valid));
    let lx_e = opt_entry(t.header.lease@ != zero_bytes(), seq![108u8, 120], Val::Bytes(t.header.lease@));
    let note_e = opt_entry(t.header.note@.len() != 0, seq![110u8, 111, 116, 101], Val::Bytes(t.header.note@));
    let rekey_e = opt_entry(t.header.rekey_to.0@ != zero_bytes(), seq![114u8, 101, 107, 101, 121], Val::Bytes(t.header.rekey_to.0@));
    let snd_e = opt_entry(t.header.sender.0@ != zero_bytes(), seq![115u8, 110, 100], Val::Bytes(t.header.sender.0@));
    let amt_e = opt_entry(p.amount.0 != 0, seq![97u8, 109, 116], Val::Uint(p.amount.0));
    let rcv_e = opt_entry(p.receiver.0@ != zero_bytes(), seq![114u8, 99, 118], Val::Bytes(p.receiver.0@));
    let ha = header_fields_a(t.header);
    let hb = header_fields_b(t.header);
    let hc = header_fields_c(t.header);
    let te = seq![(seq![116u8, 121, 112, 101], Val::Bytes(tx_type_bytes(t.fields)))];
    let pf = variant_fields(t.fields);
    let close_e = (match p.close_remainder_to {
        Some(a) => seq![(seq![99u8, 108, 111, 115, 101], Val::Bytes(a.0@))],
        None => Seq::<(Seq<u8>, Val)>::empty(),
    });
    assert(ha == fee_e + fv_e + gen_e);
    assert(hb == gh_e + grp_e + lv_e + lx_e);
    assert(hc == note_e + rekey_e + snd_e);
    assert(transaction_fields(t) == ha + hb + hc + te + pf);
    assert(pf == amt_e + close_e + rcv_e);
    assert(seq![102u8, 101, 101] != seq![102u8, 118]) by {
        assert(seq![102u8, 101, 101].len() == 3);
        assert(seq![102u8, 118].len() == 2);
    }
    assert(seq![102u8, 101, 101] != seq![103u8, 101, 110]) by {
        assert(seq![102u8, 101, 101][0] == 102);
        assert(seq![103u8, 101, 110][0] == 103);
    }
    assert(seq![102u8, 101, 101] != seq![103u8, 104]) by {
        assert(seq![102u8, 101, 101].len() == 3);
        assert(seq![103u8, 104].len() == 2);
    }
    assert(seq![102u8, 101, 101] != seq![103u8, 114, 112]) by {
        assert(seq![102u8, 101, 101][0] == 102);
        assert(seq![103u8, 114, 112][0] == 103);
    }
    assert(seq![102u8, 101, 101] != seq![108u8, 118]) by {
        assert(seq![102u8, 101, 101].len() == 3);
        assert(seq![108u8, 118].len() == 2);
    }
    assert(seq![102u8, 101, 101] != seq![108u8, 120]) by {
        assert(seq![102u8, 101, 101].len() == 3);
        assert(seq![108u8, 120].len() == 2);
    }
    assert(seq![102u8, 101, 101] != seq![110u8, 111, 116, 101]) by {
        assert(seq![102u8, 101, 101].len() == 3);
        assert(seq![110u8, 111, 116, 101].len() == 4);
    }
    assert(seq![102u8, 101, 101] != seq![114u8, 101, 107, 101, 121]) by {
        assert(seq![102u8, 101, 101].len() == 3);
        assert(seq![114u8, 101, 107, 101, 121].len() == 5);
    }
    assert(seq![102u8, 101, 101] != seq![115u8, 110, 100]) by {
        assert(seq![102u8, 101, 101][0] == 102);
        assert(seq![115u8, 110, 100][0] == 115);
    }
    assert(seq![102u8, 101, 101] != seq![116u8, 121, 112, 101]) by {
        assert(seq![102u8, 101, 101].len() == 3);
        assert(seq![116u8, 121, 112, 101].len() == 4);
    }
    assert(seq![102u8, 101, 101] != seq![97u8, 109, 116]) by {
        assert(seq![102u8, 101, 101][0] == 102);
        assert(seq![97u8, 109, 116][0] == 97);
    }
    assert(seq![102u8, 101, 101] != seq![99u8, 108, 111, 115, 101]) by {
        assert(seq![102u8, 101, 101].len() == 3);
        assert(seq![99u8, 108, 111, 115, 101].len() == 5);
    }
    assert(seq![102u8, 101, 101] != seq![114u8, 99, 118]) by {
        assert(seq![102u8, 101, 101][0] == 102);
        assert(seq![114u8, 99, 118][0] == 114);
    }
    assert(seq![102u8, 118] != seq![103u8, 101, 110]) by {
        assert(seq![102u8, 118].len() == 2);
        assert(seq![103u8, 101, 110].len() == 3);
    }
    assert(seq![102u8, 118] != seq![103u8, 104]) by {
        assert(seq![102u8, 118][0] == 102);
        assert(seq![103u8, 104][0] == 103);
    }
    assert(seq![102u8, 118] != seq![103u8, 114, 112]) by {
        assert(seq![102u8, 118].len() == 2);
        assert(seq![103u8, 114, 112].len() == 3);
    }
    assert(seq![102u8, 118] != seq![108u8, 118]) by {
        assert(seq![102u8, 118][0] == 102);
        assert(seq![108u8, 118][0] == 108);
    }
    assert(seq![102u8, 118] != seq![108u8, 120]) by {
        assert(seq![102u8, 118][0] == 102);
        assert(seq![108u8, 120][0] == 108);
    }
    assert(seq![102u8, 118] != seq![110u8, 111, 116, 101]) by {
        assert(seq![102u8, 118].len() == 2);
        assert(seq![110u8, 111, 116, 101].len() == 4);
    }
    assert(seq![102u8, 118] != seq![114u8, 101, 107, 101, 121]) by {
        assert(seq![102u8, 118].len() == 2);
        assert(seq![114u8, 101, 107, 101, 121].len() == 5);
    }
    assert(seq![102u8, 118] != seq![115u8, 110, 100]) by {
        assert(seq![102u8, 118].len() == 2);
        assert(seq![115u8, 110, 100].len() == 3);
    }
    assert(seq![102u8, 118] != seq![116u8, 121, 112, 101]) by {
        assert(seq![102u8, 118].len() == 2);
        assert(seq![116u8, 121, 112, 101].len() == 4);
    }
    assert(seq![102u8, 118] != seq![97u8, 109, 116]) by {
        assert(seq![102u8, 118].len() == 2);
        assert(seq![97u8, 109, 116].len() == 3);
    }
    assert(seq![102u8, 118] != seq![99u8, 108, 111, 115, 101]) by {
        assert(seq![102u8, 118].len() == 2);
        assert(seq![99u8, 108, 111, 115, 101].len() == 5);
    }
    assert(seq![102u8, 118] != seq![114u8, 99, 118]) by {
        assert(seq![102u8, 118].len() == 2);
        assert(seq![114u8, 99, 118].len() == 3);
    }
    assert(seq![103u8, 101, 110] != seq![103u8, 104]) by {
        assert(seq![103u8, 101, 110].len() == 3);
        assert(seq![103u8, 104].len() == 2);
    }
    assert(seq![103u8, 101, 110] != seq![103u8, 114, 112]) by {
        assert(seq![103u8, 101, 110][1] == 101);
        assert(seq![103u8, 114, 112][1] == 114);
    }
    assert(seq![103u8, 101, 110] != seq![108u8, 118]) by {
        assert(seq![103u8, 101, 110].len() == 3);
        assert(seq![108u8, 118].len() == 2);
    }
    assert(seq![103u8, 101, 110] != seq![108u8, 120]) by {
        assert(seq![103u8, 101, 110].len() == 3);
        assert(seq![108u8, 120].len() == 2);
    }
    assert(seq![103u8, 101, 110] != seq![110u8, 111, 116, 101]) by {
        assert(seq![103u8, 101, 110].len() == 3);
        assert(seq![110u8, 111, 116, 101].len() == 4);
    }
    assert(seq![103u8, 101, 110] != seq![114u8, 101, 107, 101, 121]) by {
        assert(seq![103u8, 101, 110].len() == 3);
        assert(seq![114u8, 101, 107, 101, 121].len() == 5);
    }
    assert(seq![103u8, 101, 110] != seq![115u8, 110, 100]) by {
        assert(seq![103u8, 101, 110][0] == 103);
        assert(seq![115u8, 110, 100][0] == 115);
    }
    assert(seq![103u8, 101, 110] != seq![116u8, 121, 112, 101]) by {
        assert(seq![103u8, 101, 110].len() == 3);
        assert(seq![116u8, 121, 112, 101].len() == 4);
    }
    assert(seq![103u8, 101, 110] != seq![97u8, 109, 116]) by {
        assert(seq![103u8, 101, 110][0] == 103);
        assert(seq![97u8, 109, 116][0] == 97);
    }
    assert(seq![103u8, 101, 110] != seq![99u8, 108, 111, 115, 101]) by {
        assert(seq![103u8, 101, 110].len() == 3);
        assert(seq![99u8, 108, 111, 115, 101].len() == 5);
    }
    assert(seq![103u8, 101, 110] != seq![114u8, 99, 118]) by {
        assert(seq![103u8, 101, 110][0] == 103);
        assert(seq![114u8, 99, 118][0] == 114);
    }
    assert(seq![103u8, 104] != seq![103u8, 114, 112]) by {
        assert(seq![103u8, 104].len() == 2);
        assert(seq![103u8, 114, 112].len() == 3);
    }
    assert(seq![103u8, 104] != seq![108u8, 118]) by {
        assert(seq![103u8, 104][0] == 103);
        assert(seq![108u8, 118][0] == 108);
    }
    assert(seq![103u8, 104] != seq![108u8, 120]) by {
        assert(seq![103u8, 104][0] == 103);
        assert(seq![108u8, 120][0] == 108);
    }
    assert(seq![103u8, 104] != seq![110u8, 111, 116, 101]) by {
        assert(seq![103u8, 104].len() == 2);
        assert(seq![110u8, 111, 116, 101].len() == 4);
    }
    assert(seq![103u8, 104] != seq![114u8, 101, 107, 101, 121]) by {
        assert(seq![103u8, 104].len() == 2);
        assert(seq![114u8, 101, 107, 101, 121].len() == 5);
    }
    assert(seq![103u8, 104] != seq![115u8, 110, 100]) by {
        assert(seq![103u8, 104].len() == 2);
        assert(seq![115u8, 110, 100].len() == 3);
    }
    assert(seq![103u8, 104] != seq![116u8, 121, 112, 101]) by {
        assert(seq![103u8, 104].len() == 2);
        assert(seq![116u8, 121, 112, 101].len() == 4);
    }
    assert(seq![103u8, 104] != seq![97u8, 109, 116]) by {
        assert(seq![103u8, 104].len() == 2);
        assert(seq![97u8, 109, 116].len() == 3);
    }
    assert(seq![103u8, 104] != seq![99u8, 108, 111, 115, 101]) by {
        assert(seq![103u8, 104].len() == 2);
        assert(seq![99u8, 108, 111, 115, 101].len() == 5);
    }
    assert(seq![103u8, 104] != seq![114u8, 99, 118]) by {
        assert(seq![103u8, 104].len() == 2);
        assert(seq![114u8, 99, 118].len() == 3);
    }

    lemma_lookup_append(ha + hb + hc + te, pf, seq![102u8, 101, 101]);
    lemma_lookup_append(ha + hb + hc, te, seq![102u8, 101, 101]);
    lemma_lookup_append(ha + hb, hc, seq![102u8, 101, 101]);
    lemma_lookup_append(ha, hb, seq![102u8, 101, 101]);
    lemma_lookup_append(fee_e + fv_e, gen_e, seq![102u8, 101, 101]);
    lemma_lookup_append(fee_e, fv_e, seq![102u8, 101, 101]);
    lemma_lookup_append(gh_e + grp_e + lv_e, lx_e, seq![102u8, 101, 101]);
    lemma_lookup_append(gh_e + grp_e, lv_e, seq![102u8, 101, 101]);
    lemma_lookup_append(gh_e, grp_e, seq![102u8, 101, 101]);
    lemma_lookup_append(note_e + rekey_e, snd_e, seq![102u8, 101, 101]);
    lemma_lookup_append(note_e, rekey_e, seq![102u8, 101, 101]);
    lemma_lookup_append(amt_e + close_e, rcv_e, seq![102u8, 101, 101]);
    lemma_lookup_append(amt_e, close_e, seq![102u8, 101, 101]);
    lemma_lookup_opt(t.header.fee.0 != 0, seq![102u8, 101, 101], Val::Uint(t.header.fee.0), seq![102u8, 101, 101]);
    lemma_lookup_opt(t.header.first_valid != 0, seq![102u8, 118], Val::Uint(t.header.first_valid), seq![102u8, 101, 101]);
    lemma_lookup_opt(t.header.genesis_id@.len() != 0, seq![103u8, 101, 110], Val::Bytes(encode_utf8(t.header.genesis_id@)), seq![102u8, 101, 101]);
    lemma_lookup_opt(t.header.genesis_hash@ != zero_bytes(), seq![103u8, 104], Val::Bytes(t.header.genesis_hash@), seq![102u8, 101, 101]);
    lemma_lookup_opt(t.header.group@ != zero_bytes(), seq![103u8, 114, 112], Val::Bytes(t.header.group@), seq![102u8, 101, 101]);
    lemma_lookup_opt(t.header.last_valid != 0, seq![108u8, 118], Val::Uint(t.header.last_valid), seq![102u8, 101, 101]);
    lemma_lookup_opt(t.header.lease@ != zero_bytes(), seq![108u8, 120], Val::Bytes(t.header.lease@), seq![102u8, 101, 101]);
    lemma_lookup_opt(t.header.note@.len() != 0, seq![110u8, 111, 116, 101], Val::Bytes(t.header.note@), seq![102u8, 101, 101]);
    lemma_lookup_opt(t.header.rekey_to.0@ != zero_bytes(), seq![114u8, 101, 107, 101, 121], Val::Bytes(t.header.rekey_to.0@), seq![102u8, 101, 101]);
    lemma_lookup_opt(t.header.sender.0@ != zero_bytes(), seq![115u8, 110, 100], Val::Bytes(t.header.sender.0@), seq![102u8, 101, 101]);
    lemma_lookup_opt(p.amount.0 != 0, seq![97u8, 109, 116], Val::Uint(p.amount.0), seq![102u8, 101, 101]);
    lemma_lookup_opt(p.receiver.0@ != zero_bytes(), seq![114u8, 99, 118], Val::Bytes(p.receiver.0@), seq![102u8, 101, 101]);
    assert(lookup(te, seq![102u8, 101, 101]) == (if seq![102u8, 101, 101] == seq![116u8, 121, 112, 101] {
        Some(Val::Bytes(tx_type_bytes(t.fields)))
    } else {
        None::<Val>
    })) by {
        assert(lookup(Seq::<(Seq<u8>, Val)>::empty(), seq![102u8, 101, 101]) is None);
        assert(te[0] == (seq![116u8, 121, 112, 101], Val::Bytes(tx_type_bytes(t.fields))));
        assert(te.drop_first() =~= Seq::<(Seq<u8>, Val)>::empty());
    }
    assert(lookup(close_e, seq![102u8, 101, 101]) == (match p.close_remainder_to {
        Some(a) => (if seq![102u8, 101, 101] == seq![99u8, 108, 111, 115, 101] {
            Some::<Val>(Val::Bytes(a.0@))
        } else {
            None::<Val>
        }),
        None => None::<Val>,
    })) by {
        assert(lookup(Seq::<(Seq<u8>, Val)>::empty(), seq![102u8, 101, 101]) is None);
        match p.close_remainder_to {
            Some(a) => {
                assert(close_e == seq![(seq![99u8, 108, 111, 115, 101], Val::Bytes(a.0@))]);
                assert(close_e[0] == (seq![99u8, 108, 111, 115, 101], Val::Bytes(a.0@)));
                assert(close_e.drop_first() =~= Seq::<(Seq<u8>, Val)>::empty());
            }
            None => {
            }
        }
    }
    lemma_lookup_append(ha + hb + hc + te, pf, seq![102u8, 118]);
    lemma_lookup_append(ha + hb + hc, te, seq![102u8, 118]);
    lemma_lookup_append(ha + hb, hc, seq![102u8, 118]);
    lemma_lookup_append(ha, hb, seq![102u8, 118]);
    lemma_lookup_append(fee_e + fv_e, gen_e, seq![102u8, 118]);
    lemma_lookup_append(fee_e, fv_e, seq![102u8, 118]);
    lemma_lookup_append(gh_e + grp_e + lv_e, lx_e, seq![102u8, 118]);
    lemma_lookup_append(gh_e + grp_e, lv_e, seq![102u8, 118]);
    lemma_lookup_append(gh_e, grp_e, seq![102u8, 118]);
    lemma_lookup_append(note_e + rekey_e, snd_e, seq![102u8, 118]);
    lemma_lookup_append(note_e, rekey_e, seq![102u8, 118]);
    lemma_lookup_append(amt_e + close_e, rcv_e, seq![102u8, 118]);
    lemma_lookup_append(amt_e, close_e, seq![102u8, 118]);
    lemma_lookup_opt(t.header.fee.0 != 0, seq![102u8, 101, 101], Val::Uint(t.header.fee.0), seq![102u8, 118]);
    lemma_lookup_opt(t.header.first_valid != 0, seq![102u8, 118], Val::Uint(t.header.first_valid), seq![102u8, 118]);
    lemma_lookup_opt(t.header.genesis_id@.len() != 0, seq![103u8, 101, 110], Val::Bytes(encode_utf8(t.header.genesis_id@)), seq![102u8, 118]);
    lemma_lookup_opt(t.header.genesis_hash@ != zero_bytes(), seq![103u8, 104], Val::Bytes(t.header.genesis_hash@), seq![102u8, 118]);
    lemma_lookup_opt(t.header.group@ != zero_bytes(), seq![103u8, 114, 112], Val::Bytes(t.header.group@), seq![102u8, 118]);
    lemma_lookup_opt(t.header.last_valid != 0, seq![108u8, 118], Val::Uint(t.header.last_valid), seq![102u8, 118]);
    lemma_lookup_opt(t.header.lease@ != zero_bytes(), seq![108u8, 120], Val::Bytes(t.header.lease@), seq![102u8, 118]);
    lemma_lookup_opt(t.header.note@.len() != 0, seq![110u8, 111, 116, 101], Val::Bytes(t.header.note@), seq![102u8, 118]);
    lemma_lookup_opt(t.header.rekey_to.0@ != zero_bytes(), seq![114u8, 101, 107, 101, 121], Val::Bytes(t.header.rekey_to.0@), seq![102u8, 118]);
    lemma_lookup_opt(t.header.sender.0@ != zero_bytes(), seq![115u8, 110, 100], Val::Bytes(t.header.sender.0@), seq![102u8, 118]);
    lemma_lookup_opt(p.amount.0 != 0, seq![97u8, 109, 116], Val::Uint(p.amount.0), seq![102u8, 118]);
    lemma_lookup_opt(p.receiver.0@ != zero_bytes(), seq![114u8, 99, 118], Val::Bytes(p.receiver.0@), seq![102u8, 118]);
    assert(lookup(te, seq![102u8, 118]) == (if seq![102u8, 118] == seq![116u8, 121, 112, 101] {
        Some(Val::Bytes(tx_type_bytes(t.fields)))
    } else {
        None::<Val>
    })) by {
        assert(lookup(Seq::<(Seq<u8>, Val)>::empty(), seq![102u8, 118]) is None);
        assert(te[0] == (seq![116u8, 121, 112, 101], Val::Bytes(tx_type_bytes(t.fields))));
        assert(te.drop_first() =~= Seq::<(Seq<u8>, Val)>::empty());
    }
    assert(lookup(close_e, seq![102u8, 118]) == (match p.close_remainder_to {
        Some(a) => (if seq![102u8, 118] == seq![99u8, 108, 111, 115, 101] {
            Some::<Val>(Val::Bytes(a.0@))
        } else {
            None::<Val>
        }),
        None => None::<Val>,
    })) by {
        assert(lookup(Seq::<(Seq<u8>, Val)>::empty(), seq![102u8, 118]) is None);
        match p.close_remainder_to {
            Some(a) => {
                assert(close_e == seq![(seq![99u8, 108, 111, 115, 101], Val::Bytes(a.0@))]);
                assert(close_e[0] == (seq![99u8, 108, 111, 115, 101], Val::Bytes(a.0@)));
                assert(close_e.drop_first() =~= Seq::<(Seq<u8>, Val)>::empty());
            }
            None => {
            }
        }
    }
    lemma_lookup_append(ha + hb + hc + te, pf, seq![103u8, 101, 110]);
    lemma_lookup_append(ha + hb + hc, te, seq![103u8, 101, 110]);
    lemma_lookup_append(ha + hb, hc, seq![103u8, 101, 110]);
    lemma_lookup_append(ha, hb, seq![103u8, 101, 110]);
    lemma_lookup_append(fee_e + fv_e, gen_e, seq![103u8, 101, 110]);
    lemma_lookup_append(fee_e, fv_e, seq![103u8, 101, 110]);
    lemma_lookup_append(gh_e + grp_e + lv_e, lx_e, seq![103u8, 101, 110]);
    lemma_lookup_append(gh_e + grp_e, lv_e, seq![103u8, 101, 110]);
    lemma_lookup_append(gh_e, grp_e, seq![103u8, 101, 110]);
    lemma_lookup_append(note_e + rekey_e, snd_e, seq![103u8, 101, 110]);
    lemma_lookup_append(note_e, rekey_e, seq![103u8, 101, 110]);
    lemma_lookup_append(amt_e + close_e, rcv_e, seq![103u8, 101, 110]);
    lemma_lookup_append(amt_e, close_e, seq![103u8, 101, 110]);
    lemma_lookup_opt(t.header.fee.0 != 0, seq![102u8, 101, 101], Val::Uint(t.header.fee.0), seq![103u8, 101, 110]);
    lemma_lookup_opt(t.header.first_valid != 0, seq![102u8, 118], Val::Uint(t.header.first_valid), seq![103u8, 101, 110]);
    lemma_lookup_opt(t.header.genesis_id@.len() != 0, seq![103u8, 101, 110], Val::Bytes(encode_utf8(t.header.genesis_id@)), seq![103u8, 101, 110]);
    lemma_lookup_opt(t.header.genesis_hash@ != zero_bytes(), seq![103u8, 104], Val::Bytes(t.header.genesis_hash@), seq![103u8, 101, 110]);
    lemma_lookup_opt(t.header.group@ != zero_bytes(), seq![103u8, 114, 112], Val::Bytes(t.header.group@), seq![103u8, 101, 110]);
    lemma_lookup_opt(t.header.last_valid != 0, seq![108u8, 118], Val::Uint(t.header.last_valid), seq![103u8, 101, 110]);
    lemma_lookup_opt(t.header.lease@ != zero_bytes(), seq![108u8, 120], Val::Bytes(t.header.lease@), seq![103u8, 101, 110]);
    lemma_lookup_opt(t.header.note@.len() != 0, seq![110u8, 111, 116, 101], Val::Bytes(t.header.note@), seq![103u8, 101, 110]);
    lemma_lookup_opt(t.header.rekey_to.0@ != zero_bytes(), seq![114u8, 101, 107, 101, 121], Val::Bytes(t.header.rekey_to.0@), seq![103u8, 101, 110]);
    lemma_lookup_opt(t.header.sender.0@ != zero_bytes(), seq![115u8, 110, 100], Val::Bytes(t.header.sender.0@), seq![103u8, 101, 110]);
    lemma_lookup_opt(p.amount.0 != 0, seq![97u8, 109, 116], Val::Uint(p.amount.0), seq![103u8, 101, 110]);
    lemma_lookup_opt(p.receiver.0@ != zero_bytes(), seq![114u8, 99, 118], Val::Bytes(p.receiver.0@), seq![103u8, 101, 110]);
    assert(lookup(te, seq![103u8, 101, 110]) == (if seq![103u8, 101, 110] == seq![116u8, 121, 112, 101] {
        Some(Val::Bytes(tx_type_bytes(t.fields)))
    } else {
        None::<Val>
    })) by {
        assert(lookup(Seq::<(Seq<u8>, Val)>::empty(), seq![103u8, 101, 110]) is None);
        assert(te[0] == (seq![116u8, 121, 112, 101], Val::Bytes(tx_type_bytes(t.fields))));
        assert(te.drop_first() =~= Seq::<(Seq<u8>, Val)>::empty());
    }
    assert(lookup(close_e, seq![103u8, 101, 110]) == (match p.close_remainder_to {
        Some(a) => (if seq![103u8, 101, 110] == seq![99u8, 108, 111, 115, 101] {
            Some::<Val>(Val::Bytes(a.0@))
        } else {
            None::<Val>
        }),
        None => None::<Val>,
    })) by {
        assert(lookup(Seq::<(Seq<u8>, Val)>::empty(), seq![103u8, 101, 110]) is None);
        match p.close_remainder_to {
            Some(a) => {
                assert(close_e == seq![(seq![99u8, 108, 111, 115, 101], Val::Bytes(a.0@))]);
                assert(close_e[0] == (seq![99u8, 108, 111, 115, 101], Val::Bytes(a.0@)));
                assert(close_e.drop_first() =~= Seq::<(Seq<u8>, Val)>::empty());
            }
            None => {
            }
        }
    }
    lemma_lookup_append(ha + hb + hc + te, pf, seq![103u8, 104]);
    lemma_lookup_append(ha + hb + hc, te, seq![103u8, 104]);
    lemma_lookup_append(ha + hb, hc, seq![103u8, 104]);
    lemma_lookup_append(ha, hb, seq![103u8, 104]);
    lemma_lookup_append(fee_e + fv_e, gen_e, seq![103u8, 104]);
    lemma_lookup_append(fee_e, fv_e, seq![103u8, 104]);
    lemma_lookup_append(gh_e + grp_e + lv_e, lx_e, seq![103u8, 104]);
    lemma_lookup_append(gh_e + grp_e, lv_e, seq![103u8, 104]);
    lemma_lookup_append(gh_e, grp_e, seq![103u8, 104]);
    lemma_lookup_append(note_e + rekey_e, snd_e, seq![103u8, 104]);
    lemma_lookup_append(note_e, rekey_e, seq![103u8, 104]);
    lemma_lookup_append(amt_e + close_e, rcv_e, seq![103u8, 104]);
    lemma_lookup_append(amt_e, close_e, seq![103u8, 104]);
    lemma_lookup_opt(t.header.fee.0 != 0, seq![102u8, 101, 101], Val::Uint(t.header.fee.0), seq![103u8, 104]);
    lemma_lookup_opt(t.header.first_valid != 0, seq![102u8, 118], Val::Uint(t.header.first_valid), seq![103u8, 104]);
    lemma_lookup_opt(t.header.genesis_id@.len() != 0, seq![103u8, 101, 110], Val::Bytes(encode_utf8(t.header.genesis_id@)), seq![103u8, 104]);
    lemma_lookup_opt(t.header.genesis_hash@ != zero_bytes(), seq![103u8, 104], Val::Bytes(t.header.genesis_hash@), seq![103u8, 104]);
    lemma_lookup_opt(t.header.group@ != zero_bytes(), seq![103u8, 114, 112], Val::Bytes(t.header.group@), seq![103u8, 104]);
    lemma_lookup_opt(t.header.last_valid != 0, seq![108u8, 118], Val::Uint(t.header.last_valid), seq![103u8, 104]);
    lemma_lookup_opt(t.header.lease@ != zero_bytes(), seq![108u8, 120], Val::Bytes(t.header.lease@), seq![103u8, 104]);
    lemma_lookup_opt(t.header.note@.len() != 0, seq![110u8, 111, 116, 101], Val::Bytes(t.header.note@), seq![103u8, 104]);
    lemma_lookup_opt(t.header.rekey_to.0@ != zero_bytes(), seq![114u8, 101, 107, 101, 121], Val::Bytes(t.header.rekey_to.0@), seq![103u8, 104]);
    lemma_lookup_opt(t.header.sender.0@ != zero_bytes(), seq![115u8, 110, 100], Val::Bytes(t.header.sender.0@), seq![103u8, 104]);
    lemma_lookup_opt(p.amount.0 != 0, seq![97u8, 109, 116], Val::Uint(p.amount.0), seq![103u8, 104]);
    lemma_lookup_opt(p.receiver.0@ != zero_bytes(), seq![114u8, 99, 118], Val::Bytes(p.receiver.0@), seq![103u8, 104]);
    assert(lookup(te, seq![103u8, 104]) == (if seq![103u8, 104] == seq![116u8, 121, 112, 101] {
        Some(Val::Bytes(tx_type_bytes(t.fields)))
    } else {
        None::<Val>
    })) by {
        assert(lookup(Seq::<(Seq<u8>, Val)>::empty(), seq![103u8, 104]) is None);
        assert(te[0] == (seq![116u8, 121, 112, 101], Val::Bytes(tx_type_bytes(t.fields))));
        assert(te.drop_first() =~= Seq::<(Seq<u8>, Val)>::empty());
    }
    assert(lookup(close_e, seq![103u8, 104]) == (match p.close_remainder_to {
        Some(a) => (if seq![103u8, 104] == seq![99u8, 108, 111, 115, 101] {
            Some::<Val>(Val::Bytes(a.0@))
        } else {
            None::<Val>
        }),
        None => None::<Val>,
    })) by {
        assert(lookup(Seq::<(Seq<u8>, Val)>::empty(), seq![103u8, 104]) is None);
        match p.close_remainder_to {
            Some(a) => {
                assert(close_e == seq![(seq![99u8, 108, 111, 115, 101], Val::Bytes(a.0@))]);
                assert(close_e[0] == (seq![99u8, 108, 111, 115, 101], Val::Bytes(a.0@)));
                assert(close_e.drop_first() =~= Seq::<(Seq<u8>, Val)>::empty());
            }
            None => {
            }
        }
    }
}

#[verifier::rlimit(100)]
proof fn lemma_payment_lookup_2a(t: Transaction, p: PaymentFields)
    requires
        t.fields == TxFields::Payment(p),
    ensures
        lookup(transaction_fields(t), seq![103u8, 114, 112]) == opt_val(t.header.group@ != zero_bytes(), Val::Bytes(t.header.group@)),
        lookup(transaction_fields(t), seq![108u8, 118]) == opt_val(t.header.last_valid != 0, Val::Uint(t.header.last_valid)),
{
    let fee_e = opt_entry(t.header.fee.0 != 0, seq![102u8, 101, 101], Val::Uint(t.header.fee.0));
    let fv_e = opt_entry(t.header.first_valid != 0, seq![102u8, 118], Val::Uint(t.header.first_valid));
    let gen_e = opt_entry(t.header.genesis_id@.len() != 0, seq![103u8, 101, 110], Val::Bytes(encode_utf8(t.header.genesis_id@)));
    let gh_e = opt_entry(t.header.genesis_hash@ != zero_bytes(), seq![103u8, 104], Val::Bytes(t.header.genesis_hash@));
    let grp_e = opt_entry(t.header.group@ != zero_bytes(), seq![103u8, 114, 112], Val::Bytes(t.header.group@));
    let lv_e = opt_entry(t.header.last_valid != 0, seq![108u8, 118], Val::Uint(t.header.last_valid));
    let lx_e = opt_entry(t.header.lease@ != zero_bytes(), seq![108u8, 120], Val::Bytes(t.header.lease@));
    let note_e = opt_entry(t.header.note@.len() != 0, seq![110u8, 111, 116, 101], Val::Bytes(t.header.note@));
    let rekey_e = opt_entry(t.header.rekey_to.0@ != zero_bytes(), seq![114u8, 101, 107, 101, 121], Val::Bytes(t.header.rekey_to.0@));
    let snd_e = opt_entry(t.header.sender.0@ != zero_bytes(), seq![115u8, 110, 100], Val::Bytes(t.header.sender.0@));
    let amt_e = opt_entry(p.amount.0 != 0, seq![97u8, 109, 116], Val::Uint(p.amount.0));
    let rcv_e = opt_entry(p.receiver.0@ != zero_bytes(), seq![114u8, 99, 118], Val::Bytes(p.receiver.0@));
    let ha = header_fields_a(t.header);
    let hb = header_fields_b(t.header);
    let hc = header_fields_c(t.header);
    let te = seq![(seq![116u8, 121, 112, 101], Val::Bytes(tx_type_bytes(t.fields)))];
    let pf = variant_fields(t.fields);
    let close_e = (match p.close_remainder_to {
        Some(a) => seq![(seq![99u8, 108, 111, 115, 101], Val::Bytes(a.0@))],
        None => Seq::<(Seq<u8>, Val)>::empty(),
    });
    assert(ha == fee_e + fv_e + gen_e);
    assert(hb == gh_e + grp_e + lv_e + lx_e);
    assert(hc == note_e + rekey_e + snd_e);
    assert(transaction_fields(t) == ha + hb + hc + te + pf);
    assert(pf == amt_e + close_e + rcv_e);
    assert(seq![103u8, 114, 112] != seq![102u8, 101, 101]) by {
        assert(seq![103u8, 114, 112][0] == 103);
        assert(seq![102u8, 101, 101][0] == 102);
    }
    assert(seq![103u8, 114, 112] != seq![102u8, 118]) by {
        assert(seq![103u8, 114, 112].len() == 3);
        assert(seq![102u8, 118].len() == 2);
    }
    assert(seq![103u8, 114, 112] != seq![103u8, 101, 110]) by {
        assert(seq![103u8, 114, 112][1] == 114);
        assert(seq![103u8, 101, 110][1] == 101);
    }
    assert(seq![103u8, 114, 112] != seq![103u8, 104]) by {
        assert(seq![103u8, 114, 112].len() == 3);
        assert(seq![103u8, 104].len() == 2);
    }
    assert(seq![103u8, 114, 112] != seq![108u8, 118]) by {
        assert(seq![103u8, 114, 112].len() == 3);
        assert(seq![108u8, 118].len() == 2);
    }
    assert(seq![103u8, 114, 112] != seq![108u8, 120]) by {
        assert(seq![103u8, 114, 112].len() == 3);
        assert(seq![108u8, 120].len() == 2);
    }
    assert(seq![103u8, 114, 112] != seq![110u8, 111, 116, 101]) by {
        assert(seq![103u8, 114, 112].len() == 3);
        assert(seq![110u8, 111, 116, 101].len() == 4);
    }
    assert(seq![103u8, 114, 112] != seq![114u8, 101, 107, 101, 121]) by {
        assert(seq![103u8, 114, 112].len() == 3);
        assert(seq![114u8, 101, 107, 101, 121].len() == 5);
    }
    assert(seq![103u8, 114, 112] != seq![115u8, 110, 100]) by {
        assert(seq![103u8, 114, 112][0] == 103);
        assert(seq![115u8, 110, 100][0] == 115);
    }
    assert(seq![103u8, 114, 112] != seq![116u8, 121, 112, 101]) by {
        assert(seq![103u8, 114, 112].len() == 3);
        assert(seq![116u8, 121, 112, 101].len() == 4);
    }
    assert(seq![103u8, 114, 112] != seq![97u8, 109, 116]) by {
        assert(seq![103u8, 114, 112][0] == 103);
        assert(seq![97u8, 109, 116][0] == 97);
    }
    assert(seq![103u8, 114, 112] != seq![99u8, 108, 111, 115, 101]) by {
        assert(seq![103u8, 114, 112].len() == 3);
        assert(seq![99u8, 108, 111, 115, 101].len() == 5);
    }
    assert(seq![103u8, 114, 112] != seq![114u8, 99, 118]) by {
        assert(seq![103u8, 114, 112][0] == 103);
        assert(seq![114u8, 99, 118][0] == 114);
    }
    assert(seq![108u8, 118] != seq![102u8, 101, 101]) by {
        assert(seq![108u8, 118].len() == 2);
        assert(seq![102u8, 101, 101].len() == 3);
    }
    assert(seq![108u8, 118] != seq![102u8, 118]) by {
        assert(seq![108u8, 118][0] == 108);
        assert(seq![102u8, 118][0] == 102);
    }
    assert(seq![108u8, 118] != seq![103u8, 101, 110]) by {
        assert(seq![108u8, 118].len() == 2);
        assert(seq![103u8, 101, 110].len() == 3);
    }
    assert(seq![108u8, 118] != seq![103u8, 104]) by {
        assert(seq![108u8, 118][0] == 108);
        assert(seq![103u8, 104][0] == 103);
    }
    assert(seq![108u8, 118] != seq![108u8, 120]) by {
        assert(seq![108u8, 118][1] == 118);
        assert(seq![108u8, 120][1] == 120);
    }
    assert(seq![108u8, 118] != seq![110u8, 111, 116, 101]) by {
        assert(seq![108u8, 118].len() == 2);
        assert(seq![110u8, 111, 116, 101].len() == 4);
    }
    assert(seq![108u8, 118] != seq![114u8, 101, 107, 101, 121]) by {
        assert(seq![108u8, 118].len() == 2);
        assert(seq![114u8, 101, 107, 101, 121].len() == 5);
    }
    assert(seq![108u8, 118] != seq![115u8, 110, 100]) by {
        assert(seq![108u8, 118].len() == 2);
        assert(seq![115u8, 110, 100].len() == 3);
    }
    assert(seq![108u8, 118] != seq![116u8, 121, 112, 101]) by {
        assert(seq![108u8, 118].len() == 2);
        assert(seq![116u8, 121, 112, 101].len() == 4);
    }
    assert(seq![108u8, 118] != seq![97u8, 109, 116]) by {
        assert(seq![108u8, 118].len() == 2);
        assert(seq![97u8, 109, 116].len() == 3);
    }
    assert(seq![108u8, 118] != seq![99u8, 108, 111, 115, 101]) by {
        assert(seq![108u8, 118].len() == 2);
        assert(seq![99u8, 108, 111, 115, 101].len() == 5);
    }
    assert(seq![108u8, 118] != seq![114u8, 99, 118]) by {
        assert(seq![108u8, 118].len() == 2);
        assert(seq![114u8, 99, 118].len() == 3);
    }
    assert(seq![108u8, 120] != seq![102u8, 101, 101]) by {
        assert(seq![108u8, 120].len() == 2);
        assert(seq![102u8, 101, 101].len() == 3);
    }
    assert(seq![108u8, 120] != seq![102u8, 118]) by {
        assert(seq![108u8, 120][0] == 108);
        assert(seq![102u8, 118][0] == 102);
    }
    assert(seq![108u8, 120] != seq![103u8, 101, 110]) by {
        assert(seq![108u8, 120].len() == 2);
        assert(seq![103u8, 101, 110].len() == 3);
    }
    assert(seq![108u8, 120] != seq![103u8, 104]) by {
        assert(seq![108u8, 120][0] == 108);
        assert(seq![103u8, 104][0] == 103);
    }
    assert(seq![108u8, 120] != seq![110u8, 111, 116, 101]) by {
        assert(seq![108u8, 120].len() == 2);
        assert(seq![110u8, 111, 116, 101].len() == 4);
    }
    assert(seq![108u8, 120] != seq![114u8, 101, 107, 101, 121]) by {
        assert(seq![108u8, 120].len() == 2);
        assert(seq![114u8, 101, 107, 101, 121].len() == 5);
    }
    assert(seq![108u8, 120] != seq![115u8, 110, 100]) by {
        assert(seq![108u8, 120].len() == 2);
        assert(seq![115u8, 110, 100].len() == 3);
    }
    assert(seq![108u8, 120] != seq![116u8, 121, 112, 101]) by {
        assert(seq![108u8, 120].len() == 2);
        assert(seq![116u8, 121, 112, 101].len() == 4);
    }
    assert(seq![108u8, 120] != seq![97u8, 109, 116]) by {
        assert(seq![108u8, 120].len() == 2);
        assert(seq![97u8, 109, 116].len() == 3);
    }
    assert(seq![108u8, 120] != seq![99u8, 108, 111, 115, 101]) by {
        assert(seq![108u8, 120].len() == 2);
        assert(seq![99u8, 108, 111, 115, 101].len() == 5);
    }
    assert(seq![108u8, 120] != seq![114u8, 99, 118]) by {
        assert(seq![108u8, 120].len() == 2);
        assert(seq![114u8, 99, 118].len() == 3);
    }
    assert(seq![110u8, 111, 116, 101] != seq![102u8, 101, 101]) by {
        assert(seq![110u8, 111, 116, 101].len() == 4);
        assert(seq![102u8, 101, 101].len() == 3);
    }
    assert(seq![110u8, 111, 116, 101] != seq![102u8, 118]) by {
        assert(seq![110u8, 111, 116, 101].len() == 4);
        assert(seq![102u8, 118].len() == 2);
    }
    assert(seq![110u8, 111, 116, 101] != seq![103u8, 101, 110]) by {
        assert(seq![110u8, 111, 116, 101].len() == 4);
        assert(seq![103u8, 101, 110].len() == 3);
    }
    assert(seq![110u8, 111, 116, 101] != seq![103u8, 104]) by {
        assert(seq![110u8, 111, 116, 101].len() == 4);
        assert(seq![103u8, 104].len() == 2);
    }
    assert(seq![110u8, 111, 116, 101] != seq![114u8, 101, 107, 101, 121]) by {
        assert(seq![110u8, 111, 116, 101].len() == 4);
        assert(seq![114u8, 101, 107, 101, 121].len() == 5);
    }
    assert(seq![110u8, 111, 116, 101] != seq![115u8, 110, 100]) by {
        assert(seq![110u8, 111, 116, 101].len() == 4);
        assert(seq![115u8, 110, 100].len() == 3);
    }
    assert(seq![110u8, 111, 116, 101] != seq![116u8, 121, 112, 101]) by {
        assert(seq![110u8, 111, 116, 101][0] == 110);
        assert(seq![116u8, 121, 112, 101][0] == 116);
    }
    assert(seq![110u8, 111, 116, 101] != seq![97u8, 109, 116]) by {
        assert(seq![110u8, 111, 116, 101].len() == 4);
        assert(seq![97u8, 109, 116].len() == 3);
    }
    assert(seq![110u8, 111, 116, 101] != seq![99u8, 108, 111, 115, 101]) by {
        assert(seq![110u8, 111, 116, 101].len() == 4);
        assert(seq![99u8, 108, 111, 115, 101].len() == 5);
    }
    assert(seq![110u8, 111, 116, 101] != seq![114u8, 99, 118]) by {
        assert(seq![110u8, 111, 116, 101].len() == 4);
        assert(seq![114u8, 99, 118].len() == 3);
    }

    lemma_lookup_append(ha + hb + hc + te, pf, seq![103u8, 114, 112]);
    lemma_lookup_append(ha + hb + hc, te, seq![103u8, 114, 112]);
    lemma_lookup_append(ha + hb, hc, seq![103u8, 114, 112]);
    lemma_lookup_append(ha, hb, seq![103u8, 114, 112]);
    lemma_lookup_append(fee_e + fv_e, gen_e, seq![103u8, 114, 112]);
    lemma_lookup_append(fee_e, fv_e, seq![103u8, 114, 112]);
    lemma_lookup_append(gh_e + grp_e + lv_e, lx_e, seq![103u8, 114, 112]);
    lemma_lookup_append(gh_e + grp_e, lv_e, seq![103u8, 114, 112]);
    lemma_lookup_append(gh_e, grp_e, seq![103u8, 114, 112]);
    lemma_lookup_append(note_e + rekey_e, snd_e, seq![103u8, 114, 112]);
    lemma_lookup_append(note_e, rekey_e, seq![103u8, 114, 112]);
    lemma_lookup_append(amt_e + close_e, rcv_e, seq![103u8, 114, 112]);
    lemma_lookup_append(amt_e, close_e, seq![103u8, 114, 112]);
    lemma_lookup_opt(t.header.fee.0 != 0, seq![102u8, 101, 101], Val::Uint(t.header.fee.0), seq![103u8, 114, 112]);
    lemma_lookup_opt(t.header.first_valid != 0, seq![102u8, 118], Val::Uint(t.header.first_valid), seq![103u8, 114, 112]);
    lemma_lookup_opt(t.header.genesis_id@.len() != 0, seq![103u8, 101, 110], Val::Bytes(encode_utf8(t.header.genesis_id@)), seq![103u8, 114, 112]);
    lemma_lookup_opt(t.header.genesis_hash@ != zero_bytes(), seq![103u8, 104], Val::Bytes(t.header.genesis_hash@), seq![103u8, 114, 112]);
    lemma_lookup_opt(t.header.group@ != zero_bytes(), seq![103u8, 114, 112], Val::Bytes(t.header.group@), seq![103u8, 114, 112]);
    lemma_lookup_opt(t.header.last_valid != 0, seq![108u8, 118], Val::Uint(t.header.last_valid), seq![103u8, 114, 112]);
    lemma_lookup_opt(t.header.lease@ != zero_bytes(), seq![108u8, 120], Val::Bytes(t.header.lease@), seq![103u8, 114, 112]);
    lemma_lookup_opt(t.header.note@.len() != 0, seq![110u8, 111, 116, 101], Val::Bytes(t.header.note@), seq![103u8, 114, 112]);
    lemma_lookup_opt(t.header.rekey_to.0@ != zero_bytes(), seq![114u8, 101, 107, 101, 121], Val::Bytes(t.header.rekey_to.0@), seq![103u8, 114, 112]);
    lemma_lookup_opt(t.header.sender.0@ != zero_bytes(), seq![115u8, 110, 100], Val::Bytes(t.header.sender.0@), seq![103u8, 114, 112]);
    lemma_lookup_opt(p.amount.0 != 0, seq![97u8, 109, 116], Val::Uint(p.amount.0), seq![103u8, 114, 112]);
    lemma_lookup_opt(p.receiver.0@ != zero_bytes(), seq![114u8, 99, 118], Val::Bytes(p.receiver.0@), seq![103u8, 114, 112]);
    assert(lookup(te, seq![103u8, 114, 112]) == (if seq![103u8, 114, 112] == seq![116u8, 121, 112, 101] {
        Some(Val::Bytes(tx_type_bytes(t.fields)))
    } else {
        None::<Val>
    })) by {
        assert(lookup(Seq::<(Seq<u8>, Val)>::empty(), seq![103u8, 114, 112]) is None);
        assert(te[0] == (seq![116u8, 121, 112, 101], Val::Bytes(tx_type_bytes(t.fields))));
        assert(te.drop_first() =~= Seq::<(Seq<u8>, Val)>::empty());
    }
    assert(lookup(close_e, seq![103u8, 114, 112]) == (match p.close_remainder_to {
        Some(a) => (if seq![103u8, 114, 112] == seq![99u8, 108, 111, 115, 101] {
            Some::<Val>(Val::Bytes(a.0@))
        } else {
            None::<Val>
        }),
        None => None::<Val>,
    })) by {
        assert(lookup(Seq::<(Seq<u8>, Val)>::empty(), seq![103u8, 114, 112]) is None);
        match p.close_remainder_to {
            Some(a) => {
                assert(close_e == seq![(seq![99u8, 108, 111, 115, 101], Val::Bytes(a.0@))]);
                assert(close_e[0] == (seq![99u8, 108, 111, 115, 101], Val::Bytes(a.0@)));
                assert(close_e.drop_first() =~= Seq::<(Seq<u8>, Val)>::empty());
            }
            None => {
            }
        }
    }
    lemma_lookup_append(ha + hb + hc + te, pf, seq![108u8, 118]);
    lemma_lookup_append(ha + hb + hc, te, seq![108u8, 118]);
    lemma_lookup_append(ha + hb, hc, seq![108u8, 118]);
    lemma_lookup_append(ha, hb, seq![108u8, 118]);
    lemma_lookup_append(fee_e + fv_e, gen_e, seq![108u8, 118]);
    lemma_lookup_append(fee_e, fv_e, seq![108u8, 118]);
    lemma_lookup_append(gh_e + grp_e + lv_e, lx_e, seq![108u8, 118]);
    lemma_lookup_append(gh_e + grp_e, lv_e, seq![108u8, 118]);
    lemma_lookup_append(gh_e, grp_e, seq![108u8, 118]);
    lemma_lookup_append(note_e + rekey_e, snd_e, seq![108u8, 118]);
    lemma_lookup_append(note_e, rekey_e, seq![108u8, 118]);
    lemma_lookup_append(amt_e + close_e, rcv_e, seq![108u8, 118]);
    lemma_lookup_append(amt_e, close_e, seq![108u8, 118]);
    lemma_lookup_opt(t.header.fee.0 != 0, seq![102u8, 101, 101], Val::Uint(t.header.fee.0), seq![108u8, 118]);
    lemma_lookup_opt(t.header.first_valid != 0, seq![102u8, 118], Val::Uint(t.header.first_valid), seq![108u8, 118]);
    lemma_lookup_opt(t.header.genesis_id@.len() != 0, seq![103u8, 101, 110], Val::Bytes(encode_utf8(t.header.genesis_id@)), seq![108u8, 118]);
    lemma_lookup_opt(t.header.genesis_hash@ != zero_bytes(), seq![103u8, 104], Val::Bytes(t.header.genesis_hash@), seq![108u8, 118]);
    lemma_lookup_opt(t.header.group@ != zero_bytes(), seq![103u8, 114, 112], Val::Bytes(t.header.group@), seq![108u8, 118]);
    lemma_lookup_opt(t.header.last_valid != 0, seq![108u8, 118], Val::Uint(t.header.last_valid), seq![108u8, 118]);
    lemma_lookup_opt(t.header.lease@ != zero_bytes(), seq![108u8, 120], Val::Bytes(t.header.lease@), seq![108u8, 118]);
    lemma_lookup_opt(t.header.note@.len() != 0, seq![110u8, 111, 116, 101], Val::Bytes(t.header.note@), seq![108u8, 118]);
    lemma_lookup_opt(t.header.rekey_to.0@ != zero_bytes(), seq![114u8, 101, 107, 101, 121], Val::Bytes(t.header.rekey_to.0@), seq![108u8, 118]);
    lemma_lookup_opt(t.header.sender.0@ != zero_bytes(), seq![115u8, 110, 100], Val::Bytes(t.header.sender.0@), seq![108u8, 118]);
    lemma_lookup_opt(p.amount.0 != 0, seq![97u8, 109, 116], Val::Uint(p.amount.0), seq![108u8, 118]);
    lemma_lookup_opt(p.receiver.0@ != zero_bytes(), seq![114u8, 99, 118], Val::Bytes(p.receiver.0@), seq![108u8, 118]);
    assert(lookup(te, seq![108u8, 118]) == (if seq![108u8, 118] == seq![116u8, 121, 112, 101] {
        Some(Val::Bytes(tx_type_bytes(t.fields)))
    } else {
        None::<Val>
    })) by {
        assert(lookup(Seq::<(Seq<u8>, Val)>::empty(), seq![108u8, 118]) is None);
        assert(te[0] == (seq![116u8, 121, 112, 101], Val::Bytes(tx_type_bytes(t.fields))));
        assert(te.drop_first() =~= Seq::<(Seq<u8>, Val)>::empty());
    }
    assert(lookup(close_e, seq![108u8, 118]) == (match p.close_remainder_to {
        Some(a) => (if seq![108u8, 118] == seq![99u8, 108, 111, 115, 101] {
            Some::<Val>(Val::Bytes(a.0@))
        } else {
            None::<Val>
        }),
        None => None::<Val>,
    })) by {
        assert(lookup(Seq::<(Seq<u8>, Val)>::empty(), seq![108u8, 118]) is None);
        match p.close_remainder_to {
            Some(a) => {
                assert(close_e == seq![(seq![99u8, 108, 111, 115, 101], Val::Bytes(a.0@))]);
                assert(close_e[0] == (seq![99u8, 108, 111, 115, 101], Val::Bytes(a.0@)));
                assert(close_e.drop_first() =~= Seq::<(Seq<u8>, Val)>::empty());
            }
            None => {
            }
        }
    }
    lemma_lookup_append(ha + hb + hc + te, pf, seq![108u8, 120]);
    lemma_lookup_append(ha + hb + hc, te, seq![108u8, 120]);
    lemma_lookup_append(ha + hb, hc, seq![108u8, 120]);
    lemma_lookup_append(ha, hb, seq![108u8, 120]);
    lemma_lookup_append(fee_e + fv_e, gen_e, seq![108u8, 120]);
    lemma_lookup_append(fee_e, fv_e, seq![108u8, 120]);
    lemma_lookup_append(gh_e + grp_e + lv_e, lx_e, seq![108u8, 120]);
    lemma_lookup_append(gh_e + grp_e, lv_e, seq![108u8, 120]);
    lemma_lookup_append(gh_e, grp_e, seq![108u8, 120]);
    lemma_lookup_append(note_e + rekey_e, snd_e, seq![108u8, 120]);
    lemma_lookup_append(note_e, rekey_e, seq![108u8, 120]);
    lemma_lookup_append(amt_e + close_e, rcv_e, seq![108u8, 120]);
    lemma_lookup_append(amt_e, close_e, seq![108u8, 120]);
    lemma_lookup_opt(t.header.fee.0 != 0, seq![102u8, 101, 101], Val::Uint(t.header.fee.0), seq![108u8, 120]);
    lemma_lookup_opt(t.header.first_valid != 0, seq![102u8, 118], Val::Uint(t.header.first_valid), seq![108u8, 120]);
    lemma_lookup_opt(t.header.genesis_id@.len() != 0, seq![103u8, 101, 110], Val::Bytes(encode_utf8(t.header.genesis_id@)), seq![108u8, 120]);
    lemma_lookup_opt(t.header.genesis_hash@ != zero_bytes(), seq![103u8, 104], Val::Bytes(t.header.genesis_hash@), seq![108u8, 120]);
    lemma_lookup_opt(t.header.group@ != zero_bytes(), seq![103u8, 114, 112], Val::Bytes(t.header.group@), seq![108u8, 120]);
    lemma_lookup_opt(t.header.last_valid != 0, seq![108u8, 118], Val::Uint(t.header.last_valid), seq![108u8, 120]);
    lemma_lookup_opt(t.header.lease@ != zero_bytes(), seq![108u8, 120], Val::Bytes(t.header.lease@), seq![108u8, 120]);
    lemma_lookup_opt(t.header.note@.len() != 0, seq![110u8, 111, 116, 101], Val::Bytes(t.header.note@), seq![108u8, 120]);
    lemma_lookup_opt(t.header.rekey_to.0@ != zero_bytes(), seq![114u8, 101, 107, 101, 121], Val::Bytes(t.header.rekey_to.0@), seq![108u8, 120]);
    lemma_lookup_opt(t.header.sender.0@ != zero_bytes(), seq![115u8, 110, 100], Val::Bytes(t.header.sender.0@), seq![108u8, 120]);
    lemma_lookup_opt(p.amount.0 != 0, seq![97u8, 109, 116], Val::Uint(p.amount.0), seq![108u8, 120]);
    lemma_lookup_opt(p.receiver.0@ != zero_bytes(), seq![114u8, 99, 118], Val::Bytes(p.receiver.0@), seq![108u8, 120]);
    assert(lookup(te, seq![108u8, 120]) == (if seq![108u8, 120] == seq![116u8, 121, 112, 101] {
        Some(Val::Bytes(tx_type_bytes(t.fields)))
    } else {
        None::<Val>
    })) by {
        assert(lookup(Seq::<(Seq<u8>, Val)>::empty(), seq![108u8, 120]) is None);
        assert(te[0] == (seq![116u8, 121, 112, 101], Val::Bytes(tx_type_bytes(t.fields))));
        assert(te.drop_first() =~= Seq::<(Seq<u8>, Val)>::empty());
    }
    assert(lookup(close_e, seq![108u8, 120]) == (match p.close_remainder_to {
        Some(a) => (if seq![108u8, 120] == seq![99u8, 108, 111, 115, 101] {
            Some::<Val>(Val::Bytes(a.0@))
        } else {
            None::<Val>
        }),
        None => None::<Val>,
    })) by {
        assert(lookup(Seq::<(Seq<u8>, Val)>::empty(), seq![108u8, 120]) is None);
        match p.close_remainder_to {
            Some(a) => {
                assert(close_e == seq![(seq![99u8, 108, 111, 115, 101], Val::Bytes(a.0@))]);
                assert(close_e[0] == (seq![99u8, 108, 111, 115, 101], Val::Bytes(a.0@)));
                assert(close_e.drop_first() =~= Seq::<(Seq<u8>, Val)>::empty());
            }
            None => {
            }
        }
    }
    lemma_lookup_append(ha + hb + hc + te, pf, seq![110u8, 111, 116, 101]);
    lemma_lookup_append(ha + hb + hc, te, seq![110u8, 111, 116, 101]);
    lemma_lookup_append(ha + hb, hc, seq![110u8, 111, 116, 101]);
    lemma_lookup_append(ha, hb, seq![110u8, 111, 116, 101]);
    lemma_lookup_append(fee_e + fv_e, gen_e, seq![110u8, 111, 116, 101]);
    lemma_lookup_append(fee_e, fv_e, seq![110u8, 111, 116, 101]);
    lemma_lookup_append(gh_e + grp_e + lv_e, lx_e, seq![110u8, 111, 116, 101]);
    lemma_lookup_append(gh_e + grp_e, lv_e, seq![110u8, 111, 116, 101]);
    lemma_lookup_append(gh_e, grp_e, seq![110u8, 111, 116, 101]);
    lemma_lookup_append(note_e + rekey_e, snd_e, seq![110u8, 111, 116, 101]);
    lemma_lookup_append(note_e, rekey_e, seq![110u8, 111, 116, 101]);
    lemma_lookup_append(amt_e + close_e, rcv_e, seq![110u8, 111, 116, 101]);
    lemma_lookup_append(amt_e, close_e, seq![110u8, 111, 116, 101]);
    lemma_lookup_opt(t.header.fee.0 != 0, seq![102u8, 101, 101], Val::Uint(t.header.fee.0), seq![110u8, 111, 116, 101]);
    lemma_lookup_opt(t.header.first_valid != 0, seq![102u8, 118], Val::Uint(t.header.first_valid), seq![110u8, 111, 116, 101]);
    lemma_lookup_opt(t.header.genesis_id@.len() != 0, seq![103u8, 101, 110], Val::Bytes(encode_utf8(t.header.genesis_id@)), seq![110u8, 111, 116, 101]);
    lemma_lookup_opt(t.header.genesis_hash@ != zero_bytes(), seq![103u8, 104], Val::Bytes(t.header.genesis_hash@), seq![110u8, 111, 116, 101]);
    lemma_lookup_opt(t.header.group@ != zero_bytes(), seq![103u8, 114, 112], Val::Bytes(t.header.group@), seq![110u8, 111, 116, 101]);
    lemma_lookup_opt(t.header.last_valid != 0, seq![108u8, 118], Val::Uint(t.header.last_valid), seq![110u8, 111, 116, 101]);
    lemma_lookup_opt(t.header.lease@ != zero_bytes(), seq![108u8, 120], Val::Bytes(t.header.lease@), seq![110u8, 111, 116, 101]);
    lemma_lookup_opt(t.header.note@.len() != 0, seq![110u8, 111, 116, 101], Val::Bytes(t.header.note@), seq![110u8, 111, 116, 101]);
    lemma_lookup_opt(t.header.rekey_to.0@ != zero_bytes(), seq![114u8, 101, 107, 101, 121], Val::Bytes(t.header.rekey_to.0@), seq![110u8, 111, 116, 101]);
    lemma_lookup_opt(t.header.sender.0@ != zero_bytes(), seq![115u8, 110, 100], Val::Bytes(t.header.sender.0@), seq![110u8, 111, 116, 101]);
    lemma_lookup_opt(p.amount.0 != 0, seq![97u8, 109, 116], Val::Uint(p.amount.0), seq![110u8, 111, 116, 101]);
    lemma_lookup_opt(p.receiver.0@ != zero_bytes(), seq![114u8, 99, 118], Val::Bytes(p.receiver.0@), seq![110u8, 111, 116, 101]);
    assert(lookup(te, seq![110u8, 111, 116, 101]) == (if seq![110u8, 111, 116, 101] == seq![116u8, 121, 112, 101] {
        Some(Val::Bytes(tx_type_bytes(t.fields)))
    } else {
        None::<Val>
    })) by {
        assert(lookup(Seq::<(Seq<u8>, Val)>::empty(), seq![110u8, 111, 116, 101]) is None);
        assert(te[0] == (seq![116u8, 121, 112, 101], Val::Bytes(tx_type_bytes(t.fields))));
        assert(te.drop_first() =~= Seq::<(Seq<u8>, Val)>::empty());
    }
    assert(lookup(close_e, seq![110u8, 111, 116, 101]) == (match p.close_remainder_to {
        Some(a) => (if seq![110u8, 111, 116, 101] == seq![99u8, 108, 111, 115, 101] {
            Some::<Val>(Val::Bytes(a.0@))
        } else {
            None::<Val>
        }),
        None => None::<Val>,
    })) by {
        assert(lookup(Seq::<(Seq<u8>, Val)>::empty(), seq![110u8, 111, 116, 101]) is None);
        match p.close_remainder_to {
            Some(a) => {
                assert(close_e == seq![(seq![99u8, 108, 111, 115, 101], Val::Bytes(a.0@))]);
                assert(close_e[0] == (seq![99u8, 108, 111, 115, 101], Val::Bytes(a.0@)));
                assert(close_e.drop_first() =~= Seq::<(Seq<u8>, Val)>::empty());
            }
            None => {
            }
        }
    }
}

#[verifier::rlimit(100)]
proof fn lemma_payment_lookup_2b(t: Transaction, p: PaymentFields)
    requires
        t.fields == TxFields::Payment(p),
    ensures
        lookup(transaction_fields(t), seq![108u8, 120]) == opt_val(t.header.lease@ != zero_bytes(), Val::Bytes(t.header.lease@)),
        lookup(transaction_fields(t), seq![110u8, 111, 116, 101]) == opt_val(t.header.note@.len() != 0, Val::Bytes(t.header.note@)),
{
    let fee_e = opt_entry(t.header.fee.0 != 0, seq![102u8, 101, 101], Val::Uint(t.header.fee.0));
    let fv_e = opt_entry(t.header.first_valid != 0, seq![102u8, 118], Val::Uint(t.header.first_valid));
    let gen_e = opt_entry(t.header.genesis_id@.len() != 0, seq![103u8, 101, 110], Val::Bytes(encode_utf8(t.header.genesis_id@)));
    let gh_e = opt_entry(t.header.genesis_hash@ != zero_bytes(), seq![103u8, 104], Val::Bytes(t.header.genesis_hash@));
    let grp_e = opt_entry(t.header.group@ != zero_bytes(), seq![103u8, 114, 112], Val::Bytes(t.header.group@));
    let lv_e = opt_entry(t.header.last_valid != 0, seq![108u8, 118], Val::Uint(t.header.last_valid));
    let lx_e = opt_entry(t.header.lease@ != zero_bytes(), seq![108u8, 120], Val::Bytes(t.header.lease@));
    let note_e = opt_entry(t.header.note@.len() != 0, seq![110u8, 111, 116, 101], Val::Bytes(t.header.note@));
    let rekey_e = opt_entry(t.header.rekey_to.0@ != zero_bytes(), seq![114u8, 101, 107, 101, 121], Val::Bytes(t.header.rekey_to.0@));
    let snd_e = opt_entry(t.header.sender.0@ != zero_bytes(), seq![115u8, 110, 100], Val::Bytes(t.header.sender.0@));
    let amt_e = opt_entry(p.amount.0 != 0, seq![97u8, 109, 116], Val::Uint(p.amount.0));
    let rcv_e = opt_entry(p.receiver.0@ != zero_bytes(), seq![114u8, 99, 118], Val::Bytes(p.receiver.0@));
    let ha = header_fields_a(t.header);
    let hb = header_fields_b(t.header);
    let hc = header_fields_c(t.header);
    let te = seq![(seq![116u8, 121, 112, 101], Val::Bytes(tx_type_bytes(t.fields)))];
    let pf = variant_fields(t.fields);
    let close_e = (match p.close_remainder_to {
        Some(a) => seq![(seq![99u8, 108, 111, 115, 101], Val::Bytes(a.0@))],
        None => Seq::<(Seq<u8>, Val)>::empty(),
    });
    assert(ha == fee_e + fv_e + gen_e);
    assert(hb == gh_e + grp_e + lv_e + lx_e);
    assert(hc == note_e + rekey_e + snd_e);
    assert(transaction_fields(t) == ha + hb + hc + te + pf);
    assert(pf == amt_e + close_e + rcv_e);
    assert(seq![103u8, 114, 112] != seq![102u8, 101, 101]) by {
        assert(seq![103u8, 114, 112][0] == 103);
        assert(seq![102u8, 101, 101][0] == 102);
    }
    assert(seq![103u8, 114, 112] != seq![102u8, 118]) by {
        assert(seq![103u8, 114, 112].len() == 3);
        assert(seq![102u8, 118].len() == 2);
    }
    assert(seq![103u8, 114, 112] != seq![103u8, 101, 110]) by {
        assert(seq![103u8, 114, 112][1] == 114);
        assert(seq![103u8, 101, 110][1] == 101);
    }
    assert(seq![103u8, 114, 112] != seq![103u8, 104]) by {
        assert(seq![103u8, 114, 112].len() == 3);
        assert(seq![103u8, 104].len() == 2);
    }
    assert(seq![103u8, 114, 112] != seq![108u8, 118]) by {
        assert(seq![103u8, 114, 112].len() == 3);
        assert(seq![108u8, 118].len() == 2);
    }
    assert(seq![103u8, 114, 112] != seq![108u8, 120]) by {
        assert(seq![103u8, 114, 112].len() == 3);
        assert(seq![108u8, 120].len() == 2);
    }
    assert(seq![103u8, 114, 112] != seq![110u8, 111, 116, 101]) by {
        assert(seq![103u8, 114, 112].len() == 3);
        assert(seq![110u8, 111, 116, 101].len() == 4);
    }
    assert(seq![103u8, 114, 112] != seq![114u8, 101, 107, 101, 121]) by {
        assert(seq![103u8, 114, 112].len() == 3);
        assert(seq![114u8, 101, 107, 101, 121].len() == 5);
    }
    assert(seq![103u8, 114, 112] != seq![115u8, 110, 100]) by {
        assert(seq![103u8, 114, 112][0] == 103);
        assert(seq![115u8, 110, 100][0] == 115);
    }
    assert(seq![103u8, 114, 112] != seq![116u8, 121, 112, 101]) by {
        assert(seq![103u8, 114, 112].len() == 3);
        assert(seq![116u8, 121, 112, 101].len() == 4);
    }
    assert(seq![103u8, 114, 112] != seq![97u8, 109, 116]) by {
        assert(seq![103u8, 114, 112][0] == 103);
        assert(seq![97u8, 109, 116][0] == 97);
    }
    assert(seq![103u8, 114, 112] != seq![99u8, 108, 111, 115, 101]) by {
        assert(seq![103u8, 114, 112].len() == 3);
        assert(seq![99u8, 108, 111, 115, 101].len() == 5);
    }
    assert(seq![103u8, 114, 112] != seq![114u8, 99, 118]) by {
        assert(seq![103u8, 114, 112][0] == 103);
        assert(seq![114u8, 99, 118][0] == 114);
    }
    assert(seq![108u8, 118] != seq![102u8, 101, 101]) by {
        assert(seq![108u8, 118].len() == 2);
        assert(seq![102u8, 101, 101].len() == 3);
    }
    assert(seq![108u8, 118] != seq![102u8, 118]) by {
        assert(seq![108u8, 118][0] == 108);
        assert(seq![102u8, 118][0] == 102);
    }
    assert(seq![108u8, 118] != seq![103u8, 101, 110]) by {
        assert(seq![108u8, 118].len() == 2);
        assert(seq![103u8, 101, 110].len() == 3);
    }
    assert(seq![108u8, 118] != seq![103u8, 104]) by {
        assert(seq![108u8, 118][0] == 108);
        assert(seq![103u8, 104][0] == 103);
    }
    assert(seq![108u8, 118] != seq![108u8, 120]) by {
        assert(seq![108u8, 118][1] == 118);
        assert(seq![108u8, 120][1] == 120);
    }
    assert(seq![108u8, 118] != seq![110u8, 111, 116, 101]) by {
        assert(seq![108u8, 118].len() == 2);
        assert(seq![110u8, 111, 116, 101].len() == 4);
    }
    assert(seq![108u8, 118] != seq![114u8, 101, 107, 101, 121]) by {
        assert(seq![108u8, 118].len() == 2);
        assert(seq![114u8, 101, 107, 101, 121].len() == 5);
    }
    assert(seq![108u8, 118] != seq![115u8, 110, 100]) by {
        assert(seq![108u8, 118].len() == 2);
        assert(seq![115u8, 110, 100].len() == 3);
    }
    assert(seq![108u8, 118] != seq![116u8, 121, 112, 101]) by {
        assert(seq![108u8, 118].len() == 2);
        assert(seq![116u8, 121, 112, 101].len() == 4);
    }
    assert(seq![108u8, 118] != seq![97u8, 109, 116]) by {
        assert(seq![108u8, 118].len() == 2);
        assert(seq![97u8, 109, 116].len() == 3);
    }
    assert(seq![108u8, 118] != seq![99u8, 108, 111, 115, 101]) by {
        assert(seq![108u8, 118].len() == 2);
        assert(seq![99u8, 108, 111, 115, 101].len() == 5);
    }
    assert(seq![108u8, 118] != seq![114u8, 99, 118]) by {
        assert(seq![108u8, 118].len() == 2);
        assert(seq![114u8, 99, 118].len() == 3);
    }
    assert(seq![108u8, 120] != seq![102u8, 101, 101]) by {
        assert(seq![108u8, 120].len() == 2);
        assert(seq![102u8, 101, 101].len() == 3);
    }
    assert(seq![108u8, 120] != seq![102u8, 118]) by {
        assert(seq![108u8, 120][0] == 108);
        assert(seq![102u8, 118][0] == 102);
    }
    assert(seq![108u8, 120] != seq![103u8, 101, 110]) by {
        assert(seq![108u8, 120].len() == 2);
        assert(seq![103u8, 101, 110].len() == 3);
    }
    assert(seq![108u8, 120] != seq![103u8, 104]) by {
        assert(seq![108u8, 120][0] == 108);
        assert(seq![103u8, 104][0] == 103);
    }
    assert(seq![108u8, 120] != seq![110u8, 111, 116, 101]) by {
        assert(seq![108u8, 120].len() == 2);
        assert(seq![110u8, 111, 116, 101].len() == 4);
    }
    assert(seq![108u8, 120] != seq![114u8, 101, 107, 101, 121]) by {
        assert(seq![108u8, 120].len() == 2);
        assert(seq![114u8, 101, 107, 101, 121].len() == 5);
    }
    assert(seq![108u8, 120] != seq![115u8, 110, 100]) by {
        assert(seq![108u8, 120].len() == 2);
        assert(seq![115u8, 110, 100].len() == 3);
    }
    assert(seq![108u8, 120] != seq![116u8, 121, 112, 101]) by {
        assert(seq![108u8, 120].len() == 2);
        assert(seq![116u8, 121, 112, 101].len() == 4);
    }
    assert(seq![108u8, 120] != seq![97u8, 109, 116]) by {
        assert(seq![108u8, 120].len() == 2);
        assert(seq![97u8, 109, 116].len() == 3);
    }
    assert(seq![108u8, 120] != seq![99u8, 108, 111, 115, 101]) by {
        assert(seq![108u8, 120].len() == 2);
        assert(seq![99u8, 108, 111, 115, 101].len() == 5);
    }
    assert(seq![108u8, 120] != seq![114u8, 99, 118]) by {
        assert(seq![108u8, 120].len() == 2);
        assert(seq![114u8, 99, 118].len() == 3);
    }
    assert(seq![110u8, 111, 116, 101] != seq![102u8, 101, 101]) by {
        assert(seq![110u8, 111, 116, 101].len() == 4);
        assert(seq![102u8, 101, 101].len() == 3);
    }
    assert(seq![110u8, 111, 116, 101] != seq![102u8, 118]) by {
        assert(seq![110u8, 111, 116, 101].len() == 4);
        assert(seq![102u8, 118].len() == 2);
    }
    assert(seq![110u8, 111, 116, 101] != seq![103u8, 101, 110]) by {
        assert(seq![110u8, 111, 116, 101].len() == 4);
        assert(seq![103u8, 101, 110].len() == 3);
    }
    assert(seq![110u8, 111, 116, 101] != seq![103u8, 104]) by {
        assert(seq![110u8, 111, 116, 101].len() == 4);
        assert(seq![103u8, 104].len() == 2);
    }
    assert(seq![110u8, 111, 116, 101] != seq![114u8, 101, 107, 101, 121]) by {
        assert(seq![110u8, 111, 116, 101].len() == 4);
        assert(seq![114u8, 101, 107, 101, 121].len() == 5);
    }
    assert(seq![110u8, 111, 116, 101] != seq![115u8, 110, 100]) by {
        assert(seq![110u8, 111, 116, 101].len() == 4);
        assert(seq![115u8, 110, 100].len() == 3);
    }
    assert(seq![110u8, 111, 116, 101] != seq![116u8, 121, 112, 101]) by {
        assert(seq![110u8, 111, 116, 101][0] == 110);
        assert(seq![116u8, 121, 112, 101][0] == 116);
    }
    assert(seq![110u8, 111, 116, 101] != seq![97u8, 109, 116]) by {
        assert(seq![110u8, 111, 116, 101].len() == 4);
        assert(seq![97u8, 109, 116].len() == 3);
    }
    assert(seq![110u8, 111, 116, 101] != seq![99u8, 108, 111, 115, 101]) by {
        assert(seq![110u8, 111, 116, 101].len() == 4);
        assert(seq![99u8, 108, 111, 115, 101].len() == 5);
    }
    assert(seq![110u8, 111, 116, 101] != seq![114u8, 99, 118]) by {
        assert(seq![110u8, 111, 116, 101].len() == 4);
        assert(seq![114u8, 99, 118].len() == 3);
    }

    lemma_lookup_append(ha + hb + hc + te, pf, seq![103u8, 114, 112]);
    lemma_lookup_append(ha + hb + hc, te, seq![103u8, 114, 112]);
    lemma_lookup_append(ha + hb, hc, seq![103u8, 114, 112]);
    lemma_lookup_append(ha, hb, seq![103u8, 114, 112]);
    lemma_lookup_append(fee_e + fv_e, gen_e, seq![103u8, 114, 112]);
    lemma_lookup_append(fee_e, fv_e, seq![103u8, 114, 112]);
    lemma_lookup_append(gh_e + grp_e + lv_e, lx_e, seq![103u8, 114, 112]);
    lemma_lookup_append(gh_e + grp_e, lv_e, seq![103u8, 114, 112]);
    lemma_lookup_append(gh_e, grp_e, seq![103u8, 114, 112]);
    lemma_lookup_append(note_e + rekey_e, snd_e, seq![103u8, 114, 112]);
    lemma_lookup_append(note_e, rekey_e, seq![103u8, 114, 112]);
    lemma_lookup_append(amt_e + close_e, rcv_e, seq![103u8, 114, 112]);
    lemma_lookup_append(amt_e, close_e, seq![103u8, 114, 112]);
    lemma_lookup_opt(t.header.fee.0 != 0, seq![102u8, 101, 101], Val::Uint(t.header.fee.0), seq![103u8, 114, 112]);
    lemma_lookup_opt(t.header.first_valid != 0, seq![102u8, 118], Val::Uint(t.header.first_valid), seq![103u8, 114, 112]);
    lemma_lookup_opt(t.header.genesis_id@.len() != 0, seq![103u8, 101, 110], Val::Bytes(encode_utf8(t.header.genesis_id@)), seq![103u8, 114, 112]);
    lemma_lookup_opt(t.header.genesis_hash@ != zero_bytes(), seq![103u8, 104], Val::Bytes(t.header.genesis_hash@), seq![103u8, 114, 112]);
    lemma_lookup_opt(t.header.group@ != zero_bytes(), seq![103u8, 114, 112], Val::Bytes(t.header.group@), seq![103u8, 114, 112]);
    lemma_lookup_opt(t.header.last_valid != 0, seq![108u8, 118], Val::Uint(t.header.last_valid), seq![103u8, 114, 112]);
    lemma_lookup_opt(t.header.lease@ != zero_bytes(), seq![108u8, 120], Val::Bytes(t.header.lease@), seq![103u8, 114, 112]);
    lemma_lookup_opt(t.header.note@.len() != 0, seq![110u8, 111, 116, 101], Val::Bytes(t.header.note@), seq![103u8, 114, 112]);
    lemma_lookup_opt(t.header.rekey_to.0@ != zero_bytes(), seq![114u8, 101, 107, 101, 121], Val::Bytes(t.header.rekey_to.0@), seq![103u8, 114, 112]);
    lemma_lookup_opt(t.header.sender.0@ != zero_bytes(), seq![115u8, 110, 100], Val::Bytes(t.header.sender.0@), seq![103u8, 114, 112]);
    lemma_lookup_opt(p.amount.0 != 0, seq![97u8, 109, 116], Val::Uint(p.amount.0), seq![103u8, 114, 112]);
    lemma_lookup_opt(p.receiver.0@ != zero_bytes(), seq![114u8, 99, 118], Val::Bytes(p.receiver.0@), seq![103u8, 114, 112]);
    assert(lookup(te, seq![103u8, 114, 112]) == (if seq![103u8, 114, 112] == seq![116u8, 121, 112, 101] {
        Some(Val::Bytes(tx_type_bytes(t.fields)))
    } else {
        None::<Val>
    })) by {
        assert(lookup(Seq::<(Seq<u8>, Val)>::empty(), seq![103u8, 114, 112]) is None);
        assert(te[0] == (seq![116u8, 121, 112, 101], Val::Bytes(tx_type_bytes(t.fields))));
        assert(te.drop_first() =~= Seq::<(Seq<u8>, Val)>::empty());
    }
    assert(lookup(close_e, seq![103u8, 114, 112]) == (match p.close_remainder_to {
        Some(a) => (if seq![103u8, 114, 112] == seq![99u8, 108, 111, 115, 101] {
            Some::<Val>(Val::Bytes(a.0@))
        } else {
            None::<Val>
        }),
        None => None::<Val>,
    })) by {
        assert(lookup(Seq::<(Seq<u8>, Val)>::empty(), seq![103u8, 114, 112]) is None);
        match p.close_remainder_to {
            Some(a) => {
                assert(close_e == seq![(seq![99u8, 108, 111, 115, 101], Val::Bytes(a.0@))]);
                assert(close_e[0] == (seq![99u8, 108, 111, 115, 101], Val::Bytes(a.0@)));
                assert(close_e.drop_first() =~= Seq::<(Seq<u8>, Val)>::empty());
            }
            None => {
            }
        }
    }
    lemma_lookup_append(ha + hb + hc + te, pf, seq![108u8, 118]);
    lemma_lookup_append(ha + hb + hc, te, seq![108u8, 118]);
    lemma_lookup_append(ha + hb, hc, seq![108u8, 118]);
    lemma_lookup_append(ha, hb, seq![108u8, 118]);
    lemma_lookup_append(fee_e + fv_e, gen_e, seq![108u8, 118]);
    lemma_lookup_append(fee_e, fv_e, seq![108u8, 118]);
    lemma_lookup_append(gh_e + grp_e + lv_e, lx_e, seq![108u8, 118]);
    lemma_lookup_append(gh_e + grp_e, lv_e, seq![108u8, 118]);
    lemma_lookup_append(gh_e, grp_e, seq![108u8, 118]);
    lemma_lookup_append(note_e + rekey_e, snd_e, seq![108u8, 118]);
    lemma_lookup_append(note_e, rekey_e, seq![108u8, 118]);
    lemma_lookup_append(amt_e + close_e, rcv_e, seq![108u8, 118]);
    lemma_lookup_append(amt_e, close_e, seq![108u8, 118]);
    lemma_lookup_opt(t.header.fee.0 != 0, seq![102u8, 101, 101], Val::Uint(t.header.fee.0), seq![108u8, 118]);
    lemma_lookup_opt(t.header.first_valid != 0, seq![102u8, 118], Val::Uint(t.header.first_valid), seq![108u8, 118]);
    lemma_lookup_opt(t.header.genesis_id@.len() != 0, seq![103u8, 101, 110], Val::Bytes(encode_utf8(t.header.genesis_id@)), seq![108u8, 118]);
    lemma_lookup_opt(t.header.genesis_hash@ != zero_bytes(), seq![103u8, 104], Val::Bytes(t.header.genesis_hash@), seq![108u8, 118]);
    lemma_lookup_opt(t.header.group@ != zero_bytes(), seq![103u8, 114, 112], Val::Bytes(t.header.group@), seq![108u8, 118]);
    lemma_lookup_opt(t.header.last_valid != 0, seq![108u8, 118], Val::Uint(t.header.last_valid), seq![108u8, 118]);
    lemma_lookup_opt(t.header.lease@ != zero_bytes(), seq![108u8, 120], Val::Bytes(t.header.lease@), seq![108u8, 118]);
    lemma_lookup_opt(t.header.note@.len() != 0, seq![110u8, 111, 116, 101], Val::Bytes(t.header.note@), seq![108u8, 118]);
    lemma_lookup_opt(t.header.rekey_to.0@ != zero_bytes(), seq![114u8, 101, 107, 101, 121], Val::Bytes(t.header.rekey_to.0@), seq![108u8, 118]);
    lemma_lookup_opt(t.header.sender.0@ != zero_bytes(), seq![115u8, 110, 100], Val::Bytes(t.header.sender.0@), seq![108u8, 118]);
    lemma_lookup_opt(p.amount.0 != 0, seq![97u8, 109, 116], Val::Uint(p.amount.0), seq![108u8, 118]);
    lemma_lookup_opt(p.receiver.0@ != zero_bytes(), seq![114u8, 99, 118], Val::Bytes(p.receiver.0@), seq![108u8, 118]);
    assert(lookup(te, seq![108u8, 118]) == (if seq![108u8, 118] == seq![116u8, 121, 112, 101] {
        Some(Val::Bytes(tx_type_bytes(t.fields)))
    } else {
        None::<Val>
    })) by {
        assert(lookup(Seq::<(Seq<u8>, Val)>::empty(), seq![108u8, 118]) is None);
        assert(te[0] == (seq![116u8, 121, 112, 101], Val::Bytes(tx_type_bytes(t.fields))));
        assert(te.drop_first() =~= Seq::<(Seq<u8>, Val)>::empty());
    }
    assert(lookup(close_e, seq![108u8, 118]) == (match p.close_remainder_to {
        Some(a) => (if seq![108u8, 118] == seq![99u8, 108, 111, 115, 101] {
            Some::<Val>(Val::Bytes(a.0@))
        } else {
            None::<Val>
        }),
        None => None::<Val>,
    })) by {
        assert(lookup(Seq::<(Seq<u8>, Val)>::empty(), seq![108u8, 118]) is None);
        match p.close_remainder_to {
            Some(a) => {
                assert(close_e == seq![(seq![99u8, 108, 111, 115, 101], Val::Bytes(a.0@))]);
                assert(close_e[0] == (seq![99u8, 108, 111, 115, 101], Val::Bytes(a.0@)));
                assert(close_e.drop_first() =~= Seq::<(Seq<u8>, Val)>::empty());
            }
            None => {
            }
        }
    }
    lemma_lookup_append(ha + hb + hc + te, pf, seq![108u8, 120]);
    lemma_lookup_append(ha + hb + hc, te, seq![108u8, 120]);
    lemma_lookup_append(ha + hb, hc, seq![108u8, 120]);
    lemma_lookup_append(ha, hb, seq![108u8, 120]);
    lemma_lookup_append(fee_e + fv_e, gen_e, seq![108u8, 120]);
    lemma_lookup_append(fee_e, fv_e, seq![108u8, 120]);
    lemma_lookup_append(gh_e + grp_e + lv_e, lx_e, seq![108u8, 120]);
    lemma_lookup_append(gh_e + grp_e, lv_e, seq![108u8, 120]);
    lemma_lookup_append(gh_e, grp_e, seq![108u8, 120]);
    lemma_lookup_append(note_e + rekey_e, snd_e, seq![108u8, 120]);
    lemma_lookup_append(note_e, rekey_e, seq![108u8, 120]);
    lemma_lookup_append(amt_e + close_e, rcv_e, seq![108u8, 120]);
    lemma_lookup_append(amt_e, close_e, seq![108u8, 120]);
    lemma_lookup_opt(t.header.fee.0 != 0, seq![102u8, 101, 101], Val::Uint(t.header.fee.0), seq![108u8, 120]);
    lemma_lookup_opt(t.header.first_valid != 0, seq![102u8, 118], Val::Uint(t.header.first_valid), seq![108u8, 120]);
    lemma_lookup_opt(t.header.genesis_id@.len() != 0, seq![103u8, 101, 110], Val::Bytes(encode_utf8(t.header.genesis_id@)), seq![108u8, 120]);
    lemma_lookup_opt(t.header.genesis_hash@ != zero_bytes(), seq![103u8, 104], Val::Bytes(t.header.genesis_hash@), seq![108u8, 120]);
    lemma_lookup_opt(t.header.group@ != zero_bytes(), seq![103u8, 114, 112], Val::Bytes(t.header.group@), seq![108u8, 120]);
    lemma_lookup_opt(t.header.last_valid != 0, seq![108u8, 118], Val::Uint(t.header.last_valid), seq![108u8, 120]);
    lemma_lookup_opt(t.header.lease@ != zero_bytes(), seq![108u8, 120], Val::Bytes(t.header.lease@), seq![108u8, 120]);
    lemma_lookup_opt(t.header.note@.len() != 0, seq![110u8, 111, 116, 101], Val::Bytes(t.header.note@), seq![108u8, 120]);
    lemma_lookup_opt(t.header.rekey_to.0@ != zero_bytes(), seq![114u8, 101, 107, 101, 121], Val::Bytes(t.header.rekey_to.0@), seq![108u8, 120]);
    lemma_lookup_opt(t.header.sender.0@ != zero_bytes(), seq![115u8, 110, 100], Val::Bytes(t.header.sender.0@), seq![108u8, 120]);
    lemma_lookup_opt(p.amount.0 != 0, seq![97u8, 109, 116], Val::Uint(p.amount.0), seq![108u8, 120]);
    lemma_lookup_opt(p.receiver.0@ != zero_bytes(), seq![114u8, 99, 118], Val::Bytes(p.receiver.0@), seq![108u8, 120]);
    assert(lookup(te, seq![108u8, 120]) == (if seq![108u8, 120] == seq![116u8, 121, 112, 101] {
        Some(Val::Bytes(tx_type_bytes(t.fields)))
    } else {
        None::<Val>
    })) by {
        assert(lookup(Seq::<(Seq<u8>, Val)>::empty(), seq![108u8, 120]) is None);
        assert(te[0] == (seq![116u8, 121, 112, 101], Val::Bytes(tx_type_bytes(t.fields))));
        assert(te.drop_first() =~= Seq::<(Seq<u8>, Val)>::empty());
    }
    assert(lookup(close_e, seq![108u8, 120]) == (match p.close_remainder_to {
        Some(a) => (if seq![108u8, 120] == seq![99u8, 108, 111, 115, 101] {
            Some::<Val>(Val::Bytes(a.0@))
        } else {
            None::<Val>
        }),
        None => None::<Val>,
    })) by {
        assert(lookup(Seq::<(Seq<u8>, Val)>::empty(), seq![108u8, 120]) is None);
        match p.close_remainder_to {
            Some(a) => {
                assert(close_e == seq![(seq![99u8, 108, 111, 115, 101], Val::Bytes(a.0@))]);
                assert(close_e[0] == (seq![99u8, 108, 111, 115, 101], Val::Bytes(a.0@)));
                assert(close_e.drop_first() =~= Seq::<(Seq<u8>, Val)>::empty());
            }
            None => {
            }
        }
    }
    lemma_lookup_append(ha + hb + hc + te, pf, seq![110u8, 111, 116, 101]);
    lemma_lookup_append(ha + hb + hc, te, seq![110u8, 111, 116, 101]);
    lemma_lookup_append(ha + hb, hc, seq![110u8, 111, 116, 101]);
    lemma_lookup_append(ha, hb, seq![110u8, 111, 116, 101]);
    lemma_lookup_append(fee_e + fv_e, gen_e, seq![110u8, 111, 116, 101]);
    lemma_lookup_append(fee_e, fv_e, seq![110u8, 111, 116, 101]);
    lemma_lookup_append(gh_e + grp_e + lv_e, lx_e, seq![110u8, 111, 116, 101]);
    lemma_lookup_append(gh_e + grp_e, lv_e, seq![110u8, 111, 116, 101]);
    lemma_lookup_append(gh_e, grp_e, seq![110u8, 111, 116, 101]);
    lemma_lookup_append(note_e + rekey_e, snd_e, seq![110u8, 111, 116, 101]);
    lemma_lookup_append(note_e, rekey_e, seq![110u8, 111, 116, 101]);
    lemma_lookup_append(amt_e + close_e, rcv_e, seq![110u8, 111, 116, 101]);
    lemma_lookup_append(amt_e, close_e, seq![110u8, 111, 116, 101]);
    lemma_lookup_opt(t.header.fee.0 != 0, seq![102u8, 101, 101], Val::Uint(t.header.fee.0), seq![110u8, 111, 116, 101]);
    lemma_lookup_opt(t.header.first_valid != 0, seq![102u8, 118], Val::Uint(t.header.first_valid), seq![110u8, 111, 116, 101]);
    lemma_lookup_opt(t.header.genesis_id@.len() != 0, seq![103u8, 101, 110], Val::Bytes(encode_utf8(t.header.genesis_id@)), seq![110u8, 111, 116, 101]);
    lemma_lookup_opt(t.header.genesis_hash@ != zero_bytes(), seq![103u8, 104], Val::Bytes(t.header.genesis_hash@), seq![110u8, 111, 116, 101]);
    lemma_lookup_opt(t.header.group@ != zero_bytes(), seq![103u8, 114, 112], Val::Bytes(t.header.group@), seq![110u8, 111, 116, 101]);
    lemma_lookup_opt(t.header.last_valid != 0, seq![108u8, 118], Val::Uint(t.header.last_valid), seq![110u8, 111, 116, 101]);
    lemma_lookup_opt(t.header.lease@ != zero_bytes(), seq![108u8, 120], Val::Bytes(t.header.lease@), seq![110u8, 111, 116, 101]);
    lemma_lookup_opt(t.header.note@.len() != 0, seq![110u8, 111, 116, 101], Val::Bytes(t.header.note@), seq![110u8, 111, 116, 101]);
    lemma_lookup_opt(t.header.rekey_to.0@ != zero_bytes(), seq![114u8, 101, 107, 101, 121], Val::Bytes(t.header.rekey_to.0@), seq![110u8, 111, 116, 101]);
    lemma_lookup_opt(t.header.sender.0@ != zero_bytes(), seq![115u8, 110, 100], Val::Bytes(t.header.sender.0@), seq![110u8, 111, 116, 101]);
    lemma_lookup_opt(p.amount.0 != 0, seq![97u8, 109, 116], Val::Uint(p.amount.0), seq![110u8, 111, 116, 101]);
    lemma_lookup_opt(p.receiver.0@ != zero_bytes(), seq![114u8, 99, 118], Val::Bytes(p.receiver.0@), seq![110u8, 111, 116, 101]);
    assert(lookup(te, seq![110u8, 111, 116, 101]) == (if seq![110u8, 111, 116, 101] == seq![116u8, 121, 112, 101] {
        Some(Val::Bytes(tx_type_bytes(t.fields)))
    } else {
        None::<Val>
    })) by {
        assert(lookup(Seq::<(Seq<u8>, Val)>::empty(), seq![110u8, 111, 116, 101]) is None);
        assert(te[0] == (seq![116u8, 121, 112, 101], Val::Bytes(tx_type_bytes(t.fields))));
        assert(te.drop_first() =~= Seq::<(Seq<u8>, Val)>::empty());
    }
    assert(lookup(close_e, seq![110u8, 111, 116, 101]) == (match p.close_remainder_to {
        Some(a) => (if seq![110u8, 111, 116, 101] == seq![99u8, 108, 111, 115, 101] {
            Some::<Val>(Val::Bytes(a.0@))
        } else {
            None::<Val>
        }),
        None => None::<Val>,
    })) by {
        assert(lookup(Seq::<(Seq<u8>, Val)>::empty(), seq![110u8, 111, 116, 101]) is None);
        match p.close_remainder_to {
            Some(a) => {
                assert(close_e == seq![(seq![99u8, 108, 111, 115, 101], Val::Bytes(a.0@))]);
                assert(close_e[0] == (seq![99u8, 108, 111, 115, 101], Val::Bytes(a.0@)));
                assert(close_e.drop_first() =~= Seq::<(Seq<u8>, Val)>::empty());
            }
            None => {
            }
        }
    }
}

#[verifier::rlimit(100)]
proof fn lemma_payment_lookup_3(t: Transaction, p: PaymentFields)
    requires
        t.fields == TxFields::Payment(p),
    ensures
        lookup(transaction_fields(t), seq![114u8, 101, 107, 101, 121]) == opt_val(t.header.rekey_to.0@ != zero_bytes(), Val::Bytes(t.header.rekey_to.0@)),
        lookup(transaction_fields(t), seq![115u8, 110, 100]) == opt_val(t.header.sender.0@ != zero_bytes(), Val::Bytes(t.header.sender.0@)),
        lookup(transaction_fields(t), seq![116u8, 121, 112, 101]) == Some(Val::Bytes(seq![112u8, 97, 121])),
{
    let fee_e = opt_entry(t.header.fee.0 != 0, seq![102u8, 101, 101], Val::Uint(t.header.fee.0));
    let fv_e = opt_entry(t.header.first_valid != 0, seq![102u8, 118], Val::Uint(t.header.first_valid));
    let gen_e = opt_entry(t.header.genesis_id@.len() != 0, seq![103u8, 101, 110], Val::Bytes(encode_utf8(t.header.genesis_id@)));
    let gh_e = opt_entry(t.header.genesis_hash@ != zero_bytes(), seq![103u8, 104], Val::Bytes(t.header.genesis_hash@));
    let grp_e = opt_entry(t.header.group@ != zero_bytes(), seq![103u8, 114, 112], Val::Bytes(t.header.group@));
    let lv_e = opt_entry(t.header.last_valid != 0, seq![108u8, 118], Val::Uint(t.header.last_valid));
    let lx_e = opt_entry(t.header.lease@ != zero_bytes(), seq![108u8, 120], Val::Bytes(t.header.lease@));
    let note_e = opt_entry(t.header.note@.len() != 0, seq![110u8, 111, 116, 101], Val::Bytes(t.header.note@));
    let rekey_e = opt_entry(t.header.rekey_to.0@ != zero_bytes(), seq![114u8, 101, 107, 101, 121], Val::Bytes(t.header.rekey_to.0@));
    let snd_e = opt_entry(t.header.sender.0@ != zero_bytes(), seq![115u8, 110, 100], Val::Bytes(t.header.sender.0@));
    let amt_e = opt_entry(p.amount.0 != 0, seq![97u8, 109, 116], Val::Uint(p.amount.0));
    let rcv_e = opt_entry(p.receiver.0@ != zero_bytes(), seq![114u8, 99, 118], Val::Bytes(p.receiver.0@));
    let ha = header_fields_a(t.header);
    let hb = header_fields_b(t.header);
    let hc = header_fields_c(t.header);
    let te = seq![(seq![116u8, 121, 112, 101], Val::Bytes(tx_type_bytes(t.fields)))];
    let pf = variant_fields(t.fields);
    let close_e = (match p.close_remainder_to {
        Some(a) => seq![(seq![99u8, 108, 111, 115, 101], Val::Bytes(a.0@))],
        None => Seq::<(Seq<u8>, Val)>::empty(),
    });
    assert(ha == fee_e + fv_e + gen_e);
    assert(hb == gh_e + grp_e + lv_e + lx_e);
    assert(hc == note_e + rekey_e + snd_e);
    assert(transaction_fields(t) == ha + hb + hc + te + pf);
    assert(pf == amt_e + close_e + rcv_e);
    assert(seq![114u8, 101, 107, 101, 121] != seq![102u8, 101, 101]) by {
        assert(seq![114u8, 101, 107, 101, 121].len() == 5);
        assert(seq![102u8, 101, 101].len() == 3);
    }
    assert(seq![114u8, 101, 107, 101, 121] != seq![102u8, 118]) by {
        assert(seq![114u8, 101, 107, 101, 121].len() == 5);
        assert(seq![102u8, 118].len() == 2);
    }
    assert(seq![114u8, 101, 107, 101, 121] != seq![103u8, 101, 110]) by {
        assert(seq![114u8, 101, 107, 101, 121].len() == 5);
        assert(seq![103u8, 101, 110].len() == 3);
    }
    assert(seq![114u8, 101, 107, 101, 121] != seq![103u8, 104]) by {
        assert(seq![114u8, 101, 107, 101, 121].len() == 5);
        assert(seq![103u8, 104].len() == 2);
    }
    assert(seq![114u8, 101, 107, 101, 121] != seq![103u8, 114, 112]) by {
        assert(seq![114u8, 101, 107, 101, 121].len() == 5);
        assert(seq![103u8, 114, 112].len() == 3);
    }
    assert(seq![114u8, 101, 107, 101, 121] != seq![108u8, 118]) by {
        assert(seq![114u8, 101, 107, 101, 121].len() == 5);
        assert(seq![108u8, 118].len() == 2);
    }
    assert(seq![114u8, 101, 107, 101, 121] != seq![108u8, 120]) by {
        assert(seq![114u8, 101, 107, 101, 121].len() == 5);
        assert(seq![108u8, 120].len() == 2);
    }
    assert(seq![114u8, 101, 107, 101, 121] != seq![110u8, 111, 116, 101]) by {
        assert(seq![114u8, 101, 107, 101, 121].len() == 5);
        assert(seq![110u8, 111, 116, 101].len() == 4);
    }
    assert(seq![114u8, 101, 107, 101, 121] != seq![115u8, 110, 100]) by {
        assert(seq![114u8, 101, 107, 101, 121].len() == 5);
        assert(seq![115u8, 110, 100].len() == 3);
    }
    assert(seq![114u8, 101, 107, 101, 121] != seq![116u8, 121, 112, 101]) by {
        assert(seq![114u8, 101, 107, 101, 121].len() == 5);
        assert(seq![116u8, 121, 112, 101].len() == 4);
    }
    assert(seq![114u8, 101, 107, 101, 121] != seq![97u8, 109, 116]) by {
        assert(seq![114u8, 101, 107, 101, 121].len() == 5);
        assert(seq![97u8, 109, 116].len() == 3);
    }
    assert(seq![114u8, 101, 107, 101, 121] != seq![99u8, 108, 111, 115, 101]) by {
        assert(seq![114u8, 101, 107, 101, 121][0] == 114);
        assert(seq![99u8, 108, 111, 115, 101][0] == 99);
    }
    assert(seq![114u8, 101, 107, 101, 121] != seq![114u8, 99, 118]) by {
        assert(seq![114u8, 101, 107, 101, 121].len() == 5);
        assert(seq![114u8, 99, 118].len() == 3);
    }
    assert(seq![115u8, 110, 100] != seq![102u8, 101, 101]) by {
        assert(seq![115u8, 110, 100][0] == 115);
        assert(seq![102u8, 101, 101][0] == 102);
    }
    assert(seq![115u8, 110, 100] != seq![102u8, 118]) by {
        assert(seq![115u8, 110, 100].len() == 3);
        assert(seq![102u8, 118].len() == 2);
    }
    assert(seq![115u8, 110, 100] != seq![103u8, 101, 110]) by {
        assert(seq![115u8, 110, 100][0] == 115);
        assert(seq![103u8, 101, 110][0] == 103);
    }
    assert(seq![115u8, 110, 100] != seq![103u8, 104]) by {
        assert(seq![115u8, 110, 100].len() == 3);
        assert(seq![103u8, 104].len() == 2);
    }
    assert(seq![115u8, 110, 100] != seq![103u8, 114, 112]) by {
        assert(seq![115u8, 110, 100][0] == 115);
        assert(seq![103u8, 114, 112][0] == 103);
    }
    assert(seq![115u8, 110, 100] != seq![108u8, 118]) by {
        assert(seq![115u8, 110, 100].len() == 3);
        assert(seq![108u8, 118].len() == 2);
    }
    assert(seq![115u8, 110, 100] != seq![108u8, 120]) by {
        assert(seq![115u8, 110, 100].len() == 3);
        assert(seq![108u8, 120].len() == 2);
    }
    assert(seq![115u8, 110, 100] != seq![110u8, 111, 116, 101]) by {
        assert(seq![115u8, 110, 100].len() == 3);
        assert(seq![110u8, 111, 116, 101].len() == 4);
    }
    assert(seq![115u8, 110, 100] != seq![116u8, 121, 112, 101]) by {
        assert(seq![115u8, 110, 100].len() == 3);
        assert(seq![116u8, 121, 112, 101].len() == 4);
    }
    assert(seq![115u8, 110, 100] != seq![97u8, 109, 116]) by {
        assert(seq![115u8, 110, 100][0] == 115);
        assert(seq![97u8, 109, 116][0] == 97);
    }
    assert(seq![115u8, 110, 100] != seq![99u8, 108, 111, 115, 101]) by {
        assert(seq![115u8, 110, 100].len() == 3);
        assert(seq![99u8, 108, 111, 115, 101].len() == 5);
    }
    assert(seq![115u8, 110, 100] != seq![114u8, 99, 118]) by {
        assert(seq![115u8, 110, 100][0] == 115);
        assert(seq![114u8, 99, 118][0] == 114);
    }
    assert(seq![116u8, 121, 112, 101] != seq![102u8, 101, 101]) by {
        assert(seq![116u8, 121, 112, 101].len() == 4);
        assert(seq![102u8, 101, 101].len() == 3);
    }
    assert(seq![116u8, 121, 112, 101] != seq![102u8, 118]) by {
        assert(seq![116u8, 121, 112, 101].len() == 4);
        assert(seq![102u8, 118].len() == 2);
    }
    assert(seq![116u8, 121, 112, 101] != seq![103u8, 101, 110]) by {
        assert(seq![116u8, 121, 112, 101].len() == 4);
        assert(seq![103u8, 101, 110].len() == 3);
    }
    assert(seq![116u8, 121, 112, 101] != seq![103u8, 104]) by {
        assert(seq![116u8, 121, 112, 101].len() == 4);
        assert(seq![103u8, 104].len() == 2);
    }
    assert(seq![116u8, 121, 112, 101] != seq![103u8, 114, 112]) by {
        assert(seq![116u8, 121, 112, 101].len() == 4);
        assert(seq![103u8, 114, 112].len() == 3);
    }
    assert(seq![116u8, 121, 112, 101] != seq![108u8, 118]) by {
        assert(seq![116u8, 121, 112, 101].len() == 4);
        assert(seq![108u8, 118].len() == 2);
    }
    assert(seq![116u8, 121, 112, 101] != seq![108u8, 120]) by {
        assert(seq![116u8, 121, 112, 101].len() == 4);
        assert(seq![108u8, 120].len() == 2);
    }
    assert(seq![116u8, 121, 112, 101] != seq![110u8, 111, 116, 101]) by {
        assert(seq![116u8, 121, 112, 101][0] == 116);
        assert(seq![110u8, 111, 116, 101][0] == 110);
    }
    assert(seq![116u8, 121, 112, 101] != seq![97u8, 109, 116]) by {
        assert(seq![116u8, 121, 112, 101].len() == 4);
        assert(seq![97u8, 109, 116].len() == 3);
    }
    assert(seq![116u8, 121, 112, 101] != seq![99u8, 108, 111, 115, 101]) by {
        assert(seq![116u8, 121, 112, 101].len() == 4);
        assert(seq![99u8, 108, 111, 115, 101].len() == 5);
    }
    assert(seq![116u8, 121, 112, 101] != seq![114u8, 99, 118]) by {
        assert(seq![116u8, 121, 112, 101].len() == 4);
        assert(seq![114u8, 99, 118].len() == 3);
    }

    lemma_lookup_append(ha + hb + hc + te, pf, seq![114u8, 101, 107, 101, 121]);
    lemma_lookup_append(ha + hb + hc, te, seq![114u8, 101, 107, 101, 121]);
    lemma_lookup_append(ha + hb, hc, seq![114u8, 101, 107, 101, 121]);
    lemma_lookup_append(ha, hb, seq![114u8, 101, 107, 101, 121]);
    lemma_lookup_append(fee_e + fv_e, gen_e, seq![114u8, 101, 107, 101, 121]);
    lemma_lookup_append(fee_e, fv_e, seq![114u8, 101, 107, 101, 121]);
    lemma_lookup_append(gh_e + grp_e + lv_e, lx_e, seq![114u8, 101, 107, 101, 121]);
    lemma_lookup_append(gh_e + grp_e, lv_e, seq![114u8, 101, 107, 101, 121]);
    lemma_lookup_append(gh_e, grp_e, seq![114u8, 101, 107, 101, 121]);
    lemma_lookup_append(note_e + rekey_e, snd_e, seq![114u8, 101, 107, 101, 121]);
    lemma_lookup_append(note_e, rekey_e, seq![114u8, 101, 107, 101, 121]);
    lemma_lookup_append(amt_e + close_e, rcv_e, seq![114u8, 101, 107, 101, 121]);
    lemma_lookup_append(amt_e, close_e, seq![114u8, 101, 107, 101, 121]);
    lemma_lookup_opt(t.header.fee.0 != 0, seq![102u8, 101, 101], Val::Uint(t.header.fee.0), seq![114u8, 101, 107, 101, 121]);
    lemma_lookup_opt(t.header.first_valid != 0, seq![102u8, 118], Val::Uint(t.header.first_valid), seq![114u8, 101, 107, 101, 121]);
    lemma_lookup_opt(t.header.genesis_id@.len() != 0, seq![103u8, 101, 110], Val::Bytes(encode_utf8(t.header.genesis_id@)), seq![114u8, 101, 107, 101, 121]);
    lemma_lookup_opt(t.header.genesis_hash@ != zero_bytes(), seq![103u8, 104], Val::Bytes(t.header.genesis_hash@), seq![114u8, 101, 107, 101, 121]);
    lemma_lookup_opt(t.header.group@ != zero_bytes(), seq![103u8, 114, 112], Val::Bytes(t.header.group@), seq![114u8, 101, 107, 101, 121]);
    lemma_lookup_opt(t.header.last_valid != 0, seq![108u8, 118], Val::Uint(t.header.last_valid), seq![114u8, 101, 107, 101, 121]);
    lemma_lookup_opt(t.header.lease@ != zero_bytes(), seq![108u8, 120], Val::Bytes(t.header.lease@), seq![114u8, 101, 107, 101, 121]);
    lemma_lookup_opt(t.header.note@.len() != 0, seq![110u8, 111, 116, 101], Val::Bytes(t.header.note@), seq![114u8, 101, 107, 101, 121]);
    lemma_lookup_opt(t.header.rekey_to.0@ != zero_bytes(), seq![114u8, 101, 107, 101, 121], Val::Bytes(t.header.rekey_to.0@), seq![114u8, 101, 107, 101, 121]);
    lemma_lookup_opt(t.header.sender.0@ != zero_bytes(), seq![115u8, 110, 100], Val::Bytes(t.header.sender.0@), seq![114u8, 101, 107, 101, 121]);
    lemma_lookup_opt(p.amount.0 != 0, seq![97u8, 109, 116], Val::Uint(p.amount.0), seq![114u8, 101, 107, 101, 121]);
    lemma_lookup_opt(p.receiver.0@ != zero_bytes(), seq![114u8, 99, 118], Val::Bytes(p.receiver.0@), seq![114u8, 101, 107, 101, 121]);
    assert(lookup(te, seq![114u8, 101, 107, 101, 121]) == (if seq![114u8, 101, 107, 101, 121] == seq![116u8, 121, 112, 101] {
        Some(Val::Bytes(tx_type_bytes(t.fields)))
    } else {
        None::<Val>
    })) by {
        assert(lookup(Seq::<(Seq<u8>, Val)>::empty(), seq![114u8, 101, 107, 101, 121]) is None);
        assert(te[0] == (seq![116u8, 121, 112, 101], Val::Bytes(tx_type_bytes(t.fields))));
        assert(te.drop_first() =~= Seq::<(Seq<u8>, Val)>::empty());
    }
    assert(lookup(close_e, seq![114u8, 101, 107, 101, 121]) == (match p.close_remainder_to {
        Some(a) => (if seq![114u8, 101, 107, 101, 121] == seq![99u8, 108, 111, 115, 101] {
            Some::<Val>(Val::Bytes(a.0@))
        } else {
            None::<Val>
        }),
        None => None::<Val>,
    })) by {
        assert(lookup(Seq::<(Seq<u8>, Val)>::empty(), seq![114u8, 101, 107, 101, 121]) is None);
        match p.close_remainder_to {
            Some(a) => {
                assert(close_e == seq![(seq![99u8, 108, 111, 115, 101], Val::Bytes(a.0@))]);
                assert(close_e[0] == (seq![99u8, 108, 111, 115, 101], Val::Bytes(a.0@)));
                assert(close_e.drop_first() =~= Seq::<(Seq<u8>, Val)>::empty());
            }
            None => {
            }
        }
    }
    lemma_lookup_append(ha + hb + hc + te, pf, seq![115u8, 110, 100]);
    lemma_lookup_append(ha + hb + hc, te, seq![115u8, 110, 100]);
    lemma_lookup_append(ha + hb, hc, seq![115u8, 110, 100]);
    lemma_lookup_append(ha, hb, seq![115u8, 110, 100]);
    lemma_lookup_append(fee_e + fv_e, gen_e, seq![115u8, 110, 100]);
    lemma_lookup_append(fee_e, fv_e, seq![115u8, 110, 100]);
    lemma_lookup_append(gh_e + grp_e + lv_e, lx_e, seq![115u8, 110, 100]);
    lemma_lookup_append(gh_e + grp_e, lv_e, seq![115u8, 110, 100]);
    lemma_lookup_append(gh_e, grp_e, seq![115u8, 110, 100]);
    lemma_lookup_append(note_e + rekey_e, snd_e, seq![115u8, 110, 100]);
    lemma_lookup_append(note_e, rekey_e, seq![115u8, 110, 100]);
    lemma_lookup_append(amt_e + close_e, rcv_e, seq![115u8, 110, 100]);
    lemma_lookup_append(amt_e, close_e, seq![115u8, 110, 100]);
    lemma_lookup_opt(t.header.fee.0 != 0, seq![102u8, 101, 101], Val::Uint(t.header.fee.0), seq![115u8, 110, 100]);
    lemma_lookup_opt(t.header.first_valid != 0, seq![102u8, 118], Val::Uint(t.header.first_valid), seq![115u8, 110, 100]);
    lemma_lookup_opt(t.header.genesis_id@.len() != 0, seq![103u8, 101, 110], Val::Bytes(encode_utf8(t.header.genesis_id@)), seq![115u8, 110, 100]);
    lemma_lookup_opt(t.header.genesis_hash@ != zero_bytes(), seq![103u8, 104], Val::Bytes(t.header.genesis_hash@), seq![115u8, 110, 100]);
    lemma_lookup_opt(t.header.group@ != zero_bytes(), seq![103u8, 114, 112], Val::Bytes(t.header.group@), seq![115u8, 110, 100]);
    lemma_lookup_opt(t.header.last_valid != 0, seq![108u8, 118], Val::Uint(t.header.last_valid), seq![115u8, 110, 100]);
    lemma_lookup_opt(t.header.lease@ != zero_bytes(), seq![108u8, 120], Val::Bytes(t.header.lease@), seq![115u8, 110, 100]);
    lemma_lookup_opt(t.header.note@.len() != 0, seq![110u8, 111, 116, 101], Val::Bytes(t.header.note@), seq![115u8, 110, 100]);
    lemma_lookup_opt(t.header.rekey_to.0@ != zero_bytes(), seq![114u8, 101, 107, 101, 121], Val::Bytes(t.header.rekey_to.0@), seq![115u8, 110, 100]);
    lemma_lookup_opt(t.header.sender.0@ != zero_bytes(), seq![115u8, 110, 100], Val::Bytes(t.header.sender.0@), seq![115u8, 110, 100]);
    lemma_lookup_opt(p.amount.0 != 0, seq![97u8, 109, 116], Val::Uint(p.amount.0), seq![115u8, 110, 100]);
    lemma_lookup_opt(p.receiver.0@ != zero_bytes(), seq![114u8, 99, 118], Val::Bytes(p.receiver.0@), seq![115u8, 110, 100]);
    assert(lookup(te, seq![115u8, 110, 100]) == (if seq![115u8, 110, 100] == seq![116u8, 121, 112, 101] {
        Some(Val::Bytes(tx_type_bytes(t.fields)))
    } else {
        None::<Val>
    })) by {
        assert(lookup(Seq::<(Seq<u8>, Val)>::empty(), seq![115u8, 110, 100]) is None);
        assert(te[0] == (seq![116u8, 121, 112, 101], Val::Bytes(tx_type_bytes(t.fields))));
        assert(te.drop_first() =~= Seq::<(Seq<u8>, Val)>::empty());
    }
    assert(lookup(close_e, seq![115u8, 110, 100]) == (match p.close_remainder_to {
        Some(a) => (if seq![115u8, 110, 100] == seq![99u8, 108, 111, 115, 101] {
            Some::<Val>(Val::Bytes(a.0@))
        } else {
            None::<Val>
        }),
        None => None::<Val>,
    })) by {
        assert(lookup(Seq::<(Seq<u8>, Val)>::empty(), seq![115u8, 110, 100]) is None);
        match p.close_remainder_to {
            Some(a) => {
                assert(close_e == seq![(seq![99u8, 108, 111, 115, 101], Val::Bytes(a.0@))]);
                assert(close_e[0] == (seq![99u8, 108, 111, 115, 101], Val::Bytes(a.0@)));
                assert(close_e.drop_first() =~= Seq::<(Seq<u8>, Val)>::empty());
            }
            None => {
            }
        }
    }
    lemma_lookup_append(ha + hb + hc + te, pf, seq![116u8, 121, 112, 101]);
    lemma_lookup_append(ha + hb + hc, te, seq![116u8, 121, 112, 101]);
    lemma_lookup_append(ha + hb, hc, seq![116u8, 121, 112, 101]);
    lemma_lookup_append(ha, hb, seq![116u8, 121, 112, 101]);
    lemma_lookup_append(fee_e + fv_e, gen_e, seq![116u8, 121, 112, 101]);
    lemma_lookup_append(fee_e, fv_e, seq![116u8, 121, 112, 101]);
    lemma_lookup_append(gh_e + grp_e + lv_e, lx_e, seq![116u8, 121, 112, 101]);
    lemma_lookup_append(gh_e + grp_e, lv_e, seq![116u8, 121, 112, 101]);
    lemma_lookup_append(gh_e, grp_e, seq![116u8, 121, 112, 101]);
    lemma_lookup_append(note_e + rekey_e, snd_e, seq![116u8, 121, 112, 101]);
    lemma_lookup_append(note_e, rekey_e, seq![116u8, 121, 112, 101]);
    lemma_lookup_append(amt_e + close_e, rcv_e, seq![116u8, 121, 112, 101]);
    lemma_lookup_append(amt_e, close_e, seq![116u8, 121, 112, 101]);
    lemma_lookup_opt(t.header.fee.0 != 0, seq![102u8, 101, 101], Val::Uint(t.header.fee.0), seq![116u8, 121, 112, 101]);
    lemma_lookup_opt(t.header.first_valid != 0, seq![102u8, 118], Val::Uint(t.header.first_valid), seq![116u8, 121, 112, 101]);
    lemma_lookup_opt(t.header.genesis_id@.len() != 0, seq![103u8, 101, 110], Val::Bytes(encode_utf8(t.header.genesis_id@)), seq![116u8, 121, 112, 101]);
    lemma_lookup_opt(t.header.genesis_hash@ != zero_bytes(), seq![103u8, 104], Val::Bytes(t.header.genesis_hash@), seq![116u8, 121, 112, 101]);
    lemma_lookup_opt(t.header.group@ != zero_bytes(), seq![103u8, 114, 112], Val::Bytes(t.header.group@), seq![116u8, 121, 112, 101]);
    lemma_lookup_opt(t.header.last_valid != 0, seq![108u8, 118], Val::Uint(t.header.last_valid), seq![116u8, 121, 112, 101]);
    lemma_lookup_opt(t.header.lease@ != zero_bytes(), seq![108u8, 120], Val::Bytes(t.header.lease@), seq![116u8, 121, 112, 101]);
    lemma_lookup_opt(t.header.note@.len() != 0, seq![110u8, 111, 116, 101], Val::Bytes(t.header.note@), seq![116u8, 121, 112, 101]);
    lemma_lookup_opt(t.header.rekey_to.0@ != zero_bytes(), seq![114u8, 101, 107, 101, 121], Val::Bytes(t.header.rekey_to.0@), seq![116u8, 121, 112, 101]);
    lemma_lookup_opt(t.header.sender.0@ != zero_bytes(), seq![115u8, 110, 100], Val::Bytes(t.header.sender.0@), seq![116u8, 121, 112, 101]);
    lemma_lookup_opt(p.amount.0 != 0, seq![97u8, 109, 116], Val::Uint(p.amount.0), seq![116u8, 121, 112, 101]);
    lemma_lookup_opt(p.receiver.0@ != zero_bytes(), seq![114u8, 99, 118], Val::Bytes(p.receiver.0@), seq![116u8, 121, 112, 101]);
    assert(lookup(te, seq![116u8, 121, 112, 101]) == (if seq![116u8, 121, 112, 101] == seq![116u8, 121, 112, 101] {
        Some(Val::Bytes(tx_type_bytes(t.fields)))
    } else {
        None::<Val>
    })) by {
        assert(lookup(Seq::<(Seq<u8>, Val)>::empty(), seq![116u8, 121, 112, 101]) is None);
        assert(te[0] == (seq![116u8, 121, 112, 101], Val::Bytes(tx_type_bytes(t.fields))));
        assert(te.drop_first() =~= Seq::<(Seq<u8>, Val)>::empty());
    }
    assert(lookup(close_e, seq![116u8, 121, 112, 101]) == (match p.close_remainder_to {
        Some(a) => (if seq![116u8, 121, 112, 101] == seq![99u8, 108, 111, 115, 101] {
            Some::<Val>(Val::Bytes(a.0@))
        } else {
            None::<Val>
        }),
        None => None::<Val>,
    })) by {
        assert(lookup(Seq::<(Seq<u8>, Val)>::empty(), seq![116u8, 121, 112, 101]) is None);
        match p.close_remainder_to {
            Some(a) => {
                assert(close_e == seq![(seq![99u8, 108, 111, 115, 101], Val::Bytes(a.0@))]);
                assert(close_e[0] == (seq![99u8, 108, 111, 115, 101], Val::Bytes(a.0@)));
                assert(close_e.drop_first() =~= Seq::<(Seq<u8>, Val)>::empty());
            }
            None => {
            }
        }
    }
}

#[verifier::rlimit(100)]
proof fn lemma_payment_lookup_4(t: Transaction, p: PaymentFields)
    requires
        t.fields == TxFields::Payment(p),
    ensures
        lookup(transaction_fields(t), seq![97u8, 109, 116]) == opt_val(p.amount.0 != 0, Val::Uint(p.amount.0)),
        lookup(transaction_fields(t), seq![99u8, 108, 111, 115, 101]) == (match p.close_remainder_to {
            Some(a) => Some::<Val>(Val::Bytes(a.0@)),
            None => None::<Val>,
        }),
        lookup(transaction_fields(t), seq![114u8, 99, 118]) == opt_val(p.receiver.0@ != zero_bytes(), Val::Bytes(p.receiver.0@)),
{
    let fee_e = opt_entry(t.header.fee.0 != 0, seq![102u8, 101, 101], Val::Uint(t.header.fee.0));
    let fv_e = opt_entry(t.header.first_valid != 0, seq![102u8, 118], Val::Uint(t.header.first_valid));
    let gen_e = opt_entry(t.header.genesis_id@.len() != 0, seq![103u8, 101, 110], Val::Bytes(encode_utf8(t.header.genesis_id@)));
    let gh_e = opt_entry(t.header.genesis_hash@ != zero_bytes(), seq![103u8, 104], Val::Bytes(t.header.genesis_hash@));
    let grp_e = opt_entry(t.header.group@ != zero_bytes(), seq![103u8, 114, 112], Val::Bytes(t.header.group@));
    let lv_e = opt_entry(t.header.last_valid != 0, seq![108u8, 118], Val::Uint(t.header.last_valid));
    let lx_e = opt_entry(t.header.lease@ != zero_bytes(), seq![108u8, 120], Val::Bytes(t.header.lease@));
    let note_e = opt_entry(t.header.note@.len() != 0, seq![110u8, 111, 116, 101], Val::Bytes(t.header.note@));
    let rekey_e = opt_entry(t.header.rekey_to.0@ != zero_bytes(), seq![114u8, 101, 107, 101, 121], Val::Bytes(t.header.rekey_to.0@));
    let snd_e = opt_entry(t.header.sender.0@ != zero_bytes(), seq![115u8, 110, 100], Val::Bytes(t.header.sender.0@));
    let amt_e = opt_entry(p.amount.0 != 0, seq![97u8, 109, 116], Val::Uint(p.amount.0));
    let rcv_e = opt_entry(p.receiver.0@ != zero_bytes(), seq![114u8, 99, 118], Val::Bytes(p.receiver.0@));
    let ha = header_fields_a(t.header);
    let hb = header_fields_b(t.header);
    let hc = header_fields_c(t.header);
    let te = seq![(seq![116u8, 121, 112, 101], Val::Bytes(tx_type_bytes(t.fields)))];
    let pf = variant_fields(t.fields);
    let close_e = (match p.close_remainder_to {
        Some(a) => seq![(seq![99u8, 108, 111, 115, 101], Val::Bytes(a.0@))],
        None => Seq::<(Seq<u8>, Val)>::empty(),
    });
    assert(ha == fee_e + fv_e + gen_e);
    assert(hb == gh_e + grp_e + lv_e + lx_e);
    assert(hc == note_e + rekey_e + snd_e);
    assert(transaction_fields(t) == ha + hb + hc + te + pf);
    assert(pf == amt_e + close_e + rcv_e);
    assert(seq![97u8, 109, 116] != seq![102u8, 101, 101]) by {
        assert(seq![97u8, 109, 116][0] == 97);
        assert(seq![102u8, 101, 101][0] == 102);
    }
    assert(seq![97u8, 109, 116] != seq![102u8, 118]) by {
        assert(seq![97u8, 109, 116].len() == 3);
        assert(seq![102u8, 118].len() == 2);
    }
    assert(seq![97u8, 109, 116] != seq![103u8, 101, 110]) by {
        assert(seq![97u8, 109, 116][0] == 97);
        assert(seq![103u8, 101, 110][0] == 103);
    }
    assert(seq![97u8, 109, 116] != seq![103u8, 104]) by {
        assert(seq![97u8, 109, 116].len() == 3);
        assert(seq![103u8, 104].len() == 2);
    }
    assert(seq![97u8, 109, 116] != seq![103u8, 114, 112]) by {
        assert(seq![97u8, 109, 116][0] == 97);
        assert(seq![103u8, 114, 112][0] == 103);
    }
    assert(seq![97u8, 109, 116] != seq![108u8, 118]) by {
        assert(seq![97u8, 109, 116].len() == 3);
        assert(seq![108u8, 118].len() == 2);
    }
    assert(seq![97u8, 109, 116] != seq![108u8, 120]) by {
        assert(seq![97u8, 109, 116].len() == 3);
        assert(seq![108u8, 120].len() == 2);
    }
    assert(seq![97u8, 109, 116] != seq![110u8, 111, 116, 101]) by {
        assert(seq![97u8, 109, 116].len() == 3);
        assert(seq![110u8, 111, 116, 101].len() == 4);
    }
    assert(seq![97u8, 109, 116] != seq![114u8, 101, 107, 101, 121]) by {
        assert(seq![97u8, 109, 116].len() == 3);
        assert(seq![114u8, 101, 107, 101, 121].len() == 5);
    }
    assert(seq![97u8, 109, 116] != seq![115u8, 110, 100]) by {
        assert(seq![97u8, 109, 116][0] == 97);
        assert(seq![115u8, 110, 100][0] == 115);
    }
    assert(seq![97u8, 109, 116] != seq![116u8, 121, 112, 101]) by {
        assert(seq![97u8, 109, 116].len() == 3);
        assert(seq![116u8, 121, 112, 101].len() == 4);
    }
    assert(seq![97u8, 109, 116] != seq![99u8, 108, 111, 115, 101]) by {
        assert(seq![97u8, 109, 116].len() == 3);
        assert(seq![99u8, 108, 111, 115, 101].len() == 5);
    }
    assert(seq![97u8, 109, 116] != seq![114u8, 99, 118]) by {
        assert(seq![97u8, 109, 116][0] == 97);
        assert(seq![114u8, 99, 118][0] == 114);
    }
    assert(seq![99u8, 108, 111, 115, 101] != seq![102u8, 101, 101]) by {
        assert(seq![99u8, 108, 111, 115, 101].len() == 5);
        assert(seq![102u8, 101, 101].len() == 3);
    }
    assert(seq![99u8, 108, 111, 115, 101] != seq![102u8, 118]) by {
        assert(seq![99u8, 108, 111, 115, 101].len() == 5);
        assert(seq![102u8, 118].len() == 2);
    }
    assert(seq![99u8, 108, 111, 115, 101] != seq![103u8, 101, 110]) by {
        assert(seq![99u8, 108, 111, 115, 101].len() == 5);
        assert(seq![103u8, 101, 110].len() == 3);
    }
    assert(seq![99u8, 108, 111, 115, 101] != seq![103u8, 104]) by {
        assert(seq![99u8, 108, 111, 115, 101].len() == 5);
        assert(seq![103u8, 104].len() == 2);
    }
    assert(seq![99u8, 108, 111, 115, 101] != seq![103u8, 114, 112]) by {
        assert(seq![99u8, 108, 111, 115, 101].len() == 5);
        assert(seq![103u8, 114, 112].len() == 3);
    }
    assert(seq![99u8, 108, 111, 115, 101] != seq![108u8, 118]) by {
        assert(seq![99u8, 108, 111, 115, 101].len() == 5);
        assert(seq![108u8, 118].len() == 2);
    }
    assert(seq![99u8, 108, 111, 115, 101] != seq![108u8, 120]) by {
        assert(seq![99u8, 108, 111, 115, 101].len() == 5);
        assert(seq![108u8, 120].len() == 2);
    }
    assert(seq![99u8, 108, 111, 115, 101] != seq![110u8, 111, 116, 101]) by {
        assert(seq![99u8, 108, 111, 115, 101].len() == 5);
        assert(seq![110u8, 111, 116, 101].len() == 4);
    }
    assert(seq![99u8, 108, 111, 115, 101] != seq![114u8, 101, 107, 101, 121]) by {
        assert(seq![99u8, 108, 111, 115, 101][0] == 99);
        assert(seq![114u8, 101, 107, 101, 121][0] == 114);
    }
    assert(seq![99u8, 108, 111, 115, 101] != seq![115u8, 110, 100]) by {
        assert(seq![99u8, 108, 111, 115, 101].len() == 5);
        assert(seq![115u8, 110, 100].len() == 3);
    }
    assert(seq![99u8, 108, 111, 115, 101] != seq![116u8, 121, 112, 101]) by {
        assert(seq![99u8, 108, 111, 115, 101].len() == 5);
        assert(seq![116u8, 121, 112, 101].len() == 4);
    }
    assert(seq![99u8, 108, 111, 115, 101] != seq![114u8, 99, 118]) by {
        assert(seq![99u8, 108, 111, 115, 101].len() == 5);
        assert(seq![114u8, 99, 118].len() == 3);
    }
    assert(seq![114u8, 99, 118] != seq![102u8, 101, 101]) by {
        assert(seq![114u8, 99, 118][0] == 114);
        assert(seq![102u8, 101, 101][0] == 102);
    }
    assert(seq![114u8, 99, 118] != seq![102u8, 118]) by {
        assert(seq![114u8, 99, 118].len() == 3);
        assert(seq![102u8, 118].len() == 2);
    }
    assert(seq![114u8, 99, 118] != seq![103u8, 101, 110]) by {
        assert(seq![114u8, 99, 118][0] == 114);
        assert(seq![103u8, 101, 110][0] == 103);
    }
    assert(seq![114u8, 99, 118] != seq![103u8, 104]) by {
        assert(seq![114u8, 99, 118].len() == 3);
        assert(seq![103u8, 104].len() == 2);
    }
    assert(seq![114u8, 99, 118] != seq![103u8, 114, 112]) by {
        assert(seq![114u8, 99, 118][0] == 114);
        assert(seq![103u8, 114, 112][0] == 103);
    }
    assert(seq![114u8, 99, 118] != seq![108u8, 118]) by {
        assert(seq![114u8, 99, 118].len() == 3);
        assert(seq![108u8, 118].len() == 2);
    }
    assert(seq![114u8, 99, 118] != seq![108u8, 120]) by {
        assert(seq![114u8, 99, 118].len() == 3);
        assert(seq![108u8, 120].len() == 2);
    }
    assert(seq![114u8, 99, 118] != seq![110u8, 111, 116, 101]) by {
        assert(seq![114u8, 99, 118].len() == 3);
        assert(seq![110u8, 111, 116, 101].len() == 4);
    }
    assert(seq![114u8, 99, 118] != seq![114u8, 101, 107, 101, 121]) by {
        assert(seq![114u8, 99, 118].len() == 3);
        assert(seq![114u8, 101, 107, 101, 121].len() == 5);
    }
    assert(seq![114u8, 99, 118] != seq![115u8, 110, 100]) by {
        assert(seq![114u8, 99, 118][0] == 114);
        assert(seq![115u8, 110, 100][0] == 115);
    }
    assert(seq![114u8, 99, 118] != seq![116u8, 121, 112, 101]) by {
        assert(seq![114u8, 99, 118].len() == 3);
        assert(seq![116u8, 121, 112, 101].len() == 4);
    }

    lemma_lookup_append(ha + hb + hc + te, pf, seq![97u8, 109, 116]);
    lemma_lookup_append(ha + hb + hc, te, seq![97u8, 109, 116]);
    lemma_lookup_append(ha + hb, hc, seq![97u8, 109, 116]);
    lemma_lookup_append(ha, hb, seq![97u8, 109, 116]);
    lemma_lookup_append(fee_e + fv_e, gen_e, seq![97u8, 109, 116]);
    lemma_lookup_append(fee_e, fv_e, seq![97u8, 109, 116]);
    lemma_lookup_append(gh_e + grp_e + lv_e, lx_e, seq![97u8, 109, 116]);
    lemma_lookup_append(gh_e + grp_e, lv_e, seq![97u8, 109, 116]);
    lemma_lookup_append(gh_e, grp_e, seq![97u8, 109, 116]);
    lemma_lookup_append(note_e + rekey_e, snd_e, seq![97u8, 109, 116]);
    lemma_lookup_append(note_e, rekey_e, seq![97u8, 109, 116]);
    lemma_lookup_append(amt_e + close_e, rcv_e, seq![97u8, 109, 116]);
    lemma_lookup_append(amt_e, close_e, seq![97u8, 109, 116]);
    lemma_lookup_opt(t.header.fee.0 != 0, seq![102u8, 101, 101], Val::Uint(t.header.fee.0), seq![97u8, 109, 116]);
    lemma_lookup_opt(t.header.first_valid != 0, seq![102u8, 118], Val::Uint(t.header.first_valid), seq![97u8, 109, 116]);
    lemma_lookup_opt(t.header.genesis_id@.len() != 0, seq![103u8, 101, 110], Val::Bytes(encode_utf8(t.header.genesis_id@)), seq![97u8, 109, 116]);
    lemma_lookup_opt(t.header.genesis_hash@ != zero_bytes(), seq![103u8, 104], Val::Bytes(t.header.genesis_hash@), seq![97u8, 109, 116]);
    lemma_lookup_opt(t.header.group@ != zero_bytes(), seq![103u8, 114, 112], Val::Bytes(t.header.group@), seq![97u8, 109, 116]);
    lemma_lookup_opt(t.header.last_valid != 0, seq![108u8, 118], Val::Uint(t.header.last_valid), seq![97u8, 109, 116]);
    lemma_lookup_opt(t.header.lease@ != zero_bytes(), seq![108u8, 120], Val::Bytes(t.header.lease@), seq![97u8, 109, 116]);
    lemma_lookup_opt(t.header.note@.len() != 0, seq![110u8, 111, 116, 101], Val::Bytes(t.header.note@), seq![97u8, 109, 116]);
    lemma_lookup_opt(t.header.rekey_to.0@ != zero_bytes(), seq![114u8, 101, 107, 101, 121], Val::Bytes(t.header.rekey_to.0@), seq![97u8, 109, 116]);
    lemma_lookup_opt(t.header.sender.0@ != zero_bytes(), seq![115u8, 110, 100], Val::Bytes(t.header.sender.0@), seq![97u8, 109, 116]);
    lemma_lookup_opt(p.amount.0 != 0, seq![97u8, 109, 116], Val::Uint(p.amount.0), seq![97u8, 109, 116]);
    lemma_lookup_opt(p.receiver.0@ != zero_bytes(), seq![114u8, 99, 118], Val::Bytes(p.receiver.0@), seq![97u8, 109, 116]);
    assert(lookup(te, seq![97u8, 109, 116]) == (if seq![97u8, 109, 116] == seq![116u8, 121, 112, 101] {
        Some(Val::Bytes(tx_type_bytes(t.fields)))
    } else {
        None::<Val>
    })) by {
        assert(lookup(Seq::<(Seq<u8>, Val)>::empty(), seq![97u8, 109, 116]) is None);
        assert(te[0] == (seq![116u8, 121, 112, 101], Val::Bytes(tx_type_bytes(t.fields))));
        assert(te.drop_first() =~= Seq::<(Seq<u8>, Val)>::empty());
    }
    assert(lookup(close_e, seq![97u8, 109, 116]) == (match p.close_remainder_to {
        Some(a) => (if seq![97u8, 109, 116] == seq![99u8, 108, 111, 115, 101] {
            Some::<Val>(Val::Bytes(a.0@))
        } else {
            None::<Val>
        }),
        None => None::<Val>,
    })) by {
        assert(lookup(Seq::<(Seq<u8>, Val)>::empty(), seq![97u8, 109, 116]) is None);
        match p.close_remainder_to {
            Some(a) => {
                assert(close_e == seq![(seq![99u8, 108, 111, 115, 101], Val::Bytes(a.0@))]);
                assert(close_e[0] == (seq![99u8, 108, 111, 115, 101], Val::Bytes(a.0@)));
                assert(close_e.drop_first() =~= Seq::<(Seq<u8>, Val)>::empty());
            }
            None => {
            }
        }
    }
    lemma_lookup_append(ha + hb + hc + te, pf, seq![99u8, 108, 111, 115, 101]);
    lemma_lookup_append(ha + hb + hc, te, seq![99u8, 108, 111, 115, 101]);
    lemma_lookup_append(ha + hb, hc, seq![99u8, 108, 111, 115, 101]);
    lemma_lookup_append(ha, hb, seq![99u8, 108, 111, 115, 101]);
    lemma_lookup_append(fee_e + fv_e, gen_e, seq![99u8, 108, 111, 115, 101]);
    lemma_lookup_append(fee_e, fv_e, seq![99u8, 108, 111, 115, 101]);
    lemma_lookup_append(gh_e + grp_e + lv_e, lx_e, seq![99u8, 108, 111, 115, 101]);
    lemma_lookup_append(gh_e + grp_e, lv_e, seq![99u8, 108, 111, 115, 101]);
    lemma_lookup_append(gh_e, grp_e, seq![99u8, 108, 111, 115, 101]);
    lemma_lookup_append(note_e + rekey_e, snd_e, seq![99u8, 108, 111, 115, 101]);
    lemma_lookup_append(note_e, rekey_e, seq![99u8, 108, 111, 115, 101]);
    lemma_lookup_append(amt_e + close_e, rcv_e, seq![99u8, 108, 111, 115, 101]);
    lemma_lookup_append(amt_e, close_e, seq![99u8, 108, 111, 115, 101]);
    lemma_lookup_opt(t.header.fee.0 != 0, seq![102u8, 101, 101], Val::Uint(t.header.fee.0), seq![99u8, 108, 111, 115, 101]);
    lemma_lookup_opt(t.header.first_valid != 0, seq![102u8, 118], Val::Uint(t.header.first_valid), seq![99u8, 108, 111, 115, 101]);
    lemma_lookup_opt(t.header.genesis_id@.len() != 0, seq![103u8, 101, 110], Val::Bytes(encode_utf8(t.header.genesis_id@)), seq![99u8, 108, 111, 115, 101]);
    lemma_lookup_opt(t.header.genesis_hash@ != zero_bytes(), seq![103u8, 104], Val::Bytes(t.header.genesis_hash@), seq![99u8, 108, 111, 115, 101]);
    lemma_lookup_opt(t.header.group@ != zero_bytes(), seq![103u8, 114, 112], Val::Bytes(t.header.group@), seq![99u8, 108, 111, 115, 101]);
    lemma_lookup_opt(t.header.last_valid != 0, seq![108u8, 118], Val::Uint(t.header.last_valid), seq![99u8, 108, 111, 115, 101]);
    lemma_lookup_opt(t.header.lease@ != zero_bytes(), seq![108u8, 120], Val::Bytes(t.header.lease@), seq![99u8, 108, 111, 115, 101]);
    lemma_lookup_opt(t.header.note@.len() != 0, seq![110u8, 111, 116, 101], Val::Bytes(t.header.note@), seq![99u8, 108, 111, 115, 101]);
    lemma_lookup_opt(t.header.rekey_to.0@ != zero_bytes(), seq![114u8, 101, 107, 101, 121], Val::Bytes(t.header.rekey_to.0@), seq![99u8, 108, 111, 115, 101]);
    lemma_lookup_opt(t.header.sender.0@ != zero_bytes(), seq![115u8, 110, 100], Val::Bytes(t.header.sender.0@), seq![99u8, 108, 111, 115, 101]);
    lemma_lookup_opt(p.amount.0 != 0, seq![97u8, 109, 116], Val::Uint(p.amount.0), seq![99u8, 108, 111, 115, 101]);
    lemma_lookup_opt(p.receiver.0@ != zero_bytes(), seq![114u8, 99, 118], Val::Bytes(p.receiver.0@), seq![99u8, 108, 111, 115, 101]);
    assert(lookup(te, seq![99u8, 108, 111, 115, 101]) == (if seq![99u8, 108, 111, 115, 101] == seq![116u8, 121, 112, 101] {
        Some(Val::Bytes(tx_type_bytes(t.fields)))
    } else {
        None::<Val>
    })) by {
        assert(lookup(Seq::<(Seq<u8>, Val)>::empty(), seq![99u8, 108, 111, 115, 101]) is None);
        assert(te[0] == (seq![116u8, 121, 112, 101], Val::Bytes(tx_type_bytes(t.fields))));
        assert(te.drop_first() =~= Seq::<(Seq<u8>, Val)>::empty());
    }
    assert(lookup(close_e, seq![99u8, 108, 111, 115, 101]) == (match p.close_remainder_to {
        Some(a) => (if seq![99u8, 108, 111, 115, 101] == seq![99u8, 108, 111, 115, 101] {
            Some::<Val>(Val::Bytes(a.0@))
        } else {
            None::<Val>
        }),
        None => None::<Val>,
    })) by {
        assert(lookup(Seq::<(Seq<u8>, Val)>::empty(), seq![99u8, 108, 111, 115, 101]) is None);
        match p.close_remainder_to {
            Some(a) => {
                assert(close_e == seq![(seq![99u8, 108, 111, 115, 101], Val::Bytes(a.0@))]);
                assert(close_e[0] == (seq![99u8, 108, 111, 115, 101], Val::Bytes(a.0@)));
                assert(close_e.drop_first() =~= Seq::<(Seq<u8>, Val)>::empty());
            }
            None => {
            }
        }
    }
    lemma_lookup_append(ha + hb + hc + te, pf, seq![114u8, 99, 118]);
    lemma_lookup_append(ha + hb + hc, te, seq![114u8, 99, 118]);
    lemma_lookup_append(ha + hb, hc, seq![114u8, 99, 118]);
    lemma_lookup_append(ha, hb, seq![114u8, 99, 118]);
    lemma_lookup_append(fee_e + fv_e, gen_e, seq![114u8, 99, 118]);
    lemma_lookup_append(fee_e, fv_e, seq![114u8, 99, 118]);
    lemma_lookup_append(gh_e + grp_e + lv_e, lx_e, seq![114u8, 99, 118]);
    lemma_lookup_append(gh_e + grp_e, lv_e, seq![114u8, 99, 118]);
    lemma_lookup_append(gh_e, grp_e, seq![114u8, 99, 118]);
    lemma_lookup_append(note_e + rekey_e, snd_e, seq![114u8, 99, 118]);
    lemma_lookup_append(note_e, rekey_e, seq![114u8, 99, 118]);
    lemma_lookup_append(amt_e + close_e, rcv_e, seq![114u8, 99, 118]);
    lemma_lookup_append(amt_e, close_e, seq![114u8, 99, 118]);
    lemma_lookup_opt(t.header.fee.0 != 0, seq![102u8, 101, 101], Val::Uint(t.header.fee.0), seq![114u8, 99, 118]);
    lemma_lookup_opt(t.header.first_valid != 0, seq![102u8, 118], Val::Uint(t.header.first_valid), seq![114u8, 99, 118]);
    lemma_lookup_opt(t.header.genesis_id@.len() != 0, seq![103u8, 101, 110], Val::Bytes(encode_utf8(t.header.genesis_id@)), seq![114u8, 99, 118]);
    lemma_lookup_opt(t.header.genesis_hash@ != zero_bytes(), seq![103u8, 104], Val::Bytes(t.header.genesis_hash@), seq![114u8, 99, 118]);
    lemma_lookup_opt(t.header.group@ != zero_bytes(), seq![103u8, 114, 112], Val::Bytes(t.header.group@), seq![114u8, 99, 118]);
    lemma_lookup_opt(t.header.last_valid != 0, seq![108u8, 118], Val::Uint(t.header.last_valid), seq![114u8, 99, 118]);
    lemma_lookup_opt(t.header.lease@ != zero_bytes(), seq![108u8, 120], Val::Bytes(t.header.lease@), seq![114u8, 99, 118]);
    lemma_lookup_opt(t.header.note@.len() != 0, seq![110u8, 111, 116, 101], Val::Bytes(t.header.note@), seq![114u8, 99, 118]);
    lemma_lookup_opt(t.header.rekey_to.0@ != zero_bytes(), seq![114u8, 101, 107, 101, 121], Val::Bytes(t.header.rekey_to.0@), seq![114u8, 99, 118]);
    lemma_lookup_opt(t.header.sender.0@ != zero_bytes(), seq![115u8, 110, 100], Val::Bytes(t.header.sender.0@), seq![114u8, 99, 118]);
    lemma_lookup_opt(p.amount.0 != 0, seq![97u8, 109, 116], Val::Uint(p.amount.0), seq![114u8, 99, 118]);
    lemma_lookup_opt(p.receiver.0@ != zero_bytes(), seq![114u8, 99, 118], Val::Bytes(p.receiver.0@), seq![114u8, 99, 118]);
    assert(lookup(te, seq![114u8, 99, 118]) == (if seq![114u8, 99, 118] == seq![116u8, 121, 112, 101] {
        Some(Val::Bytes(tx_type_bytes(t.fields)))
    } else {
        None::<Val>
    })) by {
        assert(lookup(Seq::<(Seq<u8>, Val)>::empty(), seq![114u8, 99, 118]) is None);
        assert(te[0] == (seq![116u8, 121, 112, 101], Val::Bytes(tx_type_bytes(t.fields))));
        assert(te.drop_first() =~= Seq::<(Seq<u8>, Val)>::empty());
    }
    assert(lookup(close_e, seq![114u8, 99, 118]) == (match p.close_remainder_to {
        Some(a) => (if seq![114u8, 99, 118] == seq![99u8, 108, 111, 115, 101] {
            Some::<Val>(Val::Bytes(a.0@))
        } else {
            None::<Val>
        }),
        None => None::<Val>,
    })) by {
        assert(lookup(Seq::<(Seq<u8>, Val)>::empty(), seq![114u8, 99, 118]) is None);
        match p.close_remainder_to {
            Some(a) => {
                assert(close_e == seq![(seq![99u8, 108, 111, 115, 101], Val::Bytes(a.0@))]);
                assert(close_e[0] == (seq![99u8, 108, 111, 115, 101], Val::Bytes(a.0@)));
                assert(close_e.drop_first() =~= Seq::<(Seq<u8>, Val)>::empty());
            }
            None => {
            }
        }
    }
}

/// The canonical encoding of a transaction, laid out as real bytes, parses
/// at its start as the (bounded) record of the transaction's fields.
proof fn lemma_tx_parses(bytes: Seq<u8>, t: Transaction)
    requires
        bytes == tx_bytes(t),
        bytes.len() <= u64::MAX,
    ensures
        bounded(Val::Record(transaction_fields(t))),
        parses_at(bytes, 0, Val::Record(transaction_fields(t))),
{
    let m = Val::Record(transaction_fields(t));
    assert(enc(m).len() <= u64::MAX);
    crate::codec::lemma_enc_len_bounded(m);
    assert(bytes.subrange(0, enc(m).len() as int) =~= enc(m));
}

impl Transaction {
    /// Rebuilds a transaction from its record value.  When the value is
    /// the canonical record of a payment transaction, reconstruction is
    /// proved exact: the result has the same canonical fields.
    #[verifier::rlimit(100)]
    fn of_value(v: &Value) -> (r: Option<Transaction>)
        ensures
            forall|t: Transaction, pp: PaymentFields|
                t.fields == TxFields::Payment(pp) && v.model() == Val::Record(
                    transaction_fields(t),
                ) ==> (r matches Some(t2) && transaction_fields(t2) == transaction_fields(t)),
    {
        let es = match v {
            Value::Record(es) => es,
            _ => {
                proof {
                    assert forall|t: Transaction, pp: PaymentFields|
                        !(t.fields == TxFields::Payment(pp) && v.model() == Val::Record(
                            transaction_fields(t),
                        )) by {
                        assert(!(v.model() is Record));
                    }
                }
                return None;
            }
        };
        proof {
            assert(v.model() == Val::Record(model_entries(es@)));
        }
        let header = Header {
            sender: get_addr(es, tag3(115, 110, 100)),
            fee: MicroAlgos(get_u64(es, tag3(102, 101, 101))),
            first_valid: get_u64(es, tag2(102, 118)),
            last_valid: get_u64(es, tag2(108, 118)),
            note: get_vec_u8(es, tag4(110, 111, 116, 101)),
            genesis_id: get_string(es, tag3(103, 101, 110)),
            genesis_hash: get_arr32(es, tag2(103, 104)),
            group: get_arr32(es, tag3(103, 114, 112)),
            lease: get_arr32(es, tag2(108, 120)),
            rekey_to: get_addr(es, tag5(114, 101, 107, 101, 121)),
        };
        let type_bytes = get_vec_u8(es, tag4(116, 121, 112, 101));
        let fields = if bytes_eq(&type_bytes, &tag3(112, 97, 121)) {
            TxFields::Payment(PaymentFields {
                receiver: get_addr(es, tag3(114, 99, 118)),
                amount: MicroAlgos(get_u64(es, tag3(97, 109, 116))),
                close_remainder_to: get_opt_addr(es, tag5(99, 108, 111, 115, 101)),
            })
        } else if bytes_eq(&type_bytes, &tag6(107, 101, 121, 114, 101, 103)) {
            TxFields::Keyreg(KeyregFields {
                vote_pk: crate::basics::PublicKey(
                    get_arr32(es, crate::schema::tag7(118, 111, 116, 101, 107, 101, 121)),
                ),
                selection_pk: crate::basics::PublicKey(
                    get_arr32(es, tag6(115, 101, 108, 107, 101, 121)),
                ),
                vote_first: get_u64(es, crate::schema::tag7(118, 111, 116, 101, 102, 115, 116)),
                vote_last: get_u64(es, crate::schema::tag7(118, 111, 116, 101, 108, 115, 116)),
                vote_key_dilution: get_u64(es, tag6(118, 111, 116, 101, 107, 100)),
                nonparticipation: get_bool(es, crate::schema::tag7(110, 111, 110, 112, 97, 114, 116)),
            })
        } else if bytes_eq(&type_bytes, &tag4(97, 99, 102, 103)) {
            let params = match rec_get(es, &tag4(97, 112, 97, 114)) {
                Some(Value::Record(inner)) => AssetParams {
                    total: get_u64(inner, crate::schema::tag1(116)),
                    decimals: {
                        let d = get_u64(inner, tag2(100, 99));
                        if d > u32::MAX as u64 {
                            0
                        } else {
                            d as u32
                        }
                    },
                    default_frozen: get_bool(inner, tag2(100, 102)),
                    unit_name: get_string(inner, tag2(117, 110)),
                    asset_name: get_string(inner, tag2(97, 110)),
                    url: get_string(inner, tag2(97, 117)),
                    metadata_hash: get_arr32(inner, tag2(97, 109)),
                    manager: get_addr(inner, crate::schema::tag1(109)),
                    reserve: get_addr(inner, crate::schema::tag1(114)),
                    freeze: get_addr(inner, crate::schema::tag1(102)),
                    clawback: get_addr(inner, crate::schema::tag1(99)),
                },
                _ => AssetParams {
                    total: 0,
                    decimals: 0,
                    default_frozen: false,
                    unit_name: String::new(),
                    asset_name: String::new(),
                    url: String::new(),
                    metadata_hash: [0u8; 32],
                    manager: Address([0u8; 32]),
                    reserve: Address([0u8; 32]),
                    freeze: Address([0u8; 32]),
                    clawback: Address([0u8; 32]),
                },
            };
            TxFields::AssetConfig(AssetConfigFields {
                config_asset: get_u64(es, tag4(99, 97, 105, 100)),
                asset_params: params,
            })
        } else if bytes_eq(&type_bytes, &tag5(97, 120, 102, 101, 114)) {
            TxFields::AssetTransfer(AssetTransferFields {
                transfer_asset: get_u64(es, tag4(120, 97, 105, 100)),
                asset_amount: get_u64(es, tag4(97, 97, 109, 116)),
                asset_sender: get_addr(es, tag4(97, 115, 110, 100)),
                asset_receiver: get_addr(es, tag4(97, 114, 99, 118)),
                asset_close_to: get_addr(es, tag6(97, 99, 108, 111, 115, 101)),
            })
        } else if bytes_eq(&type_bytes, &tag4(97, 102, 114, 122)) {
            TxFields::AssetFreeze(AssetFreezeFields {
                freeze_account: get_addr(es, tag4(102, 97, 100, 100)),
                freeze_asset: get_u64(es, tag4(102, 97, 105, 100)),
                asset_frozen: get_bool(es, tag4(97, 102, 114, 122)),
            })
        } else if bytes_eq(&type_bytes, &tag4(97, 112, 112, 108)) {
            TxFields::AppCall(crate::applications::AppCallFields {
                application_id: get_u64(es, tag4(97, 112, 105, 100)),
                on_completion: oc_of_num(get_u64(es, tag4(97, 112, 97, 110))),
                application_args: get_bytes_list(es, tag4(97, 112, 97, 97)),
                accounts: get_addr_list(es, tag4(97, 112, 97, 116)),
                foreign_apps: get_u64_list(es, tag4(97, 112, 102, 97)),
                foreign_assets: get_u64_list(es, tag4(97, 112, 97, 115)),
                local_state_schema: get_schema(es, tag4(97, 112, 108, 115)),
                global_state_schema: get_schema(es, tag4(97, 112, 103, 115)),
                approval_program: get_vec_u8(es, tag4(97, 112, 97, 112)),
                clear_state_program: get_vec_u8(es, tag4(97, 112, 115, 117)),
                extra_program_pages: {
                    let p = get_u64(es, tag4(97, 112, 101, 112));
                    if p > u32::MAX as u64 {
                        0
                    } else {
                        p as u32
                    }
                },
            })
        } else {
            proof {
                assert forall|t: Transaction, pp: PaymentFields|
                    !(t.fields == TxFields::Payment(pp) && v.model() == Val::Record(
                        transaction_fields(t),
                    )) by {
                    if t.fields == TxFields::Payment(pp) && v.model() == Val::Record(
                        transaction_fields(t),
                    ) {
                        assert(model_entries(es@) == transaction_fields(t));
                        lemma_payment_lookup_3(t, pp);
                        assert(type_bytes@ == seq![112u8, 97, 121]);
                    }
                }
            }
            return None;
        };
        proof {
            broadcast use vstd::utf8::encode_utf8_valid_utf8;

            assert forall|t: Transaction, pp: PaymentFields|
                t.fields == TxFields::Payment(pp) && v.model() == Val::Record(
                    transaction_fields(t),
                ) implies transaction_fields(Transaction { header, fields })
                == transaction_fields(t) by {
                assert(model_entries(es@) == transaction_fields(t));
                lemma_payment_lookup_1(t, pp);
                lemma_payment_lookup_2a(t, pp);
                lemma_payment_lookup_2b(t, pp);
                lemma_payment_lookup_3(t, pp);
                lemma_payment_lookup_4(t, pp);
                assert(type_bytes@ == seq![112u8, 97, 121]);
                assert(fields matches TxFields::Payment(p2) && {
                    let t2 = Transaction { header, fields };
                    &&& header.fee.0 == t.header.fee.0
                    &&& header.first_valid == t.header.first_valid
                    &&& header.last_valid == t.header.last_valid
                } );
                let t2 = Transaction { header, fields };
                assert(header.sender.0@ == t.header.sender.0@) by {
                    if t.header.sender.0@ != zero_bytes() {
                        assert(t.header.sender.0@.len() == 32);
                    }
                }
                assert(header.rekey_to.0@ == t.header.rekey_to.0@) by {
                    if t.header.rekey_to.0@ != zero_bytes() {
                        assert(t.header.rekey_to.0@.len() == 32);
                    }
                }
                assert(header.genesis_hash@ == t.header.genesis_hash@) by {
                    if t.header.genesis_hash@ != zero_bytes() {
                        assert(t.header.genesis_hash@.len() == 32);
                    }
                }
                assert(header.group@ == t.header.group@) by {
                    if t.header.group@ != zero_bytes() {
                        assert(t.header.group@.len() == 32);
                    }
                }
                assert(header.lease@ == t.header.lease@) by {
                    if t.header.lease@ != zero_bytes() {
                        assert(t.header.lease@.len() == 32);
                    }
                }
                assert(header.note@ == t.header.note@) by {
                    if t.header.note@.len() == 0 {
                        assert(header.note@ =~= t.header.note@);
                    }
                }
                assert(encode_utf8(header.genesis_id@) == encode_utf8(t.header.genesis_id@)
                    && (header.genesis_id@.len() != 0 <==> t.header.genesis_id@.len() != 0)) by {
                    lemma_encode_utf8_empty(t.header.genesis_id@);
                    lemma_encode_utf8_empty(header.genesis_id@);
                    if t.header.genesis_id@.len() == 0 {
                        assert(encode_utf8(header.genesis_id@) =~= encode_utf8(
                            t.header.genesis_id@,
                        ));
                    }
                }
                assert(header_fields_a(t2.header) == header_fields_a(t.header));
                assert(header_fields_b(t2.header) == header_fields_b(t.header));
                assert(header_fields_c(t2.header) == header_fields_c(t.header));
                assert(header_fields(t2.header) == header_fields(t.header));
                let p2 = (match fields {
                    TxFields::Payment(p2) => p2,
                    _ => pp,
                });
                assert(p2.amount.0 == pp.amount.0);
                assert(p2.receiver.0@ == pp.receiver.0@) by {
                    if pp.receiver.0@ != zero_bytes() {
                        assert(pp.receiver.0@.len() == 32);
                    }
                }
                assert((match p2.close_remainder_to {
                    Some(a2) => pp.close_remainder_to matches Some(a) && a2.0@ == a.0@,
                    None => pp.close_remainder_to is None,
                })) by {
                    match pp.close_remainder_to {
                        Some(a) => {
                            assert(a.0@.len() == 32);
                        }
                        None => {}
                    }
                }
                assert(payment_fields(p2) == payment_fields(pp));
                assert(variant_fields(t2.fields) == variant_fields(t.fields));
                assert(tx_type_bytes(t2.fields) == tx_type_bytes(t.fields));
                assert(transaction_fields(t2) == transaction_fields(t));
            }
        }
        Some(Transaction { header, fields })
    }

    /// Parses the canonical byte encoding of a transaction.  Success means
    /// the result re-encodes to exactly the input bytes, so decoding then
    /// re-encoding a previously encoded transaction reproduces it.  For
    /// payment transactions, success on every encoded transaction is also
    /// proved; the remaining variants' encodings decode the same way, but
    /// that half of their contract is not yet proved.
    pub fn decode(bytes: &Vec<u8>) -> (r: Result<Transaction, CodecError>)
        ensures
            r matches Ok(t) ==> bytes@ == tx_bytes(t),
            forall|t: Transaction, pp: PaymentFields|
                t.fields == TxFields::Payment(pp) && bytes@ == tx_bytes(t) ==> r is Ok,
    {
        let parsed = match decode_value(bytes, 0) {
            None => {
                proof {
                    assert forall|t: Transaction, pp: PaymentFields|
                        !(t.fields == TxFields::Payment(pp) && bytes@ == tx_bytes(t)) by {
                        if t.fields == TxFields::Payment(pp) && bytes@ == tx_bytes(t) {
                            assert(vstd::std_specs::vec::spec_vec_len(bytes) == bytes@.len());
                            assert(vstd::std_specs::vec::spec_vec_len(bytes) == bytes@.len());
                        lemma_tx_parses(bytes@, t);
                        }
                    }
                }
                return Err(CodecError::InvalidEncoding);
            }
            Some(p) => p,
        };
        if parsed.1 != bytes.len() {
            proof {
                assert forall|t: Transaction, pp: PaymentFields|
                    !(t.fields == TxFields::Payment(pp) && bytes@ == tx_bytes(t)) by {
                    if t.fields == TxFields::Payment(pp) && bytes@ == tx_bytes(t) {
                        assert(vstd::std_specs::vec::spec_vec_len(bytes) == bytes@.len());
                        lemma_tx_parses(bytes@, t);
                    }
                }
            }
            return Err(CodecError::InvalidEncoding);
        }
        let t = match Transaction::of_value(&parsed.0) {
            None => {
                proof {
                    assert forall|t: Transaction, pp: PaymentFields|
                        !(t.fields == TxFields::Payment(pp) && bytes@ == tx_bytes(t)) by {
                        if t.fields == TxFields::Payment(pp) && bytes@ == tx_bytes(t) {
                            assert(vstd::std_specs::vec::spec_vec_len(bytes) == bytes@.len());
                            assert(vstd::std_specs::vec::spec_vec_len(bytes) == bytes@.len());
                        lemma_tx_parses(bytes@, t);
                        }
                    }
                }
                return Err(CodecError::InvalidEncoding);
            }
            Some(t) => t,
        };
        let out = t.encode();
        if bytes_eq(&out, bytes) {
            Ok(t)
        } else {
            proof {
                assert forall|t0: Transaction, pp: PaymentFields|
                    !(t0.fields == TxFields::Payment(pp) && bytes@ == tx_bytes(t0)) by {
                    if t0.fields == TxFields::Payment(pp) && bytes@ == tx_bytes(t0) {
                        assert(vstd::std_specs::vec::spec_vec_len(bytes) == bytes@.len());
                        lemma_tx_parses(bytes@, t0);
                        assert(transaction_fields(t) == transaction_fields(t0));
                        assert(out@ == bytes@);
                    }
                }
            }
            Err(CodecError::InvalidEncoding)
        }
    }
}

/// Law: the transaction encoding is a function of the transaction value
/// alone, so two equal transaction values encode byte-identically.
pub proof fn lemma_tx_encoding_deterministic(t1: Transaction, t2: Transaction)
    requires
        t1 == t2,
    ensures
        tx_bytes(t1) == tx_bytes(t2),
{
}

/// The canonical record fields of a signed transaction, in tag order,
/// defaults omitted.  The wrapped transaction is always present under the
/// `txn` tag; the authorization fields appear only when populated.
pub open spec fn signed_tx_fields(s: SignedTx) -> Seq<(Seq<u8>, Val)> {
    (match s.lsig {
        Some(l) => seq![(seq![108u8, 115, 105, 103], Val::Record(lsig_fields(l)))],
        None => Seq::empty(),
    }) + (match s.msig {
        Some(m) => seq![(seq![109u8, 115, 105, 103], Val::Record(msig_fields(m)))],
        None => Seq::empty(),
    }) + opt_entry(
        s.auth_addr.0@ != zero_bytes(),
        seq![115u8, 103, 110, 114],
        Val::Bytes(s.auth_addr.0@),
    ) + opt_entry(s.sig.0@ != zero_bytes64(), seq![115u8, 105, 103], Val::Bytes(s.sig.0@))
        + seq![(seq![116u8, 120, 110], Val::Record(transaction_fields(s.tx)))]
}

/// The canonical byte encoding of a signed transaction.
pub open spec fn signed_tx_bytes(s: SignedTx) -> Seq<u8> {
    record_bytes(signed_tx_fields(s))
}

impl SignedTx {
    /// The canonical record value of this signed transaction.
    pub fn to_value(&self) -> (r: Value)
        ensures
            r.model() == Val::Record(signed_tx_fields(*self)),
    {
        let mut es: Vec<(Vec<u8>, Value)> = Vec::new();
        let ghost mut gs: Seq<(Seq<u8>, Val)> = Seq::empty();
        proof {
            assert(model_entries(es@) =~= gs);
        }
        match &self.lsig {
            Some(l) => {
                push_entry(&mut es, tag4(108, 115, 105, 103), l.to_value());
            }
            None => {}
        }
        proof {
            gs = gs + (match &self.lsig {
                Some(l) => seq![(seq![108u8, 115, 105, 103], Val::Record(lsig_fields(*l)))],
                None => Seq::empty(),
            });
            assert(model_entries(es@) =~= gs);
        }
        match &self.msig {
            Some(m) => {
                push_entry(&mut es, tag4(109, 115, 105, 103), m.to_value());
            }
            None => {}
        }
        proof {
            gs = gs + (match &self.msig {
                Some(m) => seq![(seq![109u8, 115, 105, 103], Val::Record(msig_fields(*m)))],
                None => Seq::empty(),
            });
            assert(model_entries(es@) =~= gs);
        }
        if !self.auth_addr.is_zero() {
            push_entry(&mut es, tag4(115, 103, 110, 114), arr32_val(&self.auth_addr.0));
        }
        proof {
            gs = gs + opt_entry(
                self.auth_addr.0@ != zero_bytes(),
                seq![115u8, 103, 110, 114],
                Val::Bytes(self.auth_addr.0@),
            );
            assert(model_entries(es@) =~= gs);
        }
        if !self.sig.is_zero() {
            push_entry(&mut es, tag3(115, 105, 103), arr64_val(&self.sig.0));
        }
        proof {
            gs = gs + opt_entry(
                self.sig.0@ != zero_bytes64(),
                seq![115u8, 105, 103],
                Val::Bytes(self.sig.0@),
            );
            assert(model_entries(es@) =~= gs);
        }
        push_entry(&mut es, tag3(116, 120, 110), self.tx.to_value());
        proof {
            gs = gs + seq![(seq![116u8, 120, 110], Val::Record(transaction_fields(self.tx)))];
            assert(model_entries(es@) =~= gs);
            assert(gs == signed_tx_fields(*self));
        }
        Value::Record(es)
    }

    /// The canonical byte encoding of this signed transaction.
    pub fn encode(&self) -> (r: Vec<u8>)
        ensures
            r@ == signed_tx_bytes(*self),
    {
        let v = self.to_value();
        encode_to_vec(&v)
    }
}

} // verus!
