//! Asset configuration parameters.

use vstd::prelude::*;

use vstd::utf8::encode_utf8;

use crate::address::{zero_bytes, Address};
use crate::codec::{model_entries, Val, Value};
use crate::schema::{arr32_val, is_zero32, opt_entry, push_entry, str_val, tag1, tag2};

verus! {

/// Unique integer index of an asset; `0` means "not yet allocated".
pub type AssetIndex = u64;

/// The parameters of an asset.
#[derive(Clone, PartialEq, Eq)]
pub struct AssetParams {
    pub total: u64,
    pub decimals: u32,
    pub default_frozen: bool,
    pub unit_name: String,
    pub asset_name: String,
    pub url: String,
    pub metadata_hash: [u8; 32],
    pub manager: Address,
    pub reserve: Address,
    pub freeze: Address,
    pub clawback: Address,
}

/// The canonical record fields of asset parameters, in tag order, defaults
/// omitted: the concatenation of the three tag groups below.
pub open spec fn asset_params_fields(p: AssetParams) -> Seq<(Seq<u8>, Val)> {
    asset_params_fields_a(p) + asset_params_fields_b(p) + asset_params_fields_c(p)
}

/// Asset fields with tags `am`, `an`, `au`, `c`.
pub open spec fn asset_params_fields_a(p: AssetParams) -> Seq<(Seq<u8>, Val)> {
    opt_entry(p.metadata_hash@ != zero_bytes(), seq![97u8, 109], Val::Bytes(p.metadata_hash@))
        + opt_entry(
        p.asset_name@.len() != 0,
        seq![97u8, 110],
        Val::Bytes(encode_utf8(p.asset_name@)),
    ) + opt_entry(p.url@.len() != 0, seq![97u8, 117], Val::Bytes(encode_utf8(p.url@)))
        + opt_entry(p.clawback.0@ != zero_bytes(), seq![99u8], Val::Bytes(p.clawback.0@))
}

/// Asset fields with tags `dc`, `df`, `f`, `m`.
pub open spec fn asset_params_fields_b(p: AssetParams) -> Seq<(Seq<u8>, Val)> {
    opt_entry(p.decimals != 0, seq![100u8, 99], Val::Uint(p.decimals as u64)) + opt_entry(
        p.default_frozen,
        seq![100u8, 102],
        Val::Uint(1),
    ) + opt_entry(p.freeze.0@ != zero_bytes(), seq![102u8], Val::Bytes(p.freeze.0@)) + opt_entry(
        p.manager.0@ != zero_bytes(),
        seq![109u8],
        Val::Bytes(p.manager.0@),
    )
}

/// Asset fields with tags `r`, `t`, `un`.
pub open spec fn asset_params_fields_c(p: AssetParams) -> Seq<(Seq<u8>, Val)> {
    opt_entry(p.reserve.0@ != zero_bytes(), seq![114u8], Val::Bytes(p.reserve.0@)) + opt_entry(
        p.total != 0,
        seq![116u8],
        Val::Uint(p.total),
    ) + opt_entry(
        p.unit_name@.len() != 0,
        seq![117u8, 110],
        Val::Bytes(encode_utf8(p.unit_name@)),
    )
}

fn push_asset_a(p: &AssetParams, es: &mut Vec<(Vec<u8>, Value)>)
    ensures
        model_entries(final(es)@) == model_entries(old(es)@) + asset_params_fields_a(*p),
{
    let ghost base = model_entries(es@);
    let ghost mut gs: Seq<(Seq<u8>, Val)> = Seq::empty();
    proof {
        assert(model_entries(es@) =~= base + gs);
    }
    if !is_zero32(&p.metadata_hash) {
        push_entry(es, tag2(97, 109), arr32_val(&p.metadata_hash));
    }
    proof {
        gs = gs + opt_entry(p.metadata_hash@ != zero_bytes(), seq![97u8, 109], Val::Bytes(
            p.metadata_hash@,
        ));
        assert(model_entries(es@) =~= base + gs);
    }
    if !p.asset_name.as_str().is_empty() {
        push_entry(es, tag2(97, 110), str_val(&p.asset_name));
    }
    proof {
        gs = gs + opt_entry(p.asset_name@.len() != 0, seq![97u8, 110], Val::Bytes(encode_utf8(
            p.asset_name@,
        )));
        assert(model_entries(es@) =~= base + gs);
    }
    if !p.url.as_str().is_empty() {
        push_entry(es, tag2(97, 117), str_val(&p.url));
    }
    proof {
        gs = gs + opt_entry(p.url@.len() != 0, seq![97u8, 117], Val::Bytes(encode_utf8(p.url@)));
        assert(model_entries(es@) =~= base + gs);
    }
    if !p.clawback.is_zero() {
        push_entry(es, tag1(99), arr32_val(&p.clawback.0));
    }
    proof {
        gs = gs + opt_entry(p.clawback.0@ != zero_bytes(), seq![99u8], Val::Bytes(p.clawback.0@));
        assert(model_entries(es@) =~= base + gs);
        assert(gs == asset_params_fields_a(*p));
    }
}

fn push_asset_b(p: &AssetParams, es: &mut Vec<(Vec<u8>, Value)>)
    ensures
        model_entries(final(es)@) == model_entries(old(es)@) + asset_params_fields_b(*p),
{
    let ghost base = model_entries(es@);
    let ghost mut gs: Seq<(Seq<u8>, Val)> = Seq::empty();
    proof {
        assert(model_entries(es@) =~= base + gs);
    }
    if p.decimals != 0 {
        push_entry(es, tag2(100, 99), Value::Uint(p.decimals as u64));
    }
    proof {
        gs = gs + opt_entry(p.decimals != 0, seq![100u8, 99], Val::Uint(p.decimals as u64));
        assert(model_entries(es@) =~= base + gs);
    }
    if p.default_frozen {
        push_entry(es, tag2(100, 102), Value::Uint(1));
    }
    proof {
        gs = gs + opt_entry(p.default_frozen, seq![100u8, 102], Val::Uint(1));
        assert(model_entries(es@) =~= base + gs);
    }
    if !p.freeze.is_zero() {
        push_entry(es, tag1(102), arr32_val(&p.freeze.0));
    }
    proof {
        gs = gs + opt_entry(p.freeze.0@ != zero_bytes(), seq![102u8], Val::Bytes(p.freeze.0@));
        assert(model_entries(es@) =~= base + gs);
    }
    if !p.manager.is_zero() {
        push_entry(es, tag1(109), arr32_val(&p.manager.0));
    }
    proof {
        gs = gs + opt_entry(p.manager.0@ != zero_bytes(), seq![109u8], Val::Bytes(p.manager.0@));
        assert(model_entries(es@) =~= base + gs);
        assert(gs == asset_params_fields_b(*p));
    }
}

fn push_asset_c(p: &AssetParams, es: &mut Vec<(Vec<u8>, Value)>)
    ensures
        model_entries(final(es)@) == model_entries(old(es)@) + asset_params_fields_c(*p),
{
    let ghost base = model_entries(es@);
    let ghost mut gs: Seq<(Seq<u8>, Val)> = Seq::empty();
    proof {
        assert(model_entries(es@) =~= base + gs);
    }
    if !p.reserve.is_zero() {
        push_entry(es, tag1(114), arr32_val(&p.reserve.0));
    }
    proof {
        gs = gs + opt_entry(p.reserve.0@ != zero_bytes(), seq![114u8], Val::Bytes(p.reserve.0@));
        assert(model_entries(es@) =~= base + gs);
    }
    if p.total != 0 {
        push_entry(es, tag1(116), Value::Uint(p.total));
    }
    proof {
        gs = gs + opt_entry(p.total != 0, seq![116u8], Val::Uint(p.total));
        assert(model_entries(es@) =~= base + gs);
    }
    if !p.unit_name.as_str().is_empty() {
        push_entry(es, tag2(117, 110), str_val(&p.unit_name));
    }
    proof {
        gs = gs + opt_entry(p.unit_name@.len() != 0, seq![117u8, 110], Val::Bytes(encode_utf8(
            p.unit_name@,
        )));
        assert(model_entries(es@) =~= base + gs);
        assert(gs == asset_params_fields_c(*p));
    }
}

impl AssetParams {
    /// Whether any parameter departs from its default; an all-default
    /// parameter set means destruction and is omitted when encoding.
    pub open spec fn is_set(self) -> bool {
        ||| self.total != 0
        ||| self.decimals != 0
        ||| self.default_frozen
        ||| self.unit_name@.len() != 0
        ||| self.asset_name@.len() != 0
        ||| self.url@.len() != 0
        ||| self.metadata_hash@ != zero_bytes()
        ||| self.manager.0@ != zero_bytes()
        ||| self.reserve.0@ != zero_bytes()
        ||| self.freeze.0@ != zero_bytes()
        ||| self.clawback.0@ != zero_bytes()
    }

    /// Whether any parameter departs from its default, decided at run time.
    pub fn is_set_exec(&self) -> (r: bool)
        ensures
            r == self.is_set(),
    {
        self.total != 0 || self.decimals != 0 || self.default_frozen
            || !self.unit_name.as_str().is_empty() || !self.asset_name.as_str().is_empty()
            || !self.url.as_str().is_empty() || !is_zero32(&self.metadata_hash)
            || !self.manager.is_zero() || !self.reserve.is_zero() || !self.freeze.is_zero()
            || !self.clawback.is_zero()
    }

    /// The canonical record value of these parameters.
    pub fn to_value(&self) -> (r: Value)
        ensures
            r.model() == Val::Record(asset_params_fields(*self)),
    {
        let mut es: Vec<(Vec<u8>, Value)> = Vec::new();
        proof {
            assert(model_entries(es@) =~= Seq::<(Seq<u8>, Val)>::empty());
        }
        push_asset_a(self, &mut es);
        push_asset_b(self, &mut es);
        push_asset_c(self, &mut es);
        proof {
            assert(model_entries(es@) =~= asset_params_fields(*self));
        }
        Value::Record(es)
    }
}

} // verus!
