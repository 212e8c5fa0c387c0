//! Blocks: the header, rewards and upgrade state, and the ordered
//! transaction set with per-transaction execution metadata.

use vstd::prelude::*;
use vstd::utf8::encode_utf8;

use crate::address::{zero_bytes, Address};
use crate::basics::{Digest, MicroAlgos, Round};
use crate::codec::{model_entries, model_list, u64_bytes, Val, Value};
use crate::schema::{
    arr32_val, encode_to_vec, is_zero32, opt_entry, push_entry, push_item, record_bytes,
    str_val, str_vals, string_list_val, tag2, tag3, tag4, tag_lit, u64_tag,
};
use crate::transaction::{signed_tx_fields, SignedTx};

verus! {

/// A block: its header and its ordered transaction set.
pub struct Block {
    pub header: BlockHeader,
    pub payset: Payset,
}

/// The metadata and commitments to the state of a block.  The ledger may be
/// defined minimally as a cryptographically authenticated series of these.
#[derive(Clone)]
pub struct BlockHeader {
    pub round: Round,
    /// The hash of the previous block.
    pub branch: Digest,
    /// Sortition seed.
    pub seed: [u8; 32],
    /// Root hash authenticating the set of transactions in the block;
    /// computed outside this crate.
    pub tx_root: Digest,
    /// Timestamp in seconds since the epoch.
    pub timestamp: u64,
    pub genesis_id: String,
    pub genesis_hash: Digest,
    pub rewards_state: RewardsState,
    /// Derivable from the history of upgrade votes; stored here already
    /// materialized for convenience and not recomputed by this crate.
    pub upgrade_state: UpgradeState,
    pub upgrade_vote: UpgradeVote,
    /// The number of the next transaction committed after this block.
    pub tx_counter: u64,
}

/// The ordered transaction set of a block.  Order is semantically
/// significant: it fixes execution order and so the apply-data.
pub struct Payset(pub Vec<SignedTxInBlock>);

/// Global parameters controlling the rate at which accounts accrue rewards.
#[derive(Clone)]
pub struct RewardsState {
    pub fee_sink: Address,
    pub rewards_pool: Address,
    pub rewards_level: u64,
    pub rewards_rate: u64,
    pub rewards_residue: u64,
    pub rewards_recalculation_round: Round,
}

/// The block proposer's vote with respect to protocol upgrades.
#[derive(Clone)]
pub struct UpgradeVote {
    pub upgrade_propose: String,
    pub upgrade_delay: Round,
    pub upgrade_approve: bool,
}

/// The protocol-upgrade state machine's current state.
#[derive(Clone, PartialEq, Eq)]
pub struct UpgradeState {
    pub current_protocol: String,
    pub next_protocol: Option<String>,
    pub next_protocol_approvals: u64,
    pub next_protocol_vote_before: Round,
    pub next_protocol_switch_on: Round,
}

/// How a signed transaction is encoded inside a block.
pub struct SignedTxInBlock {
    pub sig_txad: SignedTxWithAD,
    pub has_genesis_id: bool,
    pub has_genesis_hash: bool,
}

/// A signed transaction together with its apply-data.
pub struct SignedTxWithAD {
    pub tx: SignedTx,
    pub ad: ApplyData,
}

/// Information about a transaction's execution.
pub struct ApplyData {
    pub closing_amount: MicroAlgos,
    pub asset_closing_amount: u64,
    pub sender_rewards: MicroAlgos,
    pub receiver_rewards: MicroAlgos,
    pub close_rewards: MicroAlgos,
    pub eval_delta: EvalDelta,
    pub config_asset: u64,
    pub application_id: u64,
}

/// The state changes a transaction's execution produced.
pub struct EvalDelta {
    pub global_delta: StateDelta,
    /// Keyed by an offset into `[tx.sender, tx.accounts[0], ...]`.
    pub local_deltas: Vec<(u64, StateDelta)>,
    pub logs: Vec<String>,
    pub inner_txs: Vec<SignedTxWithAD>,
}

/// A key/value-store mutation set: each key maps to one instruction.
/// Keys are unique; their order carries no meaning.
#[derive(Clone)]
pub struct StateDelta(pub Vec<(String, ValueDelta)>);

impl StateDelta {
    /// Keys are unique: each key maps to at most one instruction.  The
    /// stored order carries no meaning.
    pub open spec fn keys_unique(self) -> bool {
        forall|i: int, j: int|
            0 <= i < j < self.0@.len() ==> self.0@[i].0@ != self.0@[j].0@
    }
}

impl EvalDelta {
    /// Every contained delta has unique keys, and the local deltas are
    /// keyed by distinct account offsets.
    pub open spec fn well_formed(self) -> bool {
        &&& self.global_delta.keys_unique()
        &&& forall|i: int, j: int|
            0 <= i < j < self.local_deltas@.len() ==> self.local_deltas@[i].0
                != self.local_deltas@[j].0
        &&& forall|i: int|
            0 <= i < self.local_deltas@.len() ==> (#[trigger] self.local_deltas@[i].1).keys_unique()
    }
}

/// One mutation: an action and the value it carries.
#[derive(Clone, PartialEq, Eq)]
pub struct ValueDelta {
    pub action: DeltaAction,
    pub bytes: String,
    pub uint: u64,
}

/// Actions that may be performed when applying a delta to a key/value store.
#[derive(Clone, Copy, Debug, PartialEq, Eq, Structural)]
pub enum DeltaAction {
    Invalid,
    /// Store a byte slice at the key.
    SetBytes,
    /// Store an integer at the key.
    SetUint,
    /// Delete the value at the key.
    Delete,
}

impl Default for DeltaAction {
    /// The zero value of an action, used only by the default-omission rule.
    fn default() -> (r: Self)
        ensures
            r == DeltaAction::Invalid,
    {
        DeltaAction::Invalid
    }
}

/// The numeric form under which a delta action is encoded.
pub open spec fn delta_action_num(a: DeltaAction) -> u64 {
    match a {
        DeltaAction::Invalid => 0,
        DeltaAction::SetBytes => 1,
        DeltaAction::SetUint => 2,
        DeltaAction::Delete => 3,
    }
}

/// The numeric form of a delta action, computed at run time.
pub fn delta_action_value(a: &DeltaAction) -> (r: u64)
    ensures
        r == delta_action_num(*a),
{
    match a {
        DeltaAction::Invalid => 0,
        DeltaAction::SetBytes => 1,
        DeltaAction::SetUint => 2,
        DeltaAction::Delete => 3,
    }
}

/// The canonical record fields of one value delta, in tag order, defaults
/// omitted.
pub open spec fn value_delta_fields(v: ValueDelta) -> Seq<(Seq<u8>, Val)> {
    opt_entry(
        v.action != DeltaAction::Invalid,
        seq![97u8, 116],
        Val::Uint(delta_action_num(v.action)),
    ) + opt_entry(v.bytes@.len() != 0, seq![98u8, 115], Val::Bytes(encode_utf8(v.bytes@)))
        + opt_entry(v.uint != 0, seq![117u8, 105], Val::Uint(v.uint))
}

impl ValueDelta {
    /// The canonical record value of this delta.
    pub fn to_value(&self) -> (r: Value)
        ensures
            r.model() == Val::Record(value_delta_fields(*self)),
    {
        let mut es: Vec<(Vec<u8>, Value)> = Vec::new();
        let ghost mut gs: Seq<(Seq<u8>, Val)> = Seq::empty();
        proof {
            assert(model_entries(es@) =~= gs);
        }
        let is_invalid = match self.action {
            DeltaAction::Invalid => true,
            _ => false,
        };
        if !is_invalid {
            push_entry(&mut es, tag2(97, 116), Value::Uint(delta_action_value(&self.action)));
        }
        proof {
            gs = gs + opt_entry(
                self.action != DeltaAction::Invalid,
                seq![97u8, 116],
                Val::Uint(delta_action_num(self.action)),
            );
            assert(model_entries(es@) =~= gs);
        }
        if !self.bytes.as_str().is_empty() {
            push_entry(&mut es, tag2(98, 115), str_val(&self.bytes));
        }
        proof {
            gs = gs + opt_entry(self.bytes@.len() != 0, seq![98u8, 115], Val::Bytes(encode_utf8(
                self.bytes@,
            )));
            assert(model_entries(es@) =~= gs);
        }
        if self.uint != 0 {
            push_entry(&mut es, tag2(117, 105), Value::Uint(self.uint));
        }
        proof {
            gs = gs + opt_entry(self.uint != 0, seq![117u8, 105], Val::Uint(self.uint));
            assert(model_entries(es@) =~= gs);
            assert(gs == value_delta_fields(*self));
        }
        Value::Record(es)
    }
}

/// The canonical record entries of a state delta: each key, as its UTF-8
/// bytes, tagged to its instruction, in the stored order.
pub open spec fn state_delta_entries(s: Seq<(String, ValueDelta)>) -> Seq<(Seq<u8>, Val)> {
    Seq::new(s.len(), |i: int| (encode_utf8(s[i].0@), Val::Record(value_delta_fields(s[i].1))))
}

impl StateDelta {
    /// The canonical record value of this delta set.
    pub fn to_value(&self) -> (r: Value)
        ensures
            r.model() == Val::Record(state_delta_entries(self.0@)),
    {
        let mut es: Vec<(Vec<u8>, Value)> = Vec::new();
        let mut i: usize = 0;
        while i < self.0.len()
            invariant
                i <= self.0@.len(),
                model_entries(es@) == state_delta_entries(self.0@).take(i as int),
            decreases self.0@.len() - i,
        {
            push_entry(&mut es, tag_lit(self.0[i].0.as_str()), self.0[i].1.to_value());
            proof {
                assert(state_delta_entries(self.0@).take((i + 1) as int) =~= state_delta_entries(
                    self.0@,
                ).take(i as int).push(
                    (
                        encode_utf8(self.0@[i as int].0@),
                        Val::Record(value_delta_fields(self.0@[i as int].1)),
                    ),
                ));
            }
            i = i + 1;
        }
        proof {
            assert(state_delta_entries(self.0@).take(self.0@.len() as int)
                =~= state_delta_entries(self.0@));
        }
        Value::Record(es)
    }
}

/// The canonical record fields of the rewards state, in tag order,
/// defaults omitted: the two tag groups below.
pub open spec fn rewards_state_fields(r: RewardsState) -> Seq<(Seq<u8>, Val)> {
    rewards_state_fields_a(r) + rewards_state_fields_b(r)
}

/// Rewards fields with tags `fee_sink`, `rewards_level`, `rewards_pool`.
pub open spec fn rewards_state_fields_a(r: RewardsState) -> Seq<(Seq<u8>, Val)> {
    opt_entry(
        r.fee_sink.0@ != zero_bytes(),
        encode_utf8("fee_sink"@),
        Val::Bytes(r.fee_sink.0@),
    ) + opt_entry(
        r.rewards_level != 0,
        encode_utf8("rewards_level"@),
        Val::Uint(r.rewards_level),
    ) + opt_entry(
        r.rewards_pool.0@ != zero_bytes(),
        encode_utf8("rewards_pool"@),
        Val::Bytes(r.rewards_pool.0@),
    )
}

/// Rewards fields with tags `rewards_rate`, `rewards_recalculation_round`,
/// `rewards_residue`.
pub open spec fn rewards_state_fields_b(r: RewardsState) -> Seq<(Seq<u8>, Val)> {
    opt_entry(r.rewards_rate != 0, encode_utf8("rewards_rate"@), Val::Uint(r.rewards_rate))
        + opt_entry(
        r.rewards_recalculation_round != 0,
        encode_utf8("rewards_recalculation_round"@),
        Val::Uint(r.rewards_recalculation_round),
    ) + opt_entry(
        r.rewards_residue != 0,
        encode_utf8("rewards_residue"@),
        Val::Uint(r.rewards_residue),
    )
}

fn push_rewards_a(r: &RewardsState, es: &mut Vec<(Vec<u8>, Value)>)
    ensures
        model_entries(final(es)@) == model_entries(old(es)@) + rewards_state_fields_a(*r),
{
    let ghost base = model_entries(es@);
    let ghost mut gs: Seq<(Seq<u8>, Val)> = Seq::empty();
    proof {
        assert(model_entries(es@) =~= base + gs);
    }
    if !r.fee_sink.is_zero() {
        push_entry(es, tag_lit("fee_sink"), arr32_val(&r.fee_sink.0));
    }
    proof {
        gs = gs + opt_entry(
            r.fee_sink.0@ != zero_bytes(),
            encode_utf8("fee_sink"@),
            Val::Bytes(r.fee_sink.0@),
        );
        assert(model_entries(es@) =~= base + gs);
    }
    if r.rewards_level != 0 {
        push_entry(es, tag_lit("rewards_level"), Value::Uint(r.rewards_level));
    }
    proof {
        gs = gs + opt_entry(
            r.rewards_level != 0,
            encode_utf8("rewards_level"@),
            Val::Uint(r.rewards_level),
        );
        assert(model_entries(es@) =~= base + gs);
    }
    if !r.rewards_pool.is_zero() {
        push_entry(es, tag_lit("rewards_pool"), arr32_val(&r.rewards_pool.0));
    }
    proof {
        gs = gs + opt_entry(
            r.rewards_pool.0@ != zero_bytes(),
            encode_utf8("rewards_pool"@),
            Val::Bytes(r.rewards_pool.0@),
        );
        assert(model_entries(es@) =~= base + gs);
        assert(gs == rewards_state_fields_a(*r));
    }
}

fn push_rewards_b(r: &RewardsState, es: &mut Vec<(Vec<u8>, Value)>)
    ensures
        model_entries(final(es)@) == model_entries(old(es)@) + rewards_state_fields_b(*r),
{
    let ghost base = model_entries(es@);
    let ghost mut gs: Seq<(Seq<u8>, Val)> = Seq::empty();
    proof {
        assert(model_entries(es@) =~= base + gs);
    }
    if r.rewards_rate != 0 {
        push_entry(es, tag_lit("rewards_rate"), Value::Uint(r.rewards_rate));
    }
    proof {
        gs = gs + opt_entry(
            r.rewards_rate != 0,
            encode_utf8("rewards_rate"@),
            Val::Uint(r.rewards_rate),
        );
        assert(model_entries(es@) =~= base + gs);
    }
    if r.rewards_recalculation_round != 0 {
        push_entry(
            es,
            tag_lit("rewards_recalculation_round"),
            Value::Uint(r.rewards_recalculation_round),
        );
    }
    proof {
        gs = gs + opt_entry(
            r.rewards_recalculation_round != 0,
            encode_utf8("rewards_recalculation_round"@),
            Val::Uint(r.rewards_recalculation_round),
        );
        assert(model_entries(es@) =~= base + gs);
    }
    if r.rewards_residue != 0 {
        push_entry(es, tag_lit("rewards_residue"), Value::Uint(r.rewards_residue));
    }
    proof {
        gs = gs + opt_entry(
            r.rewards_residue != 0,
            encode_utf8("rewards_residue"@),
            Val::Uint(r.rewards_residue),
        );
        assert(model_entries(es@) =~= base + gs);
        assert(gs == rewards_state_fields_b(*r));
    }
}

impl RewardsState {
    /// Whether any field departs from its default; an all-default rewards
    /// state is omitted from the block header.
    pub open spec fn is_set(self) -> bool {
        ||| self.fee_sink.0@ != zero_bytes()
        ||| self.rewards_pool.0@ != zero_bytes()
        ||| self.rewards_level != 0
        ||| self.rewards_rate != 0
        ||| self.rewards_residue != 0
        ||| self.rewards_recalculation_round != 0
    }

    /// Whether any field departs from its default, decided at run time.
    pub fn is_set_exec(&self) -> (r: bool)
        ensures
            r == self.is_set(),
    {
        !self.fee_sink.is_zero() || !self.rewards_pool.is_zero() || self.rewards_level != 0
            || self.rewards_rate != 0 || self.rewards_residue != 0
            || self.rewards_recalculation_round != 0
    }

    /// The canonical record value of this rewards state.
    pub fn to_value(&self) -> (r: Value)
        ensures
            r.model() == Val::Record(rewards_state_fields(*self)),
    {
        let mut es: Vec<(Vec<u8>, Value)> = Vec::new();
        proof {
            assert(model_entries(es@) =~= Seq::<(Seq<u8>, Val)>::empty());
        }
        push_rewards_a(self, &mut es);
        push_rewards_b(self, &mut es);
        proof {
            assert(model_entries(es@) =~= rewards_state_fields(*self));
        }
        Value::Record(es)
    }
}

/// The canonical record fields of an upgrade vote, in tag order, defaults
/// omitted.
pub open spec fn upgrade_vote_fields(v: UpgradeVote) -> Seq<(Seq<u8>, Val)> {
    opt_entry(v.upgrade_approve, encode_utf8("upgrade_approve"@), Val::Uint(1)) + opt_entry(
        v.upgrade_delay != 0,
        encode_utf8("upgrade_delay"@),
        Val::Uint(v.upgrade_delay),
    ) + opt_entry(
        v.upgrade_propose@.len() != 0,
        encode_utf8("upgrade_propose"@),
        Val::Bytes(encode_utf8(v.upgrade_propose@)),
    )
}

impl UpgradeVote {
    /// Whether any field departs from its default.
    pub open spec fn is_set(self) -> bool {
        self.upgrade_approve || self.upgrade_delay != 0 || self.upgrade_propose@.len() != 0
    }

    /// Whether any field departs from its default, decided at run time.
    pub fn is_set_exec(&self) -> (r: bool)
        ensures
            r == self.is_set(),
    {
        self.upgrade_approve || self.upgrade_delay != 0
            || !self.upgrade_propose.as_str().is_empty()
    }

    /// The canonical record value of this vote.
    pub fn to_value(&self) -> (r: Value)
        ensures
            r.model() == Val::Record(upgrade_vote_fields(*self)),
    {
        let mut es: Vec<(Vec<u8>, Value)> = Vec::new();
        let ghost mut gs: Seq<(Seq<u8>, Val)> = Seq::empty();
        proof {
            assert(model_entries(es@) =~= gs);
        }
        if self.upgrade_approve {
            push_entry(&mut es, tag_lit("upgrade_approve"), Value::Uint(1));
        }
        proof {
            gs = gs + opt_entry(self.upgrade_approve, encode_utf8("upgrade_approve"@), Val::Uint(
                1,
            ));
            assert(model_entries(es@) =~= gs);
        }
        if self.upgrade_delay != 0 {
            push_entry(&mut es, tag_lit("upgrade_delay"), Value::Uint(self.upgrade_delay));
        }
        proof {
            gs = gs + opt_entry(
                self.upgrade_delay != 0,
                encode_utf8("upgrade_delay"@),
                Val::Uint(self.upgrade_delay),
            );
            assert(model_entries(es@) =~= gs);
        }
        if !self.upgrade_propose.as_str().is_empty() {
            push_entry(&mut es, tag_lit("upgrade_propose"), str_val(&self.upgrade_propose));
        }
        proof {
            gs = gs + opt_entry(
                self.upgrade_propose@.len() != 0,
                encode_utf8("upgrade_propose"@),
                Val::Bytes(encode_utf8(self.upgrade_propose@)),
            );
            assert(model_entries(es@) =~= gs);
            assert(gs == upgrade_vote_fields(*self));
        }
        Value::Record(es)
    }
}

/// The canonical record fields of the upgrade state, in tag order,
/// defaults omitted.
pub open spec fn upgrade_state_fields(u: UpgradeState) -> Seq<(Seq<u8>, Val)> {
    opt_entry(
        u.next_protocol_vote_before != 0,
        encode_utf8("nextbefore"@),
        Val::Uint(u.next_protocol_vote_before),
    ) + (match u.next_protocol {
        Some(p) => seq![(encode_utf8("nextproto"@), Val::Bytes(encode_utf8(p@)))],
        None => Seq::empty(),
    }) + opt_entry(
        u.next_protocol_switch_on != 0,
        encode_utf8("nextswitch"@),
        Val::Uint(u.next_protocol_switch_on),
    ) + opt_entry(
        u.next_protocol_approvals != 0,
        encode_utf8("nextyes"@),
        Val::Uint(u.next_protocol_approvals),
    ) + opt_entry(
        u.current_protocol@.len() != 0,
        encode_utf8("proto"@),
        Val::Bytes(encode_utf8(u.current_protocol@)),
    )
}

impl UpgradeState {
    /// The canonical record value of this upgrade state.  The block header
    /// never encodes it (it is derivable from prior votes); it is encoded
    /// only when serialized on its own.
    pub fn to_value(&self) -> (r: Value)
        ensures
            r.model() == Val::Record(upgrade_state_fields(*self)),
    {
        let mut es: Vec<(Vec<u8>, Value)> = Vec::new();
        let ghost mut gs: Seq<(Seq<u8>, Val)> = Seq::empty();
        proof {
            assert(model_entries(es@) =~= gs);
        }
        if self.next_protocol_vote_before != 0 {
            push_entry(
                &mut es,
                tag_lit("nextbefore"),
                Value::Uint(self.next_protocol_vote_before),
            );
        }
        proof {
            gs = gs + opt_entry(
                self.next_protocol_vote_before != 0,
                encode_utf8("nextbefore"@),
                Val::Uint(self.next_protocol_vote_before),
            );
            assert(model_entries(es@) =~= gs);
        }
        match &self.next_protocol {
            Some(p) => {
                push_entry(&mut es, tag_lit("nextproto"), str_val(p));
            }
            None => {}
        }
        proof {
            gs = gs + (match &self.next_protocol {
                Some(p) => seq![(encode_utf8("nextproto"@), Val::Bytes(encode_utf8(p@)))],
                None => Seq::empty(),
            });
            assert(model_entries(es@) =~= gs);
        }
        if self.next_protocol_switch_on != 0 {
            push_entry(
                &mut es,
                tag_lit("nextswitch"),
                Value::Uint(self.next_protocol_switch_on),
            );
        }
        proof {
            gs = gs + opt_entry(
                self.next_protocol_switch_on != 0,
                encode_utf8("nextswitch"@),
                Val::Uint(self.next_protocol_switch_on),
            );
            assert(model_entries(es@) =~= gs);
        }
        if self.next_protocol_approvals != 0 {
            push_entry(&mut es, tag_lit("nextyes"), Value::Uint(self.next_protocol_approvals));
        }
        proof {
            gs = gs + opt_entry(
                self.next_protocol_approvals != 0,
                encode_utf8("nextyes"@),
                Val::Uint(self.next_protocol_approvals),
            );
            assert(model_entries(es@) =~= gs);
        }
        if !self.current_protocol.as_str().is_empty() {
            push_entry(&mut es, tag_lit("proto"), str_val(&self.current_protocol));
        }
        proof {
            gs = gs + opt_entry(
                self.current_protocol@.len() != 0,
                encode_utf8("proto"@),
                Val::Bytes(encode_utf8(self.current_protocol@)),
            );
            assert(model_entries(es@) =~= gs);
            assert(gs == upgrade_state_fields(*self));
        }
        Value::Record(es)
    }
}

/// The canonical record fields of a block header, in tag order, defaults
/// omitted: the three tag groups below.  The upgrade state is never
/// encoded: it is derivable from the history of upgrade votes and stored
/// only for convenience.
pub open spec fn block_header_fields(h: BlockHeader) -> Seq<(Seq<u8>, Val)> {
    block_header_fields_a(h) + block_header_fields_b(h) + block_header_fields_c(h)
}

/// Block header fields with tags `branch`, `genesis_hash`, `genesis_id`.
pub open spec fn block_header_fields_a(h: BlockHeader) -> Seq<(Seq<u8>, Val)> {
    opt_entry(h.branch@ != zero_bytes(), encode_utf8("branch"@), Val::Bytes(h.branch@))
        + opt_entry(
        h.genesis_hash@ != zero_bytes(),
        encode_utf8("genesis_hash"@),
        Val::Bytes(h.genesis_hash@),
    ) + opt_entry(
        h.genesis_id@.len() != 0,
        encode_utf8("genesis_id"@),
        Val::Bytes(encode_utf8(h.genesis_id@)),
    )
}

/// Block header fields with tags `rewards_state`, `round`, `seed`,
/// `timestamp`.
pub open spec fn block_header_fields_b(h: BlockHeader) -> Seq<(Seq<u8>, Val)> {
    opt_entry(
        h.rewards_state.is_set(),
        encode_utf8("rewards_state"@),
        Val::Record(rewards_state_fields(h.rewards_state)),
    ) + opt_entry(h.round != 0, encode_utf8("round"@), Val::Uint(h.round)) + opt_entry(
        h.seed@ != zero_bytes(),
        encode_utf8("seed"@),
        Val::Bytes(h.seed@),
    ) + opt_entry(h.timestamp != 0, encode_utf8("timestamp"@), Val::Uint(h.timestamp))
}

/// Block header fields with tags `tx_counter`, `tx_root`, `upgrade_vote`.
pub open spec fn block_header_fields_c(h: BlockHeader) -> Seq<(Seq<u8>, Val)> {
    opt_entry(h.tx_counter != 0, encode_utf8("tx_counter"@), Val::Uint(h.tx_counter))
        + opt_entry(
        h.tx_root@ != zero_bytes(),
        encode_utf8("tx_root"@),
        Val::Bytes(h.tx_root@),
    ) + opt_entry(
        h.upgrade_vote.is_set(),
        encode_utf8("upgrade_vote"@),
        Val::Record(upgrade_vote_fields(h.upgrade_vote)),
    )
}

fn push_block_header_a(h: &BlockHeader, es: &mut Vec<(Vec<u8>, Value)>)
    ensures
        model_entries(final(es)@) == model_entries(old(es)@) + block_header_fields_a(*h),
{
    let ghost base = model_entries(es@);
    let ghost mut gs: Seq<(Seq<u8>, Val)> = Seq::empty();
    proof {
        assert(model_entries(es@) =~= base + gs);
    }
    if !is_zero32(&h.branch) {
        push_entry(es, tag_lit("branch"), arr32_val(&h.branch));
    }
    proof {
        gs = gs + opt_entry(h.branch@ != zero_bytes(), encode_utf8("branch"@), Val::Bytes(
            h.branch@,
        ));
        assert(model_entries(es@) =~= base + gs);
    }
    if !is_zero32(&h.genesis_hash) {
        push_entry(es, tag_lit("genesis_hash"), arr32_val(&h.genesis_hash));
    }
    proof {
        gs = gs + opt_entry(
            h.genesis_hash@ != zero_bytes(),
            encode_utf8("genesis_hash"@),
            Val::Bytes(h.genesis_hash@),
        );
        assert(model_entries(es@) =~= base + gs);
    }
    if !h.genesis_id.as_str().is_empty() {
        push_entry(es, tag_lit("genesis_id"), str_val(&h.genesis_id));
    }
    proof {
        gs = gs + opt_entry(
            h.genesis_id@.len() != 0,
            encode_utf8("genesis_id"@),
            Val::Bytes(encode_utf8(h.genesis_id@)),
        );
        assert(model_entries(es@) =~= base + gs);
        assert(gs == block_header_fields_a(*h));
    }
}

fn push_block_header_b(h: &BlockHeader, es: &mut Vec<(Vec<u8>, Value)>)
    ensures
        model_entries(final(es)@) == model_entries(old(es)@) + block_header_fields_b(*h),
{
    let ghost base = model_entries(es@);
    let ghost mut gs: Seq<(Seq<u8>, Val)> = Seq::empty();
    proof {
        assert(model_entries(es@) =~= base + gs);
    }
    if h.rewards_state.is_set_exec() {
        push_entry(es, tag_lit("rewards_state"), h.rewards_state.to_value());
    }
    proof {
        gs = gs + opt_entry(
            h.rewards_state.is_set(),
            encode_utf8("rewards_state"@),
            Val::Record(rewards_state_fields(h.rewards_state)),
        );
        assert(model_entries(es@) =~= base + gs);
    }
    if h.round != 0 {
        push_entry(es, tag_lit("round"), Value::Uint(h.round));
    }
    proof {
        gs = gs + opt_entry(h.round != 0, encode_utf8("round"@), Val::Uint(h.round));
        assert(model_entries(es@) =~= base + gs);
    }
    if !is_zero32(&h.seed) {
        push_entry(es, tag_lit("seed"), arr32_val(&h.seed));
    }
    proof {
        gs = gs + opt_entry(h.seed@ != zero_bytes(), encode_utf8("seed"@), Val::Bytes(h.seed@));
        assert(model_entries(es@) =~= base + gs);
    }
    if h.timestamp != 0 {
        push_entry(es, tag_lit("timestamp"), Value::Uint(h.timestamp));
    }
    proof {
        gs = gs + opt_entry(h.timestamp != 0, encode_utf8("timestamp"@), Val::Uint(h.timestamp));
        assert(model_entries(es@) =~= base + gs);
        assert(gs == block_header_fields_b(*h));
    }
}

fn push_block_header_c(h: &BlockHeader, es: &mut Vec<(Vec<u8>, Value)>)
    ensures
        model_entries(final(es)@) == model_entries(old(es)@) + block_header_fields_c(*h),
{
    let ghost base = model_entries(es@);
    let ghost mut gs: Seq<(Seq<u8>, Val)> = Seq::empty();
    proof {
        assert(model_entries(es@) =~= base + gs);
    }
    if h.tx_counter != 0 {
        push_entry(es, tag_lit("tx_counter"), Value::Uint(h.tx_counter));
    }
    proof {
        gs = gs + opt_entry(h.tx_counter != 0, encode_utf8("tx_counter"@), Val::Uint(
            h.tx_counter,
        ));
        assert(model_entries(es@) =~= base + gs);
    }
    if !is_zero32(&h.tx_root) {
        push_entry(es, tag_lit("tx_root"), arr32_val(&h.tx_root));
    }
    proof {
        gs = gs + opt_entry(h.tx_root@ != zero_bytes(), encode_utf8("tx_root"@), Val::Bytes(
            h.tx_root@,
        ));
        assert(model_entries(es@) =~= base + gs);
    }
    if h.upgrade_vote.is_set_exec() {
        push_entry(es, tag_lit("upgrade_vote"), h.upgrade_vote.to_value());
    }
    proof {
        gs = gs + opt_entry(
            h.upgrade_vote.is_set(),
            encode_utf8("upgrade_vote"@),
            Val::Record(upgrade_vote_fields(h.upgrade_vote)),
        );
        assert(model_entries(es@) =~= base + gs);
        assert(gs == block_header_fields_c(*h));
    }
}

impl BlockHeader {
    /// The canonical record value of this block header.
    pub fn to_value(&self) -> (r: Value)
        ensures
            r.model() == Val::Record(block_header_fields(*self)),
    {
        let mut es: Vec<(Vec<u8>, Value)> = Vec::new();
        proof {
            assert(model_entries(es@) =~= Seq::<(Seq<u8>, Val)>::empty());
        }
        push_block_header_a(self, &mut es);
        push_block_header_b(self, &mut es);
        push_block_header_c(self, &mut es);
        proof {
            assert(model_entries(es@) =~= block_header_fields(*self));
        }
        Value::Record(es)
    }

    /// The canonical byte encoding of this block header.
    pub fn encode(&self) -> (r: Vec<u8>)
        ensures
            r@ == record_bytes(block_header_fields(*self)),
    {
        let v = self.to_value();
        encode_to_vec(&v)
    }
}

/// The record entries of the per-account local deltas: each account offset,
/// as its big-endian bytes, tagged to its delta set, in the stored order.
pub open spec fn local_delta_entries(s: Seq<(u64, StateDelta)>) -> Seq<(Seq<u8>, Val)> {
    Seq::new(s.len(), |i: int| (u64_bytes(s[i].0), Val::Record(state_delta_entries(s[i].1.0@))))
}

/// The canonical record fields of the execution deltas, in tag order,
/// defaults omitted.
pub open spec fn eval_delta_fields(e: EvalDelta) -> Seq<(Seq<u8>, Val)>
    decreases e, 1int,
{
    opt_entry(
        e.global_delta.0@.len() != 0,
        seq![103u8, 100],
        Val::Record(state_delta_entries(e.global_delta.0@)),
    ) + opt_entry(
        e.inner_txs@.len() != 0,
        seq![105u8, 116, 120],
        Val::List(inner_tx_vals(e.inner_txs@)),
    ) + opt_entry(
        e.local_deltas@.len() != 0,
        seq![108u8, 100],
        Val::Record(local_delta_entries(e.local_deltas@)),
    ) + opt_entry(e.logs@.len() != 0, seq![108u8, 103], Val::List(str_vals(e.logs@)))
}

/// The list model of a sequence of inner transactions.
pub open spec fn inner_tx_vals(s: Seq<SignedTxWithAD>) -> Seq<Val>
    decreases s, 1int,
{
    if s.len() == 0 {
        Seq::empty()
    } else {
        seq![Val::Record(signed_tx_with_ad_fields(s[0]))] + inner_tx_vals(s.drop_first())
    }
}

/// The canonical record fields of a signed transaction with its apply-data:
/// the envelope's fields followed by the apply-data's, one flattened record.
pub open spec fn signed_tx_with_ad_fields(t: SignedTxWithAD) -> Seq<(Seq<u8>, Val)>
    decreases t, 1int,
{
    signed_tx_fields(t.tx) + apply_data_fields(t.ad)
}

/// The canonical record fields of the apply-data, in tag order, defaults
/// omitted: the two tag groups below.
pub open spec fn apply_data_fields(a: ApplyData) -> Seq<(Seq<u8>, Val)>
    decreases a, 1int,
{
    apply_data_fields_a(a) + apply_data_fields_b(a)
}

/// Apply-data fields with tags `aca`, `apid`, `ca`, `caid`.
pub open spec fn apply_data_fields_a(a: ApplyData) -> Seq<(Seq<u8>, Val)> {
    opt_entry(
        a.asset_closing_amount != 0,
        seq![97u8, 99, 97],
        Val::Uint(a.asset_closing_amount),
    ) + opt_entry(a.application_id != 0, seq![97u8, 112, 105, 100], Val::Uint(a.application_id))
        + opt_entry(a.closing_amount.0 != 0, seq![99u8, 97], Val::Uint(a.closing_amount.0))
        + opt_entry(a.config_asset != 0, seq![99u8, 97, 105, 100], Val::Uint(a.config_asset))
}

/// Apply-data fields with tags `dt`, `rc`, `rr`, `rs`.
pub open spec fn apply_data_fields_b(a: ApplyData) -> Seq<(Seq<u8>, Val)>
    decreases a, 0int,
{
    opt_entry(
        a.eval_delta.is_set(),
        seq![100u8, 116],
        Val::Record(eval_delta_fields(a.eval_delta)),
    ) + opt_entry(a.close_rewards.0 != 0, seq![114u8, 99], Val::Uint(a.close_rewards.0))
        + opt_entry(a.receiver_rewards.0 != 0, seq![114u8, 114], Val::Uint(a.receiver_rewards.0))
        + opt_entry(a.sender_rewards.0 != 0, seq![114u8, 115], Val::Uint(a.sender_rewards.0))
}

impl EvalDelta {
    /// Whether any delta was produced; an all-default delta set is omitted
    /// from the apply-data.
    pub open spec fn is_set(self) -> bool {
        ||| self.global_delta.0@.len() != 0
        ||| self.local_deltas@.len() != 0
        ||| self.logs@.len() != 0
        ||| self.inner_txs@.len() != 0
    }

    /// Whether any delta was produced, decided at run time.
    pub fn is_set_exec(&self) -> (r: bool)
        ensures
            r == self.is_set(),
    {
        self.global_delta.0.len() != 0 || self.local_deltas.len() != 0 || self.logs.len() != 0
            || self.inner_txs.len() != 0
    }

    /// The canonical record value of these deltas.
    #[verifier::loop_isolation(false)]
    pub fn to_value(&self) -> (r: Value)
        ensures
            r.model() == Val::Record(eval_delta_fields(*self)),
        decreases *self, 1int,
    {
        let mut es: Vec<(Vec<u8>, Value)> = Vec::new();
        let ghost mut gs: Seq<(Seq<u8>, Val)> = Seq::empty();
        proof {
            assert(model_entries(es@) =~= gs);
        }
        if self.global_delta.0.len() != 0 {
            push_entry(&mut es, tag2(103, 100), self.global_delta.to_value());
        }
        proof {
            gs = gs + opt_entry(
                self.global_delta.0@.len() != 0,
                seq![103u8, 100],
                Val::Record(state_delta_entries(self.global_delta.0@)),
            );
            assert(model_entries(es@) =~= gs);
        }
        if self.inner_txs.len() != 0 {
            let mut vs: Vec<Value> = Vec::new();
            let mut i: usize = 0;
            while i < self.inner_txs.len()
                invariant
                    i <= self.inner_txs@.len(),
                    model_list(vs@) == inner_tx_vals(self.inner_txs@).take(i as int),
                decreases self.inner_txs@.len() - i,
            {
                proof {
                    assert(decreases_to!(*self => self.inner_txs@[i as int])) by {
                        assert(decreases_to!(*self => self.inner_txs));
                        assert(decreases_to!(self.inner_txs => self.inner_txs@));
                        assert(decreases_to!(self.inner_txs@ => self.inner_txs@[i as int]));
                    }
                    lemma_inner_tx_vals_index(self.inner_txs@, i as int);
                }
                push_item(&mut vs, self.inner_txs[i].to_value());
                proof {
                    assert(inner_tx_vals(self.inner_txs@).take((i + 1) as int) =~= inner_tx_vals(
                        self.inner_txs@,
                    ).take(i as int).push(
                        Val::Record(signed_tx_with_ad_fields(self.inner_txs@[i as int])),
                    ));
                }
                i = i + 1;
            }
            proof {
                lemma_inner_tx_vals_len(self.inner_txs@);
                assert(inner_tx_vals(self.inner_txs@).take(self.inner_txs@.len() as int)
                    =~= inner_tx_vals(self.inner_txs@));
            }
            push_entry(&mut es, tag3(105, 116, 120), Value::List(vs));
        }
        proof {
            gs = gs + opt_entry(
                self.inner_txs@.len() != 0,
                seq![105u8, 116, 120],
                Val::List(inner_tx_vals(self.inner_txs@)),
            );
            assert(model_entries(es@) =~= gs);
        }
        if self.local_deltas.len() != 0 {
            let mut inner: Vec<(Vec<u8>, Value)> = Vec::new();
            let mut i: usize = 0;
            while i < self.local_deltas.len()
                invariant
                    i <= self.local_deltas@.len(),
                    model_entries(inner@) == local_delta_entries(self.local_deltas@).take(
                        i as int,
                    ),
                decreases self.local_deltas@.len() - i,
            {
                push_entry(
                    &mut inner,
                    u64_tag(self.local_deltas[i].0),
                    self.local_deltas[i].1.to_value(),
                );
                proof {
                    assert(local_delta_entries(self.local_deltas@).take((i + 1) as int)
                        =~= local_delta_entries(self.local_deltas@).take(i as int).push(
                        (
                            u64_bytes(self.local_deltas@[i as int].0),
                            Val::Record(state_delta_entries(self.local_deltas@[i as int].1.0@)),
                        ),
                    ));
                }
                i = i + 1;
            }
            proof {
                assert(local_delta_entries(self.local_deltas@).take(
                    self.local_deltas@.len() as int,
                ) =~= local_delta_entries(self.local_deltas@));
            }
            push_entry(&mut es, tag2(108, 100), Value::Record(inner));
        }
        proof {
            gs = gs + opt_entry(
                self.local_deltas@.len() != 0,
                seq![108u8, 100],
                Val::Record(local_delta_entries(self.local_deltas@)),
            );
            assert(model_entries(es@) =~= gs);
        }
        if self.logs.len() != 0 {
            push_entry(&mut es, tag2(108, 103), string_list_val(&self.logs));
        }
        proof {
            gs = gs + opt_entry(self.logs@.len() != 0, seq![108u8, 103], Val::List(str_vals(
                self.logs@,
            )));
            assert(model_entries(es@) =~= gs);
            assert(gs == eval_delta_fields(*self));
        }
        Value::Record(es)
    }
}

proof fn lemma_inner_tx_vals_index(s: Seq<SignedTxWithAD>, i: int)
    requires
        0 <= i < s.len(),
    ensures
        inner_tx_vals(s).len() == s.len(),
        inner_tx_vals(s)[i] == Val::Record(signed_tx_with_ad_fields(s[i])),
    decreases i,
{
    lemma_inner_tx_vals_len(s);
    if i > 0 {
        lemma_inner_tx_vals_index(s.drop_first(), i - 1);
    }
}

proof fn lemma_inner_tx_vals_len(s: Seq<SignedTxWithAD>)
    ensures
        inner_tx_vals(s).len() == s.len(),
    decreases s,
{
    if s.len() > 0 {
        lemma_inner_tx_vals_len(s.drop_first());
    }
}

impl SignedTxWithAD {
    /// The canonical record value of this transaction-with-apply-data: the
    /// envelope's fields followed by the apply-data's, one flattened record.
    pub fn to_value(&self) -> (r: Value)
        ensures
            r.model() == Val::Record(signed_tx_with_ad_fields(*self)),
        decreases *self, 1int,
    {
        let txv = self.tx.to_value();
        let mut es: Vec<(Vec<u8>, Value)> = match txv {
            Value::Record(es) => es,
            _ => Vec::new(),  // cannot happen: the envelope value is a record
        };
        proof {
            assert(model_entries(es@) == signed_tx_fields(self.tx));
        }
        proof {
            assert(decreases_to!(*self => self.ad));
        }
        push_apply_a(&self.ad, &mut es);
        push_apply_b(&self.ad, &mut es);
        proof {
            assert(model_entries(es@) =~= signed_tx_with_ad_fields(*self));
        }
        Value::Record(es)
    }
}

fn push_apply_a(a: &ApplyData, es: &mut Vec<(Vec<u8>, Value)>)
    ensures
        model_entries(final(es)@) == model_entries(old(es)@) + apply_data_fields_a(*a),
{
    let ghost base = model_entries(es@);
    let ghost mut gs: Seq<(Seq<u8>, Val)> = Seq::empty();
    proof {
        assert(model_entries(es@) =~= base + gs);
    }
    if a.asset_closing_amount != 0 {
        push_entry(es, tag3(97, 99, 97), Value::Uint(a.asset_closing_amount));
    }
    proof {
        gs = gs + opt_entry(a.asset_closing_amount != 0, seq![97u8, 99, 97], Val::Uint(
            a.asset_closing_amount,
        ));
        assert(model_entries(es@) =~= base + gs);
    }
    if a.application_id != 0 {
        push_entry(es, tag4(97, 112, 105, 100), Value::Uint(a.application_id));
    }
    proof {
        gs = gs + opt_entry(a.application_id != 0, seq![97u8, 112, 105, 100], Val::Uint(
            a.application_id,
        ));
        assert(model_entries(es@) =~= base + gs);
    }
    if a.closing_amount.0 != 0 {
        push_entry(es, tag2(99, 97), Value::Uint(a.closing_amount.0));
    }
    proof {
        gs = gs + opt_entry(a.closing_amount.0 != 0, seq![99u8, 97], Val::Uint(
            a.closing_amount.0,
        ));
        assert(model_entries(es@) =~= base + gs);
    }
    if a.config_asset != 0 {
        push_entry(es, tag4(99, 97, 105, 100), Value::Uint(a.config_asset));
    }
    proof {
        gs = gs + opt_entry(a.config_asset != 0, seq![99u8, 97, 105, 100], Val::Uint(
            a.config_asset,
        ));
        assert(model_entries(es@) =~= base + gs);
        assert(gs == apply_data_fields_a(*a));
    }
}

fn push_apply_b(a: &ApplyData, es: &mut Vec<(Vec<u8>, Value)>)
    ensures
        model_entries(final(es)@) == model_entries(old(es)@) + apply_data_fields_b(*a),
    decreases *a, 0int,
{
    let ghost base = model_entries(es@);
    let ghost mut gs: Seq<(Seq<u8>, Val)> = Seq::empty();
    proof {
        assert(model_entries(es@) =~= base + gs);
    }
    if a.eval_delta.is_set_exec() {
        proof {
            assert(decreases_to!(*a => a.eval_delta));
        }
        push_entry(es, tag2(100, 116), a.eval_delta.to_value());
    }
    proof {
        gs = gs + opt_entry(
            a.eval_delta.is_set(),
            seq![100u8, 116],
            Val::Record(eval_delta_fields(a.eval_delta)),
        );
        assert(model_entries(es@) =~= base + gs);
    }
    if a.close_rewards.0 != 0 {
        push_entry(es, tag2(114, 99), Value::Uint(a.close_rewards.0));
    }
    proof {
        gs = gs + opt_entry(a.close_rewards.0 != 0, seq![114u8, 99], Val::Uint(
            a.close_rewards.0,
        ));
        assert(model_entries(es@) =~= base + gs);
    }
    if a.receiver_rewards.0 != 0 {
        push_entry(es, tag2(114, 114), Value::Uint(a.receiver_rewards.0));
    }
    proof {
        gs = gs + opt_entry(a.receiver_rewards.0 != 0, seq![114u8, 114], Val::Uint(
            a.receiver_rewards.0,
        ));
        assert(model_entries(es@) =~= base + gs);
    }
    if a.sender_rewards.0 != 0 {
        push_entry(es, tag2(114, 115), Value::Uint(a.sender_rewards.0));
    }
    proof {
        gs = gs + opt_entry(a.sender_rewards.0 != 0, seq![114u8, 115], Val::Uint(
            a.sender_rewards.0,
        ));
        assert(model_entries(es@) =~= base + gs);
        assert(gs == apply_data_fields_b(*a));
    }
}

impl ApplyData {
    /// The canonical record value of this apply-data.
    pub fn to_value(&self) -> (r: Value)
        ensures
            r.model() == Val::Record(apply_data_fields(*self)),
        decreases *self, 1int,
    {
        let mut es: Vec<(Vec<u8>, Value)> = Vec::new();
        proof {
            assert(model_entries(es@) =~= Seq::<(Seq<u8>, Val)>::empty());
        }
        push_apply_a(self, &mut es);
        push_apply_b(self, &mut es);
        proof {
            assert(model_entries(es@) =~= apply_data_fields(*self));
        }
        Value::Record(es)
    }
}

/// The canonical record fields of a signed transaction as it stands in a
/// block: the transaction-with-apply-data fields, then the genesis-presence
/// markers.
pub open spec fn signed_tx_in_block_fields(t: SignedTxInBlock) -> Seq<(Seq<u8>, Val)> {
    signed_tx_with_ad_fields(t.sig_txad) + opt_entry(
        t.has_genesis_hash,
        seq![104u8, 103, 104],
        Val::Uint(1),
    ) + opt_entry(t.has_genesis_id, seq![104u8, 103, 105], Val::Uint(1))
}

impl SignedTxInBlock {
    /// The canonical record value of this in-block transaction.
    pub fn to_value(&self) -> (r: Value)
        ensures
            r.model() == Val::Record(signed_tx_in_block_fields(*self)),
    {
        let v = self.sig_txad.to_value();
        let mut es: Vec<(Vec<u8>, Value)> = match v {
            Value::Record(es) => es,
            _ => Vec::new(),  // cannot happen: the inner value is a record
        };
        let ghost base = model_entries(es@);
        let ghost mut gs: Seq<(Seq<u8>, Val)> = Seq::empty();
        proof {
            assert(base == signed_tx_with_ad_fields(self.sig_txad));
            assert(model_entries(es@) =~= base + gs);
        }
        if self.has_genesis_hash {
            push_entry(&mut es, tag3(104, 103, 104), Value::Uint(1));
        }
        proof {
            gs = gs + opt_entry(self.has_genesis_hash, seq![104u8, 103, 104], Val::Uint(1));
            assert(model_entries(es@) =~= base + gs);
        }
        if self.has_genesis_id {
            push_entry(&mut es, tag3(104, 103, 105), Value::Uint(1));
        }
        proof {
            gs = gs + opt_entry(self.has_genesis_id, seq![104u8, 103, 105], Val::Uint(1));
            assert(model_entries(es@) =~= base + gs);
            assert(model_entries(es@) =~= signed_tx_in_block_fields(*self));
        }
        Value::Record(es)
    }
}

/// The list model of a block's ordered transaction set.  The order is the
/// stored order: the encoder never reorders it.
pub open spec fn payset_vals(s: Seq<SignedTxInBlock>) -> Seq<Val> {
    Seq::new(s.len(), |i: int| Val::Record(signed_tx_in_block_fields(s[i])))
}

impl Payset {
    /// The canonical list value of this transaction set, in stored order.
    pub fn to_value(&self) -> (r: Value)
        ensures
            r.model() == Val::List(payset_vals(self.0@)),
    {
        let mut vs: Vec<Value> = Vec::new();
        let mut i: usize = 0;
        while i < self.0.len()
            invariant
                i <= self.0@.len(),
                model_list(vs@) == payset_vals(self.0@).take(i as int),
            decreases self.0@.len() - i,
        {
            push_item(&mut vs, self.0[i].to_value());
            proof {
                assert(payset_vals(self.0@).take((i + 1) as int) =~= payset_vals(
                    self.0@,
                ).take(i as int).push(
                    Val::Record(signed_tx_in_block_fields(self.0@[i as int])),
                ));
            }
            i = i + 1;
        }
        proof {
            assert(payset_vals(self.0@).take(self.0@.len() as int) =~= payset_vals(self.0@));
        }
        Value::List(vs)
    }
}

/// The canonical record fields of a whole block: the header fields, then
/// the transaction set under the `txns` tag when it is not empty.
pub open spec fn block_fields(b: Block) -> Seq<(Seq<u8>, Val)> {
    block_header_fields(b.header) + opt_entry(
        b.payset.0@.len() != 0,
        seq![116u8, 120, 110, 115],
        Val::List(payset_vals(b.payset.0@)),
    )
}

/// The canonical byte encoding of a block.
pub open spec fn block_bytes(b: Block) -> Seq<u8> {
    record_bytes(block_fields(b))
}

impl Block {
    /// The canonical record value of this block.
    pub fn to_value(&self) -> (r: Value)
        ensures
            r.model() == Val::Record(block_fields(*self)),
    {
        let hv = self.header.to_value();
        let mut es: Vec<(Vec<u8>, Value)> = match hv {
            Value::Record(es) => es,
            _ => Vec::new(),  // cannot happen: the header value is a record
        };
        let ghost base = model_entries(es@);
        let ghost mut gs: Seq<(Seq<u8>, Val)> = Seq::empty();
        proof {
            assert(base == block_header_fields(self.header));
            assert(model_entries(es@) =~= base + gs);
        }
        if self.payset.0.len() != 0 {
            push_entry(&mut es, tag4(116, 120, 110, 115), self.payset.to_value());
        }
        proof {
            gs = gs + opt_entry(
                self.payset.0@.len() != 0,
                seq![116u8, 120, 110, 115],
                Val::List(payset_vals(self.payset.0@)),
            );
            assert(model_entries(es@) =~= base + gs);
            assert(model_entries(es@) =~= block_fields(*self));
        }
        Value::Record(es)
    }

    /// The canonical byte encoding of this block.
    pub fn encode(&self) -> (r: Vec<u8>)
        ensures
            r@ == block_bytes(*self),
    {
        let v = self.to_value();
        encode_to_vec(&v)
    }
}

} // verus!
