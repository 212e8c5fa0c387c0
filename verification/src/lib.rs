//! Canonical, checksummed encodings for an account-based ledger.
//!
//! The crate provides two codecs:
//! - a checksummed base32 address codec (`address`), and
//! - a canonical tag-map record codec (`codec`) used to serialize
//!   transactions, blocks and signature containers deterministically.

pub mod address;
pub mod applications;
pub mod asset;
pub mod auction;
pub mod basics;
pub mod block;
pub mod codec;
pub mod schema;
pub mod signature;
pub mod transaction;
pub mod util;

pub use address::{Address, AddressError};
pub use applications::{AppCallFields, AppIndex, OnCompletion, StateSchema};
pub use asset::{AssetIndex, AssetParams};
pub use auction::{Bid, NoteField, SignedBid};
pub use basics::{Digest, MicroAlgos, PublicKey, Round, VotePK, VrfPK};
pub use block::{ApplyData, Block, BlockHeader, DeltaAction, EvalDelta, Payset, RewardsState, SignedTxInBlock, SignedTxWithAD, StateDelta, UpgradeState, UpgradeVote, ValueDelta};
pub use codec::{CodecError, Val, Value};
pub use signature::{LogicSig, MultisigSignature, MultisigSubsig, Signature};
pub use transaction::{AssetConfigFields, AssetFreezeFields, AssetTransferFields, Header, KeyregFields, PaymentFields, SignedTx, Transaction, TxFields};
pub use util::is_default;
