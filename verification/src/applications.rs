//! Application-call transaction fields.

use vstd::prelude::*;

use crate::address::Address;
use crate::asset::AssetIndex;
use crate::codec::{model_entries, Val, Value};
use crate::schema::{opt_entry, push_entry, tag3};

verus! {

/// Unique integer index of an application; `0` means "not yet allocated".
pub type AppIndex = u64;

/// The side effect an application call has on the caller's state.
#[derive(Clone, Copy, Debug, PartialEq, Eq, Structural)]
pub enum OnCompletion {
    NoOpOC,
    OptInOC,
    CloseOutOC,
    ClearStateOC,
    UpdateApplicationOC,
    DeleteApplicationOC,
}

impl Default for OnCompletion {
    /// Plain approval-program calls are the default.
    fn default() -> (r: Self)
        ensures
            r == OnCompletion::NoOpOC,
    {
        OnCompletion::NoOpOC
    }
}

/// The numeric discriminant under which an on-completion action is encoded.
pub open spec fn on_completion_num(oc: OnCompletion) -> u64 {
    match oc {
        OnCompletion::NoOpOC => 0,
        OnCompletion::OptInOC => 1,
        OnCompletion::CloseOutOC => 2,
        OnCompletion::ClearStateOC => 3,
        OnCompletion::UpdateApplicationOC => 4,
        OnCompletion::DeleteApplicationOC => 5,
    }
}

/// Maximum numbers of values an application may store.
#[derive(Clone, Copy, Debug, PartialEq, Eq, Structural)]
pub struct StateSchema {
    pub num_uint: u64,
    pub num_byte_slice: u64,
}

/// The transaction fields used for all interactions with applications.
#[derive(Clone, PartialEq, Eq)]
pub struct AppCallFields {
    pub application_id: AppIndex,
    pub on_completion: OnCompletion,
    pub application_args: Vec<Vec<u8>>,
    pub accounts: Vec<Address>,
    pub foreign_apps: Vec<AppIndex>,
    pub foreign_assets: Vec<AssetIndex>,
    pub local_state_schema: StateSchema,
    pub global_state_schema: StateSchema,
    pub approval_program: Vec<u8>,
    pub clear_state_program: Vec<u8>,
    pub extra_program_pages: u32,
}

/// The numeric form of an on-completion action, for encoding.
pub fn on_completion_value(oc: &OnCompletion) -> (r: u64)
    ensures
        r == on_completion_num(*oc),
{
    match oc {
        OnCompletion::NoOpOC => 0,
        OnCompletion::OptInOC => 1,
        OnCompletion::CloseOutOC => 2,
        OnCompletion::ClearStateOC => 3,
        OnCompletion::UpdateApplicationOC => 4,
        OnCompletion::DeleteApplicationOC => 5,
    }
}

/// The canonical record fields of a state schema, in tag order, defaults
/// omitted.
pub open spec fn state_schema_fields(s: StateSchema) -> Seq<(Seq<u8>, Val)> {
    opt_entry(s.num_byte_slice != 0, seq![110u8, 98, 115], Val::Uint(s.num_byte_slice))
        + opt_entry(s.num_uint != 0, seq![110u8, 117, 105], Val::Uint(s.num_uint))
}

impl StateSchema {
    /// Whether any maximum is set; an all-default schema is omitted from
    /// its enclosing record.
    pub open spec fn is_set(self) -> bool {
        self.num_uint != 0 || self.num_byte_slice != 0
    }

    /// The canonical record value of this schema.
    pub fn to_value(&self) -> (r: Value)
        ensures
            r.model() == Val::Record(state_schema_fields(*self)),
    {
        let mut es: Vec<(Vec<u8>, Value)> = Vec::new();
        let ghost mut gs: Seq<(Seq<u8>, Val)> = Seq::empty();
        proof {
            assert(model_entries(es@) =~= gs);
        }
        if self.num_byte_slice != 0 {
            push_entry(&mut es, tag3(110, 98, 115), Value::Uint(self.num_byte_slice));
        }
        proof {
            gs = gs + opt_entry(self.num_byte_slice != 0, seq![110u8, 98, 115], Val::Uint(
                self.num_byte_slice,
            ));
            assert(model_entries(es@) =~= gs);
        }
        if self.num_uint != 0 {
            push_entry(&mut es, tag3(110, 117, 105), Value::Uint(self.num_uint));
        }
        proof {
            gs = gs + opt_entry(self.num_uint != 0, seq![110u8, 117, 105], Val::Uint(
                self.num_uint,
            ));
            assert(model_entries(es@) =~= gs);
            assert(gs == state_schema_fields(*self));
        }
        Value::Record(es)
    }

    /// Whether any maximum is set, decided at run time.
    pub fn is_set_exec(&self) -> (r: bool)
        ensures
            r == self.is_set(),
    {
        self.num_uint != 0 || self.num_byte_slice != 0
    }
}

} // verus!
