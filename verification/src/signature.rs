//! Signature containers: single signatures, multisignatures and delegated
//! logic signatures.

use vstd::prelude::*;

use crate::address::zero_bytes;
use crate::basics::PublicKey;
use crate::codec::{model_entries, model_list, Val, Value};
use crate::schema::{
    arr32_val, arr64_val, bytes_list_val, bytes_val, bytes_vals, opt_entry, push_entry,
    push_item, tag1, tag2, tag3, tag4, tag6, zero_bytes64,
};

verus! {

/// A 64-byte ed25519 signature value.  The all-zero value is the canonical
/// "absent" sentinel; no real signing key produces it.
#[derive(Clone, Copy, Debug, PartialEq, Eq)]
pub struct Signature(pub [u8; 64]);

impl Signature {
    /// Checks whether this signature is the all-zero sentinel.
    pub fn is_zero(&self) -> (r: bool)
        ensures
            r == (self.0@ == zero_bytes64()),
    {
        crate::schema::is_zero64(&self.0)
    }
}

impl Default for Signature {
    /// The all-zero sentinel signature.
    fn default() -> (r: Self)
        ensures
            r.0@ == zero_bytes64(),
    {
        let s = Signature([0u8; 64]);
        proof {
            assert(s.0@ =~= zero_bytes64());
        }
        s
    }
}

/// One public key and, optionally, a signature by it.
#[derive(Clone, PartialEq, Eq)]
pub struct MultisigSubsig {
    pub key: PublicKey,
    pub sig: Option<Signature>,
}

/// An M-of-N co-signing scheme: version, threshold, and the ordered subsigs.
#[derive(Clone, PartialEq, Eq)]
pub struct MultisigSignature {
    pub version: u8,
    pub threshold: u8,
    pub subsigs: Vec<MultisigSubsig>,
}

impl MultisigSignature {
    /// The stated co-signing threshold never exceeds the number of subsigs.
    pub open spec fn well_formed(self) -> bool {
        self.threshold as int <= self.subsigs@.len()
    }
}

/// Delegated validation logic: a program, the signature (single or multi)
/// that delegates to it, and its arguments.
#[derive(Clone, PartialEq, Eq)]
pub struct LogicSig {
    pub logic: Vec<u8>,
    pub sig: Signature,
    pub msig: MultisigSignature,
    pub args: Vec<Vec<u8>>,
}

/// The canonical record fields of one subsignature, in tag order, defaults
/// omitted.
pub open spec fn subsig_fields(s: MultisigSubsig) -> Seq<(Seq<u8>, Val)> {
    opt_entry(s.key.0@ != zero_bytes(), seq![112u8, 107], Val::Bytes(s.key.0@)) + (match s.sig {
        Some(sg) => seq![(seq![115u8], Val::Bytes(sg.0@))],
        None => Seq::empty(),
    })
}

/// The list model of a sequence of subsignatures.
pub open spec fn subsig_vals(s: Seq<MultisigSubsig>) -> Seq<Val> {
    Seq::new(s.len(), |i: int| Val::Record(subsig_fields(s[i])))
}

/// The canonical record fields of a multisignature, in tag order, defaults
/// omitted.
pub open spec fn msig_fields(m: MultisigSignature) -> Seq<(Seq<u8>, Val)> {
    opt_entry(
        m.subsigs@.len() != 0,
        seq![115u8, 117, 98, 115, 105, 103],
        Val::List(subsig_vals(m.subsigs@)),
    ) + opt_entry(m.threshold != 0, seq![116u8, 104, 114], Val::Uint(m.threshold as u64))
        + opt_entry(m.version != 0, seq![118u8], Val::Uint(m.version as u64))
}

impl MultisigSubsig {
    /// The canonical record value of this subsignature.
    pub fn to_value(&self) -> (r: Value)
        ensures
            r.model() == Val::Record(subsig_fields(*self)),
    {
        let mut es: Vec<(Vec<u8>, Value)> = Vec::new();
        let ghost mut gs: Seq<(Seq<u8>, Val)> = Seq::empty();
        proof {
            assert(model_entries(es@) =~= gs);
        }
        if !self.key.is_zero() {
            push_entry(&mut es, tag2(112, 107), arr32_val(&self.key.0));
        }
        proof {
            gs = gs + opt_entry(self.key.0@ != zero_bytes(), seq![112u8, 107], Val::Bytes(
                self.key.0@,
            ));
            assert(model_entries(es@) =~= gs);
        }
        match &self.sig {
            Some(sg) => {
                push_entry(&mut es, tag1(115), arr64_val(&sg.0));
            }
            None => {}
        }
        proof {
            gs = gs + (match self.sig {
                Some(sg) => seq![(seq![115u8], Val::Bytes(sg.0@))],
                None => Seq::empty(),
            });
            assert(model_entries(es@) =~= gs);
            assert(gs == subsig_fields(*self));
        }
        Value::Record(es)
    }
}

impl MultisigSignature {
    /// Whether any field departs from its default; an all-default
    /// multisignature is omitted when encoding.
    pub open spec fn is_set(self) -> bool {
        self.version != 0 || self.threshold != 0 || self.subsigs@.len() != 0
    }

    /// Whether any field departs from its default, decided at run time.
    pub fn is_set_exec(&self) -> (r: bool)
        ensures
            r == self.is_set(),
    {
        self.version != 0 || self.threshold != 0 || self.subsigs.len() != 0
    }

    /// The canonical record value of this multisignature.
    pub fn to_value(&self) -> (r: Value)
        ensures
            r.model() == Val::Record(msig_fields(*self)),
    {
        let mut es: Vec<(Vec<u8>, Value)> = Vec::new();
        let ghost mut gs: Seq<(Seq<u8>, Val)> = Seq::empty();
        proof {
            assert(model_entries(es@) =~= gs);
        }
        if self.subsigs.len() != 0 {
            let mut vs: Vec<Value> = Vec::new();
            let mut i: usize = 0;
            while i < self.subsigs.len()
                invariant
                    i <= self.subsigs@.len(),
                    model_list(vs@) == subsig_vals(self.subsigs@).take(i as int),
                decreases self.subsigs@.len() - i,
            {
                push_item(&mut vs, self.subsigs[i].to_value());
                proof {
                    assert(subsig_vals(self.subsigs@).take((i + 1) as int) =~= subsig_vals(
                        self.subsigs@,
                    ).take(i as int).push(Val::Record(subsig_fields(self.subsigs@[i as int]))));
                }
                i = i + 1;
            }
            proof {
                assert(subsig_vals(self.subsigs@).take(self.subsigs@.len() as int)
                    =~= subsig_vals(self.subsigs@));
            }
            push_entry(&mut es, tag6(115, 117, 98, 115, 105, 103), Value::List(vs));
        }
        proof {
            gs = gs + opt_entry(
                self.subsigs@.len() != 0,
                seq![115u8, 117, 98, 115, 105, 103],
                Val::List(subsig_vals(self.subsigs@)),
            );
            assert(model_entries(es@) =~= gs);
        }
        if self.threshold != 0 {
            push_entry(&mut es, tag3(116, 104, 114), Value::Uint(self.threshold as u64));
        }
        proof {
            gs = gs + opt_entry(self.threshold != 0, seq![116u8, 104, 114], Val::Uint(
                self.threshold as u64,
            ));
            assert(model_entries(es@) =~= gs);
        }
        if self.version != 0 {
            push_entry(&mut es, tag1(118), Value::Uint(self.version as u64));
        }
        proof {
            gs = gs + opt_entry(self.version != 0, seq![118u8], Val::Uint(self.version as u64));
            assert(model_entries(es@) =~= gs);
            assert(gs == msig_fields(*self));
        }
        Value::Record(es)
    }
}

/// The canonical record fields of a logic signature, in tag order, defaults
/// omitted.
pub open spec fn lsig_fields(l: LogicSig) -> Seq<(Seq<u8>, Val)> {
    opt_entry(l.args@.len() != 0, seq![97u8, 114, 103], Val::List(bytes_vals(l.args@)))
        + opt_entry(l.logic@.len() != 0, seq![108u8], Val::Bytes(l.logic@)) + opt_entry(
        l.msig.is_set(),
        seq![109u8, 115, 105, 103],
        Val::Record(msig_fields(l.msig)),
    ) + opt_entry(l.sig.0@ != zero_bytes64(), seq![115u8, 105, 103], Val::Bytes(l.sig.0@))
}

impl LogicSig {
    /// The canonical record value of this logic signature.
    pub fn to_value(&self) -> (r: Value)
        ensures
            r.model() == Val::Record(lsig_fields(*self)),
    {
        let mut es: Vec<(Vec<u8>, Value)> = Vec::new();
        let ghost mut gs: Seq<(Seq<u8>, Val)> = Seq::empty();
        proof {
            assert(model_entries(es@) =~= gs);
        }
        if self.args.len() != 0 {
            push_entry(&mut es, tag3(97, 114, 103), bytes_list_val(&self.args));
        }
        proof {
            gs = gs + opt_entry(self.args@.len() != 0, seq![97u8, 114, 103], Val::List(
                bytes_vals(self.args@),
            ));
            assert(model_entries(es@) =~= gs);
        }
        if self.logic.len() != 0 {
            push_entry(&mut es, tag1(108), bytes_val(&self.logic));
        }
        proof {
            gs = gs + opt_entry(self.logic@.len() != 0, seq![108u8], Val::Bytes(self.logic@));
            assert(model_entries(es@) =~= gs);
        }
        if self.msig.is_set_exec() {
            push_entry(&mut es, tag4(109, 115, 105, 103), self.msig.to_value());
        }
        proof {
            gs = gs + opt_entry(
                self.msig.is_set(),
                seq![109u8, 115, 105, 103],
                Val::Record(msig_fields(self.msig)),
            );
            assert(model_entries(es@) =~= gs);
        }
        if !self.sig.is_zero() {
            push_entry(&mut es, tag3(115, 105, 103), arr64_val(&self.sig.0));
        }
        proof {
            gs = gs + opt_entry(self.sig.0@ != zero_bytes64(), seq![115u8, 105, 103], Val::Bytes(
                self.sig.0@,
            ));
            assert(model_entries(es@) =~= gs);
            assert(gs == lsig_fields(*self));
        }
        Value::Record(es)
    }
}

} // verus!
