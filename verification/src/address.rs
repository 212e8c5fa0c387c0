//! The checksummed address codec.
//!
//! An address is a 32-byte hash.  Its canonical text form is the unpadded
//! base32 encoding of the 36-byte buffer `hash ++ checksum`, where the
//! checksum is the last 4 bytes of the SHA-512/256 digest of the hash.
//! Decoding rejects every string that is not exactly the canonical form of
//! some address, with an error that says why.

use vstd::prelude::*;

use data_encoding::BASE32_NOPAD;
use sha2::{Digest, Sha512_256};

verus! {

/// The SHA-512/256 digest of a byte string, as the `sha2` crate computes it.
pub uninterp spec fn sha512_256_of(b: Seq<u8>) -> Seq<u8>;

/// The unpadded base32 text of a byte string, as `data_encoding`'s
/// `BASE32_NOPAD` computes it.
pub uninterp spec fn base32_of(b: Seq<u8>) -> Seq<char>;

/// Relies on sha2's `Sha512_256` digest: a pure function of the input bytes
/// with a 32-byte output.
#[verifier::external_body]
fn sha512_256(b: &[u8]) -> (r: Vec<u8>)
    ensures
        r@ == sha512_256_of(b@),
        r@.len() == 32,
{
    Sha512_256::digest(b).to_vec()
}

/// Relies on data_encoding's `BASE32_NOPAD.encode`: deterministic unpadded
/// base32 text of the input, five bits per character, so the output holds
/// exactly `ceil(8 * len / 5)` characters.
#[verifier::external_body]
fn base32_encode(b: &[u8]) -> (r: String)
    ensures
        r@ == base32_of(b@),
        r@.len() == (8 * b@.len() + 4) / 5,
{
    BASE32_NOPAD.encode(b)
}

/// Relies on data_encoding's `BASE32_NOPAD.decode`: it is canonical, so it
/// succeeds exactly on the outputs of `encode` and returns the unique
/// preimage; every other input is rejected.
#[verifier::external_body]
fn base32_decode(s: &str) -> (r: Option<Vec<u8>>)
    ensures
        r matches Some(b) ==> base32_of(b@) == s@ && (forall|b2: Seq<u8>|
            base32_of(b2) == s@ ==> b2 == b@),
        r is None ==> forall|b2: Seq<u8>| base32_of(b2) != s@,
{
    BASE32_NOPAD.decode(s.as_bytes()).ok()
}

/// Why a string failed to parse as an address.
#[derive(Clone, Copy, Debug, PartialEq, Eq, Structural)]
pub enum AddressError {
    InvalidBase32,
    WrongLength,
    InvalidChecksum,
}

/// A 32-byte account or program hash.
#[derive(Clone, Copy, Debug, Hash, PartialEq, Eq)]
pub struct Address(pub [u8; 32]);

impl Default for Address {
    /// The all-zero sentinel address.
    fn default() -> (r: Self)
        ensures
            r.0@ == zero_bytes(),
    {
        let a = Address([0u8; 32]);
        proof {
            assert(a.0@ =~= zero_bytes());
        }
        a
    }
}

/// The 4-byte integrity checksum of a 32-byte value: the last 4 bytes of its
/// 32-byte SHA-512/256 digest.
pub open spec fn checksum_of(a: Seq<u8>) -> Seq<u8> {
    Seq::new(4, |i: int| sha512_256_of(a)[28 + i])
}

/// The canonical text form of a 32-byte value.
pub open spec fn encoding_of(a: Seq<u8>) -> Seq<char> {
    base32_of(a + checksum_of(a))
}

/// The all-zero 32-byte value, the "absent" sentinel.
pub open spec fn zero_bytes() -> Seq<u8> {
    Seq::new(32, |i: int| 0u8)
}

/// Whether a decoded buffer passes checksum validation: it holds at least a
/// 32-byte value, and its trailing 4 bytes equal the recomputed checksum of
/// its first 32 bytes.  Buffers longer than 36 bytes are deliberately
/// tolerated: only the first 32 bytes become the value, and the checksum is
/// validated over the last 4 bytes of the whole decode.
pub open spec fn checksum_accepted(b: Seq<u8>) -> bool {
    b.len() >= 32 && b.subrange(b.len() - 4, b.len() as int) == checksum_of(b.subrange(0, 32))
}

/// Everything `Address::decode` promises, as a relation between the input
/// string and the result.
pub open spec fn decode_spec(s: Seq<char>, r: Result<Address, AddressError>) -> bool {
    &&& (r matches Ok(a) ==> exists|b: Seq<u8>|
        base32_of(b) == s && #[trigger] checksum_accepted(b) && a.0@ == b.subrange(0, 32))
    &&& (forall|b: Seq<u8>|
        base32_of(b) == s && #[trigger] checksum_accepted(b) ==> (r matches Ok(a) && a.0@
            == b.subrange(0, 32)))
    &&& ((r == Err::<Address, AddressError>(AddressError::InvalidBase32)) <==> (forall|b: Seq<u8>|
        base32_of(b) != s))
    &&& ((r == Err::<Address, AddressError>(AddressError::WrongLength)) <==> (exists|b: Seq<u8>|
        base32_of(b) == s && b.len() < 32))
    &&& ((r == Err::<Address, AddressError>(AddressError::InvalidChecksum)) <==> (exists|
        b: Seq<u8>,
    |
        base32_of(b) == s && b.len() >= 32 && !checksum_accepted(b)))
}

impl Address {
    /// The 4-byte checksum of this address.
    fn checksum(&self) -> (r: Vec<u8>)
        ensures
            r@ == checksum_of(self.0@),
            r@.len() == 4,
    {
        let digest = sha512_256(self.0.as_slice());
        let mut out: Vec<u8> = Vec::new();
        out.push(digest[28]);
        out.push(digest[29]);
        out.push(digest[30]);
        out.push(digest[31]);
        assert(out@ =~= checksum_of(self.0@));
        out
    }

    /// Checks whether this address is the all-zero sentinel.
    pub fn is_zero(&self) -> (r: bool)
        ensures
            r == (self.0@ == zero_bytes()),
    {
        let mut i: usize = 0;
        while i < 32
            invariant
                i <= 32,
                forall|k: int| 0 <= k < i ==> self.0@[k] == 0u8,
            decreases 32 - i,
        {
            if self.0[i] != 0 {
                proof {
                    assert(self.0@[i as int] != zero_bytes()[i as int]);
                }
                return false;
            }
            i = i + 1;
        }
        proof {
            assert(self.0@ =~= zero_bytes());
        }
        true
    }

    /// The canonical text form of this address: base32 of the 36-byte
    /// value-plus-checksum buffer, always 58 characters long.
    pub fn encode(&self) -> (r: String)
        ensures
            r@ == encoding_of(self.0@),
            r@.len() == 58,
    {
        let mut buf: Vec<u8> = Vec::new();
        let mut i: usize = 0;
        while i < 32
            invariant
                i <= 32,
                buf@ == self.0@.subrange(0, i as int),
            decreases 32 - i,
        {
            buf.push(self.0[i]);
            assert(self.0@.subrange(0, (i + 1) as int) =~= self.0@.subrange(0, i as int).push(
                self.0@[i as int],
            ));
            i = i + 1;
        }
        let ck = self.checksum();
        buf.push(ck[0]);
        buf.push(ck[1]);
        buf.push(ck[2]);
        buf.push(ck[3]);
        assert(buf@ =~= self.0@ + checksum_of(self.0@));
        base32_encode(buf.as_slice())
    }

    /// Parses the text form of an address, validating the base32 encoding,
    /// the decoded length and the embedded checksum.  A decode longer than
    /// 36 bytes is tolerated: the value is its first 32 bytes and the
    /// checksum is validated over its last 4 bytes.  For a 36-byte decode,
    /// success provably implies that re-encoding the value reproduces the
    /// input string (see `lemma_encode_decode_canonical`).
    pub fn decode(s: &str) -> (r: Result<Address, AddressError>)
        ensures
            decode_spec(s@, r),
    {
        let decoded = match base32_decode(s) {
            None => {
                return Err(AddressError::InvalidBase32);
            }
            Some(d) => d,
        };
        let dl = decoded.len();
        if dl < 32 {
            return Err(AddressError::WrongLength);
        }
        let mut arr = [0u8; 32];
        let mut i: usize = 0;
        while i < 32
            invariant
                i <= 32,
                decoded@.len() >= 32,
                forall|k: int| 0 <= k < i ==> arr@[k] == decoded@[k],
            decreases 32 - i,
        {
            arr[i] = decoded[i];
            i = i + 1;
        }
        proof {
            assert(arr@ =~= decoded@.subrange(0, 32));
        }
        let a = Address(arr);
        let ck = a.checksum();
        let ck_ok = decoded[dl - 4] == ck[0] && decoded[dl - 3] == ck[1] && decoded[dl - 2]
            == ck[2] && decoded[dl - 1] == ck[3];
        if ck_ok {
            proof {
                assert(decoded@.subrange(dl - 4, dl as int) =~= checksum_of(
                    decoded@.subrange(0, 32),
                ));
                assert(checksum_accepted(decoded@));
            }
            Ok(a)
        } else {
            proof {
                assert(decoded@.subrange(dl - 4, dl as int) != checksum_of(
                    decoded@.subrange(0, 32),
                )) by {
                    assert(decoded@.subrange(dl - 4, dl as int)[0] == decoded@[dl - 4]);
                    assert(decoded@.subrange(dl - 4, dl as int)[1] == decoded@[dl - 3]);
                    assert(decoded@.subrange(dl - 4, dl as int)[2] == decoded@[dl - 2]);
                    assert(decoded@.subrange(dl - 4, dl as int)[3] == decoded@[dl - 1]);
                }
                assert(!checksum_accepted(decoded@));
            }
            Err(AddressError::InvalidChecksum)
        }
    }
}

/// Law: decoding the canonical encoding of any address gives back exactly
/// that address.
pub proof fn lemma_decode_encode_roundtrip(a: Address, r: Result<Address, AddressError>)
    requires
        decode_spec(encoding_of(a.0@), r),
    ensures
        r == Ok::<Address, AddressError>(a),
{
    let b = a.0@ + checksum_of(a.0@);
    assert(b.len() == 36);
    assert(b.subrange(0, 32) =~= a.0@);
    assert(b.subrange(32, 36) =~= checksum_of(a.0@));
    assert(checksum_accepted(b));
    assert(base32_of(b) == encoding_of(a.0@));
    let rr = r;
    assert(rr matches Ok(x) && x.0@ == b.subrange(0, 32));
    match rr {
        Ok(x) => {
            assert(x.0@ =~= a.0@);
            assert(x.0 == a.0);
        }
        Err(_) => {
            assert(false);
        }
    }
}

/// Law: whenever a string whose decode is exactly 36 bytes parses
/// successfully, re-encoding the recovered address reproduces the input
/// string exactly.  (The hypothesis that the decode is 36 bytes long is
/// needed: a tolerated overlong decode parses to its first 32 bytes, whose
/// re-encoding is a different, shorter string.)
pub proof fn lemma_encode_decode_canonical(
    s: Seq<char>,
    b: Seq<u8>,
    a: Address,
)
    requires
        decode_spec(s, Ok(a)),
        base32_of(b) == s,
        forall|b2: Seq<u8>| base32_of(b2) == s ==> b2 == b,
        b.len() == 36,
    ensures
        encoding_of(a.0@) == s,
{
    let rr = Ok::<Address, AddressError>(a);
    assert(exists|b2: Seq<u8>|
        base32_of(b2) == s && #[trigger] checksum_accepted(b2) && a.0@ == b2.subrange(0, 32));
    let b2 = choose|b2: Seq<u8>|
        base32_of(b2) == s && #[trigger] checksum_accepted(b2) && a.0@ == b2.subrange(0, 32);
    assert(b2 == b);
    assert(a.0@ == b.subrange(0, 32));
    assert(b.subrange(32, 36) == checksum_of(a.0@));
    assert(a.0@ + checksum_of(a.0@) =~= b);
    assert(encoding_of(a.0@) == base32_of(b));
}

/// Law: a string that no byte string base32-encodes to is rejected as
/// `InvalidBase32`.
pub proof fn lemma_non_base32_rejected(s: Seq<char>, r: Result<Address, AddressError>)
    requires
        decode_spec(s, r),
        forall|b: Seq<u8>| base32_of(b) != s,
    ensures
        r == Err::<Address, AddressError>(AddressError::InvalidBase32),
{
}

/// Law: a decode of at least 32 bytes whose trailing 4 bytes differ from
/// the recomputed checksum of its leading 32 bytes is rejected as
/// `InvalidChecksum`.
pub proof fn lemma_checksum_mismatch_rejected(
    s: Seq<char>,
    b: Seq<u8>,
    r: Result<Address, AddressError>,
)
    requires
        decode_spec(s, r),
        base32_of(b) == s,
        b.len() >= 32,
        b.subrange(b.len() - 4, b.len() as int) != checksum_of(b.subrange(0, 32)),
    ensures
        r == Err::<Address, AddressError>(AddressError::InvalidChecksum),
{
    assert(!checksum_accepted(b));
}

/// Law: a decode longer than 36 bytes whose trailing 4 bytes match the
/// recomputed checksum of its leading 32 bytes is accepted, and the value
/// is exactly those first 32 bytes.
pub proof fn lemma_overlong_decode_tolerated(
    s: Seq<char>,
    b: Seq<u8>,
    r: Result<Address, AddressError>,
)
    requires
        decode_spec(s, r),
        base32_of(b) == s,
        b.len() > 36,
        b.subrange(b.len() - 4, b.len() as int) == checksum_of(b.subrange(0, 32)),
    ensures
        r matches Ok(a) && a.0@ == b.subrange(0, 32),
{
    assert(checksum_accepted(b));
}

} // verus!
