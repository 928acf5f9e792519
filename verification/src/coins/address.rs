//! Account addresses.
use vstd::prelude::*;

use crate::collections::ordered_map::OrderedKey;
use bech32::{FromBase32, ToBase32};
use sha2::Digest;

verus! {

/// What `sha2::Sha256::digest` returns for the given bytes.
pub uninterp spec fn sha256_digest(data: Seq<u8>) -> Seq<u8>;

/// What `ripemd::Ripemd160::digest` returns for the given bytes.
pub uninterp spec fn ripemd160_digest(data: Seq<u8>) -> Seq<u8>;

/// Calls `sha2::Sha256::digest`; claims that the result is the named one.
#[verifier::external_body]
pub(crate) fn sha256(data: &[u8]) -> (r: [u8; 32])
    ensures
        r@ == sha256_digest(data@),
{
    sha2::Sha256::digest(data).into()
}

/// Calls `ripemd::Ripemd160::digest`; claims that the result is the named
/// one.
#[verifier::external_body]
fn ripemd160(data: &[u8]) -> (r: [u8; 20])
    ensures
        r@ == ripemd160_digest(data@),
{
    ripemd::Ripemd160::digest(data).into()
}

/// `a` comes before `b` in byte order, comparing from index `i` on.
pub open spec fn bytes_lt_from(a: Seq<u8>, b: Seq<u8>, i: int) -> bool
    decreases a.len() - i,
{
    if i < 0 || i >= a.len() || i >= b.len() {
        false
    } else if a[i] < b[i] {
        true
    } else if a[i] > b[i] {
        false
    } else {
        bytes_lt_from(a, b, i + 1)
    }
}

/// An account address: 20 bytes, the RIPEMD-160 of the SHA-256 of a public
/// key.
#[derive(Clone, Copy, Debug)]
pub struct Address {
    /// The address bytes.
    pub bytes: [u8; 20],
}

impl Address {
    /// The number of bytes in an address.
    pub const LENGTH: usize = 20;

    /// The address whose bytes are all zero.
    pub fn null() -> (r: Self)
        ensures
            forall|i: int| 0 <= i < 20 ==> r.bytes@[i] == 0,
    {
        Address { bytes: [0u8; 20] }
    }

    /// The address of a compressed public key.
    pub fn from_pubkey(bytes: [u8; 33]) -> (r: Self)
        ensures
            r.bytes@ == ripemd160_digest(sha256_digest(bytes@)),
    {
        let hash = sha256(&bytes);
        let hash = ripemd160(&hash);
        Address { bytes: hash }
    }

    /// The address bytes.
    pub fn bytes(&self) -> (r: [u8; 20])
        ensures
            r == self.bytes,
    {
        self.bytes
    }

    /// Whether all the address bytes are zero.
    pub fn is_null(&self) -> (r: bool)
        ensures
            r == (forall|i: int| 0 <= i < 20 ==> self.bytes@[i] == 0),
    {
        broadcast use vstd::array::lemma_array_index, vstd::array::array_len_matches_n;

        let mut i: usize = 0;
        while i < 20
            invariant
                i <= 20,
                forall|j: int| 0 <= j < i ==> self.bytes@[j] == 0,
            decreases 20 - i,
        {
            if self.bytes[i] != 0 {
                return false;
            }
            i = i + 1;
        }
        true
    }

    /// Whether the two addresses have the same bytes.
    pub fn same(&self, other: &Address) -> (r: bool)
        ensures
            r == (self.bytes@ == other.bytes@),
    {
        broadcast use vstd::array::lemma_array_index, vstd::array::array_len_matches_n;

        let mut i: usize = 0;
        while i < 20
            invariant
                i <= 20,
                forall|j: int| 0 <= j < i ==> self.bytes@[j] == other.bytes@[j],
            decreases 20 - i,
        {
            if self.bytes[i] != other.bytes[i] {
                return false;
            }
            i = i + 1;
        }
        assert(self.bytes@ =~= other.bytes@);
        true
    }
}

impl From<[u8; 20]> for Address {
    fn from(bytes: [u8; 20]) -> (r: Self) {
        Address { bytes }
    }
}

impl vstd::std_specs::convert::FromSpecImpl<[u8; 20]> for Address {
    open spec fn obeys_from_spec() -> bool {
        true
    }

    open spec fn from_spec(bytes: [u8; 20]) -> Self {
        Address { bytes }
    }
}

impl From<Address> for [u8; 20] {
    fn from(addr: Address) -> (r: Self) {
        addr.bytes
    }
}

impl vstd::std_specs::convert::FromSpecImpl<Address> for [u8; 20] {
    open spec fn obeys_from_spec() -> bool {
        true
    }

    open spec fn from_spec(addr: Address) -> Self {
        addr.bytes
    }
}

/// Byte order from index `i` is irreflexive, transitive and total on
/// sequences of the same length that agree before `i`.
proof fn lemma_bytes_order(a: Seq<u8>, b: Seq<u8>, c: Seq<u8>, i: int)
    requires
        a.len() == b.len() == c.len(),
        0 <= i <= a.len(),
    ensures
        !bytes_lt_from(a, a, i),
        bytes_lt_from(a, b, i) && bytes_lt_from(b, c, i) ==> bytes_lt_from(a, c, i),
        bytes_lt_from(a, b, i) || bytes_lt_from(b, a, i) || a.subrange(i, a.len() as int)
            == b.subrange(i, b.len() as int),
    decreases a.len() - i,
{
    if i < a.len() {
        lemma_bytes_order(a, b, c, i + 1);
        if a[i] == b[i] && !bytes_lt_from(a, b, i + 1) && !bytes_lt_from(b, a, i + 1) {
            assert(a.subrange(i, a.len() as int) =~= seq![a[i]] + a.subrange(i + 1, a.len() as int));
            assert(b.subrange(i, b.len() as int) =~= seq![b[i]] + b.subrange(i + 1, b.len() as int));
        }
    } else {
        assert(a.subrange(i, a.len() as int) =~= b.subrange(i, b.len() as int));
    }
}

impl OrderedKey for Address {
    /// Byte order of the address bytes.
    open spec fn key_lt(self, other: Self) -> bool {
        bytes_lt_from(self.bytes@, other.bytes@, 0)
    }

    fn key_less(&self, other: &Self) -> (r: bool) {
        broadcast use vstd::array::lemma_array_index, vstd::array::array_len_matches_n;

        let mut i: usize = 0;
        while i < 20
            invariant
                i <= 20,
                forall|j: int| 0 <= j < i ==> self.bytes@[j] == other.bytes@[j],
                bytes_lt_from(self.bytes@, other.bytes@, 0) == bytes_lt_from(self.bytes@, other.bytes@, i as int),
            decreases 20 - i,
        {
            if self.bytes[i] < other.bytes[i] {
                return true;
            }
            if self.bytes[i] > other.bytes[i] {
                return false;
            }
            i = i + 1;
        }
        false
    }

    fn key_eq(&self, other: &Self) -> (r: bool) {
        let r = self.same(other);
        proof {
            if r {
                vstd::array::axiom_array_ext_equal(self.bytes, other.bytes);
                assert forall|i: int| 0 <= i < 20 implies self.bytes[i] == other.bytes[i] by {
                    vstd::array::lemma_array_index(self.bytes, i);
                    vstd::array::lemma_array_index(other.bytes, i);
                }
            }
        }
        r
    }

    proof fn lemma_key_order(a: Self, b: Self, c: Self) {
        broadcast use vstd::array::array_len_matches_n;

        lemma_bytes_order(a.bytes@, b.bytes@, c.bytes@, 0);
        if a.bytes@.subrange(0, 20) == b.bytes@.subrange(0, 20) {
            assert(a.bytes@ =~= a.bytes@.subrange(0, 20));
            assert(b.bytes@ =~= b.bytes@.subrange(0, 20));
            vstd::array::axiom_array_ext_equal(a.bytes, b.bytes);
            assert forall|i: int| 0 <= i < 20 implies a.bytes[i] == b.bytes[i] by {
                vstd::array::lemma_array_index(a.bytes, i);
                vstd::array::lemma_array_index(b.bytes, i);
            }
        }
    }
}

} // verus!

verus! {

/// The bech32 string that `bech32::encode` makes of the 5-bit groups of the
/// bytes, under the human-readable part "nomic" (variant Bech32).
pub uninterp spec fn nomic_bech32(bytes: Seq<u8>) -> Seq<char>;

/// What `bech32::decode` returns for a string: the human-readable part,
/// the 5-bit data groups, and whether the checksum is of the Bech32 variant;
/// `None` when it fails.
pub uninterp spec fn bech32_decoded(s: Seq<char>) -> Option<(Seq<char>, Seq<u8>, bool)>;

/// What `FromBase32::from_base32` makes of 5-bit groups: the 8-bit bytes,
/// or `None` when it fails.
pub uninterp spec fn bech32_from_base32(groups: Seq<u8>) -> Option<Seq<u8>>;

/// Calls `bech32::encode("nomic", bytes.to_base32(), Variant::Bech32)`;
/// claims that the result is the named one. The human-readable part is
/// valid, so encoding does not fail.
#[verifier::external_body]
fn encode_nomic(bytes: [u8; 20]) -> (r: String)
    ensures
        r@ == nomic_bech32(bytes@),
{
    bech32::encode("nomic", bytes.to_base32(), bech32::Variant::Bech32).expect(
        "the human-readable part is valid",
    )
}

/// Calls `bech32::decode`; claims that the result is the named one, with the
/// 5-bit groups as bytes below 32 and the error as its message.
#[verifier::external_body]
fn bech32_decode(s: &str) -> (r: core::result::Result<(String, Vec<u8>, bool), String>)
    ensures
        r is Ok == bech32_decoded(s@) is Some,
        r matches Ok(d) ==> bech32_decoded(s@) == Some((d.0@, d.1@, d.2)) && forall|i: int|
            0 <= i < d.1@.len() ==> d.1@[i] < 32,
{
    match bech32::decode(s) {
        Ok((hrp, data, variant)) => Ok(
            (hrp, data.iter().map(|g| g.to_u8()).collect(), variant == bech32::Variant::Bech32),
        ),
        Err(e) => Err(e.to_string()),
    }
}

/// Calls `FromBase32::from_base32` on the groups (each below 32, as
/// `bech32::u5`); claims that the result is the named one, with the error as
/// its message.
#[verifier::external_body]
fn from_base32(groups: &Vec<u8>) -> (r: core::result::Result<Vec<u8>, String>)
    requires
        forall|i: int| 0 <= i < groups@.len() ==> groups@[i] < 32,
    ensures
        r is Ok == bech32_from_base32(groups@) is Some,
        r matches Ok(b) ==> bech32_from_base32(groups@) == Some(b@),
{
    let u5s: Vec<bech32::u5> = groups.iter().map(|g| bech32::u5::try_from_u8(*g).expect("below 32")).collect();
    Vec::<u8>::from_base32(&u5s).map_err(|e| e.to_string())
}

/// How a string parses as an address: the decoded bech32 data must carry the
/// human-readable part "nomic", use the Bech32 variant, and hold exactly 20
/// bytes.
pub open spec fn parsed_address(s: Seq<char>) -> Option<Seq<u8>> {
    match bech32_decoded(s) {
        None => None,
        Some((hrp, groups, is_bech32)) => if hrp != "nomic"@ || !is_bech32 {
            None
        } else {
            match bech32_from_base32(groups) {
                None => None,
                Some(bytes) => if bytes.len() == 20 {
                    Some(bytes)
                } else {
                    None
                },
            }
        },
    }
}

impl core::str::FromStr for Address {
    type Err = crate::error::Error;

    /// Parses a bech32 address with the human-readable part "nomic", as
    /// [Address::from_bech32] does.
    fn from_str(s: &str) -> (r: crate::error::Result<Address>)
        ensures
            parsed_address(s@) matches Some(b) ==> (r matches Ok(a) && a.bytes@ == b),
            parsed_address(s@) is None ==> r matches Err(crate::error::Error::Address(_)),
    {
        Address::from_bech32(s)
    }
}

impl Address {
    /// The address as a bech32 string with the human-readable part "nomic".
    pub fn to_bech32(&self) -> (r: String)
        ensures
            r@ == nomic_bech32(self.bytes@),
    {
        encode_nomic(self.bytes)
    }

    /// Parses a bech32 address with the human-readable part "nomic".
    pub fn from_bech32(s: &str) -> (r: crate::error::Result<Address>)
        ensures
            parsed_address(s@) matches Some(b) ==> (r matches Ok(a) && a.bytes@ == b),
            parsed_address(s@) is None ==> r matches Err(crate::error::Error::Address(_)),
    {
        broadcast use vstd::array::lemma_array_index, vstd::array::array_len_matches_n;

        proof {
            reveal_strlit("nomic");
        }
        let (hrp, data, is_bech32) = match bech32_decode(s) {
            Ok(d) => d,
            Err(e) => {
                return Err(crate::error::Error::Address(e));
            },
        };
        let nomic = "nomic".to_owned();
        if hrp != nomic {
            return Err(crate::error::Error::Address("missing human-readable separator, \"1\"".to_owned()));
        }
        if !is_bech32 {
            return Err(crate::error::Error::Address("invalid data point (0)".to_owned()));
        }
        let bytes = match from_base32(&data) {
            Ok(b) => b,
            Err(e) => {
                return Err(crate::error::Error::Address(e));
            },
        };
        if bytes.len() != 20 {
            return Err(crate::error::Error::Address("invalid data point (1)".to_owned()));
        }
        let mut out = [0u8; 20];
        let mut i: usize = 0;
        while i < 20
            invariant
                i <= 20,
                bytes@.len() == 20,
                forall|j: int| 0 <= j < i ==> out@[j] == bytes@[j],
            decreases 20 - i,
        {
            out[i] = bytes[i];
            i = i + 1;
        }
        assert(out@ =~= bytes@);
        Ok(Address { bytes: out })
    }
}

} // verus!
