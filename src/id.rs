//! The core identifier: sixteen bytes.
use vstd::prelude::*;
use vstd::string::StringSliceAdditionalSpecFns;
use core::cmp::Ordering;
use vstd::std_specs::cmp::PartialOrdSpec;
use bytes::Buf;
use crate::hex_text::{digit, hex_text, decode_to_array, decode_spec, HexError};

verus! {

/// A 128-bit identifier, held as sixteen bytes in order.
#[derive(Clone, Copy, Debug, Eq, Hash, Ord)]
pub struct Id(pub [u8; 16]);

impl View for Id {
    type V = Seq<u8>;

    open spec fn view(&self) -> Seq<u8> {
        self.0@
    }
}

/// Whether `a` comes before `b` in lexicographic order: at the first position
/// where they differ, `a` holds the smaller byte.
pub open spec fn lex_less(a: Seq<u8>, b: Seq<u8>) -> bool {
    exists|k: int|
        0 <= k < a.len() && k < b.len() && a[k] < b[k] && forall|j: int|
            0 <= j < k ==> a[j] == b[j]
}

/// The byte-wise lexicographic comparison of two byte strings of one length.
pub open spec fn lex_cmp(a: Seq<u8>, b: Seq<u8>) -> Ordering {
    if a == b {
        Ordering::Equal
    } else if lex_less(a, b) {
        Ordering::Less
    } else {
        Ordering::Greater
    }
}

/// The number that a byte string stands for, least significant byte first.
pub open spec fn le_value(s: Seq<u8>) -> nat
    decreases s.len(),
{
    if s.len() == 0 {
        0
    } else {
        (s[0] + 256 * le_value(s.drop_first())) as nat
    }
}

/// `256` to the power `n`.
pub open spec fn pow256(n: nat) -> nat
    decreases n,
{
    if n == 0 {
        1
    } else {
        256 * pow256((n - 1) as nat)
    }
}

proof fn lemma_pow256_mono(a: nat, b: nat)
    requires
        a <= b,
    ensures
        pow256(a) <= pow256(b),
    decreases b,
{
    if a < b {
        lemma_pow256_mono(a, (b - 1) as nat);
    }
}

proof fn lemma_le_value_bound(s: Seq<u8>)
    ensures
        le_value(s) < pow256(s.len()),
    decreases s.len(),
{
    if s.len() > 0 {
        lemma_le_value_bound(s.drop_first());
    }
}

/// The contents of a byte buffer that has not been read yet.
pub uninterp spec fn buf_contents(b: bytes::Bytes) -> Seq<u8>;

#[verifier::external_type_specification]
#[verifier::external_body]
pub struct ExBytes(bytes::Bytes);

/// Relies on `Buf::remaining` for `Bytes`: the number of bytes not read yet.
#[verifier::external_body]
fn buf_remaining(buf: &bytes::Bytes) -> (r: usize)
    ensures
        r == buf_contents(*buf).len(),
{
    buf.remaining()
}

/// Relies on `Buf::copy_to_slice` for `Bytes`: it fills the array with the
/// next sixteen bytes and advances past them; it panics when fewer remain.
#[verifier::external_body]
fn buf_copy_to_array(buf: &mut bytes::Bytes, dst: &mut [u8; 16])
    requires
        buf_contents(*old(buf)).len() >= 16,
    ensures
        final(dst)@ == buf_contents(*old(buf)).take(16),
        buf_contents(*final(buf)) == buf_contents(*old(buf)).skip(16),
{
    buf.copy_to_slice(dst)
}

impl PartialEq for Id {
    fn eq(&self, other: &Id) -> (r: bool) {
        let mut i: usize = 0;
        while i < 16
            invariant
                0 <= i <= 16,
                self@.len() == 16,
                other@.len() == 16,
                self@.take(i as int) == other@.take(i as int),
            decreases 16 - i,
        {
            if self.0[i] != other.0[i] {
                assert(self@[i as int] != other@[i as int]);
                return false;
            }
            assert(self@.take(i + 1) =~= self@.take(i as int).push(self@[i as int]));
            assert(other@.take(i + 1) =~= other@.take(i as int).push(other@[i as int]));
            i = i + 1;
        }
        assert(self@ =~= self@.take(16));
        assert(other@ =~= other@.take(16));
        true
    }
}

impl vstd::std_specs::cmp::PartialEqSpecImpl for Id {
    open spec fn obeys_eq_spec() -> bool {
        true
    }

    open spec fn eq_spec(&self, other: &Id) -> bool {
        self@ == other@
    }
}

impl PartialOrd for Id {
    fn partial_cmp(&self, other: &Id) -> (r: Option<Ordering>) {
        let mut i: usize = 0;
        while i < 16
            invariant
                0 <= i <= 16,
                self@.len() == 16,
                other@.len() == 16,
                forall|j: int| 0 <= j < i ==> self@[j] == other@[j],
            decreases 16 - i,
        {
            let (x, y) = (self.0[i], other.0[i]);
            if x < y {
                assert(lex_less(self@, other@));
                return Some(Ordering::Less);
            }
            if x > y {
                assert(lex_less(other@, self@));
                assert(self@ != other@);
                assert(!lex_less(self@, other@)) by {
                    if lex_less(self@, other@) {
                        let k = choose|k: int|
                            0 <= k < 16 && self@[k] < other@[k] && forall|j: int|
                                0 <= j < k ==> self@[j] == other@[j];
                        assert(k == i);
                    }
                }
                return Some(Ordering::Greater);
            }
            i = i + 1;
        }
        assert(self@ =~= other@);
        Some(Ordering::Equal)
    }
}

impl vstd::std_specs::cmp::PartialOrdSpecImpl for Id {
    open spec fn obeys_partial_cmp_spec() -> bool {
        true
    }

    open spec fn partial_cmp_spec(&self, other: &Id) -> Option<Ordering> {
        Some(lex_cmp(self@, other@))
    }
}

impl Id {
    /// Wraps sixteen bytes.
    pub fn from_array(b: [u8; 16]) -> (r: Id)
        ensures
            r@ == b@,
    {
        Id(b)
    }

    /// The sixteen bytes.
    pub fn as_arr(&self) -> (r: [u8; 16])
        ensures
            r@ == self@,
    {
        self.0
    }

    /// The 32 lowercase hex digits of the bytes.
    pub fn hex_encode(&self) -> (r: String)
        ensures
            r@ == hex_text(self@),
    {
        let mut out = String::new();
        let mut i: usize = 0;
        while i < 16
            invariant
                0 <= i <= 16,
                self@.len() == 16,
                out@ == hex_text(self@.take(i as int)),
            decreases 16 - i,
        {
            let b = self.0[i];
            out.push(digit(b / 16));
            out.push(digit(b % 16));
            proof {
                assert(self@.take(i + 1) == self@.take(i as int).push(b));
            }
            i = i + 1;
            assert(out@ =~= hex_text(self@.take(i as int)));
        }
        assert(self@.take(16) == self@);
        out
    }

    /// Reads the next sixteen bytes of a buffer, which must hold that many.
    pub fn get_from_buf(buf: &mut bytes::Bytes) -> (r: Id)
        requires
            buf_contents(*old(buf)).len() >= 16,
        ensures
            r@ == buf_contents(*old(buf)).take(16),
            buf_contents(*final(buf)) == buf_contents(*old(buf)).skip(16),
    {
        let mut arr: [u8; 16] = [0u8; 16];
        buf_copy_to_array(buf, &mut arr);
        Id(arr)
    }

    /// Reads the next sixteen bytes of a buffer when it holds that many, and
    /// otherwise leaves it as it is.
    pub fn try_get_from_buf(buf: &mut bytes::Bytes) -> (r: Option<Id>)
        ensures
            buf_contents(*old(buf)).len() >= 16 ==> (r matches Some(id) && id@ == buf_contents(
                *old(buf),
            ).take(16) && buf_contents(*final(buf)) == buf_contents(*old(buf)).skip(16)),
            buf_contents(*old(buf)).len() < 16 ==> (r is None && *final(buf) == *old(buf)),
    {
        if buf_remaining(buf) < 16 {
            None
        } else {
            Some(Id::get_from_buf(buf))
        }
    }

    /// The identifier read as a little-endian 128-bit number.
    pub fn to_u128(&self) -> (r: u128)
        ensures
            r == le_value(self@),
    {
        let mut acc: u128 = 0;
        let mut i: usize = 16;
        proof {
            reveal_with_fuel(pow256, 17);
            assert(self@.subrange(16, 16) =~= Seq::<u8>::empty());
        }
        while i > 0
            invariant
                0 <= i <= 16,
                self@.len() == 16,
                acc == le_value(self@.subrange(i as int, 16)),
                pow256(16) == 0x1_0000_0000_0000_0000_0000_0000_0000_0000,
            decreases i,
        {
            let b = self.0[i - 1];
            proof {
                let s = self@.subrange(i - 1, 16);
                assert(s.drop_first() =~= self@.subrange(i as int, 16));
                lemma_le_value_bound(s);
                assert(pow256(s.len()) <= pow256(16)) by {
                    lemma_pow256_mono(s.len(), 16);
                }
            }
            acc = acc * 256 + b as u128;
            i = i - 1;
        }
        assert(self@.subrange(0, 16) =~= self@);
        acc
    }

    /// Parses 32 hex digits of either case.
    pub fn from_hex(s: &str) -> (r: Result<Id, HexError>)
        ensures
            match decode_spec(s.spec_bytes(), 16) {
                Ok(b) => r matches Ok(id) && id@ == b,
                Err(e) => r == Err::<Id, HexError>(e),
            },
    {
        let mut buf: [u8; 16] = [0u8; 16];
        match decode_to_array(s.as_bytes(), &mut buf) {
            Ok(()) => Ok(Id(buf)),
            Err(e) => Err(e),
        }
    }
}

/// Identifiers are ordered as their byte sequences are, lexicographically:
/// `a < b` exactly when, at the first position where they differ, `a` holds
/// the smaller byte.
pub proof fn lemma_order_is_lexicographic(a: Id, b: Id)
    ensures
        (a.partial_cmp_spec(&b) == Some(Ordering::Less)) <==> lex_less(a@, b@),
        (a.partial_cmp_spec(&b) == Some(Ordering::Equal)) <==> a@ == b@,
        (a.partial_cmp_spec(&b) == Some(Ordering::Greater)) <==> lex_less(b@, a@),
{
    if lex_less(a@, b@) {
        let k = choose|k: int|
            0 <= k < a@.len() && k < b@.len() && a@[k] < b@[k] && forall|j: int|
                0 <= j < k ==> a@[j] == b@[j];
        assert(a@[k] != b@[k]);
        assert(!lex_less(b@, a@)) by {
            if lex_less(b@, a@) {
                let m = choose|m: int|
                    0 <= m < b@.len() && m < a@.len() && b@[m] < a@[m] && forall|j: int|
                        0 <= j < m ==> b@[j] == a@[j];
                assert(m == k);
            }
        }
    }
    if a@ != b@ && !lex_less(a@, b@) {
        assert(a@.len() == 16 && b@.len() == 16);
        assert(exists|k: int| 0 <= k < 16 && a@[k] != b@[k]) by {
            if forall|k: int| 0 <= k < 16 ==> a@[k] == b@[k] {
                assert(a@ =~= b@);
            }
        }
        let k = choose|k: int| 0 <= k < 16 && a@[k] != b@[k];
        lemma_first_difference(a@, b@, k);
    }
}

proof fn lemma_first_difference(a: Seq<u8>, b: Seq<u8>, k0: int)
    requires
        a.len() == b.len(),
        0 <= k0 < a.len(),
        a[k0] != b[k0],
    ensures
        lex_less(a, b) || lex_less(b, a),
    decreases k0,
{
    if exists|j: int| 0 <= j < k0 && a[j] != b[j] {
        let j = choose|j: int| 0 <= j < k0 && a[j] != b[j];
        lemma_first_difference(a, b, j);
    } else {
        if a[k0] < b[k0] {
            assert(lex_less(a, b));
        } else {
            assert(lex_less(b, a));
        }
    }
}

/// Two identifiers with the same bytes are the same identifier.
pub proof fn lemma_view_determines(a: Id, b: Id)
    requires
        a@ == b@,
    ensures
        a == b,
{
    assert(a.0 == b.0) by {
        vstd::array::axiom_array_ext_equal(a.0, b.0);
    }
}

impl From<[u8; 16]> for Id {
    fn from(b: [u8; 16]) -> (r: Id) {
        Id(b)
    }
}

impl vstd::std_specs::convert::FromSpecImpl<[u8; 16]> for Id {
    open spec fn obeys_from_spec() -> bool {
        true
    }

    open spec fn from_spec(b: [u8; 16]) -> Id {
        Id(b)
    }
}

impl From<Id> for u128 {
    fn from(id: Id) -> (r: u128) {
        id.to_u128()
    }
}

impl vstd::std_specs::convert::FromSpecImpl<Id> for u128 {
    open spec fn obeys_from_spec() -> bool {
        true
    }

    open spec fn from_spec(id: Id) -> u128 {
        le_value(id@) as u128
    }
}

impl core::str::FromStr for Id {
    type Err = HexError;

    fn from_str(s: &str) -> (r: Result<Id, HexError>)
        ensures
            match decode_spec(s.spec_bytes(), 16) {
                Ok(b) => r matches Ok(id) && id@ == b,
                Err(e) => r == Err::<Id, HexError>(e),
            },
    {
        Id::from_hex(s)
    }
}

} // verus!
