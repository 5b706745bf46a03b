//! Nominally distinct identifier kinds that share the core identifier's codec.
use vstd::prelude::*;
use vstd::string::StringSliceAdditionalSpecFns;
use crate::hex_text::{decode_spec, hex_text, HexError};
use crate::id::{buf_contents, le_value, lex_cmp, Id};
use core::cmp::Ordering;

verus! {

/// A kind of identifier: a type that owns one core identifier. A new kind
/// declares only how to wrap and unwrap it; every other operation is provided
/// here once, in terms of the core identifier.
pub trait IdKind: Sized {
    /// The core identifier that a value owns.
    spec fn id_of(&self) -> Id;

    /// Wraps a core identifier.
    fn from_id(id: Id) -> (r: Self)
        ensures
            r.id_of() == id,
    ;

    /// The core identifier that this value owns.
    fn id(&self) -> (r: Id)
        ensures
            r == self.id_of(),
    ;

    /// Wraps sixteen bytes.
    fn from_array(b: [u8; 16]) -> (r: Self)
        ensures
            r.id_of()@ == b@,
    {
        Self::from_id(Id::from_array(b))
    }

    /// The sixteen bytes.
    fn as_arr(&self) -> (r: [u8; 16])
        ensures
            r@ == self.id_of()@,
    {
        self.id().as_arr()
    }

    /// Reads the next sixteen bytes of a buffer, which must hold that many.
    fn get_from_buf(buf: &mut bytes::Bytes) -> (r: Self)
        requires
            buf_contents(*old(buf)).len() >= 16,
        ensures
            r.id_of()@ == buf_contents(*old(buf)).take(16),
            buf_contents(*final(buf)) == buf_contents(*old(buf)).skip(16),
    {
        Self::from_id(Id::get_from_buf(buf))
    }

    /// Parses 32 hex digits of either case.
    fn from_hex(s: &str) -> (r: Result<Self, HexError>)
        ensures
            match decode_spec(s.spec_bytes(), 16) {
                Ok(b) => r matches Ok(k) && k.id_of()@ == b,
                Err(e) => r matches Err(f) && f == e,
            },
    {
        match Id::from_hex(s) {
            Ok(id) => Ok(Self::from_id(id)),
            Err(e) => Err(e),
        }
    }

    /// The 32 lowercase hex digits of the bytes.
    fn hex_encode(&self) -> (r: String)
        ensures
            r@ == hex_text(self.id_of()@),
    {
        self.id().hex_encode()
    }

    /// The identifier read as a little-endian 128-bit number.
    fn to_u128(&self) -> (r: u128)
        ensures
            r == le_value(self.id_of()@),
    {
        self.id().to_u128()
    }
}

/// Two kinds built from the same bytes hold the same core identifier, though
/// their types keep them apart.
pub proof fn lemma_kinds_share_bytes(t: TimelineId, n: TenantId)
    requires
        t.id_of()@ == n.id_of()@,
    ensures
        t.id_of() == n.id_of(),
{
    crate::id::lemma_view_determines(t.id_of(), n.id_of());
}

/// Names one history of a cluster.
#[derive(Clone, Copy, Debug, Eq, Hash, Ord)]
pub struct TimelineId(pub Id);

impl IdKind for TimelineId {
    open spec fn id_of(&self) -> Id {
        self.0
    }

    fn from_id(id: Id) -> (r: TimelineId) {
        TimelineId(id)
    }

    fn id(&self) -> (r: Id) {
        self.0
    }
}

impl PartialEq for TimelineId {
    fn eq(&self, other: &TimelineId) -> (r: bool) {
        self.0 == other.0
    }
}

impl vstd::std_specs::cmp::PartialEqSpecImpl for TimelineId {
    open spec fn obeys_eq_spec() -> bool {
        true
    }

    open spec fn eq_spec(&self, other: &TimelineId) -> bool {
        self.0@ == other.0@
    }
}

impl PartialOrd for TimelineId {
    fn partial_cmp(&self, other: &TimelineId) -> (r: Option<Ordering>) {
        self.0.partial_cmp(&other.0)
    }
}

impl vstd::std_specs::cmp::PartialOrdSpecImpl for TimelineId {
    open spec fn obeys_partial_cmp_spec() -> bool {
        true
    }

    open spec fn partial_cmp_spec(&self, other: &TimelineId) -> Option<Ordering> {
        Some(lex_cmp(self.0@, other.0@))
    }
}

impl From<[u8; 16]> for TimelineId {
    fn from(b: [u8; 16]) -> (r: TimelineId) {
        TimelineId(Id::from(b))
    }
}

impl vstd::std_specs::convert::FromSpecImpl<[u8; 16]> for TimelineId {
    open spec fn obeys_from_spec() -> bool {
        true
    }

    open spec fn from_spec(b: [u8; 16]) -> TimelineId {
        TimelineId(Id(b))
    }
}

impl From<TimelineId> for u128 {
    fn from(k: TimelineId) -> (r: u128) {
        k.0.to_u128()
    }
}

impl vstd::std_specs::convert::FromSpecImpl<TimelineId> for u128 {
    open spec fn obeys_from_spec() -> bool {
        true
    }

    open spec fn from_spec(k: TimelineId) -> u128 {
        le_value(k.0@) as u128
    }
}

impl core::str::FromStr for TimelineId {
    type Err = HexError;

    fn from_str(s: &str) -> (r: Result<TimelineId, HexError>)
        ensures
            match decode_spec(s.spec_bytes(), 16) {
                Ok(b) => r matches Ok(k) && k.0@ == b,
                Err(e) => r == Err::<TimelineId, HexError>(e),
            },
    {
        TimelineId::from_hex(s)
    }
}

/// Names one tenant: the requests and data of one user.
#[derive(Clone, Copy, Debug, Eq, Hash, Ord)]
pub struct TenantId(pub Id);

impl IdKind for TenantId {
    open spec fn id_of(&self) -> Id {
        self.0
    }

    fn from_id(id: Id) -> (r: TenantId) {
        TenantId(id)
    }

    fn id(&self) -> (r: Id) {
        self.0
    }
}

impl PartialEq for TenantId {
    fn eq(&self, other: &TenantId) -> (r: bool) {
        self.0 == other.0
    }
}

impl vstd::std_specs::cmp::PartialEqSpecImpl for TenantId {
    open spec fn obeys_eq_spec() -> bool {
        true
    }

    open spec fn eq_spec(&self, other: &TenantId) -> bool {
        self.0@ == other.0@
    }
}

impl PartialOrd for TenantId {
    fn partial_cmp(&self, other: &TenantId) -> (r: Option<Ordering>) {
        self.0.partial_cmp(&other.0)
    }
}

impl vstd::std_specs::cmp::PartialOrdSpecImpl for TenantId {
    open spec fn obeys_partial_cmp_spec() -> bool {
        true
    }

    open spec fn partial_cmp_spec(&self, other: &TenantId) -> Option<Ordering> {
        Some(lex_cmp(self.0@, other.0@))
    }
}

impl From<[u8; 16]> for TenantId {
    fn from(b: [u8; 16]) -> (r: TenantId) {
        TenantId(Id::from(b))
    }
}

impl vstd::std_specs::convert::FromSpecImpl<[u8; 16]> for TenantId {
    open spec fn obeys_from_spec() -> bool {
        true
    }

    open spec fn from_spec(b: [u8; 16]) -> TenantId {
        TenantId(Id(b))
    }
}

impl From<TenantId> for u128 {
    fn from(k: TenantId) -> (r: u128) {
        k.0.to_u128()
    }
}

impl vstd::std_specs::convert::FromSpecImpl<TenantId> for u128 {
    open spec fn obeys_from_spec() -> bool {
        true
    }

    open spec fn from_spec(k: TenantId) -> u128 {
        le_value(k.0@) as u128
    }
}

impl core::str::FromStr for TenantId {
    type Err = HexError;

    fn from_str(s: &str) -> (r: Result<TenantId, HexError>)
        ensures
            match decode_spec(s.spec_bytes(), 16) {
                Ok(b) => r matches Ok(k) && k.0@ == b,
                Err(e) => r == Err::<TenantId, HexError>(e),
            },
    {
        TenantId::from_hex(s)
    }
}

} // verus!
