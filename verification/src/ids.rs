//! Service identifiers: 16-byte UUIDs, their canonical text and their creation.

use vstd::prelude::*;

verus! {

/// Lower-case hexadecimal digit for a value below 16.
pub open spec fn hex_digit(n: int) -> char {
    if n < 10 {
        (n + 48) as char
    } else {
        (n + 87) as char
    }
}

/// The 32 hexadecimal digits of 16 bytes, high nibble first.
pub open spec fn simple_text(b: Seq<u8>) -> Seq<char> {
    Seq::new(
        32,
        |i: int|
            if i % 2 == 0 {
                hex_digit(b[i / 2] as int / 16)
            } else {
                hex_digit(b[i / 2] as int % 16)
            },
    )
}

/// The canonical hyphenated form `xxxxxxxx-xxxx-xxxx-xxxx-xxxxxxxxxxxx`.
pub open spec fn hyphenated_text(b: Seq<u8>) -> Seq<char> {
    let s = simple_text(b);
    s.subrange(0, 8) + seq!['-'] + s.subrange(8, 12) + seq!['-'] + s.subrange(12, 16) + seq!['-']
        + s.subrange(16, 20) + seq!['-'] + s.subrange(20, 32)
}

/// The canonical text has 36 characters: hexadecimal digits, with hyphens
/// exactly at positions 8, 13, 18 and 23.
pub proof fn lemma_hyphenated_shape(b: Seq<u8>)
    requires
        b.len() == 16,
    ensures
        hyphenated_text(b).len() == 36,
        forall|i: int|
            0 <= i < 36 ==> (#[trigger] hyphenated_text(b)[i] == '-' <==> (i == 8 || i == 13 || i
                == 18 || i == 23)),
{
    let t = hyphenated_text(b);
    let s = simple_text(b);
    assert forall|i: int| 0 <= i < 32 implies #[trigger] s[i] != '-' by {
        let n = if i % 2 == 0 { b[i / 2] as int / 16 } else { b[i / 2] as int % 16 };
        assert(0 <= n < 16);
    }
    assert forall|i: int| 0 <= i < 36 implies (#[trigger] t[i] == '-' <==> (i == 8 || i == 13 || i == 18
        || i == 23)) by {
        if i < 8 {
            assert(t[i] == s[i]);
        } else if i == 8 {
        } else if i < 13 {
            assert(t[i] == s[i - 1]);
        } else if i == 13 {
        } else if i < 18 {
            assert(t[i] == s[i - 2]);
        } else if i == 18 {
        } else if i < 23 {
            assert(t[i] == s[i - 3]);
        } else if i == 23 {
        } else {
            assert(t[i] == s[i - 4]);
        }
    }
}

/// The version-4 ("random") layout: version nibble 4 and the RFC 4122 variant bits.
pub open spec fn is_random_layout(b: Seq<u8>) -> bool {
    &&& b.len() == 16
    &&& b[6] as int / 16 == 4
    &&& b[8] as int / 64 == 2
}

/// Calls `uuid::Uuid::new_v4`. Its source masks random bits so that every
/// outcome carries version 4 and the RFC 4122 variant; nothing else about the
/// bytes is known.
#[verifier::external_body]
fn random_uuid_bytes() -> (b: [u8; 16])
    ensures
        is_random_layout(b@),
{
    uuid::Uuid::new_v4().into_bytes()
}

/// Calls `Display` of `uuid::Uuid` (`to_string`), which the uuid source writes
/// as the lower-case hyphenated form.
#[verifier::external_body]
fn uuid_display(b: &[u8; 16]) -> (s: String)
    ensures
        s@ == hyphenated_text(b@),
{
    uuid::Uuid::from_bytes(*b).to_string()
}

#[verifier::external_type_specification]
#[verifier::external_body]
pub struct ExUuidError(uuid::Error);

/// Calls `uuid::Uuid::from_slice`, which accepts exactly 16 bytes and keeps
/// them as they are.
#[verifier::external_body]
fn uuid_from_slice(b: &[u8]) -> (r: Result<[u8; 16], uuid::Error>)
    ensures
        r is Ok <==> b@.len() == 16,
        r matches Ok(a) ==> a@ == b@,
{
    match uuid::Uuid::from_slice(b) {
        Ok(u) => Ok(u.into_bytes()),
        Err(e) => Err(e),
    }
}

/// Identifier of a service: the 16 bytes of a UUID.
#[derive(Clone, Copy, Debug)]
pub struct ServiceId {
    pub bytes: [u8; 16],
}

impl View for ServiceId {
    type V = Seq<u8>;

    open spec fn view(&self) -> Seq<u8> {
        self.bytes@
    }
}

impl ServiceId {
    /// A fresh random (version 4) identifier.
    pub fn new_v4() -> (id: ServiceId)
        ensures
            is_random_layout(id@),
    {
        ServiceId { bytes: random_uuid_bytes() }
    }

    /// The identifier made of the given bytes.
    pub fn from_bytes(bytes: [u8; 16]) -> (id: ServiceId)
        ensures
            id@ == bytes@,
    {
        ServiceId { bytes }
    }

    /// The identifier made of the given slice, when it has 16 bytes.
    pub fn from_slice(b: &[u8]) -> (id: Option<ServiceId>)
        ensures
            id is Some <==> b@.len() == 16,
            id matches Some(i) ==> i@ == b@,
    {
        match uuid_from_slice(b) {
            Ok(bytes) => Some(ServiceId { bytes }),
            Err(_) => None,
        }
    }

    /// The identifier's bytes.
    pub fn to_bytes(&self) -> (b: [u8; 16])
        ensures
            b@ == self@,
    {
        self.bytes
    }

    /// Whether two identifiers are the same UUID.
    pub fn same(&self, other: &ServiceId) -> (r: bool)
        ensures
            r == (self@ == other@),
    {
        let mut i: usize = 0;
        while i < 16
            invariant
                i <= 16,
                self@.len() == 16,
                other@.len() == 16,
                forall|j: int| 0 <= j < i ==> self@[j] == other@[j],
            decreases 16 - i,
        {
            if self.bytes[i] != other.bytes[i] {
                return false;
            }
            i = i + 1;
        }
        assert(self@ =~= other@);
        true
    }

    /// The canonical lower-case hyphenated text of the identifier.
    pub fn to_text(&self) -> (s: String)
        ensures
            s@ == hyphenated_text(self@),
    {
        uuid_display(&self.bytes)
    }
}

} // verus!
