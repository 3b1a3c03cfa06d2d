//! Identifiers of stream groups.

use vstd::prelude::*;

verus! {

/// The sixteen bytes of `value`, most significant byte first.
pub open spec fn be_bytes(value: u128) -> Seq<u8> {
    let v = value as int;
    seq![
        (v / 0x1000000000000000000000000000000 % 256) as u8,
        (v / 0x10000000000000000000000000000 % 256) as u8,
        (v / 0x100000000000000000000000000 % 256) as u8,
        (v / 0x1000000000000000000000000 % 256) as u8,
        (v / 0x10000000000000000000000 % 256) as u8,
        (v / 0x100000000000000000000 % 256) as u8,
        (v / 0x1000000000000000000 % 256) as u8,
        (v / 0x10000000000000000 % 256) as u8,
        (v / 0x100000000000000 % 256) as u8,
        (v / 0x1000000000000 % 256) as u8,
        (v / 0x10000000000 % 256) as u8,
        (v / 0x100000000 % 256) as u8,
        (v / 0x1000000 % 256) as u8,
        (v / 0x10000 % 256) as u8,
        (v / 0x100 % 256) as u8,
        (v % 256) as u8,
    ]
}

/// Whether `bytes` carry the version (4, random) and the variant (RFC 9562) of
/// a random UUID.
pub open spec fn is_random_uuid(bytes: Seq<u8>) -> bool {
    &&& bytes.len() == 16
    &&& bytes[6] / 16 == 4
    &&& bytes[8] / 64 == 2
}

/// Identifies the TCP streams that belong to one UDP connection: a UUID, held as
/// the number that its sixteen bytes spell, most significant byte first.
#[derive(Clone, Copy, Debug, PartialEq, Eq, Hash, Structural)]
pub struct StreamId {
    pub value: u128,
}

impl View for StreamId {
    type V = Seq<u8>;

    /// The sixteen bytes of the UUID.
    open spec fn view(&self) -> Seq<u8> {
        be_bytes(self.value)
    }
}

/// The number that the bytes of a random UUID spell.
///
/// Calls `uuid::Uuid::new_v4`, which draws the bits from the operating system's
/// source of randomness (and panics if that source fails). Of the result only
/// the version and the variant are fixed.
#[verifier::external_body]
fn uuid_new_v4() -> (value: u128)
    ensures
        is_random_uuid(be_bytes(value)),
{
    uuid::Uuid::new_v4().as_u128()
}

/// The number that `bytes` spell as a UUID.
///
/// Calls `uuid::Uuid::from_bytes`, which takes the bytes as they stand; the
/// number is read from them with the most significant byte first.
#[verifier::external_body]
fn uuid_from_bytes(bytes: [u8; 16]) -> (value: u128)
    ensures
        be_bytes(value) == bytes@,
{
    uuid::Uuid::from_bytes(bytes).as_u128()
}

/// The bytes of the UUID with the number `value`.
///
/// Calls `uuid::Uuid::as_bytes`, which gives the bytes with the most significant
/// one first.
#[verifier::external_body]
fn uuid_as_bytes(value: u128) -> (bytes: [u8; 16])
    ensures
        bytes@ == be_bytes(value),
{
    *uuid::Uuid::from_u128(value).as_bytes()
}

impl StreamId {
    /// Whether the source of random UUIDs gives this identifier when it is asked
    /// for one: whether it is what a call of `uuid_new_v4` returned.
    pub closed spec fn is_drawn(self) -> bool {
        call_ensures(uuid_new_v4, (), self.value)
    }

    /// A fresh random identifier, as the source of random UUIDs draws it.
    pub fn new_v4() -> (id: StreamId)
        ensures
            is_random_uuid(id@),
            id.is_drawn(),
    {
        StreamId { value: uuid_new_v4() }
    }

    /// The identifier with the given bytes.
    pub fn from_bytes(bytes: [u8; 16]) -> (id: StreamId)
        ensures
            id@ == bytes@,
            forall|i: int|
                0 <= i < 16 ==> #[trigger] bytes@[i] == id.value as int
                    / vstd::arithmetic::power::pow(256, (15 - i) as nat) % 256,
    {
        let id = StreamId { value: uuid_from_bytes(bytes) };
        assert forall|i: int| 0 <= i < 16 implies #[trigger] bytes@[i] == id.value as int
            / vstd::arithmetic::power::pow(256, (15 - i) as nat) % 256 by {
            bytes_spell_the_number(id, i);
        }
        id
    }

    /// The sixteen bytes of the identifier.
    pub fn as_bytes(&self) -> (bytes: [u8; 16])
        ensures
            bytes@ == self@,
            forall|i: int|
                0 <= i < 16 ==> #[trigger] bytes@[i] == self.value as int
                    / vstd::arithmetic::power::pow(256, (15 - i) as nat) % 256,
    {
        let bytes = uuid_as_bytes(self.value);
        assert forall|i: int| 0 <= i < 16 implies #[trigger] bytes@[i] == self.value as int
            / vstd::arithmetic::power::pow(256, (15 - i) as nat) % 256 by {
            bytes_spell_the_number(*self, i);
        }
        bytes
    }
}

/// Where `a` and `b` agree above a byte and in that byte, they agree from that
/// byte on.
proof fn lemma_agree_one_byte_more(a: int, b: int, unit: int)
    requires
        0 <= a,
        0 <= b,
        0 < unit,
        a / (unit * 256) == b / (unit * 256),
        a / unit % 256 == b / unit % 256,
    ensures
        a / unit == b / unit,
{
    vstd::arithmetic::div_mod::lemma_div_denominator(a, unit, 256);
    vstd::arithmetic::div_mod::lemma_div_denominator(b, unit, 256);
    vstd::arithmetic::div_mod::lemma_fundamental_div_mod(a / unit, 256);
    vstd::arithmetic::div_mod::lemma_fundamental_div_mod(b / unit, 256);
}

/// An identifier is determined by its bytes: two identifiers with the same bytes
/// are the same.
pub proof fn stream_id_is_its_bytes(a: StreamId, b: StreamId)
    requires
        a@ == b@,
    ensures
        a == b,
{
    let x = a.value as int;
    let y = b.value as int;
    assert(x / 0x1000000000000000000000000000000 == y / 0x1000000000000000000000000000000);
    lemma_agree_one_byte_more(x, y, 0x10000000000000000000000000000);
    lemma_agree_one_byte_more(x, y, 0x100000000000000000000000000);
    lemma_agree_one_byte_more(x, y, 0x1000000000000000000000000);
    lemma_agree_one_byte_more(x, y, 0x10000000000000000000000);
    lemma_agree_one_byte_more(x, y, 0x100000000000000000000);
    lemma_agree_one_byte_more(x, y, 0x1000000000000000000);
    lemma_agree_one_byte_more(x, y, 0x10000000000000000);
    lemma_agree_one_byte_more(x, y, 0x100000000000000);
    lemma_agree_one_byte_more(x, y, 0x1000000000000);
    lemma_agree_one_byte_more(x, y, 0x10000000000);
    lemma_agree_one_byte_more(x, y, 0x100000000);
    lemma_agree_one_byte_more(x, y, 0x1000000);
    lemma_agree_one_byte_more(x, y, 0x10000);
    lemma_agree_one_byte_more(x, y, 0x100);
}

/// An identifier that is drawn is what a call of `uuid_new_v4` returned.
proof fn lemma_drawn_by_the_source(id: StreamId)
    requires
        id.is_drawn(),
    ensures
        call_ensures(uuid_new_v4, (), id.value),
{
}

/// What the source of random UUIDs draws is a random UUID: sixteen bytes, of which
/// the seventh starts with the version 4 and the ninth with the variant bits 10.
pub proof fn drawn_id_is_a_random_uuid(id: StreamId)
    requires
        id.is_drawn(),
    ensures
        id@.len() == 16,
        0x40 <= id@[6] <= 0x4f,
        0x80 <= id@[8] <= 0xbf,
{
    lemma_drawn_by_the_source(id);
}

/// Sixteen bytes are those of a random UUID by their version and their variant, and
/// by nothing else.
pub proof fn random_uuid_is_told_by_version_and_variant(bytes: Seq<u8>)
    ensures
        is_random_uuid(bytes) <==> bytes.len() == 16 && 0x40 <= bytes[6] <= 0x4f && 0x80
            <= bytes[8] <= 0xbf,
{
}

/// The bytes of an identifier spell its number to the base 256, the most
/// significant digit first.
pub proof fn bytes_spell_the_number(id: StreamId, i: int)
    requires
        0 <= i < 16,
    ensures
        id@.len() == 16,
        id@[i] == id.value as int / vstd::arithmetic::power::pow(256, (15 - i) as nat) % 256,
{
    lemma_powers_of_256();
}

proof fn lemma_powers_of_256()
    ensures
        vstd::arithmetic::power::pow(256, 0) == 1,
        vstd::arithmetic::power::pow(256, 1) == 0x100,
        vstd::arithmetic::power::pow(256, 2) == 0x10000,
        vstd::arithmetic::power::pow(256, 3) == 0x1000000,
        vstd::arithmetic::power::pow(256, 4) == 0x100000000,
        vstd::arithmetic::power::pow(256, 5) == 0x10000000000,
        vstd::arithmetic::power::pow(256, 6) == 0x1000000000000,
        vstd::arithmetic::power::pow(256, 7) == 0x100000000000000,
        vstd::arithmetic::power::pow(256, 8) == 0x10000000000000000,
        vstd::arithmetic::power::pow(256, 9) == 0x1000000000000000000,
        vstd::arithmetic::power::pow(256, 10) == 0x100000000000000000000,
        vstd::arithmetic::power::pow(256, 11) == 0x10000000000000000000000,
        vstd::arithmetic::power::pow(256, 12) == 0x1000000000000000000000000,
        vstd::arithmetic::power::pow(256, 13) == 0x100000000000000000000000000,
        vstd::arithmetic::power::pow(256, 14) == 0x10000000000000000000000000000,
        vstd::arithmetic::power::pow(256, 15) == 0x1000000000000000000000000000000,
{
    reveal_with_fuel(vstd::arithmetic::power::pow, 17);
}

} // verus!
