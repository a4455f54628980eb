//! Device, job and manifest identifiers.

use crate::bytes::{append_be, read_be};
use vstd::prelude::*;

verus! {

/// A 128-bit universally unique identifier.
#[derive(Debug, Clone, Copy, PartialEq, Eq, Structural, Hash)]
pub struct Uuid {
    pub bits: u128,
}

/// A lower-case hexadecimal digit.
pub open spec fn hex_digit(value: int) -> char {
    if value < 10 {
        ('0' as u32 + value) as char
    } else {
        ('a' as u32 + (value - 10)) as char
    }
}

/// Two lower-case hexadecimal digits for each byte.
pub open spec fn hex_of(bytes: Seq<u8>) -> Seq<char>
    decreases bytes.len(),
{
    if bytes.len() == 0 {
        Seq::<char>::empty()
    } else {
        hex_of(bytes.drop_last()).push(hex_digit(bytes.last() as int / 16)).push(
            hex_digit(bytes.last() as int % 16),
        )
    }
}

/// The hyphenated lower-case form of an identifier: 8, 4, 4, 4 and 12 digits.
pub open spec fn hyphenated(bytes: Seq<u8>) -> Seq<char> {
    hex_of(bytes.subrange(0, 4)).push('-') + hex_of(bytes.subrange(4, 6)).push('-') + hex_of(
        bytes.subrange(6, 8),
    ).push('-') + hex_of(bytes.subrange(8, 10)).push('-') + hex_of(bytes.subrange(10, 16))
}

/// The identifier that a text spells in one of the forms that the `uuid` crate
/// reads, as its sixteen bytes.
pub uninterp spec fn parsed_uuid(text: Seq<char>) -> Option<Seq<u8>>;

/// The bytes of an array, where there is one.
pub open spec fn contents(bytes: Option<[u8; 16]>) -> Option<Seq<u8>> {
    match bytes {
        Some(found) => Some(found@),
        None => None,
    }
}

/// `uuid::Uuid::from_bytes` and its `Display`: the hyphenated lower-case form.
#[verifier::external_body]
fn format_uuid(bytes: [u8; 16]) -> (text: String)
    ensures
        text@ == hyphenated(bytes@),
{
    uuid::Uuid::from_bytes(bytes).to_string()
}

/// `uuid::Uuid::parse_str`: sixteen bytes, or nothing where the text is in none
/// of the forms that it reads. The hyphenated form is one of them.
#[verifier::external_body]
fn parse_uuid_bytes(text: &str) -> (bytes: Option<[u8; 16]>)
    ensures
        contents(bytes) == parsed_uuid(text@),
        forall|b: Seq<u8>|
            b.len() == 16 && text@ == #[trigger] hyphenated(b) ==> contents(bytes) == Some(b),
{
    uuid::Uuid::parse_str(text).ok().map(|parsed| parsed.into_bytes())
}

/// The version and variant bits of a random identifier.
pub open spec fn is_random(id: Uuid) -> bool {
    id.spec_bytes()[6] / 16 == 4 && id.spec_bytes()[8] / 64 == 2
}

/// `uuid::Uuid::new_v4`: sixteen random bytes whose version and variant bits are
/// fixed. Which of them come out is left open.
#[verifier::external_body]
fn random_uuid_bytes() -> (bytes: [u8; 16])
    ensures
        bytes@[6] / 16 == 4,
        bytes@[8] / 64 == 2,
{
    uuid::Uuid::new_v4().into_bytes()
}

impl Uuid {
    /// A random identifier.
    pub fn new_v4() -> (id: Self)
        ensures
            is_random(id),
    {
        Uuid::from_bytes(&random_uuid_bytes())
    }

    /// The sixteen bytes, most significant first.
    pub open spec fn spec_bytes(self) -> Seq<u8> {
        crate::bytes::to_be(self.bits as nat, 16)
    }

    /// The hyphenated text.
    pub open spec fn spec_text(self) -> Seq<char> {
        hyphenated(self.spec_bytes())
    }

    pub fn from_u128(bits: u128) -> (id: Self)
        ensures
            id.bits == bits,
    {
        Uuid { bits }
    }

    pub fn nil() -> (id: Self)
        ensures
            id.bits == 0,
    {
        Uuid { bits: 0 }
    }

    pub fn from_bytes(bytes: &[u8; 16]) -> (id: Self)
        ensures
            id.spec_bytes() == bytes@,
    {
        let bits = read_be(bytes);
        proof {
            crate::bytes::law_to_be_of_from_be(bytes@);
        }
        Uuid { bits }
    }

    pub fn to_bytes(&self) -> (bytes: [u8; 16])
        ensures
            bytes@ == self.spec_bytes(),
    {
        let mut out: Vec<u8> = Vec::new();
        append_be(&mut out, self.bits, 16);
        assert(out@ =~= self.spec_bytes());
        proof {
            crate::bytes::lemma_to_be_len(self.bits as nat, 16);
        }
        let mut bytes: [u8; 16] = [0u8;16];
        let mut i: usize = 0;
        while i < 16
            invariant
                i <= 16,
                out.len() == 16,
                forall|k: int| 0 <= k < i ==> bytes@[k] == out@[k],
            decreases 16 - i,
        {
            bytes[i] = out[i];
            i += 1;
        }
        assert(bytes@ =~= out@);
        bytes
    }

    /// The hyphenated lower-case text of the identifier.
    pub fn to_text(&self) -> (text: String)
        ensures
            text@ == self.spec_text(),
    {
        format_uuid(self.to_bytes())
    }

    /// Reads any of the usual textual forms.
    pub fn parse(text: &str) -> (id: Option<Self>)
        ensures
            id == parsed(text@),
            forall|u: Uuid| text@ == #[trigger] u.spec_text() ==> id == Some(u),
    {
        match parse_uuid_bytes(text) {
            Some(bytes) => {
                let id = Uuid::from_bytes(&bytes);
                proof {
                    lemma_bytes_determine_id(id, bytes@);
                    assert forall|u: Uuid| text@ == #[trigger] u.spec_text() implies Some(id)
                        == Some(u) by {
                        crate::bytes::lemma_to_be_len(u.bits as nat, 16);
                        lemma_bytes_determine_id(u, bytes@);
                    }
                }
                Some(id)
            },
            None => {
                proof {
                    assert forall|u: Uuid| text@ == #[trigger] u.spec_text() implies false by {
                        crate::bytes::lemma_to_be_len(u.bits as nat, 16);
                    }
                }
                None
            },
        }
    }
}

proof fn lemma_bytes_determine_id(id: Uuid, bytes: Seq<u8>)
    requires
        id.spec_bytes() == bytes,
    ensures
        id.bits == crate::bytes::from_be(bytes),
{
    crate::bytes::law_u128_roundtrip(id.bits);
}

/// The identifier that a text spells.
pub open spec fn parsed(text: Seq<char>) -> Option<Uuid> {
    match parsed_uuid(text) {
        Some(bytes) => Some(Uuid { bits: crate::bytes::from_be(bytes) as u128 }),
        None => None,
    }
}

fn hex_char(value: u8) -> (c: char)
    requires
        value < 16,
    ensures
        c == hex_digit(value as int),
{
    if value < 10 {
        (48 + value) as char
    } else {
        (97 + (value - 10)) as char
    }
}

/// Lower-case hexadecimal, two digits for each byte.
pub fn hex(bytes: &[u8]) -> (encoded: String)
    ensures
        encoded@ == hex_of(bytes@),
{
    let mut encoded = String::new();
    let mut i: usize = 0;
    assert(bytes@.take(0) =~= Seq::<u8>::empty());
    while i < bytes.len()
        invariant
            i <= bytes.len(),
            encoded@ == hex_of(bytes@.take(i as int)),
        decreases bytes.len() - i,
    {
        assert(bytes@.take(i + 1).drop_last() =~= bytes@.take(i as int));
        encoded.push(hex_char(bytes[i] / 16));
        encoded.push(hex_char(bytes[i] % 16));
        i += 1;
    }
    assert(bytes@.take(i as int) =~= bytes@);
    encoded
}

/// Two digits come out for each byte.
pub proof fn law_hex_length(bytes: Seq<u8>)
    ensures
        hex_of(bytes).len() == 2 * bytes.len(),
    decreases bytes.len(),
{
    if bytes.len() > 0 {
        law_hex_length(bytes.drop_last());
    }
}

/// Different bytes have different hexadecimal texts.
pub proof fn law_hex_is_injective(a: Seq<u8>, b: Seq<u8>)
    requires
        hex_of(a) == hex_of(b),
    ensures
        a == b,
    decreases a.len(),
{
    law_hex_length(a);
    law_hex_length(b);
    if a.len() > 0 {
        let x = hex_of(a);
        let y = hex_of(b);
        assert(x.last() == hex_digit(a.last() as int % 16));
        assert(y.last() == hex_digit(b.last() as int % 16));
        assert(x.drop_last().last() == hex_digit(a.last() as int / 16));
        assert(y.drop_last().last() == hex_digit(b.last() as int / 16));
        assert(x.drop_last().drop_last() =~= hex_of(a.drop_last()));
        assert(y.drop_last().drop_last() =~= hex_of(b.drop_last()));
        law_hex_is_injective(a.drop_last(), b.drop_last());
        assert(a =~= a.drop_last().push(a.last()));
        assert(b =~= b.drop_last().push(b.last()));
    } else {
        assert(a =~= b);
    }
}

/// The value of a hexadecimal digit.
pub open spec fn digit_value(c: char) -> int {
    if 48 <= c as u32 <= 57 {
        c as u32 - 48
    } else if 97 <= c as u32 <= 102 {
        c as u32 - 87
    } else {
        -1
    }
}

/// Bytes are written one after another, each as the digit of its upper half and that of
/// its lower half.
pub proof fn law_hex_writes_byte_by_byte(a: Seq<u8>, b: Seq<u8>, byte: u8)
    ensures
        hex_of(a + b) == hex_of(a) + hex_of(b),
        hex_of(seq![byte]).len() == 2,
        16 * digit_value(hex_of(seq![byte])[0]) + digit_value(hex_of(seq![byte])[1]) == byte,
        0 <= digit_value(hex_of(seq![byte])[0]) < 16,
        0 <= digit_value(hex_of(seq![byte])[1]) < 16,
    decreases b.len(),
{
    let one = seq![byte];
    assert(one.drop_last() =~= Seq::<u8>::empty());
    assert(hex_of(one.drop_last()) =~= Seq::<char>::empty());
    let (upper, lower) = (byte as int / 16, byte as int % 16);
    assert(0 <= upper < 16 && 0 <= lower < 16);
    assert(hex_of(one) =~= seq![hex_digit(upper), hex_digit(lower)]);
    assert(digit_value(hex_digit(upper)) == upper);
    assert(digit_value(hex_digit(lower)) == lower);
    if b.len() == 0 {
        assert(a + b =~= a);
        assert(hex_of(a) + hex_of(b) =~= hex_of(a));
    } else {
        law_hex_writes_byte_by_byte(a, b.drop_last(), byte);
        assert((a + b).drop_last() =~= a + b.drop_last());
        assert((a + b).last() == b.last());
        assert(hex_of(a + b) =~= hex_of(a) + hex_of(b));
    }
}

/// An identifier reads as thirty-two digits with a hyphen after eight, twelve, sixteen
/// and twenty of them; without the hyphens they are its bytes.
pub proof fn law_identifiers_are_hyphenated(bytes: Seq<u8>)
    requires
        bytes.len() == 16,
    ensures
        ({
            let text = hyphenated(bytes);
            &&& text.len() == 36
            &&& text[8] == '-' && text[13] == '-' && text[18] == '-' && text[23] == '-'
            &&& text.subrange(0, 8) + text.subrange(9, 13) + text.subrange(14, 18)
                + text.subrange(19, 23) + text.subrange(24, 36) == hex_of(bytes)
        }),
{
    let (a, b, c, d, e) = (
        bytes.subrange(0, 4),
        bytes.subrange(4, 6),
        bytes.subrange(6, 8),
        bytes.subrange(8, 10),
        bytes.subrange(10, 16),
    );
    let text = hyphenated(bytes);
    law_hex_length(a);
    law_hex_length(b);
    law_hex_length(c);
    law_hex_length(d);
    law_hex_length(e);
    assert(text.subrange(0, 8) =~= hex_of(a));
    assert(text.subrange(9, 13) =~= hex_of(b));
    assert(text.subrange(14, 18) =~= hex_of(c));
    assert(text.subrange(19, 23) =~= hex_of(d));
    assert(text.subrange(24, 36) =~= hex_of(e));
    law_hex_writes_byte_by_byte(a, b, 0);
    law_hex_writes_byte_by_byte(a + b, c, 0);
    law_hex_writes_byte_by_byte(a + b + c, d, 0);
    law_hex_writes_byte_by_byte(a + b + c + d, e, 0);
    assert(a + b + c + d + e =~= bytes);
}

} // verus!
