//! Identifiers of stores, generations, plans and requests.
use vstd::prelude::*;
use crate::digest::{hex_digit, hex_digit_injective};
use crate::text;

verus! {

/// A universally unique identifier, held as its 128-bit number. Zero is the nil identifier, which
/// no record may carry.
#[derive(Clone, Copy, Debug, PartialEq, Eq, Structural)]
pub struct Uuid {
    pub bits: u128,
}

/// The hexadecimal digit of `bits` that stands at place `k`, the highest first.
pub open spec fn nibble(bits: u128, k: int) -> int {
    ((bits >> ((4 * (31 - k)) as u128)) & 0xf) as int
}

/// How many digits stand before character `i` of the hyphenated form.
pub open spec fn digits_before(i: int) -> int {
    if i < 8 {
        i
    } else if i < 13 {
        i - 1
    } else if i < 18 {
        i - 2
    } else if i < 23 {
        i - 3
    } else {
        i - 4
    }
}

/// The hyphenated form: thirty-two small hexadecimal digits in groups of 8, 4, 4, 4 and 12.
pub open spec fn uuid_text(bits: u128) -> Seq<char> {
    Seq::new(
        36,
        |i: int|
            if i == 8 || i == 13 || i == 18 || i == 23 {
                '-'
            } else {
                hex_digit(nibble(bits, digits_before(i)))
            },
    )
}

/// The identifier that a text names in any of the accepted forms.
pub uninterp spec fn uuid_parsed(text: Seq<char>) -> Option<u128>;

/// `uuid::Uuid::parse_str`: the identifier that the text names, if it is in one of the forms that
/// the crate accepts. The hyphenated form of an identifier is read back as that identifier.
#[verifier::external_body]
fn parse(text: &str) -> (r: Option<u128>)
    ensures
        r == uuid_parsed(text@),
        forall|bits: u128| text@ == #[trigger] uuid_text(bits) ==> r == Some(bits),
{
    uuid::Uuid::parse_str(text).ok().map(|id| id.as_u128())
}

/// `uuid::Uuid::to_string`: the hyphenated form, in small digits.
#[verifier::external_body]
fn hyphenated(bits: u128) -> (r: String)
    ensures
        r@ == uuid_text(bits),
{
    uuid::Uuid::from_u128(bits).to_string()
}

/// The bits that are the same in every random identifier: its version and its variant.
pub const RANDOM_MASK: u128 = 0xf000_c000_0000_0000_0000;

/// What those bits are.
pub const RANDOM_BITS: u128 = 0x4000_8000_0000_0000_0000;

/// `uuid::Uuid::new_v4`: an identifier whose version and variant say that it is random. Which one it is rests
/// on chance; that it was never drawn before is not claimed.
#[verifier::external_body]
fn drawn() -> (r: u128)
    ensures
        r & RANDOM_MASK == RANDOM_BITS,
{
    uuid::Uuid::new_v4().as_u128()
}

/// The hyphenated form holds hexadecimal digits and hyphens alone.
pub proof fn uuid_text_plain(bits: u128)
    ensures
        forall|i: int|
            0 <= i < 36 ==> #[trigger] uuid_text(bits)[i] == '-' || text::lower_hex_char(
                uuid_text(bits)[i],
            ),
{
    assert forall|i: int| 0 <= i < 36 implies #[trigger] uuid_text(bits)[i] == '-'
        || text::lower_hex_char(uuid_text(bits)[i]) by {
        let s = (4 * (31 - digits_before(i))) as u128;
        assert((bits >> s) & 0xf < 16) by (bit_vector);
        let value = nibble(bits, digits_before(i));
        assert(0 <= value < 16);
        assert(text::lower_hex_char(hex_digit(value)));
    }
}

/// Different identifiers have different hyphenated forms.
pub proof fn uuid_text_injective(a: u128, b: u128)
    requires
        uuid_text(a) == uuid_text(b),
    ensures
        a == b,
{
    assert forall|k: int| 0 <= k < 32 implies nibble(a, k) == nibble(b, k) by {
        let i = if k < 8 {
            k
        } else if k < 12 {
            k + 1
        } else if k < 16 {
            k + 2
        } else if k < 20 {
            k + 3
        } else {
            k + 4
        };
        assert(digits_before(i) == k);
        assert(uuid_text(a)[i] == hex_digit(nibble(a, k)));
        assert(uuid_text(b)[i] == hex_digit(nibble(b, k)));
        let s = (4 * (31 - k)) as u128;
        assert((a >> s) & 0xf < 16) by (bit_vector);
        assert((b >> s) & 0xf < 16) by (bit_vector);
        hex_digit_injective(nibble(a, k), nibble(b, k));
    }
    assert forall|s: u128| s % 4 == 0 && s < 128 implies #[trigger] (a >> s) & 0xf == (b >> s)
        & 0xf by {
        let k = 31 - (s as int) / 4;
        assert(nibble(a, k) == nibble(b, k));
        assert((4 * (31 - k)) as u128 == s);
    }
    nibbles_determine(a, b);
}

proof fn nibbles_determine(a: u128, b: u128)
    requires
        forall|s: u128| s % 4 == 0 && s < 128 ==> #[trigger] (a >> s) & 0xf == (b >> s) & 0xf,
    ensures
        a == b,
{
    let x = a ^ b;
    assert(forall|s: u128|
        s % 4 == 0 && s < 128 ==> #[trigger] (a >> s) & 0xf == (b >> s) & 0xf) ;
    assert((a >> 0u128) & 0xf == (b >> 0u128) & 0xf);
    assert((a >> 4u128) & 0xf == (b >> 4u128) & 0xf);
    assert((a >> 8u128) & 0xf == (b >> 8u128) & 0xf);
    assert((a >> 12u128) & 0xf == (b >> 12u128) & 0xf);
    assert((a >> 16u128) & 0xf == (b >> 16u128) & 0xf);
    assert((a >> 20u128) & 0xf == (b >> 20u128) & 0xf);
    assert((a >> 24u128) & 0xf == (b >> 24u128) & 0xf);
    assert((a >> 28u128) & 0xf == (b >> 28u128) & 0xf);
    assert((a >> 32u128) & 0xf == (b >> 32u128) & 0xf);
    assert((a >> 36u128) & 0xf == (b >> 36u128) & 0xf);
    assert((a >> 40u128) & 0xf == (b >> 40u128) & 0xf);
    assert((a >> 44u128) & 0xf == (b >> 44u128) & 0xf);
    assert((a >> 48u128) & 0xf == (b >> 48u128) & 0xf);
    assert((a >> 52u128) & 0xf == (b >> 52u128) & 0xf);
    assert((a >> 56u128) & 0xf == (b >> 56u128) & 0xf);
    assert((a >> 60u128) & 0xf == (b >> 60u128) & 0xf);
    assert((a >> 64u128) & 0xf == (b >> 64u128) & 0xf);
    assert((a >> 68u128) & 0xf == (b >> 68u128) & 0xf);
    assert((a >> 72u128) & 0xf == (b >> 72u128) & 0xf);
    assert((a >> 76u128) & 0xf == (b >> 76u128) & 0xf);
    assert((a >> 80u128) & 0xf == (b >> 80u128) & 0xf);
    assert((a >> 84u128) & 0xf == (b >> 84u128) & 0xf);
    assert((a >> 88u128) & 0xf == (b >> 88u128) & 0xf);
    assert((a >> 92u128) & 0xf == (b >> 92u128) & 0xf);
    assert((a >> 96u128) & 0xf == (b >> 96u128) & 0xf);
    assert((a >> 100u128) & 0xf == (b >> 100u128) & 0xf);
    assert((a >> 104u128) & 0xf == (b >> 104u128) & 0xf);
    assert((a >> 108u128) & 0xf == (b >> 108u128) & 0xf);
    assert((a >> 112u128) & 0xf == (b >> 112u128) & 0xf);
    assert((a >> 116u128) & 0xf == (b >> 116u128) & 0xf);
    assert((a >> 120u128) & 0xf == (b >> 120u128) & 0xf);
    assert((a >> 124u128) & 0xf == (b >> 124u128) & 0xf);
    assert(a == b) by (bit_vector)
        requires
            (a >> 0u128) & 0xf == (b >> 0u128) & 0xf,
            (a >> 4u128) & 0xf == (b >> 4u128) & 0xf,
            (a >> 8u128) & 0xf == (b >> 8u128) & 0xf,
            (a >> 12u128) & 0xf == (b >> 12u128) & 0xf,
            (a >> 16u128) & 0xf == (b >> 16u128) & 0xf,
            (a >> 20u128) & 0xf == (b >> 20u128) & 0xf,
            (a >> 24u128) & 0xf == (b >> 24u128) & 0xf,
            (a >> 28u128) & 0xf == (b >> 28u128) & 0xf,
            (a >> 32u128) & 0xf == (b >> 32u128) & 0xf,
            (a >> 36u128) & 0xf == (b >> 36u128) & 0xf,
            (a >> 40u128) & 0xf == (b >> 40u128) & 0xf,
            (a >> 44u128) & 0xf == (b >> 44u128) & 0xf,
            (a >> 48u128) & 0xf == (b >> 48u128) & 0xf,
            (a >> 52u128) & 0xf == (b >> 52u128) & 0xf,
            (a >> 56u128) & 0xf == (b >> 56u128) & 0xf,
            (a >> 60u128) & 0xf == (b >> 60u128) & 0xf,
            (a >> 64u128) & 0xf == (b >> 64u128) & 0xf,
            (a >> 68u128) & 0xf == (b >> 68u128) & 0xf,
            (a >> 72u128) & 0xf == (b >> 72u128) & 0xf,
            (a >> 76u128) & 0xf == (b >> 76u128) & 0xf,
            (a >> 80u128) & 0xf == (b >> 80u128) & 0xf,
            (a >> 84u128) & 0xf == (b >> 84u128) & 0xf,
            (a >> 88u128) & 0xf == (b >> 88u128) & 0xf,
            (a >> 92u128) & 0xf == (b >> 92u128) & 0xf,
            (a >> 96u128) & 0xf == (b >> 96u128) & 0xf,
            (a >> 100u128) & 0xf == (b >> 100u128) & 0xf,
            (a >> 104u128) & 0xf == (b >> 104u128) & 0xf,
            (a >> 108u128) & 0xf == (b >> 108u128) & 0xf,
            (a >> 112u128) & 0xf == (b >> 112u128) & 0xf,
            (a >> 116u128) & 0xf == (b >> 116u128) & 0xf,
            (a >> 120u128) & 0xf == (b >> 120u128) & 0xf,
            (a >> 124u128) & 0xf == (b >> 124u128) & 0xf,
    ;
}

impl Uuid {
    /// The hyphenated form of the identifier.
    pub open spec fn text(self) -> Seq<char> {
        uuid_text(self.bits)
    }

    /// Whether this is the nil identifier.
    pub fn is_nil(&self) -> (r: bool)
        ensures
            r == (self.bits == 0),
    {
        self.bits == 0
    }

    /// The hyphenated form, in small digits.
    pub fn to_text(&self) -> (r: String)
        ensures
            r@ == self.text(),
            r@.len() == 36,
    {
        hyphenated(self.bits)
    }

    /// An identifier whose version and variant say that it is random.
    pub open spec fn random(self) -> bool {
        self.bits & RANDOM_MASK == RANDOM_BITS
    }

    /// A random identifier, which is never the nil one.
    pub fn new_v4() -> (r: Uuid)
        ensures
            r.random(),
            r.bits != 0,
    {
        let bits: u128 = drawn();
        proof {
            assert(bits & 0xf000_c000_0000_0000_0000 == 0x4000_8000_0000_0000_0000 ==> bits != 0)
                by (bit_vector);
        }
        Uuid { bits }
    }

    /// The identifier that a text names in any of the accepted forms, braces included.
    pub fn parse_str(text: &str) -> (r: Option<Uuid>)
        ensures
            r == (match uuid_parsed(text@) {
                Some(bits) => Some(Uuid { bits }),
                None => None,
            }),
    {
        match parse(text) {
            Some(bits) => Some(Uuid { bits }),
            None => None,
        }
    }

    /// The identifier whose hyphenated form is exactly this text. Other spellings of an
    /// identifier (capitals, braces, no hyphens) are refused.
    pub fn canonical(name: &str) -> (r: Option<Uuid>)
        ensures
            match r {
                Some(id) => name@ == id.text(),
                None => forall|id: Uuid| name@ != #[trigger] id.text(),
            },
    {
        match parse(name) {
            Some(bits) => {
                let id = Uuid { bits };
                if text::same(id.to_text().as_str(), name) {
                    Some(id)
                } else {
                    proof {
                        assert forall|other: Uuid| name@ != #[trigger] other.text() by {
                            if name@ == uuid_text(other.bits) {
                                assert(other.bits == bits);
                            }
                        }
                    }
                    None
                }
            },
            None => {
                proof {
                    assert forall|other: Uuid| name@ != #[trigger] other.text() by {
                        assert(other.text() == uuid_text(other.bits));
                    }
                }
                None
            },
        }
    }
}

} // verus!
