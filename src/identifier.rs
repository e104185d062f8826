use vstd::prelude::*;

use crate::error::{view_result, ParseError};

verus! {

/// The bytes that the uuid crate reads from a text, or `None` where it reads
/// no identifier.
pub uninterp spec fn uuid_text_bytes(s: Seq<char>) -> Option<Seq<u8>>;

#[verifier::external_type_specification]
#[verifier::external_body]
pub struct ExUuidError(uuid::Error);

/// The lower-case hexadecimal digit of `n`.
pub open spec fn hex_digit(n: u8) -> char {
    if n < 10 {
        ((n + 48) as u8) as char
    } else {
        ((n + 87) as u8) as char
    }
}

/// Two lower-case hexadecimal digits for each byte.
pub open spec fn hex_of(b: Seq<u8>) -> Seq<char>
    decreases b.len(),
{
    if b.len() == 0 {
        Seq::empty()
    } else {
        hex_of(b.drop_last()) + seq![hex_digit(b.last() / 16), hex_digit(b.last() % 16)]
    }
}

/// The canonical text of 16 bytes: 32 lower-case hexadecimal digits grouped
/// 8-4-4-4-12 by hyphens.
pub open spec fn hyphenated_text(b: Seq<u8>) -> Seq<char> {
    hex_of(b.subrange(0, 4)) + seq!['-'] + hex_of(b.subrange(4, 6)) + seq!['-'] + hex_of(
        b.subrange(6, 8),
    ) + seq!['-'] + hex_of(b.subrange(8, 10)) + seq!['-'] + hex_of(b.subrange(10, 16))
}

/// A character with ASCII upper-case letters made lower-case.
pub open spec fn lower_char(c: char) -> char {
    if 65 <= c as u32 <= 90 {
        (((c as u32) + 32) as u8) as char
    } else {
        c
    }
}

/// A text with ASCII upper-case letters made lower-case.
pub open spec fn lowered(s: Seq<char>) -> Seq<char> {
    s.map_values(|c: char| lower_char(c))
}

/// Whether no character of `s` is an ASCII upper-case letter.
pub open spec fn no_upper(s: Seq<char>) -> bool {
    forall|i: int| 0 <= i < s.len() ==> !(65 <= #[trigger] s[i] as u32 <= 90)
}

/// The hexadecimal digits of bytes are lower-case.
proof fn lemma_hex_no_upper(b: Seq<u8>)
    ensures
        no_upper(hex_of(b)),
    decreases b.len(),
{
    if b.len() > 0 {
        lemma_hex_no_upper(b.drop_last());
        let h = hex_of(b.drop_last());
        let t = seq![hex_digit(b.last() / 16), hex_digit(b.last() % 16)];
        assert forall|i: int| 0 <= i < (h + t).len() implies !(65 <= #[trigger] (h + t)[i] as u32
            <= 90) by {
            if i >= h.len() {
                assert((h + t)[i] == t[i - h.len()]);
            }
        }
    }
}

/// Texts without upper-case letters make one without them.
proof fn lemma_no_upper_concat(a: Seq<char>, b: Seq<char>)
    requires
        no_upper(a),
        no_upper(b),
    ensures
        no_upper(a + b),
{
    assert forall|i: int| 0 <= i < (a + b).len() implies !(65 <= #[trigger] (a + b)[i] as u32 <= 90) by {
        if i >= a.len() {
            assert((a + b)[i] == b[i - a.len()]);
        }
    }
}

/// The canonical text is its own lower-case form.
pub proof fn lemma_hyphenated_lowered(b: Seq<u8>)
    ensures
        lowered(hyphenated_text(b)) == hyphenated_text(b),
{
    let d = seq!['-'];
    lemma_hex_no_upper(b.subrange(0, 4));
    lemma_hex_no_upper(b.subrange(4, 6));
    lemma_hex_no_upper(b.subrange(6, 8));
    lemma_hex_no_upper(b.subrange(8, 10));
    lemma_hex_no_upper(b.subrange(10, 16));
    let h1 = hex_of(b.subrange(0, 4));
    let h2 = hex_of(b.subrange(4, 6));
    let h3 = hex_of(b.subrange(6, 8));
    let h4 = hex_of(b.subrange(8, 10));
    let h5 = hex_of(b.subrange(10, 16));
    assert(no_upper(d));
    lemma_no_upper_concat(h1, d);
    lemma_no_upper_concat(h1 + d, h2);
    lemma_no_upper_concat(h1 + d + h2, d);
    lemma_no_upper_concat(h1 + d + h2 + d, h3);
    lemma_no_upper_concat(h1 + d + h2 + d + h3, d);
    lemma_no_upper_concat(h1 + d + h2 + d + h3 + d, h4);
    lemma_no_upper_concat(h1 + d + h2 + d + h3 + d + h4, d);
    lemma_no_upper_concat(h1 + d + h2 + d + h3 + d + h4 + d, h5);
    let acc = hyphenated_text(b);
    assert(lowered(acc) =~= acc);
}

/// The identifier that a text stands for: it must be 32 hexadecimal digits
/// grouped 8-4-4-4-12 by hyphens, in either case. What is written is the
/// lower-case form.
pub open spec fn uuid_of_text(s: Seq<char>) -> Result<Seq<u8>, ParseError> {
    match uuid_text_bytes(s) {
        Some(b) => if lowered(s) == hyphenated_text(b) {
            Ok(b)
        } else {
            Err(ParseError::Format)
        },
        None => Err(ParseError::Format),
    }
}

/// The bytes of a version 8 identifier made of custom bytes: the version
/// nibble and the variant bits are set, the other bits kept.
pub open spec fn v8_bytes(udf: Seq<u8>) -> Seq<u8> {
    udf.update(6, (udf[6] & 0x0f) | 0x80).update(8, (udf[8] & 0x3f) | 0x80)
}

/// Relies on `uuid::Uuid::new_v8`, which sets the high nibble of byte 6 to
/// the version (8) and the top bits of byte 8 to the RFC 4122 variant (`10`).
#[verifier::external_body]
fn uuid_new_v8(udf: [u8; 16]) -> (r: [u8; 16])
    ensures
        r@ == v8_bytes(udf@),
{
    uuid::Uuid::new_v8(udf).into_bytes()
}

/// Relies on `uuid::Uuid::hyphenated` and its `Display`: lower-case hex in
/// 8-4-4-4-12 groups. `Uuid::try_parse` reads every format that the crate
/// writes, so it reads this text back to the bytes.
#[verifier::external_body]
fn uuid_hyphenated(b: [u8; 16]) -> (r: String)
    ensures
        r@ == hyphenated_text(b@),
        uuid_text_bytes(r@) == Some(b@),
{
    uuid::Uuid::from_bytes(b).hyphenated().to_string()
}

/// Relies on `uuid::Uuid::try_parse`: the bytes of a text in any of the
/// crate's formats, or an error.
#[verifier::external_body]
fn uuid_try_parse(s: &str) -> (r: Result<[u8; 16], uuid::Error>)
    ensures
        match r {
            Ok(b) => uuid_text_bytes(s@) == Some(b@),
            Err(_) => uuid_text_bytes(s@) is None,
        },
{
    uuid::Uuid::try_parse(s).map(uuid::Uuid::into_bytes)
}

/// The character with an ASCII upper-case letter made lower-case.
fn lower(c: char) -> (r: char)
    ensures
        r == lower_char(c),
{
    if 65 <= c as u32 && c as u32 <= 90 {
        (((c as u32) + 32) as u8) as char
    } else {
        c
    }
}

/// Whether `s`, made lower-case, is `canonical`.
fn same_lowered(s: &str, canonical: &str) -> (r: bool)
    ensures
        r == (lowered(s@) == canonical@),
{
    let n = s.unicode_len();
    if n != canonical.unicode_len() {
        return false;
    }
    let mut i: usize = 0;
    while i < n
        invariant
            i <= n,
            n == s@.len(),
            n == canonical@.len(),
            forall|j: int| 0 <= j < i ==> lower_char(s@[j]) == canonical@[j],
        decreases n - i,
    {
        if lower(s.get_char(i)) != canonical.get_char(i) {
            assert(lowered(s@)[i as int] != canonical@[i as int]);
            return false;
        }
        i = i + 1;
    }
    assert(lowered(s@) =~= canonical@);
    true
}

/// A 128-bit identifier, written in canonical hyphenated form.
#[derive(Debug, Clone, Copy, PartialEq, Eq, Hash)]
pub struct Uuid {
    bytes: [u8; 16],
}

impl View for Uuid {
    type V = Seq<u8>;

    closed spec fn view(&self) -> Seq<u8> {
        self.bytes@
    }
}

impl Uuid {
    /// A version 8 identifier made of custom bytes.
    pub fn new(udf: [u8; 16]) -> (r: Uuid)
        ensures
            r@ == v8_bytes(udf@),
    {
        Uuid { bytes: uuid_new_v8(udf) }
    }

    /// The identifier of these 16 bytes, as they are.
    pub fn from_bytes(bytes: [u8; 16]) -> (r: Uuid)
        ensures
            r@ == bytes@,
    {
        Uuid { bytes }
    }

    pub fn as_bytes(&self) -> (r: &[u8; 16])
        ensures
            r@ == self@,
    {
        &self.bytes
    }

    /// The canonical text, which parses back to this identifier.
    pub fn hyphenated(&self) -> (r: String)
        ensures
            r@ == hyphenated_text(self@),
            uuid_of_text(r@) == Ok::<_, ParseError>(self@),
    {
        proof {
            lemma_hyphenated_lowered(self@);
        }
        uuid_hyphenated(self.bytes)
    }

    /// The identifier of 32 hexadecimal digits grouped 8-4-4-4-12 by hyphens,
    /// in either case; `Format` for anything else.
    pub fn parse(s: &str) -> (r: Result<Uuid, ParseError>)
        ensures
            view_result(r) == uuid_of_text(s@),
    {
        match uuid_try_parse(s) {
            Err(_) => Err(ParseError::Format),
            Ok(b) => {
                let canonical = uuid_hyphenated(b);
                if same_lowered(s, canonical.as_str()) {
                    Ok(Uuid { bytes: b })
                } else {
                    Err(ParseError::Format)
                }
            },
        }
    }
}

} // verus!
