use vstd::prelude::*;
use vstd::utf8::encode_utf8;

use crate::base64url::{b64url_bytes, b64url_decode, b64url_encode, b64url_text};
use crate::error::{view_result, DecodeError};
use crate::value::{field, lookup, text_is, Value};

verus! {

/// The hash algorithm that a signature was made with.
#[derive(Debug, Clone, Copy, PartialEq, Eq, Hash, Structural)]
pub enum SignatureAlg {
    Sha256,
    Sha384,
    Sha512,
}

/// Relies on sha2: `Sha256`'s output size is `U32`.
#[verifier::external_body]
fn sha256_output_size() -> (r: usize)
    ensures
        r == 32,
{
    <sha2::Sha256 as sha2::digest::OutputSizeUser>::output_size()
}

/// Relies on sha2: `Sha384`'s output size is `U48`.
#[verifier::external_body]
fn sha384_output_size() -> (r: usize)
    ensures
        r == 48,
{
    <sha2::Sha384 as sha2::digest::OutputSizeUser>::output_size()
}

/// Relies on sha2: `Sha512`'s output size is `U64`.
#[verifier::external_body]
fn sha512_output_size() -> (r: usize)
    ensures
        r == 64,
{
    <sha2::Sha512 as sha2::digest::OutputSizeUser>::output_size()
}

impl SignatureAlg {
    /// The digest length, in bytes.
    pub open spec fn digest_len(self) -> nat {
        match self {
            SignatureAlg::Sha256 => 32,
            SignatureAlg::Sha384 => 48,
            SignatureAlg::Sha512 => 64,
        }
    }

    /// The canonical label on the wire.
    pub open spec fn spec_label(self) -> Seq<char> {
        match self {
            SignatureAlg::Sha256 => "SHA-256"@,
            SignatureAlg::Sha384 => "SHA-384"@,
            SignatureAlg::Sha512 => "SHA-512"@,
        }
    }

    /// The digest length, as the hash implementation gives it.
    pub fn output_size(&self) -> (r: usize)
        ensures
            r == self.digest_len(),
    {
        match self {
            SignatureAlg::Sha256 => sha256_output_size(),
            SignatureAlg::Sha384 => sha384_output_size(),
            SignatureAlg::Sha512 => sha512_output_size(),
        }
    }

    /// The canonical label on the wire.
    pub fn label(&self) -> (r: &'static str)
        ensures
            r@ == self.spec_label(),
    {
        match self {
            SignatureAlg::Sha256 => "SHA-256",
            SignatureAlg::Sha384 => "SHA-384",
            SignatureAlg::Sha512 => "SHA-512",
        }
    }

    /// The algorithm that a label names.
    pub fn from_label(s: &str) -> (r: Option<SignatureAlg>)
        ensures
            r == alg_of_label(s@),
    {
        if text_is(s, "SHA-256") {
            Some(SignatureAlg::Sha256)
        } else if text_is(s, "SHA-384") {
            Some(SignatureAlg::Sha384)
        } else if text_is(s, "SHA-512") {
            Some(SignatureAlg::Sha512)
        } else {
            None
        }
    }

    /// The algorithm whose digests have length `n`.
    pub fn from_len(n: usize) -> (r: Option<SignatureAlg>)
        ensures
            r == alg_of_len(n as nat),
    {
        if n == SignatureAlg::Sha256.output_size() {
            Some(SignatureAlg::Sha256)
        } else if n == SignatureAlg::Sha384.output_size() {
            Some(SignatureAlg::Sha384)
        } else if n == SignatureAlg::Sha512.output_size() {
            Some(SignatureAlg::Sha512)
        } else {
            None
        }
    }
}

/// The algorithm that a label names.
pub open spec fn alg_of_label(s: Seq<char>) -> Option<SignatureAlg> {
    if s == "SHA-256"@ {
        Some(SignatureAlg::Sha256)
    } else if s == "SHA-384"@ {
        Some(SignatureAlg::Sha384)
    } else if s == "SHA-512"@ {
        Some(SignatureAlg::Sha512)
    } else {
        None
    }
}

/// The algorithm whose digests have length `n`.
pub open spec fn alg_of_len(n: nat) -> Option<SignatureAlg> {
    if n == 32 {
        Some(SignatureAlg::Sha256)
    } else if n == 48 {
        Some(SignatureAlg::Sha384)
    } else if n == 64 {
        Some(SignatureAlg::Sha512)
    } else {
        None
    }
}

/// Each label names its own algorithm.
pub proof fn lemma_label_names_alg(a: SignatureAlg)
    ensures
        alg_of_label(a.spec_label()) == Some(a),
{
    reveal_strlit("SHA-256");
    reveal_strlit("SHA-384");
    reveal_strlit("SHA-512");
    assert("SHA-256"@[5] != "SHA-384"@[5]);
    assert("SHA-256"@[5] != "SHA-512"@[5]);
    assert("SHA-384"@[5] != "SHA-512"@[5]);
}

/// A signature: the digest of one of three hash algorithms, held in an array
/// of exactly that algorithm's digest length.
#[derive(Debug, Clone, PartialEq, Eq, Hash)]
#[allow(inconsistent_fields)]
pub enum Signature {
    Sha256 { signature: [u8; 32] },
    Sha384 { signature: [u8; 48] },
    Sha512 { signature: [u8; 64] },
}

impl View for Signature {
    /// The algorithm and the digest bytes.
    type V = (SignatureAlg, Seq<u8>);

    open spec fn view(&self) -> (SignatureAlg, Seq<u8>) {
        match self {
            Signature::Sha256 { signature } => (SignatureAlg::Sha256, signature@),
            Signature::Sha384 { signature } => (SignatureAlg::Sha384, signature@),
            Signature::Sha512 { signature } => (SignatureAlg::Sha512, signature@),
        }
    }
}

/// A signature view whose algorithm agrees with its length.
pub open spec fn valid_signature(v: (SignatureAlg, Seq<u8>)) -> bool {
    alg_of_len(v.1.len()) == Some(v.0)
}

/// The algorithm of every signature agrees with the length of its digest.
pub proof fn lemma_signature_valid(s: Signature)
    ensures
        valid_signature(s@),
        s@.1.len() == s@.0.digest_len(),
{
}

/// Decoding a signature whose declared algorithm disagrees with the length of
/// its decoded bytes fails with `AlgMismatch`, for every mismatched pair.
pub proof fn lemma_alg_mismatch(declared: SignatureAlg, s: Seq<char>, bytes: Seq<u8>)
    requires
        b64url_bytes(encode_utf8(s)) == Some(bytes),
        alg_of_len(bytes.len()) is Some,
        alg_of_len(bytes.len()) != Some(declared),
    ensures
        signature_of_parts(declared.spec_label(), s) == Err::<(SignatureAlg, Seq<u8>), _>(
            DecodeError::AlgMismatch,
        ),
{
    lemma_label_names_alg(declared);
}

/// The signature made of raw digest bytes, its algorithm read from the length.
pub open spec fn signature_of_bytes(b: Seq<u8>) -> Result<(SignatureAlg, Seq<u8>), DecodeError> {
    match alg_of_len(b.len()) {
        Some(a) => Ok((a, b)),
        None => Err(DecodeError::UnsupportedLength),
    }
}

/// The signature that unpadded base64url text stands for.
pub open spec fn signature_of_text(s: Seq<char>) -> Result<(SignatureAlg, Seq<u8>), DecodeError> {
    match b64url_bytes(encode_utf8(s)) {
        Some(b) => signature_of_bytes(b),
        None => Err(DecodeError::Encoding),
    }
}

/// The signature of an `alg` label and a `signature` text: the label must be
/// known, the text must decode, and the decoded length, which decides the
/// algorithm, must agree with the label.
pub open spec fn signature_of_parts(alg: Seq<char>, s: Seq<char>) -> Result<
    (SignatureAlg, Seq<u8>),
    DecodeError,
> {
    match alg_of_label(alg) {
        None => Err(DecodeError::UnknownLabel),
        Some(a) => match signature_of_text(s) {
            Err(e) => Err(e),
            Ok(v) => if v.0 == a {
                Ok(v)
            } else {
                Err(DecodeError::AlgMismatch)
            },
        },
    }
}

/// The signature of the `alg` and `signature` field values; both are text.
pub open spec fn signature_of_values(alg: Value, s: Value) -> Result<
    (SignatureAlg, Seq<u8>),
    DecodeError,
> {
    match (alg, s) {
        (Value::Text(a), Value::Text(t)) => signature_of_parts(a@, t@),
        _ => Err(DecodeError::InvalidType),
    }
}

/// The signature of a field list holding `alg` and `signature`.
pub open spec fn signature_of_fields(fields: Seq<(String, Value)>) -> Result<
    (SignatureAlg, Seq<u8>),
    DecodeError,
> {
    match (lookup(fields, "alg"@), lookup(fields, "signature"@)) {
        (Some(a), Some(s)) => signature_of_values(a, s),
        _ => Err(DecodeError::MissingField),
    }
}

/// Whether `fields` is the wire form of signature `v`: `alg` then `signature`.
pub open spec fn signature_fields(fields: Seq<(String, Value)>, v: (SignatureAlg, Seq<u8>)) -> bool {
    &&& fields.len() == 2
    &&& fields[0].0@ == "alg"@
    &&& fields[0].1 matches Value::Text(a) && a@ == v.0.spec_label()
    &&& fields[1].0@ == "signature"@
    &&& fields[1].1 matches Value::Text(t) && t@ == b64url_text(v.1)
}

/// The first `N` bytes of `v`, as an array.
fn to_array<const N: usize>(v: &[u8]) -> (r: [u8; N])
    requires
        v@.len() == N,
    ensures
        r@ == v@,
{
    let mut a = [0u8; N];
    let mut i: usize = 0;
    while i < N
        invariant
            i <= N,
            v@.len() == N,
            a@.len() == N,
            forall|j: int| 0 <= j < i ==> a@[j] == v@[j],
        decreases N - i,
    {
        a[i] = v[i];
        i = i + 1;
    }
    assert(a@ =~= v@);
    a
}

impl Signature {
    /// The signature made of raw digest bytes; their length decides the
    /// algorithm, and must be a digest length.
    pub fn from_bytes(s: &[u8]) -> (r: Signature)
        requires
            alg_of_len(s@.len()) is Some,
        ensures
            r@ == (alg_of_len(s@.len()).unwrap(), s@),
    {
        match SignatureAlg::from_len(s.len()) {
            Some(SignatureAlg::Sha256) => Signature::Sha256 { signature: to_array::<32>(s) },
            Some(SignatureAlg::Sha384) => Signature::Sha384 { signature: to_array::<48>(s) },
            _ => Signature::Sha512 { signature: to_array::<64>(s) },
        }
    }

    /// The signature made of raw digest bytes, or `UnsupportedLength`.
    pub fn try_from_bytes(s: &[u8]) -> (r: Result<Signature, DecodeError>)
        ensures
            view_result(r) == signature_of_bytes(s@),
    {
        match SignatureAlg::from_len(s.len()) {
            Some(_) => Ok(Signature::from_bytes(s)),
            None => Err(DecodeError::UnsupportedLength),
        }
    }

    /// The algorithm, derived from the variant.
    pub fn alg(&self) -> (r: SignatureAlg)
        ensures
            r == self@.0,
    {
        match self {
            Signature::Sha256 { .. } => SignatureAlg::Sha256,
            Signature::Sha384 { .. } => SignatureAlg::Sha384,
            Signature::Sha512 { .. } => SignatureAlg::Sha512,
        }
    }

    /// The digest bytes.
    pub fn digest(&self) -> (r: &[u8])
        ensures
            r@ == self@.1,
    {
        match self {
            Signature::Sha256 { signature } => signature.as_slice(),
            Signature::Sha384 { signature } => signature.as_slice(),
            Signature::Sha512 { signature } => signature.as_slice(),
        }
    }

    /// The digest as unpadded base64url text.
    pub fn signature(&self) -> (r: String)
        ensures
            r@ == b64url_text(self@.1),
            signature_of_text(r@) == Ok::<_, DecodeError>(self@),
    {
        let r = b64url_encode(self.digest());
        r
    }

    /// The signature that unpadded base64url text stands for; its length
    /// decides the algorithm.
    pub fn parse(s: &str) -> (r: Result<Signature, DecodeError>)
        ensures
            view_result(r) == signature_of_text(s@),
    {
        match b64url_decode(s.as_bytes()) {
            Ok(b) => Signature::try_from_bytes(b.as_slice()),
            Err(_) => Err(DecodeError::Encoding),
        }
    }

    /// The signature of a declared `alg` label and a base64url `signature`
    /// text. The decoded length decides the variant; the label must agree.
    pub fn decode(alg: &str, s: &str) -> (r: Result<Signature, DecodeError>)
        ensures
            view_result(r) == signature_of_parts(alg@, s@),
    {
        match SignatureAlg::from_label(alg) {
            None => Err(DecodeError::UnknownLabel),
            Some(a) => match Signature::parse(s) {
                Err(e) => Err(e),
                Ok(sig) => if sig.alg() == a {
                    Ok(sig)
                } else {
                    Err(DecodeError::AlgMismatch)
                },
            },
        }
    }

    /// The signature of the `alg` and `signature` field values.
    pub fn decode_values(alg: &Value, s: &Value) -> (r: Result<Signature, DecodeError>)
        ensures
            view_result(r) == signature_of_values(*alg, *s),
    {
        match (alg, s) {
            (Value::Text(a), Value::Text(t)) => Signature::decode(a.as_str(), t.as_str()),
            _ => Err(DecodeError::InvalidType),
        }
    }

    /// The signature of a field list holding `alg` and `signature`.
    pub fn decode_fields(fields: &Vec<(String, Value)>) -> (r: Result<Signature, DecodeError>)
        ensures
            view_result(r) == signature_of_fields(fields@),
    {
        match (field(fields, "alg"), field(fields, "signature")) {
            (Some(a), Some(s)) => Signature::decode_values(a, s),
            _ => Err(DecodeError::MissingField),
        }
    }

    /// The wire form: `alg` with the canonical label, then `signature` with
    /// the unpadded base64url digest. It decodes back to this signature.
    pub fn encode(&self) -> (r: Vec<(String, Value)>)
        ensures
            signature_fields(r@, self@),
            signature_of_fields(r@) == Ok::<_, DecodeError>(self@),
    {
        let alg = self.alg();
        let mut r: Vec<(String, Value)> = Vec::new();
        r.push(("alg".to_owned(), Value::Text(alg.label().to_owned())));
        r.push(("signature".to_owned(), Value::Text(self.signature())));
        proof {
            lemma_label_names_alg(alg);
            reveal_strlit("alg");
            reveal_strlit("signature");
            assert("signature"@.len() != "alg"@.len());
            assert(r@.drop_last().drop_last().len() == 0);
            assert(r@.drop_last().last() == r@[0]);
            assert(lookup(r@.drop_last(), "alg"@) == Some(r@[0].1));
            assert(lookup(r@, "alg"@) == Some(r@[0].1));
            assert(lookup(r@, "signature"@) == Some(r@[1].1));
        }
        r
    }
}

impl std::str::FromStr for Signature {
    type Err = DecodeError;

    fn from_str(s: &str) -> (r: Result<Signature, DecodeError>)
        ensures
            view_result(r) == signature_of_text(s@),
    {
        Signature::parse(s)
    }
}

} // verus!
