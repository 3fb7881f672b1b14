//! Generation of a Noise keypair for a rathole transport, with both keys
//! written in base64.
use vstd::prelude::*;

use base64::Engine;
use snowstorm::snow;

verus! {

#[verifier::external_type_specification]
#[verifier::external_body]
pub struct ExSnowError(snow::Error);

/// The curves a keypair can be made on.
#[derive(Clone, Debug, Copy, PartialEq, Eq, Structural)]
pub enum KeypairType {
    X25519,
    X448,
}

/// The curve used when none is given.
pub const DEFAULT_CURVE: KeypairType = KeypairType::X25519;

/// The name that Noise gives a curve.
pub open spec fn curve_name(curve: KeypairType) -> Seq<char> {
    match curve {
        KeypairType::X25519 => "25519"@,
        KeypairType::X448 => "448"@,
    }
}

/// The name that Noise gives a curve.
pub fn get_str_from_keypair_type(curve: KeypairType) -> (s: &'static str)
    ensures
        s@ == curve_name(curve),
{
    match curve {
        KeypairType::X25519 => "25519",
        KeypairType::X448 => "448",
    }
}

/// The Noise protocol name of a KK handshake on `curve` with ChaChaPoly and BLAKE2s.
pub open spec fn kk_pattern(curve: KeypairType) -> Seq<char> {
    "Noise_KK_"@ + curve_name(curve) + "_ChaChaPoly_BLAKE2s"@
}

/// The Noise protocol name that keys are generated for: a KK handshake on the
/// given curve, or on X25519 when none is given.
pub fn noise_pattern_for(curve: Option<KeypairType>) -> (s: String)
    ensures
        s@ == kk_pattern(
            match curve {
                Some(c) => c,
                None => KeypairType::X25519,
            },
        ),
{
    let curve = match curve {
        Some(c) => c,
        None => DEFAULT_CURVE,
    };
    let mut s = String::from_str("Noise_KK_");
    s.append(get_str_from_keypair_type(curve));
    s.append("_ChaChaPoly_BLAKE2s");
    s
}

/// The X25519 public key of a private key: the private key, clamped, times
/// the curve's base point.
pub uninterp spec fn x25519_public_key(private: Seq<u8>) -> Seq<u8>;

/// Generates a fresh keypair for the Noise protocol `name`, private key
/// first: `NoiseParams::from_str`, then `Builder::new` (snow's default
/// resolver) and `Builder::generate_keypair`. In snow 0.9.6 the default
/// resolver provides the curve 25519 (32-byte keys, the public key derived from
/// the private one) and no other; the private key is random, so nothing is
/// stated of it but its length. Names other than the two KK names that keys are
/// generated for are left unsaid.
#[verifier::external_body]
fn generate_keypair(name: &str) -> (r: Result<(Vec<u8>, Vec<u8>), snow::Error>)
    ensures
        name@ == kk_pattern(KeypairType::X25519) ==> r is Ok,
        name@ == kk_pattern(KeypairType::X25519) ==> r->Ok_0.0@.len() == 32,
        name@ == kk_pattern(KeypairType::X25519) ==> r->Ok_0.1@ == x25519_public_key(r->Ok_0.0@),
        name@ == kk_pattern(KeypairType::X448) ==> r is Err,
{
    let params: snowstorm::NoiseParams = name.parse()?;
    snowstorm::Builder::new(params).generate_keypair().map(|k| (k.private, k.public))
}

/// The base64 character of a six-bit value, in the standard alphabet.
pub open spec fn base64_char(v: int) -> char {
    if v < 26 {
        (v + 65) as char
    } else if v < 52 {
        (v - 26 + 97) as char
    } else if v < 62 {
        (v - 52 + 48) as char
    } else if v == 62 {
        '+'
    } else {
        '/'
    }
}

/// The standard base64 text of some bytes, without padding: each three bytes
/// become four characters of six bits each; a last one or two bytes become two
/// or three characters, the missing bits zero.
pub open spec fn base64_no_pad(b: Seq<u8>) -> Seq<char>
    decreases b.len(),
{
    let x = if b.len() > 0 { b[0] as int } else { 0 };
    let y = if b.len() > 1 { b[1] as int } else { 0 };
    let z = if b.len() > 2 { b[2] as int } else { 0 };
    if b.len() == 0 {
        Seq::empty()
    } else if b.len() == 1 {
        seq![base64_char(x / 4), base64_char((x % 4) * 16)]
    } else if b.len() == 2 {
        seq![base64_char(x / 4), base64_char((x % 4) * 16 + y / 16), base64_char((y % 16) * 4)]
    } else {
        seq![
            base64_char(x / 4),
            base64_char((x % 4) * 16 + y / 16),
            base64_char((y % 16) * 4 + z / 64),
            base64_char(z % 64),
        ] + base64_no_pad(b.subrange(3, b.len() as int))
    }
}

/// Encodes bytes with base64's standard alphabet and no padding, the engine
/// `GeneralPurpose::new(&alphabet::STANDARD, general_purpose::NO_PAD)`.
#[verifier::external_body]
fn encode_base64_no_pad(bytes: &[u8]) -> (s: String)
    ensures
        s@ == base64_no_pad(bytes@),
{
    base64::engine::GeneralPurpose::new(
        &base64::alphabet::STANDARD,
        base64::engine::general_purpose::NO_PAD,
    ).encode(bytes)
}

/// A keypair, each key written in base64.
#[derive(Clone, Debug, PartialEq)]
pub struct EncodedKeypair {
    pub private: String,
    pub public: String,
}

/// Writes a keypair's keys in base64.
pub fn encode_keypair(private: &Vec<u8>, public: &Vec<u8>) -> (k: EncodedKeypair)
    ensures
        k.private@ == base64_no_pad(private@),
        k.public@ == base64_no_pad(public@),
{
    EncodedKeypair {
        private: encode_base64_no_pad(private.as_slice()),
        public: encode_base64_no_pad(public.as_slice()),
    }
}

/// Generates a keypair for a KK handshake on the given curve (X25519 when
/// none is given), both keys in base64; X448 is not provided and gives the
/// error of snow.
pub fn genkey(curve: Option<KeypairType>) -> (r: Result<EncodedKeypair, snow::Error>)
    ensures
        curve == Some(KeypairType::X448) ==> r is Err,
        curve != Some(KeypairType::X448) ==> (r matches Ok(k) && exists|private: Seq<u8>|
            private.len() == 32 && k.private@ == base64_no_pad(private) && k.public@
                == base64_no_pad(x25519_public_key(private))),
{
    let name = noise_pattern_for(curve);
    match generate_keypair(name.as_str()) {
        Ok((private, public)) => Ok(encode_keypair(&private, &public)),
        Err(e) => Err(e),
    }
}

} // verus!
