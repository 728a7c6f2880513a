//! Session keys and their printable form.

use crate::crypto::prng::random_bytes;
use crate::crypto::prng::RandomError;
use crate::text;
use crate::text::push_decimal;
use base64::Engine;
use subtle::ConstantTimeEq;
use vstd::prelude::*;
use vstd::string::StrSliceExecFns;

verus! {

/// The symbol for six bits: capital letters, small letters, digits, plus and slash.
pub open spec fn symbol(v: int) -> char {
    if v < 26 {
        (65 + v) as char
    } else if v < 52 {
        (97 + v - 26) as char
    } else if v < 62 {
        (48 + v - 52) as char
    } else if v == 62 {
        '+'
    } else {
        '/'
    }
}

/// The symbols for three bytes.
pub open spec fn quad(a: u8, b: u8, c: u8) -> Seq<char> {
    seq![
        symbol(a as int / 4),
        symbol(a as int % 4 * 16 + b as int / 16),
        symbol(b as int % 16 * 4 + c as int / 64),
        symbol(c as int % 64),
    ]
}

/// Bytes in base64, padded with equals signs to a multiple of four.
pub open spec fn base64_text(bytes: Seq<u8>) -> Seq<char>
    decreases bytes.len(),
{
    if bytes.len() == 0 {
        seq![]
    } else if bytes.len() == 1 {
        quad(bytes[0], 0, 0).take(2) + seq!['=', '=']
    } else if bytes.len() == 2 {
        quad(bytes[0], bytes[1], 0).take(3) + seq!['=']
    } else {
        quad(bytes[0], bytes[1], bytes[2]) + base64_text(bytes.skip(3))
    }
}

/// The printable form of a key: its base64 text without the padding.
pub open spec fn key_text(key: Seq<u8>) -> Seq<char> {
    base64_text(key).take(22)
}

/// The message for a text that is not base64.
pub uninterp spec fn base64_error(text: Seq<char>) -> Seq<char>;

/// `base64::Engine::encode` of the standard engine: the bytes in the standard alphabet, padded.
#[verifier::external_body]
fn base64_encode(bytes: &[u8; 16]) -> (res: String)
    ensures
        res@ == base64_text(bytes@),
{
    base64::engine::general_purpose::STANDARD.encode(bytes)
}

/// `base64::Engine::decode` of the standard engine: the bytes whose encoding is the text. It fails
/// on every other text (a foreign symbol, wrong padding, stray bits), with the error's message.
#[verifier::external_body]
fn base64_decode(text: &str) -> (res: Result<Vec<u8>, String>)
    ensures
        match res {
            Ok(bytes) => text@ == base64_text(bytes@),
            Err(e) => e@ == base64_error(text@) && forall|b: Seq<u8>|
                text@ != #[trigger] base64_text(b),
        },
{
    base64::engine::general_purpose::STANDARD.decode(text).map_err(|e| e.to_string())
}

/// `subtle::ConstantTimeEq::ct_eq` on byte slices: whether they are equal.
#[verifier::external_body]
fn constant_time_eq(a: &[u8; 16], b: &[u8; 16]) -> (res: bool)
    ensures
        res == (a@ == b@),
{
    a[..].ct_eq(&b[..]).into()
}

/// Symbols for different values differ, and none is an equals sign.
proof fn symbol_injective(a: int, b: int)
    requires
        0 <= a < 64,
        0 <= b < 64,
    ensures
        symbol(a) == symbol(b) ==> a == b,
        symbol(a) != '=',
        vstd::utf8::is_ascii_chars(seq![symbol(a)]),
{
}

/// The length of base64 text, and where its padding is.
pub proof fn base64_shape(bytes: Seq<u8>)
    ensures
        base64_text(bytes).len() == (bytes.len() + 2) / 3 * 4,
        bytes.len() > 0 ==> {
            let t = base64_text(bytes);
            let n = t.len() as int;
            &&& (t[n - 1] == '=' <==> bytes.len() % 3 != 0)
            &&& (t[n - 2] == '=' <==> bytes.len() % 3 == 1)
        },
        vstd::utf8::is_ascii_chars(base64_text(bytes)),
    decreases bytes.len(),
{
    let t = base64_text(bytes);
    if bytes.len() >= 3 {
        let rest = bytes.skip(3);
        base64_shape(rest);
        let q = quad(bytes[0], bytes[1], bytes[2]);
        quad_symbols(bytes[0], bytes[1], bytes[2]);
        assert(t =~= q + base64_text(rest));
        vstd::utf8::is_ascii_chars_concat(t, q, base64_text(rest));
        let n = t.len() as int;
        if rest.len() == 0 {
            assert(t =~= q);
        } else {
            assert(t[n - 1] == base64_text(rest)[n - 5]);
            assert(t[n - 2] == base64_text(rest)[n - 6]);
        }
    } else if bytes.len() == 2 {
        quad_symbols(bytes[0], bytes[1], 0);
    } else if bytes.len() == 1 {
        quad_symbols(bytes[0], 0, 0);
    }
}

/// The symbols of three bytes are symbols.
proof fn quad_symbols(a: u8, b: u8, c: u8)
    ensures
        forall|i: int| 0 <= i < 4 ==> #[trigger] quad(a, b, c)[i] != '=',
        vstd::utf8::is_ascii_chars(quad(a, b, c)),
{
    symbol_injective(a as int / 4, 0);
    symbol_injective(a as int % 4 * 16 + b as int / 16, 0);
    symbol_injective(b as int % 16 * 4 + c as int / 64, 0);
    symbol_injective(c as int % 64, 0);
}

/// Three bytes can be read off their symbols.
proof fn quad_injective(a: u8, b: u8, c: u8, x: u8, y: u8, z: u8)
    ensures
        quad(a, b, c)[0] == quad(x, y, z)[0] && quad(a, b, c)[1] == quad(x, y, z)[1] ==> a == x,
        quad(a, b, c)[1] == quad(x, y, z)[1] && quad(a, b, c)[2] == quad(x, y, z)[2] ==> b == y,
        quad(a, b, c)[2] == quad(x, y, z)[2] && quad(a, b, c)[3] == quad(x, y, z)[3] ==> c == z,
{
    symbol_injective(a as int / 4, x as int / 4);
    symbol_injective(a as int % 4 * 16 + b as int / 16, x as int % 4 * 16 + y as int / 16);
    symbol_injective(b as int % 16 * 4 + c as int / 64, y as int % 16 * 4 + z as int / 64);
    symbol_injective(c as int % 64, z as int % 64);
}

/// Different bytes have different base64 texts.
pub proof fn base64_injective(a: Seq<u8>, b: Seq<u8>)
    requires
        base64_text(a) == base64_text(b),
    ensures
        a == b,
    decreases a.len(),
{
    base64_shape(a);
    base64_shape(b);
    assert(a.len() == b.len());
    if a.len() >= 3 {
        let s = base64_text(a);
        let q = quad(a[0], a[1], a[2]);
        let r = quad(b[0], b[1], b[2]);
        assert(q =~= s.take(4));
        assert(r =~= s.take(4));
        quad_injective(a[0], a[1], a[2], b[0], b[1], b[2]);
        assert(base64_text(a.skip(3)) =~= s.skip(4));
        assert(base64_text(b.skip(3)) =~= s.skip(4));
        base64_injective(a.skip(3), b.skip(3));
        assert(a =~= seq![a[0], a[1], a[2]] + a.skip(3));
        assert(b =~= seq![b[0], b[1], b[2]] + b.skip(3));
    } else if a.len() == 2 {
        let s = base64_text(a);
        assert(quad(a[0], a[1], 0).take(3) =~= s.take(3));
        assert(quad(b[0], b[1], 0).take(3) =~= s.take(3));
        assert(quad(a[0], a[1], 0)[0] == s.take(3)[0] && quad(b[0], b[1], 0)[0] == s.take(3)[0]);
        assert(quad(a[0], a[1], 0)[1] == s.take(3)[1] && quad(b[0], b[1], 0)[1] == s.take(3)[1]);
        assert(quad(a[0], a[1], 0)[2] == s.take(3)[2] && quad(b[0], b[1], 0)[2] == s.take(3)[2]);
        quad_injective(a[0], a[1], 0, b[0], b[1], 0);
        assert(a =~= b);
    } else if a.len() == 1 {
        let s = base64_text(a);
        assert(quad(a[0], 0, 0).take(2) =~= s.take(2));
        assert(quad(b[0], 0, 0).take(2) =~= s.take(2));
        assert(quad(a[0], 0, 0)[0] == s.take(2)[0] && quad(b[0], 0, 0)[0] == s.take(2)[0]);
        assert(quad(a[0], 0, 0)[1] == s.take(2)[1] && quad(b[0], 0, 0)[1] == s.take(2)[1]);
        quad_injective(a[0], 0, 0, b[0], 0, 0);
        assert(a =~= b);
    } else {
        assert(a =~= b);
    }
}

/// The printable form of a key has 22 characters, all of them ASCII; with the padding it is the
/// key's base64 text.
pub proof fn key_text_shape(key: Seq<u8>)
    requires
        key.len() == 16,
    ensures
        key_text(key).len() == 22,
        key_text(key) + seq!['=', '='] == base64_text(key),
        vstd::utf8::is_ascii_chars(key_text(key)),
        vstd::utf8::encode_utf8(key_text(key)).len() == 22,
{
    base64_shape(key);
    assert(key_text(key) + seq!['=', '='] =~= base64_text(key));
    vstd::utf8::is_ascii_chars_encode_utf8(key_text(key));
}

/// Different keys have different printable forms.
pub proof fn key_text_injective(a: Seq<u8>, b: Seq<u8>)
    requires
        a.len() == 16,
        b.len() == 16,
        key_text(a) == key_text(b),
    ensures
        a == b,
{
    key_text_shape(a);
    key_text_shape(b);
    base64_injective(a, b);
}

/// A 128-bit key, printable as 22 characters of base64 without padding.
#[derive(Clone, Copy)]
pub struct Base64Key {
    bytes: [u8; 16],
}

impl View for Base64Key {
    type V = Seq<u8>;

    closed spec fn view(&self) -> Seq<u8> {
        self.bytes@
    }
}

/// Where formatted text goes.
#[verifier::external_type_specification]
#[verifier::external_body]
pub struct ExFormatter<'a>(std::fmt::Formatter<'a>);

/// The error of a destination of formatted text.
#[verifier::external_type_specification]
#[verifier::external_body]
pub struct ExFmtError(std::fmt::Error);

/// `std::fmt::Formatter::write_str`: hands a text to the destination. What the destination makes of it,
/// and whether it takes it, is its own matter; nothing is said of that.
#[verifier::external_body]
fn write_text(f: &mut std::fmt::Formatter<'_>, text: &str) -> (res: Result<(), std::fmt::Error>) {
    f.write_str(text)
}

impl std::fmt::Debug for Base64Key {
    fn fmt(&self, f: &mut std::fmt::Formatter<'_>) -> Result<(), std::fmt::Error> {
        write_text(f, self.debug_text().as_str())
    }
}

/// The first sixteen of a list of bytes, as an array.
fn sixteen(bytes: &Vec<u8>) -> (res: [u8; 16])
    requires
        bytes@.len() == 16,
    ensures
        res@ == bytes@,
{
    let mut key: [u8; 16] = [0u8;16];
    let mut i: usize = 0;
    while i < 16
        invariant
            i <= 16,
            bytes@.len() == 16,
            forall|k: int| 0 <= k < i ==> key@[k] == bytes@[k],
        decreases 16 - i,
    {
        key[i] = bytes[i];
        i = i + 1;
    }
    assert(key@ =~= bytes@);
    key
}

impl Base64Key {
    /// A key has 16 bytes.
    pub proof fn has_len(&self)
        ensures
            self@.len() == 16,
    {
    }

    /// A random key from the system's source.
    pub fn random() -> (res: Result<Self, RandomError>)
        ensures
            res matches Ok(key) ==> key@.len() == 16,
    {
        Self::from_answer(random_bytes(16))
    }

    /// The key in what the source of random bytes answered.
    pub fn from_answer(answer: Result<Vec<u8>, RandomError>) -> (res: Result<Self, RandomError>)
        requires
            answer matches Ok(bytes) ==> bytes@.len() == 16,
        ensures
            match answer {
                Ok(bytes) => res matches Ok(key) && key@ == bytes@,
                Err(e) => res == Err::<Self, RandomError>(e),
            },
    {
        match answer {
            Ok(bytes) => Ok(Base64Key { bytes: sixteen(&bytes) }),
            Err(e) => Err(e),
        }
    }

    /// Parses a 22-character base64 key string.
    pub fn from_printable(printable: &str) -> (res: Result<Self, String>)
        ensures
            match res {
                Ok(key) => printable@ == key_text(key@),
                Err(e) => {
                    &&& forall|k: Seq<u8>| k.len() == 16 ==> printable@ != #[trigger] key_text(k)
                    &&& e@ == if vstd::utf8::encode_utf8(printable@).len() != 22 {
                        "Key must be 22 characters, got "@ + text::decimal(
                            vstd::utf8::encode_utf8(printable@).len(),
                        )
                    } else {
                        "Invalid base64: "@ + base64_error(printable@ + "=="@)
                    }
                },
            },
    {
        let bytes = printable.as_bytes();
        let n: usize = bytes.len();
        if n != 22 {
            let mut msg = String::new();
            msg.push_str("Key must be 22 characters, got ");
            push_decimal(&mut msg, n as u64);
            proof {
                assert forall|k: Seq<u8>| k.len() == 16 implies printable@ != #[trigger] key_text(
                    k,
                ) by {
                    key_text_shape(k);
                }
                assert(msg@ =~= "Key must be 22 characters, got "@ + text::decimal(n as nat));
            }
            return Err(msg);
        }
        let mut padded = String::new();
        padded.push_str(printable);
        padded.push_str("==");
        proof {
            reveal_strlit("==");
            assert("=="@ =~= seq!['=', '=']);
            assert(padded@ =~= printable@ + "=="@);
        }
        match base64_decode(padded.as_str()) {
            Ok(decoded) => {
                proof {
                    padded_key_shape(printable@, decoded@);
                    key_text_shape(decoded@);
                    assert(printable@ =~= (printable@ + "=="@).take(printable@.len() as int));
                    assert(key_text(decoded@) =~= printable@);
                }
                Ok(Base64Key { bytes: sixteen(&decoded) })
            },
            Err(e) => {
                let mut msg = String::new();
                msg.push_str("Invalid base64: ");
                msg.push_str(e.as_str());
                proof {
                    assert forall|k: Seq<u8>| k.len() == 16 implies printable@
                        != #[trigger] key_text(k) by {
                        key_text_shape(k);
                        assert(padded@ != base64_text(k));
                    }
                    assert(msg@ =~= "Invalid base64: "@ + base64_error(printable@ + "=="@));
                }
                Err(msg)
            },
        }
    }

    /// The key as it is printed for debugging.
    pub fn debug_text(&self) -> (res: String)
        ensures
            res@ == "Base64Key("@ + key_text(self@) + ")"@,
    {
        let mut text = "Base64Key(".to_owned();
        text.push_str(self.printable_key().as_str());
        text.push_str(")");
        text
    }

    /// The key as a 22-character base64 string (no padding).
    pub fn printable_key(&self) -> (res: String)
        ensures
            res@ == key_text(self@),
    {
        let encoded = base64_encode(&self.bytes);
        proof {
            key_text_shape(self@);
        }
        let short = encoded.as_str().substring_char(0, 22);
        assert(short@ =~= key_text(self@));
        short.to_owned()
    }

    /// The raw 16-byte key data.
    pub fn data(&self) -> (res: &[u8; 16])
        ensures
            res@ == self@,
    {
        &self.bytes
    }

    /// Consumes the key and returns its raw bytes.
    pub fn into_bytes(self) -> (res: [u8; 16])
        ensures
            res@ == self@,
    {
        self.bytes
    }
}

/// A text of 22 bytes that becomes base64 with two equals signs has 16 bytes behind it.
proof fn padded_key_shape(printable: Seq<char>, decoded: Seq<u8>)
    requires
        vstd::utf8::encode_utf8(printable).len() == 22,
        printable + seq!['=', '='] == base64_text(decoded),
    ensures
        decoded.len() == 16,
        printable.len() == 22,
{
    base64_shape(decoded);
    let t = base64_text(decoded);
    vstd::utf8::is_ascii_chars_concat(t, printable, seq!['=', '=']);
    vstd::utf8::is_ascii_chars_encode_utf8(printable);
    assert(t[t.len() - 1] == '=');
    assert(t[t.len() - 2] == '=');
}

impl PartialEq for Base64Key {
    fn eq(&self, other: &Base64Key) -> (res: bool) {
        constant_time_eq(&self.bytes, &other.bytes)
    }
}

impl vstd::std_specs::cmp::PartialEqSpecImpl for Base64Key {
    open spec fn obeys_eq_spec() -> bool {
        true
    }

    open spec fn eq_spec(&self, other: &Base64Key) -> bool {
        self@ == other@
    }
}

impl Eq for Base64Key {

}

/// The key with the given bytes.
pub closed spec fn key_of(bytes: [u8; 16]) -> Base64Key {
    Base64Key { bytes }
}

/// The key made of bytes has these bytes.
pub broadcast proof fn key_of_bytes(bytes: [u8; 16])
    ensures
        (#[trigger] key_of(bytes))@ == bytes@,
{
}

impl From<[u8; 16]> for Base64Key {
    fn from(bytes: [u8; 16]) -> (res: Self)
        ensures
            res@ == bytes@,
    {
        Base64Key { bytes }
    }
}

impl vstd::std_specs::convert::FromSpecImpl<[u8; 16]> for Base64Key {
    open spec fn obeys_from_spec() -> bool {
        true
    }

    open spec fn from_spec(bytes: [u8; 16]) -> Self {
        key_of(bytes)
    }
}

} // verus!
