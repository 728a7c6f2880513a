//! Encryption sessions: messages sealed and opened with AES-128-OCB3.

use crate::crypto::nonce;
use crate::crypto::nonce::Nonce;
use aes::Aes128;
use ocb3::consts::U12;
use ocb3::consts::U16;
use ocb3::AeadInPlace;
use ocb3::GenericArray;
use ocb3::KeyInit;
use ocb3::Ocb3;
use vstd::prelude::*;

verus! {

/// Overhead added by encryption: the authentication tag.
pub const ADDED_BYTES: usize = 16;

/// The longest text that the cipher takes at once: it has more room where addresses are wider.
pub open spec fn max_text() -> nat {
    if usize::BITS == 64 {
        0xf_ffff_ffff
    } else {
        0xf_ffff
    }
}

/// The longest text that the cipher takes at once.
pub fn text_limit() -> (res: usize)
    ensures
        res == max_text(),
{
    if usize::BITS == 64 {
        0xf_ffff_ffff_u64 as usize
    } else {
        0xf_ffff
    }
}

/// The number of blocks after which a key must no longer be used.
pub const BLOCK_LIMIT: u64 = 0x8000_0000_0000;

/// What AES-128-OCB3 makes of a text: the ciphertext, followed by the tag.
pub uninterp spec fn ocb_sealed(key: Seq<u8>, nonce: Seq<u8>, text: Seq<u8>) -> Seq<u8>;

/// Whether two byte strings are the same outside of one block of 16 bytes.
pub open spec fn same_outside(a: Seq<u8>, b: Seq<u8>, block: int) -> bool {
    forall|i: int| 0 <= i < a.len() && i / 16 != block ==> #[trigger] a[i] == b[i]
}

/// Whether two byte strings of the same length differ, but in one block of 16 bytes alone.
pub open spec fn differ_in_block(a: Seq<u8>, b: Seq<u8>) -> bool {
    &&& a.len() == b.len()
    &&& a != b
    &&& exists|block: int| #[trigger] same_outside(a, b, block)
}

/// `ocb3::Ocb3` (with AES-128, 12-byte nonces and 16-byte tags) and its `encrypt_in_place_detached`
/// without associated data: the ciphertext, as long as the text, and the tag. It does not fail on a
/// text within the cipher's limit.
#[verifier::external_body]
fn ocb_seal(key: &[u8; 16], nonce: &[u8; 12], text: &[u8]) -> (res: (Vec<u8>, Vec<u8>))
    requires
        text@.len() <= max_text(),
    ensures
        res.0@ + res.1@ == ocb_sealed(key@, nonce@, text@),
        res.0@.len() == text@.len(),
        res.1@.len() == ADDED_BYTES,
{
    let cipher = Ocb3::<Aes128, U12, U16>::new(&GenericArray::from(*key));
    let nonce = GenericArray::from(*nonce);
    let mut buffer = text.to_vec();
    let tag = cipher.encrypt_in_place_detached(&nonce, &[], &mut buffer);
    (buffer, tag.expect("the text is within the limit").to_vec())
}

/// `ocb3::Ocb3` and its `decrypt_in_place_detached` without associated data: the one text that is
/// sealed as the given ciphertext and tag. It fails if there is none. The text comes from the
/// ciphertext alone, the tag only decides: no other text is sealed as that ciphertext, whatever its
/// tag. The tag enciphers the checksum of the text's blocks, each of which comes from the block of
/// ciphertext in its place: what is sealed with a single other block has another tag. Nothing is said
/// of how hard it is to find a ciphertext and a tag that go together.
#[verifier::external_body]
fn ocb_open(key: &[u8; 16], nonce: &[u8; 12], ciphertext: &[u8], tag: &[u8]) -> (res: Option<
    Vec<u8>,
>)
    requires
        ciphertext@.len() <= max_text(),
        tag@.len() == ADDED_BYTES,
    ensures
        match res {
            Some(text) => text@.len() == ciphertext@.len() && forall|t: Seq<u8>|
                t.len() == ciphertext@.len() ==> {
                    let sealed = #[trigger] ocb_sealed(key@, nonce@, t);
                    let n = t.len() as int;
                    &&& sealed == ciphertext@ + tag@ <==> t == text@
                    &&& sealed.take(n) == ciphertext@ ==> t == text@
                    &&& differ_in_block(sealed.take(n), ciphertext@) ==> sealed.skip(n) != tag@
                },
            None => forall|t: Seq<u8>|
                t.len() == ciphertext@.len() ==> #[trigger] ocb_sealed(key@, nonce@, t)
                    != ciphertext@ + tag@,
        },
{
    let cipher = Ocb3::<Aes128, U12, U16>::new(&GenericArray::from(*key));
    let nonce = GenericArray::from(*nonce);
    let mut buffer = ciphertext.to_vec();
    let tag = GenericArray::from_slice(tag);
    cipher.decrypt_in_place_detached(&nonce, &[], &mut buffer, tag).ok().map(|()| buffer)
}

/// A message: a nonce and a text.
#[derive(Debug)]
pub struct Message {
    pub nonce: Nonce,
    pub text: Vec<u8>,
}

impl Message {
    /// A message with the given nonce and text.
    pub fn new(nonce: Nonce, text: Vec<u8>) -> (res: Self)
        ensures
            res.nonce == nonce,
            res.text == text,
    {
        Message { nonce, text }
    }
}

impl Clone for Message {
    fn clone(&self) -> (res: Self)
        ensures
            res.nonce == self.nonce,
            res.text@ == self.text@,
    {
        Message { nonce: self.nonce, text: copy_bytes(self.text.as_slice()) }
    }
}

/// A copy of bytes.
fn copy_bytes(bytes: &[u8]) -> (res: Vec<u8>)
    ensures
        res@ == bytes@,
{
    let mut res: Vec<u8> = Vec::new();
    res.extend_from_slice(bytes);
    assert(res@ =~= bytes@);
    res
}

/// Why a packet was not decrypted.
#[derive(Debug, Clone, Copy, PartialEq, Eq, Structural)]
pub enum CryptoError {
    TooShort,
    IntegrityCheckFailed,
}

/// The message of an error.
pub open spec fn error_text(e: CryptoError) -> Seq<char> {
    match e {
        CryptoError::TooShort => "Ciphertext must contain nonce and tag"@,
        CryptoError::IntegrityCheckFailed => "Packet failed integrity check"@,
    }
}

impl CryptoError {
    /// The message of the error.
    pub fn message(&self) -> (res: String)
        ensures
            res@ == error_text(*self),
    {
        match self {
            CryptoError::TooShort => "Ciphertext must contain nonce and tag".to_owned(),
            CryptoError::IntegrityCheckFailed => "Packet failed integrity check".to_owned(),
        }
    }
}

/// The packet that a message becomes under a key: the wire form of the nonce, then the sealed text.
pub open spec fn packet(key: Seq<u8>, nonce: Seq<u8>, text: Seq<u8>) -> Seq<u8> {
    nonce.skip(4) + ocb_sealed(key, nonce, text)
}

/// The nonce that a packet starts with.
pub open spec fn packet_nonce(data: Seq<u8>) -> Seq<u8> {
    seq![0u8, 0u8, 0u8, 0u8] + data.take(8)
}

/// The ciphertext in a packet.
pub open spec fn packet_ciphertext(data: Seq<u8>) -> Seq<u8> {
    data.subrange(8, data.len() - ADDED_BYTES)
}

/// The tag at the end of a packet.
pub open spec fn packet_tag(data: Seq<u8>) -> Seq<u8> {
    data.skip(data.len() - ADDED_BYTES)
}

/// What opening a packet under a key gives: the one message that becomes the packet, and the only
/// one that becomes it up to the tag. A message that becomes it up to one block of ciphertext has
/// another tag. A packet is refused as too short if it has no room for a nonce and a tag, and for its
/// integrity if no message becomes it.
pub open spec fn opened(key: Seq<u8>, data: Seq<u8>, res: Result<Message, CryptoError>) -> bool {
    match res {
        Ok(msg) => {
            &&& msg.nonce@ == packet_nonce(data)
            &&& msg.text@.len() + 8 + ADDED_BYTES == data.len()
            &&& forall|t: Seq<u8>|
                t.len() + 8 + ADDED_BYTES == data.len() ==> {
                    let p = #[trigger] packet(key, packet_nonce(data), t);
                    &&& p == data <==> t == msg.text@
                    &&& p.len() == data.len() && packet_ciphertext(p) == packet_ciphertext(data)
                        ==> t == msg.text@
                    &&& p.len() == data.len() && differ_in_block(
                        packet_ciphertext(p),
                        packet_ciphertext(data),
                    ) ==> packet_tag(p) != packet_tag(data)
                }
        },
        Err(CryptoError::TooShort) => data.len() < 8 + ADDED_BYTES,
        Err(CryptoError::IntegrityCheckFailed) => {
            &&& data.len() >= 8 + ADDED_BYTES
            &&& forall|t: Seq<u8>|
                t.len() + 8 + ADDED_BYTES == data.len() ==> #[trigger] packet(
                    key,
                    packet_nonce(data),
                    t,
                ) != data
        },
    }
}

/// The blocks of 16 bytes that a text of `n` bytes takes.
pub open spec fn blocks(n: nat) -> nat {
    (n + 15) / 16
}

/// AES-128-OCB3 encryption session.
///
/// An encrypted packet is the 8-byte wire form of the nonce, followed by the ciphertext and the
/// 16-byte tag. The 12-byte nonce is four zero bytes, then the wire form.
pub struct Session {
    key: [u8; 16],
    blocks_encrypted: u64,
}

/// What a session holds: its key, and how many blocks were encrypted with it.
pub struct SessionView {
    pub key: Seq<u8>,
    pub blocks_encrypted: u64,
}

impl View for Session {
    type V = SessionView;

    closed spec fn view(&self) -> SessionView {
        SessionView { key: self.key@, blocks_encrypted: self.blocks_encrypted }
    }
}

impl Session {
    /// A new session with the given 16-byte key.
    pub fn new(key: [u8; 16]) -> (res: Self)
        ensures
            res@ == (SessionView { key: key@, blocks_encrypted: 0 }),
    {
        Session { key, blocks_encrypted: 0 }
    }

    /// Whether the key lasts for a number of blocks more.
    pub fn lasts(&self, blocks: u64) -> (res: bool)
        ensures
            res == (self@.blocks_encrypted + blocks < BLOCK_LIMIT),
    {
        self.blocks_encrypted < BLOCK_LIMIT && blocks < BLOCK_LIMIT - self.blocks_encrypted
    }

    /// Encrypts a message: the wire form of the nonce, then the ciphertext and the tag.
    ///
    /// A key is good for a limited number of blocks.
    pub fn encrypt(&mut self, msg: &Message) -> (res: Vec<u8>)
        requires
            msg.text@.len() <= max_text(),
            old(self)@.blocks_encrypted + blocks(msg.text@.len()) < BLOCK_LIMIT,
        ensures
            res@ == packet(old(self)@.key, msg.nonce@, msg.text@),
            res@.len() == 8 + msg.text@.len() + ADDED_BYTES,
            final(self)@ == (SessionView {
                blocks_encrypted: (old(self)@.blocks_encrypted + blocks(msg.text@.len())) as u64,
                ..old(self)@
            }),
    {
        let (ciphertext, tag) = ocb_seal(&self.key, msg.nonce.data(), msg.text.as_slice());
        self.blocks_encrypted = self.blocks_encrypted + (msg.text.len() as u64 + 15) / 16;
        let wire_nonce = msg.nonce.cc_str();
        let mut wire: Vec<u8> = Vec::new();
        wire.extend_from_slice(wire_nonce.as_slice());
        wire.extend_from_slice(ciphertext.as_slice());
        wire.extend_from_slice(tag.as_slice());
        assert(wire@ =~= packet(old(self)@.key, msg.nonce@, msg.text@));
        wire
    }

    /// Decrypts a packet.
    pub fn decrypt(&mut self, data: &[u8]) -> (res: Result<Message, CryptoError>)
        requires
            data@.len() <= 8 + max_text() + ADDED_BYTES,
        ensures
            *final(self) == *old(self),
            opened(old(self)@.key, data@, res),
    {
        if data.len() < 8 + ADDED_BYTES {
            return Err(CryptoError::TooShort);
        }
        let (head, body) = data.split_at(8);
        let (ciphertext, tag) = body.split_at(body.len() - ADDED_BYTES);
        let nonce = Nonce::from_bytes(head);
        proof {
            assert(head@ =~= data@.take(8));
            assert(nonce@.skip(4) =~= data@.take(8));
            assert(body@ =~= ciphertext@ + tag@);
            assert forall|t: Seq<u8>|
                #![trigger packet(self@.key, nonce@, t)]
                #![trigger ocb_sealed(self@.key, nonce@, t)]
                packet(self@.key, nonce@, t) == data@ <==> ocb_sealed(self@.key, nonce@, t)
                    == body@ by {
                let p = packet(self@.key, nonce@, t);
                if p == data@ {
                    assert(ocb_sealed(self@.key, nonce@, t) =~= p.skip(8));
                    assert(body@ =~= data@.skip(8));
                }
                if ocb_sealed(self@.key, nonce@, t) == body@ {
                    assert(p =~= data@);
                }
            }
            assert(packet_ciphertext(data@) =~= ciphertext@);
            assert(packet_tag(data@) =~= tag@);
            assert forall|t: Seq<u8>|
                #![trigger packet(self@.key, nonce@, t)]
                packet(self@.key, nonce@, t).len() == data@.len() implies packet_ciphertext(
                packet(self@.key, nonce@, t),
            ) == ocb_sealed(self@.key, nonce@, t).take(ciphertext@.len() as int) && packet_tag(
                packet(self@.key, nonce@, t),
            ) == ocb_sealed(self@.key, nonce@, t).skip(ciphertext@.len() as int) by {
                let p = packet(self@.key, nonce@, t);
                let sealed = ocb_sealed(self@.key, nonce@, t);
                assert(packet_ciphertext(p) =~= sealed.take(ciphertext@.len() as int));
                assert(packet_tag(p) =~= sealed.skip(ciphertext@.len() as int));
            }
        }
        match ocb_open(&self.key, nonce.data(), ciphertext, tag) {
            Some(text) => Ok(Message::new(nonce, text)),
            None => Err(CryptoError::IntegrityCheckFailed),
        }
    }
}

/// A packet made from a nonce value starts with that nonce.
pub proof fn packet_carries_nonce(key: Seq<u8>, val: u64, text: Seq<u8>)
    ensures
        packet_nonce(packet(key, nonce::nonce_bytes(val), text)) == nonce::nonce_bytes(val),
{
    nonce::nonce_roundtrip(val);
    let n = nonce::nonce_bytes(val);
    assert(packet(key, n, text).take(8) =~= n.skip(4));
    assert(packet_nonce(packet(key, n, text)) =~= n);
}

/// Opening the packet that a message became gives the message back.
pub proof fn decrypt_undoes_encrypt(
    key: Seq<u8>,
    val: u64,
    text: Seq<u8>,
    data: Seq<u8>,
    res: Result<Message, CryptoError>,
)
    requires
        data == packet(key, nonce::nonce_bytes(val), text),
        data.len() == 8 + text.len() + ADDED_BYTES,
        opened(key, data, res),
    ensures
        res matches Ok(msg) && msg.nonce@ == nonce::nonce_bytes(val) && msg.text@ == text,
{
    packet_carries_nonce(key, val, text);
    assert(packet(key, packet_nonce(data), text) == data);
}

/// A packet whose tag was changed is refused.
pub proof fn changed_tags_are_refused(
    key: Seq<u8>,
    val: u64,
    text: Seq<u8>,
    sent: Seq<u8>,
    data: Seq<u8>,
    res: Result<Message, CryptoError>,
)
    requires
        sent == packet(key, nonce::nonce_bytes(val), text),
        sent.len() == 8 + text.len() + ADDED_BYTES,
        data.len() == sent.len(),
        data.take(8) == sent.take(8),
        packet_ciphertext(data) == packet_ciphertext(sent),
        packet_tag(data) != packet_tag(sent),
        opened(key, data, res),
    ensures
        res == Err::<Message, CryptoError>(CryptoError::IntegrityCheckFailed),
{
    packet_carries_nonce(key, val, text);
    assert(packet(key, packet_nonce(data), text) == sent);
}

/// A packet whose ciphertext was changed in one block is refused.
pub proof fn changed_blocks_are_refused(
    key: Seq<u8>,
    val: u64,
    text: Seq<u8>,
    sent: Seq<u8>,
    data: Seq<u8>,
    res: Result<Message, CryptoError>,
)
    requires
        sent == packet(key, nonce::nonce_bytes(val), text),
        sent.len() == 8 + text.len() + ADDED_BYTES,
        data.len() == sent.len(),
        data.take(8) == sent.take(8),
        differ_in_block(packet_ciphertext(sent), packet_ciphertext(data)),
        packet_tag(data) == packet_tag(sent),
        opened(key, data, res),
    ensures
        res == Err::<Message, CryptoError>(CryptoError::IntegrityCheckFailed),
{
    packet_carries_nonce(key, val, text);
    assert(packet(key, packet_nonce(data), text) == sent);
}

/// A packet of which one byte after the nonce was changed, in whichever bits, is refused.
pub proof fn changed_bytes_are_refused(
    key: Seq<u8>,
    val: u64,
    text: Seq<u8>,
    sent: Seq<u8>,
    i: int,
    byte: u8,
    res: Result<Message, CryptoError>,
)
    requires
        sent == packet(key, nonce::nonce_bytes(val), text),
        sent.len() == 8 + text.len() + ADDED_BYTES,
        8 <= i < sent.len(),
        byte != sent[i],
        opened(key, sent.update(i, byte), res),
    ensures
        res == Err::<Message, CryptoError>(CryptoError::IntegrityCheckFailed),
{
    let data = sent.update(i, byte);
    let n = sent.len() - ADDED_BYTES;
    assert(data.take(8) =~= sent.take(8));
    if i < n {
        let a = packet_ciphertext(sent);
        let b = packet_ciphertext(data);
        assert(packet_tag(data) =~= packet_tag(sent));
        assert(a[i - 8] == sent[i] && b[i - 8] == byte);
        assert(same_outside(a, b, (i - 8) / 16));
        changed_blocks_are_refused(key, val, text, sent, data, res);
    } else {
        assert(packet_ciphertext(data) =~= packet_ciphertext(sent));
        assert(packet_tag(sent)[i - n] == sent[i] && packet_tag(data)[i - n] == byte);
        changed_tags_are_refused(key, val, text, sent, data, res);
    }
}

/// A packet is the last eight bytes of the nonce and what the cipher makes of the text; reading it
/// takes the nonce from its front and the tag from its last sixteen bytes.
pub proof fn packet_layout(key: Seq<u8>, wire: Seq<u8>, text: Seq<u8>)
    requires
        wire.len() == 8,
        ocb_sealed(key, seq![0u8, 0u8, 0u8, 0u8] + wire, text).len() == text.len() + 16,
    ensures
        ({
            let sealed = ocb_sealed(key, seq![0u8, 0u8, 0u8, 0u8] + wire, text);
            let p = packet(key, seq![0u8, 0u8, 0u8, 0u8] + wire, text);
            &&& p == wire + sealed
            &&& p.len() == text.len() + 24
            &&& packet_nonce(p) == seq![0u8, 0u8, 0u8, 0u8] + wire
            &&& packet_ciphertext(p) == sealed.take(text.len() as int)
            &&& packet_tag(p) == sealed.skip(text.len() as int)
        }),
{
    let nonce = seq![0u8, 0u8, 0u8, 0u8] + wire;
    let sealed = ocb_sealed(key, nonce, text);
    let p = packet(key, nonce, text);
    assert(nonce.skip(4) =~= wire);
    assert(p.take(8) =~= wire);
    assert(packet_ciphertext(p) =~= sealed.take(text.len() as int));
    assert(packet_tag(p) =~= sealed.skip(text.len() as int));
}

/// A text takes as many blocks of sixteen bytes as it begins, and a key lasts for fewer than two to
/// the forty-seventh of them.
pub proof fn blocks_are_counted(n: nat)
    ensures
        16 * blocks(n) >= n,
        n > 0 ==> 16 * (blocks(n) - 1) < n,
        blocks(0) == 0,
        BLOCK_LIMIT == 140_737_488_355_328,
{
}

/// What is said of a packet that cannot be opened.
pub proof fn failures_are_told(e: CryptoError)
    ensures
        e is TooShort ==> error_text(e) == "Ciphertext must contain nonce and tag"@,
        e is IntegrityCheckFailed ==> error_text(e) == "Packet failed integrity check"@,
{
}

} // verus!
