//! Instructions cut into fragments that fit in a packet, and put together again.

use crate::bytes;
use crate::bytes::push_be;
use crate::bytes::read_be;
use crate::network::constants::CHAFF_MAX;
use crate::network::constants::FRAG_HEADER_LEN;
use crate::proto::fault;
use crate::proto::fault::find_fault;
use crate::proto::transport;
use crate::proto::transport::copy_range;
use crate::proto::transport::Instruction as TransportInstruction;
use crate::proto::transport::InstructionView;
use crate::text;
use crate::text::push_decimal;
use flate2::read::ZlibDecoder;
use flate2::write::ZlibEncoder;
use flate2::Compression;
use std::collections::HashMap;
use std::io::Read;
use std::io::Write;
use vstd::prelude::*;

verus! {

broadcast use vstd::std_specs::hash::group_hash_axioms;

/// A single fragment of a larger instruction.
#[derive(Debug, PartialEq, Eq)]
pub struct Fragment {
    pub id: u64,
    pub final_flag: bool,
    pub fragment_num: u16,
    pub payload: Vec<u8>,
}

/// What a fragment holds.
#[verifier::ext_equal]
pub struct FragmentView {
    pub id: u64,
    pub final_flag: bool,
    pub fragment_num: u16,
    pub payload: Seq<u8>,
}

impl View for Fragment {
    type V = FragmentView;

    open spec fn view(&self) -> FragmentView {
        FragmentView {
            id: self.id,
            final_flag: self.final_flag,
            fragment_num: self.fragment_num,
            payload: self.payload@,
        }
    }
}

impl FragmentView {
    /// The flag and the number in one: the top bit says that this is the last fragment, the others
    /// are the low 15 bits of the number.
    pub open spec fn combined(self) -> nat {
        (if self.final_flag {
            0x8000nat
        } else {
            0nat
        }) + self.fragment_num as nat % 0x8000
    }

    /// The fragment on the wire: id, flag and number, then the payload.
    pub open spec fn bytes(self) -> Seq<u8> {
        bytes::be_bytes(self.id as nat, 8) + bytes::be_bytes(self.combined(), 2) + self.payload
    }
}

impl FragmentView {
    /// The length of a fragment on the wire.
    pub proof fn bytes_len(self)
        ensures
            self.bytes().len() == FRAG_HEADER_LEN + self.payload.len(),
    {
        bytes::be_bytes_len(self.id as nat, 8);
        bytes::be_bytes_len(self.combined(), 2);
    }
}

/// The fragment that bytes denote.
pub open spec fn fragment_of(data: Seq<u8>) -> FragmentView {
    let combined = bytes::be_value(data.subrange(8, 10));
    FragmentView {
        id: bytes::be_value(data.take(8)) as u64,
        final_flag: combined >= 0x8000,
        fragment_num: (combined % 0x8000) as u16,
        payload: data.skip(10),
    }
}

/// Reading a fragment that was written gives it back, if its number fits in 15 bits.
pub proof fn fragment_roundtrip(f: FragmentView)
    requires
        f.fragment_num < 0x8000,
    ensures
        f.bytes().len() == FRAG_HEADER_LEN + f.payload.len(),
        fragment_of(f.bytes()) == f,
{
    bytes::pow256_values();
    bytes::be_value_of_bytes(f.id as nat, 8);
    bytes::be_value_of_bytes(f.combined(), 2);
    let data = f.bytes();
    assert(data.take(8) =~= bytes::be_bytes(f.id as nat, 8));
    assert(data.subrange(8, 10) =~= bytes::be_bytes(f.combined(), 2));
    assert(data.skip(10) =~= f.payload);
}

impl Clone for Fragment {
    fn clone(&self) -> (res: Self)
        ensures
            res@ == self@,
    {
        Fragment {
            id: self.id,
            final_flag: self.final_flag,
            fragment_num: self.fragment_num,
            payload: copy_range(self.payload.as_slice(), 0, self.payload.len()),
        }
    }
}

impl Fragment {
    /// Serializes this fragment to bytes for transmission.
    pub fn to_bytes(&self) -> (res: Vec<u8>)
        ensures
            res@ == self@.bytes(),
    {
        let mut buf: Vec<u8> = Vec::new();
        push_be(&mut buf, self.id, 8);
        let flag: u64 = if self.final_flag {
            0x8000
        } else {
            0
        };
        push_be(&mut buf, flag + self.fragment_num as u64 % 0x8000, 2);
        buf.extend_from_slice(self.payload.as_slice());
        assert(buf@ =~= self@.bytes());
        buf
    }

    /// Parses a fragment from raw bytes.
    pub fn from_bytes(data: &[u8]) -> (res: Result<Self, String>)
        ensures
            match res {
                Ok(f) => data@.len() >= FRAG_HEADER_LEN && f@ == fragment_of(data@),
                Err(e) => data@.len() < FRAG_HEADER_LEN && e@ == "Fragment too short"@,
            },
    {
        if data.len() < FRAG_HEADER_LEN {
            return Err("Fragment too short".to_owned());
        }
        let id: u64 = read_be(data, 0, 8);
        let combined: u64 = read_be(data, 8, 2);
        proof {
            assert(data@.subrange(0, 8) =~= data@.take(8));
            assert(data@.subrange(10, data@.len() as int) =~= data@.skip(10));
            bytes::be_bytes_of_value(data@.take(8));
            bytes::be_bytes_of_value(data@.subrange(8, 10));
            bytes::pow256_values();
        }
        let payload = copy_range(data, 10, data.len());
        Ok(
            Fragment {
                id,
                final_flag: combined >= 0x8000,
                fragment_num: (combined % 0x8000) as u16,
                payload,
            },
        )
    }
}

/// What zlib makes of bytes at the fastest level, or the message of the encoder's error, and whether it
/// came when the stream was finished.
pub uninterp spec fn zlib_compressed(data: Seq<u8>) -> Result<Seq<u8>, (bool, Seq<char>)>;

/// What the zlib stream at the front of bytes holds, or the message of the error in it.
pub uninterp spec fn zlib_expanded(data: Seq<u8>) -> Result<Seq<u8>, Seq<char>>;

/// `flate2::write::ZlibEncoder` over a vector, at the fastest level: a zlib stream, which starts
/// with the byte that says so and from which the decoder gets the bytes back; or the message of the
/// encoder's error, and whether it came when the stream was finished. On which bytes it fails, if on
/// any, is not said.
#[verifier::external_body]
fn zlib_compress(data: &[u8]) -> (res: Result<Vec<u8>, (bool, String)>)
    ensures
        match res {
            Ok(c) => {
                &&& zlib_compressed(data@) == Ok::<Seq<u8>, (bool, Seq<char>)>(c@)
                &&& c@.len() > 0
                &&& c@[0] == 0x78
                &&& zlib_expanded(c@) == Ok::<Seq<u8>, Seq<char>>(data@)
            },
            Err(e) => zlib_compressed(data@) == Err::<Seq<u8>, (bool, Seq<char>)>((e.0, e.1@)),
        },
{
    let mut encoder = ZlibEncoder::new(Vec::new(), Compression::fast());
    encoder.write_all(data).map_err(|e| (false, e.to_string()))?;
    encoder.finish().map_err(|e| (true, e.to_string()))
}

/// The compressed form of bytes, or the message of the encoder's error.
pub open spec fn compressed(data: Seq<u8>) -> Result<Seq<u8>, Seq<char>> {
    match zlib_compressed(data) {
        Ok(c) => Ok(c),
        Err((false, e)) => Err("Compression error: "@ + e),
        Err((true, e)) => Err("Compression finish error: "@ + e),
    }
}

/// Compresses bytes.
fn compress(data: &[u8]) -> (res: Result<Vec<u8>, String>)
    ensures
        match res {
            Ok(c) => {
                &&& compressed(data@) == Ok::<Seq<u8>, Seq<char>>(c@)
                &&& c@.len() > 0
                &&& c@[0] == 0x78
                &&& zlib_expanded(c@) == Ok::<Seq<u8>, Seq<char>>(data@)
            },
            Err(e) => compressed(data@) == Err::<Seq<u8>, Seq<char>>(e@),
        },
{
    match zlib_compress(data) {
        Ok(c) => Ok(c),
        Err((finishing, e)) => {
            let mut text = if finishing {
                "Compression finish error: ".to_owned()
            } else {
                "Compression error: ".to_owned()
            };
            text.push_str(e.as_str());
            Err(text)
        },
    }
}

/// `flate2::read::ZlibDecoder` and `read_to_end`: what the zlib stream at the front of the bytes
/// holds, or the message of the error in it.
#[verifier::external_body]
fn zlib_expand(data: &[u8]) -> (res: Result<Vec<u8>, String>)
    ensures
        match res {
            Ok(v) => zlib_expanded(data@) == Ok::<Seq<u8>, Seq<char>>(v@),
            Err(e) => zlib_expanded(data@) == Err::<Seq<u8>, Seq<char>>(e@),
        },
{
    let mut output = Vec::new();
    match ZlibDecoder::new(data).read_to_end(&mut output) {
        Ok(_) => Ok(output),
        Err(e) => Err(e.to_string()),
    }
}

/// The header before a compressed instruction: the low 16 bits of its state number, then flags. The
/// top flag says that more than one fragment is needed.
pub open spec fn stock_header(new_num: u64, no_complete: bool) -> Seq<u8> {
    bytes::be_bytes(new_num as nat % 0x1_0000, 2) + if no_complete {
        seq![0x80u8, 0u8]
    } else {
        seq![0u8, 0u8]
    }
}

/// How many bytes of header come before the zlib stream: four if the stream starts there, or if they
/// look like the header of a small state number in several fragments; none otherwise.
pub open spec fn header_len(data: Seq<u8>) -> int {
    if data.len() >= 5 && data[4] == 0x78 {
        4
    } else if data.len() >= 4 && data[2] == 0x80 && data[3] == 0 && bytes::be_value(data.take(2))
        < 1024 {
        4
    } else {
        0
    }
}

/// The message of an error in the zlib stream after the header.
pub open spec fn zlib_error_text(data: Seq<u8>, e: Seq<char>) -> Seq<char> {
    "Zlib decompression error: "@ + e + " (data_len="@ + text::decimal(data.len())
        + ", header_skip="@ + text::decimal(header_len(data) as nat) + ")"@
}

/// The bytes that a payload was compressed from, or the message of the error in it.
pub open spec fn payload_expanded(data: Seq<u8>) -> Result<Seq<u8>, Seq<char>> {
    match zlib_expanded(data.skip(header_len(data))) {
        Ok(v) => Ok(v),
        Err(e) => Err(zlib_error_text(data, e)),
    }
}

/// Adds the header before a compressed instruction.
fn add_stock_mosh_header(payload: &Vec<u8>, new_num: u64, no_complete: bool) -> (res: Vec<u8>)
    ensures
        res@ == stock_header(new_num, no_complete) + payload@,
{
    let mut out: Vec<u8> = Vec::new();
    push_be(&mut out, new_num % 0x1_0000, 2);
    out.push(
        if no_complete {
            0x80
        } else {
            0
        },
    );
    out.push(0);
    out.extend_from_slice(payload.as_slice());
    assert(out@ =~= stock_header(new_num, no_complete) + payload@);
    out
}

/// Decompresses a payload, with or without a header.
pub fn decompress(data: &[u8]) -> (res: Result<Vec<u8>, String>)
    ensures
        match res {
            Ok(v) => payload_expanded(data@) == Ok::<Seq<u8>, Seq<char>>(v@),
            Err(e) => payload_expanded(data@) == Err::<Seq<u8>, Seq<char>>(e@),
        },
{
    let zlib_start: usize = if data.len() >= 5 && data[4] == 0x78 {
        4
    } else if data.len() >= 4 {
        assert(data@.subrange(0, 2) =~= data@.take(2));
        if data[2] == 0x80 && data[3] == 0 && read_be(data, 0, 2) < 1024 {
            4
        } else {
            0
        }
    } else {
        0
    };
    let compressed = vstd::slice::slice_subrange(data, zlib_start, data.len());
    assert(compressed@ =~= data@.skip(header_len(data@)));
    match zlib_expand(compressed) {
        Ok(v) => Ok(v),
        Err(e) => {
            let mut msg = String::new();
            msg.push_str("Zlib decompression error: ");
            msg.push_str(e.as_str());
            msg.push_str(" (data_len=");
            push_decimal(&mut msg, data.len() as u64);
            msg.push_str(", header_skip=");
            push_decimal(&mut msg, zlib_start as u64);
            msg.push_str(")");
            assert(msg@ =~= zlib_error_text(data@, e@));
            Err(msg)
        },
    }
}

/// The number of pieces of at most `max` bytes that `len` bytes need.
pub open spec fn piece_count(len: nat, max: nat) -> nat {
    if len == 0 {
        0
    } else {
        ((len - 1) / max as int + 1) as nat
    }
}

/// Piece `i` of at most `max` bytes.
pub open spec fn piece(payload: Seq<u8>, max: nat, i: int) -> Seq<u8> {
    let end = (i + 1) * max;
    payload.subrange(
        i * max,
        if end <= payload.len() {
            end
        } else {
            payload.len() as int
        },
    )
}

/// Fragment `i` of a payload cut into pieces of at most `max` bytes.
pub open spec fn fragment_at(id: u64, payload: Seq<u8>, max: nat, i: int) -> FragmentView {
    FragmentView {
        id,
        final_flag: i == piece_count(payload.len(), max) - 1,
        fragment_num: (i % 0x1_0000) as u16,
        payload: piece(payload, max, i),
    }
}

/// A payload cut into fragments.
pub open spec fn cut(id: u64, payload: Seq<u8>, max: nat) -> Seq<FragmentView> {
    Seq::new(piece_count(payload.len(), max), |i: int| fragment_at(id, payload, max, i))
}

/// The payload for a compressed instruction, where a fragment has room for `max` bytes.
pub open spec fn payload_of(compressed: Seq<u8>, new_num: u64, max: nat) -> Seq<u8> {
    stock_header(new_num, 4 + compressed.len() > max) + compressed
}

/// The fragments of a compressed instruction: one if it fits, else as many as needed.
pub open spec fn fragments_of(id: u64, compressed: Seq<u8>, new_num: u64, max: nat) -> Seq<
    FragmentView,
> {
    cut(id, payload_of(compressed, new_num, max), max)
}

/// What fragments hold.
pub open spec fn fragments_view(frags: Seq<Fragment>) -> Seq<FragmentView> {
    Seq::new(frags.len(), |i: int| frags[i]@)
}

/// The state number of an instruction; zero if it has none.
pub open spec fn state_of(inst: InstructionView) -> u64 {
    match inst.new_num {
        Some(n) => n,
        None => 0,
    }
}

/// Piece `i` lies within the payload, and the pieces before it cover what is before it.
pub proof fn piece_range(len: nat, max: nat, i: int)
    requires
        max > 0,
        0 <= i < piece_count(len, max),
    ensures
        0 <= i * max < len,
        i + 1 < piece_count(len, max) <==> (i + 1) * max < len,
{
    assert(i * max <= (len - 1) / max as int * max) by (nonlinear_arith)
        requires
            0 <= i <= (len - 1) / max as int,
            max > 0,
    ;
    assert((len - 1) / max as int * max <= len - 1) by (nonlinear_arith)
        requires
            max > 0,
            len > 0,
    ;
    assert(i * max >= 0) by (nonlinear_arith)
        requires
            i >= 0,
            max > 0,
    ;
    if i + 1 <= (len - 1) / max as int {
        assert((i + 1) * max <= (len - 1) / max as int * max) by (nonlinear_arith)
            requires
                i + 1 <= (len - 1) / max as int,
                max > 0,
        ;
    } else {
        assert((i + 1) * max > len - 1) by (nonlinear_arith)
            requires
                i + 1 > (len - 1) / max as int,
                max > 0,
                len > 0,
        ;
    }
}

/// A payload that fits is one piece.
pub proof fn single_piece(id: u64, payload: Seq<u8>, max: nat)
    requires
        0 < payload.len() <= max,
    ensures
        cut(id, payload, max) == seq![
            FragmentView { id, final_flag: true, fragment_num: 0, payload },
        ],
{
    assert((payload.len() - 1) / max as int == 0) by (nonlinear_arith)
        requires
            0 < payload.len() <= max,
    ;
    assert(piece_count(payload.len(), max) == 1);
    assert(piece(payload, max, 0) =~= payload);
    assert(cut(id, payload, max) =~= seq![
        FragmentView { id, final_flag: true, fragment_num: 0, payload },
    ]);
}

/// Cuts a compressed instruction into fragments with room for `max_payload` bytes each.
pub fn fragment_compressed(id: u64, compressed: &Vec<u8>, new_num: u64, max_payload: usize) -> (res:
    Vec<Fragment>)
    requires
        max_payload > 0,
    ensures
        fragments_view(res@) == fragments_of(id, compressed@, new_num, max_payload as nat),
{
    let ghost max = max_payload as nat;
    let mut fragments: Vec<Fragment> = Vec::new();
    if max_payload >= 4 && compressed.len() <= max_payload - 4 {
        let payload = add_stock_mosh_header(compressed, new_num, false);
        proof {
            bytes::be_bytes_len(new_num as nat % 0x1_0000, 2);
            single_piece(id, payload@, max);
        }
        fragments.push(Fragment { id, final_flag: true, fragment_num: 0, payload });
        assert(fragments_view(fragments@) =~= fragments_of(id, compressed@, new_num, max));
        return fragments;
    }
    let payload = add_stock_mosh_header(compressed, new_num, true);
    let n: usize = payload.len();
    let ghost all = payload@;
    proof {
        bytes::be_bytes_len(new_num as nat % 0x1_0000, 2);
    }
    let mut start: usize = 0;
    let mut i: usize = 0;
    let last: usize = (n - 1) / max_payload;
    while start < n
        invariant
            max == max_payload,
            max > 0,
            n == payload@.len(),
            n > 0,
            all == payload@,
            i <= n,
            last == (n - 1) / max as int,
            piece_count(n as nat, max) == last + 1,
            i <= last + 1,
            start < n ==> start == i * max && i <= last,
            start >= n ==> i == last + 1,
            fragments@.len() == i,
            forall|k: int|
                0 <= k < i ==> (#[trigger] fragments@[k])@ == fragment_at(id, all, max, k),
        decreases n - start,
    {
        let end: usize = if n - start > max_payload {
            start + max_payload
        } else {
            n
        };
        proof {
            piece_range(n as nat, max, i as int);
            assert((i + 1) * max == i * max + max) by (nonlinear_arith);
        }
        let chunk = copy_range(payload.as_slice(), start, end);
        fragments.push(
            Fragment {
                id,
                final_flag: i == last,
                fragment_num: (i % 0x1_0000) as u16,
                payload: chunk,
            },
        );
        assert(fragments@[i as int]@ =~= fragment_at(id, all, max, i as int));
        start = end;
        i = i + 1;
    }
    assert(fragments_view(fragments@) =~= fragments_of(id, compressed@, new_num, max));
    fragments
}

/// Compresses an instruction and splits it into fragments that fit in a packet.
pub struct Fragmenter {
    next_id: u64,
}

impl View for Fragmenter {
    type V = u64;

    closed spec fn view(&self) -> u64 {
        self.next_id
    }
}

impl Default for Fragmenter {
    fn default() -> (res: Self)
        ensures
            res@ == 1,
    {
        Self::new()
    }
}

/// What the encoder makes of an instruction.
pub open spec fn compression(inst: InstructionView) -> Result<Seq<u8>, Seq<char>> {
    compressed(transport::instruction_bytes(inst))
}

/// The compressed bytes of an instruction.
pub open spec fn compressed_bytes(inst: InstructionView) -> Seq<u8> {
    compression(inst)->Ok_0
}

/// Whether fragments are those of an instruction under an id.
pub open spec fn fragments_carry(
    frags: Seq<FragmentView>,
    id: u64,
    inst: InstructionView,
    max: nat,
) -> bool {
    let compressed = compressed_bytes(inst);
    &&& compression(inst) is Ok
    &&& frags == fragments_of(id, compressed, state_of(inst), max)
    &&& compressed.len() > 0
    &&& compressed[0] == 0x78
    &&& zlib_expanded(compressed) == Ok::<Seq<u8>, Seq<char>>(transport::instruction_bytes(inst))
}

impl Fragmenter {
    /// A fragmenter whose first instruction has the id one.
    pub fn new() -> (res: Self)
        ensures
            res@ == 1,
    {
        Fragmenter { next_id: 1 }
    }

    /// Compresses and fragments an instruction under the next id.
    ///
    /// `max_payload` is the room for payload in a fragment.
    pub fn make_fragments(&mut self, inst: &TransportInstruction, max_payload: usize) -> (res:
        Result<Vec<Fragment>, String>)
        requires
            max_payload > 0,
        ensures
            match res {
                Ok(frags) => {
                    &&& fragments_carry(
                        fragments_view(frags@),
                        old(self)@,
                        inst@,
                        max_payload as nat,
                    )
                    &&& final(self)@ == if old(self)@ < u64::MAX {
                        (old(self)@ + 1) as u64
                    } else {
                        0
                    }
                },
                Err(e) => {
                    &&& compression(inst@) == Err::<Seq<u8>, Seq<char>>(e@)
                    &&& final(self)@ == old(self)@
                },
            },
    {
        let id: u64 = self.next_id;
        match self.make_fragments_with_id(inst, max_payload, id) {
            Ok(frags) => {
                self.next_id = self.next_id.wrapping_add(1);
                Ok(frags)
            },
            Err(e) => Err(e),
        }
    }

    /// Compresses and fragments an instruction under a given id.
    ///
    /// The same id for the same instruction lets the receiver recognize what was sent again.
    pub fn make_fragments_with_id(
        &mut self,
        inst: &TransportInstruction,
        max_payload: usize,
        id: u64,
    ) -> (res: Result<Vec<Fragment>, String>)
        requires
            max_payload > 0,
        ensures
            final(self)@ == old(self)@,
            match res {
                Ok(frags) => fragments_carry(
                    fragments_view(frags@),
                    id,
                    inst@,
                    max_payload as nat,
                ),
                Err(e) => compression(inst@) == Err::<Seq<u8>, Seq<char>>(e@),
            },
    {
        let new_num: u64 = match inst.new_num {
            Some(n) => n,
            None => 0,
        };
        let inst_bytes = inst.encode();
        match compress(inst_bytes.as_slice()) {
            Ok(compressed) => {
                Ok(fragment_compressed(id, &compressed, new_num, max_payload))
            },
            Err(e) => Err(e),
        }
    }
}

/// Fills the chaff field of an instruction: as many bytes as the remainder of `prng_byte` says, each
/// following from it.
pub open spec fn chaffed(inst: InstructionView, prng_byte: u8) -> InstructionView {
    let n = prng_byte as nat % (CHAFF_MAX as nat + 1);
    if n > 0 {
        InstructionView {
            chaff: Some(
                Seq::new(n, |i: int| ((prng_byte + i) % 256 * 0x9E % 256) as u8),
            ),
            ..inst
        }
    } else {
        inst
    }
}

/// Adds chaff bytes to an instruction, so that its length says less about its content.
pub fn add_chaff(inst: &mut TransportInstruction, prng_byte: u8)
    ensures
        final(inst)@ == chaffed(old(inst)@, prng_byte),
{
    let chaff_len: usize = prng_byte as usize % (CHAFF_MAX + 1);
    if chaff_len > 0 {
        let mut chaff: Vec<u8> = Vec::new();
        let mut i: usize = 0;
        while i < chaff_len
            invariant
                i <= chaff_len <= CHAFF_MAX,
                chaff@.len() == i,
                forall|k: int|
                    0 <= k < i ==> chaff@[k] == ((prng_byte + k) % 256 * 0x9E % 256) as u8,
            decreases chaff_len - i,
        {
            let byte: u32 = (prng_byte as u32 + i as u32) % 256 * 0x9E % 256;
            chaff.push(byte as u8);
            i = i + 1;
        }
        assert(chaff@ =~= Seq::new(
            chaff_len as nat,
            |i: int| ((prng_byte + i) % 256 * 0x9E % 256) as u8,
        ));
        inst.chaff = Some(chaff);
    }
    assert(inst@ =~= chaffed(old(inst)@, prng_byte));
}

/// What an assembly holds: the payloads that arrived, by id and number, and the number of the last
/// fragment where that is known.
#[verifier::ext_equal]
pub struct AssemblyView {
    pub pending: Map<u64, Map<u16, Seq<u8>>>,
    pub finals: Map<u64, u16>,
}

/// The first `n` payloads joined.
pub open spec fn joined(parts: Map<u16, Seq<u8>>, n: int) -> Seq<u8>
    decreases n,
{
    if n <= 0 {
        seq![]
    } else {
        joined(parts, n - 1) + parts[(n - 1) as u16]
    }
}

/// Whether the payloads with numbers up to `last` are all there.
pub open spec fn gapless(parts: Map<u16, Seq<u8>>, last: u16) -> bool {
    forall|i: u16| i <= last ==> #[trigger] parts.contains_key(i)
}

/// The message for bytes that are no instruction: it names the first fault in them.
pub open spec fn decode_error_text(bytes: Seq<u8>) -> Seq<char> {
    "Protobuf decode error: failed to decode Protobuf message: "@ + fault::instruction_fault(bytes)->0
}

/// The instruction that a complete payload carries, or the message of the error in it.
pub open spec fn instruction_in(data: Seq<u8>) -> Result<InstructionView, Seq<char>> {
    match payload_expanded(data) {
        Err(e) => Err(e),
        Ok(bytes) => match transport::instruction_of(bytes) {
            Some(inst) => Ok(inst),
            None => Err(decode_error_text(bytes)),
        },
    }
}

/// The message for bytes that are no instruction.
fn explain_refusal(bytes: &[u8]) -> (res: String)
    requires
        transport::instruction_of(bytes@) is None,
    ensures
        res@ == decode_error_text(bytes@),
{
    let mut out = String::new();
    out.push_str("Protobuf decode error: failed to decode Protobuf message: ");
    proof {
        fault::fault_iff_refused(bytes@);
    }
    if let Some(found) = find_fault(bytes) {
        out.push_str(found.as_str());
    }
    assert(out@ =~= decode_error_text(bytes@));
    out
}

impl AssemblyView {
    /// The payloads with the id of a fragment, that of the fragment added.
    pub open spec fn parts_with(self, f: FragmentView) -> Map<u16, Seq<u8>> {
        (if self.pending.contains_key(f.id) {
            self.pending[f.id]
        } else {
            Map::empty()
        }).insert(f.fragment_num, f.payload)
    }

    /// The known numbers of last fragments, a fragment added.
    pub open spec fn finals_with(self, f: FragmentView) -> Map<u64, u16> {
        if f.final_flag {
            self.finals.insert(f.id, f.fragment_num)
        } else {
            self.finals
        }
    }

    /// Whether a fragment brings the number of payloads to what is needed.
    pub open spec fn counts_up(self, f: FragmentView) -> bool {
        let finals = self.finals_with(f);
        finals.contains_key(f.id) && self.parts_with(f).len() == finals[f.id] + 1
    }

    /// Whether a fragment completes its instruction.
    pub open spec fn completes(self, f: FragmentView) -> bool {
        self.counts_up(f) && gapless(self.parts_with(f), self.finals_with(f)[f.id])
    }

    /// The complete payload that a fragment brings about.
    pub open spec fn payload_with(self, f: FragmentView) -> Seq<u8> {
        joined(self.parts_with(f), self.finals_with(f)[f.id] + 1)
    }

    /// The assembly after a fragment arrived: what is complete is forgotten.
    pub open spec fn after(self, f: FragmentView) -> AssemblyView {
        if self.completes(f) {
            AssemblyView {
                pending: self.pending.remove(f.id),
                finals: self.finals_with(f).remove(f.id),
            }
        } else {
            AssemblyView {
                pending: self.pending.insert(f.id, self.parts_with(f)),
                finals: self.finals_with(f),
            }
        }
    }

    /// What the arrival of a fragment gives: nothing yet, the complete instruction, or the message of
    /// an error.
    pub open spec fn outcome(self, f: FragmentView) -> Result<Option<InstructionView>, Seq<char>> {
        if !self.counts_up(f) {
            Ok(None)
        } else if !self.completes(f) {
            Err("Missing fragment"@)
        } else {
            match instruction_in(self.payload_with(f)) {
                Ok(inst) => Ok(Some(inst)),
                Err(e) => Err(e),
            }
        }
    }

    /// Everything with an id below `min_id` is forgotten.
    pub open spec fn pruned(self, min_id: u64) -> AssemblyView {
        AssemblyView {
            pending: self.pending.restrict(Set::new(|id: u64| id >= min_id)),
            finals: self.finals.restrict(Set::new(|id: u64| id >= min_id)),
        }
    }
}

/// What the payloads under one id hold.
pub open spec fn parts_view(parts: HashMap<u16, Vec<u8>>) -> Map<u16, Seq<u8>> {
    Map::new(|k: u16| parts@.contains_key(k), |k: u16| parts@[k]@)
}

/// What the payloads under all ids hold.
pub open spec fn pending_view(pending: HashMap<u64, HashMap<u16, Vec<u8>>>) -> Map<
    u64,
    Map<u16, Seq<u8>>,
> {
    Map::new(|id: u64| pending@.contains_key(id), |id: u64| parts_view(pending@[id]))
}

/// Reassembles fragments into complete instructions.
pub struct FragmentAssembly {
    pending: HashMap<u64, HashMap<u16, Vec<u8>>>,
    final_flags: HashMap<u64, u16>,
}

impl View for FragmentAssembly {
    type V = AssemblyView;

    closed spec fn view(&self) -> AssemblyView {
        AssemblyView { pending: pending_view(self.pending), finals: self.final_flags@ }
    }
}

impl Default for FragmentAssembly {
    fn default() -> (res: Self)
        ensures
            res@ == (AssemblyView { pending: Map::empty(), finals: Map::empty() }),
    {
        Self::new()
    }
}

/// The number of payloads under an id.
proof fn parts_len(parts: HashMap<u16, Vec<u8>>)
    ensures
        parts_view(parts).dom() == parts@.dom(),
        parts_view(parts).len() == parts@.len(),
{
    assert(parts_view(parts).dom() =~= parts@.dom());
}

/// Joins the payloads with numbers up to `last`; `None` if one is missing.
fn join_parts(parts: &HashMap<u16, Vec<u8>>, last: u16) -> (res: Option<Vec<u8>>)
    ensures
        match res {
            Some(data) => gapless(parts_view(*parts), last) && data@ == joined(
                parts_view(*parts),
                last + 1,
            ),
            None => !gapless(parts_view(*parts), last),
        },
{
    let ghost view = parts_view(*parts);
    let mut data: Vec<u8> = Vec::new();
    let mut i: u32 = 0;
    assert(data@ =~= joined(view, 0));
    while i <= last as u32
        invariant
            i <= last + 1,
            view == parts_view(*parts),
            data@ == joined(view, i as int),
            forall|k: u16| k < i ==> #[trigger] view.contains_key(k),
        decreases last + 1 - i,
    {
        let k: u16 = i as u16;
        match parts.get(&k) {
            Some(p) => {
                assert(view[k] == p@);
                data.extend_from_slice(p.as_slice());
                assert(data@ =~= joined(view, i + 1));
            },
            None => {
                assert(!view.contains_key(k));
                return None;
            },
        }
        i = i + 1;
    }
    Some(data)
}

impl FragmentAssembly {
    /// An assembly that holds nothing.
    pub fn new() -> (res: Self)
        ensures
            res@ == (AssemblyView { pending: Map::empty(), finals: Map::empty() }),
    {
        let res = FragmentAssembly { pending: HashMap::new(), final_flags: HashMap::new() };
        assert(res@ =~= AssemblyView { pending: Map::empty(), finals: Map::empty() });
        res
    }

    /// Adds a fragment. Gives the complete instruction if all fragments have arrived.
    pub fn add_fragment(&mut self, frag: Fragment) -> (res: Result<
        Option<TransportInstruction>,
        String,
    >)
        ensures
            final(self)@ == old(self)@.after(frag@),
            match res {
                Ok(Some(inst)) => old(self)@.outcome(frag@) == Ok::<
                    Option<InstructionView>,
                    Seq<char>,
                >(Some(inst@)),
                Ok(None) => old(self)@.outcome(frag@) == Ok::<Option<InstructionView>, Seq<char>>(
                    None,
                ),
                Err(e) => old(self)@.outcome(frag@) == Err::<Option<InstructionView>, Seq<char>>(
                    e@,
                ),
            },
    {
        let ghost f = frag@;
        let ghost before = self@;
        let id: u64 = frag.id;
        if frag.final_flag {
            self.final_flags.insert(id, frag.fragment_num);
        }
        assert(self@.finals =~= before.finals_with(f));
        let mut entry: HashMap<u16, Vec<u8>> = match self.pending.remove(&id) {
            Some(e) => e,
            None => HashMap::new(),
        };
        assert(self@.pending =~= before.pending.remove(id));
        entry.insert(frag.fragment_num, frag.payload);
        let ghost parts = parts_view(entry);
        proof {
            assert(parts =~= before.parts_with(f));
            parts_len(entry);
        }
        let last: Option<u16> = match self.final_flags.get(&id) {
            Some(n) => Some(*n),
            None => None,
        };
        if let Some(last) = last {
            if entry.len() == last as usize + 1 {
                match join_parts(&entry, last) {
                    Some(data) => {
                        self.final_flags.remove(&id);
                        assert(self@ =~= before.after(f));
                        let bytes = match decompress(data.as_slice()) {
                            Ok(bytes) => bytes,
                            Err(e) => {
                                return Err(e);
                            },
                        };
                        return match TransportInstruction::decode(bytes.as_slice()) {
                            Ok(inst) => Ok(Some(inst)),
                            Err(_) => Err(explain_refusal(bytes.as_slice())),
                        };
                    },
                    None => {
                        self.pending.insert(id, entry);
                        assert(self@ =~= before.after(f));
                        return Err("Missing fragment".to_owned());
                    },
                }
            }
        }
        self.pending.insert(id, entry);
        assert(self@ =~= before.after(f));
        Ok(None)
    }

    /// Forgets what has an id below a threshold.
    pub fn prune(&mut self, min_id: u64)
        ensures
            final(self)@ == old(self)@.pruned(min_id),
    {
        keep_from(&mut self.pending, min_id);
        keep_from(&mut self.final_flags, min_id);
        assert(self@.pending =~= old(self)@.pruned(min_id).pending);
        assert(self@.finals =~= old(self)@.pruned(min_id).finals);
    }
}

/// Removes the entries with an id below a threshold.
fn keep_from<V>(map: &mut HashMap<u64, V>, min_id: u64)
    ensures
        final(map)@ == old(map)@.restrict(Set::new(|id: u64| id >= min_id)),
{
    let stale = stale_ids(map, min_id);
    let ghost start = map@;
    let mut i: usize = 0;
    while i < stale.len()
        invariant
            i <= stale@.len(),
            forall|k: u64| #[trigger]
                map@.contains_key(k) <==> start.contains_key(k) && !stale@.take(
                    i as int,
                ).contains(k),
            forall|k: u64| #[trigger] map@.contains_key(k) ==> map@[k] == start[k],
        decreases stale@.len() - i,
    {
        let ghost done = stale@.take(i as int);
        let ghost before = map@;
        map.remove(&stale[i]);
        proof {
            let next = stale@.take(i + 1);
            assert(next =~= done.push(stale@[i as int]));
            assert forall|k: u64| #[trigger] map@.contains_key(k) <==> start.contains_key(k)
                && !next.contains(k) by {
                assert(before.contains_key(k) <==> start.contains_key(k) && !done.contains(k));
                if done.contains(k) {
                    let j = choose|j: int| 0 <= j < done.len() && done[j] == k;
                    assert(next[j] == k);
                }
                if k == stale@[i as int] {
                    assert(next[i as int] == k);
                }
            }
            assert forall|k: u64| #[trigger] map@.contains_key(k) implies map@[k] == start[k] by {
                assert(before.contains_key(k));
            }
        }
        i = i + 1;
    }
    proof {
        assert(stale@.take(i as int) =~= stale@);
        let kept = start.restrict(Set::new(|id: u64| id >= min_id));
        assert forall|k: u64| map@.contains_key(k) <==> #[trigger] kept.contains_key(k) by {
            assert(stale@.contains(k) <==> start.contains_key(k) && k < min_id);
        }
        assert(map@ =~= kept);
    }
}

/// The ids below a threshold.
fn stale_ids<V>(map: &HashMap<u64, V>, min_id: u64) -> (res: Vec<u64>)
    ensures
        forall|k: u64| #[trigger]
            res@.contains(k) <==> map@.contains_key(k) && k < min_id,
{
    let mut res: Vec<u64> = Vec::new();
    let ghost mut seen: Seq<u64> = Seq::empty();
    for id in it: map.keys()
        invariant
            it.seq().unref().to_set() == map@.dom(),
            seen == it.seq().unref().take(it.index() as int),
            it.index() == it.seq().len() ==> seen == it.seq().unref(),
            it.index() == it.seq().len() ==> seen.to_set() == map@.dom(),
            forall|k: u64| #[trigger] res@.contains(k) <==> seen.contains(k) && k < min_id,
    {
        let ghost before = res@;
        let ghost seen_before = seen;
        if *id < min_id {
            res.push(*id);
        }
        proof {
            let n = it.index() as int;
            let keys = it.seq().unref();
            seen = seen.push(*id);
            assert(keys[n] == *id);
            assert(seen =~= keys.take(n + 1));
            assert(keys.take(keys.len() as int) =~= keys);
            assert forall|k: u64| #[trigger] res@.contains(k) <==> seen.contains(k) && k
                < min_id by {
                assert(before.contains(k) <==> seen_before.contains(k) && k < min_id);
                if seen_before.contains(k) {
                    let j = choose|j: int| 0 <= j < seen_before.len() && seen_before[j] == k;
                    assert(seen[j] == k);
                }
                if before.contains(k) {
                    let j = choose|j: int| 0 <= j < before.len() && before[j] == k;
                    assert(res@[j] == k);
                }
                if k == *id {
                    assert(seen[n] == k);
                    if k < min_id {
                        assert(res@[res@.len() - 1] == k);
                    }
                }
            }
        }
    }
    assert forall|k: u64| #[trigger] res@.contains(k) <==> map@.contains_key(k) && k < min_id by {
        assert(seen.to_set().contains(k) <==> seen.contains(k));
    }
    res
}

/// The numbers below `n`.
pub open spec fn numbers_below(n: nat) -> Set<u16> {
    Set::new(|k: u16| k < n)
}

/// There are `n` numbers below `n`, up to the number of fragments that can be told apart.
proof fn count_numbers_below(n: nat)
    requires
        n <= 0x1_0000,
    ensures
        numbers_below(n).finite(),
        numbers_below(n).len() == n,
    decreases n,
{
    if n == 0 {
        assert(numbers_below(0) =~= Set::<u16>::empty());
    } else {
        count_numbers_below((n - 1) as nat);
        assert(numbers_below(n) =~= numbers_below((n - 1) as nat).insert((n - 1) as u16));
    }
}

/// A set of numbers below `n` has `n` of them only if it has all.
proof fn all_numbers(have: Set<u16>, n: nat)
    requires
        n <= 0x1_0000,
        have.subset_of(numbers_below(n)),
    ensures
        have.finite(),
        have.len() == n <==> have == numbers_below(n),
{
    count_numbers_below(n);
    vstd::set_lib::lemma_len_subset(have, numbers_below(n));
    if have.len() == n {
        vstd::set_lib::lemma_subset_equality(have, numbers_below(n));
    }
}

/// Joining the first pieces of a payload gives the front of it.
proof fn joined_pieces(parts: Map<u16, Seq<u8>>, payload: Seq<u8>, max: nat, i: int)
    requires
        max > 0,
        0 <= i <= piece_count(payload.len(), max) <= 0x1_0000,
        forall|k: u16|
            k < piece_count(payload.len(), max) ==> #[trigger] parts[k] == piece(
                payload,
                max,
                k as int,
            ),
    ensures
        joined(parts, i) == payload.take(
            if i < piece_count(payload.len(), max) {
                i * max
            } else {
                payload.len() as int
            },
        ),
    decreases i,
{
    let n = piece_count(payload.len(), max);
    if i <= 0 {
        assert(0 * max == 0);
        if n == 0 {
            assert(payload.take(payload.len() as int) =~= joined(parts, i));
        } else {
            assert(payload.take(0) =~= joined(parts, i));
        }
    } else {
        joined_pieces(parts, payload, max, i - 1);
        piece_range(payload.len(), max, i - 1);
        assert(parts[(i - 1) as u16] == piece(payload, max, i - 1));
        let end = if i < n {
            i * max
        } else {
            payload.len() as int
        };
        assert((i - 1 + 1) * max == i * max);
        assert((i - 1) * max <= i * max) by (nonlinear_arith)
            requires
                max > 0,
        ;
        assert(payload.take((i - 1) * max) + piece(payload, max, i - 1) =~= payload.take(end));
    }
}

/// Whether an assembly holds, of the fragments of a payload, those with the numbers `have` and
/// nothing else under their id.
pub open spec fn holds(
    a: AssemblyView,
    id: u64,
    payload: Seq<u8>,
    max: nat,
    have: Set<u16>,
) -> bool {
    let n = piece_count(payload.len(), max);
    &&& have.subset_of(numbers_below(n))
    &&& a.pending.contains_key(id) <==> have.len() > 0
    &&& a.pending.contains_key(id) ==> a.pending[id] == Map::new(
        |k: u16| have.contains(k),
        |k: u16| piece(payload, max, k as int),
    )
    &&& a.finals.contains_key(id) <==> have.contains((n - 1) as u16)
    &&& a.finals.contains_key(id) ==> a.finals[id] == n - 1
}

/// Fragments may arrive in any order: each is kept until the last missing one completes the payload,
/// which then gives what the payload carries and leaves nothing behind.
pub proof fn any_order_assembles(
    a: AssemblyView,
    id: u64,
    payload: Seq<u8>,
    max: nat,
    have: Set<u16>,
    k: u16,
)
    requires
        max > 0,
        piece_count(payload.len(), max) <= 0x1_0000,
        k < piece_count(payload.len(), max),
        holds(a, id, payload, max, have),
        !have.contains(k),
    ensures
        ({
            let f = fragment_at(id, payload, max, k as int);
            let done = have.insert(k) == numbers_below(piece_count(payload.len(), max));
            &&& done ==> a.after(f).pending == a.pending.remove(id) && !a.after(
                f,
            ).finals.contains_key(id)
            &&& done ==> a.outcome(f) == match instruction_in(payload) {
                Ok(inst) => Ok(Some(inst)),
                Err(e) => Err(e),
            }
            &&& !done ==> holds(a.after(f), id, payload, max, have.insert(k))
            &&& !done ==> a.outcome(f) == Ok::<Option<InstructionView>, Seq<char>>(None)
        }),
{
    let n = piece_count(payload.len(), max);
    let f = fragment_at(id, payload, max, k as int);
    let next = have.insert(k);
    let parts = a.parts_with(f);
    let target = Map::new(|k: u16| next.contains(k), |k: u16| piece(payload, max, k as int));
    all_numbers(have, n);
    assert(next.subset_of(numbers_below(n)));
    all_numbers(next, n);
    if have.len() == 0 {
        assert(have =~= Set::<u16>::empty());
    }
    assert(f.fragment_num == k);
    assert(parts =~= target);
    assert(parts.dom() =~= next);
    let finals = a.finals_with(f);
    assert(finals.contains_key(id) <==> next.contains((n - 1) as u16));
    assert(finals.contains_key(id) ==> finals[id] == n - 1);
    if next == numbers_below(n) {
        assert(next.contains((n - 1) as u16));
        assert(gapless(parts, (n - 1) as u16)) by {
            assert forall|i: u16| i <= n - 1 implies #[trigger] parts.contains_key(i) by {
                assert(next.contains(i));
            }
        }
        joined_pieces(parts, payload, max, n as int);
        assert(payload.take(payload.len() as int) =~= payload);
        assert(a.completes(f));
        assert(a.payload_with(f) == payload);
    } else {
        assert(!a.counts_up(f));
        assert(a.after(f).pending[id] == parts);
    }
}

/// The payload of an instruction carries that instruction.
pub proof fn payload_carries(frags: Seq<FragmentView>, id: u64, inst: InstructionView, max: nat)
    requires
        fragments_carry(frags, id, inst, max),
        transport::countable(inst.diff),
        transport::countable(inst.chaff),
    ensures
        ({
            let compressed = compressed_bytes(inst);
            let payload = payload_of(compressed, state_of(inst), max);
            &&& frags == cut(id, payload, max)
            &&& instruction_in(payload) == Ok::<InstructionView, Seq<char>>(inst)
        }),
{
    let compressed = compressed_bytes(inst);
    let payload = payload_of(compressed, state_of(inst), max);
    bytes::be_bytes_len(state_of(inst) as nat % 0x1_0000, 2);
    assert(payload[4] == compressed[0]);
    assert(payload.skip(4) =~= compressed);
    transport::instruction_roundtrip(inst);
}

/// What was cut into fragments is put together again: where the fragments of an instruction that
/// have arrived are those with the numbers `have`, the one with the last missing number gives the
/// instruction back.
pub proof fn assembly_gives_back(
    a: AssemblyView,
    frags: Seq<FragmentView>,
    id: u64,
    inst: InstructionView,
    max: nat,
    have: Set<u16>,
    k: u16,
)
    requires
        max > 0,
        fragments_carry(frags, id, inst, max),
        transport::countable(inst.diff),
        transport::countable(inst.chaff),
        frags.len() <= 0x1_0000,
        k < frags.len(),
        holds(
            a,
            id,
            payload_of(
                compressed_bytes(inst),
                state_of(inst),
                max,
            ),
            max,
            have,
        ),
        !have.contains(k),
        have.insert(k) == numbers_below(frags.len()),
    ensures
        a.outcome(frags[k as int]) == Ok::<Option<InstructionView>, Seq<char>>(Some(inst)),
        a.after(frags[k as int]).pending == a.pending.remove(id),
{
    payload_carries(frags, id, inst, max);
    let payload = payload_of(
        compressed_bytes(inst),
        state_of(inst),
        max,
    );
    any_order_assembles(a, id, payload, max, have, k);
}

/// A fragment that arrives again changes nothing and gives nothing, while others are missing.
pub proof fn duplicate_is_ignored(
    a: AssemblyView,
    id: u64,
    payload: Seq<u8>,
    max: nat,
    have: Set<u16>,
    k: u16,
)
    requires
        max > 0,
        piece_count(payload.len(), max) <= 0x1_0000,
        holds(a, id, payload, max, have),
        have.contains(k),
        have != numbers_below(piece_count(payload.len(), max)),
    ensures
        a.after(fragment_at(id, payload, max, k as int)) == a,
        a.outcome(fragment_at(id, payload, max, k as int)) == Ok::<
            Option<InstructionView>,
            Seq<char>,
        >(None),
{
    let n = piece_count(payload.len(), max);
    let f = fragment_at(id, payload, max, k as int);
    all_numbers(have, n);
    assert(have.len() > 0) by {
        if have.len() == 0 {
            assert(have =~= Set::<u16>::empty());
        }
    }
    assert(numbers_below(n).contains(k));
    assert(f.fragment_num == k);
    assert(a.parts_with(f) =~= a.pending[id]);
    assert(a.parts_with(f).dom() =~= have);
    assert(a.finals_with(f) =~= a.finals);
    assert(a.pending.insert(id, a.parts_with(f)) =~= a.pending);
}

/// The header before a compressed instruction: two bytes of its state number, the higher one first,
/// and two of flags, of which the first says that there is more than one fragment.
pub proof fn stock_header_layout(new_num: u64, no_complete: bool)
    ensures
        ({
            let h = stock_header(new_num, no_complete);
            &&& h.len() == 4
            &&& 256 * h[0] + h[1] == new_num % 65536
            &&& no_complete ==> h[2] == 0x80
            &&& !no_complete ==> h[2] == 0
            &&& h[3] == 0
        }),
{
    bytes::pow256_values();
    let n = new_num as nat % 0x1_0000;
    bytes::be_value_of_bytes(n, 2);
    let s = bytes::be_bytes(n, 2);
    reveal_with_fuel(bytes::be_value, 3);
    assert(s.drop_last().last() == s[0]);
}

/// A header is told by what follows it, the byte that begins every compressed stream, or by its
/// flags where its state number is small.
pub proof fn headers_are_told(data: Seq<u8>)
    ensures
        data.len() >= 5 && data[4] == 0x78 ==> header_len(data) == 4,
        data.len() >= 4 && data[2] == 0x80 && data[3] == 0 && data[0] < 4 ==> header_len(data) == 4,
        !(data.len() >= 5 && data[4] == 0x78) && !(data.len() >= 4 && data[2] == 0x80 && data[3]
            == 0 && data[0] < 4) ==> header_len(data) == 0,
{
    if data.len() >= 4 {
        let s = data.take(2);
        reveal_with_fuel(bytes::be_value, 3);
        assert(s.drop_last().last() == s[0]);
        assert(s.last() == data[1]);
        assert(bytes::be_value(s) == 256 * data[0] + data[1]);
    }
}

/// The fragments of a payload are numbered from zero and have its id; all but the last are full, and
/// only the last says so.
pub proof fn fragments_are_numbered(id: u64, payload: Seq<u8>, max: nat, i: int)
    requires
        max > 0,
        0 <= i < cut(id, payload, max).len() <= 0x8000,
    ensures
        ({
            let all = cut(id, payload, max);
            let f = all[i];
            &&& f.id == id
            &&& f.fragment_num == i
            &&& f.final_flag <==> i == all.len() - 1
            &&& i < all.len() - 1 ==> f.payload.len() == max
            &&& i == all.len() - 1 ==> 0 < f.payload.len() <= max
            &&& forall|k: int|
                0 <= k < f.payload.len() ==> #[trigger] f.payload[k] == payload[i * max + k]
        }),
{
    piece_range(payload.len(), max, i);
    assert((i + 1) * max == i * max + max) by (nonlinear_arith);
}

/// Chaff changes nothing else in an instruction; there are at most sixteen bytes of it.
pub proof fn chaff_is_added(inst: InstructionView, b: u8)
    ensures
        ({
            let after = chaffed(inst, b);
            &&& after.protocol_version == inst.protocol_version
            &&& after.old_num == inst.old_num
            &&& after.new_num == inst.new_num
            &&& after.ack_num == inst.ack_num
            &&& after.throwaway_num == inst.throwaway_num
            &&& after.diff == inst.diff
            &&& b % 17 == 0 ==> after.chaff == inst.chaff
            &&& b % 17 != 0 ==> after.chaff is Some && after.chaff.unwrap().len() == b % 17
            &&& b % 17 != 0 ==> forall|i: int|
                0 <= i < b % 17 ==> #[trigger] after.chaff.unwrap()[i] == (b + i) * 158 % 256
        }),
{
    assert forall|i: int| 0 <= i < b % 17 && b % 17 != 0 implies #[trigger] chaffed(
        inst,
        b,
    ).chaff.unwrap()[i] == (b + i) * 158 % 256 by {
        assert((b + i) % 256 * 0x9E % 256 == (b + i) * 158 % 256);
    }
}

/// What is forgotten is everything below the given id, and nothing else.
pub proof fn old_fragments_are_forgotten(a: AssemblyView, min_id: u64, id: u64)
    ensures
        id < min_id ==> !a.pruned(min_id).pending.contains_key(id) && !a.pruned(
            min_id,
        ).finals.contains_key(id),
        id >= min_id ==> (a.pruned(min_id).pending.contains_key(id) <==> a.pending.contains_key(
            id,
        )) && (a.pruned(min_id).finals.contains_key(id) <==> a.finals.contains_key(id)),
        id >= min_id && a.pending.contains_key(id) ==> a.pruned(min_id).pending[id]
            == a.pending[id],
        id >= min_id && a.finals.contains_key(id) ==> a.pruned(min_id).finals[id] == a.finals[id],
{
}

/// A fragment concerns the instruction with its id alone: what was collected for others stays. Until
/// the last fragment is known, and as many as it says, nothing comes of it.
pub proof fn instructions_are_collected_apart(a: AssemblyView, f: FragmentView, id: u64)
    ensures
        id != f.id ==> (a.after(f).pending.contains_key(id) <==> a.pending.contains_key(id)),
        id != f.id && a.pending.contains_key(id) ==> a.after(f).pending[id] == a.pending[id],
        id != f.id ==> (a.after(f).finals.contains_key(id) <==> a.finals.contains_key(id)),
        !f.final_flag && !a.finals.contains_key(f.id) ==> a.outcome(f) == Ok::<
            Option<InstructionView>,
            Seq<char>,
        >(None) && a.after(f).pending.contains_key(f.id) && a.after(
            f,
        ).pending[f.id].contains_key(f.fragment_num) && a.after(
            f,
        ).pending[f.id][f.fragment_num] == f.payload,
{
}

/// What is said of bytes that cannot be compressed, expanded or read.
pub proof fn failures_are_told(data: Seq<u8>, e: Seq<char>)
    ensures
        zlib_compressed(data) == Err::<Seq<u8>, (bool, Seq<char>)>((false, e)) ==> compressed(data)
            == Err::<Seq<u8>, Seq<char>>("Compression error: "@ + e),
        zlib_compressed(data) == Err::<Seq<u8>, (bool, Seq<char>)>((true, e)) ==> compressed(data)
            == Err::<Seq<u8>, Seq<char>>("Compression finish error: "@ + e),
        zlib_expanded(data.skip(header_len(data))) == Err::<Seq<u8>, Seq<char>>(e)
            ==> payload_expanded(data) == Err::<Seq<u8>, Seq<char>>(
            "Zlib decompression error: "@ + e + " (data_len="@ + text::decimal(data.len())
                + ", header_skip="@ + text::decimal(header_len(data) as nat) + ")"@,
        ),
        fault::instruction_fault(data) == Some(e) ==> decode_error_text(data)
            == "Protobuf decode error: failed to decode Protobuf message: "@ + e,
{
}

} // verus!
