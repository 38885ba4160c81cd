use vstd::prelude::*;

use crate::text::str_eq;
use vstd::string::StringSliceAdditionalSpecFns;

verus! {

// ---------------------------------------------------------------------------
// Big-endian 32-bit fields
// ---------------------------------------------------------------------------

/// The four big-endian bytes of `x`.
pub open spec fn be32(x: u32) -> Seq<u8> {
    seq![
        (x / 0x1000000) as u8,
        ((x / 0x10000) % 0x100) as u8,
        ((x / 0x100) % 0x100) as u8,
        (x % 0x100) as u8,
    ]
}

/// The value of four big-endian bytes.
pub open spec fn be32_value(b0: u8, b1: u8, b2: u8, b3: u8) -> u32 {
    (b0 as int * 0x1000000 + b1 as int * 0x10000 + b2 as int * 0x100 + b3 as int) as u32
}

/// The value of the four big-endian bytes of `b` that start at `at`.
pub open spec fn be32_at(b: Seq<u8>, at: int) -> u32 {
    be32_value(b[at], b[at + 1], b[at + 2], b[at + 3])
}

/// Reading back the bytes written for `x` gives `x`.
pub proof fn lemma_be32_roundtrip(x: u32)
    ensures
        be32_at(be32(x), 0) == x,
{
    let b = be32(x);
    assert(b[0] as int * 0x1000000 + b[1] as int * 0x10000 + b[2] as int * 0x100 + b[3] as int
        == x) by (nonlinear_arith)
        requires
            b[0] == (x / 0x1000000) as u8,
            b[1] == ((x / 0x10000) % 0x100) as u8,
            b[2] == ((x / 0x100) % 0x100) as u8,
            b[3] == (x % 0x100) as u8,
    ;
}

fn push_be32(v: &mut Vec<u8>, x: u32)
    ensures
        final(v)@ == old(v)@ + be32(x),
{
    v.push((x / 0x1000000) as u8);
    v.push(((x / 0x10000) % 0x100) as u8);
    v.push(((x / 0x100) % 0x100) as u8);
    v.push((x % 0x100) as u8);
    proof {
        assert(final(v)@ =~= old(v)@ + be32(x));
    }
}

fn read_be32(b: &[u8], at: usize) -> (r: u32)
    requires
        at + 4 <= b@.len(),
    ensures
        r == be32_at(b@, at as int),
{
    let b0 = b[at] as u32;
    let b1 = b[at + 1] as u32;
    let b2 = b[at + 2] as u32;
    let b3 = b[at + 3] as u32;
    proof {
        assert(b0 * 0x1000000 + b1 * 0x10000 + b2 * 0x100 + b3 <= u32::MAX) by (nonlinear_arith)
            requires
                b0 <= 255,
                b1 <= 255,
                b2 <= 255,
                b3 <= 255,
        ;
    }
    b0 * 0x1000000 + b1 * 0x10000 + b2 * 0x100 + b3
}

fn append_bytes(v: &mut Vec<u8>, s: &[u8])
    ensures
        final(v)@ == old(v)@ + s@,
{
    let mut i: usize = 0;
    while i < s.len()
        invariant
            i <= s.len(),
            v@ == old(v)@ + s@.take(i as int),
        decreases s.len() - i,
    {
        v.push(s[i]);
        i = i + 1;
        proof {
            assert(v@ =~= old(v)@ + s@.take(i as int));
        }
    }
    proof {
        assert(s@.take(s.len() as int) =~= s@);
    }
}

fn copy_from(b: &[u8], from: usize) -> (r: Vec<u8>)
    requires
        from <= b@.len(),
    ensures
        r@ == b@.subrange(from as int, b@.len() as int),
{
    let mut r: Vec<u8> = Vec::new();
    let mut i: usize = from;
    while i < b.len()
        invariant
            from <= i <= b.len(),
            r@ =~= b@.subrange(from as int, i as int),
        decreases b.len() - i,
    {
        r.push(b[i]);
        i = i + 1;
    }
    r
}

// ---------------------------------------------------------------------------
// File data frames
// ---------------------------------------------------------------------------

/// Version byte at the start of every file data frame.
pub const FILE_DATA_FRAME_VERSION: u8 = 0x01;

/// Number of header bytes before the payload of a file data frame.
pub const FILE_DATA_FRAME_HEADER_LEN: usize = 8;

/// What a binary file data frame carries.
#[derive(Debug, Clone, Copy, PartialEq, Eq, Structural)]
pub enum FileDataFrameKind {
    Chunk,
    Ack,
    Finish,
    Retransmit,
    Cancel,
}

/// The kind byte of each frame kind.
pub open spec fn kind_wire(kind: FileDataFrameKind) -> u8 {
    match kind {
        FileDataFrameKind::Chunk => 0x01,
        FileDataFrameKind::Ack => 0x02,
        FileDataFrameKind::Finish => 0x03,
        FileDataFrameKind::Retransmit => 0x04,
        FileDataFrameKind::Cancel => 0x05,
    }
}

/// The frame kind named by a kind byte, if any.
pub open spec fn kind_from_wire(value: u8) -> Option<FileDataFrameKind> {
    if value == 0x01 {
        Some(FileDataFrameKind::Chunk)
    } else if value == 0x02 {
        Some(FileDataFrameKind::Ack)
    } else if value == 0x03 {
        Some(FileDataFrameKind::Finish)
    } else if value == 0x04 {
        Some(FileDataFrameKind::Retransmit)
    } else if value == 0x05 {
        Some(FileDataFrameKind::Cancel)
    } else {
        None
    }
}

impl FileDataFrameKind {
    fn from_wire(value: u8) -> (r: Option<Self>)
        ensures
            r == kind_from_wire(value),
    {
        match value {
            0x01 => Some(FileDataFrameKind::Chunk),
            0x02 => Some(FileDataFrameKind::Ack),
            0x03 => Some(FileDataFrameKind::Finish),
            0x04 => Some(FileDataFrameKind::Retransmit),
            0x05 => Some(FileDataFrameKind::Cancel),
            _ => None,
        }
    }

    fn as_wire(self) -> (r: u8)
        ensures
            r == kind_wire(self),
    {
        match self {
            FileDataFrameKind::Chunk => 0x01,
            FileDataFrameKind::Ack => 0x02,
            FileDataFrameKind::Finish => 0x03,
            FileDataFrameKind::Retransmit => 0x04,
            FileDataFrameKind::Cancel => 0x05,
        }
    }
}

/// A binary frame of the file data channel: a kind, a 32-bit index and a
/// payload.
#[derive(Debug, Clone, PartialEq, Eq)]
pub struct FileDataFrame {
    pub kind: FileDataFrameKind,
    pub index: u32,
    pub payload: Vec<u8>,
}

/// The bytes of a file data frame on the wire: version, kind, two reserved
/// zero bytes, the big-endian index, then the payload.
pub open spec fn file_frame_bytes(kind: FileDataFrameKind, index: u32, payload: Seq<u8>) -> Seq<u8> {
    seq![FILE_DATA_FRAME_VERSION, kind_wire(kind), 0u8, 0u8] + be32(index) + payload
}

/// What a byte string decodes to as a file data frame, if it is one.
pub open spec fn decode_file_frame(bytes: Seq<u8>) -> Option<(FileDataFrameKind, u32, Seq<u8>)> {
    if bytes.len() < FILE_DATA_FRAME_HEADER_LEN || bytes[0] != FILE_DATA_FRAME_VERSION {
        None
    } else {
        match kind_from_wire(bytes[1]) {
            Some(kind) => Some((kind, be32_at(bytes, 4), bytes.subrange(8, bytes.len() as int))),
            None => None,
        }
    }
}

impl View for FileDataFrame {
    type V = (FileDataFrameKind, u32, Seq<u8>);

    open spec fn view(&self) -> (FileDataFrameKind, u32, Seq<u8>) {
        (self.kind, self.index, self.payload@)
    }
}

/// Decoding the encoding of any frame gives the frame back.
pub proof fn lemma_file_frame_roundtrip(kind: FileDataFrameKind, index: u32, payload: Seq<u8>)
    ensures
        decode_file_frame(file_frame_bytes(kind, index, payload)) == Some((kind, index, payload)),
{
    let bytes = file_frame_bytes(kind, index, payload);
    lemma_be32_roundtrip(index);
    assert(bytes.subrange(8, bytes.len() as int) =~= payload);
    assert(bytes[4] == be32(index)[0]);
    assert(bytes[5] == be32(index)[1]);
    assert(bytes[6] == be32(index)[2]);
    assert(bytes[7] == be32(index)[3]);
}

impl FileDataFrame {
    /// A data chunk with its index.
    pub fn chunk(chunk_index: u32, payload: Vec<u8>) -> (r: Self)
        ensures
            r.kind == FileDataFrameKind::Chunk,
            r.index == chunk_index,
            r.payload@ == payload@,
    {
        FileDataFrame { kind: FileDataFrameKind::Chunk, index: chunk_index, payload }
    }

    /// An acknowledgement naming the next chunk index the receiver expects.
    pub fn ack(next_expected_index: u32) -> (r: Self)
        ensures
            r.kind == FileDataFrameKind::Ack,
            r.index == next_expected_index,
            r.payload@ == Seq::<u8>::empty(),
    {
        FileDataFrame { kind: FileDataFrameKind::Ack, index: next_expected_index, payload: Vec::new() }
    }

    /// The end of a transfer, carrying the number of chunks sent.
    pub fn finish(total_chunks: u32) -> (r: Self)
        ensures
            r.kind == FileDataFrameKind::Finish,
            r.index == total_chunks,
            r.payload@ == Seq::<u8>::empty(),
    {
        FileDataFrame { kind: FileDataFrameKind::Finish, index: total_chunks, payload: Vec::new() }
    }

    /// A request to send one chunk again.
    pub fn retransmit(chunk_index: u32) -> (r: Self)
        ensures
            r.kind == FileDataFrameKind::Retransmit,
            r.index == chunk_index,
            r.payload@ == Seq::<u8>::empty(),
    {
        FileDataFrame { kind: FileDataFrameKind::Retransmit, index: chunk_index, payload: Vec::new() }
    }

    /// A cancellation carrying the UTF-8 bytes of its reason, with index 0.
    pub fn cancel(reason: &str) -> (r: Self)
        ensures
            r.kind == FileDataFrameKind::Cancel,
            r.index == 0,
            r.payload@ == reason.spec_bytes(),
    {
        let bytes = reason.as_bytes();
        FileDataFrame {
            kind: FileDataFrameKind::Cancel,
            index: 0,
            payload: vstd::slice::slice_to_vec(bytes),
        }
    }

    /// The wire bytes of this frame.
    pub fn encode(&self) -> (bytes: Vec<u8>)
        ensures
            bytes@ == file_frame_bytes(self.kind, self.index, self.payload@),
    {
        let mut bytes: Vec<u8> = Vec::new();
        bytes.push(FILE_DATA_FRAME_VERSION);
        bytes.push(self.kind.as_wire());
        bytes.push(0);
        bytes.push(0);
        push_be32(&mut bytes, self.index);
        append_bytes(&mut bytes, self.payload.as_slice());
        proof {
            assert(bytes@ =~= file_frame_bytes(self.kind, self.index, self.payload@));
        }
        bytes
    }

    /// The frame that `bytes` encodes, or `None` when they are shorter than the
    /// header, carry another version or an unknown kind.
    pub fn decode(bytes: &[u8]) -> (r: Option<Self>)
        ensures
            match r {
                Some(frame) => decode_file_frame(bytes@) == Some(frame@),
                None => decode_file_frame(bytes@) is None,
            },
    {
        if bytes.len() < FILE_DATA_FRAME_HEADER_LEN || bytes[0] != FILE_DATA_FRAME_VERSION {
            return None;
        }
        let kind = match FileDataFrameKind::from_wire(bytes[1]) {
            Some(kind) => kind,
            None => return None,
        };
        let index = read_be32(bytes, 4);
        Some(FileDataFrame { kind, index, payload: copy_from(bytes, FILE_DATA_FRAME_HEADER_LEN) })
    }
}

// ---------------------------------------------------------------------------
// Camera data frames
// ---------------------------------------------------------------------------

/// The codec byte of a codec name the camera channel knows.
pub open spec fn codec_wire(codec: Seq<char>) -> Option<u8> {
    if codec == seq!['j', 'p', 'e', 'g'] {
        Some(0x01u8)
    } else if codec == seq!['h', '2', '6', '4'] {
        Some(0x02u8)
    } else if codec == seq!['w', 'e', 'b', 'p'] {
        Some(0x03u8)
    } else {
        None
    }
}

/// The codec name of a codec byte, if it is known.
pub open spec fn codec_of_wire(value: u8) -> Option<Seq<char>> {
    if value == 0x01 {
        Some(seq!['j', 'p', 'e', 'g'])
    } else if value == 0x02 {
        Some(seq!['h', '2', '6', '4'])
    } else if value == 0x03 {
        Some(seq!['w', 'e', 'b', 'p'])
    } else {
        None
    }
}

fn codec_wire_value(codec: &str) -> (r: Option<u8>)
    ensures
        r == codec_wire(codec@),
{
    proof {
        reveal_strlit("jpeg");
        reveal_strlit("h264");
        reveal_strlit("webp");
        assert("jpeg"@ =~= seq!['j', 'p', 'e', 'g']);
        assert("h264"@ =~= seq!['h', '2', '6', '4']);
        assert("webp"@ =~= seq!['w', 'e', 'b', 'p']);
    }
    if str_eq(codec, "jpeg") {
        Some(0x01)
    } else if str_eq(codec, "h264") {
        Some(0x02)
    } else if str_eq(codec, "webp") {
        Some(0x03)
    } else {
        None
    }
}

fn codec_name(value: u8) -> (r: Option<&'static str>)
    ensures
        match r {
            Some(name) => codec_of_wire(value) == Some(name@),
            None => codec_of_wire(value) is None,
        },
{
    proof {
        reveal_strlit("jpeg");
        reveal_strlit("h264");
        reveal_strlit("webp");
    }
    match value {
        0x01 => Some("jpeg"),
        0x02 => Some("h264"),
        0x03 => Some("webp"),
        _ => None,
    }
}

/// A binary camera frame: codec, keyframe flag, 32-bit sequence number and
/// timestamp, and the encoded picture.
#[derive(Debug, Clone, PartialEq, Eq)]
pub struct CameraDataFrame {
    pub codec: String,
    pub keyframe: bool,
    pub sequence: u32,
    pub timestamp_ms: u32,
    pub payload: Vec<u8>,
}

impl View for CameraDataFrame {
    type V = (Seq<char>, bool, u32, u32, Seq<u8>);

    open spec fn view(&self) -> (Seq<char>, bool, u32, u32, Seq<u8>) {
        (self.codec@, self.keyframe, self.sequence, self.timestamp_ms, self.payload@)
    }
}

/// `x` limited to the 32-bit range.
pub open spec fn saturate_u32(x: u64) -> u32 {
    if x > u32::MAX as u64 {
        u32::MAX
    } else {
        x as u32
    }
}

/// The wire bytes of a camera frame: two version bytes, the codec byte (0 for
/// an unknown codec), the keyframe byte, the big-endian sequence, timestamp and
/// payload length (the length taken modulo 2^32), then the payload.
pub open spec fn camera_frame_bytes(
    codec: Seq<char>,
    keyframe: bool,
    sequence: u32,
    timestamp_ms: u32,
    payload: Seq<u8>,
) -> Seq<u8> {
    let codec_byte = match codec_wire(codec) {
        Some(b) => b,
        None => 0u8,
    };
    seq![0x01u8, 0x01u8, codec_byte, if keyframe { 1u8 } else { 0u8 }] + be32(sequence) + be32(
        timestamp_ms,
    ) + be32((payload.len() % 0x1_0000_0000) as u32) + payload
}

/// What a byte string decodes to as a camera frame, if it is one.
pub open spec fn decode_camera_frame(bytes: Seq<u8>) -> Option<(Seq<char>, bool, u32, u32, Seq<u8>)> {
    if bytes.len() < 16 || bytes[0] != 0x01 || bytes[1] != 0x01 {
        None
    } else if bytes.len() != 16 + be32_at(bytes, 12) {
        None
    } else {
        match codec_of_wire(bytes[2]) {
            Some(codec) => Some(
                (
                    codec,
                    bytes[3] % 2 == 1,
                    be32_at(bytes, 4),
                    be32_at(bytes, 8),
                    bytes.subrange(16, bytes.len() as int),
                ),
            ),
            None => None,
        }
    }
}

/// Decoding the encoding of a camera frame with a known codec and a payload
/// whose length fits in 32 bits gives the frame back.
pub proof fn lemma_camera_frame_roundtrip(
    codec: Seq<char>,
    keyframe: bool,
    sequence: u32,
    timestamp_ms: u32,
    payload: Seq<u8>,
)
    requires
        codec_wire(codec) is Some,
        payload.len() <= u32::MAX,
    ensures
        decode_camera_frame(camera_frame_bytes(codec, keyframe, sequence, timestamp_ms, payload))
            == Some((codec, keyframe, sequence, timestamp_ms, payload)),
{
    let bytes = camera_frame_bytes(codec, keyframe, sequence, timestamp_ms, payload);
    lemma_be32_roundtrip(sequence);
    lemma_be32_roundtrip(timestamp_ms);
    lemma_be32_roundtrip(payload.len() as u32);
    assert(payload.len() % 0x1_0000_0000 == payload.len());
    assert(bytes.subrange(16, bytes.len() as int) =~= payload);
    assert(bytes[4] == be32(sequence)[0]);
    assert(bytes[5] == be32(sequence)[1]);
    assert(bytes[6] == be32(sequence)[2]);
    assert(bytes[7] == be32(sequence)[3]);
    assert(bytes[8] == be32(timestamp_ms)[0]);
    assert(bytes[9] == be32(timestamp_ms)[1]);
    assert(bytes[10] == be32(timestamp_ms)[2]);
    assert(bytes[11] == be32(timestamp_ms)[3]);
    assert(bytes[12] == be32(payload.len() as u32)[0]);
    assert(bytes[13] == be32(payload.len() as u32)[1]);
    assert(bytes[14] == be32(payload.len() as u32)[2]);
    assert(bytes[15] == be32(payload.len() as u32)[3]);
    assert(codec_of_wire(codec_wire(codec).unwrap()) == Some(codec));
}

impl CameraDataFrame {
    /// A frame for a known codec, with the sequence number and timestamp
    /// saturated to 32 bits; `None` for an unknown codec or a payload whose
    /// length does not fit in 32 bits.
    pub fn new(codec: &str, keyframe: bool, sequence: u64, timestamp_ms: u64, payload: Vec<u8>) -> (r:
        Option<Self>)
        ensures
            r is Some <==> (codec_wire(codec@) is Some && payload@.len() <= u32::MAX),
            r matches Some(frame) ==> frame@ == (
                codec@,
                keyframe,
                saturate_u32(sequence),
                saturate_u32(timestamp_ms),
                payload@,
            ),
    {
        if codec_wire_value(codec).is_none() {
            return None;
        }
        if payload.len() as u64 > u32::MAX as u64 {
            return None;
        }
        let sequence = if sequence > u32::MAX as u64 {
            u32::MAX
        } else {
            sequence as u32
        };
        let timestamp_ms = if timestamp_ms > u32::MAX as u64 {
            u32::MAX
        } else {
            timestamp_ms as u32
        };
        let codec = codec.to_owned();
        Some(CameraDataFrame { codec, keyframe, sequence, timestamp_ms, payload })
    }

    /// The wire bytes of this frame.
    pub fn encode(&self) -> (bytes: Vec<u8>)
        ensures
            bytes@ == camera_frame_bytes(
                self.codec@,
                self.keyframe,
                self.sequence,
                self.timestamp_ms,
                self.payload@,
            ),
    {
        let codec_byte = match codec_wire_value(self.codec.as_str()) {
            Some(b) => b,
            None => 0,
        };
        let mut bytes: Vec<u8> = Vec::new();
        bytes.push(0x01);
        bytes.push(0x01);
        bytes.push(codec_byte);
        bytes.push(if self.keyframe {
            1
        } else {
            0
        });
        push_be32(&mut bytes, self.sequence);
        push_be32(&mut bytes, self.timestamp_ms);
        let len = (self.payload.len() as u64 % 0x1_0000_0000) as u32;
        push_be32(&mut bytes, len);
        append_bytes(&mut bytes, self.payload.as_slice());
        proof {
            assert(bytes@ =~= camera_frame_bytes(
                self.codec@,
                self.keyframe,
                self.sequence,
                self.timestamp_ms,
                self.payload@,
            ));
        }
        bytes
    }

    /// The frame that `bytes` encodes, or `None` when the header is short or
    /// of another version, the length field disagrees with the byte count, or
    /// the codec byte is unknown.
    pub fn decode(bytes: &[u8]) -> (r: Option<Self>)
        ensures
            match r {
                Some(frame) => decode_camera_frame(bytes@) == Some(frame@),
                None => decode_camera_frame(bytes@) is None,
            },
    {
        if bytes.len() < 16 || bytes[0] != 0x01 || bytes[1] != 0x01 {
            return None;
        }
        let payload_len = read_be32(bytes, 12);
        if (bytes.len() - 16) as u64 != payload_len as u64 {
            return None;
        }
        let codec = match codec_name(bytes[2]) {
            Some(name) => name,
            None => return None,
        };
        let keyframe = bytes[3] % 2 == 1;
        let sequence = read_be32(bytes, 4);
        let timestamp_ms = read_be32(bytes, 8);
        let payload = copy_from(bytes, 16);
        let codec = codec.to_owned();
        Some(CameraDataFrame { codec, keyframe, sequence, timestamp_ms, payload })
    }
}

} // verus!
