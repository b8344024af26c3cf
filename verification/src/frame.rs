//! IPC frames between a node and an agent host, and length-prefixed blobs.
//!
//! A frame on the wire is `len(u32 BE) | payload`; the payload is a tag byte
//! (`0x01` Init, `0x02` Config, `0x10` Emit, `0x11` Done) followed, for Config
//! and Emit, by three length-prefixed fields. Writing to and reading from a
//! stream happens at the edge; this module turns frames into bytes and back.
use vstd::prelude::*;
use crate::wire::{be32, be32_value, copy_range, get_be32, lemma_be32_roundtrip, put_be32, put_bytes};
use crate::text::{lossy_text, string_from_utf8_lossy};

verus! {

/// One IPC frame between the node and an agent host.
#[derive(Clone, Debug, PartialEq, Eq)]
pub enum Frame {
    /// node → host: run the agent's init.
    Init,
    /// node → host: deliver `(unl, body)` from sender `from`.
    Config { from: String, unl: Vec<u8>, body: Vec<u8> },
    /// host → node: the agent emitted a message.
    Emit { receiver: String, unl: Vec<u8>, body: Vec<u8> },
    /// host → node: end of the response to the last Init/Config.
    Done,
}

/// A frame as plain values.
pub enum FrameModel {
    Init,
    Config { from: Seq<char>, unl: Seq<u8>, body: Seq<u8> },
    Emit { receiver: Seq<char>, unl: Seq<u8>, body: Seq<u8> },
    Done,
}

impl View for Frame {
    type V = FrameModel;

    open spec fn view(&self) -> FrameModel {
        match self {
            Frame::Init => FrameModel::Init,
            Frame::Config { from, unl, body } => FrameModel::Config { from: from@, unl: unl@, body: body@ },
            Frame::Emit { receiver, unl, body } => FrameModel::Emit { receiver: receiver@, unl: unl@, body: body@ },
            Frame::Done => FrameModel::Done,
        }
    }
}

/// Why bytes are not a frame.
#[derive(Clone, Copy, Debug, PartialEq, Eq)]
pub enum FrameError {
    /// A length-prefixed field runs past the end of the frame.
    ShortFrame,
    /// The frame is empty or carries an unknown tag.
    BadFrame,
    /// The stream ended inside a frame.
    UnexpectedEof,
}

/// A length-prefixed field.
pub open spec fn field_bytes(b: Seq<u8>) -> Seq<u8> {
    be32(b.len() as u32) + b
}

/// The payload of a frame (strings as their UTF-8 bytes).
pub open spec fn payload_bytes(f: FrameModel) -> Seq<u8> {
    match f {
        FrameModel::Init => seq![1u8],
        FrameModel::Config { from, unl, body } => seq![2u8] + field_bytes(vstd::utf8::encode_utf8(from))
            + field_bytes(unl) + field_bytes(body),
        FrameModel::Emit { receiver, unl, body } => seq![16u8] + field_bytes(vstd::utf8::encode_utf8(receiver))
            + field_bytes(unl) + field_bytes(body),
        FrameModel::Done => seq![17u8],
    }
}

/// A whole frame on the wire.
pub open spec fn frame_bytes(f: FrameModel) -> Seq<u8> {
    field_bytes(payload_bytes(f))
}

/// Reads one length-prefixed field at `p`: the field and the position after it.
pub open spec fn field_at(buf: Seq<u8>, p: int) -> Option<(Seq<u8>, int)> {
    if p + 4 > buf.len() {
        None
    } else {
        let n = be32_value(buf.subrange(p, p + 4));
        if p + 4 + n > buf.len() {
            None
        } else {
            Some((buf.subrange(p + 4, p + 4 + n), p + 4 + n))
        }
    }
}

/// Reads three consecutive fields starting at position 1.
pub open spec fn three_fields(buf: Seq<u8>) -> Option<(Seq<u8>, Seq<u8>, Seq<u8>)> {
    match field_at(buf, 1) {
        None => None,
        Some((a, p1)) => match field_at(buf, p1) {
            None => None,
            Some((b, p2)) => match field_at(buf, p2) {
                None => None,
                Some((c, _p3)) => Some((a, b, c)),
            },
        },
    }
}

/// What decoding a payload yields. Trailing bytes after the fields are ignored.
pub open spec fn decode_payload_spec(buf: Seq<u8>) -> Result<FrameModel, FrameError> {
    if buf.len() == 0 {
        Err(FrameError::BadFrame)
    } else if buf[0] == 1u8 {
        Ok(FrameModel::Init)
    } else if buf[0] == 17u8 {
        Ok(FrameModel::Done)
    } else if buf[0] == 2u8 || buf[0] == 16u8 {
        match three_fields(buf) {
            None => Err(FrameError::ShortFrame),
            Some((a, b, c)) => if buf[0] == 2u8 {
                Ok(FrameModel::Config { from: lossy_text(a), unl: b, body: c })
            } else {
                Ok(FrameModel::Emit { receiver: lossy_text(a), unl: b, body: c })
            },
        }
    } else {
        Err(FrameError::BadFrame)
    }
}

/// Whether a frame's fields and payload fit their 32-bit length fields.
pub open spec fn frame_fits(f: FrameModel) -> bool {
    payload_bytes(f).len() < 4294967296 && match f {
        FrameModel::Config { from, unl, body } => vstd::utf8::encode_utf8(from).len() < 4294967296
            && unl.len() < 4294967296 && body.len() < 4294967296,
        FrameModel::Emit { receiver, unl, body } => vstd::utf8::encode_utf8(receiver).len() < 4294967296
            && unl.len() < 4294967296 && body.len() < 4294967296,
        _ => true,
    }
}

/// What reading one frame from `stream` at `pos` yields: nothing at a clean
/// end (no bytes left), an error for a torn length prefix (one to three
/// bytes left), else the frame and the position after it.
pub open spec fn read_frame_spec(stream: Seq<u8>, pos: int) -> Result<Option<(FrameModel, int)>, FrameError> {
    if stream.len() - pos <= 0 {
        Ok(None)
    } else if stream.len() - pos < 4 {
        Err(FrameError::UnexpectedEof)
    } else {
        let n = be32_value(stream.subrange(pos, pos + 4));
        if stream.len() - pos - 4 < n {
            Err(FrameError::UnexpectedEof)
        } else {
            match decode_payload_spec(stream.subrange(pos + 4, pos + 4 + n)) {
                Ok(f) => Ok(Some((f, pos + 4 + n))),
                Err(e) => Err(e),
            }
        }
    }
}

fn put_field(buf: &mut Vec<u8>, b: &[u8])
    ensures
        final(buf)@ == old(buf)@ + field_bytes(b@),
{
    put_be32(buf, b.len() as u32);
    put_bytes(buf, b);
}

fn get_field(buf: &[u8], p: usize) -> (r: Option<(Vec<u8>, usize)>)
    requires
        p <= buf@.len(),
    ensures
        match field_at(buf@, p as int) {
            None => r is None,
            Some((v, q)) => r matches Some((w, q2)) && w@ == v && q2 == q,
        },
{
    let n = buf.len();
    if n - p < 4 {
        return None;
    }
    let len = get_be32(buf, p) as usize;
    if n - p - 4 < len {
        return None;
    }
    let v = copy_range(buf, p + 4, len);
    Some((v, p + 4 + len))
}

/// The frame's wire bytes (length prefix and payload).
pub fn encode_frame(frame: &Frame) -> (out: Vec<u8>)
    ensures
        out@ == frame_bytes(frame@),
{
    let mut buf: Vec<u8> = Vec::new();
    match frame {
        Frame::Init => {
            buf.push(1u8);
        },
        Frame::Config { from, unl, body } => {
            buf.push(2u8);
            put_field(&mut buf, from.as_str().as_bytes());
            put_field(&mut buf, unl.as_slice());
            put_field(&mut buf, body.as_slice());
        },
        Frame::Emit { receiver, unl, body } => {
            buf.push(16u8);
            put_field(&mut buf, receiver.as_str().as_bytes());
            put_field(&mut buf, unl.as_slice());
            put_field(&mut buf, body.as_slice());
        },
        Frame::Done => {
            buf.push(17u8);
        },
    }
    assert(buf@ =~= payload_bytes(frame@));
    let mut out: Vec<u8> = Vec::new();
    put_field(&mut out, buf.as_slice());
    assert(out@ =~= frame_bytes(frame@));
    out
}

/// Decodes one frame payload (the bytes after the length prefix).
pub fn decode_payload(buf: &[u8]) -> (r: Result<Frame, FrameError>)
    ensures
        match r {
            Ok(f) => decode_payload_spec(buf@) == Ok::<FrameModel, FrameError>(f@),
            Err(e) => decode_payload_spec(buf@) == Err::<FrameModel, FrameError>(e),
        },
{
    if buf.len() == 0 {
        return Err(FrameError::BadFrame);
    }
    let tag = buf[0];
    if tag == 1u8 {
        return Ok(Frame::Init);
    }
    if tag == 17u8 {
        return Ok(Frame::Done);
    }
    if tag != 2u8 && tag != 16u8 {
        return Err(FrameError::BadFrame);
    }
    let (a, p1) = match get_field(buf, 1) {
        Some(x) => x,
        None => {
            return Err(FrameError::ShortFrame);
        },
    };
    let (b, p2) = match get_field(buf, p1) {
        Some(x) => x,
        None => {
            return Err(FrameError::ShortFrame);
        },
    };
    let (c, _p3) = match get_field(buf, p2) {
        Some(x) => x,
        None => {
            return Err(FrameError::ShortFrame);
        },
    };
    let text = string_from_utf8_lossy(a.as_slice());
    if tag == 2u8 {
        Ok(Frame::Config { from: text, unl: b, body: c })
    } else {
        Ok(Frame::Emit { receiver: text, unl: b, body: c })
    }
}

/// Reads one frame from a buffered stream at `pos`: `Ok(None)` at a clean end
/// (no bytes left), `UnexpectedEof` for a torn length prefix, else the frame
/// and the position after it.
pub fn read_frame_at(stream: &[u8], pos: usize) -> (r: Result<Option<(Frame, usize)>, FrameError>)
    requires
        pos <= stream@.len(),
    ensures
        match r {
            Ok(None) => read_frame_spec(stream@, pos as int) == Ok::<Option<(FrameModel, int)>, FrameError>(None),
            Ok(Some((f, q))) => read_frame_spec(stream@, pos as int)
                == Ok::<Option<(FrameModel, int)>, FrameError>(Some((f@, q as int))),
            Err(e) => read_frame_spec(stream@, pos as int) == Err::<Option<(FrameModel, int)>, FrameError>(e),
        },
{
    let n = stream.len();
    if n == pos {
        return Ok(None);
    }
    if n - pos < 4 {
        return Err(FrameError::UnexpectedEof);
    }
    let len = get_be32(stream, pos) as usize;
    if n - pos - 4 < len {
        return Err(FrameError::UnexpectedEof);
    }
    let payload = copy_range(stream, pos + 4, len);
    match decode_payload(payload.as_slice()) {
        Ok(f) => Ok(Some((f, pos + 4 + len))),
        Err(e) => Err(e),
    }
}

proof fn lemma_field_at_concat(pre: Seq<u8>, b: Seq<u8>, rest: Seq<u8>)
    requires
        b.len() < 4294967296,
    ensures
        field_at(pre + field_bytes(b) + rest, pre.len() as int)
            == Some((b, (pre.len() + 4 + b.len()) as int)),
{
    let s = pre + field_bytes(b) + rest;
    let p = pre.len() as int;
    lemma_be32_roundtrip(b.len() as u32);
    assert(s.subrange(p, p + 4) =~= be32(b.len() as u32));
    assert(s.subrange(p + 4, p + 4 + b.len()) =~= b);
}

proof fn lemma_three_fields(tag: u8, a: Seq<u8>, b: Seq<u8>, c: Seq<u8>)
    requires
        a.len() < 4294967296,
        b.len() < 4294967296,
        c.len() < 4294967296,
    ensures
        three_fields(seq![tag] + field_bytes(a) + field_bytes(b) + field_bytes(c)) == Some((a, b, c)),
{
    let s = seq![tag] + field_bytes(a) + field_bytes(b) + field_bytes(c);
    lemma_be32_roundtrip(a.len() as u32);
    lemma_be32_roundtrip(b.len() as u32);
    lemma_be32_roundtrip(c.len() as u32);
    let pa = seq![tag];
    let pb = pa + field_bytes(a);
    let pc = pb + field_bytes(b);
    assert(s == pa + field_bytes(a) + (field_bytes(b) + field_bytes(c))) by {
        assert(s =~= pa + field_bytes(a) + (field_bytes(b) + field_bytes(c)));
    }
    lemma_field_at_concat(pa, a, field_bytes(b) + field_bytes(c));
    let p1 = (pa.len() + 4 + a.len()) as int;
    assert(field_at(s, 1) == Some((a, p1)));
    assert(s == pb + field_bytes(b) + field_bytes(c)) by {
        assert(s =~= pb + field_bytes(b) + field_bytes(c));
    }
    assert(pb.len() == p1);
    lemma_field_at_concat(pb, b, field_bytes(c));
    let p2 = (pb.len() + 4 + b.len()) as int;
    assert(field_at(s, p1) == Some((b, p2)));
    assert(s == pc + field_bytes(c) + Seq::<u8>::empty()) by {
        assert(s =~= pc + field_bytes(c) + Seq::<u8>::empty());
    }
    assert(pc.len() == p2);
    lemma_field_at_concat(pc, c, Seq::<u8>::empty());
    assert(field_at(s, p2) == Some((c, (pc.len() + 4 + c.len()) as int)));
}

proof fn lemma_payload_roundtrip(f: FrameModel)
    requires
        frame_fits(f),
    ensures
        decode_payload_spec(payload_bytes(f)) == Ok::<FrameModel, FrameError>(f),
{
    match f {
        FrameModel::Config { from, unl, body } => {
            lemma_three_fields(2u8, vstd::utf8::encode_utf8(from), unl, body);
            vstd::utf8::encode_utf8_decode_utf8(from);
            vstd::utf8::encode_utf8_valid_utf8(from);
        },
        FrameModel::Emit { receiver, unl, body } => {
            lemma_three_fields(16u8, vstd::utf8::encode_utf8(receiver), unl, body);
            vstd::utf8::encode_utf8_decode_utf8(receiver);
            vstd::utf8::encode_utf8_valid_utf8(receiver);
        },
        _ => {},
    }
}

/// Reading a frame back from what `encode_frame` wrote gives the same frame
/// (strings come back through lossy UTF-8 decoding, which is exact on the
/// valid UTF-8 that encoding produced), and the read stops right after it.
pub proof fn lemma_frame_roundtrip(f: FrameModel, rest: Seq<u8>)
    requires
        frame_fits(f),
    ensures
        read_frame_spec(frame_bytes(f) + rest, 0) == Ok::<Option<(FrameModel, int)>, FrameError>(
            Some((f, frame_bytes(f).len() as int)),
        ),
{
    let p = payload_bytes(f);
    let s = frame_bytes(f) + rest;
    lemma_be32_roundtrip(p.len() as u32);
    assert(s.subrange(0, 4) =~= be32(p.len() as u32));
    assert(s.subrange(4, 4 + p.len() as int) =~= p);
    lemma_payload_roundtrip(f);
}

/// The largest blob a peer may announce before anything is allocated.
pub const MAX_BLOB: usize = 1048576;

/// Why a blob could not be read.
#[derive(Clone, Copy, Debug, PartialEq, Eq)]
pub enum BlobError {
    /// The stream ended before the blob did.
    UnexpectedEof,
    /// The announced length exceeds [`MAX_BLOB`].
    TooLarge,
}

/// A blob on the wire: `len(u32 BE) | bytes`.
pub fn write_blob(b: &[u8]) -> (out: Vec<u8>)
    ensures
        out@ == field_bytes(b@),
{
    let mut out: Vec<u8> = Vec::new();
    put_field(&mut out, b);
    out
}

/// Reads one blob from the front of `bytes`, refusing an announced length
/// above [`MAX_BLOB`] before reading any of its data.
pub fn read_blob(bytes: &[u8]) -> (r: Result<Vec<u8>, BlobError>)
    ensures
        bytes@.len() < 4 ==> r == Err::<Vec<u8>, BlobError>(BlobError::UnexpectedEof),
        bytes@.len() >= 4 ==> {
            let n = be32_value(bytes@.subrange(0, 4));
            &&& n > MAX_BLOB ==> r == Err::<Vec<u8>, BlobError>(BlobError::TooLarge)
            &&& n <= MAX_BLOB && bytes@.len() - 4 < n ==> r == Err::<Vec<u8>, BlobError>(BlobError::UnexpectedEof)
            &&& n <= MAX_BLOB && bytes@.len() - 4 >= n ==> (r matches Ok(v) && v@ == bytes@.subrange(4, 4 + n))
        },
{
    let n = bytes.len();
    if n < 4 {
        return Err(BlobError::UnexpectedEof);
    }
    let len = get_be32(bytes, 0) as usize;
    if len > MAX_BLOB {
        return Err(BlobError::TooLarge);
    }
    if n - 4 < len {
        return Err(BlobError::UnexpectedEof);
    }
    Ok(copy_range(bytes, 4, len))
}

} // verus!
