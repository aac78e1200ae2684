//! Frames: length prefix, header, payload and CRC16/XMODEM checksum, carried
//! as base64 text cut into marked lines.

use vstd::prelude::*;

use crate::config::Cli;
use crate::external::{
    base64_decode, base64_decoded, base64_encode, base64_of, crc16_xmodem, crc16_xmodem_of,
};
use crate::header::{
    be16, be16_bytes, be16_value, group_code, hdr_bytes, image_cmd_code, lemma_be16_round_trip,
    lemma_hdr_round_trip, parse_hdr, read_be16, NmpGroup, NmpHdr, NmpIdImage, NmpOp,
};

verus! {

/// Largest payload whose frame length still fits the 16-bit length prefix.
pub const MAX_PAYLOAD: usize = 65525;

/// Marker bytes that open the first line of a frame.
pub const START_MARKER: [u8; 2] = [6, 9];

/// Marker bytes that open every further line of a frame.
pub const CONTINUATION_MARKER: [u8; 2] = [4, 20];

/// Byte that ends every line.
pub const LINE_END: u8 = 10;

/// Why a frame could not be built or read.
#[derive(Clone, Copy, Debug, PartialEq, Eq, Structural)]
pub enum FrameError {
    /// The payload does not fit a frame's 16-bit length prefix.
    TooLong,
    /// The line is not valid base64.
    BadEncoding,
    /// Too few bytes for a length prefix, header and checksum.
    Short,
    /// The length prefix differs from the number of bytes after it.
    LengthMismatch,
    /// The checksum differs from that of the header and payload.
    ChecksumMismatch,
    /// The header names no known operation.
    BadHeader,
}

/// Header followed by payload: the bytes that the checksum covers.
pub open spec fn frame_core(h: NmpHdr, payload: Seq<u8>) -> Seq<u8> {
    hdr_bytes(h) + payload
}

/// The binary frame: total length, header, payload, checksum.
pub open spec fn frame_bytes(h: NmpHdr, payload: Seq<u8>) -> Seq<u8> {
    let core = frame_core(h, payload);
    be16((core.len() + 2) as u16) + core + be16(crc16_xmodem_of(core))
}

pub open spec fn marker(first: bool) -> Seq<u8> {
    if first {
        seq![6u8, 9u8]
    } else {
        seq![4u8, 20u8]
    }
}

/// `text` cut into lines of at most `width` bytes, each opened by a marker
/// (the start marker if `first`, then continuation markers) and ended by a newline.
pub open spec fn wire_lines(text: Seq<u8>, width: nat, first: bool) -> Seq<u8>
    decreases text.len(),
{
    if text.len() == 0 || width == 0 {
        seq![]
    } else {
        let n = if text.len() < width { text.len() } else { width };
        marker(first) + text.take(n as int) + seq![10u8] + wire_lines(
            text.skip(n as int),
            width,
            false,
        )
    }
}

/// The header that `encode_request` builds for a payload of `n` bytes.
pub open spec fn request_header(
    op: NmpOp,
    group: NmpGroup,
    id: NmpIdImage,
    n: nat,
    seq_id: u8,
) -> NmpHdr {
    NmpHdr {
        op,
        flags: 0,
        len: n as u16,
        group: group_code(group),
        seq: seq_id,
        id: image_cmd_code(id),
    }
}

/// What a binary frame (base64 already undone) decodes to.
pub open spec fn decode_frame_spec(b: Seq<u8>) -> Result<(NmpHdr, Seq<u8>), FrameError> {
    let n = b.len();
    if n < 2 {
        Err(FrameError::Short)
    } else if be16_value(b[0], b[1]) as int != n - 2 {
        Err(FrameError::LengthMismatch)
    } else if n < 12 {
        Err(FrameError::Short)
    } else if be16_value(b[n - 2], b[n - 1]) != crc16_xmodem_of(b.subrange(2, n - 2)) {
        Err(FrameError::ChecksumMismatch)
    } else {
        match parse_hdr(b.subrange(2, n - 2)) {
            Some(h) => Ok((h, b.subrange(10, n - 2))),
            None => Err(FrameError::BadHeader),
        }
    }
}

/// What a received line (markers and newline stripped) decodes to.
pub open spec fn decode_line_spec(line: Seq<u8>) -> Result<(NmpHdr, Seq<u8>), FrameError> {
    match base64_decoded(line) {
        Some(b) => decode_frame_spec(b),
        None => Err(FrameError::BadEncoding),
    }
}

pub open spec fn decoded_view(r: Result<(NmpHdr, Vec<u8>), FrameError>) -> Result<
    (NmpHdr, Seq<u8>),
    FrameError,
> {
    match r {
        Ok((h, p)) => Ok((h, p@)),
        Err(e) => Err(e),
    }
}

/// Cuts `text` into marked lines of at most `width` bytes.
fn split_lines(text: &Vec<u8>, width: usize) -> (r: Vec<u8>)
    requires
        width > 0,
    ensures
        r@ == wire_lines(text@, width as nat, true),
{
    let mut data: Vec<u8> = Vec::new();
    let total = text.len();
    let mut written: usize = 0;
    assert(text@.skip(0) =~= text@);
    assert(data@ + wire_lines(text@, width as nat, true) =~= wire_lines(text@, width as nat, true));
    while written < total
        invariant
            width > 0,
            total == text@.len(),
            written <= total,
            data@ + wire_lines(text@.skip(written as int), width as nat, written == 0)
                == wire_lines(text@, width as nat, true),
        decreases total - written,
    {
        let ghost rest = text@.skip(written as int);
        let ghost before = data@;
        if written == 0 {
            data.push(START_MARKER[0]);
            data.push(START_MARKER[1]);
        } else {
            data.push(CONTINUATION_MARKER[0]);
            data.push(CONTINUATION_MARKER[1]);
        }
        let n = if total - written < width { total - written } else { width };
        let mut i: usize = written;
        while i < written + n
            invariant
                written + n <= total,
                total == text@.len(),
                written <= i <= written + n,
                data@ == before + marker(written == 0) + text@.subrange(written as int, i as int),
            decreases written + n - i,
        {
            data.push(text[i]);
            i = i + 1;
        }
        data.push(LINE_END);
        assert(rest.take(n as int) =~= text@.subrange(written as int, (written + n) as int));
        assert(rest.skip(n as int) =~= text@.skip((written + n) as int));
        assert(data@ =~= before + marker(written == 0) + rest.take(n as int) + seq![10u8]);
        written = written + n;
    }
    assert(text@.skip(total as int) =~= Seq::<u8>::empty());
    assert(data@ =~= data@ + wire_lines(text@.skip(written as int), width as nat, written == 0));
    data
}

/// Builds a request frame for `body` and the header that it carries.
/// Fails only when `body` is longer than `MAX_PAYLOAD`.
pub fn encode_request(
    cli: &Cli,
    op: NmpOp,
    group: NmpGroup,
    id: NmpIdImage,
    body: &Vec<u8>,
    seq_id: u8,
) -> (r: Result<(Vec<u8>, NmpHdr), FrameError>)
    requires
        cli.linelength > 4,
    ensures
        body@.len() > MAX_PAYLOAD ==> r == Err::<(Vec<u8>, NmpHdr), FrameError>(
            FrameError::TooLong,
        ),
        body@.len() <= MAX_PAYLOAD ==> r is Ok,
        r matches Ok((w, h)) ==> h == request_header(op, group, id, body@.len(), seq_id)
            && w@ == wire_lines(
            base64_of(frame_bytes(h, body@)),
            (cli.linelength - 4) as nat,
            true,
        ),
{
    if body.len() > MAX_PAYLOAD {
        return Err(FrameError::TooLong);
    }
    let mut header = NmpHdr::new_req(op, group, id);
    header.seq = seq_id;
    header.len = body.len() as u16;
    let mut core = header.serialize();
    let mut i: usize = 0;
    while i < body.len()
        invariant
            i <= body@.len(),
            core@ == hdr_bytes(header) + body@.take(i as int),
        decreases body@.len() - i,
    {
        core.push(body[i]);
        i = i + 1;
        assert(body@.take(i as int) =~= body@.take((i - 1) as int).push(body@[i - 1]));
    }
    assert(body@.take(i as int) =~= body@);
    let ghost core_view = core@;
    let checksum = be16_bytes(crc16_xmodem(&core));
    let prefix = be16_bytes((core.len() + 2) as u16);
    let mut framed: Vec<u8> = Vec::new();
    framed.push(prefix[0]);
    framed.push(prefix[1]);
    framed.append(&mut core);
    framed.push(checksum[0]);
    framed.push(checksum[1]);
    assert(framed@ =~= frame_bytes(header, body@));
    let text = base64_encode(&framed);
    let lines = split_lines(&text, cli.linelength - 4);
    Ok((lines, header))
}

/// Checks and splits a binary frame into its header and payload.
pub fn decode_frame(b: &Vec<u8>) -> (r: Result<(NmpHdr, Vec<u8>), FrameError>)
    ensures
        decoded_view(r) == decode_frame_spec(b@),
{
    let n = b.len();
    if n < 2 {
        return Err(FrameError::Short);
    }
    if read_be16(b[0], b[1]) as usize != n - 2 {
        return Err(FrameError::LengthMismatch);
    }
    if n < 12 {
        return Err(FrameError::Short);
    }
    let mut core: Vec<u8> = Vec::new();
    let mut i: usize = 2;
    while i < n - 2
        invariant
            n == b@.len(),
            n >= 12,
            2 <= i <= n - 2,
            core@ == b@.subrange(2, i as int),
        decreases n - 2 - i,
    {
        core.push(b[i]);
        i = i + 1;
        assert(core@ =~= b@.subrange(2, i as int));
    }
    if read_be16(b[n - 2], b[n - 1]) != crc16_xmodem(&core) {
        return Err(FrameError::ChecksumMismatch);
    }
    match NmpHdr::deserialize(&core) {
        Some(h) => {
            let mut payload: Vec<u8> = Vec::new();
            let mut j: usize = 10;
            while j < n - 2
                invariant
                    n == b@.len(),
                    n >= 12,
                    10 <= j <= n - 2,
                    payload@ == b@.subrange(10, j as int),
                decreases n - 2 - j,
            {
                payload.push(b[j]);
                j = j + 1;
                assert(payload@ =~= b@.subrange(10, j as int));
            }
            Ok((h, payload))
        },
        None => Err(FrameError::BadHeader),
    }
}

/// Decodes one received line, its marker and newline already stripped.
pub fn decode_response(line: &Vec<u8>) -> (r: Result<(NmpHdr, Vec<u8>), FrameError>)
    ensures
        decoded_view(r) == decode_line_spec(line@),
{
    match base64_decode(line) {
        Some(b) => decode_frame(&b),
        None => Err(FrameError::BadEncoding),
    }
}

/// Decoding an encoded frame gives back its header and payload exactly.
pub proof fn lemma_frame_round_trip(h: NmpHdr, payload: Seq<u8>)
    requires
        payload.len() <= MAX_PAYLOAD,
    ensures
        decode_frame_spec(frame_bytes(h, payload)) == Ok::<(NmpHdr, Seq<u8>), FrameError>(
            (h, payload),
        ),
{
    let core = frame_core(h, payload);
    let b = frame_bytes(h, payload);
    let n = b.len();
    let crc = crc16_xmodem_of(core);
    lemma_be16_round_trip((core.len() + 2) as u16);
    lemma_be16_round_trip(crc);
    assert(b.subrange(2, n - 2) =~= core);
    assert(b[n - 2] == be16(crc)[0] && b[n - 1] == be16(crc)[1]);
    lemma_hdr_round_trip(h, payload);
    assert(b.subrange(10, n - 2) =~= payload);
}

/// Any length prefix other than the number of bytes that follow it is
/// reported as a length mismatch.
pub proof fn lemma_length_prefix_checked(h: NmpHdr, payload: Seq<u8>, v: u16)
    requires
        payload.len() <= MAX_PAYLOAD,
        v as int != frame_bytes(h, payload).len() - 2,
    ensures
        decode_frame_spec(be16(v) + frame_bytes(h, payload).skip(2)) == Err::<
            (NmpHdr, Seq<u8>),
            FrameError,
        >(FrameError::LengthMismatch),
{
    let b = be16(v) + frame_bytes(h, payload).skip(2);
    lemma_be16_round_trip(v);
    assert(b[0] == be16(v)[0] && b[1] == be16(v)[1]);
    assert(b.len() == frame_bytes(h, payload).len());
}

/// A frame whose header or payload bytes were altered in transit, with its
/// length prefix and checksum left as sent, decodes to a checksum mismatch
/// whenever the altered bytes have another checksum than the sent ones.
pub proof fn lemma_altered_core_detected(h: NmpHdr, payload: Seq<u8>, altered: Seq<u8>)
    requires
        payload.len() <= MAX_PAYLOAD,
        altered.len() == frame_core(h, payload).len(),
        crc16_xmodem_of(altered) != crc16_xmodem_of(frame_core(h, payload)),
    ensures
        decode_frame_spec(
            frame_bytes(h, payload).take(2) + altered + frame_bytes(h, payload).skip(
                frame_bytes(h, payload).len() - 2,
            ),
        ) == Err::<(NmpHdr, Seq<u8>), FrameError>(FrameError::ChecksumMismatch),
{
    let core = frame_core(h, payload);
    let f = frame_bytes(h, payload);
    let b = f.take(2) + altered + f.skip(f.len() - 2);
    let n = b.len();
    let crc = crc16_xmodem_of(core);
    lemma_be16_round_trip((core.len() + 2) as u16);
    lemma_be16_round_trip(crc);
    assert(b[0] == f[0] && b[1] == f[1]);
    assert(b.subrange(2, n - 2) =~= altered);
    assert(b[n - 2] == be16(crc)[0] && b[n - 1] == be16(crc)[1]);
}

/// The text that marked lines of at most `width` bytes carry: what lies
/// between each 2-byte marker and the newline that ends its line.
pub open spec fn line_contents(wire: Seq<u8>, width: nat) -> Seq<u8>
    decreases wire.len(),
{
    if wire.len() <= 3 || width == 0 {
        seq![]
    } else {
        let rest = wire.skip(2);
        let n = if rest.len() - 1 < width { (rest.len() - 1) as nat } else { width };
        rest.take(n as int) + line_contents(rest.skip(n as int + 1), width)
    }
}

/// The line framing is undone by `line_contents`: together with the frame
/// round trip, this is the path that a transport takes back from the wire.
pub proof fn lemma_lines_round_trip(text: Seq<u8>, width: nat, first: bool)
    requires
        width > 0,
    ensures
        line_contents(wire_lines(text, width, first), width) == text,
    decreases text.len(),
{
    if text.len() == 0 {
        assert(text =~= Seq::<u8>::empty());
    } else {
        let n = if text.len() < width { text.len() } else { width };
        let w = wire_lines(text, width, first);
        let tail = wire_lines(text.skip(n as int), width, false);
        lemma_lines_round_trip(text.skip(n as int), width, false);
        let rest = w.skip(2);
        assert(rest =~= text.take(n as int) + seq![10u8] + tail);
        if text.len() < width {
            assert(text.skip(n as int).len() == 0);
            assert(tail =~= Seq::<u8>::empty());
        }
        assert(rest.take(n as int) =~= text.take(n as int));
        assert(rest.skip(n as int + 1) =~= tail);
        assert(text.take(n as int) + text.skip(n as int) =~= text);
    }
}

} // verus!
