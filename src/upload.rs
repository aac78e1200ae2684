//! Decisions of a chunked, resumable image upload. The caller performs each
//! exchange and reports back: what a request looked like once encoded, and
//! what the device answered.

use vstd::prelude::*;

use crate::config::Cli;
use crate::external::{sha256, sha256_of};
use crate::header::{group_code, NmpGroup, NmpHdr, NmpOp};
use crate::sequence::{id_after, next_seq_id, SeqCounter};

verus! {

/// Body of one image-upload write request.
pub struct ImageUploadReq {
    pub image_num: u32,
    pub off: u32,
    /// Total image size; only on the chunk at offset 0.
    pub len: Option<u32>,
    /// SHA-256 of the whole image; only on the chunk at offset 0.
    pub data_sha: Option<Vec<u8>>,
    pub upgrade: Option<bool>,
    pub data: Vec<u8>,
}

/// Why an exchange or an upload stopped.
#[derive(Clone, Copy, Debug, PartialEq, Eq, Structural)]
pub enum UploadError {
    /// Even an empty chunk does not fit the link MTU.
    MtuTooSmall,
    /// The response carries another sequence id than the request.
    WrongSequence,
    /// The response is not of the expected operation and group.
    WrongResponseType,
    /// The device returned a non-zero status code.
    DeviceError(i128),
    /// The device reported no offset, or the offset the chunk started at.
    OffsetNotAdvanced,
    /// The device reported an offset outside the image.
    OffsetOutOfRange(i128),
}

/// Outcome of a chunk that the device accepted.
#[derive(Clone, Copy, Debug, PartialEq, Eq, Structural)]
pub enum Progress {
    /// More of the image remains to be sent.
    Continue,
    /// The device holds the whole image.
    Done,
}

/// Abstract state of an upload.
pub struct UploadState {
    pub image: Seq<u8>,
    pub slot: u32,
    pub mtu: nat,
    /// Where the next chunk starts.
    pub off: nat,
    /// Where the current chunk started.
    pub off_start: nat,
    /// Chunk length to try next.
    pub try_length: nat,
    /// Sequence id of the current chunk.
    pub seq: u8,
}

/// A new chunk at the current offset: full length again, a fresh sequence id.
pub open spec fn start_chunk(s: UploadState, seq: u8) -> UploadState {
    UploadState { off_start: s.off, try_length: s.mtu, seq, ..s }
}

/// The chunk length actually used: the attempted length, cut at the image's end.
pub open spec fn chunk_len(s: UploadState) -> nat {
    if s.off + s.try_length > s.image.len() {
        (s.image.len() - s.off) as nat
    } else {
        s.try_length
    }
}

/// The state once the chunk length has been cut at the image's end.
pub open spec fn clamp(s: UploadState) -> UploadState {
    UploadState { try_length: chunk_len(s), ..s }
}

/// Raw bytes to give up for `reduce` bytes of encoded excess: base64 undone,
/// plus a margin for padding and rounding.
pub open spec fn shrink_amount(reduce: nat) -> nat {
    reduce * 3 / 4 + 3
}

/// Result of an encoded request of `encoded_len` bytes: `Ok(true)` to send it,
/// `Ok(false)` to build it again shorter, or a failure.
pub open spec fn after_encoded(s: UploadState, encoded_len: nat) -> (
    Result<bool, UploadError>,
    UploadState,
) {
    if encoded_len <= s.mtu {
        (Ok(true), s)
    } else if encoded_len - s.mtu > s.try_length {
        (Err(UploadError::MtuTooSmall), s)
    } else {
        let cut = shrink_amount((encoded_len - s.mtu) as nat);
        let t = if cut > s.try_length { 0 } else { (s.try_length - cut) as nat };
        (Ok(false), UploadState { try_length: t, ..s })
    }
}

/// Result of the device's answer to a chunk: its status code and offset, each
/// as found in the answer (`None` when absent or not an integer).
pub open spec fn after_response(s: UploadState, rc: Option<i128>, off: Option<i128>) -> (
    Result<Progress, UploadError>,
    UploadState,
) {
    if rc is Some && rc->0 != 0 {
        (Err(UploadError::DeviceError(rc->0)), s)
    } else {
        match off {
            None => (Err(UploadError::OffsetNotAdvanced), s),
            Some(v) => if v == s.off_start {
                (Err(UploadError::OffsetNotAdvanced), s)
            } else if v < 0 || v > s.image.len() {
                (Err(UploadError::OffsetOutOfRange(v)), s)
            } else if v == s.image.len() {
                (Ok(Progress::Done), UploadState { off: v as nat, ..s })
            } else {
                (Ok(Progress::Continue), UploadState { off: v as nat, ..s })
            },
        }
    }
}

/// The checks on a response header, given the request header it answers.
pub open spec fn response_check(req: NmpHdr, rsp: NmpHdr, expected: NmpOp) -> Result<
    (),
    UploadError,
> {
    if rsp.seq != req.seq {
        Err(UploadError::WrongSequence)
    } else if rsp.op != expected || rsp.group != group_code(NmpGroup::Image) {
        Err(UploadError::WrongResponseType)
    } else {
        Ok(())
    }
}

/// Checks that `rsp` answers `req`: same sequence id, the `expected`
/// operation, and the image group.
pub fn check_response(req: &NmpHdr, rsp: &NmpHdr, expected: NmpOp) -> (r: Result<
    (),
    UploadError,
>)
    ensures
        r == response_check(*req, *rsp, expected),
{
    if rsp.seq != req.seq {
        Err(UploadError::WrongSequence)
    } else if rsp.op != expected || rsp.group != NmpGroup::Image.code() {
        Err(UploadError::WrongResponseType)
    } else {
        Ok(())
    }
}

/// One upload of one image.
pub struct UploadSession {
    image: Vec<u8>,
    digest: Vec<u8>,
    slot: u32,
    mtu: usize,
    off: usize,
    off_start: usize,
    try_length: usize,
    seq: u8,
}

impl UploadSession {
    pub closed spec fn view(&self) -> UploadState {
        UploadState {
            image: self.image@,
            slot: self.slot,
            mtu: self.mtu as nat,
            off: self.off as nat,
            off_start: self.off_start as nat,
            try_length: self.try_length as nat,
            seq: self.seq,
        }
    }

    pub closed spec fn wf(&self) -> bool {
        &&& self.image@.len() <= u32::MAX
        &&& self.off <= self.image@.len()
        &&& self.off_start <= self.image@.len()
        &&& self.try_length <= self.mtu
        &&& self.digest@ == sha256_of(self.image@)
    }

    /// An upload of `image` to the slot and with the MTU of `cli`, at offset 0.
    /// The image's digest is computed here, once.
    pub fn new(image: Vec<u8>, cli: &Cli) -> (r: UploadSession)
        requires
            image@.len() <= u32::MAX,
        ensures
            r.wf(),
            r@ == (UploadState {
                image: image@,
                slot: cli.slot,
                mtu: cli.mtu as nat,
                off: 0,
                off_start: 0,
                try_length: cli.mtu as nat,
                seq: 0,
            }),
    {
        let digest = sha256(&image);
        UploadSession {
            image,
            digest,
            slot: cli.slot,
            mtu: cli.mtu,
            off: 0,
            off_start: 0,
            try_length: cli.mtu,
            seq: 0,
        }
    }

    /// Sequence id of the current chunk.
    pub fn seq_id(&self) -> (r: u8)
        ensures
            r == self@.seq,
    {
        self.seq
    }

    /// Where the next chunk starts.
    pub fn offset(&self) -> (r: usize)
        ensures
            r == self@.off,
    {
        self.off
    }

    /// Starts a chunk at the current offset, with a new sequence id from
    /// `counter` that all attempts at this chunk share.
    pub fn begin_chunk(&mut self, counter: &mut SeqCounter)
        requires
            old(self).wf(),
        ensures
            final(self).wf(),
            final(self)@ == start_chunk(old(self)@, old(counter)@),
            final(counter)@ == id_after(old(counter)@, 1),
    {
        self.off_start = self.off;
        self.try_length = self.mtu;
        self.seq = next_seq_id(counter);
    }

    /// The request body for the current attempt: the chunk at the current
    /// offset, and on the first chunk the image size and digest too.
    pub fn request(&mut self) -> (r: ImageUploadReq)
        requires
            old(self).wf(),
        ensures
            final(self).wf(),
            final(self)@ == clamp(old(self)@),
            r.image_num == old(self)@.slot,
            r.off == old(self)@.off,
            r.data@ == old(self)@.image.subrange(
                old(self)@.off as int,
                (old(self)@.off + chunk_len(old(self)@)) as int,
            ),
            r.upgrade is None,
            old(self)@.off == 0 ==> r.len == Some(old(self)@.image.len() as u32) && (
            r.data_sha matches Some(d) && d@ == sha256_of(old(self)@.image)),
            old(self)@.off != 0 ==> r.len is None && r.data_sha is None,
    {
        if self.try_length > self.image.len() - self.off {
            self.try_length = self.image.len() - self.off;
        }
        let end = self.off + self.try_length;
        let mut data: Vec<u8> = Vec::new();
        let mut i: usize = self.off;
        while i < end
            invariant
                self.off <= i <= end,
                end <= self.image@.len(),
                data@ == self.image@.subrange(self.off as int, i as int),
            decreases end - i,
        {
            data.push(self.image[i]);
            i = i + 1;
            assert(data@ =~= self.image@.subrange(self.off as int, i as int));
        }
        if self.off == 0 {
            ImageUploadReq {
                image_num: self.slot,
                off: 0,
                len: Some(self.image.len() as u32),
                data_sha: Some(self.digest.clone()),
                upgrade: None,
                data,
            }
        } else {
            ImageUploadReq {
                image_num: self.slot,
                off: self.off as u32,
                len: None,
                data_sha: None,
                upgrade: None,
                data,
            }
        }
    }

    /// Takes the size of the encoded request: `Ok(true)` when it fits the MTU
    /// and is to be sent; `Ok(false)` when the chunk was shortened and the
    /// request is to be built again; `MtuTooSmall` when no data can fit.
    pub fn after_encoding(&mut self, encoded_len: usize) -> (r: Result<bool, UploadError>)
        requires
            old(self).wf(),
        ensures
            final(self).wf(),
            (r, final(self)@) == after_encoded(old(self)@, encoded_len as nat),
    {
        if encoded_len <= self.mtu {
            return Ok(true);
        }
        let reduce = encoded_len - self.mtu;
        if reduce > self.try_length {
            return Err(UploadError::MtuTooSmall);
        }
        let cut = reduce / 4 * 3 + (reduce % 4) * 3 / 4 + 3;
        assert(cut == shrink_amount(reduce as nat)) by (nonlinear_arith)
            requires
                cut == reduce / 4 * 3 + (reduce % 4) * 3 / 4 + 3,
        ;
        self.try_length = self.try_length.saturating_sub(cut);
        Ok(false)
    }

    /// Takes the device's status code and offset: stops on a non-zero code,
    /// a missing or unchanged offset, or one outside the image; otherwise
    /// moves to the offset that the device reported.
    pub fn after_response(&mut self, rc: Option<i128>, off: Option<i128>) -> (r: Result<
        Progress,
        UploadError,
    >)
        requires
            old(self).wf(),
        ensures
            final(self).wf(),
            (r, final(self)@) == after_response(old(self)@, rc, off),
    {
        if let Some(c) = rc {
            if c != 0 {
                return Err(UploadError::DeviceError(c));
            }
        }
        match off {
            None => Err(UploadError::OffsetNotAdvanced),
            Some(v) => {
                if v == self.off_start as i128 {
                    Err(UploadError::OffsetNotAdvanced)
                } else if v < 0 || v > self.image.len() as i128 {
                    Err(UploadError::OffsetOutOfRange(v))
                } else {
                    self.off = v as usize;
                    if self.off == self.image.len() {
                        Ok(Progress::Done)
                    } else {
                        Ok(Progress::Continue)
                    }
                }
            },
        }
    }

    /// Share of the image that the device holds, in whole percent.
    pub fn percent(&self) -> (r: u64)
        requires
            self.wf(),
        ensures
            self@.image.len() == 0 ==> r == 100,
            self@.image.len() > 0 ==> r == 100 * self@.off / self@.image.len(),
    {
        if self.image.len() == 0 {
            100
        } else {
            (100 * self.off as u64) / (self.image.len() as u64)
        }
    }
}

/// An oversized request either ends the upload with `MtuTooSmall` or asks
/// for a strictly shorter chunk, never a longer one; at length 0 it always
/// ends. So the attempts at one chunk are at most its first length plus one.
pub proof fn lemma_shrink_converges(s: UploadState, encoded_len: nat)
    requires
        encoded_len > s.mtu,
    ensures
        after_encoded(s, encoded_len).0 == Err::<bool, UploadError>(UploadError::MtuTooSmall)
            || (after_encoded(s, encoded_len).0 == Ok::<bool, UploadError>(false)
            && after_encoded(s, encoded_len).1.try_length < s.try_length),
        s.try_length == 0 ==> after_encoded(s, encoded_len).0 == Err::<bool, UploadError>(
            UploadError::MtuTooSmall,
        ),
        after_encoded(s, encoded_len).1.off == s.off,
        after_encoded(s, encoded_len).1.seq == s.seq,
{
}

/// After a chunk that started at `s.off_start`, a device report of offset `v`
/// (another value, inside the image) makes the next chunk start at `v`,
/// whatever the chunk's own length was.
pub proof fn lemma_offset_resync(s: UploadState, rc: Option<i128>, v: i128, seq: u8)
    requires
        rc is None || rc == Some(0i128),
        v != s.off_start,
        0 <= v < s.image.len(),
    ensures
        after_response(s, rc, Some(v)).0 == Ok::<Progress, UploadError>(Progress::Continue),
        start_chunk(after_response(s, rc, Some(v)).1, seq).off == v,
        clamp(start_chunk(after_response(s, rc, Some(v)).1, seq)).off == v,
{
}

/// A device report of the offset the chunk started at, or of no offset,
/// ends the upload: no further chunk follows.
pub proof fn lemma_stall_stops(s: UploadState, rc: Option<i128>, v: i128)
    requires
        v == s.off_start,
    ensures
        after_response(s, rc, Some(v)).0 is Err,
        after_response(s, rc, None).0 is Err,
        rc is None || rc == Some(0i128) ==> after_response(s, rc, Some(v)).0
            == Err::<Progress, UploadError>(UploadError::OffsetNotAdvanced),
{
}

/// A non-zero status code ends the upload with that code, whatever offset
/// comes with it.
pub proof fn lemma_device_error_stops(s: UploadState, c: i128, off: Option<i128>)
    requires
        c != 0,
    ensures
        after_response(s, Some(c), off) == (
        Err::<Progress, UploadError>(UploadError::DeviceError(c)),
        s,
        ),
{
}

} // verus!
