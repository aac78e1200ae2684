//! The fixed 8-byte protocol header and its big-endian wire layout.

use vstd::prelude::*;

verus! {

/// Operation kind of a header.
#[derive(Clone, Copy, Debug, PartialEq, Eq, Structural)]
pub enum NmpOp {
    Read,
    ReadRsp,
    Write,
    WriteRsp,
}

/// Functional area of the protocol; only image management is used here.
#[derive(Clone, Copy, Debug, PartialEq, Eq, Structural)]
pub enum NmpGroup {
    Image,
}

/// Commands of the image group.
#[derive(Clone, Copy, Debug, PartialEq, Eq, Structural)]
pub enum NmpIdImage {
    State,
    Upload,
}

pub open spec fn op_code(op: NmpOp) -> u8 {
    match op {
        NmpOp::Read => 0,
        NmpOp::ReadRsp => 1,
        NmpOp::Write => 2,
        NmpOp::WriteRsp => 3,
    }
}

pub open spec fn op_of_code(b: u8) -> Option<NmpOp> {
    if b == 0 {
        Some(NmpOp::Read)
    } else if b == 1 {
        Some(NmpOp::ReadRsp)
    } else if b == 2 {
        Some(NmpOp::Write)
    } else if b == 3 {
        Some(NmpOp::WriteRsp)
    } else {
        None
    }
}

pub open spec fn group_code(g: NmpGroup) -> u16 {
    match g {
        NmpGroup::Image => 1,
    }
}

pub open spec fn image_cmd_code(c: NmpIdImage) -> u8 {
    match c {
        NmpIdImage::State => 0,
        NmpIdImage::Upload => 1,
    }
}

impl NmpOp {
    pub fn code(&self) -> (r: u8)
        ensures
            r == op_code(*self),
    {
        match self {
            NmpOp::Read => 0,
            NmpOp::ReadRsp => 1,
            NmpOp::Write => 2,
            NmpOp::WriteRsp => 3,
        }
    }

    pub fn from_code(b: u8) -> (r: Option<NmpOp>)
        ensures
            r == op_of_code(b),
    {
        if b == 0 {
            Some(NmpOp::Read)
        } else if b == 1 {
            Some(NmpOp::ReadRsp)
        } else if b == 2 {
            Some(NmpOp::Write)
        } else if b == 3 {
            Some(NmpOp::WriteRsp)
        } else {
            None
        }
    }
}

impl NmpGroup {
    pub fn code(&self) -> (r: u16)
        ensures
            r == group_code(*self),
    {
        match self {
            NmpGroup::Image => 1,
        }
    }
}

impl NmpIdImage {
    pub fn code(&self) -> (r: u8)
        ensures
            r == image_cmd_code(*self),
    {
        match self {
            NmpIdImage::State => 0,
            NmpIdImage::Upload => 1,
        }
    }
}

/// A decoded or to-be-encoded protocol header. `group` and `id` are kept as
/// their wire values, so that a response of any group can be represented.
#[derive(Clone, Copy, Debug, PartialEq, Eq, Structural)]
pub struct NmpHdr {
    pub op: NmpOp,
    pub flags: u8,
    pub len: u16,
    pub group: u16,
    pub seq: u8,
    pub id: u8,
}

/// Big-endian bytes of a 16-bit value.
pub open spec fn be16(v: u16) -> Seq<u8> {
    seq![(v / 256) as u8, (v % 256) as u8]
}

/// The 16-bit value of two big-endian bytes.
pub open spec fn be16_value(hi: u8, lo: u8) -> u16 {
    (hi as nat * 256 + lo as nat) as u16
}

/// Wire layout: op | flags | length (2) | group (2) | sequence | command id.
pub open spec fn hdr_bytes(h: NmpHdr) -> Seq<u8> {
    seq![op_code(h.op), h.flags] + be16(h.len) + be16(h.group) + seq![h.seq, h.id]
}

/// The header that the first 8 bytes of `b` describe, if any.
pub open spec fn parse_hdr(b: Seq<u8>) -> Option<NmpHdr> {
    if b.len() < 8 {
        None
    } else {
        match op_of_code(b[0]) {
            Some(op) => Some(
                NmpHdr {
                    op,
                    flags: b[1],
                    len: be16_value(b[2], b[3]),
                    group: be16_value(b[4], b[5]),
                    seq: b[6],
                    id: b[7],
                },
            ),
            None => None,
        }
    }
}

pub fn be16_bytes(v: u16) -> (r: [u8; 2])
    ensures
        r@ == be16(v),
{
    [(v / 256) as u8, (v % 256) as u8]
}

pub fn read_be16(hi: u8, lo: u8) -> (r: u16)
    ensures
        r == be16_value(hi, lo),
{
    (hi as u16) * 256 + (lo as u16)
}

pub proof fn lemma_be16_round_trip(v: u16)
    ensures
        be16_value(be16(v)[0], be16(v)[1]) == v,
{
}

impl NmpHdr {
    /// A request header with zero flags, length and sequence.
    pub fn new_req(op: NmpOp, group: NmpGroup, id: NmpIdImage) -> (r: NmpHdr)
        ensures
            r == (NmpHdr { op, flags: 0, len: 0, group: group_code(group), seq: 0, id: image_cmd_code(id) }),
    {
        NmpHdr { op, flags: 0, len: 0, group: group.code(), seq: 0, id: id.code() }
    }

    /// The 8 wire bytes of the header.
    pub fn serialize(&self) -> (r: Vec<u8>)
        ensures
            r@ == hdr_bytes(*self),
    {
        let len = be16_bytes(self.len);
        let group = be16_bytes(self.group);
        let mut v: Vec<u8> = Vec::new();
        v.push(self.op.code());
        v.push(self.flags);
        v.push(len[0]);
        v.push(len[1]);
        v.push(group[0]);
        v.push(group[1]);
        v.push(self.seq);
        v.push(self.id);
        assert(v@ =~= hdr_bytes(*self));
        v
    }

    /// Reads a header from the first 8 bytes of `b`; `None` when `b` is
    /// shorter or its first byte names no operation.
    pub fn deserialize(b: &Vec<u8>) -> (r: Option<NmpHdr>)
        ensures
            r == parse_hdr(b@),
    {
        if b.len() < 8 {
            return None;
        }
        match NmpOp::from_code(b[0]) {
            Some(op) => Some(
                NmpHdr {
                    op,
                    flags: b[1],
                    len: read_be16(b[2], b[3]),
                    group: read_be16(b[4], b[5]),
                    seq: b[6],
                    id: b[7],
                },
            ),
            None => None,
        }
    }
}

/// A serialized header reads back as itself, whatever follows it.
pub proof fn lemma_hdr_round_trip(h: NmpHdr, rest: Seq<u8>)
    ensures
        parse_hdr(hdr_bytes(h) + rest) == Some(h),
{
    let b = hdr_bytes(h) + rest;
    lemma_be16_round_trip(h.len);
    lemma_be16_round_trip(h.group);
    assert(b[0] == op_code(h.op));
    assert(b[2] == be16(h.len)[0] && b[3] == be16(h.len)[1]);
    assert(b[4] == be16(h.group)[0] && b[5] == be16(h.group)[1]);
    assert(b[6] == h.seq && b[7] == h.id && b[1] == h.flags);
}

} // verus!
