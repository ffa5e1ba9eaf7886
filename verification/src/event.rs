//! Decoder for the fixed-layout records that the kernel probes publish.
//!
//! Every record starts with an 8-byte header of two little-endian `u32`
//! fields, `kind` and `pid`.  Kinds `0` and `1` describe process exec and
//! exit; kinds `2`, `3` and `4` are socket calls and are followed by a
//! 20-byte socket payload and, optionally, a 16-byte counter tail.  The
//! IPv4 addresses in the socket payload carry the network byte order, so
//! the decoder byte-swaps them into the canonical host value.

use vstd::prelude::*;
use vstd::bytes::*;

verus! {

/// Header kind tag for a process exec record.
pub const KIND_EXEC: u32 = 0;

/// Header kind tag for a process exit record.
pub const KIND_EXIT: u32 = 1;

/// Header kind tag for a TCP connect record.
pub const KIND_CONNECT: u32 = 2;

/// Header kind tag for a TCP accept record.
pub const KIND_ACCEPT: u32 = 3;

/// Header kind tag for a TCP close record.
pub const KIND_CLOSE: u32 = 4;

/// The socket call a record describes.
#[derive(Clone, Copy, Debug, PartialEq, Eq, Structural)]
pub enum Call {
    Accept,
    Close,
    Connect,
}

/// A process lifecycle event: the pid began executing or terminated.
#[derive(Clone, Copy, Debug, PartialEq, Eq, Structural)]
pub enum Exec {
    Exec(i32),
    Exit(i32),
}

/// An IPv4 endpoint: the address as its canonical big-endian value
/// (so `10.0.0.1` is `0x0A00_0001`) and the port in host order.
#[derive(Clone, Copy, Debug, PartialEq, Eq, Structural)]
pub struct SockAddr {
    pub addr: u32,
    pub port: u16,
}

/// A socket event with its traffic counters.
///
/// `rx` and `tx` are cumulative byte counters since socket creation,
/// `srtt` is the kernel smoothed round-trip time in microseconds and
/// `retx` the retransmit count.  All four are zero when the record
/// carried no counter tail.
#[derive(Clone, Copy, Debug, PartialEq, Eq, Structural)]
pub struct Sock {
    pub call: Call,
    pub pid: i32,
    pub src: SockAddr,
    pub dst: SockAddr,
    pub rx: u32,
    pub tx: u32,
    pub srtt: u32,
    pub retx: u32,
}

/// One decoded ring-buffer record.
#[derive(Clone, Copy, Debug, PartialEq, Eq, Structural)]
pub enum Event {
    Exec(Exec),
    Sock(Sock),
}

/// Why a record was rejected.
///
/// `BadHeader`: the buffer is shorter than a header, the kind tag is
/// outside the known range, or the pid does not fit a `i32`.
/// `BadSock`: the socket payload is shorter than its fixed part, or a
/// port does not fit 16 bits.
#[derive(Clone, Copy, Debug, PartialEq, Eq, Structural)]
pub enum DecodeError {
    BadHeader,
    BadSock,
}

/// The `u32` stored big-endian in four bytes.
pub open spec fn spec_u32_from_be_bytes(s: Seq<u8>) -> u32
    recommends
        s.len() == 4,
{
    spec_u32_from_le_bytes(seq![s[3], s[2], s[1], s[0]])
}

/// The four bytes of a `u32` in big-endian order.
pub open spec fn spec_u32_to_be_bytes(x: u32) -> Seq<u8> {
    let le = spec_u32_to_le_bytes(x);
    seq![le[3], le[2], le[1], le[0]]
}

/// What decoding the socket payload `d` (the record minus its header)
/// yields for a record of call `call` and process `pid`.  The counter
/// tail is read little-endian, the byte order of every machine the
/// probes run on.
pub open spec fn spec_sock_decode(call: Call, pid: i32, d: Seq<u8>) -> Result<Sock, DecodeError> {
    if d.len() < 20 {
        Err(DecodeError::BadSock)
    } else {
        let sport = spec_u32_from_le_bytes(d.subrange(8, 12));
        let dport = spec_u32_from_le_bytes(d.subrange(16, 20));
        if sport > u16::MAX as u32 || dport > u16::MAX as u32 {
            Err(DecodeError::BadSock)
        } else {
            let src = SockAddr { addr: spec_u32_from_be_bytes(d.subrange(4, 8)), port: sport as u16 };
            let dst = SockAddr {
                addr: spec_u32_from_be_bytes(d.subrange(12, 16)),
                port: dport as u16,
            };
            if d.len() == 36 {
                Ok(Sock {
                    call,
                    pid,
                    src,
                    dst,
                    rx: spec_u32_from_le_bytes(d.subrange(20, 24)),
                    tx: spec_u32_from_le_bytes(d.subrange(24, 28)),
                    srtt: spec_u32_from_le_bytes(d.subrange(28, 32)),
                    retx: spec_u32_from_le_bytes(d.subrange(32, 36)),
                })
            } else {
                Ok(Sock { call, pid, src, dst, rx: 0, tx: 0, srtt: 0, retx: 0 })
            }
        }
    }
}

/// What decoding a whole raw record yields.
pub open spec fn spec_decode(b: Seq<u8>) -> Result<Event, DecodeError> {
    if b.len() < 8 {
        Err(DecodeError::BadHeader)
    } else {
        let kind = spec_u32_from_le_bytes(b.subrange(0, 4));
        let pid32 = spec_u32_from_le_bytes(b.subrange(4, 8));
        if kind > KIND_CLOSE {
            Err(DecodeError::BadHeader)
        } else if pid32 > i32::MAX as u32 {
            Err(DecodeError::BadHeader)
        } else if kind == KIND_EXEC {
            Ok(Event::Exec(Exec::Exec(pid32 as i32)))
        } else if kind == KIND_EXIT {
            Ok(Event::Exec(Exec::Exit(pid32 as i32)))
        } else {
            let call = if kind == KIND_CONNECT {
                Call::Connect
            } else if kind == KIND_ACCEPT {
                Call::Accept
            } else {
                Call::Close
            };
            match spec_sock_decode(call, pid32 as i32, b.subrange(8, b.len() as int)) {
                Ok(s) => Ok(Event::Sock(s)),
                Err(e) => Err(e),
            }
        }
    }
}

impl Event {
    /// Decode one ring-buffer slot.
    pub fn read(buf: &[u8]) -> (r: Result<Event, DecodeError>)
        ensures
            r == spec_decode(buf@),
    {
        if buf.len() < 8 {
            return Err(DecodeError::BadHeader);
        }
        let kind = u32_from_le_bytes(&buf[0..4]);
        let pid32 = u32_from_le_bytes(&buf[4..8]);
        if kind > KIND_CLOSE {
            return Err(DecodeError::BadHeader);
        }
        if pid32 > i32::MAX as u32 {
            return Err(DecodeError::BadHeader);
        }
        let pid = pid32 as i32;
        if kind == KIND_EXEC {
            Ok(Event::Exec(Exec::Exec(pid)))
        } else if kind == KIND_EXIT {
            Ok(Event::Exec(Exec::Exit(pid)))
        } else {
            let call = if kind == KIND_CONNECT {
                Call::Connect
            } else if kind == KIND_ACCEPT {
                Call::Accept
            } else {
                Call::Close
            };
            match Sock::read(call, pid, &buf[8..buf.len()]) {
                Ok(s) => Ok(Event::Sock(s)),
                Err(e) => Err(e),
            }
        }
    }
}

impl Sock {
    /// Decode the socket payload that follows a header of call `call`
    /// and process `pid`.
    pub fn read(call: Call, pid: i32, buf: &[u8]) -> (r: Result<Sock, DecodeError>)
        ensures
            r == spec_sock_decode(call, pid, buf@),
    {
        if buf.len() < 20 {
            return Err(DecodeError::BadSock);
        }
        let sport = u32_from_le_bytes(&buf[8..12]);
        let dport = u32_from_le_bytes(&buf[16..20]);
        if sport > u16::MAX as u32 || dport > u16::MAX as u32 {
            return Err(DecodeError::BadSock);
        }
        let src = SockAddr { addr: u32_from_be_bytes(&buf[4..8]), port: sport as u16 };
        let dst = SockAddr { addr: u32_from_be_bytes(&buf[12..16]), port: dport as u16 };
        if buf.len() == 36 {
            Ok(Sock {
                call,
                pid,
                src,
                dst,
                rx: u32_from_le_bytes(&buf[20..24]),
                tx: u32_from_le_bytes(&buf[24..28]),
                srtt: u32_from_le_bytes(&buf[28..32]),
                retx: u32_from_le_bytes(&buf[32..36]),
            })
        } else {
            Ok(Sock { call, pid, src, dst, rx: 0, tx: 0, srtt: 0, retx: 0 })
        }
    }
}

impl Call {
    /// The textual form of the call, as output records carry it.
    pub open spec fn spec_label(self) -> Seq<char> {
        match self {
            Call::Accept => "Accept"@,
            Call::Close => "Close"@,
            Call::Connect => "Connect"@,
        }
    }

    /// Render the call's name.
    pub fn label(&self) -> (s: &'static str)
        ensures
            s@ == self.spec_label(),
    {
        match self {
            Call::Accept => "Accept",
            Call::Close => "Close",
            Call::Connect => "Connect",
        }
    }
}

/// The eight bytes that carry an endpoint inside a socket payload:
/// the address back in network order, then the port as a little-endian
/// `u32`.
pub open spec fn spec_encode_addr(a: SockAddr) -> Seq<u8> {
    spec_u32_to_be_bytes(a.addr) + spec_u32_to_le_bytes(a.port as u32)
}

/// Write an endpoint back into its wire form.
pub fn encode_addr(a: &SockAddr) -> (v: Vec<u8>)
    ensures
        v@ == spec_encode_addr(*a),
{
    let le = u32_to_le_bytes(a.addr);
    let ple = u32_to_le_bytes(a.port as u32);
    let mut v: Vec<u8> = Vec::new();
    v.push(le[3]);
    v.push(le[2]);
    v.push(le[1]);
    v.push(le[0]);
    v.push(ple[0]);
    v.push(ple[1]);
    v.push(ple[2]);
    v.push(ple[3]);
    proof {
        assert(v@ =~= spec_encode_addr(*a));
    }
    v
}

/// Every 8-byte record whose kind tag is exec or exit decodes to the
/// matching process event and preserves the pid.
pub proof fn lemma_exec_header_decodes(b: Seq<u8>)
    requires
        b.len() == 8,
        spec_u32_from_le_bytes(b.subrange(0, 4)) <= KIND_EXIT,
        spec_u32_from_le_bytes(b.subrange(4, 8)) <= i32::MAX as u32,
    ensures
        ({
            let pid = spec_u32_from_le_bytes(b.subrange(4, 8)) as i32;
            spec_decode(b) == if spec_u32_from_le_bytes(b.subrange(0, 4)) == KIND_EXEC {
                Ok::<Event, DecodeError>(Event::Exec(Exec::Exec(pid)))
            } else {
                Ok::<Event, DecodeError>(Event::Exec(Exec::Exit(pid)))
            }
        }),
{
}

/// A record with a kind tag outside the known range is rejected and
/// yields no event.
pub proof fn lemma_unknown_kind_rejected(b: Seq<u8>)
    requires
        b.len() >= 8,
        spec_u32_from_le_bytes(b.subrange(0, 4)) > KIND_CLOSE,
    ensures
        spec_decode(b) == Err::<Event, DecodeError>(DecodeError::BadHeader),
{
}

/// The well-formedness conditions of a socket record: a socket kind tag,
/// a pid that fits, and ports that fit 16 bits.
pub open spec fn sock_record_well_formed(b: Seq<u8>) -> bool {
    &&& b.len() >= 28
    &&& KIND_CONNECT <= spec_u32_from_le_bytes(b.subrange(0, 4)) <= KIND_CLOSE
    &&& spec_u32_from_le_bytes(b.subrange(4, 8)) <= i32::MAX as u32
    &&& spec_u32_from_le_bytes(b.subrange(16, 20)) <= u16::MAX as u32
    &&& spec_u32_from_le_bytes(b.subrange(24, 28)) <= u16::MAX as u32
}

/// Decoding a well-formed 28-byte socket record and encoding the two
/// endpoints again yields the original address and port bytes.
pub proof fn lemma_addr_round_trip(b: Seq<u8>)
    requires
        b.len() == 28,
        sock_record_well_formed(b),
    ensures
        spec_decode(b) matches Ok(ev) && ev matches Event::Sock(s) && {
            &&& spec_encode_addr(s.src) == b.subrange(12, 20)
            &&& spec_encode_addr(s.dst) == b.subrange(20, 28)
        },
{
    lemma_auto_spec_u32_to_from_le_bytes();
    let d = b.subrange(8, 28);
    assert(d.subrange(8, 12) =~= b.subrange(16, 20));
    assert(d.subrange(16, 20) =~= b.subrange(24, 28));
    assert(d.subrange(4, 8) =~= b.subrange(12, 16));
    assert(d.subrange(12, 16) =~= b.subrange(20, 24));
    let sock = spec_sock_decode(
        if spec_u32_from_le_bytes(b.subrange(0, 4)) == KIND_CONNECT {
            Call::Connect
        } else if spec_u32_from_le_bytes(b.subrange(0, 4)) == KIND_ACCEPT {
            Call::Accept
        } else {
            Call::Close
        },
        spec_u32_from_le_bytes(b.subrange(4, 8)) as i32,
        d,
    );
    assert(sock is Ok);
    let s = sock->Ok_0;
    lemma_be_round_trip(b.subrange(12, 16));
    lemma_be_round_trip(b.subrange(20, 24));
    assert(spec_u32_to_le_bytes(s.src.port as u32) =~= b.subrange(16, 20));
    assert(spec_u32_to_le_bytes(s.dst.port as u32) =~= b.subrange(24, 28));
    assert(spec_encode_addr(s.src) =~= b.subrange(12, 20));
    assert(spec_encode_addr(s.dst) =~= b.subrange(20, 28));
}

/// Reading four bytes big-endian and writing the value back yields the
/// same four bytes.
pub proof fn lemma_be_round_trip(s: Seq<u8>)
    requires
        s.len() == 4,
    ensures
        spec_u32_to_be_bytes(spec_u32_from_be_bytes(s)) == s,
{
    lemma_auto_spec_u32_to_from_le_bytes();
    let rev = seq![s[3], s[2], s[1], s[0]];
    assert(spec_u32_to_le_bytes(spec_u32_from_le_bytes(rev)) == rev);
    assert(spec_u32_to_be_bytes(spec_u32_from_be_bytes(s)) =~= s);
}

/// A socket record whose counter tail has any length other than zero or
/// sixteen decodes with all four traffic counters zero.
pub proof fn lemma_partial_tail_zeroes_counters(b: Seq<u8>)
    requires
        sock_record_well_formed(b),
        b.len() != 28,
        b.len() != 44,
    ensures
        spec_decode(b) matches Ok(ev) && ev matches Event::Sock(s) && {
            &&& s.rx == 0
            &&& s.tx == 0
            &&& s.srtt == 0
            &&& s.retx == 0
        },
{
    let d = b.subrange(8, b.len() as int);
    assert(d.subrange(8, 12) =~= b.subrange(16, 20));
    assert(d.subrange(16, 20) =~= b.subrange(24, 28));
}

/// Read a big-endian `u32` from four bytes.
pub fn u32_from_be_bytes(s: &[u8]) -> (x: u32)
    requires
        s@.len() == 4,
    ensures
        x == spec_u32_from_be_bytes(s@),
{
    let mut rev: Vec<u8> = Vec::new();
    rev.push(s[3]);
    rev.push(s[2]);
    rev.push(s[1]);
    rev.push(s[0]);
    proof {
        assert(rev@ =~= seq![s@[3], s@[2], s@[1], s@[0]]);
    }
    u32_from_le_bytes(rev.as_slice())
}

} // verus!
