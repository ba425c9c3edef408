//! Bringing up the loopback interface of an isolated network namespace.
//!
//! Two requests go to the kernel over a netlink socket: one gives the
//! interface the address 127.0.0.1/8, the other turns it on. Numbers in them
//! are in the byte order of the supported machines, the address is in network
//! order. No step uses the heap: they are carried out in a forked child.

use crate::linux::seccomp::{le16, le32};
use vstd::prelude::*;

verus! {

/// Request: new address.
pub const RTM_NEWADDR: u16 = 20;

/// Request: new link state.
pub const RTM_NEWLINK: u16 = 16;

/// Attribute: local address.
pub const IFA_LOCAL: u16 = 2;

/// Attribute: address.
pub const IFA_ADDRESS: u16 = 1;

/// Flag: this is a request.
pub const NLM_F_REQUEST: u16 = 1;

/// Flag: an acknowledgement is wanted.
pub const NLM_F_ACK: u16 = 4;

/// Flag: fail where there is one already.
pub const NLM_F_EXCL: u16 = 0x200;

/// Flag: make it where there is none.
pub const NLM_F_CREATE: u16 = 0x400;

/// The flags of the address request: request, acknowledgement, exclusive,
/// create.
pub const ADDRESS_FLAGS: u16 = 0x605;

/// The flags of the link request: request, acknowledgement.
pub const LINK_FLAGS: u16 = 0x5;

/// Alignment of netlink messages.
pub const NLMSG_ALIGNTO: usize = 4;

/// Interface flag: up.
pub const IFF_UP: u32 = 1;

/// Address family of IPv4.
pub const AF_INET: u8 = 2;

/// Length of a message header.
pub const HEADER_LEN: usize = 16;

/// The flags of the two requests are made of the parts that the kernel names.
pub proof fn request_flags()
    ensures
        ADDRESS_FLAGS == NLM_F_REQUEST | NLM_F_ACK | NLM_F_EXCL | NLM_F_CREATE,
        LINK_FLAGS == NLM_F_REQUEST | NLM_F_ACK,
{
    assert(0x605u16 == 1u16 | 4u16 | 0x200u16 | 0x400u16) by (bit_vector);
    assert(0x5u16 == 1u16 | 4u16) by (bit_vector);
}

/// `len` rounded up to the alignment of netlink messages.
pub fn nlmsg_align(len: usize) -> (r: usize)
    requires
        len <= usize::MAX - 3,
    ensures
        r as int % 4 == 0,
        len <= r < len + 4,
{
    (len + (NLMSG_ALIGNTO - 1)) / NLMSG_ALIGNTO * NLMSG_ALIGNTO
}

fn low_bytes(n: u32) -> (r: [u8; 4])
    ensures
        le32(r@, 0) == n,
{
    let b0: u8 = (n % 0x100) as u8;
    let b1: u8 = (n / 0x100 % 0x100) as u8;
    let b2: u8 = (n / 0x1_0000 % 0x100) as u8;
    let b3: u8 = (n / 0x100_0000) as u8;
    [b0, b1, b2, b3]
}

/// Whether the sixteen bytes at the head of a message are a header with this
/// length, type, flags and sequence number.
pub open spec fn has_header(b: Seq<u8>, len: int, kind: u16, flags: u16, seq_nr: int) -> bool {
    &&& le32(b, 0) == len
    &&& le16(b, 4) == kind
    &&& le16(b, 6) == flags
    &&& le32(b, 8) == seq_nr
    &&& le32(b, 12) == 0
}

/// Whether the eight bytes at `at` are an attribute that holds 127.0.0.1.
pub open spec fn has_loopback_attr(b: Seq<u8>, at: int, kind: u16) -> bool {
    &&& le16(b, at) == 8
    &&& le16(b, at + 2) == kind
    &&& b[at + 4] == 127
    &&& b[at + 5] == 0
    &&& b[at + 6] == 0
    &&& b[at + 7] == 1
}

/// The request that gives interface `lo_index` the address 127.0.0.1/8: a
/// header, the family, prefix length, flags, scope and interface, and the
/// address as local and as plain address.
pub fn newaddr_message(lo_index: u32) -> (r: [u8; 40])
    ensures
        has_header(r@, 40, RTM_NEWADDR, ADDRESS_FLAGS, 1),
        r@[16] == AF_INET,
        r@[17] == 8,
        r@[18] == 0,
        r@[19] == 0,
        le32(r@, 20) == lo_index,
        has_loopback_attr(r@, 24, IFA_LOCAL),
        has_loopback_attr(r@, 32, IFA_ADDRESS),
{
    let index = low_bytes(lo_index);
    let message: [u8; 40] = [
        40, 0, 0, 0, 20, 0, 0x05, 0x06, 1, 0, 0, 0, 0, 0, 0, 0,
        AF_INET, 8, 0, 0, index[0], index[1], index[2], index[3],
        8, 0, 2, 0, 127, 0, 0, 1,
        8, 0, 1, 0, 127, 0, 0, 1,
    ];
    message
}

/// The request that turns interface `lo_index` on: a header, the family, type
/// and number of the interface, and its flags with a mask of those to change.
pub fn newlink_message(lo_index: u32) -> (r: [u8; 32])
    ensures
        has_header(r@, 32, RTM_NEWLINK, LINK_FLAGS, 2),
        r@[16] == 0,
        r@[17] == 0,
        le16(r@, 18) == 0,
        le32(r@, 20) == lo_index,
        le32(r@, 24) == IFF_UP,
        le32(r@, 28) == IFF_UP,
{
    let index = low_bytes(lo_index);
    let message: [u8; 32] = [
        32, 0, 0, 0, 16, 0, 0x05, 0, 2, 0, 0, 0, 0, 0, 0, 0,
        0, 0, 0, 0, index[0], index[1], index[2], index[3],
        1, 0, 0, 0, 1, 0, 0, 0,
    ];
    message
}

/// Whether a reply acknowledges a request: it has an error number behind its
/// header, and the number is zero.
pub open spec fn acknowledges(reply: Seq<u8>) -> bool {
    reply.len() >= HEADER_LEN + 4 && le32(reply, HEADER_LEN as int) == 0
}

/// A reply acknowledges where the four bytes behind its header are all zero.
pub proof fn zero_acknowledges(reply: Seq<u8>)
    ensures
        acknowledges(reply) <==> reply.len() >= 20 && reply[16] == 0 && reply[17] == 0 && reply[18]
            == 0 && reply[19] == 0,
{
}

/// The numbers by which the kernel knows the requests and their parts.
pub proof fn requests_of_the_kernel()
    ensures
        RTM_NEWADDR == 20,
        RTM_NEWLINK == 16,
        IFA_LOCAL == 2,
        IFA_ADDRESS == 1,
        AF_INET == 2,
        IFF_UP == 1,
        HEADER_LEN == 16,
{
}

/// Whether a request was carried out: `sent` and `received` are the results of
/// `sendmsg` and `recvmsg`, and `buffer` holds the reply.
pub fn netlink_send_recv(sent: i64, received: i64, buffer: &[u8]) -> (r: bool)
    requires
        received <= buffer@.len(),
    ensures
        r == (sent >= 0 && received >= 0 && acknowledges(buffer@.take(received as int))),
{
    if sent < 0 || received < 0 {
        return false;
    }
    if received < 20 {
        return false;
    }
    let ghost reply = buffer@.take(received as int);
    assert(reply[16] == buffer@[16] && reply[17] == buffer@[17] && reply[18] == buffer@[18]
        && reply[19] == buffer@[19]);
    buffer[16] == 0 && buffer[17] == 0 && buffer[18] == 0 && buffer[19] == 0
}

/// What has been done about the loopback interface so far.
#[derive(Debug, Clone, Copy, PartialEq, Eq, Structural)]
pub enum LoopbackEvent {
    /// Nothing.
    Start,
    /// The netlink socket was asked for.
    Socket { fd: i32 },
    /// The number of the interface was asked for; zero for none.
    Index { lo_index: u32 },
    /// The address was asked for.
    Address { done: bool, lo_index: u32 },
    /// The link was asked to go up.
    Link { done: bool },
}

/// What to do about the loopback interface next.
#[derive(Debug, Clone, Copy, PartialEq, Eq, Structural)]
pub enum LoopbackAction {
    /// Open a netlink socket.
    OpenSocket,
    /// Look up the number of the interface `lo`.
    LookUp,
    /// Send the address request.
    SendAddress { lo_index: u32 },
    /// Send the link request.
    SendLink { lo_index: u32 },
    /// Close the socket where there is one; the interface is up.
    Done,
    /// Close the socket where there is one; the interface stays down.
    Fail(LoopbackFailure),
}

/// Why the loopback interface stays down.
#[derive(Debug, Clone, Copy, PartialEq, Eq, Structural)]
pub enum LoopbackFailure {
    Socket,
    Index,
    Address,
    Link,
}

/// What follows an event.
pub open spec fn loopback_next(event: LoopbackEvent) -> LoopbackAction {
    match event {
        LoopbackEvent::Start => LoopbackAction::OpenSocket,
        LoopbackEvent::Socket { fd } => if fd < 0 {
            LoopbackAction::Fail(LoopbackFailure::Socket)
        } else {
            LoopbackAction::LookUp
        },
        LoopbackEvent::Index { lo_index } => if lo_index == 0 {
            LoopbackAction::Fail(LoopbackFailure::Index)
        } else {
            LoopbackAction::SendAddress { lo_index }
        },
        LoopbackEvent::Address { done, lo_index } => if done {
            LoopbackAction::SendLink { lo_index }
        } else {
            LoopbackAction::Fail(LoopbackFailure::Address)
        },
        LoopbackEvent::Link { done } => if done {
            LoopbackAction::Done
        } else {
            LoopbackAction::Fail(LoopbackFailure::Link)
        },
    }
}

/// The interface is up only after the socket was opened, the interface found,
/// the address set and the link turned on, in that order; each failure is told
/// by its own name, and the requests are about the interface that was found.
pub proof fn loopback_comes_up_step_by_step(event: LoopbackEvent)
    ensures
        event is Start ==> loopback_next(event) is OpenSocket,
        event matches LoopbackEvent::Socket { fd } ==> loopback_next(event) == if fd >= 0 {
            LoopbackAction::LookUp
        } else {
            LoopbackAction::Fail(LoopbackFailure::Socket)
        },
        event matches LoopbackEvent::Index { lo_index } ==> loopback_next(event) == if lo_index != 0 {
            LoopbackAction::SendAddress { lo_index }
        } else {
            LoopbackAction::Fail(LoopbackFailure::Index)
        },
        event matches LoopbackEvent::Address { done, lo_index } ==> loopback_next(event) == if done {
            LoopbackAction::SendLink { lo_index }
        } else {
            LoopbackAction::Fail(LoopbackFailure::Address)
        },
        loopback_next(event) is Done <==> event == (LoopbackEvent::Link { done: true }),
        event == (LoopbackEvent::Link { done: false }) ==> loopback_next(event)
            == LoopbackAction::Fail(LoopbackFailure::Link),
{
}

/// Says what to do about the loopback interface next.
pub fn configure_loopback(event: LoopbackEvent) -> (r: LoopbackAction)
    ensures
        r == loopback_next(event),
{
    match event {
        LoopbackEvent::Start => LoopbackAction::OpenSocket,
        LoopbackEvent::Socket { fd } => if fd < 0 {
            LoopbackAction::Fail(LoopbackFailure::Socket)
        } else {
            LoopbackAction::LookUp
        },
        LoopbackEvent::Index { lo_index } => if lo_index == 0 {
            LoopbackAction::Fail(LoopbackFailure::Index)
        } else {
            LoopbackAction::SendAddress { lo_index }
        },
        LoopbackEvent::Address { done, lo_index } => if done {
            LoopbackAction::SendLink { lo_index }
        } else {
            LoopbackAction::Fail(LoopbackFailure::Address)
        },
        LoopbackEvent::Link { done } => if done {
            LoopbackAction::Done
        } else {
            LoopbackAction::Fail(LoopbackFailure::Link)
        },
    }
}

impl LoopbackFailure {
    /// The words for the failure, with the NUL that ends them.
    pub open spec fn text_spec(self) -> &'static str {
        match self {
            LoopbackFailure::Socket => "socket(AF_NETLINK) failed\0",
            LoopbackFailure::Index => "if_nametoindex('lo') failed\0",
            LoopbackFailure::Address => "RTM_NEWADDR failed\0",
            LoopbackFailure::Link => "RTM_NEWLINK failed\0",
        }
    }

    /// The words for the failure, with the NUL that ends them.
    pub fn text(&self) -> (r: &'static str)
        ensures
            r == self.text_spec(),
    {
        match self {
            LoopbackFailure::Socket => "socket(AF_NETLINK) failed\0",
            LoopbackFailure::Index => "if_nametoindex('lo') failed\0",
            LoopbackFailure::Address => "RTM_NEWADDR failed\0",
            LoopbackFailure::Link => "RTM_NEWLINK failed\0",
        }
    }
}

} // verus!
