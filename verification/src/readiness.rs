//! The interest with which the listening socket is registered at the
//! readiness multiplexer: ready to read, edge-triggered, one-shot.

use vstd::prelude::*;

verus! {

/// A set of epoll event flags.
#[verifier::external_type_specification]
#[verifier::external_body]
pub struct ExEvents(epoll::Events);

/// The flags that a set holds, as the bits of one number.
pub uninterp spec fn bits_of(events: epoll::Events) -> u32;

/// The bit for "ready to read".
pub const READ_READY: u32 = 0x0000_0001;

/// The bit for one-shot delivery: after one event the registration is
/// switched off until it is armed again.
pub const ONE_SHOT: u32 = 0x4000_0000;

/// The bit for edge-triggered delivery.
pub const EDGE_TRIGGERED: u32 = 0x8000_0000;

/// The interest of the listening socket: all three bits.
pub const LISTENER_INTEREST: u32 = 0xC000_0001;

/// How a registration is handed to the multiplexer.
#[derive(Debug, Clone, Copy, PartialEq, Eq, Structural)]
pub enum ControlOp {
    /// Adds a descriptor that is not registered yet.
    Add,
    /// Changes, and thereby arms again, a registration that exists.
    Modify,
}

/// What is handed to the multiplexer to register or arm a descriptor.
#[derive(Debug, Clone, Copy, PartialEq, Eq, Structural)]
pub struct Registration {
    pub op: ControlOp,
    pub descriptor: i32,
    pub events: u32,
    pub data: u64,
}

/// Calls `epoll::Events::empty`: the set without flags.
#[verifier::external_body]
fn no_events() -> (events: epoll::Events)
    ensures
        bits_of(events) == 0,
{
    epoll::Events::empty()
}

/// Hands out `epoll::Events::EPOLLIN`, whose one bit is 0x1.
#[verifier::external_body]
fn read_ready() -> (events: epoll::Events)
    ensures
        bits_of(events) == READ_READY,
{
    epoll::Events::EPOLLIN
}

/// Hands out `epoll::Events::EPOLLONESHOT`, whose one bit is 0x40000000.
#[verifier::external_body]
fn one_shot() -> (events: epoll::Events)
    ensures
        bits_of(events) == ONE_SHOT,
{
    epoll::Events::EPOLLONESHOT
}

/// Hands out `epoll::Events::EPOLLET`, whose one bit is 0x80000000.
#[verifier::external_body]
fn edge_triggered() -> (events: epoll::Events)
    ensures
        bits_of(events) == EDGE_TRIGGERED,
{
    epoll::Events::EPOLLET
}

/// Calls `epoll::Events::insert`: the set gains the flags of `other` and
/// keeps its own.
#[verifier::external_body]
fn insert(events: &mut epoll::Events, other: epoll::Events)
    ensures
        bits_of(*final(events)) == bits_of(*old(events)) | bits_of(other),
{
    events.insert(other);
}

/// Calls `epoll::Event::new` and hands out the two fields of the event: the
/// bits of the flags, and the data unchanged.
#[verifier::external_body]
fn event_fields(events: epoll::Events, data: u64) -> (fields: (u32, u64))
    ensures
        fields.0 == bits_of(events),
        fields.1 == data,
{
    let event = epoll::Event::new(events, data);
    (event.events, event.data)
}

/// The registration of a listening socket: its interest is ready to read,
/// edge-triggered and one-shot, and `data` comes back with each event.
pub fn listener_registration(op: ControlOp, descriptor: i32, data: u64) -> (r: Registration)
    ensures
        r == (Registration { op, descriptor, events: LISTENER_INTEREST, data }),
        r.events == READ_READY | ONE_SHOT | EDGE_TRIGGERED,
{
    let mut events = no_events();
    insert(&mut events, edge_triggered());
    insert(&mut events, read_ready());
    insert(&mut events, one_shot());
    let fields = event_fields(events, data);
    assert(((0u32 | 0x8000_0000u32) | 0x0000_0001u32) | 0x4000_0000u32 == 0xC000_0001u32)
        by (bit_vector);
    assert(0x0000_0001u32 | 0x4000_0000u32 | 0x8000_0000u32 == 0xC000_0001u32) by (bit_vector);
    Registration { op, descriptor, events: fields.0, data: fields.1 }
}

} // verus!
