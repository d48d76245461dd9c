//! The receive path of a UART: the interrupt handler stores what arrives
//! in a queue, and the main loop looks at the queue and takes from it.
//!
//! The handler is the only one that writes to the queue and the main loop
//! the only one that reads from it.

use crate::ring_buffer::{snapshot_len, RingBuffer};
use vstd::prelude::*;

verus! {

/// The byte in the receive data register: its lower eight bits.
pub fn received_byte(register: u16) -> (byte: u8)
    ensures
        byte == register % 256,
{
    let low: u16 = register & 0xFF;
    assert(low == register % 256) by (bit_vector)
        requires
            low == register & 0xFF,
    ;
    low as u8
}

/// Stores a byte that has arrived. Where the queue is full the byte is
/// lost and the queue stays as it is; the result tells which.
pub fn store_received<const SIZE: usize>(queue: &mut RingBuffer<u8, SIZE>, byte: u8) -> (stored:
    bool)
    requires
        SIZE > 0,
    ensures
        final(queue).wf(),
        stored <==> old(queue)@.len() < SIZE - 1,
        stored ==> final(queue)@ == old(queue)@.push(byte),
        !stored ==> *final(queue) == *old(queue),
        final(queue).read_cursor() == old(queue).read_cursor(),
{
    queue.write(byte)
}

/// Takes the oldest received byte.
pub fn take_byte<const SIZE: usize>(queue: &mut RingBuffer<u8, SIZE>) -> (byte: Option<u8>)
    ensures
        final(queue).wf(),
        old(queue)@.len() == 0 ==> byte is None && *final(queue) == *old(queue),
        old(queue)@.len() > 0 ==> byte == Some(old(queue)@[0]) && final(queue)@ == old(
            queue,
        )@.drop_first(),
        final(queue).write_cursor() == old(queue).write_cursor(),
{
    queue.read()
}

/// Copies the oldest received bytes into the front of `buffer`, as many as
/// there are and fit, and returns how many. The queue stays as it is.
pub fn copy_buffer<const SIZE: usize>(queue: &RingBuffer<u8, SIZE>, buffer: &mut [u8]) -> (count:
    usize)
    ensures
        count == snapshot_len(queue@.len(), old(buffer)@.len()),
        final(buffer)@ == queue@.take(count as int) + old(buffer)@.skip(count as int),
{
    queue.snapshot(buffer)
}

} // verus!
