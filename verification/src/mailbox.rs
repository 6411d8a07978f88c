//! The two ends of the mailbox that brings work to the loop. The messages
//! themselves travel over a typed channel; a pipe carries one byte for each,
//! so that the loop, which waits on descriptors, wakes up. What a write to
//! the pipe and a read from it mean is decided here.

use vstd::prelude::*;

verus! {

/// The number of bytes that announce one message.
pub const WAKE_LEN: isize = 1;

/// What a look into the mailbox gave.
pub enum Delivery<M> {
    /// A message.
    Message(M),
    /// Nothing is waiting.
    Empty,
    /// The sending end is gone.
    Closed,
}

/// The sending end: the descriptor that is written to.
pub struct Sender {
    fd: i32,
}

/// The receiving end: the descriptor that the loop waits on and reads from.
pub struct Receiver {
    fd: i32,
}

/// What a read from the pipe and a look into the channel come to. A read of
/// nothing means that every sending end is closed. A read of one byte
/// announces a message, which the channel then holds. Anything else, a read
/// that would block among them, means that nothing is waiting.
pub open spec fn spec_delivery<M>(bytes_read: isize, message: Option<M>) -> Delivery<M> {
    if bytes_read == 0 {
        Delivery::Closed
    } else if bytes_read == WAKE_LEN && message.is_some() {
        Delivery::Message(message.unwrap())
    } else {
        Delivery::Empty
    }
}

impl Sender {
    /// The descriptor.
    pub closed spec fn spec_fd(&self) -> i32 {
        self.fd
    }

    /// The sending end on a descriptor.
    pub fn new(fd: i32) -> (r: Sender)
        ensures
            r.spec_fd() == fd,
    {
        Sender { fd }
    }

    /// The descriptor.
    pub fn fd(&self) -> (r: i32)
        ensures
            r == self.spec_fd(),
    {
        self.fd
    }

    /// Whether a write to the pipe has announced a message: it has when it
    /// wrote the whole announcement.
    pub fn announced(&self, bytes_written: isize) -> (r: Result<(), ()>)
        ensures
            r.is_ok() == (bytes_written == WAKE_LEN),
    {
        if bytes_written == WAKE_LEN {
            Ok(())
        } else {
            Err(())
        }
    }
}

impl Receiver {
    /// The descriptor.
    pub closed spec fn spec_fd(&self) -> i32 {
        self.fd
    }

    /// The receiving end on a descriptor.
    pub fn new(fd: i32) -> (r: Receiver)
        ensures
            r.spec_fd() == fd,
    {
        Receiver { fd }
    }

    /// The descriptor, for the loop to wait on.
    pub fn fd(&self) -> (r: i32)
        ensures
            r == self.spec_fd(),
    {
        self.fd
    }

    /// What a read from the pipe and a look into the channel come to.
    pub fn delivery<M>(&self, bytes_read: isize, message: Option<M>) -> (r: Delivery<M>)
        ensures
            r == spec_delivery(bytes_read, message),
    {
        if bytes_read == 0 {
            Delivery::Closed
        } else if bytes_read == WAKE_LEN {
            match message {
                Some(m) => Delivery::Message(m),
                None => Delivery::Empty,
            }
        } else {
            Delivery::Empty
        }
    }
}

} // verus!
