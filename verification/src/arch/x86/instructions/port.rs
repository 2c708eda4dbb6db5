//! I/O ports: typed port numbers, and the writes that a device is to get.

use vstd::prelude::*;
use core::marker::PhantomData;

verus! {

// ===== PortReadAccess/PortWriteAccess =====

pub trait PortAccess {

}

pub trait PortReadAccess: PortAccess {

}

pub trait PortWriteAccess: PortAccess {

}

pub struct ReadOnlyAccess;

pub struct WriteOnlyAccess;

pub struct ReadWriteAccess;

impl PortAccess for ReadOnlyAccess {

}

impl PortReadAccess for ReadOnlyAccess {

}

impl PortAccess for WriteOnlyAccess {

}

impl PortWriteAccess for WriteOnlyAccess {

}

impl PortAccess for ReadWriteAccess {

}

impl PortReadAccess for ReadWriteAccess {

}

impl PortWriteAccess for ReadWriteAccess {

}

// ===== Port/PortReadOnly/PortWriteOnly =====

/// The number of an I/O port, typed by the width `T` of its values and by
/// the access `A` it allows.
pub struct PortGeneric<T, A> {
    port: u16,
    phantom: PhantomData<(T, A)>,
}

/// A read-only I/O port
pub type PortReadOnly<T> = PortGeneric<T, ReadOnlyAccess>;

/// A write-only I/O port
pub type PortWriteOnly<T> = PortGeneric<T, WriteOnlyAccess>;

/// A read-write I/O port
pub type Port<T> = PortGeneric<T, ReadWriteAccess>;

impl<T, A> PortGeneric<T, A> {
    /// The port's number.
    pub closed spec fn number(&self) -> u16 {
        self.port
    }

    pub fn new(port: u16) -> (p: Self)
        ensures
            p.number() == port,
    {
        Self { port, phantom: PhantomData }
    }

    /// The port's number.
    pub fn get_number(&self) -> (n: u16)
        ensures
            n == self.number(),
    {
        self.port
    }
}

/// One byte to be written to a port.
#[derive(Debug, Copy, Clone, PartialEq, Eq, Structural)]
pub struct PortOutput {
    pub port: u16,
    pub value: u8,
}

impl<A: PortWriteAccess> PortGeneric<u8, A> {
    /// The write of `value` to this port.
    pub fn output(&self, value: u8) -> (o: PortOutput)
        ensures
            o == (PortOutput { port: self.number(), value }),
    {
        PortOutput { port: self.port, value }
    }
}

} // verus!
