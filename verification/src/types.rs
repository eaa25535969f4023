//! Small kernel types that the file and debugfs interfaces share.

use vstd::prelude::*;

verus! {

/// The permission bits of a file.
#[derive(Clone, Copy, Debug, PartialEq, Eq, Structural)]
pub struct Mode {
    bits: u16,
}

impl Mode {
    /// The permission bits.
    pub closed spec fn bits(self) -> u16 {
        self.bits
    }

    /// Creates a mode from its bits.
    pub fn from_int(bits: u16) -> (mode: Mode)
        ensures
            mode.bits() == bits,
    {
        Mode { bits }
    }

    /// Returns the bits.
    pub fn as_int(self) -> (bits: u16)
        ensures
            bits == self.bits(),
    {
        self.bits
    }
}

/// The credentials of a task, known by their address.
#[derive(Clone, Copy, Debug, PartialEq, Eq, Structural)]
pub struct Credential {
    pub addr: usize,
}

/// A pointer to a reference-counted object that owns one of its reference counts.
///
/// There is no way to copy an `ARef`: every value stands for one count.
pub struct ARef<T> {
    object: T,
}

impl<T> ARef<T> {
    /// The object that this pointer keeps alive.
    pub closed spec fn object(self) -> T {
        self.object
    }

    /// Takes over a reference count of `object`.
    pub fn from_raw(object: T) -> (r: ARef<T>)
        ensures
            r.object() == object,
    {
        ARef { object }
    }

    /// Gives up the pointer without giving back its reference count.
    pub fn into_raw(self) -> (object: T)
        ensures
            object == self.object(),
    {
        self.object
    }

    /// Borrows the object.
    pub fn get(&self) -> (object: &T)
        ensures
            *object == self.object(),
    {
        &self.object
    }
}

} // verus!
