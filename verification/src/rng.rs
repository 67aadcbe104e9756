//! The entropy source behind the opcode that masks a random byte into a
//! register. The operating system's generator is the collaborator here; the
//! interpreter asks it for one byte at a time and promises nothing about the
//! value that comes back.

use vstd::prelude::*;

verus! {

/// The operating-system random number generator of the `rand` crate: a
/// zero-sized handle whose reads go straight to the OS entropy source.
#[verifier::external_type_specification]
#[verifier::external_body]
pub struct ExOsRng(rand::rngs::OsRng);

/// A source of random bytes, one per call.
pub struct RandomBytes {
    rng: rand::rngs::OsRng,
}

impl RandomBytes {
    /// Relies on `rand::rngs::OsRng` being a unit value: constructing the
    /// handle performs no I/O and cannot fail.
    #[verifier::external_body]
    pub fn new() -> RandomBytes {
        RandomBytes { rng: rand::rngs::OsRng }
    }

    /// Relies on `rand::Rng::gen::<u8>`, which draws one byte from the OS
    /// entropy source. Nothing is promised of the value: every caller must
    /// cope with any byte. (The OS call itself aborts the process only if the
    /// system's entropy source is broken.)
    #[verifier::external_body]
    pub fn next(&mut self) -> u8 {
        rand::Rng::gen::<u8>(&mut self.rng)
    }
}

} // verus!
