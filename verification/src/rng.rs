//! The machine's source of random bytes, used only by the `Cxkk` instruction.

use vstd::prelude::*;

verus! {

/// One byte from the operating system's random number source.
///
/// Relies on `getrandom::getrandom` to fill a one-byte buffer; its
/// documentation promises nothing about the value, and nothing is promised
/// here. Should the platform source fail, the buffer keeps the zero it was
/// initialised with, which is as acceptable as any other byte.
#[verifier::external_body]
pub(crate) fn random_byte() -> u8 {
    let mut buf = [0u8; 1];
    let _ = getrandom::getrandom(&mut buf);
    buf[0]
}

} // verus!
