//! Writes to I/O ports, as values for the caller to perform.

use vstd::prelude::*;

verus! {

/// Write `value` to I/O port `port`.
#[derive(Clone, Copy, PartialEq, Eq, Structural, Debug)]
pub struct PortWrite {
    pub port: u16,
    pub value: u8,
}

} // verus!
