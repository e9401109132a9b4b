//! How one submission is ordered relative to its neighbours.

use vstd::prelude::*;
use crate::constants::{IOSQE_IO_DRAIN, IOSQE_IO_LINK};

verus! {

/// Whether the kernel may run an operation independently of the others.
///
/// By default the kernel runs independent operations in whatever order is
/// fastest. A chain of `Link` operations runs one after the other and ends at
/// the first operation that is not `Link`; `Drain` waits for everything that
/// was submitted before.
#[derive(Clone, Copy, Debug, PartialEq, Eq, Structural)]
pub enum Order {
    /// No ordering requirement.
    Unordered,
    /// The next submitted operation waits until this one finishes, and is
    /// cancelled if this one fails.
    Link,
    /// Every previously submitted operation completes before this one begins.
    Drain,
}

impl Order {
    /// The submission flag bits that request this ordering.
    pub open spec fn bits(self) -> u8 {
        match self {
            Order::Unordered => 0,
            Order::Link => IOSQE_IO_LINK,
            Order::Drain => IOSQE_IO_DRAIN,
        }
    }

    /// Computes [`Order::bits`].
    pub fn flag_bits(self) -> (bits: u8)
        ensures
            bits == self.bits(),
    {
        match self {
            Order::Unordered => 0,
            Order::Link => IOSQE_IO_LINK,
            Order::Drain => IOSQE_IO_DRAIN,
        }
    }
}

} // verus!
