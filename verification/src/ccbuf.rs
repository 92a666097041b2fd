//! Reader and writer proxies for the 16-bit counter/compare buffer register
//! field of a timer-counter peripheral.
//!
//! The register is 16 bits wide and the field fills it: bits 0 to 15 hold
//! the buffered counter/compare value. Reading goes through a register
//! reader `R` that hands out a field reader; writing goes through a register
//! writer `W` whose field proxy `CCBUF_W` splices raw bits into the pending
//! register value. The proxies own their writer, so a write is
//! `w.ccbuf().bits(v)` and hands the updated writer back.

use vstd::prelude::*;

verus! {

/// The counter/compare buffer register itself, reset to zero by hardware.
pub struct CCBUF;

/// Reader of the register: a snapshot of its 16 bits.
pub struct R {
    bits: u16,
}

/// Writer for the register: the 16 bits about to be written.
pub struct W {
    bits: u16,
}

/// Reader of the `CCBUF` field: the field's bits, already shifted down.
#[allow(non_camel_case_types)]
pub struct CCBUF_R {
    bits: u16,
}

/// Write proxy for the `CCBUF` field.
#[allow(non_camel_case_types)]
pub struct CCBUF_W {
    w: W,
}

impl View for R {
    type V = u16;

    /// The 16 register bits the reader snapshot holds.
    closed spec fn view(&self) -> u16 {
        self.bits
    }
}

impl View for W {
    type V = u16;

    /// The 16 register bits the writer is about to write.
    closed spec fn view(&self) -> u16 {
        self.bits
    }
}

impl View for CCBUF_R {
    type V = u16;

    /// The field value the reader holds.
    closed spec fn view(&self) -> u16 {
        self.bits
    }
}

impl View for CCBUF_W {
    type V = u16;

    /// The pending register bits of the writer the proxy wraps.
    closed spec fn view(&self) -> u16 {
        self.w@
    }
}

impl CCBUF {
    /// The value the register resets to.
    pub fn reset_value() -> (value: u16)
        ensures
            value == 0,
    {
        0
    }
}

impl R {
    /// Wraps a register snapshot.
    pub fn new(bits: u16) -> (r: R)
        ensures
            r@ == bits,
    {
        R { bits }
    }

    /// The raw bits of the snapshot.
    pub fn bits(&self) -> (bits: u16)
        ensures
            bits == self@,
    {
        self.bits
    }

    /// Bits 0:15 - Counter/Compare Buffer Value
    pub fn ccbuf(&self) -> (r: CCBUF_R)
        ensures
            r@ == self@,
    {
        let snapshot: u16 = self.bits;
        proof {
            assert(snapshot & 0xffff == snapshot) by (bit_vector);
        }
        CCBUF_R { bits: snapshot & 0xffff }
    }
}

impl CCBUF_R {
    /// The field's value.
    pub fn bits(&self) -> (bits: u16)
        ensures
            bits == self@,
    {
        self.bits
    }
}

impl W {
    /// A writer starting from the given register bits, usually the reset
    /// value.
    pub fn new(bits: u16) -> (w: W)
        ensures
            w@ == bits,
    {
        W { bits }
    }

    /// The raw bits the writer would write.
    pub fn bits(&self) -> (bits: u16)
        ensures
            bits == self@,
    {
        self.bits
    }

    /// Bits 0:15 - Counter/Compare Buffer Value
    pub fn ccbuf(self) -> (w: CCBUF_W)
        ensures
            w@ == self@,
    {
        CCBUF_W { w: self }
    }
}

impl CCBUF_W {
    /// Splices raw bits into the field: the field fills the register, so the
    /// pending value becomes exactly `value`. Hands the writer back.
    pub fn bits(self, value: u16) -> (w: W)
        ensures
            w@ == value,
    {
        let pending: u16 = self.w.bits;
        proof {
            assert((pending & !0xffffu16) | (value & 0xffffu16) == value) by (bit_vector);
        }
        W { bits: (pending & !0xffffu16) | (value & 0xffffu16) }
    }
}

} // verus!
