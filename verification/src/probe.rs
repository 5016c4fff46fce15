//! Sizing the window behind a base address register.
//!
//! A device answers a write of all ones to a base address register with the
//! mask of the address bits it decodes.  The probe reads the register,
//! writes all ones, reads the mask back and writes the first value back, in
//! that order and with nothing in between.  It is a small machine: the
//! caller performs the access that [`BarProbe::action`] names and reports
//! what a read returned through [`BarProbe::advance`].

use vstd::prelude::*;
use crate::address::Bar;

verus! {

/// The value written to a base address register to make it show its mask.
pub const ALL_ONES: u32 = 0xFFFF_FFFF;

/// The bits of a base address register that carry address, not flags.
pub const ADDRESS_BITS: u32 = 0xFFFF_FFF0;

/// Size in bytes of the window behind a base address register, given what
/// the register reads after all ones were written to it.
///
/// The four flag bits are dropped from the mask; the size is what is left,
/// taken from all ones, plus one.  A mask without address bits would give
/// two to the power 32, which does not fit and stands for no window.
pub open spec fn spec_window_size(readback: u32) -> Option<u32> {
    let size: int = (ALL_ONES - (readback & ADDRESS_BITS)) + 1;
    if size > u32::MAX {
        None
    } else {
        Some(size as u32)
    }
}

/// Size in bytes of the window behind a base address register, from the
/// mask read back after all ones were written; none if the mask has no
/// address bit.
pub fn window_size(readback: u32) -> (result: Option<u32>)
    ensures
        result == spec_window_size(readback),
        result is None <==> readback & ADDRESS_BITS == 0,
        result matches Some(size) ==> size >= 16 && size % 16 == 0,
{
    let masked: u32 = readback & ADDRESS_BITS;
    let inverted: u32 = ALL_ONES - masked;
    assert(inverted % 16 == 15 && inverted == 0xFFFF_FFFFu32 - (readback & 0xFFFF_FFF0)) by (bit_vector)
        requires
            inverted == 0xFFFF_FFFFu32 - (readback & 0xFFFF_FFF0),
    ;
    if inverted == ALL_ONES {
        None
    } else {
        Some(inverted + 1)
    }
}

/// One access to the configuration space of a function, or the end of a
/// probe with what it found.
#[derive(Clone, Copy, Debug, PartialEq, Eq)]
pub enum ProbeAction {
    /// Read the register at this byte offset and report the value.
    Read { offset: u8 },
    /// Write this value to the register at this byte offset.
    Write { offset: u8, value: u32 },
    /// Nothing is left to do: the register held `original` when the probe
    /// began and holds it again, and the window has this size, if any.
    Done { original: u32, size: Option<u32> },
}

/// How far a probe has come.
#[derive(Clone, Copy, Debug, PartialEq, Eq)]
pub enum ProbeStep {
    /// The register is about to be read for the first time.
    ReadOriginal,
    /// The register held `original`; all ones are about to be written.
    WriteOnes { original: u32 },
    /// All ones were written; the mask is about to be read back.
    ReadBack { original: u32 },
    /// The mask gave `size`; `original` is about to be written back.
    Restore { original: u32, size: Option<u32> },
    /// The probe is over.
    Done { original: u32, size: Option<u32> },
}

/// The probe of one base address register.
#[derive(Clone, Copy, Debug, PartialEq, Eq)]
pub struct BarProbe {
    /// The register being sized.
    pub bar: Bar,
    /// How far the probe has come.
    pub step: ProbeStep,
}

impl BarProbe {
    /// A probe that has not touched the register yet.
    pub open spec fn start(bar: Bar) -> BarProbe {
        BarProbe { bar, step: ProbeStep::ReadOriginal }
    }

    /// What the caller is to do next.
    pub open spec fn spec_action(self) -> ProbeAction {
        let offset = self.bar.spec_offset() as u8;
        match self.step {
            ProbeStep::ReadOriginal => ProbeAction::Read { offset },
            ProbeStep::WriteOnes { original } => ProbeAction::Write { offset, value: ALL_ONES },
            ProbeStep::ReadBack { original } => ProbeAction::Read { offset },
            ProbeStep::Restore { original, size } => ProbeAction::Write { offset, value: original },
            ProbeStep::Done { original, size } => ProbeAction::Done { original, size },
        }
    }

    /// The probe after the caller has done what `spec_action` names, where
    /// `reply` is the value read if that was a read.
    ///
    /// A register that reads zero is unused: the probe ends at once, without
    /// a write.  Otherwise the three remaining accesses follow, the last of
    /// which writes the first value back whatever the mask was.
    pub open spec fn after(self, reply: u32) -> BarProbe {
        BarProbe {
            bar: self.bar,
            step: match self.step {
                ProbeStep::ReadOriginal => if reply == 0 {
                    ProbeStep::Done { original: 0, size: None }
                } else {
                    ProbeStep::WriteOnes { original: reply }
                },
                ProbeStep::WriteOnes { original } => ProbeStep::ReadBack { original },
                ProbeStep::ReadBack { original } => ProbeStep::Restore {
                    original,
                    size: spec_window_size(reply),
                },
                ProbeStep::Restore { original, size } => ProbeStep::Done { original, size },
                ProbeStep::Done { original, size } => ProbeStep::Done { original, size },
            },
        }
    }

    /// Accesses that are left before the probe is over, at most.
    pub open spec fn remaining(self) -> nat {
        match self.step {
            ProbeStep::ReadOriginal => 4,
            ProbeStep::WriteOnes { original } => 3,
            ProbeStep::ReadBack { original } => 2,
            ProbeStep::Restore { original, size } => 1,
            ProbeStep::Done { original, size } => 0,
        }
    }

    /// Begins the probe of a base address register.
    pub fn new(bar: Bar) -> (result: BarProbe)
        ensures
            result == Self::start(bar),
    {
        BarProbe { bar, step: ProbeStep::ReadOriginal }
    }

    /// What the caller is to do next: one register access, or nothing more.
    pub fn action(&self) -> (result: ProbeAction)
        ensures
            result == self.spec_action(),
    {
        let offset: u8 = self.bar.offset();
        match self.step {
            ProbeStep::ReadOriginal => ProbeAction::Read { offset },
            ProbeStep::WriteOnes { original } => ProbeAction::Write { offset, value: ALL_ONES },
            ProbeStep::ReadBack { original } => ProbeAction::Read { offset },
            ProbeStep::Restore { original, size } => ProbeAction::Write { offset, value: original },
            ProbeStep::Done { original, size } => ProbeAction::Done { original, size },
        }
    }

    /// Whether the probe is over.
    pub fn is_done(&self) -> (result: bool)
        ensures
            result == (self.step is Done),
            result == (self.remaining() == 0),
    {
        match self.step {
            ProbeStep::Done { original, size } => true,
            _ => false,
        }
    }

    /// Moves on after the caller has done what `action` named.  `reply` is
    /// the value read if that was a read, and is not looked at otherwise.
    pub fn advance(&mut self, reply: u32)
        ensures
            *final(self) == old(self).after(reply),
            !(old(self).step is Done) ==> final(self).remaining() < old(self).remaining(),
    {
        let step = match self.step {
            ProbeStep::ReadOriginal => if reply == 0 {
                ProbeStep::Done { original: 0, size: None }
            } else {
                ProbeStep::WriteOnes { original: reply }
            },
            ProbeStep::WriteOnes { original } => ProbeStep::ReadBack { original },
            ProbeStep::ReadBack { original } => ProbeStep::Restore {
                original,
                size: window_size(reply),
            },
            ProbeStep::Restore { original, size } => ProbeStep::Done { original, size },
            ProbeStep::Done { original, size } => ProbeStep::Done { original, size },
        };
        self.step = step;
    }
}

/// An unused register costs one read and no write: a probe that reads zero
/// is over, with no window.
pub proof fn lemma_unused_register_is_left_alone(bar: Bar)
    ensures
        BarProbe::start(bar).spec_action() == (ProbeAction::Read {
            offset: bar.spec_offset() as u8,
        }),
        BarProbe::start(bar).after(0).spec_action() == (ProbeAction::Done {
            original: 0,
            size: None,
        }),
{
}

/// The probe of a register in use is four accesses to that register and no
/// other: a read, a write of all ones, a read, and a write of the value
/// first read.  It ends with that value and the size that the mask gives.
/// `original` is the first value read, `mask` the second; `first` and
/// `second` stand for whatever the caller reports after the two writes.
pub proof fn lemma_probe_writes_original_back(
    bar: Bar,
    original: u32,
    mask: u32,
    first: u32,
    second: u32,
)
    requires
        original != 0,
    ensures
        ({
            let offset = bar.spec_offset() as u8;
            let p0 = BarProbe::start(bar);
            let p1 = p0.after(original);
            let p2 = p1.after(first);
            let p3 = p2.after(mask);
            let p4 = p3.after(second);
            &&& p0.spec_action() == ProbeAction::Read { offset }
            &&& p1.spec_action() == ProbeAction::Write { offset, value: ALL_ONES }
            &&& p2.spec_action() == ProbeAction::Read { offset }
            &&& p3.spec_action() == ProbeAction::Write { offset, value: original }
            &&& p4.spec_action() == ProbeAction::Done { original, size: spec_window_size(mask) }
        }),
{
}

/// Where the mask has an address bit, the size is the mask without its flag
/// bits, taken from all ones, plus one; it is a multiple of 16.  Where it has
/// none, there is no window.
pub proof fn lemma_window_size_formula(readback: u32)
    ensures
        readback & ADDRESS_BITS != 0 ==> spec_window_size(readback) == Some(
            ((0xFFFF_FFFF - (readback & ADDRESS_BITS)) + 1) as u32,
        ) && (0xFFFF_FFFF - (readback & ADDRESS_BITS)) + 1 <= u32::MAX,
        readback & ADDRESS_BITS == 0 ==> spec_window_size(readback) is None,
        spec_window_size(readback) matches Some(size) ==> size % 16 == 0 && size >= 16,
{
    let masked = readback & ADDRESS_BITS;
    assert(masked % 16 == 0) by (bit_vector)
        requires
            masked == readback & 0xFFFF_FFF0,
    ;
}

} // verus!
