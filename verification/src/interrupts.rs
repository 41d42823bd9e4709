//! Interrupt numbers of the hardware lines behind the two chained PICs.

use vstd::prelude::*;

verus! {

/// First interrupt number of the primary PIC.
pub const PIC1_OFFSET: u8 = 0x20;

/// First interrupt number of the secondary PIC.
pub const PIC2_OFFSET: u8 = 0x28;

/// The hardware interrupts the kernel handles.
#[derive(Debug, Clone, Copy, PartialEq, Eq, Structural)]
pub enum HardwareInterruptOffset {
    Timer,
    Keyboard,
    LPT1,
    Mouse,
    ATAMaster0,
    ATASlave0,
}

impl HardwareInterruptOffset {
    /// The interrupt number: timer and keyboard are the first two lines of
    /// the primary PIC, LPT1 its eighth, mouse and the two ATA channels lines
    /// 12 to 14 counted from the primary PIC's offset.
    pub open spec fn number(self) -> int {
        match self {
            HardwareInterruptOffset::Timer => PIC1_OFFSET as int,
            HardwareInterruptOffset::Keyboard => PIC1_OFFSET + 1,
            HardwareInterruptOffset::LPT1 => PIC1_OFFSET + 7,
            HardwareInterruptOffset::Mouse => PIC1_OFFSET + 12,
            HardwareInterruptOffset::ATAMaster0 => PIC1_OFFSET + 13,
            HardwareInterruptOffset::ATASlave0 => PIC1_OFFSET + 14,
        }
    }

    /// The interrupt number as a byte.
    pub fn as_u8(self) -> (n: u8)
        ensures
            n == self.number(),
    {
        match self {
            HardwareInterruptOffset::Timer => PIC1_OFFSET,
            HardwareInterruptOffset::Keyboard => PIC1_OFFSET + 1,
            HardwareInterruptOffset::LPT1 => PIC1_OFFSET + 7,
            HardwareInterruptOffset::Mouse => PIC1_OFFSET + 12,
            HardwareInterruptOffset::ATAMaster0 => PIC1_OFFSET + 13,
            HardwareInterruptOffset::ATASlave0 => PIC1_OFFSET + 14,
        }
    }

    /// The interrupt number as a table index.
    pub fn as_usize(self) -> (n: usize)
        ensures
            n == self.number(),
    {
        self.as_u8() as usize
    }
}

/// The hardware lines have distinct interrupt numbers, all on the two PICs.
pub proof fn law_interrupt_numbers_distinct(a: HardwareInterruptOffset, b: HardwareInterruptOffset)
    ensures
        a != b ==> a.number() != b.number(),
        PIC1_OFFSET <= a.number() < PIC2_OFFSET + 8,
{
}

} // verus!
