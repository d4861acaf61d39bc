use vstd::prelude::*;

verus! {

/// First vector of the primary controller's lines, just above the CPU exceptions.
pub const PIC_1_OFFSET: u8 = 32;

/// First vector of the secondary controller's lines, right after the primary's eight.
pub const PIC_2_OFFSET: u8 = 40;

/// CPU exception vectors fixed by the architecture.
pub const BREAKPOINT_VECTOR: u8 = 3;

pub const DOUBLE_FAULT_VECTOR: u8 = 8;

pub const PAGE_FAULT_VECTOR: u8 = 14;

/// The interrupt-stack-table slot reserved for the double-fault handler.
pub const DOUBLE_FAULT_IST_INDEX: u16 = 0;

/// The hardware interrupt lines that this kernel serves.
#[derive(Debug, Clone, Copy, PartialEq, Eq, Structural)]
pub enum InterruptIndex {
    Timer,
    Keyboard,
}

pub open spec fn index_vector(i: InterruptIndex) -> u8 {
    match i {
        InterruptIndex::Timer => PIC_1_OFFSET,
        InterruptIndex::Keyboard => (PIC_1_OFFSET + 1) as u8,
    }
}

impl InterruptIndex {
    /// The remapped vector of the line: the timer is line 0 of the primary
    /// controller, the keyboard line 1.
    pub fn as_u8(self) -> (r: u8)
        ensures
            r == index_vector(self),
    {
        match self {
            Self::Timer => PIC_1_OFFSET,
            Self::Keyboard => PIC_1_OFFSET + 1,
        }
    }

    pub fn as_usize(self) -> (r: usize)
        ensures
            r == index_vector(self) as usize,
    {
        self.as_u8() as usize
    }
}

/// Which controllers must be told that an interrupt has been handled.
#[derive(Debug, Clone, Copy, PartialEq, Eq, Structural)]
pub struct Acknowledgment {
    pub primary: bool,
    pub secondary: bool,
}

/// Two chained controllers, each serving eight lines from its vector offset.
#[derive(Debug, Clone, Copy, PartialEq, Eq, Structural)]
pub struct ChainedControllers {
    pub primary_offset: u8,
    pub secondary_offset: u8,
}

pub open spec fn serves(offset: u8, vector: u8) -> bool {
    offset <= vector < offset + 8
}

/// The end-of-interrupt notices owed for `vector`.
pub open spec fn ack_for(c: ChainedControllers, vector: u8) -> Acknowledgment {
    Acknowledgment {
        primary: serves(c.primary_offset, vector) || serves(c.secondary_offset, vector),
        secondary: serves(c.secondary_offset, vector),
    }
}

impl ChainedControllers {
    /// The secondary block follows the primary's eight lines, both above the
    /// CPU's reserved vectors.
    pub open spec fn wf(&self) -> bool {
        &&& self.primary_offset >= 32
        &&& self.secondary_offset == self.primary_offset + 8
        &&& self.secondary_offset + 8 <= 256
    }

    /// The controllers remapped to `PIC_1_OFFSET` and `PIC_2_OFFSET`.
    pub fn remapped() -> (r: ChainedControllers)
        ensures
            r.wf(),
            r.primary_offset == PIC_1_OFFSET,
            r.secondary_offset == PIC_2_OFFSET,
    {
        ChainedControllers { primary_offset: PIC_1_OFFSET, secondary_offset: PIC_2_OFFSET }
    }

    /// Whether one of the two controllers serves `vector`.
    pub fn handles_interrupt(&self, vector: u8) -> (r: bool)
        requires
            self.wf(),
        ensures
            r == (serves(self.primary_offset, vector) || serves(self.secondary_offset, vector)),
    {
        (self.primary_offset <= vector && vector - self.primary_offset < 8) || (
        self.secondary_offset <= vector && vector - self.secondary_offset < 8)
    }

    /// The end-of-interrupt notices owed for `vector`: a line of the secondary
    /// controller is acknowledged on both, since it is chained through the
    /// primary; a line of the primary on the primary alone; any other vector
    /// on neither.
    pub fn end_of_interrupt(&self, vector: u8) -> (r: Acknowledgment)
        requires
            self.wf(),
        ensures
            r == ack_for(*self, vector),
    {
        let handled = self.handles_interrupt(vector);
        let secondary = self.secondary_offset <= vector && vector - self.secondary_offset < 8;
        Acknowledgment { primary: handled, secondary }
    }
}

/// The handlers that the vector table installs.
#[derive(Debug, Clone, Copy, PartialEq, Eq, Structural)]
pub enum Handler {
    Breakpoint,
    DoubleFault,
    PageFault,
    Timer,
    Keyboard,
}

/// One installed vector: its handler, and the interrupt-stack-table slot the
/// CPU switches to before running it, if any.
#[derive(Debug, Clone, Copy, PartialEq, Eq, Structural)]
pub struct TrapEntry {
    pub handler: Handler,
    pub stack_index: Option<u16>,
}

/// The entry that the table holds for `vector`.
pub open spec fn installed_entry(vector: int) -> Option<TrapEntry> {
    if vector == BREAKPOINT_VECTOR {
        Some(TrapEntry { handler: Handler::Breakpoint, stack_index: None })
    } else if vector == DOUBLE_FAULT_VECTOR {
        Some(TrapEntry { handler: Handler::DoubleFault, stack_index: Some(DOUBLE_FAULT_IST_INDEX) })
    } else if vector == PAGE_FAULT_VECTOR {
        Some(TrapEntry { handler: Handler::PageFault, stack_index: None })
    } else if vector == index_vector(InterruptIndex::Timer) {
        Some(TrapEntry { handler: Handler::Timer, stack_index: None })
    } else if vector == index_vector(InterruptIndex::Keyboard) {
        Some(TrapEntry { handler: Handler::Keyboard, stack_index: None })
    } else {
        None
    }
}

/// The trap vector table: one slot per vector, filled once at boot.
pub struct VectorTable {
    entries: Vec<Option<TrapEntry>>,
}

impl VectorTable {
    pub closed spec fn entries(&self) -> Seq<Option<TrapEntry>> {
        self.entries@
    }

    /// The entry for `vector`, or `None` where nothing is installed.
    pub fn entry(&self, vector: u8) -> (r: Option<TrapEntry>)
        requires
            self.entries().len() == 256,
        ensures
            r == self.entries()[vector as int],
    {
        self.entries[vector as usize]
    }
}

/// Builds the kernel's vector table: breakpoint, page fault, timer and keyboard
/// handlers, and the double-fault handler on its own stack slot. Every other
/// vector is left empty.
pub fn init_idt() -> (r: VectorTable)
    ensures
        r.entries().len() == 256,
        forall|v: int| 0 <= v < 256 ==> #[trigger] r.entries()[v] == installed_entry(v),
{
    let mut entries: Vec<Option<TrapEntry>> = Vec::new();
    let mut v: usize = 0;
    while v < 256
        invariant
            v <= 256,
            entries@.len() == v,
            forall|j: int| 0 <= j < v ==> #[trigger] entries@[j] == None::<TrapEntry>,
        decreases 256 - v,
    {
        entries.push(None);
        v += 1;
    }
    entries.set(BREAKPOINT_VECTOR as usize, Some(TrapEntry { handler: Handler::Breakpoint, stack_index: None }));
    entries.set(PAGE_FAULT_VECTOR as usize, Some(TrapEntry { handler: Handler::PageFault, stack_index: None }));
    entries.set(InterruptIndex::Timer.as_usize(), Some(TrapEntry { handler: Handler::Timer, stack_index: None }));
    entries.set(InterruptIndex::Keyboard.as_usize(), Some(TrapEntry { handler: Handler::Keyboard, stack_index: None }));
    entries.set(
        DOUBLE_FAULT_VECTOR as usize,
        Some(TrapEntry { handler: Handler::DoubleFault, stack_index: Some(DOUBLE_FAULT_IST_INDEX) }),
    );
    assert forall|v: int| 0 <= v < 256 implies #[trigger] entries@[v] == installed_entry(v) by {}
    VectorTable { entries }
}

} // verus!
