use vstd::prelude::*;
use crate::interrupts::{init_idt, ChainedControllers, PIC_1_OFFSET, PIC_2_OFFSET};
use crate::kernel::Kernel;
use crate::keyboard::ScancodeDecoder;
use crate::vga_buffer::Writer;

pub mod interrupts;
pub mod kernel;
pub mod keyboard;
pub mod qemu;
pub mod tests;
pub mod vga_buffer;

verus! {

/// The steps of bringing the system up, in the order they must happen.
#[derive(Debug, Clone, Copy, PartialEq, Eq, Structural)]
pub enum BootStep {
    /// Load the code-segment and task-state-segment descriptors, with the
    /// double-fault stack.
    LoadDescriptors,
    /// Load the trap vector table.
    LoadVectorTable,
    /// Remap and initialize the two interrupt controllers.
    RemapControllers,
    /// Let the CPU take interrupts.
    EnableInterrupts,
}

/// The boot order: descriptors before the vector table that refers to their
/// stack slot, both before the controllers are remapped, and interrupts last.
pub fn boot_sequence() -> (r: Vec<BootStep>)
    ensures
        r@ == seq![
            BootStep::LoadDescriptors,
            BootStep::LoadVectorTable,
            BootStep::RemapControllers,
            BootStep::EnableInterrupts,
        ],
{
    let mut steps: Vec<BootStep> = Vec::new();
    steps.push(BootStep::LoadDescriptors);
    steps.push(BootStep::LoadVectorTable);
    steps.push(BootStep::RemapControllers);
    steps.push(BootStep::EnableInterrupts);
    steps
}

/// Brings the kernel's state up: a blank console, a fresh keyboard decoder,
/// the controllers remapped above the CPU exceptions, and the vector table.
pub fn init() -> (r: Kernel)
    ensures
        r.wf(),
        r.console()@.col == 0,
        !r.keyboard().pending(),
        r.chain().primary_offset == PIC_1_OFFSET,
        r.chain().secondary_offset == PIC_2_OFFSET,
{
    let writer = Writer::new();
    let decoder = ScancodeDecoder::new();
    let controllers = ChainedControllers::remapped();
    let table = init_idt();
    Kernel::from_parts(writer, decoder, controllers, table)
}

} // verus!
