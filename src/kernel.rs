use vstd::prelude::*;
use vstd::string::StringSliceAdditionalSpecFns;
use crate::interrupts::{
    ack_for, installed_entry, BREAKPOINT_VECTOR, PIC_1_OFFSET, PIC_2_OFFSET, serves, Acknowledgment, ChainedControllers, Handler, TrapEntry,
    VectorTable,
};
use crate::keyboard::{yields_key, DecodedEvent, ScancodeDecoder};
use crate::vga_buffer::{char_shown, put_text, Writer};

verus! {

/// What the interrupted code does once a handler is done.
#[derive(Debug, Clone, Copy, PartialEq, Eq, Structural)]
pub enum Outcome {
    /// Execution goes on where it was interrupted.
    Resume,
    /// The processor waits in a low-power loop for good.
    Halt,
    /// The system stops at once.
    Terminate,
}

/// The outcome of a vector by its table entry: a breakpoint and the hardware
/// lines resume, a page fault halts, a double fault or an empty slot terminates.
pub open spec fn outcome_of(entry: Option<TrapEntry>) -> Outcome {
    match entry {
        Some(e) => match e.handler {
            Handler::Breakpoint => Outcome::Resume,
            Handler::Timer => Outcome::Resume,
            Handler::Keyboard => Outcome::Resume,
            Handler::PageFault => Outcome::Halt,
            Handler::DoubleFault => Outcome::Terminate,
        },
        None => Outcome::Terminate,
    }
}

/// Whether the entry's handler serves a controller line, and so owes an
/// end-of-interrupt notice.
pub open spec fn is_hardware(entry: Option<TrapEntry>) -> bool {
    match entry {
        Some(e) => e.handler == Handler::Timer || e.handler == Handler::Keyboard,
        None => false,
    }
}

/// What handling one vector asks of the outside: how to go on, which
/// controllers to acknowledge, and the key that a keyboard byte gave.
pub struct Response {
    pub outcome: Outcome,
    pub ack: Acknowledgment,
    pub key: Option<DecodedEvent>,
}

pub open spec fn no_ack() -> Acknowledgment {
    Acknowledgment { primary: false, secondary: false }
}

/// The kernel's mutable state: the console, the keyboard decoder, the
/// interrupt controllers and the installed vector table.
pub struct Kernel {
    writer: Writer,
    decoder: ScancodeDecoder,
    controllers: ChainedControllers,
    table: VectorTable,
}

impl Kernel {
    /// Assembles a kernel from its parts.
    pub(crate) fn from_parts(
        writer: Writer,
        decoder: ScancodeDecoder,
        controllers: ChainedControllers,
        table: VectorTable,
    ) -> (r: Kernel)
        ensures
            r.console() == writer,
            r.keyboard() == decoder,
            r.chain() == controllers,
            writer.wf() && controllers.wf() && controllers.primary_offset == PIC_1_OFFSET
                && controllers.secondary_offset == PIC_2_OFFSET && table.entries().len() == 256 && (forall|v: int|
                0 <= v < 256 ==> #[trigger] table.entries()[v] == installed_entry(v)) ==> r.wf(),
    {
        Kernel { writer, decoder, controllers, table }
    }

    pub closed spec fn console(&self) -> Writer {
        self.writer
    }

    pub closed spec fn keyboard(&self) -> ScancodeDecoder {
        self.decoder
    }

    pub closed spec fn chain(&self) -> ChainedControllers {
        self.controllers
    }

    pub closed spec fn wf(&self) -> bool {
        &&& self.writer.wf()
        &&& self.controllers.wf()
        &&& self.controllers.primary_offset == PIC_1_OFFSET
        &&& self.controllers.secondary_offset == PIC_2_OFFSET
        &&& self.table.entries().len() == 256
        &&& forall|v: int| 0 <= v < 256 ==> #[trigger] self.table.entries()[v] == installed_entry(v)
    }

    /// The console as it stands.
    pub fn writer(&self) -> (r: &Writer)
        ensures
            *r == self.console(),
    {
        &self.writer
    }

    /// The controllers' configuration.
    pub fn controllers(&self) -> (r: ChainedControllers)
        ensures
            r == self.chain(),
    {
        self.controllers
    }

    /// Writes text to the console.
    pub fn print(&mut self, s: &str)
        requires
            old(self).wf(),
        ensures
            final(self).wf(),
            final(self).console().color() == old(self).console().color(),
            final(self).console()@ == put_text(old(self).console()@, old(self).console().color(), s.spec_bytes()),
            final(self).keyboard() == old(self).keyboard(),
            final(self).chain() == old(self).chain(),
    {
        self.writer.write(s);
    }

    /// Runs the handler of `vector`; `scancode` is the byte read from the
    /// keyboard's data port, and is looked at only for the keyboard line.
    /// The breakpoint handler logs and resumes; the page-fault handler logs and
    /// halts; the timer leaves a dot; the keyboard handler decodes the byte and
    /// prints the character it gives, if any. Each hardware line is
    /// acknowledged after its work. A double fault or a vector with no handler
    /// terminates the system.
    pub fn handle_interrupt(&mut self, vector: u8, scancode: u8) -> (r: Response)
        requires
            old(self).wf(),
        ensures
            final(self).wf(),
            final(self).chain() == old(self).chain(),
            final(self).console().color() == old(self).console().color(),
            r.outcome == outcome_of(installed_entry(vector as int)),
            r.ack == if is_hardware(installed_entry(vector as int)) {
                ack_for(old(self).chain(), vector)
            } else {
                no_ack()
            },
            installed_entry(vector as int) is Some && installed_entry(vector as int)->0.handler
                == Handler::Keyboard ==> final(self).keyboard().pending() == (
            !old(self).keyboard().pending() && scancode == 0xe0) && (r.key is Some <==> yields_key(
                old(self).keyboard().pending(),
                scancode,
            )),
            !(installed_entry(vector as int) is Some && installed_entry(vector as int)->0.handler
                == Handler::Keyboard) ==> final(self).keyboard() == old(self).keyboard() && r.key is None,
            final(self).console()@ == put_text(
                old(self).console()@,
                old(self).console().color(),
                match installed_entry(vector as int) {
                    Some(e) => match e.handler {
                        Handler::Breakpoint => "EXCEPTION: BREAKPOINT\n".spec_bytes(),
                        Handler::PageFault => "EXCEPTION: PAGE FAULT\n".spec_bytes(),
                        Handler::Timer => ".".spec_bytes(),
                        Handler::Keyboard => match r.key {
                            Some(DecodedEvent::Unicode(c)) => char_shown(c),
                            _ => Seq::empty(),
                        },
                        Handler::DoubleFault => Seq::empty(),
                    },
                    None => Seq::empty(),
                },
            ),
    {
        let entry = self.table.entry(vector);
        let ghost before = self.writer@;
        proof {
            assert(put_text(before, self.writer.color(), Seq::empty()) == before);
        }
        match entry {
            Some(e) => match e.handler {
                Handler::Breakpoint => {
                    self.writer.write("EXCEPTION: BREAKPOINT\n");
                    Response { outcome: Outcome::Resume, ack: Acknowledgment { primary: false, secondary: false }, key: None }
                },
                Handler::PageFault => {
                    self.writer.write("EXCEPTION: PAGE FAULT\n");
                    Response { outcome: Outcome::Halt, ack: Acknowledgment { primary: false, secondary: false }, key: None }
                },
                Handler::Timer => {
                    self.writer.write(".");
                    let ack = self.controllers.end_of_interrupt(vector);
                    Response { outcome: Outcome::Resume, ack, key: None }
                },
                Handler::Keyboard => {
                    let key = self.decoder.feed(scancode);
                    match key {
                        Some(DecodedEvent::Unicode(c)) => self.writer.write_char(c),
                        _ => {},
                    }
                    let ack = self.controllers.end_of_interrupt(vector);
                    Response { outcome: Outcome::Resume, ack, key }
                },
                Handler::DoubleFault => {
                    Response { outcome: Outcome::Terminate, ack: Acknowledgment { primary: false, secondary: false }, key: None }
                },
            },
            None => Response { outcome: Outcome::Terminate, ack: Acknowledgment { primary: false, secondary: false }, key: None },
        }
    }
}

/// The breakpoint trap is not fatal: its vector has a handler, execution
/// resumes after it, and no controller is acknowledged for it.
pub proof fn lemma_breakpoint_resumes()
    ensures
        installed_entry(BREAKPOINT_VECTOR as int) is Some,
        outcome_of(installed_entry(BREAKPOINT_VECTOR as int)) == Outcome::Resume,
        !is_hardware(installed_entry(BREAKPOINT_VECTOR as int)),
{
}

/// Every hardware line that the table serves resumes execution and is
/// acknowledged on the primary controller alone: the timer and the keyboard
/// are lines of the primary.
pub proof fn lemma_hardware_lines_acknowledged(vector: u8)
    requires
        is_hardware(installed_entry(vector as int)),
    ensures
        outcome_of(installed_entry(vector as int)) == Outcome::Resume,
        ack_for(ChainedControllers { primary_offset: PIC_1_OFFSET, secondary_offset: PIC_2_OFFSET }, vector)
            == (Acknowledgment { primary: true, secondary: false }),
{
}

/// For any chained pair of controllers, a vector of the secondary's block is
/// acknowledged on both controllers, one of the primary's block on the primary
/// alone, and any other vector on neither.
pub proof fn lemma_chained_acknowledgment(c: ChainedControllers, vector: u8)
    requires
        c.wf(),
    ensures
        serves(c.secondary_offset, vector) ==> ack_for(c, vector) == (Acknowledgment { primary: true, secondary: true }),
        serves(c.primary_offset, vector) ==> ack_for(c, vector) == (Acknowledgment { primary: true, secondary: false }),
        !serves(c.primary_offset, vector) && !serves(c.secondary_offset, vector) ==> ack_for(c, vector)
            == (Acknowledgment { primary: false, secondary: false }),
{
}

} // verus!
