use pc_keyboard::KeyCode;
use testos::interrupts::{
    init_idt, Acknowledgment, ChainedControllers, Handler, InterruptIndex, TrapEntry,
    DOUBLE_FAULT_IST_INDEX,
};
use testos::kernel::Outcome;
use testos::keyboard::{DecodedEvent, ScancodeDecoder};
use testos::qemu::ExitCode;
use testos::tests::{test_runner, Testable};
use testos::vga_buffer::BUFFER_HEIGHT;
use testos::{boot_sequence, init, BootStep};

fn bottom_row(k: &testos::kernel::Kernel, len: usize) -> String {
    (0..len)
        .map(|c| char::from(k.writer().cell(BUFFER_HEIGHT - 1, c).ascii_character))
        .collect()
}

#[test]
fn sanity() {
    assert_eq!(1, 1);
}

#[test]
fn test_breakpoint_exception() {
    let mut k = init();
    let r = k.handle_interrupt(3, 0);
    assert_eq!(r.outcome, Outcome::Resume);
    assert_eq!(r.ack, Acknowledgment { primary: false, secondary: false });
    let r = k.handle_interrupt(3, 0);
    assert_eq!(r.outcome, Outcome::Resume);
}

#[test]
fn keyboard_vector_acknowledges_primary_only() {
    let mut k = init();
    let r = k.handle_interrupt(33, 0x1e);
    assert_eq!(r.outcome, Outcome::Resume);
    assert_eq!(r.ack, Acknowledgment { primary: true, secondary: false });
    assert!(matches!(r.key, Some(DecodedEvent::Unicode('a'))));
    assert_eq!(bottom_row(&k, 1), "a");
}

#[test]
fn secondary_vector_acknowledges_both() {
    let c = ChainedControllers::remapped();
    assert_eq!(c.end_of_interrupt(41), Acknowledgment { primary: true, secondary: true });
    assert_eq!(c.end_of_interrupt(47), Acknowledgment { primary: true, secondary: true });
    assert_eq!(c.end_of_interrupt(33), Acknowledgment { primary: true, secondary: false });
    assert_eq!(c.end_of_interrupt(48), Acknowledgment { primary: false, secondary: false });
    assert_eq!(c.end_of_interrupt(31), Acknowledgment { primary: false, secondary: false });
    assert!(c.handles_interrupt(32));
    assert!(!c.handles_interrupt(14));
}

#[test]
fn timer_leaves_a_dot() {
    let mut k = init();
    let r = k.handle_interrupt(InterruptIndex::Timer.as_u8(), 0);
    assert_eq!(r.outcome, Outcome::Resume);
    assert_eq!(r.ack, Acknowledgment { primary: true, secondary: false });
    k.handle_interrupt(32, 0);
    assert_eq!(bottom_row(&k, 2), "..");
}

#[test]
fn faults_and_empty_vectors() {
    let mut k = init();
    let r = k.handle_interrupt(14, 0);
    assert_eq!(r.outcome, Outcome::Halt);
    assert_eq!(r.ack, Acknowledgment { primary: false, secondary: false });
    let r = k.handle_interrupt(8, 0);
    assert_eq!(r.outcome, Outcome::Terminate);
    let r = k.handle_interrupt(0, 0);
    assert_eq!(r.outcome, Outcome::Terminate);
    let r = k.handle_interrupt(41, 0);
    assert_eq!(r.outcome, Outcome::Terminate);
}

#[test]
fn page_fault_message() {
    let mut k = init();
    k.print("x\n");
    k.handle_interrupt(14, 0);
    let w = k.writer();
    let line: String = (0..21)
        .map(|c| char::from(w.cell(BUFFER_HEIGHT - 2, c).ascii_character))
        .collect();
    assert_eq!(line, "EXCEPTION: PAGE FAULT");
    assert_eq!(char::from(w.cell(BUFFER_HEIGHT - 3, 0).ascii_character), 'x');
}

#[test]
fn vector_table_entries() {
    let t = init_idt();
    assert_eq!(t.entry(3), Some(TrapEntry { handler: Handler::Breakpoint, stack_index: None }));
    assert_eq!(
        t.entry(8),
        Some(TrapEntry { handler: Handler::DoubleFault, stack_index: Some(DOUBLE_FAULT_IST_INDEX) })
    );
    assert_eq!(t.entry(14), Some(TrapEntry { handler: Handler::PageFault, stack_index: None }));
    assert_eq!(t.entry(32), Some(TrapEntry { handler: Handler::Timer, stack_index: None }));
    assert_eq!(t.entry(33), Some(TrapEntry { handler: Handler::Keyboard, stack_index: None }));
    assert_eq!(t.entry(0), None);
    assert_eq!(t.entry(255), None);
}

#[test]
fn interrupt_index_vectors() {
    assert_eq!(InterruptIndex::Timer.as_u8(), 32);
    assert_eq!(InterruptIndex::Keyboard.as_u8(), 33);
    assert_eq!(InterruptIndex::Keyboard.as_usize(), 33);
}

#[test]
fn single_byte_scancode_gives_one_event() {
    let mut d = ScancodeDecoder::new();
    assert!(matches!(d.feed(0x1e), Some(DecodedEvent::Unicode('a'))));
    assert!(d.feed(0x9e).is_none());
}

#[test]
fn extended_scancode_waits_for_second_byte() {
    let mut d = ScancodeDecoder::new();
    assert!(d.feed(0xe0).is_none());
    assert!(matches!(d.feed(0x48), Some(DecodedEvent::RawKey(KeyCode::ArrowUp))));
    assert!(matches!(d.feed(0x10), Some(DecodedEvent::Unicode('q'))));
}

#[test]
fn unknown_scancode_resets_the_decoder() {
    let mut d = ScancodeDecoder::new();
    assert!(d.feed(0x00).is_none());
    assert!(matches!(d.feed(0x1e), Some(DecodedEvent::Unicode('a'))));
}

#[test]
fn exit_codes() {
    assert_eq!(ExitCode::Success.as_u32(), 0x10);
    assert_eq!(ExitCode::Fail.as_u32(), 0x11);
}

#[test]
fn boot_order() {
    assert_eq!(
        boot_sequence(),
        vec![
            BootStep::LoadDescriptors,
            BootStep::LoadVectorTable,
            BootStep::RemapControllers,
            BootStep::EnableInterrupts
        ]
    );
}

struct Counted<'a>(&'a std::cell::Cell<u32>);

impl Testable for Counted<'_> {
    fn run(&self) {
        self.0.set(self.0.get() + 1);
    }
}

#[test]
fn runner_runs_every_test() {
    let n = std::cell::Cell::new(0);
    let tests = [Counted(&n), Counted(&n), Counted(&n)];
    assert_eq!(test_runner(&tests), ExitCode::Success);
    assert_eq!(n.get(), 3);
}

#[test]
fn modifier_presses_and_releases_give_no_key() {
    let mut d = ScancodeDecoder::new();
    assert!(d.feed(0x2a).is_none());
    assert!(d.feed(0xaa).is_none());
    assert!(d.feed(0x3a).is_none());
    assert!(d.feed(0xba).is_none());
    assert!(d.feed(0xe0).is_none());
    assert!(d.feed(0x1d).is_none());
    assert!(d.feed(0xe0).is_none());
    assert!(d.feed(0x9d).is_none());
    assert!(matches!(d.feed(0x38), Some(DecodedEvent::RawKey(KeyCode::AltLeft))));
}

#[test]
fn shift_changes_the_decoded_character() {
    let mut d = ScancodeDecoder::new();
    assert!(d.feed(0x2a).is_none());
    assert!(matches!(d.feed(0x1e), Some(DecodedEvent::Unicode('A'))));
    assert!(d.feed(0xaa).is_none());
    assert!(matches!(d.feed(0x1e), Some(DecodedEvent::Unicode('a'))));
}

#[test]
fn prefix_byte_prints_nothing_and_is_acknowledged() {
    let mut k = init();
    let r = k.handle_interrupt(33, 0xe0);
    assert!(r.key.is_none());
    assert_eq!(r.outcome, Outcome::Resume);
    assert_eq!(r.ack, Acknowledgment { primary: true, secondary: false });
    assert_eq!(k.writer().column_position(), 0);
    let r = k.handle_interrupt(33, 0x35);
    assert!(matches!(r.key, Some(DecodedEvent::Unicode('/'))));
    assert_eq!(bottom_row(&k, 1), "/");
}

#[test]
fn unknown_scancode_prints_nothing() {
    let mut k = init();
    let r = k.handle_interrupt(33, 0x00);
    assert!(r.key.is_none());
    assert_eq!(k.writer().column_position(), 0);
}
