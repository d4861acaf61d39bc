use testos::vga_buffer::{Color, ColorCode, Writer, BUFFER_HEIGHT, BUFFER_WIDTH, UNPRINTABLE};

fn row_text(w: &Writer, row: usize, len: usize) -> String {
    let mut s = String::new();
    for col in 0..len {
        s.push(char::from(w.cell(row, col).ascii_character));
    }
    s
}

fn println(w: &mut Writer, s: &str) {
    w.write(s);
    w.write("\n");
}

#[test]
fn test_println_simple() {
    let mut w = Writer::new();
    println(&mut w, "test_println_simple output");
    assert_eq!(w.column_position(), 0);
}

#[test]
fn test_println_many() {
    let mut w = Writer::new();
    for _ in 0..200 {
        println(&mut w, "test_println_many output");
    }
    assert_eq!(row_text(&w, BUFFER_HEIGHT - 2, 24), "test_println_many output");
}

#[test]
fn test_println_output() {
    let mut w = Writer::new();
    let s = "Some test string that fits on a single line";
    println(&mut w, s);
    for (i, c) in s.chars().enumerate() {
        let screen_char = w.cell(BUFFER_HEIGHT - 2, i);
        assert_eq!(char::from(screen_char.ascii_character), c);
    }
}

#[test]
fn hello_on_empty_grid() {
    let mut w = Writer::new();
    w.write("HELLO");
    assert_eq!(row_text(&w, BUFFER_HEIGHT - 1, 5), "HELLO");
    assert_eq!(w.column_position(), 5);
    assert_eq!(w.cell(BUFFER_HEIGHT - 1, 5).ascii_character, b' ');
}

#[test]
fn two_hundred_lines_keep_the_last() {
    let mut w = Writer::new();
    for i in 0..200 {
        let line = format!("line {}", i + 1);
        w.write(&line);
        w.write("\n");
    }
    assert_eq!(row_text(&w, BUFFER_HEIGHT - 2, 8), "line 200");
    assert_eq!(row_text(&w, BUFFER_HEIGHT - 3, 8), "line 199");
    assert_eq!(row_text(&w, 0, 8), "line 177");
    assert_eq!(row_text(&w, BUFFER_HEIGHT - 1, BUFFER_WIDTH), " ".repeat(BUFFER_WIDTH));
}

#[test]
fn lines_scroll_off_the_top() {
    let mut w = Writer::new();
    println(&mut w, "first");
    for _ in 0..BUFFER_HEIGHT {
        w.write("\n");
    }
    for row in 0..BUFFER_HEIGHT {
        assert_eq!(row_text(&w, row, BUFFER_WIDTH), " ".repeat(BUFFER_WIDTH));
    }
}

#[test]
fn unprintable_byte_is_one_placeholder() {
    let mut w = Writer::new();
    w.write("a\tb");
    assert_eq!(w.cell(BUFFER_HEIGHT - 1, 0).ascii_character, b'a');
    assert_eq!(w.cell(BUFFER_HEIGHT - 1, 1).ascii_character, UNPRINTABLE);
    assert_eq!(w.cell(BUFFER_HEIGHT - 1, 2).ascii_character, b'b');
    assert_eq!(w.column_position(), 3);
}

#[test]
fn non_ascii_char_is_one_placeholder_per_utf8_byte() {
    let mut w = Writer::new();
    w.write("é!");
    assert_eq!(w.cell(BUFFER_HEIGHT - 1, 0).ascii_character, UNPRINTABLE);
    assert_eq!(w.cell(BUFFER_HEIGHT - 1, 1).ascii_character, UNPRINTABLE);
    assert_eq!(w.cell(BUFFER_HEIGHT - 1, 2).ascii_character, b'!');
    let mut v = Writer::new();
    v.write_char('€');
    assert_eq!(v.column_position(), 3);
    v.write_char('z');
    assert_eq!(v.cell(BUFFER_HEIGHT - 1, 3).ascii_character, b'z');
}

#[test]
fn full_row_wraps_to_a_new_line() {
    let mut w = Writer::new();
    let full = "x".repeat(BUFFER_WIDTH);
    w.write(&full);
    assert_eq!(w.column_position(), BUFFER_WIDTH);
    w.write("y");
    assert_eq!(row_text(&w, BUFFER_HEIGHT - 2, BUFFER_WIDTH), full);
    assert_eq!(w.cell(BUFFER_HEIGHT - 1, 0).ascii_character, b'y');
    assert_eq!(w.column_position(), 1);
}

#[test]
fn raw_byte_is_written_as_is() {
    let mut w = Writer::new();
    w.write_byte(0x01);
    assert_eq!(w.cell(BUFFER_HEIGHT - 1, 0).ascii_character, 0x01);
}

#[test]
fn color_code_packs_background_high() {
    assert_eq!(ColorCode::new(Color::Yellow, Color::Black), ColorCode(0x0e));
    assert_eq!(ColorCode::new(Color::White, Color::Blue), ColorCode(0x1f));
    assert_eq!(Color::LightRed.as_u8(), 12);
    let w = Writer::with_colors(Color::Green, Color::Red);
    assert_eq!(w.cell(0, 0).color_code, ColorCode(0x42));
    let d = Writer::default();
    assert_eq!(d.cell(3, 7).color_code, ColorCode(0x0e));
    assert_eq!(d.cell(3, 7).ascii_character, b' ');
}

#[test]
fn long_line_wraps_once() {
    let mut w = Writer::new();
    w.write("top\n");
    let line: String = (0..100).map(|i| char::from(b'a' + (i % 26) as u8)).collect();
    w.write(&line);
    assert_eq!(w.column_position(), 20);
    assert_eq!(row_text(&w, BUFFER_HEIGHT - 2, BUFFER_WIDTH), line[..80]);
    assert_eq!(row_text(&w, BUFFER_HEIGHT - 1, 20), line[80..]);
    assert_eq!(row_text(&w, BUFFER_HEIGHT - 1, BUFFER_WIDTH)[20..], " ".repeat(60));
    assert_eq!(row_text(&w, BUFFER_HEIGHT - 3, 3), "top");
}

#[test]
fn bottom_row_holds_text_after_last_newline() {
    let mut w = Writer::new();
    w.write("first line\nsecond line\nlast");
    assert_eq!(row_text(&w, BUFFER_HEIGHT - 1, BUFFER_WIDTH), format!("{:<80}", "last"));
    assert_eq!(row_text(&w, BUFFER_HEIGHT - 2, 11), "second line");
    assert_eq!(w.column_position(), 4);
}
