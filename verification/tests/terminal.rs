use innkeeper::terminal::{finished_line, with_bits};

#[test]
fn terminal_modes_clear_and_set_bits() {
    assert_eq!(with_bits(0b1111, 0b0011, 0b1_0000), 0b1_1100);
    assert_eq!(with_bits(0, 0, 0), 0);
    assert_eq!(with_bits(u32::MAX, 0b1000, 0b1000), u32::MAX);
    assert_eq!(with_bits(0b1010, 0b1010, 0), 0);
}

#[test]
fn typed_lines_finish_at_a_line_break() {
    assert_eq!(finished_line(b"secret\n"), Some(b"secret".to_vec()));
    assert_eq!(finished_line(b"\n"), Some(vec![]));
    assert_eq!(finished_line(b"secret"), None);
    assert_eq!(finished_line(b""), None);
    assert_eq!(finished_line(b"a\nb"), None);
}
