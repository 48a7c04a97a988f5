use moon::console::{ConsoleBuffer, ConsoleTarget};

#[test]
fn buffers_until_flushed() {
    let mut c = ConsoleBuffer::new(ConsoleTarget::Stdout, false);
    c.write(b"ab".to_vec());
    c.write_line(b"cd".to_vec());
    assert_eq!(c.flush(), b"abcd\n".to_vec());
    assert_eq!(c.flush(), Vec::<u8>::new());
    assert_eq!(c.target, ConsoleTarget::Stdout);
}

#[test]
fn quiet_consoles_write_nothing() {
    let mut c = ConsoleBuffer::new(ConsoleTarget::Stderr, true);
    c.write(b"ab".to_vec());
    c.write_line(b"cd".to_vec());
    assert_eq!(c.flush(), Vec::<u8>::new());
}
