use moon::process::{captured_stream, command_line, output_to_string, replace_all, utf8_bytes};

#[test]
fn decodes_output() {
    assert_eq!(output_to_string(b"hello"), "hello");
    assert_eq!(output_to_string("héllo ✓".as_bytes()), "héllo ✓");
    assert_eq!(output_to_string(&[0xff, 0xfe]), "");
}

#[test]
fn encodes_and_decodes_text() {
    let text = "ünïcode text";
    assert_eq!(utf8_bytes(text), text.as_bytes().to_vec());
    assert_eq!(output_to_string(&utf8_bytes(text)), text);
}

#[test]
fn replaces_like_str_replace() {
    assert_eq!(replace_all("a-b-c", "-", "+"), "a+b+c");
    assert_eq!(replace_all("aaa", "aa", "b"), "ba");
    assert_eq!(replace_all("abc", "", "-"), "-a-b-c-");
    assert_eq!(replace_all("abc", "x", "y"), "abc");
    assert_eq!(replace_all("", "", "~"), "~");
}

#[test]
fn writes_command_lines_with_home() {
    let args = vec!["run".to_string(), "/home/me/app.js".to_string()];
    assert_eq!(command_line("node", &args, "/home/me"), "node run ~/app.js");
    assert_eq!(command_line("ls", &vec![], "/root"), "ls ");
}

#[test]
fn captures_streams() {
    assert_eq!(captured_stream(b"raw".to_vec(), &vec!["line".to_string()]), b"raw".to_vec());
    assert_eq!(
        captured_stream(vec![], &vec!["a".to_string(), "b".to_string()]),
        b"ab".to_vec()
    );
}
