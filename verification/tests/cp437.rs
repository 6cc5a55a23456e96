use tm20::cp437::encode_cp437;

#[test]
fn ascii_passthrough() {
    assert_eq!(encode_cp437("SYSTEM ONLINE"), b"SYSTEM ONLINE");
}

#[test]
fn block_art() {
    assert_eq!(encode_cp437("░▒▓█▀▄"), [0xb0, 0xb1, 0xb2, 0xdb, 0xdf, 0xdc]);
}

#[test]
fn unknown_becomes_question() {
    assert_eq!(encode_cp437("hello 😀"), b"hello ?");
}

#[test]
fn smart_punctuation() {
    assert_eq!(encode_cp437("it’s…"), b"it's...");
}
