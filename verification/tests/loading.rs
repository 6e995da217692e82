use plaintext::session::Session;

#[test]
fn load_consumes_utf8_byte_order_mark() {
    let bytes = vec![0xEF, 0xBB, 0xBF, b'h', b'e', b'l', b'l', b'o'];
    let mut s = Session::new();
    s.load_file(String::from("h.txt"), &bytes);
    assert_eq!(s.doc.content, b"hello".to_vec());
    assert_eq!(s.search.filepath, "h.txt");
}

#[test]
fn load_decodes_utf16le_from_byte_order_mark() {
    let bytes = vec![0xFF, 0xFE, b'h', 0x00, b'i', 0x00];
    let mut s = Session::new();
    s.load_file(String::from("h.txt"), &bytes);
    assert_eq!(s.doc.content, b"hi".to_vec());
}

#[test]
fn load_decodes_utf16be_from_byte_order_mark() {
    let bytes = vec![0xFE, 0xFF, 0x00, b'h', 0x00, b'i'];
    let mut s = Session::new();
    s.load_file(String::from("h.txt"), &bytes);
    assert_eq!(s.doc.content, b"hi".to_vec());
}

#[test]
fn load_without_mark_keeps_utf8_bytes() {
    let bytes = b"plain text \xC3\xA9".to_vec();
    let mut s = Session::new();
    s.load_file(String::from("p.txt"), &bytes);
    assert_eq!(s.doc.content, bytes);
}

#[test]
fn load_replaces_undecodable_bytes_instead_of_failing() {
    let bytes = vec![b'a', 0xFF, b'b'];
    let mut s = Session::new();
    s.load_file(String::from("bad.bin"), &bytes);
    assert_eq!(s.doc.content, b"a\xEF\xBF\xBDb".to_vec());
}

#[test]
fn load_then_save_round_trips_decoded_text_without_mark() {
    let bytes = vec![0xEF, 0xBB, 0xBF, b'r', b'o', b'u', b'n', b'd'];
    let mut s = Session::new();
    s.load_file(String::from("r.txt"), &bytes);
    let saved = s.doc.content.clone();
    assert_eq!(saved, b"round".to_vec());
    let mut reloaded = Session::new();
    reloaded.load_file(String::from("r.txt"), &saved);
    assert_eq!(reloaded.doc.content, saved);
}

#[test]
fn load_resets_search_over_new_content() {
    let mut s = Session::new();
    s.set_pattern(b"aa".to_vec(), true);
    let bytes = b"aaaa".to_vec();
    let first = s.load_file(String::from("a.txt"), &bytes);
    assert!(first.is_some());
    assert_eq!(s.search.results.len(), 2);
    assert_eq!(s.match_display, "2 match(es)");
    assert_eq!(s.doc.style, b"BBBB".to_vec());
}
