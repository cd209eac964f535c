use qotd::legacy::load_raw_quotes;

#[test]
fn splits_at_percent_lines() {
    assert_eq!(
        load_raw_quotes(b"abc\n%\ndef\n%\n"),
        vec![b"abc\n".to_vec(), b"def\n".to_vec()]
    );
}

#[test]
fn unterminated_last_quote_is_dropped() {
    assert_eq!(load_raw_quotes(b"abc\n%\ndef\n"), vec![b"abc\n".to_vec()]);
    assert_eq!(load_raw_quotes(b"abc\n%\ndef\nghi"), vec![b"abc\n".to_vec()]);
    assert_eq!(load_raw_quotes(b"abc\ndef\n"), Vec::<Vec<u8>>::new());
}

#[test]
fn several_lines_keep_their_newlines() {
    assert_eq!(
        load_raw_quotes(b"one\ntwo\n\nthree\n%\n"),
        vec![b"one\ntwo\n\nthree\n".to_vec()]
    );
}

#[test]
fn last_percent_needs_no_newline() {
    assert_eq!(
        load_raw_quotes(b"abc\n%\ndef\n%"),
        vec![b"abc\n".to_vec(), b"def\n".to_vec()]
    );
}

#[test]
fn carriage_return_belongs_to_the_line_ending() {
    assert_eq!(
        load_raw_quotes(b"abc\r\n%\r\ndef\r\n%\r\n"),
        vec![b"abc\n".to_vec(), b"def\n".to_vec()]
    );
    assert_eq!(load_raw_quotes(b"a\r\r\n%\n"), vec![b"a\r\n".to_vec()]);
    assert_eq!(load_raw_quotes(b"a\rb\n%\n"), vec![b"a\rb\n".to_vec()]);
    assert_eq!(load_raw_quotes(b"abc\n%\r"), Vec::<Vec<u8>>::new());
}

#[test]
fn percent_among_other_characters_closes_nothing() {
    assert_eq!(
        load_raw_quotes(b"100%\n%%\n % \n%\n"),
        vec![b"100%\n%%\n % \n".to_vec()]
    );
}

#[test]
fn empty_quotes_are_kept() {
    assert_eq!(load_raw_quotes(b"%\n"), vec![Vec::<u8>::new()]);
    assert_eq!(
        load_raw_quotes(b"%\n%\nabc\n%\n"),
        vec![Vec::new(), Vec::new(), b"abc\n".to_vec()]
    );
}

#[test]
fn empty_text_has_no_quotes() {
    assert_eq!(load_raw_quotes(b""), Vec::<Vec<u8>>::new());
    assert_eq!(load_raw_quotes(b"\n"), Vec::<Vec<u8>>::new());
}

#[test]
fn tail_without_percent_changes_nothing() {
    let text = b"abc\n%\ndef\n%\n".to_vec();
    let mut longer = text.clone();
    longer.extend_from_slice(b"ghi\n%%\njkl");
    assert_eq!(load_raw_quotes(&longer), load_raw_quotes(&text));
}

#[test]
fn bytes_that_are_no_text_pass_through() {
    assert_eq!(
        load_raw_quotes(&[0xff, 0x00, b'\n', b'%', b'\n']),
        vec![vec![0xff, 0x00, b'\n']]
    );
}

#[test]
fn quotes_written_out_are_read_back() {
    let quotes = vec![
        b"one\n".to_vec(),
        Vec::new(),
        b"two\nlines, 100%\n\n".to_vec(),
        b"%%\n".to_vec(),
    ];
    let mut text = Vec::new();
    for quote in &quotes {
        text.extend_from_slice(quote);
        text.extend_from_slice(b"%\n");
    }
    assert_eq!(load_raw_quotes(&text), quotes);
}
