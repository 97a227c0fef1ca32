use log_monitor::tail::split_lines;
use std::io::BufRead;

#[test]
fn lines_end_at_line_feeds() {
    assert_eq!(split_lines(b"a\nb\nc\n"), vec!["a", "b", "c"]);
}

#[test]
fn last_line_needs_no_line_feed() {
    assert_eq!(split_lines(b"a\nb"), vec!["a", "b"]);
}

#[test]
fn empty_content_has_no_lines() {
    assert_eq!(split_lines(b""), Vec::<String>::new());
}

#[test]
fn empty_lines_are_lines() {
    assert_eq!(split_lines(b"\n\na\n"), vec!["", "", "a"]);
    assert_eq!(split_lines(b"\n"), vec![""]);
}

#[test]
fn carriage_return_before_line_feed_is_dropped() {
    assert_eq!(split_lines(b"a\r\nb\r\n"), vec!["a", "b"]);
    assert_eq!(split_lines(b"a\r\r\n"), vec!["a\r"]);
    assert_eq!(split_lines(b"\r\n"), vec![""]);
}

#[test]
fn carriage_return_at_the_end_of_the_content_stays() {
    assert_eq!(split_lines(b"a\nb\r"), vec!["a", "b\r"]);
}

#[test]
fn lines_that_are_not_utf8_are_skipped() {
    assert_eq!(split_lines(b"ok\n\xff\xfe\nalso ok\n"), vec!["ok", "also ok"]);
    assert_eq!(split_lines(b"ok\n\xc3"), vec!["ok"]);
}

#[test]
fn multibyte_text_is_decoded() {
    assert_eq!(split_lines("día\nnoël\n".as_bytes()), vec!["día", "noël"]);
}

#[test]
fn split_lines_agrees_with_buffered_reading() {
    let samples: [&[u8]; 6] = [
        b"a\nb\r\nc",
        b"\n\n",
        b"x\r",
        b"one\n\xff\ntwo\r\n\r\n",
        b"",
        b"tail\r\n",
    ];
    for data in samples {
        let expected: Vec<String> = std::io::BufReader::new(data).lines().filter_map(Result::ok).collect();
        assert_eq!(split_lines(data), expected);
    }
}
