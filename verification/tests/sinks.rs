use cairo_writer::{CairoWrite, CairoWriteSlice, Sink, SinkFailure, Sizer, StringSink};

#[test]
fn sizer_starts_at_zero() {
    assert_eq!(Sizer::new().size(), 0);
    assert_eq!(Sizer::default().size(), 0);
}

#[test]
fn sizer_counts_utf8_bytes_of_strings() {
    let mut sizer = Sizer::new();
    assert_eq!(sizer.write_str("abc"), Ok(()));
    assert_eq!(sizer.size(), 3);
    assert_eq!(sizer.write_str("héllo"), Ok(()));
    assert_eq!(sizer.size(), 9);
    assert_eq!(sizer.write_str(""), Ok(()));
    assert_eq!(sizer.size(), 9);
}

#[test]
fn sizer_counts_utf8_bytes_of_characters() {
    let mut sizer = Sizer::new();
    sizer.write_char('a').unwrap();
    assert_eq!(sizer.size(), 1);
    sizer.write_char('é').unwrap();
    assert_eq!(sizer.size(), 3);
    sizer.write_char('€').unwrap();
    assert_eq!(sizer.size(), 6);
    sizer.write_char('😀').unwrap();
    assert_eq!(sizer.size(), 10);
}

#[test]
fn sizer_agrees_with_len_utf8_at_the_width_boundaries() {
    for c in ['\u{0}', '\u{7f}', '\u{80}', '\u{7ff}', '\u{800}', '\u{ffff}', '\u{10000}', '\u{10ffff}']
    {
        let mut sizer = Sizer::new();
        sizer.write_char(c).unwrap();
        assert_eq!(sizer.size(), c.len_utf8());
    }
}

#[test]
fn string_sink_keeps_what_it_is_given() {
    let mut sink = StringSink::new();
    sink.write_str("ab").unwrap();
    sink.write_char('€').unwrap();
    sink.write_str("cd").unwrap();
    assert_eq!(sink.as_str(), "ab€cd");
    assert_eq!(sink.into_string(), "ab€cd");
}

#[test]
fn a_write_that_does_not_fit_fails_and_changes_nothing() {
    let mut sink = StringSink::with_room(3);
    assert_eq!(sink.write_str("ab"), Ok(()));
    assert_eq!(sink.write_str("cd"), Err(SinkFailure));
    assert_eq!(sink.as_str(), "ab");
    assert_eq!(sink.write_char('€'), Err(SinkFailure));
    assert_eq!(sink.as_str(), "ab");
    assert_eq!(sink.write_char('c'), Ok(()));
    assert_eq!(sink.as_str(), "abc");
    assert_eq!(sink.write_char('d'), Err(SinkFailure));
    assert_eq!(sink.write_str(""), Ok(()));
    assert_eq!(sink.as_str(), "abc");
}

#[test]
fn a_sink_without_room_refuses_everything_but_nothing() {
    let mut sink = StringSink::with_room(0);
    assert_eq!(sink.write_char('a'), Err(SinkFailure));
    assert_eq!(sink.write_str("a"), Err(SinkFailure));
    assert_eq!(sink.write_str(""), Ok(()));
    assert_eq!(sink.as_str(), "");
}

#[test]
fn a_render_fails_exactly_when_the_text_does_not_fit() {
    let items = vec!["ab", "cd", "ef"];
    let mut exact = StringSink::with_room(10);
    assert_eq!(items.cwrite_csv(&mut exact), Ok(()));
    assert_eq!(exact.as_str(), "ab, cd, ef");
    let mut short = StringSink::with_room(9);
    assert_eq!(items.cwrite_csv(&mut short), Err(SinkFailure));
}

#[test]
fn a_failed_render_keeps_the_part_already_written() {
    let items = vec!["ab", "cd", "ef"];
    let mut sink = StringSink::with_room(5);
    assert_eq!(items.cwrite_csv(&mut sink), Err(SinkFailure));
    assert_eq!(sink.as_str(), "ab, ");
    assert!("ab, cd, ef".starts_with(sink.as_str()));
}

#[test]
fn a_failed_wrapped_render_stops_at_the_first_write_that_does_not_fit() {
    let value = "value".to_string();
    let mut sink = StringSink::with_room(3);
    assert_eq!(value.cwrite_wrapped(&mut sink, '(', ')'), Err(SinkFailure));
    assert_eq!(sink.as_str(), "(");
    let mut none = StringSink::with_room(0);
    assert_eq!(value.cwrite_wrapped(&mut none, '(', ')'), Err(SinkFailure));
    assert_eq!(none.as_str(), "");
}

#[test]
fn size_hint_is_the_length_of_the_rendered_string() {
    let values = vec!["".to_string(), "abc".to_string(), "héllo €".to_string(), "😀".to_string()];
    for value in values.iter() {
        assert_eq!(value.size_hint(), value.render_to_string().len());
        assert_eq!(value.size_hint(), value.len());
    }
    let bytes: [u8; 32] = [7; 32];
    assert_eq!(bytes.size_hint(), bytes.render_to_string().len());
    assert_eq!(bytes.size_hint(), 66);
}

#[test]
fn sizer_and_string_sink_agree_on_a_sequence() {
    let items = vec!["a€", "b", "ccc"];
    let mut sizer = Sizer::new();
    let mut sink = StringSink::new();
    items.cwrite_tuple(&mut sizer).unwrap();
    items.cwrite_tuple(&mut sink).unwrap();
    assert_eq!(sizer.size(), sink.as_str().len());
    assert_eq!(sizer.size(), 14);
}

#[test]
fn rendering_twice_gives_the_same_text() {
    let items = vec!["x".to_string(), "y".to_string()];
    let mut first = StringSink::new();
    let mut second = StringSink::new();
    items.cwrite_csv_braced(&mut first).unwrap();
    items.cwrite_csv_braced(&mut second).unwrap();
    assert_eq!(first.as_str(), second.as_str());
    let value = "again".to_string();
    assert_eq!(value.render_to_string(), value.render_to_string());
}
