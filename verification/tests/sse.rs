use mcp_client::sse::SseParser;

#[test]
fn sse_parser_joins_multi_line_data_and_ignores_other_fields() {
    let mut parser = SseParser::default();
    let events = parser.push(b"event: message\r\ndata: line one\r\ndata: line two\r\n\r\n");
    assert_eq!(events, vec!["line one\nline two".to_string()]);
}

#[test]
fn sse_parser_handles_data_split_across_chunks() {
    let mut parser = SseParser::default();
    assert!(parser.push(b"data: {\"jsonrpc\":").is_empty());
    assert!(parser.push(b"\"2.0\"}\n").is_empty());
    let events = parser.push(b"\n");
    assert_eq!(events, vec!["{\"jsonrpc\":\"2.0\"}".to_string()]);
}

#[test]
fn sse_parser_emits_multiple_events_from_one_chunk() {
    let mut parser = SseParser::default();
    let events = parser.push(b": comment\ndata: first\n\ndata: second\n\n");
    assert_eq!(events, vec!["first".to_string(), "second".to_string()]);
}

#[test]
fn every_cut_of_a_stream_gives_the_same_events() {
    let stream = "id: 1\ndata: caf\u{e9} \u{1f600}\ndata:\r\ndata:tight\n\n\n: x\ndata:  two\n\nrest"
        .as_bytes();
    let whole = SseParser::default().push(stream);
    assert_eq!(
        whole,
        vec!["caf\u{e9} \u{1f600}\n\ntight".to_string(), " two".to_string()]
    );
    for cut in 0..stream.len() + 1 {
        let mut parser = SseParser::default();
        let mut events = parser.push(&stream[..cut]);
        events.extend(parser.push(&stream[cut..]));
        assert_eq!(events, whole, "cut at {cut}");
    }
}

#[test]
fn stream_may_use_carriage_returns() {
    let stream = ": x\ndata: caf\u{e9}\ndata:\n\ndata: two\r\n\nevent: e\ndata: three\n\ndata: rest";
    let mut plain = SseParser::default();
    let events = plain.push(stream.as_bytes());
    assert_eq!(
        events,
        vec!["caf\u{e9}\n".to_string(), "two".to_string(), "three".to_string()]
    );
    let mut other = SseParser::default();
    assert_eq!(other.push(stream.replace('\n', "\r\n").as_bytes()), events);
    assert_eq!(plain.push(b"!\n\n"), other.push(b"!\n\n"));
}

#[test]
fn empty_lines_without_data_emit_nothing() {
    let mut parser = SseParser::default();
    assert!(parser.push(b"\n\r\n\nevent: ping\n\n").is_empty());
    assert_eq!(parser.push(b"data:\n\n"), vec!["".to_string()]);
}

#[test]
fn only_a_whole_data_field_counts() {
    let mut parser = SseParser::default();
    assert!(parser.push(b"data\ndatax: 1\n data: 2\nDATA: 3\n\n").is_empty());
}

#[test]
fn trailing_carriage_returns_are_part_of_the_line_end() {
    let mut parser = SseParser::default();
    assert_eq!(parser.push(b"data: a\r\r\n\r\r\n"), vec!["a".to_string()]);
    assert_eq!(parser.push(b"data: a\rb\n\n"), vec!["a\rb".to_string()]);
}

#[test]
fn invalid_utf8_keeps_the_ascii_around_it() {
    let mut parser = SseParser::default();
    assert_eq!(
        parser.push(b"data: Hello \xF0\x90\x80World\xe2\x82\n\n"),
        vec!["Hello \u{fffd}World\u{fffd}".to_string()]
    );
    let stream: &[u8] = b"data: a\xe2\x82\ndata: \xff\xc3\n\n\xf0\n\ndata:\xed\xa0\x80\n\ndata: \xc3";
    let mut crlf = Vec::new();
    for byte in stream {
        if *byte == b'\n' {
            crlf.push(b'\r');
        }
        crlf.push(*byte);
    }
    let mut plain = SseParser::default();
    let mut other = SseParser::default();
    let events = plain.push(stream);
    assert_eq!(events.len(), 2);
    assert_eq!(events[0], "a\u{fffd}\n\u{fffd}\u{fffd}");
    assert_eq!(events[1], "\u{fffd}\u{fffd}\u{fffd}");
    assert_eq!(other.push(&crlf), events);
    assert_eq!(plain.push(b"\xa9\n\n"), vec!["\u{e9}".to_string()]);
    assert_eq!(other.push(b"\xa9\r\n\r\n"), vec!["\u{e9}".to_string()]);
}

#[test]
fn every_ascii_byte_survives_between_invalid_bytes() {
    for byte in 0x20..0x7fu8 {
        for before in [&b"\xe2\x82"[..], b"\xf0\x90\x80", b"\xff", b"\xc3", b"\x80"] {
            let mut source = b"data: ".to_vec();
            source.extend(before);
            source.push(byte);
            source.extend(b"\xbf\n\n");
            let events = SseParser::default().push(&source);
            assert_eq!(
                events,
                vec![format!("\u{fffd}{}\u{fffd}", char::from(byte))],
                "{before:x?}"
            );
        }
    }
}

#[test]
fn invalid_utf8_is_replaced() {
    let mut parser = SseParser::default();
    let events = parser.push(b"data: a\xffb\xc3\n\n");
    assert_eq!(events, vec!["a\u{fffd}b\u{fffd}".to_string()]);
}
