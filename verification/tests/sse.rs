use hivebear::sse::{parse_sse_lines, yielded_item, SseDecoder};

#[test]
fn test_parse_sse_lines_basic() {
    let raw = "data: {\"content\":\"Hello\"}\n\n\
               data: {\"content\":\" world\"}\n\n\
               data: [DONE]\n\n";
    let payloads = parse_sse_lines(raw, Some("[DONE]"));
    assert_eq!(
        payloads,
        vec!["{\"content\":\"Hello\"}", "{\"content\":\" world\"}"]
    );
}

#[test]
fn test_parse_sse_lines_skips_comments() {
    let raw = ": keep-alive\n\
               data: {\"text\":\"hi\"}\n\n\
               data: [DONE]\n";
    let payloads = parse_sse_lines(raw, Some("[DONE]"));
    assert_eq!(payloads, vec!["{\"text\":\"hi\"}"]);
}

#[test]
fn test_parse_sse_lines_skips_events() {
    let raw = "event: message_start\n\
               data: {\"type\":\"message_start\"}\n\n\
               event: content_block_delta\n\
               data: {\"text\":\"OK\"}\n\n";
    let payloads = parse_sse_lines(raw, None);
    assert_eq!(
        payloads,
        vec!["{\"type\":\"message_start\"}", "{\"text\":\"OK\"}"]
    );
}

#[test]
fn test_parse_sse_lines_no_sentinel() {
    let raw = "data: chunk1\n\ndata: chunk2\n\n";
    let payloads = parse_sse_lines(raw, None);
    assert_eq!(payloads, vec!["chunk1", "chunk2"]);
}

#[test]
fn test_parse_sse_lines_empty() {
    let payloads = parse_sse_lines("", Some("[DONE]"));
    assert!(payloads.is_empty());
}

#[test]
fn test_parse_sse_lines_data_no_space() {
    let raw = "data:{\"compact\":true}\n\n";
    let payloads = parse_sse_lines(raw, None);
    assert_eq!(payloads, vec!["{\"compact\":true}"]);
}

#[test]
fn sse_lines_crlf_and_last_line_without_newline() {
    let raw = "data: a\r\n\r\ndata: b";
    assert_eq!(parse_sse_lines(raw, None), vec!["a", "b"]);
}

#[test]
fn sse_lines_sentinel_is_compared_trimmed_and_stops_everything_after() {
    let raw = "data:   [DONE]  \ndata: late\n";
    assert!(parse_sse_lines(raw, Some("[DONE]")).is_empty());
    assert_eq!(parse_sse_lines(raw, None), vec!["  [DONE]", "late"]);
}

#[test]
fn sse_lines_blank_payloads_and_other_fields_are_skipped() {
    let raw = "data:    \nid: 7\nretry: 10\ndata: x\n";
    assert_eq!(parse_sse_lines(raw, None), vec!["x"]);
}

#[test]
fn sse_decoder_joins_lines_split_across_chunks() {
    let mut d = SseDecoder::new(Some("[DONE]"));
    assert!(d.push_chunk("data: hel").is_empty());
    assert_eq!(d.push_chunk("lo\r\n\r\ndata: wor"), vec!["hello"]);
    assert_eq!(d.push_chunk("ld\n: ping\nevent: x\n"), vec!["world"]);
    assert_eq!(d.push_chunk("data: [DONE]\ndata: ignored\n"), Vec::<String>::new());
    assert!(d.push_chunk("data: more\n").is_empty());
    assert!(d.finish().is_empty());
}

#[test]
fn sse_decoder_keeps_payload_untrimmed_and_flushes_remainder() {
    let mut d = SseDecoder::new(None);
    assert_eq!(d.push_chunk("data:  x \n"), vec![" x "]);
    assert!(d.push_chunk("data: tail").is_empty());
    assert_eq!(d.finish(), vec!["tail"]);
    assert!(d.finish().is_empty());
}

#[test]
fn sse_decoder_output_does_not_depend_on_chunking() {
    let body = "data: {\"a\":1}\r\n\n: ping\nevent: x\ndata:{\"b\":2}\n\ndata: [DONE]\ndata: after\n";
    let mut whole = SseDecoder::new(Some("[DONE]"));
    let expected = whole.push_chunk(body);
    assert_eq!(expected, vec!["{\"a\":1}".to_string(), "{\"b\":2}".to_string()]);
    for cut in 0..=body.len() {
        if !body.is_char_boundary(cut) {
            continue;
        }
        let mut d = SseDecoder::new(Some("[DONE]"));
        let mut got = d.push_chunk(&body[..cut]);
        got.extend(d.push_chunk(&body[cut..]));
        got.extend(d.finish());
        assert_eq!(got, expected, "cut at {cut}");
    }
}

#[test]
fn streamed_decoding_matches_whole_text_parse() {
    let raw = "event: delta\r\ndata: {\"a\":1}\r\n: keepalive\n\ndata:{\"b\":2}\ndata: [DONE]\ndata: late\n";
    let expected = parse_sse_lines(raw, Some("[DONE]"));
    assert_eq!(expected, vec!["{\"a\":1}".to_string(), "{\"b\":2}".to_string()]);
    for cut in 0..raw.len() {
        if !raw.is_char_boundary(cut) {
            continue;
        }
        let mut d = SseDecoder::new(Some("[DONE]"));
        let mut got = d.push_chunk(&raw[..cut]);
        got.extend(d.push_chunk(&raw[cut..]));
        got.extend(d.finish());
        assert_eq!(got, expected, "cut at {cut}");
    }
    let tail = "data: x\ndata: last";
    let mut d = SseDecoder::new(None);
    let mut got = d.push_chunk(tail);
    got.extend(d.finish());
    assert_eq!(got, parse_sse_lines(tail, None));
}

#[test]
fn only_parsed_items_are_yielded() {
    assert_eq!(yielded_item::<u32>(Ok(Some(7))), Some(7));
    assert_eq!(yielded_item::<u32>(Ok(None)), None);
    assert_eq!(yielded_item::<u32>(Err("bad json".into())), None);
}

#[test]
fn decoder_reports_the_end_sentinel() {
    let mut d = SseDecoder::new(Some("[DONE]"));
    assert!(!d.finished());
    assert_eq!(d.push_chunk("data: a\n"), vec!["a".to_string()]);
    assert!(!d.finished());
    assert!(d.push_chunk("data: [DONE]\ndata: b\n").is_empty());
    assert!(d.finished());
    assert!(d.finish().is_empty());
}
