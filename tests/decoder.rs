use ue_log_tail::decoder::LineDecoder;

fn feed_all(chunks: &[&[u8]]) -> (Vec<String>, Vec<u8>) {
    let mut d = LineDecoder::new();
    let mut out = Vec::new();
    for c in chunks {
        out.extend(d.feed(c));
    }
    (out, d.carry.clone())
}

#[test]
fn splits_lines_and_keeps_partial_tail() {
    let (lines, carry) = feed_all(&[b"first\nsecond\r\nthi"]);
    assert_eq!(lines, vec!["first".to_string(), "second".to_string()]);
    assert_eq!(carry, b"thi".to_vec());
}

#[test]
fn carry_completes_on_next_chunk() {
    let (lines, carry) = feed_all(&[b"par", b"tial\n"]);
    assert_eq!(lines, vec!["partial".to_string()]);
    assert!(carry.is_empty());
}

#[test]
fn blank_lines_are_dropped() {
    let (lines, _) = feed_all(&[b"a\n\n   \n\t\r\nb\n"]);
    assert_eq!(lines, vec!["a".to_string(), "b".to_string()]);
}

#[test]
fn chunked_equals_whole_for_every_split() {
    let data: &[u8] = b"LogA: one\r\n\nLogB: two\nthree \xc3\xa9\nfour";
    let (whole, whole_carry) = feed_all(&[data]);
    for i in 0..=data.len() {
        for j in i..=data.len() {
            let (lines, carry) = feed_all(&[&data[..i], &data[i..j], &data[j..]]);
            assert_eq!(lines, whole);
            assert_eq!(carry, whole_carry);
        }
    }
    for size in 1..4 {
        let chunks: Vec<&[u8]> = data.chunks(size).collect();
        let (lines, carry) = feed_all(&chunks);
        assert_eq!(lines, whole);
        assert_eq!(carry, whole_carry);
    }
}

#[test]
fn multibyte_char_split_across_chunks_survives() {
    let (lines, _) = feed_all(&[b"caf\xc3", b"\xa9\n"]);
    assert_eq!(lines, vec!["caf\u{e9}".to_string()]);
}

#[test]
fn invalid_bytes_are_replaced_not_fatal() {
    let (lines, _) = feed_all(&[b"bad \xff byte\n"]);
    assert_eq!(lines, vec!["bad \u{fffd} byte".to_string()]);
}

#[test]
fn clear_drops_pending_fragment() {
    let mut d = LineDecoder::new();
    assert!(d.feed(b"stale").is_empty());
    d.clear();
    assert_eq!(d.feed(b"fresh\n"), vec!["fresh".to_string()]);
}
