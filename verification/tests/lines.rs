use serial_logger::lines::LineReassembler;
use serial_logger::lines::NEWLINE;

fn feed_all(chunks: &[&[u8]]) -> (Vec<Vec<u8>>, Vec<u8>) {
    let mut reassembler = LineReassembler::new();
    let mut lines = Vec::new();
    for chunk in chunks {
        lines.extend(reassembler.feed(chunk));
    }
    (lines, reassembler.pending().to_vec())
}

#[test]
fn newline_is_line_feed() {
    assert_eq!(NEWLINE, b'\n');
    assert_eq!(NEWLINE, 0x0A);
}

#[test]
fn new_reassembler_holds_nothing() {
    let reassembler = LineReassembler::new();
    assert!(reassembler.pending().is_empty());
}

#[test]
fn partial_line_is_carried_over() {
    let mut reassembler = LineReassembler::new();
    let first = reassembler.feed(b"AB");
    assert!(first.is_empty());
    assert_eq!(reassembler.pending(), b"AB");
    let second = reassembler.feed(b"CD\n");
    assert_eq!(second, vec![b"ABCD\n".to_vec()]);
    assert!(reassembler.pending().is_empty());
}

#[test]
fn empty_chunk_yields_no_lines() {
    let mut reassembler = LineReassembler::new();
    assert!(reassembler.feed(b"").is_empty());
    assert!(reassembler.pending().is_empty());
    assert!(reassembler.feed(b"abc").is_empty());
    assert!(reassembler.feed(b"").is_empty());
    assert_eq!(reassembler.pending(), b"abc");
}

#[test]
fn several_lines_in_one_chunk_come_out_in_order() {
    let mut reassembler = LineReassembler::new();
    let lines = reassembler.feed(b"one\ntwo\nthree\nfour");
    assert_eq!(lines, vec![b"one\n".to_vec(), b"two\n".to_vec(), b"three\n".to_vec()]);
    assert_eq!(reassembler.pending(), b"four");
}

#[test]
fn carriage_return_is_ordinary_content() {
    let mut reassembler = LineReassembler::new();
    let lines = reassembler.feed(b"a\r\nb\rc\n");
    assert_eq!(lines, vec![b"a\r\n".to_vec(), b"b\rc\n".to_vec()]);
    assert!(reassembler.pending().is_empty());
}

#[test]
fn lone_newlines_are_lines() {
    let mut reassembler = LineReassembler::new();
    let lines = reassembler.feed(b"\n\nx\n\n");
    assert_eq!(
        lines,
        vec![b"\n".to_vec(), b"\n".to_vec(), b"x\n".to_vec(), b"\n".to_vec()]
    );
    assert!(reassembler.pending().is_empty());
}

#[test]
fn unterminated_end_is_never_a_line() {
    let (lines, pending) = feed_all(&[b"done\nnot yet", b" still not"]);
    assert_eq!(lines, vec![b"done\n".to_vec()]);
    assert_eq!(pending, b"not yet still not".to_vec());
}

#[test]
fn line_spanning_many_reads_is_reassembled() {
    let (lines, pending) = feed_all(&[b"h", b"e", b"", b"ll", b"o", b"\n", b"w"]);
    assert_eq!(lines, vec![b"hello\n".to_vec()]);
    assert_eq!(pending, b"w".to_vec());
}

#[test]
fn every_way_of_cutting_a_stream_gives_the_same_lines() {
    let stream: &[u8] = b"alpha\nbe\rta\n\ngamma\ndelta";
    let expected: Vec<Vec<u8>> = vec![
        b"alpha\n".to_vec(),
        b"be\rta\n".to_vec(),
        b"\n".to_vec(),
        b"gamma\n".to_vec(),
    ];
    let newlines = stream.iter().filter(|b| **b == b'\n').count();
    assert_eq!(newlines, 4);
    for first in 0..=stream.len() {
        for second in first..=stream.len() {
            let chunks: [&[u8]; 3] = [&stream[..first], &stream[first..second], &stream[second..]];
            let (lines, pending) = feed_all(&chunks);
            assert_eq!(lines.len(), newlines);
            assert_eq!(lines, expected);
            assert_eq!(pending, b"delta".to_vec());
            let mut rebuilt: Vec<u8> = lines.concat();
            rebuilt.extend_from_slice(&pending);
            assert_eq!(rebuilt, stream.to_vec());
        }
    }
}

#[test]
fn byte_by_byte_feeding_loses_nothing() {
    let stream: Vec<u8> = (0..=255u8).cycle().take(2000).collect();
    let mut reassembler = LineReassembler::new();
    let mut lines = Vec::new();
    for byte in &stream {
        lines.extend(reassembler.feed(&[*byte]));
    }
    let newlines = stream.iter().filter(|b| **b == b'\n').count();
    assert_eq!(lines.len(), newlines);
    for line in &lines {
        assert_eq!(*line.last().unwrap(), b'\n');
        assert_eq!(line.iter().filter(|b| **b == b'\n').count(), 1);
    }
    let mut rebuilt: Vec<u8> = lines.concat();
    rebuilt.extend_from_slice(reassembler.pending());
    assert_eq!(rebuilt, stream);
}

#[test]
fn next_line_takes_one_line_at_a_time() {
    let mut reassembler = LineReassembler::new();
    reassembler.push_chunk(b"a\nbc\nd");
    assert_eq!(reassembler.pending(), b"a\nbc\nd");
    assert_eq!(reassembler.next_line(), Some(b"a\n".to_vec()));
    assert_eq!(reassembler.pending(), b"bc\nd");
    assert_eq!(reassembler.next_line(), Some(b"bc\n".to_vec()));
    assert_eq!(reassembler.pending(), b"d");
    assert_eq!(reassembler.next_line(), None);
    assert_eq!(reassembler.pending(), b"d");
}

#[test]
fn next_line_on_empty_buffer_is_none() {
    let mut reassembler = LineReassembler::new();
    assert_eq!(reassembler.next_line(), None);
    assert!(reassembler.pending().is_empty());
}

#[test]
fn push_chunk_appends_in_arrival_order() {
    let mut reassembler = LineReassembler::new();
    reassembler.push_chunk(b"12");
    reassembler.push_chunk(b"");
    reassembler.push_chunk(b"345");
    assert_eq!(reassembler.pending(), b"12345");
}

#[test]
fn newline_as_last_byte_leaves_nothing_pending() {
    let mut reassembler = LineReassembler::new();
    reassembler.push_chunk(b"xyz\n");
    assert_eq!(reassembler.next_line(), Some(b"xyz\n".to_vec()));
    assert!(reassembler.pending().is_empty());
}
