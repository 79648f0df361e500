use tailer::tail::{concat_lines, tail_lines, LineBuffer};

fn tail_bytes(content: &[u8], n: usize) -> Vec<u8> {
    let lines = tail_lines(&content.to_vec(), n);
    concat_lines(&lines)
}

#[test]
fn last_two_of_three_lines() {
    assert_eq!(tail_bytes(b"a\nb\nc\n", 2), b"b\nc\n".to_vec());
}

#[test]
fn crlf_normalized() {
    assert_eq!(tail_bytes(b"x\r\ny\r\n", 10), b"x\ny\n".to_vec());
}

#[test]
fn empty_file_empty_output() {
    assert_eq!(tail_bytes(b"", 5), b"".to_vec());
}

#[test]
fn zero_count_empty_output() {
    assert_eq!(tail_bytes(b"a\nb\nc\n", 0), b"".to_vec());
}

#[test]
fn count_at_least_line_count_gives_whole_file() {
    assert_eq!(tail_bytes(b"a\nb\nc\n", 3), b"a\nb\nc\n".to_vec());
    assert_eq!(tail_bytes(b"a\nb\nc\n", 100), b"a\nb\nc\n".to_vec());
}

#[test]
fn missing_final_newline_appended() {
    assert_eq!(tail_bytes(b"abc", 1), b"abc\n".to_vec());
    assert_eq!(tail_bytes(b"a\nb", 2), b"a\nb\n".to_vec());
}

#[test]
fn normalization_idempotent_on_final_line() {
    let once = tail_bytes(b"abc", 5);
    let twice = tail_bytes(&once, 5);
    assert_eq!(once, twice);
}

#[test]
fn mixed_line_endings() {
    assert_eq!(tail_bytes(b"a\r\nb\nc", 3), b"a\nb\nc\n".to_vec());
}

#[test]
fn exact_lines_returned() {
    let lines = tail_lines(&b"one\ntwo\nthree\n".to_vec(), 2);
    assert_eq!(lines, vec![b"two\n".to_vec(), b"three\n".to_vec()]);
}

#[test]
fn buffer_evicts_oldest_first() {
    let mut buf = LineBuffer::new(2);
    buf.push(b"a\n".to_vec());
    buf.push(b"b\n".to_vec());
    buf.push(b"c\n".to_vec());
    assert_eq!(buf.len(), 2);
    assert_eq!(buf.into_lines(), vec![b"b\n".to_vec(), b"c\n".to_vec()]);
}

#[test]
fn buffer_below_capacity_keeps_everything() {
    let mut buf = LineBuffer::new(3);
    buf.push(b"a\n".to_vec());
    buf.push(b"b\n".to_vec());
    assert_eq!(buf.len(), 2);
    assert_eq!(buf.into_lines(), vec![b"a\n".to_vec(), b"b\n".to_vec()]);
}

#[test]
fn buffer_with_zero_capacity_stays_empty() {
    let mut buf = LineBuffer::new(0);
    buf.push(b"a\n".to_vec());
    assert_eq!(buf.len(), 0);
    assert_eq!(buf.into_lines(), Vec::<Vec<u8>>::new());
}

#[test]
fn concat_joins_in_order() {
    let lines = vec![b"a\n".to_vec(), b"b\n".to_vec()];
    assert_eq!(concat_lines(&lines), b"a\nb\n".to_vec());
    assert_eq!(concat_lines(&Vec::new()), Vec::<u8>::new());
}
