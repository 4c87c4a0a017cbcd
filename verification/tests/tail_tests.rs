use redstrap::tail::{LogTail, TAIL_MAX_LINE, TAIL_MAX_READ};

#[test]
fn lines_come_out_whole() {
    let mut t = LogTail::new();
    assert_eq!(t.plan_read(0), None);
    assert_eq!(t.plan_read(10), Some((0, 10)));
    let chunk = b"one\r\ntwo\nthr";
    assert!(t.can_take(chunk));
    assert_eq!(t.take(chunk), vec![String::from("one"), String::from("two")]);
    assert_eq!(t.offset, chunk.len() as u64);
    assert_eq!(t.remainder, "thr");
    assert_eq!(t.take(b"ee\n"), vec![String::from("three")]);
    assert_eq!(t.remainder, "");
}

#[test]
fn reads_are_capped_and_shrinking_files_restart() {
    let mut t = LogTail::new();
    assert_eq!(t.plan_read(5_000_000), Some((0, TAIL_MAX_READ)));
    t.take(b"abc");
    assert_eq!(t.plan_read(3), None);
    assert_eq!(t.plan_read(2), Some((0, 2)));
    assert_eq!(t.offset, 0);
    assert_eq!(t.remainder, "");
    assert_eq!(t.plan_read(0), None);
}

#[test]
fn long_lines_are_cut_and_runaway_tails_dropped() {
    let mut t = LogTail::new();
    let mut long = vec![b'x'; TAIL_MAX_LINE + 10];
    long.push(b'\n');
    long.extend_from_slice(&vec![b'y'; TAIL_MAX_LINE + 1]);
    let lines = t.take(&long);
    assert_eq!(lines.len(), 1);
    assert_eq!(lines[0].len(), TAIL_MAX_LINE);
    assert_eq!(t.remainder, "");
}

#[test]
fn cuts_inside_a_character_are_refused() {
    let t = LogTail::new();
    let mut bytes = vec![b'a'; TAIL_MAX_LINE - 1];
    bytes.extend_from_slice("é".as_bytes());
    bytes.push(b'\n');
    assert!(!t.can_take(&bytes));
    let mut ok = vec![b'a'; TAIL_MAX_LINE - 2];
    ok.extend_from_slice("é".as_bytes());
    ok.push(b'\n');
    assert!(t.can_take(&ok));
}

#[test]
fn invalid_bytes_become_replacement_characters() {
    let mut t = LogTail::new();
    let bytes = [b'o', b'k', 0xFF, b'!', b'\n'];
    assert!(t.can_take(&bytes));
    let lines = t.take(&bytes);
    assert_eq!(lines, vec![String::from("ok\u{FFFD}!")]);
    assert_eq!(t.offset, 5);
}
