use terminal_hell::log_buf::{LogBuffer, DEFAULT_CAPACITY};

#[test]
fn keeps_newest_lines() {
    let mut b = LogBuffer::install(3);
    for s in ["a", "b", "c", "d", "e"] {
        b.push_line(s);
    }
    assert_eq!(b.len(), 3);
    assert_eq!(b.recent(10), vec!["c", "d", "e"]);
    assert_eq!(b.recent(2), vec!["d", "e"]);
    assert_eq!(b.recent(0), Vec::<String>::new());
}

#[test]
fn default_capacity() {
    let b = LogBuffer::default();
    assert!(b.is_empty());
    assert_eq!(b.max_lines(), DEFAULT_CAPACITY);
}

#[test]
fn writer_commits_trimmed_nonempty_lines() {
    let mut b = LogBuffer::install(10);
    let mut w = b.make_writer();
    assert_eq!(w.write(b"first line  \r\n"), 14);
    w.write(b"\n   \nsecond");
    w.commit(&mut b);
    assert_eq!(b.recent(10), vec!["first line", "second"]);
}

#[test]
fn empty_event_adds_nothing() {
    let mut b = LogBuffer::install(10);
    let w = b.make_writer();
    w.commit(&mut b);
    assert!(b.is_empty());
}
