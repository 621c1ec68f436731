use naxone::logtail::{tail_text, TailAction, TailReader, TAIL_CHUNK_SIZE, TAIL_MAX_BYTES};

/// Drives the reader over an in-memory file, as the app does over a real one.
fn read_tail(data: &[u8], lines: usize) -> String {
    let mut r = TailReader::new(data.len() as u64);
    if data.is_empty() {
        return String::new();
    }
    let mut buf: Vec<u8> = Vec::new();
    loop {
        match r.next_action(lines) {
            TailAction::Finish => break,
            TailAction::Read { offset, len } => {
                let chunk = data[offset as usize..(offset + len) as usize].to_vec();
                r.absorb(&chunk);
                let mut c = chunk;
                c.append(&mut buf);
                buf = c;
            }
        }
    }
    let content = String::from_utf8_lossy(&buf).to_string();
    tail_text(&content, lines, r.truncated)
}

#[test]
fn empty_file_returns_empty() {
    assert_eq!(read_tail(b"", 10), "");
}

#[test]
fn tail_returns_last_n_lines() {
    let body: String = (1..=100).map(|i| format!("line{i}\n")).collect();
    let out = read_tail(body.as_bytes(), 5);
    assert_eq!(out, "line96\nline97\nline98\nline99\nline100");
}

#[test]
fn huge_single_line_is_capped_not_oom() {
    let mut giant = vec![b'x'; 2 * 1024 * 1024];
    giant.push(b'\n');
    let out = read_tail(&giant, 10);
    assert!(out.starts_with("[... 日志过大"), "got: {}", &out[..60.min(out.len())]);
    assert!(out.len() < 600 * 1024, "output too large: {}", out.len());
}

#[test]
fn reader_asks_for_chunks_from_the_end() {
    let r = TailReader::new(10000);
    match r.next_action(5) {
        TailAction::Read { offset, len } => {
            assert_eq!(len, TAIL_CHUNK_SIZE);
            assert_eq!(offset, 10000 - TAIL_CHUNK_SIZE);
        }
        TailAction::Finish => panic!("expected a read"),
    }
    let mut r = TailReader::new(100);
    match r.next_action(5) {
        TailAction::Read { offset, len } => {
            assert_eq!((offset, len), (0, 100));
            r.absorb(&vec![b'\n'; 100]);
        }
        TailAction::Finish => panic!("expected a read"),
    }
    assert_eq!(r.newlines, 100);
    assert!(matches!(r.next_action(5), TailAction::Finish));
}

#[test]
fn reader_stops_at_cap() {
    let mut r = TailReader::new(4 * TAIL_MAX_BYTES);
    let mut steps = 0;
    while let TailAction::Read { len, .. } = r.next_action(10) {
        r.absorb(&vec![b'x'; len as usize]);
        steps += 1;
    }
    assert!(r.truncated);
    assert_eq!(r.buffered, TAIL_MAX_BYTES);
    assert_eq!(steps, (TAIL_MAX_BYTES / TAIL_CHUNK_SIZE) as usize);
}

#[test]
fn tail_text_handles_crlf_and_short_files() {
    assert_eq!(tail_text("a\r\nb\r\n", 5, false), "a\nb");
    assert_eq!(tail_text("a\nb\nc", 2, false), "b\nc");
    assert_eq!(tail_text("x", 0, true), "[... 日志过大，仅显示末尾 512 KB ...]\n");
}
