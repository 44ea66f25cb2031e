use m4b_merge::chapters::{atom_step, ftyp_len, parse_chpl_content, AtomLevel, AtomStep};

fn entry(start_100ns: u64, title: &str) -> Vec<u8> {
    let mut v = start_100ns.to_be_bytes().to_vec();
    v.push(title.len() as u8);
    v.extend_from_slice(title.as_bytes());
    v
}

#[test]
fn chpl_content_gives_chapters_in_milliseconds() {
    let mut b = vec![1u8, 0, 0, 0, 0, 0, 0, 0, 2];
    b.extend(entry(0, "Intro"));
    b.extend(entry(600_000_000, "Chapter 1"));
    let chapters = parse_chpl_content(&b);
    assert_eq!(chapters.len(), 2);
    assert_eq!(chapters[0].title, "Intro");
    assert_eq!(chapters[0].start_time, 0);
    assert_eq!(chapters[0].duration, 60_000);
    assert_eq!(chapters[1].title, "Chapter 1");
    assert_eq!(chapters[1].start_time, 60_000);
    assert_eq!(chapters[1].duration, 0);
}

#[test]
fn chpl_version_zero_has_short_header_and_stops_at_truncation() {
    let mut b = vec![0u8, 0, 0, 0, 3];
    b.extend(entry(10_000, "A"));
    b.extend(vec![0, 0, 0]);
    let chapters = parse_chpl_content(&b);
    assert_eq!(chapters.len(), 1);
    assert_eq!(chapters[0].start_time, 1);
    assert!(parse_chpl_content(&[0, 0]).is_empty());
}

#[test]
fn ftyp_header_is_recognised() {
    assert_eq!(ftyp_len(&[0, 0, 0, 24, b'f', b't', b'y', b'p']), Some(24));
    assert_eq!(ftyp_len(&[0, 0, 0, 24, b'm', b'o', b'o', b'v']), None);
}

#[test]
fn atom_walk_descends_to_chapter_list() {
    let moov = [0u8, 0, 0, 100, b'm', b'o', b'o', b'v'];
    assert!(matches!(atom_step(AtomLevel::Top, &moov), AtomStep::Enter(AtomLevel::Moov, _)));
    let tiny = [0u8, 0, 0, 4, b'f', b'r', b'e', b'e'];
    assert!(matches!(atom_step(AtomLevel::Top, &tiny), AtomStep::Stop));
}

#[test]
fn chpl_content_reads_titles_starts_and_durations() {
    let body: Vec<u8> = vec![
        0, 0, 0, 0, 2, 0, 0, 0, 0, 0, 0, 0, 0, 5, b'I', b'n', b't', b'r', b'o', 0, 0, 0, 0, 0x01, 0xC9, 0xC3, 0x80, 3,
        b'E', b'n', b'd',
    ];
    let chapters = parse_chpl_content(&body);
    assert_eq!(chapters.len(), 2);
    assert_eq!(chapters[0].title, "Intro");
    assert_eq!(chapters[0].start_time, 0);
    assert_eq!(chapters[0].duration, 3000);
    assert_eq!(chapters[1].title, "End");
    assert_eq!(chapters[1].start_time, 3000);
    assert_eq!(chapters[1].duration, 0);
}
