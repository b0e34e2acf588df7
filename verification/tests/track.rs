use roi_pipeline::bbox::BoundingBox;
use roi_pipeline::error::ErrorKind;
use roi_pipeline::track::classify_line;
use roi_pipeline::track::is_whitespace;
use roi_pipeline::track::load_track;
use roi_pipeline::track::parse_track;
use roi_pipeline::track::scan_track;
use roi_pipeline::track::TrackFile;
use roi_pipeline::track::Line;

fn boxes_of(text: &str) -> Vec<BoundingBox> {
    scan_track(text).boxes
}

#[test]
fn malformed_lines_are_skipped() {
    let text = "10,20,30,40\nabc\n\n1,2,3\n0,0,100,100\n";
    let track = parse_track(text).unwrap();
    assert_eq!(track.len(), 2);
    assert_eq!(track.get(0), Some(BoundingBox::new(10, 20, 30, 40)));
    assert_eq!(track.get(1), Some(BoundingBox::new(0, 0, 100, 100)));
    assert_eq!(track.get(2), None);
}

#[test]
fn malformed_lines_are_reported_by_number() {
    let scan = scan_track("10,20,30,40\nabc\n\n1,2,3\n0,0,100,100\n");
    assert_eq!(scan.boxes.len(), 2);
    assert_eq!(scan.malformed, vec![1, 3]);
}

#[test]
fn empty_text_has_no_boxes() {
    assert_eq!(parse_track("").err(), Some(ErrorKind::NoBoxes));
    assert_eq!(parse_track("\n\n  \n").err(), Some(ErrorKind::NoBoxes));
    assert_eq!(parse_track("abc\n1,2,3\n").err(), Some(ErrorKind::NoBoxes));
}

#[test]
fn last_line_needs_no_line_feed() {
    assert_eq!(boxes_of("1,2,3,4"), vec![BoundingBox::new(1, 2, 3, 4)]);
    assert_eq!(
        boxes_of("1,2,3,4\n5,6,7,8"),
        vec![BoundingBox::new(1, 2, 3, 4), BoundingBox::new(5, 6, 7, 8)]
    );
}

#[test]
fn carriage_returns_and_outer_spaces_are_trimmed() {
    assert_eq!(boxes_of("1,2,3,4\r\n"), vec![BoundingBox::new(1, 2, 3, 4)]);
    assert_eq!(boxes_of("  \t1,2,3,4 \t\n"), vec![BoundingBox::new(1, 2, 3, 4)]);
    assert_eq!(boxes_of("\u{a0}1,2,3,4\u{3000}\n"), vec![BoundingBox::new(1, 2, 3, 4)]);
}

#[test]
fn inner_spaces_make_a_line_malformed() {
    assert_eq!(classify_line("1, 2,3,4"), Line::Malformed);
    assert_eq!(classify_line("1 ,2,3,4"), Line::Malformed);
    assert_eq!(classify_line("1,2,3, 4"), Line::Malformed);
}

#[test]
fn signs_are_accepted() {
    assert_eq!(classify_line("-1,+2,-0,+0"), Line::Record(BoundingBox::new(-1, 2, 0, 0)));
    assert_eq!(classify_line("-,1,2,3"), Line::Malformed);
    assert_eq!(classify_line("+,1,2,3"), Line::Malformed);
    assert_eq!(classify_line("--1,1,2,3"), Line::Malformed);
    assert_eq!(classify_line("+-1,1,2,3"), Line::Malformed);
    assert_eq!(classify_line("1-,1,2,3"), Line::Malformed);
}

#[test]
fn integers_are_held_to_thirty_two_bits() {
    assert_eq!(
        classify_line("2147483647,-2147483648,0,0"),
        Line::Record(BoundingBox::new(i32::MAX, i32::MIN, 0, 0))
    );
    assert_eq!(classify_line("2147483648,0,0,0"), Line::Malformed);
    assert_eq!(classify_line("-2147483649,0,0,0"), Line::Malformed);
    assert_eq!(classify_line("99999999999999999999999999,0,0,0"), Line::Malformed);
    assert_eq!(
        classify_line("000000000000000000000000007,0,0,0"),
        Line::Record(BoundingBox::new(7, 0, 0, 0))
    );
}

#[test]
fn arity_must_be_four() {
    assert_eq!(classify_line("1"), Line::Malformed);
    assert_eq!(classify_line("1,2"), Line::Malformed);
    assert_eq!(classify_line("1,2,3"), Line::Malformed);
    assert_eq!(classify_line("1,2,3,4,5"), Line::Malformed);
    assert_eq!(classify_line("1,2,3,4,"), Line::Malformed);
    assert_eq!(classify_line(",1,2,3,4"), Line::Malformed);
    assert_eq!(classify_line("1,,3,4"), Line::Malformed);
    assert_eq!(classify_line(",,,"), Line::Malformed);
}

#[test]
fn blank_lines_are_blank() {
    assert_eq!(classify_line(""), Line::Blank);
    assert_eq!(classify_line("   "), Line::Blank);
    assert_eq!(classify_line("\t\r"), Line::Blank);
}

#[test]
fn other_digits_and_letters_are_malformed() {
    assert_eq!(classify_line("1,2,3,x"), Line::Malformed);
    assert_eq!(classify_line("1.5,2,3,4"), Line::Malformed);
    assert_eq!(classify_line("0x10,2,3,4"), Line::Malformed);
    assert_eq!(classify_line("\u{661},2,3,4"), Line::Malformed);
    assert_eq!(classify_line("1,2,3,4\u{fffd}"), Line::Malformed);
}

#[test]
fn absent_track_file_has_no_boxes() {
    assert_eq!(load_track(&TrackFile::Absent).err(), Some(ErrorKind::NoBoxes));
}

#[test]
fn unreadable_track_file_is_an_io_error() {
    assert_eq!(load_track(&TrackFile::Unreadable).err(), Some(ErrorKind::IoError));
}

#[test]
fn track_file_with_text_is_parsed() {
    let file = TrackFile::Text(String::from("1,2,3,4\nx\n5,6,7,8\n"));
    let track = load_track(&file).unwrap();
    assert_eq!(track.len(), 2);
    assert_eq!(track.last(), BoundingBox::new(5, 6, 7, 8));
    assert_eq!(
        load_track(&TrackFile::Text(String::from("nothing here\n"))).err(),
        Some(ErrorKind::NoBoxes)
    );
}

fn oracle_line(line: &str) -> Line {
    let line = line.trim();
    if line.is_empty() {
        return Line::Blank;
    }
    let parts: Vec<&str> = line.split(',').collect();
    if parts.len() != 4 {
        return Line::Malformed;
    }
    let parsed: Vec<Option<i32>> = parts.iter().map(|p| p.parse::<i32>().ok()).collect();
    match (parsed[0], parsed[1], parsed[2], parsed[3]) {
        (Some(x1), Some(y1), Some(x2), Some(y2)) => Line::Record(BoundingBox::new(x1, y1, x2, y2)),
        _ => Line::Malformed,
    }
}

fn oracle_boxes(text: &str) -> Vec<BoundingBox> {
    let mut boxes = Vec::new();
    for line in text.lines() {
        if let Line::Record(b) = oracle_line(line) {
            boxes.push(b);
        }
    }
    boxes
}

#[test]
fn white_space_is_what_the_standard_library_trims() {
    for code in 0..=0x10ffffu32 {
        if let Some(c) = char::from_u32(code) {
            assert_eq!(is_whitespace(c), c.is_whitespace(), "U+{:04X}", code);
        }
    }
}

#[test]
fn lines_are_read_as_the_standard_library_reads_them() {
    let alphabet = ['1', '0', '-', '+', ',', ' ', 'a', '\t', '9'];
    let mut lines: Vec<String> = vec![String::new()];
    let mut start = 0;
    for _ in 0..5 {
        let end = lines.len();
        for i in start..end {
            for c in alphabet {
                let mut next = lines[i].clone();
                next.push(c);
                lines.push(next);
            }
        }
        start = end;
    }
    assert_eq!(lines.len(), 1 + 9 + 81 + 729 + 6561 + 59049);
    for line in &lines {
        assert_eq!(classify_line(line), oracle_line(line), "{:?}", line);
    }
}

#[test]
fn records_are_read_as_the_standard_library_reads_them() {
    let stems = ["1,2,3,4", "-1,-2,+3,4", "1,2,3", "2147483648,0,0,0", "-2147483648,1,1,1", ""];
    let heads = ["", " ", "\u{a0}", "x"];
    let tails = ["", " ", "\r", "\u{2003}\t", ","];
    for stem in stems {
        for head in heads {
            for tail in tails {
                let line = format!("{}{}{}", head, stem, tail);
                assert_eq!(classify_line(&line), oracle_line(&line), "{:?}", line);
            }
        }
    }
}

#[test]
fn texts_are_split_as_the_standard_library_splits_them() {
    let texts = [
        "",
        "\n",
        "1,2,3,4",
        "1,2,3,4\n",
        "1,2,3,4\r\n5,6,7,8\r\n",
        "1,2,3,4\n\n\n5,6,7,8",
        "\n1,2,3,4\nabc\n 5,6,7,8 \n\n",
        "1,2,3,4\r5,6,7,8\n",
        "1,2,\n3,4\n",
        "1,2,3,4\n9,9,9,9\n1,2,3,4\n",
    ];
    for text in texts {
        assert_eq!(scan_track(text).boxes, oracle_boxes(text), "{:?}", text);
    }
}
