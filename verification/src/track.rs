//! The box track: one bounding box per frame, read from text.
//!
//! The text holds one record per line: four signed decimal integers separated
//! by commas, `x1,y1,x2,y2`. White space around a record is ignored. Blank
//! lines, and lines that are not a record, are skipped.

use vstd::prelude::*;
use crate::bbox::BoundingBox;
use crate::error::ErrorKind;

verus! {

/// The character is white space: one of the code points that Unicode marks
/// `White_Space`.
pub open spec fn is_space(c: char) -> bool {
    ||| '\u{9}' <= c <= '\u{d}'
    ||| c == ' '
    ||| c == '\u{85}'
    ||| c == '\u{a0}'
    ||| c == '\u{1680}'
    ||| '\u{2000}' <= c <= '\u{200a}'
    ||| c == '\u{2028}'
    ||| c == '\u{2029}'
    ||| c == '\u{202f}'
    ||| c == '\u{205f}'
    ||| c == '\u{3000}'
}

/// The character is a decimal digit.
pub open spec fn is_digit(c: char) -> bool {
    '0' <= c <= '9'
}

/// The value of a decimal digit.
pub open spec fn digit_value(c: char) -> int {
    c as int - '0' as int
}

/// Every character of the sequence is a decimal digit.
pub open spec fn all_digits(s: Seq<char>) -> bool {
    forall|i: int| 0 <= i < s.len() ==> is_digit(#[trigger] s[i])
}

/// The number that a sequence of decimal digits writes; zero for no digit.
pub open spec fn decimal(digits: Seq<char>) -> int
    decreases digits.len(),
{
    if digits.len() == 0 {
        0
    } else {
        10 * decimal(digits.drop_last()) + digit_value(digits.last())
    }
}

/// The token begins with a sign.
pub open spec fn has_sign(token: Seq<char>) -> bool {
    token.len() > 0 && (token[0] == '-' || token[0] == '+')
}

/// The digits of a token: the token without its sign.
pub open spec fn digits_of(token: Seq<char>) -> Seq<char> {
    if has_sign(token) {
        token.skip(1)
    } else {
        token
    }
}

/// The number that a token writes, whatever its size: the digits' number,
/// negated behind a minus sign.
pub open spec fn signed_value(token: Seq<char>) -> int {
    if has_sign(token) && token[0] == '-' {
        -decimal(digits_of(token))
    } else {
        decimal(digits_of(token))
    }
}

/// The integer that a token writes: an optional sign, `+` or `-`, then one or
/// more decimal digits and nothing else, with a value that fits in 32 bits.
pub open spec fn parse_int(token: Seq<char>) -> Option<i32> {
    let digits = digits_of(token);
    let value = signed_value(token);
    if digits.len() > 0 && all_digits(digits) && i32::MIN <= value <= i32::MAX {
        Some(value as i32)
    } else {
        None
    }
}

/// The sequence without the white space at its start.
pub open spec fn trim_start(s: Seq<char>) -> Seq<char>
    decreases s.len(),
{
    if s.len() > 0 && is_space(s[0]) {
        trim_start(s.skip(1))
    } else {
        s
    }
}

/// The sequence without the white space at its end.
pub open spec fn trim_end(s: Seq<char>) -> Seq<char>
    decreases s.len(),
{
    if s.len() > 0 && is_space(s.last()) {
        trim_end(s.drop_last())
    } else {
        s
    }
}

/// The sequence without the white space at its start and at its end.
pub open spec fn trim(s: Seq<char>) -> Seq<char> {
    trim_end(trim_start(s))
}

/// The index of the first `sep` in the sequence, or the sequence's length
/// where it holds none.
pub open spec fn first_index(s: Seq<char>, sep: char) -> nat
    decreases s.len(),
{
    if s.len() == 0 || s[0] == sep {
        0
    } else {
        1 + first_index(s.skip(1), sep)
    }
}

/// The pieces of the sequence between its separators, in order. A sequence
/// with `n` separators has `n + 1` pieces, some of which may be empty.
pub open spec fn split(s: Seq<char>, sep: char) -> Seq<Seq<char>>
    decreases s.len(),
{
    let i = first_index(s, sep) as int;
    if i < s.len() {
        seq![s.take(i)] + split(s.skip(i + 1), sep)
    } else {
        seq![s]
    }
}

/// What one line of the track is.
#[derive(Clone, Copy, Debug, PartialEq, Eq, Structural)]
pub enum Line {
    /// Nothing but white space.
    Blank,
    /// A record: the bounding box of one frame.
    Record(BoundingBox),
    /// Anything else. The line is skipped.
    Malformed,
}

/// What a line is: blank where it holds only white space; a record where,
/// trimmed and split at its commas, it has exactly four fields that are all
/// integers; malformed otherwise.
pub open spec fn classify(line: Seq<char>) -> Line {
    let body = trim(line);
    let fields = split(body, ',');
    if body.len() == 0 {
        Line::Blank
    } else if fields.len() == 4 {
        match (parse_int(fields[0]), parse_int(fields[1]), parse_int(fields[2]), parse_int(fields[3])) {
            (Some(x1), Some(y1), Some(x2), Some(y2)) => Line::Record(BoundingBox { x1, y1, x2, y2 }),
            _ => Line::Malformed,
        }
    } else {
        Line::Malformed
    }
}

/// The boxes of the records among the lines, in the order of the lines.
pub open spec fn records(lines: Seq<Seq<char>>) -> Seq<BoundingBox>
    decreases lines.len(),
{
    if lines.len() == 0 {
        Seq::empty()
    } else {
        let before = records(lines.drop_last());
        match classify(lines.last()) {
            Line::Record(b) => before.push(b),
            _ => before,
        }
    }
}

/// The numbers of the malformed lines, counted from zero, in rising order.
pub open spec fn malformed(lines: Seq<Seq<char>>) -> Seq<usize>
    decreases lines.len(),
{
    if lines.len() == 0 {
        Seq::empty()
    } else {
        let before = malformed(lines.drop_last());
        match classify(lines.last()) {
            Line::Malformed => before.push((lines.len() - 1) as usize),
            _ => before,
        }
    }
}

/// The lines of a text: its pieces between line feeds.
pub open spec fn lines_of(text: Seq<char>) -> Seq<Seq<char>> {
    split(text, '\n')
}

/// The boxes that a text holds: those of its records, in order.
pub open spec fn track_records(text: Seq<char>) -> Seq<BoundingBox> {
    records(lines_of(text))
}

/// An ordered, non-empty sequence of bounding boxes: the box of frame `i` is
/// the `i`-th of them. A track is not changed once it is made.
#[derive(Debug)]
pub struct BoxTrack {
    boxes: Vec<BoundingBox>,
}

impl View for BoxTrack {
    type V = Seq<BoundingBox>;

    closed spec fn view(&self) -> Seq<BoundingBox> {
        self.boxes@
    }
}

impl BoxTrack {
    #[verifier::type_invariant]
    spec fn non_empty(self) -> bool {
        self.boxes@.len() > 0
    }

    /// Makes a track of the given boxes. Fails with `NoBoxes` where there is none.
    pub fn new(boxes: Vec<BoundingBox>) -> (r: Result<BoxTrack, ErrorKind>)
        ensures
            r is Ok <==> boxes@.len() > 0,
            r matches Ok(track) ==> track@ == boxes@,
            r matches Err(kind) ==> kind == ErrorKind::NoBoxes,
    {
        if boxes.len() == 0 {
            Err(ErrorKind::NoBoxes)
        } else {
            Ok(BoxTrack { boxes })
        }
    }

    /// The number of boxes, which is never zero.
    pub fn len(&self) -> (n: usize)
        ensures
            n == self@.len(),
            n > 0,
    {
        proof {
            use_type_invariant(self);
        }
        self.boxes.len()
    }

    /// The box at position `i`, where the track has one.
    pub fn get(&self, i: usize) -> (r: Option<BoundingBox>)
        ensures
            r == (if i < self@.len() {
                Some(self@[i as int])
            } else {
                None
            }),
    {
        if i < self.boxes.len() {
            Some(self.boxes[i])
        } else {
            None
        }
    }

    /// The last box of the track.
    pub fn last(&self) -> (b: BoundingBox)
        ensures
            self@.len() > 0,
            b == self@.last(),
    {
        proof {
            use_type_invariant(self);
        }
        self.boxes[self.boxes.len() - 1]
    }
}

/// What reading a text has found: the boxes of its records in order, and the
/// numbers of the lines that were skipped as malformed.
#[derive(Debug)]
pub struct TrackScan {
    pub boxes: Vec<BoundingBox>,
    pub malformed: Vec<usize>,
}

/// Whether the character is white space.
pub fn is_whitespace(c: char) -> (r: bool)
    ensures
        r == is_space(c),
{
    let n: u32 = c as u32;
    (0x9 <= n && n <= 0xd) || n == 0x20 || n == 0x85 || n == 0xa0 || n == 0x1680 || (0x2000 <= n
        && n <= 0x200a) || n == 0x2028 || n == 0x2029 || n == 0x202f || n == 0x205f || n
        == 0x3000
}

/// The characters of a text.
fn chars_of(text: &str) -> (v: Vec<char>)
    ensures
        v@ == text@,
{
    let mut v: Vec<char> = Vec::new();
    for c in it: text.chars()
        invariant
            v@ == it.seq().take(it.index() as int),
            it.seq() == text@,
    {
        v.push(c);
    }
    v
}

/// Where the first `sep` stands between `from` and `to`, or `to` where there
/// is none.
fn find(v: &Vec<char>, from: usize, to: usize, sep: char) -> (i: usize)
    requires
        from <= to <= v@.len(),
    ensures
        from <= i <= to,
        i - from == first_index(v@.subrange(from as int, to as int), sep),
        i < to ==> v@[i as int] == sep,
{
    let mut i = from;
    while i < to && v[i] != sep
        invariant
            from <= i <= to <= v@.len(),
            forall|j: int| from <= j < i ==> v@[j] != sep,
        decreases to - i,
    {
        i += 1;
    }
    proof {
        lemma_first_index(v@.subrange(from as int, to as int), sep, (i - from) as int);
    }
    i
}

/// The part of `from..to` that is left when the white space at both ends is
/// taken away.
fn trim_range(v: &Vec<char>, from: usize, to: usize) -> (r: (usize, usize))
    requires
        from <= to <= v@.len(),
    ensures
        from <= r.0 <= r.1 <= to,
        v@.subrange(r.0 as int, r.1 as int) == trim(v@.subrange(from as int, to as int)),
{
    let mut a = from;
    while a < to && is_whitespace(v[a])
        invariant
            from <= a <= to <= v@.len(),
            forall|j: int| from <= j < a ==> is_space(v@[j]),
        decreases to - a,
    {
        a += 1;
    }
    let mut b = to;
    while a < b && is_whitespace(v[b - 1])
        invariant
            a <= b <= to <= v@.len(),
            forall|j: int| b <= j < to ==> is_space(v@[j]),
        decreases b - a,
    {
        b -= 1;
    }
    proof {
        let s = v@.subrange(from as int, to as int);
        lemma_trim_start(s, (a - from) as int);
        assert(s.skip((a - from) as int) =~= v@.subrange(a as int, to as int));
        let t = v@.subrange(a as int, to as int);
        lemma_trim_end(t, (b - a) as int);
        assert(t.take((b - a) as int) =~= v@.subrange(a as int, b as int));
    }
    (a, b)
}

/// The integer written between `from` and `to`.
fn parse_int_range(v: &Vec<char>, from: usize, to: usize) -> (r: Option<i32>)
    requires
        from <= to <= v@.len(),
    ensures
        r == parse_int(v@.subrange(from as int, to as int)),
{
    let ghost token = v@.subrange(from as int, to as int);
    let mut negative = false;
    let mut start = from;
    if from < to && (v[from] == '-' || v[from] == '+') {
        negative = v[from] == '-';
        start = from + 1;
    }
    let ghost digits = v@.subrange(start as int, to as int);
    assert(digits =~= digits_of(token));
    if start == to {
        return None;
    }
    let mut acc: i64 = 0;
    let mut i = start;
    while i < to
        invariant
            start <= i <= to <= v@.len(),
            token == v@.subrange(from as int, to as int),
            digits == v@.subrange(start as int, to as int),
            digits == digits_of(token),
            all_digits(v@.subrange(start as int, i as int)),
            acc == decimal(v@.subrange(start as int, i as int)),
            0 <= acc <= 0x8000_0000,
        decreases to - i,
    {
        let c = v[i];
        if !('0' <= c && c <= '9') {
            assert(!is_digit(digits[i - start]));
            return None;
        }
        proof {
            let next = v@.subrange(start as int, i + 1);
            assert(next.drop_last() =~= v@.subrange(start as int, i as int));
            assert(next.last() == c);
        }
        acc = acc * 10 + (c as u32 - '0' as u32) as i64;
        if acc > 0x8000_0000 {
            proof {
                if all_digits(digits) {
                    lemma_decimal_prefix(digits, i + 1 - start);
                    assert(digits.take(i + 1 - start) =~= v@.subrange(start as int, i + 1));
                }
            }
            return None;
        }
        i += 1;
    }
    assert(v@.subrange(start as int, i as int) == digits);
    if negative {
        Some((-acc) as i32)
    } else if acc > 0x7fff_ffff {
        None
    } else {
        Some(acc as i32)
    }
}

/// Where the three commas of a line of four fields stand between `from` and
/// `to`; nothing where the line has fewer fields or more.
fn split_fields(v: &Vec<char>, from: usize, to: usize) -> (r: Option<(usize, usize, usize)>)
    requires
        from <= to <= v@.len(),
    ensures
        r is Some <==> split(v@.subrange(from as int, to as int), ',').len() == 4,
        r matches Some((c1, c2, c3)) ==> {
            &&& from <= c1 < c2 < c3 < to
            &&& split(v@.subrange(from as int, to as int), ',') == seq![
                v@.subrange(from as int, c1 as int),
                v@.subrange(c1 + 1, c2 as int),
                v@.subrange(c2 + 1, c3 as int),
                v@.subrange(c3 + 1, to as int),
            ]
        },
{
    let c1 = find(v, from, to, ',');
    proof {
        lemma_split_range(v@, from as int, to as int, c1 as int, ',');
    }
    if c1 == to {
        return None;
    }
    let c2 = find(v, c1 + 1, to, ',');
    proof {
        lemma_split_range(v@, c1 + 1, to as int, c2 as int, ',');
    }
    if c2 == to {
        return None;
    }
    let c3 = find(v, c2 + 1, to, ',');
    proof {
        lemma_split_range(v@, c2 + 1, to as int, c3 as int, ',');
    }
    if c3 == to {
        return None;
    }
    let c4 = find(v, c3 + 1, to, ',');
    proof {
        lemma_split_range(v@, c3 + 1, to as int, c4 as int, ',');
    }
    if c4 != to {
        proof {
            lemma_split_has_piece(v@.subrange(c4 + 1, to as int), ',');
        }
        return None;
    }
    proof {
        assert(split(v@.subrange(from as int, to as int), ',') =~= seq![
            v@.subrange(from as int, c1 as int),
            v@.subrange(c1 + 1, c2 as int),
            v@.subrange(c2 + 1, c3 as int),
            v@.subrange(c3 + 1, to as int),
        ]);
    }
    Some((c1, c2, c3))
}

/// What the line between `from` and `to` is.
fn classify_range(v: &Vec<char>, from: usize, to: usize) -> (r: Line)
    requires
        from <= to <= v@.len(),
    ensures
        r == classify(v@.subrange(from as int, to as int)),
{
    let (a, b) = trim_range(v, from, to);
    if a == b {
        return Line::Blank;
    }
    match split_fields(v, a, b) {
        None => Line::Malformed,
        Some((c1, c2, c3)) => {
            let x1 = parse_int_range(v, a, c1);
            let y1 = parse_int_range(v, c1 + 1, c2);
            let x2 = parse_int_range(v, c2 + 1, c3);
            let y2 = parse_int_range(v, c3 + 1, b);
            match (x1, y1, x2, y2) {
                (Some(x1), Some(y1), Some(x2), Some(y2)) => Line::Record(
                    BoundingBox { x1, y1, x2, y2 },
                ),
                _ => Line::Malformed,
            }
        },
    }
}

/// What one line of text is: blank, a record or malformed.
pub fn classify_line(line: &str) -> (r: Line)
    ensures
        r == classify(line@),
{
    let v = chars_of(line);
    proof {
        assert(v@.subrange(0, v@.len() as int) =~= v@);
    }
    classify_range(&v, 0, v.len())
}

/// Reads a text line by line: collects the boxes of its records in order, and
/// the numbers of its malformed lines.
pub fn scan_track(text: &str) -> (scan: TrackScan)
    ensures
        scan.boxes@ == track_records(text@),
        scan.malformed@ == malformed(lines_of(text@)),
{
    let v = chars_of(text);
    let n = v.len();
    let mut boxes: Vec<BoundingBox> = Vec::new();
    let mut bad: Vec<usize> = Vec::new();
    let mut pos: usize = 0;
    let mut line_no: usize = 0;
    let mut finished = false;
    let ghost mut done: Seq<Seq<char>> = Seq::empty();
    proof {
        assert(v@.subrange(0, n as int) =~= v@);
    }
    while !finished
        invariant
            n == v@.len(),
            v@ == text@,
            pos <= n,
            !finished ==> line_no == done.len(),
            line_no <= pos,
            !finished ==> lines_of(text@) == done + split(v@.subrange(pos as int, n as int), '\n'),
            finished ==> lines_of(text@) == done,
            boxes@ == records(done),
            bad@ == malformed(done),
        decreases (n - pos) + (if finished { 0int } else { 1int }),
    {
        let ghost rest = v@.subrange(pos as int, n as int);
        let end = find(&v, pos, n, '\n');
        let line = classify_range(&v, pos, end);
        let ghost line_chars = v@.subrange(pos as int, end as int);
        proof {
            lemma_split_range(v@, pos as int, n as int, end as int, '\n');
            assert(done.push(line_chars).drop_last() =~= done);
        }
        match line {
            Line::Record(b) => {
                boxes.push(b);
            },
            Line::Malformed => {
                bad.push(line_no);
            },
            Line::Blank => {},
        }
        if end == n {
            proof {
                assert(done + seq![rest] =~= done.push(line_chars));
                done = done.push(line_chars);
            }
            finished = true;
        } else {
            proof {
                assert(done + (seq![line_chars] + split(
                    v@.subrange(end + 1, n as int),
                    '\n',
                )) =~= done.push(line_chars) + split(v@.subrange(end + 1, n as int), '\n'));
                done = done.push(line_chars);
            }
            pos = end + 1;
            line_no += 1;
        }
    }
    TrackScan { boxes, malformed: bad }
}

/// Reads a track from text. The track holds the boxes of the text's records,
/// in order; blank and malformed lines are skipped. Fails with `NoBoxes` where
/// the text holds no record.
pub fn parse_track(text: &str) -> (r: Result<BoxTrack, ErrorKind>)
    ensures
        r is Ok <==> track_records(text@).len() > 0,
        r matches Ok(track) ==> track@ == track_records(text@),
        r matches Err(kind) ==> kind == ErrorKind::NoBoxes,
{
    let scan = scan_track(text);
    BoxTrack::new(scan.boxes)
}

/// What was found where the track's file should be.
#[derive(Debug)]
pub enum TrackFile {
    /// There is no such file.
    Absent,
    /// The file is there and could not be opened or read.
    Unreadable,
    /// The text of the file.
    Text(String),
}

/// The boxes of the track that is loaded from a file, or why there is no
/// track: a file that is absent, like one without a record, has `NoBoxes`; a
/// file that cannot be read is an `IoError`.
pub open spec fn loaded(file: TrackFile) -> Result<Seq<BoundingBox>, ErrorKind> {
    match file {
        TrackFile::Absent => Err(ErrorKind::NoBoxes),
        TrackFile::Unreadable => Err(ErrorKind::IoError),
        TrackFile::Text(text) => if track_records(text@).len() > 0 {
            Ok(track_records(text@))
        } else {
            Err(ErrorKind::NoBoxes)
        },
    }
}

/// Loads the track from what was found where its file should be.
pub fn load_track(file: &TrackFile) -> (r: Result<BoxTrack, ErrorKind>)
    ensures
        r matches Ok(track) ==> loaded(*file) == Ok::<Seq<BoundingBox>, ErrorKind>(track@),
        r matches Err(kind) ==> loaded(*file) == Err::<Seq<BoundingBox>, ErrorKind>(kind),
{
    match file {
        TrackFile::Absent => Err(ErrorKind::NoBoxes),
        TrackFile::Unreadable => Err(ErrorKind::IoError),
        TrackFile::Text(text) => parse_track(text.as_str()),
    }
}

/// Lines are read one by one: the boxes of a run of lines that is followed by
/// another are the boxes of the first run, followed by those of the second.
pub proof fn lemma_records_append(first: Seq<Seq<char>>, second: Seq<Seq<char>>)
    ensures
        records(first + second) == records(first) + records(second),
    decreases second.len(),
{
    if second.len() == 0 {
        assert(first + second =~= first);
        assert(records(first) + records(second) =~= records(first));
    } else {
        lemma_records_append(first, second.drop_last());
        assert((first + second).drop_last() =~= first + second.drop_last());
        assert((first + second).last() == second.last());
        match classify(second.last()) {
            Line::Record(b) => {
                assert((records(first) + records(second.drop_last())).push(b) =~= records(first)
                    + records(second.drop_last()).push(b));
            },
            _ => {},
        }
    }
}

/// A line that is no record leaves the boxes as they are, wherever it stands.
pub proof fn lemma_skipped_line(before: Seq<Seq<char>>, line: Seq<char>, after: Seq<Seq<char>>)
    requires
        !(classify(line) is Record),
    ensures
        records(before + seq![line] + after) == records(before + after),
{
    lemma_records_append(before + seq![line], after);
    lemma_records_append(before, seq![line]);
    lemma_records_append(before, after);
    assert(seq![line].drop_last() =~= Seq::<Seq<char>>::empty());
    assert(seq![line].last() == line);
    assert(records(Seq::<Seq<char>>::empty()) =~= Seq::<BoundingBox>::empty());
    assert(records(seq![line]) =~= Seq::<BoundingBox>::empty());
    assert(records(before) + Seq::<BoundingBox>::empty() =~= records(before));
}

/// Every line is counted at most once: there are no more boxes and malformed
/// lines together than there are lines.
pub proof fn lemma_line_counts(lines: Seq<Seq<char>>)
    ensures
        records(lines).len() + malformed(lines).len() <= lines.len(),
    decreases lines.len(),
{
    if lines.len() > 0 {
        lemma_line_counts(lines.drop_last());
    }
}

/// The numbers of the malformed lines are those of lines that are malformed,
/// in rising order.
pub proof fn lemma_malformed_lines(lines: Seq<Seq<char>>)
    requires
        lines.len() <= usize::MAX,
    ensures
        forall|k: int|
            0 <= k < malformed(lines).len() ==> (#[trigger] malformed(lines)[k]) < lines.len()
                && classify(lines[malformed(lines)[k] as int]) is Malformed,
        forall|j: int, k: int|
            0 <= j < k < malformed(lines).len() ==> malformed(lines)[j] < malformed(lines)[k],
    decreases lines.len(),
{
    if lines.len() > 0 {
        lemma_malformed_lines(lines.drop_last());
    }
}

/// The first separator stands at `k` where no separator stands before `k` and
/// `k` is the end of the sequence or the place of a separator.
proof fn lemma_first_index(s: Seq<char>, sep: char, k: int)
    requires
        0 <= k <= s.len(),
        forall|j: int| 0 <= j < k ==> s[j] != sep,
        k == s.len() || s[k] == sep,
    ensures
        first_index(s, sep) == k,
    decreases k,
{
    if k > 0 {
        let t = s.skip(1);
        assert forall|j: int| 0 <= j < k - 1 implies t[j] != sep by {
            assert(t[j] == s[j + 1]);
        }
        lemma_first_index(t, sep, k - 1);
    }
}

/// The pieces of the part `from..to` of a sequence whose first separator stands
/// at `c`: the part before `c`, then the pieces of the part behind `c`; the
/// whole part where `c` is its end.
proof fn lemma_split_range(v: Seq<char>, from: int, to: int, c: int, sep: char)
    requires
        0 <= from <= c <= to <= v.len(),
        c - from == first_index(v.subrange(from, to), sep),
    ensures
        c == to ==> split(v.subrange(from, to), sep) == seq![v.subrange(from, to)],
        c < to ==> split(v.subrange(from, to), sep) == seq![v.subrange(from, c)] + split(
            v.subrange(c + 1, to),
            sep,
        ),
{
    let s = v.subrange(from, to);
    if c < to {
        assert(s.take(c - from) =~= v.subrange(from, c));
        assert(s.skip(c - from + 1) =~= v.subrange(c + 1, to));
    }
}

/// Splitting gives at least one piece.
proof fn lemma_split_has_piece(s: Seq<char>, sep: char)
    ensures
        split(s, sep).len() >= 1,
{
}

/// Trimming at the start takes away the `k` leading characters where these are
/// white space and the next one is not.
proof fn lemma_trim_start(s: Seq<char>, k: int)
    requires
        0 <= k <= s.len(),
        forall|j: int| 0 <= j < k ==> is_space(s[j]),
        k == s.len() || !is_space(s[k]),
    ensures
        trim_start(s) == s.skip(k),
    decreases k,
{
    if k > 0 {
        let t = s.skip(1);
        assert forall|j: int| 0 <= j < k - 1 implies is_space(t[j]) by {
            assert(t[j] == s[j + 1]);
        }
        lemma_trim_start(t, k - 1);
        assert(t.skip(k - 1) =~= s.skip(k));
    } else {
        assert(s.skip(0) =~= s);
    }
}

/// Trimming at the end keeps the `k` leading characters where all behind them
/// are white space and the last of them is not.
proof fn lemma_trim_end(s: Seq<char>, k: int)
    requires
        0 <= k <= s.len(),
        forall|j: int| k <= j < s.len() ==> is_space(s[j]),
        k == 0 || !is_space(s[k - 1]),
    ensures
        trim_end(s) == s.take(k),
    decreases s.len() - k,
{
    if k < s.len() {
        let t = s.drop_last();
        lemma_trim_end(t, k);
        assert(t.take(k) =~= s.take(k));
    } else {
        assert(s.take(k) =~= s);
    }
}

/// The number written by the first `k` digits is no greater than the number
/// written by all of them.
proof fn lemma_decimal_prefix(digits: Seq<char>, k: int)
    requires
        all_digits(digits),
        0 <= k <= digits.len(),
    ensures
        0 <= decimal(digits.take(k)) <= decimal(digits),
    decreases digits.len(),
{
    if digits.len() == 0 {
        assert(digits.take(k) =~= digits);
    } else if k == digits.len() {
        assert(digits.take(k) =~= digits);
        lemma_decimal_prefix(digits.drop_last(), k - 1);
        assert(digits.drop_last().take(k - 1) =~= digits.drop_last());
        assert(is_digit(digits[digits.len() - 1]));
    } else {
        let front = digits.drop_last();
        assert(all_digits(front)) by {
            assert forall|i: int| 0 <= i < front.len() implies is_digit(#[trigger] front[i]) by {
                assert(front[i] == digits[i]);
            }
        }
        lemma_decimal_prefix(front, k);
        assert(front.take(k) =~= digits.take(k));
        assert(is_digit(digits[digits.len() - 1]));
    }
}

} // verus!
