//! The dataset source: comma-separated text, a header row, then one water
//! sample per row with nine measurements and a label of `0` or `1`.
//!
//! Rows that cannot be used are dropped; a source without a usable row is an
//! error. What is handed out is text that is known to read as numbers; turning
//! it into numbers, and the numbers into statistics, is the caller's.

use vstd::prelude::*;
use crate::text::{digit, is_digit};
use crate::topology::INPUT_DIM;

verus! {

/// Fields per row: the measurements and the label.
pub const FIELD_COUNT: usize = 10;

pub const COMMA: u8 = 0x2C;

pub const NEWLINE: u8 = 0x0A;

pub const CARRIAGE_RETURN: u8 = 0x0D;

/// Why no dataset came out of a source.
#[derive(Clone, Copy, Debug, PartialEq, Eq, Structural)]
pub enum DataError {
    /// The source could not be read at all.
    FileUnreadable,
    /// The source holds no row after its header.
    EmptyDataset,
    /// The source holds rows, and none of them can be used.
    AllRowsMalformed,
}

impl DataError {
    /// The error in words.
    pub fn message(&self) -> (text: &'static str)
        ensures
            text@ == match *self {
                DataError::FileUnreadable => "the dataset source cannot be read"@,
                DataError::EmptyDataset => "the dataset source holds no rows"@,
                DataError::AllRowsMalformed => "no row of the dataset source can be used"@,
            },
    {
        match self {
            DataError::FileUnreadable => "the dataset source cannot be read",
            DataError::EmptyDataset => "the dataset source holds no rows",
            DataError::AllRowsMalformed => "no row of the dataset source can be used",
        }
    }
}

/// The pieces of `s` between separators, in order. There is one piece more
/// than there are separators; a piece may be empty.
pub open spec fn split(s: Seq<u8>, sep: u8) -> Seq<Seq<u8>>
    decreases s.len(),
{
    if s.len() == 0 {
        seq![Seq::empty()]
    } else {
        let before = split(s.drop_last(), sep);
        if s.last() == sep {
            before.push(Seq::empty())
        } else {
            before.drop_last().push(before.last().push(s.last()))
        }
    }
}

/// The pieces put together again, with a separator between neighbours.
pub open spec fn join(pieces: Seq<Seq<u8>>, sep: u8) -> Seq<u8>
    decreases pieces.len(),
{
    if pieces.len() == 0 {
        Seq::empty()
    } else if pieces.len() == 1 {
        pieces[0]
    } else {
        join(pieces.drop_last(), sep).push(sep) + pieces.last()
    }
}

/// Splitting loses nothing and cuts at every separator: the pieces joined are
/// the text again, there is at least one piece, and no piece holds a
/// separator.
pub proof fn lemma_split_joins(s: Seq<u8>, sep: u8)
    ensures
        split(s, sep).len() >= 1,
        join(split(s, sep), sep) == s,
        forall|i: int, j: int|
            0 <= i < split(s, sep).len() && 0 <= j < split(s, sep)[i].len() ==> split(
                s,
                sep,
            )[i][j] != sep,
    decreases s.len(),
{
    let pieces = split(s, sep);
    if s.len() > 0 {
        let before = split(s.drop_last(), sep);
        lemma_split_joins(s.drop_last(), sep);
        if s.last() == sep {
            assert(pieces.drop_last() =~= before);
        } else if before.len() > 1 {
            let head = join(before.drop_last(), sep).push(sep);
            let grown = before.last().push(s.last());
            assert(pieces.drop_last() =~= before.drop_last());
            assert(head + grown =~= (head + before.last()).push(s.last()));
        }
    }
}

/// The contents of the byte strings, in order.
pub open spec fn texts(v: Seq<Vec<u8>>) -> Seq<Seq<u8>> {
    v.map_values(|t: Vec<u8>| t@)
}

/// Cuts `s` at every `sep`.
pub fn split_at(s: &[u8], sep: u8) -> (pieces: Vec<Vec<u8>>)
    ensures
        texts(pieces@) == split(s@, sep),
{
    let mut pieces: Vec<Vec<u8>> = Vec::new();
    let mut current: Vec<u8> = Vec::new();
    let mut i: usize = 0;
    while i < s.len()
        invariant
            i <= s.len(),
            texts(pieces@).push(current@) == split(s@.take(i as int), sep),
        decreases s.len() - i,
    {
        let b = s[i];
        assert(s@.take(i + 1).drop_last() =~= s@.take(i as int));
        if b == sep {
            pieces.push(current);
            current = Vec::new();
        } else {
            current.push(b);
        }
        i = i + 1;
    }
    assert(s@.take(i as int) =~= s@);
    pieces.push(current);
    pieces
}

/// Whether the byte is a plus or a minus sign.
pub open spec fn is_sign(b: u8) -> bool {
    b == 0x2B || b == 0x2D
}

/// Where the run of digits that starts at `from` ends.
pub open spec fn digits_end(s: Seq<u8>, from: int) -> int
    decreases s.len() - from,
{
    if 0 <= from < s.len() && is_digit(s[from]) {
        digits_end(s, from + 1)
    } else {
        from
    }
}

/// The position after the sign at `from`, if there is one; else `from`.
pub open spec fn sign_end(s: Seq<u8>, from: int) -> int {
    if 0 <= from < s.len() && is_sign(s[from]) {
        from + 1
    } else {
        from
    }
}

/// Whether the text writes a decimal number: an optional sign; digits with
/// at most one point among them, before them or after them, and at least one
/// digit; then, optionally, `e` or `E`, an optional sign and at least one
/// digit. Nothing may stand before or after, blanks neither.
pub open spec fn is_number(s: Seq<u8>) -> bool {
    let a = sign_end(s, 0);
    let b = digits_end(s, a);
    let point = b < s.len() && s[b] == 0x2E;
    let c = if point {
        digits_end(s, b + 1)
    } else {
        b
    };
    let mantissa_digits = if point {
        (b - a) + (c - (b + 1))
    } else {
        b - a
    };
    let exponent = c < s.len() && (s[c] == 0x65 || s[c] == 0x45);
    let x = if exponent {
        sign_end(s, c + 1)
    } else {
        c
    };
    let d = if exponent {
        digits_end(s, x)
    } else {
        c
    };
    &&& mantissa_digits >= 1
    &&& exponent ==> d > x
    &&& d == s.len()
}

/// The label that the text writes: `0` for not potable, `1` for potable.
pub open spec fn label_of(s: Seq<u8>) -> Option<bool> {
    if s.len() == 1 && s[0] == 0x30 {
        Some(false)
    } else if s.len() == 1 && s[0] == 0x31 {
        Some(true)
    } else {
        None
    }
}

fn skip_digits(s: &[u8], from: usize) -> (end: usize)
    requires
        from <= s.len(),
    ensures
        end == digits_end(s@, from as int),
        from <= end <= s.len(),
{
    let mut i = from;
    while i < s.len() && digit(s[i])
        invariant
            from <= i <= s.len(),
            digits_end(s@, from as int) == digits_end(s@, i as int),
        decreases s.len() - i,
    {
        i = i + 1;
    }
    i
}

fn skip_sign(s: &[u8], from: usize) -> (end: usize)
    requires
        from <= s.len(),
    ensures
        end == sign_end(s@, from as int),
        from <= end <= s.len(),
{
    if from < s.len() && (s[from] == 0x2B || s[from] == 0x2D) {
        from + 1
    } else {
        from
    }
}

/// Whether the text writes a decimal number.
pub fn is_number_text(s: &[u8]) -> (r: bool)
    ensures
        r == is_number(s@),
{
    let n = s.len();
    let a = skip_sign(s, 0);
    let b = skip_digits(s, a);
    let point = b < n && s[b] == 0x2E;
    let c = if point {
        skip_digits(s, b + 1)
    } else {
        b
    };
    let mantissa_digits = if point {
        (b - a) + (c - (b + 1))
    } else {
        b - a
    };
    if mantissa_digits == 0 {
        return false;
    }
    if c < n && (s[c] == 0x65 || s[c] == 0x45) {
        let x = skip_sign(s, c + 1);
        let d = skip_digits(s, x);
        d > x && d == n
    } else {
        c == n
    }
}

/// Reads a label.
pub fn parse_label(s: &[u8]) -> (r: Option<bool>)
    ensures
        r == label_of(s@),
{
    if s.len() == 1 && s[0] == 0x30 {
        Some(false)
    } else if s.len() == 1 && s[0] == 0x31 {
        Some(true)
    } else {
        None
    }
}

/// One usable row: the text of its nine measurements, each known to write a
/// decimal number, and its label.
#[derive(Clone, Debug)]
pub struct Record {
    pub features: Vec<Vec<u8>>,
    pub label: bool,
}

/// A row as contracts see it.
pub ghost struct RecordView {
    pub features: Seq<Seq<u8>>,
    pub label: bool,
}

impl View for Record {
    type V = RecordView;

    open spec fn view(&self) -> RecordView {
        RecordView { features: texts(self.features@), label: self.label }
    }
}

/// Whether the fields are those of a usable row: ten of them, the first nine
/// decimal numbers, the last a label.
pub open spec fn usable(fields: Seq<Seq<u8>>) -> bool {
    &&& fields.len() == FIELD_COUNT
    &&& forall|i: int| 0 <= i < INPUT_DIM ==> is_number(#[trigger] fields[i])
    &&& label_of(fields[INPUT_DIM as int]) is Some
}

/// What a row gives: its measurements and label where it is usable, nothing
/// where it is not.
pub open spec fn record_of(line: Seq<u8>) -> Option<RecordView> {
    let fields = split(line, COMMA);
    if usable(fields) {
        Some(
            RecordView {
                features: fields.take(INPUT_DIM as int),
                label: label_of(fields[INPUT_DIM as int])->0,
            },
        )
    } else {
        None
    }
}

/// Reads one row.
pub fn scan_record(line: &[u8]) -> (record: Option<Record>)
    ensures
        match record {
            Some(r) => record_of(line@) == Some(r@),
            None => record_of(line@) is None,
        },
{
    let mut fields = split_at(line, COMMA);
    let ghost all = texts(fields@);
    if fields.len() != FIELD_COUNT {
        return None;
    }
    let mut i: usize = 0;
    while i < INPUT_DIM
        invariant
            i <= INPUT_DIM,
            fields@.len() == FIELD_COUNT,
            all == texts(fields@),
            all == split(line@, COMMA),
            forall|k: int| 0 <= k < i ==> is_number(#[trigger] all[k]),
        decreases INPUT_DIM - i,
    {
        assert(all[i as int] == fields@[i as int]@);
        if !is_number_text(fields[i].as_slice()) {
            return None;
        }
        i = i + 1;
    }
    match parse_label(fields[INPUT_DIM].as_slice()) {
        Some(label) => {
            fields.truncate(INPUT_DIM);
            assert(texts(fields@) =~= all.take(INPUT_DIM as int));
            Some(Record { features: fields, label })
        },
        None => None,
    }
}

/// The usable rows among `rows`, in their order.
pub open spec fn usable_rows(rows: Seq<Seq<u8>>) -> Seq<RecordView>
    decreases rows.len(),
{
    if rows.len() == 0 {
        Seq::empty()
    } else {
        let before = usable_rows(rows.drop_last());
        match record_of(rows.last()) {
            Some(r) => before.push(r),
            None => before,
        }
    }
}

/// What holds of the usable rows: there are no more of them than rows, and
/// each holds nine measurements that write decimal numbers.
pub proof fn lemma_usable_rows(rows: Seq<Seq<u8>>)
    ensures
        usable_rows(rows).len() <= rows.len(),
        forall|k: int|
            0 <= k < usable_rows(rows).len() ==> (#[trigger] usable_rows(rows)[k]).features.len()
                == INPUT_DIM,
        forall|k: int, i: int|
            0 <= k < usable_rows(rows).len() && 0 <= i < INPUT_DIM ==> is_number(
                #[trigger] usable_rows(rows)[k].features[i],
            ),
    decreases rows.len(),
{
    if rows.len() > 0 {
        lemma_usable_rows(rows.drop_last());
    }
}

/// What a source of these lines gives. The first line is the header and is
/// not looked at. Without a line after it the dataset is empty; with lines
/// of which none is usable all rows are malformed; else the usable rows
/// come out, in the order of the source.
pub open spec fn loaded(lines: Seq<Seq<u8>>) -> Result<Seq<RecordView>, DataError> {
    if lines.len() <= 1 {
        Err(DataError::EmptyDataset)
    } else {
        let rows = usable_rows(lines.subrange(1, lines.len() as int));
        if rows.len() == 0 {
            Err(DataError::AllRowsMalformed)
        } else {
            Ok(rows)
        }
    }
}

/// The rows as contracts see them.
pub open spec fn views(records: Seq<Record>) -> Seq<RecordView> {
    records.map_values(|r: Record| r@)
}

/// Reads the rows of a source that was cut into lines.
pub fn load_records(lines: &Vec<Vec<u8>>) -> (r: Result<Vec<Record>, DataError>)
    ensures
        match r {
            Ok(records) => loaded(texts(lines@)) == Ok::<Seq<RecordView>, DataError>(
                views(records@),
            ),
            Err(e) => loaded(texts(lines@)) == Err::<Seq<RecordView>, DataError>(e),
        },
{
    let n = lines.len();
    if n <= 1 {
        return Err(DataError::EmptyDataset);
    }
    let ghost all = texts(lines@);
    let mut records: Vec<Record> = Vec::new();
    let mut i: usize = 1;
    while i < n
        invariant
            1 <= i <= n,
            n == lines@.len(),
            all == texts(lines@),
            views(records@) == usable_rows(all.subrange(1, i as int)),
        decreases n - i,
    {
        assert(all.subrange(1, i + 1).drop_last() =~= all.subrange(1, i as int));
        match scan_record(lines[i].as_slice()) {
            Some(record) => {
                records.push(record);
            },
            None => {},
        }
        i = i + 1;
    }
    if records.len() == 0 {
        Err(DataError::AllRowsMalformed)
    } else {
        Ok(records)
    }
}

/// The line without the carriage return at its end, if it has one.
pub open spec fn without_return(line: Seq<u8>) -> Seq<u8> {
    if line.len() > 0 && line.last() == CARRIAGE_RETURN {
        line.drop_last()
    } else {
        line
    }
}

/// The lines of a text: its pieces between newlines, without the empty piece
/// after a final newline, each without the carriage return at its end.
pub open spec fn lines_of(content: Seq<u8>) -> Seq<Seq<u8>> {
    let pieces = split(content, NEWLINE);
    let kept = if pieces.last().len() == 0 {
        pieces.drop_last()
    } else {
        pieces
    };
    kept.map_values(|line: Seq<u8>| without_return(line))
}

/// Cuts a text into lines.
pub fn split_lines(content: &[u8]) -> (lines: Vec<Vec<u8>>)
    ensures
        texts(lines@) == lines_of(content@),
{
    let mut lines = split_at(content, NEWLINE);
    proof {
        lemma_split_joins(content@, NEWLINE);
    }
    let n = lines.len();
    if lines[n - 1].len() == 0 {
        lines.pop();
    }
    let ghost kept = texts(lines@);
    let mut i: usize = 0;
    while i < lines.len()
        invariant
            i <= lines@.len(),
            lines@.len() == kept.len(),
            forall|k: int| 0 <= k < i ==> (#[trigger] lines@[k])@ == without_return(kept[k]),
            forall|k: int| i <= k < lines@.len() ==> (#[trigger] lines@[k])@ == kept[k],
        decreases lines@.len() - i,
    {
        let m = lines[i].len();
        if m > 0 && lines[i][m - 1] == CARRIAGE_RETURN {
            let mut line: Vec<u8> = Vec::new();
            std::mem::swap(&mut line, &mut lines[i]);
            line.pop();
            lines.set(i, line);
        }
        i = i + 1;
    }
    lines
}

/// Reads a whole source: cuts it into lines and reads the rows.
pub fn load(content: &[u8]) -> (r: Result<Vec<Record>, DataError>)
    ensures
        match r {
            Ok(records) => loaded(lines_of(content@)) == Ok::<Seq<RecordView>, DataError>(
                views(records@),
            ),
            Err(e) => loaded(lines_of(content@)) == Err::<Seq<RecordView>, DataError>(e),
        },
        r != Err::<Vec<Record>, DataError>(DataError::FileUnreadable),
{
    let lines = split_lines(content);
    load_records(&lines)
}

} // verus!
