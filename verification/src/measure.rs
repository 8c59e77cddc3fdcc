//! Reading the size report that the object-counting tool prints for a
//! repository.
use vstd::prelude::*;
use vstd::slice::*;
use vstd::string::*;

verus! {

/// The line feed that ends a line.
pub const LINE_FEED: u8 = 0x0a;

/// The tab, the first of the white-space control characters.
pub const TAB: u8 = 0x09;

/// The carriage return, the last of the white-space control characters.
pub const CARRIAGE_RETURN: u8 = 0x0d;

/// The space.
pub const SPACE: u8 = 0x20;

/// The plus sign that may stand in front of a number.
pub const PLUS: u8 = 0x2b;

/// The digit `0`.
pub const DIGIT_ZERO: u8 = 0x30;

/// The digit `9`.
pub const DIGIT_NINE: u8 = 0x39;

/// White space between the fields of a line: the space and the control
/// characters from tab to carriage return.
pub open spec fn is_space(byte: u8) -> bool {
    byte == SPACE || (TAB <= byte && byte <= CARRIAGE_RETURN)
}

/// A decimal digit.
pub open spec fn is_digit(byte: u8) -> bool {
    DIGIT_ZERO <= byte && byte <= DIGIT_NINE
}

/// Every byte of `field` is a decimal digit.
pub open spec fn all_digits(field: Seq<u8>) -> bool {
    forall|i: int| 0 <= i < field.len() ==> is_digit(#[trigger] field[i])
}

/// The number that a digit stands for.
pub open spec fn digit_value(byte: u8) -> nat {
    if is_digit(byte) {
        (byte - DIGIT_ZERO) as nat
    } else {
        0
    }
}

/// The number that a sequence of decimal digits stands for.
pub open spec fn digits_value(digits: Seq<u8>) -> nat
    decreases digits.len(),
{
    if digits.len() == 0 {
        0
    } else {
        digits_value(digits.drop_last()) * 10 + digit_value(digits.last())
    }
}

/// The digits of a field: the field itself, without a leading `+`.
pub open spec fn unsigned_digits(field: Seq<u8>) -> Seq<u8> {
    if field.len() > 0 && field[0] == PLUS {
        field.skip(1)
    } else {
        field
    }
}

/// The value of a field as a decimal `u64`: at least one digit, nothing but
/// digits after an optional `+`, and a value that a `u64` holds.
pub open spec fn decimal_u64(field: Seq<u8>) -> Option<u64> {
    let digits = unsigned_digits(field);
    if digits.len() > 0 && all_digits(digits) && digits_value(digits) <= u64::MAX {
        Some(digits_value(digits) as u64)
    } else {
        None
    }
}

/// The value of a prefix of a digit sequence is at most the value of the
/// whole.
proof fn lemma_digits_value_prefix(digits: Seq<u8>, n: int)
    requires
        0 <= n <= digits.len(),
    ensures
        digits_value(digits.take(n)) <= digits_value(digits),
    decreases digits.len(),
{
    if n == digits.len() {
        assert(digits.take(n) =~= digits);
    } else {
        lemma_digits_value_prefix(digits.drop_last(), n);
        assert(digits.drop_last().take(n) =~= digits.take(n));
    }
}

/// Reads a field as a decimal `u64`.
pub fn parse_decimal(field: &[u8]) -> (value: Option<u64>)
    ensures
        value == decimal_u64(field@),
{
    let start: usize = if field.len() > 0 && field[0] == PLUS {
        1
    } else {
        0
    };
    let ghost digits = unsigned_digits(field@);
    assert(digits =~= field@.skip(start as int));
    if start == field.len() {
        return None;
    }
    let mut value: u64 = 0;
    let mut i: usize = start;
    while i < field.len()
        invariant
            start <= i <= field.len(),
            digits == field@.skip(start as int),
            digits == unsigned_digits(field@),
            all_digits(digits.take(i - start)),
            value == digits_value(digits.take(i - start)),
        decreases field.len() - i,
    {
        let byte: u8 = field[i];
        let ghost seen = digits.take(i - start + 1);
        assert(seen.drop_last() =~= digits.take(i - start));
        assert(seen.last() == byte);
        if byte < DIGIT_ZERO || byte > DIGIT_NINE {
            assert(!is_digit(digits[i - start]));
            return None;
        }
        let grown: Option<u64> = match value.checked_mul(10) {
            Some(tens) => tens.checked_add((byte - DIGIT_ZERO) as u64),
            None => None,
        };
        match grown {
            Some(next) => {
                value = next;
            },
            None => {
                proof {
                    assert(digits_value(seen) > u64::MAX);
                    lemma_digits_value_prefix(digits, i - start + 1);
                }
                return None;
            },
        }
        i += 1;
    }
    assert(digits.take(i - start) =~= digits);
    Some(value)
}

/// A line without the white space at its end.
pub open spec fn trim_end(line: Seq<u8>) -> Seq<u8>
    decreases line.len(),
{
    if line.len() > 0 && is_space(line.last()) {
        trim_end(line.drop_last())
    } else {
        line
    }
}

/// The bytes after the last white space of a line.
pub open spec fn last_word(line: Seq<u8>) -> Seq<u8>
    decreases line.len(),
{
    if line.len() == 0 || is_space(line.last()) {
        Seq::empty()
    } else {
        last_word(line.drop_last()).push(line.last())
    }
}

/// The last of the fields that white space separates in a line. It is empty
/// only where the line holds nothing but white space.
pub open spec fn last_field(line: Seq<u8>) -> Seq<u8> {
    last_word(trim_end(line))
}

/// Where the white space at the end of a line begins.
proof fn lemma_trim_end(line: Seq<u8>, to: int)
    requires
        0 <= to <= line.len(),
        forall|k: int| to <= k < line.len() ==> is_space(#[trigger] line[k]),
        to == 0 || !is_space(line[to - 1]),
    ensures
        trim_end(line) == line.take(to),
    decreases line.len(),
{
    if to == line.len() {
        assert(line.take(to) =~= line);
    } else {
        lemma_trim_end(line.drop_last(), to);
        assert(line.drop_last().take(to) =~= line.take(to));
    }
}

/// Where the last word of a line begins.
proof fn lemma_last_word(line: Seq<u8>, from: int)
    requires
        0 <= from <= line.len(),
        forall|k: int| from <= k < line.len() ==> !is_space(#[trigger] line[k]),
        from == 0 || is_space(line[from - 1]),
    ensures
        last_word(line) == line.skip(from),
    decreases line.len(),
{
    if from == line.len() {
        assert(line.skip(from) =~= Seq::<u8>::empty());
    } else {
        lemma_last_word(line.drop_last(), from);
        assert(line.drop_last().skip(from).push(line.last()) =~= line.skip(from));
    }
}

/// Finds the last field of a line.
pub fn find_last_field(line: &[u8]) -> (field: &[u8])
    ensures
        field@ == last_field(line@),
{
    let mut to: usize = line.len();
    while to > 0 && is_space_byte(line[to - 1])
        invariant
            to <= line.len(),
            forall|k: int| to <= k < line.len() ==> is_space(#[trigger] line[k]),
        decreases to,
    {
        to -= 1;
    }
    let mut from: usize = to;
    while from > 0 && !is_space_byte(line[from - 1])
        invariant
            from <= to <= line.len(),
            forall|k: int| from <= k < to ==> !is_space(#[trigger] line[k]),
        decreases from,
    {
        from -= 1;
    }
    proof {
        lemma_trim_end(line@, to as int);
        lemma_last_word(line@.take(to as int), from as int);
        assert(line@.take(to as int).skip(from as int) =~= line@.subrange(from as int, to as int));
    }
    slice_subrange(line, from, to)
}

/// Tells white space from other bytes.
pub fn is_space_byte(byte: u8) -> (space: bool)
    ensures
        space == is_space(byte),
{
    byte == SPACE || (TAB <= byte && byte <= CARRIAGE_RETURN)
}

/// Tells whether a line begins with a label.
pub fn starts_with(line: &[u8], label: &[u8]) -> (found: bool)
    ensures
        found == label@.is_prefix_of(line@),
{
    if label.len() > line.len() {
        return false;
    }
    let mut i: usize = 0;
    while i < label.len()
        invariant
            i <= label.len() <= line.len(),
            forall|k: int| 0 <= k < i ==> label[k] == line[k],
        decreases label.len() - i,
    {
        if label[i] != line[i] {
            assert(line@.subrange(0, label@.len() as int)[i as int] != label@[i as int]);
            return false;
        }
        i += 1;
    }
    assert(label@ =~= line@.subrange(0, label@.len() as int));
    true
}

/// The label of the line that reports the size of the loose objects.
pub open spec fn loose_label() -> Seq<u8> {
    "size:".spec_bytes()
}

/// The label of the line that reports the size of the packs.
pub open spec fn pack_label() -> Seq<u8> {
    "size-pack:".spec_bytes()
}

/// The label of the line that reports the size of the garbage.
pub open spec fn garbage_label() -> Seq<u8> {
    "size-garbage:".spec_bytes()
}

/// The bytes of the three labels.
pub proof fn lemma_label_bytes()
    ensures
        loose_label() == seq![0x73u8, 0x69, 0x7a, 0x65, 0x3a],
        pack_label() == seq![0x73u8, 0x69, 0x7a, 0x65, 0x2d, 0x70, 0x61, 0x63, 0x6b, 0x3a],
        garbage_label() == seq![
            0x73u8,
            0x69,
            0x7a,
            0x65,
            0x2d,
            0x67,
            0x61,
            0x72,
            0x62,
            0x61,
            0x67,
            0x65,
            0x3a,
        ],
{
    broadcast use vstd::string::group_string_axioms;

    reveal_strlit("size:");
    reveal_strlit("size-pack:");
    reveal_strlit("size-garbage:");
    assert(is_ascii("size:"));
    assert(is_ascii("size-pack:"));
    assert(is_ascii("size-garbage:"));
    assert(loose_label() =~= seq![0x73u8, 0x69, 0x7a, 0x65, 0x3a]);
    assert(pack_label() =~= seq![0x73u8, 0x69, 0x7a, 0x65, 0x2d, 0x70, 0x61, 0x63, 0x6b, 0x3a]);
    assert(garbage_label() =~= seq![
        0x73u8,
        0x69,
        0x7a,
        0x65,
        0x2d,
        0x67,
        0x61,
        0x72,
        0x62,
        0x61,
        0x67,
        0x65,
        0x3a,
    ]);
}

/// A line that reports a size: it begins with one of the three labels.
pub open spec fn is_size_line(line: Seq<u8>) -> bool {
    loose_label().is_prefix_of(line) || pack_label().is_prefix_of(line)
        || garbage_label().is_prefix_of(line)
}

/// What a line adds to the size, in the tool's kilobyte units: the number in
/// the last field of a size line, nothing for any other line. A size line
/// whose last field is no decimal `u64` cannot be read.
pub open spec fn line_kib(line: Seq<u8>) -> Option<u64> {
    if is_size_line(line) {
        decimal_u64(last_field(line))
    } else {
        Some(0)
    }
}

/// Reads what a line adds to the size.
pub fn read_line(line: &[u8]) -> (kib: Option<u64>)
    ensures
        kib == line_kib(line@),
{
    if starts_with(line, "size:".as_bytes()) || starts_with(line, "size-pack:".as_bytes())
        || starts_with(line, "size-garbage:".as_bytes()) {
        parse_decimal(find_last_field(line))
    } else {
        Some(0)
    }
}

/// Why a repository's size could not be measured.
#[derive(Clone, Copy, Debug, PartialEq, Eq, Structural)]
pub enum MeasureError {
    /// The tool could not be started, so there is no report.
    ToolUnavailable,
    /// The tool ran and ended with an error, so its report does not count.
    ToolFailed,
    /// A size line of the report does not end in a decimal number that a
    /// `u64` holds.
    Unparseable,
    /// The sizes add up to more bytes than a `u64` holds.
    Overflow,
}

/// The diagnostic for a failed measurement.
pub open spec fn measure_error_text(error: MeasureError) -> Seq<char> {
    match error {
        MeasureError::ToolUnavailable => "the size report could not be obtained: the tool could not be started"@,
        MeasureError::ToolFailed => "the size report could not be obtained: the tool ended with an error"@,
        MeasureError::Unparseable => "the size report could not be read: a size line does not end in a number"@,
        MeasureError::Overflow => "the size report could not be used: the sizes are too large to add up"@,
    }
}

impl MeasureError {
    /// The diagnostic for this failure.
    pub fn message(&self) -> (text: &'static str)
        ensures
            text@ == measure_error_text(*self),
    {
        match self {
            MeasureError::ToolUnavailable => "the size report could not be obtained: the tool could not be started",
            MeasureError::ToolFailed => "the size report could not be obtained: the tool ended with an error",
            MeasureError::Unparseable => "the size report could not be read: a size line does not end in a number",
            MeasureError::Overflow => "the size report could not be used: the sizes are too large to add up",
        }
    }
}

/// The length of the first line of a text, its line feed not counted.
pub open spec fn line_len(text: Seq<u8>) -> nat
    decreases text.len(),
{
    if text.len() == 0 || text[0] == LINE_FEED {
        0
    } else {
        1 + line_len(text.skip(1))
    }
}

/// The lines of a text. A line feed ends a line and is no part of it; the
/// last line needs none, and no empty line follows a line feed at the end.
pub open spec fn lines(text: Seq<u8>) -> Seq<Seq<u8>>
    decreases text.len(),
{
    let len = line_len(text) as int;
    if text.len() == 0 {
        Seq::empty()
    } else if len >= text.len() {
        seq![text]
    } else {
        seq![text.take(len)] + lines(text.skip(len + 1))
    }
}

/// Every line can be read.
pub open spec fn all_readable(lines: Seq<Seq<u8>>) -> bool {
    forall|i: int| 0 <= i < lines.len() ==> (#[trigger] line_kib(lines[i])) is Some
}

/// The sum of what the lines add to the size, in kilobyte units. A line that
/// cannot be read adds nothing.
pub open spec fn total_kib(lines: Seq<Seq<u8>>) -> nat
    decreases lines.len(),
{
    if lines.len() == 0 {
        0
    } else {
        total_kib(lines.drop_last()) + match line_kib(lines.last()) {
            Some(kib) => kib as nat,
            None => 0,
        }
    }
}

/// The number of bytes in one of the tool's kilobyte units.
pub const KIB: u64 = 1024;

/// The size in bytes that a report amounts to: 1024 times the sum of its
/// size lines. The report gives kilobyte units and no exact byte count, so
/// the size is an approximation.
pub open spec fn report_size(report: Seq<u8>) -> Result<u64, MeasureError> {
    let kib = total_kib(lines(report));
    if !all_readable(lines(report)) {
        Err(MeasureError::Unparseable)
    } else if kib * KIB > u64::MAX {
        Err(MeasureError::Overflow)
    } else {
        Ok((kib * KIB) as u64)
    }
}

/// The first line of a text ends at the first line feed, or with the text.
proof fn lemma_line_len(text: Seq<u8>, len: int)
    requires
        0 <= len <= text.len(),
        forall|k: int| 0 <= k < len ==> #[trigger] text[k] != LINE_FEED,
        len == text.len() || text[len] == LINE_FEED,
    ensures
        line_len(text) == len,
    decreases len,
{
    if len > 0 {
        lemma_line_len(text.skip(1), len - 1);
    }
}

/// Finds the end of the line that begins at `start`.
fn find_line_end(report: &[u8], start: usize) -> (end: usize)
    requires
        start <= report.len(),
    ensures
        start <= end <= report.len(),
        end - start == line_len(report@.skip(start as int)),
{
    let mut end: usize = start;
    while end < report.len() && report[end] != LINE_FEED
        invariant
            start <= end <= report.len(),
            forall|k: int| start <= k < end ==> #[trigger] report[k] != LINE_FEED,
        decreases report.len() - end,
    {
        end += 1;
    }
    proof {
        lemma_line_len(report@.skip(start as int), end - start);
    }
    end
}

/// Adds up the size lines of a report and gives the size in bytes.
///
/// The report is read line by line. A line that begins with `size:`,
/// `size-pack:` or `size-garbage:` adds the number in its last field; every
/// other line is passed over. The sum counts the tool's kilobyte units and
/// is multiplied by 1024: the result approximates the size, since the tool
/// gives no exact byte count.
///
/// A size line whose last field is no decimal `u64` makes the whole report
/// unparseable, wherever it stands. A report whose lines can all be read
/// fails only where the size in bytes is more than a `u64` holds.
pub fn parse_size_report(report: &[u8]) -> (size: Result<u64, MeasureError>)
    ensures
        size == report_size(report@),
{
    let mut kib: u64 = 0;
    let mut overflow: bool = false;
    let mut start: usize = 0;
    let ghost mut seen: Seq<Seq<u8>> = Seq::empty();
    assert(report@.skip(0) =~= report@);
    while start < report.len()
        invariant
            start <= report.len(),
            lines(report@) == seen + lines(report@.skip(start as int)),
            all_readable(seen),
            !overflow ==> kib == total_kib(seen),
            overflow ==> total_kib(seen) > u64::MAX,
        decreases report.len() - start,
    {
        let end: usize = find_line_end(report, start);
        let line = slice_subrange(report, start, end);
        let ghost rest = report@.skip(start as int);
        let next: usize = if end < report.len() {
            end + 1
        } else {
            end
        };
        proof {
            assert(rest.take(end - start) =~= line@);
            assert(end == report.len() ==> rest =~= line@);
            assert(end < report.len() ==> rest.skip(end - start + 1) =~= report@.skip(end + 1));
            assert(lines(report@.skip(report@.len() as int)) =~= Seq::<Seq<u8>>::empty());
            assert(lines(rest) =~= seq![line@] + lines(report@.skip(next as int)));
            assert(seen + lines(rest) =~= seen.push(line@) + lines(report@.skip(next as int)));
            assert(seen.push(line@).drop_last() =~= seen);
        }
        match read_line(line) {
            Some(more) => {
                match kib.checked_add(more) {
                    Some(sum) => {
                        kib = sum;
                    },
                    None => {
                        overflow = true;
                    },
                }
            },
            None => {
                proof {
                    let all = lines(report@);
                    assert(all[seen.len() as int] == line@);
                    assert(line_kib(all[seen.len() as int]) is None);
                }
                return Err(MeasureError::Unparseable);
            },
        }
        proof {
            seen = seen.push(line@);
        }
        start = next;
    }
    proof {
        assert(lines(report@.skip(start as int)) =~= Seq::<Seq<u8>>::empty());
        assert(seen + Seq::<Seq<u8>>::empty() =~= seen);
    }
    if overflow {
        return Err(MeasureError::Overflow);
    }
    match kib.checked_mul(KIB) {
        Some(bytes) => Ok(bytes),
        None => Err(MeasureError::Overflow),
    }
}

/// What came of running the tool for a size report.
#[derive(Clone, Debug, PartialEq, Eq)]
pub enum ToolRun {
    /// The tool could not be started.
    Unavailable,
    /// The tool ran and ended with an error.
    Failed,
    /// The tool ran and printed a report.
    Reported(Vec<u8>),
}

/// The size that a run of the tool stands for. Only a report gives a size:
/// a run that gave none is an error, and no zero stands in its place.
pub open spec fn measured_size(run: ToolRun) -> Result<u64, MeasureError> {
    match run {
        ToolRun::Unavailable => Err(MeasureError::ToolUnavailable),
        ToolRun::Failed => Err(MeasureError::ToolFailed),
        ToolRun::Reported(report) => report_size(report@),
    }
}

/// The size of a repository, from what came of running the tool on it.
pub fn size_git_repo(run: &ToolRun) -> (size: Result<u64, MeasureError>)
    ensures
        size == measured_size(*run),
{
    match run {
        ToolRun::Unavailable => Err(MeasureError::ToolUnavailable),
        ToolRun::Failed => Err(MeasureError::ToolFailed),
        ToolRun::Reported(report) => parse_size_report(report.as_slice()),
    }
}

} // verus!
