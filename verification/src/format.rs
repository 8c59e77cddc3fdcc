//! Rendering of byte counts and of the change between two measurements.
use humansize::file_size_opts::{FileSizeOpts, DECIMAL};
use humansize::FileSize;
use vstd::prelude::*;
use vstd::string::*;

verus! {

/// The text that `humansize` renders for a byte count with its `DECIMAL`
/// options: the count scaled by powers of 1000, with up to two decimals,
/// a space and the unit (`B`, `KB`, `MB`, ...).
pub uninterp spec fn decimal_size_text(bytes: u64) -> Seq<char>;

/// The characters that a rendered byte count is made of: digits, the decimal
/// point, the space before the unit and the unit's capital letters.
pub open spec fn is_size_char(c: char) -> bool {
    ('0' <= c && c <= '9') || c == '.' || c == ' ' || ('A' <= c && c <= 'Z')
}

/// Every character of `text` is one of a rendered byte count.
pub open spec fn is_size_text(text: Seq<char>) -> bool {
    forall|i: int| 0 <= i < text.len() ==> is_size_char(#[trigger] text[i])
}

/// The rendering of a signed byte count: a minus sign in front of the
/// rendered magnitude when the count is negative, no sign otherwise.
pub open spec fn signed_size_text(bytes: int) -> Seq<char> {
    if bytes < 0 {
        seq!['-'] + decimal_size_text((-bytes) as u64)
    } else {
        decimal_size_text(bytes as u64)
    }
}

/// The difference `after - before`, where an `i64` other than `i64::MIN`
/// holds it.
pub open spec fn size_delta_spec(before: u64, after: u64) -> Option<i64> {
    if -i64::MAX <= after - before <= i64::MAX {
        Some((after - before) as i64)
    } else {
        None
    }
}

/// The rendered change from `before` to `after`: `+` and the growth, `-` and
/// the shrinkage, or the rendering of zero.
pub open spec fn delta_text(before: u64, after: u64) -> Seq<char> {
    if after > before {
        seq!['+'] + decimal_size_text((after - before) as u64)
    } else if after < before {
        seq!['-'] + decimal_size_text((before - after) as u64)
    } else {
        decimal_size_text(0)
    }
}

/// The percentage figure of a report. There is no ratio to a size of zero:
/// the figure is then `inf`, whatever was handed in.
pub open spec fn percentage_figure(before: u64, percentage: Seq<char>) -> Seq<char> {
    if before == 0 {
        "inf"@
    } else {
        percentage
    }
}

/// What stands in front of the size after: nothing, or the size before and
/// an arrow.
pub open spec fn before_prefix(before: u64, show_before: bool) -> Seq<char> {
    if show_before {
        decimal_size_text(before) + " => "@
    } else {
        Seq::empty()
    }
}

/// The report on a change from `before` to `after` bytes. Without a change
/// it is the size alone; with one, the signed difference and the percentage
/// follow in parentheses.
pub open spec fn size_diff_text(
    before: u64,
    after: u64,
    show_before: bool,
    percentage: Seq<char>,
) -> Seq<char> {
    if before == after {
        before_prefix(before, show_before) + decimal_size_text(after)
    } else {
        before_prefix(before, show_before) + decimal_size_text(after) + " ("@ + delta_text(
            before,
            after,
        ) + ", "@ + percentage_figure(before, percentage) + "%)"@
    }
}

/// No character of `text` is a sign or a percent sign.
pub open spec fn has_no_sign_or_percent(text: Seq<char>) -> bool {
    forall|i: int| 0 <= i < text.len() ==> {
        let c = #[trigger] text[i];
        c != '+' && c != '-' && c != '%'
    }
}

/// Calls `humansize`'s `FileSize::file_size` for `u64` with the `DECIMAL`
/// options. Trusted: the call never fails for an unsigned count, its result
/// depends on the count alone, and it is made of a non-negative number with
/// at most two decimals, a space and one of the units `B` to `YB`.
#[verifier::external_body]
fn decimal_size(bytes: u64) -> (rendered: Result<String, String>)
    ensures
        rendered is Ok,
        rendered matches Ok(text) ==> text@ == decimal_size_text(bytes),
        rendered matches Ok(text) ==> is_size_text(text@),
{
    bytes.file_size(DECIMAL)
}

/// Calls `humansize`'s `FileSize::file_size` for `i64` with the `DECIMAL`
/// options and negative counts allowed. Trusted: with that option the call
/// does not fail; it renders the magnitude as the unsigned call does and
/// puts `-` in front of a negative count. The magnitude of `i64::MIN` is no
/// `i64`, so that count is left out.
#[verifier::external_body]
fn signed_decimal_size(bytes: i64) -> (rendered: Result<String, String>)
    requires
        bytes > i64::MIN,
    ensures
        rendered is Ok,
        rendered matches Ok(text) ==> text@ == signed_size_text(bytes as int),
        rendered matches Ok(text) ==> is_size_text(
            if bytes < 0 {
                text@.skip(1)
            } else {
                text@
            },
        ),
{
    bytes.file_size(FileSizeOpts { allow_negative: true, ..DECIMAL })
}

/// Renders a byte count in decimal units.
pub fn format_size(bytes: u64) -> (text: String)
    ensures
        text@ == decimal_size_text(bytes),
        is_size_text(text@),
{
    decimal_size(bytes).unwrap()
}

/// The signed difference between two measurements, if an `i64` can hold it
/// together with its magnitude.
pub fn size_delta(before: u64, after: u64) -> (delta: Option<i64>)
    ensures
        delta == size_delta_spec(before, after),
{
    if after >= before {
        let growth: u64 = after - before;
        if growth <= i64::MAX as u64 {
            Some(growth as i64)
        } else {
            None
        }
    } else {
        let shrinkage: u64 = before - after;
        if shrinkage <= i64::MAX as u64 {
            Some(-(shrinkage as i64))
        } else {
            None
        }
    }
}

/// Renders the change from `before` to `after` with an explicit `+` for
/// growth and a `-` for shrinkage; what follows the sign is a rendered byte
/// count. A difference that an `i64` holds goes to the signed renderer; a
/// larger one is rendered from its magnitude.
pub fn render_delta(before: u64, after: u64) -> (text: String)
    ensures
        text@ == delta_text(before, after),
        is_size_text(
            if after == before {
                text@
            } else {
                text@.skip(1)
            },
        ),
{
    let sign = if after > before {
        "+"
    } else {
        ""
    };
    let mut text = String::from_str(sign);
    proof {
        reveal_strlit("+");
        reveal_strlit("");
        reveal_strlit("-");
    }
    match size_delta(before, after) {
        Some(delta) => {
            let rendered = signed_decimal_size(delta).unwrap();
            text.append(rendered.as_str());
        },
        None => {
            if after > before {
                let rendered = decimal_size(after - before).unwrap();
                text.append(rendered.as_str());
            } else {
                let rendered = decimal_size(before - after).unwrap();
                text.append("-");
                text.append(rendered.as_str());
            }
        },
    }
    assert(text@ =~= delta_text(before, after));
    assert(after != before ==> text@.skip(1) =~= decimal_size_text(
        if after > before {
            (after - before) as u64
        } else {
            (before - after) as u64
        },
    ));
    text
}

/// Renders the change of a size from `size_before` to `size_after` bytes.
///
/// Without a change the text is the rendered size, after `<before> => ` when
/// `show_before` is set. With one it is
/// `<after> (<signed difference>, <percentage>%)`, after the same prefix when
/// asked for. Sizes and differences are in decimal units, as `humansize`
/// renders them.
///
/// `percentage` is the relative change in percent, `after / before * 100 -
/// 100`, rendered by the caller. It is read only where there is a change and
/// `size_before` is not zero: for a change from zero the figure is `inf`.
///
/// An unchanged size is reported without any sign or percent sign. The
/// difference of a shrunken size starts with `-` and has no `+`; that of a
/// grown one starts with `+`, and no other sign follows.
pub fn size_diff_format(
    size_before: u64,
    size_after: u64,
    show_before: bool,
    percentage: &str,
) -> (text: String)
    ensures
        text@ == size_diff_text(size_before, size_after, show_before, percentage@),
        size_before == size_after ==> has_no_sign_or_percent(text@),
        size_after < size_before ==> delta_text(size_before, size_after)[0] == '-'
            && has_no_sign_or_percent(delta_text(size_before, size_after).skip(1)),
        size_after > size_before ==> delta_text(size_before, size_after)[0] == '+'
            && has_no_sign_or_percent(delta_text(size_before, size_after).skip(1)),
{
    let mut text = String::new();
    if show_before {
        let before_text = decimal_size(size_before).unwrap();
        text.append(before_text.as_str());
        text.append(" => ");
    }
    let after_text = decimal_size(size_after).unwrap();
    text.append(after_text.as_str());
    proof {
        reveal_strlit(" => ");
        assert(text@ =~= before_prefix(size_before, show_before) + decimal_size_text(
            size_after,
        ));
        assert(has_no_sign_or_percent(text@));
    }
    if size_before != size_after {
        let delta = render_delta(size_before, size_after);
        text.append(" (");
        text.append(delta.as_str());
        text.append(", ");
        if size_before == 0 {
            text.append("inf");
        } else {
            text.append(percentage);
        }
        text.append("%)");
        proof {
            assert(text@ =~= size_diff_text(
                size_before,
                size_after,
                show_before,
                percentage@,
            ));
            assert(is_size_text(delta@.skip(1)));
            assert(has_no_sign_or_percent(delta@.skip(1)));
        }
    }
    text
}

/// The line that shows the size of a repository before its compaction.
pub open spec fn announce_text(repo: Seq<char>, size_before: u64) -> Seq<char> {
    "Repo: "@ + repo + ": "@ + decimal_size_text(size_before) + " => "@
}

/// The line that reports the change in size of a repository: the line
/// that showed its size before, and the report on the change.
pub open spec fn report_text(
    repo: Seq<char>,
    size_before: u64,
    size_after: u64,
    percentage: Seq<char>,
) -> Seq<char> {
    announce_text(repo, size_before) + size_diff_text(size_before, size_after, false, percentage)
}

/// Renders the line that shows the size of a repository before its
/// compaction. `repo` is the repository's path as it is to be shown.
pub fn announce_line(repo: &str, size_before: u64) -> (line: String)
    ensures
        line@ == announce_text(repo@, size_before),
{
    let mut line = String::from_str("Repo: ");
    line.append(repo);
    line.append(": ");
    line.append(format_size(size_before).as_str());
    line.append(" => ");
    line
}

/// Renders the line that reports the change in size of a repository, in
/// the short form of the report. `repo` is the repository's path as it is
/// to be shown, `percentage` the rendered percentage as `size_diff_format`
/// takes it.
pub fn report_line(repo: &str, size_before: u64, size_after: u64, percentage: &str) -> (line:
    String)
    ensures
        line@ == report_text(repo@, size_before, size_after, percentage@),
{
    let mut line = announce_line(repo, size_before);
    line.append(size_diff_format(size_before, size_after, false, percentage).as_str());
    line
}

/// The report is a function of the two sizes, the flag and the percentage:
/// two reports on the same arguments are the same text.
pub proof fn lemma_report_is_determined(
    size_before: u64,
    size_after: u64,
    show_before: bool,
    percentage: Seq<char>,
    first: Seq<char>,
    second: Seq<char>,
)
    requires
        first == size_diff_text(size_before, size_after, show_before, percentage),
        second == size_diff_text(size_before, size_after, show_before, percentage),
    ensures
        first == second,
{
}

/// The rendered difference starts with `+` where the size grew and with `-`
/// where it shrank.
pub proof fn lemma_delta_sign(size_before: u64, size_after: u64)
    ensures
        size_after > size_before ==> delta_text(size_before, size_after)[0] == '+',
        size_after < size_before ==> delta_text(size_before, size_after)[0] == '-',
{
}

/// A report on a change from zero shows `inf`, whatever percentage was
/// handed in.
pub proof fn lemma_change_from_zero(
    size_after: u64,
    show_before: bool,
    first: Seq<char>,
    second: Seq<char>,
)
    ensures
        size_diff_text(0, size_after, show_before, first) == size_diff_text(
            0,
            size_after,
            show_before,
            second,
        ),
{
}

} // verus!
