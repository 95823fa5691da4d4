//! Finding out the size of the terminal's window: from the answer to the
//! size query, or from the cursor position that the terminal reports after
//! the cursor was sent to the bottom right corner.

use vstd::prelude::*;

verus! {

/// Sends the cursor to the bottom right corner of the window.
pub const TO_BOTTOM_RIGHT: &'static str = "\x1b[999C\x1b[999B";

/// Asks the terminal to report the position of the cursor.
pub const REPORT_CURSOR: &'static str = "\x1b[6n\r\n";

/// The byte that ends a cursor position report.
pub const REPORT_END: u8 = 0x52;

/// Whether `byte` is a decimal digit.
pub open spec fn is_digit(byte: u8) -> bool {
    '0' as u8 <= byte <= '9' as u8
}

/// Whether `digits` holds decimal digits only.
pub open spec fn all_digits(digits: Seq<u8>) -> bool {
    forall|i: int| 0 <= i < digits.len() ==> is_digit(#[trigger] digits[i])
}

/// The number that the decimal digits `digits` stand for.
pub open spec fn digits_value(digits: Seq<u8>) -> nat
    decreases digits.len(),
{
    if digits.len() == 0 {
        0
    } else {
        digits_value(digits.drop_last()) * 10 + (digits.last() - '0' as u8) as nat
    }
}

/// A field without the plus sign that may stand in front of its digits.
pub open spec fn unsigned_part(field: Seq<u8>) -> Seq<u8> {
    if field.len() > 0 && field[0] == '+' as u8 {
        field.skip(1)
    } else {
        field
    }
}

/// The number that a field stands for: the field has to be one or more
/// decimal digits, with or without a plus sign in front, and the number has
/// to fit the machine's word.
pub open spec fn field_value(field: Seq<u8>) -> Option<usize> {
    let digits = unsigned_part(field);
    if digits.len() > 0 && all_digits(digits) && digits_value(digits) <= usize::MAX {
        Some(digits_value(digits) as usize)
    } else {
        None
    }
}

/// The fields of `bytes`: the runs of bytes between its semicolons. There is
/// one field more than there are semicolons.
pub open spec fn split_fields(bytes: Seq<u8>) -> Seq<Seq<u8>>
    decreases bytes.len(),
{
    if bytes.len() == 0 {
        seq![Seq::empty()]
    } else {
        let before = split_fields(bytes.drop_last());
        if bytes.last() == ';' as u8 {
            before.push(Seq::empty())
        } else {
            before.drop_last().push(before.last().push(bytes.last()))
        }
    }
}

/// The numbers among `fields`, in order; fields that stand for no number
/// are left out.
pub open spec fn field_values(fields: Seq<Seq<u8>>) -> Seq<usize>
    decreases fields.len(),
{
    if fields.len() == 0 {
        Seq::empty()
    } else {
        match field_value(fields.last()) {
            Some(value) => field_values(fields.drop_last()).push(value),
            None => field_values(fields.drop_last()),
        }
    }
}

/// The rows and columns that a cursor position report gives. `reply` is
/// what the terminal sent before the byte that ends the report: two bytes
/// that introduce it, then fields separated by semicolons. The report is
/// good if exactly two of its fields are numbers: the row and the column.
pub open spec fn cursor_report(reply: Seq<u8>) -> Option<(usize, usize)> {
    if reply.len() < 2 {
        None
    } else {
        let numbers = field_values(split_fields(reply.skip(2)));
        if numbers.len() == 2 {
            Some((numbers[0], numbers[1]))
        } else {
            None
        }
    }
}

/// More digits do not make a number smaller.
pub proof fn lemma_digits_value_grows(digits: Seq<u8>, k: int)
    requires
        0 <= k <= digits.len(),
        all_digits(digits),
    ensures
        digits_value(digits.take(k)) <= digits_value(digits),
    decreases digits.len() - k,
{
    if k < digits.len() {
        lemma_digits_value_grows(digits, k + 1);
        assert(digits.take(k + 1).drop_last() == digits.take(k));
    } else {
        assert(digits.take(k) == digits);
    }
}

/// The size of the window as the terminal's size query gave it, if the
/// query succeeded and gave a width: `status` is what the query returned,
/// -1 for a failure.
pub fn size_from_query(status: i32, rows: u16, cols: u16) -> (size: Option<(usize, usize)>)
    ensures
        size == (if status == -1 || cols == 0 {
            None
        } else {
            Some((rows as usize, cols as usize))
        }),
{
    if status == -1 || cols == 0 {
        None
    } else {
        Some((rows as usize, cols as usize))
    }
}

/// The number that `field` stands for.
fn parse_field(field: &Vec<u8>) -> (value: Option<usize>)
    ensures
        value == field_value(field@),
{
    // 0x2b is `+`; the digits are 0x30 to 0x39.
    let start: usize = if field.len() > 0 && field[0] == 0x2b {
        1
    } else {
        0
    };
    let ghost digits = unsigned_part(field@);
    if start == field.len() {
        return None;
    }
    let mut value: usize = 0;
    let mut i: usize = start;
    while i < field.len()
        invariant
            start <= i <= field@.len(),
            digits == field@.skip(start as int),
            digits == unsigned_part(field@),
            all_digits(digits.take(i - start)),
            value == digits_value(digits.take(i - start)),
        decreases field@.len() - i,
    {
        let byte = field[i];
        let ghost seen = digits.take(i - start);
        let ghost more = digits.take(i - start + 1);
        assert(more.drop_last() == seen);
        if byte < 0x30 || byte > 0x39 {
            assert(!is_digit(digits[i - start]));
            return None;
        }
        assert forall|j: int| 0 <= j < more.len() implies is_digit(#[trigger] more[j]) by {
            if j < seen.len() {
                assert(more[j] == seen[j]);
            }
        }
        let next = match value.checked_mul(10) {
            Some(tens) => tens.checked_add((byte - 0x30) as usize),
            None => None,
        };
        match next {
            Some(sum) => {
                value = sum;
            },
            None => {
                proof {
                    if all_digits(digits) {
                        lemma_digits_value_grows(digits, i - start + 1);
                    }
                }
                return None;
            },
        }
        i += 1;
    }
    assert(digits.take(i - start) == digits);
    Some(value)
}

/// Reads a cursor position report. `reply` is what the terminal sent before
/// the byte that ends the report. Returns the rows and columns, or `None`
/// if the report is not good.
pub fn parse_cursor_report(reply: &[u8]) -> (size: Option<(usize, usize)>)
    ensures
        size == cursor_report(reply@),
{
    if reply.len() < 2 {
        return None;
    }
    let ghost body = reply@.skip(2);
    let mut numbers: Vec<usize> = Vec::new();
    let mut field: Vec<u8> = Vec::new();
    let ghost mut done: Seq<Seq<u8>> = Seq::empty();
    let mut i: usize = 2;
    while i < reply.len()
        invariant
            2 <= i <= reply@.len(),
            body == reply@.skip(2),
            done.push(field@) == split_fields(body.take(i - 2)),
            numbers@ == field_values(done),
        decreases reply@.len() - i,
    {
        let byte = reply[i];
        proof {
            assert(body.take(i - 2 + 1).drop_last() == body.take(i - 2));
            assert(done.push(field@).drop_last() == done);
        }
        // 0x3b is `;`.
        if byte == 0x3b {
            if let Some(value) = parse_field(&field) {
                numbers.push(value);
            }
            proof {
                done = done.push(field@);
            }
            field = Vec::new();
        } else {
            field.push(byte);
        }
        i += 1;
    }
    if let Some(value) = parse_field(&field) {
        numbers.push(value);
    }
    proof {
        assert(body.take(reply@.len() - 2) == body);
        assert(done.push(field@).drop_last() == done);
    }
    if numbers.len() == 2 {
        Some((numbers[0], numbers[1]))
    } else {
        None
    }
}

} // verus!
