//! The output of a process scan: one process id per line, as a decimal
//! numeral that white space may surround. Lines that hold no such numeral are
//! passed over.

use vstd::prelude::*;

verus! {

/// Whether `b` is white space: a blank, or one of the control characters from
/// the horizontal tab to the carriage return.
pub open spec fn is_space(b: u8) -> bool {
    b == 32 || (9 <= b && b <= 13)
}

/// Whether `b` is a decimal digit.
pub open spec fn is_digit(b: u8) -> bool {
    48 <= b && b <= 57
}

/// `s` without the white space at its start.
pub open spec fn trim_start(s: Seq<u8>) -> Seq<u8>
    decreases s.len(),
{
    if s.len() > 0 && is_space(s[0]) {
        trim_start(s.drop_first())
    } else {
        s
    }
}

/// `s` without the white space at its end.
pub open spec fn trim_end(s: Seq<u8>) -> Seq<u8>
    decreases s.len(),
{
    if s.len() > 0 && is_space(s.last()) {
        trim_end(s.drop_last())
    } else {
        s
    }
}

/// `s` without the white space at its start and at its end.
pub open spec fn trim(s: Seq<u8>) -> Seq<u8> {
    trim_end(trim_start(s))
}

/// Whether every byte of `s` is a decimal digit.
pub open spec fn all_digits(s: Seq<u8>) -> bool {
    forall|i: int| 0 <= i < s.len() ==> is_digit(#[trigger] s[i])
}

/// The number that the digits `s` denote.
pub open spec fn digits_value(s: Seq<u8>) -> nat
    decreases s.len(),
{
    if s.len() == 0 {
        0
    } else {
        digits_value(s.drop_last()) * 10 + (s.last() - 48) as nat
    }
}

/// The 32-bit signed integer that the numeral `s` denotes: an optional sign,
/// then at least one digit, and a value in range.
pub open spec fn numeral_value(s: Seq<u8>) -> Option<i32> {
    let negative = s.len() > 0 && s[0] == 45;
    let signed = s.len() > 0 && (s[0] == 45 || s[0] == 43);
    let digits = if signed {
        s.drop_first()
    } else {
        s
    };
    if digits.len() == 0 || !all_digits(digits) {
        None
    } else if negative {
        if digits_value(digits) <= 2147483648 {
            Some((-(digits_value(digits) as int)) as i32)
        } else {
            None
        }
    } else {
        if digits_value(digits) <= 2147483647 {
            Some(digits_value(digits) as i32)
        } else {
            None
        }
    }
}

/// The process id that the line `line` holds, if it holds one.
pub open spec fn line_pid(line: Seq<u8>) -> Option<i32> {
    numeral_value(trim(line))
}

/// The process id of a line as a sequence: empty or of one element.
pub open spec fn line_entry(line: Seq<u8>) -> Seq<i32> {
    match line_pid(line) {
        Some(pid) => seq![pid],
        None => Seq::empty(),
    }
}

/// The bytes of `bytes` after its last line feed.
pub open spec fn last_line(bytes: Seq<u8>) -> Seq<u8>
    decreases bytes.len(),
{
    if bytes.len() == 0 {
        Seq::empty()
    } else if bytes.last() == 10 {
        Seq::empty()
    } else {
        last_line(bytes.drop_last()).push(bytes.last())
    }
}

/// The process ids of the lines of `bytes` that a line feed ends, in order.
pub open spec fn ended_lines_pids(bytes: Seq<u8>) -> Seq<i32>
    decreases bytes.len(),
{
    if bytes.len() == 0 {
        Seq::empty()
    } else if bytes.last() == 10 {
        ended_lines_pids(bytes.drop_last()) + line_entry(last_line(bytes.drop_last()))
    } else {
        ended_lines_pids(bytes.drop_last())
    }
}

/// The process ids that the scan output `bytes` lists, in order: those of its
/// lines, the last of which needs no line feed.
pub open spec fn scanned_pids(bytes: Seq<u8>) -> Seq<i32> {
    ended_lines_pids(bytes) + line_entry(last_line(bytes))
}

/// More digits never denote less.
proof fn lemma_digits_value_grows(s: Seq<u8>, i: int)
    requires
        0 <= i <= s.len(),
        all_digits(s),
    ensures
        digits_value(s.take(i)) <= digits_value(s),
    decreases s.len() - i,
{
    if i < s.len() {
        lemma_digits_value_grows(s, i + 1);
        assert(s.take(i + 1).drop_last() =~= s.take(i));
        assert(is_digit(s[i]));
    } else {
        assert(s.take(i) =~= s);
    }
}

/// Whether `b` is white space.
fn space(b: u8) -> (yes: bool)
    ensures
        yes == is_space(b),
{
    b == 32 || (9 <= b && b <= 13)
}

/// The number that the digits of `bytes` from `from` to `to` denote, where
/// they are digits and the number is at most `limit`.
fn read_digits(bytes: &[u8], from: usize, to: usize, limit: u64) -> (value: Option<u64>)
    requires
        from <= to <= bytes.len(),
        limit <= 2147483648,
    ensures
        value == if all_digits(bytes@.subrange(from as int, to as int)) && digits_value(
            bytes@.subrange(from as int, to as int),
        ) <= limit {
            Some(digits_value(bytes@.subrange(from as int, to as int)) as u64)
        } else {
            None
        },
{
    let ghost s = bytes@.subrange(from as int, to as int);
    let mut acc: u64 = 0;
    let mut i: usize = from;
    while i < to
        invariant
            from <= i <= to <= bytes.len(),
            limit <= 2147483648,
            s == bytes@.subrange(from as int, to as int),
            all_digits(s.take(i - from)),
            acc == digits_value(s.take(i - from)),
            acc <= limit,
        decreases to - i,
    {
        let b = bytes[i];
        assert(s[i - from] == b);
        if b < 48 || b > 57 {
            assert(!is_digit(s[i - from]));
            return None;
        }
        assert(s.take(i - from + 1).drop_last() =~= s.take(i - from));
        assert(all_digits(s.take(i - from + 1))) by {
            assert forall|k: int| 0 <= k < i - from + 1 implies is_digit(
                #[trigger] s.take(i - from + 1)[k],
            ) by {
                if k < i - from {
                    assert(s.take(i - from)[k] == s[k]);
                }
            }
        }
        acc = acc * 10 + (b - 48) as u64;
        i += 1;
        if acc > limit {
            proof {
                if all_digits(s) {
                    lemma_digits_value_grows(s, i - from);
                }
            }
            return None;
        }
    }
    assert(s.take(i - from) =~= s);
    Some(acc)
}

/// The process id that the bytes of `bytes` from `from` to `to` hold as a
/// line.
fn read_pid(bytes: &[u8], from: usize, to: usize) -> (pid: Option<i32>)
    requires
        from <= to <= bytes.len(),
    ensures
        pid == line_pid(bytes@.subrange(from as int, to as int)),
{
    let ghost line = bytes@.subrange(from as int, to as int);
    let mut start: usize = from;
    while start < to && space(bytes[start])
        invariant
            from <= start <= to <= bytes.len(),
            trim_start(bytes@.subrange(from as int, to as int)) == trim_start(
                bytes@.subrange(start as int, to as int),
            ),
        decreases to - start,
    {
        assert(bytes@.subrange(start as int, to as int).drop_first() =~= bytes@.subrange(
            start + 1,
            to as int,
        ));
        start += 1;
    }
    let mut end: usize = to;
    while end > start && space(bytes[end - 1])
        invariant
            start <= end <= to <= bytes.len(),
            trim_end(bytes@.subrange(start as int, to as int)) == trim_end(
                bytes@.subrange(start as int, end as int),
            ),
        decreases end,
    {
        assert(bytes@.subrange(start as int, end as int).drop_last() =~= bytes@.subrange(
            start as int,
            end - 1,
        ));
        end -= 1;
    }
    let ghost text = bytes@.subrange(start as int, end as int);
    assert(trim(line) == text) by {
        assert(trim_start(line) == bytes@.subrange(start as int, to as int));
        assert(trim_end(text) == text);
    }
    if start == end {
        return None;
    }
    let first = bytes[start];
    assert(text[0] == first);
    let signed = first == 45 || first == 43;
    let digits_from = if signed {
        start + 1
    } else {
        start
    };
    assert(bytes@.subrange(digits_from as int, end as int) =~= if signed {
        text.drop_first()
    } else {
        text
    });
    if digits_from == end {
        return None;
    }
    if first == 45 {
        match read_digits(bytes, digits_from, end, 2147483648) {
            Some(value) => {
                if value == 2147483648 {
                    Some(i32::MIN)
                } else {
                    Some(-(value as i32))
                }
            },
            None => None,
        }
    } else {
        match read_digits(bytes, digits_from, end, 2147483647) {
            Some(value) => Some(value as i32),
            None => None,
        }
    }
}

/// The process ids that the scan output `scan` lists, in order.
pub fn parse_pids(scan: &[u8]) -> (pids: Vec<i32>)
    ensures
        pids@ == scanned_pids(scan@),
{
    let mut pids: Vec<i32> = Vec::new();
    let mut start: usize = 0;
    let mut i: usize = 0;
    while i < scan.len()
        invariant
            start <= i <= scan.len(),
            pids@ == ended_lines_pids(scan@.take(i as int)),
            last_line(scan@.take(i as int)) == scan@.subrange(start as int, i as int),
        decreases scan.len() - i,
    {
        proof {
            assert(scan@.take(i + 1).drop_last() =~= scan@.take(i as int));
        }
        if scan[i] == 10 {
            match read_pid(scan, start, i) {
                Some(pid) => {
                    pids.push(pid);
                },
                None => {},
            }
            start = i + 1;
        } else {
            assert(scan@.subrange(start as int, i + 1) =~= scan@.subrange(
                start as int,
                i as int,
            ).push(scan@[i as int]));
        }
        i += 1;
        assert(last_line(scan@.take(i as int)) =~= scan@.subrange(start as int, i as int));
    }
    assert(scan@.take(i as int) =~= scan@);
    match read_pid(scan, start, i) {
        Some(pid) => {
            pids.push(pid);
        },
        None => {},
    }
    pids
}

} // verus!
