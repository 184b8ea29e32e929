//! Parsing the platform's I/O memory listing to find the GPIO peripheral's
//! physical base address.
//!
//! The listing is a text of lines, each `start-end : peripheral`. The
//! first non-empty line whose peripheral name ends in `.gpio` yields the
//! address: the hexadecimal `start` of its range. A non-empty line that
//! cannot be split on a colon, or a matching line whose range has no dash,
//! is malformed; a matching start that is not a hexadecimal number fitting
//! the address type is invalid.

use vstd::prelude::*;

use crate::Error;

verus! {

/// A byte the listing treats as whitespace: space, tab, newline, return.
pub open spec fn is_ws(c: u8) -> bool {
    c == 32 || c == 9 || c == 10 || c == 13
}

/// Whether a byte the listing treats as whitespace.
pub fn is_whitespace(c: u8) -> (r: bool)
    ensures
        r == is_ws(c),
{
    c == 32 || c == 9 || c == 10 || c == 13
}

/// The first position of `target` in `data[from..end]`, or `end`.
pub open spec fn find_from(data: Seq<u8>, from: int, end: int, target: u8) -> int
    decreases end - from,
{
    if from >= end {
        end
    } else if data[from] == target {
        from
    } else {
        find_from(data, from + 1, end, target)
    }
}

/// `find_from` stays inside `[from, end]`.
pub proof fn lemma_find_from_bounds(data: Seq<u8>, from: int, end: int, target: u8)
    requires
        from <= end,
    ensures
        from <= find_from(data, from, end, target) <= end,
    decreases end - from,
{
    if from < end && data[from] != target {
        lemma_find_from_bounds(data, from + 1, end, target);
    }
}

/// The first position in `[from, end)` holding a non-whitespace byte, or `end`.
pub open spec fn skip_ws(data: Seq<u8>, from: int, end: int) -> int
    decreases end - from,
{
    if from >= end {
        from
    } else if is_ws(data[from]) {
        skip_ws(data, from + 1, end)
    } else {
        from
    }
}

/// The position after the last non-whitespace byte of `[from, end)`, or `from`.
pub open spec fn skip_ws_back(data: Seq<u8>, from: int, end: int) -> int
    decreases end - from,
{
    if end <= from {
        end
    } else if is_ws(data[end - 1]) {
        skip_ws_back(data, from, end - 1)
    } else {
        end
    }
}

/// A hexadecimal digit byte: `0-9`, `a-f` or `A-F`.
pub open spec fn is_hex_digit(c: u8) -> bool {
    (48 <= c <= 57) || (97 <= c <= 102) || (65 <= c <= 70)
}

/// The value of a hexadecimal digit byte.
pub open spec fn hex_digit_value(c: u8) -> int {
    if 48 <= c <= 57 {
        c - 48
    } else if 97 <= c <= 102 {
        c - 87
    } else {
        c - 55
    }
}

/// Whether every byte of `data[start..end]` is a hexadecimal digit.
pub open spec fn all_hex_digits(data: Seq<u8>, start: int, end: int) -> bool {
    forall|i: int| start <= i < end ==> is_hex_digit(data[i])
}

/// The number denoted by the hexadecimal digits of `data[start..end]`.
pub open spec fn hex_num(data: Seq<u8>, start: int, end: int) -> int
    decreases end - start,
{
    if end <= start {
        0
    } else {
        16 * hex_num(data, start, end - 1) + hex_digit_value(data[end - 1])
    }
}

/// Whether `data[start..end]` is a well-formed hexadecimal address: at
/// least one digit, digits only, and a value fitting the address type.
pub open spec fn hex_parse_ok(data: Seq<u8>, start: int, end: int) -> bool {
    start < end && all_hex_digits(data, start, end) && hex_num(data, start, end) <= i64::MAX
}

/// Whether the name in `data[start..end]` ends with `.gpio`.
pub open spec fn ends_with_gpio(data: Seq<u8>, start: int, end: int) -> bool {
    end - start >= 5 && data[end - 5] == 46 && data[end - 4] == 103 && data[end - 3] == 112
        && data[end - 2] == 105 && data[end - 1] == 111
}

/// What one non-empty line `data[start..end]` contributes: `None` when it
/// names no GPIO peripheral, otherwise the parsed address or the error.
pub open spec fn parse_line(data: Seq<u8>, start: int, end: int, line: int) -> Option<
    Result<i64, Error>,
> {
    let colon = find_from(data, start, end, 58);
    if colon == end {
        Some(Err(Error::MalformedIomemEntry { line: line as usize }))
    } else {
        let range_start = skip_ws(data, start, colon);
        let range_end = skip_ws_back(data, range_start, colon);
        let name_start = skip_ws(data, colon + 1, end);
        let name_end = skip_ws_back(data, name_start, end);
        if ends_with_gpio(data, name_start, name_end) {
            let dash = find_from(data, range_start, range_end, 45);
            if dash == range_end {
                Some(Err(Error::MalformedIomemEntry { line: line as usize }))
            } else if hex_parse_ok(data, range_start, dash) {
                Some(Ok(hex_num(data, range_start, dash) as i64))
            } else {
                Some(Err(Error::InvalidIomemAddress { line: line as usize }))
            }
        } else {
            None
        }
    }
}

/// Scan the listing from byte `pos` at line number `line`: the result of
/// the first non-empty line that settles it, else not-found.
pub open spec fn iomem_scan(data: Seq<u8>, pos: int, line: int) -> Result<i64, Error>
    decreases data.len() + 1 - pos,
    when 0 <= pos
    via iomem_scan_decreases
{
    if pos > data.len() {
        Err(Error::GpioPeripheralNotFound)
    } else {
        let nl = find_from(data, pos, data.len() as int, 10);
        let here = if nl == pos {
            None
        } else {
            parse_line(data, pos, nl, line)
        };
        match here {
            Some(r) => r,
            None => iomem_scan(data, nl + 1, line + 1),
        }
    }
}

#[via_fn]
proof fn iomem_scan_decreases(data: Seq<u8>, pos: int, line: int) {
    if 0 <= pos <= data.len() {
        lemma_find_from_bounds(data, pos, data.len() as int, 10);
    }
}

/// The GPIO base address the whole listing denotes, or the error.
pub open spec fn iomem_result(data: Seq<u8>) -> Result<i64, Error> {
    iomem_scan(data, 0, 0)
}

/// The first position of `target` in `data[from..end]`, or `end`.
fn find_byte(data: &[u8], from: usize, end: usize, target: u8) -> (r: usize)
    requires
        from <= end <= data@.len(),
    ensures
        r == find_from(data@, from as int, end as int, target),
        from <= r <= end,
{
    let mut i = from;
    while i < end
        invariant
            from <= i <= end <= data@.len(),
            find_from(data@, from as int, end as int, target) == find_from(
                data@,
                i as int,
                end as int,
                target,
            ),
        decreases end - i,
    {
        if data[i] == target {
            return i;
        }
        i = i + 1;
    }
    end
}

/// Trim whitespace from both ends of `data[start..end]`, as positions.
fn trim_range(data: &[u8], start: usize, end: usize) -> (r: (usize, usize))
    requires
        start <= end <= data@.len(),
    ensures
        r.0 == skip_ws(data@, start as int, end as int),
        r.1 == skip_ws_back(data@, r.0 as int, end as int),
        start <= r.0 <= r.1 <= end,
{
    let mut first = start;
    while first < end
        invariant
            start <= first <= end <= data@.len(),
            skip_ws(data@, start as int, end as int) == skip_ws(data@, first as int, end as int),
        ensures
            start <= first <= end,
            first == skip_ws(data@, start as int, end as int),
        decreases end - first,
    {
        if !is_whitespace(data[first]) {
            break;
        }
        first = first + 1;
    }
    let mut last = end;
    while last > first
        invariant
            first <= last <= end <= data@.len(),
            skip_ws_back(data@, first as int, end as int) == skip_ws_back(
                data@,
                first as int,
                last as int,
            ),
        ensures
            first <= last <= end,
            last == skip_ws_back(data@, first as int, end as int),
        decreases last - first,
    {
        if !is_whitespace(data[last - 1]) {
            break;
        }
        last = last - 1;
    }
    (first, last)
}

/// Decode one hexadecimal digit byte.
fn hex_digit(c: u8) -> (r: Option<u8>)
    ensures
        r is Some <==> is_hex_digit(c),
        r is Some ==> r->0 == hex_digit_value(c) && r->0 < 16,
{
    if 48 <= c && c <= 57 {
        Some(c - 48)
    } else if 97 <= c && c <= 102 {
        Some(c - 87)
    } else if 65 <= c && c <= 70 {
        Some(c - 55)
    } else {
        None
    }
}

/// A prefix of a hexadecimal number never exceeds the whole, digit by digit.
proof fn lemma_hex_num_mono(data: Seq<u8>, start: int, mid: int, end: int)
    requires
        start <= mid <= end,
        hex_num(data, start, mid) >= 0,
        forall|i: int| mid <= i < end ==> is_hex_digit(data[i]),
    ensures
        hex_num(data, start, end) >= hex_num(data, start, mid),
    decreases end - mid,
{
    if mid < end {
        assert(is_hex_digit(data[mid]));
        assert(hex_digit_value(data[mid]) >= 0);
        assert(hex_num(data, start, mid + 1) == 16 * hex_num(data, start, mid) + hex_digit_value(
            data[mid],
        ));
        lemma_hex_num_mono(data, start, mid + 1, end);
    }
}

/// Parse `data[start..end]` as a hexadecimal address.
fn parse_hex_address(data: &[u8], start: usize, end: usize) -> (r: Result<i64, ()>)
    requires
        start <= end <= data@.len(),
    ensures
        r is Ok <==> hex_parse_ok(data@, start as int, end as int),
        r is Ok ==> r->Ok_0 == hex_num(data@, start as int, end as int),
{
    if start >= end {
        return Err(());
    }
    let mut acc: i64 = 0;
    let mut i = start;
    while i < end
        invariant
            start <= i <= end <= data@.len(),
            all_hex_digits(data@, start as int, i as int),
            0 <= acc,
            acc == hex_num(data@, start as int, i as int),
        decreases end - i,
    {
        let d = match hex_digit(data[i]) {
            Some(d) => d,
            None => {
                return Err(());
            },
        };
        if acc > (i64::MAX - d as i64) / 16 {
            proof {
                assert(16 * acc + d > i64::MAX) by (nonlinear_arith)
                    requires
                        acc > (i64::MAX - d as i64) / 16,
                        0 <= d < 16,
                        acc >= 0,
                ;
                if all_hex_digits(data@, start as int, end as int) {
                    lemma_hex_num_mono(data@, start as int, i as int + 1, end as int);
                }
            }
            return Err(());
        }
        proof {
            assert(16 * acc + d <= i64::MAX) by (nonlinear_arith)
                requires
                    acc <= (i64::MAX - d as i64) / 16,
                    0 <= d < 16,
                    acc >= 0,
            ;
        }
        acc = acc * 16 + d as i64;
        i = i + 1;
    }
    Ok(acc)
}

/// Whether `data[start..end]` ends with the bytes of `.gpio`.
fn name_ends_with_gpio(data: &[u8], start: usize, end: usize) -> (r: bool)
    requires
        start <= end <= data@.len(),
    ensures
        r == ends_with_gpio(data@, start as int, end as int),
{
    if end - start < 5 {
        return false;
    }
    data[end - 5] == 46 && data[end - 4] == 103 && data[end - 3] == 112 && data[end - 2] == 105
        && data[end - 1] == 111
}

/// Parse one non-empty line of the listing.
fn parse_line_bytes(data: &[u8], start: usize, end: usize, line: usize) -> (r: Option<
    Result<i64, Error>,
>)
    requires
        start <= end <= data@.len(),
    ensures
        r == parse_line(data@, start as int, end as int, line as int),
{
    let colon = find_byte(data, start, end, 58);
    if colon == end {
        return Some(Err(Error::MalformedIomemEntry { line }));
    }
    let (range_start, range_end) = trim_range(data, start, colon);
    let (name_start, name_end) = trim_range(data, colon + 1, end);
    if name_ends_with_gpio(data, name_start, name_end) {
        let dash = find_byte(data, range_start, range_end, 45);
        if dash == range_end {
            Some(Err(Error::MalformedIomemEntry { line }))
        } else {
            match parse_hex_address(data, range_start, dash) {
                Ok(address) => Some(Ok(address)),
                Err(()) => Some(Err(Error::InvalidIomemAddress { line })),
            }
        }
    } else {
        None
    }
}

/// Find the GPIO peripheral's base address in the platform's I/O memory
/// listing: the hexadecimal range start of the first non-empty line whose
/// peripheral name ends in `.gpio`.
pub fn read_gpio_address(data: &[u8]) -> (r: Result<i64, Error>)
    requires
        data@.len() < usize::MAX,
    ensures
        r == iomem_result(data@),
{
    let mut pos: usize = 0;
    let mut line: usize = 0;
    while pos <= data.len()
        invariant
            data@.len() < usize::MAX,
            pos <= data@.len() + 1,
            line <= pos,
            iomem_result(data@) == iomem_scan(data@, pos as int, line as int),
        decreases data@.len() + 1 - pos,
    {
        let nl = find_byte(data, pos, data.len(), 10);
        if nl > pos {
            match parse_line_bytes(data, pos, nl, line) {
                Some(result) => {
                    return result;
                },
                None => {},
            }
        }
        pos = nl + 1;
        line = line + 1;
    }
    Err(Error::GpioPeripheralNotFound)
}

} // verus!
