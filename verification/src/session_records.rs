//! Local session records of coding assistants: reading RFC 3339 timestamps,
//! the titles and activity taken from a record's lines, which files `lsof`
//! reports open, where the records live, which record files may be moved
//! to the trash, and what a removal reports.
use vstd::prelude::*;
use vstd::string::StringSliceAdditionalSpecFns;
use crate::maven::{replace_all, replace_text};
use crate::path::{components, file_name, is_absolute, join, join_path, path_components, path_file_name};
use crate::scan_support::{dedup_texts, insert_text};
use crate::text::{
    chars_of, join_spaced, joined, last_index, lemma_last_index_is, lines, lines_of, opt_view, owned, push_char, push_str, starts_with, str_eq,
    str_starts_with, string_from, strip_prefix, strip_prefix_str, trim, trim_string, views, words,
    words_of,
};

verus! {

pub open spec fn is_digit_byte(b: u8) -> bool {
    48 <= b <= 57
}

/// The number the ASCII digits `b` spell.
pub open spec fn bytes_value(b: Seq<u8>) -> nat
    decreases b.len(),
{
    if b.len() == 0 {
        0
    } else {
        bytes_value(b.drop_last()) * 10 + (b.last() - 48) as nat
    }
}

pub open spec fn all_digit_bytes(b: Seq<u8>) -> bool {
    forall|i: int| 0 <= i < b.len() ==> is_digit_byte(#[trigger] b[i])
}

/// At least one ASCII digit and nothing else, worth at most `u32::MAX`.
pub open spec fn parse_u32_spec(b: Seq<u8>) -> Option<u32> {
    if b.len() > 0 && all_digit_bytes(b) && bytes_value(b) <= u32::MAX {
        Some(bytes_value(b) as u32)
    } else {
        None
    }
}

/// A longer run of digits is worth at least as much as its prefix.
pub proof fn lemma_bytes_value_prefix(b: Seq<u8>, k: int)
    requires
        0 <= k <= b.len(),
        all_digit_bytes(b),
    ensures
        bytes_value(b.subrange(0, k)) <= bytes_value(b),
    decreases b.len() - k,
{
    if k < b.len() {
        lemma_bytes_value_prefix(b, k + 1);
        let t = b.subrange(0, k + 1);
        assert(t.drop_last() == b.subrange(0, k));
    } else {
        assert(b.subrange(0, k) == b);
    }
}

/// Reads an unsigned decimal number made of ASCII digits only.
pub fn parse_u32(bytes: &[u8]) -> (r: Option<u32>)
    ensures
        r == parse_u32_spec(bytes@),
{
    if bytes.len() == 0 {
        return None;
    }
    let mut i: usize = 0;
    while i < bytes.len()
        invariant
            i <= bytes@.len(),
            forall|j: int| 0 <= j < i ==> is_digit_byte(#[trigger] bytes@[j]),
        decreases bytes@.len() - i,
    {
        if bytes[i] < 48 || bytes[i] > 57 {
            return None;
        }
        i = i + 1;
    }
    let mut value: u64 = 0;
    let mut k: usize = 0;
    assert(bytes@.subrange(0, 0) =~= Seq::<u8>::empty());
    while k < bytes.len()
        invariant
            k <= bytes@.len(),
            all_digit_bytes(bytes@),
            value as nat == bytes_value(bytes@.subrange(0, k as int)),
            value <= u32::MAX,
        decreases bytes@.len() - k,
    {
        let ghost t = bytes@.subrange(0, k + 1);
        assert(t.drop_last() =~= bytes@.subrange(0, k as int));
        assert(t.last() == bytes@[k as int]);
        value = value * 10 + (bytes[k] - 48) as u64;
        if value > 4294967295 {
            proof {
                lemma_bytes_value_prefix(bytes@, (k + 1) as int);
            }
            return None;
        }
        k = k + 1;
    }
    assert(bytes@.subrange(0, bytes@.len() as int) =~= bytes@);
    Some(value as u32)
}

pub open spec fn pow10(n: nat) -> nat
    decreases n,
{
    if n == 0 {
        1
    } else {
        10 * pow10((n - 1) as nat)
    }
}

pub open spec fn chars_value(s: Seq<char>) -> nat
    decreases s.len(),
{
    if s.len() == 0 {
        0
    } else {
        chars_value(s.drop_last()) * 10 + ((s.last() as u32) - 48) as nat
    }
}

/// The first three characters (all of them when fewer).
pub open spec fn leading_three(f: Seq<char>) -> Seq<char> {
    if f.len() <= 3 {
        f
    } else {
        f.subrange(0, 3)
    }
}

/// Milliseconds of a fraction of a second: its first three characters,
/// each an ASCII digit, padded with zeros to three digits.
pub open spec fn fraction_millis_spec(f: Seq<char>) -> Option<u32> {
    let t = leading_three(f);
    if crate::text::all_digits(t) {
        Some((chars_value(t) * pow10((3 - t.len()) as nat)) as u32)
    } else {
        None
    }
}

/// Milliseconds of the digits after a decimal point.
pub fn fraction_millis(fraction: &str) -> (r: Option<u32>)
    ensures
        r == fraction_millis_spec(fraction@),
{
    let cs = crate::text::chars_of(fraction);
    let n: usize = if cs.len() <= 3 {
        cs.len()
    } else {
        3
    };
    let ghost t = leading_three(cs@);
    assert(t.len() == n);
    proof {
        reveal_with_fuel(pow10, 4);
        assert(pow10(0) == 1 && pow10(1) == 10 && pow10(2) == 100 && pow10(3) == 1000);
    }
    let mut value: u32 = 0;
    let mut i: usize = 0;
    assert(t.subrange(0, 0) =~= Seq::<char>::empty());
    while i < n
        invariant
            i <= n <= 3,
            n == t.len(),
            n <= cs@.len(),
            cs@ == fraction@,
            t == leading_three(fraction@),
            pow10(0) == 1 && pow10(1) == 10 && pow10(2) == 100 && pow10(3) == 1000,
            forall|j: int| 0 <= j < n ==> t[j] == cs@[j],
            forall|j: int| 0 <= j < i ==> crate::text::is_ascii_digit(#[trigger] t[j]),
            value as nat == chars_value(t.subrange(0, i as int)),
            value < pow10(i as nat),
        decreases n - i,
    {
        let c = cs[i];
        if !('0' <= c && c <= '9') {
            assert(!crate::text::is_ascii_digit(t[i as int]));
            assert(!crate::text::all_digits(t));
            return None;
        }
        let ghost s = t.subrange(0, i + 1);
        assert(s.drop_last() =~= t.subrange(0, i as int));
        assert(s.last() == c);
        assert(value < 100);
        value = value * 10 + ((c as u32) - 48);
        i = i + 1;
    }
    assert(t.subrange(0, n as int) =~= t);
    assert(crate::text::all_digits(t));
    let mut k = n;
    assert(value as nat == chars_value(t) * pow10(0));
    while k < 3
        invariant
            n <= k <= 3,
            value as nat == chars_value(t) * pow10((k - n) as nat),
            value < pow10(k as nat),
            pow10(0) == 1 && pow10(1) == 10 && pow10(2) == 100 && pow10(3) == 1000,
        decreases 3 - k,
    {
        let ghost e = (k - n) as nat;
        assert(pow10(e + 1) == 10 * pow10(e));
        assert(pow10((k + 1) as nat) == 10 * pow10(k as nat));
        assert(value * 10 == chars_value(t) * pow10(e + 1)) by (nonlinear_arith)
            requires
                value as nat == chars_value(t) * pow10(e),
                pow10(e + 1) == 10 * pow10(e),
        ;
        value = value * 10;
        k = k + 1;
    }
    Some(value)
}

/// A UTC offset: `Z` (either case), or a sign, two digits of hours (at
/// most 23), `:` and two digits of minutes (at most 59), in seconds.
pub open spec fn offset_spec(b: Seq<u8>) -> Option<int> {
    if b == seq![90u8] || b == seq![122u8] {
        Some(0)
    } else if b.len() != 6 || b[3] != 58 {
        None
    } else if b[0] != 43 && b[0] != 45 {
        None
    } else {
        match (parse_u32_spec(b.subrange(1, 3)), parse_u32_spec(b.subrange(4, 6))) {
            (Some(h), Some(m)) => if h > 23 || m > 59 {
                None
            } else {
                Some((if b[0] == 43 { 1int } else { -1int }) * (h * 3600 + m * 60))
            },
            _ => None,
        }
    }
}

/// Reads a UTC offset in seconds.
pub fn parse_offset(bytes: &[u8]) -> (r: Option<i64>)
    ensures
        match offset_spec(bytes@) {
            Some(v) => r == Some(v as i64),
            None => r is None,
        },
{
    if bytes.len() == 1 && (bytes[0] == 90 || bytes[0] == 122) {
        assert(bytes@ == seq![bytes@[0]]);
        return Some(0);
    }
    proof {
        if bytes@ == seq![90u8] || bytes@ == seq![122u8] {
            assert(bytes@.len() == 1);
        }
    }
    if bytes.len() != 6 || bytes[3] != 58 {
        return None;
    }
    let sign: i64 = if bytes[0] == 43 {
        1
    } else if bytes[0] == 45 {
        -1
    } else {
        return None;
    };
    let hours = match parse_u32(slice_of(bytes, 1, 3).as_slice()) {
        Some(h) => h,
        None => return None,
    };
    let minutes = match parse_u32(slice_of(bytes, 4, 6).as_slice()) {
        Some(m) => m,
        None => return None,
    };
    if hours > 23 || minutes > 59 {
        return None;
    }
    Some(sign * ((hours as i64) * 3600 + (minutes as i64) * 60))
}

/// The bytes `lo..hi` of `bytes`, copied.
pub fn slice_of(bytes: &[u8], lo: usize, hi: usize) -> (r: Vec<u8>)
    requires
        lo <= hi <= bytes@.len(),
    ensures
        r@ == bytes@.subrange(lo as int, hi as int),
{
    let mut r: Vec<u8> = Vec::new();
    let mut i = lo;
    while i < hi
        invariant
            lo <= i <= hi <= bytes@.len(),
            r@ == bytes@.subrange(lo as int, i as int),
        decreases hi - i,
    {
        r.push(bytes[i]);
        assert(r@ =~= bytes@.subrange(lo as int, i + 1));
        i = i + 1;
    }
    r
}

/// Days from 1970-01-01 to a proleptic Gregorian date (the civil-from-days
/// inverse: years begin in March, eras span 400 years).
pub open spec fn days_from_civil_spec(year: int, month: int, day: int) -> int {
    let y = if month <= 2 {
        year - 1
    } else {
        year
    };
    let era = if y >= 0 {
        y / 400
    } else {
        (y - 399) / 400
    };
    let yoe = y - era * 400;
    let mp = if month > 2 {
        month - 3
    } else {
        month + 9
    };
    let doy = (153 * mp + 2) / 5 + day - 1;
    let doe = yoe * 365 + yoe / 4 - yoe / 100 + doy;
    era * 146097 + doe - 719468
}

/// Days from 1970-01-01 to a date; nothing when a part does not fit in an
/// `i32`.
pub fn days_from_civil(year: u32, month: u32, day: u32) -> (r: Option<i64>)
    requires
        !(month == 3 && day == 0),
    ensures
        r == if year <= i32::MAX && month <= i32::MAX && day <= i32::MAX {
            Some(days_from_civil_spec(year as int, month as int, day as int) as i64)
        } else {
            None::<i64>
        },
        year <= i32::MAX && month <= i32::MAX && day <= i32::MAX ==> i64::MIN <= days_from_civil_spec(
            year as int,
            month as int,
            day as int,
        ) <= i64::MAX,
{
    if year > 2147483647 || month > 2147483647 || day > 2147483647 {
        return None;
    }
    let year = year as i64;
    let month = month as i64;
    let day = day as i64;
    let y: i64 = if month <= 2 {
        year - 1
    } else {
        year
    };
    let era: i64 = if y >= 0 {
        y / 400
    } else {
        assert(y == -1);
        assert((y - 399) / 400 == -1);
        -1
    };
    let yoe: i64 = y - era * 400;
    assert(0 <= yoe < 400);
    let mp: i64 = if month > 2 {
        month - 3
    } else {
        month + 9
    };
    let doy: i64 = (153 * mp + 2) / 5 + day - 1;
    let doe: i64 = yoe * 365 + yoe / 4 - yoe / 100 + doy;
    Some(era * 146097 + doe - 719468)
}

/// The index just after the run of ASCII digits that starts at `i`.
pub open spec fn digit_run_end(b: Seq<u8>, i: int) -> int
    decreases b.len() - i,
{
    if 0 <= i < b.len() && is_digit_byte(b[i]) {
        digit_run_end(b, i + 1)
    } else {
        i
    }
}

pub proof fn lemma_digit_run_end(b: Seq<u8>, i: int)
    requires
        0 <= i <= b.len(),
    ensures
        i <= digit_run_end(b, i) <= b.len(),
        forall|j: int| i <= j < digit_run_end(b, i) ==> is_digit_byte(#[trigger] b[j]),
        digit_run_end(b, i) < b.len() ==> !is_digit_byte(b[digit_run_end(b, i)]),
    decreases b.len() - i,
{
    if i < b.len() && is_digit_byte(b[i]) {
        lemma_digit_run_end(b, i + 1);
    }
}

/// Bytes of ASCII text as its characters.
pub open spec fn byte_chars(b: Seq<u8>) -> Seq<char> {
    b.map_values(|x: u8| x as char)
}

/// Where the seconds end and the offset begins, and the milliseconds: a
/// `.` after the seconds must be followed by at least one digit.
pub open spec fn fraction_part(b: Seq<u8>) -> Option<(int, u32)> {
    if b[19] == 46 {
        let end = digit_run_end(b, 20);
        if end == 20 {
            None
        } else {
            match fraction_millis_spec(byte_chars(b.subrange(20, end))) {
                Some(ms) => Some((end, ms)),
                None => None,
            }
        }
    } else {
        Some((19, 0u32))
    }
}

/// An RFC 3339 timestamp `YYYY-MM-DDTHH:MM:SS[.fraction](Z|±HH:MM)` in
/// milliseconds since the epoch (`T` in either case; seconds up to 60).
pub open spec fn rfc3339_spec(b: Seq<u8>) -> Option<int> {
    if b.len() < 20 || b[4] != 45 || b[7] != 45 || (b[10] != 84 && b[10] != 116) || b[13] != 58
        || b[16] != 58 {
        None
    } else {
        match (
            parse_u32_spec(b.subrange(0, 4)),
            parse_u32_spec(b.subrange(5, 7)),
            parse_u32_spec(b.subrange(8, 10)),
            parse_u32_spec(b.subrange(11, 13)),
            parse_u32_spec(b.subrange(14, 16)),
            parse_u32_spec(b.subrange(17, 19)),
            fraction_part(b),
        ) {
            (Some(year), Some(month), Some(day), Some(hour), Some(minute), Some(second), Some(
                (index, millis),
            )) => match offset_spec(b.subrange(index, b.len() as int)) {
                None => None,
                Some(offset) => if hour > 23 || minute > 59 || second > 60 || month < 1 || month > 12
                    || day < 1 || day > 31 {
                    None
                } else {
                    Some(
                        (days_from_civil_spec(year as int, month as int, day as int) * 86400 + hour
                            * 3600 + minute * 60 + second - offset) * 1000 + millis,
                    )
                },
            },
            _ => None,
        }
    }
}

/// Milliseconds since the epoch of an RFC 3339 timestamp.
pub fn parse_rfc3339_millis(value: &str) -> (r: Option<i64>)
    ensures
        match rfc3339_spec(value.spec_bytes()) {
            Some(v) => r == Some(v as i64) && i64::MIN <= v <= i64::MAX,
            None => r is None,
        },
{
    let bytes = value.as_bytes();
    let ghost b = bytes@;
    if bytes.len() < 20 {
        return None;
    }
    let year = match parse_u32(slice_of(bytes, 0, 4).as_slice()) {
        Some(v) => v,
        None => return None,
    };
    if bytes[4] != 45 || bytes[7] != 45 || (bytes[10] != 84 && bytes[10] != 116) {
        return None;
    }
    let month = match parse_u32(slice_of(bytes, 5, 7).as_slice()) {
        Some(v) => v,
        None => return None,
    };
    let day = match parse_u32(slice_of(bytes, 8, 10).as_slice()) {
        Some(v) => v,
        None => return None,
    };
    if bytes[13] != 58 || bytes[16] != 58 {
        return None;
    }
    let hour = match parse_u32(slice_of(bytes, 11, 13).as_slice()) {
        Some(v) => v,
        None => return None,
    };
    let minute = match parse_u32(slice_of(bytes, 14, 16).as_slice()) {
        Some(v) => v,
        None => return None,
    };
    let second = match parse_u32(slice_of(bytes, 17, 19).as_slice()) {
        Some(v) => v,
        None => return None,
    };
    let mut index: usize = 19;
    let mut millis: u32 = 0;
    if bytes[index] == 46 {
        index = index + 1;
        let start = index;
        while index < bytes.len() && 48 <= bytes[index] && bytes[index] <= 57
            invariant
                20 <= start <= index <= bytes@.len(),
                start == 20,
                digit_run_end(b, start as int) == digit_run_end(b, index as int),
                b == bytes@,
            decreases bytes@.len() - index,
        {
            index = index + 1;
        }
        if index == start {
            return None;
        }
        proof {
            lemma_digit_run_end(b, 20);
        }
        let mut fraction = String::new();
        let mut k = start;
        while k < index
            invariant
                start <= k <= index <= bytes@.len(),
                b == bytes@,
                fraction@ == byte_chars(b.subrange(start as int, k as int)),
            decreases index - k,
        {
            crate::text::push_char(&mut fraction, bytes[k] as char);
            assert(byte_chars(b.subrange(start as int, k + 1)) =~= byte_chars(b.subrange(start as int, k as int)).push(
                bytes[k as int] as char,
            ));
            k = k + 1;
        }
        millis = match fraction_millis(fraction.as_str()) {
            Some(m) => m,
            None => return None,
        };
    }
    let offset = match parse_offset(slice_of(bytes, index, bytes.len()).as_slice()) {
        Some(o) => o,
        None => return None,
    };
    if hour > 23 || minute > 59 || second > 60 || month < 1 || month > 12 || day < 1 || day > 31 {
        return None;
    }
    proof {
        lemma_offset_bounds(slice_of_spec(b, index as int));
        assert(year <= 9999) by {
            lemma_bytes_value_bound4(b.subrange(0, 4));
        }
        lemma_days_bounds(year as int, month as int, day as int);
    }
    let days = match days_from_civil(year, month, day) {
        Some(d) => d,
        None => return None,
    };
    Some((days * 86400 + (hour as i64) * 3600 + (minute as i64) * 60 + (second as i64) - offset) * 1000
        + (millis as i64))
}

pub open spec fn slice_of_spec(b: Seq<u8>, i: int) -> Seq<u8> {
    b.subrange(i, b.len() as int)
}

/// An offset lies within a day.
pub proof fn lemma_offset_bounds(b: Seq<u8>)
    ensures
        offset_spec(b) matches Some(v) ==> -86400 <= v <= 86400,
{
    if !(b == seq![90u8] || b == seq![122u8]) && b.len() == 6 && b[3] == 58 && (b[0] == 43 || b[0] == 45) {
        match (parse_u32_spec(b.subrange(1, 3)), parse_u32_spec(b.subrange(4, 6))) {
            (Some(h), Some(m)) => {
                if h <= 23 && m <= 59 {
                    let x: int = h * 3600 + m * 60;
                    assert(0 <= x <= 86340);
                    if b[0] == 43 {
                        assert(1int * x == x);
                    } else {
                        assert(-1int * x == -x);
                    }
                }
            },
            _ => {},
        }
    }
}

/// Four digits are worth at most 9999.
pub proof fn lemma_bytes_value_bound4(b: Seq<u8>)
    requires
        b.len() == 4,
        all_digit_bytes(b),
    ensures
        bytes_value(b) <= 9999,
{
    let b3 = b.drop_last();
    let b2 = b3.drop_last();
    let b1 = b2.drop_last();
    let b0 = b1.drop_last();
    assert(b0.len() == 0);
    assert(b1.last() == b[0]);
    assert(b2.last() == b[1]);
    assert(b3.last() == b[2]);
    assert(b.last() == b[3]);
    assert(is_digit_byte(b[0]) && is_digit_byte(b[1]) && is_digit_byte(b[2]) && is_digit_byte(b[3]));
    assert(bytes_value(b0) == 0);
    assert(bytes_value(b1) <= 9);
    assert(bytes_value(b2) <= 99);
    assert(bytes_value(b3) <= 999);
}

/// The days of a date of a four-digit year lie well within range.
pub proof fn lemma_days_bounds(year: int, month: int, day: int)
    requires
        0 <= year <= 9999,
        1 <= month <= 12,
        1 <= day <= 31,
    ensures
        -800000 <= days_from_civil_spec(year, month, day) <= 3000000,
{
}

/// The longest title kept, in characters.
pub const TITLE_LIMIT: usize = 140;

/// The first `limit` characters, with `...` when something was cut.
pub open spec fn truncated(text: Seq<char>, limit: nat) -> Seq<char> {
    if text.len() > limit {
        text.subrange(0, limit as int) + "..."@
    } else {
        text
    }
}

/// Keeps at most `limit` characters, marking a cut with `...`.
pub fn truncate_chars(text: &str, limit: usize) -> (r: String)
    ensures
        r@ == truncated(text@, limit as nat),
{
    let cs = chars_of(text);
    if cs.len() > limit {
        let mut r = string_from(&cs, 0, limit);
        push_str(&mut r, "...");
        r
    } else {
        assert(cs@.subrange(0, cs@.len() as int) =~= cs@);
        string_from(&cs, 0, cs.len())
    }
}

/// The words of a text joined by single spaces.
pub open spec fn compact(text: Seq<char>) -> Seq<char> {
    joined(words(text), seq![' '])
}

/// A text's words joined by single spaces.
pub fn compact_whitespace(text: &str) -> (r: String)
    ensures
        r@ == compact(text@),
{
    let parts = words_of(text);
    join_spaced(parts.as_slice())
}

/// The prefixes of what a user did not type: command echoes, tool output
/// and notices.
pub open spec fn machine_prefix(t: Seq<char>) -> bool {
    ||| starts_with(t, "<command-name>"@)
    ||| starts_with(t, "<command-message>"@)
    ||| starts_with(t, "<local-command"@)
    ||| starts_with(t, "<bash-"@)
    ||| starts_with(t, "<system-reminder"@)
    ||| starts_with(t, "Caveat:"@)
    ||| starts_with(t, "[Request interrupted"@)
}

/// Whether a message is something a person typed: not blank, and not
/// starting as a command echo, tool output or notice.
pub fn is_human_prompt(text: &str) -> (r: bool)
    ensures
        r == (trim(text@).len() > 0 && !machine_prefix(trim(text@))),
{
    let t = trim_string(text);
    let s = t.as_str();
    if s.is_empty() {
        return false;
    }
    !(str_starts_with(s, "<command-name>") || str_starts_with(s, "<command-message>")
        || str_starts_with(s, "<local-command") || str_starts_with(s, "<bash-")
        || str_starts_with(s, "<system-reminder") || str_starts_with(s, "Caveat:")
        || str_starts_with(s, "[Request interrupted"))
}

/// What is read from a record file: a title, the working directory and the
/// latest activity.
#[derive(Debug, Clone)]
pub struct ParsedSession {
    pub title: Option<String>,
    pub working_directory: Option<String>,
    pub last_activity_ms: Option<i64>,
}

/// The latest activity after a timestamp is seen: the later of the two when
/// it parses, else unchanged.
pub open spec fn with_timestamp(current: Option<i64>, value: Option<Seq<u8>>) -> Option<i64> {
    match value {
        None => current,
        Some(b) => match rfc3339_spec(b) {
            None => current,
            Some(ms) => match current {
                Some(c) => if c >= ms {
                    Some(c)
                } else {
                    Some(ms as i64)
                },
                None => Some(ms as i64),
            },
        },
    }
}

/// Takes a timestamp into account.
pub fn note_timestamp(parsed: &mut ParsedSession, value: Option<&str>)
    ensures
        final(parsed).last_activity_ms == with_timestamp(
            old(parsed).last_activity_ms,
            match value {
                Some(v) => Some(v.spec_bytes()),
                None => None,
            },
        ),
        final(parsed).title == old(parsed).title,
        final(parsed).working_directory == old(parsed).working_directory,
{
    let v = match value {
        Some(v) => v,
        None => return,
    };
    let millis = match parse_rfc3339_millis(v) {
        Some(m) => m,
        None => return,
    };
    parsed.last_activity_ms = match parsed.last_activity_ms {
        Some(current) => if current >= millis {
            Some(current)
        } else {
            Some(millis)
        },
        None => Some(millis),
    };
}

/// The title a user message gives, when none was found before: its words
/// joined by spaces and cut to the title limit, unless empty or an injected
/// context block.
pub open spec fn with_user_title(title: Option<String>, text: Option<String>) -> Option<Seq<char>> {
    match title {
        Some(t) => Some(t@),
        None => match text {
            None => None,
            Some(x) => {
                let c = compact(x@);
                if c.len() == 0 || starts_with(c, "<environment_context"@) || starts_with(c, "<skill>"@) {
                    None
                } else {
                    Some(truncated(c, 140))
                }
            },
        },
    }
}

/// Takes a user message into account for the title.
pub fn note_user_title(parsed: &mut ParsedSession, text: Option<String>)
    ensures
        opt_view(final(parsed).title) == with_user_title(old(parsed).title, text),
        old(parsed).title is Some ==> final(parsed).title == old(parsed).title,
        final(parsed).last_activity_ms == old(parsed).last_activity_ms,
        final(parsed).working_directory == old(parsed).working_directory,
{
    if parsed.title.is_some() {
        return;
    }
    let t = match text {
        Some(t) => t,
        None => return,
    };
    let c = compact_whitespace(t.as_str());
    if c.as_str().is_empty() || str_starts_with(c.as_str(), "<environment_context") || str_starts_with(
        c.as_str(),
        "<skill>",
    ) {
        return;
    }
    parsed.title = Some(truncate_chars(c.as_str(), TITLE_LIMIT));
}

/// The name `lsof -Fn` gives on a line: what follows a leading `n`, when
/// not empty.
pub open spec fn lsof_name(line: Seq<char>) -> Option<Seq<char>> {
    match strip_prefix(line, "n"@) {
        Some(p) => if p.len() > 0 {
            Some(p)
        } else {
            None
        },
        None => None,
    }
}

pub open spec fn lsof_names(ls: Seq<Seq<char>>) -> Seq<Seq<char>>
    decreases ls.len(),
{
    if ls.len() == 0 {
        seq![]
    } else {
        let prior = lsof_names(ls.drop_last());
        match lsof_name(ls.last()) {
            Some(p) => prior.push(p),
            None => prior,
        }
    }
}

/// The paths `lsof -Fn` reports open, each once.
pub fn parse_lsof_paths(output: &str) -> (r: Vec<String>)
    ensures
        views(r@) == dedup_texts(lsof_names(lines(output@))),
{
    let ls = lines_of(output);
    let ghost lv = lines(output@);
    let mut r: Vec<String> = Vec::new();
    let mut i: usize = 0;
    assert(lv.subrange(0, 0) =~= Seq::<Seq<char>>::empty());
    while i < ls.len()
        invariant
            i <= ls@.len(),
            views(ls@) == lv,
            views(r@) == dedup_texts(lsof_names(lv.subrange(0, i as int))),
        decreases ls@.len() - i,
    {
        let ghost next = lv.subrange(0, i + 1);
        assert(next.drop_last() =~= lv.subrange(0, i as int));
        assert(next.last() == ls@[i as int]@);
        proof {
            reveal_strlit("n");
        }
        match strip_prefix_str(ls[i].as_str(), "n") {
            Some(p) => {
                if !p.as_str().is_empty() {
                    let ghost prior = lsof_names(lv.subrange(0, i as int));
                    assert(lsof_names(next) == prior.push(p@));
                    assert(prior.push(p@).drop_last() =~= prior);
                    insert_text(&mut r, p);
                }
            },
            None => {},
        }
        i = i + 1;
    }
    assert(lv.subrange(0, lv.len() as int) =~= lv);
    r
}

/// Where Codex keeps its sessions: `sessions` under `CODEX_HOME` when set,
/// else under `~/.codex`.
pub fn sessions_dir_from(codex_home: Option<&str>, user_home: &str) -> (r: String)
    ensures
        r@ == match codex_home {
            Some(h) => join_path(h@, "sessions"@),
            None => join_path(join_path(user_home@, ".codex"@), "sessions"@),
        },
{
    match codex_home {
        Some(h) => join(h, "sessions"),
        None => {
            let base = join(user_home, ".codex");
            join(base.as_str(), "sessions")
        },
    }
}

/// A directory named by an environment variable: unset or empty names
/// none; otherwise it must be an absolute path.
pub open spec fn setting_spec(value: Option<Seq<char>>) -> Option<Result<Seq<char>, ()>> {
    match value {
        None => None,
        Some(v) => if v.len() == 0 {
            None
        } else if is_absolute(v) {
            Some(Ok(v))
        } else {
            Some(Err(()))
        },
    }
}

/// Whether an environment value names a directory, and whether it is
/// absolute: `None` when unset or empty, `Some(Ok(dir))` for an absolute
/// path, `Some(Err(()))` for a relative one.
pub fn directory_setting(value: Option<&str>) -> (r: Option<Result<String, ()>>)
    ensures
        match (r, setting_spec(crate::cargo::opt_str_view(value))) {
            (None, None) => true,
            (Some(Ok(d)), Some(Ok(e))) => d@ == e,
            (Some(Err(_)), Some(Err(_))) => true,
            _ => false,
        },
{
    match value {
        None => None,
        Some(v) => {
            let cs = chars_of(v);
            if cs.len() == 0 {
                None
            } else if cs[0] == '/' {
                Some(Ok(owned(v)))
            } else {
                Some(Err(()))
            }
        },
    }
}

/// Where Codex keeps its sessions, from the values of `CODEX_HOME` and
/// `HOME`: `sessions` under an absolute `CODEX_HOME`; a relative one is
/// refused; otherwise `~/.codex/sessions`, when `HOME` is absolute.
pub fn codex_sessions_dir_from_env(codex_home: Option<&str>, home: Option<&str>) -> (r: Result<String, String>)
    ensures
        match setting_spec(crate::cargo::opt_str_view(codex_home)) {
            Some(Ok(h)) => r matches Ok(d) && d@ == join_path(h, "sessions"@),
            Some(Err(_)) => r matches Err(m) && m@ == "CODEX_HOME 必须是绝对路径"@,
            None => match home {
                Some(h) => if is_absolute(h@) {
                    r matches Ok(d) && d@ == join_path(join_path(h@, ".codex"@), "sessions"@)
                } else {
                    r matches Err(m) && m@ == "无法确定当前用户的主目录"@
                },
                None => r matches Err(m) && m@ == "无法确定当前用户的主目录"@,
            },
        },
{
    match directory_setting(codex_home) {
        Some(Ok(h)) => return Ok(sessions_dir_from(Some(h.as_str()), "")),
        Some(Err(())) => return Err(owned("CODEX_HOME 必须是绝对路径")),
        None => {},
    }
    match home {
        Some(h) => {
            let cs = chars_of(h);
            if cs.len() > 0 && cs[0] == '/' {
                Ok(sessions_dir_from(None, h))
            } else {
                Err(owned("无法确定当前用户的主目录"))
            }
        },
        None => Err(owned("无法确定当前用户的主目录")),
    }
}

/// The projects directory that the configuration-directory variable (its
/// value given as `config_dir`) names: `projects` under an absolute
/// directory; a relative one is refused; `None` when it is unset or empty.
pub fn configured_projects_dir(config_dir: Option<&str>) -> (r: Option<Result<String, String>>)
    ensures
        match setting_spec(crate::cargo::opt_str_view(config_dir)) {
            Some(Ok(d)) => r matches Some(Ok(p)) && p@ == join_path(d, "projects"@),
            Some(Err(_)) => r matches Some(Err(m)) && m@ == "CLAUDE_CONFIG_DIR 必须是绝对路径"@,
            None => r is None,
        },
{
    proof {
        reveal_strlit("CLAUDE_CONFIG_DIR 必须是绝对路径");
    }
    match directory_setting(config_dir) {
        Some(Ok(d)) => Some(Ok(join(d.as_str(), "projects"))),
        Some(Err(())) => Some(Err(owned("CLAUDE_CONFIG_DIR 必须是绝对路径"))),
        None => None,
    }
}

/// A value quoted for AppleScript: backslashes doubled, then quotes escaped,
/// inside double quotes.
pub open spec fn apple_script_spec(value: Seq<char>) -> Seq<char> {
    seq!['"'] + replace_all(replace_all(value, seq!['\\'], seq!['\\', '\\']), seq!['"'], seq!['\\', '"'])
        + seq!['"']
}

/// Quotes a value for an AppleScript string literal.
pub fn apple_script_string(value: &str) -> (r: String)
    ensures
        r@ == apple_script_spec(value@),
{
    let mut backslash = String::new();
    push_char(&mut backslash, '\\');
    let mut doubled = String::new();
    push_char(&mut doubled, '\\');
    push_char(&mut doubled, '\\');
    let mut quote = String::new();
    push_char(&mut quote, '"');
    let mut escaped_quote = String::new();
    push_char(&mut escaped_quote, '\\');
    push_char(&mut escaped_quote, '"');
    assert(backslash@ =~= seq!['\\']);
    assert(doubled@ =~= seq!['\\', '\\']);
    assert(quote@ =~= seq!['"']);
    assert(escaped_quote@ =~= seq!['\\', '"']);
    let first = replace_text(value, backslash.as_str(), doubled.as_str());
    let second = replace_text(first.as_str(), quote.as_str(), escaped_quote.as_str());
    let mut r = String::new();
    push_char(&mut r, '"');
    push_str(&mut r, second.as_str());
    push_char(&mut r, '"');
    assert(r@ =~= seq!['"'] + second@ + seq!['"']);
    r
}

/// How a source of records was found.
#[derive(Debug, Clone, Copy, PartialEq, Eq, Structural)]
pub enum SessionScanStatus {
    Ready,
    Partial,
    Missing,
    Failed,
}

/// One record file.
#[derive(Debug, Clone)]
pub struct SessionRecord {
    pub id: String,
    pub title: String,
    pub last_activity_ms: Option<i64>,
    pub working_directory: Option<String>,
    pub bytes: u64,
    pub in_use: bool,
}

/// The records of one source.
#[derive(Debug, Clone)]
pub struct SessionSourceScan {
    pub directory: String,
    pub status: SessionScanStatus,
    pub records: Vec<SessionRecord>,
    pub message: Option<String>,
}

/// The records of both sources.
#[derive(Debug, Clone)]
pub struct SessionRecordScan {
    pub codex: SessionSourceScan,
    pub claude: SessionSourceScan,
}

/// The two kinds of record files.
#[derive(Debug, Clone, Copy, PartialEq, Eq, Structural)]
pub enum RecordFormat {
    Codex,
    Claude,
}

/// Which assistant's records a request is about.
#[derive(Debug, Clone, Copy, PartialEq, Eq, Structural)]
pub enum SessionSourceKind {
    Codex,
    Claude,
}

/// What a removal did.
#[derive(Debug, Clone)]
pub struct SessionRemovalResult {
    pub moved: u32,
    pub failed: u32,
    pub message: Option<String>,
}

/// A source that could not be listed.
pub fn failed_source(directory: String, message: String) -> (r: SessionSourceScan)
    ensures
        r.directory == directory,
        r.status == SessionScanStatus::Failed,
        r.records@.len() == 0,
        r.message == Some(message),
{
    SessionSourceScan { directory, status: SessionScanStatus::Failed, records: Vec::new(), message: Some(message) }
}

/// `list` answered `out` for the directory and format.
pub open spec fn listed<L: Fn(&str, RecordFormat) -> Result<SessionSourceScan, String>>(
    list: L,
    directory: Seq<char>,
    format: RecordFormat,
    out: Result<SessionSourceScan, String>,
) -> bool {
    exists|d: &str| d@ == directory && #[trigger] list.ensures((d, format), out)
}

/// The records of a directory, or a failed source that says why not.
pub fn source_or_failure<L: Fn(&str, RecordFormat) -> Result<SessionSourceScan, String>>(
    directory: &str,
    list: &L,
    format: RecordFormat,
) -> (r: SessionSourceScan)
    requires
        forall|d: &str, f: RecordFormat| list.requires((d, f)),
    ensures
        exists|out: Result<SessionSourceScan, String>|
            #[trigger] listed(*list, directory@, format, out) && match out {
                Ok(scan) => r == scan,
                Err(m) => r.directory@ == directory@ && r.status == SessionScanStatus::Failed
                    && r.records@.len() == 0 && r.message == Some(m),
            },
{
    let out = list(directory, format);
    assert(listed(*list, directory@, format, out));
    match out {
        Ok(scan) => scan,
        Err(message) => failed_source(owned(directory), message),
    }
}

/// The records of both sources, each failing on its own.
pub fn list_session_sources<L: Fn(&str, RecordFormat) -> Result<SessionSourceScan, String>>(
    codex_dir: &str,
    claude_dir: &str,
    list: &L,
) -> (r: SessionRecordScan)
    requires
        forall|d: &str, f: RecordFormat| list.requires((d, f)),
    ensures
        exists|out: Result<SessionSourceScan, String>|
            #[trigger] listed(*list, codex_dir@, RecordFormat::Codex, out) && match out {
                Ok(scan) => r.codex == scan,
                Err(m) => r.codex.status == SessionScanStatus::Failed && r.codex.message == Some(m),
            },
        exists|out: Result<SessionSourceScan, String>|
            #[trigger] listed(*list, claude_dir@, RecordFormat::Claude, out) && match out {
                Ok(scan) => r.claude == scan,
                Err(m) => r.claude.status == SessionScanStatus::Failed && r.claude.message == Some(m),
            },
{
    SessionRecordScan {
        codex: source_or_failure(codex_dir, list, RecordFormat::Codex),
        claude: source_or_failure(claude_dir, list, RecordFormat::Claude),
    }
}

/// `PathBuf::pop`: the last component goes, except from the root alone or
/// from nothing.
pub open spec fn pop_component(acc: Seq<Seq<char>>) -> Seq<Seq<char>> {
    if acc.len() == 0 || acc == seq![seq!['/']] {
        acc
    } else {
        acc.drop_last()
    }
}

/// The components of a path with `.` dropped and each `..` taking away the
/// component before it, lexically.
pub open spec fn normalize_components(cs: Seq<Seq<char>>) -> Seq<Seq<char>>
    decreases cs.len(),
{
    if cs.len() == 0 {
        seq![]
    } else {
        let acc = normalize_components(cs.drop_last());
        let c = cs.last();
        if c == seq!['.'] {
            acc
        } else if c == seq!['.', '.'] {
            pop_component(acc)
        } else if c == seq!['/'] {
            seq![seq!['/']]
        } else {
            acc.push(c)
        }
    }
}

/// The path a list of components spells.
pub open spec fn components_text(acc: Seq<Seq<char>>) -> Seq<char> {
    if acc.len() > 0 && acc[0] == seq!['/'] {
        seq!['/'] + joined(acc.drop_first(), seq!['/'])
    } else {
        joined(acc, seq!['/'])
    }
}

/// The components of a path after lexical normalization.
pub fn normalized_components(path: &str) -> (r: Vec<String>)
    ensures
        views(r@) == normalize_components(components(path@)),
{
    let cs = path_components(path);
    let ghost cv = components(path@);
    let mut acc: Vec<String> = Vec::new();
    let mut i: usize = 0;
    assert(cv.subrange(0, 0) =~= Seq::<Seq<char>>::empty());
    while i < cs.len()
        invariant
            i <= cs@.len(),
            views(cs@) == cv,
            views(acc@) == normalize_components(cv.subrange(0, i as int)),
        decreases cs@.len() - i,
    {
        let ghost next = cv.subrange(0, i + 1);
        assert(next.drop_last() =~= cv.subrange(0, i as int));
        assert(next.last() == cs@[i as int]@);
        let c = cs[i].as_str();
        let ghost before = views(acc@);
        proof {
            reveal_strlit(".");
            reveal_strlit("..");
            reveal_strlit("/");
            assert("."@ =~= seq!['.']);
            assert(".."@ =~= seq!['.', '.']);
            assert("/"@ =~= seq!['/']);
        }
        if str_eq(c, ".") {
            assert(views(acc@) == normalize_components(next));
        } else if str_eq(c, "..") {
            proof { reveal_strlit(".."); }
            let root = acc.len() == 1 && str_eq(acc[0].as_str(), "/");
            proof {
                reveal_strlit("/");
                assert("/"@ =~= seq!['/']);
                if root {
                    assert(before[0] == acc@[0]@);
                }
            }
            if acc.len() > 0 && !root {
                assert(before != seq![seq!['/']]) by {
                    if before == seq![seq!['/']] {
                        assert(before[0] == acc@[0]@);
                        assert(before.len() == 1);
                    }
                }
                acc.pop();
                assert(views(acc@) =~= before.drop_last());
            } else {
                assert(before.len() == 0 || before =~= seq![seq!['/']]);
            }
            assert(views(acc@) == normalize_components(next));
        } else if str_eq(c, "/") {
            proof {
                reveal_strlit("/");
                assert("/"@ =~= seq!['/']);
            }
            acc = Vec::new();
            acc.push(owned("/"));
            assert(views(acc@) =~= seq![seq!['/']]);
            assert(views(acc@) == normalize_components(next));
        } else {
            proof {
                reveal_strlit(".");
                reveal_strlit("..");
                reveal_strlit("/");
            }
            acc.push(cs[i].clone());
            assert(views(acc@) =~= before.push(cs@[i as int]@));
            assert(views(acc@) == normalize_components(next));
        }
        i = i + 1;
    }
    assert(cv.subrange(0, cv.len() as int) =~= cv);
    acc
}

/// A path with `.` and `..` resolved lexically.
pub fn normalize_lexical(path: &str) -> (r: String)
    ensures
        r@ == components_text(normalize_components(components(path@))),
{
    let acc = normalized_components(path);
    let ghost av = views(acc@);
    proof {
        reveal_strlit("/");
        assert("/"@ =~= seq!['/']);
    }
    if acc.len() > 0 && str_eq(acc[0].as_str(), "/") {
        assert(av[0] == acc@[0]@);
        let mut rest: Vec<String> = Vec::new();
        let mut k: usize = 1;
        while k < acc.len()
            invariant
                1 <= k <= acc@.len(),
                views(rest@) == av.subrange(1, k as int),
                av == views(acc@),
            decreases acc@.len() - k,
        {
            let ghost old_rest = views(rest@);
            rest.push(acc[k].clone());
            assert(views(rest@) =~= old_rest.push(av[k as int]));
            assert(av.subrange(1, k + 1) =~= av.subrange(1, k as int).push(av[k as int]));
            k = k + 1;
        }
        assert(av.subrange(1, av.len() as int) =~= av.drop_first());
        let joined_rest = join_with_slash(&rest);
        let mut r = String::new();
        push_char(&mut r, '/');
        push_str(&mut r, joined_rest.as_str());
        assert(r@ =~= seq!['/'] + joined_rest@);
        r
    } else {
        proof {
            if av.len() > 0 {
                assert(av[0] == acc@[0]@);
            }
        }
        join_with_slash(&acc)
    }
}

/// Texts joined by `/`.
pub fn join_with_slash(parts: &Vec<String>) -> (r: String)
    ensures
        r@ == joined(views(parts@), seq!['/']),
{
    let mut r = String::new();
    let mut i: usize = 0;
    assert(views(parts@).subrange(0, 0) =~= Seq::<Seq<char>>::empty());
    while i < parts.len()
        invariant
            i <= parts@.len(),
            r@ == joined(views(parts@).subrange(0, i as int), seq!['/']),
        decreases parts@.len() - i,
    {
        let ghost next = views(parts@).subrange(0, i + 1);
        assert(next.drop_last() =~= views(parts@).subrange(0, i as int));
        assert(next.last() == parts@[i as int]@);
        if i > 0 {
            push_char(&mut r, '/');
        } else {
            assert(next =~= seq![parts@[0]@]);
        }
        push_str(&mut r, parts[i].as_str());
        i = i + 1;
    }
    assert(views(parts@).subrange(0, parts@.len() as int) =~= views(parts@));
    r
}

pub open spec fn stayed_message() -> Seq<char> {
    "这条记录已不再是会话记录，留在原处"@
}

pub open spec fn in_use_message() -> Seq<char> {
    "这条会话记录正在使用，留在原处"@
}

/// `Path::extension` is `jsonl`: the file name's text after its last dot,
/// with something before that dot.
pub open spec fn has_jsonl_extension(p: Seq<char>) -> bool {
    match file_name(p) {
        Some(n) => {
            let k = last_index(n, '.');
            k > 0 && n.subrange(k + 1, n.len() as int) == "jsonl"@
        },
        None => false,
    }
}

/// What the record walk does with a directory entry.
#[derive(Debug, Clone, Copy, PartialEq, Eq, Structural)]
pub enum SessionEntry {
    Skip,
    Descend,
    Collect,
}

/// Symbolic links are passed over, directories are walked, and regular
/// files named `*.jsonl` are collected; anything else is passed over.
pub fn session_entry(is_symlink: bool, is_dir: bool, is_file: bool, path: &str) -> (r: SessionEntry)
    ensures
        r == if is_symlink {
            SessionEntry::Skip
        } else if is_dir {
            SessionEntry::Descend
        } else if is_file && has_jsonl_extension(path@) {
            SessionEntry::Collect
        } else {
            SessionEntry::Skip
        },
{
    if is_symlink {
        SessionEntry::Skip
    } else if is_dir {
        SessionEntry::Descend
    } else if is_file && jsonl_extension(path) {
        SessionEntry::Collect
    } else {
        SessionEntry::Skip
    }
}

/// Part of the walk could not be read: the scan becomes partial and keeps
/// its first message, else takes `prefix` followed by `error`.
pub fn note_partial_source(scan: &mut SessionSourceScan, prefix: &str, error: &str)
    ensures
        final(scan).status == SessionScanStatus::Partial,
        final(scan).directory == old(scan).directory,
        final(scan).records == old(scan).records,
        old(scan).message is Some ==> final(scan).message == old(scan).message,
        old(scan).message is None ==> (final(scan).message matches Some(m) && m@ == prefix@ + error@),
{
    scan.status = SessionScanStatus::Partial;
    if scan.message.is_none() {
        let mut m = owned(prefix);
        push_str(&mut m, error);
        scan.message = Some(m);
    }
}

/// What looking at a record directory found.
#[derive(Debug, Clone)]
pub enum DirectoryProbe {
    Missing,
    Unreadable(String),
    Symlink,
    NotDirectory,
    Directory,
}

/// The scan a record directory starts with, before its files are read: a
/// missing directory is reported missing, a symbolic link is not followed,
/// an unreadable path or one that is not a directory fails; a directory
/// starts ready and empty.
pub fn start_source_scan(directory: &str, probe: DirectoryProbe) -> (r: Result<SessionSourceScan, String>)
    ensures
        match probe {
            DirectoryProbe::Missing => r matches Ok(s) && s.status == SessionScanStatus::Missing && s.message is None,
            DirectoryProbe::Unreadable(e) => r matches Err(m) && m@ == "无法读取会话记录目录："@ + e@,
            DirectoryProbe::Symlink => r matches Ok(s) && s.status == SessionScanStatus::Ready && (s.message matches Some(m)
                && m@ == "目录是符号链接，未跟随"@),
            DirectoryProbe::NotDirectory => r matches Err(m) && m@ == "会话记录路径不是目录"@,
            DirectoryProbe::Directory => r matches Ok(s) && s.status == SessionScanStatus::Ready && s.message is None,
        },
        r matches Ok(s) ==> s.directory@ == directory@ && s.records@.len() == 0,
{
    proof {
        reveal_strlit("无法读取会话记录目录：");
        reveal_strlit("目录是符号链接，未跟随");
        reveal_strlit("会话记录路径不是目录");
    }
    let mut scan = SessionSourceScan {
        directory: owned(directory),
        status: SessionScanStatus::Ready,
        records: Vec::new(),
        message: None,
    };
    match probe {
        DirectoryProbe::Missing => {
            scan.status = SessionScanStatus::Missing;
            Ok(scan)
        },
        DirectoryProbe::Unreadable(e) => {
            let mut m = owned("无法读取会话记录目录：");
            push_str(&mut m, e.as_str());
            Err(m)
        },
        DirectoryProbe::Symlink => {
            scan.message = Some(owned("目录是符号链接，未跟随"));
            Ok(scan)
        },
        DirectoryProbe::NotDirectory => Err(owned("会话记录路径不是目录")),
        DirectoryProbe::Directory => Ok(scan),
    }
}

/// Whether a path's file name has the extension `jsonl`.
pub fn jsonl_extension(p: &str) -> (r: bool)
    ensures
        r == has_jsonl_extension(p@),
{
    let name = match path_file_name(p) {
        Some(n) => n,
        None => return false,
    };
    let cs = chars_of(name.as_str());
    let mut i = cs.len();
    while i > 0 && cs[i - 1] != '.'
        invariant
            i <= cs.len(),
            cs@ == name@,
            forall|j: int| i <= j < cs.len() ==> cs@[j] != '.',
        decreases i,
    {
        i = i - 1;
    }
    proof {
        if i > 0 {
            lemma_last_index_is(cs@, '.', (i - 1) as int);
        } else {
            lemma_last_index_is(cs@, '.', -1);
        }
    }
    if i > 1 {
        let ext = string_from(&cs, i, cs.len());
        str_eq(ext.as_str(), "jsonl")
    } else {
        false
    }
}

/// The record file an id names inside `directory`, judged by its text
/// alone: the trimmed id must be a relative path without `..`, ending in
/// `.jsonl`, that stays inside the directory once both are normalized.
pub open spec fn candidate_spec(directory: Seq<char>, id: Seq<char>) -> Option<Seq<char>> {
    let rel = trim(id);
    let cs = components(rel);
    if rel.len() == 0 || is_absolute(rel) || cs.contains(seq!['.', '.']) || cs.contains(seq!['/'])
        || !has_jsonl_extension(rel) {
        None
    } else {
        let path = join_path(directory, rel);
        let np = normalize_components(components(path));
        let nd = normalize_components(components(directory));
        if nd.len() <= np.len() && np.subrange(0, nd.len() as int) == nd {
            Some(path)
        } else {
            None
        }
    }
}

/// Whether `list` holds the text `item`, by position search.
fn has_text(list: &Vec<String>, item: &str) -> (r: bool)
    ensures
        r == views(list@).contains(item@),
{
    crate::scan_support::contains_text(list, item)
}

/// The path of the record file an id names, judged by its text alone.
#[verifier::loop_isolation(false)]
pub fn session_record_candidate(directory: &str, id: &str) -> (r: Result<String, String>)
    ensures
        match candidate_spec(directory@, id@) {
            Some(p) => r matches Ok(q) && q@ == p,
            None => r matches Err(m) && m@ == stayed_message(),
        },
{
    proof {
        reveal_strlit("这条记录已不再是会话记录，留在原处");
        reveal_strlit("..");
        reveal_strlit("/");
        assert(".."@ =~= seq!['.', '.']);
        assert("/"@ =~= seq!['/']);
    }
    let rel = trim_string(id);
    let parts = path_components(rel.as_str());
    let rc = chars_of(rel.as_str());
    if rc.len() == 0 || rc[0] == '/' || has_text(&parts, "..") || has_text(&parts, "/") || !jsonl_extension(
        rel.as_str(),
    ) {
        return Err(owned("这条记录已不再是会话记录，留在原处"));
    }
    let path = join(directory, rel.as_str());
    let np = normalized_components(path.as_str());
    let nd = normalized_components(directory);
    if nd.len() > np.len() {
        return Err(owned("这条记录已不再是会话记录，留在原处"));
    }
    let mut k: usize = 0;
    while k < nd.len()
        invariant
            k <= nd@.len() <= np@.len(),
            forall|j: int| 0 <= j < k ==> np@[j]@ == nd@[j]@,
        decreases nd@.len() - k,
    {
        if !str_eq(np[k].as_str(), nd[k].as_str()) {
            assert(views(np@).subrange(0, views(nd@).len() as int)[k as int] != views(nd@)[k as int]);
            return Err(owned("这条记录已不再是会话记录，留在原处"));
        }
        k = k + 1;
    }
    assert(views(np@).subrange(0, views(nd@).len() as int) =~= views(nd@));
    Ok(path)
}

/// `check` answered `out` for a directory and a path in it.
pub open spec fn record_checked<C: Fn(&str, &str) -> bool>(c: C, dir: Seq<char>, path: Seq<char>, out: bool) -> bool {
    exists|a: &str, b: &str| a@ == dir && b@ == path && #[trigger] c.ensures((a, b), out)
}

/// `is_open` answered `out` for a path.
pub open spec fn open_checked<O: Fn(&str) -> bool>(o: O, path: Seq<char>, out: bool) -> bool {
    exists|a: &str| a@ == path && #[trigger] o.ensures((a,), out)
}

/// `trash` answered `out` for a path.
pub open spec fn trash_answered<T: Fn(&str) -> Result<(), String>>(t: T, path: Seq<char>, out: Result<(), String>) -> bool {
    exists|a: &str| a@ == path && #[trigger] t.ensures((a,), out)
}

/// The record file an id names: its candidate path, kept when `is_record_file`
/// finds the directory a real directory and the path a regular file (no
/// symbolic link either).
pub fn session_record_file<C: Fn(&str, &str) -> bool>(directory: &str, id: &str, is_record_file: &C) -> (r:
    Result<String, String>)
    requires
        forall|a: &str, b: &str| is_record_file.requires((a, b)),
    ensures
        match candidate_spec(directory@, id@) {
            Some(p) => (r matches Ok(q) && q@ == p && record_checked(*is_record_file, directory@, p, true))
                || (r matches Err(m) && m@ == stayed_message() && record_checked(
                *is_record_file,
                directory@,
                p,
                false,
            )),
            None => r matches Err(m) && m@ == stayed_message(),
        },
{
    let path = match session_record_candidate(directory, id) {
        Ok(p) => p,
        Err(m) => return Err(m),
    };
    let ok = is_record_file(directory, path.as_str());
    assert(record_checked(*is_record_file, directory@, path@, ok));
    if ok {
        Ok(path)
    } else {
        proof {
            reveal_strlit("这条记录已不再是会话记录，留在原处");
        }
        Err(owned("这条记录已不再是会话记录，留在原处"))
    }
}

/// What removing the record `id` reports: left in place when it is not a
/// record file or is open, else moved to the trash or the trash's error.
pub open spec fn removal_reported<
    C: Fn(&str, &str) -> bool,
    O: Fn(&str) -> bool,
    T: Fn(&str) -> Result<(), String>,
>(r: SessionRemovalResult, directory: Seq<char>, id: Seq<char>, check: C, is_open: O, trash: T) -> bool {
    let stayed = r.moved == 0 && r.failed == 0 && opt_view(r.message) == Some(stayed_message());
    match candidate_spec(directory, id) {
        None => stayed,
        Some(p) => {
            ||| record_checked(check, directory, p, false) && stayed
            ||| record_checked(check, directory, p, true) && open_checked(is_open, p, true) && r.moved == 0
                && r.failed == 0 && opt_view(r.message) == Some(in_use_message())
            ||| record_checked(check, directory, p, true) && open_checked(is_open, p, false) && exists|
                out: Result<(), String>,
            |
                #[trigger] trash_answered(trash, p, out) && match out {
                    Ok(_) => r.moved == 1 && r.failed == 0 && r.message is None,
                    Err(m) => r.moved == 0 && r.failed == 1 && r.message == Some(m),
                }
        },
    }
}

/// Moves one record file to the trash, unless it is not a record file of
/// the directory or is open.
pub fn remove_one<C, O, T>(directory: &str, id: &str, is_record_file: &C, is_open: &O, trash: &T) -> (r:
    SessionRemovalResult) where
    C: Fn(&str, &str) -> bool,
    O: Fn(&str) -> bool,
    T: Fn(&str) -> Result<(), String>,

    requires
        forall|a: &str, b: &str| is_record_file.requires((a, b)),
        forall|a: &str| is_open.requires((a,)),
        forall|a: &str| trash.requires((a,)),
    ensures
        removal_reported(r, directory@, id@, *is_record_file, *is_open, *trash),
{
    let path = match session_record_file(directory, id, is_record_file) {
        Ok(p) => p,
        Err(m) => return SessionRemovalResult { moved: 0, failed: 0, message: Some(m) },
    };
    let open = is_open(path.as_str());
    assert(open_checked(*is_open, path@, open));
    if open {
        proof {
            reveal_strlit("这条会话记录正在使用，留在原处");
        }
        return SessionRemovalResult { moved: 0, failed: 0, message: Some(owned("这条会话记录正在使用，留在原处")) };
    }
    let out = trash(path.as_str());
    assert(trash_answered(*trash, path@, out));
    match out {
        Ok(()) => SessionRemovalResult { moved: 1, failed: 0, message: None },
        Err(m) => SessionRemovalResult { moved: 0, failed: 1, message: Some(m) },
    }
}

/// The instant `days` days before `now_ms`, saturating at the ends of `i64`
/// (a number of days beyond `i64` counts as none).
pub open spec fn cutoff_spec(now_ms: i64, days: u64) -> i64 {
    let d: int = if days <= i64::MAX {
        days as int
    } else {
        0
    };
    let span: int = if d * 86400000 > i64::MAX {
        i64::MAX as int
    } else {
        d * 86400000
    };
    let c = now_ms - span;
    if c < i64::MIN {
        i64::MIN
    } else {
        c as i64
    }
}

/// The ages a bulk removal offers: records older than 7 or 30 days; any
/// other age is refused with this message.
pub fn check_removal_age(days: u64) -> (r: Result<u64, String>)
    ensures
        (days == 7 || days == 30) ==> r == Ok::<u64, String>(days),
        !(days == 7 || days == 30) ==> (r matches Err(m) && m@ == "只支持移除 7 天前或 30 天前的会话记录"@),
{
    if days != 7 && days != 30 {
        return Err(crate::text::owned("只支持移除 7 天前或 30 天前的会话记录"));
    }
    Ok(days)
}

/// The instant before which a record counts as old.
pub fn removal_cutoff(now_ms: i64, days: u64) -> (r: i64)
    ensures
        r == cutoff_spec(now_ms, days),
{
    let d: i128 = if days <= 9223372036854775807 {
        days as i128
    } else {
        0
    };
    let product: i128 = d * 86400000;
    let span: i128 = if product > 9223372036854775807 {
        9223372036854775807
    } else {
        product
    };
    let c: i128 = (now_ms as i128) - span;
    if c < -9223372036854775808 {
        -9223372036854775808i64
    } else {
        c as i64
    }
}

/// Whether a listed record is a candidate for removal by age: its listed
/// activity is before the cutoff and it is not in use.
pub open spec fn stale_listed(record: SessionRecord, cutoff: i64) -> bool {
    record.last_activity_ms matches Some(ms) && ms < cutoff && !record.in_use
}

pub open spec fn stale_count(records: Seq<SessionRecord>, cutoff: i64) -> nat
    decreases records.len(),
{
    if records.len() == 0 {
        0
    } else {
        stale_count(records.drop_last(), cutoff) + if stale_listed(records.last(), cutoff) {
            1nat
        } else {
            0nat
        }
    }
}

/// `latest_activity` answered `out` for the record file at `path`.
pub open spec fn activity_answered<A: Fn(&str, RecordFormat) -> Option<i64>>(
    latest_activity: A,
    path: Seq<char>,
    format: RecordFormat,
    out: Option<i64>,
) -> bool {
    exists|a: &str| a@ == path && #[trigger] latest_activity.ensures((a, format), out)
}

/// What a bulk removal did with one listed record: nothing (`None`), or
/// handed its file to the trash, which answered `Some(out)`. Only a record
/// listed as older than `cutoff` and not in use is a candidate; its file
/// must still be a record file of the directory, not be open, and show no
/// activity since the cutoff when read again.
pub open spec fn stale_outcome<C, O, A, T>(
    directory: Seq<char>,
    record: SessionRecord,
    cutoff: i64,
    format: RecordFormat,
    check: C,
    is_open: O,
    latest_activity: A,
    trash: T,
    outcome: Option<Result<(), String>>,
) -> bool where
    C: Fn(&str, &str) -> bool,
    O: Fn(&str) -> bool,
    A: Fn(&str, RecordFormat) -> Option<i64>,
    T: Fn(&str) -> Result<(), String>,
 {
    if !stale_listed(record, cutoff) {
        outcome is None
    } else {
        match candidate_spec(directory, record.id@) {
            None => outcome is None,
            Some(p) => {
                ||| record_checked(check, directory, p, false) && outcome is None
                ||| record_checked(check, directory, p, true) && open_checked(is_open, p, true) && outcome is None
                ||| record_checked(check, directory, p, true) && open_checked(is_open, p, false) && exists|
                    latest: Option<i64>,
                |
                    #[trigger] activity_answered(latest_activity, p, format, latest) && match latest {
                        None => outcome is None,
                        Some(ms) => if ms >= cutoff {
                            outcome is None
                        } else {
                            outcome matches Some(out) && trash_answered(trash, p, out)
                        },
                    }
            },
        }
    }
}

/// How many outcomes moved a file.
pub open spec fn moved_count(outcomes: Seq<Option<Result<(), String>>>) -> nat
    decreases outcomes.len(),
{
    if outcomes.len() == 0 {
        0
    } else {
        moved_count(outcomes.drop_last()) + if outcomes.last() matches Some(Ok(_)) {
            1nat
        } else {
            0nat
        }
    }
}

/// How many outcomes failed to move a file.
pub open spec fn failed_count(outcomes: Seq<Option<Result<(), String>>>) -> nat
    decreases outcomes.len(),
{
    if outcomes.len() == 0 {
        0
    } else {
        failed_count(outcomes.drop_last()) + if outcomes.last() matches Some(Err(_)) {
            1nat
        } else {
            0nat
        }
    }
}

/// The error of the first outcome that failed.
pub open spec fn first_failure(outcomes: Seq<Option<Result<(), String>>>) -> Option<String>
    decreases outcomes.len(),
{
    if outcomes.len() == 0 {
        None
    } else {
        let earlier = first_failure(outcomes.drop_last());
        if earlier is Some {
            earlier
        } else {
            match outcomes.last() {
                Some(Err(m)) => Some(m),
                _ => None,
            }
        }
    }
}

/// A count as a `u32` counter keeps it: stopping at the maximum.
pub open spec fn counter(n: nat) -> u32 {
    if n <= u32::MAX {
        n as u32
    } else {
        u32::MAX
    }
}

/// Moves the record files older than `days` days to the trash. Each
/// candidate (listed as older and not in use) is checked again: it must be
/// a record file of the directory, not open, and its contents must show no
/// activity since the cutoff. The moved and failed files are counted and
/// the first error the trash gives is reported.
pub fn remove_older_than<L, C, O, A, T>(
    directory: &str,
    days: u64,
    now_ms: i64,
    list: &L,
    is_record_file: &C,
    is_open: &O,
    latest_activity: &A,
    format: RecordFormat,
    trash: &T,
) -> (r: SessionRemovalResult) where
    L: Fn(&str, RecordFormat) -> Result<SessionSourceScan, String>,
    C: Fn(&str, &str) -> bool,
    O: Fn(&str) -> bool,
    A: Fn(&str, RecordFormat) -> Option<i64>,
    T: Fn(&str) -> Result<(), String>,

    requires
        forall|d: &str, f: RecordFormat| list.requires((d, f)),
        forall|a: &str, b: &str| is_record_file.requires((a, b)),
        forall|a: &str| is_open.requires((a,)),
        forall|a: &str, f: RecordFormat| latest_activity.requires((a, f)),
        forall|a: &str| trash.requires((a,)),
    ensures
        exists|out: Result<SessionSourceScan, String>|
            #[trigger] listed(*list, directory@, format, out) && match out {
                Err(m) => r.moved == 0 && r.failed == 1 && r.message == Some(m),
                Ok(scan) => exists|outcomes: Seq<Option<Result<(), String>>>|
                    #![trigger moved_count(outcomes)]
                    outcomes.len() == scan.records@.len() && (forall|k: int|
                        0 <= k < outcomes.len() ==> stale_outcome(
                            directory@,
                            scan.records@[k],
                            cutoff_spec(now_ms, days),
                            format,
                            *is_record_file,
                            *is_open,
                            *latest_activity,
                            *trash,
                            #[trigger] outcomes[k],
                        )) && r.moved == counter(moved_count(outcomes)) && r.failed == counter(
                        failed_count(outcomes),
                    ) && r.message == first_failure(outcomes),
            },
{
    let cutoff = removal_cutoff(now_ms, days);
    let out = list(directory, format);
    assert(listed(*list, directory@, format, out));
    let scan = match out {
        Ok(scan) => scan,
        Err(m) => return SessionRemovalResult { moved: 0, failed: 1, message: Some(m) },
    };
    let ghost records = scan.records@;
    let ghost mut outcomes: Seq<Option<Result<(), String>>> = Seq::empty();
    let mut moved: u32 = 0;
    let mut failed: u32 = 0;
    let mut message: Option<String> = None;
    let mut i: usize = 0;
    while i < scan.records.len()
        invariant
            i <= records.len(),
            records == scan.records@,
            cutoff == cutoff_spec(now_ms, days),
            outcomes.len() == i,
            forall|k: int|
                0 <= k < i ==> stale_outcome(
                    directory@,
                    records[k],
                    cutoff,
                    format,
                    *is_record_file,
                    *is_open,
                    *latest_activity,
                    *trash,
                    #[trigger] outcomes[k],
                ),
            moved == counter(moved_count(outcomes)),
            failed == counter(failed_count(outcomes)),
            message == first_failure(outcomes),
            forall|a: &str, b: &str| is_record_file.requires((a, b)),
            forall|a: &str| is_open.requires((a,)),
            forall|a: &str, f: RecordFormat| latest_activity.requires((a, f)),
            forall|a: &str| trash.requires((a,)),
        decreases records.len() - i,
    {
        let record = &scan.records[i];
        let ghost before = outcomes;
        proof {
            outcomes = before.push(None);
            assert(outcomes.drop_last() == before);
        }
        i = i + 1;
        let listed_ms = match record.last_activity_ms {
            Some(ms) => ms,
            None => continue,
        };
        if listed_ms >= cutoff || record.in_use {
            continue;
        }
        let path = match session_record_file(directory, record.id.as_str(), is_record_file) {
            Ok(p) => p,
            Err(_) => continue,
        };
        if is_open(path.as_str()) {
            assert(open_checked(*is_open, path@, true));
            continue;
        }
        assert(open_checked(*is_open, path@, false));
        let latest = latest_activity(path.as_str(), format);
        assert(activity_answered(*latest_activity, path@, format, latest));
        let latest = match latest {
            Some(ms) => ms,
            None => continue,
        };
        if latest >= cutoff {
            continue;
        }
        let moved_out = trash(path.as_str());
        assert(trash_answered(*trash, path@, moved_out));
        proof {
            outcomes = before.push(Some(moved_out));
            assert(outcomes.drop_last() == before);
        }
        match moved_out {
            Ok(()) => {
                if moved < 4294967295 {
                    moved = moved + 1;
                }
            },
            Err(e) => {
                if failed < 4294967295 {
                    failed = failed + 1;
                }
                if message.is_none() {
                    message = Some(e);
                }
            },
        }
    }
    SessionRemovalResult { moved, failed, message }
}

/// A bulk removal touches only records listed as older than the cutoff and
/// not in use: the files it moved and failed to move are no more than those
/// records.
pub proof fn law_only_stale_records_are_touched<C, O, A, T>(
    directory: Seq<char>,
    records: Seq<SessionRecord>,
    cutoff: i64,
    format: RecordFormat,
    check: C,
    is_open: O,
    latest_activity: A,
    trash: T,
    outcomes: Seq<Option<Result<(), String>>>,
) where
    C: Fn(&str, &str) -> bool,
    O: Fn(&str) -> bool,
    A: Fn(&str, RecordFormat) -> Option<i64>,
    T: Fn(&str) -> Result<(), String>,

    requires
        outcomes.len() == records.len(),
        forall|k: int|
            0 <= k < outcomes.len() ==> stale_outcome(
                directory,
                records[k],
                cutoff,
                format,
                check,
                is_open,
                latest_activity,
                trash,
                #[trigger] outcomes[k],
            ),
    ensures
        moved_count(outcomes) + failed_count(outcomes) <= stale_count(records, cutoff),
    decreases outcomes.len(),
{
    if outcomes.len() > 0 {
        let n = outcomes.len() - 1;
        assert forall|k: int| 0 <= k < outcomes.drop_last().len() implies stale_outcome(
            directory,
            records.drop_last()[k],
            cutoff,
            format,
            check,
            is_open,
            latest_activity,
            trash,
            #[trigger] outcomes.drop_last()[k],
        ) by {
            assert(outcomes.drop_last()[k] == outcomes[k]);
            assert(records.drop_last()[k] == records[k]);
        }
        law_only_stale_records_are_touched(
            directory,
            records.drop_last(),
            cutoff,
            format,
            check,
            is_open,
            latest_activity,
            trash,
            outcomes.drop_last(),
        );
        assert(stale_outcome(directory, records[n], cutoff, format, check, is_open, latest_activity, trash, outcomes[n]));
    }
}

/// A record is moved to the trash only when it is a record file of the
/// directory and was not open: an open file, or an id that escapes the
/// directory, is left where it is.
pub proof fn law_only_closed_record_files_are_moved<
    C: Fn(&str, &str) -> bool,
    O: Fn(&str) -> bool,
    T: Fn(&str) -> Result<(), String>,
>(r: SessionRemovalResult, directory: Seq<char>, id: Seq<char>, check: C, is_open: O, trash: T)
    requires
        removal_reported(r, directory, id, check, is_open, trash),
        r.moved > 0,
    ensures
        candidate_spec(directory, id) matches Some(p) && record_checked(check, directory, p, true)
            && open_checked(is_open, p, false) && trash_answered(trash, p, Ok(())),
{
    let p = candidate_spec(directory, id).unwrap();
    assert(record_checked(check, directory, p, true) && open_checked(is_open, p, false));
    let out = choose|out: Result<(), String>| #[trigger] trash_answered(trash, p, out) && match out {
        Ok(_) => r.moved == 1 && r.failed == 0 && r.message is None,
        Err(m) => r.moved == 0 && r.failed == 1 && r.message == Some(m),
    };
    match out {
        Ok(u) => {
            assert(u == ());
        },
        Err(m) => {
            assert(false);
        },
    }
}

/// Texts without repetitions hold each text once.
pub proof fn lemma_dedup_texts_distinct(s: Seq<Seq<char>>)
    ensures
        forall|i: int, j: int|
            0 <= i < j < dedup_texts(s).len() ==> #[trigger] dedup_texts(s)[i] != #[trigger] dedup_texts(s)[j],
    decreases s.len(),
{
    if s.len() > 0 {
        lemma_dedup_texts_distinct(s.drop_last());
        let prior = dedup_texts(s.drop_last());
        if !prior.contains(s.last()) {
            let d = prior.push(s.last());
            assert forall|i: int, j: int| 0 <= i < j < d.len() implies #[trigger] d[i] != #[trigger] d[j] by {
                if j == prior.len() {
                    assert(d[i] == prior[i]);
                }
            }
        }
    }
}

/// The open files `lsof` reports are listed each once.
pub proof fn law_open_files_are_listed_once(output: Seq<char>)
    ensures
        forall|i: int, j: int|
            0 <= i < j < dedup_texts(lsof_names(lines(output))).len() ==> #[trigger] dedup_texts(
                lsof_names(lines(output)),
            )[i] != #[trigger] dedup_texts(lsof_names(lines(output)))[j],
{
    lemma_dedup_texts_distinct(lsof_names(lines(output)));
}

/// A record's id: its path relative to the directory (its own path when
/// outside it).
pub open spec fn record_id_spec(directory: Seq<char>, path: Seq<char>) -> Seq<char> {
    if crate::path::path_starts_with(path, directory) {
        joined(
            components(path).subrange(components(directory).len() as int, components(path).len() as int),
            seq!['/'],
        )
    } else {
        path
    }
}

/// The record of a file: its id, its title (what its lines give, else its
/// file name, else its id), and what else its lines and the walk found.
pub fn record_of(directory: &str, path: &str, parsed: ParsedSession, bytes: u64, in_use: bool) -> (r:
    SessionRecord)
    ensures
        r.id@ == record_id_spec(directory@, path@),
        r.title@ == match parsed.title {
            Some(t) => t@,
            None => match file_name(path@) {
                Some(n) => n,
                None => record_id_spec(directory@, path@),
            },
        },
        r.last_activity_ms == parsed.last_activity_ms,
        r.working_directory == parsed.working_directory,
        r.bytes == bytes,
        r.in_use == in_use,
{
    let id = if crate::path::starts_with_path(path, directory) {
        let all = path_components(path);
        let base = path_components(directory);
        let mut rest: Vec<String> = Vec::new();
        let mut k = base.len();
        assert(views(all@) == components(path@));
        assert(views(base@) == components(directory@));
        while k < all.len()
            invariant
                base@.len() <= k <= all@.len(),
                views(rest@) == views(all@).subrange(base@.len() as int, k as int),
            decreases all@.len() - k,
        {
            let ghost before = views(rest@);
            rest.push(all[k].clone());
            assert(views(rest@) =~= before.push(all@[k as int]@));
            assert(views(all@).subrange(base@.len() as int, k + 1) =~= views(all@).subrange(base@.len() as int, k as int).push(all@[k as int]@));
            k = k + 1;
        }
        join_with_slash(&rest)
    } else {
        owned(path)
    };
    let title = match parsed.title {
        Some(t) => t,
        None => match path_file_name(path) {
            Some(n) => n,
            None => id.clone(),
        },
    };
    SessionRecord {
        id,
        title,
        last_activity_ms: parsed.last_activity_ms,
        working_directory: parsed.working_directory,
        bytes,
        in_use,
    }
}

} // verus!
