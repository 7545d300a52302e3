use vstd::prelude::*;

verus! {

use vstd::string::StrSliceExecFns;
use vstd::string::StringExecFns;

use crate::aggregation::{
    day_rows, entry_views, page_count_of, page_slice, DappRadarData, DappRadarResponse,
    ResponseEntryView,
};

/// The value of a decimal digit, or minus one for any other character.
pub open spec fn digit_of(c: char) -> int {
    if c == '0' { 0 }
    else if c == '1' { 1 }
    else if c == '2' { 2 }
    else if c == '3' { 3 }
    else if c == '4' { 4 }
    else if c == '5' { 5 }
    else if c == '6' { 6 }
    else if c == '7' { 7 }
    else if c == '8' { 8 }
    else if c == '9' { 9 }
    else { -1 }
}

/// Whether every character is a decimal digit.
pub open spec fn all_digits(s: Seq<char>) -> bool {
    forall|i: int| 0 <= i < s.len() ==> digit_of(#[trigger] s[i]) >= 0
}

/// The number a digit string denotes.
pub open spec fn dec_value_of(s: Seq<char>) -> int
    decreases s.len(),
{
    if s.len() == 0 {
        0
    } else {
        dec_value_of(s.drop_last()) * 10 + digit_of(s.last())
    }
}

/// Whether `s` denotes a number of at most `max`: non-empty, digits only, in
/// range.
pub open spec fn valid_num(s: Seq<char>, max: int) -> bool {
    s.len() > 0 && all_digits(s) && dec_value_of(s) <= max
}

/// A digit string's value is never negative.
proof fn lemma_dec_nonneg(s: Seq<char>)
    requires
        all_digits(s),
    ensures
        dec_value_of(s) >= 0,
    decreases s.len(),
{
    if s.len() > 0 {
        assert(all_digits(s.drop_last()));
        lemma_dec_nonneg(s.drop_last());
        assert(dec_value_of(s.drop_last()) * 10 >= 0) by (nonlinear_arith)
            requires
                dec_value_of(s.drop_last()) >= 0,
        ;
    }
}

/// Appending digits never shrinks a digit string's value.
proof fn lemma_dec_prefix(s: Seq<char>, i: int)
    requires
        all_digits(s),
        0 <= i <= s.len(),
    ensures
        dec_value_of(s) >= dec_value_of(s.take(i)),
    decreases s.len() - i,
{
    if i < s.len() {
        let prefix = s.drop_last();
        assert(all_digits(prefix));
        assert(prefix.take(i) =~= s.take(i));
        lemma_dec_prefix(prefix, i);
        lemma_dec_nonneg(prefix);
        assert(dec_value_of(prefix) * 10 + digit_of(s.last()) >= dec_value_of(prefix))
            by (nonlinear_arith)
            requires
                dec_value_of(prefix) >= 0,
                digit_of(s.last()) >= 0,
        ;
        assert(s.take(s.len() as int) =~= s);
    } else {
        assert(s.take(i) =~= s);
    }
}

/// The digit value of one character.
fn digit_exec(c: char) -> (r: Option<u32>)
    ensures
        r matches Some(d) ==> digit_of(c) == d,
        r is None ==> digit_of(c) < 0,
{
    match c {
        '0' => Some(0),
        '1' => Some(1),
        '2' => Some(2),
        '3' => Some(3),
        '4' => Some(4),
        '5' => Some(5),
        '6' => Some(6),
        '7' => Some(7),
        '8' => Some(8),
        '9' => Some(9),
        _ => None,
    }
}

/// Parses a decimal number: succeeds exactly on non-empty all-digit strings
/// whose value fits.
pub fn parse_u32(s: &str) -> (r: Option<u32>)
    ensures
        r matches Some(n) ==> s@.len() > 0 && all_digits(s@) && dec_value_of(s@) == n,
        (r is Some) <==> valid_num(s@, u32::MAX as int),
{
    let n = s.unicode_len();
    if n == 0 {
        return None;
    }
    let mut acc: u32 = 0;
    let mut i: usize = 0;
    while i < n
        invariant
            n == s@.len(),
            0 < n,
            0 <= i <= n,
            forall|j: int| 0 <= j < i ==> digit_of(#[trigger] s@[j]) >= 0,
            acc == dec_value_of(s@.take(i as int)),
        decreases n - i,
    {
        let c = s.get_char(i);
        let d = match digit_exec(c) {
            Some(d) => d,
            None => {
                assert(digit_of(s@[i as int]) < 0);
                assert(!all_digits(s@));
                return None;
            },
        };
        proof {
            assert(s@.take(i + 1).drop_last() =~= s@.take(i as int));
            assert(s@.take(i + 1).last() == s@[i as int]);
        }
        if acc > (u32::MAX - d) / 10 {
            proof {
                assert(acc * 10 + d > u32::MAX) by (nonlinear_arith)
                    requires
                        acc > (u32::MAX - d) / 10,
                        0 <= d <= 9,
                        acc >= 0,
                ;
                if all_digits(s@) {
                    lemma_dec_prefix(s@, i + 1);
                    assert(dec_value_of(s@) > u32::MAX);
                }
            }
            return None;
        }
        proof {
            assert(acc * 10 + d <= u32::MAX) by (nonlinear_arith)
                requires
                    acc <= (u32::MAX - d) / 10,
                    0 <= d <= 9,
                    acc >= 0,
            ;
        }
        acc = acc * 10 + d;
        i += 1;
    }
    proof {
        assert(s@.take(n as int) =~= s@);
    }
    Some(acc)
}

/// Parses a small decimal number: succeeds exactly on non-empty all-digit
/// strings whose value fits one byte.
pub fn parse_u8(s: &str) -> (r: Option<u8>)
    ensures
        r matches Some(n) ==> s@.len() > 0 && all_digits(s@) && dec_value_of(s@) == n,
        (r is Some) <==> valid_num(s@, u8::MAX as int),
{
    match parse_u32(s) {
        Some(n) => if n <= 255 {
            Some(n as u8)
        } else {
            None
        },
        None => {
            proof {
                if valid_num(s@, u8::MAX as int) {
                    assert(valid_num(s@, u32::MAX as int));
                }
            }
            None
        },
    }
}

/// Whether two strings hold the same characters.
pub fn str_eq(a: &str, b: &str) -> (r: bool)
    ensures
        r == (a@ == b@),
{
    let n = a.unicode_len();
    let m = b.unicode_len();
    if n != m {
        return false;
    }
    let mut i: usize = 0;
    while i < n
        invariant
            n == a@.len() == b@.len(),
            0 <= i <= n,
            forall|j: int| 0 <= j < i ==> a@[j] == b@[j],
        decreases n - i,
    {
        if a.get_char(i) != b.get_char(i) {
            return false;
        }
        i += 1;
    }
    proof {
        assert(a@ =~= b@);
    }
    true
}

/// The first position at or after `from` holding `c`, or the length if none
/// does.
pub open spec fn first_index_of(s: Seq<char>, from: int, c: char) -> int
    decreases s.len() - from,
{
    if !(0 <= from < s.len()) {
        s.len() as int
    } else if s[from] == c {
        from
    } else {
        first_index_of(s, from + 1, c)
    }
}

/// Finds the first `c` at or after `from`.
fn first_index_from(s: &str, from: usize, c: char) -> (r: usize)
    requires
        from <= s@.len(),
    ensures
        r == first_index_of(s@, from as int, c),
        from <= r <= s@.len(),
{
    let n = s.unicode_len();
    let mut i = from;
    while i < n
        invariant
            n == s@.len(),
            from <= i <= n,
            first_index_of(s@, from as int, c) == first_index_of(s@, i as int, c),
        decreases n - i,
    {
        if s.get_char(i) == c {
            return i;
        }
        i += 1;
    }
    i
}

/// The value of the first `page` parameter of a query string, if one stands
/// in it: pairs are separated by `&`, a pair's key ends at its first `=`.
pub open spec fn page_value(qs: Seq<char>, from: int) -> Option<Seq<char>>
    decreases qs.len() - from,
{
    if !(0 <= from <= qs.len()) {
        None
    } else {
        let amp = first_index_of(qs, from, '&');
        let eq = first_index_of(qs, from, '=');
        if eq < amp && qs.subrange(from, eq) == "page"@ {
            Some(qs.subrange(eq + 1, amp))
        } else if amp >= qs.len() || amp < from {
            None
        } else {
            page_value(qs, amp + 1)
        }
    }
}

/// Extracts the first `page` parameter of a query string.
fn find_page_value(qs: &str) -> (r: Option<String>)
    ensures
        r matches Some(v) ==> page_value(qs@, 0) == Some(v@),
        r is None ==> page_value(qs@, 0) is None,
{
    let n = qs.unicode_len();
    let mut from: usize = 0;
    loop
        invariant
            n == qs@.len(),
            0 <= from <= n,
            page_value(qs@, 0) == page_value(qs@, from as int),
        decreases n - from,
    {
        let amp = first_index_from(qs, from, '&');
        let eq = first_index_from(qs, from, '=');
        if eq < amp {
            let key = qs.substring_char(from, eq);
            if str_eq(key, "page") {
                let v = qs.substring_char(eq + 1, amp);
                proof {
                    assert(first_index_of(qs@, from as int, '=') < first_index_of(
                        qs@,
                        from as int,
                        '&',
                    ) && qs@.subrange(from as int, eq as int) == "page"@);
                }
                return Some(v.to_owned());
            }
        }
        if amp >= n {
            return None;
        }
        from = amp + 1;
    }
}

/// The views of the path segments.
pub open spec fn str_views(ss: Seq<String>) -> Seq<Seq<char>> {
    Seq::new(ss.len(), |i: int| ss[i]@)
}

/// What a date path segment denotes: `year-month-day`, each part a decimal
/// number in its field's range, exactly three parts.
pub open spec fn parse_date_spec(s: Seq<char>) -> Option<(u32, u8, u8)> {
    let d1 = first_index_of(s, 0, '-');
    let d2 = first_index_of(s, d1 + 1, '-');
    let d3 = first_index_of(s, d2 + 1, '-');
    if d1 >= s.len() || d2 >= s.len() || d3 < s.len() {
        None
    } else {
        let ys = s.subrange(0, d1);
        let ms = s.subrange(d1 + 1, d2);
        let ds = s.subrange(d2 + 1, s.len() as int);
        if valid_num(ys, u32::MAX as int) && valid_num(ms, u8::MAX as int) && valid_num(
            ds,
            u8::MAX as int,
        ) {
            Some(
                (
                    dec_value_of(ys) as u32,
                    dec_value_of(ms) as u8,
                    dec_value_of(ds) as u8,
                ),
            )
        } else {
            None
        }
    }
}

/// Parses a `year-month-day` date segment.
fn parse_date(s: &str) -> (r: Option<(u32, u8, u8)>)
    ensures
        r == parse_date_spec(s@),
{
    let n = s.unicode_len();
    let d1 = first_index_from(s, 0, '-');
    if d1 >= n {
        return None;
    }
    let d2 = first_index_from(s, d1 + 1, '-');
    if d2 >= n {
        return None;
    }
    let d3 = first_index_from(s, d2 + 1, '-');
    if d3 < n {
        return None;
    }
    let ys = s.substring_char(0, d1);
    let ms = s.substring_char(d1 + 1, d2);
    let ds = s.substring_char(d2 + 1, n);
    match (parse_u32(ys), parse_u8(ms), parse_u8(ds)) {
        (Some(y), Some(m), Some(d)) => Some((y, m, d)),
        _ => None,
    }
}

/// What an aggregation-read request denotes, if it is well-formed: whether
/// the hourly grouping was asked for, the date, and the page (zero when no
/// page parameter stands in the query).
pub open spec fn parsed_request(segs: Seq<Seq<char>>, qs: Option<Seq<char>>) -> Option<
    (bool, u32, u8, u8, int),
> {
    if segs.len() != 4 || segs[0] != "dapp-radar"@ || segs[1] != "aggregated-data"@ {
        None
    } else {
        let page = match qs {
            None => Some(0int),
            Some(q) => match page_value(q, 0) {
                None => Some(0int),
                Some(v) => if valid_num(v, u32::MAX as int) {
                    Some(dec_value_of(v))
                } else {
                    None
                },
            },
        };
        match (parse_date_spec(segs[2]), page) {
            (Some((y, m, d)), Some(p)) => if segs[3] == "daily"@ {
                Some((false, y, m, d, p))
            } else if segs[3] == "hourly"@ {
                Some((true, y, m, d, p))
            } else {
                None
            },
            _ => None,
        }
    }
}

/// Serves an aggregation read: a well-formed request selects the daily or
/// hourly grouping, a date and a page, and gets that page of that day's
/// rows; anything else is refused.
pub fn process_dapp_radar_request(
    data: &DappRadarData,
    segments: &Vec<String>,
    qs: Option<&String>,
) -> (r: Option<DappRadarResponse>)
    ensures
        ({
            let req = parsed_request(
                str_views(segments@),
                match qs {
                    Some(q) => Some(q@),
                    None => None,
                },
            );
            match req {
                None => r is None,
                Some((is_hourly, y, m, d, p)) => {
                    let rows = day_rows(
                        if is_hourly {
                            data.hourly_buckets()
                        } else {
                            data.daily_buckets()
                        },
                        y,
                        m,
                        d,
                        is_hourly,
                    );
                    r matches Some(resp) && resp.page_count == page_count_of(rows.len() as int)
                        && entry_views(resp.results@) == if rows.len() == 0 {
                        Seq::<ResponseEntryView>::empty()
                    } else {
                        page_slice(rows, p)
                    }
                },
            }
        }),
{
    if segments.len() != 4 {
        return None;
    }
    proof {
        assert(str_views(segments@)[0] == segments@[0]@);
        assert(str_views(segments@)[1] == segments@[1]@);
        assert(str_views(segments@)[2] == segments@[2]@);
        assert(str_views(segments@)[3] == segments@[3]@);
    }
    if !str_eq(segments[0].as_str(), "dapp-radar") {
        return None;
    }
    if !str_eq(segments[1].as_str(), "aggregated-data") {
        return None;
    }
    let page: u32 = match qs {
        None => 0,
        Some(q) => match find_page_value(q.as_str()) {
            None => 0,
            Some(v) => match parse_u32(v.as_str()) {
                Some(p) => p,
                None => {
                    return None;
                },
            },
        },
    };
    let date = match parse_date(segments[2].as_str()) {
        Some(d) => d,
        None => {
            return None;
        },
    };
    let (y, m, d) = date;
    if str_eq(segments[3].as_str(), "daily") {
        Some(data.daily(y, m, d, page as usize))
    } else if str_eq(segments[3].as_str(), "hourly") {
        Some(data.hourly(y, m, d, page as usize))
    } else {
        None
    }
}

} // verus!
