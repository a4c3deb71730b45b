use vstd::prelude::*;
use crate::text::chars_of;

verus! {

/// The characters at which an EXIF date string is cut into fields.
pub open spec fn is_date_separator(c: char) -> bool {
    c == ':' || c == ' ' || c == '-'
}

pub open spec fn is_ascii_digit(c: char) -> bool {
    '0' <= c && c <= '9'
}

pub open spec fn all_digits(s: Seq<char>) -> bool {
    forall|i: int| 0 <= i < s.len() ==> #[trigger] is_ascii_digit(s[i])
}

/// The number written by a string of decimal digits.
pub open spec fn digits_value(s: Seq<char>) -> nat
    decreases s.len(),
{
    if s.len() == 0 {
        0
    } else {
        digits_value(s.drop_last()) * 10 + ((s.last() as int - 48) as nat)
    }
}

/// What `str::parse::<i32>` gives: an optional `+` or `-` sign followed by
/// at least one decimal digit and nothing else, whose value fits in `i32`.
pub open spec fn parse_i32_spec(s: Seq<char>) -> Option<int> {
    let signed = s.len() > 0 && (s[0] == '+' || s[0] == '-');
    let body = if signed { s.drop_first() } else { s };
    let v = if s.len() > 0 && s[0] == '-' { -(digits_value(body) as int) } else { digits_value(body) as int };
    if body.len() > 0 && all_digits(body) && i32::MIN <= v <= i32::MAX {
        Some(v)
    } else {
        None
    }
}

/// What `str::parse::<u32>` gives: an optional `+` sign followed by at least
/// one decimal digit and nothing else, whose value fits in `u32`.
pub open spec fn parse_u32_spec(s: Seq<char>) -> Option<int> {
    let body = if s.len() > 0 && s[0] == '+' { s.drop_first() } else { s };
    if body.len() > 0 && all_digits(body) && digits_value(body) <= u32::MAX {
        Some(digits_value(body) as int)
    } else {
        None
    }
}

/// The end of the field that starts at `from`: the index of the first
/// separator at or after `from`, or the length of `s` if there is none.
pub open spec fn field_end(s: Seq<char>, from: int) -> int
    decreases s.len() - from,
{
    if from >= s.len() {
        s.len() as int
    } else if is_date_separator(s[from]) {
        from
    } else {
        field_end(s, from + 1)
    }
}

/// Year and month of an EXIF date such as `2021:07:14 10:22:01`: the first
/// field parsed as an `i32` year, the second as a `u32` month, accepted when
/// the year lies strictly between 1900 and 2200 and the month in 1..=12.
/// A string without a separator has no second field and gives nothing.
pub open spec fn exif_date_spec(s: Seq<char>) -> Option<(i32, u32)> {
    let e0 = field_end(s, 0);
    if e0 >= s.len() {
        None
    } else {
        let e1 = field_end(s, e0 + 1);
        match (parse_i32_spec(s.subrange(0, e0)), parse_u32_spec(s.subrange(e0 + 1, e1))) {
            (Some(y), Some(m)) => if 1900 < y < 2200 && 1 <= m <= 12 {
                Some((y as i32, m as u32))
            } else {
                None
            },
            _ => None,
        }
    }
}

proof fn lemma_field_end_bounds(s: Seq<char>, from: int)
    requires
        0 <= from,
    ensures
        from <= field_end(s, from) || from > s.len(),
        field_end(s, from) <= s.len(),
        field_end(s, from) < s.len() ==> is_date_separator(s[field_end(s, from)]),
    decreases s.len() - from,
{
    if from < s.len() && !is_date_separator(s[from]) {
        lemma_field_end_bounds(s, from + 1);
    }
}

proof fn lemma_field_end_is(s: Seq<char>, from: int, k: int)
    requires
        0 <= from <= k <= s.len(),
        forall|i: int| from <= i < k ==> !is_date_separator(#[trigger] s[i]),
        k == s.len() || is_date_separator(s[k]),
    ensures
        field_end(s, from) == k,
    decreases k - from,
{
    if from < k {
        lemma_field_end_is(s, from + 1, k);
    }
}

proof fn lemma_field_end_no_separator(s: Seq<char>, from: int)
    requires
        0 <= from <= s.len(),
    ensures
        forall|i: int| from <= i < field_end(s, from) ==> !is_date_separator(#[trigger] s[i]),
    decreases s.len() - from,
{
    if from < s.len() && !is_date_separator(s[from]) {
        lemma_field_end_no_separator(s, from + 1);
    }
}

/// `t` is `s` with some separators exchanged for other separators.
pub open spec fn separators_exchanged(s: Seq<char>, t: Seq<char>) -> bool {
    &&& s.len() == t.len()
    &&& forall|i: int| 0 <= i < s.len() ==>
        (#[trigger] s[i] == t[i] || (is_date_separator(s[i]) && is_date_separator(t[i])))
}

proof fn lemma_field_end_exchanged(s: Seq<char>, t: Seq<char>, from: int)
    requires
        separators_exchanged(s, t),
        0 <= from,
    ensures
        field_end(s, from) == field_end(t, from),
    decreases s.len() - from,
{
    if from < s.len() {
        assert(s[from] == t[from] || (is_date_separator(s[from]) && is_date_separator(t[from])));
        lemma_field_end_exchanged(s, t, from + 1);
    }
}

/// The three separators are interchangeable: a date string reads the same
/// when any of its `:`, ` ` and `-` is replaced by any other of them.
pub proof fn law_separators_interchangeable(s: Seq<char>, t: Seq<char>)
    requires
        separators_exchanged(s, t),
    ensures
        exif_date_spec(s) == exif_date_spec(t),
{
    lemma_field_end_exchanged(s, t, 0);
    lemma_field_end_bounds(s, 0);
    lemma_field_end_no_separator(s, 0);
    let e0 = field_end(s, 0);
    assert forall|i: int| 0 <= i < e0 implies s[i] == t[i] by {
        assert(s[i] == t[i] || (is_date_separator(s[i]) && is_date_separator(t[i])));
    }
    assert(s.subrange(0, e0) =~= t.subrange(0, e0));
    if e0 < s.len() {
        lemma_field_end_exchanged(s, t, e0 + 1);
        lemma_field_end_bounds(s, e0 + 1);
        lemma_field_end_no_separator(s, e0 + 1);
        let e1 = field_end(s, e0 + 1);
        assert forall|i: int| e0 + 1 <= i < e1 implies s[i] == t[i] by {
            assert(s[i] == t[i] || (is_date_separator(s[i]) && is_date_separator(t[i])));
        }
        assert(s.subrange(e0 + 1, e1) =~= t.subrange(e0 + 1, e1));
    }
}

pub open spec fn has_no_separator(s: Seq<char>) -> bool {
    forall|i: int| 0 <= i < s.len() ==> !is_date_separator(#[trigger] s[i])
}

/// Only the first two fields matter: whatever follows the second field's
/// separator leaves the date unchanged.
pub proof fn law_only_first_two_fields(a: Seq<char>, b: Seq<char>, c1: char, c2: char, rest: Seq<char>)
    requires
        has_no_separator(a),
        has_no_separator(b),
        is_date_separator(c1),
        is_date_separator(c2),
    ensures
        exif_date_spec(a + seq![c1] + b + seq![c2] + rest) == exif_date_spec(a + seq![c1] + b),
{
    let long = a + seq![c1] + b + seq![c2] + rest;
    let short = a + seq![c1] + b;
    let e0 = a.len() as int;
    let e1 = a.len() as int + 1 + b.len() as int;
    assert forall|i: int| 0 <= i < e0 implies !is_date_separator(#[trigger] long[i]) by {
        assert(long[i] == a[i]);
    }
    assert forall|i: int| 0 <= i < e0 implies !is_date_separator(#[trigger] short[i]) by {
        assert(short[i] == a[i]);
    }
    lemma_field_end_is(long, 0, e0);
    lemma_field_end_is(short, 0, e0);
    assert forall|i: int| e0 + 1 <= i < e1 implies !is_date_separator(#[trigger] long[i]) by {
        assert(long[i] == b[i - e0 - 1]);
    }
    assert forall|i: int| e0 + 1 <= i < e1 implies !is_date_separator(#[trigger] short[i]) by {
        assert(short[i] == b[i - e0 - 1]);
    }
    lemma_field_end_is(long, e0 + 1, e1);
    lemma_field_end_is(short, e0 + 1, e1);
    assert(long.subrange(0, e0) =~= short.subrange(0, e0));
    assert(long.subrange(e0 + 1, e1) =~= short.subrange(e0 + 1, e1));
}

proof fn lemma_digits_value_prefix(s: Seq<char>, k: int)
    requires
        0 <= k <= s.len(),
    ensures
        digits_value(s.take(k)) <= digits_value(s),
    decreases s.len(),
{
    if k < s.len() {
        assert(s.drop_last().take(k) =~= s.take(k));
        lemma_digits_value_prefix(s.drop_last(), k);
    } else {
        assert(s.take(k) =~= s);
    }
}

/// Index of the first separator in `chars[from..]`, or `chars.len()`.
fn find_field_end(chars: &Vec<char>, from: usize) -> (r: usize)
    requires
        from <= chars.len(),
    ensures
        r == field_end(chars@, from as int),
{
    let mut i = from;
    while i < chars.len()
        invariant
            from <= i <= chars.len(),
            field_end(chars@, from as int) == field_end(chars@, i as int),
        decreases chars.len() - i,
    {
        let c = chars[i];
        if c == ':' || c == ' ' || c == '-' {
            return i;
        }
        i = i + 1;
    }
    i
}

/// The value of the digits `chars[start..end]` when they are all decimal
/// digits, there is at least one, and the value is at most `limit`.
fn parse_digits(chars: &Vec<char>, start: usize, end: usize, limit: u64) -> (r: Option<u64>)
    requires
        start <= end <= chars.len(),
        limit <= 0x1_0000_0000,
    ensures
        ({
            let body = chars@.subrange(start as int, end as int);
            r == if body.len() > 0 && all_digits(body) && digits_value(body) <= limit {
                Some(digits_value(body) as u64)
            } else {
                None
            }
        }),
{
    let ghost body = chars@.subrange(start as int, end as int);
    if start == end {
        return None;
    }
    let mut v: u64 = 0;
    let mut i = start;
    while i < end
        invariant
            start <= i <= end <= chars.len(),
            limit <= 0x1_0000_0000,
            body == chars@.subrange(start as int, end as int),
            all_digits(body.take(i - start)),
            v == digits_value(body.take(i - start)),
            v <= limit,
        decreases end - i,
    {
        let c = chars[i];
        let ghost pre = body.take(i - start);
        assert(body.take(i + 1 - start).drop_last() =~= pre);
        if !('0' <= c && c <= '9') {
            assert(!is_ascii_digit(body[i - start]));
            return None;
        }
        let d: u64 = (c as u32 - 48) as u64;
        let next = v * 10 + d;
        if next > limit {
            proof {
                if all_digits(body) {
                    lemma_digits_value_prefix(body, i + 1 - start);
                }
            }
            return None;
        }
        v = next;
        i = i + 1;
    }
    assert(body.take(end - start) =~= body);
    Some(v)
}

/// `str::parse::<i32>` on `chars[start..end]`.
fn parse_i32_at(chars: &Vec<char>, start: usize, end: usize) -> (r: Option<i32>)
    requires
        start <= end <= chars.len(),
    ensures
        r matches Some(v) ==> parse_i32_spec(chars@.subrange(start as int, end as int)) == Some(v as int),
        r is None ==> parse_i32_spec(chars@.subrange(start as int, end as int)) is None,
{
    let ghost s = chars@.subrange(start as int, end as int);
    if start < end && chars[start] == '-' {
        assert(s.drop_first() =~= chars@.subrange(start + 1, end as int));
        match parse_digits(chars, start + 1, end, 0x8000_0000) {
            Some(v) => Some((0i64 - v as i64) as i32),
            None => None,
        }
    } else if start < end && chars[start] == '+' {
        assert(s.drop_first() =~= chars@.subrange(start + 1, end as int));
        match parse_digits(chars, start + 1, end, 0x7fff_ffff) {
            Some(v) => Some(v as i32),
            None => None,
        }
    } else {
        match parse_digits(chars, start, end, 0x7fff_ffff) {
            Some(v) => Some(v as i32),
            None => None,
        }
    }
}

/// `str::parse::<u32>` on `chars[start..end]`.
fn parse_u32_at(chars: &Vec<char>, start: usize, end: usize) -> (r: Option<u32>)
    requires
        start <= end <= chars.len(),
    ensures
        r matches Some(v) ==> parse_u32_spec(chars@.subrange(start as int, end as int)) == Some(v as int),
        r is None ==> parse_u32_spec(chars@.subrange(start as int, end as int)) is None,
{
    let ghost s = chars@.subrange(start as int, end as int);
    let r = if start < end && chars[start] == '+' {
        assert(s.drop_first() =~= chars@.subrange(start + 1, end as int));
        parse_digits(chars, start + 1, end, 0xffff_ffff)
    } else {
        parse_digits(chars, start, end, 0xffff_ffff)
    };
    match r {
        Some(v) => Some(v as u32),
        None => None,
    }
}

/// Year and month of an EXIF date string (see `exif_date_spec`).
pub fn parse_exif_date(s: &str) -> (r: Option<(i32, u32)>)
    ensures
        r == exif_date_spec(s@),
{
    let chars = chars_of(s);
    let e0 = find_field_end(&chars, 0);
    proof { lemma_field_end_bounds(chars@, 0); }
    if e0 >= chars.len() {
        return None;
    }
    let e1 = find_field_end(&chars, e0 + 1);
    proof { lemma_field_end_bounds(chars@, e0 + 1); }
    let year = parse_i32_at(&chars, 0, e0);
    let month = parse_u32_at(&chars, e0 + 1, e1);
    match (year, month) {
        (Some(y), Some(m)) => {
            if y > 1900 && y < 2200 && m >= 1 && m <= 12 {
                Some((y, m))
            } else {
                None
            }
        },
        _ => None,
    }
}

} // verus!

verus! {

/// Folder name of a month: two-digit number and English abbreviation,
/// `00-Unknown` for a number outside 1..=12.
pub open spec fn month_name_spec(month: u32) -> Seq<char> {
    if month == 1 { "01-Jan"@ }
    else if month == 2 { "02-Feb"@ }
    else if month == 3 { "03-Mar"@ }
    else if month == 4 { "04-Apr"@ }
    else if month == 5 { "05-May"@ }
    else if month == 6 { "06-Jun"@ }
    else if month == 7 { "07-Jul"@ }
    else if month == 8 { "08-Aug"@ }
    else if month == 9 { "09-Sep"@ }
    else if month == 10 { "10-Oct"@ }
    else if month == 11 { "11-Nov"@ }
    else if month == 12 { "12-Dec"@ }
    else { "00-Unknown"@ }
}

/// Month number to abbreviated name.
pub fn month_name(month: u32) -> (r: &'static str)
    ensures
        r@ == month_name_spec(month),
{
    match month {
        1 => "01-Jan",
        2 => "02-Feb",
        3 => "03-Mar",
        4 => "04-Apr",
        5 => "05-May",
        6 => "06-Jun",
        7 => "07-Jul",
        8 => "08-Aug",
        9 => "09-Sep",
        10 => "10-Oct",
        11 => "11-Nov",
        12 => "12-Dec",
        _ => "00-Unknown",
    }
}

} // verus!

verus! {

/// The English three-letter abbreviation of month `month` (1..=12).
pub open spec fn month_abbreviation(month: u32) -> Seq<char>
    recommends
        1 <= month <= 12,
{
    if month == 1 { "Jan"@ }
    else if month == 2 { "Feb"@ }
    else if month == 3 { "Mar"@ }
    else if month == 4 { "Apr"@ }
    else if month == 5 { "May"@ }
    else if month == 6 { "Jun"@ }
    else if month == 7 { "Jul"@ }
    else if month == 8 { "Aug"@ }
    else if month == 9 { "Sep"@ }
    else if month == 10 { "Oct"@ }
    else if month == 11 { "Nov"@ }
    else { "Dec"@ }
}

/// `x` comes before `y` in character (and so byte) order, at the first
/// place where they differ.
pub open spec fn precedes(x: Seq<char>, y: Seq<char>) -> bool {
    exists|i: int| 0 <= i < x.len() && i < y.len() && x.take(i) == y.take(i) && (x[i] as u32) < (y[i] as u32)
}

proof fn lemma_month_name_digits(month: u32)
    requires
        month <= 12,
    ensures
        month_name_spec(month).len() >= 3,
        month_name_spec(month)[0] as u32 == 48 + month / 10,
        month_name_spec(month)[1] as u32 == 48 + month % 10,
        month_name_spec(month)[0] == (if month / 10 == 0 { '0' } else { '1' }),
        is_ascii_digit(month_name_spec(month)[0]),
        is_ascii_digit(month_name_spec(month)[1]),
{
    reveal_strlit("00-Unknown");
    reveal_strlit("01-Jan");
    reveal_strlit("02-Feb");
    reveal_strlit("03-Mar");
    reveal_strlit("04-Apr");
    reveal_strlit("05-May");
    reveal_strlit("06-Jun");
    reveal_strlit("07-Jul");
    reveal_strlit("08-Aug");
    reveal_strlit("09-Sep");
    reveal_strlit("10-Oct");
    reveal_strlit("11-Nov");
    reveal_strlit("12-Dec");
}

/// Each month folder is named `NN-Mon`: six characters, the month's
/// two-digit number (which `str::parse::<u32>` reads back as the month), a
/// hyphen and the month's English abbreviation.
pub proof fn law_month_folder_shape(month: u32)
    requires
        1 <= month <= 12,
    ensures
        month_name_spec(month).len() == 6,
        parse_u32_spec(month_name_spec(month).take(2)) == Some(month as int),
        month_name_spec(month)[2] == '-',
        month_name_spec(month).skip(3) == month_abbreviation(month),
{
    let n = month_name_spec(month);
    reveal_strlit("Jan");
    reveal_strlit("Feb");
    reveal_strlit("Mar");
    reveal_strlit("Apr");
    reveal_strlit("May");
    reveal_strlit("Jun");
    reveal_strlit("Jul");
    reveal_strlit("Aug");
    reveal_strlit("Sep");
    reveal_strlit("Oct");
    reveal_strlit("Nov");
    reveal_strlit("Dec");
    lemma_month_name_digits(month);
    reveal_strlit("01-Jan");
    reveal_strlit("02-Feb");
    reveal_strlit("03-Mar");
    reveal_strlit("04-Apr");
    reveal_strlit("05-May");
    reveal_strlit("06-Jun");
    reveal_strlit("07-Jul");
    reveal_strlit("08-Aug");
    reveal_strlit("09-Sep");
    reveal_strlit("10-Oct");
    reveal_strlit("11-Nov");
    reveal_strlit("12-Dec");
    assert(n.skip(3) =~= month_abbreviation(month));
    let d = n.take(2);
    assert(d.drop_last() =~= seq![n[0]]);
    assert(seq![n[0]].drop_last() =~= Seq::<char>::empty());
    assert(seq![n[0]].last() == n[0]);
    assert(d.last() == n[1]);
    assert(digits_value(Seq::<char>::empty()) == 0);
    if month / 10 == 0 {
        assert(n[0] == '0');
        assert(('0' as int) == 48);
    } else {
        assert(n[0] == '1');
        assert(('1' as int) == 49);
    }
    assert(digits_value(seq![n[0]]) == (month / 10) as nat);
    assert(is_ascii_digit(d[0]) && is_ascii_digit(d[1]));
}

/// Month folders sort in calendar order, after the `00-Unknown` folder.
pub proof fn law_month_folders_sort_in_order(a: u32, b: u32)
    requires
        1 <= a < b <= 12,
    ensures
        precedes(month_name_spec(0), month_name_spec(a)),
        precedes(month_name_spec(a), month_name_spec(b)),
{
    lemma_month_name_digits(0);
    lemma_month_name_digits(a);
    lemma_month_name_digits(b);
    let z = month_name_spec(0);
    let x = month_name_spec(a);
    let y = month_name_spec(b);
    if a / 10 == 0 {
        assert(z.take(1) =~= x.take(1));
        assert(0 <= 1 < z.len() && 1 < x.len() && z.take(1) == x.take(1) && (z[1] as u32) < (x[1] as u32));
    } else {
        assert(z.take(0) =~= x.take(0));
        assert(0 <= 0 < z.len() && 0 < x.len() && z.take(0) == x.take(0) && (z[0] as u32) < (x[0] as u32));
    }
    if a / 10 == b / 10 {
        assert(x.take(1) =~= y.take(1));
        assert(0 <= 1 < x.len() && 1 < y.len() && x.take(1) == y.take(1) && (x[1] as u32) < (y[1] as u32));
    } else {
        assert(x.take(0) =~= y.take(0));
        assert(0 <= 0 < x.len() && 0 < y.len() && x.take(0) == y.take(0) && (x[0] as u32) < (y[0] as u32));
    }
}

} // verus!
