//! The template filters: `slugify`, `date_fmt` and `safe_html`.

use vstd::prelude::*;
use crate::blocks::inline::slugify_text;
use crate::text::{decimal, slugify, push_str, push_char, push_decimal, views};

verus! {

// ---------------------------------------------------------------------------
// slugify
// ---------------------------------------------------------------------------

/// The `slugify` filter: a URL-safe lowercase slug.
pub fn filter_slugify(value: &str) -> (r: String)
    ensures
        r@ == slugify(value@),
{
    slugify_text(value)
}

// ---------------------------------------------------------------------------
// safe_html
// ---------------------------------------------------------------------------

/// What the `safe_html` filter writes for one character.
pub open spec fn html_entity(c: char) -> Seq<char> {
    if c == '&' {
        "&amp;"@
    } else if c == '<' {
        "&lt;"@
    } else if c == '>' {
        "&gt;"@
    } else if c == '"' {
        "&quot;"@
    } else if c == '\'' {
        "&#39;"@
    } else {
        seq![c]
    }
}

/// `&`, `<`, `>`, `"` and `'` replaced by their entities.
pub open spec fn escape_html(s: Seq<char>) -> Seq<char>
    decreases s.len(),
{
    if s.len() == 0 {
        Seq::empty()
    } else {
        escape_html(s.drop_last()) + html_entity(s.last())
    }
}

/// Text through `safe_html` holds none of `<`, `>`, `"` and `'`: it can
/// stand in element content and in quoted attribute values.
pub proof fn lemma_escape_html_is_safe(s: Seq<char>)
    ensures
        forall|i: int|
            0 <= i < escape_html(s).len() ==> {
                let c = #[trigger] escape_html(s)[i];
                c != '<' && c != '>' && c != '"' && c != '\''
            },
    decreases s.len(),
{
    reveal_strlit("&amp;");
    reveal_strlit("&lt;");
    reveal_strlit("&gt;");
    reveal_strlit("&quot;");
    reveal_strlit("&#39;");
    if s.len() > 0 {
        lemma_escape_html_is_safe(s.drop_last());
        let a = escape_html(s.drop_last());
        let b = html_entity(s.last());
        assert forall|i: int| 0 <= i < (a + b).len() implies {
            let c = #[trigger] (a + b)[i];
            c != '<' && c != '>' && c != '"' && c != '\''
        } by {
            if i < a.len() {
                assert((a + b)[i] == a[i]);
            } else {
                assert((a + b)[i] == b[i - a.len()]);
            }
        }
    }
}

/// The `safe_html` filter: escapes the HTML special characters.
pub fn filter_safe_html(value: &str) -> (r: String)
    ensures
        r@ == escape_html(value@),
{
    let mut out = String::new();
    let ghost full = value@;
    for c in it: value.chars()
        invariant
            it.seq() == full,
            it.index() <= full.len(),
            out@ == escape_html(full.take(it.index() as int)),
    {
        proof {
            assert(full.take(it.index() + 1).drop_last() == full.take(it.index() as int));
        }
        if c == '&' {
            push_str(&mut out, "&amp;");
        } else if c == '<' {
            push_str(&mut out, "&lt;");
        } else if c == '>' {
            push_str(&mut out, "&gt;");
        } else if c == '"' {
            push_str(&mut out, "&quot;");
        } else if c == '\'' {
            push_str(&mut out, "&#39;");
        } else {
            push_char(&mut out, c);
        }
    }
    proof {
        assert(full.take(full.len() as int) == full);
    }
    out
}

// ---------------------------------------------------------------------------
// date_fmt
// ---------------------------------------------------------------------------

/// The English name of month `m`, empty outside 1 to 12.
pub open spec fn month_name_spec(m: nat) -> Seq<char> {
    if m == 1 {
        "January"@
    } else if m == 2 {
        "February"@
    } else if m == 3 {
        "March"@
    } else if m == 4 {
        "April"@
    } else if m == 5 {
        "May"@
    } else if m == 6 {
        "June"@
    } else if m == 7 {
        "July"@
    } else if m == 8 {
        "August"@
    } else if m == 9 {
        "September"@
    } else if m == 10 {
        "October"@
    } else if m == 11 {
        "November"@
    } else if m == 12 {
        "December"@
    } else {
        ""@
    }
}

/// Month `m` (1 to 12) is named by the English calendar, January first and
/// December last; any other number has the empty name.
pub proof fn lemma_month_names(m: nat)
    ensures
        1 <= m <= 12 ==> month_name_spec(m) == seq![
            "January"@, "February"@, "March"@, "April"@, "May"@, "June"@, "July"@, "August"@,
            "September"@, "October"@, "November"@, "December"@,
        ][m - 1],
        !(1 <= m <= 12) ==> month_name_spec(m) == ""@,
{
}

/// The English name of month `m` (1 = January), or `""`.
pub fn month_name(m: u8) -> (r: &'static str)
    ensures
        r@ == month_name_spec(m as nat),
{
    match m {
        1 => "January",
        2 => "February",
        3 => "March",
        4 => "April",
        5 => "May",
        6 => "June",
        7 => "July",
        8 => "August",
        9 => "September",
        10 => "October",
        11 => "November",
        12 => "December",
        _ => "",
    }
}

/// The pieces of `s` between `-` characters (as `str::split('-')`), read left
/// to right: `cur` is the piece read so far, `acc` the pieces finished.
pub open spec fn split_dash_from(s: Seq<char>, cur: Seq<char>, acc: Seq<Seq<char>>) -> Seq<Seq<char>>
    decreases s.len(),
{
    if s.len() == 0 {
        acc.push(cur)
    } else if s[0] == '-' {
        split_dash_from(s.drop_first(), Seq::empty(), acc.push(cur))
    } else {
        split_dash_from(s.drop_first(), cur.push(s[0]), acc)
    }
}

pub open spec fn split_dash(s: Seq<char>) -> Seq<Seq<char>> {
    split_dash_from(s, Seq::empty(), Seq::empty())
}

pub open spec fn is_digit(c: char) -> bool {
    '0' <= c && c <= '9'
}

pub open spec fn digits_value(s: Seq<char>) -> nat
    decreases s.len(),
{
    if s.len() == 0 {
        0
    } else {
        digits_value(s.drop_last()) * 10 + ((s.last() as u32) - ('0' as u32)) as nat
    }
}

/// How Rust parses an unsigned number no larger than `max`: an optional
/// `+`, then one or more decimal digits.
pub open spec fn parse_part(s: Seq<char>, max: nat) -> Option<nat> {
    let body = strip_plus(s);
    if body.len() > 0 && all_digits(body) && digits_value(body) <= max {
        Some(digits_value(body))
    } else {
        None
    }
}

/// `s` without one leading `+`.
pub open spec fn strip_plus(s: Seq<char>) -> Seq<char> {
    if s.len() > 0 && s[0] == '+' {
        s.drop_first()
    } else {
        s
    }
}

pub open spec fn all_digits(s: Seq<char>) -> bool {
    forall|i: int| 0 <= i < s.len() ==> is_digit(#[trigger] s[i])
}

/// Year, month and day of `YYYY-MM-DD`: three `-`-separated pieces parsing
/// as an `i32`, a `u8` and a `u8`, with a month from 1 to 12 and a day from
/// 1 to 31.
pub open spec fn parse_date(p: Seq<char>) -> Option<(nat, nat, nat)> {
    let parts = split_dash(p);
    if parts.len() == 3 {
        match (parse_part(parts[0], 2147483647), parse_part(parts[1], 255), parse_part(parts[2], 255)) {
            (Some(y), Some(m), Some(d)) => if 1 <= m <= 12 && 1 <= d <= 31 {
                Some((y, m, d))
            } else {
                None
            },
            _ => None,
        }
    } else {
        None
    }
}

/// `s` left-padded with zeros to `width` characters.
pub open spec fn zero_pad(s: Seq<char>, width: nat) -> Seq<char> {
    if s.len() < width {
        Seq::new((width - s.len()) as nat, |i: int| '0') + s
    } else {
        s
    }
}

/// Every non-overlapping occurrence of `pat` in `s`, left to right,
/// replaced by `rep` (`str::replace`).
pub open spec fn replace_all(s: Seq<char>, pat: Seq<char>, rep: Seq<char>) -> Seq<char>
    decreases s.len(),
{
    if pat.len() == 0 || s.len() < pat.len() {
        s
    } else if s.take(pat.len() as int) == pat {
        rep + replace_all(s.skip(pat.len() as int), pat, rep)
    } else {
        seq![s[0]] + replace_all(s.drop_first(), pat, rep)
    }
}

/// The `date_fmt` filter: when the first ten characters of `value` are a
/// date `Y-M-D` (see `parse_date`), the format with `%Y`, `%m`, `%d` and `%B` replaced (in
/// that order) by the zero-padded year, month, day and the month's name;
/// otherwise `value` unchanged.
pub open spec fn date_fmt(value: Seq<char>, format: Seq<char>) -> Seq<char> {
    if value.len() >= 10 {
        match parse_date(value.take(10)) {
            Some((y, m, d)) => replace_all(
                replace_all(
                    replace_all(replace_all(format, "%Y"@, zero_pad(decimal(y), 4)), "%m"@, zero_pad(decimal(m), 2)),
                    "%d"@,
                    zero_pad(decimal(d), 2),
                ),
                "%B"@,
                month_name_spec(m),
            ),
            None => value,
        }
    } else {
        value
    }
}

/// The format used when none is given: `June 07, 2026`.
pub open spec fn default_date_format() -> Seq<char> {
    "%B %d, %Y"@
}

fn chars_of(s: &str) -> (r: Vec<char>)
    ensures
        r@ == s@,
{
    let mut v: Vec<char> = Vec::new();
    let ghost full = s@;
    for c in it: s.chars()
        invariant
            it.seq() == full,
            it.index() <= full.len(),
            v@ == full.take(it.index() as int),
    {
        v.push(c);
        proof {
            assert(v@ =~= full.take(it.index() + 1));
        }
    }
    proof {
        assert(full.take(full.len() as int) == full);
    }
    v
}

fn split_dashes(p: &Vec<char>) -> (r: Vec<String>)
    ensures
        views(r@) == split_dash(p@),
{
    let mut acc: Vec<String> = Vec::new();
    let mut cur = String::new();
    let n = p.len();
    let mut i: usize = 0;
    proof {
        assert(p@.skip(0) == p@);
        assert(views(acc@) =~= Seq::<Seq<char>>::empty());
    }
    while i < n
        invariant
            n == p@.len(),
            i <= n,
            split_dash(p@) == split_dash_from(p@.skip(i as int), cur@, views(acc@)),
        decreases n - i,
    {
        let ghost old_acc = views(acc@);
        let ghost old_cur = cur@;
        proof {
            assert(p@.skip(i as int)[0] == p@[i as int]);
            assert(p@.skip(i as int).drop_first() == p@.skip(i + 1));
        }
        if p[i] == '-' {
            acc.push(cur);
            cur = String::new();
            proof {
                assert(views(acc@) =~= old_acc.push(old_cur));
            }
        } else {
            push_char(&mut cur, p[i]);
        }
        i += 1;
    }
    proof {
        assert(p@.skip(n as int) =~= Seq::<char>::empty());
    }
    let ghost old_acc = views(acc@);
    acc.push(cur);
    proof {
        assert(views(acc@) =~= old_acc.push(cur@));
    }
    acc
}

/// Parses an unsigned number no larger than `max` (see `parse_part`).
fn parse_number(s: &str, max: u64) -> (r: Option<u64>)
    requires
        max < 0x1_0000_0000,
    ensures
        match r {
            Some(v) => parse_part(s@, max as nat) == Some(v as nat),
            None => parse_part(s@, max as nat) is None,
        },
{
    let v = chars_of(s);
    let n = v.len();
    let start: usize = if n > 0 && v[0] == '+' { 1 } else { 0 };
    let ghost body = strip_plus(s@);
    proof {
        assert(body == v@.subrange(start as int, n as int));
    }
    if start >= n {
        return None;
    }
    let mut value: u64 = 0;
    let mut i = start;
    while i < n
        invariant
            start <= i <= n,
            n == v@.len(),
            body == v@.subrange(start as int, n as int),
            body == strip_plus(s@),
            forall|j: int| start <= j < i ==> is_digit(#[trigger] v@[j]),
            value as nat == digits_value(v@.subrange(start as int, i as int)),
            value <= max,
            max < 0x1_0000_0000,
        decreases n - i,
    {
        let c = v[i];
        if !('0' <= c && c <= '9') {
            proof {
                assert(body[i - start] == c);
                assert(!is_digit(body[i - start]));
                assert(!all_digits(body));
            }
            return None;
        }
        let d = (c as u32 - '0' as u32) as u64;
        proof {
            assert(v@.subrange(start as int, i + 1).drop_last() == v@.subrange(start as int, i as int));
            assert(v@.subrange(start as int, i + 1).last() == c);
        }
        let next = value * 10 + d;
        proof {
            assert(digits_value(v@.subrange(start as int, i + 1)) == next as nat);
        }
        if next > max {
            proof {
                lemma_digits_grow(v@.subrange(start as int, n as int), (i + 1 - start) as int);
                assert(v@.subrange(start as int, n as int).take(i + 1 - start) == v@.subrange(
                    start as int,
                    i + 1,
                ));
            }
            return None;
        }
        value = next;
        i += 1;
    }
    proof {
        assert forall|j: int| 0 <= j < body.len() implies is_digit(#[trigger] body[j]) by {
            assert(body[j] == v@[start + j]);
        }
        assert(v@.subrange(start as int, n as int) == body);
    }
    Some(value)
}

/// A prefix of a digit string has no larger value than the whole.
proof fn lemma_digits_grow(s: Seq<char>, k: int)
    requires
        0 <= k <= s.len(),
        forall|i: int| 0 <= i < k ==> is_digit(#[trigger] s[i]),
    ensures
        (forall|i: int| 0 <= i < s.len() ==> is_digit(#[trigger] s[i])) ==> digits_value(s.take(k))
            <= digits_value(s),
    decreases s.len() - k,
{
    if (forall|i: int| 0 <= i < s.len() ==> is_digit(#[trigger] s[i])) && k < s.len() {
        lemma_digits_grow(s, k + 1);
        assert(s.take(k + 1).drop_last() == s.take(k));
        assert(s.take(k + 1).last() == s[k]);
    }
    if k == s.len() {
        assert(s.take(k) == s);
    }
}

/// Appends `n` left-padded with zeros to `width` digits.
fn push_padded(out: &mut String, n: u64, width: u64)
    requires
        width <= 4,
    ensures
        final(out)@ == old(out)@ + zero_pad(decimal(n as nat), width as nat),
{
    let mut digits = String::new();
    push_decimal(&mut digits, n);
    let len = digits.unicode_len();
    if (len as u64) < width {
        let mut k: u64 = 0;
        let ghost start = out@;
        while k < width - len as u64
            invariant
                k <= width - len,
                len == digits@.len(),
                len < width,
                out@ == start + Seq::new(k as nat, |i: int| '0'),
            decreases width - len - k,
        {
            push_char(out, '0');
            k += 1;
            proof {
                assert(out@ =~= start + Seq::new(k as nat, |i: int| '0'));
            }
        }
    }
    push_str(out, digits.as_str());
}

/// Replaces every non-overlapping occurrence of the two-character pattern
/// `pat` by `rep`, left to right.
fn replace_pattern(s: &str, pat: &str, rep: &str) -> (r: String)
    requires
        pat@.len() == 2,
    ensures
        r@ == replace_all(s@, pat@, rep@),
{
    let v = chars_of(s);
    let p0 = pat.get_char(0);
    let p1 = pat.get_char(1);
    let n = v.len();
    let mut out = String::new();
    let mut i: usize = 0;
    proof {
        assert(v@.skip(0) == v@);
    }
    while i < n
        invariant
            n == v@.len(),
            v@ == s@,
            i <= n,
            pat@.len() == 2,
            p0 == pat@[0],
            p1 == pat@[1],
            out@ + replace_all(v@.skip(i as int), pat@, rep@) == replace_all(s@, pat@, rep@),
        decreases n - i,
    {
        let ghost rest = v@.skip(i as int);
        if i + 1 < n && v[i] == p0 && v[i + 1] == p1 {
            proof {
                assert(rest.take(2) =~= pat@);
                assert(rest.skip(2) =~= v@.skip(i + 2));
                assert(out@ + (rep@ + replace_all(rest.skip(2), pat@, rep@)) =~= (out@ + rep@)
                    + replace_all(rest.skip(2), pat@, rep@));
            }
            push_str(&mut out, rep);
            i += 2;
        } else {
            proof {
                if rest.len() >= 2 {
                    assert(rest.take(2) != pat@) by {
                        if rest.take(2) == pat@ {
                            assert(rest.take(2)[0] == v@[i as int]);
                            assert(rest.take(2)[1] == v@[i + 1]);
                        }
                    }
                }
                assert(rest.drop_first() =~= v@.skip(i + 1));
                assert(rest[0] == v@[i as int]);
                assert(out@ + (seq![rest[0]] + replace_all(rest.drop_first(), pat@, rep@)) =~= out@.push(
                    v@[i as int],
                ) + replace_all(rest.drop_first(), pat@, rep@));
            }
            push_char(&mut out, v[i]);
            i += 1;
        }
    }
    proof {
        assert(v@.skip(n as int) =~= Seq::<char>::empty());
        assert(out@ + Seq::<char>::empty() =~= out@);
    }
    out
}

/// Formats `value` as a date with `format` (see `date_fmt`); a value that is
/// not a date is returned unchanged.
pub fn filter_date_fmt(value: &str, format: &str) -> (r: String)
    ensures
        r@ == date_fmt(value@, format@),
{
    let v = chars_of(value);
    let unchanged = {
        let mut r = String::new();
        push_str(&mut r, value);
        r
    };
    if v.len() < 10 {
        return unchanged;
    }
    let mut p: Vec<char> = Vec::new();
    let mut i: usize = 0;
    while i < 10
        invariant
            i <= 10,
            10 <= v@.len(),
            p@ == v@.take(i as int),
        decreases 10 - i,
    {
        p.push(v[i]);
        i += 1;
        proof {
            assert(p@ =~= v@.take(i as int));
        }
    }
    let parts = split_dashes(&p);
    if parts.len() != 3 {
        return unchanged;
    }
    let y = parse_number(parts[0].as_str(), 2147483647);
    let m = parse_number(parts[1].as_str(), 255);
    let d = parse_number(parts[2].as_str(), 255);
    proof {
        assert(views(parts@)[0] == parts@[0]@);
        assert(views(parts@)[1] == parts@[1]@);
        assert(views(parts@)[2] == parts@[2]@);
    }
    match (y, m, d) {
        (Some(y), Some(m), Some(d)) => {
            if m < 1 || m > 12 || d < 1 || d > 31 {
                return unchanged;
            }
            let mut ys = String::new();
            push_padded(&mut ys, y, 4);
            let mut ms = String::new();
            push_padded(&mut ms, m, 2);
            let mut ds = String::new();
            push_padded(&mut ds, d, 2);
            proof {
                reveal_strlit("%Y");
                reveal_strlit("%m");
                reveal_strlit("%d");
                reveal_strlit("%B");
            }
            let s1 = replace_pattern(format, "%Y", ys.as_str());
            let s2 = replace_pattern(s1.as_str(), "%m", ms.as_str());
            let s3 = replace_pattern(s2.as_str(), "%d", ds.as_str());
            replace_pattern(s3.as_str(), "%B", month_name(m as u8))
        },
        _ => unchanged,
    }
}

} // verus!
