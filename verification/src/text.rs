//! String helpers with exact contracts.

use vstd::prelude::*;

verus! {

/// Appends one character (`String::push`).
#[verifier::external_body]
pub(crate) fn push_char(s: &mut String, c: char)
    ensures
        final(s)@ == old(s)@.push(c),
{
    s.push(c);
}

/// Character-wise string equality.
pub fn str_eq(a: &str, b: &str) -> (r: bool)
    ensures
        r == (a@ == b@),
{
    let n = a.unicode_len();
    if n != b.unicode_len() {
        return false;
    }
    let mut i: usize = 0;
    while i < n
        invariant
            n == a@.len(),
            n == b@.len(),
            i <= n,
            forall|j: int| 0 <= j < i ==> a@[j] == b@[j],
        decreases n - i,
    {
        if a.get_char(i) != b.get_char(i) {
            return false;
        }
        i += 1;
    }
    proof {
        assert(a@ =~= b@);
    }
    true
}

/// Whether `s` begins with `p` (`str::starts_with`).
pub fn starts_with(s: &str, p: &str) -> (r: bool)
    ensures
        r == p@.is_prefix_of(s@),
{
    let n = p.unicode_len();
    if n > s.unicode_len() {
        return false;
    }
    let mut i: usize = 0;
    while i < n
        invariant
            n == p@.len(),
            n <= s@.len(),
            i <= n,
            forall|j: int| 0 <= j < i ==> p@[j] == s@[j],
        decreases n - i,
    {
        if p.get_char(i) != s.get_char(i) {
            return false;
        }
        i += 1;
    }
    true
}

} // verus!

verus! {

/// What `html_escape::encode_text` writes for one character.
pub open spec fn escape_char(c: char) -> Seq<char> {
    if c == '&' {
        "&amp;"@
    } else if c == '<' {
        "&lt;"@
    } else if c == '>' {
        "&gt;"@
    } else {
        seq![c]
    }
}

/// Text escaped for HTML: `&`, `<` and `>` become entities, every other
/// character stays.
pub open spec fn escape_text(s: Seq<char>) -> Seq<char>
    decreases s.len(),
{
    if s.len() == 0 {
        Seq::empty()
    } else {
        escape_text(s.drop_last()) + escape_char(s.last())
    }
}

/// Escaped text holds no `<` and no `>`: it cannot open or close a tag.
pub proof fn lemma_escape_text_has_no_tags(s: Seq<char>)
    ensures
        forall|i: int| 0 <= i < escape_text(s).len() ==> #[trigger] escape_text(s)[i] != '<' && escape_text(s)[i] != '>',
    decreases s.len(),
{
    reveal_strlit("&amp;");
    reveal_strlit("&lt;");
    reveal_strlit("&gt;");
    if s.len() > 0 {
        lemma_escape_text_has_no_tags(s.drop_last());
        let a = escape_text(s.drop_last());
        let b = escape_char(s.last());
        assert forall|i: int| 0 <= i < (a + b).len() implies #[trigger] (a + b)[i] != '<' && (a + b)[i] != '>' by {
            if i < a.len() {
                assert((a + b)[i] == a[i]);
            } else {
                assert((a + b)[i] == b[i - a.len()]);
            }
        }
    }
}

/// `html_escape::encode_text`: replaces `&`, `<` and `>` by `&amp;`, `&lt;`
/// and `&gt;` and leaves every other character as it is (the crate's
/// `escape_text` table); the contract claims exactly that.
#[verifier::external_body]
pub(crate) fn encode_text(s: &str) -> (r: String)
    ensures
        r@ == escape_text(s@),
{
    html_escape::encode_text(s).into_owned()
}

/// Appends `s` to `out`.
pub fn push_str(out: &mut String, s: &str)
    ensures
        final(out)@ == old(out)@ + s@,
{
    out.append(s);
}

/// Decimal digits of a natural number, most significant first.
pub open spec fn decimal(n: nat) -> Seq<char>
    decreases n,
{
    if n < 10 {
        seq![digit_char(n)]
    } else {
        decimal(n / 10).push(digit_char(n % 10))
    }
}

pub open spec fn digit_char(d: nat) -> char {
    if d == 0 { '0' } else if d == 1 { '1' } else if d == 2 { '2' } else if d == 3 { '3' }
    else if d == 4 { '4' } else if d == 5 { '5' } else if d == 6 { '6' } else if d == 7 { '7' }
    else if d == 8 { '8' } else { '9' }
}

fn digit(d: u64) -> (c: char)
    requires
        d < 10,
    ensures
        c == digit_char(d as nat),
{
    if d == 0 { '0' } else if d == 1 { '1' } else if d == 2 { '2' } else if d == 3 { '3' }
    else if d == 4 { '4' } else if d == 5 { '5' } else if d == 6 { '6' } else if d == 7 { '7' }
    else if d == 8 { '8' } else { '9' }
}

/// Appends the decimal form of `n` (as `{}` formats an unsigned integer).
pub fn push_decimal(out: &mut String, n: u64)
    ensures
        final(out)@ == old(out)@ + decimal(n as nat),
    decreases n,
{
    if n < 10 {
        push_char(out, digit(n));
    } else {
        push_decimal(out, n / 10);
        push_char(out, digit(n % 10));
    }
}

/// Appends `c` repeated `n` times.
pub fn push_repeat(out: &mut String, c: char, n: u64)
    ensures
        final(out)@ == old(out)@ + Seq::new(n as nat, |i: int| c),
{
    let mut i: u64 = 0;
    while i < n
        invariant
            i <= n,
            out@ == old(out)@ + Seq::new(i as nat, |j: int| c),
        decreases n - i,
    {
        push_char(out, c);
        i += 1;
        proof {
            assert(out@ =~= old(out)@ + Seq::new(i as nat, |j: int| c));
        }
    }
}

} // verus!

verus! {

/// An ASCII letter or digit.
pub open spec fn is_ascii_alnum(c: char) -> bool {
    ('a' <= c && c <= 'z') || ('A' <= c && c <= 'Z') || ('0' <= c && c <= '9')
}

/// Whether `c` is an ASCII letter or digit (see `is_ascii_alnum`).
pub fn char_is_ascii_alnum(c: char) -> (r: bool)
    ensures
        r == is_ascii_alnum(c),
{
    ('a' <= c && c <= 'z') || ('A' <= c && c <= 'Z') || ('0' <= c && c <= '9')
}

/// `char::is_whitespace`: the characters with the Unicode `White_Space`
/// property: tab, line feed, vertical tab, form feed, carriage return and
/// space in ASCII, and U+0085, U+00A0, U+1680, U+2000 to U+200A, U+2028,
/// U+2029, U+202F, U+205F and U+3000 beyond.
pub open spec fn is_whitespace(c: char) -> bool {
    let n = c as u32;
    n == 32 || (9 <= n && n <= 13) || n == 0x85 || n == 0xA0 || n == 0x1680 || (0x2000 <= n && n <= 0x200A)
        || n == 0x2028 || n == 0x2029 || n == 0x202F || n == 0x205F || n == 0x3000
}

/// Whether `c` is white space (see `is_whitespace`).
pub fn char_is_whitespace(c: char) -> (r: bool)
    ensures
        r == is_whitespace(c),
{
    let n = c as u32;
    n == 32 || (9 <= n && n <= 13) || n == 0x85 || n == 0xA0 || n == 0x1680 || (0x2000 <= n && n <= 0x200A)
        || n == 0x2028 || n == 0x2029 || n == 0x202F || n == 0x205F || n == 0x3000
}

/// `char::to_ascii_lowercase`.
pub open spec fn ascii_lower(c: char) -> char {
    if 'A' <= c && c <= 'Z' {
        (((c as u8) + 32) as u8) as char
    } else {
        c
    }
}

pub fn to_ascii_lowercase(c: char) -> (r: char)
    ensures
        r == ascii_lower(c),
{
    if 'A' <= c && c <= 'Z' {
        ((c as u8) + 32) as char
    } else {
        c
    }
}

/// What one character becomes in a slug before separators are squeezed:
/// ASCII letters and digits, lowercased; anything else is a separator.
pub open spec fn slug_char(c: char) -> char {
    if is_ascii_alnum(c) {
        ascii_lower(c)
    } else {
        '-'
    }
}

/// Splits `m` at `-`, drops the empty pieces and joins the rest with `-`.
pub open spec fn squeeze_dashes(m: Seq<char>) -> Seq<char>
    decreases m.len(),
{
    if m.len() == 0 {
        Seq::empty()
    } else {
        let r = squeeze_dashes(m.drop_last());
        let c = m.last();
        if c == '-' {
            r
        } else if m.len() >= 2 && m[m.len() - 2] == '-' && r.len() > 0 {
            r.push('-').push(c)
        } else {
            r.push(c)
        }
    }
}

/// A URL-safe lowercase slug: every character that is not an ASCII letter
/// or digit becomes a separator, letters are lowercased, and the pieces
/// between separators that are not empty are joined with single `-`.
pub open spec fn slugify(s: Seq<char>) -> Seq<char> {
    squeeze_dashes(s.map_values(|c: char| slug_char(c)))
}

/// A character that may stand in a slug: `-`, a lowercase ASCII letter or
/// an ASCII digit.
pub open spec fn slug_piece_char(c: char) -> bool {
    c == '-' || ('a' <= c && c <= 'z') || ('0' <= c && c <= '9')
}

/// A well-formed slug: only slug characters, no `-` at either end, and never
/// two `-` in a row.
pub open spec fn is_slug(s: Seq<char>) -> bool {
    &&& forall|i: int| 0 <= i < s.len() ==> slug_piece_char(#[trigger] s[i])
    &&& s.len() > 0 ==> s[0] != '-' && s.last() != '-'
    &&& forall|i: int, j: int|
        #![trigger s[i], s[j]]
        0 <= i && j == i + 1 && j < s.len() ==> !(s[i] == '-' && s[j] == '-')
}

proof fn lemma_slug_char(c: char)
    ensures
        slug_piece_char(slug_char(c)),
        slug_piece_char(c) ==> slug_char(c) == c,
{
    if 'A' <= c && c <= 'Z' {
        let l = ascii_lower(c);
        assert((c as u32) < 128);
        assert(c as u8 == c as u32);
        assert(l as u32 == c as u32 + 32);
        assert('a' <= l && l <= 'z');
    }
}

proof fn lemma_squeeze_is_slug(m: Seq<char>)
    requires
        forall|i: int| 0 <= i < m.len() ==> slug_piece_char(#[trigger] m[i]),
    ensures
        is_slug(squeeze_dashes(m)),
    decreases m.len(),
{
    if m.len() > 0 {
        let init = m.drop_last();
        assert forall|i: int| 0 <= i < init.len() implies slug_piece_char(#[trigger] init[i]) by {
            assert(init[i] == m[i]);
        }
        lemma_squeeze_is_slug(init);
        let r = squeeze_dashes(init);
        let c = m.last();
        assert(slug_piece_char(m[m.len() - 1]));
        if c == '-' {
        } else if m.len() >= 2 && m[m.len() - 2] == '-' && r.len() > 0 {
            let x = r.push('-').push(c);
            assert(x == squeeze_dashes(m));
            assert forall|i: int| 0 <= i < x.len() implies slug_piece_char(#[trigger] x[i]) by {
                if i < r.len() {
                    assert(x[i] == r[i]);
                }
            }
            assert forall|i: int, j: int| 0 <= i && j == i + 1 && j < x.len() implies !(#[trigger] x[i] == '-'
                && #[trigger] x[j] == '-') by {
                if j < r.len() {
                    assert(x[i] == r[i] && x[j] == r[j]);
                } else if j == r.len() {
                    assert(x[i] == r[r.len() - 1]);
                }
            }
            assert(x[0] == r[0]);
        } else {
            let x = r.push(c);
            assert(x == squeeze_dashes(m));
            assert forall|i: int| 0 <= i < x.len() implies slug_piece_char(#[trigger] x[i]) by {
                if i < r.len() {
                    assert(x[i] == r[i]);
                }
            }
            assert forall|i: int, j: int| 0 <= i && j == i + 1 && j < x.len() implies !(#[trigger] x[i] == '-'
                && #[trigger] x[j] == '-') by {
                if j < r.len() {
                    assert(x[i] == r[i] && x[j] == r[j]);
                }
            }
            if r.len() > 0 {
                assert(x[0] == r[0]);
            }
        }
    }
}

proof fn lemma_squeeze_keeps(m: Seq<char>)
    requires
        m.len() > 0 ==> m[0] != '-',
        forall|i: int, j: int|
            #![trigger m[i], m[j]]
            0 <= i && j == i + 1 && j < m.len() ==> !(m[i] == '-' && m[j] == '-'),
    ensures
        squeeze_dashes(m) == (if m.len() > 0 && m.last() == '-' { m.drop_last() } else { m }),
    decreases m.len(),
{
    if m.len() > 0 {
        let init = m.drop_last();
        assert forall|i: int, j: int| 0 <= i && j == i + 1 && j < init.len() implies !(#[trigger] init[i] == '-'
            && #[trigger] init[j] == '-') by {
            assert(init[i] == m[i] && init[j] == m[j]);
        }
        if init.len() > 0 {
            assert(init[0] == m[0]);
        }
        lemma_squeeze_keeps(init);
        let n = m.len() as int;
        if m.last() == '-' {
            if n >= 2 {
                assert(!(m[n - 2] == '-' && m[n - 1] == '-'));
            }
            assert(init.len() > 0);
        } else if n >= 2 && m[n - 2] == '-' {
            assert(init.last() == '-');
            if init.len() == 1 {
                assert(init[0] == m[0]);
            }
            assert(init.drop_last().push('-').push(m.last()) == m);
        } else {
            assert(init.push(m.last()) == m);
        }
    }
}

/// A slug is well formed: it holds only `-`, lowercase ASCII letters and
/// ASCII digits, with no `-` at either end and never two `-` in a row.
pub proof fn lemma_slugify_is_slug(s: Seq<char>)
    ensures
        is_slug(slugify(s)),
{
    let m = s.map_values(|c: char| slug_char(c));
    assert forall|i: int| 0 <= i < m.len() implies slug_piece_char(#[trigger] m[i]) by {
        lemma_slug_char(s[i]);
    }
    lemma_squeeze_is_slug(m);
}

/// Slugifying a slug gives it back.
pub proof fn lemma_slugify_idempotent(s: Seq<char>)
    ensures
        slugify(slugify(s)) == slugify(s),
{
    let w = slugify(s);
    lemma_slugify_is_slug(s);
    let m = w.map_values(|c: char| slug_char(c));
    assert forall|i: int| 0 <= i < m.len() implies #[trigger] m[i] == w[i] by {
        lemma_slug_char(w[i]);
    }
    assert(m == w);
    lemma_squeeze_keeps(w);
}

} // verus!

verus! {

/// A line as `str::lines` yields it: a `\r` just before the `\n` is dropped.
pub open spec fn strip_cr(l: Seq<char>) -> Seq<char> {
    if l.len() > 0 && l.last() == '\r' {
        l.drop_last()
    } else {
        l
    }
}

/// Splitting of `s` into lines, scanning left to right: `cur` is the line
/// read so far and `acc` the lines already finished.
pub open spec fn lines_from(s: Seq<char>, cur: Seq<char>, acc: Seq<Seq<char>>) -> Seq<Seq<char>>
    decreases s.len(),
{
    if s.len() == 0 {
        if cur.len() > 0 {
            acc.push(cur)
        } else {
            acc
        }
    } else if s[0] == '\n' {
        lines_from(s.drop_first(), Seq::empty(), acc.push(strip_cr(cur)))
    } else {
        lines_from(s.drop_first(), cur.push(s[0]), acc)
    }
}

/// `str::lines`: the pieces between `\n`s (an `\r` before a `\n` dropped), with
/// no final empty piece after a trailing `\n`.
pub open spec fn lines(s: Seq<char>) -> Seq<Seq<char>> {
    lines_from(s, Seq::empty(), Seq::empty())
}

pub open spec fn views(v: Seq<String>) -> Seq<Seq<char>> {
    v.map_values(|l: String| l@)
}

/// Splits `s` into its lines, as `str::lines` does.
pub fn split_lines(s: &str) -> (r: Vec<String>)
    ensures
        views(r@) == lines(s@),
{
    let mut acc: Vec<String> = Vec::new();
    let mut cur = String::new();
    let ghost full = s@;
    proof {
        assert(full.skip(0) == full);
        assert(views(acc@) =~= Seq::<Seq<char>>::empty());
    }
    for c in it: s.chars()
        invariant
            it.seq() == full,
            it.index() <= full.len(),
            lines(full) == lines_from(full.skip(it.index() as int), cur@, views(acc@)),
    {
        let ghost i = it.index() as int;
        let ghost old_acc = views(acc@);
        let ghost old_cur = cur@;
        proof {
            assert(full.skip(i)[0] == c);
            assert(full.skip(i).drop_first() == full.skip(i + 1));
        }
        if c == '\n' {
            let line = strip_cr_string(cur);
            acc.push(line);
            cur = String::new();
            proof {
                assert(views(acc@) =~= old_acc.push(strip_cr(old_cur)));
            }
        } else {
            push_char(&mut cur, c);
        }
    }
    proof {
        assert(full.skip(full.len() as int) =~= Seq::<char>::empty());
    }
    if cur.unicode_len() > 0 {
        let ghost old_acc = views(acc@);
        acc.push(cur);
        proof {
            assert(views(acc@) =~= old_acc.push(cur@));
        }
    }
    acc
}

fn strip_cr_string(l: String) -> (r: String)
    ensures
        r@ == strip_cr(l@),
{
    let n = l.unicode_len();
    if n > 0 && l.get_char(n - 1) == '\r' {
        let mut r = String::new();
        let mut i: usize = 0;
        while i < n - 1
            invariant
                n == l@.len(),
                n > 0,
                i <= n - 1,
                r@ == l@.take(i as int),
            decreases n - 1 - i,
        {
            push_char(&mut r, l.get_char(i));
            i += 1;
            proof {
                assert(r@ =~= l@.take(i as int));
            }
        }
        proof {
            assert(l@.drop_last() =~= l@.take(n - 1));
        }
        r
    } else {
        l
    }
}

/// `s` without its trailing whitespace (`str::trim_end`).
pub open spec fn trim_end(s: Seq<char>) -> Seq<char>
    decreases s.len(),
{
    if s.len() > 0 && is_whitespace(s.last()) {
        trim_end(s.drop_last())
    } else {
        s
    }
}

proof fn lemma_trim_end_prefix(s: Seq<char>, k: int)
    requires
        0 <= k <= s.len(),
        forall|j: int| k <= j < s.len() ==> is_whitespace(#[trigger] s[j]),
    ensures
        trim_end(s) == trim_end(s.take(k)),
    decreases s.len() - k,
{
    if k < s.len() {
        assert(s.drop_last() == s.take(s.len() - 1));
        lemma_trim_end_prefix(s.drop_last(), k);
        assert(s.drop_last().take(k) == s.take(k));
    } else {
        assert(s.take(k) == s);
    }
}

/// Removes trailing whitespace.
pub fn trim_end_string(s: &str) -> (r: String)
    ensures
        r@ == trim_end(s@),
{
    let mut chars: Vec<char> = Vec::new();
    let ghost full = s@;
    for c in it: s.chars()
        invariant
            it.seq() == full,
            it.index() <= full.len(),
            chars@ == full.take(it.index() as int),
    {
        chars.push(c);
        proof {
            assert(chars@ =~= full.take(it.index() + 1));
        }
    }
    proof {
        assert(chars@ == full);
    }
    let mut end = chars.len();
    while end > 0 && char_is_whitespace(chars[end - 1])
        invariant
            end <= chars@.len(),
            chars@ == full,
            forall|j: int| end <= j < full.len() ==> is_whitespace(#[trigger] full[j]),
        decreases end,
    {
        end -= 1;
    }
    proof {
        lemma_trim_end_prefix(full, end as int);
        let t = full.take(end as int);
        if end > 0 {
            assert(t.last() == full[end - 1]);
            assert(!is_whitespace(t.last()));
        }
    }
    let mut r = String::new();
    let mut i: usize = 0;
    while i < end
        invariant
            end <= chars@.len(),
            chars@ == full,
            i <= end,
            r@ == full.take(i as int),
        decreases end - i,
    {
        push_char(&mut r, chars[i]);
        i += 1;
        proof {
            assert(r@ =~= full.take(i as int));
        }
    }
    r
}

/// `s` with every line feed replaced by a space.
pub open spec fn replace_newlines(s: Seq<char>) -> Seq<char> {
    s.map_values(|c: char| if c == '\n' { ' ' } else { c })
}

/// Appends `s` with line feeds replaced by spaces (`s.replace('\n', " ")`).
pub fn push_replacing_newlines(out: &mut String, s: &str)
    ensures
        final(out)@ == old(out)@ + replace_newlines(s@),
{
    let ghost full = s@;
    for c in it: s.chars()
        invariant
            it.seq() == full,
            it.index() <= full.len(),
            out@ == old(out)@ + replace_newlines(full.take(it.index() as int)),
    {
        push_char(out, if c == '\n' { ' ' } else { c });
        proof {
            assert(replace_newlines(full.take(it.index() + 1)) =~= replace_newlines(
                full.take(it.index() as int),
            ).push(if c == '\n' { ' ' } else { c }));
        }
    }
    proof {
        assert(full.take(full.len() as int) == full);
    }
}

/// Upper-case form of a string, as `str::to_uppercase` computes it
/// (Unicode case mapping).
pub uninterp spec fn to_uppercase(s: Seq<char>) -> Seq<char>;

/// `char::to_ascii_uppercase`.
pub open spec fn ascii_upper(c: char) -> char {
    if 'a' <= c && c <= 'z' {
        (((c as u8) - 32) as u8) as char
    } else {
        c
    }
}

/// The upper-case form of a string: on ASCII text each letter `a` to `z`
/// becomes `A` to `Z`; beyond ASCII, Unicode case mapping.
pub open spec fn upper_case(s: Seq<char>) -> Seq<char> {
    if forall|i: int| 0 <= i < s.len() ==> (s[i] as u32) < 128 {
        s.map_values(|c: char| ascii_upper(c))
    } else {
        to_uppercase(s)
    }
}

/// `str::to_uppercase`. The contract names the result as a function of the
/// argument alone, and states it for ASCII text: letters `a` to `z` become
/// `A` to `Z`, every other character stays. The Unicode case mapping beyond
/// ASCII is not described.
#[verifier::external_body]
pub(crate) fn str_to_uppercase(s: &str) -> (r: String)
    ensures
        r@ == to_uppercase(s@),
        (forall|i: int| 0 <= i < s@.len() ==> (s@[i] as u32) < 128) ==> r@ == s@.map_values(
            |c: char| ascii_upper(c),
        ),
{
    s.to_uppercase()
}

/// Each line prefixed with `> ` and ended with a line feed.
pub open spec fn quote_lines(ls: Seq<Seq<char>>) -> Seq<char>
    decreases ls.len(),
{
    if ls.len() == 0 {
        Seq::empty()
    } else {
        quote_lines(ls.drop_last()) + "> "@ + ls.last() + "\n"@
    }
}

/// Each line prefixed with `indent` and ended with a line feed.
pub open spec fn indented_lines(ls: Seq<Seq<char>>, indent: Seq<char>) -> Seq<char>
    decreases ls.len(),
{
    if ls.len() == 0 {
        Seq::empty()
    } else {
        indented_lines(ls.drop_last(), indent) + indent + ls.last() + "\n"@
    }
}

/// The first line as it is, the others indented, each ended with a line
/// feed; a single line feed when there are no lines.
pub open spec fn hanging_lines(ls: Seq<Seq<char>>, indent: Seq<char>) -> Seq<char> {
    if ls.len() == 0 {
        "\n"@
    } else {
        ls[0] + "\n"@ + indented_lines(ls.subrange(1, ls.len() as int), indent)
    }
}

/// Appends each line prefixed with `> `.
pub fn push_quoted_lines(out: &mut String, ls: &Vec<String>)
    ensures
        final(out)@ == old(out)@ + quote_lines(views(ls@)),
{
    let n = ls.len();
    let mut i: usize = 0;
    while i < n
        invariant
            n == ls@.len(),
            i <= n,
            out@ == old(out)@ + quote_lines(views(ls@).take(i as int)),
        decreases n - i,
    {
        proof {
            assert(views(ls@).take(i + 1).drop_last() == views(ls@).take(i as int));
            assert(views(ls@).take(i + 1).last() == ls@[i as int]@);
        }
        push_str(out, "> ");
        push_str(out, ls[i].as_str());
        push_str(out, "\n");
        i += 1;
    }
    proof {
        assert(views(ls@).take(n as int) == views(ls@));
    }
}

/// Appends the lines with every line but the first indented by `indent`.
pub fn push_hanging_lines(out: &mut String, ls: &Vec<String>, indent: &str)
    ensures
        final(out)@ == old(out)@ + hanging_lines(views(ls@), indent@),
{
    let n = ls.len();
    if n == 0 {
        push_str(out, "\n");
        return;
    }
    push_str(out, ls[0].as_str());
    push_str(out, "\n");
    let ghost rest = views(ls@).subrange(1, n as int);
    let ghost start = out@;
    let mut i: usize = 1;
    while i < n
        invariant
            n == ls@.len(),
            1 <= i <= n,
            rest == views(ls@).subrange(1, n as int),
            out@ == start + indented_lines(rest.take(i - 1), indent@),
        decreases n - i,
    {
        proof {
            assert(rest.take(i as int).drop_last() == rest.take(i - 1));
            assert(rest.take(i as int).last() == ls@[i as int]@);
        }
        push_str(out, indent);
        push_str(out, ls[i].as_str());
        push_str(out, "\n");
        i += 1;
    }
    proof {
        assert(rest.take(n - 1) == rest);
    }
}

} // verus!
