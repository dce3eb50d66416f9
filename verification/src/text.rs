//! Text helpers over character sequences: comparison, search, decimal and
//! hexadecimal rendering.
use vstd::prelude::*;
use vstd::string::*;

verus! {

/// Appends one character (`String::push`).
#[verifier::external_body]
pub(crate) fn push_char(s: &mut String, c: char)
    ensures
        final(s)@ == old(s)@.push(c),
{
    s.push(c);
}

/// Appends a string slice.
pub fn push_str(s: &mut String, t: &str)
    ensures
        final(s)@ == old(s)@ + t@,
{
    let n = t.unicode_len();
    let ghost s0 = s@;
    let mut i: usize = 0;
    while i < n
        invariant
            n == t@.len(),
            i <= n,
            s@ == s0 + t@.subrange(0, i as int),
        decreases n - i,
    {
        let c = t.get_char(i);
        push_char(s, c);
        i = i + 1;
        assert(t@.subrange(0, i as int) == t@.subrange(0, i - 1).push(c));
    }
    assert(t@.subrange(0, n as int) == t@);
}

/// A new string holding the characters of `t`.
pub fn string_of(t: &str) -> (r: String)
    ensures
        r@ == t@,
{
    t.to_owned()
}

/// Character-wise equality of two string slices.
pub fn str_eq(a: &str, b: &str) -> (r: bool)
    ensures
        r == (a@ == b@),
{
    a.to_owned() == b.to_owned()
}

/// The characters of a string slice.
pub fn chars_of(t: &str) -> (r: Vec<char>)
    ensures
        r@ == t@,
{
    let n = t.unicode_len();
    let mut v: Vec<char> = Vec::new();
    let mut i: usize = 0;
    while i < n
        invariant
            n == t@.len(),
            i <= n,
            v@ == t@.subrange(0, i as int),
        decreases n - i,
    {
        v.push(t.get_char(i));
        i = i + 1;
    }
    v
}

/// `pat` occurs in `text` starting at position `i`.
pub open spec fn occurs_at(text: Seq<char>, pat: Seq<char>, i: int) -> bool {
    0 <= i && i + pat.len() <= text.len() && text.subrange(i, i + pat.len()) == pat
}

/// `pat` occurs somewhere in `text`.
pub open spec fn seq_contains(text: Seq<char>, pat: Seq<char>) -> bool {
    exists|i: int| #[trigger] occurs_at(text, pat, i)
}

/// Whether `pat` occurs in `text` at position `i` (character comparison).
fn matches_at(text: &Vec<char>, pat: &Vec<char>, i: usize) -> (r: bool)
    requires
        i + pat@.len() <= text@.len(),
    ensures
        r == occurs_at(text@, pat@, i as int),
{
    let m = pat.len();
    let n = text.len();
    let mut j: usize = 0;
    while j < m
        invariant
            m == pat@.len(),
            n == text@.len(),
            i + pat@.len() <= text@.len(),
            j <= pat@.len(),
            forall|k: int| 0 <= k < j ==> text@[i + k] == pat@[k],
        decreases pat@.len() - j,
    {
        if text[i + j] != pat[j] {
            assert(text@.subrange(i as int, i + pat@.len())[j as int] != pat@[j as int]);
            return false;
        }
        j = j + 1;
    }
    assert(text@.subrange(i as int, i + pat@.len()) =~= pat@);
    true
}

/// First position at which `pat` occurs in `text`.
pub fn find_seq(text: &Vec<char>, pat: &Vec<char>) -> (r: Option<usize>)
    ensures
        match r {
            Some(i) => occurs_at(text@, pat@, i as int) && forall|j: int|
                0 <= j < i ==> !#[trigger] occurs_at(text@, pat@, j),
            None => !seq_contains(text@, pat@),
        },
{
    if pat.len() > text.len() {
        assert forall|j: int| !#[trigger] occurs_at(text@, pat@, j) by {}
        return None;
    }
    let last = text.len() - pat.len();
    let mut i: usize = 0;
    while i < last
        invariant
            last == text@.len() - pat@.len(),
            i <= last,
            forall|j: int| 0 <= j < i ==> !#[trigger] occurs_at(text@, pat@, j),
        decreases last - i,
    {
        if matches_at(text, pat, i) {
            return Some(i);
        }
        i = i + 1;
    }
    if matches_at(text, pat, last) {
        return Some(last);
    }
    assert forall|j: int| !#[trigger] occurs_at(text@, pat@, j) by {
        if 0 <= j && j <= last {
        }
    }
    None
}

/// Whether `pat` occurs in `text`.
pub fn contains(text: &str, pat: &str) -> (r: bool)
    ensures
        r == seq_contains(text@, pat@),
{
    let t = chars_of(text);
    let p = chars_of(pat);
    find_seq(&t, &p).is_some()
}

/// Whether `text` begins with `pat`.
pub fn starts_with(text: &str, pat: &str) -> (r: bool)
    ensures
        r == occurs_at(text@, pat@, 0),
{
    let t = chars_of(text);
    let p = chars_of(pat);
    if p.len() > t.len() {
        return false;
    }
    matches_at(&t, &p, 0)
}

/// Lexicographic order on character sequences (the order of `<` on `str`,
/// since UTF-8 preserves the order of code points).
pub open spec fn seq_lt(a: Seq<char>, b: Seq<char>) -> bool
    decreases a.len(),
{
    if a.len() == 0 {
        b.len() > 0
    } else if b.len() == 0 {
        false
    } else if a[0] != b[0] {
        (a[0] as u32) < (b[0] as u32)
    } else {
        seq_lt(a.drop_first(), b.drop_first())
    }
}

proof fn lemma_seq_lt_skip(a: Seq<char>, b: Seq<char>, i: int)
    requires
        0 <= i <= a.len(),
        i <= b.len(),
        forall|j: int| 0 <= j < i ==> a[j] == b[j],
    ensures
        seq_lt(a, b) == seq_lt(a.skip(i), b.skip(i)),
    decreases i,
{
    if i > 0 {
        assert(a.skip(1) == a.drop_first());
        assert(b.skip(1) == b.drop_first());
        lemma_seq_lt_skip(a.drop_first(), b.drop_first(), i - 1);
        assert(a.drop_first().skip(i - 1) == a.skip(i));
        assert(b.drop_first().skip(i - 1) == b.skip(i));
    } else {
        assert(a.skip(0) == a);
        assert(b.skip(0) == b);
    }
}

/// `a < b` on strings.
pub fn str_lt(a: &str, b: &str) -> (r: bool)
    ensures
        r == seq_lt(a@, b@),
{
    let x = chars_of(a);
    let y = chars_of(b);
    let mut i: usize = 0;
    while i < x.len() && i < y.len() && x[i] == y[i]
        invariant
            i <= x@.len(),
            i <= y@.len(),
            forall|j: int| 0 <= j < i ==> x@[j] == y@[j],
        decreases x@.len() - i,
    {
        i = i + 1;
    }
    proof {
        lemma_seq_lt_skip(x@, y@, i as int);
    }
    if i == x.len() {
        i < y.len()
    } else if i == y.len() {
        false
    } else {
        (x[i] as u32) < (y[i] as u32)
    }
}

/// The first `n` characters of `s`.
pub fn prefix(s: &str, n: usize) -> (r: String)
    requires
        n <= s@.len(),
    ensures
        r@ == s@.take(n as int),
{
    let mut out = String::new();
    let mut i: usize = 0;
    while i < n
        invariant
            n <= s@.len(),
            i <= n,
            out@ == s@.take(i as int),
        decreases n - i,
    {
        push_char(&mut out, s.get_char(i));
        i = i + 1;
        assert(out@ =~= s@.take(i as int));
    }
    out
}

/// The segment after the last `c` (the whole text when `c` does not occur),
/// as `s.split(c).last()` gives it.
pub open spec fn last_segment(s: Seq<char>, c: char) -> Seq<char>
    decreases s.len(),
{
    if s.len() == 0 {
        Seq::empty()
    } else if s.last() == c {
        Seq::empty()
    } else {
        last_segment(s.drop_last(), c).push(s.last())
    }
}

/// The segment of `s` after the last occurrence of `c`.
pub fn after_last(s: &str, c: char) -> (r: String)
    ensures
        r@ == last_segment(s@, c),
{
    let n = s.unicode_len();
    let mut out = String::new();
    let mut i: usize = 0;
    while i < n
        invariant
            n == s@.len(),
            i <= n,
            out@ == last_segment(s@.take(i as int), c),
        decreases n - i,
    {
        let ch = s.get_char(i);
        assert(s@.take(i + 1).drop_last() == s@.take(i as int));
        if ch == c {
            out = String::new();
        } else {
            push_char(&mut out, ch);
        }
        i = i + 1;
    }
    assert(s@.take(n as int) == s@);
    out
}

/// `n` copies of `c`.
pub open spec fn repeat_char(c: char, n: nat) -> Seq<char> {
    Seq::new(n, |i: int| c)
}

/// A string of `n` copies of `c` (`c.to_string().repeat(n)`).
pub fn repeat(c: char, n: usize) -> (r: String)
    ensures
        r@ == repeat_char(c, n as nat),
{
    let mut s = String::new();
    let mut i: usize = 0;
    while i < n
        invariant
            i <= n,
            s@ == repeat_char(c, i as nat),
        decreases n - i,
    {
        push_char(&mut s, c);
        i = i + 1;
        assert(s@ =~= repeat_char(c, i as nat));
    }
    s
}

/// The character of a decimal digit.
pub open spec fn digit_char(d: nat) -> char {
    ((48 + d) as u8) as char
}

/// Decimal rendering of a natural number (as `format!("{}", n)`).
pub open spec fn decimal(n: nat) -> Seq<char>
    decreases n,
{
    if n < 10 {
        seq![digit_char(n)]
    } else {
        decimal(n / 10).push(digit_char(n % 10))
    }
}

/// Decimal rendering of an integer, with a leading `-` when negative.
pub open spec fn signed_decimal(i: int) -> Seq<char> {
    if i < 0 {
        seq!['-'] + decimal((-i) as nat)
    } else {
        decimal(i as nat)
    }
}

fn digit(d: u64) -> (c: char)
    requires
        d < 10,
    ensures
        c == digit_char(d as nat),
{
    ((48 + d) as u8) as char
}

/// Appends the decimal rendering of `n`.
pub fn push_decimal(s: &mut String, n: u64)
    ensures
        final(s)@ == old(s)@ + decimal(n as nat),
    decreases n,
{
    if n >= 10 {
        push_decimal(s, n / 10);
    }
    push_char(s, digit(n % 10));
}

/// Decimal rendering of `n`.
pub fn u64_to_string(n: u64) -> (r: String)
    ensures
        r@ == decimal(n as nat),
{
    let mut s = String::new();
    push_decimal(&mut s, n);
    assert(s@ =~= decimal(n as nat));
    s
}

/// Appends the decimal rendering of `i`, with a leading `-` when negative.
pub fn push_signed_decimal(s: &mut String, i: i64)
    ensures
        final(s)@ == old(s)@ + signed_decimal(i as int),
{
    if i < 0 {
        push_char(s, '-');
        let m: u64 = ((-(i + 1)) as u64) + 1;
        push_decimal(s, m);
        assert(final(s)@ =~= old(s)@ + signed_decimal(i as int));
    } else {
        push_decimal(s, i as u64);
    }
}

/// The lower-case hexadecimal character of a nibble.
pub open spec fn hex_digit(d: nat) -> char {
    if d < 10 {
        ((48 + d) as u8) as char
    } else {
        ((87 + d) as u8) as char
    }
}

/// Lower-case hexadecimal rendering of bytes, two characters per byte
/// (as `hex::encode` and `format!("{:x}", digest)` give it).
pub open spec fn hex_lower(b: Seq<u8>) -> Seq<char>
    decreases b.len(),
{
    if b.len() == 0 {
        Seq::empty()
    } else {
        hex_lower(b.drop_last()) + seq![hex_digit(b.last() as nat / 16), hex_digit(b.last() as nat % 16)]
    }
}

pub proof fn lemma_hex_lower_len(b: Seq<u8>)
    ensures
        hex_lower(b).len() == 2 * b.len(),
    decreases b.len(),
{
    if b.len() > 0 {
        lemma_hex_lower_len(b.drop_last());
    }
}

fn hex_char(d: u8) -> (c: char)
    requires
        d < 16,
    ensures
        c == hex_digit(d as nat),
{
    if d < 10 {
        (48 + d) as char
    } else {
        (87 + d) as char
    }
}

/// Lower-case hexadecimal rendering of `b`.
pub fn hex_encode(b: &[u8]) -> (r: String)
    ensures
        r@ == hex_lower(b@),
        r@.len() == 2 * b@.len(),
{
    let mut s = String::new();
    let mut i: usize = 0;
    while i < b.len()
        invariant
            i <= b@.len(),
            s@ == hex_lower(b@.take(i as int)),
        decreases b@.len() - i,
    {
        let x = b[i];
        push_char(&mut s, hex_char(x / 16));
        push_char(&mut s, hex_char(x % 16));
        i = i + 1;
        assert(b@.take(i as int).drop_last() == b@.take(i - 1));
    }
    assert(b@.take(b@.len() as int) == b@);
    proof {
        lemma_hex_lower_len(b@);
    }
    s
}

/// Value of a hexadecimal digit of either case.
pub open spec fn hex_value(c: char) -> Option<u8> {
    if '0' <= c && c <= '9' {
        Some((c as int - 48) as u8)
    } else if 'a' <= c && c <= 'f' {
        Some((c as int - 87) as u8)
    } else if 'A' <= c && c <= 'F' {
        Some((c as int - 55) as u8)
    } else {
        None
    }
}

/// Decoding of a hexadecimal string (as `hex::decode`): `None` on an odd
/// length or a character that is not a hexadecimal digit.
pub open spec fn hex_decode_spec(s: Seq<char>) -> Option<Seq<u8>>
    decreases s.len(),
{
    if s.len() % 2 == 1 {
        None
    } else if s.len() == 0 {
        Some(Seq::empty())
    } else {
        let hi = hex_value(s[s.len() - 2]);
        let lo = hex_value(s[s.len() - 1]);
        match (hex_decode_spec(s.take(s.len() - 2)), hi, lo) {
            (Some(prefix), Some(h), Some(l)) => Some(prefix.push((h * 16 + l) as u8)),
            _ => None,
        }
    }
}

fn hex_val(c: char) -> (r: Option<u8>)
    ensures
        r == hex_value(c),
{
    if '0' <= c && c <= '9' {
        Some(((c as u32) - 48) as u8)
    } else if 'a' <= c && c <= 'f' {
        Some(((c as u32) - 87) as u8)
    } else if 'A' <= c && c <= 'F' {
        Some(((c as u32) - 55) as u8)
    } else {
        None
    }
}

/// Decodes a hexadecimal string; `None` exactly when `hex_decode_spec` gives `None`.
pub fn hex_decode(t: &str) -> (r: Option<Vec<u8>>)
    ensures
        match r {
            Some(v) => hex_decode_spec(t@) == Some(v@),
            None => hex_decode_spec(t@) is None,
        },
{
    let cs = chars_of(t);
    let n = cs.len();
    if n % 2 == 1 {
        return None;
    }
    let mut out: Vec<u8> = Vec::new();
    let mut i: usize = 0;
    while i < n
        invariant
            n == cs@.len(),
            cs@ == t@,
            n % 2 == 0,
            i <= n,
            i % 2 == 0,
            hex_decode_spec(cs@.take(i as int)) == Some(out@),
        decreases n - i,
    {
        let hi = hex_val(cs[i]);
        let lo = hex_val(cs[i + 1]);
        let ghost pre = cs@.take(i as int);
        let ghost next = cs@.take(i + 2);
        assert(next.take(next.len() - 2) == pre);
        assert(next[next.len() - 2] == cs@[i as int]);
        assert(next[next.len() - 1] == cs@[i + 1]);
        match (hi, lo) {
            (Some(h), Some(l)) => {
                out.push(h * 16 + l);
            },
            _ => {
                assert(hex_decode_spec(next) is None);
                proof {
                    lemma_hex_decode_prefix_none(cs@, i as int + 2);
                }
                return None;
            },
        }
        i = i + 2;
    }
    assert(cs@.take(n as int) == cs@);
    Some(out)
}

/// A failure on an even-length prefix is a failure of the whole string.
proof fn lemma_hex_decode_prefix_none(s: Seq<char>, k: int)
    requires
        s.len() % 2 == 0,
        0 <= k <= s.len(),
        k % 2 == 0,
        hex_decode_spec(s.take(k)) is None,
    ensures
        hex_decode_spec(s) is None,
    decreases s.len() - k,
{
    if k < s.len() {
        let t = s.take(k + 2);
        assert(t.take(t.len() - 2) == s.take(k));
        lemma_hex_decode_prefix_none(s, k + 2);
    } else {
        assert(s.take(k) == s);
    }
}


/// The Unicode lower-case form of a character sequence, as `str::to_lowercase`
/// computes it (a fixed function of the characters).
pub uninterp spec fn lowercase_of(s: Seq<char>) -> Seq<char>;

/// The text with `A`-`Z` turned into `a`-`z` and every other character kept.
pub open spec fn ascii_lower(s: Seq<char>) -> Seq<char> {
    Seq::new(s.len(), |i: int| if 'A' <= s[i] <= 'Z' { ((s[i] as u32) + 32) as char } else { s[i] })
}

/// A character whose lower-case form is known here: ASCII, or one of the
/// caseless CJK blocks (radicals, CJK symbols and punctuation, kana,
/// ideographs: U+2E80 to U+9FFF) or the full-width punctuation U+FF00 to
/// U+FF20, which has no case.
pub open spec fn case_known(c: char) -> bool {
    c < '\u{80}' || ('\u{2E80}' <= c <= '\u{9FFF}') || ('\u{FF00}' <= c <= '\u{FF20}')
}

/// `str::to_lowercase`. The contract names the result; of the Unicode case
/// tables it states only that ASCII letters are lowered one by one and the
/// other characters of `case_known` (which have no case) are kept.
#[verifier::external_body]
pub(crate) fn to_lowercase(s: &str) -> (r: String)
    ensures
        r@ == lowercase_of(s@),
        (forall|i: int| 0 <= i < s@.len() ==> case_known(#[trigger] s@[i])) ==> r@ == ascii_lower(s@),
{
    s.to_lowercase()
}

/// Every non-overlapping occurrence of the non-empty `pat`, scanning from the
/// left, replaced by `to` (what `str::replace` does).
pub open spec fn replace_all(s: Seq<char>, pat: Seq<char>, to: Seq<char>) -> Seq<char>
    decreases s.len(),
{
    if pat.len() == 0 || s.len() < pat.len() {
        s
    } else if s.take(pat.len() as int) == pat {
        to + replace_all(s.skip(pat.len() as int), pat, to)
    } else {
        seq![s[0]] + replace_all(s.skip(1), pat, to)
    }
}

/// `s` with every occurrence of the non-empty `pat` replaced by `to`.
pub fn replace(s: &str, pat: &str, to: &str) -> (r: String)
    requires
        pat@.len() > 0,
    ensures
        r@ == replace_all(s@, pat@, to@),
{
    let t = chars_of(s);
    let p = chars_of(pat);
    let n = t.len();
    let m = p.len();
    let mut out = String::new();
    let mut i: usize = 0;
    assert(t@.skip(0) =~= t@);
    assert(out@ + replace_all(t@, p@, to@) =~= replace_all(t@, p@, to@));
    while i < n
        invariant
            t@ == s@,
            p@ == pat@,
            n == t@.len(),
            m == p@.len(),
            m > 0,
            i <= n,
            out@ + replace_all(t@.skip(i as int), p@, to@) == replace_all(t@, p@, to@),
        decreases n - i,
    {
        let ghost rest = t@.skip(i as int);
        if n - i >= m && matches_at(&t, &p, i) {
            assert(rest.take(m as int) =~= t@.subrange(i as int, i + m));
            push_str(&mut out, to);
            assert(rest.skip(m as int) =~= t@.skip(i + m));
            i = i + m;
        } else {
            if n - i >= m {
                assert(rest.take(m as int) =~= t@.subrange(i as int, i + m));
            } else {
                assert(replace_all(rest.skip(1), p@, to@) == rest.skip(1));
                assert(rest =~= seq![rest[0]] + rest.skip(1));
            }
            push_char(&mut out, t[i]);
            assert(rest.skip(1) =~= t@.skip(i + 1));
            assert(rest[0] == t@[i as int]);
            i = i + 1;
        }
        assert(out@ + replace_all(t@.skip(i as int), p@, to@) == replace_all(t@, p@, to@));
    }
    assert(t@.skip(n as int) =~= Seq::<char>::empty());
    assert(out@ + Seq::<char>::empty() == out@);
    out
}


/// The characters `char::is_whitespace` accepts (Unicode `White_Space`).
pub open spec fn is_ws(c: char) -> bool {
    ||| '\t' <= c <= '\r'
    ||| c == ' '
    ||| c == '\u{85}'
    ||| c == '\u{A0}'
    ||| c == '\u{1680}'
    ||| '\u{2000}' <= c <= '\u{200A}'
    ||| c == '\u{2028}'
    ||| c == '\u{2029}'
    ||| c == '\u{202F}'
    ||| c == '\u{205F}'
    ||| c == '\u{3000}'
}

/// `char::is_whitespace`.
pub fn is_whitespace(c: char) -> (r: bool)
    ensures
        r == is_ws(c),
{
    ('\t' <= c && c <= '\r') || c == ' ' || c == '\u{85}' || c == '\u{A0}' || c == '\u{1680}'
        || ('\u{2000}' <= c && c <= '\u{200A}') || c == '\u{2028}' || c == '\u{2029}'
        || c == '\u{202F}' || c == '\u{205F}' || c == '\u{3000}'
}

/// The whitespace-separated words of `s`, in order (`str::split_whitespace`).
pub open spec fn words_of(s: Seq<char>) -> Seq<Seq<char>>
    decreases s.len(),
{
    if s.len() == 0 {
        Seq::empty()
    } else {
        let w = words_of(s.drop_last());
        let c = s.last();
        if is_ws(c) {
            w
        } else if s.len() > 1 && !is_ws(s[s.len() - 2]) {
            w.update(w.len() - 1, w.last().push(c))
        } else {
            w.push(seq![c])
        }
    }
}

/// The words of a string slice (`split_whitespace`).
pub fn split_words(text: &str) -> (r: Vec<String>)
    ensures
        r@.map_values(|w: String| w@) == words_of(text@),
{
    let n = text.unicode_len();
    let mut words: Vec<String> = Vec::new();
    let mut cur = String::new();
    let mut in_word = false;
    let mut i: usize = 0;
    while i < n
        invariant
            n == text@.len(),
            i <= n,
            in_word == (i > 0 && !is_ws(text@[i - 1])),
            in_word ==> words@.map_values(|w: String| w@).push(cur@) == words_of(text@.take(i as int)),
            !in_word ==> words@.map_values(|w: String| w@) == words_of(text@.take(i as int)),
        decreases n - i,
    {
        let c = text.get_char(i);
        let ghost t = text@.take(i + 1);
        assert(t.drop_last() =~= text@.take(i as int));
        assert(t.last() == c);
        if is_whitespace(c) {
            if in_word {
                words.push(cur);
                cur = String::new();
                assert(words@.map_values(|w: String| w@) =~= words_of(text@.take(i as int)));
            }
            in_word = false;
        } else {
            if in_word {
                let ghost before = words@.map_values(|w: String| w@).push(cur@);
                push_char(&mut cur, c);
                assert(words@.map_values(|w: String| w@).push(cur@) =~= before.update(
                    before.len() - 1,
                    before.last().push(c),
                ));
            } else {
                cur = String::new();
                push_char(&mut cur, c);
                assert(cur@ =~= seq![c]);
            }
            in_word = true;
        }
        i = i + 1;
    }
    assert(text@.take(n as int) =~= text@);
    if in_word {
        words.push(cur);
        assert(words@.map_values(|w: String| w@) =~= words_of(text@));
    }
    words
}

/// Whether every character is an ASCII digit.
pub open spec fn all_digits(s: Seq<char>) -> bool {
    forall|i: int| 0 <= i < s.len() ==> '0' <= #[trigger] s[i] <= '9'
}

/// The value of a string of decimal digits.
pub open spec fn digits_value(s: Seq<char>) -> nat
    decreases s.len(),
{
    if s.len() == 0 {
        0
    } else {
        digits_value(s.drop_last()) * 10 + ((s.last() as nat) - ('0' as nat)) as nat
    }
}

/// What `str::parse::<u64>` gives: an optional `+` followed by at least one
/// digit, with a value that fits in 64 bits.
pub open spec fn parse_u64_spec(s: Seq<char>) -> Option<u64> {
    let d = if s.len() > 0 && s[0] == '+' { s.skip(1) } else { s };
    if d.len() > 0 && all_digits(d) && digits_value(d) <= u64::MAX {
        Some(digits_value(d) as u64)
    } else {
        None
    }
}

/// Parses an unsigned 64-bit decimal number (`str::parse::<u64>`).
pub fn parse_u64(s: &str) -> (r: Option<u64>)
    ensures
        r == parse_u64_spec(s@),
{
    let n = s.unicode_len();
    let mut start: usize = 0;
    if n > 0 && s.get_char(0) == '+' {
        start = 1;
    }
    let ghost d = if s@.len() > 0 && s@[0] == '+' { s@.skip(1) } else { s@ };
    assert(d =~= s@.skip(start as int));
    assert(parse_u64_spec(s@) == if d.len() > 0 && all_digits(d) && digits_value(d) <= u64::MAX {
        Some(digits_value(d) as u64)
    } else {
        None
    });
    if start == n {
        return None;
    }
    let mut v: u64 = 0;
    let mut i: usize = start;
    while i < n
        invariant
            n == s@.len(),
            start <= i <= n,
            d == s@.skip(start as int),
            parse_u64_spec(s@) == if d.len() > 0 && all_digits(d) && digits_value(d) <= u64::MAX {
                Some(digits_value(d) as u64)
            } else {
                None
            },
            d.len() > 0,
            all_digits(d.take(i - start)),
            v == digits_value(d.take(i - start)),
        decreases n - i,
    {
        let c = s.get_char(i);
        let ghost t = d.take(i - start + 1);
        assert(t.drop_last() =~= d.take(i - start));
        assert(t.last() == c);
        if c < '0' || c > '9' {
            assert(!all_digits(d)) by {
                assert(d[i - start] == c);
            }
            assert(parse_u64_spec(s@) is None);
            return None;
        }
        let digit = (c as u32 - '0' as u32) as u64;
        assert(digit == (c as nat) - ('0' as nat));
        if v > (u64::MAX - digit) / 10 {
            proof {
                lemma_digits_prefix_bound(d, i - start + 1);
                assert(v * 10 + digit > u64::MAX) by (nonlinear_arith)
                    requires
                        v > (u64::MAX - digit) / 10,
                        digit <= 9,
                ;
                assert(digits_value(t) == v * 10 + digit);
            }
            assert(parse_u64_spec(s@) is None);
            return None;
        }
        v = v * 10 + digit;
        i = i + 1;
    }
    assert(d.take(n - start) =~= d);
    Some(v)
}

/// The value of a digit string is at least that of each of its prefixes.
proof fn lemma_digits_prefix_bound(d: Seq<char>, k: int)
    requires
        0 <= k <= d.len(),
    ensures
        all_digits(d) ==> digits_value(d.take(k)) <= digits_value(d),
    decreases d.len() - k,
{
    if k < d.len() {
        lemma_digits_prefix_bound(d, k + 1);
        let t = d.take(k + 1);
        assert(t.drop_last() =~= d.take(k));
        if all_digits(d) {
            assert('0' <= d[k]);
        }
    } else {
        assert(d.take(k) =~= d);
    }
}


/// `n` written with exactly `w` digits, keeping the lowest ones and padding
/// with leading zeros.
pub open spec fn padded_decimal(n: nat, w: nat) -> Seq<char>
    decreases w,
{
    if w == 0 {
        Seq::empty()
    } else {
        padded_decimal(n / 10, (w - 1) as nat).push(digit_char(n % 10))
    }
}

/// `s` without its trailing `'0'` characters.
pub open spec fn trim_zeros(s: Seq<char>) -> Seq<char>
    decreases s.len(),
{
    if s.len() > 0 && s.last() == '0' {
        trim_zeros(s.drop_last())
    } else {
        s
    }
}

/// An amount of base units (10^8 per coin) as a coin value with eight
/// decimals, as `{:.8}` prints it.
pub open spec fn coins_fixed(a: nat) -> Seq<char> {
    decimal(a / 100000000) + "."@ + padded_decimal(a % 100000000, 8)
}

/// An amount of base units as a coin value without trailing zeros (and
/// without a point for whole coins), as `{}` prints it.
pub open spec fn coins_short(a: nat) -> Seq<char> {
    if a % 100000000 == 0 {
        decimal(a / 100000000)
    } else {
        decimal(a / 100000000) + "."@ + trim_zeros(padded_decimal(a % 100000000, 8))
    }
}

/// Appends the lowest `w` digits of `n`, zero-padded.
pub fn push_padded(s: &mut String, n: u64, w: u32)
    ensures
        final(s)@ == old(s)@ + padded_decimal(n as nat, w as nat),
    decreases w,
{
    if w > 0 {
        push_padded(s, n / 10, w - 1);
        push_char(s, digit(n % 10));
        assert(final(s)@ =~= old(s)@ + padded_decimal(n as nat, w as nat));
    } else {
        assert(final(s)@ =~= old(s)@ + padded_decimal(n as nat, w as nat));
    }
}

/// `s` without its trailing zeros.
pub fn trim_trailing_zeros(s: &str) -> (r: String)
    ensures
        r@ == trim_zeros(s@),
{
    let mut n = s.unicode_len();
    assert(s@.take(n as int) =~= s@);
    while n > 0 && s.get_char(n - 1) == '0'
        invariant
            n <= s@.len(),
            trim_zeros(s@.take(n as int)) == trim_zeros(s@),
        decreases n,
    {
        assert(s@.take(n as int).drop_last() =~= s@.take(n - 1));
        n = n - 1;
    }
    let r = prefix(s, n);
    assert(trim_zeros(s@.take(n as int)) == s@.take(n as int));
    r
}

/// Appends an amount as coins with eight decimals (see `coins_fixed`).
pub fn push_coins_fixed(s: &mut String, a: u64)
    ensures
        final(s)@ == old(s)@ + coins_fixed(a as nat),
{
    push_decimal(s, a / 100000000);
    push_str(s, ".");
    push_padded(s, a % 100000000, 8);
    assert(final(s)@ =~= old(s)@ + coins_fixed(a as nat));
}

/// Appends an amount as coins without trailing zeros (see `coins_short`).
pub fn push_coins_short(s: &mut String, a: u64)
    ensures
        final(s)@ == old(s)@ + coins_short(a as nat),
{
    push_decimal(s, a / 100000000);
    if a % 100000000 != 0 {
        push_str(s, ".");
        let mut frac = String::new();
        push_padded(&mut frac, a % 100000000, 8);
        let t = trim_trailing_zeros(frac.as_str());
        push_str(s, t.as_str());
        assert(frac@ =~= padded_decimal((a % 100000000) as nat, 8));
    }
    assert(final(s)@ =~= old(s)@ + coins_short(a as nat));
}


/// The view of an optional string.
pub open spec fn opt_str(o: Option<String>) -> Option<Seq<char>> {
    match o {
        Some(s) => Some(s@),
        None => None,
    }
}

/// A copy of an optional string.
pub fn clone_opt(o: &Option<String>) -> (r: Option<String>)
    ensures
        opt_str(r) == opt_str(*o),
{
    match o {
        Some(s) => Some(s.clone()),
        None => None,
    }
}


/// What `{:?}` writes for a string: the text in double quotes, escaped.
pub uninterp spec fn str_debug(s: Seq<char>) -> Seq<char>;

/// `format!("{:?}", s)` of a string slice.
#[verifier::external_body]
pub(crate) fn debug_str(s: &str) -> (r: String)
    ensures
        r@ == str_debug(s@),
{
    format!("{:?}", s)
}

/// What `{:?}` writes for a byte list: the decimal bytes in brackets, comma-separated.
pub open spec fn bytes_debug(d: Seq<u8>) -> Seq<char> {
    "["@ + crate::chain::types::joined(d.map_values(|b: u8| decimal(b as nat))) + "]"@
}

/// Appends `bytes_debug(d)`.
pub fn push_bytes_debug(s: &mut String, d: &Vec<u8>)
    ensures
        final(s)@ == old(s)@ + bytes_debug(d@),
{
    let ghost items = d@.map_values(|b: u8| decimal(b as nat));
    let mut inner = String::new();
    proof {
        reveal_strlit(", ");
        reveal_strlit("[");
        reveal_strlit("]");
        assert(items.take(0) =~= Seq::<Seq<char>>::empty());
    }
    let mut i: usize = 0;
    while i < d.len()
        invariant
            i <= d@.len(),
            items == d@.map_values(|b: u8| decimal(b as nat)),
            inner@ == crate::chain::types::joined(items.take(i as int)),
        decreases d@.len() - i,
    {
        proof {
            crate::chain::types::lemma_joined_step(items, i as int);
        }
        if i > 0 {
            push_str(&mut inner, ", ");
        }
        push_decimal(&mut inner, d[i] as u64);
        i = i + 1;
    }
    assert(items.take(i as int) =~= items);
    push_str(s, "[");
    push_str(s, inner.as_str());
    push_str(s, "]");
}

} // verus!
