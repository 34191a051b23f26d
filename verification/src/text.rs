//! Character-level text operations, each stated over `Seq<char>`.

use vstd::prelude::*;

verus! {

/// Unicode `White_Space`, the property that `char::is_whitespace` tests.
pub open spec fn is_ws(c: char) -> bool {
    ||| ('\u{9}' <= c && c <= '\u{d}')
    ||| c == ' '
    ||| c == '\u{85}'
    ||| c == '\u{a0}'
    ||| c == '\u{1680}'
    ||| ('\u{2000}' <= c && c <= '\u{200a}')
    ||| c == '\u{2028}'
    ||| c == '\u{2029}'
    ||| c == '\u{202f}'
    ||| c == '\u{205f}'
    ||| c == '\u{3000}'
}

/// Whether `c` is Unicode white space.
pub fn is_whitespace(c: char) -> (r: bool)
    ensures
        r == is_ws(c),
{
    ('\u{9}' <= c && c <= '\u{d}') || c == ' ' || c == '\u{85}' || c == '\u{a0}' || c
        == '\u{1680}' || ('\u{2000}' <= c && c <= '\u{200a}') || c == '\u{2028}' || c
        == '\u{2029}' || c == '\u{202f}' || c == '\u{205f}' || c == '\u{3000}'
}

/// `s` without its leading white space.
pub open spec fn trim_start(s: Seq<char>) -> Seq<char>
    decreases s.len(),
{
    if s.len() > 0 && is_ws(s[0]) {
        trim_start(s.drop_first())
    } else {
        s
    }
}

/// `s` without its trailing white space.
pub open spec fn trim_end(s: Seq<char>) -> Seq<char>
    decreases s.len(),
{
    if s.len() > 0 && is_ws(s.last()) {
        trim_end(s.drop_last())
    } else {
        s
    }
}

/// `s` without leading and trailing white space, as `str::trim` gives it.
pub open spec fn trim(s: Seq<char>) -> Seq<char> {
    trim_end(trim_start(s))
}

/// Appends one character to a string.
#[verifier::external_body]
fn push_char(s: &mut String, c: char)
    ensures
        final(s)@ == old(s)@.push(c),
{
    s.push(c);
}

/// The characters of `s`, in order.
pub fn chars_of(s: &str) -> (r: Vec<char>)
    ensures
        r@ == s@,
{
    let mut r: Vec<char> = Vec::new();
    for c in it: s.chars()
        invariant
            r@ == it.seq().take(it.index() as int),
            it.seq() == s@,
    {
        r.push(c);
    }
    r
}

/// A string holding the characters `v[lo..hi]`.
pub fn string_of(v: &[char], lo: usize, hi: usize) -> (r: String)
    requires
        lo <= hi <= v@.len(),
    ensures
        r@ == v@.subrange(lo as int, hi as int),
{
    let mut r = String::new();
    let mut i = lo;
    while i < hi
        invariant
            lo <= i <= hi <= v@.len(),
            r@ == v@.subrange(lo as int, i as int),
        decreases hi - i,
    {
        push_char(&mut r, v[i]);
        assert(v@.subrange(lo as int, i + 1) == v@.subrange(lo as int, i as int).push(v@[i as int]));
        i += 1;
    }
    r
}

/// The bounds `(lo, hi)` of `v` with surrounding white space left out:
/// `v[lo..hi]` is `trim(v)`.
pub fn trim_bounds(v: &[char]) -> (r: (usize, usize))
    ensures
        r.0 <= r.1 <= v@.len(),
        v@.subrange(r.0 as int, r.1 as int) == trim(v@),
{
    let n = v.len();
    let mut i: usize = 0;
    assert(v@.subrange(0, n as int) == v@);
    while i < n && is_whitespace(v[i])
        invariant
            i <= n == v@.len(),
            trim_start(v@) == trim_start(v@.subrange(i as int, n as int)),
        decreases n - i,
    {
        assert(v@.subrange(i as int, n as int).drop_first() == v@.subrange(i + 1, n as int));
        i += 1;
    }
    assert(trim_start(v@) == v@.subrange(i as int, n as int));
    let mut j: usize = n;
    while j > i && is_whitespace(v[j - 1])
        invariant
            i <= j <= n == v@.len(),
            trim_end(v@.subrange(i as int, n as int)) == trim_end(v@.subrange(i as int, j as int)),
        decreases j - i,
    {
        assert(v@.subrange(i as int, j as int).drop_last() == v@.subrange(i as int, j - 1));
        j -= 1;
    }
    (i, j)
}

/// The number of characters of `s` before the first `c` (all of `s` when
/// there is no `c`).
pub open spec fn until_char(s: Seq<char>, c: char) -> nat
    decreases s.len(),
{
    if s.len() == 0 || s[0] == c {
        0
    } else {
        1 + until_char(s.drop_first(), c)
    }
}

/// The pieces of `s` between occurrences of `sep`, as `str::split` with a
/// character gives them (an empty `s` gives one empty piece).
pub open spec fn split_on(s: Seq<char>, sep: char) -> Seq<Seq<char>>
    decreases s.len(),
{
    let k = until_char(s, sep);
    if k >= s.len() {
        seq![s]
    } else {
        seq![s.take(k as int)] + split_on(s.skip(k + 1 as int), sep)
    }
}

/// The number of characters at the start of `s` before the first white space.
pub open spec fn word_len(s: Seq<char>) -> nat
    decreases s.len(),
{
    if s.len() == 0 || is_ws(s[0]) {
        0
    } else {
        1 + word_len(s.drop_first())
    }
}

/// The white-space separated words of `s`, as `str::split_whitespace`
/// gives them.
pub open spec fn words(s: Seq<char>) -> Seq<Seq<char>>
    decreases s.len(),
{
    if s.len() == 0 {
        seq![]
    } else if is_ws(s[0]) {
        words(s.drop_first())
    } else {
        let k = word_len(s);
        if 0 < k <= s.len() {
            seq![s.take(k as int)] + words(s.skip(k as int))
        } else {
            seq![]
        }
    }
}

/// `needle` occurs in `hay`.
pub open spec fn has_infix(hay: Seq<char>, needle: Seq<char>) -> bool {
    exists|i: int|
        0 <= i && i + needle.len() <= hay.len() && #[trigger] hay.subrange(i, i + needle.len())
            == needle
}

pub proof fn lemma_until_char_bound(s: Seq<char>, c: char)
    ensures
        until_char(s, c) <= s.len(),
        until_char(s, c) < s.len() ==> s[until_char(s, c) as int] == c,
        forall|j: int| 0 <= j < until_char(s, c) ==> s[j] != c,
    decreases s.len(),
{
    if s.len() > 0 && s[0] != c {
        lemma_until_char_bound(s.drop_first(), c);
        assert forall|j: int| 0 <= j < until_char(s, c) implies s[j] != c by {
            if j > 0 {
                assert(s[j] == s.drop_first()[j - 1]);
            }
        }
    }
}

pub proof fn lemma_word_len_bound(s: Seq<char>)
    ensures
        word_len(s) <= s.len(),
        forall|j: int| 0 <= j < word_len(s) ==> !is_ws(s[j]),
        word_len(s) < s.len() ==> is_ws(s[word_len(s) as int]),
    decreases s.len(),
{
    if s.len() > 0 && !is_ws(s[0]) {
        lemma_word_len_bound(s.drop_first());
        assert forall|j: int| 0 <= j < word_len(s) implies !is_ws(s[j]) by {
            if j > 0 {
                assert(s[j] == s.drop_first()[j - 1]);
            }
        }
    }
}

/// The index of the first `c` in `v[lo..hi]`, or `hi` when there is none.
pub fn find_char(v: &[char], lo: usize, hi: usize, c: char) -> (r: usize)
    requires
        lo <= hi <= v@.len(),
    ensures
        lo <= r <= hi,
        r - lo == until_char(v@.subrange(lo as int, hi as int), c),
{
    let mut i = lo;
    while i < hi && v[i] != c
        invariant
            lo <= i <= hi <= v@.len(),
            until_char(v@.subrange(lo as int, hi as int), c) == (i - lo) + until_char(
                v@.subrange(i as int, hi as int),
                c,
            ),
        decreases hi - i,
    {
        assert(v@.subrange(i as int, hi as int).drop_first() == v@.subrange(i + 1, hi as int));
        i += 1;
    }
    i
}

/// The end of the word that starts at `lo` in `v[lo..hi]`.
fn word_end(v: &[char], lo: usize, hi: usize) -> (r: usize)
    requires
        lo <= hi <= v@.len(),
    ensures
        lo <= r <= hi,
        r - lo == word_len(v@.subrange(lo as int, hi as int)),
{
    let mut i = lo;
    while i < hi && !is_whitespace(v[i])
        invariant
            lo <= i <= hi <= v@.len(),
            word_len(v@.subrange(lo as int, hi as int)) == (i - lo) + word_len(
                v@.subrange(i as int, hi as int),
            ),
        decreases hi - i,
    {
        assert(v@.subrange(i as int, hi as int).drop_first() == v@.subrange(i + 1, hi as int));
        i += 1;
    }
    i
}

/// The bounds of the white-space separated words of `v[lo..hi]`, in order.
pub fn word_bounds(v: &[char], lo: usize, hi: usize) -> (r: Vec<(usize, usize)>)
    requires
        lo <= hi <= v@.len(),
    ensures
        r@.len() == words(v@.subrange(lo as int, hi as int)).len(),
        forall|k: int|
            0 <= k < r@.len() ==> {
                &&& lo <= (#[trigger] r@[k]).0 <= r@[k].1 <= hi
                &&& v@.subrange(r@[k].0 as int, r@[k].1 as int) == words(
                    v@.subrange(lo as int, hi as int),
                )[k]
            },
{
    let mut r: Vec<(usize, usize)> = Vec::new();
    let mut i = lo;
    let ghost whole = v@.subrange(lo as int, hi as int);
    while i < hi
        invariant
            lo <= i <= hi <= v@.len(),
            whole == v@.subrange(lo as int, hi as int),
            r@.len() + words(v@.subrange(i as int, hi as int)).len() == words(whole).len(),
            forall|k: int|
                0 <= k < r@.len() ==> {
                    &&& lo <= (#[trigger] r@[k]).0 <= r@[k].1 <= hi
                    &&& v@.subrange(r@[k].0 as int, r@[k].1 as int) == words(whole)[k]
                },
            forall|k: int|
                0 <= k < words(v@.subrange(i as int, hi as int)).len() ==> words(whole)[r@.len()
                    + k] == #[trigger] words(v@.subrange(i as int, hi as int))[k],
        decreases hi - i,
    {
        let ghost rest = v@.subrange(i as int, hi as int);
        if is_whitespace(v[i]) {
            assert(rest.drop_first() == v@.subrange(i + 1, hi as int));
            i += 1;
        } else {
            let e = word_end(v, i, hi);
            proof {
                lemma_word_len_bound(rest);
                assert(rest.take((e - i) as int) == v@.subrange(i as int, e as int));
                assert(rest.skip((e - i) as int) == v@.subrange(e as int, hi as int));
                assert(words(rest) == seq![v@.subrange(i as int, e as int)] + words(
                    v@.subrange(e as int, hi as int),
                ));
                assert(words(whole)[r@.len() as int] == words(rest)[0]);
            }
            r.push((i, e));
            proof {
                let new_rest = v@.subrange(e as int, hi as int);
                assert forall|k: int| 0 <= k < words(new_rest).len() implies words(whole)[r@.len()
                    + k] == #[trigger] words(new_rest)[k] by {
                    assert(words(rest)[k + 1] == words(new_rest)[k]);
                }
            }
            i = e;
        }
    }
    r
}

/// Whether `needle` occurs in `hay`.
pub fn contains(hay: &[char], needle: &[char]) -> (r: bool)
    ensures
        r == has_infix(hay@, needle@),
{
    let n = needle.len();
    let h = hay.len();
    if n > h {
        return false;
    }
    let mut i: usize = 0;
    while i <= h - n
        invariant
            n == needle@.len(),
            h == hay@.len(),
            n <= h,
            i <= h - n + 1,
            forall|k: int| 0 <= k < i ==> #[trigger] hay@.subrange(k, k + n) != needle@,
        decreases h - i,
    {
        let mut j: usize = 0;
        while j < n && hay[i + j] == needle[j]
            invariant
                n == needle@.len(),
                h == hay@.len(),
                i + n <= h,
                j <= n,
                forall|t: int| 0 <= t < j ==> hay@[i + t] == needle@[t],
            decreases n - j,
        {
            j += 1;
        }
        if j == n {
            assert(hay@.subrange(i as int, i + n) == needle@);
            return true;
        }
        assert(hay@.subrange(i as int, i + n)[j as int] != needle@[j as int]);
        i += 1;
    }
    false
}

/// Whether `prefix` is a prefix of `s`.
pub fn starts_with(s: &[char], prefix: &[char]) -> (r: bool)
    ensures
        r == prefix@.is_prefix_of(s@),
{
    if prefix.len() > s.len() {
        return false;
    }
    let mut j: usize = 0;
    while j < prefix.len()
        invariant
            prefix@.len() <= s@.len(),
            j <= prefix@.len(),
            forall|t: int| 0 <= t < j ==> s@[t] == prefix@[t],
        decreases prefix@.len() - j,
    {
        if s[j] != prefix[j] {
            return false;
        }
        j += 1;
    }
    assert(s@.subrange(0, prefix@.len() as int) == prefix@);
    true
}

/// The character of a decimal digit.
pub open spec fn digit_char(d: int) -> char {
    ('0' as int + d) as char
}

/// The decimal writing of `n`, without leading zeros.
pub open spec fn decimal(n: nat) -> Seq<char>
    decreases n,
{
    if n < 10 {
        seq![digit_char(n as int)]
    } else {
        decimal(n / 10).push(digit_char((n % 10) as int))
    }
}

/// The decimal writing of a signed number, with a leading `-` when negative.
pub open spec fn signed_decimal(x: int) -> Seq<char> {
    if x < 0 {
        seq!['-'] + decimal((-x) as nat)
    } else {
        decimal(x as nat)
    }
}

/// The decimal writing of `n` padded with zeros to at least two digits, as
/// the format `{:02}` writes it.
pub open spec fn two_digits(n: nat) -> Seq<char> {
    if n < 10 {
        seq!['0'] + decimal(n)
    } else {
        decimal(n)
    }
}

/// The character of a decimal digit is a digit, and reads back as that
/// digit.
pub proof fn lemma_digit_char(d: int)
    requires
        0 <= d <= 9,
    ensures
        '0' <= digit_char(d) <= '9',
        digit_char(d) as int - '0' as int == d,
{
}

/// Two decimal digits written with `{:02}` are the tens and the units.
pub proof fn lemma_two_digits(n: nat)
    requires
        n < 100,
    ensures
        two_digits(n) == seq![digit_char(n as int / 10), digit_char(n as int % 10)],
{
    if n < 10 {
        assert(decimal(n) == seq![digit_char(n as int)]);
        assert(digit_char(0) == '0');
        assert(seq!['0'] + decimal(n) =~= seq![digit_char(n as int / 10), digit_char(n as int % 10)]);
    } else {
        reveal_with_fuel(decimal, 2);
        assert(decimal((n / 10) as nat) == seq![digit_char((n / 10) as int)]);
        assert(decimal(n) =~= seq![digit_char(n as int / 10), digit_char(n as int % 10)]);
    }
}

/// A text that has words has a character that is not white space.
pub proof fn lemma_words_have_non_ws(s: Seq<char>)
    requires
        words(s).len() > 0,
    ensures
        exists|i: int| 0 <= i < s.len() && !is_ws(#[trigger] s[i]),
    decreases s.len(),
{
    if s.len() > 0 {
        if is_ws(s[0]) {
            lemma_words_have_non_ws(s.drop_first());
            let i = choose|i: int| 0 <= i < s.drop_first().len() && !is_ws(#[trigger] s.drop_first()[i]);
            assert(s[i + 1] == s.drop_first()[i]);
        } else {
            assert(!is_ws(s[0]));
        }
    }
}

/// Trimming the start keeps every character from the first that is not
/// white space on.
pub proof fn lemma_trim_start_keeps(s: Seq<char>, i: int)
    requires
        0 <= i < s.len(),
        !is_ws(s[i]),
    ensures
        exists|k: int| 0 <= k <= i && trim_start(s) == s.skip(k),
    decreases s.len(),
{
    if is_ws(s[0]) {
        assert(s.drop_first()[i - 1] == s[i]);
        lemma_trim_start_keeps(s.drop_first(), i - 1);
        let k = choose|k: int| 0 <= k <= i - 1 && trim_start(s.drop_first()) == s.drop_first().skip(k);
        assert(s.drop_first().skip(k) =~= s.skip(k + 1));
    } else {
        assert(s.skip(0) =~= s);
    }
}

/// Trimming the end keeps every character up to the last that is not white
/// space.
pub proof fn lemma_trim_end_keeps(s: Seq<char>, j: int)
    requires
        0 <= j < s.len(),
        !is_ws(s[j]),
    ensures
        trim_end(s).len() > j,
    decreases s.len(),
{
    if is_ws(s.last()) {
        assert(s.drop_last()[j] == s[j]);
        lemma_trim_end_keeps(s.drop_last(), j);
    }
}

/// A text that has words is not all white space.
pub proof fn lemma_words_make_trim_non_empty(s: Seq<char>)
    requires
        words(s).len() > 0,
    ensures
        trim(s).len() > 0,
{
    lemma_words_have_non_ws(s);
    let i = choose|i: int| 0 <= i < s.len() && !is_ws(#[trigger] s[i]);
    lemma_trim_start_keeps(s, i);
    let k = choose|k: int| 0 <= k <= i && trim_start(s) == s.skip(k);
    assert(trim_start(s)[i - k] == s[i]);
    lemma_trim_end_keeps(trim_start(s), i - k);
}

/// The character of the decimal digit `d`.
fn digit_to_char(d: u64) -> (r: char)
    requires
        d < 10,
    ensures
        r == digit_char(d as int),
{
    match d {
        0 => '0',
        1 => '1',
        2 => '2',
        3 => '3',
        4 => '4',
        5 => '5',
        6 => '6',
        7 => '7',
        8 => '8',
        _ => '9',
    }
}

/// Appends the decimal writing of `n` to `out`.
pub fn push_decimal(out: &mut String, n: u64)
    ensures
        final(out)@ == old(out)@ + decimal(n as nat),
    decreases n,
{
    if n >= 10 {
        push_decimal(out, n / 10);
    }
    push_char(out, digit_to_char(n % 10));
    assert(decimal(n as nat) == if n < 10 {
        seq![digit_char(n as int)]
    } else {
        decimal((n / 10) as nat).push(digit_char((n % 10) as int))
    });
}

/// Appends `n` padded with zeros to two digits, as `{:02}` writes it.
pub fn push_two_digits(out: &mut String, n: u32)
    ensures
        final(out)@ == old(out)@ + two_digits(n as nat),
{
    if n < 10 {
        push_char(out, '0');
        push_decimal(out, n as u64);
        assert(old(out)@ + two_digits(n as nat) == old(out)@.push('0') + decimal(n as nat));
    } else {
        push_decimal(out, n as u64);
    }
}

} // verus!
