//! Character-level text helpers shared by the rest of the library:
//! Unicode white space, trimming, decimal rendering of integers and
//! appending to a `String`.
use vstd::prelude::*;

verus! {

/// The Unicode `White_Space` property (the set that `char::is_whitespace`,
/// `str::trim` and `str::split_whitespace` use).
pub open spec fn is_white_space(c: char) -> bool {
    ||| ('\u{9}' <= c && c <= '\u{d}')
    ||| c == ' '
    ||| c == '\u{85}'
    ||| c == '\u{a0}'
    ||| c == '\u{1680}'
    ||| ('\u{2000}' <= c && c <= '\u{200a}')
    ||| c == '\u{2028}'
    ||| c == '\u{2029}'
    ||| c == '\u{202f}'
    ||| c == '\u{205f}'
    ||| c == '\u{3000}'
}

/// Executable test of the `White_Space` property.
pub fn char_is_white_space(c: char) -> (r: bool)
    ensures
        r == is_white_space(c),
{
    ('\u{9}' <= c && c <= '\u{d}') || c == ' ' || c == '\u{85}' || c == '\u{a0}' || c
        == '\u{1680}' || ('\u{2000}' <= c && c <= '\u{200a}') || c == '\u{2028}' || c
        == '\u{2029}' || c == '\u{202f}' || c == '\u{205f}' || c == '\u{3000}'
}

/// Appends one character to a string with `String::push`. Claimed: the
/// string's characters are the old ones followed by `c`.
#[verifier::external_body]
pub(crate) fn push_char(s: &mut String, c: char)
    ensures
        final(s)@ == old(s)@.push(c),
{
    s.push(c);
}

/// The ASCII digit for a value below ten.
pub open spec fn digit_char(d: nat) -> char {
    ((d + 48) as u8) as char
}

/// Decimal rendering of a natural number, most significant digit first,
/// without leading zeros.
pub open spec fn decimal_digits(n: nat) -> Seq<char>
    decreases n,
{
    if n < 10 {
        seq![digit_char(n)]
    } else {
        decimal_digits(n / 10).push(digit_char(n % 10))
    }
}

/// Decimal rendering of an integer: a `-` sign before the digits of its
/// magnitude when negative.
pub open spec fn decimal_int(i: int) -> Seq<char> {
    if i < 0 {
        seq!['-'] + decimal_digits((-i) as nat)
    } else {
        decimal_digits(i as nat)
    }
}

fn digit_of(d: u64) -> (c: char)
    requires
        d < 10,
    ensures
        c == digit_char(d as nat),
{
    let b: u8 = (d as u8) + 48;
    b as char
}

/// Appends the decimal digits of `n` to `out`.
pub fn push_decimal(out: &mut String, n: u64)
    ensures
        final(out)@ == old(out)@ + decimal_digits(n as nat),
    decreases n,
{
    if n >= 10 {
        push_decimal(out, n / 10);
    }
    push_char(out, digit_of(n % 10));
    proof {
        if n < 10 {
            assert(old(out)@ + decimal_digits(n as nat) =~= old(out)@.push(digit_char(n as nat)));
        } else {
            assert((old(out)@ + decimal_digits((n / 10) as nat)).push(digit_char((n % 10) as nat))
                =~= old(out)@ + decimal_digits(n as nat));
        }
    }
}

/// Appends the decimal text of a signed integer to `out`.
pub fn push_int(out: &mut String, n: i64)
    ensures
        final(out)@ == old(out)@ + decimal_int(n as int),
{
    if n < 0 {
        push_char(out, '-');
        let magnitude: u64 = if n == i64::MIN {
            9223372036854775808u64
        } else {
            (-n) as u64
        };
        push_decimal(out, magnitude);
        assert(old(out)@.push('-') + decimal_digits(magnitude as nat) =~= old(out)@ + (seq!['-']
            + decimal_digits(magnitude as nat)));
    } else {
        push_decimal(out, n as u64);
    }
}

/// The decimal text of an unsigned integer.
pub fn u64_text(n: u64) -> (s: String)
    ensures
        s@ == decimal_digits(n as nat),
{
    let mut s = String::new();
    push_decimal(&mut s, n);
    assert(Seq::<char>::empty() + decimal_digits(n as nat) =~= decimal_digits(n as nat));
    s
}

/// The decimal text of a signed integer.
pub fn i64_text(n: i64) -> (s: String)
    ensures
        s@ == decimal_int(n as int),
{
    let mut s = String::new();
    push_int(&mut s, n);
    assert(Seq::<char>::empty() + decimal_int(n as int) =~= decimal_int(n as int));
    s
}


/// The characters of a string slice, in order.
pub fn chars_of(s: &str) -> (v: Vec<char>)
    ensures
        v@ == s@,
{
    let n = s.unicode_len();
    let mut v: Vec<char> = Vec::new();
    let mut i: usize = 0;
    while i < n
        invariant
            n == s@.len(),
            i <= n,
            v@ == s@.take(i as int),
        decreases n - i,
    {
        v.push(s.get_char(i));
        i = i + 1;
        assert(v@ =~= s@.take(i as int));
    }
    assert(s@.take(n as int) =~= s@);
    v
}

/// A string holding exactly the characters `v[from..to]`.
pub fn string_from_chars(v: &Vec<char>, from: usize, to: usize) -> (s: String)
    requires
        from <= to <= v@.len(),
    ensures
        s@ == v@.subrange(from as int, to as int),
{
    let mut s = String::new();
    let mut i = from;
    while i < to
        invariant
            from <= i <= to <= v@.len(),
            s@ == v@.subrange(from as int, i as int),
        decreases to - i,
    {
        push_char(&mut s, v[i]);
        i = i + 1;
        assert(s@ =~= v@.subrange(from as int, i as int));
    }
    s
}

/// `s` without its leading white space.
pub open spec fn trim_start_seq(s: Seq<char>) -> Seq<char>
    decreases s.len(),
{
    if s.len() > 0 && is_white_space(s[0]) {
        trim_start_seq(s.drop_first())
    } else {
        s
    }
}

/// `s` without its trailing white space.
pub open spec fn trim_end_seq(s: Seq<char>) -> Seq<char>
    decreases s.len(),
{
    if s.len() > 0 && is_white_space(s.last()) {
        trim_end_seq(s.drop_last())
    } else {
        s
    }
}

/// `s` without leading and trailing white space (what `str::trim` gives).
pub open spec fn trim_seq(s: Seq<char>) -> Seq<char> {
    trim_end_seq(trim_start_seq(s))
}

proof fn lemma_trim_start_at(s: Seq<char>, i: int)
    requires
        0 <= i <= s.len(),
        forall|k: int| 0 <= k < i ==> is_white_space(#[trigger] s[k]),
        i == s.len() || !is_white_space(s[i]),
    ensures
        trim_start_seq(s) == s.skip(i),
    decreases i,
{
    if i > 0 {
        assert forall|k: int| 0 <= k < i - 1 implies is_white_space(
            #[trigger] s.drop_first()[k],
        ) by {
            assert(s.drop_first()[k] == s[k + 1]);
        }
        lemma_trim_start_at(s.drop_first(), i - 1);
        assert(s.drop_first().skip(i - 1) =~= s.skip(i));
    } else {
        assert(s.skip(0) =~= s);
    }
}

proof fn lemma_trim_end_at(s: Seq<char>, j: int)
    requires
        0 <= j <= s.len(),
        forall|k: int| j <= k < s.len() ==> is_white_space(#[trigger] s[k]),
        j == 0 || !is_white_space(s[j - 1]),
    ensures
        trim_end_seq(s) == s.take(j),
    decreases s.len() - j,
{
    if j < s.len() {
        assert forall|k: int| j <= k < s.len() - 1 implies is_white_space(
            #[trigger] s.drop_last()[k],
        ) by {
            assert(s.drop_last()[k] == s[k]);
        }
        lemma_trim_end_at(s.drop_last(), j);
        assert(s.drop_last().take(j) =~= s.take(j));
    } else {
        assert(s.take(j) =~= s);
    }
}

/// Whether `s` has a character that is not white space.
pub open spec fn has_visible_char(s: Seq<char>) -> bool {
    exists|i: int| 0 <= i < s.len() && !is_white_space(#[trigger] s[i])
}

proof fn lemma_trim_start_visible(s: Seq<char>)
    ensures
        trim_start_seq(s).len() > 0 <==> has_visible_char(s),
        trim_start_seq(s).len() > 0 ==> !is_white_space(trim_start_seq(s)[0]),
    decreases s.len(),
{
    if s.len() > 0 {
        if is_white_space(s[0]) {
            let t = s.drop_first();
            lemma_trim_start_visible(t);
            if has_visible_char(s) {
                let i = choose|i: int| 0 <= i < s.len() && !is_white_space(#[trigger] s[i]);
                assert(t[i - 1] == s[i]);
            }
            if has_visible_char(t) {
                let i = choose|i: int| 0 <= i < t.len() && !is_white_space(#[trigger] t[i]);
                assert(s[i + 1] == t[i]);
            }
        } else {
            assert(!is_white_space(s[0]));
        }
    }
}

proof fn lemma_trim_end_keeps_first(t: Seq<char>)
    requires
        t.len() > 0,
        !is_white_space(t[0]),
    ensures
        trim_end_seq(t).len() > 0,
    decreases t.len(),
{
    if is_white_space(t.last()) {
        assert(t.len() > 1);
        assert(t.drop_last()[0] == t[0]);
        lemma_trim_end_keeps_first(t.drop_last());
    }
}

/// A text is blank, trimming to nothing, exactly when every character of
/// it is white space.
pub proof fn lemma_blank_iff_all_white(s: Seq<char>)
    ensures
        (trim_seq(s).len() > 0) == has_visible_char(s),
        !has_visible_char(s) <==> (forall|i: int| 0 <= i < s.len() ==> is_white_space(#[trigger] s[i])),
{
    lemma_trim_start_visible(s);
    if has_visible_char(s) {
        lemma_trim_end_keeps_first(trim_start_seq(s));
    } else {
        assert(trim_start_seq(s) =~= Seq::<char>::empty());
        assert(trim_end_seq(Seq::<char>::empty()) == Seq::<char>::empty());
    }
}

/// The bounds `(from, to)` of the part of `v` that trimming keeps.
pub fn trim_bounds(v: &Vec<char>) -> (r: (usize, usize))
    ensures
        r.0 <= r.1 <= v@.len(),
        v@.subrange(r.0 as int, r.1 as int) == trim_seq(v@),
{
    let n = v.len();
    let mut i: usize = 0;
    while i < n && char_is_white_space(v[i])
        invariant
            i <= n == v@.len(),
            forall|k: int| 0 <= k < i ==> is_white_space(#[trigger] v@[k]),
        decreases n - i,
    {
        i = i + 1;
    }
    proof {
        lemma_trim_start_at(v@, i as int);
    }
    let ghost t = v@.skip(i as int);
    let mut j: usize = n;
    while j > i && char_is_white_space(v[j - 1])
        invariant
            i <= j <= n == v@.len(),
            t == v@.skip(i as int),
            forall|k: int| j <= k < n ==> is_white_space(#[trigger] v@[k]),
        decreases j,
    {
        j = j - 1;
    }
    proof {
        assert forall|k: int| j - i <= k < t.len() implies is_white_space(#[trigger] t[k]) by {
            assert(t[k] == v@[k + i]);
        }
        if j > i {
            assert(t[j - i - 1] == v@[j - 1]);
        }
        lemma_trim_end_at(t, j - i);
        assert(t.take(j - i) =~= v@.subrange(i as int, j as int));
    }
    (i, j)
}

/// `str::trim`: the text without leading and trailing white space.
pub fn trim_text(s: &str) -> (r: String)
    ensures
        r@ == trim_seq(s@),
{
    let v = chars_of(s);
    let (from, to) = trim_bounds(&v);
    string_from_chars(&v, from, to)
}

/// Whether `s` is empty or made of white space only.
pub fn is_blank(s: &str) -> (r: bool)
    ensures
        r == (trim_seq(s@).len() == 0),
{
    let v = chars_of(s);
    let (from, to) = trim_bounds(&v);
    from == to
}

/// The number of white-space separated words (what
/// `str::split_whitespace().count()` gives).
pub open spec fn word_count(s: Seq<char>) -> nat
    decreases s.len(),
{
    if s.len() == 0 {
        0
    } else {
        let rest = word_count(s.drop_last());
        if !is_white_space(s.last()) && (s.len() == 1 || is_white_space(s[s.len() - 2])) {
            rest + 1
        } else {
            rest
        }
    }
}

/// A non-empty text without white space is one word.
pub proof fn lemma_word_count_one_word(s: Seq<char>)
    requires
        s.len() > 0,
        forall|i: int| 0 <= i < s.len() ==> !is_white_space(#[trigger] s[i]),
    ensures
        word_count(s) == 1,
    decreases s.len(),
{
    assert(!is_white_space(s[s.len() - 1]));
    assert(s.last() == s[s.len() - 1]);
    if s.len() == 1 {
        assert(s.drop_last() =~= Seq::<char>::empty());
        assert(word_count(Seq::<char>::empty()) == 0);
    } else {
        assert forall|i: int| 0 <= i < s.drop_last().len() implies !is_white_space(
            #[trigger] s.drop_last()[i],
        ) by {
            assert(s.drop_last()[i] == s[i]);
        }
        lemma_word_count_one_word(s.drop_last());
        assert(!is_white_space(s[s.len() - 2]));
    }
}

/// A text made only of white space has no word.
pub proof fn lemma_word_count_blank(s: Seq<char>)
    requires
        forall|i: int| 0 <= i < s.len() ==> is_white_space(#[trigger] s[i]),
    ensures
        word_count(s) == 0,
    decreases s.len(),
{
    if s.len() > 0 {
        assert forall|i: int| 0 <= i < s.drop_last().len() implies is_white_space(
            #[trigger] s.drop_last()[i],
        ) by {
            assert(s.drop_last()[i] == s[i]);
        }
        lemma_word_count_blank(s.drop_last());
        assert(is_white_space(s[s.len() - 1]));
        assert(s.last() == s[s.len() - 1]);
    }
}

/// The number of white-space separated words in `s`.
pub fn count_words(s: &str) -> (r: usize)
    ensures
        r == word_count(s@),
{
    let v = chars_of(s);
    let n = v.len();
    let mut count: usize = 0;
    let mut prev_white = true;
    let mut i: usize = 0;
    while i < n
        invariant
            n == v@.len(),
            i <= n,
            count <= i,
            count == word_count(v@.take(i as int)),
            prev_white == (i == 0 || is_white_space(v@[i - 1])),
        decreases n - i,
    {
        let c = v[i];
        let white = char_is_white_space(c);
        assert(v@.take(i + 1).drop_last() =~= v@.take(i as int));
        if !white && prev_white {
            count = count + 1;
        }
        prev_white = white;
        i = i + 1;
    }
    assert(v@.take(n as int) =~= v@);
    count
}

/// Whether `p` occurs in `s` starting at index `i`.
pub open spec fn occurs_at(s: Seq<char>, p: Seq<char>, i: int) -> bool {
    0 <= i && i + p.len() <= s.len() && s.subrange(i, i + p.len()) == p
}

/// Whether `p` occurs somewhere in `s` (what `str::contains` tests).
pub open spec fn has_infix(s: Seq<char>, p: Seq<char>) -> bool {
    exists|i: int| occurs_at(s, p, i)
}

fn matches_at(s: &Vec<char>, p: &Vec<char>, i: usize) -> (r: bool)
    requires
        i + p@.len() <= s@.len(),
    ensures
        r == occurs_at(s@, p@, i as int),
{
    let m = p.len();
    let n = s.len();
    let mut k: usize = 0;
    while k < m
        invariant
            m == p@.len(),
            n == s@.len(),
            i + m <= s@.len(),
            k <= m,
            forall|j: int| 0 <= j < k ==> s@[i + j] == p@[j],
        decreases m - k,
    {
        if s[i + k] != p[k] {
            assert(s@.subrange(i as int, i + m)[k as int] != p@[k as int]);
            return false;
        }
        k = k + 1;
    }
    assert(s@.subrange(i as int, i + m) =~= p@);
    true
}

/// Whether `pattern` occurs in `text`.
pub fn text_contains(text: &str, pattern: &str) -> (r: bool)
    ensures
        r == has_infix(text@, pattern@),
{
    let s = chars_of(text);
    let p = chars_of(pattern);
    if p.len() > s.len() {
        assert forall|i: int| !occurs_at(s@, p@, i) by {}
        return false;
    }
    if p.len() == 0 {
        assert(s@.subrange(0, 0) =~= p@);
        assert(occurs_at(s@, p@, 0));
        return true;
    }
    let n = s.len();
    let last = n - p.len();
    let mut i: usize = 0;
    while i <= last
        invariant
            n == s@.len(),
            s@ == text@,
            p@ == pattern@,
            last == n - p@.len(),
            last == s@.len() - p@.len(),
            0 < p@.len() <= s@.len(),
            i <= last + 1,
            forall|j: int| 0 <= j < i ==> !occurs_at(s@, p@, j),
        decreases last + 1 - i,
    {
        if matches_at(&s, &p, i) {
            assert(occurs_at(s@, p@, i as int));
            assert(has_infix(text@, pattern@));
            return true;
        }
        i = i + 1;
    }
    assert forall|j: int| !occurs_at(s@, p@, j) by {
        if 0 <= j < i {
        }
    }
    false
}


/// A text occurs in any text made by putting something before and after it.
pub proof fn lemma_infix_of_concat(a: Seq<char>, t: Seq<char>, b: Seq<char>)
    ensures
        has_infix(a + t + b, t),
{
    assert((a + t + b).subrange(a.len() as int, a.len() + t.len() as int) =~= t);
    assert(occurs_at(a + t + b, t, a.len() as int));
}

/// What occurs in a text still occurs once more text is appended to it.
pub proof fn lemma_infix_extend(s: Seq<char>, u: Seq<char>, t: Seq<char>)
    requires
        has_infix(s, t),
    ensures
        has_infix(s + u, t),
{
    let i = choose|i: int| occurs_at(s, t, i);
    assert((s + u).subrange(i, i + t.len()) =~= s.subrange(i, i + t.len()));
    assert(occurs_at(s + u, t, i));
}

/// `s` with every occurrence of `pat`, found from left to right without
/// overlapping, replaced by `rep` (what `str::replace` does for a non-empty
/// pattern).
pub open spec fn replace_all(s: Seq<char>, pat: Seq<char>, rep: Seq<char>) -> Seq<char>
    decreases s.len(),
{
    if pat.len() == 0 || s.len() < pat.len() {
        s
    } else if s.take(pat.len() as int) == pat {
        rep + replace_all(s.skip(pat.len() as int), pat, rep)
    } else {
        seq![s[0]] + replace_all(s.skip(1), pat, rep)
    }
}

/// Replacing in a text made of two parts replaces in each part, when no
/// occurrence of the pattern straddles the place where they meet.
pub proof fn lemma_replace_concat(x: Seq<char>, y: Seq<char>, pat: Seq<char>, rep: Seq<char>)
    requires
        pat.len() > 0,
        forall|j: int|
            0 <= j < x.len() && x.len() < j + pat.len() ==> !(#[trigger] occurs_at(x + y, pat, j)),
    ensures
        replace_all(x + y, pat, rep) == replace_all(x, pat, rep) + replace_all(y, pat, rep),
    decreases x.len(),
{
    let k = pat.len() as int;
    let s = x + y;
    if x.len() == 0 {
        assert(s =~= y);
        assert(replace_all(x, pat, rep) + replace_all(y, pat, rep) =~= replace_all(y, pat, rep));
    } else if s.len() < k {
        assert(replace_all(y, pat, rep) == y);
    } else if s.take(k) == pat {
        assert(s.subrange(0, k) =~= s.take(k));
        assert(occurs_at(s, pat, 0));
        assert(x.take(k) =~= s.take(k));
        let x2 = x.skip(k);
        assert(s.skip(k) =~= x2 + y);
        assert forall|j: int| 0 <= j < x2.len() && x2.len() < j + k implies !(#[trigger] occurs_at(
            x2 + y,
            pat,
            j,
        )) by {
            if occurs_at(x2 + y, pat, j) {
                assert((x2 + y).subrange(j, j + k) =~= s.subrange(j + k, j + k + k));
                assert(occurs_at(s, pat, j + k));
            }
        }
        lemma_replace_concat(x2, y, pat, rep);
        assert(rep + (replace_all(x2, pat, rep) + replace_all(y, pat, rep)) =~= (rep + replace_all(
            x2,
            pat,
            rep,
        )) + replace_all(y, pat, rep));
    } else {
        let x2 = x.skip(1);
        assert(s.skip(1) =~= x2 + y);
        assert forall|j: int| 0 <= j < x2.len() && x2.len() < j + k implies !(#[trigger] occurs_at(
            x2 + y,
            pat,
            j,
        )) by {
            if occurs_at(x2 + y, pat, j) {
                assert((x2 + y).subrange(j, j + k) =~= s.subrange(j + 1, j + 1 + k));
                assert(occurs_at(s, pat, j + 1));
            }
        }
        lemma_replace_concat(x2, y, pat, rep);
        if x.len() < k {
            assert(replace_all(x2, pat, rep) == x2);
            assert(seq![s[0]] + (x2 + replace_all(y, pat, rep)) =~= x + replace_all(y, pat, rep));
        } else {
            assert(x.take(k) =~= s.take(k));
            assert(seq![s[0]] + (replace_all(x2, pat, rep) + replace_all(y, pat, rep)) =~= (seq![x[0]]
                + replace_all(x2, pat, rep)) + replace_all(y, pat, rep));
        }
    }
}

/// Replacing splits at a place where the first part's last character and
/// the second part's first character are never neighbours in the pattern.
pub proof fn lemma_replace_split(x: Seq<char>, y: Seq<char>, pat: Seq<char>, rep: Seq<char>)
    requires
        pat.len() > 0,
        forall|m: int|
            1 <= m < pat.len() ==> (y.len() > 0 && #[trigger] pat[m] != y[0]) || (x.len() > 0 && pat[m
                - 1] != x.last()),
    ensures
        replace_all(x + y, pat, rep) == replace_all(x, pat, rep) + replace_all(y, pat, rep),
{
    let k = pat.len() as int;
    assert forall|j: int| 0 <= j < x.len() && x.len() < j + k implies !(#[trigger] occurs_at(
        x + y,
        pat,
        j,
    )) by {
        if occurs_at(x + y, pat, j) {
            let m = x.len() - j;
            let w = (x + y).subrange(j, j + k);
            assert(w[m] == pat[m]);
            assert(w[m - 1] == pat[m - 1]);
            assert(w[m] == y[0]);
            assert(w[m - 1] == x.last());
        }
    }
    lemma_replace_concat(x, y, pat, rep);
}

/// A text in which the pattern does not occur is left as it is.
pub proof fn lemma_replace_unchanged(x: Seq<char>, pat: Seq<char>, rep: Seq<char>)
    requires
        pat.len() > 0,
        forall|j: int| 0 <= j && j + pat.len() <= x.len() ==> !(#[trigger] occurs_at(x, pat, j)),
    ensures
        replace_all(x, pat, rep) == x,
    decreases x.len(),
{
    let k = pat.len() as int;
    if x.len() >= k {
        assert(x.subrange(0, k) =~= x.take(k));
        assert(!occurs_at(x, pat, 0));
        let x2 = x.skip(1);
        assert forall|j: int| 0 <= j && j + k <= x2.len() implies !(#[trigger] occurs_at(
            x2,
            pat,
            j,
        )) by {
            assert(x2.subrange(j, j + k) =~= x.subrange(j + 1, j + 1 + k));
            assert(!occurs_at(x, pat, j + 1));
        }
        lemma_replace_unchanged(x2, pat, rep);
        assert(seq![x[0]] + x2 =~= x);
    }
}

/// The pattern alone becomes the replacement.
pub proof fn lemma_replace_whole(pat: Seq<char>, rep: Seq<char>)
    requires
        pat.len() > 0,
    ensures
        replace_all(pat, pat, rep) == rep,
{
    let k = pat.len() as int;
    assert(pat.take(k) =~= pat);
    assert(pat.skip(k) =~= Seq::<char>::empty());
    assert(replace_all(Seq::<char>::empty(), pat, rep) == Seq::<char>::empty());
    assert(rep + Seq::<char>::empty() =~= rep);
}

/// `text` with every occurrence of `pat` replaced by `rep`.
pub fn replace_text(text: &str, pat: &str, rep: &str) -> (r: String)
    requires
        pat@.len() > 0,
    ensures
        r@ == replace_all(text@, pat@, rep@),
{
    let v = chars_of(text);
    let p = chars_of(pat);
    let n = v.len();
    let m = p.len();
    let mut out = String::new();
    let mut i: usize = 0;
    assert(v@.skip(0) =~= v@);
    while i < n
        invariant
            n == v@.len(),
            m == p@.len(),
            v@ == text@,
            p@ == pat@,
            m > 0,
            i <= n,
            out@ + replace_all(v@.skip(i as int), p@, rep@) == replace_all(v@, p@, rep@),
        decreases n - i,
    {
        let ghost rest = v@.skip(i as int);
        if n - i >= m && matches_at(&v, &p, i) {
            assert(rest.take(m as int) =~= v@.subrange(i as int, i + m));
            assert(rest.skip(m as int) =~= v@.skip(i + m));
            let ghost before = out@;
            out.append(rep);
            assert(before + replace_all(rest, p@, rep@) =~= out@ + replace_all(
                v@.skip(i + m),
                p@,
                rep@,
            ));
            i = i + m;
        } else {
            if n - i >= m {
                assert(rest.take(m as int) =~= v@.subrange(i as int, i + m));
            }
            assert(rest.skip(1) =~= v@.skip(i + 1));
            let ghost before = out@;
            push_char(&mut out, v[i]);
            assert(before + replace_all(rest, p@, rep@) =~= out@ + replace_all(
                v@.skip(i + 1),
                p@,
                rep@,
            ));
            i = i + 1;
        }
    }
    assert(v@.skip(n as int) =~= Seq::<char>::empty());
    assert(out@ + Seq::<char>::empty() =~= out@);
    out
}


/// `s` without the copies of `c` at its end (what `str::trim_end_matches`
/// does for one character).
pub open spec fn trim_end_char(s: Seq<char>, c: char) -> Seq<char>
    decreases s.len(),
{
    if s.len() > 0 && s.last() == c {
        trim_end_char(s.drop_last(), c)
    } else {
        s
    }
}

proof fn lemma_trim_end_char_at(s: Seq<char>, c: char, j: int)
    requires
        0 <= j <= s.len(),
        forall|k: int| j <= k < s.len() ==> #[trigger] s[k] == c,
        j == 0 || s[j - 1] != c,
    ensures
        trim_end_char(s, c) == s.take(j),
    decreases s.len() - j,
{
    if j < s.len() {
        assert forall|k: int| j <= k < s.len() - 1 implies #[trigger] s.drop_last()[k] == c by {
            assert(s.drop_last()[k] == s[k]);
        }
        lemma_trim_end_char_at(s.drop_last(), c, j);
        assert(s.drop_last().take(j) =~= s.take(j));
    } else {
        assert(s.take(j) =~= s);
    }
}

/// Trimming `c` from the end undoes appending any number of `c` to a text
/// that does not end in `c`.
pub proof fn lemma_trim_end_char_appended(b: Seq<char>, c: char, n: nat)
    requires
        b.len() == 0 || b.last() != c,
    ensures
        trim_end_char(b + Seq::new(n, |k: int| c), c) == b,
    decreases n,
{
    let t = b + Seq::new(n, |k: int| c);
    if n == 0 {
        assert(t =~= b);
    } else {
        assert(t.last() == c);
        assert(t.drop_last() =~= b + Seq::new((n - 1) as nat, |k: int| c));
        lemma_trim_end_char_appended(b, c, (n - 1) as nat);
    }
}

/// `text` without the copies of `c` at its end.
pub fn trim_end_matching(text: &str, c: char) -> (r: String)
    ensures
        r@ == trim_end_char(text@, c),
{
    let v = chars_of(text);
    let mut j: usize = v.len();
    while j > 0 && v[j - 1] == c
        invariant
            j <= v@.len(),
            forall|k: int| j <= k < v@.len() ==> #[trigger] v@[k] == c,
        decreases j,
    {
        j = j - 1;
    }
    proof {
        lemma_trim_end_char_at(v@, c, j as int);
    }
    assert(v@.subrange(0, j as int) =~= v@.take(j as int));
    string_from_chars(&v, 0, j)
}

/// What `str::to_uppercase` gives for a text: the Unicode upper-case
/// mapping of each character.
pub uninterp spec fn unicode_uppercase(s: Seq<char>) -> Seq<char>;

/// Upper-cases a text with `str::to_uppercase`. Claimed: the result depends
/// on the text alone. The Unicode case mapping itself (which may turn one
/// character into several) is not stated.
#[verifier::external_body]
pub(crate) fn to_uppercase_text(s: &str) -> (r: String)
    ensures
        r@ == unicode_uppercase(s@),
{
    s.to_uppercase()
}

} // verus!
