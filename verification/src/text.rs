//! Text utilities over `Seq<char>` views: searching, trimming, splitting
//! on whitespace and decimal rendering of integers.

use vstd::prelude::*;

verus! {

/// The Unicode `White_Space` property, which `char::is_whitespace`
/// answers: U+0009 to U+000D, U+0020, U+0085, U+00A0, U+1680, U+2000 to
/// U+200A, U+2028, U+2029, U+202F, U+205F and U+3000.
pub open spec fn unicode_whitespace(c: char) -> bool {
    ||| '\u{9}' <= c <= '\u{d}'
    ||| c == ' '
    ||| c == '\u{85}'
    ||| c == '\u{a0}'
    ||| c == '\u{1680}'
    ||| '\u{2000}' <= c <= '\u{200a}'
    ||| c == '\u{2028}'
    ||| c == '\u{2029}'
    ||| c == '\u{202f}'
    ||| c == '\u{205f}'
    ||| c == '\u{3000}'
}

/// What `str::to_lowercase` returns for a text (Unicode lowercase mapping).
pub uninterp spec fn unicode_lowercase(s: Seq<char>) -> Seq<char>;

/// Whether a character is whitespace (the `White_Space` property, as
/// `char::is_whitespace` answers).
pub fn char_is_whitespace(c: char) -> (r: bool)
    ensures
        r == unicode_whitespace(c),
{
    ('\u{9}' <= c && c <= '\u{d}') || c == ' ' || c == '\u{85}' || c == '\u{a0}' || c == '\u{1680}'
        || ('\u{2000}' <= c && c <= '\u{200a}') || c == '\u{2028}' || c == '\u{2029}' || c == '\u{202f}'
        || c == '\u{205f}' || c == '\u{3000}'
}

/// Calls `str::to_lowercase`. Claims the result is the Unicode lowercase
/// mapping of the input, which is named and not written out.
#[verifier::external_body]
pub(crate) fn to_lowercase(s: &str) -> (r: String)
    ensures
        r@ == unicode_lowercase(s@),
{
    s.to_lowercase()
}

/// Calls `String::push`. Claims that the character is appended.
#[verifier::external_body]
pub(crate) fn push_char(s: &mut String, c: char)
    ensures
        final(s)@ == old(s)@.push(c),
{
    s.push(c)
}

/// The characters of `s`, in order.
pub fn chars_of(s: &str) -> (v: Vec<char>)
    ensures
        v@ == s@,
{
    let n = s.unicode_len();
    let mut v: Vec<char> = Vec::new();
    let mut i: usize = 0;
    while i < n
        invariant
            n == s@.len(),
            i <= n,
            v@ == s@.subrange(0, i as int),
        decreases n - i,
    {
        let c = s.get_char(i);
        v.push(c);
        i = i + 1;
        assert(v@ =~= s@.subrange(0, i as int));
    }
    assert(v@ =~= s@);
    v
}

/// A string holding the characters `cs[from..to]`.
pub fn string_of_range(cs: &Vec<char>, from: usize, to: usize) -> (r: String)
    requires
        from <= to <= cs@.len(),
    ensures
        r@ == cs@.subrange(from as int, to as int),
{
    let mut r = String::new();
    let mut i: usize = from;
    while i < to
        invariant
            from <= i <= to,
            to <= cs@.len(),
            r@ == cs@.subrange(from as int, i as int),
        decreases to - i,
    {
        push_char(&mut r, cs[i]);
        i = i + 1;
        assert(r@ =~= cs@.subrange(from as int, i as int));
    }
    r
}

/// A string holding all of `cs`.
pub fn string_of(cs: &Vec<char>) -> (r: String)
    ensures
        r@ == cs@,
{
    let r = string_of_range(cs, 0, cs.len());
    assert(cs@.subrange(0, cs@.len() as int) =~= cs@);
    r
}

/// A fresh `String` equal to `s`.
pub fn owned(s: &str) -> (r: String)
    ensures
        r@ == s@,
{
    s.to_owned()
}

/// `a + b` as a new string.
pub fn join2(a: &str, b: &str) -> (r: String)
    ensures
        r@ == a@ + b@,
{
    let mut r = a.to_owned();
    r.append(b);
    r
}

/// `a + b + c` as a new string.
pub fn join3(a: &str, b: &str, c: &str) -> (r: String)
    ensures
        r@ == a@ + b@ + c@,
{
    let mut r = a.to_owned();
    r.append(b);
    r.append(c);
    r
}

/// Whether two texts are equal.
pub fn text_eq(a: &str, b: &str) -> (r: bool)
    ensures
        r == (a@ == b@),
{
    let x = a.to_owned();
    let y = b.to_owned();
    x == y
}

/// `needle` occurs in `s` starting at index `i`.
pub open spec fn occurs_at(s: Seq<char>, needle: Seq<char>, i: int) -> bool {
    0 <= i && i + needle.len() <= s.len() && s.subrange(i, i + needle.len()) == needle
}

/// `needle` occurs somewhere in `s`.
pub open spec fn contains_text(s: Seq<char>, needle: Seq<char>) -> bool {
    exists|i: int| occurs_at(s, needle, i)
}

/// The first index at which `needle` occurs in `s`, if any.
#[verifier::opaque]
pub open spec fn first_occurrence(s: Seq<char>, needle: Seq<char>) -> Option<int> {
    if contains_text(s, needle) {
        Some(choose|i: int| occurs_at(s, needle, i) && forall|j: int| 0 <= j < i ==> !occurs_at(s, needle, j))
    } else {
        None
    }
}

/// Every occurrence of a text has a first one.
pub proof fn lemma_first_occurrence_exists(s: Seq<char>, needle: Seq<char>, k: int)
    requires
        occurs_at(s, needle, k),
    ensures
        exists|i: int| occurs_at(s, needle, i) && forall|j: int| 0 <= j < i ==> !occurs_at(s, needle, j),
    decreases k,
{
    if exists|j: int| 0 <= j < k && occurs_at(s, needle, j) {
        let j = choose|j: int| 0 <= j < k && occurs_at(s, needle, j);
        lemma_first_occurrence_exists(s, needle, j);
    } else {
        assert(forall|j: int| 0 <= j < k ==> !occurs_at(s, needle, j));
    }
}

/// What `first_occurrence` returns: the earliest occurrence, or `None`
/// when there is none.
pub proof fn lemma_first_occurrence(s: Seq<char>, needle: Seq<char>)
    ensures
        first_occurrence(s, needle) is None <==> !contains_text(s, needle),
        first_occurrence(s, needle) matches Some(i) ==> occurs_at(s, needle, i)
            && forall|j: int| 0 <= j < i ==> !occurs_at(s, needle, j),
{
    reveal(first_occurrence);
    if contains_text(s, needle) {
        let k = choose|k: int| occurs_at(s, needle, k);
        lemma_first_occurrence_exists(s, needle, k);
    }
}

/// Characterises `first_occurrence` by the index it returns.
pub proof fn lemma_first_occurrence_is(s: Seq<char>, needle: Seq<char>, i: int)
    requires
        occurs_at(s, needle, i),
        forall|j: int| 0 <= j < i ==> !occurs_at(s, needle, j),
    ensures
        first_occurrence(s, needle) == Some(i),
{
    reveal(first_occurrence);
    lemma_first_occurrence_exists(s, needle, i);
    let k = choose|k: int| occurs_at(s, needle, k) && forall|j: int| 0 <= j < k ==> !occurs_at(s, needle, j);
    assert(k == i) by {
        if k < i {
            assert(!occurs_at(s, needle, k));
        } else if i < k {
            assert(!occurs_at(s, needle, i));
        }
    }
}

/// Whether `needle` occurs in `s` at index `i` (character by character).
fn matches_at(s: &Vec<char>, needle: &Vec<char>, i: usize) -> (r: bool)
    requires
        i + needle@.len() <= s@.len(),
    ensures
        r == occurs_at(s@, needle@, i as int),
{
    let m = needle.len();
    let n = s.len();
    let mut k: usize = 0;
    while k < m
        invariant
            m == needle@.len(),
            n == s@.len(),
            i + m <= n,
            k <= m,
            forall|t: int| 0 <= t < k ==> s@[i + t] == needle@[t],
        decreases m - k,
    {
        if s[i + k] != needle[k] {
            assert(s@.subrange(i as int, i + m)[k as int] != needle@[k as int]);
            return false;
        }
        k = k + 1;
    }
    assert(s@.subrange(i as int, i + m) =~= needle@);
    true
}

/// The first index at which `needle` occurs in `s`.
pub fn find_text(s: &Vec<char>, needle: &Vec<char>) -> (r: Option<usize>)
    ensures
        r matches Some(i) ==> occurs_at(s@, needle@, i as int),
        r matches Some(i) ==> forall|j: int| 0 <= j < i ==> !occurs_at(s@, needle@, j),
        r matches Some(i) ==> first_occurrence(s@, needle@) == Some(i as int),
        r is None ==> first_occurrence(s@, needle@) is None,
        r is None <==> !contains_text(s@, needle@),
{
    let n = s.len();
    let m = needle.len();
    if m > n {
        assert forall|i: int| !occurs_at(s@, needle@, i) by {}
        proof {
            lemma_first_occurrence(s@, needle@);
        }
        return None;
    }
    let mut i: usize = 0;
    loop
        invariant
            n == s@.len(),
            m == needle@.len(),
            m <= n,
            i <= n - m,
            forall|j: int| 0 <= j < i ==> !occurs_at(s@, needle@, j),
        decreases n - m - i,
    {
        if matches_at(s, needle, i) {
            proof {
                lemma_first_occurrence_is(s@, needle@, i as int);
            }
            return Some(i);
        }
        if i == n - m {
            assert forall|j: int| !occurs_at(s@, needle@, j) by {
                if 0 <= j <= i {
                }
            }
            proof {
                lemma_first_occurrence(s@, needle@);
            }
            return None;
        }
        i = i + 1;
    }
}

/// Whether `needle` occurs in `s`.
pub fn has_text(s: &str, needle: &str) -> (r: bool)
    ensures
        r == contains_text(s@, needle@),
{
    let cs = chars_of(s);
    let ns = chars_of(needle);
    find_text(&cs, &ns).is_some()
}

/// `s` starts with `prefix`.
pub open spec fn starts_with(s: Seq<char>, prefix: Seq<char>) -> bool {
    prefix.len() <= s.len() && s.subrange(0, prefix.len() as int) == prefix
}

/// Whether `s` starts with `prefix`.
pub fn has_prefix(s: &str, prefix: &str) -> (r: bool)
    ensures
        r == starts_with(s@, prefix@),
{
    let cs = chars_of(s);
    let ps = chars_of(prefix);
    if ps.len() > cs.len() {
        return false;
    }
    matches_at(&cs, &ps, 0)
}

/// `s` with leading whitespace removed.
pub open spec fn trim_start(s: Seq<char>) -> Seq<char>
    decreases s.len(),
{
    if s.len() > 0 && unicode_whitespace(s[0]) {
        trim_start(s.drop_first())
    } else {
        s
    }
}

/// `s` with trailing whitespace removed.
pub open spec fn trim_end(s: Seq<char>) -> Seq<char>
    decreases s.len(),
{
    if s.len() > 0 && unicode_whitespace(s.last()) {
        trim_end(s.drop_last())
    } else {
        s
    }
}

/// `s` with leading and trailing whitespace removed (as `str::trim`).
pub open spec fn trim(s: Seq<char>) -> Seq<char> {
    trim_end(trim_start(s))
}

/// Whether every character of `s` is whitespace.
pub open spec fn all_whitespace(s: Seq<char>) -> bool {
    forall|i: int| 0 <= i < s.len() ==> unicode_whitespace(s[i])
}

proof fn lemma_trim_start_suffix(s: Seq<char>, i: int)
    requires
        0 <= i <= s.len(),
        forall|j: int| 0 <= j < i ==> unicode_whitespace(s[j]),
    ensures
        trim_start(s) == trim_start(s.subrange(i, s.len() as int)),
    decreases i,
{
    if i > 0 {
        assert(s.drop_first().subrange(i - 1, s.drop_first().len() as int) =~= s.subrange(i, s.len() as int));
        lemma_trim_start_suffix(s.drop_first(), i - 1);
    } else {
        assert(s.subrange(0, s.len() as int) =~= s);
    }
}

proof fn lemma_trim_end_prefix(s: Seq<char>, k: int)
    requires
        0 <= k <= s.len(),
        forall|j: int| k <= j < s.len() ==> unicode_whitespace(s[j]),
    ensures
        trim_end(s) == trim_end(s.subrange(0, k)),
    decreases s.len() - k,
{
    if k < s.len() {
        assert(s.drop_last().subrange(0, k) =~= s.subrange(0, k));
        lemma_trim_end_prefix(s.drop_last(), k);
    } else {
        assert(s.subrange(0, k) =~= s);
    }
}

/// Whitespace-only text trims to nothing.
pub proof fn lemma_trim_empty_iff(s: Seq<char>)
    ensures
        trim(s).len() == 0 <==> all_whitespace(s),
    decreases s.len(),
{
    if s.len() == 0 {
    } else if unicode_whitespace(s[0]) {
        lemma_trim_empty_iff(s.drop_first());
        assert(trim(s) == trim(s.drop_first()));
        if all_whitespace(s.drop_first()) {
            assert forall|i: int| 0 <= i < s.len() implies unicode_whitespace(s[i]) by {
                if i > 0 {
                    assert(s[i] == s.drop_first()[i - 1]);
                }
            }
        }
        if all_whitespace(s) {
            assert forall|i: int| 0 <= i < s.drop_first().len() implies unicode_whitespace(s.drop_first()[i]) by {
                assert(s.drop_first()[i] == s[i + 1]);
            }
        }
    } else {
        assert(trim_start(s) == s);
        lemma_trim_end_nonempty(s);
    }
}

proof fn lemma_trim_end_nonempty(s: Seq<char>)
    requires
        s.len() > 0,
        !unicode_whitespace(s[0]),
    ensures
        trim_end(s).len() > 0,
    decreases s.len(),
{
    if unicode_whitespace(s.last()) {
        assert(s.len() > 1);
        assert(s.drop_last()[0] == s[0]);
        lemma_trim_end_nonempty(s.drop_last());
    }
}

proof fn lemma_trim_start_head(s: Seq<char>)
    ensures
        trim_start(s).len() > 0 ==> !unicode_whitespace(trim_start(s)[0]),
    decreases s.len(),
{
    if s.len() > 0 && unicode_whitespace(s[0]) {
        lemma_trim_start_head(s.drop_first());
    }
}

proof fn lemma_trim_end_is_prefix(t: Seq<char>)
    ensures
        trim_end(t).len() <= t.len(),
        t.subrange(0, trim_end(t).len() as int) == trim_end(t),
    decreases t.len(),
{
    if t.len() > 0 && unicode_whitespace(t.last()) {
        lemma_trim_end_is_prefix(t.drop_last());
        assert(t.subrange(0, trim_end(t).len() as int) =~= t.drop_last().subrange(0, trim_end(t).len() as int));
    } else {
        assert(t.subrange(0, t.len() as int) =~= t);
    }
}

/// Trimmed text that is not empty is not all whitespace: it starts with a
/// character that is not whitespace.
pub proof fn lemma_trimmed_not_blank(s: Seq<char>)
    requires
        trim(s).len() > 0,
    ensures
        !all_whitespace(trim(s)),
        !unicode_whitespace(trim(s)[0]),
{
    lemma_trim_start_head(s);
    lemma_trim_end_is_prefix(trim_start(s));
    let t = trim_start(s);
    assert(trim(s)[0] == t.subrange(0, trim_end(t).len() as int)[0]);
}

/// The bounds `lo..hi` of `s` without leading and trailing whitespace.
pub fn trim_bounds(cs: &Vec<char>) -> (r: (usize, usize))
    ensures
        r.0 <= r.1 <= cs@.len(),
        cs@.subrange(r.0 as int, r.1 as int) == trim(cs@),
{
    let n = cs.len();
    let mut lo: usize = 0;
    while lo < n && char_is_whitespace(cs[lo])
        invariant
            n == cs@.len(),
            lo <= n,
            forall|j: int| 0 <= j < lo ==> unicode_whitespace(cs@[j]),
        decreases n - lo,
    {
        lo = lo + 1;
    }
    proof {
        lemma_trim_start_suffix(cs@, lo as int);
        let rest = cs@.subrange(lo as int, n as int);
        if lo < n {
            assert(!unicode_whitespace(rest[0]));
        }
        assert(trim_start(rest) == rest);
    }
    let mut hi: usize = n;
    while hi > lo && char_is_whitespace(cs[hi - 1])
        invariant
            n == cs@.len(),
            lo <= hi <= n,
            forall|j: int| hi <= j < n ==> unicode_whitespace(cs@[j]),
        decreases hi - lo,
    {
        hi = hi - 1;
    }
    proof {
        let rest = cs@.subrange(lo as int, n as int);
        assert forall|j: int| hi - lo <= j < rest.len() implies unicode_whitespace(rest[j]) by {
            assert(rest[j] == cs@[lo + j]);
        }
        lemma_trim_end_prefix(rest, hi - lo);
        let mid = rest.subrange(0, hi - lo);
        assert(mid =~= cs@.subrange(lo as int, hi as int));
        if hi > lo {
            assert(!unicode_whitespace(mid.last()));
        }
        assert(trim_end(mid) == mid);
    }
    (lo, hi)
}

/// `s` with leading and trailing whitespace removed.
pub fn trimmed(s: &str) -> (r: String)
    ensures
        r@ == trim(s@),
{
    let cs = chars_of(s);
    let (lo, hi) = trim_bounds(&cs);
    string_of_range(&cs, lo, hi)
}

/// Whether `s` is empty once trimmed (only whitespace).
pub fn is_blank(s: &str) -> (r: bool)
    ensures
        r == (trim(s@).len() == 0),
{
    let cs = chars_of(s);
    let (lo, hi) = trim_bounds(&cs);
    lo == hi
}

/// The length of the run of non-whitespace characters at the start of `s`.
pub open spec fn word_len(s: Seq<char>) -> nat
    decreases s.len(),
{
    if s.len() == 0 || unicode_whitespace(s[0]) {
        0
    } else {
        1 + word_len(s.drop_first())
    }
}

/// The words of `s`: its maximal runs of non-whitespace characters, in
/// order (as `str::split_whitespace`).
pub open spec fn words(s: Seq<char>) -> Seq<Seq<char>>
    decreases s.len(),
{
    if s.len() == 0 {
        Seq::empty()
    } else if unicode_whitespace(s[0]) {
        words(s.drop_first())
    } else {
        proof {
            lemma_word_len_bound(s);
            lemma_word_len_positive(s);
        }
        let n = word_len(s);
        seq![s.subrange(0, n as int)] + words(s.subrange(n as int, s.len() as int))
    }
}

pub proof fn lemma_word_len_bound(s: Seq<char>)
    ensures
        word_len(s) <= s.len(),
        forall|j: int| 0 <= j < word_len(s) ==> !unicode_whitespace(s[j]),
        word_len(s) < s.len() ==> unicode_whitespace(s[word_len(s) as int]),
    decreases s.len(),
{
    if s.len() > 0 && !unicode_whitespace(s[0]) {
        lemma_word_len_bound(s.drop_first());
        assert forall|j: int| 0 <= j < word_len(s) implies !unicode_whitespace(s[j]) by {
            if j > 0 {
                assert(s[j] == s.drop_first()[j - 1]);
            }
        }
    }
}

pub proof fn lemma_word_len_positive(s: Seq<char>)
    requires
        s.len() > 0,
        !unicode_whitespace(s[0]),
    ensures
        word_len(s) > 0,
{
}

proof fn lemma_word_len_run(s: Seq<char>, k: int)
    requires
        0 <= k <= s.len(),
        forall|j: int| 0 <= j < k ==> !unicode_whitespace(s[j]),
        k == s.len() || unicode_whitespace(s[k]),
    ensures
        word_len(s) == k,
    decreases k,
{
    if k > 0 {
        lemma_word_len_run(s.drop_first(), k - 1);
    }
}

/// The words of `s`, each as a `String`.
pub fn split_words(s: &str) -> (r: Vec<String>)
    ensures
        r@.len() == words(s@).len(),
        forall|i: int| 0 <= i < r@.len() ==> #[trigger] r@[i]@ == words(s@)[i],
{
    let cs = chars_of(s);
    let n = cs.len();
    let mut out: Vec<String> = Vec::new();
    let mut i: usize = 0;
    let ghost full = cs@;
    assert(full.subrange(0, n as int) =~= full);
    while i < n
        invariant
            n == cs@.len(),
            full == cs@,
            i <= n,
            out@.map_values(|w: String| w@) + words(full.subrange(i as int, n as int)) == words(full),
        decreases n - i,
    {
        let ghost rest = full.subrange(i as int, n as int);
        if char_is_whitespace(cs[i]) {
            proof {
                assert(rest.drop_first() =~= full.subrange(i + 1, n as int));
            }
            i = i + 1;
        } else {
            let mut j: usize = i;
            while j < n && !char_is_whitespace(cs[j])
                invariant
                    n == cs@.len(),
                    i <= j <= n,
                    forall|t: int| i <= t < j ==> !unicode_whitespace(cs@[t]),
                decreases n - j,
            {
                j = j + 1;
            }
            let w = string_of_range(&cs, i, j);
            proof {
                assert forall|t: int| 0 <= t < j - i implies !unicode_whitespace(rest[t]) by {
                    assert(rest[t] == cs@[i + t]);
                }
                if j < n {
                    assert(rest[j - i] == cs@[j as int]);
                }
                lemma_word_len_run(rest, j - i);
                assert(rest.subrange(0, j - i) =~= full.subrange(i as int, j as int));
                assert(rest.subrange(j - i, rest.len() as int) =~= full.subrange(j as int, n as int));
                assert(words(rest) == seq![full.subrange(i as int, j as int)] + words(full.subrange(j as int, n as int)));
            }
            let ghost before = out@.map_values(|w: String| w@);
            out.push(w);
            proof {
                assert(out@.map_values(|w: String| w@) =~= before.push(full.subrange(i as int, j as int)));
                assert(before + (seq![full.subrange(i as int, j as int)] + words(full.subrange(j as int, n as int)))
                    =~= before.push(full.subrange(i as int, j as int)) + words(full.subrange(j as int, n as int)));
            }
            i = j;
        }
    }
    proof {
        assert(full.subrange(n as int, n as int) =~= Seq::<char>::empty());
        assert(words(Seq::<char>::empty()) =~= Seq::<Seq<char>>::empty());
        assert(out@.map_values(|w: String| w@) + Seq::<Seq<char>>::empty() =~= out@.map_values(|w: String| w@));
        assert forall|k: int| 0 <= k < out@.len() implies #[trigger] out@[k]@ == words(s@)[k] by {
            assert(out@.map_values(|w: String| w@)[k] == out@[k]@);
        }
    }
    out
}

/// The decimal digits of `n` (no sign, no leading zeros; "0" for zero).
pub open spec fn decimal(n: nat) -> Seq<char>
    decreases n,
{
    if n < 10 {
        seq![digit_char(n)]
    } else {
        decimal(n / 10).push(digit_char(n % 10))
    }
}

/// The ASCII digit for `d < 10`.
pub open spec fn digit_char(d: nat) -> char {
    if d == 0 { '0' }
    else if d == 1 { '1' }
    else if d == 2 { '2' }
    else if d == 3 { '3' }
    else if d == 4 { '4' }
    else if d == 5 { '5' }
    else if d == 6 { '6' }
    else if d == 7 { '7' }
    else if d == 8 { '8' }
    else { '9' }
}

fn digit(d: u64) -> (c: char)
    requires
        d < 10,
    ensures
        c == digit_char(d as nat),
{
    if d == 0 { '0' }
    else if d == 1 { '1' }
    else if d == 2 { '2' }
    else if d == 3 { '3' }
    else if d == 4 { '4' }
    else if d == 5 { '5' }
    else if d == 6 { '6' }
    else if d == 7 { '7' }
    else if d == 8 { '8' }
    else { '9' }
}

/// `n` written in decimal.
pub fn decimal_text(n: u64) -> (r: String)
    ensures
        r@ == decimal(n as nat),
    decreases n,
{
    if n < 10 {
        let mut r = String::new();
        push_char(&mut r, digit(n));
        assert(r@ =~= seq![digit_char(n as nat)]);
        r
    } else {
        let mut r = decimal_text(n / 10);
        push_char(&mut r, digit(n % 10));
        r
    }
}

/// `n` written in decimal, zero-padded to at least two digits.
pub open spec fn two_digits(n: nat) -> Seq<char> {
    if n < 10 {
        seq!['0', digit_char(n)]
    } else {
        decimal(n)
    }
}

/// `n` written with at least two digits (as `{:02}`).
pub fn two_digit_text(n: u64) -> (r: String)
    ensures
        r@ == two_digits(n as nat),
{
    if n < 10 {
        let mut r = String::new();
        push_char(&mut r, '0');
        push_char(&mut r, digit(n));
        assert(r@ =~= seq!['0', digit_char(n as nat)]);
        r
    } else {
        decimal_text(n)
    }
}

} // verus!
