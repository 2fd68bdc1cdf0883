//! Splitting a source line into words, and reading words as keywords,
//! numbers and label names.
use vstd::prelude::*;

verus! {

/// Characters that separate words on a line.
pub open spec fn is_blank(c: char) -> bool {
    c == ' ' || c == '\t' || c == '\r'
}

/// Where the code of a line ends: at the first `//`, or at the end of the line.
pub open spec fn code_end(line: Seq<char>) -> nat
    decreases line.len(),
{
    if line.len() < 2 {
        line.len()
    } else {
        let prev = code_end(line.drop_last());
        if prev < line.len() - 1 {
            prev
        } else if line[line.len() - 2] == '/' && line[line.len() - 1] == '/' {
            (line.len() - 2) as nat
        } else {
            line.len()
        }
    }
}

/// The words among the first `k` characters of `line`: maximal runs of
/// non-blank characters, each as its half-open range of indices.
pub open spec fn words(line: Seq<char>, k: nat) -> Seq<(usize, usize)>
    decreases k,
{
    if k == 0 {
        Seq::empty()
    } else {
        let prev = words(line, (k - 1) as nat);
        if is_blank(line[k - 1]) {
            prev
        } else if k >= 2 && !is_blank(line[k - 2]) && prev.len() > 0 {
            prev.update(prev.len() - 1, (prev.last().0, k as usize))
        } else {
            prev.push(((k - 1) as usize, k as usize))
        }
    }
}

/// The words of the code part of a line.
pub open spec fn line_words(line: Seq<char>) -> Seq<(usize, usize)> {
    words(line, code_end(line))
}

pub proof fn lemma_code_end_bound(line: Seq<char>)
    ensures
        code_end(line) <= line.len(),
    decreases line.len(),
{
    if line.len() >= 2 {
        lemma_code_end_bound(line.drop_last());
    }
}

/// Every word is a non-empty range within the first `k` characters.
pub proof fn lemma_words_bounds(line: Seq<char>, k: nat)
    requires
        k <= line.len(),
        line.len() <= usize::MAX,
    ensures
        forall|j: int| #![trigger words(line, k)[j]] 0 <= j < words(line, k).len() ==>
            words(line, k)[j].0 < words(line, k)[j].1 <= k && words(line, k)[0].0 <= words(line, k)[j].0,
    decreases k,
{
    if k > 0 {
        lemma_words_bounds(line, (k - 1) as nat);
        let prev = words(line, (k - 1) as nat);
        let cur = words(line, k);
        assert forall|j: int| #![trigger cur[j]] 0 <= j < cur.len() implies cur[j].0 < cur[j].1 <= k && cur[0].0 <= cur[j].0 by {
            if prev.len() > 0 {
                assert(prev[0].0 < prev[0].1 <= k - 1);
            }
            if j < prev.len() {
                assert(prev[j].0 < prev[j].1 <= k - 1);
                assert(prev[0].0 <= prev[j].0);
            }
        }
    }
}

/// The characters of `line` in the range `sp`.
pub open spec fn word_at(line: Seq<char>, sp: (usize, usize)) -> Seq<char> {
    line.subrange(sp.0 as int, sp.1 as int)
}

pub open spec fn is_digit(c: char) -> bool {
    '0' <= c && c <= '9'
}

/// Whether `c` has the Unicode `Alphabetic` property.
pub uninterp spec fn alphabetic(c: char) -> bool;

/// Whether `c` has the Unicode `Alphabetic` property or a numeric general category.
pub uninterp spec fn alphanumeric(c: char) -> bool;

/// Relies on char::is_alphabetic, whose result depends on the character alone.
#[verifier::external_body]
fn is_alphabetic_char(c: char) -> (r: bool)
    ensures
        r == alphabetic(c),
{
    c.is_alphabetic()
}

/// Relies on char::is_alphanumeric, whose result depends on the character alone.
#[verifier::external_body]
fn is_alphanumeric_char(c: char) -> (r: bool)
    ensures
        r == alphanumeric(c),
{
    c.is_alphanumeric()
}

/// A character that may follow the first one of a label name.
pub open spec fn is_name_char(c: char) -> bool {
    alphanumeric(c) || c == '_' || c == '.' || c == '$'
}

/// A label name: an alphabetic character, then alphanumeric characters,
/// `_`, `.` or `$`.
pub open spec fn is_label_name(w: Seq<char>) -> bool {
    &&& w.len() > 0
    &&& alphabetic(w[0])
    &&& forall|i: int| 1 <= i < w.len() ==> is_name_char(#[trigger] w[i])
}

/// The value of a string of decimal digits.
pub open spec fn digits_value(w: Seq<char>) -> nat
    decreases w.len(),
{
    if w.len() == 0 {
        0
    } else {
        10 * digits_value(w.drop_last()) + (w.last() as nat - '0' as nat) as nat
    }
}

/// A non-negative decimal number that fits in a `usize`.
pub open spec fn is_number(w: Seq<char>) -> bool {
    &&& w.len() > 0
    &&& forall|i: int| 0 <= i < w.len() ==> is_digit(#[trigger] w[i])
    &&& digits_value(w) <= usize::MAX
}

proof fn lemma_digits_prefix(w: Seq<char>, j: int)
    requires
        0 <= j <= w.len(),
    ensures
        digits_value(w.subrange(0, j)) <= digits_value(w),
    decreases w.len(),
{
    if j < w.len() {
        assert(w.drop_last().subrange(0, j) =~= w.subrange(0, j));
        lemma_digits_prefix(w.drop_last(), j);
    } else {
        assert(w.subrange(0, j) =~= w);
    }
}

/// The value of the number written in `line[s..e]`, or `None` where that is
/// not a decimal number that fits in a `usize`.
pub fn read_number(line: &Vec<char>, s: usize, e: usize) -> (r: Option<usize>)
    requires
        s <= e <= line@.len(),
    ensures
        r is Some <==> is_number(line@.subrange(s as int, e as int)),
        r is Some ==> r->0 == digits_value(line@.subrange(s as int, e as int)),
{
    let ghost w = line@.subrange(s as int, e as int);
    if s == e {
        return None;
    }
    let mut v: usize = 0;
    let mut i: usize = s;
    while i < e
        invariant
            s <= i <= e <= line@.len(),
            w == line@.subrange(s as int, e as int),
            forall|j: int| 0 <= j < i - s ==> is_digit(#[trigger] w[j]),
            v == digits_value(w.subrange(0, i - s)),
        decreases e - i,
    {
        let c = line[i];
        if !('0' <= c && c <= '9') {
            assert(w[i - s] == c);
            return None;
        }
        let d = (c as u32 - '0' as u32) as usize;
        assert(w.subrange(0, i - s + 1).drop_last() =~= w.subrange(0, i - s));
        proof {
            lemma_digits_prefix(w, i - s + 1);
        }
        if v > (usize::MAX - d) / 10 {
            assert(digits_value(w.subrange(0, i - s + 1)) > usize::MAX) by (nonlinear_arith)
                requires
                    v > (usize::MAX - d) / 10,
                    digits_value(w.subrange(0, i - s + 1)) == 10 * v + d;
            return None;
        }
        v = 10 * v + d;
        i = i + 1;
    }
    assert(w.subrange(0, e - s) =~= w);
    Some(v)
}

/// Whether `line[s..e]` is a label name.
pub fn read_label_name(line: &Vec<char>, s: usize, e: usize) -> (r: bool)
    requires
        s <= e <= line@.len(),
    ensures
        r == is_label_name(line@.subrange(s as int, e as int)),
{
    let ghost w = line@.subrange(s as int, e as int);
    if s == e {
        return false;
    }
    let c0 = line[s];
    if !is_alphabetic_char(c0) {
        assert(w[0] == c0);
        return false;
    }
    let mut i: usize = s + 1;
    while i < e
        invariant
            s < i <= e <= line@.len(),
            w == line@.subrange(s as int, e as int),
            forall|j: int| 1 <= j < i - s ==> is_name_char(#[trigger] w[j]),
        decreases e - i,
    {
        let c = line[i];
        if !(is_alphanumeric_char(c) || c == '_' || c == '.' || c == '$') {
            assert(w[i - s] == c);
            return false;
        }
        i = i + 1;
    }
    true
}

/// The index where the code of `line` ends.
pub fn find_code_end(line: &Vec<char>) -> (r: usize)
    ensures
        r == code_end(line@),
        line@.len() <= usize::MAX,
{
    let n = line.len();
    if n < 2 {
        return n;
    }
    let mut k: usize = 2;
    proof {
        lemma_code_end_bound(line@.subrange(0, 2));
    }
    let first = if line[0] == '/' && line[1] == '/' { 0 } else { 2 };
    let mut cur: usize = first;
    assert(line@.subrange(0, 2).drop_last() =~= line@.subrange(0, 1));
    assert(code_end(line@.subrange(0, 1)) == 1);
    assert(line@.subrange(0, 2)[0] == line@[0]);
    assert(line@.subrange(0, 2)[1] == line@[1]);
    while k < n
        invariant
            2 <= k <= n,
            n == line@.len(),
            cur == code_end(line@.subrange(0, k as int)),
        decreases n - k,
    {
        let ghost prefix = line@.subrange(0, k + 1);
        assert(prefix.drop_last() =~= line@.subrange(0, k as int));
        if cur < k - 1 {
        } else if line[k - 1] == '/' && line[k] == '/' {
            cur = k - 1;
        } else {
            cur = k + 1;
        }
        k = k + 1;
    }
    assert(line@.subrange(0, n as int) =~= line@);
    cur
}

/// The words of the first `k` characters of `line`.
pub fn find_words(line: &Vec<char>, k: usize) -> (r: Vec<(usize, usize)>)
    requires
        k <= line@.len(),
    ensures
        r@ == words(line@, k as nat),
{
    let mut out: Vec<(usize, usize)> = Vec::new();
    let mut i: usize = 0;
    while i < k
        invariant
            i <= k <= line@.len(),
            out@ == words(line@, i as nat),
        decreases k - i,
    {
        let c = line[i];
        if c == ' ' || c == '\t' || c == '\r' {
        } else if i >= 1 && !(line[i - 1] == ' ' || line[i - 1] == '\t' || line[i - 1] == '\r') && out.len() > 0 {
            let last = out.len() - 1;
            let start = out[last].0;
            out.set(last, (start, i + 1));
        } else {
            out.push((i, i + 1));
        }
        i = i + 1;
    }
    out
}

/// Whether the characters of `line` in `[s, e)` are exactly `lit`.
pub fn word_is(line: &Vec<char>, s: usize, e: usize, lit: &str) -> (r: bool)
    requires
        s <= e <= line@.len(),
    ensures
        r == (line@.subrange(s as int, e as int) == lit@),
{
    let n = lit.unicode_len();
    if e - s != n {
        assert(line@.subrange(s as int, e as int).len() != lit@.len());
        return false;
    }
    let mut i: usize = 0;
    while i < n
        invariant
            i <= n,
            n == lit@.len(),
            e - s == n,
            s <= e <= line@.len(),
            forall|j: int| 0 <= j < i ==> line@[s + j] == lit@[j],
        decreases n - i,
    {
        if line[s + i] != lit.get_char(i) {
            assert(line@.subrange(s as int, e as int)[i as int] != lit@[i as int]);
            return false;
        }
        i = i + 1;
    }
    assert(line@.subrange(s as int, e as int) =~= lit@);
    true
}

} // verus!
