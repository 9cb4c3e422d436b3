//! Character-level helpers over `Vec<char>`: conversion to and from strings,
//! substring search, trimming, and splitting into words.

use vstd::prelude::*;

verus! {

/// Whether `c` has the Unicode `White_Space` property, as `char::is_whitespace` reports it.
pub uninterp spec fn unicode_whitespace(c: char) -> bool;

/// Whether `c` is alphabetic or numeric in Unicode terms, as `char::is_alphanumeric` reports it.
pub uninterp spec fn unicode_alphanumeric(c: char) -> bool;

/// Relies on `char::is_whitespace`: true exactly for the characters with the
/// Unicode `White_Space` property.
#[verifier::external_body]
pub(crate) fn is_whitespace(c: char) -> (r: bool)
    ensures
        r == unicode_whitespace(c),
{
    c.is_whitespace()
}

/// Relies on `char::is_alphanumeric`: true exactly for alphabetic or numeric characters.
#[verifier::external_body]
pub(crate) fn is_alphanumeric(c: char) -> (r: bool)
    ensures
        r == unicode_alphanumeric(c),
{
    c.is_alphanumeric()
}

/// Relies on `String::push`: appends one character at the end.
#[verifier::external_body]
fn push_char(s: &mut String, c: char)
    ensures
        final(s)@ == old(s)@.push(c),
{
    s.push(c);
}

/// The characters of `s`, in order.
pub fn chars_of(s: &str) -> (r: Vec<char>)
    ensures
        r@ == s@,
{
    let n = s.unicode_len();
    let mut r: Vec<char> = Vec::new();
    let mut i: usize = 0;
    while i < n
        invariant
            n == s@.len(),
            i <= n,
            r@ == s@.take(i as int),
        decreases n - i,
    {
        let c = s.get_char(i);
        r.push(c);
        i += 1;
        assert(r@ =~= s@.take(i as int));
    }
    assert(r@ =~= s@);
    r
}

/// The string made of the characters of `v`, in order.
pub fn string_of(v: &Vec<char>) -> (r: String)
    ensures
        r@ == v@,
{
    let mut r = String::new();
    let mut i: usize = 0;
    while i < v.len()
        invariant
            i <= v.len(),
            r@ == v@.take(i as int),
        decreases v.len() - i,
    {
        push_char(&mut r, v[i]);
        i += 1;
        assert(r@ =~= v@.take(i as int));
    }
    assert(r@ =~= v@);
    r
}

/// Whether `pat` occurs in `s` starting at position `i`.
pub open spec fn occurs_at(s: Seq<char>, pat: Seq<char>, i: int) -> bool {
    0 <= i && i + pat.len() <= s.len() && s.subrange(i, i + pat.len()) == pat
}

/// The first position at or after `i` where `pat` occurs in `s`.
pub open spec fn first_from(s: Seq<char>, pat: Seq<char>, i: int) -> Option<int>
    decreases s.len() + 1 - i,
{
    if i < 0 || i + pat.len() > s.len() {
        None
    } else if occurs_at(s, pat, i) {
        Some(i)
    } else {
        first_from(s, pat, i + 1)
    }
}

/// What `first_from` finds: an occurrence, with none before it.
pub proof fn lemma_first_from(s: Seq<char>, pat: Seq<char>, i: int)
    requires
        0 <= i,
    ensures
        match first_from(s, pat, i) {
            Some(k) => i <= k && occurs_at(s, pat, k) && forall|j: int|
                i <= j < k ==> !occurs_at(s, pat, j),
            None => forall|j: int| i <= j ==> !occurs_at(s, pat, j),
        },
    decreases s.len() + 1 - i,
{
    if i + pat.len() > s.len() {
    } else if occurs_at(s, pat, i) {
    } else {
        lemma_first_from(s, pat, i + 1);
    }
}

/// Whether `pat` occurs anywhere in `s`.
pub open spec fn contains_seq(s: Seq<char>, pat: Seq<char>) -> bool {
    first_from(s, pat, 0) is Some
}

/// Whether `s` begins with `pat`.
pub open spec fn starts_with_seq(s: Seq<char>, pat: Seq<char>) -> bool {
    occurs_at(s, pat, 0)
}

/// Whether `pat` occurs in `s` at position `i`.
pub fn matches_at(s: &Vec<char>, pat: &Vec<char>, i: usize) -> (r: bool)
    ensures
        r == occurs_at(s@, pat@, i as int),
{
    if pat.len() > s.len() || i > s.len() - pat.len() {
        return false;
    }
    let mut j: usize = 0;
    while j < pat.len()
        invariant
            i + pat.len() <= s.len(),
            j <= pat.len(),
            s@.subrange(i as int, i + j) =~= pat@.take(j as int),
        decreases pat.len() - j,
    {
        if s[i + j] != pat[j] {
            assert(s@.subrange(i as int, i + pat.len())[j as int] != pat@[j as int]);
            return false;
        }
        j += 1;
        assert(s@.subrange(i as int, i + j) =~= pat@.take(j as int));
    }
    assert(pat@.take(pat.len() as int) =~= pat@);
    true
}

/// The first position at or after `start` where `pat` occurs in `s`.
pub fn find_from(s: &Vec<char>, pat: &Vec<char>, start: usize) -> (r: Option<usize>)
    ensures
        match r {
            Some(i) => first_from(s@, pat@, start as int) == Some(i as int) && i + pat@.len()
                <= s@.len(),
            None => first_from(s@, pat@, start as int) is None,
        },
{
    proof {
        lemma_first_from(s@, pat@, start as int);
    }
    if pat.len() > s.len() || start > s.len() - pat.len() {
        return None;
    }
    if pat.len() == 0 {
        assert(s@.subrange(start as int, start as int) =~= pat@);
        return Some(start);
    }
    let mut i = start;
    while pat.len() <= s.len() - i
        invariant
            0 < pat.len() <= s.len(),
            start <= i <= s.len(),
            first_from(s@, pat@, start as int) == first_from(s@, pat@, i as int),
        decreases s.len() - i,
    {
        if matches_at(s, pat, i) {
            return Some(i);
        }
        i += 1;
    }
    None
}

/// Whether `pat` occurs anywhere in `s`.
pub fn contains_chars(s: &Vec<char>, pat: &Vec<char>) -> (r: bool)
    ensures
        r == contains_seq(s@, pat@),
{
    find_from(s, pat, 0).is_some()
}

/// The characters of `s` from position `from` up to, not including, `to`.
pub fn sub_chars(s: &Vec<char>, from: usize, to: usize) -> (r: Vec<char>)
    requires
        from <= to <= s.len(),
    ensures
        r@ == s@.subrange(from as int, to as int),
{
    let mut r: Vec<char> = Vec::new();
    let mut i = from;
    while i < to
        invariant
            from <= i <= to <= s.len(),
            r@ =~= s@.subrange(from as int, i as int),
        decreases to - i,
    {
        r.push(s[i]);
        i += 1;
        assert(r@ =~= s@.subrange(from as int, i as int));
    }
    r
}

/// Which characters a trim removes from the two ends of a sequence.
pub enum Trim {
    /// Unicode white space.
    Whitespace,
    /// Anything that is neither alphanumeric nor the mention sigil `@`.
    MentionEdge,
}

/// Whether the trim `t` removes the character `c`.
pub open spec fn trimmed_by(t: Trim, c: char) -> bool {
    match t {
        Trim::Whitespace => unicode_whitespace(c),
        Trim::MentionEdge => !unicode_alphanumeric(c) && c != '@',
    }
}

/// Whether the trim `t` removes the character `c`.
pub fn is_trimmed_by(t: &Trim, c: char) -> (r: bool)
    ensures
        r == trimmed_by(*t, c),
{
    match t {
        Trim::Whitespace => is_whitespace(c),
        Trim::MentionEdge => !is_alphanumeric(c) && c != '@',
    }
}

/// `s` without the trailing characters that `t` removes.
pub open spec fn trim_back(s: Seq<char>, t: Trim) -> Seq<char>
    decreases s.len(),
{
    if s.len() > 0 && trimmed_by(t, s.last()) {
        trim_back(s.drop_last(), t)
    } else {
        s
    }
}

/// `s` without the leading characters that `t` removes.
pub open spec fn trim_front(s: Seq<char>, t: Trim) -> Seq<char>
    decreases s.len(),
{
    if s.len() > 0 && trimmed_by(t, s[0]) {
        trim_front(s.drop_first(), t)
    } else {
        s
    }
}

/// `s` without the characters that `t` removes at either end.
pub open spec fn trimmed(s: Seq<char>, t: Trim) -> Seq<char> {
    trim_front(trim_back(s, t), t)
}

/// `s` without the characters that `t` removes at either end.
pub fn trim_chars(s: &Vec<char>, t: &Trim) -> (r: Vec<char>)
    ensures
        r@ == trimmed(s@, *t),
{
    let mut j = s.len();
    assert(s@.take(j as int) =~= s@);
    while j > 0 && is_trimmed_by(t, s[j - 1])
        invariant
            j <= s.len(),
            trim_back(s@, *t) == trim_back(s@.take(j as int), *t),
        decreases j,
    {
        assert(s@.take(j as int).drop_last() =~= s@.take(j - 1));
        j -= 1;
    }
    assert(trim_back(s@, *t) == s@.take(j as int));
    let mut i: usize = 0;
    assert(s@.subrange(0, j as int) =~= s@.take(j as int));
    while i < j && is_trimmed_by(t, s[i])
        invariant
            i <= j <= s.len(),
            trimmed(s@, *t) == trim_front(s@.subrange(i as int, j as int), *t),
        decreases j - i,
    {
        assert(s@.subrange(i as int, j as int).drop_first() =~= s@.subrange(i + 1, j as int));
        i += 1;
    }
    sub_chars(s, i, j)
}

/// The views of a sequence of character vectors.
pub open spec fn char_seqs(v: Seq<Vec<char>>) -> Seq<Seq<char>> {
    v.map_values(|w: Vec<char>| w@)
}

/// Splitting `s` on white space from the left: the words completed so far and
/// the word still being read.
pub open spec fn word_scan(s: Seq<char>) -> (Seq<Seq<char>>, Seq<char>)
    decreases s.len(),
{
    if s.len() == 0 {
        (Seq::empty(), Seq::empty())
    } else {
        let (done, cur) = word_scan(s.drop_last());
        if unicode_whitespace(s.last()) {
            if cur.len() > 0 {
                (done.push(cur), Seq::empty())
            } else {
                (done, cur)
            }
        } else {
            (done, cur.push(s.last()))
        }
    }
}

/// The maximal runs of non-white-space characters of `s`, in order.
pub open spec fn words(s: Seq<char>) -> Seq<Seq<char>> {
    let (done, cur) = word_scan(s);
    if cur.len() > 0 {
        done.push(cur)
    } else {
        done
    }
}

/// The maximal runs of non-white-space characters of `s`, in order.
pub fn split_words(s: &Vec<char>) -> (r: Vec<Vec<char>>)
    ensures
        char_seqs(r@) == words(s@),
{
    let mut done: Vec<Vec<char>> = Vec::new();
    let mut cur: Vec<char> = Vec::new();
    let mut i: usize = 0;
    while i < s.len()
        invariant
            i <= s.len(),
            (char_seqs(done@), cur@) == word_scan(s@.take(i as int)),
        decreases s.len() - i,
    {
        let c = s[i];
        assert(s@.take(i + 1).drop_last() =~= s@.take(i as int));
        if is_whitespace(c) {
            if cur.len() > 0 {
                let w = cur;
                done.push(w);
                cur = Vec::new();
                assert(char_seqs(done@) =~= word_scan(s@.take(i + 1)).0);
                assert(cur@ =~= word_scan(s@.take(i + 1)).1);
            }
        } else {
            cur.push(c);
        }
        i += 1;
    }
    assert(s@.take(s.len() as int) =~= s@);
    if cur.len() > 0 {
        done.push(cur);
        assert(char_seqs(done@) =~= words(s@));
    }
    done
}

/// Whether every character of `s` is white space.
pub open spec fn is_blank(s: Seq<char>) -> bool {
    forall|i: int| 0 <= i < s.len() ==> unicode_whitespace(#[trigger] s[i])
}

/// Whether every character of `s` is white space.
pub fn blank(s: &Vec<char>) -> (r: bool)
    ensures
        r == is_blank(s@),
{
    let mut i: usize = 0;
    while i < s.len()
        invariant
            i <= s.len(),
            forall|k: int| 0 <= k < i ==> unicode_whitespace(#[trigger] s@[k]),
        decreases s.len() - i,
    {
        if !is_whitespace(s[i]) {
            return false;
        }
        i += 1;
    }
    true
}

/// `out` with the line `line` appended, unless the line is blank.
pub open spec fn keep_line(out: Seq<char>, line: Seq<char>) -> Seq<char> {
    if is_blank(line) {
        out
    } else if out.len() == 0 {
        line
    } else {
        out + seq!['\n'] + line
    }
}

/// Reading `s` line by line from the left: the kept text so far and the line
/// still being read.
pub open spec fn line_scan(s: Seq<char>) -> (Seq<char>, Seq<char>)
    decreases s.len(),
{
    if s.len() == 0 {
        (Seq::empty(), Seq::empty())
    } else {
        let (out, cur) = line_scan(s.drop_last());
        if s.last() == '\n' {
            (keep_line(out, cur), Seq::empty())
        } else {
            (out, cur.push(s.last()))
        }
    }
}

/// The lines of `s` that are not blank, joined by line feeds.
pub open spec fn without_blank_lines(s: Seq<char>) -> Seq<char> {
    let (out, cur) = line_scan(s);
    keep_line(out, cur)
}

/// Appends `line` to `out`, after a line feed when `out` is not empty, unless the line is blank.
fn append_line(out: &mut Vec<char>, line: &Vec<char>)
    ensures
        final(out)@ == keep_line(old(out)@, line@),
{
    if blank(line) {
        return;
    }
    if out.len() > 0 {
        out.push('\n');
    }
    let ghost base = out@;
    let mut k: usize = 0;
    while k < line.len()
        invariant
            k <= line.len(),
            out@ == base + line@.take(k as int),
        decreases line.len() - k,
    {
        out.push(line[k]);
        k += 1;
        assert(out@ =~= base + line@.take(k as int));
    }
    assert(line@.take(line.len() as int) =~= line@);
    assert(old(out)@.len() == 0 ==> base + line@ =~= line@);
}

/// The lines of `s` that are not blank, joined by line feeds.
pub fn drop_blank_lines(s: &Vec<char>) -> (r: Vec<char>)
    ensures
        r@ == without_blank_lines(s@),
{
    let mut out: Vec<char> = Vec::new();
    let mut cur: Vec<char> = Vec::new();
    let mut i: usize = 0;
    while i < s.len()
        invariant
            i <= s.len(),
            (out@, cur@) == line_scan(s@.take(i as int)),
        decreases s.len() - i,
    {
        let c = s[i];
        assert(s@.take(i + 1).drop_last() =~= s@.take(i as int));
        if c == '\n' {
            append_line(&mut out, &cur);
            cur = Vec::new();
            assert(cur@ =~= line_scan(s@.take(i + 1)).1);
        } else {
            cur.push(c);
        }
        i += 1;
    }
    assert(s@.take(s.len() as int) =~= s@);
    append_line(&mut out, &cur);
    out
}

} // verus!
