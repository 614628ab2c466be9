//! Character-level text handling: the views of command output that the rest
//! of the library reads (lines, whitespace-separated tokens, trimmed text),
//! each stated as a spec function and computed by a verified function.
use vstd::prelude::*;
use vstd::string::StringExecFns;

verus! {

/// Unicode `White_Space`, the set that `char::is_whitespace` tests.
pub open spec fn is_space(c: char) -> bool {
    let u = c as u32;
    (0x9 <= u && u <= 0xd) || u == 0x20 || u == 0x85 || u == 0xa0 || u == 0x1680 || (0x2000 <= u
        && u <= 0x200a) || u == 0x2028 || u == 0x2029 || u == 0x202f || u == 0x205f || u == 0x3000
}

/// `s` without its leading white space.
pub open spec fn trim_start(s: Seq<char>) -> Seq<char>
    decreases s.len(),
{
    if s.len() > 0 && is_space(s[0]) {
        trim_start(s.drop_first())
    } else {
        s
    }
}

/// `s` without its trailing white space.
pub open spec fn trim_end(s: Seq<char>) -> Seq<char>
    decreases s.len(),
{
    if s.len() > 0 && is_space(s.last()) {
        trim_end(s.drop_last())
    } else {
        s
    }
}

/// `s` without white space at either end, as `str::trim` gives it.
pub open spec fn trim(s: Seq<char>) -> Seq<char> {
    trim_end(trim_start(s))
}

pub open spec fn starts_with(s: Seq<char>, p: Seq<char>) -> bool {
    p.len() <= s.len() && s.subrange(0, p.len() as int) == p
}

pub open spec fn ends_with(s: Seq<char>, p: Seq<char>) -> bool {
    p.len() <= s.len() && s.subrange(s.len() - p.len(), s.len() as int) == p
}

/// `n` occurs in `h` at position `i`.
pub open spec fn occurs_at(h: Seq<char>, n: Seq<char>, i: int) -> bool {
    0 <= i && i + n.len() <= h.len() && h.subrange(i, i + n.len()) == n
}

pub open spec fn contains(h: Seq<char>, n: Seq<char>) -> bool {
    exists|i: int| occurs_at(h, n, i)
}

/// A line ending carriage return removed, as `str::lines` does.
pub open spec fn strip_cr(l: Seq<char>) -> Seq<char> {
    if l.len() > 0 && l.last() == '\r' {
        l.drop_last()
    } else {
        l
    }
}

/// The position of the first line feed at or after `i`, or the length.
pub open spec fn line_end(s: Seq<char>, i: int) -> int
    decreases s.len() - i,
{
    if i < 0 || i >= s.len() || s[i] == '\n' {
        i
    } else {
        line_end(s, i + 1)
    }
}

/// The lines of `s` from position `i` on.
pub open spec fn lines_from(s: Seq<char>, i: int) -> Seq<Seq<char>>
    decreases s.len() + 1 - i,
    via lines_from_decreases
{
    if i < 0 || i >= s.len() {
        seq![]
    } else {
        let e = line_end(s, i);
        seq![strip_cr(s.subrange(i, e))] + lines_from(s, e + 1)
    }
}

#[via_fn]
proof fn lines_from_decreases(s: Seq<char>, i: int) {
    if 0 <= i < s.len() {
        lemma_line_end_bounds(s, i);
    }
}

/// The lines of `s`, as `str::lines` yields them: split at each line feed,
/// a carriage return before it dropped, no line after a final line feed.
pub open spec fn lines(s: Seq<char>) -> Seq<Seq<char>> {
    lines_from(s, 0)
}

pub proof fn lemma_line_end_bounds(s: Seq<char>, i: int)
    requires
        0 <= i <= s.len(),
    ensures
        i <= line_end(s, i) <= s.len(),
        line_end(s, i) < s.len() ==> s[line_end(s, i)] == '\n',
        forall|k: int| i <= k < line_end(s, i) ==> s[k] != '\n',
    decreases s.len() - i,
{
    if i < s.len() && s[i] != '\n' {
        lemma_line_end_bounds(s, i + 1);
    }
}

/// The end of the run of non-space characters that starts at `i`.
pub open spec fn word_end(s: Seq<char>, i: int) -> int
    decreases s.len() - i,
{
    if i < 0 || i >= s.len() || is_space(s[i]) {
        i
    } else {
        word_end(s, i + 1)
    }
}

pub proof fn lemma_word_end_bounds(s: Seq<char>, i: int)
    requires
        0 <= i <= s.len(),
    ensures
        i <= word_end(s, i) <= s.len(),
        word_end(s, i) < s.len() ==> is_space(s[word_end(s, i)]),
        forall|k: int| i <= k < word_end(s, i) ==> !is_space(s[k]),
    decreases s.len() - i,
{
    if i < s.len() && !is_space(s[i]) {
        lemma_word_end_bounds(s, i + 1);
    }
}

/// The white-space separated words of `s` from position `i` on.
pub open spec fn words_from(s: Seq<char>, i: int) -> Seq<Seq<char>>
    decreases s.len() - i,
    via words_from_decreases
{
    if i < 0 || i >= s.len() {
        seq![]
    } else if is_space(s[i]) {
        words_from(s, i + 1)
    } else {
        seq![s.subrange(i, word_end(s, i))] + words_from(s, word_end(s, i))
    }
}

#[via_fn]
proof fn words_from_decreases(s: Seq<char>, i: int) {
    if 0 <= i < s.len() && !is_space(s[i]) {
        lemma_word_end_bounds(s, i + 1);
    }
}

/// The words of `s`, as `str::split_whitespace` yields them.
pub open spec fn words(s: Seq<char>) -> Seq<Seq<char>> {
    words_from(s, 0)
}

/// Every occurrence of `p` in `s`, taken from the left without overlap,
/// replaced by `r`, as `str::replace` does for a non-empty `p`.
pub open spec fn replace_all(s: Seq<char>, p: Seq<char>, r: Seq<char>) -> Seq<char>
    decreases s.len(),
{
    if s.len() == 0 || p.len() == 0 {
        s
    } else if starts_with(s, p) {
        r + replace_all(s.skip(p.len() as int), p, r)
    } else {
        seq![s[0]] + replace_all(s.drop_first(), p, r)
    }
}

/// `s` with `p` removed from its start as often as it stands there, as
/// `str::trim_start_matches` does for a non-empty `p`.
pub open spec fn strip_all_prefix(s: Seq<char>, p: Seq<char>) -> Seq<char>
    decreases s.len(),
{
    if p.len() > 0 && starts_with(s, p) {
        strip_all_prefix(s.skip(p.len() as int), p)
    } else {
        s
    }
}

/// The position of the last `c` in `s`, or -1.
pub open spec fn last_index(s: Seq<char>, c: char) -> int
    decreases s.len(),
{
    if s.len() == 0 {
        -1
    } else if s.last() == c {
        s.len() - 1
    } else {
        last_index(s.drop_last(), c)
    }
}

pub proof fn lemma_last_index_bounds(s: Seq<char>, c: char)
    ensures
        -1 <= last_index(s, c) < s.len(),
        last_index(s, c) >= 0 ==> s[last_index(s, c)] == c,
        forall|k: int| last_index(s, c) < k < s.len() ==> s[k] != c,
    decreases s.len(),
{
    if s.len() > 0 && s.last() != c {
        lemma_last_index_bounds(s.drop_last(), c);
        assert forall|k: int| last_index(s, c) < k < s.len() implies s[k] != c by {
            if k < s.len() - 1 {
                assert(s.drop_last()[k] == s[k]);
            }
        }
    }
}

/// The views of a sequence of strings.
pub open spec fn string_views(v: Seq<String>) -> Seq<Seq<char>> {
    v.map_values(|s: String| s@)
}

/// The views of a sequence of character vectors.
pub open spec fn views(v: Seq<Vec<char>>) -> Seq<Seq<char>> {
    v.map_values(|l: Vec<char>| l@)
}

/// The characters of `s`, in order.
pub fn chars_of(s: &str) -> (r: Vec<char>)
    ensures
        r@ == s@,
{
    let mut r: Vec<char> = Vec::new();
    for c in it: s.chars()
        invariant
            r@ == it.seq().take(it.index() as int),
            it.seq() == s@,
    {
        r.push(c);
    }
    r
}

/// Relies on `String`'s `FromIterator<&char>`: the string holds the given
/// characters in order.
#[verifier::external_body]
pub(crate) fn string_of(v: &[char]) -> (r: String)
    ensures
        r@ == v@,
{
    v.iter().collect()
}

pub fn is_space_char(c: char) -> (r: bool)
    ensures
        r == is_space(c),
{
    let u = c as u32;
    (0x9 <= u && u <= 0xd) || u == 0x20 || u == 0x85 || u == 0xa0 || u == 0x1680 || (0x2000 <= u
        && u <= 0x200a) || u == 0x2028 || u == 0x2029 || u == 0x202f || u == 0x205f || u == 0x3000
}

/// The characters of `v` from `lo` up to `hi`.
pub fn slice_of(v: &Vec<char>, lo: usize, hi: usize) -> (r: Vec<char>)
    requires
        lo <= hi <= v.len(),
    ensures
        r@ == v@.subrange(lo as int, hi as int),
{
    let mut r: Vec<char> = Vec::new();
    let mut i = lo;
    while i < hi
        invariant
            lo <= i <= hi <= v.len(),
            r@ == v@.subrange(lo as int, i as int),
        decreases hi - i,
    {
        r.push(v[i]);
        i = i + 1;
    }
    r
}

/// The bounds of the trimmed part of `v[lo..hi]`.
pub fn trim_bounds(v: &Vec<char>, lo: usize, hi: usize) -> (r: (usize, usize))
    requires
        lo <= hi <= v.len(),
    ensures
        lo <= r.0 <= r.1 <= hi,
        v@.subrange(r.0 as int, r.1 as int) == trim(v@.subrange(lo as int, hi as int)),
{
    let mut a = lo;
    while a < hi && is_space_char(v[a])
        invariant
            lo <= a <= hi <= v.len(),
            trim_start(v@.subrange(lo as int, hi as int)) == trim_start(
                v@.subrange(a as int, hi as int),
            ),
        decreases hi - a,
    {
        assert(v@.subrange(a as int, hi as int).drop_first() =~= v@.subrange(a + 1, hi as int));
        a = a + 1;
    }
    let mut b = hi;
    while b > a && is_space_char(v[b - 1])
        invariant
            lo <= a <= b <= hi <= v.len(),
            trim(v@.subrange(lo as int, hi as int)) == trim_end(v@.subrange(a as int, b as int)),
        decreases b - a,
    {
        assert(v@.subrange(a as int, b as int).drop_last() =~= v@.subrange(a as int, b - 1));
        b = b - 1;
    }
    (a, b)
}

/// `v[lo..hi]` trimmed.
pub fn trimmed(v: &Vec<char>, lo: usize, hi: usize) -> (r: Vec<char>)
    requires
        lo <= hi <= v.len(),
    ensures
        r@ == trim(v@.subrange(lo as int, hi as int)),
{
    let (a, b) = trim_bounds(v, lo, hi);
    slice_of(v, a, b)
}

/// Whether `p` occurs in `v` at position `i`.
pub fn occurs_at_exec(v: &Vec<char>, p: &Vec<char>, i: usize) -> (r: bool)
    ensures
        r == occurs_at(v@, p@, i as int),
{
    if i > v.len() || p.len() > v.len() - i {
        return false;
    }
    let mut k: usize = 0;
    while k < p.len()
        invariant
            i + p.len() <= v.len(),
            k <= p.len(),
            v@.subrange(i as int, i + k) == p@.subrange(0, k as int),
        decreases p.len() - k,
    {
        if v[i + k] != p[k] {
            assert(v@.subrange(i as int, i + p.len())[k as int] != p@[k as int]);
            return false;
        }
        assert(v@.subrange(i as int, i + k + 1) =~= v@.subrange(i as int, i + k).push(v@[i + k]));
        assert(p@.subrange(0, k + 1) =~= p@.subrange(0, k as int).push(p@[k as int]));
        k = k + 1;
    }
    assert(p@.subrange(0, p.len() as int) =~= p@);
    true
}

pub fn starts_with_exec(v: &Vec<char>, p: &Vec<char>) -> (r: bool)
    ensures
        r == starts_with(v@, p@),
{
    occurs_at_exec(v, p, 0)
}

pub fn ends_with_exec(v: &Vec<char>, p: &Vec<char>) -> (r: bool)
    ensures
        r == ends_with(v@, p@),
{
    if p.len() > v.len() {
        false
    } else {
        occurs_at_exec(v, p, v.len() - p.len())
    }
}

pub fn contains_exec(v: &Vec<char>, p: &Vec<char>) -> (r: bool)
    ensures
        r == contains(v@, p@),
{
    if p.len() > v.len() {
        return false;
    }
    if p.len() == 0 {
        assert(v@.subrange(0, 0) =~= p@);
        assert(occurs_at(v@, p@, 0));
        return true;
    }
    let last = v.len() - p.len();
    let mut i: usize = 0;
    while i <= last
        invariant
            last == v.len() - p.len(),
            p.len() > 0,
            forall|j: int| 0 <= j < i ==> !occurs_at(v@, p@, j),
        decreases last + 1 - i,
    {
        if occurs_at_exec(v, p, i) {
            return true;
        }
        i = i + 1;
    }
    assert forall|j: int| !occurs_at(v@, p@, j) by {
        if 0 <= j && j + p@.len() <= v@.len() {
            assert(j < i);
        }
    }
    false
}

/// `s` added to the end of `out`.
pub fn append_chars(out: &mut Vec<char>, s: &Vec<char>)
    ensures
        final(out)@ == old(out)@ + s@,
{
    let mut i: usize = 0;
    while i < s.len()
        invariant
            i <= s.len(),
            out@ == old(out)@ + s@.subrange(0, i as int),
        decreases s.len() - i,
    {
        out.push(s[i]);
        i = i + 1;
        assert(s@.subrange(0, i as int) =~= s@.subrange(0, i - 1).push(s@[i - 1]));
    }
    assert(s@.subrange(0, s.len() as int) =~= s@);
}

/// The lines of `v`.
pub fn lines_of(v: &Vec<char>) -> (r: Vec<Vec<char>>)
    ensures
        views(r@) == lines(v@),
{
    let mut out: Vec<Vec<char>> = Vec::new();
    let mut i: usize = 0;
    assert(views(out@) + lines_from(v@, 0) =~= lines(v@));
    while i < v.len()
        invariant
            i <= v.len(),
            views(out@) + lines_from(v@, i as int) == lines(v@),
        decreases v.len() - i,
    {
        let mut e = i;
        while e < v.len() && v[e] != '\n'
            invariant
                i <= e <= v.len(),
                line_end(v@, i as int) == line_end(v@, e as int),
            decreases v.len() - e,
        {
            e = e + 1;
        }
        let mut stop = e;
        if stop > i && v[stop - 1] == '\r' {
            stop = stop - 1;
            assert(v@.subrange(i as int, e as int).drop_last() =~= v@.subrange(
                i as int,
                stop as int,
            ));
        }
        let line = slice_of(v, i, stop);
        assert(line@ == strip_cr(v@.subrange(i as int, e as int)));
        let ghost before = out@;
        out.push(line);
        let next = if e < v.len() {
            e + 1
        } else {
            e
        };
        assert(lines_from(v@, i as int) == seq![line@] + lines_from(v@, e + 1));
        assert(lines_from(v@, next as int) == lines_from(v@, e + 1));
        assert(views(out@) =~= views(before).push(line@));
        assert(views(out@) + lines_from(v@, next as int) =~= views(before) + lines_from(
            v@,
            i as int,
        ));
        i = next;
    }
    assert(views(out@) + lines_from(v@, i as int) =~= views(out@));
    out
}

/// The white-space separated words of `v`.
pub fn words_of(v: &Vec<char>) -> (r: Vec<Vec<char>>)
    ensures
        views(r@) == words(v@),
{
    let mut out: Vec<Vec<char>> = Vec::new();
    let mut i: usize = 0;
    assert(views(out@) + words_from(v@, 0) =~= words(v@));
    while i < v.len()
        invariant
            i <= v.len(),
            views(out@) + words_from(v@, i as int) == words(v@),
        decreases v.len() - i,
    {
        if is_space_char(v[i]) {
            i = i + 1;
        } else {
            let mut e = i;
            while e < v.len() && !is_space_char(v[e])
                invariant
                    i <= e <= v.len(),
                    word_end(v@, i as int) == word_end(v@, e as int),
                decreases v.len() - e,
            {
                e = e + 1;
            }
            let word = slice_of(v, i, e);
            let ghost before = out@;
            out.push(word);
            assert(views(out@) =~= views(before).push(word@));
            assert(views(out@) + words_from(v@, e as int) =~= views(before) + words_from(
                v@,
                i as int,
            ));
            i = e;
        }
    }
    assert(views(out@) + words_from(v@, i as int) =~= views(out@));
    out
}

/// `v` with every occurrence of `p` replaced by `r`.
pub fn replace_exec(v: &Vec<char>, p: &Vec<char>, r: &Vec<char>) -> (out: Vec<char>)
    requires
        p.len() > 0,
    ensures
        out@ == replace_all(v@, p@, r@),
{
    let mut out: Vec<char> = Vec::new();
    let mut i: usize = 0;
    assert(v@.skip(0) =~= v@);
    assert(out@ + replace_all(v@, p@, r@) =~= replace_all(v@, p@, r@));
    while i < v.len()
        invariant
            i <= v.len(),
            p.len() > 0,
            out@ + replace_all(v@.skip(i as int), p@, r@) == replace_all(v@, p@, r@),
        decreases v.len() - i,
    {
        let ghost rest = v@.skip(i as int);
        let ghost before = out@;
        if occurs_at_exec(v, p, i) {
            assert(rest.subrange(0, p.len() as int) =~= v@.subrange(i as int, i + p.len()));
            assert(rest.skip(p.len() as int) =~= v@.skip(i + p.len()));
            append_chars(&mut out, r);
            i = i + p.len();
        } else {
            assert(!starts_with(rest, p@)) by {
                if starts_with(rest, p@) {
                    assert(rest.subrange(0, p.len() as int) =~= v@.subrange(
                        i as int,
                        i + p.len(),
                    ));
                }
            }
            assert(rest.drop_first() =~= v@.skip(i + 1));
            out.push(v[i]);
            assert(out@ =~= before + seq![rest[0]]);
            i = i + 1;
        }
        assert(out@ + replace_all(v@.skip(i as int), p@, r@) =~= before + replace_all(
            rest,
            p@,
            r@,
        ));
    }
    assert(v@.skip(i as int).len() == 0);
    assert(out@ + replace_all(v@.skip(i as int), p@, r@) =~= out@);
    out
}

/// `v` with `p` removed from its start as often as it stands there.
pub fn strip_all_prefix_exec(v: &Vec<char>, p: &Vec<char>) -> (out: Vec<char>)
    ensures
        out@ == strip_all_prefix(v@, p@),
{
    if p.len() == 0 {
        return slice_of(v, 0, v.len());
    }
    let mut i: usize = 0;
    assert(v@.skip(0) =~= v@);
    while i < v.len() && occurs_at_exec(v, p, i)
        invariant
            i <= v.len(),
            p.len() > 0,
            strip_all_prefix(v@.skip(i as int), p@) == strip_all_prefix(v@, p@),
        decreases v.len() - i,
    {
        let ghost rest = v@.skip(i as int);
        assert(rest.subrange(0, p.len() as int) =~= v@.subrange(i as int, i + p.len()));
        assert(rest.skip(p.len() as int) =~= v@.skip(i + p.len()));
        i = i + p.len();
    }
    let ghost rest = v@.skip(i as int);
    assert(!starts_with(rest, p@)) by {
        if starts_with(rest, p@) {
            assert(rest.subrange(0, p.len() as int) =~= v@.subrange(i as int, i + p.len()));
        }
    }
    let out = slice_of(v, i, v.len());
    assert(out@ =~= rest);
    out
}

/// The position of the last `c` in `v`, if any.
pub fn last_index_exec(v: &Vec<char>, c: char) -> (r: Option<usize>)
    ensures
        r is None <==> last_index(v@, c) == -1,
        r matches Some(k) ==> k == last_index(v@, c),
{
    let mut k = v.len();
    assert(v@.take(k as int) =~= v@);
    while k > 0 && v[k - 1] != c
        invariant
            k <= v.len(),
            last_index(v@.take(k as int), c) == last_index(v@, c),
        decreases k,
    {
        assert(v@.take(k as int).drop_last() =~= v@.take(k - 1));
        k = k - 1;
    }
    if k == 0 {
        None
    } else {
        Some(k - 1)
    }
}

/// `a` followed by `b`.
pub fn cat(a: &str, b: &str) -> (r: String)
    ensures
        r@ == a@ + b@,
{
    String::from_str(a).concat(b)
}

} // verus!
