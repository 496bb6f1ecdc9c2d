//! Searching and cutting sequences of characters.
//!
//! Protocol lines are modelled as `Seq<char>`. The specification functions here
//! say where a pattern occurs in a line and how a line is cut at a delimiter;
//! the executable functions compute the same on a window of a `Vec<char>`.

use vstd::prelude::*;

verus! {

/// `String::push` of the standard library appends the given character to the
/// end of the string, and changes nothing else of it.
pub assume_specification[ String::push ](s: &mut String, c: char)
    ensures
        final(s)@ == old(s)@.push(c),
;

/// The characters of an optional string, where there is one.
pub open spec fn view_of(s: Option<String>) -> Option<Seq<char>> {
    match s {
        Some(s) => Some(s@),
        None => None,
    }
}

/// `pat` stands in `s` at index `i`.
pub open spec fn occurs_at(s: Seq<char>, pat: Seq<char>, i: int) -> bool {
    &&& 0 <= i
    &&& i + pat.len() <= s.len()
    &&& s.subrange(i, i + pat.len()) == pat
}

/// `pat` stands somewhere in `s`.
pub open spec fn contains(s: Seq<char>, pat: Seq<char>) -> bool {
    exists|i: int| occurs_at(s, pat, i)
}

/// `pat` stands in `s` at index `i` and nowhere before.
pub open spec fn is_first_occurrence(s: Seq<char>, pat: Seq<char>, i: int) -> bool {
    &&& occurs_at(s, pat, i)
    &&& forall|j: int| 0 <= j < i ==> !occurs_at(s, pat, j)
}

/// The index of the first occurrence of `pat` in `s`, if there is one.
#[verifier::opaque]
pub open spec fn find(s: Seq<char>, pat: Seq<char>) -> Option<int> {
    if exists|i: int| is_first_occurrence(s, pat, i) {
        Some(choose|i: int| is_first_occurrence(s, pat, i))
    } else {
        None
    }
}

/// `s` cut at the first occurrence of `pat`: what stands before it and what
/// stands after it. `None` when `pat` does not occur.
pub open spec fn split_once(s: Seq<char>, pat: Seq<char>) -> Option<(Seq<char>, Seq<char>)> {
    match find(s, pat) {
        Some(i) => Some((s.subrange(0, i), s.subrange(i + pat.len(), s.len() as int))),
        None => None,
    }
}

/// `s` cut at every `sep`, read from its end: the empty text is one empty
/// piece, a `sep` at the end opens a new empty piece, and any other character
/// at the end belongs to the last piece.
pub open spec fn split(s: Seq<char>, sep: char) -> Seq<Seq<char>>
    decreases s.len(),
{
    if s.len() == 0 {
        seq![Seq::<char>::empty()]
    } else {
        let before = split(s.drop_last(), sep);
        if s.last() == sep {
            before.push(Seq::<char>::empty())
        } else {
            before.drop_last().push(before.last().push(s.last()))
        }
    }
}

/// `s` ends with `suffix`.
pub open spec fn ends_with(s: Seq<char>, suffix: Seq<char>) -> bool {
    &&& suffix.len() <= s.len()
    &&& s.subrange(s.len() - suffix.len(), s.len() as int) == suffix
}

/// The text up to the first line terminator, or all of it where there is none.
pub open spec fn first_line(s: Seq<char>) -> Seq<char> {
    match split_once(s, "\r\n"@) {
        Some((line, _)) => line,
        None => s,
    }
}

/// A first occurrence is the one that `find` gives.
pub proof fn lemma_find_is_first(s: Seq<char>, pat: Seq<char>, i: int)
    requires
        is_first_occurrence(s, pat, i),
    ensures
        find(s, pat) == Some(i),
{
    reveal(find);
    let j = choose|j: int| is_first_occurrence(s, pat, j);
    if j < i {
        assert(!occurs_at(s, pat, j));
    } else if i < j {
        assert(!occurs_at(s, pat, i));
    }
}

/// Whatever `find` gives is a first occurrence.
pub proof fn lemma_find_some(s: Seq<char>, pat: Seq<char>)
    requires
        find(s, pat) is Some,
    ensures
        is_first_occurrence(s, pat, find(s, pat)->0),
{
    reveal(find);
}

/// Where `pat` occurs nowhere, `find` gives nothing.
pub proof fn lemma_find_none(s: Seq<char>, pat: Seq<char>)
    requires
        forall|j: int| !occurs_at(s, pat, j),
    ensures
        find(s, pat) is None,
{
    reveal(find);
}

/// Among the occurrences of `pat` at or below `i` there is a first one.
proof fn lemma_least_occurrence(s: Seq<char>, pat: Seq<char>, i: int) -> (k: int)
    requires
        occurs_at(s, pat, i),
    ensures
        is_first_occurrence(s, pat, k),
        k <= i,
    decreases i,
{
    if exists|j: int| 0 <= j < i && occurs_at(s, pat, j) {
        let j = choose|j: int| 0 <= j < i && occurs_at(s, pat, j);
        lemma_least_occurrence(s, pat, j)
    } else {
        i
    }
}

/// `find` gives an index exactly when the pattern occurs.
pub proof fn lemma_find_iff_contains(s: Seq<char>, pat: Seq<char>)
    ensures
        find(s, pat) is Some <==> contains(s, pat),
{
    if contains(s, pat) {
        let i = choose|i: int| occurs_at(s, pat, i);
        let k = lemma_least_occurrence(s, pat, i);
        lemma_find_is_first(s, pat, k);
    }
    if find(s, pat) is Some {
        lemma_find_some(s, pat);
    }
}

/// Where `pat` begins nowhere in `head + pat` before the end of `head`,
/// cutting `head + pat + tail` at `pat` gives `head` and `tail` back.
pub proof fn lemma_split_once_of_join(head: Seq<char>, pat: Seq<char>, tail: Seq<char>)
    requires
        forall|j: int| 0 <= j < head.len() ==> !occurs_at(head + pat, pat, j),
    ensures
        split_once(head + pat + tail, pat) == Some((head, tail)),
{
    let s = head + pat + tail;
    let at = head.len() as int;
    assert(s.subrange(at, at + pat.len()) =~= pat);
    assert forall|j: int| 0 <= j < at implies !occurs_at(s, pat, j) by {
        if occurs_at(s, pat, j) {
            assert((head + pat).subrange(j, j + pat.len()) =~= s.subrange(j, j + pat.len()));
            assert(occurs_at(head + pat, pat, j));
        }
    }
    lemma_find_is_first(s, pat, at);
    assert(s.subrange(0, at) =~= head);
    assert(s.subrange(at + pat.len(), s.len() as int) =~= tail);
}

/// Cutting `head + c + tail` at the character `c` gives `head` and `tail`
/// back, where `head` does not hold `c`.
pub proof fn lemma_split_once_at_char(head: Seq<char>, c: char, tail: Seq<char>)
    requires
        !head.contains(c),
    ensures
        split_once(head + seq![c] + tail, seq![c]) == Some((head, tail)),
{
    let pat = seq![c];
    assert forall|j: int| 0 <= j < head.len() implies !occurs_at(head + pat, pat, j) by {
        if occurs_at(head + pat, pat, j) {
            assert((head + pat).subrange(j, j + 1)[0] == c);
            assert(head[j] == c);
        }
    }
    lemma_split_once_of_join(head, pat, tail);
}

/// Cutting `head + pat + tail` at a pattern `pat` of two different characters
/// gives `head` and `tail` back, where `head` does not hold `pat`.
pub proof fn lemma_split_once_at_pair(head: Seq<char>, a: char, b: char, tail: Seq<char>)
    requires
        a != b,
        !contains(head, seq![a, b]),
    ensures
        split_once(head + seq![a, b] + tail, seq![a, b]) == Some((head, tail)),
{
    let pat = seq![a, b];
    assert forall|j: int| 0 <= j < head.len() implies !occurs_at(head + pat, pat, j) by {
        if occurs_at(head + pat, pat, j) {
            let w = (head + pat).subrange(j, j + 2);
            assert(w[0] == a && w[1] == b);
            if j + 2 <= head.len() {
                assert(head.subrange(j, j + 2) =~= w);
                assert(occurs_at(head, pat, j));
            }
        }
    }
    lemma_split_once_of_join(head, pat, tail);
}

/// A text that does not hold the character `c` cannot be cut at it.
pub proof fn lemma_split_once_without_char(s: Seq<char>, c: char)
    requires
        !s.contains(c),
    ensures
        split_once(s, seq![c]) is None,
{
    let pat = seq![c];
    assert forall|j: int| !occurs_at(s, pat, j) by {
        if occurs_at(s, pat, j) {
            assert(s.subrange(j, j + 1)[0] == c);
            assert(s[j] == c);
        }
    }
    lemma_find_none(s, pat);
}

/// A text without a line terminator is its own first line.
pub proof fn lemma_first_line_whole(s: Seq<char>)
    requires
        !contains(s, "\r\n"@),
    ensures
        first_line(s) == s,
{
    lemma_find_iff_contains(s, "\r\n"@);
}

/// The first line of `line`, a terminator and anything after it is `line`,
/// where `line` holds no terminator itself.
pub proof fn lemma_first_line_cut(line: Seq<char>, rest: Seq<char>)
    requires
        !contains(line, "\r\n"@),
    ensures
        first_line(line + "\r\n"@ + rest) == line,
{
    reveal_strlit("\r\n");
    assert("\r\n"@ =~= seq!['\r', '\n']);
    lemma_split_once_at_pair(line, '\r', '\n', rest);
}

/// The characters of a string slice, one by one.
pub fn chars_of(s: &str) -> (v: Vec<char>)
    ensures
        v@ == s@,
{
    let mut v: Vec<char> = Vec::new();
    for c in it: s.chars()
        invariant
            v@ == it.seq().take(it.index() as int),
            it.seq() == s@,
    {
        v.push(c);
    }
    v
}

/// The characters `s[from..to]` as an owned string.
pub(crate) fn collect_string(s: &Vec<char>, from: usize, to: usize) -> (r: String)
    requires
        from <= to <= s.len(),
    ensures
        r@ == s@.subrange(from as int, to as int),
{
    let mut r = String::new();
    let mut i: usize = from;
    while i < to
        invariant
            from <= i <= to <= s.len(),
            r@ == s@.subrange(from as int, i as int),
        decreases to - i,
    {
        r.push(s[i]);
        i += 1;
    }
    r
}

/// Whether `pat` stands at index `at` of `s`, looking no further than `to`.
fn matches_at(s: &Vec<char>, at: usize, to: usize, pat: &Vec<char>) -> (b: bool)
    requires
        at <= to <= s.len(),
        pat.len() <= to - at,
    ensures
        b == (s@.subrange(at as int, at + pat.len()) == pat@),
{
    let mut k: usize = 0;
    while k < pat.len()
        invariant
            at <= to <= s.len(),
            pat.len() <= to - at,
            k <= pat.len(),
            forall|q: int| 0 <= q < k ==> s[at + q] == pat[q],
        decreases pat.len() - k,
    {
        if s[at + k] != pat[k] {
            assert(s@.subrange(at as int, at + pat.len())[k as int] != pat@[k as int]);
            return false;
        }
        k += 1;
    }
    assert(s@.subrange(at as int, at + pat.len()) =~= pat@);
    true
}

/// The first occurrence of `pat` in the window `s[from..to]`, as an index
/// into `s`.
pub(crate) fn find_within(s: &Vec<char>, from: usize, to: usize, pat: &Vec<char>) -> (r: Option<usize>)
    requires
        from <= to <= s.len(),
    ensures
        r matches Some(i) ==> from <= i && i + pat.len() <= to,
        r matches Some(i) ==> s@.subrange(i as int, i + pat.len()) == pat@,
        r matches Some(i) ==> find(s@.subrange(from as int, to as int), pat@) == Some(i - from),
        r is None ==> find(s@.subrange(from as int, to as int), pat@) is None,
{
    let ghost w = s@.subrange(from as int, to as int);
    if pat.len() > to - from {
        proof {
            assert forall|j: int| !occurs_at(w, pat@, j) by {}
            lemma_find_none(w, pat@);
        }
        return None;
    }
    if pat.len() == 0 {
        proof {
            assert(w.subrange(0, 0) =~= pat@);
            assert(s@.subrange(from as int, from + 0) =~= pat@);
            lemma_find_is_first(w, pat@, 0);
        }
        return Some(from);
    }
    let last: usize = to - pat.len();
    let mut i: usize = from;
    while i <= last
        invariant
            from <= i <= last + 1,
            last == to - pat.len(),
            from <= to <= s.len(),
            0 < pat.len() <= to - from,
            w == s@.subrange(from as int, to as int),
            forall|j: int| 0 <= j < i - from ==> !occurs_at(w, pat@, j),
        decreases last + 1 - i,
    {
        let hit = matches_at(s, i, to, pat);
        assert(w.subrange(i - from, i - from + pat.len()) =~= s@.subrange(
            i as int,
            i + pat.len(),
        ));
        if hit {
            proof {
                assert(is_first_occurrence(w, pat@, i - from));
                lemma_find_is_first(w, pat@, i - from);
            }
            return Some(i);
        }
        i += 1;
    }
    proof {
        assert forall|j: int| !occurs_at(w, pat@, j) by {}
        lemma_find_none(w, pat@);
    }
    None
}

/// Whether `s` and `t` hold the same characters.
pub fn same_chars(s: &Vec<char>, t: &Vec<char>) -> (b: bool)
    ensures
        b == (s@ == t@),
{
    if s.len() != t.len() {
        return false;
    }
    let b = matches_at(s, 0, s.len(), t);
    assert(s@.subrange(0, 0 + t.len()) =~= s@);
    b
}

/// Whether `pat` stands somewhere in `s`.
pub fn contains_chars(s: &Vec<char>, pat: &Vec<char>) -> (b: bool)
    ensures
        b == contains(s@, pat@),
{
    let r = find_within(s, 0, s.len(), pat);
    proof {
        assert(s@.subrange(0, s.len() as int) =~= s@);
        lemma_find_iff_contains(s@, pat@);
    }
    r.is_some()
}

/// Whether `s` ends with `suffix`.
pub fn ends_with_chars(s: &Vec<char>, suffix: &Vec<char>) -> (b: bool)
    ensures
        b == ends_with(s@, suffix@),
{
    if suffix.len() > s.len() {
        return false;
    }
    matches_at(s, s.len() - suffix.len(), s.len(), suffix)
}

} // verus!
