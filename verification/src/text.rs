//! Character-sequence utilities with exact specifications.
//!
//! Strings are modelled by their view, a `Seq<char>`.

use vstd::prelude::*;

verus! {

broadcast use vstd::string::group_string_axioms;

/// Appends one character to a `String` (`String::push`).
/// Trusted: the documentation of `String::push` says that the character is
/// appended to the end of the string.
#[verifier::external_body]
pub(crate) fn string_push(s: &mut String, c: char)
    ensures
        final(s)@ == old(s)@.push(c),
{
    s.push(c);
}

/// The characters of `s`, in order.
pub fn to_chars(s: &str) -> (v: Vec<char>)
    ensures
        v@ == s@,
{
    let mut v: Vec<char> = Vec::new();
    for c in it: s.chars()
        invariant
            v@ == it.seq().take(it.index() as int),
            it.seq() == s@,
    {
        v.push(c);
    }
    v
}

/// The string made of the characters of `v`.
pub fn from_chars(v: &Vec<char>) -> (s: String)
    ensures
        s@ == v@,
{
    let mut s = String::new();
    let mut i: usize = 0;
    while i < v.len()
        invariant
            i <= v.len(),
            s@ == v@.take(i as int),
        decreases v.len() - i,
    {
        string_push(&mut s, v[i]);
        assert(v@.take(i + 1) == v@.take(i as int).push(v@[i as int]));
        i += 1;
    }
    assert(v@.take(v.len() as int) == v@);
    s
}


/// Unicode `White_Space`, the set that `char::is_whitespace` and
/// `str::trim` use.
pub open spec fn is_ws(c: char) -> bool {
    let u = c as u32;
    ||| 9 <= u <= 13
    ||| u == 32
    ||| u == 0x85
    ||| u == 0xA0
    ||| u == 0x1680
    ||| 0x2000 <= u <= 0x200A
    ||| u == 0x2028
    ||| u == 0x2029
    ||| u == 0x202F
    ||| u == 0x205F
    ||| u == 0x3000
}

/// Whether `c` is white space.
pub fn is_white_space(c: char) -> (b: bool)
    ensures
        b == is_ws(c),
{
    let u = c as u32;
    (9 <= u && u <= 13) || u == 32 || u == 0x85 || u == 0xA0 || u == 0x1680 || (0x2000 <= u && u
        <= 0x200A) || u == 0x2028 || u == 0x2029 || u == 0x202F || u == 0x205F || u == 0x3000
}

/// `s` without its leading white space.
pub open spec fn trim_start_spec(s: Seq<char>) -> Seq<char>
    decreases s.len(),
{
    if s.len() > 0 && is_ws(s[0]) {
        trim_start_spec(s.drop_first())
    } else {
        s
    }
}

/// `s` without its trailing white space.
pub open spec fn trim_end_spec(s: Seq<char>) -> Seq<char>
    decreases s.len(),
{
    if s.len() > 0 && is_ws(s.last()) {
        trim_end_spec(s.drop_last())
    } else {
        s
    }
}

/// `s` without leading and trailing white space (`str::trim`).
pub open spec fn trim_spec(s: Seq<char>) -> Seq<char> {
    trim_end_spec(trim_start_spec(s))
}

/// The characters of `v` from `a` to `b`.
pub fn subvec(v: &Vec<char>, a: usize, b: usize) -> (r: Vec<char>)
    requires
        a <= b <= v.len(),
    ensures
        r@ == v@.subrange(a as int, b as int),
{
    let mut r: Vec<char> = Vec::new();
    let mut i = a;
    while i < b
        invariant
            a <= i <= b <= v.len(),
            r@ == v@.subrange(a as int, i as int),
        decreases b - i,
    {
        r.push(v[i]);
        assert(v@.subrange(a as int, i + 1) == v@.subrange(a as int, i as int).push(v@[i as int]));
        i += 1;
    }
    r
}

/// `v` with `w` appended.
pub fn append_chars(v: &mut Vec<char>, w: &Vec<char>)
    ensures
        final(v)@ == old(v)@ + w@,
{
    let mut i: usize = 0;
    while i < w.len()
        invariant
            i <= w.len(),
            v@ == old(v)@ + w@.take(i as int),
        decreases w.len() - i,
    {
        v.push(w[i]);
        assert(w@.take(i + 1) == w@.take(i as int).push(w@[i as int]));
        i += 1;
    }
    assert(w@.take(w.len() as int) == w@);
}

/// `v` without leading and trailing white space.
pub fn trim_chars(v: &Vec<char>) -> (r: Vec<char>)
    ensures
        r@ == trim_spec(v@),
{
    let mut i: usize = 0;
    assert(v@.skip(0) == v@);
    while i < v.len() && is_white_space(v[i])
        invariant
            i <= v.len(),
            trim_start_spec(v@) == trim_start_spec(v@.skip(i as int)),
        decreases v.len() - i,
    {
        assert(v@.skip(i as int).drop_first() == v@.skip(i + 1));
        i += 1;
    }
    assert(trim_start_spec(v@) == v@.subrange(i as int, v.len() as int)) by {
        assert(v@.skip(i as int) == v@.subrange(i as int, v.len() as int));
    }
    let mut j: usize = v.len();
    while j > i && is_white_space(v[j - 1])
        invariant
            i <= j <= v.len(),
            trim_end_spec(v@.subrange(i as int, v.len() as int)) == trim_end_spec(
                v@.subrange(i as int, j as int),
            ),
        decreases j,
    {
        assert(v@.subrange(i as int, j as int).drop_last() == v@.subrange(i as int, j - 1));
        j -= 1;
    }
    subvec(v, i, j)
}

/// Whether `p` occurs in `s` at index `i`.
pub open spec fn occurs_at(s: Seq<char>, p: Seq<char>, i: int) -> bool {
    0 <= i && i + p.len() <= s.len() && s.subrange(i, i + p.len()) == p
}

/// Whether `p` occurs in `s` (`str::contains`).
pub open spec fn contains_spec(s: Seq<char>, p: Seq<char>) -> bool {
    exists|i: int| occurs_at(s, p, i)
}

/// Whether `p` occurs in `v` at index `i`.
pub fn occurs_at_exec(v: &Vec<char>, p: &Vec<char>, i: usize) -> (b: bool)
    ensures
        b == occurs_at(v@, p@, i as int),
{
    if i > v.len() || p.len() > v.len() - i {
        return false;
    }
    let mut k: usize = 0;
    while k < p.len()
        invariant
            k <= p.len(),
            i + p.len() <= v.len(),
            forall|m: int| 0 <= m < k ==> v@[i + m] == p@[m],
        decreases p.len() - k,
    {
        if v[i + k] != p[k] {
            assert(v@.subrange(i as int, i + p.len())[k as int] != p@[k as int]);
            return false;
        }
        k += 1;
    }
    assert(v@.subrange(i as int, i + p.len()) == p@);
    true
}

/// The first index at or after `from` at which `p` occurs in `v`,
/// or `v.len()` when there is none.
pub fn find_from(v: &Vec<char>, p: &Vec<char>, from: usize) -> (r: usize)
    requires
        from <= v.len(),
    ensures
        from <= r <= v.len(),
        r < v.len() ==> occurs_at(v@, p@, r as int),
        forall|k: int| from <= k < r ==> !occurs_at(v@, p@, k),
        r == v.len() ==> forall|k: int| from <= k < v.len() ==> !occurs_at(v@, p@, k),
{
    let mut k = from;
    while k < v.len()
        invariant
            from <= k <= v.len(),
            forall|m: int| from <= m < k ==> !occurs_at(v@, p@, m),
        decreases v.len() - k,
    {
        if occurs_at_exec(v, p, k) {
            return k;
        }
        k += 1;
    }
    k
}

/// Whether `p` occurs in `v`.
pub fn contains_chars(v: &Vec<char>, p: &Vec<char>) -> (b: bool)
    ensures
        b == contains_spec(v@, p@),
{
    let r = find_from(v, p, 0);
    if r < v.len() {
        true
    } else if occurs_at_exec(v, p, v.len()) {
        true
    } else {
        assert forall|i: int| !occurs_at(v@, p@, i) by {
            if 0 <= i < v.len() {
            } else if i == v.len() {
            }
        }
        false
    }
}

/// Every occurrence of `p` in `s`, scanning left to right without overlap,
/// replaced by `r` (`str::replace` with a non-empty pattern).
pub open spec fn replace_spec(s: Seq<char>, p: Seq<char>, r: Seq<char>) -> Seq<char>
    decreases s.len(),
{
    if s.len() == 0 {
        s
    } else if p.len() > 0 && occurs_at(s, p, 0) {
        r + replace_spec(s.skip(p.len() as int), p, r)
    } else {
        seq![s[0]] + replace_spec(s.drop_first(), p, r)
    }
}

/// An empty pattern leaves the text as it is.
pub proof fn lemma_replace_empty_pattern(s: Seq<char>, p: Seq<char>, r: Seq<char>)
    requires
        p.len() == 0,
    ensures
        replace_spec(s, p, r) == s,
    decreases s.len(),
{
    if s.len() > 0 {
        lemma_replace_empty_pattern(s.drop_first(), p, r);
        assert(seq![s[0]] + s.drop_first() == s);
    }
}

/// `v` with every occurrence of `p` replaced by `r`.
pub fn replace_chars(v: &Vec<char>, p: &Vec<char>, r: &Vec<char>) -> (res: Vec<char>)
    ensures
        res@ == replace_spec(v@, p@, r@),
{
    if p.len() == 0 {
        proof {
            lemma_replace_empty_pattern(v@, p@, r@);
        }
        return subvec(v, 0, v.len());
    }
    let mut out: Vec<char> = Vec::new();
    let mut i: usize = 0;
    assert(v@.skip(0) == v@);
    while i < v.len()
        invariant
            i <= v.len(),
            p.len() > 0,
            out@ + replace_spec(v@.skip(i as int), p@, r@) == replace_spec(v@, p@, r@),
        decreases v.len() - i,
    {
        let ghost rest = v@.skip(i as int);
        if occurs_at_exec(v, p, i) {
            assert(occurs_at(rest, p@, 0)) by {
                assert(rest.subrange(0, p@.len() as int) == v@.subrange(i as int, i + p@.len()));
            }
            assert(rest.skip(p@.len() as int) == v@.skip(i + p@.len()));
            append_chars(&mut out, r);
            i += p.len();
        } else {
            assert(!occurs_at(rest, p@, 0)) by {
                if occurs_at(rest, p@, 0) {
                    assert(rest.subrange(0, p@.len() as int) == v@.subrange(
                        i as int,
                        i + p@.len(),
                    ));
                }
            }
            assert(rest.drop_first() == v@.skip(i + 1));
            out.push(v[i]);
            i += 1;
        }
        assert(out@ + replace_spec(v@.skip(i as int), p@, r@) == replace_spec(v@, p@, r@));
    }
    assert(v@.skip(i as int).len() == 0);
    assert(out@ + replace_spec(v@.skip(i as int), p@, r@) == out@);
    out
}

/// The index of the first `c` in `s`, or `s.len()` when there is none.
pub open spec fn index_of(s: Seq<char>, c: char) -> int
    decreases s.len(),
{
    if s.len() == 0 {
        0
    } else if s[0] == c {
        0
    } else {
        1 + index_of(s.drop_first(), c)
    }
}

pub proof fn lemma_index_of_bounds(s: Seq<char>, c: char)
    ensures
        0 <= index_of(s, c) <= s.len(),
        index_of(s, c) < s.len() ==> s[index_of(s, c)] == c,
        forall|k: int| 0 <= k < index_of(s, c) ==> s[k] != c,
    decreases s.len(),
{
    if s.len() > 0 && s[0] != c {
        lemma_index_of_bounds(s.drop_first(), c);
        assert forall|k: int| 0 <= k < index_of(s, c) implies s[k] != c by {
            if k > 0 {
                assert(s[k] == s.drop_first()[k - 1]);
            }
        }
    }
}

/// The index of the first `c` at or after `from` in `v`, or `v.len()`.
pub fn find_char(v: &Vec<char>, c: char, from: usize) -> (r: usize)
    requires
        from <= v.len(),
    ensures
        r == from + index_of(v@.skip(from as int), c),
        from <= r <= v.len(),
{
    let mut k = from;
    assert(v@.skip(from as int) == v@.skip(from as int));
    while k < v.len() && v[k] != c
        invariant
            from <= k <= v.len(),
            index_of(v@.skip(from as int), c) == (k - from) + index_of(v@.skip(k as int), c),
        decreases v.len() - k,
    {
        assert(v@.skip(k as int).drop_first() == v@.skip(k + 1));
        k += 1;
    }
    proof {
        lemma_index_of_bounds(v@.skip(from as int), c);
    }
    k
}

/// `s` without one trailing carriage return.
pub open spec fn strip_cr(s: Seq<char>) -> Seq<char> {
    if s.len() > 0 && s.last() == '\r' {
        s.drop_last()
    } else {
        s
    }
}

/// The lines of `s` (`str::lines`): split at `\n`, a `\r` just before the
/// `\n` dropped, and no empty line after a final line ending.
pub open spec fn lines_spec(s: Seq<char>) -> Seq<Seq<char>>
    decreases s.len(),
{
    if s.len() == 0 {
        seq![]
    } else {
        let i = index_of(s, '\n');
        if 0 <= i < s.len() {
            seq![strip_cr(s.take(i))] + lines_spec(s.skip(i + 1))
        } else {
            seq![s]
        }
    }
}

/// The views of a sequence of character vectors.
pub open spec fn views(v: Seq<Vec<char>>) -> Seq<Seq<char>> {
    v.map_values(|x: Vec<char>| x@)
}

/// The lines of `v`.
pub fn lines_chars(v: &Vec<char>) -> (r: Vec<Vec<char>>)
    ensures
        views(r@) == lines_spec(v@),
{
    let mut out: Vec<Vec<char>> = Vec::new();
    let mut start: usize = 0;
    assert(v@.skip(0) == v@);
    while start < v.len()
        invariant
            start <= v.len(),
            views(out@) + lines_spec(v@.skip(start as int)) == lines_spec(v@),
        decreases v.len() - start,
    {
        let ghost rest = v@.skip(start as int);
        let i = find_char(v, '\n', start);
        proof {
            lemma_index_of_bounds(rest, '\n');
        }
        if i < v.len() {
            let mut line = subvec(v, start, i);
            if line.len() > 0 && line[line.len() - 1] == '\r' {
                line.pop();
            }
            assert(line@ == strip_cr(rest.take(i - start))) by {
                assert(rest.take(i - start) == v@.subrange(start as int, i as int));
            }
            assert(rest.skip(i - start + 1) == v@.skip(i + 1));
            assert(views(out@.push(line)) == views(out@).push(line@));
            out.push(line);
            start = i + 1;
        } else {
            let line = subvec(v, start, v.len());
            assert(line@ == rest);
            assert(views(out@.push(line)) == views(out@).push(line@));
            out.push(line);
            assert(lines_spec(v@.skip(v.len() as int)) == Seq::<Seq<char>>::empty());
            start = v.len();
        }
    }
    assert(lines_spec(v@.skip(start as int)) == Seq::<Seq<char>>::empty());
    assert(views(out@) + Seq::<Seq<char>>::empty() == views(out@));
    out
}


pub proof fn lemma_replace_len(s: Seq<char>, p: Seq<char>, r: Seq<char>)
    requires
        r.len() < p.len(),
    ensures
        replace_spec(s, p, r).len() <= s.len(),
        contains_spec(s, p) ==> replace_spec(s, p, r).len() < s.len(),
    decreases s.len(),
{
    if s.len() == 0 {
        if contains_spec(s, p) {
            let i = choose|i: int| occurs_at(s, p, i);
        }
    } else if occurs_at(s, p, 0) {
        lemma_replace_len(s.skip(p.len() as int), p, r);
    } else {
        lemma_replace_len(s.drop_first(), p, r);
        if contains_spec(s, p) {
            let i = choose|i: int| occurs_at(s, p, i);
            assert(i != 0);
            assert(occurs_at(s.drop_first(), p, i - 1)) by {
                assert(s.drop_first().subrange(i - 1, i - 1 + p.len()) == s.subrange(
                    i,
                    i + p.len(),
                ));
            }
        }
    }
}

/// Replacement repeated while the pattern occurs: the loop
/// `while s.contains(p) { s = s.replace(p, r) }` for a shrinking replacement.
pub open spec fn replace_while_spec(s: Seq<char>, p: Seq<char>, r: Seq<char>) -> Seq<char>
    decreases s.len(),
{
    if r.len() < p.len() && contains_spec(s, p) {
        proof {
            lemma_replace_len(s, p, r);
        }
        replace_while_spec(replace_spec(s, p, r), p, r)
    } else {
        s
    }
}

/// `v` with `p` replaced by `r` until `p` no longer occurs.
pub fn replace_while_chars(v: Vec<char>, p: &Vec<char>, r: &Vec<char>) -> (res: Vec<char>)
    ensures
        res@ == replace_while_spec(v@, p@, r@),
    decreases v.len(),
{
    if r.len() < p.len() && contains_chars(&v, p) {
        proof {
            lemma_replace_len(v@, p@, r@);
        }
        let next = replace_chars(&v, p, r);
        replace_while_chars(next, p, r)
    } else {
        v
    }
}

/// The index of the first white-space character of `s`, or `s.len()`.
pub open spec fn index_of_ws(s: Seq<char>) -> int
    decreases s.len(),
{
    if s.len() == 0 {
        0
    } else if is_ws(s[0]) {
        0
    } else {
        1 + index_of_ws(s.drop_first())
    }
}

pub proof fn lemma_index_of_ws_bounds(s: Seq<char>)
    ensures
        0 <= index_of_ws(s) <= s.len(),
        index_of_ws(s) < s.len() ==> is_ws(s[index_of_ws(s)]),
        forall|k: int| 0 <= k < index_of_ws(s) ==> !is_ws(s[k]),
    decreases s.len(),
{
    if s.len() > 0 && !is_ws(s[0]) {
        lemma_index_of_ws_bounds(s.drop_first());
        assert forall|k: int| 0 <= k < index_of_ws(s) implies !is_ws(s[k]) by {
            if k > 0 {
                assert(s[k] == s.drop_first()[k - 1]);
            }
        }
    }
}

pub proof fn lemma_trim_start_len(s: Seq<char>)
    ensures
        trim_start_spec(s).len() <= s.len(),
        trim_start_spec(s).len() > 0 ==> !is_ws(trim_start_spec(s)[0]),
        trim_start_spec(s) == s.skip(s.len() - trim_start_spec(s).len()),
    decreases s.len(),
{
    if s.len() > 0 && is_ws(s[0]) {
        lemma_trim_start_len(s.drop_first());
        assert(s.drop_first().skip(s.drop_first().len() - trim_start_spec(s).len()) == s.skip(
            s.len() - trim_start_spec(s).len(),
        ));
    } else {
        assert(s.skip(0) == s);
    }
}

/// The words of `s`: the maximal runs of characters that are not white
/// space (`str::split_whitespace`).
pub open spec fn words_spec(s: Seq<char>) -> Seq<Seq<char>>
    decreases s.len(),
{
    let t = trim_start_spec(s);
    if t.len() == 0 {
        seq![]
    } else {
        proof {
            lemma_trim_start_len(s);
            lemma_index_of_ws_bounds(t);
        }
        let i = index_of_ws(t);
        if i > 0 {
            seq![t.take(i)] + words_spec(t.skip(i))
        } else {
            seq![]
        }
    }
}

/// The words of `v`.
pub fn words_chars(v: &Vec<char>) -> (r: Vec<Vec<char>>)
    ensures
        views(r@) == words_spec(v@),
{
    let mut out: Vec<Vec<char>> = Vec::new();
    let mut pos: usize = 0;
    assert(v@.skip(0) == v@);
    loop
        invariant
            pos <= v.len(),
            views(out@) + words_spec(v@.skip(pos as int)) == words_spec(v@),
        decreases v.len() - pos,
    {
        let ghost rest = v@.skip(pos as int);
        let mut k = pos;
        while k < v.len() && is_white_space(v[k])
            invariant
                pos <= k <= v.len(),
                trim_start_spec(rest) == trim_start_spec(v@.skip(k as int)),
            decreases v.len() - k,
        {
            assert(v@.skip(k as int).drop_first() == v@.skip(k + 1));
            k += 1;
        }
        let ghost t = v@.skip(k as int);
        assert(trim_start_spec(rest) == t) by {
            if k < v.len() {
                assert(!is_ws(t[0]));
            } else {
                assert(t.len() == 0);
            }
        }
        if k == v.len() {
            assert(words_spec(rest) == Seq::<Seq<char>>::empty());
            assert(views(out@) + Seq::<Seq<char>>::empty() == views(out@));
            return out;
        }
        let mut e = k;
        while e < v.len() && !is_white_space(v[e])
            invariant
                k <= e <= v.len(),
                index_of_ws(t) == (e - k) + index_of_ws(v@.skip(e as int)),
            decreases v.len() - e,
        {
            assert(v@.skip(e as int).drop_first() == v@.skip(e + 1));
            e += 1;
        }
        proof {
            lemma_index_of_ws_bounds(t);
        }
        let word = subvec(v, k, e);
        assert(word@ == t.take(e - k));
        assert(t.skip(e - k) == v@.skip(e as int));
        assert(views(out@.push(word)) == views(out@).push(word@));
        out.push(word);
        pos = e;
    }
}

/// The parts of `parts` joined with `sep` between them (`[T]::join`).
pub open spec fn join_spec(parts: Seq<Seq<char>>, sep: Seq<char>) -> Seq<char>
    decreases parts.len(),
{
    if parts.len() == 0 {
        seq![]
    } else if parts.len() == 1 {
        parts[0]
    } else {
        join_spec(parts.drop_last(), sep) + sep + parts.last()
    }
}

/// `parts` joined with `sep`.
pub fn join_chars(parts: &Vec<Vec<char>>, sep: &Vec<char>) -> (r: Vec<char>)
    ensures
        r@ == join_spec(views(parts@), sep@),
{
    let mut out: Vec<char> = Vec::new();
    let mut i: usize = 0;
    while i < parts.len()
        invariant
            i <= parts.len(),
            out@ == join_spec(views(parts@).take(i as int), sep@),
        decreases parts.len() - i,
    {
        assert(views(parts@).take(i + 1).drop_last() == views(parts@).take(i as int));
        if i > 0 {
            append_chars(&mut out, sep);
        }
        append_chars(&mut out, &parts[i]);
        i += 1;
    }
    assert(views(parts@).take(parts.len() as int) == views(parts@));
    out
}

/// The lowercase mapping of a string as `str::to_lowercase` computes it
/// (Unicode full case mapping).
pub uninterp spec fn spec_to_lowercase(s: Seq<char>) -> Seq<char>;

/// Calls `str::to_lowercase`. Trusted: its result is the lowercase mapping
/// of its argument, a function of the argument alone, named by
/// `spec_to_lowercase`.
#[verifier::external_body]
fn lowercase_str(s: &str) -> (r: String)
    ensures
        r@ == spec_to_lowercase(s@),
{
    s.to_lowercase()
}

/// The lowercase mapping of `v`.
pub fn lowercase_chars(v: &Vec<char>) -> (r: Vec<char>)
    ensures
        r@ == spec_to_lowercase(v@),
{
    let s = from_chars(v);
    let l = lowercase_str(s.as_str());
    to_chars(l.as_str())
}

/// `n` copies of `c`.
pub open spec fn repeat_char(c: char, n: nat) -> Seq<char> {
    Seq::new(n, |i: int| c)
}

/// `s` padded on the left with `c` up to `width` characters
/// (`format!("{:c>width$}", s)`).
pub open spec fn pad_left_spec(s: Seq<char>, c: char, width: nat) -> Seq<char> {
    if s.len() >= width {
        s
    } else {
        repeat_char(c, (width - s.len()) as nat) + s
    }
}

/// `v` padded on the left with `c` up to `width` characters.
pub fn pad_left_chars(v: &Vec<char>, c: char, width: usize) -> (r: Vec<char>)
    ensures
        r@ == pad_left_spec(v@, c, width as nat),
{
    if v.len() >= width {
        return subvec(v, 0, v.len());
    }
    let mut out: Vec<char> = Vec::new();
    let n = width - v.len();
    let mut i: usize = 0;
    while i < n
        invariant
            i <= n,
            out@ == repeat_char(c, i as nat),
        decreases n - i,
    {
        out.push(c);
        assert(out@ == repeat_char(c, (i + 1) as nat));
        i += 1;
    }
    append_chars(&mut out, v);
    out
}

/// The decimal digit for `d < 10`.
pub open spec fn digit_char(d: nat) -> char {
    if d == 0 {
        '0'
    } else if d == 1 {
        '1'
    } else if d == 2 {
        '2'
    } else if d == 3 {
        '3'
    } else if d == 4 {
        '4'
    } else if d == 5 {
        '5'
    } else if d == 6 {
        '6'
    } else if d == 7 {
        '7'
    } else if d == 8 {
        '8'
    } else {
        '9'
    }
}

/// The decimal notation of `n` without leading zeros.
pub open spec fn decimal_spec(n: nat) -> Seq<char>
    decreases n,
{
    if n < 10 {
        seq![digit_char(n)]
    } else {
        decimal_spec(n / 10) + seq![digit_char(n % 10)]
    }
}

/// The decimal notation of `n`, with a minus sign when negative
/// (`i64::to_string`).
pub open spec fn int_decimal_spec(n: int) -> Seq<char> {
    if n < 0 {
        seq!['-'] + decimal_spec((-n) as nat)
    } else {
        decimal_spec(n as nat)
    }
}

fn digit_exec(d: u64) -> (c: char)
    requires
        d < 10,
    ensures
        c == digit_char(d as nat),
{
    if d == 0 {
        '0'
    } else if d == 1 {
        '1'
    } else if d == 2 {
        '2'
    } else if d == 3 {
        '3'
    } else if d == 4 {
        '4'
    } else if d == 5 {
        '5'
    } else if d == 6 {
        '6'
    } else if d == 7 {
        '7'
    } else if d == 8 {
        '8'
    } else {
        '9'
    }
}

fn u64_decimal(n: u64) -> (r: Vec<char>)
    ensures
        r@ == decimal_spec(n as nat),
    decreases n,
{
    if n < 10 {
        vec![digit_exec(n)]
    } else {
        let mut r = u64_decimal(n / 10);
        r.push(digit_exec(n % 10));
        r
    }
}

/// The decimal notation of `n`.
pub fn i64_to_string(n: i64) -> (s: String)
    ensures
        s@ == int_decimal_spec(n as int),
{
    if n < 0 {
        let m: u64 = if n == i64::MIN {
            9223372036854775808u64
        } else {
            (-n) as u64
        };
        let mut v: Vec<char> = vec!['-'];
        let d = u64_decimal(m);
        append_chars(&mut v, &d);
        from_chars(&v)
    } else {
        from_chars(&u64_decimal(n as u64))
    }
}


/// Whether `a` and `b` hold the same characters.
pub fn eq_chars(a: &Vec<char>, b: &Vec<char>) -> (r: bool)
    ensures
        r == (a@ == b@),
{
    if a.len() != b.len() {
        return false;
    }
    let mut i: usize = 0;
    while i < a.len()
        invariant
            i <= a.len(),
            a.len() == b.len(),
            forall|k: int| 0 <= k < i ==> a@[k] == b@[k],
        decreases a.len() - i,
    {
        if a[i] != b[i] {
            return false;
        }
        i += 1;
    }
    assert(a@ == b@);
    true
}

/// Whether `v` holds exactly the characters of `lit`.
pub fn is_literal(v: &Vec<char>, lit: &str) -> (r: bool)
    ensures
        r == (v@ == lit@),
{
    let l = to_chars(lit);
    eq_chars(v, &l)
}

/// `v` with every occurrence of `p` replaced by `r` (`str::replace`).
pub fn replace_str(v: &Vec<char>, p: &str, r: &str) -> (res: Vec<char>)
    ensures
        res@ == replace_spec(v@, p@, r@),
{
    replace_chars(v, &to_chars(p), &to_chars(r))
}

/// `v` with `p` replaced by `r` while `p` occurs.
pub fn replace_str_while(v: Vec<char>, p: &str, r: &str) -> (res: Vec<char>)
    ensures
        res@ == replace_while_spec(v@, p@, r@),
{
    replace_while_chars(v, &to_chars(p), &to_chars(r))
}


/// The index of the first occurrence of `p` in `s`, or `s.len()` when there
/// is none.
pub open spec fn find_spec(s: Seq<char>, p: Seq<char>) -> int
    decreases s.len(),
{
    if s.len() < p.len() {
        s.len() as int
    } else if occurs_at(s, p, 0) || s.len() == 0 {
        0
    } else {
        1 + find_spec(s.drop_first(), p)
    }
}

/// An occurrence in `s` after its first character is one in the rest.
pub proof fn lemma_occurs_drop_first(s: Seq<char>, p: Seq<char>, j: int)
    requires
        s.len() > 0,
        j >= 1,
    ensures
        occurs_at(s, p, j) == occurs_at(s.drop_first(), p, j - 1),
{
    if j + p.len() <= s.len() {
        assert(s.subrange(j, j + p.len()) == s.drop_first().subrange(j - 1, j - 1 + p.len()));
    }
}

/// `find_spec` gives the first occurrence.
pub proof fn lemma_find_spec(s: Seq<char>, p: Seq<char>)
    ensures
        0 <= find_spec(s, p) <= s.len(),
        find_spec(s, p) < s.len() ==> occurs_at(s, p, find_spec(s, p)),
        forall|j: int| 0 <= j < find_spec(s, p) ==> !occurs_at(s, p, j),
        p.len() > 0 && find_spec(s, p) == s.len() ==> forall|j: int| !occurs_at(s, p, j),
    decreases s.len(),
{
    if s.len() < p.len() {
    } else if occurs_at(s, p, 0) || s.len() == 0 {
    } else {
        lemma_find_spec(s.drop_first(), p);
        assert forall|j: int| 0 <= j < find_spec(s, p) implies !occurs_at(s, p, j) by {
            if j >= 1 {
                lemma_occurs_drop_first(s, p, j);
            }
        }
        if find_spec(s, p) < s.len() {
            lemma_occurs_drop_first(s, p, find_spec(s, p));
        }
        if p.len() > 0 && find_spec(s, p) == s.len() {
            assert forall|j: int| !occurs_at(s, p, j) by {
                if j >= 1 {
                    lemma_occurs_drop_first(s, p, j);
                }
            }
        }
    }
}

/// No occurrence of `p` lies before the first.
pub proof fn lemma_no_occurrence_before_first(s: Seq<char>, p: Seq<char>)
    requires
        p.len() > 0,
    ensures
        !contains_spec(s.take(find_spec(s, p)), p),
{
    lemma_find_spec(s, p);
    let f = find_spec(s, p);
    assert forall|i: int| !occurs_at(s.take(f), p, i) by {
        if occurs_at(s.take(f), p, i) {
            assert(s.take(f).subrange(i, i + p.len()) == s.subrange(i, i + p.len()));
            assert(occurs_at(s, p, i));
        }
    }
}

/// A part of a text holds no pattern that the text does not hold.
pub proof fn lemma_subrange_no_occurrence(s: Seq<char>, p: Seq<char>, a: int, b: int)
    requires
        0 <= a <= b <= s.len(),
        !contains_spec(s, p),
    ensures
        !contains_spec(s.subrange(a, b), p),
{
    assert forall|i: int| !occurs_at(s.subrange(a, b), p, i) by {
        if occurs_at(s.subrange(a, b), p, i) {
            assert(s.subrange(a, b).subrange(i, i + p.len()) == s.subrange(a + i, a + i + p.len()));
            assert(occurs_at(s, p, a + i));
        }
    }
}

/// Trimming keeps a part of the text: `trim_spec(s)` is `s` from some `a`
/// to some `b`.
pub proof fn lemma_trim_is_subrange(s: Seq<char>)
    ensures
        exists|a: int, b: int| 0 <= a <= b <= s.len() && trim_spec(s) == s.subrange(a, b),
{
    lemma_trim_start_subrange(s);
    let a = choose|a: int| 0 <= a <= s.len() && trim_start_spec(s) == s.subrange(a, s.len() as int);
    let t = trim_start_spec(s);
    lemma_trim_end_subrange(t);
    let b = choose|b: int| 0 <= b <= t.len() && trim_end_spec(t) == t.take(b);
    assert(trim_spec(s) == s.subrange(a, a + b));
}

proof fn lemma_trim_start_subrange(s: Seq<char>)
    ensures
        exists|a: int| 0 <= a <= s.len() && trim_start_spec(s) == s.subrange(a, s.len() as int),
    decreases s.len(),
{
    if s.len() > 0 && is_ws(s[0]) {
        lemma_trim_start_subrange(s.drop_first());
        let a = choose|a: int|
            0 <= a <= s.drop_first().len() && trim_start_spec(s.drop_first()) == s.drop_first().subrange(
                a,
                s.drop_first().len() as int,
            );
        assert(s.drop_first().subrange(a, s.drop_first().len() as int) == s.subrange(a + 1, s.len() as int));
    } else {
        assert(s.subrange(0, s.len() as int) == s);
    }
}

proof fn lemma_trim_end_subrange(s: Seq<char>)
    ensures
        exists|b: int| 0 <= b <= s.len() && trim_end_spec(s) == s.take(b),
    decreases s.len(),
{
    if s.len() > 0 && is_ws(s.last()) {
        lemma_trim_end_subrange(s.drop_last());
        let b = choose|b: int| 0 <= b <= s.drop_last().len() && trim_end_spec(s.drop_last()) == s.drop_last().take(b);
        assert(s.drop_last().take(b) == s.take(b));
    } else {
        assert(s.take(s.len() as int) == s);
    }
}

} // verus!
