//! The lexer of the procedure language.
//!
//! A token is read by trying the patterns of the token table in order on
//! the rest of the code; the first that finds a match gives the kind and the
//! text. Parameters `[A].[B]` followed by `=` are outputs, and a returned
//! value `[A]` not followed by `=` is a parameter.

use vstd::prelude::*;
use crate::interpreter::maps::{
    TOKEN_PATTERN_COUNT, TokenMap, output_probe_spec, probe_group_spec, return_probe_spec,
    token_pattern_spec,
};
use crate::interpreter::patterns::{
    find_match, group_matched, regex_first_match, regex_group_matched,
};
use crate::interpreter::tokens::{Token, TokenType};
use crate::text::{
    contains_chars, contains_spec, find_from, find_spec, lemma_find_spec, lemma_no_occurrence_before_first,
    lemma_subrange_no_occurrence, lemma_trim_is_subrange, occurs_at_exec, from_chars, is_literal, join_chars, join_spec, lines_chars,
    lines_spec, occurs_at, subvec, to_chars, trim_chars, trim_spec, views,
};

verus! {

/// The first entry of the token table from entry `k` on whose pattern
/// finds a match in `code`: its kind and the text matched.
pub open spec fn first_match_from(code: Seq<char>, k: int) -> Option<(TokenType, Seq<char>)>
    decreases TOKEN_PATTERN_COUNT - k,
{
    if k < 0 || k >= TOKEN_PATTERN_COUNT {
        None
    } else {
        match regex_first_match(token_pattern_spec(k).1, code) {
            Some(text) => Some((token_pattern_spec(k).0, text)),
            None => first_match_from(code, k + 1),
        }
    }
}

/// The kind of a token matched as `kind` at the start of `code`: a
/// parameter followed by `=` is an output, a returned value not followed
/// by `=` is a parameter.
pub open spec fn classify_spec(kind: TokenType, code: Seq<char>) -> TokenType {
    if kind == TokenType::PARAMETER {
        if regex_group_matched(output_probe_spec(), code, probe_group_spec()) == Some(true) {
            TokenType::OUTPUT
        } else {
            TokenType::PARAMETER
        }
    } else if kind == TokenType::RETURN {
        if regex_group_matched(return_probe_spec(), code, probe_group_spec()) == Some(false) {
            TokenType::PARAMETER
        } else {
            TokenType::RETURN
        }
    } else {
        kind
    }
}

/// The token read at the start of `code`: its kind and its text.
pub open spec fn get_token_spec(code: Seq<char>) -> Option<(TokenType, Seq<char>)> {
    match first_match_from(code, 0) {
        Some((k, text)) => Some((classify_spec(k, code), text)),
        None => None,
    }
}

/// The kind of a token matched as `kind` at the start of `code`.
fn classify(map: &TokenMap, kind: TokenType, code: &str) -> (r: TokenType)
    requires
        map.wf(),
    ensures
        r == classify_spec(kind, code@),
{
    if kind == TokenType::PARAMETER {
        match group_matched(map.output_probe(), code, "op") {
            Some(true) => TokenType::OUTPUT,
            _ => TokenType::PARAMETER,
        }
    } else if kind == TokenType::RETURN {
        match group_matched(map.return_probe(), code, "op") {
            Some(false) => TokenType::PARAMETER,
            _ => TokenType::RETURN,
        }
    } else {
        kind
    }
}

/// Reads the token at the start of `code`, its position left at 0;
/// `None` when no pattern of the table matches.
pub fn get_token(map: &TokenMap, code: &str) -> (r: Option<Token>)
    requires
        map.wf(),
    ensures
        match get_token_spec(code@) {
            Some((k, text)) => r matches Some(t) && t.token_type == k && t.text@ == text && t.pos
                == 0,
            None => r is None,
        },
{
    let mut i: usize = 0;
    while i < map.len()
        invariant
            map.wf(),
            map.entries_view().len() == TOKEN_PATTERN_COUNT,
            0 <= i <= TOKEN_PATTERN_COUNT,
            first_match_from(code@, 0) == first_match_from(code@, i as int),
        decreases TOKEN_PATTERN_COUNT - i,
    {
        let entry = map.entry(i);
        assert(map.entries_view()[i as int] == token_pattern_spec(i as int));
        match find_match(&entry.1, code) {
            Some(text) => {
                let kind = classify(map, entry.0, code);
                return Some(Token { token_type: kind, text, pos: 0 });
            },
            None => {},
        }
        i += 1;
    }
    None
}

/// `s` cut before its first `//`.
pub open spec fn before_comment(s: Seq<char>) -> Seq<char> {
    s.take(find_spec(s, seq!['/', '/']))
}

/// The lines of `parts` that are not empty.
pub open spec fn non_empty(parts: Seq<Seq<char>>) -> Seq<Seq<char>>
    decreases parts.len(),
{
    if parts.len() == 0 {
        parts
    } else if parts.last().len() == 0 {
        non_empty(parts.drop_last())
    } else {
        non_empty(parts.drop_last()).push(parts.last())
    }
}

/// The lines of the code, each cut before its comment and trimmed, blank
/// ones left out.
pub open spec fn erased_lines(s: Seq<char>) -> Seq<Seq<char>> {
    non_empty(lines_spec(s).map_values(|l: Seq<char>| trim_spec(before_comment(l))))
}

/// The code without comments, blank lines and the white space around
/// each line.
pub open spec fn erase_comments_spec(s: Seq<char>) -> Seq<char> {
    join_spec(erased_lines(s), seq!['\n'])
}

/// `v` cut before its first `//`.
fn cut_comment(v: &Vec<char>) -> (r: Vec<char>)
    ensures
        r@ == before_comment(v@),
{
    let slashes: Vec<char> = vec!['/', '/'];
    let k = find_from(v, &slashes, 0);
    proof {
        lemma_find_spec(v@, seq!['/', '/']);
        let f = find_spec(v@, seq!['/', '/']);
        if k < v.len() {
            assert(f == k) by {
                if f < k {
                    assert(occurs_at(v@, seq!['/', '/'], f));
                }
            }
        } else {
            assert(f == k) by {
                if f < k {
                    assert(occurs_at(v@, seq!['/', '/'], f));
                }
            }
        }
    }
    subvec(v, 0, k)
}

/// Removes comments (`//` to the end of the line), blank lines and the
/// white space around each line; the lines left are joined with `\n`.
pub fn erase_comments(code: &str) -> (r: String)
    ensures
        r@ == erase_comments_spec(code@),
{
    let chars = to_chars(code);
    let lines = lines_chars(&chars);
    let ghost cleaned = lines_spec(code@).map_values(|l: Seq<char>| trim_spec(before_comment(l)));
    let mut kept: Vec<Vec<char>> = Vec::new();
    let mut i: usize = 0;
    while i < lines.len()
        invariant
            i <= lines.len(),
            views(lines@) == lines_spec(code@),
            cleaned == lines_spec(code@).map_values(|l: Seq<char>| trim_spec(before_comment(l))),
            views(kept@) == non_empty(cleaned.take(i as int)),
        decreases lines.len() - i,
    {
        let cut = cut_comment(&lines[i]);
        let line = trim_chars(&cut);
        assert(line@ == cleaned[i as int]);
        assert(cleaned.take(i + 1).drop_last() == cleaned.take(i as int));
        if line.len() > 0 {
            assert(views(kept@.push(line)) == views(kept@).push(line@));
            kept.push(line);
        }
        i += 1;
    }
    assert(cleaned.take(lines.len() as int) == cleaned);
    let sep: Vec<char> = vec!['\n'];
    assert(sep@ == seq!['\n']);
    assert(views(kept@) == non_empty(cleaned));
    let joined = join_chars(&kept, &sep);
    from_chars(&joined)
}


/// The number of bytes of `c` in UTF-8.
pub open spec fn utf8_char_len(c: char) -> nat {
    if (c as u32) < 0x80 {
        1
    } else if (c as u32) < 0x800 {
        2
    } else if (c as u32) < 0x10000 {
        3
    } else {
        4
    }
}

/// The number of bytes of `s` in UTF-8.
pub open spec fn utf8_len(s: Seq<char>) -> nat
    decreases s.len(),
{
    if s.len() == 0 {
        0
    } else {
        utf8_len(s.drop_last()) + utf8_char_len(s.last())
    }
}

/// The UTF-8 length of a concatenation is the sum of the lengths.
pub proof fn lemma_utf8_len_append(a: Seq<char>, b: Seq<char>)
    ensures
        utf8_len(a + b) == utf8_len(a) + utf8_len(b),
    decreases b.len(),
{
    if b.len() > 0 {
        lemma_utf8_len_append(a, b.drop_last());
        assert((a + b).drop_last() == a + b.drop_last());
    } else {
        assert(a + b == a);
    }
}

/// Calls `str::len`. Trusted: the documentation of `str::len` says that it
/// is the length of the string in bytes, that is of its UTF-8 encoding,
/// where each character takes the number of bytes that `char::len_utf8`
/// documents.
#[verifier::external_body]
pub(crate) fn str_byte_len(s: &str) -> (r: usize)
    ensures
        r == utf8_len(s@),
{
    s.len()
}

/// The number of bytes of `c` in UTF-8.
fn char_byte_len(c: char) -> (r: usize)
    ensures
        r == utf8_char_len(c),
{
    let u = c as u32;
    if u < 0x80 {
        1
    } else if u < 0x800 {
        2
    } else if u < 0x10000 {
        3
    } else {
        4
    }
}

/// The number of bytes of `v` in UTF-8, known to fit in `bound`.
fn chars_byte_len(v: &Vec<char>, bound: usize) -> (r: usize)
    requires
        utf8_len(v@) <= bound,
    ensures
        r == utf8_len(v@),
{
    let mut total: usize = 0;
    let mut i: usize = 0;
    while i < v.len()
        invariant
            i <= v.len(),
            total == utf8_len(v@.take(i as int)),
            utf8_len(v@) <= bound,
        decreases v.len() - i,
    {
        proof {
            assert(v@.take(i + 1).drop_last() == v@.take(i as int));
            lemma_utf8_len_append(v@.take(i + 1), v@.skip(i + 1));
            assert(v@.take(i + 1) + v@.skip(i + 1) == v@);
        }
        total = total + char_byte_len(v[i]);
        i += 1;
    }
    assert(v@.take(v.len() as int) == v@);
    total
}

/// The tokens of `code` as read one after another, each with its kind as
/// matched, its text and its byte offset (counted from `offset`); `None`
/// when at some point no pattern matches, or the match is empty or not at
/// the start of the rest of the code.
pub open spec fn lex_spec(code: Seq<char>, offset: nat) -> Option<Seq<(TokenType, Seq<char>, nat)>>
    decreases code.len(),
{
    if code.len() == 0 {
        Some(seq![])
    } else {
        match get_token_spec(code) {
            Some((k, text)) => if 0 < text.len() <= code.len() && code.take(text.len() as int)
                == text {
                match lex_spec(code.skip(text.len() as int), offset + utf8_len(text)) {
                    Some(rest) => Some(seq![(k, text, offset)] + rest),
                    None => None,
                }
            } else {
                None
            },
            None => None,
        }
    }
}

/// The kind, text and position of each token.
pub open spec fn token_views(s: Seq<Token>) -> Seq<(TokenType, Seq<char>, nat)> {
    s.map_values(|t: Token| (t.token_type, t.text@, t.pos as nat))
}

/// Reads the tokens of `code`, as `lex_spec` says.
pub fn lex(map: &TokenMap, code: &str) -> (r: Option<Vec<Token>>)
    requires
        map.wf(),
    ensures
        match lex_spec(code@, 0) {
            Some(s) => r matches Some(v) && token_views(v@) == s,
            None => r is None,
        },
{
    let chars = to_chars(code);
    let total = str_byte_len(code);
    let n = chars.len();
    let mut tokens: Vec<Token> = Vec::new();
    let mut i: usize = 0;
    let mut offset: usize = 0;
    assert(chars@.skip(0) == chars@);
    assert(chars@.take(0) == Seq::<char>::empty());
    while i < n
        invariant
            map.wf(),
            n == chars@.len(),
            chars@ == code@,
            i <= n,
            total == utf8_len(code@),
            offset == utf8_len(code@.take(i as int)),
            lex_spec(code@, 0) == match lex_spec(code@.skip(i as int), offset as nat) {
                Some(rest) => Some(token_views(tokens@) + rest),
                None => None,
            },
        decreases n - i,
    {
        let ghost rest = code@.skip(i as int);
        let suffix = from_chars(&subvec(&chars, i, n));
        assert(suffix@ == rest);
        let token = match get_token(map, suffix.as_str()) {
            Some(t) => t,
            None => {
                return None;
            },
        };
        let text = to_chars(token.text.as_str());
        let len = text.len();
        if len == 0 || len > n - i || !occurs_at_exec(&chars, &text, i) {
            assert(!(0 < text@.len() <= rest.len() && rest.take(text@.len() as int) == text@)) by {
                if 0 < text@.len() <= rest.len() && rest.take(text@.len() as int) == text@ {
                    assert(chars@.subrange(i as int, i + text@.len()) == rest.take(
                        text@.len() as int,
                    ));
                }
            }
            return None;
        }
        proof {
            assert(rest.take(len as int) == text@) by {
                assert(chars@.subrange(i as int, i + len) == rest.take(len as int));
            }
            assert(code@.take(i + len) == code@.take(i as int) + text@) by {
                assert(chars@.subrange(i as int, i + len) == text@);
            }
            lemma_utf8_len_append(code@.take(i as int), text@);
            lemma_utf8_len_append(code@.take(i + len), code@.skip(i + len));
            assert(code@.take(i + len) + code@.skip(i + len) == code@);
            assert(rest.skip(len as int) == code@.skip(i + len));
        }
        let bytes = chars_byte_len(&text, total);
        let ghost before = tokens@;
        tokens.push(Token { token_type: token.token_type, text: token.text, pos: offset });
        assert(token_views(tokens@) == token_views(before).push(
            (token.token_type, text@, offset as nat),
        ));
        offset = offset + bytes;
        i = i + len;
        proof {
            let r = lex_spec(code@.skip(i as int), offset as nat);
            if r is Some {
                assert(token_views(before) + (seq![(token.token_type, text@, (offset - bytes) as nat)] + r->0)
                    == token_views(tokens@) + r->0);
            }
        }
    }
    assert(code@.skip(n as int) == Seq::<char>::empty());
    assert(token_views(tokens@) + Seq::<(TokenType, Seq<char>, nat)>::empty() == token_views(tokens@));
    Some(tokens)
}


/// The texts of some tokens, one after another.
pub open spec fn concat_texts(raw: Seq<(TokenType, Seq<char>, nat)>) -> Seq<char>
    decreases raw.len(),
{
    if raw.len() == 0 {
        seq![]
    } else {
        raw[0].1 + concat_texts(raw.drop_first())
    }
}

/// Reading a code into tokens loses and adds nothing: the texts of the
/// tokens, white space included, make up the code, and the position of
/// each token is the number of bytes before it.
pub proof fn law_tokens_cover_code(code: Seq<char>, offset: nat)
    requires
        lex_spec(code, offset) is Some,
    ensures
        concat_texts(lex_spec(code, offset)->0) == code,
        forall|i: int|
            0 <= i < lex_spec(code, offset)->0.len() ==> (#[trigger] lex_spec(code, offset)->0[i]).2
                == offset + utf8_len(concat_texts(lex_spec(code, offset)->0.take(i))),
    decreases code.len(),
{
    let raw = lex_spec(code, offset)->0;
    if code.len() > 0 {
        let (k, text) = get_token_spec(code)->0;
        let next = offset + utf8_len(text);
        let rest = lex_spec(code.skip(text.len() as int), next)->0;
        law_tokens_cover_code(code.skip(text.len() as int), next);
        assert(raw == seq![(k, text, offset)] + rest);
        assert(raw.drop_first() == rest);
        assert(code.take(text.len() as int) + code.skip(text.len() as int) == code);
        assert forall|i: int| 0 <= i < raw.len() implies (#[trigger] raw[i]).2 == offset + utf8_len(
            concat_texts(raw.take(i)),
        ) by {
            if i == 0 {
                assert(raw.take(0).len() == 0);
            } else {
                assert(raw[i] == rest[i - 1]);
                assert(raw.take(i).drop_first() == rest.take(i - 1));
                assert(concat_texts(raw.take(i)) == text + concat_texts(rest.take(i - 1)));
                lemma_utf8_len_append(text, concat_texts(rest.take(i - 1)));
            }
        }
    }
}


/// Lines without `//`, joined with line breaks, hold no `//`.
proof fn lemma_join_without_comment(parts: Seq<Seq<char>>)
    requires
        forall|i: int| 0 <= i < parts.len() ==> !contains_spec(#[trigger] parts[i], seq!['/', '/']),
    ensures
        !contains_spec(join_spec(parts, seq!['\n']), seq!['/', '/']),
    decreases parts.len(),
{
    let p = seq!['/', '/'];
    if parts.len() == 1 {
        assert(!contains_spec(parts[0], p));
    } else if parts.len() > 1 {
        let a = join_spec(parts.drop_last(), seq!['\n']);
        let b = parts.last();
        lemma_join_without_comment(parts.drop_last());
        assert(!contains_spec(b, p));
        let x = a + seq!['\n'] + b;
        assert(join_spec(parts, seq!['\n']) == x);
        assert forall|i: int| !occurs_at(x, p, i) by {
            if occurs_at(x, p, i) {
                assert(x.subrange(i, i + 2) == p);
                assert(x[i] == '/' && x[i + 1] == '/') by {
                    assert(x.subrange(i, i + 2)[0] == x[i]);
                    assert(x.subrange(i, i + 2)[1] == x[i + 1]);
                }
                if i + 2 <= a.len() {
                    assert(x.subrange(i, i + 2) == a.subrange(i, i + 2));
                    assert(occurs_at(a, p, i));
                } else if i + 1 == a.len() {
                    assert(x[i + 1] == '\n');
                } else if i == a.len() {
                    assert(x[i] == '\n');
                } else {
                    let j = i - a.len() - 1;
                    assert(x.subrange(i, i + 2) == b.subrange(j, j + 2));
                    assert(occurs_at(b, p, j));
                }
            }
        }
    }
}

/// The lines of `parts` that are not empty are lines of `parts`.
proof fn lemma_non_empty_elements(parts: Seq<Seq<char>>)
    ensures
        forall|i: int| 0 <= i < non_empty(parts).len() ==> exists|j: int|
            0 <= j < parts.len() && #[trigger] non_empty(parts)[i] == parts[j],
        forall|i: int| 0 <= i < non_empty(parts).len() ==> (#[trigger] non_empty(parts)[i]).len() > 0,
    decreases parts.len(),
{
    if parts.len() > 0 {
        lemma_non_empty_elements(parts.drop_last());
        let r = non_empty(parts.drop_last());
        assert forall|i: int| 0 <= i < non_empty(parts).len() implies exists|j: int|
            0 <= j < parts.len() && #[trigger] non_empty(parts)[i] == parts[j] by {
            if i < r.len() {
                let j = choose|j: int| 0 <= j < parts.drop_last().len() && r[i] == parts.drop_last()[j];
                assert(parts[j] == parts.drop_last()[j]);
            } else {
                assert(non_empty(parts)[i] == parts[parts.len() - 1]);
            }
        }
    }
}

/// Erasing comments leaves no comment mark `//` and no blank line: every
/// line of the result is a non-empty line of the code, cut before its
/// comment and trimmed.
pub proof fn law_erased_code_has_no_comment(s: Seq<char>)
    ensures
        !contains_spec(erase_comments_spec(s), seq!['/', '/']),
        forall|i: int| 0 <= i < erased_lines(s).len() ==> (#[trigger] erased_lines(s)[i]).len() > 0
            && !contains_spec(erased_lines(s)[i], seq!['/', '/']),
{
    let cleaned = lines_spec(s).map_values(|l: Seq<char>| trim_spec(before_comment(l)));
    let parts = non_empty(cleaned);
    lemma_non_empty_elements(cleaned);
    assert forall|i: int| 0 <= i < parts.len() implies !contains_spec(#[trigger] parts[i], seq!['/', '/']) by {
        let j = choose|j: int| 0 <= j < cleaned.len() && parts[i] == cleaned[j];
        let l = lines_spec(s)[j];
        let c = before_comment(l);
        lemma_no_occurrence_before_first(l, seq!['/', '/']);
        lemma_trim_is_subrange(c);
        let (a, b) = choose|a: int, b: int| 0 <= a <= b <= c.len() && trim_spec(c) == c.subrange(a, b);
        lemma_subrange_no_occurrence(c, seq!['/', '/'], a, b);
    }
    lemma_join_without_comment(parts);
}

} // verus!
