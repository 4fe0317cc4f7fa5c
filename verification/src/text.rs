//! The texts handed to the engine: placeholder lists for statements with a
//! variable number of parameters, and full-text queries made safe.

use vstd::prelude::*;

verus! {

/// The decimal digit of a number below ten, as a text of one character.
pub open spec fn digit(d: nat) -> Seq<char>
    recommends
        d < 10,
{
    "0123456789"@.subrange(d as int, d as int + 1)
}

/// A number in decimal, without leading zeros.
pub open spec fn decimal(n: nat) -> Seq<char>
    decreases n,
{
    if n < 10 {
        digit(n)
    } else {
        decimal(n / 10) + digit(n % 10)
    }
}

/// The placeholder of the parameter with the given number: `?7`.
pub open spec fn placeholder(number: nat) -> Seq<char> {
    "?"@ + decimal(number)
}

/// The placeholders of `count` parameters numbered from `offset` on,
/// separated by a comma and a space: `?3, ?4, ?5`.
pub open spec fn placeholders(count: nat, offset: nat) -> Seq<char>
    decreases count,
{
    if count == 0 {
        Seq::empty()
    } else if count == 1 {
        placeholder(offset)
    } else {
        placeholders((count - 1) as nat, offset) + ", "@ + placeholder((offset + count - 1) as nat)
    }
}

fn digit_text(d: usize) -> (text: &'static str)
    requires
        d < 10,
    ensures
        text@ == digit(d as nat),
{
    proof {
        reveal_strlit("0123456789");
    }
    "0123456789".substring_ascii(d, d + 1)
}

fn decimal_text(n: usize) -> (text: String)
    ensures
        text@ == decimal(n as nat),
    decreases n,
{
    if n < 10 {
        String::from_str(digit_text(n))
    } else {
        let mut text = decimal_text(n / 10);
        text.append(digit_text(n % 10));
        text
    }
}

/// Builds the placeholders for `count` parameters numbered from `offset`
/// on, for a statement's `IN (...)` list.
pub fn build_placeholders(count: usize, offset: usize) -> (text: String)
    requires
        count == 0 || offset + (count - 1) <= usize::MAX,
    ensures
        text@ == placeholders(count as nat, offset as nat),
{
    let mut text = String::new();
    let mut i: usize = 0;
    while i < count
        invariant
            i <= count,
            count == 0 || offset + (count - 1) <= usize::MAX,
            text@ == placeholders(i as nat, offset as nat),
        decreases count - i,
    {
        if i > 0 {
            text.append(", ");
        }
        text.append("?");
        let number = decimal_text(offset + i);
        text.append(number.as_str());
        i += 1;
    }
    text
}

/// Whether a character is white space, as Unicode defines it.
pub open spec fn is_whitespace(c: char) -> bool {
    ('\u{9}' <= c && c <= '\u{d}') || c == ' ' || c == '\u{85}' || c == '\u{a0}' || c
        == '\u{1680}' || ('\u{2000}' <= c && c <= '\u{200a}') || c == '\u{2028}' || c
        == '\u{2029}' || c == '\u{202f}' || c == '\u{205f}' || c == '\u{3000}'
}

/// Whether a text holds nothing but white space.
pub open spec fn is_blank(text: Seq<char>) -> bool {
    forall|i: int| 0 <= i < text.len() ==> is_whitespace(#[trigger] text[i])
}

/// The number of characters before the first white space of a text.
pub open spec fn token_len(text: Seq<char>) -> int
    decreases text.len(),
{
    if text.len() == 0 || is_whitespace(text[0]) {
        0
    } else {
        1 + token_len(text.drop_first())
    }
}

/// The tokens of a text: its maximal runs of characters that are not white
/// space, in order.
pub open spec fn tokens(text: Seq<char>) -> Seq<Seq<char>>
    decreases text.len(),
    via tokens_terminate
{
    if text.len() == 0 {
        Seq::empty()
    } else if is_whitespace(text[0]) {
        tokens(text.drop_first())
    } else {
        seq![text.take(token_len(text))] + tokens(text.skip(token_len(text)))
    }
}

#[via_fn]
proof fn tokens_terminate(text: Seq<char>) {
    lemma_token_len_bounds(text);
}

/// A token is no longer than its text, and not empty where the text begins
/// with a character that is not white space.
pub proof fn lemma_token_len_bounds(text: Seq<char>)
    ensures
        0 <= token_len(text) <= text.len(),
        text.len() > 0 && !is_whitespace(text[0]) ==> token_len(text) >= 1,
    decreases text.len(),
{
    if text.len() > 0 && !is_whitespace(text[0]) {
        lemma_token_len_bounds(text.drop_first());
    }
}

/// The number of double quotes that a text begins with.
pub open spec fn leading_quotes(text: Seq<char>) -> int
    decreases text.len(),
{
    if text.len() > 0 && text[0] == '"' {
        1 + leading_quotes(text.drop_first())
    } else {
        0
    }
}

/// The number of double quotes that a text ends with.
pub open spec fn trailing_quotes(text: Seq<char>) -> int
    decreases text.len(),
{
    if text.len() > 0 && text.last() == '"' {
        1 + trailing_quotes(text.drop_last())
    } else {
        0
    }
}

/// A text without the double quotes at its start and at its end.
pub open spec fn strip_quotes(text: Seq<char>) -> Seq<char> {
    let rest = text.skip(leading_quotes(text));
    rest.take(rest.len() - trailing_quotes(rest))
}

/// A character as it stands inside a quoted term: a double quote is
/// written twice.
pub open spec fn escaped(c: char) -> Seq<char> {
    if c == '"' {
        seq!['"', '"']
    } else {
        seq![c]
    }
}

/// A text with each of its double quotes written twice.
pub open spec fn double_quotes(text: Seq<char>) -> Seq<char>
    decreases text.len(),
{
    if text.len() == 0 {
        Seq::empty()
    } else {
        double_quotes(text.drop_last()) + escaped(text.last())
    }
}

/// A token as a quoted term: stripped of the quotes around it, the quotes
/// inside it doubled, and put between double quotes. The engine reads
/// such a term as plain words, never as an operator.
pub open spec fn quoted(token: Seq<char>) -> Seq<char> {
    seq!['"'] + double_quotes(strip_quotes(token)) + seq!['"']
}

/// Each token of a list as a quoted term.
pub open spec fn quoted_all(tokens: Seq<Seq<char>>) -> Seq<Seq<char>> {
    Seq::new(tokens.len(), |i: int| quoted(tokens[i]))
}

/// The parts of a list joined by one space.
pub open spec fn joined(parts: Seq<Seq<char>>) -> Seq<char>
    decreases parts.len(),
{
    if parts.len() == 0 {
        Seq::empty()
    } else if parts.len() == 1 {
        parts[0]
    } else {
        joined(parts.drop_last()) + seq![' '] + parts.last()
    }
}

/// A query made safe for the full-text index: its tokens, each as a quoted
/// term, joined by spaces. The engine matches an entity only if it holds
/// every term.
pub open spec fn sanitized(query: Seq<char>) -> Seq<char> {
    joined(quoted_all(tokens(query)))
}

/// Whether the double quotes of a text come in adjacent pairs. The engine
/// reads such a text, put between double quotes, as one string: a pair
/// stands for a quote inside it, and no quote ends it early.
pub open spec fn quotes_paired(text: Seq<char>) -> bool
    decreases text.len(),
{
    if text.len() == 0 {
        true
    } else if text[0] != '"' {
        quotes_paired(text.drop_first())
    } else {
        text.len() >= 2 && text[1] == '"' && quotes_paired(text.skip(2))
    }
}

/// Two texts with paired quotes, one after the other, have paired quotes.
pub proof fn lemma_quotes_paired_concat(first: Seq<char>, second: Seq<char>)
    requires
        quotes_paired(first),
        quotes_paired(second),
    ensures
        quotes_paired(first + second),
    decreases first.len(),
{
    if first.len() == 0 {
        assert(first + second == second);
    } else if first[0] != '"' {
        lemma_quotes_paired_concat(first.drop_first(), second);
        assert((first + second).drop_first() == first.drop_first() + second);
    } else {
        lemma_quotes_paired_concat(first.skip(2), second);
        assert((first + second).skip(2) == first.skip(2) + second);
    }
}

/// Whatever a token holds, the quotes inside its quoted term are paired:
/// the term is one string to the engine, and nothing of the token can act
/// outside it.
pub proof fn lemma_doubled_quotes_are_paired(text: Seq<char>)
    ensures
        quotes_paired(double_quotes(text)),
    decreases text.len(),
{
    if text.len() > 0 {
        lemma_doubled_quotes_are_paired(text.drop_last());
        let last = escaped(text.last());
        if text.last() == '"' {
            assert(quotes_paired(last.skip(2)));
        } else {
            assert(quotes_paired(last.drop_first()));
        }
        lemma_quotes_paired_concat(double_quotes(text.drop_last()), last);
    }
}

/// Whether a text is a word: not empty, and without white space.
pub open spec fn is_word(text: Seq<char>) -> bool {
    text.len() > 0 && forall|j: int| 0 <= j < text.len() ==> !is_whitespace(#[trigger] text[j])
}

/// Every token is a word.
pub proof fn lemma_tokens_are_words(text: Seq<char>)
    ensures
        forall|k: int| 0 <= k < tokens(text).len() ==> is_word(#[trigger] tokens(text)[k]),
    decreases text.len(),
{
    if text.len() > 0 {
        if is_whitespace(text[0]) {
            lemma_tokens_are_words(text.drop_first());
            assert(tokens(text) == tokens(text.drop_first()));
        } else {
            let n = token_len(text);
            lemma_token_len_bounds(text);
            lemma_token_has_no_white_space(text);
            lemma_tokens_are_words(text.skip(n));
            assert(tokens(text) == seq![text.take(n)] + tokens(text.skip(n)));
        }
    }
}

/// No character of the first token of a text is white space.
proof fn lemma_token_has_no_white_space(text: Seq<char>)
    ensures
        forall|j: int| 0 <= j < token_len(text) ==> !is_whitespace(#[trigger] text[j]),
    decreases text.len(),
{
    lemma_token_len_bounds(text);
    if text.len() > 0 && !is_whitespace(text[0]) {
        let rest = text.drop_first();
        lemma_token_has_no_white_space(rest);
        lemma_token_len_bounds(rest);
        assert forall|j: int| 0 <= j < token_len(text) implies !is_whitespace(
            #[trigger] text[j],
        ) by {
            if j > 0 {
                assert(text[j] == rest[j - 1]);
            }
        }
    }
}

/// A text has no token exactly when it is blank.
pub proof fn lemma_blank_has_no_tokens(text: Seq<char>)
    ensures
        is_blank(text) <==> tokens(text).len() == 0,
        is_blank(text) <==> sanitized(text).len() == 0,
    decreases text.len(),
{
    if text.len() > 0 {
        if is_whitespace(text[0]) {
            let rest = text.drop_first();
            lemma_blank_has_no_tokens(rest);
            if is_blank(rest) {
                assert forall|i: int| 0 <= i < text.len() implies is_whitespace(
                    #[trigger] text[i],
                ) by {
                    if i > 0 {
                        assert(rest[i - 1] == text[i]);
                    }
                }
            } else {
                let i = choose|i: int| 0 <= i < rest.len() && !is_whitespace(rest[i]);
                assert(!is_whitespace(text[i + 1]));
            }
        } else {
            lemma_token_len_bounds(text);
        }
    }
    // A quoted term holds its two quotes at least, so a query with a token
    // is not sanitized to nothing.
    let terms = quoted_all(tokens(text));
    if terms.len() > 0 {
        assert(terms.last().len() >= 2);
    }
}

/// A text of `m` characters that are not white space, followed by white
/// space or by nothing, begins with a token of `m` characters.
proof fn lemma_token_len(text: Seq<char>, m: int)
    requires
        0 <= m <= text.len(),
        forall|k: int| 0 <= k < m ==> !is_whitespace(text[k]),
        m == text.len() || is_whitespace(text[m]),
    ensures
        token_len(text) == m,
    decreases m,
{
    if m > 0 {
        lemma_token_len(text.drop_first(), m - 1);
    }
}

/// The quotes that a text begins with, counted from a position up to which
/// all characters are quotes.
proof fn lemma_leading_quotes(text: Seq<char>, m: int)
    requires
        0 <= m <= text.len(),
        forall|k: int| 0 <= k < m ==> text[k] == '"',
        m == text.len() || text[m] != '"',
    ensures
        leading_quotes(text) == m,
    decreases m,
{
    if m > 0 {
        lemma_leading_quotes(text.drop_first(), m - 1);
    }
}

/// The quotes that a text ends with, counted back to a position from which
/// on all characters are quotes.
proof fn lemma_trailing_quotes(text: Seq<char>, m: int)
    requires
        0 <= m <= text.len(),
        forall|k: int| text.len() - m <= k < text.len() ==> text[k] == '"',
        m == text.len() || text[text.len() - m - 1] != '"',
    ensures
        trailing_quotes(text) == m,
    decreases m,
{
    if m > 0 {
        lemma_trailing_quotes(text.drop_last(), m - 1);
    }
}

/// Appends a character to a string: `String::push`, which the standard
/// library documents as appending the given character to the end.
#[verifier::external_body]
fn push_char(text: &mut String, c: char)
    ensures
        final(text)@ == old(text)@.push(c),
{
    text.push(c);
}

fn is_space(c: char) -> (b: bool)
    ensures
        b == is_whitespace(c),
{
    ('\u{9}' <= c && c <= '\u{d}') || c == ' ' || c == '\u{85}' || c == '\u{a0}' || c
        == '\u{1680}' || ('\u{2000}' <= c && c <= '\u{200a}') || c == '\u{2028}' || c
        == '\u{2029}' || c == '\u{202f}' || c == '\u{205f}' || c == '\u{3000}'
}

fn characters(text: &str) -> (chars: Vec<char>)
    ensures
        chars@ == text@,
{
    let mut chars: Vec<char> = Vec::new();
    for c in it: text.chars()
        invariant
            it.seq() == text@,
            chars@ == text@.take(it.index()),
    {
        chars.push(c);
    }
    chars
}

/// Appends the token `chars[start..end]` to `out` as a quoted term.
fn append_quoted(out: &mut String, chars: &Vec<char>, start: usize, end: usize)
    requires
        start <= end <= chars.len(),
    ensures
        final(out)@ == old(out)@ + quoted(chars@.subrange(start as int, end as int)),
{
    let ghost token = chars@.subrange(start as int, end as int);
    let mut a: usize = start;
    while a < end && chars[a] == '"'
        invariant
            start <= a <= end <= chars.len(),
            forall|k: int| start <= k < a ==> chars[k] == '"',
        decreases end - a,
    {
        a += 1;
    }
    let ghost rest = token.skip(a - start);
    proof {
        lemma_leading_quotes(token, a - start);
    }
    let mut b: usize = end;
    while b > a && chars[b - 1] == '"'
        invariant
            a <= b <= end <= chars.len(),
            forall|k: int| b <= k < end ==> chars[k] == '"',
        decreases b - a,
    {
        b -= 1;
    }
    let ghost inner = chars@.subrange(a as int, b as int);
    proof {
        lemma_trailing_quotes(rest, end - b);
        assert(rest.take(rest.len() - (end - b)) == inner);
    }
    push_char(out, '"');
    let mut k: usize = a;
    while k < b
        invariant
            a <= k <= b <= chars.len(),
            inner == chars@.subrange(a as int, b as int),
            out@ == old(out)@ + seq!['"'] + double_quotes(inner.take(k - a)),
        decreases b - k,
    {
        let c = chars[k];
        proof {
            assert(inner.take(k - a + 1).drop_last() == inner.take(k - a));
        }
        if c == '"' {
            push_char(out, '"');
            push_char(out, '"');
        } else {
            push_char(out, c);
        }
        k += 1;
    }
    assert(inner.take(b - a) == inner);
    push_char(out, '"');
}

/// Whether a text holds nothing but white space.
pub fn blank(text: &str) -> (b: bool)
    ensures
        b == is_blank(text@),
{
    let mut all = true;
    for c in it: text.chars()
        invariant
            it.seq() == text@,
            all == forall|i: int| 0 <= i < it.index() ==> is_whitespace(#[trigger] text@[i]),
    {
        if !is_space(c) {
            all = false;
        }
    }
    all
}

/// Makes a user's query safe for the full-text index. The query is split
/// at white space and each token becomes a quoted term, so that no part of
/// it can act as an operator of the engine's query language or end the
/// query early; the terms are joined by spaces, which the engine reads as
/// "all of these".
pub fn sanitize_fts5_query(query: &str) -> (safe: String)
    ensures
        safe@ == sanitized(query@),
{
    let chars = characters(query);
    let n = chars.len();
    let mut safe = String::new();
    let mut any = false;
    let ghost mut done: Seq<Seq<char>> = Seq::empty();
    let mut i: usize = 0;
    assert(query@.skip(0) == query@);
    while i < n
        invariant
            i <= n,
            n == chars.len(),
            chars@ == query@,
            tokens(query@) == done + tokens(query@.skip(i as int)),
            safe@ == joined(quoted_all(done)),
            any == (done.len() > 0),
        decreases n - i,
    {
        let ghost text = query@.skip(i as int);
        if is_space(chars[i]) {
            proof {
                assert(text.drop_first() == query@.skip(i + 1));
            }
            i += 1;
        } else {
            let start = i;
            while i < n && !is_space(chars[i])
                invariant
                    start <= i <= n,
                    n == chars.len(),
                    forall|k: int| start <= k < i ==> !is_whitespace(chars[k]),
                decreases n - i,
            {
                i += 1;
            }
            let ghost token = chars@.subrange(start as int, i as int);
            proof {
                lemma_token_len(text, i - start);
                assert(text.take(i - start) == token);
                assert(text.skip(i - start) == query@.skip(i as int));
                assert(done + (seq![token] + tokens(query@.skip(i as int))) == done.push(token)
                    + tokens(query@.skip(i as int)));
                assert(quoted_all(done.push(token)).drop_last() == quoted_all(done));
            }
            if any {
                push_char(&mut safe, ' ');
            }
            append_quoted(&mut safe, &chars, start, i);
            proof {
                done = done.push(token);
            }
            any = true;
        }
    }
    safe
}

} // verus!
