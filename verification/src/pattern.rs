//! Key patterns: templates with `{}` placeholders, matched against whole keys.
//!
//! A pattern is turned into the source of a regular expression: each `{}`
//! becomes a run of one or more ASCII letters and digits, and every other
//! character is quoted so that it stands for itself. The `regex` crate
//! compiles that source and searches the key; a key matches when the first
//! match covers all of it.

use crate::text::{chars_of, text_of};
use vstd::prelude::*;

verus! {

/// `regex::Error`, the reason why the regex crate refuses an expression.
/// Nothing is known of what it holds.
#[verifier::external_type_specification]
#[verifier::external_body]
pub struct ExRegexError(regex::Error);

/// A key template. Equality is by the template's text.
#[derive(Debug, PartialEq, Eq)]
pub struct KeyPattern(pub String);

impl View for KeyPattern {
    type V = Seq<char>;

    open spec fn view(&self) -> Seq<char> {
        self.0@
    }
}

impl DeepView for KeyPattern {
    type V = Seq<char>;

    open spec fn deep_view(&self) -> Seq<char> {
        self@
    }
}

impl Clone for KeyPattern {
    fn clone(&self) -> (res: Self)
        ensures
            res == *self,
    {
        KeyPattern(self.0.clone())
    }
}

/// What a placeholder becomes in the matcher's source: one or more ASCII
/// letters or digits.
pub open spec fn run_fragment() -> Seq<char> {
    "[a-zA-Z0-9]+"@
}

/// Whether a placeholder begins at position `i` of `pattern`.
pub open spec fn placeholder_at(pattern: Seq<char>, i: int) -> bool {
    0 <= i && i + 1 < pattern.len() && pattern[i] == '{' && pattern[i + 1] == '}'
}

/// The characters that have a meaning of their own in a regular expression.
pub open spec fn is_meta_char(c: char) -> bool {
    c == '\\' || c == '.' || c == '+' || c == '*' || c == '?' || c == '(' || c == ')' || c == '|'
        || c == '[' || c == ']' || c == '{' || c == '}' || c == '^' || c == '$' || c == '#' || c
        == '&' || c == '-' || c == '~'
}

/// `text` with a backslash before each character that has a meaning of its
/// own in a regular expression.
pub open spec fn escaped(text: Seq<char>) -> Seq<char>
    decreases text.len(),
{
    if text.len() == 0 {
        Seq::empty()
    } else if is_meta_char(text[0]) {
        seq!['\\', text[0]] + escaped(text.skip(1))
    } else {
        seq![text[0]] + escaped(text.skip(1))
    }
}

/// The source of the matcher of `pattern`: read from the left, each `{}`
/// gives the run fragment, and each other character gives itself, quoted.
pub open spec fn matcher_source(pattern: Seq<char>) -> Seq<char>
    decreases pattern.len(),
{
    if pattern.len() == 0 {
        Seq::empty()
    } else if placeholder_at(pattern, 0) {
        run_fragment() + matcher_source(pattern.skip(2))
    } else {
        escaped(pattern.take(1)) + matcher_source(pattern.skip(1))
    }
}

/// Whether `regex::Regex::new` accepts `source`.
pub uninterp spec fn regex_compiles(source: Seq<char>) -> bool;

/// The first match that `regex::Regex::find` reports for the expression
/// `source` in `text`, as the byte offsets of its start and end.
pub uninterp spec fn regex_first_match(source: Seq<char>, text: Seq<char>) -> Option<
    (usize, usize),
>;

/// Whether the match `found` is as long as a key of `key_len` bytes.
pub open spec fn spans_whole_key(found: Option<(usize, usize)>, key_len: usize) -> bool {
    found matches Some(span) && span.1 - span.0 == key_len
}

/// The length of `key` in bytes, as `str::len` gives it.
pub open spec fn byte_len(key: Seq<char>) -> usize {
    vstd::utf8::encode_utf8(key).len() as usize
}

/// Not verified: `regex::escape`, which copies `text` and puts a backslash
/// before each of the characters `\ . + * ? ( ) | [ ] { } ^ $ # & - ~`.
#[verifier::external_body]
fn escape_literal(text: &str) -> (res: String)
    ensures
        res@ == escaped(text@),
{
    regex::escape(text)
}

/// Not verified: compiles `source` with `regex::Regex::new` and searches
/// `text` with `Regex::find`. What the two return is not described here but
/// named: the call fails exactly where `regex_compiles` is false, and
/// otherwise gives `regex_first_match`. Of a match the crate guarantees that
/// it does not end before it starts.
#[verifier::external_body]
fn first_match(source: &str, text: &str) -> (res: Result<Option<(usize, usize)>, regex::Error>)
    ensures
        res is Ok == regex_compiles(source@),
        res matches Ok(found) ==> found == regex_first_match(source@, text@),
        res matches Ok(Some(span)) ==> span.0 <= span.1,
{
    let compiled = regex::Regex::new(source)?;
    Ok(compiled.find(text).map(|found| (found.start(), found.end())))
}

/// Quoting a text that is made of two parts quotes each part.
pub proof fn lemma_escaped_concat(a: Seq<char>, b: Seq<char>)
    ensures
        escaped(a + b) == escaped(a) + escaped(b),
    decreases a.len(),
{
    if a.len() == 0 {
        assert(a + b =~= b);
        assert(escaped(a) + escaped(b) =~= escaped(b));
    } else {
        assert((a + b).skip(1) =~= a.skip(1) + b);
        lemma_escaped_concat(a.skip(1), b);
        assert((a + b)[0] == a[0]);
        if is_meta_char(a[0]) {
            assert(escaped(a + b) =~= seq!['\\', a[0]] + (escaped(a.skip(1)) + escaped(b)));
            assert(escaped(a) + escaped(b) =~= seq!['\\', a[0]] + (escaped(a.skip(1)) + escaped(b)));
        } else {
            assert(escaped(a + b) =~= seq![a[0]] + (escaped(a.skip(1)) + escaped(b)));
            assert(escaped(a) + escaped(b) =~= seq![a[0]] + (escaped(a.skip(1)) + escaped(b)));
        }
    }
}

/// A pattern that begins with `len` characters among which no placeholder
/// begins has, as its matcher's source, those characters quoted, followed by
/// the source of the rest.
pub proof fn lemma_literal_prefix(pattern: Seq<char>, len: int)
    requires
        0 <= len <= pattern.len(),
        forall|k: int| 0 <= k < len ==> !placeholder_at(pattern, k),
    ensures
        matcher_source(pattern) == escaped(pattern.take(len)) + matcher_source(pattern.skip(len)),
    decreases len,
{
    if len == 0 {
        assert(pattern.take(0) =~= Seq::empty());
        assert(pattern.skip(0) =~= pattern);
        assert(escaped(pattern.take(0)) + matcher_source(pattern) =~= matcher_source(pattern));
    } else {
        let rest = pattern.skip(1);
        assert(!placeholder_at(pattern, 0));
        assert forall|k: int| 0 <= k < len - 1 implies !placeholder_at(rest, k) by {
            assert(!placeholder_at(pattern, k + 1));
        }
        lemma_literal_prefix(rest, len - 1);
        assert(rest.take(len - 1) =~= pattern.take(len).skip(1));
        assert(rest.skip(len - 1) =~= pattern.skip(len));
        assert(pattern.take(1) + pattern.take(len).skip(1) =~= pattern.take(len));
        lemma_escaped_concat(pattern.take(1), pattern.take(len).skip(1));
        assert(matcher_source(pattern) =~= escaped(pattern.take(len)) + matcher_source(
            pattern.skip(len),
        ));
    }
}

/// The shape of a matcher's source. Where a pattern is a literal segment
/// (a text in which no placeholder begins), then a placeholder, then a rest,
/// its source is the quoted segment, the run fragment, and the source of the
/// rest: literal segments and runs alternate as they do in the pattern.
pub proof fn lemma_segment_then_placeholder(literal: Seq<char>, rest: Seq<char>)
    requires
        forall|k: int| 0 <= k < literal.len() ==> !placeholder_at(literal + seq!['{', '}'], k),
    ensures
        matcher_source(literal + seq!['{', '}'] + rest) == escaped(literal) + run_fragment()
            + matcher_source(rest),
{
    let pattern = literal + seq!['{', '}'] + rest;
    let len = literal.len() as int;
    assert forall|k: int| 0 <= k < len implies !placeholder_at(pattern, k) by {
        assert(!placeholder_at(literal + seq!['{', '}'], k));
        assert(pattern[k] == (literal + seq!['{', '}'])[k]);
        assert(pattern[k + 1] == (literal + seq!['{', '}'])[k + 1]);
    }
    lemma_literal_prefix(pattern, len);
    assert(pattern.take(len) =~= literal);
    let tail = pattern.skip(len);
    assert(placeholder_at(tail, 0));
    assert(tail.skip(2) =~= rest);
}

/// A pattern in which no placeholder begins is matched as the text itself,
/// quoted.
pub proof fn lemma_literal_only(pattern: Seq<char>)
    requires
        forall|k: int| 0 <= k < pattern.len() ==> !placeholder_at(pattern, k),
    ensures
        matcher_source(pattern) == escaped(pattern),
{
    lemma_literal_prefix(pattern, pattern.len() as int);
    assert(pattern.take(pattern.len() as int) =~= pattern);
    assert(pattern.skip(pattern.len() as int) =~= Seq::<char>::empty());
    assert(escaped(pattern) + matcher_source(Seq::<char>::empty()) =~= escaped(pattern));
}

/// The source of the matcher of `pattern`.
pub fn matcher_source_of(pattern: &str) -> (res: String)
    ensures
        res@ == matcher_source(pattern@),
{
    let chars = chars_of(pattern);
    let n = chars.len();
    let mut out = String::new();
    let mut start: usize = 0;
    let mut i: usize = 0;
    assert(pattern@.skip(0) =~= pattern@);
    assert(out@ + matcher_source(pattern@) =~= matcher_source(pattern@));
    while i < n
        invariant
            start <= i <= n,
            n == pattern@.len(),
            chars@ == pattern@,
            forall|k: int| start <= k < i ==> !placeholder_at(pattern@, k),
            out@ + matcher_source(pattern@.skip(start as int)) == matcher_source(pattern@),
        decreases n - i,
    {
        if i + 1 < n && chars[i] == '{' && chars[i + 1] == '}' {
            let literal = text_of(&chars, start, i);
            let quoted = escape_literal(literal.as_str());
            let ghost before = out@;
            let ghost from_start = pattern@.skip(start as int);
            let ghost len = i - start;
            proof {
                assert forall|k: int| 0 <= k < len implies !placeholder_at(from_start, k) by {
                    assert(!placeholder_at(pattern@, start + k));
                }
                lemma_literal_prefix(from_start, len);
                assert(from_start.take(len) =~= pattern@.subrange(start as int, i as int));
                assert(from_start.skip(len) =~= pattern@.skip(i as int));
                assert(placeholder_at(pattern@.skip(i as int), 0));
                assert(pattern@.skip(i as int).skip(2) =~= pattern@.skip(i + 2));
            }
            out.append(quoted.as_str());
            out.append("[a-zA-Z0-9]+");
            assert(out@ + matcher_source(pattern@.skip(i + 2)) =~= before + (escaped(
                from_start.take(len),
            ) + (run_fragment() + matcher_source(pattern@.skip(i + 2)))));
            i += 2;
            start = i;
        } else {
            assert(!placeholder_at(pattern@, i as int));
            i += 1;
        }
    }
    let literal = text_of(&chars, start, n);
    let quoted = escape_literal(literal.as_str());
    proof {
        let from_start = pattern@.skip(start as int);
        let len = n - start;
        assert forall|k: int| 0 <= k < len implies !placeholder_at(from_start, k) by {
            assert(!placeholder_at(pattern@, start + k));
        }
        lemma_literal_only(from_start);
        assert(from_start =~= pattern@.subrange(start as int, n as int));
    }
    out.append(quoted.as_str());
    out
}

/// Whether a first match `found` covers a key of `key_len` bytes from end to
/// end.
pub fn whole_key_matched(found: Option<(usize, usize)>, key_len: usize) -> (res: bool)
    requires
        found matches Some(span) ==> span.0 <= span.1,
    ensures
        res == spans_whole_key(found, key_len),
{
    match found {
        Some(span) => span.1 - span.0 == key_len,
        None => false,
    }
}

impl KeyPattern {
    /// The pattern with the template `input`.
    pub fn new(input: String) -> (res: Self)
        ensures
            res.0 == input,
    {
        Self(input)
    }

    /// Whether the matcher of this pattern can be built.
    pub open spec fn compiles(&self) -> bool {
        regex_compiles(matcher_source(self@))
    }

    /// Whether the first match of this pattern's matcher in `key` covers all
    /// of `key`.
    pub open spec fn matches(&self, key: Seq<char>) -> bool {
        spans_whole_key(regex_first_match(matcher_source(self@), key), byte_len(key))
    }

    /// Whether the matcher of this pattern can be built. The regex crate
    /// refuses a source whose compiled form is larger than its limit.
    pub fn is_valid(&self) -> (res: bool)
        ensures
            res == self.compiles(),
    {
        let source = matcher_source_of(self.0.as_str());
        match first_match(source.as_str(), "") {
            Ok(_) => true,
            Err(_) => false,
        }
    }

    /// Whether `key`, as a whole, fits the pattern: its literal characters
    /// where the pattern has them, and a run of one or more ASCII letters or
    /// digits for each `{}`. The pattern's matcher must be one that can be
    /// built; `try_match_key` asks nothing.
    pub fn match_key(&self, key: &str) -> (res: bool)
        requires
            self.compiles(),
        ensures
            res == self.matches(key@),
    {
        let source = matcher_source_of(self.0.as_str());
        match first_match(source.as_str(), key) {
            Ok(found) => whole_key_matched(found, key.len()),
            Err(_) => unreached(),
        }
    }

    /// `match_key` for any pattern: `None` where the matcher cannot be built.
    pub fn try_match_key(&self, key: &str) -> (res: Option<bool>)
        ensures
            res is Some == self.compiles(),
            res matches Some(fits) ==> fits == self.matches(key@),
    {
        if self.is_valid() {
            Some(self.match_key(key))
        } else {
            None
        }
    }
}

} // verus!
