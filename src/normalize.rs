use vstd::prelude::*;

verus! {

/// A character kept in a normalized key: an ASCII lowercase letter or an ASCII digit.
pub open spec fn is_key_char(c: char) -> bool {
    ('a' <= c && c <= 'z') || ('0' <= c && c <= '9')
}

/// ASCII lowercasing of one character; every other character is left as it is.
pub open spec fn ascii_lower(c: char) -> char {
    if 'A' <= c && c <= 'Z' {
        ((c as u32) + 32) as char
    } else {
        c
    }
}

/// `s` with every ASCII letter lowercased.
pub open spec fn lowered(s: Seq<char>) -> Seq<char> {
    s.map_values(|c: char| ascii_lower(c))
}

/// Every character of `s` is ASCII.
pub open spec fn is_ascii_text(s: Seq<char>) -> bool {
    forall|i: int| 0 <= i < s.len() ==> (#[trigger] s[i] as u32) < 128
}

/// The Unicode lowercase form of a text, as `str::to_lowercase` gives it.
pub uninterp spec fn lower_of(s: Seq<char>) -> Seq<char>;

/// The lowercase form of `s`: on ASCII text this is ASCII lowercasing, which is
/// what Unicode lowercasing does there; on other text it is `lower_of(s)`.
pub open spec fn lowercased(s: Seq<char>) -> Seq<char> {
    if is_ascii_text(s) {
        lowered(s)
    } else {
        lower_of(s)
    }
}

/// `s` with every character outside `[a-z0-9]` deleted.
pub open spec fn key_chars(s: Seq<char>) -> Seq<char> {
    s.filter(|c: char| is_key_char(c))
}

/// The comparison key of a text: lowercased, then stripped to `[a-z0-9]`.
pub open spec fn normalized(s: Seq<char>) -> Seq<char> {
    key_chars(lowercased(s))
}

/// The character class of everything that normalization deletes.
pub open spec fn non_key_class() -> Seq<char> {
    seq!['[', '^', 'a', '-', 'z', '0', '-', '9', ']']
}

/// Relies on str::to_lowercase: the result depends on the text alone, and on
/// ASCII text 'A'..='Z' become 'a'..='z' while every other character is kept.
#[verifier::external_body]
fn lowercase(s: &str) -> (r: String)
    ensures
        r@ == lower_of(s@),
        is_ascii_text(s@) ==> r@ == lowered(s@),
{
    s.to_lowercase()
}

#[verifier::external_type_specification]
#[verifier::external_body]
pub struct ExRegex(regex::Regex);

/// A compiled matcher for the characters that normalization deletes. It is built
/// only by `KeyFilter::new`, from the class `[^a-z0-9]`, so one value serves every
/// normalization of a search.
pub struct KeyFilter {
    re: regex::Regex,
}

/// Relies on regex::Regex::new: the class `[^a-z0-9]` is a valid pattern, so
/// compiling it succeeds.
#[verifier::external_body]
fn compile_class(pattern: &str) -> (r: regex::Regex)
    requires
        pattern@ == non_key_class(),
{
    regex::Regex::new(pattern).unwrap()
}

/// Relies on regex::Regex::replace_all with the class `[^a-z0-9]` that every
/// `KeyFilter` holds: each match is one character outside `[a-z0-9]`, and
/// replacing every match with "" leaves the other characters in order.
#[verifier::external_body]
fn delete_class(filter: &KeyFilter, s: &str) -> (r: String)
    ensures
        r@ == key_chars(s@),
{
    filter.re.replace_all(s, "").into_owned()
}

impl KeyFilter {
    /// Compiles the matcher for `[^a-z0-9]`.
    pub fn new() -> (r: KeyFilter) {
        let pattern = "[^a-z0-9]";
        proof {
            reveal_strlit("[^a-z0-9]");
            assert(pattern@ =~= non_key_class());
        }
        KeyFilter { re: compile_class(pattern) }
    }
}

/// The normalized key of `text`, with a matcher compiled beforehand.
pub fn normalize_with(filter: &KeyFilter, text: &str) -> (r: String)
    ensures
        r@ == normalized(text@),
{
    let lower = lowercase(text);
    delete_class(filter, lower.as_str())
}

/// The normalized key of `text`: lowercase, with every character outside
/// `[a-z0-9]` removed.
pub fn normalize(text: &str) -> (r: String)
    ensures
        r@ == normalized(text@),
{
    let filter = KeyFilter::new();
    normalize_with(&filter, text)
}

proof fn lemma_key_chars_all(s: Seq<char>)
    ensures
        forall|i: int| 0 <= i < key_chars(s).len() ==> is_key_char(#[trigger] key_chars(s)[i]),
{
    assert forall|i: int| 0 <= i < key_chars(s).len() implies is_key_char(
        #[trigger] key_chars(s)[i],
    ) by {
        s.lemma_filter_pred(|c: char| is_key_char(c), i);
    }
}

proof fn lemma_key_chars_keeps(s: Seq<char>)
    requires
        forall|i: int| 0 <= i < s.len() ==> is_key_char(#[trigger] s[i]),
    ensures
        key_chars(s) == s,
    decreases s.len(),
{
    reveal(Seq::filter);
    if s.len() > 0 {
        lemma_key_chars_keeps(s.drop_last());
        assert(s.drop_last().push(s.last()) =~= s);
    }
}

/// Normalizing a normalized key gives it back: a key is already lowercase and
/// holds only `[a-z0-9]`.
pub proof fn lemma_normalize_idempotent(s: Seq<char>)
    ensures
        normalized(normalized(s)) == normalized(s),
{
    let k = normalized(s);
    lemma_key_chars_all(lowercased(s));
    assert(is_ascii_text(k));
    assert(lowered(k) =~= k);
    lemma_key_chars_keeps(k);
}

/// Normalization ignores case: two ASCII texts that differ only in the case of
/// their letters have the same key.
pub proof fn lemma_normalize_case_insensitive(s: Seq<char>, t: Seq<char>)
    requires
        is_ascii_text(s),
        is_ascii_text(t),
        s.len() == t.len(),
        forall|i: int| 0 <= i < s.len() ==> ascii_lower(#[trigger] s[i]) == ascii_lower(t[i]),
    ensures
        normalized(s) == normalized(t),
{
    assert(lowered(s) =~= lowered(t));
}

/// Normalization ignores punctuation and spaces: inserting an ASCII character
/// that is neither a letter nor a digit into ASCII text leaves its key unchanged.
pub proof fn lemma_normalize_ignores_punctuation(s: Seq<char>, k: int, c: char)
    requires
        is_ascii_text(s),
        (c as u32) < 128,
        !is_key_char(ascii_lower(c)),
        0 <= k <= s.len(),
    ensures
        normalized(s.insert(k, c)) == normalized(s),
{
    let t = s.insert(k, c);
    assert forall|i: int| 0 <= i < t.len() implies (#[trigger] t[i] as u32) < 128 by {
        if i < k {
            assert(t[i] == s[i]);
        } else if i > k {
            assert(t[i] == s[i - 1]);
        }
    }
    let a = s.subrange(0, k);
    let b = s.subrange(k, s.len() as int);
    let pred = |x: char| is_key_char(x);
    assert(lowered(s) =~= lowered(a) + lowered(b));
    assert(lowered(t) =~= lowered(a) + seq![ascii_lower(c)] + lowered(b));
    Seq::filter_distributes_over_add(lowered(a), lowered(b), pred);
    Seq::filter_distributes_over_add(lowered(a) + seq![ascii_lower(c)], lowered(b), pred);
    Seq::filter_distributes_over_add(lowered(a), seq![ascii_lower(c)], pred);
    reveal_with_fuel(Seq::filter, 2);
    assert(seq![ascii_lower(c)].drop_last() =~= Seq::<char>::empty());
    assert(!pred(ascii_lower(c)));
    assert(seq![ascii_lower(c)].filter(pred) =~= Seq::<char>::empty());
    assert(lowered(a).filter(pred) + Seq::<char>::empty() =~= lowered(a).filter(pred));
}

} // verus!
