//! Languages the client knows, and how a browser language tag maps to one.

use vstd::prelude::*;

verus! {

/// A language the user interface can be shown in.
#[derive(Clone, Copy, Debug, PartialEq, Eq, Hash, Structural, Default)]
pub enum Language {
    Zh,
    Ja,
    #[default]
    En,
}

/// ASCII lower-casing of one character; every other character is unchanged.
pub open spec fn ascii_lower(c: char) -> char {
    if 'A' <= c && c <= 'Z' {
        ((c as u32) + 32) as char
    } else {
        c
    }
}

/// The ASCII lower-cased form of `s` starts with the two lower-case letters `a`, `b`.
pub open spec fn lower_starts_with2(s: Seq<char>, a: char, b: char) -> bool {
    &&& s.len() >= 2
    &&& ascii_lower(s[0]) == a
    &&& ascii_lower(s[1]) == b
}

/// The language named by a language tag such as `en-US`, `ja` or `zh-CN`:
/// the tag is compared case-insensitively by its first two letters, and
/// anything unknown falls back to English.
pub open spec fn language_of_tag(s: Seq<char>) -> Language {
    if lower_starts_with2(s, 'e', 'n') {
        Language::En
    } else if lower_starts_with2(s, 'j', 'a') {
        Language::Ja
    } else if lower_starts_with2(s, 'z', 'h') {
        Language::Zh
    } else {
        Language::En
    }
}

/// A language tag names the same language whatever the case of its letters.
pub proof fn lemma_language_ignores_case(s: Seq<char>)
    ensures
        language_of_tag(s) == language_of_tag(s.map_values(|c: char| ascii_lower(c))),
{
    let t = s.map_values(|c: char| ascii_lower(c));
    if s.len() >= 2 {
        assert(t[0] == ascii_lower(s[0]));
        assert(t[1] == ascii_lower(s[1]));
        assert(ascii_lower(t[0]) == t[0]);
        assert(ascii_lower(t[1]) == t[1]);
    }
}

/// Whether `c`, lower-cased, is the lower-case ASCII letter `lower`.
fn is_letter_ignoring_case(c: char, lower: char) -> (r: bool)
    requires
        'a' <= lower <= 'z',
    ensures
        r == (ascii_lower(c) == lower),
{
    let upper_code: u32 = (lower as u32) - 32;
    c == lower || (c as u32) == upper_code
}

/// Maps a language tag to a [`Language`]: `en*` is English, `ja*` Japanese,
/// `zh*` Chinese (all case-insensitive), anything else English.
pub fn language_str_to_enum(language: &str) -> (r: Language)
    ensures
        r == language_of_tag(language@),
{
    let n = language.unicode_len();
    if n < 2 {
        return Language::En;
    }
    let c0 = language.get_char(0);
    let c1 = language.get_char(1);
    if is_letter_ignoring_case(c0, 'e') && is_letter_ignoring_case(c1, 'n') {
        Language::En
    } else if is_letter_ignoring_case(c0, 'j') && is_letter_ignoring_case(c1, 'a') {
        Language::Ja
    } else if is_letter_ignoring_case(c0, 'z') && is_letter_ignoring_case(c1, 'h') {
        Language::Zh
    } else {
        Language::En
    }
}

/// The language the client reports for itself: English. Reading the
/// browser's language is tied to `target_family = "web"`, a family that no
/// Rust target belongs to, so no target reads it.
pub fn get_client_language() -> (r: Language)
    ensures
        r == Language::En,
{
    Language::En
}

/// The list of languages the client reports for itself: empty, since the
/// browser's list is read on no target (see [`get_client_language`]).
pub fn get_client_languages() -> (r: Vec<Language>)
    ensures
        r@ == Seq::<Language>::empty(),
{
    Vec::new()
}

/// The languages the user has chosen: Chinese only.
pub fn get_user_language() -> (r: Vec<Language>)
    ensures
        r@ == seq![Language::Zh],
{
    let mut v = Vec::new();
    v.push(Language::Zh);
    v
}

} // verus!
