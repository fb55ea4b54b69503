//! Choosing a language and greeting in it.

use rand::seq::IndexedRandom;
use vstd::prelude::*;
use crate::table::{greeting_table, lemma_codes_nonempty, lookup, table_codes};

verus! {

/// The sentence given for a code that is not in the table.
pub open spec fn fallback_text() -> Seq<char> {
    "Unknown language code."@
}

/// The text for `code`: its greeting when the table has it, else the fallback.
pub open spec fn greeting_for(code: Seq<char>) -> Seq<char> {
    if greeting_table().contains_key(code) {
        greeting_table()[code]
    } else {
        fallback_text()
    }
}

/// `text` is the greeting of some language of the table.
pub open spec fn is_greeting_text(text: Seq<char>) -> bool {
    exists|c: Seq<char>| #[trigger] greeting_table().contains_key(c) && greeting_table()[c] == text
}

/// The text given for `lang` when the random choice falls on `drawn`.
pub open spec fn greet_result(lang: Option<Seq<char>>, drawn: Seq<char>) -> Seq<char> {
    match lang {
        Some(c) => if c.len() > 0 {
            greeting_for(c)
        } else {
            greeting_for(drawn)
        },
        None => greeting_for(drawn),
    }
}

/// What `greet` may return for `lang`: a non-empty code gives its text (or
/// the fallback); no code, or an empty one, gives a greeting of the table.
pub open spec fn greet_outcome(lang: Option<Seq<char>>, r: Seq<char>) -> bool {
    match lang {
        Some(c) => if c.len() > 0 {
            r == greeting_for(c)
        } else {
            is_greeting_text(r)
        },
        None => is_greeting_text(r),
    }
}

/// Relies on rand's `rand::rng()` and `IndexedRandom::choose` on a slice:
/// `None` for an empty slice, else one of its elements, picked uniformly.
/// The thread's generator is seeded from the operating system; rand panics
/// only if that source of entropy cannot be read.
#[verifier::external_body]
fn choose_code(codes: &[&'static str]) -> (r: Option<&'static str>)
    ensures
        r is None <==> codes@.len() == 0,
        r matches Some(c) ==> codes@.contains(c),
{
    codes.choose(&mut rand::rng()).copied()
}

/// A code of the table, chosen at random among all of its codes.
pub fn get_random_key() -> (r: &'static str)
    ensures
        greeting_table().contains_key(r@),
{
    let codes = table_codes();
    match choose_code(codes.as_slice()) {
        Some(c) => {
            proof {
                let j = choose|j: int| 0 <= j < codes@.len() && codes@[j] == c;
                assert(greeting_table().contains_key(codes@[j]@));
            }
            c
        },
        None => "en",
    }
}

/// The text for `code`: its greeting, or the fallback sentence when the
/// table does not have it.
pub fn greeting_for_code(code: &str) -> (r: String)
    ensures
        r@ == greeting_for(code@),
{
    match lookup(code) {
        Some(t) => t.to_string(),
        None => "Unknown language code.".to_string(),
    }
}

/// Greets for `lang`, with `drawn` standing for the randomly chosen code:
/// a non-empty code gives its text (or the fallback sentence), and no code,
/// or an empty one, gives the text for `drawn`.
pub fn greet_with_draw(lang: Option<String>, drawn: &str) -> (r: String)
    ensures
        r@ == greet_result(lang.deep_view(), drawn@),
{
    match lang {
        Some(l) if !l.as_str().is_empty() => greeting_for_code(l.as_str()),
        _ => greeting_for_code(drawn),
    }
}

/// Greets in the language `lang` names. A non-empty code gives its greeting,
/// or the fallback sentence when it is unknown; without a code, or with an
/// empty one, the language is chosen at random among the table's codes.
pub fn greet(lang: Option<String>) -> (r: String)
    ensures
        greet_outcome(lang.deep_view(), r@),
        exists|d: Seq<char>| #[trigger]
            greeting_table().contains_key(d) && r@ == greet_result(lang.deep_view(), d),
{
    match lang {
        Some(l) if !l.as_str().is_empty() => {
            let r = greeting_for_code(l.as_str());
            assert(greeting_table().contains_key("en"@));
            assert(r@ == greet_result(Some(l@), "en"@));
            r
        },
        _ => {
            let code = get_random_key();
            let r = greet_with_draw(lang, code);
            assert(greeting_table().contains_key(code@));
            assert(is_greeting_text(r@));
            r
        },
    }
}

/// A code of the table is greeted with exactly its text.
pub proof fn lemma_known_code_gives_its_text(c: Seq<char>, r: Seq<char>)
    requires
        greeting_table().contains_key(c),
        greet_outcome(Some(c), r),
    ensures
        r == greeting_table()[c],
{
    lemma_codes_nonempty(c);
}

/// A non-empty code that is not in the table is answered with the fallback
/// sentence.
pub proof fn lemma_unknown_code_gives_fallback(c: Seq<char>, r: Seq<char>)
    requires
        !greeting_table().contains_key(c),
        c.len() > 0,
        greet_outcome(Some(c), r),
    ensures
        r == fallback_text(),
{
}

/// Without a code, the greeting is one of the table's texts.
pub proof fn lemma_no_code_gives_table_text(r: Seq<char>)
    requires
        greet_outcome(None, r),
    ensures
        is_greeting_text(r),
{
}

/// An empty code is treated exactly as no code at all.
pub proof fn lemma_empty_code_is_no_code(r: Seq<char>)
    ensures
        greet_outcome(Some(Seq::empty()), r) == greet_outcome(None, r),
{
}

/// For the same random choice, an empty code and no code give the same text.
pub proof fn lemma_empty_code_is_no_code_for_each_draw(drawn: Seq<char>)
    ensures
        greet_result(Some(Seq::empty()), drawn) == greet_result(None, drawn),
{
}

/// Greeting a code of the table twice gives the same text both times.
pub proof fn lemma_known_code_is_stable(c: Seq<char>, r1: Seq<char>, r2: Seq<char>)
    requires
        greeting_table().contains_key(c),
        greet_outcome(Some(c), r1),
        greet_outcome(Some(c), r2),
    ensures
        r1 == r2,
{
    lemma_codes_nonempty(c);
}

} // verus!
