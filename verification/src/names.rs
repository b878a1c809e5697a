//! Canonical user-facing names: splitting a PascalCase identifier into its
//! lowercase words and joining words with underscores.
//!
//! A word boundary falls before an uppercase letter, at a transition between
//! a lowercase and an uppercase letter, and around a run of digits.  A run of
//! lowercase letters with no uppercase letter in front of it forms no word.

use vstd::prelude::*;
use crate::strings::strings_view;
use crate::value::is_digit_char;

verus! {

pub open spec fn is_lower_char(c: char) -> bool {
    'a' <= c && c <= 'z'
}

pub open spec fn is_upper_char(c: char) -> bool {
    'A' <= c && c <= 'Z'
}

/// Lowercase counterpart of an ASCII uppercase letter; anything else is kept.
pub open spec fn lower_char(c: char) -> char {
    if is_upper_char(c) {
        (((c as u32) + 32) as char)
    } else {
        c
    }
}

/// A word, letter for letter, in lowercase.
pub open spec fn lowered(w: Seq<char>) -> Seq<char> {
    w.map_values(|c: char| lower_char(c))
}

/// The classes of characters that form words.
#[derive(Clone, Copy, PartialEq, Eq, Structural, Debug)]
pub enum CharClass {
    Lower,
    Upper,
    Digit,
}

pub open spec fn in_class(c: char, k: CharClass) -> bool {
    match k {
        CharClass::Lower => is_lower_char(c),
        CharClass::Upper => is_upper_char(c),
        CharClass::Digit => is_digit_char(c),
    }
}

/// Start of the longest run of class-`k` characters ending just before `e`.
pub open spec fn run_start(s: Seq<char>, e: int, k: CharClass) -> int
    decreases e,
{
    if e <= 0 {
        0
    } else if in_class(s[e - 1], k) {
        run_start(s, e - 1, k)
    } else {
        e
    }
}

pub proof fn lemma_run_start_bounds(s: Seq<char>, e: int, k: CharClass)
    requires
        0 <= e,
    ensures
        0 <= run_start(s, e, k) <= e,
    decreases e,
{
    if e > 0 && in_class(s[e - 1], k) {
        lemma_run_start_bounds(s, e - 1, k);
    }
}

/// The words of `s[..e]`, scanned from the right end leftwards.
pub open spec fn words_upto(s: Seq<char>, e: int) -> Seq<Seq<char>>
    decreases e,
{
    if e <= 0 {
        Seq::empty()
    } else if is_lower_char(s[e - 1]) {
        proof {
            lemma_run_start_bounds(s, e - 1, CharClass::Lower);
        }
        let a = run_start(s, e, CharClass::Lower);
        if a > 0 && is_upper_char(s[a - 1]) {
            words_upto(s, a - 1).push(lowered(s.subrange(a - 1, e)))
        } else {
            words_upto(s, a)
        }
    } else if is_upper_char(s[e - 1]) {
        proof {
            lemma_run_start_bounds(s, e - 1, CharClass::Upper);
        }
        let a = run_start(s, e, CharClass::Upper);
        words_upto(s, a).push(lowered(s.subrange(a, e)))
    } else if is_digit_char(s[e - 1]) {
        proof {
            lemma_run_start_bounds(s, e - 1, CharClass::Digit);
        }
        let a = run_start(s, e, CharClass::Digit);
        words_upto(s, a).push(lowered(s.subrange(a, e)))
    } else {
        words_upto(s, e - 1)
    }
}

/// The lowercase words of an identifier.
pub open spec fn split_words(s: Seq<char>) -> Seq<Seq<char>> {
    words_upto(s, s.len() as int)
}

/// Words joined with a single underscore between neighbours.
pub open spec fn snake_join(ws: Seq<Seq<char>>) -> Seq<char>
    decreases ws.len(),
{
    if ws.len() == 0 {
        Seq::empty()
    } else if ws.len() == 1 {
        ws[0]
    } else {
        snake_join(ws.drop_last()) + seq!['_'] + ws.last()
    }
}

/// The canonical snake_case form of an identifier.
pub open spec fn snake_case(s: Seq<char>) -> Seq<char> {
    snake_join(split_words(s))
}

fn class_test(c: char, k: CharClass) -> (r: bool)
    ensures
        r == in_class(c, k),
{
    match k {
        CharClass::Lower => 'a' <= c && c <= 'z',
        CharClass::Upper => 'A' <= c && c <= 'Z',
        CharClass::Digit => '0' <= c && c <= '9',
    }
}

fn run_start_exec(s: &str, e: usize, k: CharClass) -> (a: usize)
    requires
        e <= s@.len(),
    ensures
        a == run_start(s@, e as int, k),
        a <= e,
{
    let mut a = e;
    while a > 0 && class_test(s.get_char(a - 1), k)
        invariant
            a <= e <= s@.len(),
            run_start(s@, e as int, k) == run_start(s@, a as int, k),
        decreases a,
    {
        a = a - 1;
    }
    proof {
        lemma_run_start_bounds(s@, e as int, k);
    }
    a
}

fn lower_char_exec(c: char) -> (r: char)
    ensures
        r == lower_char(c),
{
    if 'A' <= c && c <= 'Z' {
        let u: u32 = (c as u32) + 32;
        let b: u8 = u as u8;
        proof {
            assert((u as u8) as u32 == u) by (bit_vector)
                requires
                    u <= 122,
            ;
        }
        b as char
    } else {
        c
    }
}

/// The characters `s[a..e]`, lowercased.
fn lowered_word(s: &str, a: usize, e: usize) -> (w: String)
    requires
        a <= e <= s@.len(),
    ensures
        w@ == lowered(s@.subrange(a as int, e as int)),
{
    let mut w = String::new();
    let mut j = a;
    while j < e
        invariant
            a <= j <= e <= s@.len(),
            w@ == lowered(s@.subrange(a as int, j as int)),
        decreases e - j,
    {
        let c = lower_char_exec(s.get_char(j));
        w.push(c);
        proof {
            assert(s@.subrange(a as int, j + 1 as int) =~= s@.subrange(a as int, j as int).push(
                s@[j as int],
            ));
            assert(w@ =~= lowered(s@.subrange(a as int, j + 1 as int)));
        }
        j = j + 1;
    }
    w
}

/// Splits an identifier into its lowercase words.
///
/// The result is always present; the `Option` is part of the public shape.
pub fn get_pascal_case_words(s: &str) -> (r: Option<Vec<String>>)
    ensures
        r matches Option::Some(ws) && strings_view(ws@) == split_words(s@),
{
    let n = s.unicode_len();
    let mut out: Vec<String> = Vec::new();
    let mut e: usize = n;
    while e > 0
        invariant
            e <= n == s@.len(),
            words_upto(s@, n as int) =~= words_upto(s@, e as int) + strings_view(out@),
        decreases e,
    {
        let c = s.get_char(e - 1);
        if class_test(c, CharClass::Lower) {
            let a = run_start_exec(s, e, CharClass::Lower);
            proof {
                lemma_run_start_bounds(s@, e - 1 as int, CharClass::Lower);
            }
            if a > 0 && class_test(s.get_char(a - 1), CharClass::Upper) {
                let w = lowered_word(s, a - 1, e);
                let ghost prev = out@;
                out.insert(0, w);
                proof {
                    assert(strings_view(out@) =~= seq![w@] + strings_view(prev));
                }
                e = a - 1;
            } else {
                e = a;
            }
        } else if class_test(c, CharClass::Upper) {
            let a = run_start_exec(s, e, CharClass::Upper);
            proof {
                lemma_run_start_bounds(s@, e - 1 as int, CharClass::Upper);
            }
            let w = lowered_word(s, a, e);
            let ghost prev = out@;
            out.insert(0, w);
            proof {
                assert(strings_view(out@) =~= seq![w@] + strings_view(prev));
            }
            e = a;
        } else if class_test(c, CharClass::Digit) {
            let a = run_start_exec(s, e, CharClass::Digit);
            proof {
                lemma_run_start_bounds(s@, e - 1 as int, CharClass::Digit);
            }
            let w = lowered_word(s, a, e);
            let ghost prev = out@;
            out.insert(0, w);
            proof {
                assert(strings_view(out@) =~= seq![w@] + strings_view(prev));
            }
            e = a;
        } else {
            e = e - 1;
        }
    }
    Option::Some(out)
}

/// Joins the given words with underscores; at least one word is needed.
pub fn words_to_snake_case(words: Vec<String>) -> (r: String)
    requires
        words@.len() > 0,
    ensures
        r@ == snake_join(strings_view(words@)),
{
    let mut acc = String::new();
    let mut i: usize = 0;
    while i < words.len()
        invariant
            i <= words@.len(),
            acc@ == snake_join(strings_view(words@).subrange(0, i as int)),
        decreases words@.len() - i,
    {
        if i > 0 {
            acc.append("_");
        }
        acc.append(words[i].as_str());
        proof {
            reveal_strlit("_");
            let ws = strings_view(words@);
            assert(ws.subrange(0, i + 1 as int).drop_last() =~= ws.subrange(0, i as int));
            if i == 0 {
                assert(acc@ =~= snake_join(ws.subrange(0, i + 1 as int)));
            } else {
                assert(acc@ =~= snake_join(ws.subrange(0, i + 1 as int)));
            }
        }
        i = i + 1;
    }
    proof {
        assert(strings_view(words@).subrange(0, words@.len() as int) =~= strings_view(words@));
    }
    acc
}

/// The canonical snake_case form of a PascalCase identifier.
///
/// The identifier must contain at least one word; a string with no uppercase
/// letter or digit anywhere has none.
pub fn pascal_to_snake_case(s: &str) -> (r: String)
    requires
        split_words(s@).len() > 0,
    ensures
        r@ == snake_case(s@),
{
    match get_pascal_case_words(s) {
        Option::Some(ws) => words_to_snake_case(ws),
        Option::None => {
            proof {
                assert(false);
            }
            String::new()
        },
    }
}

} // verus!
