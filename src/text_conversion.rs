//! Alternating-case conversion.
//!
//! A toggle starts at "upper"; each alphabetic character is mapped to the
//! first character of its upper- or lower-case form according to the toggle,
//! which then flips. Other characters are copied and leave the toggle alone.
use vstd::prelude::*;

use crate::char_case::{
    alphabetic, is_alphabetic, is_uppercase, lower_first, to_lower_first, to_upper_first,
    upper_first, uppercase,
};

verus! {

/// A character together with what the case queries give for it.
#[derive(Clone, Copy, Debug, PartialEq, Eq)]
pub struct CaseForms {
    pub original: char,
    pub alphabetic: bool,
    pub upper: char,
    pub lower: char,
}

/// The case forms that std's `char` methods give for `c`.
pub open spec fn forms_of(c: char) -> CaseForms {
    CaseForms {
        original: c,
        alphabetic: alphabetic(c),
        upper: upper_first(c),
        lower: lower_first(c),
    }
}

/// Number of elements of `s` that satisfy `p`.
pub open spec fn count_where<A>(s: Seq<A>, p: spec_fn(A) -> bool) -> nat
    decreases s.len(),
{
    if s.len() == 0 {
        0
    } else {
        count_where(s.drop_last(), p) + if p(s.last()) {
            1nat
        } else {
            0nat
        }
    }
}

/// Number of entries of `f` marked alphabetic.
pub open spec fn letter_count(f: Seq<CaseForms>) -> nat {
    count_where(f, |x: CaseForms| x.alphabetic)
}

/// The output character at position `i`: a letter takes its upper form when
/// an even number of letters precede it, its lower form otherwise.
pub open spec fn alternated_at(f: Seq<CaseForms>, i: int) -> char {
    if f[i].alphabetic {
        if letter_count(f.take(i)) % 2 == 0 {
            f[i].upper
        } else {
            f[i].lower
        }
    } else {
        f[i].original
    }
}

/// The alternating-case output for a sequence of case forms.
pub open spec fn alternated(f: Seq<CaseForms>) -> Seq<char> {
    Seq::new(f.len(), |i: int| alternated_at(f, i))
}

/// The alternating-case output for the text `s`.
pub open spec fn mocking_text(s: Seq<char>) -> Seq<char> {
    alternated(s.map_values(|c: char| forms_of(c)))
}

/// Number of upper-case characters in `s`.
pub open spec fn capital_count(s: Seq<char>) -> nat {
    count_where(s, |c: char| uppercase(c))
}

/// Relies on `String::push`: appends `c` at the end.
#[verifier::external_body]
fn push_char(s: &mut String, c: char)
    ensures
        final(s)@ == old(s)@.push(c),
{
    s.push(c)
}

/// Builds the alternating-case text from each character's case forms.
pub fn alternate_case(forms: &Vec<CaseForms>) -> (r: String)
    ensures
        r@ == alternated(forms@),
{
    let mut out = String::new();
    let mut want_upper = true;
    let mut i: usize = 0;
    while i < forms.len()
        invariant
            i <= forms@.len(),
            out@ == alternated(forms@).take(i as int),
            want_upper == (letter_count(forms@.take(i as int)) % 2 == 0),
        decreases forms@.len() - i,
    {
        let x = forms[i];
        let ghost f = forms@;
        assert(f.take(i + 1).drop_last() == f.take(i as int));
        if x.alphabetic {
            if want_upper {
                push_char(&mut out, x.upper);
            } else {
                push_char(&mut out, x.lower);
            }
            want_upper = !want_upper;
        } else {
            push_char(&mut out, x.original);
        }
        assert(out@ == alternated(f).take(i + 1));
        i = i + 1;
    }
    assert(alternated(forms@).take(forms@.len() as int) == alternated(forms@));
    out
}

/// Converts `s` to alternating case: the first letter upper case, the next
/// lower case, and so on; every other character is copied unchanged.
pub fn convert_to_sb_text(s: &str) -> (r: String)
    ensures
        r@ == mocking_text(s@),
        r@.len() == s@.len(),
        forall|i: int| 0 <= i < s@.len() && !alphabetic(#[trigger] s@[i]) ==> r@[i] == s@[i],
{
    let mut forms: Vec<CaseForms> = Vec::new();
    for c in it: s.chars()
        invariant
            it.seq() == s@,
            forms@ == s@.take(it.index() as int).map_values(|c: char| forms_of(c)),
    {
        let ghost k = it.index() as int;
        let x = CaseForms {
            original: c,
            alphabetic: is_alphabetic(c),
            upper: to_upper_first(c),
            lower: to_lower_first(c),
        };
        assert(x == forms_of(c));
        assert(s@.take(k + 1) == s@.take(k).push(c));
        forms.push(x);
        assert(forms@ =~= s@.take(k + 1).map_values(|c: char| forms_of(c)));
    }
    assert(s@.take(s@.len() as int) == s@);
    alternate_case(&forms)
}

/// Counts the upper-case characters of `s`.
pub fn count_capital_letters(s: &str) -> (r: usize)
    ensures
        r == capital_count(s@),
{
    let n = s.unicode_len();
    let mut count: usize = 0;
    for c in it: s.chars()
        invariant
            it.seq() == s@,
            n == s@.len(),
            count == capital_count(s@.take(it.index() as int)),
            count <= it.index(),
    {
        let ghost k = it.index() as int;
        assert(s@.take(k + 1).drop_last() == s@.take(k));
        if is_uppercase(c) {
            count = count + 1;
        }
    }
    assert(s@.take(s@.len() as int) == s@);
    count
}

} // verus!
