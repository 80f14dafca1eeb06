//! Laws of alternating-case conversion, proved over the model in
//! `text_conversion`.
use vstd::prelude::*;

use crate::char_case::{alphabetic, lower_first, upper_first, uppercase};
use crate::text_conversion::{
    alternated, alternated_at, capital_count, count_where, forms_of, letter_count, mocking_text,
    CaseForms,
};

verus! {

/// For a letter `c`, its upper form is upper case and its lower form is not.
/// Unicode has letters without this (U+00AA has no upper-case mapping).
pub open spec fn cases_distinct(c: char) -> bool {
    alphabetic(c) ==> uppercase(upper_first(c)) && !uppercase(lower_first(c))
}

/// For a letter `c`, both case forms are letters too.
pub open spec fn cases_stay_letters(c: char) -> bool {
    alphabetic(c) ==> alphabetic(upper_first(c)) && alphabetic(lower_first(c))
}

/// The letters of `s`, in order.
pub open spec fn letters(s: Seq<char>) -> Seq<char> {
    s.filter(|c: char| alphabetic(c))
}

/// Non-letters that are upper case.
pub open spec fn passed_capitals(f: Seq<CaseForms>) -> nat {
    count_where(f, |x: CaseForms| !x.alphabetic && uppercase(x.original))
}

proof fn lemma_count_concat<A>(a: Seq<A>, b: Seq<A>, p: spec_fn(A) -> bool)
    ensures
        count_where(a + b, p) == count_where(a, p) + count_where(b, p),
    decreases b.len(),
{
    if b.len() == 0 {
        assert(a + b =~= a);
    } else {
        lemma_count_concat(a, b.drop_last(), p);
        assert((a + b).drop_last() =~= a + b.drop_last());
    }
}

proof fn lemma_count_reverse<A>(s: Seq<A>, p: spec_fn(A) -> bool)
    ensures
        count_where(s.reverse(), p) == count_where(s, p),
    decreases s.len(),
{
    if s.len() > 0 {
        let t = s.drop_last();
        lemma_count_reverse(t, p);
        assert(s.reverse() =~= seq![s.last()] + t.reverse());
        lemma_count_concat(seq![s.last()], t.reverse(), p);
        assert(seq![s.last()].drop_last() =~= Seq::<A>::empty());
        assert(count_where(Seq::<A>::empty(), p) == 0);
        assert(s =~= t.push(s.last()));
    }
}

/// Appending one case form appends one output character, chosen by the
/// parity of the letters before it.
proof fn lemma_alternated_push(f: Seq<CaseForms>, x: CaseForms)
    ensures
        alternated(f.push(x)) == alternated(f).push(alternated_at(f.push(x), f.len() as int)),
        alternated_at(f.push(x), f.len() as int) == if x.alphabetic {
            if letter_count(f) % 2 == 0 {
                x.upper
            } else {
                x.lower
            }
        } else {
            x.original
        },
        letter_count(f.push(x)) == letter_count(f) + if x.alphabetic {
            1nat
        } else {
            0nat
        },
{
    let g = f.push(x);
    assert(g.drop_last() =~= f);
    assert(g.take(f.len() as int) =~= f);
    assert forall|i: int| 0 <= i < f.len() implies alternated_at(g, i) == alternated_at(f, i) by {
        assert(g.take(i) =~= f.take(i));
    }
    assert(alternated(g) =~= alternated(f).push(alternated_at(g, f.len() as int)));
}

proof fn lemma_capitals_of_alternated(f: Seq<CaseForms>)
    requires
        forall|i: int|
            0 <= i < f.len() && (#[trigger] f[i]).alphabetic ==> uppercase(f[i].upper)
                && !uppercase(f[i].lower),
    ensures
        capital_count(alternated(f)) == passed_capitals(f) + (letter_count(f) + 1) / 2,
    decreases f.len(),
{
    if f.len() == 0 {
        assert(alternated(f) =~= Seq::<char>::empty());
    } else {
        let g = f.drop_last();
        let x = f.last();
        assert(f =~= g.push(x));
        lemma_capitals_of_alternated(g);
        lemma_alternated_push(g, x);
        let y = alternated_at(f, g.len() as int);
        assert(alternated(f).drop_last() =~= alternated(g));
        assert(alternated(f).last() == y);
    }
}

proof fn lemma_letters_of_alternated(f: Seq<CaseForms>)
    requires
        forall|i: int|
            0 <= i < f.len() && (#[trigger] f[i]).alphabetic ==> alphabetic(f[i].upper)
                && alphabetic(f[i].lower) && uppercase(f[i].upper) && !uppercase(f[i].lower),
        forall|i: int| 0 <= i < f.len() && !(#[trigger] f[i]).alphabetic ==> !alphabetic(f[i].original),
    ensures
        letters(alternated(f)).len() == letter_count(f),
        forall|k: int|
            0 <= k < letters(alternated(f)).len() ==> uppercase(
                #[trigger] letters(alternated(f))[k],
            ) == (k % 2 == 0),
    decreases f.len(),
{
    broadcast use Seq::lemma_filter_push;

    if f.len() == 0 {
        assert(alternated(f) =~= Seq::<char>::empty());
        reveal(Seq::filter);
    } else {
        let g = f.drop_last();
        let x = f.last();
        assert(f =~= g.push(x));
        lemma_letters_of_alternated(g);
        lemma_alternated_push(g, x);
        let y = alternated_at(f, g.len() as int);
        assert(alternated(f) == alternated(g).push(y));
        assert(letters(alternated(g).push(y)) == if alphabetic(y) {
            letters(alternated(g)).push(y)
        } else {
            letters(alternated(g))
        });
    }
}

/// Converting the same text twice gives the same output: the result is a
/// function of the input alone.
pub proof fn lemma_convert_deterministic(s: Seq<char>, r1: Seq<char>, r2: Seq<char>)
    requires
        r1 == mocking_text(s),
        r2 == mocking_text(s),
    ensures
        r1 == r2,
{
}

/// Among the letters of the output, neighbours never share their case:
/// the k-th letter is upper case exactly when k is even. This needs each
/// letter of the input to have case forms that are letters and differ in
/// case.
pub proof fn lemma_letters_alternate(s: Seq<char>)
    requires
        forall|i: int| 0 <= i < s.len() ==> cases_distinct(#[trigger] s[i]) && cases_stay_letters(s[i]),
    ensures
        forall|k: int|
            0 <= k < letters(mocking_text(s)).len() ==> uppercase(
                #[trigger] letters(mocking_text(s))[k],
            ) == (k % 2 == 0),
        forall|k: int|
            0 <= k < letters(mocking_text(s)).len() - 1 ==> uppercase(
                #[trigger] letters(mocking_text(s))[k],
            ) != uppercase(letters(mocking_text(s))[k + 1]),
{
    let f = s.map_values(|c: char| forms_of(c));
    assert forall|i: int| 0 <= i < f.len() implies f[i] == forms_of(s[i]) && cases_distinct(s[i])
        && cases_stay_letters(s[i]) by {}
    lemma_letters_of_alternated(f);
}

/// Reversing the input keeps the number of upper-case characters in the
/// output, given letters whose case forms differ in case.
pub proof fn lemma_reverse_keeps_capitals(s: Seq<char>)
    requires
        forall|i: int| 0 <= i < s.len() ==> cases_distinct(#[trigger] s[i]),
    ensures
        capital_count(mocking_text(s.reverse())) == capital_count(mocking_text(s)),
{
    let f = s.map_values(|c: char| forms_of(c));
    let fr = s.reverse().map_values(|c: char| forms_of(c));
    assert(fr =~= f.reverse());
    assert forall|i: int| 0 <= i < f.len() implies f[i] == forms_of(s[i]) && cases_distinct(s[i]) by {}
    assert forall|i: int| 0 <= i < fr.len() implies fr[i] == f[f.len() - 1 - i] by {}
    lemma_capitals_of_alternated(f);
    lemma_capitals_of_alternated(fr);
    lemma_count_reverse(f, |x: CaseForms| x.alphabetic);
    lemma_count_reverse(f, |x: CaseForms| !x.alphabetic && uppercase(x.original));
}

} // verus!
