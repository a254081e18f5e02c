//! What holds of texts: trimming, numbers in decimal, joining.

use vstd::prelude::*;

use crate::text::{
    decimal, digit, is_blank, is_white_space, joined, signed_decimal, trimmed, trimmed_end,
    trimmed_start,
};

verus! {

/// Whether every character of `s` is white space.
pub open spec fn all_white(s: Seq<char>) -> bool {
    forall|i: int| 0 <= i < s.len() ==> is_white_space(#[trigger] s[i])
}

proof fn lemma_start(white: Seq<char>, rest: Seq<char>)
    requires
        all_white(white),
    ensures
        trimmed_start(white + rest) == trimmed_start(rest),
    decreases white.len(),
{
    if white.len() > 0 {
        let all = white + rest;
        assert(is_white_space(white[0]));
        assert(all.first() == white[0]);
        assert(all.drop_first() =~= white.drop_first() + rest);
        assert forall|i: int| 0 <= i < white.drop_first().len() implies is_white_space(
            #[trigger] white.drop_first()[i],
        ) by {
            assert(is_white_space(white[i + 1]));
        }
        lemma_start(white.drop_first(), rest);
    } else {
        assert(white + rest =~= rest);
    }
}

proof fn lemma_end(rest: Seq<char>, white: Seq<char>)
    requires
        all_white(white),
    ensures
        trimmed_end(rest + white) == trimmed_end(rest),
    decreases white.len(),
{
    if white.len() > 0 {
        let all = rest + white;
        assert(is_white_space(white[white.len() - 1]));
        assert(all.last() == white[white.len() - 1]);
        assert(all.drop_last() =~= rest + white.drop_last());
        assert forall|i: int| 0 <= i < white.drop_last().len() implies is_white_space(
            #[trigger] white.drop_last()[i],
        ) by {
            assert(is_white_space(white[i]));
        }
        lemma_end(rest, white.drop_last());
    } else {
        assert(rest + white =~= rest);
    }
}

/// Trimming takes the white space off both ends of a text, all of it, and nothing else.
pub proof fn trimming_keeps_the_middle(before: Seq<char>, middle: Seq<char>, after: Seq<char>)
    requires
        all_white(before),
        all_white(after),
        middle.len() > 0,
        !is_white_space(middle.first()),
        !is_white_space(middle.last()),
    ensures
        trimmed(before + middle + after) == middle,
{
    assert(before + middle + after =~= before + (middle + after));
    lemma_start(before, middle + after);
    assert((middle + after).first() == middle.first());
    lemma_end(middle, after);
}

/// A text is blank, and nothing of it is left by trimming, exactly where all of it is white
/// space.
pub proof fn blank_is_all_white(s: Seq<char>)
    ensures
        is_blank(s) <==> all_white(s),
        trimmed(s).len() == 0 <==> all_white(s),
    decreases s.len(),
{
    if all_white(s) {
        lemma_start(s, Seq::empty());
        assert(s + Seq::empty() =~= s);
    } else {
        lemma_not_white(s);
    }
}

proof fn lemma_not_white(s: Seq<char>)
    requires
        !all_white(s),
    ensures
        trimmed(s).len() > 0,
    decreases s.len(),
{
    let i = choose|i: int| 0 <= i < s.len() && !is_white_space(#[trigger] s[i]);
    if is_white_space(s.first()) {
        assert(s.drop_first()[i - 1] == s[i]);
        lemma_not_white(s.drop_first());
    } else {
        lemma_end_not_white(s, i);
    }
}

proof fn lemma_end_not_white(s: Seq<char>, i: int)
    requires
        0 <= i < s.len(),
        !is_white_space(s[i]),
    ensures
        trimmed_end(s).len() > 0,
    decreases s.len(),
{
    if is_white_space(s.last()) {
        assert(s.drop_last()[i] == s[i]);
        lemma_end_not_white(s.drop_last(), i);
    }
}

proof fn lemma_digit(d: nat)
    requires
        d < 10,
    ensures
        digit(d) == ('0' as int + d) as char,
{
}

/// A number in decimal ends with its last digit, before which stands what is left of it without
/// that digit.
pub proof fn decimal_digit_by_digit(n: nat, d: nat)
    requires
        d < 10,
    ensures
        decimal(d) == seq![('0' as int + d) as char],
        n > 0 ==> decimal(10 * n + d) == decimal(n) + seq![('0' as int + d) as char],
{
    lemma_digit(d);
    if n > 0 {
        assert((10 * n + d) / 10 == n);
        assert((10 * n + d) % 10 == d);
        assert(decimal(n).push(digit(d)) =~= decimal(n) + seq![digit(d)]);
    }
}

/// A negative number is its opposite behind a minus sign.
pub proof fn sign_of_a_number(n: nat)
    ensures
        signed_decimal(n as int) == decimal(n),
        n > 0 ==> signed_decimal(-(n as int)) == seq!['-'] + decimal(n),
{
}

/// Joined texts stand one after the other, with the separator between each two neighbours.
pub proof fn joining_one_by_one(parts: Seq<Seq<char>>, part: Seq<char>, separator: Seq<char>)
    ensures
        joined(Seq::empty(), separator) == Seq::<char>::empty(),
        joined(seq![part], separator) == part,
        parts.len() > 0 ==> joined(parts.push(part), separator) == joined(parts, separator)
            + separator + part,
{
    assert(parts.push(part).drop_last() =~= parts);
}

} // verus!
