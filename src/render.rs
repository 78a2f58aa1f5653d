//! Rendering of weights and of ducks as text.

use vstd::prelude::*;
use vstd::string::{StrSliceExecFns, StringExecFns};
use crate::duck::{Duck, DuckModel};
use crate::sort::{lemma_map_keeps_multiset, lemma_sort_keeps_models, models, sorts_to};

verus! {

/// The character of a decimal digit `d` (`0 <= d < 10`).
pub open spec fn digit_char(d: int) -> char {
    (d + 48) as char
}

/// The decimal digits of `n`, most significant first, with no leading zero.
pub open spec fn decimal(n: nat) -> Seq<char>
    decreases n,
{
    if n < 10 {
        seq![digit_char(n as int)]
    } else {
        decimal(n / 10).push(digit_char((n % 10) as int))
    }
}

/// A weight given in hundredths, written with exactly two decimal places:
/// a minus sign if it is negative, the whole part, a point, two digits.
pub open spec fn fixed_two(w: int) -> Seq<char> {
    let m: int = if w < 0 { -w } else { w };
    let sign: Seq<char> = if w < 0 { seq!['-'] } else { seq![] };
    sign + decimal((m / 100) as nat) + seq!['.', digit_char((m % 100) / 10), digit_char(m % 10)]
}

/// The line that shows a duck: `The duck <name> weights <weight> kg.`
pub open spec fn duck_line(d: DuckModel) -> Seq<char> {
    "The duck "@ + d.name + " weights "@ + fixed_two(d.weight) + " kg."@
}

/// The lines that show a sequence of ducks, in order.
pub open spec fn lines(s: Seq<Duck>) -> Seq<Seq<char>> {
    s.map_values(|d: Duck| duck_line(d@))
}

/// Showing ducks, sorting them and showing them again loses, duplicates and
/// changes no duck: the sorted ducks have the same names and weights as before,
/// as many times each, and show as the same lines, only in another order.
pub proof fn lemma_sort_keeps_lines(before: Seq<Duck>, after: Seq<Duck>)
    requires
        sorts_to(before, after),
    ensures
        models(after).to_multiset() == models(before).to_multiset(),
        lines(after).to_multiset() == lines(before).to_multiset(),
{
    lemma_sort_keeps_models(before, after);
    lemma_map_keeps_multiset(after, before, |d: Duck| duck_line(d@));
}

/// The one-character text of a decimal digit.
fn digit_str(d: u64) -> (r: &'static str)
    requires
        d < 10,
    ensures
        r@ == seq![digit_char(d as int)],
{
    let digits = "0123456789";
    proof {
        reveal_strlit("0123456789");
    }
    let r = digits.substring_char(d as usize, d as usize + 1);
    assert(r@ =~= seq![digit_char(d as int)]);
    r
}

/// The decimal digits of `n`.
pub fn decimal_string(n: u64) -> (r: String)
    ensures
        r@ == decimal(n as nat),
    decreases n,
{
    if n < 10 {
        String::from_str(digit_str(n))
    } else {
        let mut s = decimal_string(n / 10);
        s.append(digit_str(n % 10));
        s
    }
}

/// A weight in hundredths written with two decimal places (`800` gives `8.00`).
pub fn fixed_two_string(w: i64) -> (r: String)
    ensures
        r@ == fixed_two(w as int),
{
    let m: u64 = if w < 0 { ((-(w + 1)) as u64) + 1 } else { w as u64 };
    let mut s = if w < 0 {
        proof {
            reveal_strlit("-");
        }
        String::from_str("-")
    } else {
        String::new()
    };
    let whole = decimal_string(m / 100);
    s.append(whole.as_str());
    proof {
        reveal_strlit(".");
    }
    s.append(".");
    s.append(digit_str(m % 100 / 10));
    s.append(digit_str(m % 10));
    assert(s@ =~= fixed_two(w as int));
    s
}

impl Duck {
    /// The line that shows this duck, such as `The duck Daffy weights 8.00 kg.`
    pub fn to_string(&self) -> (r: String)
        ensures
            r@ == duck_line(self@),
    {
        let mut s = String::from_str("The duck ");
        s.append(self.name());
        s.append(" weights ");
        let w = fixed_two_string(self.weight());
        s.append(w.as_str());
        s.append(" kg.");
        assert(s@ =~= duck_line(self@));
        s
    }
}

/// The lines that show a sequence of ducks, one per duck, in order.
pub fn display_lines(ducks: &Vec<Duck>) -> (r: Vec<String>)
    ensures
        r@.len() == ducks@.len(),
        forall|i: int| 0 <= i < ducks@.len() ==> (#[trigger] r@[i])@ == lines(ducks@)[i],
{
    let mut r: Vec<String> = Vec::new();
    let mut i: usize = 0;
    while i < ducks.len()
        invariant
            i <= ducks@.len(),
            r@.len() == i,
            forall|j: int| 0 <= j < i ==> (#[trigger] r@[j])@ == lines(ducks@)[j],
        decreases ducks@.len() - i,
    {
        r.push(ducks[i].to_string());
        i = i + 1;
    }
    r
}

} // verus!
