//! The record type: a named duck and its weight.

use vstd::prelude::*;
use vstd::string::StringExecFns;
use std::cmp::Ordering;
use crate::order::{compare_names, name_cmp, lemma_name_cmp_flip, lemma_name_cmp_equal,
    lemma_name_cmp_transitive};

verus! {

/// What a duck is, mathematically: its name and its weight in hundredths of a kilogram.
pub ghost struct DuckModel {
    pub name: Seq<char>,
    pub weight: int,
}

/// A duck with a name and a weight.
///
/// The weight is held in fixed point, as a whole number of hundredths of a
/// kilogram (`800` is 8.00 kg), which is the precision in which it is shown.
pub struct Duck {
    name: String,
    weight: i64,
}

impl View for Duck {
    type V = DuckModel;

    closed spec fn view(&self) -> DuckModel {
        DuckModel { name: self.name@, weight: self.weight as int }
    }
}

/// The order on ducks: lighter first; at equal weight, by name.
pub open spec fn duck_cmp(a: DuckModel, b: DuckModel) -> Ordering {
    if a.weight < b.weight {
        Ordering::Less
    } else if a.weight > b.weight {
        Ordering::Greater
    } else {
        name_cmp(a.name, b.name)
    }
}

/// The order on ducks is a strict total order whose equivalence is equality:
/// no duck comes before itself, swapping the operands swaps `Less` and `Greater`,
/// `Less` is transitive, and two different ducks are always ordered one way or
/// the other.
pub proof fn lemma_duck_order_total(a: DuckModel, b: DuckModel, c: DuckModel)
    ensures
        duck_cmp(a, a) == Ordering::Equal,
        duck_cmp(a, b) == Ordering::Less <==> duck_cmp(b, a) == Ordering::Greater,
        duck_cmp(a, b) == Ordering::Equal <==> a == b,
        duck_cmp(a, b) == Ordering::Less && duck_cmp(b, c) == Ordering::Less
            ==> duck_cmp(a, c) == Ordering::Less,
        a != b ==> duck_cmp(a, b) == Ordering::Less || duck_cmp(b, a) == Ordering::Less,
{
    lemma_name_cmp_equal(a.name, a.name);
    lemma_name_cmp_equal(a.name, b.name);
    lemma_name_cmp_flip(a.name, b.name);
    if duck_cmp(a, b) == Ordering::Less && duck_cmp(b, c) == Ordering::Less {
        if a.weight == b.weight && b.weight == c.weight {
            lemma_name_cmp_transitive(a.name, b.name, c.name);
        }
    }
}

impl Duck {
    /// A duck with the given name and weight in hundredths of a kilogram.
    pub fn new(name: String, weight: i64) -> (d: Duck)
        ensures
            d@ == (DuckModel { name: name@, weight: weight as int }),
    {
        Duck { name, weight }
    }

    /// The duck's name.
    pub fn name(&self) -> (r: &str)
        ensures
            r@ == self@.name,
    {
        self.name.as_str()
    }

    /// The duck's weight in hundredths of a kilogram.
    pub fn weight(&self) -> (r: i64)
        ensures
            r as int == self@.weight,
    {
        self.weight
    }

    /// Orders two ducks: by weight, then by name.
    pub fn cmp(&self, other: &Duck) -> (r: Ordering)
        ensures
            r == duck_cmp(self@, other@),
    {
        if self.weight < other.weight {
            return Ordering::Less;
        }
        if self.weight > other.weight {
            return Ordering::Greater;
        }
        compare_names(self.name.as_str(), other.name.as_str())
    }
}

impl PartialEq for Duck {
    /// Two ducks are equal when neither comes before the other.
    fn eq(&self, other: &Duck) -> (r: bool) {
        matches!(self.cmp(other), Ordering::Equal)
    }
}

impl vstd::std_specs::cmp::PartialEqSpecImpl for Duck {
    open spec fn obeys_eq_spec() -> bool {
        true
    }

    open spec fn eq_spec(&self, other: &Duck) -> bool {
        duck_cmp(self@, other@) == Ordering::Equal
    }
}

impl Eq for Duck {
}

impl PartialOrd for Duck {
    fn partial_cmp(&self, other: &Duck) -> (r: Option<Ordering>) {
        Some(self.cmp(other))
    }

    fn lt(&self, other: &Duck) -> (r: bool) {
        matches!(self.cmp(other), Ordering::Less)
    }
}

impl vstd::std_specs::cmp::PartialOrdSpecImpl for Duck {
    open spec fn obeys_partial_cmp_spec() -> bool {
        true
    }

    open spec fn partial_cmp_spec(&self, other: &Duck) -> Option<Ordering> {
        Some(duck_cmp(self@, other@))
    }
}

/// The six ducks of the example, in the order they are listed:
/// Daffy 8 kg, Dewey 2 kg, Howard 7 kg, Louie 2 kg, Donald 10 kg, Huey 2 kg.
pub fn sample_ducks() -> (r: Vec<Duck>)
    ensures
        r@.len() == 6,
        r@[0]@ == (DuckModel { name: "Daffy"@, weight: 800 }),
        r@[1]@ == (DuckModel { name: "Dewey"@, weight: 200 }),
        r@[2]@ == (DuckModel { name: "Howard"@, weight: 700 }),
        r@[3]@ == (DuckModel { name: "Louie"@, weight: 200 }),
        r@[4]@ == (DuckModel { name: "Donald"@, weight: 1000 }),
        r@[5]@ == (DuckModel { name: "Huey"@, weight: 200 }),
{
    let mut r: Vec<Duck> = Vec::new();
    r.push(Duck::new(String::from_str("Daffy"), 800));
    r.push(Duck::new(String::from_str("Dewey"), 200));
    r.push(Duck::new(String::from_str("Howard"), 700));
    r.push(Duck::new(String::from_str("Louie"), 200));
    r.push(Duck::new(String::from_str("Donald"), 1000));
    r.push(Duck::new(String::from_str("Huey"), 200));
    r
}

} // verus!
