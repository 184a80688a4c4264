//! Numeric cells. The library never computes with numbers: a numeric cell
//! holds the formula that gives its value from the readings of the sources.

use vstd::prelude::*;

verus! {

/// The formula of a numeric cell.
#[derive(Debug, PartialEq)]
pub enum Amount {
    /// A reading, as the source wrote it.
    Reading(String),
    /// The arithmetic mean of the members, which are at least one.
    Mean(Vec<Amount>),
    /// The product of the two.
    Product(Box<Amount>, Box<Amount>),
}

/// What an `Amount` stands for in contracts.
pub enum Formula {
    Reading(Seq<char>),
    Mean(Seq<Formula>),
    Product(Box<Formula>, Box<Formula>),
}

impl Amount {
    /// The formula that this amount holds.
    pub open spec fn formula(&self) -> Formula
        decreases self,
    {
        match self {
            Amount::Reading(text) => Formula::Reading(text@),
            Amount::Mean(members) => Formula::Mean(
                Seq::new(
                    members.len() as nat,
                    |i: int|
                        if 0 <= i < members.len() {
                            members[i].formula()
                        } else {
                            Formula::Mean(Seq::empty())
                        },
                ),
            ),
            Amount::Product(left, right) => Formula::Product(
                Box::new(left.formula()),
                Box::new(right.formula()),
            ),
        }
    }

    /// The mean of the members. An empty list has no mean.
    pub fn mean_of(members: Vec<Amount>) -> (mean: Option<Amount>)
        ensures
            mean.deep_view() == mean_formula(members.deep_view()),
    {
        if members.len() == 0 {
            None
        } else {
            let ghost formulas = members.deep_view();
            let mean = Amount::Mean(members);
            assert(mean@->Mean_0 =~= formulas);
            Some(mean)
        }
    }

    /// The product of a metric and a rate. A missing factor gives no product.
    pub fn product_of(metric: Option<Amount>, rate: Option<Amount>) -> (product: Option<Amount>)
        ensures
            product.deep_view() == product_formula(metric.deep_view(), rate.deep_view()),
    {
        match (metric, rate) {
            (Some(m), Some(r)) => Some(Amount::Product(Box::new(m), Box::new(r))),
            _ => None,
        }
    }
}

/// The cell that averages the members: empty where there is none.
pub open spec fn mean_formula(members: Seq<Formula>) -> Option<Formula> {
    if members.len() == 0 {
        None
    } else {
        Some(Formula::Mean(members))
    }
}

/// The cell that multiplies a metric by a rate: empty where either is.
pub open spec fn product_formula(metric: Option<Formula>, rate: Option<Formula>) -> Option<
    Formula,
> {
    match (metric, rate) {
        (Some(m), Some(r)) => Some(Formula::Product(Box::new(m), Box::new(r))),
        _ => None,
    }
}

impl View for Amount {
    type V = Formula;

    open spec fn view(&self) -> Formula {
        self.formula()
    }
}

impl DeepView for Amount {
    type V = Formula;

    open spec fn deep_view(&self) -> Formula {
        self.formula()
    }
}

impl Clone for Amount {
    #[verifier::loop_isolation(false)]
    fn clone(&self) -> (copy: Self)
        ensures
            copy@ == self@,
        decreases self,
    {
        match self {
            Amount::Reading(text) => Amount::Reading(text.clone()),
            Amount::Mean(members) => {
                let mut copies: Vec<Amount> = Vec::new();
                let mut i: usize = 0;
                while i < members.len()
                    invariant
                        i <= members.len(),
                        copies.len() == i,
                        forall|k: int| 0 <= k < i ==> copies[k]@ == members[k]@,
                    decreases members.len() - i,
                {
                    copies.push(members[i].clone());
                    i = i + 1;
                }
                let copy = Amount::Mean(copies);
                assert(copy@->Mean_0 =~= self@->Mean_0);
                copy
            },
            Amount::Product(left, right) => Amount::Product(
                Box::new((**left).clone()),
                Box::new((**right).clone()),
            ),
        }
    }
}

/// The sum of the values of the first `n` formulas.
pub open spec fn sum_of(members: Seq<Formula>, reading: spec_fn(Seq<char>) -> real, n: nat) -> real
    decreases members, n,
{
    if n == 0 || n > members.len() {
        0real
    } else {
        sum_of(members, reading, (n - 1) as nat) + members[n - 1].value(reading)
    }
}

impl Formula {
    /// The number that a formula gives in exact arithmetic, where `reading`
    /// gives the number of each reading.
    pub open spec fn value(self, reading: spec_fn(Seq<char>) -> real) -> real
        decreases self,
    {
        match self {
            Formula::Reading(text) => reading(text),
            Formula::Mean(members) => sum_of(members, reading, members.len()) / (
            members.len() as real),
            Formula::Product(left, right) => left.value(reading) * right.value(reading),
        }
    }
}

/// The mean of one member is that member.
pub proof fn mean_of_one_is_its_member(member: Formula, reading: spec_fn(Seq<char>) -> real)
    ensures
        Formula::Mean(seq![member]).value(reading) == member.value(reading),
{
    let members = seq![member];
    assert(sum_of(members, reading, 0) == 0real);
    assert(sum_of(members, reading, 1) == sum_of(members, reading, 0) + members[0].value(reading));
    assert(Formula::Mean(members).value(reading) == sum_of(members, reading, members.len()) / (
    members.len() as real));
    assert((members.len() as real) == 1real);
}

} // verus!
