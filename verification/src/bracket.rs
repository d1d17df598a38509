//! Tax brackets and yearly schedules.
//!
//! A bracket taxes the income between its bounds at a single marginal rate;
//! a schedule is the bracket list for one tax year, kept sorted ascending by
//! lower bound from the moment it is constructed, whatever order the
//! brackets were supplied in. Construction never rejects malformed or
//! overlapping brackets; validating them is deliberately left to schedule
//! producers.

use vstd::prelude::*;
use vstd::seq_lib::group_to_multiset_ensures;

use crate::money::{Money, Rate};

verus! {

/// A single tax bracket: a rate applied to income between two bounds.
#[derive(Clone, Copy, Debug, PartialEq)]
pub struct TaxBracket {
    /// The lower income bound of this bracket.
    pub lower_bound: Money,
    /// The upper income bound; `None` means the bracket is unbounded above.
    pub upper_bound: Option<Money>,
    /// The marginal rate applied inside this bracket.
    pub rate: Rate,
}

impl TaxBracket {
    /// A bracket is well formed when its bounds and rate are well formed.
    pub open spec fn wf(self) -> bool {
        &&& self.lower_bound.wf()
        &&& match self.upper_bound {
            Some(u) => u.wf(),
            None => true,
        }
        &&& self.rate.wf()
    }
}

/// The mathematical content of a bracket: its bound and rate mantissas.
pub ghost struct BracketModel {
    pub lower: int,
    pub upper: Option<int>,
    pub rate: int,
}

/// The model of one bracket.
pub open spec fn bracket_model(b: TaxBracket) -> BracketModel {
    BracketModel {
        lower: b.lower_bound@,
        upper: match b.upper_bound {
            Some(u) => Some(u@),
            None => None,
        },
        rate: b.rate@,
    }
}

/// The models of a bracket sequence, elementwise.
pub open spec fn models_of(s: Seq<TaxBracket>) -> Seq<BracketModel> {
    s.map_values(|b: TaxBracket| bracket_model(b))
}

/// Bracket sequences with the same multiset of brackets have the same
/// multiset of models.
pub proof fn lemma_models_of_multiset(s1: Seq<TaxBracket>, s2: Seq<TaxBracket>)
    requires
        s1.to_multiset() == s2.to_multiset(),
    ensures
        models_of(s1).to_multiset() == models_of(s2).to_multiset(),
    decreases s1.len(),
{
    broadcast use group_to_multiset_ensures;
    broadcast use vstd::multiset::group_multiset_axioms;

    if s1.len() == 0 {
        assert(s1.to_multiset().len() == 0);
        assert(s2.to_multiset().len() == s2.len());
        assert(s2 =~= Seq::<TaxBracket>::empty());
        assert(models_of(s1) =~= Seq::<BracketModel>::empty());
        assert(models_of(s2) =~= Seq::<BracketModel>::empty());
    } else {
        let x = s1.last();
        let n1 = s1.len() - 1;
        assert(s1.contains(x));
        assert(s1.to_multiset().count(x) > 0);
        assert(s2.to_multiset().count(x) > 0);
        assert(s2.contains(x));
        let j = choose|j: int| 0 <= j < s2.len() && s2[j] == x;
        assert(s1.remove(n1) =~= s1.drop_last());
        assert(s1.remove(n1).to_multiset() == s1.to_multiset().remove(x));
        assert(s2.remove(j).to_multiset() == s2.to_multiset().remove(x));
        lemma_models_of_multiset(s1.drop_last(), s2.remove(j));
        assert(models_of(s1) =~= models_of(s1.drop_last()).push(bracket_model(x)));
        assert(models_of(s2).remove(j) =~= models_of(s2.remove(j)));
        let fx = bracket_model(x);
        assert(models_of(s1.drop_last()).push(fx).to_multiset() == models_of(
            s1.drop_last(),
        ).to_multiset().insert(fx));
        assert(models_of(s2).remove(j).to_multiset() == models_of(s2).to_multiset().remove(
            models_of(s2)[j],
        ));
        assert(models_of(s2)[j] == fx);
        assert(models_of(s2).to_multiset().count(fx) > 0) by {
            assert(models_of(s2).contains(models_of(s2)[j]));
        }
        assert(models_of(s1).to_multiset() =~= models_of(s2).to_multiset());
    }
}

/// Brackets are in non-decreasing order of lower bound.
pub open spec fn sorted_by_lower(s: Seq<TaxBracket>) -> bool {
    forall|i: int, j: int|
        0 <= i < j < s.len() ==> #[trigger] s[i].lower_bound@ <= #[trigger] s[j].lower_bound@
}

/// The bracket list for one tax year, sorted ascending by lower bound.
#[derive(Debug, PartialEq)]
pub struct TaxSchedule {
    /// The tax year these brackets apply to.
    pub tax_year: u16,
    /// The bracket list, in non-decreasing order of lower bound.
    pub brackets: Vec<TaxBracket>,
}

impl Clone for TaxSchedule {
    /// An exact copy: same year, same brackets in the same order.
    fn clone(&self) -> (r: Self)
        ensures
            r.tax_year == self.tax_year,
            r.brackets@ == self.brackets@,
    {
        let n = self.brackets.len();
        let mut bs: Vec<TaxBracket> = Vec::new();
        let mut k: usize = 0;
        while k < n
            invariant
                n == self.brackets@.len(),
                0 <= k <= n,
                bs@ =~= self.brackets@.take(k as int),
            decreases n - k,
        {
            bs.push(self.brackets[k]);
            proof {
                assert(self.brackets@.take(k as int + 1) =~= self.brackets@.take(k as int).push(
                    self.brackets@[k as int],
                ));
            }
            k = k + 1;
        }
        proof {
            assert(self.brackets@.take(n as int) =~= self.brackets@);
        }
        TaxSchedule { tax_year: self.tax_year, brackets: bs }
    }
}

impl TaxSchedule {
    /// A schedule is well formed when all of its brackets are.
    pub open spec fn wf(self) -> bool {
        forall|i: int| 0 <= i < self.brackets@.len() ==> (#[trigger] self.brackets@[i]).wf()
    }

    /// Creates a schedule for `tax_year` from brackets in any order: the
    /// result holds exactly the given brackets (the same multiset), sorted
    /// ascending by lower bound.
    pub fn new(tax_year: u16, brackets: Vec<TaxBracket>) -> (r: TaxSchedule)
        ensures
            r.tax_year == tax_year,
            sorted_by_lower(r.brackets@),
            r.brackets@.to_multiset() == brackets@.to_multiset(),
            models_of(r.brackets@).to_multiset() == models_of(brackets@).to_multiset(),
            r.brackets@.len() == brackets@.len(),
            (forall|i: int|
                0 <= i < brackets@.len() ==> (#[trigger] brackets@[i]).wf()) ==> (forall|i: int|
                0 <= i < r.brackets@.len() ==> (#[trigger] r.brackets@[i]).wf()),
    {
        broadcast use group_to_multiset_ensures;

        let n = brackets.len();
        let mut out: Vec<TaxBracket> = Vec::new();
        let mut k: usize = 0;
        while k < n
            invariant
                n == brackets@.len(),
                0 <= k <= n,
                out@.len() == k,
                sorted_by_lower(out@),
                out@.to_multiset() == brackets@.take(k as int).to_multiset(),
            decreases n - k,
        {
            let b = brackets[k];
            let mut pos: usize = 0;
            while pos < out.len() && out[pos].lower_bound.mantissa() <= b.lower_bound.mantissa()
                invariant
                    0 <= pos <= out@.len(),
                    forall|i: int|
                        0 <= i < pos ==> #[trigger] out@[i].lower_bound@ <= b.lower_bound@,
                decreases out@.len() - pos,
            {
                pos = pos + 1;
            }
            let ghost old_out = out@;
            out.insert(pos, b);
            proof {
                assert forall|i: int, j: int| 0 <= i < j < out@.len() implies #[trigger] out@[
                    i
                ].lower_bound@ <= #[trigger] out@[j].lower_bound@ by {
                    if j < pos {
                        assert(out@[i] == old_out[i] && out@[j] == old_out[j]);
                    } else if i < pos && j == pos {
                        assert(out@[i] == old_out[i]);
                    } else if i < pos && j > pos {
                        assert(out@[i] == old_out[i] && out@[j] == old_out[j - 1]);
                    } else if i == pos {
                        assert(out@[j] == old_out[j - 1]);
                        assert(old_out[pos as int].lower_bound@ > b.lower_bound@);
                    } else {
                        assert(out@[i] == old_out[i - 1] && out@[j] == old_out[j - 1]);
                    }
                }
                vstd::seq_lib::to_multiset_insert(old_out, pos as int, b);
                vstd::seq_lib::to_multiset_build(brackets@.take(k as int), brackets@[k as int]);
                assert(brackets@.take(k as int + 1) =~= brackets@.take(k as int).push(
                    brackets@[k as int],
                ));
            }
            k = k + 1;
        }
        proof {
            assert(brackets@.take(n as int) =~= brackets@);
        }
        let r = TaxSchedule { tax_year, brackets: out };
        proof {
            lemma_models_of_multiset(r.brackets@, brackets@);
            if forall|i: int| 0 <= i < brackets@.len() ==> (#[trigger] brackets@[i]).wf() {
                assert forall|i: int| 0 <= i < r.brackets@.len() implies (
                #[trigger] r.brackets@[i]).wf() by {
                    assert(r.brackets@.to_multiset().count(r.brackets@[i]) > 0);
                    assert(brackets@.to_multiset().count(r.brackets@[i]) > 0);
                    assert(brackets@.contains(r.brackets@[i]));
                }
            }
        }
        r
    }
}

} // verus!
