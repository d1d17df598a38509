//! Taxable entities: who is being taxed, their gross income, and their
//! deductions. The derived quantities `total_deductions` and
//! `taxable_income` are exact sums over the deduction list.

use vstd::prelude::*;
use vstd::arithmetic::mul::{lemma_mul_inequality, lemma_mul_is_distributive_add_other_way};

use crate::money::{Money, MONEY_MAX_MANTISSA};

verus! {

/// The kind of entity being taxed. Part of every schedule lookup key.
#[derive(Clone, Copy, Debug, Eq, PartialEq, Hash, Structural)]
pub enum TaxEntityType {
    Individual,
    Corporation,
    Partnership,
}

/// The category a deduction falls under.
#[derive(Clone, Copy, Debug, Eq, PartialEq, Hash, Structural)]
pub enum DeductionType {
    Business,
    Personal,
    Charitable,
}

/// A single deduction: an amount and its category.
#[derive(Clone, Debug, PartialEq, Eq, Structural)]
pub struct Deduction {
    /// The amount to be deducted from gross income.
    pub amount: Money,
    /// The category of this deduction.
    pub category: DeductionType,
}

/// How many deductions one entity may carry. The cap keeps every sum and
/// every downstream product comfortably inside `i128`.
pub const MAX_DEDUCTIONS: usize = 1_000_000;

/// The exact sum of the deduction amounts, as a scaled mantissa.
pub open spec fn deductions_total(s: Seq<Deduction>) -> int
    decreases s.len(),
{
    if s.len() == 0 {
        0
    } else {
        deductions_total(s.drop_last()) + s.last().amount@
    }
}

/// The sum of well-formed deduction amounts is bounded by the length of
/// the list times the largest well-formed mantissa.
pub proof fn lemma_deductions_total_bound(s: Seq<Deduction>)
    requires
        forall|i: int| 0 <= i < s.len() ==> (#[trigger] s[i]).amount.wf(),
    ensures
        -(s.len() * MONEY_MAX_MANTISSA) <= deductions_total(s) <= s.len() * MONEY_MAX_MANTISSA,
    decreases s.len(),
{
    if s.len() > 0 {
        lemma_deductions_total_bound(s.drop_last());
        assert(s.last().amount.wf());
        assert((s.len() - 1) * MONEY_MAX_MANTISSA + MONEY_MAX_MANTISSA == s.len()
            * MONEY_MAX_MANTISSA) by (nonlinear_arith);
    }
}

/// An entity whose tax is to be computed: its type, gross income, the
/// deductions it claims, and the tax year it files for.
#[derive(Clone, Debug)]
pub struct TaxEntity {
    /// The type of this tax entity.
    pub entity_type: TaxEntityType,
    /// Gross income before deductions.
    pub income: Money,
    /// The deductions claimed by this entity.
    pub deductions: Vec<Deduction>,
    /// The tax year this entity files for.
    pub tax_year: u16,
}

impl TaxEntity {
    /// An entity is well formed when its income and deduction amounts are
    /// well-formed money values and the deduction list is within the cap.
    pub open spec fn wf(self) -> bool {
        &&& self.income.wf()
        &&& self.deductions@.len() <= MAX_DEDUCTIONS as int
        &&& forall|i: int|
            0 <= i < self.deductions@.len() ==> (#[trigger] self.deductions@[i]).amount.wf()
    }

    /// Creates a new tax entity without any deductions.
    pub fn new(entity_type: TaxEntityType, income: Money, tax_year: u16) -> (r: TaxEntity)
        requires
            income.wf(),
        ensures
            r.entity_type == entity_type,
            r.income == income,
            r.deductions@ =~= Seq::<Deduction>::empty(),
            r.tax_year == tax_year,
            r.wf(),
    {
        TaxEntity { entity_type, income, deductions: Vec::new(), tax_year }
    }

    /// Appends a deduction to this entity.
    pub fn add_deduction(&mut self, amount: Money, category: DeductionType)
        requires
            amount.wf(),
            old(self).deductions@.len() < MAX_DEDUCTIONS as int,
        ensures
            final(self).deductions@ == old(self).deductions@.push(
                Deduction { amount, category },
            ),
            final(self).entity_type == old(self).entity_type,
            final(self).income == old(self).income,
            final(self).tax_year == old(self).tax_year,
            old(self).wf() ==> final(self).wf(),
    {
        self.deductions.push(Deduction { amount, category });
    }

    /// The exact total of all deduction amounts. The result carries the
    /// sum of the deduction mantissas; for a long list it may lie outside
    /// the well-formed money range, which is why the bound is part of the
    /// contract.
    pub fn total_deductions(&self) -> (r: Money)
        requires
            forall|i: int|
                0 <= i < self.deductions@.len() ==> (#[trigger] self.deductions@[i]).amount.wf(),
        ensures
            r@ == deductions_total(self.deductions@),
            -(self.deductions@.len() * MONEY_MAX_MANTISSA) <= r@ <= self.deductions@.len()
                * MONEY_MAX_MANTISSA,
    {
        let n = self.deductions.len();
        let mut acc: i128 = 0;
        let mut k: usize = 0;
        while k < n
            invariant
                n == self.deductions@.len(),
                0 <= k <= n,
                forall|i: int|
                    0 <= i < self.deductions@.len() ==> (
                    #[trigger] self.deductions@[i]).amount.wf(),
                acc == deductions_total(self.deductions@.take(k as int)),
                -(k as int * (MONEY_MAX_MANTISSA as int)) <= acc as int <= k as int
                    * (MONEY_MAX_MANTISSA as int),
            decreases n - k,
        {
            let d = self.deductions[k].amount.mantissa();
            proof {
                assert(self.deductions@.take(k as int + 1).drop_last() =~= self.deductions@.take(
                    k as int,
                ));
                assert(self.deductions@[k as int].amount.wf());
                lemma_mul_is_distributive_add_other_way(
                    MONEY_MAX_MANTISSA as int,
                    k as int,
                    1,
                );
                lemma_mul_inequality(
                    k as int + 1,
                    usize::MAX as int,
                    MONEY_MAX_MANTISSA as int,
                );
            }
            acc = acc + d;
            k = k + 1;
        }
        proof {
            assert(self.deductions@.take(n as int) =~= self.deductions@);
            lemma_mul_inequality(n as int, usize::MAX as int, MONEY_MAX_MANTISSA as int);
        }
        Money::from_scaled_wide(acc)
    }

    /// Taxable income: gross income minus the total of all deductions.
    /// May be negative, or larger than a well-formed money amount when the
    /// deduction total is a large negative sum.
    pub fn taxable_income(&self) -> (r: Money)
        requires
            self.wf(),
        ensures
            r@ == self.income@ - deductions_total(self.deductions@),
    {
        let total = self.total_deductions();
        proof {
            lemma_mul_inequality(
                self.deductions@.len() as int,
                MAX_DEDUCTIONS as int,
                MONEY_MAX_MANTISSA as int,
            );
        }
        Money::from_scaled_wide(self.income.mantissa() - total.mantissa())
    }
}

} // verus!
