//! The progressive income-tax calculation.
//!
//! [`spec_tax`] is the mathematical statement of progressive marginal
//! taxation over a bracket sequence; `IncomeTaxCalculator::calculate_tax`
//! is the verified implementation. All arithmetic is exact: the result is
//! a scaled integer, the sum of `bracket income * rate` products.

use vstd::prelude::*;

use crate::bracket::{TaxBracket, TaxSchedule};
use crate::entity::{deductions_total, lemma_deductions_total_bound, TaxEntity, MAX_DEDUCTIONS};
use crate::errors::TaxError;
use crate::money::{TaxAmount, MONEY_MAX_MANTISSA, RATE_MAX_MANTISSA, TAX_MAX_MANTISSA};

verus! {

/// The largest taxable-income mantissa a well-formed entity can produce:
/// a well-formed gross income plus the largest possible deduction total.
pub const TAXABLE_LIMIT: i128 = 1_000_001_000_000_000_000_000_000;

/// Progressive marginal tax over `brackets`, walked in the order given,
/// for a taxable income of `taxable` (a scaled money mantissa). For each
/// bracket, the income taxed is the remainder capped by the bracket's
/// width (or the whole remainder for an unbounded bracket); positive
/// bracket income contributes `income * rate` and is consumed; once the
/// remainder is exhausted a bounded bracket stops the walk. The result is
/// a scaled tax mantissa: money scale times rate scale.
pub open spec fn spec_tax(taxable: int, brackets: Seq<TaxBracket>) -> int
    decreases brackets.len(),
{
    if brackets.len() == 0 {
        0
    } else {
        let b = brackets[0];
        match b.upper_bound {
            Some(u) => {
                if taxable <= 0 {
                    0
                } else {
                    let span = u@ - b.lower_bound@;
                    let bi = if taxable <= span {
                        taxable
                    } else {
                        span
                    };
                    if bi > 0 {
                        bi * b.rate@ + spec_tax(taxable - bi, brackets.drop_first())
                    } else {
                        spec_tax(taxable, brackets.drop_first())
                    }
                }
            },
            None => {
                if taxable > 0 {
                    taxable * b.rate@ + spec_tax(0, brackets.drop_first())
                } else {
                    spec_tax(taxable, brackets.drop_first())
                }
            },
        }
    }
}

/// Non-positive taxable income is taxed at zero, whatever the brackets:
/// every bracket's contribution would be non-positive and is skipped.
pub proof fn lemma_spec_tax_nonpositive(taxable: int, brackets: Seq<TaxBracket>)
    requires
        taxable <= 0,
    ensures
        spec_tax(taxable, brackets) == 0,
    decreases brackets.len(),
{
    if brackets.len() > 0 {
        lemma_spec_tax_nonpositive(taxable, brackets.drop_first());
    }
}

/// Calculator for progressive income tax over a bracket schedule.
pub struct IncomeTaxCalculator;

impl IncomeTaxCalculator {
    /// Computes the tax an entity owes under a schedule.
    ///
    /// Fails with [`TaxError::YearMismatch`], and only with it, exactly
    /// when the entity's tax year differs from the schedule's; no
    /// arithmetic is performed in that case. Otherwise the result is the
    /// exact progressive tax [`spec_tax`] on the entity's taxable income
    /// (gross income minus total deductions); when the deductions reach or
    /// exceed the gross income the tax is zero, whatever the brackets.
    pub fn calculate_tax(entity: &TaxEntity, schedule: &TaxSchedule) -> (r: Result<
        TaxAmount,
        TaxError,
    >)
        requires
            entity.wf(),
            schedule.wf(),
        ensures
            match r {
                Ok(tax) => {
                    &&& entity.tax_year == schedule.tax_year
                    &&& tax@ == spec_tax(
                        entity.income@ - deductions_total(entity.deductions@),
                        schedule.brackets@,
                    )
                    &&& tax.wf()
                    &&& entity.income@ <= deductions_total(entity.deductions@) ==> tax@ == 0
                },
                Err(e) => {
                    &&& e == TaxError::YearMismatch
                    &&& entity.tax_year != schedule.tax_year
                },
            },
    {
        if entity.tax_year != schedule.tax_year {
            return Err(TaxError::YearMismatch);
        }
        let taxable = entity.taxable_income();
        let t0: i128 = taxable.mantissa();
        proof {
            lemma_deductions_total_bound(entity.deductions@);
            vstd::arithmetic::mul::lemma_mul_inequality(
                entity.deductions@.len() as int,
                MAX_DEDUCTIONS as int,
                MONEY_MAX_MANTISSA as int,
            );
            assert(-(TAXABLE_LIMIT as int) <= t0 <= TAXABLE_LIMIT as int);
        }
        let mut remaining: i128 = t0;
        let mut total: i128 = 0;
        proof {
            assert(schedule.brackets@.skip(0) =~= schedule.brackets@);
        }
        let n = schedule.brackets.len();
        let mut k: usize = 0;
        while k < n
            invariant_except_break
                n == schedule.brackets@.len(),
                0 <= k <= n,
                spec_tax(t0 as int, schedule.brackets@) == total + spec_tax(
                    remaining as int,
                    schedule.brackets@.skip(k as int),
                ),
            invariant
                schedule.wf(),
                -(TAXABLE_LIMIT as int) <= t0 <= TAXABLE_LIMIT as int,
                t0 <= 0 ==> remaining == t0,
                t0 > 0 ==> 0 <= remaining <= t0,
                0 <= total,
                total <= (t0 - remaining) * (RATE_MAX_MANTISSA as int),
            ensures
                total == spec_tax(t0 as int, schedule.brackets@),
            decreases n - k,
        {
            let ghost suffix = schedule.brackets@.skip(k as int);
            proof {
                assert(suffix.len() == n - k);
                assert(suffix[0] == schedule.brackets@[k as int]);
                assert(suffix.drop_first() =~= schedule.brackets@.skip(k as int + 1));
                assert(schedule.brackets@[k as int].wf());
            }
            let bracket = &schedule.brackets[k];
            let rate: i128 = bracket.rate.mantissa() as i128;
            match bracket.upper_bound {
                Some(upper) => {
                    if remaining <= 0 {
                        proof {
                            lemma_spec_tax_nonpositive(remaining as int, suffix);
                        }
                        break ;
                    }
                    let span = upper.mantissa() - bracket.lower_bound.mantissa();
                    let bi = if remaining <= span {
                        remaining
                    } else {
                        span
                    };
                    if bi > 0 {
                        proof {
                            assert(0 <= bi * rate <= bi * (RATE_MAX_MANTISSA as int))
                                by (nonlinear_arith)
                                requires
                                    0 < bi,
                                    0 <= rate <= RATE_MAX_MANTISSA as int,
                            ;
                            assert(bi * rate <= TAXABLE_LIMIT as int * (RATE_MAX_MANTISSA as int))
                                by (nonlinear_arith)
                                requires
                                    0 < bi <= TAXABLE_LIMIT as int,
                                    0 <= rate <= RATE_MAX_MANTISSA as int,
                            ;
                            assert((t0 - remaining) * (RATE_MAX_MANTISSA as int) + bi
                                * (RATE_MAX_MANTISSA as int) == (t0 - (remaining - bi)) * (
                            RATE_MAX_MANTISSA as int)) by (nonlinear_arith);
                            assert((t0 - (remaining - bi)) * (RATE_MAX_MANTISSA as int) <= (
                            TAXABLE_LIMIT as int) * (RATE_MAX_MANTISSA as int))
                                by (nonlinear_arith)
                                requires
                                    t0 - (remaining - bi) <= TAXABLE_LIMIT as int,
                                    0 <= t0 - (remaining - bi),
                            ;
                        }
                        total = total + bi * rate;
                        remaining = remaining - bi;
                    }
                },
                None => {
                    if remaining > 0 {
                        proof {
                            assert(0 <= remaining * rate <= remaining * (RATE_MAX_MANTISSA as int)
                                && remaining * (RATE_MAX_MANTISSA as int) <= (TAXABLE_LIMIT as int)
                                * (RATE_MAX_MANTISSA as int)) by (nonlinear_arith)
                                requires
                                    0 < remaining <= TAXABLE_LIMIT as int,
                                    0 <= rate <= RATE_MAX_MANTISSA as int,
                            ;
                            assert((t0 - remaining) * (RATE_MAX_MANTISSA as int) + remaining * (
                            RATE_MAX_MANTISSA as int) == t0 * (RATE_MAX_MANTISSA as int))
                                by (nonlinear_arith);
                            assert(t0 * (RATE_MAX_MANTISSA as int) <= (TAXABLE_LIMIT as int) * (
                            RATE_MAX_MANTISSA as int)) by (nonlinear_arith)
                                requires
                                    0 < t0 <= TAXABLE_LIMIT as int,
                            ;
                        }
                        total = total + remaining * rate;
                        remaining = 0;
                    }
                },
            }
            k = k + 1;
        }
        proof {
            assert(schedule.brackets@.skip(n as int) =~= Seq::<TaxBracket>::empty());
            if entity.income@ <= deductions_total(entity.deductions@) {
                lemma_spec_tax_nonpositive(t0 as int, schedule.brackets@);
            }
            assert(total <= TAX_MAX_MANTISSA as int) by {
                assert((t0 - remaining) * (RATE_MAX_MANTISSA as int) <= (TAXABLE_LIMIT as int) * (
                RATE_MAX_MANTISSA as int)) by (nonlinear_arith)
                    requires
                        t0 - remaining <= TAXABLE_LIMIT as int,
                ;
            }
        }
        Ok(TaxAmount::from_scaled(total))
    }
}

} // verus!
