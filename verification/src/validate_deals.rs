//! Review of the promotions of a snapshot.

use vstd::prelude::*;
use crate::structures::{promotions_view, Product, PromotionView};

verus! {

/// The flag raised by a long-running plan of the `PD` type.
pub const LONG_TERM_PD: &'static str = "Promotion with more than 9 months and type PD found";

/// The flag raised by a high discount amount.
pub const HIGH_DISCOUNT: &'static str = "Promotion with discount amount greater than 10% found";

/// The number of months that a plan of the `PD` type must exceed to be flagged.
pub const LONG_TERM_MONTHS: usize = 9;

/// The discount amount that a promotion must exceed to be flagged; the
/// discount unit is not looked at.
pub const DISCOUNT_THRESHOLD: u64 = 10;

/// The flags that one promotion raises: the long-term flag first, then the discount flag.
pub open spec fn flags_of(promotion: PromotionView) -> Seq<Seq<char>> {
    let long_term: Seq<Seq<char>> = if promotion.months > LONG_TERM_MONTHS && promotion.promo_type
        == "PD"@ {
        seq![LONG_TERM_PD@]
    } else {
        seq![]
    };
    let high_discount: Seq<Seq<char>> = if promotion.discount_amount.spec_exceeds(
        DISCOUNT_THRESHOLD as nat,
    ) {
        seq![HIGH_DISCOUNT@]
    } else {
        seq![]
    };
    long_term + high_discount
}

/// The flags that the promotions raise, promotion by promotion, in their order.
pub open spec fn review_flags(promotions: Seq<PromotionView>) -> Seq<Seq<char>>
    decreases promotions.len(),
{
    if promotions.len() == 0 {
        seq![]
    } else {
        review_flags(promotions.drop_last()) + flags_of(promotions.last())
    }
}

/// The texts of a run of flags.
pub open spec fn flags_view(flags: Seq<&'static str>) -> Seq<Seq<char>> {
    flags.map_values(|flag: &'static str| flag@)
}

/// Reviews the promotions of a snapshot and returns the flags that they raise.
pub fn review_product_promotions(product: &Product) -> (results: Vec<&'static str>)
    ensures
        flags_view(results@) == review_flags(product@.promotions),
{
    let mut results: Vec<&'static str> = Vec::new();
    let plan_type = "PD".to_owned();
    let ghost all = promotions_view(product.promotions@);
    assert(flags_view(results@) =~= Seq::<Seq<char>>::empty());
    let mut i: usize = 0;
    while i < product.promotions.len()
        invariant
            i <= product.promotions.len(),
            plan_type@ == "PD"@,
            all == promotions_view(product.promotions@),
            flags_view(results@) == review_flags(all.take(i as int)),
        decreases product.promotions.len() - i,
    {
        let promotion = &product.promotions[i];
        let ghost before = results@;
        proof {
            assert(all.take(i + 1).drop_last() =~= all.take(i as int));
            assert(all.take(i + 1).last() == promotion@);
        }
        if promotion.months > LONG_TERM_MONTHS && promotion.promo_type == plan_type {
            results.push(LONG_TERM_PD);
        }
        if promotion.discount_amount.exceeds(DISCOUNT_THRESHOLD) {
            results.push(HIGH_DISCOUNT);
        }
        assert(flags_view(results@) =~= flags_view(before) + flags_of(promotion@));
        i += 1;
    }
    assert(all.take(i as int) =~= all);
    results
}

} // verus!
