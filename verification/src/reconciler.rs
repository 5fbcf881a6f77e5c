//! Reading the raw promotions and reconciling their prices.

use vstd::prelude::*;
use crate::decimal::pow10;
use crate::errors::{AppError, AppErrorView};
use crate::json::{lemma_nodes_view, nodes_view, Json, JsonValue};
use crate::product_extractor::{
    coerce_count, coerce_decimal, count_field, decimal_field, extract_value, text_field,
};
use crate::structures::{
    promotions_view, Promotion, PromotionView, RawPromotion, RawPromotionView,
};

verus! {

/// How far, in whole currency units, the stated item price may lie from the
/// sum of the installments before the two count as different.
pub const PRICE_TOLERANCE: u64 = 9;

/// The raw promotion that `entry` states; the first field that cannot be read gives the error.
pub open spec fn raw_promotion_of(entry: JsonValue) -> Result<RawPromotionView, AppErrorView> {
    let months = count_field(entry, "months"@);
    let promo_type = text_field(entry, "promoType"@);
    let promo_desc = text_field(entry, "promoDesc"@);
    let min_purchase_amount = count_field(entry, "minPurchaseAmount"@);
    let min_purchase_unit = count_field(entry, "minPurchaseUnit"@);
    let discount_unit = count_field(entry, "discountUnit"@);
    let discount_amount = decimal_field(entry, "discountAmount"@);
    let promo_code = count_field(entry, "promoCode"@);
    let item_price = decimal_field(entry, "itemPrice"@);
    let monthly_price = decimal_field(entry, "monthlyPrice"@);
    if months is Err {
        Err(months->Err_0)
    } else if promo_type is Err {
        Err(promo_type->Err_0)
    } else if promo_desc is Err {
        Err(promo_desc->Err_0)
    } else if min_purchase_amount is Err {
        Err(min_purchase_amount->Err_0)
    } else if min_purchase_unit is Err {
        Err(min_purchase_unit->Err_0)
    } else if discount_unit is Err {
        Err(discount_unit->Err_0)
    } else if discount_amount is Err {
        Err(discount_amount->Err_0)
    } else if promo_code is Err {
        Err(promo_code->Err_0)
    } else if item_price is Err {
        Err(item_price->Err_0)
    } else if monthly_price is Err {
        Err(monthly_price->Err_0)
    } else {
        Ok(
            RawPromotionView {
                months: months->Ok_0 as nat,
                promo_type: promo_type->Ok_0,
                promo_desc: promo_desc->Ok_0,
                min_purchase_amount: min_purchase_amount->Ok_0 as nat,
                min_purchase_unit: min_purchase_unit->Ok_0 as nat,
                discount_unit: discount_unit->Ok_0 as nat,
                discount_amount: discount_amount->Ok_0,
                promo_code: promo_code->Ok_0 as nat,
                item_price: item_price->Ok_0,
                monthly_price: monthly_price->Ok_0,
            },
        )
    }
}

/// The raw promotion with what follows from its terms: the sum of the
/// installments, its distance from the stated item price, and whether that
/// distance is more than the tolerance. `None` where the sum or the distance
/// does not fit a [`Decimal`](crate::decimal::Decimal).
pub open spec fn reconciled(raw: RawPromotionView) -> Option<PromotionView> {
    match raw.monthly_price.spec_times(raw.months) {
        None => None,
        Some(final_price) => match raw.item_price.spec_distance(final_price) {
            None => None,
            Some(distance) => Some(
                PromotionView {
                    months: raw.months,
                    promo_type: raw.promo_type,
                    promo_desc: raw.promo_desc,
                    min_purchase_amount: raw.min_purchase_amount,
                    min_purchase_unit: raw.min_purchase_unit,
                    discount_unit: raw.discount_unit,
                    discount_amount: raw.discount_amount,
                    promo_code: raw.promo_code,
                    item_price: raw.item_price,
                    monthly_price: raw.monthly_price,
                    final_price,
                    final_price_distance: distance,
                    different_price: distance.spec_exceeds(PRICE_TOLERANCE as nat),
                },
            ),
        },
    }
}

/// The reconciled promotion that `entry` gives, where it gives one.
pub open spec fn promotion_of(entry: JsonValue) -> Option<PromotionView> {
    match raw_promotion_of(entry) {
        Ok(raw) => reconciled(raw),
        Err(_) => None,
    }
}

/// The reconciled promotions of those `entries` that give one, in their order.
pub open spec fn reconciled_promotions(entries: Seq<JsonValue>) -> Seq<PromotionView>
    decreases entries.len(),
{
    if entries.len() == 0 {
        Seq::empty()
    } else {
        let earlier = reconciled_promotions(entries.drop_last());
        match promotion_of(entries.last()) {
            Some(promotion) => earlier.push(promotion),
            None => earlier,
        }
    }
}

/// Reconciling a run of entries part by part gives the same as reconciling it whole.
pub proof fn lemma_reconciled_promotions_concat(left: Seq<JsonValue>, right: Seq<JsonValue>)
    ensures
        reconciled_promotions(left + right) == reconciled_promotions(left) + reconciled_promotions(
            right,
        ),
    decreases right.len(),
{
    if right.len() == 0 {
        assert(left + right =~= left);
        assert(reconciled_promotions(left) + reconciled_promotions(right) =~= reconciled_promotions(
            left,
        ));
    } else {
        lemma_reconciled_promotions_concat(left, right.drop_last());
        assert((left + right).drop_last() =~= left + right.drop_last());
        assert((left + right).last() == right.last());
        match promotion_of(right.last()) {
            Some(promotion) => {
                assert(reconciled_promotions(left + right) =~= reconciled_promotions(left)
                    + reconciled_promotions(right));
            },
            None => {},
        }
    }
}

/// Where every entry gives a promotion, none is left out and each stands at its entry's place.
pub proof fn lemma_well_formed_entries_are_kept(entries: Seq<JsonValue>)
    requires
        forall|k: int| 0 <= k < entries.len() ==> promotion_of(#[trigger] entries[k]) is Some,
    ensures
        reconciled_promotions(entries).len() == entries.len(),
        forall|k: int|
            0 <= k < entries.len() ==> Some(#[trigger] reconciled_promotions(entries)[k])
                == promotion_of(entries[k]),
    decreases entries.len(),
{
    if entries.len() > 0 {
        let earlier = entries.drop_last();
        assert forall|k: int| 0 <= k < earlier.len() implies promotion_of(
            #[trigger] earlier[k],
        ) is Some by {
            assert(earlier[k] == entries[k]);
        }
        lemma_well_formed_entries_are_kept(earlier);
        assert(promotion_of(entries.last()) is Some);
        assert forall|k: int| 0 <= k < entries.len() implies Some(
            #[trigger] reconciled_promotions(entries)[k],
        ) == promotion_of(entries[k]) by {
            if k < earlier.len() {
                assert(earlier[k] == entries[k]);
                assert(reconciled_promotions(entries)[k] == reconciled_promotions(earlier)[k]);
            }
        }
    }
}

/// An entry that gives no promotion leaves no trace: the outcome is that of
/// the run without it, and no error is raised on its account.
pub proof fn lemma_malformed_entry_is_skipped(entries: Seq<JsonValue>, bad: int)
    requires
        0 <= bad < entries.len(),
        promotion_of(entries[bad]) is None,
    ensures
        reconciled_promotions(entries) == reconciled_promotions(entries.remove(bad)),
{
    let before = entries.take(bad);
    let after = entries.skip(bad + 1);
    let single = seq![entries[bad]];
    assert(entries =~= before + single + after);
    assert(entries.remove(bad) =~= before + after);
    lemma_reconciled_promotions_concat(before + single, after);
    lemma_reconciled_promotions_concat(before, single);
    lemma_reconciled_promotions_concat(before, after);
    assert(single.drop_last() =~= Seq::<JsonValue>::empty());
    assert(reconciled_promotions(single.drop_last()) =~= Seq::<PromotionView>::empty());
    assert(reconciled_promotions(single) =~= Seq::<PromotionView>::empty());
    assert(reconciled_promotions(before) + reconciled_promotions(single)
        =~= reconciled_promotions(before));
}

/// One malformed entry among well-formed ones: every other entry gives its
/// promotion, in order, so that one fewer comes out than went in.
pub proof fn lemma_one_malformed_entry(entries: Seq<JsonValue>, bad: int)
    requires
        0 <= bad < entries.len(),
        promotion_of(entries[bad]) is None,
        forall|k: int|
            0 <= k < entries.len() && k != bad ==> promotion_of(#[trigger] entries[k]) is Some,
    ensures
        reconciled_promotions(entries).len() == entries.len() - 1,
        forall|k: int|
            0 <= k < entries.len() - 1 ==> Some(#[trigger] reconciled_promotions(entries)[k])
                == promotion_of(entries.remove(bad)[k]),
{
    let others = entries.remove(bad);
    lemma_malformed_entry_is_skipped(entries, bad);
    assert forall|k: int| 0 <= k < others.len() implies promotion_of(#[trigger] others[k]) is Some by {
        if k < bad {
            assert(others[k] == entries[k]);
        } else {
            assert(others[k] == entries[k + 1]);
        }
    }
    lemma_well_formed_entries_are_kept(others);
}

/// What reconciliation computes: the final price is exactly the monthly price
/// times the number of months, the distance is exactly the absolute difference
/// between the item price and the final price, and the prices count as
/// different exactly when that distance is more than the tolerance.
pub proof fn lemma_reconciled_prices(entry: JsonValue)
    requires
        promotion_of(entry) is Some,
    ensures
        ({
            let raw = raw_promotion_of(entry)->Ok_0;
            let promotion = promotion_of(entry)->0;
            let final_price = promotion.final_price;
            let distance = promotion.final_price_distance;
            let scale = distance.scale as nat;
            let gap = raw.item_price.scaled_to(scale) - final_price.scaled_to(scale);
            &&& raw_promotion_of(entry) is Ok
            &&& promotion.months == raw.months
            &&& promotion.monthly_price == raw.monthly_price
            &&& promotion.item_price == raw.item_price
            &&& final_price.scale == raw.monthly_price.scale
            &&& final_price.signed() == raw.months * raw.monthly_price.signed()
            &&& scale >= raw.item_price.scale
            &&& scale >= final_price.scale
            &&& distance.signed() == if gap < 0 {
                -gap
            } else {
                gap
            }
            &&& promotion.different_price == (distance.signed() > PRICE_TOLERANCE * pow10(scale))
        }),
{
    let raw = raw_promotion_of(entry)->Ok_0;
    let count = raw.months;
    let price = raw.monthly_price;
    assert(price.spec_times(count)->0.signed() == count * price.signed()) by (nonlinear_arith)
        requires
            price.spec_times(count) is Some,
            price.spec_times(count)->0.signed() == if price.negative {
                -(price.coefficient * count)
            } else {
                price.coefficient * count
            },
            price.signed() == if price.negative {
                -(price.coefficient as int)
            } else {
                price.coefficient as int
            },
    ;
}

impl RawPromotion {
    /// Reads one entry of the promotions array.
    pub fn from_json(entry: &Json) -> (raw: Result<RawPromotion, AppError>)
        ensures
            match raw_promotion_of(entry@) {
                Ok(stated) => raw matches Ok(read) && read@ == stated,
                Err(error) => raw matches Err(failure) && failure@ == error,
            },
    {
        let months = coerce_count(entry, "months")?;
        let promo_type = extract_value(entry, "promoType")?;
        let promo_desc = extract_value(entry, "promoDesc")?;
        let min_purchase_amount = coerce_count(entry, "minPurchaseAmount")?;
        let min_purchase_unit = coerce_count(entry, "minPurchaseUnit")?;
        let discount_unit = coerce_count(entry, "discountUnit")?;
        let discount_amount = coerce_decimal(entry, "discountAmount")?;
        let promo_code = coerce_count(entry, "promoCode")?;
        let item_price = coerce_decimal(entry, "itemPrice")?;
        let monthly_price = coerce_decimal(entry, "monthlyPrice")?;
        Ok(
            RawPromotion {
                months,
                promo_type,
                promo_desc,
                min_purchase_amount,
                min_purchase_unit,
                discount_unit,
                discount_amount,
                promo_code,
                item_price,
                monthly_price,
            },
        )
    }

    /// Computes what follows from the stated terms.
    pub fn reconcile(self) -> (promotion: Option<Promotion>)
        ensures
            match reconciled(self@) {
                Some(expected) => promotion matches Some(computed) && computed@ == expected,
                None => promotion is None,
            },
    {
        let final_price = self.monthly_price.times(self.months)?;
        let final_price_distance = self.item_price.distance(&final_price)?;
        let different_price = final_price_distance.exceeds(PRICE_TOLERANCE);
        Some(
            Promotion {
                months: self.months,
                promo_type: self.promo_type,
                promo_desc: self.promo_desc,
                min_purchase_amount: self.min_purchase_amount,
                min_purchase_unit: self.min_purchase_unit,
                discount_unit: self.discount_unit,
                discount_amount: self.discount_amount,
                promo_code: self.promo_code,
                item_price: self.item_price,
                monthly_price: self.monthly_price,
                final_price,
                final_price_distance,
                different_price,
            },
        )
    }
}

/// Reconciles every entry that can be read, and leaves out the others.
pub fn reconcile_promotions(entries: &Vec<Json>) -> (promotions: Vec<Promotion>)
    ensures
        promotions_view(promotions@) == reconciled_promotions(nodes_view(entries@)),
{
    let mut promotions: Vec<Promotion> = Vec::new();
    let ghost all = nodes_view(entries@);
    proof {
        lemma_nodes_view(entries@);
        assert(promotions_view(promotions@) =~= Seq::<PromotionView>::empty());
    }
    let mut i: usize = 0;
    while i < entries.len()
        invariant
            i <= entries.len(),
            all == nodes_view(entries@),
            all.len() == entries.len(),
            forall|k: int| 0 <= k < entries.len() ==> all[k] == entries@[k]@,
            promotions_view(promotions@) == reconciled_promotions(all.take(i as int)),
        decreases entries.len() - i,
    {
        proof {
            assert(all.take(i + 1).drop_last() =~= all.take(i as int));
            assert(all.take(i + 1).last() == entries@[i as int]@);
        }
        let ghost before = promotions@;
        match RawPromotion::from_json(&entries[i]) {
            Ok(raw) => match raw.reconcile() {
                Some(promotion) => {
                    promotions.push(promotion);
                    assert(promotions_view(promotions@) =~= promotions_view(before).push(
                        promotion@,
                    ));
                },
                None => {},
            },
            Err(_) => {},
        }
        i += 1;
    }
    assert(all.take(i as int) =~= all);
    promotions
}

} // verus!
