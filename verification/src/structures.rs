//! The snapshot of a product and the promotions attached to it.

use vstd::prelude::*;
use crate::decimal::Decimal;

verus! {

/// One installment plan as the retailer states it, with its numbers read.
#[derive(Debug, Clone)]
pub struct RawPromotion {
    pub months: usize,
    pub promo_type: String,
    pub promo_desc: String,
    pub min_purchase_amount: usize,
    pub min_purchase_unit: usize,
    pub discount_unit: usize,
    pub discount_amount: Decimal,
    pub promo_code: usize,
    pub item_price: Decimal,
    pub monthly_price: Decimal,
}

/// The mathematical content of a [`RawPromotion`].
pub struct RawPromotionView {
    pub months: nat,
    pub promo_type: Seq<char>,
    pub promo_desc: Seq<char>,
    pub min_purchase_amount: nat,
    pub min_purchase_unit: nat,
    pub discount_unit: nat,
    pub discount_amount: Decimal,
    pub promo_code: nat,
    pub item_price: Decimal,
    pub monthly_price: Decimal,
}

impl View for RawPromotion {
    type V = RawPromotionView;

    open spec fn view(&self) -> RawPromotionView {
        RawPromotionView {
            months: self.months as nat,
            promo_type: self.promo_type@,
            promo_desc: self.promo_desc@,
            min_purchase_amount: self.min_purchase_amount as nat,
            min_purchase_unit: self.min_purchase_unit as nat,
            discount_unit: self.discount_unit as nat,
            discount_amount: self.discount_amount,
            promo_code: self.promo_code as nat,
            item_price: self.item_price,
            monthly_price: self.monthly_price,
        }
    }
}

/// One installment plan, reconciled: the stated terms and what follows from them.
#[derive(Debug, Clone)]
pub struct Promotion {
    pub months: usize,
    pub promo_type: String,
    pub promo_desc: String,
    pub min_purchase_amount: usize,
    pub min_purchase_unit: usize,
    pub discount_unit: usize,
    pub discount_amount: Decimal,
    pub promo_code: usize,
    pub item_price: Decimal,
    pub monthly_price: Decimal,
    /// The full price that the installments add up to.
    pub final_price: Decimal,
    /// How far the stated item price lies from `final_price`.
    pub final_price_distance: Decimal,
    /// Whether that distance is more than the tolerance.
    pub different_price: bool,
}

/// The mathematical content of a [`Promotion`].
pub struct PromotionView {
    pub months: nat,
    pub promo_type: Seq<char>,
    pub promo_desc: Seq<char>,
    pub min_purchase_amount: nat,
    pub min_purchase_unit: nat,
    pub discount_unit: nat,
    pub discount_amount: Decimal,
    pub promo_code: nat,
    pub item_price: Decimal,
    pub monthly_price: Decimal,
    pub final_price: Decimal,
    pub final_price_distance: Decimal,
    pub different_price: bool,
}

impl View for Promotion {
    type V = PromotionView;

    open spec fn view(&self) -> PromotionView {
        PromotionView {
            months: self.months as nat,
            promo_type: self.promo_type@,
            promo_desc: self.promo_desc@,
            min_purchase_amount: self.min_purchase_amount as nat,
            min_purchase_unit: self.min_purchase_unit as nat,
            discount_unit: self.discount_unit as nat,
            discount_amount: self.discount_amount,
            promo_code: self.promo_code as nat,
            item_price: self.item_price,
            monthly_price: self.monthly_price,
            final_price: self.final_price,
            final_price_distance: self.final_price_distance,
            different_price: self.different_price,
        }
    }
}

/// The contents of a run of promotions.
pub open spec fn promotions_view(promotions: Seq<Promotion>) -> Seq<PromotionView> {
    promotions.map_values(|promotion: Promotion| promotion@)
}

/// What was observed of one product in one run.
#[derive(Debug, Clone)]
pub struct Product {
    pub product_id: usize,
    pub title: String,
    pub brand: String,
    pub color: String,
    pub time_recorded_utc: String,
    pub time_recorded_gmt_minus_6: String,
    pub last_modified_time: String,
    pub creation_date: String,
    pub max_promo_price: Decimal,
    pub min_promo_price: Decimal,
    pub max_list_price: Decimal,
    pub min_list_price: Decimal,
    pub discount_percentage: Decimal,
    pub promo_price: Decimal,
    pub sale_price: Decimal,
    pub list_price: Decimal,
    pub sort_price: Decimal,
    pub last_modified_by_whom: String,
    pub rating_average: Decimal,
    pub rating_count: usize,
    /// The reconciled promotions, in the order in which the retailer presents them.
    pub promotions: Vec<Promotion>,
}

/// The mathematical content of a [`Product`].
pub struct ProductView {
    pub product_id: nat,
    pub title: Seq<char>,
    pub brand: Seq<char>,
    pub color: Seq<char>,
    pub time_recorded_utc: Seq<char>,
    pub time_recorded_gmt_minus_6: Seq<char>,
    pub last_modified_time: Seq<char>,
    pub creation_date: Seq<char>,
    pub max_promo_price: Decimal,
    pub min_promo_price: Decimal,
    pub max_list_price: Decimal,
    pub min_list_price: Decimal,
    pub discount_percentage: Decimal,
    pub promo_price: Decimal,
    pub sale_price: Decimal,
    pub list_price: Decimal,
    pub sort_price: Decimal,
    pub last_modified_by_whom: Seq<char>,
    pub rating_average: Decimal,
    pub rating_count: nat,
    pub promotions: Seq<PromotionView>,
}

impl View for Product {
    type V = ProductView;

    open spec fn view(&self) -> ProductView {
        ProductView {
            product_id: self.product_id as nat,
            title: self.title@,
            brand: self.brand@,
            color: self.color@,
            time_recorded_utc: self.time_recorded_utc@,
            time_recorded_gmt_minus_6: self.time_recorded_gmt_minus_6@,
            last_modified_time: self.last_modified_time@,
            creation_date: self.creation_date@,
            max_promo_price: self.max_promo_price,
            min_promo_price: self.min_promo_price,
            max_list_price: self.max_list_price,
            min_list_price: self.min_list_price,
            discount_percentage: self.discount_percentage,
            promo_price: self.promo_price,
            sale_price: self.sale_price,
            list_price: self.list_price,
            sort_price: self.sort_price,
            last_modified_by_whom: self.last_modified_by_whom@,
            rating_average: self.rating_average,
            rating_count: self.rating_count as nat,
            promotions: promotions_view(self.promotions@),
        }
    }
}

} // verus!
