//! The snapshot as a JSON document.

use vstd::prelude::*;
use crate::decimal::{decimal_of, lemma_text_round_trip, Decimal};
use crate::json::{
    first_member, lemma_members_view, lemma_nodes_view, Json, JsonValue, Member, MemberValue,
};
use crate::structures::{promotions_view, Product, ProductView, Promotion, PromotionView};
use crate::text::{all_digits, digits_of, digits_value, lemma_digits_of, render_count};

verus! {

/// The member that holds `value` under `key`.
pub open spec fn member_of(key: Seq<char>, value: JsonValue) -> MemberValue {
    MemberValue { key, value }
}

/// A count as a JSON number.
pub open spec fn count_json(count: nat) -> JsonValue {
    JsonValue::Number(digits_of(count))
}

/// A decimal number as a JSON number.
pub open spec fn decimal_json(number: Decimal) -> JsonValue {
    JsonValue::Number(number.text())
}

/// The count that `tree` holds, as a JSON number, under `key`.
pub open spec fn count_under(tree: JsonValue, key: Seq<char>) -> Option<nat> {
    match tree.member(key) {
        Some(JsonValue::Number(text)) => if text.len() > 0 && all_digits(text) {
            Some(digits_value(text))
        } else {
            None
        },
        _ => None,
    }
}

/// The decimal number that `tree` holds, as a JSON number, under `key`.
pub open spec fn decimal_under(tree: JsonValue, key: Seq<char>) -> Option<Decimal> {
    match tree.member(key) {
        Some(JsonValue::Number(text)) => decimal_of(text),
        _ => None,
    }
}

/// The string that `tree` holds under `key`.
pub open spec fn text_under(tree: JsonValue, key: Seq<char>) -> Option<Seq<char>> {
    match tree.member(key) {
        Some(JsonValue::Text(text)) => Some(text),
        _ => None,
    }
}

/// The boolean that `tree` holds under `key`.
pub open spec fn flag_under(tree: JsonValue, key: Seq<char>) -> Option<bool> {
    match tree.member(key) {
        Some(JsonValue::Bool(flag)) => Some(flag),
        _ => None,
    }
}

impl PromotionView {
    /// The members of the promotion's object: the stated terms under the
    /// retailer's keys, then what was derived from them.
    pub open spec fn members(self) -> Seq<MemberValue> {
        seq![
            member_of("months"@, count_json(self.months)),
            member_of("promoType"@, JsonValue::Text(self.promo_type)),
            member_of("promoDesc"@, JsonValue::Text(self.promo_desc)),
            member_of("minPurchaseAmount"@, count_json(self.min_purchase_amount)),
            member_of("minPurchaseUnit"@, count_json(self.min_purchase_unit)),
            member_of("discountUnit"@, count_json(self.discount_unit)),
            member_of("discountAmount"@, decimal_json(self.discount_amount)),
            member_of("promoCode"@, count_json(self.promo_code)),
            member_of("itemPrice"@, decimal_json(self.item_price)),
            member_of("monthlyPrice"@, decimal_json(self.monthly_price)),
            member_of("final_price"@, decimal_json(self.final_price)),
            member_of("final_price_distance"@, decimal_json(self.final_price_distance)),
            member_of("different_price"@, JsonValue::Bool(self.different_price)),
        ]
    }

    /// The promotion as a JSON object.
    pub open spec fn json(self) -> JsonValue {
        JsonValue::Object(self.members())
    }
}

/// The promotions as JSON objects, in their order.
pub open spec fn promotions_json(promotions: Seq<PromotionView>) -> Seq<JsonValue> {
    promotions.map_values(|promotion: PromotionView| promotion.json())
}

impl ProductView {
    /// The members of the snapshot's object, each field under its own name.
    pub open spec fn members(self) -> Seq<MemberValue> {
        seq![
            member_of("product_id"@, count_json(self.product_id)),
            member_of("title"@, JsonValue::Text(self.title)),
            member_of("brand"@, JsonValue::Text(self.brand)),
            member_of("color"@, JsonValue::Text(self.color)),
            member_of("time_recorded_utc"@, JsonValue::Text(self.time_recorded_utc)),
            member_of("time_recorded_gmt_minus_6"@, JsonValue::Text(self.time_recorded_gmt_minus_6)),
            member_of("last_modified_time"@, JsonValue::Text(self.last_modified_time)),
            member_of("creation_date"@, JsonValue::Text(self.creation_date)),
            member_of("max_promo_price"@, decimal_json(self.max_promo_price)),
            member_of("min_promo_price"@, decimal_json(self.min_promo_price)),
            member_of("max_list_price"@, decimal_json(self.max_list_price)),
            member_of("min_list_price"@, decimal_json(self.min_list_price)),
            member_of("discount_percentage"@, decimal_json(self.discount_percentage)),
            member_of("promo_price"@, decimal_json(self.promo_price)),
            member_of("sale_price"@, decimal_json(self.sale_price)),
            member_of("list_price"@, decimal_json(self.list_price)),
            member_of("sort_price"@, decimal_json(self.sort_price)),
            member_of("last_modified_by_whom"@, JsonValue::Text(self.last_modified_by_whom)),
            member_of("rating_average"@, decimal_json(self.rating_average)),
            member_of("rating_count"@, count_json(self.rating_count)),
            member_of("promotions"@, JsonValue::Array(promotions_json(self.promotions))),
        ]
    }

    /// The snapshot as a JSON object.
    pub open spec fn json(self) -> JsonValue {
        JsonValue::Object(self.members())
    }
}

/// The member at `index` is the one that its key finds, where no earlier member has that key.
pub proof fn lemma_first_member_at(members: Seq<MemberValue>, index: int)
    requires
        0 <= index < members.len(),
        forall|j: int| 0 <= j < index ==> (#[trigger] members[j]).key != members[index].key,
    ensures
        first_member(members, members[index].key) == Some(members[index].value),
    decreases index,
{
    if index > 0 {
        let rest = members.drop_first();
        assert(rest[index - 1] == members[index]);
        assert forall|j: int| 0 <= j < index - 1 implies (#[trigger] rest[j]).key != rest[index
            - 1].key by {
            assert(rest[j] == members[j + 1]);
        }
        lemma_first_member_at(rest, index - 1);
        assert(members[0].key != members[index].key);
    }
}

/// No two members of a promotion's object have the same key.
proof fn lemma_promotion_keys_differ(promotion: PromotionView)
    ensures
        promotion.members().len() == 13,
        forall|i: int, j: int|
            0 <= i < j < 13 ==> (#[trigger] promotion.members()[i]).key != (
            #[trigger] promotion.members()[j]).key,
{
    reveal_strlit("months");
    reveal_strlit("promoType");
    reveal_strlit("promoDesc");
    reveal_strlit("minPurchaseAmount");
    reveal_strlit("minPurchaseUnit");
    reveal_strlit("discountUnit");
    reveal_strlit("discountAmount");
    reveal_strlit("promoCode");
    reveal_strlit("itemPrice");
    reveal_strlit("monthlyPrice");
    reveal_strlit("final_price");
    reveal_strlit("final_price_distance");
    reveal_strlit("different_price");
    let members = promotion.members();
    assert(members[0].key.len() == 6);
    assert(members[1].key.len() == 9 && members[1].key[0] == 'p' && members[1].key[5] == 'T');
    assert(members[2].key.len() == 9 && members[2].key[0] == 'p' && members[2].key[5] == 'D');
    assert(members[3].key.len() == 17);
    assert(members[4].key.len() == 15 && members[4].key[0] == 'm');
    assert(members[5].key.len() == 12 && members[5].key[0] == 'd');
    assert(members[6].key.len() == 14);
    assert(members[7].key.len() == 9 && members[7].key[0] == 'p' && members[7].key[5] == 'C');
    assert(members[8].key.len() == 9 && members[8].key[0] == 'i');
    assert(members[9].key.len() == 12 && members[9].key[0] == 'm');
    assert(members[10].key.len() == 11);
    assert(members[11].key.len() == 20);
    assert(members[12].key.len() == 15 && members[12].key[0] == 'd');
}

/// Each field of a promotion can be read back from its JSON object, under its
/// key, as the value that was written.
pub proof fn lemma_promotion_round_trip(promotion: PromotionView)
    ensures
        count_under(promotion.json(), "months"@) == Some(promotion.months),
        text_under(promotion.json(), "promoType"@) == Some(promotion.promo_type),
        text_under(promotion.json(), "promoDesc"@) == Some(promotion.promo_desc),
        count_under(promotion.json(), "minPurchaseAmount"@) == Some(promotion.min_purchase_amount),
        count_under(promotion.json(), "minPurchaseUnit"@) == Some(promotion.min_purchase_unit),
        count_under(promotion.json(), "discountUnit"@) == Some(promotion.discount_unit),
        decimal_under(promotion.json(), "discountAmount"@) == Some(promotion.discount_amount),
        count_under(promotion.json(), "promoCode"@) == Some(promotion.promo_code),
        decimal_under(promotion.json(), "itemPrice"@) == Some(promotion.item_price),
        decimal_under(promotion.json(), "monthlyPrice"@) == Some(promotion.monthly_price),
        decimal_under(promotion.json(), "final_price"@) == Some(promotion.final_price),
        decimal_under(promotion.json(), "final_price_distance"@) == Some(
            promotion.final_price_distance,
        ),
        flag_under(promotion.json(), "different_price"@) == Some(promotion.different_price),
{
    let members = promotion.members();
    lemma_promotion_keys_differ(promotion);
    assert forall|i: int| 0 <= i < 13 implies first_member(members, (#[trigger] members[i]).key)
        == Some(members[i].value) by {
        lemma_first_member_at(members, i);
    }
    assert(members[0].key == "months"@);
    assert(members[1].key == "promoType"@);
    assert(members[2].key == "promoDesc"@);
    assert(members[3].key == "minPurchaseAmount"@);
    assert(members[4].key == "minPurchaseUnit"@);
    assert(members[5].key == "discountUnit"@);
    assert(members[6].key == "discountAmount"@);
    assert(members[7].key == "promoCode"@);
    assert(members[8].key == "itemPrice"@);
    assert(members[9].key == "monthlyPrice"@);
    assert(members[10].key == "final_price"@);
    assert(members[11].key == "final_price_distance"@);
    assert(members[12].key == "different_price"@);
    lemma_digits_of(promotion.months);
    lemma_digits_of(promotion.min_purchase_amount);
    lemma_digits_of(promotion.min_purchase_unit);
    lemma_digits_of(promotion.discount_unit);
    lemma_digits_of(promotion.promo_code);
    lemma_text_round_trip(promotion.discount_amount);
    lemma_text_round_trip(promotion.item_price);
    lemma_text_round_trip(promotion.monthly_price);
    lemma_text_round_trip(promotion.final_price);
    lemma_text_round_trip(promotion.final_price_distance);
}

/// No two members of a snapshot's object have the same key.
proof fn lemma_product_keys_differ(product: ProductView)
    ensures
        product.members().len() == 21,
        forall|i: int, j: int|
            0 <= i < j < 21 ==> (#[trigger] product.members()[i]).key != (
            #[trigger] product.members()[j]).key,
{
    reveal_strlit("product_id");
    reveal_strlit("title");
    reveal_strlit("brand");
    reveal_strlit("color");
    reveal_strlit("time_recorded_utc");
    reveal_strlit("time_recorded_gmt_minus_6");
    reveal_strlit("last_modified_time");
    reveal_strlit("creation_date");
    reveal_strlit("max_promo_price");
    reveal_strlit("min_promo_price");
    reveal_strlit("max_list_price");
    reveal_strlit("min_list_price");
    reveal_strlit("discount_percentage");
    reveal_strlit("promo_price");
    reveal_strlit("sale_price");
    reveal_strlit("list_price");
    reveal_strlit("sort_price");
    reveal_strlit("last_modified_by_whom");
    reveal_strlit("rating_average");
    reveal_strlit("rating_count");
    reveal_strlit("promotions");
    let members = product.members();
    assert(members[0].key.len() == 10 && members[0].key[0] == 'p' && members[0].key[3] == 'd');
    assert(members[1].key.len() == 5 && members[1].key[0] == 't');
    assert(members[2].key.len() == 5 && members[2].key[0] == 'b');
    assert(members[3].key.len() == 5 && members[3].key[0] == 'c');
    assert(members[4].key.len() == 17);
    assert(members[5].key.len() == 25);
    assert(members[6].key.len() == 18);
    assert(members[7].key.len() == 13);
    assert(members[8].key.len() == 15 && members[8].key[1] == 'a');
    assert(members[9].key.len() == 15 && members[9].key[1] == 'i');
    assert(members[10].key.len() == 14 && members[10].key[0] == 'm' && members[10].key[1] == 'a');
    assert(members[11].key.len() == 14 && members[11].key[0] == 'm' && members[11].key[1] == 'i');
    assert(members[12].key.len() == 19);
    assert(members[13].key.len() == 11);
    assert(members[14].key.len() == 10 && members[14].key[0] == 's' && members[14].key[1] == 'a');
    assert(members[15].key.len() == 10 && members[15].key[0] == 'l');
    assert(members[16].key.len() == 10 && members[16].key[0] == 's' && members[16].key[1] == 'o');
    assert(members[17].key.len() == 21);
    assert(members[18].key.len() == 14 && members[18].key[0] == 'r');
    assert(members[19].key.len() == 12);
    assert(members[20].key.len() == 10 && members[20].key[0] == 'p' && members[20].key[3] == 'm');
}

/// Each field of a snapshot can be read back from its JSON object, under its
/// own name, as the value that was written; the promotions stand under
/// `promotions`, each as its own object, in their order.
pub proof fn lemma_product_round_trip(product: ProductView)
    ensures
        count_under(product.json(), "product_id"@) == Some(product.product_id),
        text_under(product.json(), "title"@) == Some(product.title),
        text_under(product.json(), "brand"@) == Some(product.brand),
        text_under(product.json(), "color"@) == Some(product.color),
        text_under(product.json(), "time_recorded_utc"@) == Some(product.time_recorded_utc),
        text_under(product.json(), "time_recorded_gmt_minus_6"@) == Some(
            product.time_recorded_gmt_minus_6,
        ),
        text_under(product.json(), "last_modified_time"@) == Some(product.last_modified_time),
        text_under(product.json(), "creation_date"@) == Some(product.creation_date),
        decimal_under(product.json(), "max_promo_price"@) == Some(product.max_promo_price),
        decimal_under(product.json(), "min_promo_price"@) == Some(product.min_promo_price),
        decimal_under(product.json(), "max_list_price"@) == Some(product.max_list_price),
        decimal_under(product.json(), "min_list_price"@) == Some(product.min_list_price),
        decimal_under(product.json(), "discount_percentage"@) == Some(product.discount_percentage),
        decimal_under(product.json(), "promo_price"@) == Some(product.promo_price),
        decimal_under(product.json(), "sale_price"@) == Some(product.sale_price),
        decimal_under(product.json(), "list_price"@) == Some(product.list_price),
        decimal_under(product.json(), "sort_price"@) == Some(product.sort_price),
        text_under(product.json(), "last_modified_by_whom"@) == Some(product.last_modified_by_whom),
        decimal_under(product.json(), "rating_average"@) == Some(product.rating_average),
        count_under(product.json(), "rating_count"@) == Some(product.rating_count),
        product.json().member("promotions"@) == Some(
            JsonValue::Array(promotions_json(product.promotions)),
        ),
        promotions_json(product.promotions).len() == product.promotions.len(),
        forall|k: int|
            0 <= k < product.promotions.len() ==> (#[trigger] promotions_json(
                product.promotions,
            )[k]) == product.promotions[k].json(),
{
    let members = product.members();
    lemma_product_keys_differ(product);
    assert forall|i: int| 0 <= i < 21 implies first_member(members, (#[trigger] members[i]).key)
        == Some(members[i].value) by {
        lemma_first_member_at(members, i);
    }
    assert(members[0].key == "product_id"@);
    assert(members[1].key == "title"@);
    assert(members[2].key == "brand"@);
    assert(members[3].key == "color"@);
    assert(members[4].key == "time_recorded_utc"@);
    assert(members[5].key == "time_recorded_gmt_minus_6"@);
    assert(members[6].key == "last_modified_time"@);
    assert(members[7].key == "creation_date"@);
    assert(members[8].key == "max_promo_price"@);
    assert(members[9].key == "min_promo_price"@);
    assert(members[10].key == "max_list_price"@);
    assert(members[11].key == "min_list_price"@);
    assert(members[12].key == "discount_percentage"@);
    assert(members[13].key == "promo_price"@);
    assert(members[14].key == "sale_price"@);
    assert(members[15].key == "list_price"@);
    assert(members[16].key == "sort_price"@);
    assert(members[17].key == "last_modified_by_whom"@);
    assert(members[18].key == "rating_average"@);
    assert(members[19].key == "rating_count"@);
    assert(members[20].key == "promotions"@);
    lemma_digits_of(product.product_id);
    lemma_digits_of(product.rating_count);
    lemma_text_round_trip(product.max_promo_price);
    lemma_text_round_trip(product.min_promo_price);
    lemma_text_round_trip(product.max_list_price);
    lemma_text_round_trip(product.min_list_price);
    lemma_text_round_trip(product.discount_percentage);
    lemma_text_round_trip(product.promo_price);
    lemma_text_round_trip(product.sale_price);
    lemma_text_round_trip(product.list_price);
    lemma_text_round_trip(product.sort_price);
    lemma_text_round_trip(product.rating_average);
}

/// Makes the member that holds a count.
fn count_member(key: &str, count: usize) -> (member: Member)
    ensures
        member@ == member_of(key@, count_json(count as nat)),
{
    Member { key: key.to_owned(), value: Json::Number(render_count(count as u64)) }
}

/// Makes the member that holds a decimal number.
fn decimal_member(key: &str, number: &Decimal) -> (member: Member)
    ensures
        member@ == member_of(key@, decimal_json(*number)),
{
    Member { key: key.to_owned(), value: Json::Number(number.to_text()) }
}

/// Makes the member that holds a string.
fn text_member(key: &str, text: &String) -> (member: Member)
    ensures
        member@ == member_of(key@, JsonValue::Text(text@)),
{
    Member { key: key.to_owned(), value: Json::Text(text.clone()) }
}

impl Promotion {
    /// Renders the promotion as a JSON object.
    pub fn to_json(&self) -> (tree: Json)
        ensures
            tree@ == self@.json(),
    {
        let mut members: Vec<Member> = Vec::new();
        members.push(count_member("months", self.months));
        members.push(text_member("promoType", &self.promo_type));
        members.push(text_member("promoDesc", &self.promo_desc));
        members.push(count_member("minPurchaseAmount", self.min_purchase_amount));
        members.push(count_member("minPurchaseUnit", self.min_purchase_unit));
        members.push(count_member("discountUnit", self.discount_unit));
        members.push(decimal_member("discountAmount", &self.discount_amount));
        members.push(count_member("promoCode", self.promo_code));
        members.push(decimal_member("itemPrice", &self.item_price));
        members.push(decimal_member("monthlyPrice", &self.monthly_price));
        members.push(decimal_member("final_price", &self.final_price));
        members.push(decimal_member("final_price_distance", &self.final_price_distance));
        members.push(
            Member { key: "different_price".to_owned(), value: Json::Bool(self.different_price) },
        );
        proof {
            lemma_members_view(members@);
            assert(crate::json::members_view(members@) =~= self@.members());
        }
        Json::Object(members)
    }
}

impl Product {
    /// Renders the snapshot as a JSON object.
    pub fn to_json(&self) -> (tree: Json)
        ensures
            tree@ == self@.json(),
    {
        let mut promotions: Vec<Json> = Vec::new();
        let mut i: usize = 0;
        while i < self.promotions.len()
            invariant
                i <= self.promotions.len(),
                promotions.len() == i,
                forall|k: int| 0 <= k < i ==> (#[trigger] promotions@[k])@ == self.promotions@[k]@.json(),
            decreases self.promotions.len() - i,
        {
            promotions.push(self.promotions[i].to_json());
            i += 1;
        }
        proof {
            lemma_nodes_view(promotions@);
            assert(crate::json::nodes_view(promotions@) =~= promotions_json(
                promotions_view(self.promotions@),
            ));
        }
        let mut members: Vec<Member> = Vec::new();
        members.push(count_member("product_id", self.product_id));
        members.push(text_member("title", &self.title));
        members.push(text_member("brand", &self.brand));
        members.push(text_member("color", &self.color));
        members.push(text_member("time_recorded_utc", &self.time_recorded_utc));
        members.push(text_member("time_recorded_gmt_minus_6", &self.time_recorded_gmt_minus_6));
        members.push(text_member("last_modified_time", &self.last_modified_time));
        members.push(text_member("creation_date", &self.creation_date));
        members.push(decimal_member("max_promo_price", &self.max_promo_price));
        members.push(decimal_member("min_promo_price", &self.min_promo_price));
        members.push(decimal_member("max_list_price", &self.max_list_price));
        members.push(decimal_member("min_list_price", &self.min_list_price));
        members.push(decimal_member("discount_percentage", &self.discount_percentage));
        members.push(decimal_member("promo_price", &self.promo_price));
        members.push(decimal_member("sale_price", &self.sale_price));
        members.push(decimal_member("list_price", &self.list_price));
        members.push(decimal_member("sort_price", &self.sort_price));
        members.push(text_member("last_modified_by_whom", &self.last_modified_by_whom));
        members.push(decimal_member("rating_average", &self.rating_average));
        members.push(count_member("rating_count", self.rating_count));
        members.push(Member { key: "promotions".to_owned(), value: Json::Array(promotions) });
        proof {
            lemma_members_view(members@);
            assert(crate::json::members_view(members@) =~= self@.members());
        }
        Json::Object(members)
    }
}

} // verus!
