use bose_extract_deals::clock::Instant;
use bose_extract_deals::decimal::Decimal;
use bose_extract_deals::errors::{AppError, Marker};
use bose_extract_deals::json::{parse_json, Json};
use bose_extract_deals::product_extractor::{coerce_number, extract_product_at, extract_value};
use bose_extract_deals::text::render_count;

fn sample_payload() -> String {
    let promotion = "{\"months\":\"12\",\"promoType\":\"PD\",\"promoDesc\":\"12 meses\",\
                     \"minPurchaseAmount\":\"3000\",\"minPurchaseUnit\":\"1\",\"discountUnit\":\"2\",\
                     \"discountAmount\":\"15.5\",\"promoCode\":\"10043\",\"itemPrice\":\"1220.50\",\
                     \"monthlyPrice\":\"100.00\"}";
    format!(
        "{{\"query\":{{\"data\":{{\"mainContent\":{{\"records\":[{{\"allMeta\":{{\
         \"productId\":\"1150870956\",\"title\":\"QC \\\"Ultra\\\"\",\"brand\":\"BOSE\",\
         \"lastmodifiedTime\":\"2024-05-01\",\"creationDate\":\"2023-10-19\",\
         \"maximumPromoPrice\":8499.5,\"minimumPromoPrice\":8499,\
         \"maximumListPrice\":9999.0,\"minimumListPrice\":0.05,\"lastmodifiedByWhom\":\"catalog\",\
         \"ratingInfo\":{{\"productAvgRating\":\"4.7907\",\"productRatingCount\":\"43\"}},\
         \"variants\":[{{\"color\":\"Sandstone\",\"prices\":{{\"discountPercentage\":\"15.0\",\
         \"promoPrice\":\"8499.0\",\"salePrice\":\"9999.0\",\"listPrice\":\"9999.0\",\
         \"sortPrice\":\"-0.5\"}},\"liverpoolPromotionsEMI\":[{}]}}]}}}}]}}}}}}}}",
        promotion
    )
}

fn number_under<'a>(tree: &'a Json, key: &str) -> &'a str {
    match tree.get(key) {
        Some(Json::Number(text)) => text,
        other => panic!("{}: {:?}", key, other),
    }
}

#[test]
fn counts_are_written_in_base_ten() {
    assert_eq!(render_count(0), "0");
    assert_eq!(render_count(7), "7");
    assert_eq!(render_count(10), "10");
    assert_eq!(render_count(1150870956), "1150870956");
    assert_eq!(render_count(u64::MAX), "18446744073709551615");
}

#[test]
fn decimals_are_written_with_their_scale() {
    let cases = [
        ((false, 10800, 1), "1080.0"),
        ((false, 5, 2), "0.05"),
        ((false, 5, 0), "5"),
        ((false, 0, 0), "0"),
        ((false, 0, 3), "0.000"),
        ((true, 125, 1), "-12.5"),
        ((true, 0, 1), "-0.0"),
        ((false, 123, 3), "0.123"),
        ((false, 1234, 3), "1.234"),
        ((false, 7, 5), "0.00007"),
    ];
    for ((negative, coefficient, scale), text) in cases {
        let number = Decimal { negative, coefficient, scale };
        assert_eq!(number.to_text(), text);
        assert_eq!(Decimal::parse(text), Some(number));
    }
}

#[test]
fn written_decimals_read_back() {
    for text in ["45.0", "1080", "0.05", "-12.50", "18446744073709551615", "0.000000001"] {
        let number = Decimal::parse(text).unwrap();
        assert_eq!(Decimal::parse(&number.to_text()), Some(number));
        assert_eq!(number.to_text(), text);
    }
    let tiny = Decimal { negative: false, coefficient: 1, scale: 255 };
    assert_eq!(tiny.to_text().len(), 257);
    assert_eq!(Decimal::parse(&tiny.to_text()), Some(tiny));
}

#[test]
fn snapshot_is_rendered_under_the_documented_names() {
    let product = extract_product_at(&sample_payload(), Instant { seconds: 0, nanoseconds: 0 }).unwrap();
    let tree = product.to_json();
    let Json::Object(members) = &tree else { panic!("not an object") };
    let keys: Vec<&str> = members.iter().map(|member| member.key.as_str()).collect();
    assert_eq!(
        keys,
        vec![
            "product_id",
            "title",
            "brand",
            "color",
            "time_recorded_utc",
            "time_recorded_gmt_minus_6",
            "last_modified_time",
            "creation_date",
            "max_promo_price",
            "min_promo_price",
            "max_list_price",
            "min_list_price",
            "discount_percentage",
            "promo_price",
            "sale_price",
            "list_price",
            "sort_price",
            "last_modified_by_whom",
            "rating_average",
            "rating_count",
            "promotions",
        ]
    );
    assert_eq!(number_under(&tree, "product_id"), "1150870956");
    assert_eq!(extract_value(&tree, "title").unwrap(), "QC \"Ultra\"");
    assert_eq!(extract_value(&tree, "time_recorded_utc").unwrap(), "1970-01-01T00:00:00+00:00");
    assert_eq!(
        extract_value(&tree, "time_recorded_gmt_minus_6").unwrap(),
        "1969-12-31T18:00:00-06:00"
    );
    assert_eq!(number_under(&tree, "max_promo_price"), "8499.5");
    assert_eq!(number_under(&tree, "min_promo_price"), "8499");
    assert_eq!(number_under(&tree, "min_list_price"), "0.05");
    assert_eq!(number_under(&tree, "sort_price"), "-0.5");
    assert_eq!(number_under(&tree, "rating_average"), "4.7907");
    assert_eq!(number_under(&tree, "rating_count"), "43");
    let Some(Json::Array(promotions)) = tree.get("promotions") else { panic!("no promotions") };
    assert_eq!(promotions.len(), 1);
    let Json::Object(members) = &promotions[0] else { panic!("not an object") };
    let keys: Vec<&str> = members.iter().map(|member| member.key.as_str()).collect();
    assert_eq!(
        keys,
        vec![
            "months",
            "promoType",
            "promoDesc",
            "minPurchaseAmount",
            "minPurchaseUnit",
            "discountUnit",
            "discountAmount",
            "promoCode",
            "itemPrice",
            "monthlyPrice",
            "final_price",
            "final_price_distance",
            "different_price",
        ]
    );
    assert_eq!(number_under(&promotions[0], "months"), "12");
    assert_eq!(extract_value(&promotions[0], "promoType").unwrap(), "PD");
    assert_eq!(number_under(&promotions[0], "discountAmount"), "15.5");
    assert_eq!(number_under(&promotions[0], "itemPrice"), "1220.50");
    assert_eq!(number_under(&promotions[0], "final_price"), "1200.00");
    assert_eq!(number_under(&promotions[0], "final_price_distance"), "20.50");
    assert!(matches!(promotions[0].get("different_price"), Some(Json::Bool(true))));
}

#[test]
fn every_field_reads_back_from_the_rendered_snapshot() {
    let product = extract_product_at(&sample_payload(), Instant { seconds: 5, nanoseconds: 0 }).unwrap();
    let tree = product.to_json();
    assert_eq!(
        coerce_number(&tree, "product_id").unwrap(),
        Decimal { negative: false, coefficient: product.product_id as u64, scale: 0 }
    );
    assert_eq!(extract_value(&tree, "title").unwrap(), product.title);
    assert_eq!(extract_value(&tree, "brand").unwrap(), product.brand);
    assert_eq!(extract_value(&tree, "color").unwrap(), product.color);
    assert_eq!(extract_value(&tree, "time_recorded_utc").unwrap(), product.time_recorded_utc);
    assert_eq!(
        extract_value(&tree, "time_recorded_gmt_minus_6").unwrap(),
        product.time_recorded_gmt_minus_6
    );
    assert_eq!(extract_value(&tree, "last_modified_time").unwrap(), product.last_modified_time);
    assert_eq!(extract_value(&tree, "creation_date").unwrap(), product.creation_date);
    assert_eq!(coerce_number(&tree, "max_promo_price").unwrap(), product.max_promo_price);
    assert_eq!(coerce_number(&tree, "min_promo_price").unwrap(), product.min_promo_price);
    assert_eq!(coerce_number(&tree, "max_list_price").unwrap(), product.max_list_price);
    assert_eq!(coerce_number(&tree, "min_list_price").unwrap(), product.min_list_price);
    assert_eq!(coerce_number(&tree, "discount_percentage").unwrap(), product.discount_percentage);
    assert_eq!(coerce_number(&tree, "promo_price").unwrap(), product.promo_price);
    assert_eq!(coerce_number(&tree, "sale_price").unwrap(), product.sale_price);
    assert_eq!(coerce_number(&tree, "list_price").unwrap(), product.list_price);
    assert_eq!(coerce_number(&tree, "sort_price").unwrap(), product.sort_price);
    assert_eq!(
        extract_value(&tree, "last_modified_by_whom").unwrap(),
        product.last_modified_by_whom
    );
    assert_eq!(coerce_number(&tree, "rating_average").unwrap(), product.rating_average);
    assert_eq!(
        coerce_number(&tree, "rating_count").unwrap(),
        Decimal { negative: false, coefficient: product.rating_count as u64, scale: 0 }
    );
    let Some(Json::Array(promotions)) = tree.get("promotions") else { panic!("no promotions") };
    assert_eq!(promotions.len(), product.promotions.len());
    let written = &promotions[0];
    let promotion = &product.promotions[0];
    assert_eq!(
        coerce_number(written, "months").unwrap(),
        Decimal { negative: false, coefficient: promotion.months as u64, scale: 0 }
    );
    assert_eq!(extract_value(written, "promoDesc").unwrap(), promotion.promo_desc);
    assert_eq!(coerce_number(written, "monthlyPrice").unwrap(), promotion.monthly_price);
    assert_eq!(coerce_number(written, "final_price").unwrap(), promotion.final_price);
    assert_eq!(
        coerce_number(written, "final_price_distance").unwrap(),
        promotion.final_price_distance
    );
}

#[test]
fn failures_are_described_in_words() {
    assert_eq!(
        AppError::PayloadNotFound(Marker::Start).message(),
        "Start pattern not found"
    );
    assert_eq!(AppError::PayloadNotFound(Marker::End).message(), "End pattern not found");
    assert_eq!(
        AppError::MissingField("allMeta".to_string()).message(),
        "Failed to extract allMeta"
    );
    assert_eq!(
        AppError::ExtractionFailed("productId".to_string()).message(),
        "Failed to extract productId"
    );
    assert_eq!(
        AppError::CoercionFailed("months".to_string(), "nine".to_string()).message(),
        "Failed to convert 'nine' to numeric: months"
    );
    assert_eq!(AppError::TimezoneError.message(), "Invalid timezone offset");
    assert_eq!(AppError::General("anything".to_string()).message(), "anything");
    let unreadable = parse_json("{").unwrap_err();
    assert_eq!(AppError::SerdeJson(unreadable).message(), "Failed to parse JSON");
}

fn to_value(tree: &Json) -> serde_json::Value {
    match tree {
        Json::Null => serde_json::Value::Null,
        Json::Bool(flag) => serde_json::Value::Bool(*flag),
        Json::Number(text) => serde_json::from_str(text).unwrap(),
        Json::Text(text) => serde_json::Value::String(text.clone()),
        Json::Array(items) => serde_json::Value::Array(items.iter().map(to_value).collect()),
        Json::Object(members) => serde_json::Value::Object(
            members.iter().map(|member| (member.key.clone(), to_value(&member.value))).collect(),
        ),
    }
}

#[test]
fn snapshot_survives_being_written_as_text_and_read_again() {
    let product = extract_product_at(&sample_payload(), Instant { seconds: 9, nanoseconds: 5 }).unwrap();
    let written = serde_json::to_string(&to_value(&product.to_json())).unwrap();
    assert!(written.contains("\"product_id\":1150870956"));
    assert!(written.contains("\"itemPrice\":1220.50"));
    assert!(written.contains("\"different_price\":true"));
    let tree = parse_json(&written).unwrap();
    assert_eq!(number_under(&tree, "product_id"), product.product_id.to_string());
    assert_eq!(extract_value(&tree, "title").unwrap(), product.title);
    assert_eq!(extract_value(&tree, "brand").unwrap(), product.brand);
    assert_eq!(extract_value(&tree, "color").unwrap(), product.color);
    assert_eq!(extract_value(&tree, "time_recorded_utc").unwrap(), product.time_recorded_utc);
    assert_eq!(
        extract_value(&tree, "time_recorded_gmt_minus_6").unwrap(),
        product.time_recorded_gmt_minus_6
    );
    assert_eq!(extract_value(&tree, "last_modified_time").unwrap(), product.last_modified_time);
    assert_eq!(extract_value(&tree, "creation_date").unwrap(), product.creation_date);
    assert_eq!(coerce_number(&tree, "max_promo_price").unwrap(), product.max_promo_price);
    assert_eq!(coerce_number(&tree, "min_promo_price").unwrap(), product.min_promo_price);
    assert_eq!(coerce_number(&tree, "max_list_price").unwrap(), product.max_list_price);
    assert_eq!(coerce_number(&tree, "min_list_price").unwrap(), product.min_list_price);
    assert_eq!(coerce_number(&tree, "discount_percentage").unwrap(), product.discount_percentage);
    assert_eq!(coerce_number(&tree, "promo_price").unwrap(), product.promo_price);
    assert_eq!(coerce_number(&tree, "sale_price").unwrap(), product.sale_price);
    assert_eq!(coerce_number(&tree, "list_price").unwrap(), product.list_price);
    assert_eq!(coerce_number(&tree, "sort_price").unwrap(), product.sort_price);
    assert_eq!(
        extract_value(&tree, "last_modified_by_whom").unwrap(),
        product.last_modified_by_whom
    );
    assert_eq!(coerce_number(&tree, "rating_average").unwrap(), product.rating_average);
    assert_eq!(number_under(&tree, "rating_count"), product.rating_count.to_string());
    let Some(Json::Array(promotions)) = tree.get("promotions") else { panic!("no promotions") };
    assert_eq!(promotions.len(), product.promotions.len());
    for (read, promotion) in promotions.iter().zip(product.promotions.iter()) {
        assert_eq!(number_under(read, "months"), promotion.months.to_string());
        assert_eq!(extract_value(read, "promoType").unwrap(), promotion.promo_type);
        assert_eq!(extract_value(read, "promoDesc").unwrap(), promotion.promo_desc);
        assert_eq!(
            number_under(read, "minPurchaseAmount"),
            promotion.min_purchase_amount.to_string()
        );
        assert_eq!(number_under(read, "minPurchaseUnit"), promotion.min_purchase_unit.to_string());
        assert_eq!(number_under(read, "discountUnit"), promotion.discount_unit.to_string());
        assert_eq!(coerce_number(read, "discountAmount").unwrap(), promotion.discount_amount);
        assert_eq!(number_under(read, "promoCode"), promotion.promo_code.to_string());
        assert_eq!(coerce_number(read, "itemPrice").unwrap(), promotion.item_price);
        assert_eq!(coerce_number(read, "monthlyPrice").unwrap(), promotion.monthly_price);
        assert_eq!(coerce_number(read, "final_price").unwrap(), promotion.final_price);
        assert_eq!(
            coerce_number(read, "final_price_distance").unwrap(),
            promotion.final_price_distance
        );
        assert!(matches!(
            read.get("different_price"),
            Some(Json::Bool(flag)) if *flag == promotion.different_price
        ));
    }
}
