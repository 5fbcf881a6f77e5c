use bose_extract_deals::clock::Instant;
use bose_extract_deals::decimal::Decimal;
use bose_extract_deals::errors::AppError;
use bose_extract_deals::json::{parse_json, Json, Member};
use bose_extract_deals::product_extractor::{
    assemble_product, coerce_count, coerce_decimal, coerce_number, convert_to_decimal,
    convert_to_numeric, extract_product, extract_product_at, extract_value, navigate,
};

const EPOCH: Instant = Instant { seconds: 0, nanoseconds: 0 };

fn promotion_entry(months: &str, promo_type: &str, monthly_price: &str, item_price: &str) -> String {
    format!(
        "{{\"months\":\"{}\",\"promoType\":\"{}\",\"promoDesc\":\"{} meses\",\
         \"minPurchaseAmount\":\"3000\",\"minPurchaseUnit\":\"1\",\"discountUnit\":\"2\",\
         \"discountAmount\":\"0.0\",\"promoCode\":\"10043\",\"itemPrice\":\"{}\",\
         \"monthlyPrice\":\"{}\"}}",
        months, promo_type, months, item_price, monthly_price
    )
}

fn payload_with(metadata_head: &str, promotions: &str) -> String {
    format!(
        "{{\"props\":{{}},\"query\":{{\"data\":{{\"mainContent\":{{\"records\":[{{\"allMeta\":{{\
         {}\"title\":\"Aud\u{ed}fonos QuietComfort Ultra\",\"brand\":\"BOSE\",\
         \"lastmodifiedTime\":\"2024-05-01 10:00:00\",\"creationDate\":\"2023-10-19\",\
         \"maximumPromoPrice\":8499.5,\"minimumPromoPrice\":8499,\
         \"maximumListPrice\":9999.0,\"minimumListPrice\":9999,\
         \"lastmodifiedByWhom\":\"catalog\",\
         \"ratingInfo\":{{\"productAvgRating\":\"4.7907\",\"productRatingCount\":\"43\"}},\
         \"variants\":[{{\"color\":\"Sandstone\",\
         \"prices\":{{\"discountPercentage\":\"15.0\",\"promoPrice\":\"8499.0\",\
         \"salePrice\":\"9999.0\",\"listPrice\":\"9999.0\",\"sortPrice\":\"8499.0\"}},\
         \"liverpoolPromotionsEMI\":[{}]}},{{\"color\":\"Black\"}}]}}}}]}}}}}}}}",
        metadata_head, promotions
    )
}

fn payload(promotions: &str) -> String {
    payload_with("\"productId\":\"1150870956\",", promotions)
}

fn text(value: &str) -> Json {
    Json::Text(value.to_string())
}

fn object(members: Vec<(&str, Json)>) -> Json {
    Json::Object(
        members
            .into_iter()
            .map(|(key, value)| Member { key: key.to_string(), value })
            .collect(),
    )
}

#[test]
fn documents_are_read_into_trees() {
    let tree = parse_json("{\"b\":[1,-2,2.50,true,null,\"x\"],\"a\":{\"k\":\"v\"}}").unwrap();
    let Json::Object(members) = tree else { panic!("not an object") };
    assert_eq!(members.len(), 2);
    let b = members.iter().find(|member| member.key == "b").unwrap();
    let Json::Array(items) = &b.value else { panic!("not an array") };
    assert_eq!(items.len(), 6);
    assert!(matches!(&items[0], Json::Number(text) if text == "1"));
    assert!(matches!(&items[1], Json::Number(text) if text == "-2"));
    assert!(matches!(&items[2], Json::Number(text) if text == "2.50"));
    assert!(matches!(&items[3], Json::Bool(true)));
    assert!(matches!(&items[4], Json::Null));
    assert!(matches!(&items[5], Json::Text(text) if text == "x"));
    let a = members.iter().find(|member| member.key == "a").unwrap();
    assert!(matches!(a.value.get("k"), Some(Json::Text(text)) if text == "v"));
}

#[test]
fn text_that_is_no_document_is_refused() {
    assert!(parse_json("{\"a\":").is_err());
    assert!(parse_json("").is_err());
    assert!(parse_json("{} trailing").is_err());
    assert!(matches!(
        extract_product_at("<html>", EPOCH),
        Err(AppError::SerdeJson(_))
    ));
}

#[test]
fn lookup_takes_the_first_member_of_that_name() {
    let tree = object(vec![("k", text("first")), ("other", Json::Null), ("k", text("second"))]);
    assert!(matches!(tree.get("k"), Some(Json::Text(value)) if value == "first"));
    assert!(matches!(tree.get("other"), Some(Json::Null)));
    assert!(tree.get("absent").is_none());
    assert!(text("k").get("k").is_none());
    assert!(Json::Array(vec![text("k")]).get("k").is_none());
}

#[test]
fn strings_are_extracted() {
    let data = object(vec![("title", text("QC Ultra")), ("count", Json::Number("3".to_string()))]);
    assert_eq!(extract_value(&data, "title").unwrap(), "QC Ultra");
    assert!(matches!(
        extract_value(&data, "brand"),
        Err(AppError::ExtractionFailed(key)) if key == "brand"
    ));
    assert!(matches!(
        extract_value(&data, "count"),
        Err(AppError::ExtractionFailed(key)) if key == "count"
    ));
    assert!(matches!(
        extract_value(&Json::Null, "title"),
        Err(AppError::ExtractionFailed(key)) if key == "title"
    ));
}

#[test]
fn numeric_text_is_converted() {
    assert_eq!(convert_to_numeric("1150870956", "productId").unwrap(), 1150870956);
    assert!(matches!(
        convert_to_numeric("12x", "months"),
        Err(AppError::CoercionFailed(key, raw)) if key == "months" && raw == "12x"
    ));
    assert_eq!(
        convert_to_decimal("8499.0", "promoPrice").unwrap(),
        Decimal { negative: false, coefficient: 84990, scale: 1 }
    );
    assert!(matches!(
        convert_to_decimal("8,499.0", "promoPrice"),
        Err(AppError::CoercionFailed(key, raw)) if key == "promoPrice" && raw == "8,499.0"
    ));
    assert!(matches!(
        convert_to_decimal("", "promoPrice"),
        Err(AppError::CoercionFailed(key, raw)) if key == "promoPrice" && raw.is_empty()
    ));
}

#[test]
fn fields_are_coerced_by_shape() {
    let data = object(vec![
        ("count", text("43")),
        ("rate", text("4.7907")),
        ("price", Json::Number("8499.5".to_string())),
        ("whole", Json::Number("8499".to_string())),
        ("huge", Json::Number("1e21".to_string())),
    ]);
    assert_eq!(coerce_count(&data, "count").unwrap(), 43);
    assert_eq!(
        coerce_decimal(&data, "rate").unwrap(),
        Decimal { negative: false, coefficient: 47907, scale: 4 }
    );
    assert_eq!(
        coerce_number(&data, "price").unwrap(),
        Decimal { negative: false, coefficient: 84995, scale: 1 }
    );
    assert_eq!(
        coerce_number(&data, "whole").unwrap(),
        Decimal { negative: false, coefficient: 8499, scale: 0 }
    );
    assert!(matches!(
        coerce_count(&data, "rate"),
        Err(AppError::CoercionFailed(key, raw)) if key == "rate" && raw == "4.7907"
    ));
    assert!(matches!(
        coerce_count(&data, "price"),
        Err(AppError::ExtractionFailed(key)) if key == "price"
    ));
    assert!(matches!(
        coerce_decimal(&data, "absent"),
        Err(AppError::ExtractionFailed(key)) if key == "absent"
    ));
    assert!(matches!(
        coerce_number(&data, "rate"),
        Err(AppError::ExtractionFailed(key)) if key == "rate"
    ));
    assert!(matches!(
        coerce_number(&data, "huge"),
        Err(AppError::CoercionFailed(key, raw)) if key == "huge" && raw == "1e21"
    ));
}

#[test]
fn product_is_extracted_field_for_field() {
    let promotions = [
        promotion_entry("24", "PD", "45.0", "1080.0"),
        promotion_entry("10", "MSI", "50.0", "520.0"),
    ]
    .join(",");
    let product = extract_product_at(&payload(&promotions), EPOCH).unwrap();
    assert_eq!(product.product_id, 1150870956);
    assert_eq!(product.title, "Aud\u{ed}fonos QuietComfort Ultra");
    assert_eq!(product.brand, "BOSE");
    assert_eq!(product.color, "Sandstone");
    assert_eq!(product.last_modified_time, "2024-05-01 10:00:00");
    assert_eq!(product.creation_date, "2023-10-19");
    assert_eq!(product.max_promo_price, Decimal::parse("8499.5").unwrap());
    assert_eq!(product.min_promo_price, Decimal::parse("8499").unwrap());
    assert_eq!(product.max_list_price, Decimal::parse("9999.0").unwrap());
    assert_eq!(product.min_list_price, Decimal::parse("9999").unwrap());
    assert_eq!(product.discount_percentage, Decimal::parse("15.0").unwrap());
    assert_eq!(product.promo_price, Decimal::parse("8499.0").unwrap());
    assert_eq!(product.sale_price, Decimal::parse("9999.0").unwrap());
    assert_eq!(product.list_price, Decimal::parse("9999.0").unwrap());
    assert_eq!(product.sort_price, Decimal::parse("8499.0").unwrap());
    assert_eq!(product.last_modified_by_whom, "catalog");
    assert_eq!(product.rating_average, Decimal::parse("4.7907").unwrap());
    assert_eq!(product.rating_count, 43);
    assert_eq!(product.promotions.len(), 2);
    assert_eq!(product.promotions[0].months, 24);
    assert_eq!(product.promotions[0].promo_type, "PD");
    assert_eq!(product.promotions[0].promo_desc, "24 meses");
    assert_eq!(product.promotions[0].min_purchase_amount, 3000);
    assert_eq!(product.promotions[0].min_purchase_unit, 1);
    assert_eq!(product.promotions[0].discount_unit, 2);
    assert_eq!(product.promotions[0].discount_amount, Decimal::parse("0.0").unwrap());
    assert_eq!(product.promotions[0].promo_code, 10043);
    assert_eq!(product.promotions[1].months, 10);
    assert_eq!(product.promotions[1].promo_type, "MSI");
}

#[test]
fn timestamps_render_one_instant_in_two_zones() {
    let product = extract_product_at(&payload(""), EPOCH).unwrap();
    assert_eq!(product.time_recorded_utc, "1970-01-01T00:00:00+00:00");
    assert_eq!(product.time_recorded_gmt_minus_6, "1969-12-31T18:00:00-06:00");
    let later = Instant { seconds: 1_700_000_000, nanoseconds: 123_000_000 };
    let product = extract_product_at(&payload(""), later).unwrap();
    assert_eq!(product.time_recorded_utc, "2023-11-14T22:13:20.123+00:00");
    assert_eq!(product.time_recorded_gmt_minus_6, "2023-11-14T16:13:20.123-06:00");
}

#[test]
fn an_instant_that_cannot_be_rendered_is_a_timezone_error() {
    let never = Instant { seconds: i64::MAX, nanoseconds: 0 };
    assert!(matches!(
        extract_product_at(&payload(""), never),
        Err(AppError::TimezoneError)
    ));
    let broken = payload_with("", "");
    assert!(matches!(
        extract_product_at(&broken, never),
        Err(AppError::ExtractionFailed(key)) if key == "productId"
    ));
}

#[test]
fn extraction_stamps_the_current_time() {
    let product = extract_product(&payload("")).unwrap();
    assert!(product.time_recorded_utc.ends_with("+00:00"));
    assert!(product.time_recorded_gmt_minus_6.ends_with("-06:00"));
    assert!(product.time_recorded_utc.starts_with("20"));
    assert!(product.promotions.is_empty());
}

#[test]
fn assembly_takes_the_stamps_it_is_given() {
    let document = parse_json(&payload("")).unwrap();
    let fields = navigate(&document).unwrap();
    let product = assemble_product(&fields, "utc".to_string(), "local".to_string()).unwrap();
    assert_eq!(product.time_recorded_utc, "utc");
    assert_eq!(product.time_recorded_gmt_minus_6, "local");
    assert_eq!(product.product_id, 1150870956);
}

#[test]
fn missing_product_id_aborts_extraction() {
    let outcome = extract_product_at(&payload_with("", ""), EPOCH);
    assert!(matches!(
        outcome,
        Err(AppError::ExtractionFailed(key)) if key == "productId"
    ));
}

#[test]
fn malformed_product_id_is_reported_with_its_text() {
    let outcome = extract_product_at(&payload_with("\"productId\":\"11-50\",", ""), EPOCH);
    assert!(matches!(
        outcome,
        Err(AppError::CoercionFailed(key, raw)) if key == "productId" && raw == "11-50"
    ));
}

#[test]
fn the_first_failing_field_is_reported() {
    let without_brand = payload("").replace("\"brand\":\"BOSE\",", "");
    assert!(matches!(
        extract_product_at(&without_brand, EPOCH),
        Err(AppError::ExtractionFailed(key)) if key == "brand"
    ));
    let two_faults = payload("")
        .replace("\"salePrice\":\"9999.0\"", "\"salePrice\":\"n/a\"")
        .replace("\"color\":\"Sandstone\",", "");
    assert!(matches!(
        extract_product_at(&two_faults, EPOCH),
        Err(AppError::ExtractionFailed(key)) if key == "color"
    ));
    let bad_price = payload("").replace("\"salePrice\":\"9999.0\"", "\"salePrice\":\"n/a\"");
    assert!(matches!(
        extract_product_at(&bad_price, EPOCH),
        Err(AppError::CoercionFailed(key, raw)) if key == "salePrice" && raw == "n/a"
    ));
    let price_as_text = payload("").replace("\"maximumPromoPrice\":8499.5", "\"maximumPromoPrice\":\"8499.5\"");
    assert!(matches!(
        extract_product_at(&price_as_text, EPOCH),
        Err(AppError::ExtractionFailed(key)) if key == "maximumPromoPrice"
    ));
}

#[test]
fn each_step_of_the_descent_names_what_it_misses() {
    let cases = [
        ("{}", "query"),
        ("{\"query\":{}}", "data"),
        ("{\"query\":[]}", "data"),
        ("{\"query\":{\"data\":{}}}", "mainContent"),
        ("{\"query\":{\"data\":{\"mainContent\":[]}}}", "mainContent"),
        ("{\"query\":{\"data\":{\"mainContent\":{}}}}", "records"),
        ("{\"query\":{\"data\":{\"mainContent\":{\"records\":{}}}}}", "records"),
        ("{\"query\":{\"data\":{\"mainContent\":{\"records\":[]}}}}", "records[0]"),
        ("{\"query\":{\"data\":{\"mainContent\":{\"records\":[{}]}}}}", "allMeta"),
        ("{\"query\":{\"data\":{\"mainContent\":{\"records\":[{\"allMeta\":{}}]}}}}", "ratingInfo"),
        (
            "{\"query\":{\"data\":{\"mainContent\":{\"records\":[{\"allMeta\":{\"ratingInfo\":{}}}]}}}}",
            "variants",
        ),
        (
            "{\"query\":{\"data\":{\"mainContent\":{\"records\":[{\"allMeta\":{\"ratingInfo\":{},\"variants\":[]}}]}}}}",
            "variants[0]",
        ),
        (
            "{\"query\":{\"data\":{\"mainContent\":{\"records\":[{\"allMeta\":{\"ratingInfo\":{},\"variants\":[7]}}]}}}}",
            "variants[0]",
        ),
        (
            "{\"query\":{\"data\":{\"mainContent\":{\"records\":[{\"allMeta\":{\"ratingInfo\":{},\"variants\":[{}]}}]}}}}",
            "prices",
        ),
        (
            "{\"query\":{\"data\":{\"mainContent\":{\"records\":[{\"allMeta\":{\"ratingInfo\":{},\"variants\":[{\"prices\":{}}]}}]}}}}",
            "liverpoolPromotionsEMI",
        ),
    ];
    for (document, missing) in cases {
        let tree = parse_json(document).unwrap();
        match navigate(&tree) {
            Err(AppError::MissingField(name)) => assert_eq!(name, missing, "{}", document),
            other => panic!("{}: {:?}", document, other.map(|_| ())),
        }
        assert!(matches!(
            extract_product_at(document, EPOCH),
            Err(AppError::MissingField(name)) if name == missing
        ));
    }
}

#[test]
fn descent_reaches_the_first_record_and_the_first_variant() {
    let document = parse_json(&payload(&promotion_entry("3", "MSI", "1.0", "3.0"))).unwrap();
    let fields = navigate(&document).unwrap();
    assert!(matches!(fields.metadata.get("brand"), Some(Json::Text(brand)) if brand == "BOSE"));
    assert!(fields.ratings.get("productRatingCount").is_some());
    assert!(matches!(fields.variant.get("color"), Some(Json::Text(color)) if color == "Sandstone"));
    assert!(fields.prices.get("sortPrice").is_some());
    assert_eq!(fields.promotions.len(), 1);
}

#[test]
fn an_empty_promotions_array_is_no_error() {
    let product = extract_product_at(&payload(""), EPOCH).unwrap();
    assert!(product.promotions.is_empty());
}
