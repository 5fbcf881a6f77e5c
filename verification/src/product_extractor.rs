//! From the payload to the snapshot: descent through the document, coercion of
//! its fields, reconciliation of the promotions and assembly of the product.

use vstd::prelude::*;
use crate::decimal::{decimal_of, Decimal};
use crate::errors::{AppError, AppErrorView};
use crate::clock::{current_instant, render_rfc3339, rfc3339_at, Instant, LOCAL_OFFSET_WEST};
use crate::json::{json_document, lemma_nodes_view, nodes_view, parse_json, Json, JsonValue};
use crate::reconciler::{reconcile_promotions, reconciled_promotions};
use crate::structures::{Product, ProductView};
use crate::text::{count_of, parse_count};

verus! {

/// The string that `container` holds under `key`.
pub open spec fn text_field(container: JsonValue, key: Seq<char>) -> Result<
    Seq<char>,
    AppErrorView,
> {
    match container.member(key) {
        Some(JsonValue::Text(text)) => Ok(text),
        _ => Err(AppErrorView::ExtractionFailed(key)),
    }
}

/// The count that `value`, found under `key`, writes.
pub open spec fn count_from(value: Seq<char>, key: Seq<char>) -> Result<usize, AppErrorView> {
    match count_of(value) {
        Some(count) => Ok(count),
        None => Err(AppErrorView::CoercionFailed(key, value)),
    }
}

/// The decimal number that `value`, found under `key`, writes.
pub open spec fn decimal_from(value: Seq<char>, key: Seq<char>) -> Result<Decimal, AppErrorView> {
    match decimal_of(value) {
        Some(number) => Ok(number),
        None => Err(AppErrorView::CoercionFailed(key, value)),
    }
}

/// The count that `container` holds, as a string, under `key`.
pub open spec fn count_field(container: JsonValue, key: Seq<char>) -> Result<usize, AppErrorView> {
    match text_field(container, key) {
        Ok(text) => count_from(text, key),
        Err(error) => Err(error),
    }
}

/// The decimal number that `container` holds, as a string, under `key`.
pub open spec fn decimal_field(container: JsonValue, key: Seq<char>) -> Result<
    Decimal,
    AppErrorView,
> {
    match text_field(container, key) {
        Ok(text) => decimal_from(text, key),
        Err(error) => Err(error),
    }
}

/// The decimal number that `container` holds, as a JSON number, under `key`.
pub open spec fn number_field(container: JsonValue, key: Seq<char>) -> Result<
    Decimal,
    AppErrorView,
> {
    match container.member(key) {
        Some(JsonValue::Number(text)) => decimal_from(text, key),
        _ => Err(AppErrorView::ExtractionFailed(key)),
    }
}

/// Extracts the string stored under `key`.
pub fn extract_value(data: &Json, key: &str) -> (value: Result<String, AppError>)
    ensures
        match text_field(data@, key@) {
            Ok(text) => value matches Ok(found) && found@ == text,
            Err(error) => value matches Err(failure) && failure@ == error,
        },
{
    match data.get(key) {
        Some(node) => match node.as_str() {
            Some(text) => Ok(text.clone()),
            None => Err(AppError::ExtractionFailed(key.to_owned())),
        },
        None => Err(AppError::ExtractionFailed(key.to_owned())),
    }
}

/// Reads `value`, the text found under `key`, as an unsigned count.
pub fn convert_to_numeric(value: &str, key: &str) -> (count: Result<usize, AppError>)
    ensures
        match count_from(value@, key@) {
            Ok(number) => count == Ok::<usize, AppError>(number),
            Err(error) => count matches Err(failure) && failure@ == error,
        },
{
    match parse_count(value) {
        Some(count) => Ok(count),
        None => Err(AppError::CoercionFailed(key.to_owned(), value.to_owned())),
    }
}

/// Reads `value`, the text found under `key`, as a decimal number.
pub fn convert_to_decimal(value: &str, key: &str) -> (number: Result<Decimal, AppError>)
    ensures
        match decimal_from(value@, key@) {
            Ok(decimal) => number == Ok::<Decimal, AppError>(decimal),
            Err(error) => number matches Err(failure) && failure@ == error,
        },
{
    match Decimal::parse(value) {
        Some(number) => Ok(number),
        None => Err(AppError::CoercionFailed(key.to_owned(), value.to_owned())),
    }
}

/// Extracts the count stored, as a string, under `key`.
pub fn coerce_count(data: &Json, key: &str) -> (count: Result<usize, AppError>)
    ensures
        match count_field(data@, key@) {
            Ok(number) => count == Ok::<usize, AppError>(number),
            Err(error) => count matches Err(failure) && failure@ == error,
        },
{
    match extract_value(data, key) {
        Ok(text) => convert_to_numeric(text.as_str(), key),
        Err(error) => Err(error),
    }
}

/// Extracts the decimal number stored, as a string, under `key`.
pub fn coerce_decimal(data: &Json, key: &str) -> (number: Result<Decimal, AppError>)
    ensures
        match decimal_field(data@, key@) {
            Ok(decimal) => number == Ok::<Decimal, AppError>(decimal),
            Err(error) => number matches Err(failure) && failure@ == error,
        },
{
    match extract_value(data, key) {
        Ok(text) => convert_to_decimal(text.as_str(), key),
        Err(error) => Err(error),
    }
}

/// Extracts the decimal number stored, as a JSON number, under `key`.
pub fn coerce_number(data: &Json, key: &str) -> (number: Result<Decimal, AppError>)
    ensures
        match number_field(data@, key@) {
            Ok(decimal) => number == Ok::<Decimal, AppError>(decimal),
            Err(error) => number matches Err(failure) && failure@ == error,
        },
{
    match data.get(key) {
        Some(node) => match node.as_number() {
            Some(text) => convert_to_decimal(text.as_str(), key),
            None => Err(AppError::ExtractionFailed(key.to_owned())),
        },
        None => Err(AppError::ExtractionFailed(key.to_owned())),
    }
}

/// The places of the document that hold what the snapshot is made of.
#[derive(Debug)]
pub struct NavigatedFields<'a> {
    /// The product's metadata object.
    pub metadata: &'a Json,
    /// The rating object inside the metadata.
    pub ratings: &'a Json,
    /// The first variant of the product.
    pub variant: &'a Json,
    /// The prices object of that variant.
    pub prices: &'a Json,
    /// The raw promotions of that variant.
    pub promotions: &'a Vec<Json>,
}

/// The mathematical content of [`NavigatedFields`].
pub struct NavigatedView {
    pub metadata: JsonValue,
    pub ratings: JsonValue,
    pub variant: JsonValue,
    pub prices: JsonValue,
    pub promotions: Seq<JsonValue>,
}

impl<'a> View for NavigatedFields<'a> {
    type V = NavigatedView;

    open spec fn view(&self) -> NavigatedView {
        NavigatedView {
            metadata: self.metadata@,
            ratings: self.ratings@,
            variant: self.variant@,
            prices: self.prices@,
            promotions: nodes_view(self.promotions@),
        }
    }
}

/// The node that `parent` holds under `key`.
pub open spec fn node_at(parent: JsonValue, key: Seq<char>) -> Result<JsonValue, AppErrorView> {
    match parent.member(key) {
        Some(node) => Ok(node),
        None => Err(AppErrorView::MissingField(key)),
    }
}

/// The object that `parent` holds under `key`.
pub open spec fn object_at(parent: JsonValue, key: Seq<char>) -> Result<JsonValue, AppErrorView> {
    match parent.member(key) {
        Some(JsonValue::Object(members)) => Ok(JsonValue::Object(members)),
        _ => Err(AppErrorView::MissingField(key)),
    }
}

/// The elements of the array that `parent` holds under `key`.
pub open spec fn array_at(parent: JsonValue, key: Seq<char>) -> Result<
    Seq<JsonValue>,
    AppErrorView,
> {
    match parent.member(key) {
        Some(JsonValue::Array(items)) => Ok(items),
        _ => Err(AppErrorView::MissingField(key)),
    }
}

/// The first of `items`, reported as `name` where there is none.
pub open spec fn first_at(items: Seq<JsonValue>, name: Seq<char>) -> Result<
    JsonValue,
    AppErrorView,
> {
    if items.len() > 0 {
        Ok(items[0])
    } else {
        Err(AppErrorView::MissingField(name))
    }
}

/// The first of `items` where it is an object, reported as `name` otherwise.
pub open spec fn first_object_at(items: Seq<JsonValue>, name: Seq<char>) -> Result<
    JsonValue,
    AppErrorView,
> {
    if items.len() > 0 && items[0] is Object {
        Ok(items[0])
    } else {
        Err(AppErrorView::MissingField(name))
    }
}

/// The descent through `document` along the fixed path, step by step; the
/// first step that fails gives the error.
pub open spec fn navigated(document: JsonValue) -> Result<NavigatedView, AppErrorView> {
    let query = node_at(document, "query"@);
    let data = node_at(query->Ok_0, "data"@);
    let main_content = object_at(data->Ok_0, "mainContent"@);
    let records = array_at(main_content->Ok_0, "records"@);
    let record = first_at(records->Ok_0, "records[0]"@);
    let metadata = object_at(record->Ok_0, "allMeta"@);
    let ratings = object_at(metadata->Ok_0, "ratingInfo"@);
    let variants = array_at(metadata->Ok_0, "variants"@);
    let variant = first_object_at(variants->Ok_0, "variants[0]"@);
    let prices = object_at(variant->Ok_0, "prices"@);
    let promotions = array_at(variant->Ok_0, "liverpoolPromotionsEMI"@);
    if query is Err {
        Err(query->Err_0)
    } else if data is Err {
        Err(data->Err_0)
    } else if main_content is Err {
        Err(main_content->Err_0)
    } else if records is Err {
        Err(records->Err_0)
    } else if record is Err {
        Err(record->Err_0)
    } else if metadata is Err {
        Err(metadata->Err_0)
    } else if ratings is Err {
        Err(ratings->Err_0)
    } else if variants is Err {
        Err(variants->Err_0)
    } else if variant is Err {
        Err(variant->Err_0)
    } else if prices is Err {
        Err(prices->Err_0)
    } else if promotions is Err {
        Err(promotions->Err_0)
    } else {
        Ok(
            NavigatedView {
                metadata: metadata->Ok_0,
                ratings: ratings->Ok_0,
                variant: variant->Ok_0,
                prices: prices->Ok_0,
                promotions: promotions->Ok_0,
            },
        )
    }
}

/// Steps from `parent` to the node under `key`.
fn descend<'a>(parent: &'a Json, key: &str) -> (node: Result<&'a Json, AppError>)
    ensures
        match node_at(parent@, key@) {
            Ok(found) => node matches Ok(reached) && reached@ == found,
            Err(error) => node matches Err(failure) && failure@ == error,
        },
{
    match parent.get(key) {
        Some(node) => Ok(node),
        None => Err(AppError::MissingField(key.to_owned())),
    }
}

/// Steps from `parent` to the object under `key`.
fn descend_to_object<'a>(parent: &'a Json, key: &str) -> (node: Result<&'a Json, AppError>)
    ensures
        match object_at(parent@, key@) {
            Ok(found) => node matches Ok(reached) && reached@ == found,
            Err(error) => node matches Err(failure) && failure@ == error,
        },
{
    match parent.get(key) {
        Some(node) => {
            if node.is_object() {
                Ok(node)
            } else {
                Err(AppError::MissingField(key.to_owned()))
            }
        },
        None => Err(AppError::MissingField(key.to_owned())),
    }
}

/// Steps from `parent` to the array under `key`.
fn descend_to_array<'a>(parent: &'a Json, key: &str) -> (items: Result<&'a Vec<Json>, AppError>)
    ensures
        match array_at(parent@, key@) {
            Ok(found) => items matches Ok(reached) && nodes_view(reached@) == found,
            Err(error) => items matches Err(failure) && failure@ == error,
        },
{
    match parent.get(key) {
        Some(node) => match node.as_array() {
            Some(items) => Ok(items),
            None => Err(AppError::MissingField(key.to_owned())),
        },
        None => Err(AppError::MissingField(key.to_owned())),
    }
}

/// Takes the first of `items`, reporting `name` where there is none.
fn first_entry<'a>(items: &'a Vec<Json>, name: &str) -> (node: Result<&'a Json, AppError>)
    ensures
        match first_at(nodes_view(items@), name@) {
            Ok(found) => node matches Ok(reached) && reached@ == found,
            Err(error) => node matches Err(failure) && failure@ == error,
        },
{
    proof {
        lemma_nodes_view(items@);
    }
    if items.len() > 0 {
        Ok(&items[0])
    } else {
        Err(AppError::MissingField(name.to_owned()))
    }
}

/// Walks the document to the places that hold the product.
pub fn navigate<'a>(document: &'a Json) -> (fields: Result<NavigatedFields<'a>, AppError>)
    ensures
        match navigated(document@) {
            Ok(places) => fields matches Ok(found) && found@ == places,
            Err(error) => fields matches Err(failure) && failure@ == error,
        },
{
    let query = descend(document, "query")?;
    let data = descend(query, "data")?;
    let main_content = descend_to_object(data, "mainContent")?;
    let records = descend_to_array(main_content, "records")?;
    let record = first_entry(records, "records[0]")?;
    let metadata = descend_to_object(record, "allMeta")?;
    let ratings = descend_to_object(metadata, "ratingInfo")?;
    let variants = descend_to_array(metadata, "variants")?;
    let variant = first_entry(variants, "variants[0]")?;
    if !variant.is_object() {
        return Err(AppError::MissingField("variants[0]".to_owned()));
    }
    let prices = descend_to_object(variant, "prices")?;
    let promotions = descend_to_array(variant, "liverpoolPromotionsEMI")?;
    Ok(NavigatedFields { metadata, ratings, variant, prices, promotions })
}

/// The part of the document in which a field of the snapshot is read.
pub enum Place {
    Metadata,
    Ratings,
    Variant,
    Prices,
}

/// The form in which a field of the snapshot is stored.
pub enum Shape {
    /// A string, taken as it is.
    Text,
    /// A string that writes an unsigned count.
    Count,
    /// A string that writes a decimal number.
    Decimal,
    /// A JSON number.
    Number,
}

/// One field that the snapshot cannot do without.
pub struct FieldRule {
    pub place: Place,
    pub key: Seq<char>,
    pub shape: Shape,
}

impl NavigatedView {
    /// The part of the document that `place` names.
    pub open spec fn at(self, place: Place) -> JsonValue {
        match place {
            Place::Metadata => self.metadata,
            Place::Ratings => self.ratings,
            Place::Variant => self.variant,
            Place::Prices => self.prices,
        }
    }
}

/// The fields of the snapshot, in the order in which they are read.
pub open spec fn required_fields() -> Seq<FieldRule> {
    seq![
        FieldRule { place: Place::Metadata, key: "productId"@, shape: Shape::Count },
        FieldRule { place: Place::Metadata, key: "title"@, shape: Shape::Text },
        FieldRule { place: Place::Metadata, key: "brand"@, shape: Shape::Text },
        FieldRule { place: Place::Metadata, key: "lastmodifiedTime"@, shape: Shape::Text },
        FieldRule { place: Place::Metadata, key: "creationDate"@, shape: Shape::Text },
        FieldRule { place: Place::Metadata, key: "maximumPromoPrice"@, shape: Shape::Number },
        FieldRule { place: Place::Metadata, key: "minimumPromoPrice"@, shape: Shape::Number },
        FieldRule { place: Place::Metadata, key: "maximumListPrice"@, shape: Shape::Number },
        FieldRule { place: Place::Metadata, key: "minimumListPrice"@, shape: Shape::Number },
        FieldRule { place: Place::Metadata, key: "lastmodifiedByWhom"@, shape: Shape::Text },
        FieldRule { place: Place::Ratings, key: "productAvgRating"@, shape: Shape::Decimal },
        FieldRule { place: Place::Ratings, key: "productRatingCount"@, shape: Shape::Count },
        FieldRule { place: Place::Variant, key: "color"@, shape: Shape::Text },
        FieldRule { place: Place::Prices, key: "discountPercentage"@, shape: Shape::Decimal },
        FieldRule { place: Place::Prices, key: "promoPrice"@, shape: Shape::Decimal },
        FieldRule { place: Place::Prices, key: "salePrice"@, shape: Shape::Decimal },
        FieldRule { place: Place::Prices, key: "listPrice"@, shape: Shape::Decimal },
        FieldRule { place: Place::Prices, key: "sortPrice"@, shape: Shape::Decimal },
    ]
}

/// Why the field of `rule` cannot be read from `fields`, where it cannot.
pub open spec fn field_failure(fields: NavigatedView, rule: FieldRule) -> Option<AppErrorView> {
    let container = fields.at(rule.place);
    match rule.shape {
        Shape::Text => match text_field(container, rule.key) {
            Ok(_) => None,
            Err(error) => Some(error),
        },
        Shape::Count => match count_field(container, rule.key) {
            Ok(_) => None,
            Err(error) => Some(error),
        },
        Shape::Decimal => match decimal_field(container, rule.key) {
            Ok(_) => None,
            Err(error) => Some(error),
        },
        Shape::Number => match number_field(container, rule.key) {
            Ok(_) => None,
            Err(error) => Some(error),
        },
    }
}

/// The failure of the first of `rules`, from position `from` on, whose field cannot be read.
pub open spec fn first_failure(fields: NavigatedView, rules: Seq<FieldRule>, from: int) -> Option<
    AppErrorView,
>
    decreases rules.len() - from,
{
    if from < 0 || from >= rules.len() {
        None
    } else {
        match field_failure(fields, rules[from]) {
            Some(error) => Some(error),
            None => first_failure(fields, rules, from + 1),
        }
    }
}

/// The failure of the first required field that cannot be read.
pub open spec fn first_field_error(fields: NavigatedView) -> Option<AppErrorView> {
    first_failure(fields, required_fields(), 0)
}

/// `first_failure` reports the first rule, from `from` on, whose field cannot be
/// read, and reports none exactly when every such field can be read.
pub proof fn lemma_first_failure(fields: NavigatedView, rules: Seq<FieldRule>, from: int)
    requires
        0 <= from,
    ensures
        match first_failure(fields, rules, from) {
            Some(error) => exists|at: int|
                {
                    &&& from <= at < rules.len()
                    &&& #[trigger] field_failure(fields, rules[at]) == Some(error)
                    &&& forall|k: int| from <= k < at ==> field_failure(fields, rules[k]) is None
                },
            None => forall|k: int| from <= k < rules.len() ==> field_failure(fields, rules[k]) is None,
        },
    decreases rules.len() - from,
{
    if from < rules.len() {
        match field_failure(fields, rules[from]) {
            Some(error) => {},
            None => {
                lemma_first_failure(fields, rules, from + 1);
                match first_failure(fields, rules, from + 1) {
                    Some(error) => {
                        let at = choose|at: int|
                            {
                                &&& from + 1 <= at < rules.len()
                                &&& #[trigger] field_failure(fields, rules[at]) == Some(error)
                                &&& forall|k: int|
                                    from + 1 <= k < at ==> field_failure(fields, rules[k]) is None
                            };
                        assert(forall|k: int|
                            from <= k < at ==> field_failure(fields, rules[k]) is None);
                    },
                    None => {},
                }
            },
        }
    }
}

/// A required field that is missing from its part of the document aborts
/// assembly, whatever else the document holds; and where the fields before it
/// can be read, the error is an extraction failure that names the missing
/// field.
pub proof fn lemma_missing_field_aborts(
    fields: NavigatedView,
    index: int,
    utc: Seq<char>,
    local: Seq<char>,
)
    requires
        0 <= index < required_fields().len(),
        fields.at(required_fields()[index].place).member(required_fields()[index].key) is None,
    ensures
        assembled(fields, utc, local) is Err,
        (forall|k: int| 0 <= k < index ==> field_failure(fields, required_fields()[k]) is None)
            ==> assembled(fields, utc, local) == Err::<ProductView, AppErrorView>(
            AppErrorView::ExtractionFailed(required_fields()[index].key),
        ),
{
    let rules = required_fields();
    lemma_first_failure(fields, rules, 0);
    assert(field_failure(fields, rules[index]) == Some(
        AppErrorView::ExtractionFailed(rules[index].key),
    ));
}

/// The failure in an outcome, where it is one.
spec fn failure_in<T>(outcome: Result<T, AppErrorView>) -> Option<AppErrorView> {
    match outcome {
        Ok(_) => None,
        Err(error) => Some(error),
    }
}

/// The first of two failures.
spec fn or_later(first: Option<AppErrorView>, later: Option<AppErrorView>) -> Option<
    AppErrorView,
> {
    match first {
        Some(error) => Some(error),
        None => later,
    }
}

/// The first failure among the required fields, field by field.
proof fn lemma_first_field_error_unrolled(fields: NavigatedView)
    ensures
        first_field_error(fields) == or_later(
            failure_in(count_field(fields.metadata, "productId"@)),
            or_later(
                failure_in(text_field(fields.metadata, "title"@)),
                or_later(
                    failure_in(text_field(fields.metadata, "brand"@)),
                    or_later(
                        failure_in(text_field(fields.metadata, "lastmodifiedTime"@)),
                        or_later(
                            failure_in(text_field(fields.metadata, "creationDate"@)),
                            or_later(
                                failure_in(number_field(fields.metadata, "maximumPromoPrice"@)),
                                or_later(
                                    failure_in(
                                        number_field(fields.metadata, "minimumPromoPrice"@),
                                    ),
                                    or_later(
                                        failure_in(
                                            number_field(fields.metadata, "maximumListPrice"@),
                                        ),
                                        or_later(
                                            failure_in(
                                                number_field(fields.metadata, "minimumListPrice"@),
                                            ),
                                            first_failure(fields, required_fields(), 9),
                                        ),
                                    ),
                                ),
                            ),
                        ),
                    ),
                ),
            ),
        ),
        first_failure(fields, required_fields(), 9) == or_later(
            failure_in(text_field(fields.metadata, "lastmodifiedByWhom"@)),
            or_later(
                failure_in(decimal_field(fields.ratings, "productAvgRating"@)),
                or_later(
                    failure_in(count_field(fields.ratings, "productRatingCount"@)),
                    or_later(
                        failure_in(text_field(fields.variant, "color"@)),
                        or_later(
                            failure_in(decimal_field(fields.prices, "discountPercentage"@)),
                            or_later(
                                failure_in(decimal_field(fields.prices, "promoPrice"@)),
                                or_later(
                                    failure_in(decimal_field(fields.prices, "salePrice"@)),
                                    or_later(
                                        failure_in(decimal_field(fields.prices, "listPrice"@)),
                                        failure_in(decimal_field(fields.prices, "sortPrice"@)),
                                    ),
                                ),
                            ),
                        ),
                    ),
                ),
            ),
        ),
{
    let rules = required_fields();
    assert(rules.len() == 18);
    assert(first_failure(fields, rules, 18) is None);
    assert(first_failure(fields, rules, 17) == failure_in(
        decimal_field(fields.prices, "sortPrice"@),
    ));
    reveal_with_fuel(first_failure, 10);
}

/// The snapshot that `fields` give, stamped with the two renderings of the
/// instant. It is meaningful where no required field fails.
pub open spec fn snapshot(fields: NavigatedView, utc: Seq<char>, local: Seq<char>) -> ProductView {
    ProductView {
        product_id: count_field(fields.metadata, "productId"@)->Ok_0 as nat,
        title: text_field(fields.metadata, "title"@)->Ok_0,
        brand: text_field(fields.metadata, "brand"@)->Ok_0,
        color: text_field(fields.variant, "color"@)->Ok_0,
        time_recorded_utc: utc,
        time_recorded_gmt_minus_6: local,
        last_modified_time: text_field(fields.metadata, "lastmodifiedTime"@)->Ok_0,
        creation_date: text_field(fields.metadata, "creationDate"@)->Ok_0,
        max_promo_price: number_field(fields.metadata, "maximumPromoPrice"@)->Ok_0,
        min_promo_price: number_field(fields.metadata, "minimumPromoPrice"@)->Ok_0,
        max_list_price: number_field(fields.metadata, "maximumListPrice"@)->Ok_0,
        min_list_price: number_field(fields.metadata, "minimumListPrice"@)->Ok_0,
        discount_percentage: decimal_field(fields.prices, "discountPercentage"@)->Ok_0,
        promo_price: decimal_field(fields.prices, "promoPrice"@)->Ok_0,
        sale_price: decimal_field(fields.prices, "salePrice"@)->Ok_0,
        list_price: decimal_field(fields.prices, "listPrice"@)->Ok_0,
        sort_price: decimal_field(fields.prices, "sortPrice"@)->Ok_0,
        last_modified_by_whom: text_field(fields.metadata, "lastmodifiedByWhom"@)->Ok_0,
        rating_average: decimal_field(fields.ratings, "productAvgRating"@)->Ok_0,
        rating_count: count_field(fields.ratings, "productRatingCount"@)->Ok_0 as nat,
        promotions: reconciled_promotions(fields.promotions),
    }
}

/// The outcome of assembly: the first failure among the required fields, or the snapshot.
pub open spec fn assembled(fields: NavigatedView, utc: Seq<char>, local: Seq<char>) -> Result<
    ProductView,
    AppErrorView,
> {
    match first_field_error(fields) {
        Some(error) => Err(error),
        None => Ok(snapshot(fields, utc, local)),
    }
}

/// Assembles the snapshot from the places found in the document and the two
/// renderings of the instant at which it is taken.
pub fn assemble_product(
    fields: &NavigatedFields,
    time_recorded_utc: String,
    time_recorded_gmt_minus_6: String,
) -> (product: Result<Product, AppError>)
    ensures
        match assembled(fields@, time_recorded_utc@, time_recorded_gmt_minus_6@) {
            Ok(expected) => product matches Ok(built) && built@ == expected,
            Err(error) => product matches Err(failure) && failure@ == error,
        },
{
    proof {
        lemma_first_field_error_unrolled(fields@);
    }
    let promotions = reconcile_promotions(fields.promotions);
    let product_id = coerce_count(fields.metadata, "productId")?;
    let title = extract_value(fields.metadata, "title")?;
    let brand = extract_value(fields.metadata, "brand")?;
    let last_modified_time = extract_value(fields.metadata, "lastmodifiedTime")?;
    let creation_date = extract_value(fields.metadata, "creationDate")?;
    let max_promo_price = coerce_number(fields.metadata, "maximumPromoPrice")?;
    let min_promo_price = coerce_number(fields.metadata, "minimumPromoPrice")?;
    let max_list_price = coerce_number(fields.metadata, "maximumListPrice")?;
    let min_list_price = coerce_number(fields.metadata, "minimumListPrice")?;
    let last_modified_by_whom = extract_value(fields.metadata, "lastmodifiedByWhom")?;
    let rating_average = coerce_decimal(fields.ratings, "productAvgRating")?;
    let rating_count = coerce_count(fields.ratings, "productRatingCount")?;
    let color = extract_value(fields.variant, "color")?;
    let discount_percentage = coerce_decimal(fields.prices, "discountPercentage")?;
    let promo_price = coerce_decimal(fields.prices, "promoPrice")?;
    let sale_price = coerce_decimal(fields.prices, "salePrice")?;
    let list_price = coerce_decimal(fields.prices, "listPrice")?;
    let sort_price = coerce_decimal(fields.prices, "sortPrice")?;
    Ok(
        Product {
            product_id,
            title,
            brand,
            color,
            time_recorded_utc,
            time_recorded_gmt_minus_6,
            last_modified_time,
            creation_date,
            max_promo_price,
            min_promo_price,
            max_list_price,
            min_list_price,
            discount_percentage,
            promo_price,
            sale_price,
            list_price,
            sort_price,
            last_modified_by_whom,
            rating_average,
            rating_count,
            promotions,
        },
    )
}

/// What extraction gives for the payload `text` at the instant `now`: the
/// document is read, descended, its fields are coerced in order, and the
/// snapshot is stamped with the two renderings of `now`.
pub open spec fn extraction(text: Seq<char>, now: Instant) -> Result<ProductView, AppErrorView> {
    match json_document(text) {
        None => Err(AppErrorView::SerdeJson),
        Some(document) => match navigated(document) {
            Err(error) => Err(error),
            Ok(fields) => match first_field_error(fields) {
                Some(error) => Err(error),
                None => {
                    let utc = rfc3339_at(now.seconds as int, now.nanoseconds as int, 0);
                    let local = rfc3339_at(
                        now.seconds as int,
                        now.nanoseconds as int,
                        LOCAL_OFFSET_WEST as int,
                    );
                    if utc is Some && local is Some {
                        Ok(snapshot(fields, utc->0, local->0))
                    } else {
                        Err(AppErrorView::TimezoneError)
                    }
                },
            },
        },
    }
}

/// Extracts the snapshot of the product from the payload, as of the instant `now`.
pub fn extract_product_at(json_data: &str, now: Instant) -> (product: Result<Product, AppError>)
    ensures
        match extraction(json_data@, now) {
            Ok(expected) => product matches Ok(built) && built@ == expected,
            Err(error) => product matches Err(failure) && failure@ == error,
        },
{
    let document = match parse_json(json_data) {
        Ok(document) => document,
        Err(error) => { return Err(AppError::SerdeJson(error)); },
    };
    let fields = navigate(&document)?;
    let utc = render_rfc3339(now, 0);
    let local = render_rfc3339(now, LOCAL_OFFSET_WEST);
    match (utc, local) {
        (Some(utc), Some(local)) => assemble_product(&fields, utc, local),
        _ => match assemble_product(&fields, String::new(), String::new()) {
            Ok(_) => Err(AppError::TimezoneError),
            Err(error) => Err(error),
        },
    }
}

/// Extracts the snapshot of the product from the payload, as of now.
pub fn extract_product(json_data: &str) -> (product: Result<Product, AppError>)
    ensures
        exists|now: Instant|
            match #[trigger] extraction(json_data@, now) {
                Ok(expected) => product matches Ok(built) && built@ == expected,
                Err(error) => product matches Err(failure) && failure@ == error,
            },
{
    extract_product_at(json_data, current_instant())
}

} // verus!
