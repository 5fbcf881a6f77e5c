//! Extraction and normalisation of one product's pricing and promotion data
//! from a retailer's server-rendered page.

pub mod arguments;
pub mod clock;
pub mod db_storage;
pub mod decimal;
pub mod errors;
pub mod json;
pub mod json_extractor;
pub mod product_extractor;
pub mod reconciler;
pub mod snapshot_json;
pub mod structures;
pub mod text;
pub mod validate_deals;

pub use arguments::Args;
pub use decimal::Decimal;
pub use errors::AppError;
pub use json_extractor::extract_json_data;
pub use product_extractor::{convert_to_numeric, extract_product};
pub use structures::{Product, Promotion};
pub use validate_deals::review_product_promotions;
