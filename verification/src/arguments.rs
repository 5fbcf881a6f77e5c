//! The settings of one run.

use vstd::prelude::*;

verus! {

/// The page that is read when no other is named.
pub const DEFAULT_URL: &'static str =
    "https://www.liverpool.com.mx/tienda/pdp/aud%C3%ADfonos-over-ear-bose-quietcomfort-ultra-se-sandstone-inal%C3%A1mbricos-con-cancelaci%C3%B3n-de-ruido/1150870956";

/// What a run is told from outside.
#[derive(Debug)]
pub struct Args {
    /// Path to the SQLite database; empty for the default place under the home directory.
    pub db_path: String,
    /// URL to fetch the HTML content from.
    pub url: String,
}

impl Default for Args {
    /// The settings of a run that was told nothing.
    fn default() -> (args: Args)
        ensures
            args.db_path@ == Seq::<char>::empty(),
            args.url@ == DEFAULT_URL@,
    {
        Args { db_path: String::new(), url: DEFAULT_URL.to_owned() }
    }
}

} // verus!
