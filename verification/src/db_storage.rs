//! Where the database of a run lies.

use vstd::prelude::*;
use vstd::string::StringExecFns;
use crate::errors::{AppError, AppErrorView};
use crate::text::{chars_of, text_view};

verus! {

/// The place of the database below the home directory.
pub const DEFAULT_DB_LOCATION: &'static str =
    ".local/share/bose-extract-deals/liverpool-bose-qc-ultra.db";

/// What is reported where no home directory is known.
pub const NO_HOME_DIRECTORY: &'static str = "Unable to determine home directory";

/// The path of `relative` below `directory`: the two joined by one slash,
/// which is left out where `directory` is empty or ends in one.
pub open spec fn path_under(directory: Seq<char>, relative: Seq<char>) -> Seq<char> {
    if directory.len() == 0 || directory.last() == '/' {
        directory + relative
    } else {
        directory + "/"@ + relative
    }
}

/// The path of the database: the one asked for, or, where none is asked for,
/// the default place below the home directory.
pub open spec fn db_path_of(raw: Seq<char>, home: Option<Seq<char>>) -> Result<
    Seq<char>,
    AppErrorView,
> {
    if raw.len() > 0 {
        Ok(raw)
    } else {
        match home {
            Some(home) => Ok(path_under(home, DEFAULT_DB_LOCATION@)),
            None => Err(AppErrorView::General(NO_HOME_DIRECTORY@)),
        }
    }
}

/// Asks `dirs::home_dir` for the home directory of the user and hands it over
/// as text, as `to_string_lossy` gives it. The answer depends on the
/// environment of the process: nothing is promised of it.
#[verifier::external_body]
fn home_directory() -> Option<String> {
    dirs::home_dir().map(|home| home.to_string_lossy().into_owned())
}

/// Decides the path of the database from what was asked for and the home directory.
pub fn resolve_db_path(db_raw_path: &String, home: Option<String>) -> (path: Result<
    String,
    AppError,
>)
    ensures
        match db_path_of(db_raw_path@, text_view(home)) {
            Ok(expected) => path matches Ok(found) && found@ == expected,
            Err(error) => path matches Err(failure) && failure@ == error,
        },
{
    if !db_raw_path.as_str().is_empty() {
        return Ok(db_raw_path.clone());
    }
    match home {
        Some(home) => {
            let chars = chars_of(home.as_str());
            let mut path = home;
            if chars.len() > 0 && chars[chars.len() - 1] != '/' {
                path.append("/");
            }
            path.append(DEFAULT_DB_LOCATION);
            Ok(path)
        },
        None => Err(AppError::General(NO_HOME_DIRECTORY.to_owned())),
    }
}

/// Decides the path of the database: the one asked for, or, where none is
/// asked for, the default place below the home directory of the user.
pub fn parse_db_path(db_raw_path: &String) -> (path: Result<String, AppError>)
    ensures
        exists|home: Option<Seq<char>>|
            match #[trigger] db_path_of(db_raw_path@, home) {
                Ok(expected) => path matches Ok(found) && found@ == expected,
                Err(error) => path matches Err(failure) && failure@ == error,
            },
{
    if !db_raw_path.as_str().is_empty() {
        let path = resolve_db_path(db_raw_path, None);
        assert(db_path_of(db_raw_path@, None) is Ok);
        return path;
    }
    let home = home_directory();
    let ghost known = text_view(home);
    let path = resolve_db_path(db_raw_path, home);
    assert(db_path_of(db_raw_path@, known) is Ok || db_path_of(db_raw_path@, known) is Err);
    path
}

} // verus!
