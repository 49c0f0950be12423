//! File locations under the application's data directory.
use vstd::prelude::*;

verus! {

/// What `std::path::Path::join` gives for `dir` and `name`, written back as
/// text.
pub uninterp spec fn joined_path(dir: Seq<char>, name: Seq<char>) -> Seq<char>;

/// `std::path::Path::new(dir).join(name)`, written back with
/// `to_string_lossy` (lossless for text that came from a `str`). Claimed:
/// the result is `joined_path` of the two texts.
#[verifier::external_body]
pub(crate) fn path_join(dir: &str, name: &str) -> (p: String)
    ensures
        p@ == joined_path(dir@, name@),
{
    std::path::Path::new(dir).join(name).to_string_lossy().into_owned()
}

/// The data directory: the `SIMPLSOURCE_DATA_DIR` override when set, else
/// `SimplSource` under the platform's data directory (or under
/// `.simplsource` where the platform has none).
pub open spec fn data_dir_of(override_dir: Option<Seq<char>>, platform_dir: Option<Seq<char>>) -> Seq<
    char,
> {
    match override_dir {
        Some(d) => d,
        None => joined_path(
            match platform_dir {
                Some(p) => p,
                None => ".simplsource"@,
            },
            "SimplSource"@,
        ),
    }
}

/// The data directory, from the override variable's value and the
/// platform's data directory as the environment gives them.
pub fn default_data_dir(override_dir: Option<String>, platform_dir: Option<String>) -> (d: String)
    ensures
        d@ == data_dir_of(
            match override_dir {
                Some(o) => Some(o@),
                None => None,
            },
            match platform_dir {
                Some(p) => Some(p@),
                None => None,
            },
        ),
{
    match override_dir {
        Some(d) => d,
        None => match platform_dir {
            Some(p) => path_join(p.as_str(), "SimplSource"),
            None => path_join(".simplsource", "SimplSource"),
        },
    }
}

} // verus!
