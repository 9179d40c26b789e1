//! The cache of the last fetched data, one file for each repository.

use crate::auth::{own_dir, own_path, parts_view};
use crate::github::Repo;
use crate::text::{opt_view, views};
use vstd::prelude::*;

verus! {

/// The layout of the cached data; data of another layout is ignored.
pub const VERSION: u32 = 1;

/// The name of a repository's file.
pub open spec fn file_name(repo: Repo) -> Seq<char> {
    repo.owner@ + "_"@ + repo.name@ + ".json"@
}

/// The parts of the path of the cache directory: `prowl` in the user's cache
/// directory.
pub fn cache_dir(
    xdg_cache_home: Option<String>,
    local_appdata: Option<String>,
    home: Option<String>,
) -> (r: Option<Vec<String>>)
    ensures
        parts_view(r) == match own_path(
            opt_view(xdg_cache_home),
            opt_view(local_appdata),
            opt_view(home),
            ".cache"@,
        ) {
            Some(p) => Some(p.push("prowl"@)),
            None => None,
        },
{
    match own_dir(xdg_cache_home, local_appdata, home, ".cache") {
        Some(parts) => {
            let mut parts = parts;
            let ghost before = views(parts@);
            let a = "prowl".to_string();
            parts.push(a);
            assert(views(parts@) =~= before.push("prowl"@));
            Some(parts)
        },
        None => None,
    }
}

/// The name of a repository's file in the cache directory.
pub fn cache_file(repo: &Repo) -> (r: String)
    ensures
        r@ == file_name(*repo),
{
    let mut s = repo.owner.clone();
    s.append("_");
    s.append(repo.name.as_str());
    s.append(".json");
    s
}

/// Take cached data that is of the current layout.
pub fn load<T>(version: u32, cached: T) -> (r: Option<T>)
    ensures
        r == if version == VERSION {
            Some(cached)
        } else {
            None
        },
{
    if version == VERSION {
        Some(cached)
    } else {
        None
    }
}

/// Cached data is taken exactly if it is of the current layout, and then as it is.
pub proof fn only_the_current_layout_is_taken<T>(version: u32, cached: T, r: Option<T>)
    requires
        call_ensures(load::<T>, (version, cached), r),
    ensures
        r is Some <==> version == 1,
        r matches Some(x) ==> x == cached,
{
}

} // verus!
