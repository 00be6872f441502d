//! Builders for the store's on-disk paths. The caller supplies the home
//! directory; looking it up is the front end's business.

use vstd::prelude::*;

verus! {

/// The collection directory under the given home directory.
pub fn get_collection_dir_path(home_dir: &str) -> (r: String)
    ensures
        r@ == home_dir@ + "/.memoire"@,
{
    let mut r = home_dir.to_owned();
    r.append("/.memoire");
    r
}

/// The file that backs the named collection inside the collection
/// directory.
pub fn get_json_path(dir_path: &str, collection_name: &str) -> (r: String)
    ensures
        r@ == dir_path@ + "/"@ + collection_name@ + ".json"@,
{
    let mut r = dir_path.to_owned();
    r.append("/");
    r.append(collection_name);
    r.append(".json");
    r
}

/// The file that backs the default collection.
pub fn get_default_json_path(dir_path: &str) -> (r: String)
    ensures
        r@ == dir_path@ + "/default.json"@,
{
    let mut r = dir_path.to_owned();
    r.append("/default.json");
    r
}

} // verus!
