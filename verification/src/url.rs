//! The link that shows a position on a map.

use vstd::prelude::*;
use vstd::string::StringExecFns;

verus! {

/// The map search address for a latitude and a longitude in decimal
/// degrees, each given as text.
pub open spec fn map_url_text(latitude: Seq<char>, longitude: Seq<char>) -> Seq<char> {
    "https://www.google.com/maps/search/?api=1&query="@ + latitude + ","@ + longitude
}

/// Builds the map search address for a latitude and a longitude in decimal
/// degrees, each given as text.
pub fn map_url(latitude: &str, longitude: &str) -> (r: String)
    ensures
        r@ == map_url_text(latitude@, longitude@),
{
    let mut r = "https://www.google.com/maps/search/?api=1&query=".to_owned();
    r.append(latitude);
    r.append(",");
    r.append(longitude);
    r
}

} // verus!
