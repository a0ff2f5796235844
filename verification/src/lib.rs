//! Request addressing for the wnacg gallery site: which page a search or a set
//! of filter selections leads to, and the address of that page.

use vstd::prelude::*;

pub mod decimal;
pub mod filter;
pub mod net;
pub mod text;
pub mod uri;

verus! {

/// The origin of the site; every address starts with it.
pub const BASE_URL: &'static str = "https://www.wnacg.com";

/// The `User-Agent` header sent with every request.
pub const USER_AGENT: &'static str =
    "Mozilla/5.0 (iPhone; CPU iPhone OS 17_0 like Mac OS X) AppleWebKit/605.1.15 (KHTML, like Gecko) Version/17.0 Mobile/15E148 Safari/604.1";

} // verus!
