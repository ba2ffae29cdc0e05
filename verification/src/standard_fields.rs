//! Field names used by convention. Nothing enforces them.

use vstd::prelude::*;

verus! {

/// Biography or description.
pub const BIO: &'static str = "bio";

/// Avatar image URL.
pub const AVATAR: &'static str = "avatar";

/// Personal website.
pub const HOMEPAGE: &'static str = "homepage";

/// Location.
pub const LOCATION: &'static str = "location";

/// GitHub user name.
pub const GITHUB: &'static str = "github";

/// Twitter handle.
pub const TWITTER: &'static str = "twitter";

/// Email address.
pub const EMAIL: &'static str = "email";

/// Whether the user is available for hiring.
pub const AVAILABLE_FOR_HIRING: &'static str = "hiring";

} // verus!
