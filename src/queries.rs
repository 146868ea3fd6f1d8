//! Listing parameters: paging windows, sort orders and search patterns, and
//! the small request types of the catalog, cart and artist profile.

use vstd::prelude::*;
use vstd::string::StringExecFns;
use crate::status::{str_equal, opt_view};

verus! {

/// Page size and row offset for `page` (from 1) and `limit`: both default
/// and are raised to at least 1.
pub open spec fn clamped_window(page: Option<i64>, limit: Option<i64>, default_limit: i64) -> (
    int,
    int,
) {
    let l = match limit {
        Some(l) => l as int,
        None => default_limit as int,
    };
    let p = match page {
        Some(p) => p as int,
        None => 1,
    };
    let l = if l < 1 {
        1
    } else {
        l
    };
    let p = if p < 1 {
        1
    } else {
        p
    };
    (l, (p - 1) * l)
}

/// Page size and row offset for `page` (from 1) and `limit`, taken as
/// given once defaulted.
pub open spec fn plain_window(page: Option<i64>, limit: Option<i64>, default_limit: i64) -> (
    int,
    int,
) {
    let l = match limit {
        Some(l) => l as int,
        None => default_limit as int,
    };
    let p = match page {
        Some(p) => p as int,
        None => 1,
    };
    (l, (p - 1) * l)
}

pub open spec fn fits_i64(w: (int, int)) -> bool {
    i64::MIN <= w.0 <= i64::MAX && i64::MIN <= w.1 <= i64::MAX
}

pub open spec fn window_result(w: (int, int)) -> Option<(i64, i64)> {
    if fits_i64(w) {
        Some((w.0 as i64, w.1 as i64))
    } else {
        None
    }
}

/// The clamped window; `None` when the offset does not fit in 64 bits.
pub fn page_window(page: Option<i64>, limit: Option<i64>, default_limit: i64) -> (r: Option<
    (i64, i64),
>)
    ensures
        r == window_result(clamped_window(page, limit, default_limit)),
{
    let l = match limit {
        Some(l) => l,
        None => default_limit,
    };
    let p = match page {
        Some(p) => p,
        None => 1,
    };
    let l = if l < 1 {
        1
    } else {
        l
    };
    let p = if p < 1 {
        1
    } else {
        p
    };
    match (p - 1).checked_mul(l) {
        Some(offset) => Some((l, offset)),
        None => None,
    }
}

/// The plain window; `None` when a value does not fit in 64 bits.
pub fn plain_page_window(page: Option<i64>, limit: Option<i64>, default_limit: i64) -> (r: Option<
    (i64, i64),
>)
    ensures
        r == window_result(plain_window(page, limit, default_limit)),
{
    let l = match limit {
        Some(l) => l,
        None => default_limit,
    };
    let p = match page {
        Some(p) => p,
        None => 1,
    };
    let before: i128 = p as i128 - 1;
    let size: i128 = l as i128;
    assert(-0x8000_0000_0000_0001 <= before <= 0x7fff_ffff_ffff_fffe);
    assert(-0x8000_0000_0000_0001 * 0x8000_0000_0000_0000 <= before * size <= 0x8000_0000_0000_0001
        * 0x8000_0000_0000_0000) by (nonlinear_arith)
        requires
            -0x8000_0000_0000_0001 <= before <= 0x7fff_ffff_ffff_fffe,
            -0x8000_0000_0000_0000 <= size <= 0x7fff_ffff_ffff_ffff,
    ;
    let wide: i128 = before * size;
    if wide < i64::MIN as i128 || wide > i64::MAX as i128 {
        None
    } else {
        Some((l, wide as i64))
    }
}

/// `%s%`: matches any text that contains `s`.
pub fn like_pattern(s: &str) -> (r: String)
    ensures
        r@ == "%"@ + s@ + "%"@,
{
    let mut r = String::from_str("%");
    r.append(s);
    r.append("%");
    r
}

/// How a seller's order lines are listed.
#[derive(Clone, Copy, Debug, PartialEq, Eq, Structural)]
pub enum OrderSort {
    /// Newest order first.
    Recent,
    /// Oldest order first.
    Oldest,
    /// Largest line amount first.
    AmountDesc,
    /// Smallest line amount first.
    AmountAsc,
}

/// The sort order named by `s`; anything else lists newest first.
pub open spec fn sort_named(s: Option<Seq<char>>) -> OrderSort {
    match s {
        Some(t) => if t == "oldest"@ {
            OrderSort::Oldest
        } else if t == "amount_desc"@ {
            OrderSort::AmountDesc
        } else if t == "amount_asc"@ {
            OrderSort::AmountAsc
        } else {
            OrderSort::Recent
        },
        None => OrderSort::Recent,
    }
}

/// A seller's listing of their order lines.
pub struct ArtistOrderListQuery {
    pub page: Option<i64>,
    pub limit: Option<i64>,
    /// Text to look for in the product title or the buyer's name.
    pub search: Option<String>,
    pub status: Option<String>,
    pub sort: Option<String>,
}

impl ArtistOrderListQuery {
    /// Page size (default 10) and offset, both clamped to at least a first
    /// page of one line.
    pub fn window(&self) -> (r: Option<(i64, i64)>)
        ensures
            r == window_result(clamped_window(self.page, self.limit, 10)),
    {
        page_window(self.page, self.limit, 10)
    }

    pub fn sort_order(&self) -> (r: OrderSort)
        ensures
            r == sort_named(opt_view(self.sort)),
    {
        match &self.sort {
            Some(s) => {
                if str_equal(s.as_str(), "oldest") {
                    OrderSort::Oldest
                } else if str_equal(s.as_str(), "amount_desc") {
                    OrderSort::AmountDesc
                } else if str_equal(s.as_str(), "amount_asc") {
                    OrderSort::AmountAsc
                } else {
                    OrderSort::Recent
                }
            },
            None => OrderSort::Recent,
        }
    }

    /// The search text as a containment pattern, if a search was asked.
    pub fn search_pattern(&self) -> (r: Option<String>)
        ensures
            match self.search {
                Some(s) => r is Some && r->Some_0@ == "%"@ + s@ + "%"@,
                None => r is None,
            },
    {
        match &self.search {
            Some(s) => Some(like_pattern(s.as_str())),
            None => None,
        }
    }
}

/// An administrator's listing of users.
pub struct UserListQuery {
    pub page: Option<i64>,
    pub limit: Option<i64>,
    pub search: Option<String>,
    pub role: Option<String>,
}

impl UserListQuery {
    /// Page size (default 20) and offset, as given.
    pub fn window(&self) -> (r: Option<(i64, i64)>)
        ensures
            r == window_result(plain_window(self.page, self.limit, 20)),
    {
        plain_page_window(self.page, self.limit, 20)
    }

    /// The containment pattern for the search text; an absent search
    /// gives "%%", which matches everything.
    pub fn search_pattern(&self) -> (r: String)
        ensures
            match self.search {
                Some(s) => r@ == "%"@ + s@ + "%"@,
                None => r@ == "%"@ + Seq::<char>::empty() + "%"@,
            },
    {
        match &self.search {
            Some(s) => like_pattern(s.as_str()),
            None => {
                proof {
                    reveal_strlit("");
                }
                like_pattern("")
            },
        }
    }
}

/// An administrator's listing of orders.
pub struct OrderListQuery {
    pub page: Option<i64>,
    pub limit: Option<i64>,
    pub status: Option<String>,
}

impl OrderListQuery {
    /// Page size (default 20) and offset, as given.
    pub fn window(&self) -> (r: Option<(i64, i64)>)
        ensures
            r == window_result(plain_window(self.page, self.limit, 20)),
    {
        plain_page_window(self.page, self.limit, 20)
    }
}

/// A buyer's new quantity for a cart line.
pub struct UpdateCartItemRequest {
    pub quantity: i32,
}

/// An administrator's decision on a seller's verification.
#[derive(Clone, Copy, Debug, PartialEq, Eq, Structural)]
pub enum VerificationDecision {
    Verified,
    Rejected,
}

impl VerificationDecision {
    /// Reads "VERIFIED" or "REJECTED"; any other text is refused.
    pub fn parse(s: &str) -> (r: Option<VerificationDecision>)
        ensures
            s@ == "VERIFIED"@ ==> r == Some(VerificationDecision::Verified),
            s@ == "REJECTED"@ ==> r == Some(VerificationDecision::Rejected),
            s@ != "VERIFIED"@ && s@ != "REJECTED"@ ==> r is None,
    {
        proof {
            reveal_strlit("VERIFIED");
            reveal_strlit("REJECTED");
            assert("VERIFIED"@[0] != "REJECTED"@[0]);
        }
        if str_equal(s, "VERIFIED") {
            Some(VerificationDecision::Verified)
        } else if str_equal(s, "REJECTED") {
            Some(VerificationDecision::Rejected)
        } else {
            None
        }
    }

    /// The stored text of the decision.
    pub fn as_str(&self) -> (r: &'static str)
        ensures
            *self == VerificationDecision::Verified ==> r@ == "VERIFIED"@,
            *self == VerificationDecision::Rejected ==> r@ == "REJECTED"@,
    {
        match self {
            VerificationDecision::Verified => "VERIFIED",
            VerificationDecision::Rejected => "REJECTED",
        }
    }
}

/// A user's application to sell, with their profile.
pub struct CreateArtistRequest {
    pub tribe_name: String,
    pub region: String,
    pub bio: Option<String>,
}

/// A seller's editable profile fields.
pub struct ArtistFields {
    pub tribe_name: String,
    pub region: String,
    pub bio: Option<String>,
}

/// A partial change of a seller's profile: only the fields given change.
pub struct UpdateArtistRequest {
    pub tribe_name: Option<String>,
    pub region: Option<String>,
    pub bio: Option<String>,
}

pub open spec fn override_with(given: Option<Seq<char>>, current: Seq<char>) -> Seq<char> {
    match given {
        Some(v) => v,
        None => current,
    }
}

fn clone_opt(o: &Option<String>) -> (r: Option<String>)
    ensures
        opt_view(r) == opt_view(*o),
{
    match o {
        Some(s) => Some(s.clone()),
        None => None,
    }
}

impl UpdateArtistRequest {
    /// The profile after this change.
    pub fn apply(&self, current: &ArtistFields) -> (r: ArtistFields)
        ensures
            r.tribe_name@ == override_with(opt_view(self.tribe_name), current.tribe_name@),
            r.region@ == override_with(opt_view(self.region), current.region@),
            opt_view(r.bio) == match self.bio {
                Some(b) => Some(b@),
                None => opt_view(current.bio),
            },
    {
        let tribe_name = match &self.tribe_name {
            Some(t) => t.clone(),
            None => current.tribe_name.clone(),
        };
        let region = match &self.region {
            Some(t) => t.clone(),
            None => current.region.clone(),
        };
        let bio = match &self.bio {
            Some(b) => Some(b.clone()),
            None => clone_opt(&current.bio),
        };
        ArtistFields { tribe_name, region, bio }
    }
}

/// How many orders are in one status.
pub struct OrderStatusCount {
    pub status: String,
    pub count: i64,
}

/// How many users have one role.
pub struct UserRoleCount {
    pub role: String,
    pub count: i64,
}

} // verus!
