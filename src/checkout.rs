//! Checkout planning: validates a cart's lines against current inventory
//! and computes the order total from the prices captured in the cart.

use vstd::prelude::*;

verus! {

/// A cart line joined with the current data of its product, as read at the
/// start of a checkout. Prices are in cents.
#[derive(Clone, Copy, Debug, PartialEq, Eq, Structural)]
pub struct CheckoutLine {
    pub product: u128,
    pub seller: u128,
    pub quantity: i32,
    /// Price captured when the line was added to the cart.
    pub unit_price: u64,
    /// The product's currently available quantity.
    pub available: i32,
}

/// Why a checkout was refused. Nothing is written when one is returned.
#[derive(Clone, Copy, Debug, PartialEq, Eq, Structural)]
pub enum CheckoutError {
    /// The buyer has no cart.
    CartNotFound,
    /// The buyer's cart has no lines.
    CartEmpty,
    /// A line asks for less than one unit of the product.
    InvalidQuantity(u128),
    /// A line asks for more units than the product has available.
    InsufficientStock(u128),
    /// The order total does not fit the amount type.
    TotalOverflow,
}

/// What is wrong with one line, if anything.
pub open spec fn line_problem(l: CheckoutLine) -> Option<CheckoutError> {
    if l.quantity < 1 {
        Some(CheckoutError::InvalidQuantity(l.product))
    } else if l.quantity > l.available {
        Some(CheckoutError::InsufficientStock(l.product))
    } else {
        None
    }
}

/// The problem of the first faulty line at or after index `i`.
pub open spec fn first_problem_from(lines: Seq<CheckoutLine>, i: int) -> Option<CheckoutError>
    decreases lines.len() - i,
{
    if 0 <= i < lines.len() {
        if line_problem(lines[i]) is Some {
            line_problem(lines[i])
        } else {
            first_problem_from(lines, i + 1)
        }
    } else {
        None
    }
}

pub open spec fn first_problem(lines: Seq<CheckoutLine>) -> Option<CheckoutError> {
    first_problem_from(lines, 0)
}

pub open spec fn all_lines_ok(lines: Seq<CheckoutLine>) -> bool {
    forall|j: int| 0 <= j < lines.len() ==> line_problem(#[trigger] lines[j]) is None
}

/// Σ unit_price × quantity over the lines.
pub open spec fn lines_total(lines: Seq<CheckoutLine>) -> int
    decreases lines.len(),
{
    if lines.len() == 0 {
        0
    } else {
        lines_total(lines.drop_last()) + lines.last().unit_price * lines.last().quantity
    }
}

/// The outcome a checkout owes for these lines: the order total, or the
/// first reason to refuse.
pub open spec fn plan_outcome(lines: Seq<CheckoutLine>) -> Result<u64, CheckoutError> {
    if lines.len() == 0 {
        Err(CheckoutError::CartEmpty)
    } else if first_problem(lines) is Some {
        Err(first_problem(lines)->Some_0)
    } else if lines_total(lines) > u64::MAX {
        Err(CheckoutError::TotalOverflow)
    } else {
        Ok(lines_total(lines) as u64)
    }
}

/// The first problem from `i` on is `None` exactly when every line from
/// `i` on is in order.
pub proof fn lemma_first_problem_from(lines: Seq<CheckoutLine>, i: int)
    requires
        0 <= i <= lines.len(),
    ensures
        (first_problem_from(lines, i) is None) <==> (forall|j: int|
            i <= j < lines.len() ==> line_problem(#[trigger] lines[j]) is None),
    decreases lines.len() - i,
{
    if i < lines.len() {
        lemma_first_problem_from(lines, i + 1);
    }
}

/// With no faulty line, the total of a prefix never exceeds the total of
/// a longer prefix.
pub proof fn lemma_total_monotone(lines: Seq<CheckoutLine>, i: int, j: int)
    requires
        0 <= i <= j <= lines.len(),
        forall|k: int| 0 <= k < lines.len() ==> (#[trigger] lines[k]).quantity >= 1,
    ensures
        lines_total(lines.take(i)) <= lines_total(lines.take(j)),
    decreases j - i,
{
    if i < j {
        lemma_total_monotone(lines, i, j - 1);
        assert(lines.take(j).drop_last() == lines.take(j - 1));
        let l = lines[j - 1];
        assert(l.unit_price * l.quantity >= 0) by (nonlinear_arith)
            requires
                l.quantity >= 1,
        ;
    }
}

/// Validates the lines (first faulty line wins) and computes the order
/// total from the captured prices.
pub fn plan_checkout(lines: &Vec<CheckoutLine>) -> (r: Result<u64, CheckoutError>)
    ensures
        r == plan_outcome(lines@),
{
    let n = lines.len();
    if n == 0 {
        return Err(CheckoutError::CartEmpty);
    }
    let mut i: usize = 0;
    while i < n
        invariant
            n == lines@.len(),
            0 <= i <= n,
            first_problem(lines@) == first_problem_from(lines@, i as int),
        decreases n - i,
    {
        let l = lines[i];
        if l.quantity < 1 {
            return Err(CheckoutError::InvalidQuantity(l.product));
        }
        if l.quantity > l.available {
            return Err(CheckoutError::InsufficientStock(l.product));
        }
        i = i + 1;
    }
    proof {
        lemma_first_problem_from(lines@, 0);
    }
    let mut total: u64 = 0;
    let mut i: usize = 0;
    while i < n
        invariant
            n == lines@.len(),
            0 <= i <= n,
            all_lines_ok(lines@),
            first_problem(lines@) is None,
            total == lines_total(lines@.take(i as int)),
        decreases n - i,
    {
        let l = lines[i];
        proof {
            assert(line_problem(lines@[i as int]) is None);
            assert(lines@.take(i + 1).drop_last() == lines@.take(i as int));
            assert(lines@.take(n as int) == lines@);
            lemma_total_monotone(lines@, i + 1, n as int);
        }
        let sub = match l.unit_price.checked_mul(l.quantity as u64) {
            Some(s) => s,
            None => {
                proof {
                    assert(lines_total(lines@.take(i as int)) >= 0) by {
                        lemma_total_monotone(lines@, 0, i as int);
                    }
                    assert(lines_total(lines@.take(i + 1)) > u64::MAX);
                }
                return Err(CheckoutError::TotalOverflow);
            },
        };
        total = match total.checked_add(sub) {
            Some(t) => t,
            None => {
                proof {
                    assert(lines_total(lines@.take(i + 1)) > u64::MAX);
                }
                return Err(CheckoutError::TotalOverflow);
            },
        };
        i = i + 1;
    }
    proof {
        assert(lines@.take(n as int) == lines@);
    }
    Ok(total)
}

} // verus!
