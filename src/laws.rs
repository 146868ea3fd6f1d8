//! What holds of every state and every run of the marketplace operations,
//! stated over the functional specifications that the operations meet.

use vstd::prelude::*;
use crate::checkout::{
    CheckoutLine, CheckoutError, first_problem, line_problem, lines_total, plan_outcome, lemma_first_problem_from,
    lemma_total_monotone,
};
use crate::status::{OrderStatus, StatusError, tracking_present};
use crate::store::{
    MarketModel, AuditRecord, cart_lines_total, checkout_lines_of, checkout_spec,
    update_status_spec,
};

verus! {

/// The checkout lines of a cart carry the cart's quantities and captured
/// prices, so their total is the cart's total.
pub proof fn lemma_checkout_lines_total(m: MarketModel, c: int, i: int)
    requires
        0 <= c < m.carts.len(),
        0 <= i <= m.carts[c].lines.len(),
    ensures
        lines_total(checkout_lines_of(m, c).take(i)) == cart_lines_total(m.carts[c].lines.take(i)),
    decreases i,
{
    let ls = checkout_lines_of(m, c);
    let cl = m.carts[c].lines;
    if i > 0 {
        lemma_checkout_lines_total(m, c, i - 1);
        assert(ls.take(i).drop_last() == ls.take(i - 1));
        assert(cl.take(i).drop_last() == cl.take(i - 1));
        assert(ls.take(i).last() == ls[i - 1]);
        assert(cl.take(i).last() == cl[i - 1]);
    }
}

/// Checkout is all or nothing: when some line of the buyer's cart asks for
/// more units than its product has in stock, the checkout fails and leaves
/// the whole state as it was (no order, no order line, no stock change).
pub proof fn checkout_with_short_line_changes_nothing(m: MarketModel, buyer: u128, k: int)
    requires
        m.wf(),
        m.has_cart(buyer),
        0 <= k < m.lines_of(buyer).len(),
        m.lines_of(buyer)[k].quantity > m.products[m.lines_of(buyer)[k].product as int].available,
    ensures
        checkout_spec(m, buyer).0 == m,
        checkout_spec(m, buyer).1 is Err,
{
    let c = m.cart_of(buyer);
    let lines = checkout_lines_of(m, c);
    lemma_first_problem_from(lines, 0);
    assert(line_problem(lines[k]) is Some);
}

/// The total of a placed order is Σ unit_price × quantity over the cart's
/// lines, with the prices captured when the lines were added, whatever the
/// products' current prices.
pub proof fn checkout_total_is_cart_total(m: MarketModel, buyer: u128)
    requires
        m.wf(),
        checkout_spec(m, buyer).1 is Ok,
    ensures
        checkout_spec(m, buyer).0.orders.len() == m.orders.len() + 1,
        checkout_spec(m, buyer).0.orders.last().total == cart_lines_total(m.lines_of(buyer)),
{
    let c = m.cart_of(buyer);
    let cl = m.carts[c].lines;
    let lines = checkout_lines_of(m, c);
    assert(m.has_cart(buyer));
    assert(m.lines_of(buyer) == cl);
    assert(plan_outcome(lines) is Ok);
    assert(first_problem(lines) is None);
    assert(lines_total(lines) <= u64::MAX);
    assert(m.cart_wf(m.carts[c]));
    assert forall|k: int| 0 <= k < lines.len() implies (#[trigger] lines[k]).quantity >= 1 by {
        assert(cl[k].quantity >= 1);
    }
    lemma_total_monotone(lines, 0, lines.len() as int);
    assert(lines.take(lines.len() as int) == lines);
    assert(lines.take(0) == Seq::<CheckoutLine>::empty());
    lemma_checkout_lines_total(m, c, cl.len() as int);
    assert(cl.take(cl.len() as int) == cl);
    assert(checkout_lines_of(m, c).take(cl.len() as int) == checkout_lines_of(m, c));
}

/// A checkout of a non-empty cart whose every line is in stock, and whose
/// total fits in 64 bits of cents, succeeds, and the new order's total is
/// Σ unit_price × quantity over the cart's lines at their captured prices.
pub proof fn checkout_in_stock_succeeds(m: MarketModel, buyer: u128)
    requires
        m.wf(),
        m.has_cart(buyer),
        m.lines_of(buyer).len() > 0,
        forall|k: int|
            0 <= k < m.lines_of(buyer).len() ==> (#[trigger] m.lines_of(buyer)[k]).quantity
                <= m.products[m.lines_of(buyer)[k].product as int].available,
        cart_lines_total(m.lines_of(buyer)) <= u64::MAX,
    ensures
        checkout_spec(m, buyer).1 == Ok::<u128, CheckoutError>(m.orders.len() as u128),
        checkout_spec(m, buyer).0.orders.last().total == cart_lines_total(m.lines_of(buyer)),
{
    let c = m.cart_of(buyer);
    let cl = m.carts[c].lines;
    let lines = checkout_lines_of(m, c);
    assert(m.cart_wf(m.carts[c]));
    assert forall|k: int| 0 <= k < lines.len() implies line_problem(#[trigger] lines[k]) is None by {
        assert(cl[k].quantity >= 1);
        assert(cl[k] == m.lines_of(buyer)[k]);
    }
    lemma_first_problem_from(lines, 0);
    lemma_checkout_lines_total(m, c, cl.len() as int);
    assert(cl.take(cl.len() as int) == cl);
    assert(lines.take(lines.len() as int) == lines);
    assert(plan_outcome(lines) is Ok);
    checkout_total_is_cart_total(m, buyer);
}

/// Units taken from product `p` over a run of states, step by step.
pub open spec fn units_taken(states: Seq<MarketModel>, p: int) -> int
    decreases states.len(),
{
    if states.len() <= 1 {
        0
    } else {
        units_taken(states.drop_last(), p) + (states[states.len() - 2].products[p].available
            - states.last().products[p].available)
    }
}

/// No overselling: over any run of checkouts, by any buyers, the units
/// taken from a product never add up to more than its stock at the start.
pub proof fn checkouts_never_oversell(states: Seq<MarketModel>, buyers: Seq<u128>, p: int)
    requires
        states.len() == buyers.len() + 1,
        forall|i: int| 0 <= i < states.len() ==> (#[trigger] states[i]).wf(),
        forall|i: int|
            0 <= i < buyers.len() ==> states[i + 1] == (#[trigger] checkout_spec(
                states[i],
                buyers[i],
            )).0,
        0 <= p < states[0].products.len(),
    ensures
        units_taken(states, p) <= states[0].products[p].available,
        units_taken(states, p) == states[0].products[p].available - states.last().products[
            p
        ].available,
    decreases states.len(),
{
    if states.len() > 1 {
        let prev = states.drop_last();
        let n = buyers.len() as int;
        assert forall|i: int| 0 <= i < buyers.drop_last().len() implies prev[i + 1] == (#[trigger] checkout_spec(
            prev[i],
            buyers.drop_last()[i],
        )).0 by {
            assert(states[i + 1] == checkout_spec(states[i], buyers[i]).0);
        }
        assert forall|i: int| 0 <= i < prev.len() implies (#[trigger] prev[i]).wf() by {
            assert(states[i].wf());
        }
        lemma_products_len_kept(states, buyers, n);
        checkouts_never_oversell(prev, buyers.drop_last(), p);
        assert(states.last().wf());
    }
}

/// Checkouts never add or remove products.
proof fn lemma_products_len_kept(states: Seq<MarketModel>, buyers: Seq<u128>, n: int)
    requires
        states.len() == buyers.len() + 1,
        forall|i: int|
            0 <= i < buyers.len() ==> states[i + 1] == (#[trigger] checkout_spec(
                states[i],
                buyers[i],
            )).0,
        0 <= n <= buyers.len(),
    ensures
        forall|i: int| 0 <= i <= n ==> (#[trigger] states[i]).products.len() == states[0].products.len(),
    decreases n,
{
    if n > 0 {
        lemma_products_len_kept(states, buyers, n - 1);
        assert(states[n] == checkout_spec(states[n - 1], buyers[n - 1]).0);
    }
}

/// After a successful checkout the buyer still has the same cart, and it
/// holds no lines.
pub proof fn checkout_empties_cart(m: MarketModel, buyer: u128)
    requires
        m.wf(),
        checkout_spec(m, buyer).1 is Ok,
    ensures
        checkout_spec(m, buyer).0.has_cart(buyer),
        checkout_spec(m, buyer).0.cart_of(buyer) == m.cart_of(buyer),
        checkout_spec(m, buyer).0.carts.len() == m.carts.len(),
        checkout_spec(m, buyer).0.lines_of(buyer).len() == 0,
{
    let c = m.cart_of(buyer);
    let n = checkout_spec(m, buyer).0;
    assert(n.carts[c].buyer == buyer);
    let d = n.cart_of(buyer);
    assert(n.carts[d].buyer == buyer);
    if d != c {
        assert(m.carts[d].buyer == n.carts[d].buyer);
        assert(m.carts[c].buyer != m.carts[d].buyer);
    }
}

/// SHIPPED is reached only from PROCESSING and only with a tracking number:
/// from PLACED it is refused; from PROCESSING without a usable tracking
/// number it is refused; in both cases nothing changes. From PROCESSING with
/// tracking number `t` it succeeds, and exactly one audit entry is added,
/// whose note is "Tracking Number: " followed by `t`.
pub proof fn shipping_rules(m: MarketModel, actor: u128, item: u128, tracking: Option<Seq<char>>)
    requires
        item < m.items.len(),
        m.items[item as int].seller == actor,
    ensures
        m.items[item as int].status == OrderStatus::Placed ==> update_status_spec(
            m,
            actor,
            item,
            OrderStatus::Shipped,
            tracking,
        ) == (m, Err::<(), StatusError>(StatusError::InvalidTransition)),
        m.items[item as int].status == OrderStatus::Processing && !tracking_present(tracking)
            ==> update_status_spec(m, actor, item, OrderStatus::Shipped, tracking) == (
            m,
            Err::<(), StatusError>(StatusError::TrackingNumberRequired),
        ),
        m.items[item as int].status == OrderStatus::Processing && tracking_present(tracking)
            ==> {
            let n = update_status_spec(m, actor, item, OrderStatus::Shipped, tracking).0;
            &&& update_status_spec(m, actor, item, OrderStatus::Shipped, tracking).1 is Ok
            &&& n.items[item as int].status == OrderStatus::Shipped
            &&& n.audit.len() == m.audit.len() + 1
            &&& n.audit.last() == AuditRecord {
                item,
                status: OrderStatus::Shipped,
                actor,
                note: Some("Tracking Number: "@ + tracking->Some_0),
            }
        },
{
}

/// A seller can never change an order line of another seller: the attempt
/// is answered as if the line did not exist, and nothing changes.
pub proof fn other_sellers_lines_untouchable(
    m: MarketModel,
    actor: u128,
    item: u128,
    to: OrderStatus,
    tracking: Option<Seq<char>>,
)
    requires
        item < m.items.len(),
        m.items[item as int].seller != actor,
    ensures
        update_status_spec(m, actor, item, to, tracking) == (
            m,
            Err::<(), StatusError>(StatusError::NotFoundOrUnauthorized),
        ),
{
}

} // verus!
