//! The marketplace's state: inventory, carts, orders, order lines and the
//! status audit trail, with the operations that change it. Each operation
//! either applies all of its changes or, on error, none of them.

use vstd::prelude::*;
use crate::checkout::{
    CheckoutLine, CheckoutError, plan_checkout, plan_outcome, line_problem,
    lemma_first_problem_from,
};
use crate::status::{OrderStatus, StatusError, transition_outcome, validate_transition, opt_view};

verus! {

/// A product (artwork) offered by a seller. Prices are in cents.
#[derive(Clone, Copy, Debug, PartialEq, Eq, Structural)]
pub struct Product {
    pub id: u128,
    pub seller: u128,
    pub price: u64,
    pub available: i32,
    pub active: bool,
}

/// One line of a cart, with the unit price captured when it was added.
#[derive(Clone, Copy, Debug, PartialEq, Eq, Structural)]
pub struct CartItem {
    pub product: u128,
    pub quantity: i32,
    pub unit_price: u64,
}

/// A placed order. Its total is the sum of its lines at checkout time.
#[derive(Clone, Copy, Debug, PartialEq, Eq, Structural)]
pub struct Order {
    pub id: u128,
    pub buyer: u128,
    pub total: u64,
    pub status: OrderStatus,
}

/// One line of a placed order: the unit of fulfillment.
#[derive(Clone, Copy, Debug, PartialEq, Eq, Structural)]
pub struct OrderItem {
    pub id: u128,
    pub order: u128,
    pub product: u128,
    pub seller: u128,
    pub quantity: i32,
    pub unit_price: u64,
    pub status: OrderStatus,
}

/// One accepted status change of an order line.
pub struct AuditEntry {
    pub item: u128,
    pub status: OrderStatus,
    pub actor: u128,
    pub note: Option<String>,
}

struct Cart {
    id: u128,
    buyer: u128,
    lines: Vec<CartItem>,
}

/// Errors of the catalog and cart operations.
#[derive(Clone, Copy, Debug, PartialEq, Eq, Structural)]
pub enum StoreError {
    /// The product does not exist (or is no longer active).
    NotFound,
    /// The acting seller does not own the product.
    Forbidden,
    /// A quantity below the allowed minimum.
    InvalidQuantity,
    /// The product still has order lines awaiting delivery.
    Conflict,
    /// A quantity that no longer fits its type.
    Overflow,
}

/// The cart of one buyer, as a value.
pub struct CartModel {
    pub id: u128,
    pub buyer: u128,
    pub lines: Seq<CartItem>,
}

/// An audit entry, as a value.
pub struct AuditRecord {
    pub item: u128,
    pub status: OrderStatus,
    pub actor: u128,
    pub note: Option<Seq<char>>,
}

/// The whole state of the marketplace, as a value. Each entity's id is its
/// position in its sequence.
pub struct MarketModel {
    pub products: Seq<Product>,
    pub carts: Seq<CartModel>,
    pub orders: Seq<Order>,
    pub items: Seq<OrderItem>,
    pub audit: Seq<AuditRecord>,
}

spec fn cart_model(c: Cart) -> CartModel {
    CartModel { id: c.id, buyer: c.buyer, lines: c.lines@ }
}

pub open spec fn audit_model(a: AuditEntry) -> AuditRecord {
    AuditRecord { item: a.item, status: a.status, actor: a.actor, note: opt_view(a.note) }
}

impl MarketModel {
    pub open spec fn cart_wf(self, c: CartModel) -> bool {
        &&& forall|j: int|
            0 <= j < c.lines.len() ==> (#[trigger] c.lines[j]).quantity >= 1
                && c.lines[j].product < self.products.len()
        &&& forall|j: int, k: int|
            0 <= j < c.lines.len() && 0 <= k < c.lines.len() && j != k ==> (#[trigger] c.lines[j]).product
                != (#[trigger] c.lines[k]).product
    }

    /// The state's invariant: ids are positions, stock is never negative,
    /// one cart per buyer, one line per product in a cart, quantities at
    /// least one, and every reference points at an existing entity.
    pub open spec fn wf(self) -> bool {
        &&& forall|p: int|
            0 <= p < self.products.len() ==> (#[trigger] self.products[p]).id == p
                && self.products[p].available >= 0
        &&& forall|c: int|
            0 <= c < self.carts.len() ==> (#[trigger] self.carts[c]).id == c && self.cart_wf(
                self.carts[c],
            )
        &&& forall|c: int, d: int|
            0 <= c < self.carts.len() && 0 <= d < self.carts.len() && c != d ==> (#[trigger] self.carts[c]).buyer
                != (#[trigger] self.carts[d]).buyer
        &&& forall|o: int| 0 <= o < self.orders.len() ==> (#[trigger] self.orders[o]).id == o
        &&& forall|i: int|
            0 <= i < self.items.len() ==> (#[trigger] self.items[i]).id == i
                && self.items[i].order < self.orders.len() && self.items[i].product
                < self.products.len() && self.items[i].quantity >= 1
        &&& forall|k: int| 0 <= k < self.audit.len() ==> (#[trigger] self.audit[k]).item < self.items.len()
    }

    /// The buyer has a cart.
    pub open spec fn has_cart(self, buyer: u128) -> bool {
        exists|c: int| 0 <= c < self.carts.len() && (#[trigger] self.carts[c]).buyer == buyer
    }

    /// The position of the buyer's cart.
    pub open spec fn cart_of(self, buyer: u128) -> int {
        choose|c: int| 0 <= c < self.carts.len() && (#[trigger] self.carts[c]).buyer == buyer
    }

    /// The lines of the buyer's cart; none if the buyer has no cart.
    pub open spec fn lines_of(self, buyer: u128) -> Seq<CartItem> {
        if self.has_cart(buyer) {
            self.carts[self.cart_of(buyer)].lines
        } else {
            Seq::empty()
        }
    }
}

/// Some line of `lines` is for `product`.
pub open spec fn has_line(lines: Seq<CartItem>, product: u128) -> bool {
    exists|j: int| 0 <= j < lines.len() && (#[trigger] lines[j]).product == product
}

/// The position of a line for `product` in `lines`.
pub open spec fn line_of(lines: Seq<CartItem>, product: u128) -> int {
    choose|j: int| 0 <= j < lines.len() && (#[trigger] lines[j]).product == product
}

/// Σ unit_price × quantity over cart lines.
pub open spec fn cart_lines_total(lines: Seq<CartItem>) -> int
    decreases lines.len(),
{
    if lines.len() == 0 {
        0
    } else {
        cart_lines_total(lines.drop_last()) + lines.last().unit_price * lines.last().quantity
    }
}

/// The state with the buyer's cart present, and that cart's position.
pub open spec fn with_cart(m: MarketModel, buyer: u128) -> (MarketModel, int) {
    if m.has_cart(buyer) {
        (m, m.cart_of(buyer))
    } else {
        (
            MarketModel {
                carts: m.carts.push(
                    CartModel { id: m.carts.len() as u128, buyer, lines: Seq::empty() },
                ),
                ..m
            },
            m.carts.len() as int,
        )
    }
}

pub open spec fn set_cart_lines(m: MarketModel, c: int, lines: Seq<CartItem>) -> MarketModel {
    MarketModel { carts: m.carts.update(c, CartModel { lines, ..m.carts[c] }), ..m }
}

/// Adding `quantity` units of `product` to the buyer's cart: the cart is
/// created if needed; an existing line grows and keeps its captured price,
/// a new line captures the product's current price.
pub open spec fn add_to_cart_spec(m: MarketModel, buyer: u128, product: u128, quantity: i32) -> (
    MarketModel,
    Result<(), StoreError>,
) {
    if quantity < 1 {
        (m, Err(StoreError::InvalidQuantity))
    } else if product >= m.products.len() {
        (m, Err(StoreError::NotFound))
    } else {
        let (m1, c) = with_cart(m, buyer);
        let lines = m1.carts[c].lines;
        if has_line(lines, product) {
            let j = line_of(lines, product);
            let q = lines[j].quantity + quantity;
            if q > i32::MAX {
                (m, Err(StoreError::Overflow))
            } else {
                (
                    set_cart_lines(m1, c, lines.update(j, CartItem { quantity: q as i32, ..lines[j] })),
                    Ok(()),
                )
            }
        } else {
            (
                set_cart_lines(
                    m1,
                    c,
                    lines.push(
                        CartItem {
                            product,
                            quantity,
                            unit_price: m.products[product as int].price,
                        },
                    ),
                ),
                Ok(()),
            )
        }
    }
}

/// Setting the quantity of the buyer's line for `product`; nothing changes
/// if there is no such line.
pub open spec fn update_cart_item_spec(m: MarketModel, buyer: u128, product: u128, quantity: i32) -> (
    MarketModel,
    Result<(), StoreError>,
) {
    if quantity < 1 {
        (m, Err(StoreError::InvalidQuantity))
    } else if m.has_cart(buyer) && has_line(m.lines_of(buyer), product) {
        let c = m.cart_of(buyer);
        let lines = m.carts[c].lines;
        let j = line_of(lines, product);
        (set_cart_lines(m, c, lines.update(j, CartItem { quantity, ..lines[j] })), Ok(()))
    } else {
        (m, Ok(()))
    }
}

/// Removing the buyer's line for `product`, if there is one.
pub open spec fn remove_from_cart_spec(m: MarketModel, buyer: u128, product: u128) -> MarketModel {
    if m.has_cart(buyer) && has_line(m.lines_of(buyer), product) {
        let c = m.cart_of(buyer);
        set_cart_lines(m, c, m.carts[c].lines.remove(line_of(m.carts[c].lines, product)))
    } else {
        m
    }
}

/// Emptying the buyer's cart; the cart itself stays.
pub open spec fn clear_cart_spec(m: MarketModel, buyer: u128) -> MarketModel {
    if m.has_cart(buyer) {
        set_cart_lines(m, m.cart_of(buyer), Seq::empty())
    } else {
        m
    }
}

/// Replacing one cart's lines by well-formed lines keeps the invariant.
proof fn lemma_set_cart_lines_wf(m: MarketModel, c: int, lines: Seq<CartItem>)
    requires
        m.wf(),
        0 <= c < m.carts.len(),
        m.cart_wf(CartModel { lines, ..m.carts[c] }),
    ensures
        set_cart_lines(m, c, lines).wf(),
        set_cart_lines(m, c, lines).carts.len() == m.carts.len(),
{
    let n = set_cart_lines(m, c, lines);
    assert forall|d: int| 0 <= d < n.carts.len() implies (#[trigger] n.carts[d]).id == d
        && n.cart_wf(n.carts[d]) by {
        if d != c {
            assert(n.carts[d] == m.carts[d]);
        }
    }
    assert forall|d: int, e: int|
        0 <= d < n.carts.len() && 0 <= e < n.carts.len() && d != e implies (#[trigger] n.carts[d]).buyer
        != (#[trigger] n.carts[e]).buyer by {
        assert(n.carts[d].buyer == m.carts[d].buyer);
        assert(n.carts[e].buyer == m.carts[e].buyer);
    }
}

/// Making sure the buyer has a cart keeps the invariant.
proof fn lemma_with_cart_wf(m: MarketModel, buyer: u128)
    requires
        m.wf(),
        m.carts.len() < usize::MAX,
    ensures
        with_cart(m, buyer).0.wf(),
        0 <= with_cart(m, buyer).1 < with_cart(m, buyer).0.carts.len(),
        with_cart(m, buyer).0.carts[with_cart(m, buyer).1].buyer == buyer,
        with_cart(m, buyer).0.products == m.products,
        with_cart(m, buyer).0.orders == m.orders,
        with_cart(m, buyer).0.items == m.items,
        with_cart(m, buyer).0.audit == m.audit,
{
    if m.has_cart(buyer) {
        let c = m.cart_of(buyer);
    } else {
        let n = with_cart(m, buyer).0;
        assert forall|d: int, e: int|
            0 <= d < n.carts.len() && 0 <= e < n.carts.len() && d != e implies (#[trigger] n.carts[d]).buyer
            != (#[trigger] n.carts[e]).buyer by {
            if d < m.carts.len() && e < m.carts.len() {
                assert(n.carts[d] == m.carts[d]);
                assert(n.carts[e] == m.carts[e]);
            } else if d < m.carts.len() {
                assert(n.carts[d] == m.carts[d]);
            } else {
                assert(n.carts[e] == m.carts[e]);
            }
        }
        assert forall|d: int| 0 <= d < n.carts.len() implies (#[trigger] n.carts[d]).id == d
            && n.cart_wf(n.carts[d]) by {
            if d < m.carts.len() {
                assert(n.carts[d] == m.carts[d]);
            }
        }
    }
}

/// Each line of cart `c` joined with its product's seller and current stock.
pub open spec fn checkout_lines_of(m: MarketModel, c: int) -> Seq<CheckoutLine> {
    m.carts[c].lines.map_values(
        |l: CartItem|
            CheckoutLine {
                product: l.product,
                seller: m.products[l.product as int].seller,
                quantity: l.quantity,
                unit_price: l.unit_price,
                available: m.products[l.product as int].available,
            },
    )
}

/// Σ quantity over the lines for product `p`: what a checkout of these
/// lines takes from that product's stock.
pub open spec fn deducted(lines: Seq<CheckoutLine>, p: int) -> int
    decreases lines.len(),
{
    if lines.len() == 0 {
        0
    } else {
        deducted(lines.drop_last(), p) + if lines.last().product == p {
            lines.last().quantity as int
        } else {
            0
        }
    }
}

/// The order lines created for `lines`, numbered from `base`.
pub open spec fn placed_items(lines: Seq<CheckoutLine>, order: int, base: int) -> Seq<OrderItem> {
    Seq::new(
        lines.len(),
        |k: int|
            OrderItem {
                id: (base + k) as u128,
                order: order as u128,
                product: lines[k].product,
                seller: lines[k].seller,
                quantity: lines[k].quantity,
                unit_price: lines[k].unit_price,
                status: OrderStatus::Placed,
            },
    )
}

/// The product with `amount` units taken from its stock.
pub open spec fn with_stock_taken(p: Product, amount: int) -> Product {
    Product { available: (p.available - amount) as i32, ..p }
}

/// The state after a successful checkout of cart `c`: stock taken, one
/// order with its lines placed, the cart emptied.
pub open spec fn after_checkout(m: MarketModel, c: int, lines: Seq<CheckoutLine>, total: u64) -> MarketModel {
    MarketModel {
        products: Seq::new(
            m.products.len(),
            |p: int|
                with_stock_taken(m.products[p], deducted(lines, p)),
        ),
        carts: m.carts.update(c, CartModel { lines: Seq::empty(), ..m.carts[c] }),
        orders: m.orders.push(
            Order {
                id: m.orders.len() as u128,
                buyer: m.carts[c].buyer,
                total,
                status: OrderStatus::Placed,
            },
        ),
        items: m.items + placed_items(lines, m.orders.len() as int, m.items.len() as int),
        audit: m.audit,
    }
}

/// Checkout of the buyer's cart as one transaction: the new state and the
/// new order's id, or an error and the state unchanged.
pub open spec fn checkout_spec(m: MarketModel, buyer: u128) -> (
    MarketModel,
    Result<u128, CheckoutError>,
) {
    if !m.has_cart(buyer) {
        (m, Err(CheckoutError::CartNotFound))
    } else {
        let c = m.cart_of(buyer);
        let lines = checkout_lines_of(m, c);
        match plan_outcome(lines) {
            Err(e) => (m, Err(e)),
            Ok(total) => (after_checkout(m, c, lines, total), Ok(m.orders.len() as u128)),
        }
    }
}

pub proof fn lemma_deducted_absent(lines: Seq<CheckoutLine>, p: int)
    requires
        forall|k: int| 0 <= k < lines.len() ==> (#[trigger] lines[k]).product != p,
    ensures
        deducted(lines, p) == 0,
    decreases lines.len(),
{
    if lines.len() > 0 {
        assert(lines.last() == lines[lines.len() - 1]);
        lemma_deducted_absent(lines.drop_last(), p);
    }
}

pub proof fn lemma_deducted_unique(lines: Seq<CheckoutLine>, p: int, k: int)
    requires
        0 <= k < lines.len(),
        lines[k].product == p,
        forall|a: int, b: int|
            0 <= a < lines.len() && 0 <= b < lines.len() && a != b ==> (#[trigger] lines[a]).product
                != (#[trigger] lines[b]).product,
    ensures
        deducted(lines, p) == lines[k].quantity,
    decreases lines.len(),
{
    let d = lines.drop_last();
    if k == lines.len() - 1 {
        assert forall|i: int| 0 <= i < d.len() implies (#[trigger] d[i]).product != p by {
            assert(lines[i].product != lines[k].product);
        }
        lemma_deducted_absent(d, p);
    } else {
        assert(lines[lines.len() - 1].product != lines[k].product);
        lemma_deducted_unique(d, p, k);
    }
}

/// A successful checkout keeps the invariant.
proof fn lemma_checkout_wf(m: MarketModel, buyer: u128)
    requires
        m.wf(),
        m.has_cart(buyer),
        plan_outcome(checkout_lines_of(m, m.cart_of(buyer))) is Ok,
        m.orders.len() < usize::MAX,
        m.items.len() + m.carts[m.cart_of(buyer)].lines.len() <= usize::MAX,
    ensures
        checkout_spec(m, buyer).0.wf(),
{
    let c = m.cart_of(buyer);
    let lines = checkout_lines_of(m, c);
    let total = plan_outcome(lines)->Ok_0;
    let n = after_checkout(m, c, lines, total);
    assert(checkout_spec(m, buyer).0 == n);
    assert(m.cart_wf(m.carts[c]));
    lemma_first_problem_from(lines, 0);
    assert forall|a: int, b: int|
        0 <= a < lines.len() && 0 <= b < lines.len() && a != b implies (#[trigger] lines[a]).product
        != (#[trigger] lines[b]).product by {
        assert(m.carts[c].lines[a].product != m.carts[c].lines[b].product);
    }
    assert forall|p: int| 0 <= p < n.products.len() implies (#[trigger] n.products[p]).id == p
        && n.products[p].available >= 0 by {
        if exists|k: int| 0 <= k < lines.len() && (#[trigger] lines[k]).product == p {
            let k = choose|k: int| 0 <= k < lines.len() && (#[trigger] lines[k]).product == p;
            lemma_deducted_unique(lines, p, k);
            assert(line_problem(lines[k]) is None);
        } else {
            lemma_deducted_absent(lines, p);
        }
    }
    assert forall|d: int| 0 <= d < n.carts.len() implies (#[trigger] n.carts[d]).id == d
        && n.cart_wf(n.carts[d]) by {
        if d != c {
            assert(n.carts[d] == m.carts[d]);
        }
    }
    assert forall|d: int, e: int|
        0 <= d < n.carts.len() && 0 <= e < n.carts.len() && d != e implies (#[trigger] n.carts[d]).buyer
        != (#[trigger] n.carts[e]).buyer by {
        assert(n.carts[d].buyer == m.carts[d].buyer);
        assert(n.carts[e].buyer == m.carts[e].buyer);
    }
    assert forall|i: int| 0 <= i < n.items.len() implies (#[trigger] n.items[i]).id == i
        && n.items[i].order < n.orders.len() && n.items[i].product < n.products.len()
        && n.items[i].quantity >= 1 by {
        if i >= m.items.len() {
            let k = i - m.items.len();
            assert(m.carts[c].lines[k].quantity >= 1);
            assert(m.carts[c].lines[k].product < m.products.len());
        }
    }
}

/// A seller's status change of an order line, as one transaction: the
/// line's status and one new audit entry, or an error and the state
/// unchanged. Lines of other sellers are treated as missing.
pub open spec fn update_status_spec(
    m: MarketModel,
    actor: u128,
    item: u128,
    to: OrderStatus,
    tracking: Option<Seq<char>>,
) -> (MarketModel, Result<(), StatusError>) {
    if item >= m.items.len() || m.items[item as int].seller != actor {
        (m, Err(StatusError::NotFoundOrUnauthorized))
    } else {
        match transition_outcome(m.items[item as int].status, to, tracking) {
            Err(e) => (m, Err(e)),
            Ok(note) => (
                MarketModel {
                    items: m.items.update(item as int, OrderItem { status: to, ..m.items[item as int] }),
                    audit: m.audit.push(AuditRecord { item, status: to, actor, note }),
                    ..m
                },
                Ok(()),
            ),
        }
    }
}

/// Some order line references `product`.
pub open spec fn is_ordered(m: MarketModel, product: u128) -> bool {
    exists|i: int| 0 <= i < m.items.len() && (#[trigger] m.items[i]).product == product
}

/// The seller's update of a product's price and stock. Once an order line
/// references the product its price is frozen: a different price is
/// refused as a conflict.
pub open spec fn update_product_spec(
    m: MarketModel,
    seller: u128,
    product: u128,
    price: u64,
    available: i32,
) -> (MarketModel, Result<(), StoreError>) {
    if product >= m.products.len() || m.products[product as int].seller != seller {
        (m, Err(StoreError::Forbidden))
    } else if !m.products[product as int].active {
        (m, Err(StoreError::NotFound))
    } else if available < 0 {
        (m, Err(StoreError::InvalidQuantity))
    } else if price != m.products[product as int].price && is_ordered(m, product) {
        (m, Err(StoreError::Conflict))
    } else {
        (
            MarketModel {
                products: m.products.update(
                    product as int,
                    Product { price, available, ..m.products[product as int] },
                ),
                ..m
            },
            Ok(()),
        )
    }
}

/// Some order line for `product` still awaits delivery.
pub open spec fn has_open_items(m: MarketModel, product: u128) -> bool {
    exists|i: int|
        0 <= i < m.items.len() && (#[trigger] m.items[i]).product == product
            && m.items[i].status.spec_is_open()
}

pub open spec fn set_active(m: MarketModel, product: u128, active: bool) -> MarketModel {
    MarketModel {
        products: m.products.update(product as int, Product { active, ..m.products[product as int] }),
        ..m
    }
}

/// The seller's withdrawal of a product from the catalog.
pub open spec fn delete_product_spec(m: MarketModel, seller: u128, product: u128) -> (
    MarketModel,
    Result<(), StoreError>,
) {
    if product >= m.products.len() || m.products[product as int].seller != seller {
        (m, Err(StoreError::Forbidden))
    } else if has_open_items(m, product) {
        (m, Err(StoreError::Conflict))
    } else if !m.products[product as int].active {
        (m, Err(StoreError::NotFound))
    } else {
        (set_active(m, product, false), Ok(()))
    }
}

pub open spec fn of_order(order: u128) -> spec_fn(OrderItem) -> bool {
    |i: OrderItem| i.order == order
}

pub open spec fn of_seller(seller: u128) -> spec_fn(OrderItem) -> bool {
    |i: OrderItem| i.seller == seller
}

pub open spec fn of_buyer(buyer: u128) -> spec_fn(Order) -> bool {
    |o: Order| o.buyer == buyer
}

/// The buyer's orders, newest first (orders are placed in id order).
pub open spec fn newest_first(orders: Seq<Order>, buyer: u128) -> Seq<Order>
    decreases orders.len(),
{
    if orders.len() == 0 {
        Seq::empty()
    } else if orders.last().buyer == buyer {
        seq![orders.last()] + newest_first(orders.drop_last(), buyer)
    } else {
        newest_first(orders.drop_last(), buyer)
    }
}

/// With quantities of at least one, a longer prefix of cart lines never
/// totals less.
pub proof fn lemma_cart_total_monotone(lines: Seq<CartItem>, i: int, j: int)
    requires
        0 <= i <= j <= lines.len(),
        forall|k: int| 0 <= k < lines.len() ==> (#[trigger] lines[k]).quantity >= 1,
    ensures
        cart_lines_total(lines.take(i)) <= cart_lines_total(lines.take(j)),
    decreases j - i,
{
    if i < j {
        lemma_cart_total_monotone(lines, i, j - 1);
        assert(lines.take(j).drop_last() == lines.take(j - 1));
        let l = lines[j - 1];
        assert(l.unit_price * l.quantity >= 0) by (nonlinear_arith)
            requires
                l.quantity >= 1,
        ;
    }
}

/// An order line that counts as a sale: past PLACED and not cancelled.
pub open spec fn is_sale(i: OrderItem) -> bool {
    i.status != OrderStatus::Cancelled && i.status != OrderStatus::Placed
}

/// An order line that still needs the seller's attention.
pub open spec fn is_pending(i: OrderItem) -> bool {
    i.status == OrderStatus::Placed || i.status == OrderStatus::Processing
}

/// The seller's sales, pending lines and revenue (Σ unit_price × quantity
/// over lines not cancelled) over a sequence of order lines.
pub open spec fn seller_rollup(items: Seq<OrderItem>, seller: u128) -> (int, int, int)
    decreases items.len(),
{
    if items.len() == 0 {
        (0, 0, 0)
    } else {
        let (s, p, r) = seller_rollup(items.drop_last(), seller);
        let i = items.last();
        if i.seller == seller {
            (
                s + if is_sale(i) {
                    1int
                } else {
                    0
                },
                p + if is_pending(i) {
                    1int
                } else {
                    0
                },
                r + if i.status != OrderStatus::Cancelled {
                    i.unit_price * i.quantity
                } else {
                    0
                },
            )
        } else {
            (s, p, r)
        }
    }
}

/// A seller's dashboard figures.
#[derive(Clone, Copy, Debug, PartialEq, Eq, Structural)]
pub struct SellerStats {
    /// Order lines past PLACED and not cancelled.
    pub total_sales: u64,
    /// Order lines in PLACED or PROCESSING.
    pub pending_orders: u64,
    /// Σ unit_price × quantity over lines not cancelled, in cents; `None`
    /// when it does not fit in 128 bits.
    pub total_revenue: Option<u128>,
}

/// With quantities of at least one, the rollup of a longer prefix never
/// has a smaller revenue, and counts never exceed the prefix length.
pub proof fn lemma_rollup_monotone(items: Seq<OrderItem>, seller: u128, i: int, j: int)
    requires
        0 <= i <= j <= items.len(),
        forall|k: int| 0 <= k < items.len() ==> (#[trigger] items[k]).quantity >= 1,
    ensures
        0 <= seller_rollup(items.take(i), seller).2 <= seller_rollup(items.take(j), seller).2,
        0 <= seller_rollup(items.take(j), seller).0 <= j,
        0 <= seller_rollup(items.take(j), seller).1 <= j,
    decreases j,
{
    if j > 0 {
        assert(items.take(j).drop_last() == items.take(j - 1));
        assert(items.take(j).last() == items[j - 1]);
        let it = items[j - 1];
        assert(it.unit_price * it.quantity >= 0) by (nonlinear_arith)
            requires
                it.quantity >= 1,
        ;
        if i < j {
            lemma_rollup_monotone(items, seller, i, j - 1);
        } else {
            lemma_rollup_monotone(items, seller, j - 1, j - 1);
        }
    } else {
        assert(items.take(0) == Seq::<OrderItem>::empty());
    }
}

/// Whether a product's price may become `requested`: always when it stays
/// the same, otherwise only while no order line references the product.
pub fn price_change_allowed(current: u64, requested: u64, ordered: bool) -> (r: bool)
    ensures
        r == (requested == current || !ordered),
{
    requested == current || !ordered
}

/// A cart quantity must be at least one.
pub fn check_quantity(quantity: i32) -> (r: Result<(), StoreError>)
    ensures
        quantity >= 1 ==> r is Ok,
        quantity < 1 ==> r == Err::<(), StoreError>(StoreError::InvalidQuantity),
{
    if quantity < 1 {
        Err(StoreError::InvalidQuantity)
    } else {
        Ok(())
    }
}

/// Σ unit_price × quantity over cart lines, with their captured prices;
/// `None` when that sum does not fit in 64 bits.
pub fn cart_items_total(lines: &Vec<CartItem>) -> (r: Option<u64>)
    requires
        forall|k: int| 0 <= k < lines@.len() ==> (#[trigger] lines@[k]).quantity >= 1,
    ensures
        cart_lines_total(lines@) <= u64::MAX ==> r == Some(cart_lines_total(lines@) as u64),
        cart_lines_total(lines@) > u64::MAX ==> r is None,
{
    let ghost ls = lines@;
    proof {
        lemma_cart_total_monotone(ls, 0, ls.len() as int);
        assert(ls.take(ls.len() as int) =~= ls);
    }
    let mut total: u64 = 0;
    let mut i: usize = 0;
    while i < lines.len()
        invariant
            lines@ == ls,
            i <= ls.len(),
            forall|k: int| 0 <= k < ls.len() ==> (#[trigger] ls[k]).quantity >= 1,
            total == cart_lines_total(ls.take(i as int)),
            cart_lines_total(ls) == cart_lines_total(ls.take(ls.len() as int)),
        decreases ls.len() - i,
    {
        let l = lines[i];
        proof {
            assert(ls.take(i + 1).drop_last() =~= ls.take(i as int));
            lemma_cart_total_monotone(ls, i + 1, ls.len() as int);
            lemma_cart_total_monotone(ls, 0, i as int);
            assert(ls.take(0) =~= Seq::<CartItem>::empty());
            assert(l == ls[i as int]);
            assert(ls.take(i + 1).last() == ls[i as int]);
            assert(cart_lines_total(ls.take(i + 1)) == total + l.unit_price * l.quantity);
        }
        let sub = match l.unit_price.checked_mul(l.quantity as u64) {
            Some(v) => v,
            None => {
                proof {
                    assert(cart_lines_total(ls.take(i + 1)) > u64::MAX);
                }
                return None;
            },
        };
        total = match total.checked_add(sub) {
            Some(t) => t,
            None => {
                proof {
                    assert(cart_lines_total(ls.take(i + 1)) > u64::MAX);
                }
                return None;
            },
        };
        i = i + 1;
    }
    Some(total)
}

pub open spec fn of_order_and_seller(order: u128, seller: u128) -> spec_fn(OrderItem) -> bool {
    |i: OrderItem| i.order == order && i.seller == seller
}

/// Σ total over the orders that are not cancelled.
pub open spec fn orders_revenue(orders: Seq<Order>) -> int
    decreases orders.len(),
{
    if orders.len() == 0 {
        0
    } else {
        orders_revenue(orders.drop_last()) + if orders.last().status != OrderStatus::Cancelled {
            orders.last().total as int
        } else {
            0
        }
    }
}

pub proof fn lemma_orders_revenue_monotone(orders: Seq<Order>, i: int, j: int)
    requires
        0 <= i <= j <= orders.len(),
    ensures
        0 <= orders_revenue(orders.take(i)) <= orders_revenue(orders.take(j)),
    decreases j,
{
    if j > 0 {
        assert(orders.take(j).drop_last() == orders.take(j - 1));
        if i < j {
            lemma_orders_revenue_monotone(orders, i, j - 1);
        } else {
            lemma_orders_revenue_monotone(orders, j - 1, j - 1);
        }
    } else {
        assert(orders.take(0) == Seq::<Order>::empty());
    }
}

/// The marketplace state. All changes go through its methods, which keep
/// its invariant.
pub struct Marketplace {
    products: Vec<Product>,
    carts: Vec<Cart>,
    orders: Vec<Order>,
    items: Vec<OrderItem>,
    audit: Vec<AuditEntry>,
}

impl View for Marketplace {
    type V = MarketModel;

    closed spec fn view(&self) -> MarketModel {
        MarketModel {
            products: self.products@,
            carts: self.carts@.map_values(|c: Cart| cart_model(c)),
            orders: self.orders@,
            items: self.items@,
            audit: self.audit@.map_values(|a: AuditEntry| audit_model(a)),
        }
    }
}

impl Marketplace {
    pub open spec fn wf(&self) -> bool {
        self@.wf()
    }

    /// An empty marketplace.
    pub fn new() -> (r: Marketplace)
        ensures
            r.wf(),
            r@.products.len() == 0,
            r@.carts.len() == 0,
            r@.orders.len() == 0,
            r@.items.len() == 0,
            r@.audit.len() == 0,
    {
        Marketplace {
            products: Vec::new(),
            carts: Vec::new(),
            orders: Vec::new(),
            items: Vec::new(),
            audit: Vec::new(),
        }
    }

    /// Position of the buyer's cart, if the buyer has one.
    fn find_cart(&self, buyer: u128) -> (r: Option<usize>)
        requires
            self.wf(),
        ensures
            match r {
                Some(c) => self@.has_cart(buyer) && c == self@.cart_of(buyer) && c
                    < self@.carts.len(),
                None => !self@.has_cart(buyer),
            },
    {
        let mut c: usize = 0;
        while c < self.carts.len()
            invariant
                self.wf(),
                c <= self@.carts.len(),
                forall|d: int| 0 <= d < c ==> (#[trigger] self@.carts[d]).buyer != buyer,
            decreases self@.carts.len() - c,
        {
            if self.carts[c].buyer == buyer {
                proof {
                    assert(self@.carts[c as int].buyer == buyer);
                    let d = self@.cart_of(buyer);
                    assert(self@.carts[d].buyer == buyer);
                }
                return Some(c);
            }
            c = c + 1;
        }
        None
    }

    /// Adds a product offered by `seller` and returns its id.
    pub fn add_product(&mut self, seller: u128, price: u64, available: i32) -> (r: Result<
        u128,
        StoreError,
    >)
        requires
            old(self).wf(),
        ensures
            final(self).wf(),
            available < 0 ==> r == Err::<u128, StoreError>(StoreError::InvalidQuantity)
                && final(self)@ == old(self)@,
            available >= 0 ==> r == Ok::<u128, StoreError>(old(self)@.products.len() as u128)
                && final(self)@ == (MarketModel {
                products: old(self)@.products.push(
                    Product {
                        id: old(self)@.products.len() as u128,
                        seller,
                        price,
                        available,
                        active: true,
                    },
                ),
                ..old(self)@
            }),
    {
        if available < 0 {
            return Err(StoreError::InvalidQuantity);
        }
        let id = self.products.len() as u128;
        self.products.push(Product { id, seller, price, available, active: true });
        Ok(id)
    }

    /// Position of the line for `product`, if there is one.
    fn find_line(lines: &Vec<CartItem>, product: u128) -> (r: Option<usize>)
        requires
            forall|j: int, k: int|
                0 <= j < lines@.len() && 0 <= k < lines@.len() && j != k ==> (#[trigger] lines@[j]).product
                    != (#[trigger] lines@[k]).product,
        ensures
            match r {
                Some(j) => has_line(lines@, product) && j == line_of(lines@, product) && j
                    < lines@.len(),
                None => !has_line(lines@, product),
            },
    {
        let mut j: usize = 0;
        while j < lines.len()
            invariant
                j <= lines@.len(),
                forall|k: int| 0 <= k < j ==> (#[trigger] lines@[k]).product != product,
                forall|a: int, b: int|
                    0 <= a < lines@.len() && 0 <= b < lines@.len() && a != b ==> (#[trigger] lines@[a]).product
                        != (#[trigger] lines@[b]).product,
            decreases lines@.len() - j,
        {
            if lines[j].product == product {
                proof {
                    assert(lines@[j as int].product == product);
                    let k = line_of(lines@, product);
                    assert(lines@[k].product == product);
                    if k != j as int {
                        assert(lines@[k].product != lines@[j as int].product);
                    }
                }
                return Some(j);
            }
            j = j + 1;
        }
        None
    }

    /// Position of the buyer's cart, created empty if the buyer has none.
    fn ensure_cart(&mut self, buyer: u128) -> (c: usize)
        requires
            old(self).wf(),
        ensures
            final(self).wf(),
            (final(self)@, c as int) == with_cart(old(self)@, buyer),
    {
        match self.find_cart(buyer) {
            Some(c) => {
                proof {
                    assert(self@.carts[c as int].buyer == buyer);
                }
                c
            },
            None => {
                let c = self.carts.len();
                self.carts.push(Cart { id: c as u128, buyer, lines: Vec::new() });
                proof {
                    assert(self@.carts =~= old(self)@.carts.push(
                        CartModel { id: c as u128, buyer, lines: Seq::empty() },
                    ));
                    assert(self.carts@.len() == self.carts.len());
                    lemma_with_cart_wf(old(self)@, buyer);
                }
                c
            },
        }
    }

    /// The id of the buyer's cart, which is created empty if the buyer has
    /// none.
    pub fn get_or_create_cart(&mut self, buyer: u128) -> (r: u128)
        requires
            old(self).wf(),
        ensures
            final(self).wf(),
            (final(self)@, r as int) == with_cart(old(self)@, buyer),
    {
        let c = self.ensure_cart(buyer);
        c as u128
    }

    /// Adds `quantity` units of `product` to the buyer's cart.
    pub fn add_to_cart(&mut self, buyer: u128, product: u128, quantity: i32) -> (r: Result<
        (),
        StoreError,
    >)
        requires
            old(self).wf(),
        ensures
            final(self).wf(),
            (final(self)@, r) == add_to_cart_spec(old(self)@, buyer, product, quantity),
    {
        if let Err(e) = check_quantity(quantity) {
            return Err(e);
        }
        if product >= self.products.len() as u128 {
            return Err(StoreError::NotFound);
        }
        let price = self.products[product as usize].price;
        let existing = match self.find_cart(buyer) {
            Some(c) => {
                proof {
                    assert(self.carts@[c as int].lines@ == self@.carts[c as int].lines);
                }
                Self::find_line(&self.carts[c].lines, product)
            },
            None => None,
        };
        let c = self.ensure_cart(buyer);
        let ghost m1 = self@;
        let ghost lines = m1.carts[c as int].lines;
        match existing {
            Some(j) => {
                let old_q = self.carts[c].lines[j].quantity;
                let q = match old_q.checked_add(quantity) {
                    Some(q) => q,
                    None => {
                        return Err(StoreError::Overflow);
                    },
                };
                self.carts[c].lines[j].quantity = q;
                proof {
                    assert(self@.carts =~= old(self)@.carts.update(
                        c as int,
                        CartModel {
                            lines: lines.update(j as int, CartItem { quantity: q, ..lines[j as int] }),
                            ..old(self)@.carts[c as int]
                        },
                    ));
                    assert(self@.carts[c as int].lines =~= lines.update(
                        j as int,
                        CartItem { quantity: q, ..lines[j as int] },
                    ));
                }
            },
            None => {
                proof {
                    if has_line(lines, product) {
                        let k = line_of(lines, product);
                        assert(lines[k].product == product);
                    }
                }
                self.carts[c].lines.push(CartItem { product, quantity, unit_price: price });
                proof {
                    let nl = lines.push(CartItem { product, quantity, unit_price: price });
                    assert(self@.carts =~= m1.carts.update(
                        c as int,
                        CartModel { lines: nl, ..m1.carts[c as int] },
                    ));
                }
            },
        }
        Ok(())
    }

    /// Sets the quantity of the buyer's line for `product`.
    pub fn update_cart_item(&mut self, buyer: u128, product: u128, quantity: i32) -> (r: Result<
        (),
        StoreError,
    >)
        requires
            old(self).wf(),
        ensures
            final(self).wf(),
            (final(self)@, r) == update_cart_item_spec(old(self)@, buyer, product, quantity),
    {
        if quantity < 1 {
            return Err(StoreError::InvalidQuantity);
        }
        if let Some(c) = self.find_cart(buyer) {
            proof {
                assert(self.carts@[c as int].lines@ == self@.carts[c as int].lines);
            }
            if let Some(j) = Self::find_line(&self.carts[c].lines, product) {
                let ghost lines = self@.carts[c as int].lines;
                self.carts[c].lines[j].quantity = quantity;
                proof {
                    assert(self@.carts =~= old(self)@.carts.update(
                        c as int,
                        CartModel {
                            lines: lines.update(j as int, CartItem { quantity, ..lines[j as int] }),
                            ..old(self)@.carts[c as int]
                        },
                    ));
                }
            }
        }
        Ok(())
    }

    /// Removes the buyer's line for `product`, if there is one.
    pub fn remove_from_cart(&mut self, buyer: u128, product: u128)
        requires
            old(self).wf(),
        ensures
            final(self).wf(),
            final(self)@ == remove_from_cart_spec(old(self)@, buyer, product),
    {
        if let Some(c) = self.find_cart(buyer) {
            proof {
                assert(self.carts@[c as int].lines@ == self@.carts[c as int].lines);
            }
            if let Some(j) = Self::find_line(&self.carts[c].lines, product) {
                let ghost lines = self@.carts[c as int].lines;
                self.carts[c].lines.remove(j);
                proof {
                    assert(self@.carts =~= old(self)@.carts.update(
                        c as int,
                        CartModel { lines: lines.remove(j as int), ..old(self)@.carts[c as int] },
                    ));
                    let nl = lines.remove(j as int);
                    assert forall|a: int, b: int|
                        0 <= a < nl.len() && 0 <= b < nl.len() && a != b implies (#[trigger] nl[a]).product
                        != (#[trigger] nl[b]).product by {
                        let a0 = if a < j { a } else { a + 1 };
                        let b0 = if b < j { b } else { b + 1 };
                        assert(nl[a] == lines[a0]);
                        assert(nl[b] == lines[b0]);
                    }
                }
            }
        }
    }

    /// Empties the buyer's cart; the cart stays and can be used again.
    pub fn clear_cart(&mut self, buyer: u128)
        requires
            old(self).wf(),
        ensures
            final(self).wf(),
            final(self)@ == clear_cart_spec(old(self)@, buyer),
    {
        if let Some(c) = self.find_cart(buyer) {
            self.carts[c].lines = Vec::new();
            proof {
                assert(self@.carts =~= old(self)@.carts.update(
                    c as int,
                    CartModel { lines: Seq::empty(), ..old(self)@.carts[c as int] },
                ));
                lemma_set_cart_lines_wf(old(self)@, c as int, Seq::empty());
            }
        }
    }

    /// The lines of the buyer's cart; none if the buyer has no cart.
    pub fn cart_lines(&self, buyer: u128) -> (r: Vec<CartItem>)
        requires
            self.wf(),
        ensures
            r@ == self@.lines_of(buyer),
    {
        match self.find_cart(buyer) {
            Some(c) => {
                let mut out: Vec<CartItem> = Vec::new();
                let mut j: usize = 0;
                while j < self.carts[c].lines.len()
                    invariant
                        c < self@.carts.len(),
                        j <= self@.carts[c as int].lines.len(),
                        out@ == self@.carts[c as int].lines.take(j as int),
                    decreases self@.carts[c as int].lines.len() - j,
                {
                    out.push(self.carts[c].lines[j]);
                    proof {
                        assert(self@.carts[c as int].lines.take(j + 1) =~= self@.carts[c as int].lines.take(j as int).push(self@.carts[c as int].lines[j as int]));
                    }
                    j = j + 1;
                }
                proof {
                    assert(self@.carts[c as int].lines.take(j as int) =~= self@.carts[c as int].lines);
                }
                out
            },
            None => Vec::new(),
        }
    }
    /// Places an order for the buyer's cart, as one transaction: validates
    /// every line against current stock, creates the order (total from the
    /// prices captured in the cart) and one order line per cart line, takes
    /// the stock, and empties the cart. On error nothing changes.
    pub fn checkout(&mut self, buyer: u128) -> (r: Result<u128, CheckoutError>)
        requires
            old(self).wf(),
        ensures
            final(self).wf(),
            (final(self)@, r) == checkout_spec(old(self)@, buyer),
    {
        let c = match self.find_cart(buyer) {
            Some(c) => c,
            None => {
                return Err(CheckoutError::CartNotFound);
            },
        };
        let ghost m = self@;
        let ghost cl = m.carts[c as int].lines;
        proof {
            assert(self.carts@[c as int].lines@ == cl);
            assert(m.cart_wf(m.carts[c as int]));
        }
        let n = self.carts[c].lines.len();
        let mut lines: Vec<CheckoutLine> = Vec::new();
        let mut j: usize = 0;
        while j < n
            invariant
                self@ == m,
                m.wf(),
                c < m.carts.len(),
                self.carts@[c as int].lines@ == cl,
                cl == m.carts[c as int].lines,
                n == cl.len(),
                j <= n,
                lines@ == checkout_lines_of(m, c as int).take(j as int),
            decreases n - j,
        {
            let l = self.carts[c].lines[j];
            proof {
                assert(l == cl[j as int]);
                assert(m.cart_wf(m.carts[c as int]));
                assert(cl[j as int].product < m.products.len());
                assert(self.products@.len() == self.products.len());
            }
            let p = self.products[l.product as usize];
            lines.push(
                CheckoutLine {
                    product: l.product,
                    seller: p.seller,
                    quantity: l.quantity,
                    unit_price: l.unit_price,
                    available: p.available,
                },
            );
            proof {
                assert(lines@ =~= checkout_lines_of(m, c as int).take(j + 1));
            }
            j = j + 1;
        }
        let ghost lv = checkout_lines_of(m, c as int);
        proof {
            assert(lines@ =~= lv);
        }
        let total = match plan_checkout(&lines) {
            Ok(t) => t,
            Err(e) => {
                return Err(e);
            },
        };
        proof {
            lemma_first_problem_from(lv, 0);
            assert forall|a: int, b: int|
                0 <= a < lv.len() && 0 <= b < lv.len() && a != b implies (#[trigger] lv[a]).product
                != (#[trigger] lv[b]).product by {
                assert(cl[a].product != cl[b].product);
            }
        }
        let order_id = self.orders.len() as u128;
        self.orders.push(Order { id: order_id, buyer, total, status: OrderStatus::Placed });
        let base = self.items.len();
        let mut k: usize = 0;
        while k < n
            invariant
                lines@ == lv,
                lv == checkout_lines_of(m, c as int),
                c < m.carts.len(),
                n == lv.len(),
                k <= n,
                m.wf(),
                forall|i: int| 0 <= i < lv.len() ==> line_problem(#[trigger] lv[i]) is None,
                forall|i: int| 0 <= i < lv.len() ==> (#[trigger] lv[i]).product < m.products.len(),
                forall|a: int, b: int|
                    0 <= a < lv.len() && 0 <= b < lv.len() && a != b ==> (#[trigger] lv[a]).product
                        != (#[trigger] lv[b]).product,
                self.products@.len() == m.products.len(),
                forall|p: int|
                    0 <= p < m.products.len() ==> (#[trigger] self.products@[p]) == with_stock_taken(
                        m.products[p],
                        deducted(lv.take(k as int), p),
                    ),
                base == m.items.len(),
                self.items@ == m.items + placed_items(lv.take(k as int), order_id as int, base as int),
                self.carts@ == old(self).carts@,
                self.orders@ == m.orders.push(Order { id: order_id, buyer, total, status: OrderStatus::Placed }),
                self.audit@ == old(self).audit@,
                order_id == m.orders.len(),
            decreases n - k,
        {
            let l = lines[k];
            let ghost pk = l.product as int;
            proof {
                assert(l == lv[k as int]);
                assert(self.products@.len() == self.products.len());
                assert(lv[k as int] == checkout_lines_of(m, c as int)[k as int]);
                assert(lv[k as int].available == m.products[pk].available);
                assert forall|i: int| 0 <= i < lv.take(k as int).len() implies (#[trigger] lv.take(k as int)[i]).product != pk by {
                    assert(lv[i].product != lv[k as int].product);
                }
                lemma_deducted_absent(lv.take(k as int), pk);
                assert(line_problem(lv[k as int]) is None);
                assert(self.products@[pk] == with_stock_taken(m.products[pk], 0));
            }
            let id = self.items.len() as u128;
            self.items.push(
                OrderItem {
                    id,
                    order: order_id,
                    product: l.product,
                    seller: l.seller,
                    quantity: l.quantity,
                    unit_price: l.unit_price,
                    status: OrderStatus::Placed,
                },
            );
            let p = l.product as usize;
            self.products[p].available = self.products[p].available - l.quantity;
            proof {
                assert(lv.take(k + 1).drop_last() =~= lv.take(k as int));
                assert(self.items@ =~= m.items + placed_items(lv.take(k + 1), order_id as int, base as int));
                assert forall|q: int| 0 <= q < m.products.len() implies (#[trigger] self.products@[q])
                    == with_stock_taken(m.products[q], deducted(lv.take(k + 1), q)) by {
                    assert(lv.take(k + 1).last() == lv[k as int]);
                    assert(deducted(lv.take(k + 1), q) == deducted(lv.take(k as int), q) + if lv[k as int].product == q {
                        lv[k as int].quantity as int
                    } else {
                        0
                    });
                }
            }
            k = k + 1;
        }
        self.carts[c].lines = Vec::new();
        proof {
            assert(lv.take(n as int) =~= lv);
            assert(self.items.len() == self.items@.len());
            assert(self.orders.len() == self.orders@.len());
            lemma_checkout_wf(m, buyer);
            let e = after_checkout(m, c as int, lv, total);
            assert(self@.products =~= e.products);
            assert(self@.carts =~= e.carts);
            assert(self@.audit =~= e.audit);
            assert(self@.items =~= e.items);
        }
        Ok(order_id)
    }
    /// Moves order line `item` to status `to` on behalf of seller `actor`,
    /// and records the change in the audit trail.
    pub fn update_item_status(
        &mut self,
        actor: u128,
        item: u128,
        to: OrderStatus,
        tracking: &Option<String>,
    ) -> (r: Result<(), StatusError>)
        requires
            old(self).wf(),
        ensures
            final(self).wf(),
            (final(self)@, r) == update_status_spec(old(self)@, actor, item, to, opt_view(*tracking)),
    {
        if item >= self.items.len() as u128 {
            return Err(StatusError::NotFoundOrUnauthorized);
        }
        let i = item as usize;
        if self.items[i].seller != actor {
            return Err(StatusError::NotFoundOrUnauthorized);
        }
        let current = self.items[i].status;
        let note = match validate_transition(current, to, tracking) {
            Ok(n) => n,
            Err(e) => {
                return Err(e);
            },
        };
        let ghost nv = opt_view(note);
        self.items[i].status = to;
        self.audit.push(AuditEntry { item, status: to, actor, note });
        proof {
            assert(self@.audit =~= old(self)@.audit.push(
                AuditRecord { item, status: to, actor, note: nv },
            ));
            assert(self@.items =~= old(self)@.items.update(
                item as int,
                OrderItem { status: to, ..old(self)@.items[item as int] },
            ));
            let n = self@;
            assert(n.carts == old(self)@.carts);
            assert(n.products == old(self)@.products);
            assert(n.orders == old(self)@.orders);
            assert forall|k: int| 0 <= k < n.audit.len() implies (#[trigger] n.audit[k]).item
                < n.items.len() by {
                if k < old(self)@.audit.len() {
                    assert(n.audit[k] == old(self)@.audit[k]);
                }
            }
            assert forall|j: int| 0 <= j < n.items.len() implies (#[trigger] n.items[j]).id == j
                && n.items[j].order < n.orders.len() && n.items[j].product < n.products.len()
                && n.items[j].quantity >= 1 by {
                assert(old(self)@.items[j].id == j);
            }
        }
        Ok(())
    }
    /// Whether some order line references `product`.
    fn is_ordered(&self, product: u128) -> (r: bool)
        ensures
            r == is_ordered(self@, product),
    {
        let mut i: usize = 0;
        while i < self.items.len()
            invariant
                i <= self@.items.len(),
                forall|k: int| 0 <= k < i ==> (#[trigger] self@.items[k]).product != product,
            decreases self@.items.len() - i,
        {
            if self.items[i].product == product {
                proof {
                    assert(self@.items[i as int].product == product);
                }
                return true;
            }
            i = i + 1;
        }
        false
    }

    /// Changes the price and stock of one of the seller's products; the
    /// price stays as it is once an order line references the product.
    pub fn update_product(
        &mut self,
        seller: u128,
        product: u128,
        price: u64,
        available: i32,
    ) -> (r: Result<(), StoreError>)
        requires
            old(self).wf(),
        ensures
            final(self).wf(),
            (final(self)@, r) == update_product_spec(old(self)@, seller, product, price, available),
    {
        if product >= self.products.len() as u128 || self.products[product as usize].seller
            != seller {
            return Err(StoreError::Forbidden);
        }
        let p = product as usize;
        if !self.products[p].active {
            return Err(StoreError::NotFound);
        }
        if available < 0 {
            return Err(StoreError::InvalidQuantity);
        }
        let ordered = self.is_ordered(product);
        if !price_change_allowed(self.products[p].price, price, ordered) {
            return Err(StoreError::Conflict);
        }
        self.products[p].price = price;
        self.products[p].available = available;
        proof {
            assert(self@.products =~= old(self)@.products.update(
                product as int,
                Product { price, available, ..old(self)@.products[product as int] },
            ));
        }
        Ok(())
    }

    /// Flips whether one of the seller's products is offered; returns the
    /// new setting.
    pub fn toggle_product_active(&mut self, seller: u128, product: u128) -> (r: Result<
        bool,
        StoreError,
    >)
        requires
            old(self).wf(),
        ensures
            final(self).wf(),
            product >= old(self)@.products.len() || old(self)@.products[product as int].seller
                != seller ==> r == Err::<bool, StoreError>(StoreError::Forbidden) && final(self)@
                == old(self)@,
            product < old(self)@.products.len() && old(self)@.products[product as int].seller
                == seller ==> r == Ok::<bool, StoreError>(
                !old(self)@.products[product as int].active,
            ) && final(self)@ == set_active(
                old(self)@,
                product,
                !old(self)@.products[product as int].active,
            ),
    {
        if product >= self.products.len() as u128 || self.products[product as usize].seller
            != seller {
            return Err(StoreError::Forbidden);
        }
        let p = product as usize;
        let now = !self.products[p].active;
        self.products[p].active = now;
        proof {
            assert(self@.products =~= set_active(old(self)@, product, now).products);
        }
        Ok(now)
    }

    /// Whether some order line for `product` still awaits delivery.
    fn has_open_item(&self, product: u128) -> (r: bool)
        ensures
            r == has_open_items(self@, product),
    {
        let mut i: usize = 0;
        while i < self.items.len()
            invariant
                i <= self@.items.len(),
                forall|k: int|
                    0 <= k < i ==> !((#[trigger] self@.items[k]).product == product
                        && self@.items[k].status.spec_is_open()),
            decreases self@.items.len() - i,
        {
            if self.items[i].product == product && self.items[i].status.is_open() {
                proof {
                    assert(self@.items[i as int].product == product);
                    assert(self@.items[i as int].status.spec_is_open());
                }
                return true;
            }
            i = i + 1;
        }
        false
    }

    /// Withdraws one of the seller's products from the catalog, unless some
    /// order line for it still awaits delivery.
    pub fn delete_product(&mut self, seller: u128, product: u128) -> (r: Result<(), StoreError>)
        requires
            old(self).wf(),
        ensures
            final(self).wf(),
            (final(self)@, r) == delete_product_spec(old(self)@, seller, product),
    {
        if product >= self.products.len() as u128 || self.products[product as usize].seller
            != seller {
            return Err(StoreError::Forbidden);
        }
        if self.has_open_item(product) {
            return Err(StoreError::Conflict);
        }
        let p = product as usize;
        if !self.products[p].active {
            return Err(StoreError::NotFound);
        }
        self.products[p].active = false;
        proof {
            assert(self@.products =~= set_active(old(self)@, product, false).products);
            assert(self@ == set_active(old(self)@, product, false));
        }
        Ok(())
    }

    /// Σ unit_price × quantity over the buyer's cart, with the captured
    /// prices; `None` when that sum does not fit in 64 bits.
    pub fn cart_total(&self, buyer: u128) -> (r: Option<u64>)
        requires
            self.wf(),
        ensures
            cart_lines_total(self@.lines_of(buyer)) <= u64::MAX ==> r == Some(
                cart_lines_total(self@.lines_of(buyer)) as u64,
            ),
            cart_lines_total(self@.lines_of(buyer)) > u64::MAX ==> r is None,
    {
        let lines = self.cart_lines(buyer);
        proof {
            if self@.has_cart(buyer) {
                assert(self@.cart_wf(self@.carts[self@.cart_of(buyer)]));
            }
        }
        cart_items_total(&lines)
    }

    /// The product with this id, if there is one.
    pub fn product(&self, id: u128) -> (r: Option<Product>)
        ensures
            id < self@.products.len() ==> r == Some(self@.products[id as int]),
            id >= self@.products.len() ==> r is None,
    {
        if id < self.products.len() as u128 {
            Some(self.products[id as usize])
        } else {
            None
        }
    }

    /// The order with this id, if there is one.
    pub fn order(&self, id: u128) -> (r: Option<Order>)
        ensures
            id < self@.orders.len() ==> r == Some(self@.orders[id as int]),
            id >= self@.orders.len() ==> r is None,
    {
        if id < self.orders.len() as u128 {
            Some(self.orders[id as usize])
        } else {
            None
        }
    }

    /// The order line with this id, if there is one.
    pub fn order_item(&self, id: u128) -> (r: Option<OrderItem>)
        ensures
            id < self@.items.len() ==> r == Some(self@.items[id as int]),
            id >= self@.items.len() ==> r is None,
    {
        if id < self.items.len() as u128 {
            Some(self.items[id as usize])
        } else {
            None
        }
    }

    /// Number of entries in the audit trail.
    pub fn audit_len(&self) -> (r: usize)
        ensures
            r == self@.audit.len(),
    {
        self.audit.len()
    }

    /// A copy of the `k`-th audit entry, if there is one.
    pub fn audit_entry(&self, k: usize) -> (r: Option<AuditEntry>)
        ensures
            k < self@.audit.len() ==> r is Some && audit_model(r->Some_0) == self@.audit[k as int],
            k >= self@.audit.len() ==> r is None,
    {
        if k < self.audit.len() {
            let a = &self.audit[k];
            let note = match &a.note {
                Some(n) => Some(n.clone()),
                None => None,
            };
            Some(AuditEntry { item: a.item, status: a.status, actor: a.actor, note })
        } else {
            None
        }
    }

    /// The lines of one order, in the order they were placed.
    pub fn items_of_order(&self, order: u128) -> (r: Vec<OrderItem>)
        ensures
            r@ == self@.items.filter(of_order(order)),
    {
        let mut out: Vec<OrderItem> = Vec::new();
        let mut i: usize = 0;
        while i < self.items.len()
            invariant
                i <= self@.items.len(),
                out@ == self@.items.take(i as int).filter(of_order(order)),
            decreases self@.items.len() - i,
        {
            proof {
                reveal(Seq::filter);
                assert(self@.items.take(i + 1).drop_last() =~= self@.items.take(i as int));
            }
            if self.items[i].order == order {
                out.push(self.items[i]);
            }
            i = i + 1;
        }
        proof {
            assert(self@.items.take(i as int) =~= self@.items);
        }
        out
    }

    /// The order lines of one seller, oldest first.
    pub fn items_of_seller(&self, seller: u128) -> (r: Vec<OrderItem>)
        ensures
            r@ == self@.items.filter(of_seller(seller)),
    {
        let mut out: Vec<OrderItem> = Vec::new();
        let mut i: usize = 0;
        while i < self.items.len()
            invariant
                i <= self@.items.len(),
                out@ == self@.items.take(i as int).filter(of_seller(seller)),
            decreases self@.items.len() - i,
        {
            proof {
                reveal(Seq::filter);
                assert(self@.items.take(i + 1).drop_last() =~= self@.items.take(i as int));
            }
            if self.items[i].seller == seller {
                out.push(self.items[i]);
            }
            i = i + 1;
        }
        proof {
            assert(self@.items.take(i as int) =~= self@.items);
        }
        out
    }

    /// The orders of one buyer, newest first.
    pub fn orders_of_buyer(&self, buyer: u128) -> (r: Vec<Order>)
        ensures
            r@ == newest_first(self@.orders, buyer),
    {
        let ghost os = self@.orders;
        let mut out: Vec<Order> = Vec::new();
        let mut k: usize = self.orders.len();
        proof {
            assert(os.take(k as int) =~= os);
            assert(out@ + newest_first(os.take(k as int), buyer) =~= newest_first(os, buyer));
        }
        while k > 0
            invariant
                os == self@.orders,
                k <= os.len(),
                out@ + newest_first(os.take(k as int), buyer) == newest_first(os, buyer),
            decreases k,
        {
            let o = self.orders[k - 1];
            proof {
                assert(os.take(k as int).drop_last() =~= os.take(k - 1));
                assert(os.take(k as int).last() == o);
            }
            if o.buyer == buyer {
                proof {
                    assert(out@.push(o) + newest_first(os.take(k - 1), buyer) =~= out@ + (seq![o]
                        + newest_first(os.take(k - 1), buyer)));
                }
                out.push(o);
            }
            k = k - 1;
        }
        proof {
            assert(os.take(0) =~= Seq::<Order>::empty());
            assert(out@ + Seq::<Order>::empty() =~= out@);
        }
        out
    }

    /// An order with its lines, when `buyer` placed it; `None` otherwise,
    /// so that others' orders look the same as missing ones.
    pub fn order_for_buyer(&self, order: u128, buyer: u128) -> (r: Option<(Order, Vec<OrderItem>)>)
        ensures
            order < self@.orders.len() && self@.orders[order as int].buyer == buyer ==> r is Some
                && r->Some_0.0 == self@.orders[order as int] && r->Some_0.1@ == self@.items.filter(
                of_order(order),
            ),
            !(order < self@.orders.len() && self@.orders[order as int].buyer == buyer) ==> r is None,
    {
        match self.order(order) {
            Some(o) => {
                if o.buyer == buyer {
                    Some((o, self.items_of_order(order)))
                } else {
                    None
                }
            },
            None => None,
        }
    }

    /// The seller's dashboard figures over all order lines.
    pub fn seller_stats(&self, seller: u128) -> (r: SellerStats)
        requires
            self.wf(),
        ensures
            r.total_sales == seller_rollup(self@.items, seller).0,
            r.pending_orders == seller_rollup(self@.items, seller).1,
            seller_rollup(self@.items, seller).2 <= u128::MAX ==> r.total_revenue == Some(
                seller_rollup(self@.items, seller).2 as u128,
            ),
            seller_rollup(self@.items, seller).2 > u128::MAX ==> r.total_revenue is None,
    {
        let ghost items = self@.items;
        let n = self.items.len();
        proof {
            assert(items.take(n as int) == items);
        }
        let mut sales: u64 = 0;
        let mut pending: u64 = 0;
        let mut revenue: Option<u128> = Some(0);
        let mut i: usize = 0;
        while i < n
            invariant
                self.wf(),
                items == self@.items,
                n == items.len(),
                i <= n,
                items.take(n as int) == items,
                sales == seller_rollup(items.take(i as int), seller).0,
                pending == seller_rollup(items.take(i as int), seller).1,
                match revenue {
                    Some(v) => v == seller_rollup(items.take(i as int), seller).2,
                    None => seller_rollup(items.take(i as int), seller).2 > u128::MAX,
                },
            decreases n - i,
        {
            let it = self.items[i];
            proof {
                assert forall|k: int| 0 <= k < items.len() implies (#[trigger] items[k]).quantity
                    >= 1 by {
                    assert(self@.items[k].quantity >= 1);
                }
                assert(items.take(i + 1).drop_last() == items.take(i as int));
                assert(items.take(i + 1).last() == items[i as int]);
                lemma_rollup_monotone(items, seller, i as int, i + 1);
                lemma_rollup_monotone(items, seller, i + 1, i + 1);
                assert(n <= u64::MAX) by {
                    assert(self.items@.len() == self.items.len());
                }
                assert(it.unit_price * it.quantity <= 0xffff_ffff_ffff_ffff * 0x7fff_ffff) by (nonlinear_arith)
                    requires
                        it.unit_price <= 0xffff_ffff_ffff_ffff,
                        1 <= it.quantity <= 0x7fff_ffff,
                ;
            }
            if it.seller == seller {
                if it.status != OrderStatus::Cancelled && it.status != OrderStatus::Placed {
                    sales = sales + 1;
                }
                if it.status == OrderStatus::Placed || it.status == OrderStatus::Processing {
                    pending = pending + 1;
                }
                if it.status != OrderStatus::Cancelled {
                    let amount: u128 = it.unit_price as u128 * it.quantity as u128;
                    revenue = match revenue {
                        Some(v) => v.checked_add(amount),
                        None => None,
                    };
                }
            }
            i = i + 1;
        }
        SellerStats { total_sales: sales, pending_orders: pending, total_revenue: revenue }
    }
    /// The seller's lines of one order; `None` when the seller has no line
    /// in it, so that others' orders look the same as missing ones.
    pub fn order_lines_for_seller(&self, order: u128, seller: u128) -> (r: Option<Vec<OrderItem>>)
        ensures
            self@.items.filter(of_order_and_seller(order, seller)).len() == 0 ==> r is None,
            self@.items.filter(of_order_and_seller(order, seller)).len() > 0 ==> r is Some
                && r->Some_0@ == self@.items.filter(of_order_and_seller(order, seller)),
    {
        let mut out: Vec<OrderItem> = Vec::new();
        let mut i: usize = 0;
        while i < self.items.len()
            invariant
                i <= self@.items.len(),
                out@ == self@.items.take(i as int).filter(of_order_and_seller(order, seller)),
            decreases self@.items.len() - i,
        {
            proof {
                reveal(Seq::filter);
                assert(self@.items.take(i + 1).drop_last() =~= self@.items.take(i as int));
            }
            if self.items[i].order == order && self.items[i].seller == seller {
                out.push(self.items[i]);
            }
            i = i + 1;
        }
        proof {
            assert(self@.items.take(i as int) =~= self@.items);
        }
        if out.len() == 0 {
            None
        } else {
            Some(out)
        }
    }

    /// Σ total over the orders that are not cancelled, in cents; `None`
    /// when it does not fit in 128 bits.
    pub fn total_revenue(&self) -> (r: Option<u128>)
        ensures
            orders_revenue(self@.orders) <= u128::MAX ==> r == Some(orders_revenue(self@.orders) as u128),
            orders_revenue(self@.orders) > u128::MAX ==> r is None,
    {
        let ghost os = self@.orders;
        let n = self.orders.len();
        proof {
            assert(os.take(n as int) == os);
            lemma_orders_revenue_monotone(os, 0, n as int);
        }
        let mut total: u128 = 0;
        let mut i: usize = 0;
        while i < n
            invariant
                os == self@.orders,
                n == os.len(),
                i <= n,
                os.take(n as int) == os,
                total == orders_revenue(os.take(i as int)),
            decreases n - i,
        {
            let o = self.orders[i];
            proof {
                assert(os.take(i + 1).drop_last() == os.take(i as int));
                assert(os.take(i + 1).last() == os[i as int]);
                lemma_orders_revenue_monotone(os, i + 1, n as int);
            }
            if o.status != OrderStatus::Cancelled {
                total = match total.checked_add(o.total as u128) {
                    Some(t) => t,
                    None => {
                        return None;
                    },
                };
            }
            i = i + 1;
        }
        Some(total)
    }
}

} // verus!
