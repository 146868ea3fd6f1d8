use marketplace::checkout::CheckoutError;
use marketplace::status::{OrderStatus, StatusError};
use marketplace::store::{Marketplace, StoreError};

const BUYER: u128 = 100;
const SELLER: u128 = 200;
const OTHER_SELLER: u128 = 201;

#[test]
fn end_to_end_purchase_and_fulfillment() {
    let mut m = Marketplace::new();
    let p = m.add_product(SELLER, 1000, 5).unwrap();
    m.add_to_cart(BUYER, p, 3).unwrap();
    let order = m.checkout(BUYER).unwrap();
    assert_eq!(m.order(order).unwrap().total, 3000);
    assert_eq!(m.order(order).unwrap().status, OrderStatus::Placed);
    assert_eq!(m.product(p).unwrap().available, 2);
    assert_eq!(m.cart_lines(BUYER).len(), 0);

    let items = m.items_of_order(order);
    assert_eq!(items.len(), 1);
    let item = items[0].id;
    assert_eq!(items[0].seller, SELLER);
    assert_eq!(items[0].quantity, 3);
    assert_eq!(items[0].unit_price, 1000);
    assert_eq!(items[0].status, OrderStatus::Placed);

    assert_eq!(m.update_item_status(SELLER, item, OrderStatus::Processing, &None), Ok(()));
    assert_eq!(
        m.update_item_status(SELLER, item, OrderStatus::Shipped, &None),
        Err(StatusError::TrackingNumberRequired)
    );
    assert_eq!(m.order_item(item).unwrap().status, OrderStatus::Processing);
    let audit_before = m.audit_len();
    assert_eq!(
        m.update_item_status(SELLER, item, OrderStatus::Shipped, &Some("TRK1".to_string())),
        Ok(())
    );
    assert_eq!(m.order_item(item).unwrap().status, OrderStatus::Shipped);
    assert_eq!(m.audit_len(), audit_before + 1);
    let entry = m.audit_entry(audit_before).unwrap();
    assert_eq!(entry.item, item);
    assert_eq!(entry.status, OrderStatus::Shipped);
    assert_eq!(entry.actor, SELLER);
    assert_eq!(entry.note, Some("Tracking Number: TRK1".to_string()));
}

fn placed_line(m: &mut Marketplace) -> u128 {
    let p = m.add_product(SELLER, 500, 10).unwrap();
    m.add_to_cart(BUYER, p, 1).unwrap();
    let order = m.checkout(BUYER).unwrap();
    m.items_of_order(order)[0].id
}

#[test]
fn shipping_straight_from_placed_is_rejected() {
    let mut m = Marketplace::new();
    let item = placed_line(&mut m);
    assert_eq!(
        m.update_item_status(SELLER, item, OrderStatus::Shipped, &Some("TRK123".to_string())),
        Err(StatusError::InvalidTransition)
    );
    assert_eq!(m.order_item(item).unwrap().status, OrderStatus::Placed);
    assert_eq!(m.audit_len(), 0);
}

#[test]
fn shipping_with_tracking_records_one_entry() {
    let mut m = Marketplace::new();
    let item = placed_line(&mut m);
    m.update_item_status(SELLER, item, OrderStatus::Processing, &None).unwrap();
    assert_eq!(m.audit_len(), 1);
    assert_eq!(m.audit_entry(0).unwrap().note, None);
    assert_eq!(
        m.update_item_status(SELLER, item, OrderStatus::Shipped, &Some("   ".to_string())),
        Err(StatusError::TrackingNumberRequired)
    );
    assert_eq!(m.audit_len(), 1);
    assert_eq!(
        m.update_item_status(SELLER, item, OrderStatus::Shipped, &Some("TRK123".to_string())),
        Ok(())
    );
    assert_eq!(m.audit_len(), 2);
    let note = m.audit_entry(1).unwrap().note.unwrap();
    assert!(note.contains("TRK123"));
    assert!(m.audit_entry(2).is_none());
}

#[test]
fn other_seller_cannot_touch_line() {
    let mut m = Marketplace::new();
    let item = placed_line(&mut m);
    assert_eq!(
        m.update_item_status(OTHER_SELLER, item, OrderStatus::Processing, &None),
        Err(StatusError::NotFoundOrUnauthorized)
    );
    assert_eq!(m.order_item(item).unwrap().status, OrderStatus::Placed);
    assert_eq!(m.audit_len(), 0);
    assert_eq!(
        m.update_item_status(SELLER, 999, OrderStatus::Processing, &None),
        Err(StatusError::NotFoundOrUnauthorized)
    );
}

#[test]
fn identity_transition_is_logged() {
    let mut m = Marketplace::new();
    let item = placed_line(&mut m);
    assert_eq!(m.update_item_status(SELLER, item, OrderStatus::Placed, &None), Ok(()));
    assert_eq!(m.audit_len(), 1);
    assert_eq!(m.order_item(item).unwrap().status, OrderStatus::Placed);
}

#[test]
fn full_lifecycle_to_delivered() {
    let mut m = Marketplace::new();
    let item = placed_line(&mut m);
    m.update_item_status(SELLER, item, OrderStatus::Processing, &None).unwrap();
    m.update_item_status(SELLER, item, OrderStatus::Shipped, &Some("T-9".to_string())).unwrap();
    assert_eq!(m.update_item_status(SELLER, item, OrderStatus::Delivered, &None), Ok(()));
    assert_eq!(
        m.update_item_status(SELLER, item, OrderStatus::Processing, &None),
        Err(StatusError::InvalidTransition)
    );
    assert_eq!(
        m.update_item_status(SELLER, item, OrderStatus::Cancelled, &None),
        Err(StatusError::InvalidTransition)
    );
    assert_eq!(m.order_item(item).unwrap().status, OrderStatus::Delivered);
    assert_eq!(m.audit_len(), 3);
}

#[test]
fn short_line_aborts_whole_checkout() {
    let mut m = Marketplace::new();
    let a = m.add_product(SELLER, 100, 5).unwrap();
    let b = m.add_product(SELLER, 200, 1).unwrap();
    let c = m.add_product(OTHER_SELLER, 300, 9).unwrap();
    m.add_to_cart(BUYER, a, 2).unwrap();
    m.add_to_cart(BUYER, b, 2).unwrap();
    m.add_to_cart(BUYER, c, 1).unwrap();
    assert_eq!(m.checkout(BUYER), Err(CheckoutError::InsufficientStock(b)));
    assert_eq!(m.product(a).unwrap().available, 5);
    assert_eq!(m.product(b).unwrap().available, 1);
    assert_eq!(m.product(c).unwrap().available, 9);
    assert!(m.order(0).is_none());
    assert!(m.order_item(0).is_none());
    assert_eq!(m.cart_lines(BUYER).len(), 3);
}

#[test]
fn checkout_total_uses_captured_prices() {
    let mut m = Marketplace::new();
    let a = m.add_product(SELLER, 1250, 10).unwrap();
    let b = m.add_product(OTHER_SELLER, 99, 10).unwrap();
    m.add_to_cart(BUYER, a, 2).unwrap();
    m.add_to_cart(BUYER, b, 3).unwrap();
    m.update_product(SELLER, a, 5000, 10).unwrap();
    assert_eq!(m.cart_total(BUYER), Some(2797));
    let order = m.checkout(BUYER).unwrap();
    assert_eq!(m.order(order).unwrap().total, 2 * 1250 + 3 * 99);
    let items = m.items_of_order(order);
    assert_eq!(items.len(), 2);
    assert_eq!(items[0].unit_price, 1250);
    assert_eq!(items[1].seller, OTHER_SELLER);
}

#[test]
fn repeated_checkouts_never_oversell() {
    let mut m = Marketplace::new();
    let p = m.add_product(SELLER, 10, 5).unwrap();
    let mut taken = 0;
    for buyer in 0..6u128 {
        m.add_to_cart(buyer, p, 2).unwrap();
        if m.checkout(buyer).is_ok() {
            taken += 2;
        } else {
            assert_eq!(m.checkout(buyer), Err(CheckoutError::InsufficientStock(p)));
        }
    }
    assert_eq!(taken, 4);
    assert_eq!(m.product(p).unwrap().available, 1);
    assert!(taken <= 5);
}

#[test]
fn cart_is_emptied_and_reusable() {
    let mut m = Marketplace::new();
    let p = m.add_product(SELLER, 10, 5).unwrap();
    m.add_to_cart(BUYER, p, 1).unwrap();
    let first = m.checkout(BUYER).unwrap();
    assert_eq!(m.cart_lines(BUYER).len(), 0);
    assert_eq!(m.cart_total(BUYER), Some(0));
    assert_eq!(m.checkout(BUYER), Err(CheckoutError::CartEmpty));
    m.add_to_cart(BUYER, p, 1).unwrap();
    let second = m.checkout(BUYER).unwrap();
    assert_ne!(first, second);
    assert_eq!(m.orders_of_buyer(BUYER).len(), 2);
    assert_eq!(m.product(p).unwrap().available, 3);
}

#[test]
fn checkout_without_cart_fails() {
    let mut m = Marketplace::new();
    assert_eq!(m.checkout(BUYER), Err(CheckoutError::CartNotFound));
}

#[test]
fn checkout_total_overflow_is_refused() {
    let mut m = Marketplace::new();
    let p = m.add_product(SELLER, u64::MAX / 2, 10).unwrap();
    m.add_to_cart(BUYER, p, 3).unwrap();
    assert_eq!(m.cart_total(BUYER), None);
    assert_eq!(m.checkout(BUYER), Err(CheckoutError::TotalOverflow));
    assert_eq!(m.product(p).unwrap().available, 10);
}

#[test]
fn add_to_cart_upserts_and_keeps_price() {
    let mut m = Marketplace::new();
    let p = m.add_product(SELLER, 700, 50).unwrap();
    m.add_to_cart(BUYER, p, 2).unwrap();
    m.update_product(SELLER, p, 900, 50).unwrap();
    m.add_to_cart(BUYER, p, 3).unwrap();
    let lines = m.cart_lines(BUYER);
    assert_eq!(lines.len(), 1);
    assert_eq!(lines[0].quantity, 5);
    assert_eq!(lines[0].unit_price, 700);
}

#[test]
fn add_to_cart_errors() {
    let mut m = Marketplace::new();
    let p = m.add_product(SELLER, 700, 50).unwrap();
    assert_eq!(m.add_to_cart(BUYER, p, 0), Err(StoreError::InvalidQuantity));
    assert_eq!(m.add_to_cart(BUYER, p, -4), Err(StoreError::InvalidQuantity));
    assert_eq!(m.add_to_cart(BUYER, 77, 1), Err(StoreError::NotFound));
    m.add_to_cart(BUYER, p, i32::MAX).unwrap();
    assert_eq!(m.add_to_cart(BUYER, p, 1), Err(StoreError::Overflow));
    assert_eq!(m.cart_lines(BUYER)[0].quantity, i32::MAX);
}

#[test]
fn update_remove_and_clear_cart() {
    let mut m = Marketplace::new();
    let a = m.add_product(SELLER, 100, 50).unwrap();
    let b = m.add_product(SELLER, 10, 50).unwrap();
    m.add_to_cart(BUYER, a, 1).unwrap();
    m.add_to_cart(BUYER, b, 1).unwrap();
    assert_eq!(m.update_cart_item(BUYER, a, 0), Err(StoreError::InvalidQuantity));
    assert_eq!(m.update_cart_item(BUYER, a, 4), Ok(()));
    assert_eq!(m.cart_total(BUYER), Some(410));
    m.remove_from_cart(BUYER, a);
    let lines = m.cart_lines(BUYER);
    assert_eq!(lines.len(), 1);
    assert_eq!(lines[0].product, b);
    m.remove_from_cart(BUYER, a);
    assert_eq!(m.cart_lines(BUYER).len(), 1);
    m.clear_cart(BUYER);
    assert_eq!(m.cart_lines(BUYER).len(), 0);
    assert_eq!(m.update_cart_item(BUYER, a, 2), Ok(()));
    assert_eq!(m.cart_lines(BUYER).len(), 0);
}

#[test]
fn catalog_ownership_and_withdrawal() {
    let mut m = Marketplace::new();
    assert_eq!(m.add_product(SELLER, 1, -1), Err(StoreError::InvalidQuantity));
    let p = m.add_product(SELLER, 100, 5).unwrap();
    assert_eq!(m.update_product(OTHER_SELLER, p, 1, 1), Err(StoreError::Forbidden));
    assert_eq!(m.update_product(SELLER, p, 1, -1), Err(StoreError::InvalidQuantity));
    assert_eq!(m.delete_product(OTHER_SELLER, p), Err(StoreError::Forbidden));
    assert_eq!(m.toggle_product_active(OTHER_SELLER, p), Err(StoreError::Forbidden));

    m.add_to_cart(BUYER, p, 1).unwrap();
    let order = m.checkout(BUYER).unwrap();
    let item = m.items_of_order(order)[0].id;
    assert_eq!(m.delete_product(SELLER, p), Err(StoreError::Conflict));
    m.update_item_status(SELLER, item, OrderStatus::Processing, &None).unwrap();
    m.update_item_status(SELLER, item, OrderStatus::Shipped, &Some("X1".to_string())).unwrap();
    assert_eq!(m.delete_product(SELLER, p), Err(StoreError::Conflict));
    m.update_item_status(SELLER, item, OrderStatus::Delivered, &None).unwrap();
    assert_eq!(m.delete_product(SELLER, p), Ok(()));
    assert!(!m.product(p).unwrap().active);
    assert_eq!(m.delete_product(SELLER, p), Err(StoreError::NotFound));
    assert_eq!(m.update_product(SELLER, p, 1, 1), Err(StoreError::NotFound));
    assert_eq!(m.toggle_product_active(SELLER, p), Ok(true));
    assert_eq!(m.toggle_product_active(SELLER, p), Ok(false));
}

#[test]
fn seller_sees_own_lines() {
    let mut m = Marketplace::new();
    let a = m.add_product(SELLER, 100, 5).unwrap();
    let b = m.add_product(OTHER_SELLER, 100, 5).unwrap();
    m.add_to_cart(BUYER, a, 1).unwrap();
    m.add_to_cart(BUYER, b, 2).unwrap();
    m.checkout(BUYER).unwrap();
    let mine = m.items_of_seller(SELLER);
    assert_eq!(mine.len(), 1);
    assert_eq!(mine[0].product, a);
    assert_eq!(m.items_of_seller(OTHER_SELLER)[0].quantity, 2);
    assert_eq!(m.orders_of_buyer(BUYER + 1).len(), 0);
}
