use marketplace::status::OrderStatus;
use marketplace::store::{cart_items_total, check_quantity, CartItem, Marketplace, SellerStats, StoreError};
use marketplace::upload::{accepted_image_extension, image_extension_accepted};

#[test]
fn image_extensions() {
    assert_eq!(accepted_image_extension("PHOTO.JPG"), Some("JPG".to_string()));
    assert_eq!(accepted_image_extension("archive.tar.png"), Some("png".to_string()));
    assert_eq!(accepted_image_extension("notes.txt"), None);
    assert_eq!(accepted_image_extension("noextension"), None);
    assert_eq!(accepted_image_extension("trailing."), None);
    assert_eq!(accepted_image_extension(".webp"), Some("webp".to_string()));
    assert!(image_extension_accepted("jpeg"));
    assert!(!image_extension_accepted("JPEG"));
}

#[test]
fn quantity_rule() {
    assert_eq!(check_quantity(1), Ok(()));
    assert_eq!(check_quantity(0), Err(StoreError::InvalidQuantity));
    assert_eq!(check_quantity(i32::MIN), Err(StoreError::InvalidQuantity));
}

#[test]
fn cart_line_totals() {
    let lines = vec![
        CartItem { product: 1, quantity: 3, unit_price: 1000 },
        CartItem { product: 2, quantity: 1, unit_price: 5 },
    ];
    assert_eq!(cart_items_total(&lines), Some(3005));
    assert_eq!(cart_items_total(&vec![]), Some(0));
    let big = vec![CartItem { product: 1, quantity: 2, unit_price: u64::MAX }];
    assert_eq!(cart_items_total(&big), None);
}

#[test]
fn seller_dashboard_figures() {
    let mut m = Marketplace::new();
    let a = m.add_product(7, 250, 10).unwrap();
    let b = m.add_product(8, 999, 10).unwrap();
    m.add_to_cart(1, a, 2).unwrap();
    m.add_to_cart(1, b, 1).unwrap();
    let order = m.checkout(1).unwrap();
    m.add_to_cart(2, a, 1).unwrap();
    m.checkout(2).unwrap();
    let first = m.items_of_order(order)[0].id;
    m.update_item_status(7, first, OrderStatus::Processing, &None).unwrap();
    assert_eq!(
        m.seller_stats(7),
        SellerStats { total_sales: 1, pending_orders: 2, total_revenue: Some(750) }
    );
    assert_eq!(
        m.seller_stats(8),
        SellerStats { total_sales: 0, pending_orders: 1, total_revenue: Some(999) }
    );
    assert_eq!(
        m.seller_stats(9),
        SellerStats { total_sales: 0, pending_orders: 0, total_revenue: Some(0) }
    );
}

#[test]
fn seller_view_of_an_order() {
    let mut m = Marketplace::new();
    let a = m.add_product(7, 100, 10).unwrap();
    let b = m.add_product(8, 300, 10).unwrap();
    m.add_to_cart(1, a, 1).unwrap();
    m.add_to_cart(1, b, 2).unwrap();
    let order = m.checkout(1).unwrap();
    let mine = m.order_lines_for_seller(order, 8).unwrap();
    assert_eq!(mine.len(), 1);
    assert_eq!(mine[0].product, b);
    assert!(m.order_lines_for_seller(order, 9).is_none());
    assert!(m.order_lines_for_seller(order + 1, 7).is_none());
}

#[test]
fn revenue_over_orders() {
    let mut m = Marketplace::new();
    assert_eq!(m.total_revenue(), Some(0));
    let a = m.add_product(7, 150, 10).unwrap();
    m.add_to_cart(1, a, 2).unwrap();
    m.checkout(1).unwrap();
    m.add_to_cart(2, a, 1).unwrap();
    m.checkout(2).unwrap();
    assert_eq!(m.total_revenue(), Some(450));
}

#[test]
fn cart_created_once_per_buyer() {
    let mut m = Marketplace::new();
    let first = m.get_or_create_cart(5);
    let second = m.get_or_create_cart(6);
    assert_ne!(first, second);
    assert_eq!(m.get_or_create_cart(5), first);
    assert_eq!(m.cart_lines(5).len(), 0);
    assert_eq!(m.checkout(5), Err(marketplace::checkout::CheckoutError::CartEmpty));
}

#[test]
fn price_frozen_once_ordered() {
    let mut m = Marketplace::new();
    let p = m.add_product(7, 400, 10).unwrap();
    assert_eq!(m.update_product(7, p, 450, 10), Ok(()));
    m.add_to_cart(1, p, 1).unwrap();
    m.checkout(1).unwrap();
    assert_eq!(m.update_product(7, p, 500, 10), Err(StoreError::Conflict));
    assert_eq!(m.product(p).unwrap().price, 450);
    assert_eq!(m.product(p).unwrap().available, 9);
    assert_eq!(m.update_product(7, p, 450, 20), Ok(()));
    assert_eq!(m.product(p).unwrap().available, 20);
    assert!(marketplace::store::price_change_allowed(5, 5, true));
    assert!(!marketplace::store::price_change_allowed(5, 6, true));
    assert!(marketplace::store::price_change_allowed(5, 6, false));
}

#[test]
fn buyer_orders_newest_first_and_owned() {
    let mut m = Marketplace::new();
    let p = m.add_product(7, 100, 10).unwrap();
    m.add_to_cart(1, p, 1).unwrap();
    let older = m.checkout(1).unwrap();
    m.add_to_cart(2, p, 1).unwrap();
    let other = m.checkout(2).unwrap();
    m.add_to_cart(1, p, 2).unwrap();
    let newer = m.checkout(1).unwrap();
    let mine = m.orders_of_buyer(1);
    assert_eq!(mine.len(), 2);
    assert_eq!(mine[0].id, newer);
    assert_eq!(mine[1].id, older);
    let (o, lines) = m.order_for_buyer(newer, 1).unwrap();
    assert_eq!(o.total, 200);
    assert_eq!(lines.len(), 1);
    assert_eq!(lines[0].quantity, 2);
    assert!(m.order_for_buyer(other, 1).is_none());
    assert!(m.order_for_buyer(99, 1).is_none());
}
