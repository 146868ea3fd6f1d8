use marketplace::account::{trim, AuthError, AuthRequest, Claims};
use marketplace::checkout::{plan_checkout, CheckoutError, CheckoutLine};
use marketplace::queries::{
    page_window, plain_page_window, ArtistFields, ArtistOrderListQuery, OrderListQuery, OrderSort,
    UpdateArtistRequest, UserListQuery, VerificationDecision,
};
use marketplace::status::{
    str_is_blank, validate_transition, OrderStatus, StatusError, UpdateOrderItemStatusRequest,
};

fn line(product: u128, quantity: i32, unit_price: u64, available: i32) -> CheckoutLine {
    CheckoutLine { product, seller: 1, quantity, unit_price, available }
}

#[test]
fn status_text_round_trip() {
    for s in [
        OrderStatus::Placed,
        OrderStatus::Processing,
        OrderStatus::Shipped,
        OrderStatus::Delivered,
        OrderStatus::Cancelled,
    ] {
        assert_eq!(OrderStatus::parse(s.as_str()), Some(s));
    }
    assert_eq!(OrderStatus::Shipped.as_str(), "SHIPPED");
    assert_eq!(OrderStatus::parse("shipped"), None);
    assert_eq!(OrderStatus::parse(""), None);
}

#[test]
fn transition_table() {
    let t = Some("TRK".to_string());
    assert_eq!(validate_transition(OrderStatus::Placed, OrderStatus::Processing, &None), Ok(None));
    assert_eq!(validate_transition(OrderStatus::Processing, OrderStatus::Shipped, &t), Ok(Some("Tracking Number: TRK".to_string())));
    assert_eq!(validate_transition(OrderStatus::Shipped, OrderStatus::Delivered, &t), Ok(None));
    assert_eq!(validate_transition(OrderStatus::Shipped, OrderStatus::Shipped, &None), Ok(None));
    assert_eq!(validate_transition(OrderStatus::Shipped, OrderStatus::Shipped, &t), Ok(Some("Tracking Number: TRK".to_string())));
    assert_eq!(validate_transition(OrderStatus::Placed, OrderStatus::Shipped, &t), Err(StatusError::InvalidTransition));
    assert_eq!(validate_transition(OrderStatus::Placed, OrderStatus::Cancelled, &None), Err(StatusError::InvalidTransition));
    assert_eq!(validate_transition(OrderStatus::Delivered, OrderStatus::Placed, &None), Err(StatusError::InvalidTransition));
    assert_eq!(validate_transition(OrderStatus::Processing, OrderStatus::Shipped, &None), Err(StatusError::TrackingNumberRequired));
    assert_eq!(
        validate_transition(OrderStatus::Processing, OrderStatus::Shipped, &Some(" \t\n".to_string())),
        Err(StatusError::TrackingNumberRequired)
    );
}

#[test]
fn blank_text() {
    assert!(str_is_blank(""));
    assert!(str_is_blank(" \u{3000}\u{a0}"));
    assert!(!str_is_blank(" a "));
}

#[test]
fn status_request_check() {
    let req = UpdateOrderItemStatusRequest { status: "SHIPPED".to_string(), tracking_number: Some("Z9".to_string()) };
    assert_eq!(
        req.check(OrderStatus::Processing),
        Ok((OrderStatus::Shipped, Some("Tracking Number: Z9".to_string())))
    );
    assert_eq!(req.check(OrderStatus::Placed), Err(StatusError::InvalidTransition));
    let unknown = UpdateOrderItemStatusRequest { status: "LOST".to_string(), tracking_number: None };
    assert_eq!(unknown.check(OrderStatus::Placed), Err(StatusError::InvalidTransition));
}

#[test]
fn plan_checkout_outcomes() {
    assert_eq!(plan_checkout(&vec![]), Err(CheckoutError::CartEmpty));
    assert_eq!(plan_checkout(&vec![line(1, 2, 1000, 5), line(2, 1, 250, 1)]), Ok(2250));
    assert_eq!(
        plan_checkout(&vec![line(1, 2, 1000, 5), line(2, 3, 250, 1), line(3, 9, 1, 1)]),
        Err(CheckoutError::InsufficientStock(2))
    );
    assert_eq!(
        plan_checkout(&vec![line(1, 0, 1000, 5), line(2, 3, 250, 1)]),
        Err(CheckoutError::InvalidQuantity(1))
    );
    assert_eq!(
        plan_checkout(&vec![line(1, 2, u64::MAX / 2 + 1, 5)]),
        Err(CheckoutError::TotalOverflow)
    );
    assert_eq!(
        plan_checkout(&vec![line(1, 1, u64::MAX, 5), line(2, 1, 1, 5)]),
        Err(CheckoutError::TotalOverflow)
    );
}

#[test]
fn claims_identity() {
    let c = Claims {
        sub: "550e8400-e29b-41d4-a716-446655440000".to_string(),
        exp: 0,
        role: "ADMIN".to_string(),
    };
    assert_eq!(c.user_id(), Some(0x550e8400_e29b_41d4_a716_446655440000));
    assert!(c.is_admin());
    let d = Claims { sub: "not-a-uuid".to_string(), exp: 0, role: "BUYER".to_string() };
    assert_eq!(d.user_id(), None);
    assert!(!d.is_admin());
    let e = Claims { sub: String::new(), exp: 0, role: "admin".to_string() };
    assert_eq!(e.user_id(), None);
    assert!(!e.is_admin());
}

#[test]
fn registration_checks() {
    let ok = AuthRequest {
        name: None,
        email: "  Ada@Example.COM ".to_string(),
        password: "secret1".to_string(),
    };
    let r = ok.validate_registration().unwrap();
    assert_eq!(r.email, "ada@example.com");
    assert_eq!(r.name, "User");
    let named = AuthRequest { name: Some("Ada".to_string()), ..ok };
    assert_eq!(named.validate_registration().unwrap().name, "Ada");

    let empty = AuthRequest { name: None, email: String::new(), password: "secret1".to_string() };
    assert!(matches!(empty.validate_registration(), Err(AuthError::MissingCredentials)));
    let short = AuthRequest { name: None, email: "a@b".to_string(), password: "12345".to_string() };
    assert!(matches!(short.validate_registration(), Err(AuthError::PasswordTooShort)));
    let wide = AuthRequest { name: None, email: "a@b".to_string(), password: "ééé".to_string() };
    assert!(wide.validate_registration().is_ok());
    let no_at = AuthRequest { name: None, email: "ada.example.com".to_string(), password: "secret1".to_string() };
    assert!(matches!(no_at.validate_registration(), Err(AuthError::InvalidEmail)));
}

#[test]
fn login_checks() {
    let r = AuthRequest { name: None, email: " BOB@X.ORG".to_string(), password: "p".to_string() };
    assert_eq!(r.validate_login().unwrap(), "bob@x.org");
    let e = AuthRequest { name: None, email: "bob@x.org".to_string(), password: String::new() };
    assert_eq!(e.validate_login(), Err(AuthError::MissingCredentials));
}

#[test]
fn trimming() {
    assert_eq!(trim("  a b \n"), "a b");
    assert_eq!(trim("   "), "");
    assert_eq!(trim(""), "");
}

#[test]
fn paging_windows() {
    assert_eq!(page_window(None, None, 10), Some((10, 0)));
    assert_eq!(page_window(Some(3), Some(25), 10), Some((25, 50)));
    assert_eq!(page_window(Some(0), Some(-5), 10), Some((1, 0)));
    assert_eq!(page_window(Some(i64::MAX), Some(i64::MAX), 10), None);
    assert_eq!(plain_page_window(Some(0), Some(20), 20), Some((20, -20)));
    assert_eq!(plain_page_window(Some(i64::MIN), Some(0), 20), Some((0, 0)));
    assert_eq!(plain_page_window(Some(i64::MIN), Some(2), 20), None);
    let q = UserListQuery { page: Some(2), limit: None, search: Some("ann".to_string()), role: None };
    assert_eq!(q.window(), Some((20, 20)));
    assert_eq!(q.search_pattern(), "%ann%");
    let all = UserListQuery { page: None, limit: None, search: None, role: None };
    assert_eq!(all.search_pattern(), "%%");
    let o = OrderListQuery { page: Some(4), limit: Some(5), status: None };
    assert_eq!(o.window(), Some((5, 15)));
}

#[test]
fn artist_order_listing() {
    let q = ArtistOrderListQuery {
        page: Some(2),
        limit: Some(0),
        search: Some("vase".to_string()),
        status: None,
        sort: Some("amount_desc".to_string()),
    };
    assert_eq!(q.window(), Some((1, 1)));
    assert_eq!(q.sort_order(), OrderSort::AmountDesc);
    assert_eq!(q.search_pattern(), Some("%vase%".to_string()));
    let d = ArtistOrderListQuery { page: None, limit: None, search: None, status: None, sort: Some("weird".to_string()) };
    assert_eq!(d.sort_order(), OrderSort::Recent);
    assert_eq!(d.search_pattern(), None);
    let o = ArtistOrderListQuery { sort: Some("oldest".to_string()), ..d };
    assert_eq!(o.sort_order(), OrderSort::Oldest);
}

#[test]
fn verification_decisions() {
    assert_eq!(VerificationDecision::parse("VERIFIED"), Some(VerificationDecision::Verified));
    assert_eq!(VerificationDecision::parse("REJECTED"), Some(VerificationDecision::Rejected));
    assert_eq!(VerificationDecision::parse("PENDING"), None);
    assert_eq!(VerificationDecision::Rejected.as_str(), "REJECTED");
}

#[test]
fn partial_profile_update() {
    let current = ArtistFields { tribe_name: "Akan".to_string(), region: "Ashanti".to_string(), bio: Some("old".to_string()) };
    let change = UpdateArtistRequest { tribe_name: None, region: Some("Volta".to_string()), bio: None };
    let next = change.apply(&current);
    assert_eq!(next.tribe_name, "Akan");
    assert_eq!(next.region, "Volta");
    assert_eq!(next.bio, Some("old".to_string()));
}
