//! Fulfillment status of an order line and the rules for changing it.

use vstd::prelude::*;
use vstd::string::StrSliceExecFns;

verus! {

/// Lifecycle stage of an order line.
#[derive(Clone, Copy, Debug, PartialEq, Eq, Structural)]
pub enum OrderStatus {
    Placed,
    Processing,
    Shipped,
    Delivered,
    Cancelled,
}

/// The text under which a status is stored and exchanged.
pub open spec fn status_name(s: OrderStatus) -> Seq<char> {
    match s {
        OrderStatus::Placed => "PLACED"@,
        OrderStatus::Processing => "PROCESSING"@,
        OrderStatus::Shipped => "SHIPPED"@,
        OrderStatus::Delivered => "DELIVERED"@,
        OrderStatus::Cancelled => "CANCELLED"@,
    }
}

/// The transition table: one step forward along
/// PLACED -> PROCESSING -> SHIPPED -> DELIVERED, or staying in place.
pub open spec fn transition_allowed(from: OrderStatus, to: OrderStatus) -> bool {
    from == to
        || (from == OrderStatus::Placed && to == OrderStatus::Processing)
        || (from == OrderStatus::Processing && to == OrderStatus::Shipped)
        || (from == OrderStatus::Shipped && to == OrderStatus::Delivered)
}

/// Entering SHIPPED from another state needs a tracking number.
pub open spec fn needs_tracking(from: OrderStatus, to: OrderStatus) -> bool {
    to == OrderStatus::Shipped && from != OrderStatus::Shipped
}

/// The characters with the Unicode White_Space property.
pub open spec fn is_white_space(c: char) -> bool {
    ('\u{9}' <= c && c <= '\u{d}')
        || c == ' '
        || c == '\u{85}'
        || c == '\u{a0}'
        || c == '\u{1680}'
        || ('\u{2000}' <= c && c <= '\u{200a}')
        || c == '\u{2028}'
        || c == '\u{2029}'
        || c == '\u{202f}'
        || c == '\u{205f}'
        || c == '\u{3000}'
}

/// A text that is empty once surrounding white space is trimmed.
pub open spec fn is_blank(s: Seq<char>) -> bool {
    forall|i: int| 0 <= i < s.len() ==> is_white_space(#[trigger] s[i])
}

/// A tracking number that can be recorded: present and not blank.
pub open spec fn tracking_present(tracking: Option<Seq<char>>) -> bool {
    match tracking {
        Some(t) => !is_blank(t),
        None => false,
    }
}

/// The note kept in the audit trail for a change to `to`.
pub open spec fn audit_note(to: OrderStatus, tracking: Option<Seq<char>>) -> Option<Seq<char>> {
    if to == OrderStatus::Shipped {
        match tracking {
            Some(t) => Some("Tracking Number: "@ + t),
            None => None,
        }
    } else {
        None
    }
}

pub open spec fn opt_view(o: Option<String>) -> Option<Seq<char>> {
    match o {
        Some(s) => Some(s@),
        None => None,
    }
}

/// Why a requested status change was refused.
#[derive(Clone, Copy, Debug, PartialEq, Eq, Structural)]
pub enum StatusError {
    /// The pair (current, requested) is not in the transition table.
    InvalidTransition,
    /// SHIPPED was requested without a usable tracking number.
    TrackingNumberRequired,
    /// The order line does not exist or belongs to another seller.
    NotFoundOrUnauthorized,
}

/// The outcome that `validate_transition` owes for a change `from -> to`.
pub open spec fn transition_outcome(
    from: OrderStatus,
    to: OrderStatus,
    tracking: Option<Seq<char>>,
) -> Result<Option<Seq<char>>, StatusError> {
    if !transition_allowed(from, to) {
        Err(StatusError::InvalidTransition)
    } else if needs_tracking(from, to) && !tracking_present(tracking) {
        Err(StatusError::TrackingNumberRequired)
    } else {
        Ok(audit_note(to, tracking))
    }
}

pub open spec fn result_view(r: Result<Option<String>, StatusError>) -> Result<
    Option<Seq<char>>,
    StatusError,
> {
    match r {
        Ok(n) => Ok(opt_view(n)),
        Err(e) => Err(e),
    }
}

impl OrderStatus {
    pub open spec fn name(self) -> Seq<char> {
        status_name(self)
    }

    /// The stored text of this status.
    pub fn as_str(&self) -> (r: &'static str)
        ensures
            r@ == self.name(),
    {
        match self {
            OrderStatus::Placed => "PLACED",
            OrderStatus::Processing => "PROCESSING",
            OrderStatus::Shipped => "SHIPPED",
            OrderStatus::Delivered => "DELIVERED",
            OrderStatus::Cancelled => "CANCELLED",
        }
    }

    /// Reads a status from its stored text; `None` for any other text.
    pub fn parse(s: &str) -> (r: Option<OrderStatus>)
        ensures
            match r {
                Some(st) => s@ == st.name(),
                None => forall|st: OrderStatus| s@ != #[trigger] st.name(),
            },
            r == OrderStatus::parse_spec(s@),
    {
        proof {
            OrderStatus::lemma_parse_spec_some(OrderStatus::Placed);
            OrderStatus::lemma_parse_spec_some(OrderStatus::Processing);
            OrderStatus::lemma_parse_spec_some(OrderStatus::Shipped);
            OrderStatus::lemma_parse_spec_some(OrderStatus::Delivered);
            OrderStatus::lemma_parse_spec_some(OrderStatus::Cancelled);
        }
        if str_equal(s, "PLACED") {
            Some(OrderStatus::Placed)
        } else if str_equal(s, "PROCESSING") {
            Some(OrderStatus::Processing)
        } else if str_equal(s, "SHIPPED") {
            Some(OrderStatus::Shipped)
        } else if str_equal(s, "DELIVERED") {
            Some(OrderStatus::Delivered)
        } else if str_equal(s, "CANCELLED") {
            Some(OrderStatus::Cancelled)
        } else {
            None
        }
    }

    /// An order line in this state still awaits delivery.
    pub open spec fn spec_is_open(self) -> bool {
        self == OrderStatus::Placed || self == OrderStatus::Processing || self
            == OrderStatus::Shipped
    }

    /// Whether an order line in this state still awaits delivery
    /// (PLACED, PROCESSING or SHIPPED).
    pub fn is_open(&self) -> (r: bool)
        ensures
            r == self.spec_is_open(),
    {
        match self {
            OrderStatus::Placed | OrderStatus::Processing | OrderStatus::Shipped => true,
            _ => false,
        }
    }
}

/// Character-wise equality of two texts.
pub fn str_equal(a: &str, b: &str) -> (r: bool)
    ensures
        r == (a@ == b@),
{
    let n = a.unicode_len();
    if n != b.unicode_len() {
        return false;
    }
    let mut i: usize = 0;
    while i < n
        invariant
            n == a@.len(),
            n == b@.len(),
            i <= n,
            a@.subrange(0, i as int) == b@.subrange(0, i as int),
        decreases n - i,
    {
        if a.get_char(i) != b.get_char(i) {
            assert(a@[i as int] != b@[i as int]);
            return false;
        }
        assert(a@.subrange(0, i + 1) == a@.subrange(0, i as int).push(a@[i as int]));
        assert(b@.subrange(0, i + 1) == b@.subrange(0, i as int).push(b@[i as int]));
        i = i + 1;
    }
    assert(a@ == a@.subrange(0, n as int));
    assert(b@ == b@.subrange(0, n as int));
    true
}

/// Whether `c` has the Unicode White_Space property.
pub fn char_is_white_space(c: char) -> (r: bool)
    ensures
        r == is_white_space(c),
{
    ('\u{9}' <= c && c <= '\u{d}') || c == ' ' || c == '\u{85}' || c == '\u{a0}' || c
        == '\u{1680}' || ('\u{2000}' <= c && c <= '\u{200a}') || c == '\u{2028}' || c
        == '\u{2029}' || c == '\u{202f}' || c == '\u{205f}' || c == '\u{3000}'
}

/// Whether `s` holds nothing but white space.
pub fn str_is_blank(s: &str) -> (r: bool)
    ensures
        r == is_blank(s@),
{
    let n = s.unicode_len();
    let mut i: usize = 0;
    while i < n
        invariant
            n == s@.len(),
            i <= n,
            forall|k: int| 0 <= k < i ==> is_white_space(#[trigger] s@[k]),
        decreases n - i,
    {
        if !char_is_white_space(s.get_char(i)) {
            return false;
        }
        i = i + 1;
    }
    true
}

/// Checks a requested change of an order line's status and returns the
/// note that the audit trail records for it.
pub fn validate_transition(
    from: OrderStatus,
    to: OrderStatus,
    tracking: &Option<String>,
) -> (r: Result<Option<String>, StatusError>)
    ensures
        result_view(r) == transition_outcome(from, to, opt_view(*tracking)),
{
    let allowed = match (from, to) {
        (OrderStatus::Placed, OrderStatus::Processing) => true,
        (OrderStatus::Processing, OrderStatus::Shipped) => true,
        (OrderStatus::Shipped, OrderStatus::Delivered) => true,
        _ => from == to,
    };
    if !allowed {
        return Err(StatusError::InvalidTransition);
    }
    let entering_shipped = to == OrderStatus::Shipped && from != OrderStatus::Shipped;
    if entering_shipped {
        let usable = match tracking {
            Some(t) => !str_is_blank(t.as_str()),
            None => false,
        };
        if !usable {
            return Err(StatusError::TrackingNumberRequired);
        }
    }
    if to == OrderStatus::Shipped {
        match tracking {
            Some(t) => {
                let mut note = String::from_str("Tracking Number: ");
                note.append(t.as_str());
                Ok(Some(note))
            },
            None => Ok(None),
        }
    } else {
        Ok(None)
    }
}

/// A seller's request to move an order line to another status.
pub struct UpdateOrderItemStatusRequest {
    pub status: String,
    pub tracking_number: Option<String>,
}

impl UpdateOrderItemStatusRequest {
    /// Checks this request against the line's current status: the new status
    /// and the audit note on success. Text that names no status is an
    /// invalid transition.
    pub fn check(&self, current: OrderStatus) -> (r: Result<
        (OrderStatus, Option<String>),
        StatusError,
    >)
        ensures
            match OrderStatus::parse_spec(self.status@) {
                None => r == Err::<(OrderStatus, Option<String>), StatusError>(
                    StatusError::InvalidTransition,
                ),
                Some(to) => match r {
                    Ok((t, note)) => t == to && transition_outcome(
                        current,
                        to,
                        opt_view(self.tracking_number),
                    ) == Ok::<Option<Seq<char>>, StatusError>(opt_view(note)),
                    Err(e) => transition_outcome(current, to, opt_view(self.tracking_number))
                        == Err::<Option<Seq<char>>, StatusError>(e),
                },
            },
    {
        match OrderStatus::parse(self.status.as_str()) {
            None => Err(StatusError::InvalidTransition),
            Some(to) => {
                match validate_transition(current, to, &self.tracking_number) {
                    Ok(note) => Ok((to, note)),
                    Err(e) => Err(e),
                }
            },
        }
    }
}

impl OrderStatus {
    /// The status whose name is `s`, if any.
    pub open spec fn parse_spec(s: Seq<char>) -> Option<OrderStatus> {
        if exists|st: OrderStatus| s == #[trigger] st.name() {
            Some(choose|st: OrderStatus| s == #[trigger] st.name())
        } else {
            None
        }
    }

    /// Distinct statuses have distinct names.
    pub proof fn lemma_names_distinct(a: OrderStatus, b: OrderStatus)
        ensures
            a.name() == b.name() ==> a == b,
    {
        reveal_strlit("PLACED");
        reveal_strlit("PROCESSING");
        reveal_strlit("SHIPPED");
        reveal_strlit("DELIVERED");
        reveal_strlit("CANCELLED");
        if a.name() == b.name() && a != b {
            assert(a.name().len() == b.name().len());
            assert(a.name()[1] == b.name()[1]);
            assert(a.name()[2] == b.name()[2]);
        }
    }

    pub proof fn lemma_parse_spec_some(st: OrderStatus)
        ensures
            OrderStatus::parse_spec(st.name()) == Some(st),
    {
        let c = choose|x: OrderStatus| st.name() == #[trigger] x.name();
        OrderStatus::lemma_names_distinct(c, st);
    }
}

} // verus!
