use vstd::prelude::*;

verus! {

/// Whether the shop is open, and when that last changed.
#[derive(Debug, Clone, Copy, PartialEq, Eq, Structural)]
pub struct ShopStatus {
    pub is_open: bool,
    pub toggled_at_ms: u64,
}

impl Default for ShopStatus {
    /// A shop that was never toggled is open.
    fn default() -> (r: ShopStatus)
        ensures
            r.is_open,
            r.toggled_at_ms == 0,
    {
        ShopStatus { is_open: true, toggled_at_ms: 0 }
    }
}

/// The shop opened if it was closed and closed if it was open, at `now_ms`.
pub fn toggle_shop_status(status: ShopStatus, now_ms: u64) -> (r: ShopStatus)
    ensures
        r.is_open == !status.is_open,
        r.toggled_at_ms == now_ms,
{
    ShopStatus { is_open: !status.is_open, toggled_at_ms: now_ms }
}

/// Toggling twice leaves the shop open or closed as it was.
pub proof fn lemma_toggle_twice_restores(status: ShopStatus, first: ShopStatus, second: ShopStatus)
    requires
        first.is_open == !status.is_open,
        second.is_open == !first.is_open,
    ensures
        second.is_open == status.is_open,
{
}

} // verus!
