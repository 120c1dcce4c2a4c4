//! Decisions of the once-per-second driver loop: how an idle reading turns
//! into a tick input, and which overdue transitions deserve a notification.
//! The loop itself (sleeping, polling, delivering notifications, toggling the
//! overlay window) lives outside the library; it feeds readings and previous
//! flags in and performs the returned actions.

use crate::timer::TimerStatus;
use vstd::prelude::*;

verus! {

/// Seconds without input after which a second counts as idle.
pub const IDLE_THRESHOLD_SECONDS: u64 = 5;

/// Whether an idle-source reading makes the coming tick an idle one.
pub fn is_idle_reading(idle_seconds: u64) -> (r: bool)
    ensures
        r == (idle_seconds > IDLE_THRESHOLD_SECONDS),
{
    idle_seconds > IDLE_THRESHOLD_SECONDS
}

/// What the driver does with a fresh status snapshot.
#[derive(Clone, Copy, Debug, PartialEq, Eq, Structural)]
pub struct TickActions {
    pub notify_micro: bool,
    pub notify_rest: bool,
    pub show_overlay: bool,
}

/// Notifications are edge-triggered: one fires only when an overdue flag
/// turns from false to true, with the debouncing state (`was_*_overdue`)
/// held by the driver. The overlay simply mirrors whether any break is
/// overdue.
pub fn plan_tick_actions(
    status: &TimerStatus,
    was_micro_overdue: bool,
    was_rest_overdue: bool,
) -> (a: TickActions)
    ensures
        a.notify_micro == (status.micro_is_overdue && !was_micro_overdue),
        a.notify_rest == (status.rest_is_overdue && !was_rest_overdue),
        a.show_overlay == (status.micro_is_overdue || status.rest_is_overdue),
{
    TickActions {
        notify_micro: status.micro_is_overdue && !was_micro_overdue,
        notify_rest: status.rest_is_overdue && !was_rest_overdue,
        show_overlay: status.micro_is_overdue || status.rest_is_overdue,
    }
}

} // verus!
