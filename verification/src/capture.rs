//! Who may use the webview's microphone, camera and screen capture.
//!
//! The webview cannot tell which frame asks for capture, so a request is
//! only allowed while a call is running, or inside a short window
//! that the application's own UI opens right before it asks. Each opening
//! of that window is good for one request.

use vstd::prelude::*;

verus! {

/// How long an arming stays good: 15 seconds, in nanoseconds.
pub const CAPTURE_INTENT_WINDOW_NS: u64 = 15_000_000_000;

/// Capture permission state. Times are nanoseconds on a monotonic clock.
pub struct CapturePolicy {
    intent: Option<u64>,
    in_call: bool,
}

/// The permission state: when it was last armed (if the arming is unused), and
/// whether a call holds it open.
pub struct PolicyView {
    pub intent: Option<u64>,
    pub in_call: bool,
}

/// The arming at `at` is still good at `now`.
pub open spec fn intent_fresh(at: u64, now: u64) -> bool {
    (if now >= at { now - at } else { 0 }) < CAPTURE_INTENT_WINDOW_NS
}

/// Whether a request is allowed in state `g`.
pub open spec fn allows(g: PolicyView, is_user_media: bool, now: u64) -> bool {
    is_user_media && (g.in_call || match g.intent {
        Some(at) => intent_fresh(at, now),
        None => false,
    })
}

/// The state after a request: a user-media request uses up the arming.
pub open spec fn after_request(g: PolicyView, is_user_media: bool) -> PolicyView {
    if is_user_media {
        PolicyView { intent: None, in_call: g.in_call }
    } else {
        g
    }
}

impl CapturePolicy {
    pub closed spec fn view(&self) -> PolicyView {
        PolicyView { intent: self.intent, in_call: self.in_call }
    }

    /// Closed: no call, nothing armed.
    pub fn new() -> (r: Self)
        ensures
            r.view() == (PolicyView { intent: None, in_call: false }),
    {
        CapturePolicy { intent: None, in_call: false }
    }

    /// Opens the one-shot window, right before the UI asks for capture.
    pub fn arm(&mut self, now: u64)
        ensures
            final(self).view() == (PolicyView { intent: Some(now), in_call: old(self).view().in_call }),
    {
        self.intent = Some(now);
    }

    /// Allows capture for the duration of a call, or stops that when the call ends.
    pub fn set_session(&mut self, active: bool)
        ensures
            final(self).view() == (PolicyView { intent: old(self).view().intent, in_call: active }),
    {
        self.in_call = active;
    }

    /// Decides a permission request. Anything but a user-media request is
    /// denied. A user-media request is allowed during a call or within the
    /// window of the last arming; the arming is used up either way, so two
    /// requests never ride on one.
    pub fn decide(&mut self, is_user_media: bool, now: u64) -> (allow: bool)
        ensures
            allow == allows(old(self).view(), is_user_media, now),
            final(self).view() == after_request(old(self).view(), is_user_media),
    {
        if !is_user_media {
            return false;
        }
        let armed = match self.intent.take() {
            Some(at) => {
                let elapsed = if now >= at { now - at } else { 0 };
                elapsed < CAPTURE_INTENT_WINDOW_NS
            },
            None => false,
        };
        self.in_call || armed
    }
}

/// Outside a call, one arming authorises at most one capture request: the
/// next request is denied unless the UI arms again.
pub proof fn law_one_request_per_arming(g: PolicyView, now: u64, later: u64)
    requires
        !g.in_call,
    ensures
        !allows(after_request(g, true), true, later),
{
}

/// Outside a call, a request the UI did not arm for is denied.
pub proof fn law_unarmed_denied(now: u64, is_user_media: bool)
    ensures
        !allows(PolicyView { intent: None, in_call: false }, is_user_media, now),
{
}

} // verus!
