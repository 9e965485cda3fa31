//! Status-change events and which of them a webhook is told about.

use vstd::prelude::*;
use crate::config::{WebhookNotificationConfig, WebhookNotificationEvent};
use crate::state::{CheckResultView, CheckStatus};
use crate::timefmt::{or_dash, opt_wall_rfc3339};

verus! {

/// The kind of a notification event.
#[derive(Debug, Clone, Copy, PartialEq, Eq, Structural)]
pub enum NotificationEventType {
    StatusChange,
}

/// A reported status that changed between two runs of a check.
pub struct StatusChangeEvent {
    pub event: NotificationEventType,
    pub check_name: String,
    pub critical: bool,
    pub old_status: CheckStatus,
    pub new_status: CheckStatus,
    pub timestamp: String,
    pub error: Option<String>,
    pub groups: Vec<String>,
}

/// An event, by contents.
pub struct StatusChangeEventView {
    pub event: NotificationEventType,
    pub check_name: Seq<char>,
    pub critical: bool,
    pub old_status: CheckStatus,
    pub new_status: CheckStatus,
    pub timestamp: Seq<char>,
    pub error: Option<Seq<char>>,
    pub groups: Seq<Seq<char>>,
}

impl View for StatusChangeEvent {
    type V = StatusChangeEventView;

    open spec fn view(&self) -> StatusChangeEventView {
        StatusChangeEventView {
            event: self.event,
            check_name: self.check_name@,
            critical: self.critical,
            old_status: self.old_status,
            new_status: self.new_status,
            timestamp: self.timestamp@,
            error: crate::state::opt_view(self.error),
            groups: crate::config::names(self.groups@),
        }
    }
}

/// The event that a new reported result `eff` raises after `prev`: one
/// exactly when there was a previous result that had run and the reported
/// status differs from it.
pub open spec fn change_event(
    prev: Option<CheckResultView>,
    eff: CheckResultView,
    groups: Seq<Seq<char>>,
) -> Option<StatusChangeEventView> {
    match prev {
        None => None,
        Some(p) => {
            if p.last_run is None || p.status == eff.status {
                None
            } else {
                Some(StatusChangeEventView {
                    event: NotificationEventType::StatusChange,
                    check_name: eff.name,
                    critical: eff.critical,
                    old_status: p.status,
                    new_status: eff.status,
                    timestamp: or_dash(opt_wall_rfc3339(eff.last_run)),
                    error: eff.error,
                    groups: groups,
                })
            }
        },
    }
}

/// Whether a subscription to `kind` covers `event`.
pub open spec fn subscribed(kind: WebhookNotificationEvent, old_status: CheckStatus, new_status: CheckStatus) -> bool {
    match kind {
        WebhookNotificationEvent::Down => new_status == CheckStatus::Down,
        WebhookNotificationEvent::Warn => new_status == CheckStatus::Warn,
        WebhookNotificationEvent::Recovery => new_status == CheckStatus::Up && old_status != CheckStatus::Up,
    }
}

/// Whether the webhook wants `event`: some subscribed kind covers it.
pub fn should_send(config: &WebhookNotificationConfig, event: &StatusChangeEvent) -> (b: bool)
    ensures
        b == exists|i: int| 0 <= i < config.on@.len() && subscribed(#[trigger] config.on@[i], event.old_status, event.new_status),
{
    let n = config.on.len();
    let mut i: usize = 0;
    while i < n
        invariant
            n == config.on@.len(),
            i <= n,
            forall|j: int| 0 <= j < i ==> !subscribed(#[trigger] config.on@[j], event.old_status, event.new_status),
        decreases n - i,
    {
        let hit = match config.on[i] {
            WebhookNotificationEvent::Down => event.new_status == CheckStatus::Down,
            WebhookNotificationEvent::Warn => event.new_status == CheckStatus::Warn,
            WebhookNotificationEvent::Recovery => event.new_status == CheckStatus::Up && event.old_status != CheckStatus::Up,
        };
        if hit {
            return true;
        }
        i = i + 1;
    }
    false
}

/// A recovery subscription covers every change to UP from a status that is
/// not UP (DOWN as well as WARN), and nothing else; a DOWN or WARN
/// subscription covers exactly the changes to that status.
pub proof fn law_subscriptions_cover(old_status: CheckStatus, new_status: CheckStatus)
    ensures
        subscribed(WebhookNotificationEvent::Recovery, old_status, new_status)
            <==> (new_status == CheckStatus::Up && old_status != CheckStatus::Up),
        subscribed(WebhookNotificationEvent::Recovery, CheckStatus::Down, CheckStatus::Up),
        subscribed(WebhookNotificationEvent::Recovery, CheckStatus::Warn, CheckStatus::Up),
        subscribed(WebhookNotificationEvent::Down, old_status, new_status) <==> new_status == CheckStatus::Down,
        subscribed(WebhookNotificationEvent::Warn, old_status, new_status) <==> new_status == CheckStatus::Warn,
{
}

/// A webhook subscribed to recoveries is told of every change to UP from a
/// status that is not UP: `should_send` returns true for it.
pub proof fn law_recovery_is_sent(config: WebhookNotificationConfig, old_status: CheckStatus, new_status: CheckStatus)
    requires
        config.on@.contains(WebhookNotificationEvent::Recovery),
        new_status == CheckStatus::Up,
        old_status != CheckStatus::Up,
    ensures
        exists|i: int| 0 <= i < config.on@.len() && subscribed(#[trigger] config.on@[i], old_status, new_status),
{
    let i = choose|i: int| 0 <= i < config.on@.len() && config.on@[i] == WebhookNotificationEvent::Recovery;
    assert(subscribed(config.on@[i], old_status, new_status));
}

} // verus!
