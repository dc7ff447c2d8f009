//! What happens when an accepted event fires: which toys vibrate, whether
//! OpenShock is asked to act, and the log lines saying so.

use vstd::prelude::*;
use crate::config::{AppConfig, resolve_vibrate_targets, rule_for, vibrate_targets_spec};
use crate::config_watch::{fixed2, pattern_debug, push_fixed2_pub, push_pattern_pub};
use crate::event::GameEvent;
use crate::haptics::{HapticCommand, SuppressReason, suppress_text};
use crate::openshock::{ControlCommand, configured, configured_spec, kind_name};
use crate::shock::{clamp_int, strings_view, target_ids_spec};
use crate::text::{chars_of, decimal_seq, push_decimal, push_str, string_of};
use crate::trigger::{TriggerKind, trigger_key, trigger_of_event};

verus! {

pub const OPENSHOCK_NOT_CONFIGURED: &'static str = "openshock trigger hit but openshock is not configured";

/// What firing a rule does.
#[derive(Debug, Clone)]
pub struct FirePlan {
    /// The toys to vibrate (none: vibration is skipped).
    pub vibrate_targets: Vec<String>,
    /// The OpenShock command, when the rule has enabled shock settings.
    pub shock: Option<ControlCommand>,
    /// The shockers to send it to, when OpenShock is usable.
    pub shock_targets: Option<Vec<String>>,
}

/// Plan firing the rule of `trigger`, given the names of connected toys.
pub fn plan_fire(config: &AppConfig, trigger: TriggerKind, connected: &[String]) -> (p: FirePlan)
    ensures
        ({
            let rule = rule_for(config.triggers@, trigger);
            &&& strings_view(p.vibrate_targets@) == vibrate_targets_spec(
                rule.vibrate_devices,
                strings_view(connected@),
            )
            &&& match rule.shock {
                Some(s) => if s.enabled {
                    &&& p.shock == Some(
                        ControlCommand {
                            kind: s.kind,
                            intensity: clamp_int(s.intensity as int, 1, 100) as u8,
                            duration_ms: clamp_int(s.duration_ms as int, 300, 30_000) as u64,
                        },
                    )
                    &&& if configured_spec(config.openshock) {
                        p.shock_targets is Some && strings_view(p.shock_targets->0@)
                            == target_ids_spec(s.shocker_ids, config.openshock.shockers@)
                    } else {
                        p.shock_targets is None
                    }
                } else {
                    p.shock is None && p.shock_targets is None
                },
                None => p.shock is None && p.shock_targets is None,
            }
        }),
{
    let rule = config.trigger(trigger);
    let vibrate_targets = match &rule.vibrate_devices {
        Some(picks) => resolve_vibrate_targets(Some(picks.as_slice()), connected),
        None => resolve_vibrate_targets(None, connected),
    };
    let (shock, shock_targets) = match &rule.shock {
        Some(settings) => match ControlCommand::from_shock(settings) {
            Some(c) => if configured(&config.openshock) {
                (Some(c), Some(settings.target_ids(config.openshock.shockers.as_slice())))
            } else {
                (Some(c), None)
            },
            None => (None, None),
        },
        None => (None, None),
    };
    FirePlan { vibrate_targets, shock, shock_targets }
}

/// The log line about vibration when a rule fires.
pub open spec fn vibrate_line_spec(trigger: TriggerKind, command: HapticCommand, toys: nat) -> Seq<char> {
    if toys == 0 {
        "vibrate "@ + trigger_key(trigger) + ": skipped, no target toys selected or connected"@
    } else {
        "vibrate "@ + trigger_key(trigger) + " strength="@ + fixed2(command.strength as int)
            + " duration_ms="@ + decimal_seq(command.duration_ms as nat) + " pattern="@ + pattern_debug(
            command.pattern,
        ) + " toys="@ + decimal_seq(toys)
    }
}

pub fn vibrate_line(trigger: TriggerKind, command: HapticCommand, toys: usize) -> (s: String)
    ensures
        s@ == vibrate_line_spec(trigger, command, toys as nat),
{
    let mut out = chars_of("vibrate ");
    trigger.push_key(&mut out);
    if toys == 0 {
        push_str(&mut out, ": skipped, no target toys selected or connected");
    } else {
        push_str(&mut out, " strength=");
        push_fixed2_pub(&mut out, command.strength);
        push_str(&mut out, " duration_ms=");
        push_decimal(&mut out, command.duration_ms);
        push_str(&mut out, " pattern=");
        push_pattern_pub(&mut out, command.pattern);
        push_str(&mut out, " toys=");
        push_decimal(&mut out, toys as u64);
    }
    string_of(out.as_slice())
}

/// The log line when OpenShock is asked to act.
pub fn shock_line(trigger: TriggerKind, shock: ControlCommand, shockers: usize) -> (s: String)
    ensures
        s@ == "shock "@ + trigger_key(trigger) + " intensity="@ + decimal_seq(shock.intensity as nat)
            + " duration_ms="@ + decimal_seq(shock.duration_ms as nat) + " kind="@ + kind_name(shock.kind)
            + " shockers="@ + decimal_seq(shockers as nat),
{
    let mut out = chars_of("shock ");
    trigger.push_key(&mut out);
    push_str(&mut out, " intensity=");
    push_decimal(&mut out, shock.intensity as u64);
    push_str(&mut out, " duration_ms=");
    push_decimal(&mut out, shock.duration_ms);
    push_str(&mut out, " kind=");
    push_str(&mut out, shock.kind_str());
    push_str(&mut out, " shockers=");
    push_decimal(&mut out, shockers as u64);
    string_of(out.as_slice())
}

/// The log line of a suppressed event (shown with debug logging).
pub fn suppress_line(event: GameEvent, reason: SuppressReason) -> (s: String)
    ensures
        s@ == "suppress "@ + trigger_key(trigger_of_event(event.kind)) + " ("@ + suppress_text(reason)
            + ")"@,
{
    let mut out = chars_of("suppress ");
    TriggerKind::from_event(event.kind).push_key(&mut out);
    push_str(&mut out, " (");
    push_str(&mut out, reason.describe());
    push_str(&mut out, ")");
    string_of(out.as_slice())
}

/// The log line of an accepted event (shown with debug logging).
pub fn event_line(event: GameEvent) -> (s: String)
    ensures
        s@ == "event "@ + trigger_key(trigger_of_event(event.kind)) + " seq="@ + decimal_seq(
            event.sequence as nat,
        ) + " wall_ms="@ + decimal_seq(event.wall_time_ms as nat),
{
    let mut out = chars_of("event ");
    TriggerKind::from_event(event.kind).push_key(&mut out);
    push_str(&mut out, " seq=");
    push_decimal(&mut out, event.sequence);
    push_str(&mut out, " wall_ms=");
    push_decimal(&mut out, event.wall_time_ms);
    string_of(out.as_slice())
}

} // verus!
