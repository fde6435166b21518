use asupersync::messaging::class::DeliveryClass;
use asupersync::messaging::policy::{
    DegradationDisposition, DegradationPolicy, ObligationLoad, SemanticServiceClass, TrafficSlice,
};
use asupersync::messaging::service::{CancellationObligations, CleanupUrgency};
use std::time::Duration;

fn slice(
    name: &str,
    service_class: SemanticServiceClass,
    delivery_class: DeliveryClass,
) -> TrafficSlice {
    TrafficSlice::new(name, service_class, delivery_class)
}

#[test]
fn plan_reserves_capacity_for_control_and_recovery_lanes() {
    let policy = DegradationPolicy::new(2, 1);
    let control = slice(
        "control",
        SemanticServiceClass::ControlRecovery,
        DeliveryClass::EphemeralInteractive,
    );
    let fanout = slice(
        "fanout",
        SemanticServiceClass::LowValueFanout,
        DeliveryClass::EphemeralInteractive,
    )
    .with_required_slots(2);

    let plan = policy.plan(&[fanout, control]);

    assert_eq!(plan.admitted.len(), 1);
    assert_eq!(plan.admitted[0].slice, "control");
    assert!(plan.admitted[0].reserved_lane);
    assert_eq!(plan.degraded.len(), 1);
    assert_eq!(plan.degraded[0].slice, "fanout");
    assert_eq!(
        plan.degraded[0].disposition,
        DegradationDisposition::ReduceFanout
    );
}

#[test]
fn plan_prefers_reply_obligations_over_read_models() {
    let policy = DegradationPolicy::new(2, 0);
    let reply = slice(
        "reply",
        SemanticServiceClass::ReplyCritical,
        DeliveryClass::ObligationBacked,
    )
    .with_obligation_load(ObligationLoad::Reply)
    .with_deadline(Duration::from_millis(80));
    let durable = slice(
        "durable",
        SemanticServiceClass::DurablePipeline,
        DeliveryClass::DurableOrdered,
    );
    let read_model = slice(
        "read-model",
        SemanticServiceClass::ReadModel,
        DeliveryClass::DurableOrdered,
    );

    let plan = policy.plan(&[read_model, durable, reply]);

    assert_eq!(plan.admitted.len(), 2);
    assert_eq!(plan.admitted[0].slice, "reply");
    assert_eq!(plan.admitted[1].slice, "durable");
    assert_eq!(plan.degraded.len(), 1);
    assert_eq!(plan.degraded[0].slice, "read-model");
    assert_eq!(plan.degraded[0].disposition, DegradationDisposition::Defer);
}

#[test]
fn plan_widens_repair_for_lease_sensitive_work() {
    let policy = DegradationPolicy::new(0, 0);
    let lease = slice(
        "lease",
        SemanticServiceClass::LeaseRepair,
        DeliveryClass::ObligationBacked,
    )
    .with_obligation_load(ObligationLoad::Lease)
    .with_cleanup_urgency(CleanupUrgency::Immediate);

    let plan = policy.plan(&[lease]);

    assert!(plan.admitted.is_empty());
    assert_eq!(plan.degraded.len(), 1);
    assert_eq!(plan.degraded[0].slice, "lease");
    assert_eq!(
        plan.degraded[0].disposition,
        DegradationDisposition::WidenRepair
    );
}

#[test]
fn plan_degrades_replay_before_stronger_contracts() {
    let policy = DegradationPolicy::new(1, 0);
    let replay = slice(
        "replay",
        SemanticServiceClass::ExpensiveReplay,
        DeliveryClass::ForensicReplayable,
    );
    let reply_critical = slice(
        "reply",
        SemanticServiceClass::ReplyCritical,
        DeliveryClass::ObligationBacked,
    )
    .with_obligation_load(ObligationLoad::Reply)
    .with_deadline(Duration::from_millis(50));

    let plan = policy.plan(&[replay, reply_critical]);

    assert_eq!(plan.admitted.len(), 1);
    assert_eq!(plan.admitted[0].slice, "reply");
    assert_eq!(plan.degraded.len(), 1);
    assert_eq!(plan.degraded[0].slice, "replay");
    assert_eq!(
        plan.degraded[0].disposition,
        DegradationDisposition::PauseReplay
    );
}

#[test]
fn plan_uses_deadlines_to_break_ties_within_same_service_class() {
    let policy = DegradationPolicy::new(1, 0);
    let urgent = slice(
        "urgent",
        SemanticServiceClass::DurablePipeline,
        DeliveryClass::DurableOrdered,
    )
    .with_deadline(Duration::from_millis(40));
    let relaxed = slice(
        "relaxed",
        SemanticServiceClass::DurablePipeline,
        DeliveryClass::DurableOrdered,
    )
    .with_deadline(Duration::from_secs(10));

    let plan = policy.plan(&[relaxed, urgent]);

    assert_eq!(plan.admitted.len(), 1);
    assert_eq!(plan.admitted[0].slice, "urgent");
    assert_eq!(plan.degraded.len(), 1);
    assert_eq!(plan.degraded[0].slice, "relaxed");
    assert_eq!(
        plan.degraded[0].disposition,
        DegradationDisposition::RejectNew
    );
}

#[test]
fn plan_does_not_drop_distinct_slices_that_share_a_name() {
    let policy = DegradationPolicy::new(1, 1);
    let control = slice(
        "shared",
        SemanticServiceClass::ControlRecovery,
        DeliveryClass::EphemeralInteractive,
    );
    let fanout = slice(
        "shared",
        SemanticServiceClass::LowValueFanout,
        DeliveryClass::EphemeralInteractive,
    );

    let plan = policy.plan(&[control, fanout]);

    assert_eq!(plan.admitted.len(), 1);
    assert_eq!(plan.admitted[0].slice, "shared");
    assert!(plan.admitted[0].reserved_lane);
    assert_eq!(plan.degraded.len(), 1);
    assert_eq!(plan.degraded[0].slice, "shared");
    assert_eq!(
        plan.degraded[0].disposition,
        DegradationDisposition::ReduceFanout
    );
}


#[test]
fn default_policy_has_four_slots_one_reserved() {
    let policy = DegradationPolicy::default();
    assert_eq!(policy, DegradationPolicy::new(4, 1));
}

#[test]
fn priority_score_sums_every_boost() {
    let policy = DegradationPolicy::new(10, 0);
    let s = slice("s", SemanticServiceClass::ReplyCritical, DeliveryClass::MobilitySafe)
        .with_cleanup_urgency(CleanupUrgency::Immediate)
        .with_cancellation_obligations(CancellationObligations::DrainAndCompensate)
        .with_obligation_load(ObligationLoad::ReplyAndLease)
        .with_deadline(Duration::from_millis(100));
    let plan = policy.plan(&[s]);
    // 100 + 12 + 14 + 12 + 30 + 24
    assert_eq!(plan.admitted[0].priority_score, 192);
    let base = slice("b", SemanticServiceClass::ExpensiveReplay, DeliveryClass::EphemeralInteractive)
        .with_cleanup_urgency(CleanupUrgency::Background)
        .with_cancellation_obligations(CancellationObligations::BestEffortDrain);
    assert_eq!(policy.plan(&[base]).admitted[0].priority_score, 10);
}

#[test]
fn deadline_boost_steps_at_each_bound() {
    let policy = DegradationPolicy::new(10, 0);
    let score = |deadline: Option<Duration>| {
        let mut s = slice("d", SemanticServiceClass::Interactive, DeliveryClass::EphemeralInteractive);
        if let Some(d) = deadline {
            s = s.with_deadline(d);
        }
        policy.plan(&[s]).admitted[0].priority_score
    };
    let none = score(None);
    assert_eq!(score(Some(Duration::from_millis(100))) - none, 24);
    assert_eq!(score(Some(Duration::from_millis(101))) - none, 18);
    assert_eq!(score(Some(Duration::from_secs(1))) - none, 18);
    assert_eq!(score(Some(Duration::from_secs(5))) - none, 10);
    assert_eq!(score(Some(Duration::from_nanos(5_000_000_001))) - none, 4);
}

#[test]
fn required_slots_are_at_least_one() {
    let s = slice("z", SemanticServiceClass::Interactive, DeliveryClass::EphemeralInteractive).with_required_slots(0);
    assert_eq!(s.required_slots, 1);
    let s = s.with_required_slots(7);
    assert_eq!(s.required_slots, 7);
}

#[test]
fn remaining_slots_and_admitted_slots_add_up() {
    let policy = DegradationPolicy::new(5, 2);
    let slices = vec![
        slice("c", SemanticServiceClass::ControlRecovery, DeliveryClass::EphemeralInteractive).with_required_slots(3),
        slice("l", SemanticServiceClass::LeaseRepair, DeliveryClass::EphemeralInteractive).with_required_slots(2),
        slice("i", SemanticServiceClass::Interactive, DeliveryClass::EphemeralInteractive).with_required_slots(2),
        slice("r", SemanticServiceClass::ReadModel, DeliveryClass::EphemeralInteractive).with_required_slots(2),
    ];
    let plan = policy.plan(&slices);
    let used: u32 = plan.admitted.iter().map(|d| d.required_slots).sum();
    assert_eq!(used + plan.remaining_slots, 5);
    assert_eq!(plan.admitted.len() + plan.degraded.len(), 4);
    // The lease lane fits the reserved pool; control needs more than it holds.
    assert_eq!(plan.admitted[0].slice, "l");
    assert!(plan.admitted[0].reserved_lane);
    assert_eq!(plan.admitted[1].slice, "c");
    assert!(!plan.admitted[1].reserved_lane);
    assert_eq!(plan.remaining_slots, 0);
    assert_eq!(plan.degraded[0].slice, "i");
    assert_eq!(plan.degraded[0].disposition, DegradationDisposition::RejectNew);
    assert_eq!(plan.degraded[1].slice, "r");
}

#[test]
fn ties_break_by_slots_then_name_then_position() {
    let policy = DegradationPolicy::new(0, 0);
    let slices = vec![
        slice("b", SemanticServiceClass::Interactive, DeliveryClass::EphemeralInteractive),
        slice("a", SemanticServiceClass::Interactive, DeliveryClass::EphemeralInteractive).with_required_slots(2),
        slice("a", SemanticServiceClass::Interactive, DeliveryClass::EphemeralInteractive),
        slice("b", SemanticServiceClass::Interactive, DeliveryClass::EphemeralInteractive),
    ];
    let plan = policy.plan(&slices);
    let names: Vec<(&str, u32)> = plan
        .degraded
        .iter()
        .map(|d| (d.slice.as_str(), d.required_slots))
        .collect();
    assert_eq!(names, vec![("a", 1), ("b", 1), ("b", 1), ("a", 2)]);
}

#[test]
fn reply_critical_without_lease_is_rejected_not_widened() {
    let policy = DegradationPolicy::new(0, 0);
    let plain = slice("p", SemanticServiceClass::ReplyCritical, DeliveryClass::ObligationBacked)
        .with_obligation_load(ObligationLoad::Reply);
    let leased = slice("q", SemanticServiceClass::ReplyCritical, DeliveryClass::ObligationBacked)
        .with_obligation_load(ObligationLoad::ReplyAndLease);
    let plan = policy.plan(&[plain, leased]);
    assert_eq!(plan.degraded[0].slice, "q");
    assert_eq!(plan.degraded[0].disposition, DegradationDisposition::WidenRepair);
    assert_eq!(plan.degraded[1].disposition, DegradationDisposition::RejectNew);
}
