use asupersync::messaging::class::{AckKind, DeliveryClass};
use asupersync::messaging::service::{
    validate_reply_boundary, ObligationAbortReason, ServiceFailure, ServiceObligation,
    ServiceObligationError,
};
use asupersync::obligation::ledger::ObligationLedger;
use asupersync::record::{ObligationKind, ObligationState};
use asupersync::types::{RegionId, TaskId, Time};
use std::time::Duration;

fn make_task() -> TaskId {
    TaskId::new_for_test(11, 0)
}

fn make_region() -> RegionId {
    RegionId::new_for_test(7, 0)
}

#[test]
fn ephemeral_request_reply_stays_untracked() {
    let mut ledger = ObligationLedger::new();
    let mut obligation = ServiceObligation::allocate(
        &mut ledger,
        "req-ephemeral",
        "caller",
        "callee",
        "svc.echo",
        DeliveryClass::EphemeralInteractive,
        make_task(),
        make_region(),
        Time::from_nanos(1),
        Some(Duration::from_secs(5)),
    )
    .expect("ephemeral path should be valid");

    assert!(!obligation.is_tracked());
    assert_eq!(ledger.pending_count(), 0);

    let reply = obligation
        .commit_with_reply(
            &mut ledger,
            Time::from_nanos(2),
            b"ok".to_vec(),
            AckKind::Accepted,
            false,
        )
        .expect("cheap path commit should succeed");

    assert_eq!(reply.service_obligation_id, None);
    assert!(reply.reply_obligation.is_none());
    assert_eq!(ledger.pending_count(), 0);
}

#[test]
fn obligation_backed_request_commits_and_creates_reply_obligation() {
    let mut ledger = ObligationLedger::new();
    let mut obligation = ServiceObligation::allocate(
        &mut ledger,
        "req-1",
        "caller",
        "callee",
        "svc.echo",
        DeliveryClass::MobilitySafe,
        make_task(),
        make_region(),
        Time::from_nanos(10),
        Some(Duration::from_secs(5)),
    )
    .expect("tracked request should allocate");

    let service_id = obligation.obligation_id().expect("tracked obligation id");
    assert_eq!(ledger.pending_count(), 1);

    let committed = obligation
        .commit_with_reply(
            &mut ledger,
            Time::from_nanos(20),
            b"payload".to_vec(),
            AckKind::Received,
            true,
        )
        .expect("tracked commit should succeed");

    assert_eq!(committed.service_obligation_id, Some(service_id));
    assert_eq!(committed.payload, b"payload".to_vec());
    let reply = committed
        .reply_obligation
        .expect("reply obligation expected");
    let reply_id = reply.obligation_id();
    assert_eq!(reply.service_obligation_id, service_id);
    assert_eq!(ledger.pending_count(), 1);

    let delivery = reply.commit_delivery(&mut ledger, Time::from_nanos(30));
    assert_eq!(delivery.obligation_id, reply_id);
    assert_eq!(delivery.service_obligation_id, service_id);
    assert_eq!(delivery.delivery_boundary, AckKind::Received);
    assert_eq!(ledger.pending_count(), 0);
}

#[test]
fn service_obligation_abort_records_typed_failure() {
    let mut ledger = ObligationLedger::new();
    let obligation = ServiceObligation::allocate(
        &mut ledger,
        "req-2",
        "caller",
        "callee",
        "svc.echo",
        DeliveryClass::ObligationBacked,
        make_task(),
        make_region(),
        Time::from_nanos(5),
        Some(Duration::from_secs(5)),
    )
    .expect("tracked request should allocate");
    let obligation_id = obligation.obligation_id().expect("tracked id");

    let aborted = obligation
        .abort(
            &mut ledger,
            Time::from_nanos(15),
            ServiceFailure::ApplicationError,
        )
        .expect("abort should succeed");

    assert_eq!(aborted.obligation_id, Some(obligation_id));
    assert_eq!(aborted.failure, ServiceFailure::ApplicationError);
    assert_eq!(ledger.pending_count(), 0);
    let record = ledger.get(obligation_id).expect("ledger record exists");
    assert_eq!(record.state, ObligationState::Aborted);
    assert_eq!(record.abort_reason, Some(ObligationAbortReason::Error));
}

#[test]
fn service_obligation_transfer_preserves_identity_and_lineage() {
    let mut ledger = ObligationLedger::new();
    let mut obligation = ServiceObligation::allocate(
        &mut ledger,
        "req-3",
        "caller",
        "callee-a",
        "svc.echo",
        DeliveryClass::ObligationBacked,
        make_task(),
        make_region(),
        Time::from_nanos(1),
        Some(Duration::from_secs(5)),
    )
    .expect("tracked request should allocate");
    let obligation_id = obligation.obligation_id().expect("tracked id");

    obligation
        .transfer(
            "callee-b",
            "svc.echo.imported",
            "import/orders->edge",
            Time::from_nanos(2),
        )
        .expect("transfer should succeed");

    assert_eq!(obligation.obligation_id(), Some(obligation_id));
    assert_eq!(obligation.callee, "callee-b");
    assert_eq!(obligation.subject, "svc.echo.imported");
    assert_eq!(obligation.lineage.len(), 1);
    assert_eq!(obligation.lineage[0].morphism, "import/orders->edge");
}

#[test]
fn invalid_transfer_preserves_tracked_obligation() {
    let mut ledger = ObligationLedger::new();
    let mut obligation = ServiceObligation::allocate(
        &mut ledger,
        "req-transfer-invalid",
        "caller",
        "callee-a",
        "svc.echo",
        DeliveryClass::ObligationBacked,
        make_task(),
        make_region(),
        Time::from_nanos(1),
        Some(Duration::from_secs(5)),
    )
    .expect("tracked request should allocate");
    let obligation_id = obligation.obligation_id().expect("tracked id");

    let err = obligation
        .transfer(
            "",
            "svc.echo.imported",
            "import/orders->edge",
            Time::from_nanos(2),
        )
        .expect_err("invalid transfer should be rejected");

    assert_eq!(
        err,
        ServiceObligationError::EmptyField {
            field: "transfer.callee",
        }
    );
    assert_eq!(obligation.obligation_id(), Some(obligation_id));
    assert_eq!(ledger.pending_count(), 1);
    obligation
        .abort(
            &mut ledger,
            Time::from_nanos(3),
            ServiceFailure::ApplicationError,
        )
        .expect("abort should succeed");
    assert_eq!(ledger.pending_count(), 0);
}

#[test]
fn service_obligation_timeout_is_explicit_abort() {
    let mut ledger = ObligationLedger::new();
    let obligation = ServiceObligation::allocate(
        &mut ledger,
        "req-4",
        "caller",
        "callee",
        "svc.echo",
        DeliveryClass::ObligationBacked,
        make_task(),
        make_region(),
        Time::from_nanos(3),
        Some(Duration::from_secs(1)),
    )
    .expect("tracked request should allocate");
    let obligation_id = obligation.obligation_id().expect("tracked id");

    let timed_out = obligation
        .timeout(&mut ledger, Time::from_nanos(100))
        .expect("timeout should abort successfully");

    assert_eq!(timed_out.failure, ServiceFailure::TimedOut);
    let record = ledger.get(obligation_id).expect("ledger record exists");
    assert_eq!(record.state, ObligationState::Aborted);
    assert_eq!(record.abort_reason, Some(ObligationAbortReason::Explicit));
    assert_eq!(ledger.pending_count(), 0);
}

#[test]
fn resolved_service_obligation_rejects_second_resolution() {
    let mut ledger = ObligationLedger::new();
    let mut obligation = ServiceObligation::allocate(
        &mut ledger,
        "req-resolved-twice",
        "caller",
        "callee",
        "svc.echo",
        DeliveryClass::ObligationBacked,
        make_task(),
        make_region(),
        Time::from_nanos(1),
        Some(Duration::from_secs(5)),
    )
    .expect("tracked request should allocate");

    let committed = obligation
        .commit_with_reply(
            &mut ledger,
            Time::from_nanos(2),
            b"payload".to_vec(),
            AckKind::Served,
            false,
        )
        .expect("first resolution should succeed");

    assert!(committed.reply_obligation.is_none());
    assert_eq!(ledger.pending_count(), 0);
    let err = obligation
        .commit_with_reply(
            &mut ledger,
            Time::from_nanos(3),
            b"payload".to_vec(),
            AckKind::Served,
            false,
        )
        .expect_err("resolved obligation should reject a second commit");

    assert_eq!(
        err,
        ServiceObligationError::AlreadyResolved {
            operation: "commit_with_reply",
        }
    );
}

#[test]
fn resolved_service_obligation_rejects_abort_after_commit() {
    let mut ledger = ObligationLedger::new();
    let mut obligation = ServiceObligation::allocate(
        &mut ledger,
        "req-resolved-abort",
        "caller",
        "callee",
        "svc.echo",
        DeliveryClass::ObligationBacked,
        make_task(),
        make_region(),
        Time::from_nanos(1),
        Some(Duration::from_secs(5)),
    )
    .expect("tracked request should allocate");

    obligation
        .commit_with_reply(
            &mut ledger,
            Time::from_nanos(2),
            b"payload".to_vec(),
            AckKind::Served,
            false,
        )
        .expect("first resolution should succeed");

    let err = obligation
        .abort(
            &mut ledger,
            Time::from_nanos(3),
            ServiceFailure::ApplicationError,
        )
        .expect_err("resolved obligation should reject abort");

    assert_eq!(
        err,
        ServiceObligationError::AlreadyResolved { operation: "abort" }
    );
}

#[test]
fn resolved_service_obligation_rejects_timeout_after_commit() {
    let mut ledger = ObligationLedger::new();
    let mut obligation = ServiceObligation::allocate(
        &mut ledger,
        "req-resolved-timeout",
        "caller",
        "callee",
        "svc.echo",
        DeliveryClass::ObligationBacked,
        make_task(),
        make_region(),
        Time::from_nanos(1),
        Some(Duration::from_secs(5)),
    )
    .expect("tracked request should allocate");

    obligation
        .commit_with_reply(
            &mut ledger,
            Time::from_nanos(2),
            b"payload".to_vec(),
            AckKind::Served,
            false,
        )
        .expect("first resolution should succeed");

    let err = obligation
        .timeout(&mut ledger, Time::from_nanos(3))
        .expect_err("resolved obligation should reject timeout");

    assert_eq!(
        err,
        ServiceObligationError::AlreadyResolved {
            operation: "timeout",
        }
    );
}

#[test]
fn tracked_reply_boundary_below_minimum_preserves_obligation() {
    let mut ledger = ObligationLedger::new();
    let mut obligation = ServiceObligation::allocate(
        &mut ledger,
        "req-boundary-floor",
        "caller",
        "callee",
        "svc.echo",
        DeliveryClass::MobilitySafe,
        make_task(),
        make_region(),
        Time::from_nanos(1),
        Some(Duration::from_secs(5)),
    )
    .expect("tracked request should allocate");
    let obligation_id = obligation.obligation_id().expect("tracked id");

    let err = obligation
        .commit_with_reply(
            &mut ledger,
            Time::from_nanos(2),
            b"payload".to_vec(),
            AckKind::Committed,
            false,
        )
        .expect_err("boundary below durable floor should be rejected");

    assert_eq!(
        err,
        ServiceObligationError::ReplyBoundaryBelowMinimum {
            delivery_class: DeliveryClass::MobilitySafe,
            minimum_boundary: AckKind::Received,
            requested_boundary: AckKind::Committed,
        }
    );
    assert_eq!(obligation.obligation_id(), Some(obligation_id));
    assert_eq!(ledger.pending_count(), 1);
    let aborted = obligation
        .abort(
            &mut ledger,
            Time::from_nanos(3),
            ServiceFailure::ApplicationError,
        )
        .expect("abort should succeed");
    assert_eq!(aborted.obligation_id, Some(obligation_id));
    assert_eq!(ledger.pending_count(), 0);
}

#[test]
fn receipt_required_reply_must_use_received_boundary() {
    let mut ledger = ObligationLedger::new();
    let mut obligation = ServiceObligation::allocate(
        &mut ledger,
        "req-receipt-boundary",
        "caller",
        "callee",
        "svc.echo",
        DeliveryClass::EphemeralInteractive,
        make_task(),
        make_region(),
        Time::from_nanos(1),
        Some(Duration::from_secs(5)),
    )
    .expect("ephemeral request should allocate");

    let err = obligation
        .commit_with_reply(
            &mut ledger,
            Time::from_nanos(2),
            b"payload".to_vec(),
            AckKind::Served,
            true,
        )
        .expect_err("receipt-required replies must use the received boundary");

    assert_eq!(
        err,
        ServiceObligationError::ReceiptRequiresReceivedBoundary {
            requested_boundary: AckKind::Served,
        }
    );
    assert_eq!(ledger.pending_count(), 0);
}

#[test]
fn untracked_delivery_class_rejects_follow_up_reply_tracking() {
    let mut ledger = ObligationLedger::new();
    let mut obligation = ServiceObligation::allocate(
        &mut ledger,
        "req-untracked-follow-up",
        "caller",
        "callee",
        "svc.echo",
        DeliveryClass::EphemeralInteractive,
        make_task(),
        make_region(),
        Time::from_nanos(1),
        Some(Duration::from_secs(5)),
    )
    .expect("ephemeral request should allocate");

    let err = obligation
        .commit_with_reply(
            &mut ledger,
            Time::from_nanos(2),
            b"payload".to_vec(),
            AckKind::Received,
            false,
        )
        .expect_err("cheap path should not pretend to support tracked reply delivery");

    assert_eq!(
        err,
        ServiceObligationError::ReplyTrackingUnavailable {
            delivery_class: DeliveryClass::EphemeralInteractive,
            requested_boundary: AckKind::Received,
            receipt_required: false,
        }
    );
    assert_eq!(ledger.pending_count(), 0);
}

#[test]
fn reply_obligation_abort_records_failure_and_clears_pending() {
    let mut ledger = ObligationLedger::new();
    let mut obligation = ServiceObligation::allocate(
        &mut ledger,
        "req-reply-abort",
        "caller",
        "callee",
        "svc.echo",
        DeliveryClass::MobilitySafe,
        make_task(),
        make_region(),
        Time::from_nanos(10),
        Some(Duration::from_secs(5)),
    )
    .expect("tracked request should allocate");

    let committed = obligation
        .commit_with_reply(
            &mut ledger,
            Time::from_nanos(20),
            b"payload".to_vec(),
            AckKind::Received,
            true,
        )
        .expect("tracked commit should succeed");

    let reply = committed
        .reply_obligation
        .expect("reply obligation expected");
    let reply_id = reply.obligation_id();
    let aborted = reply.abort_delivery(
        &mut ledger,
        Time::from_nanos(30),
        ServiceFailure::TransportError,
    );

    assert_eq!(aborted.obligation_id, reply_id);
    assert_eq!(aborted.failure, ServiceFailure::TransportError);
    assert_eq!(aborted.delivery_boundary, AckKind::Received);
    let record = ledger.get(reply_id).expect("reply record exists");
    assert_eq!(record.state, ObligationState::Aborted);
    assert_eq!(record.abort_reason, Some(ObligationAbortReason::Error));
    assert_eq!(ledger.pending_count(), 0);
}

#[test]
fn reply_obligation_timeout_is_explicit_abort() {
    let mut ledger = ObligationLedger::new();
    let mut obligation = ServiceObligation::allocate(
        &mut ledger,
        "req-reply-timeout",
        "caller",
        "callee",
        "svc.echo",
        DeliveryClass::MobilitySafe,
        make_task(),
        make_region(),
        Time::from_nanos(10),
        Some(Duration::from_secs(5)),
    )
    .expect("tracked request should allocate");

    let committed = obligation
        .commit_with_reply(
            &mut ledger,
            Time::from_nanos(20),
            b"payload".to_vec(),
            AckKind::Received,
            true,
        )
        .expect("tracked commit should succeed");

    let reply = committed
        .reply_obligation
        .expect("reply obligation expected");
    let reply_id = reply.obligation_id();
    let timed_out = reply.timeout(&mut ledger, Time::from_nanos(40));

    assert_eq!(timed_out.obligation_id, reply_id);
    assert_eq!(timed_out.failure, ServiceFailure::TimedOut);
    assert_eq!(timed_out.delivery_boundary, AckKind::Received);
    let record = ledger.get(reply_id).expect("reply record exists");
    assert_eq!(record.state, ObligationState::Aborted);
    assert_eq!(record.abort_reason, Some(ObligationAbortReason::Explicit));
    assert_eq!(ledger.pending_count(), 0);
}

// ========================================================================
// Comprehensive service contract tests (bead 8w83i.10.2)
// ========================================================================

// -- PayloadShape validation ---------------------------------------------

#[test]
#[test]
fn unresolved_service_obligation_is_visible_to_leak_checks() {
    let mut ledger = ObligationLedger::new();
    let obligation = ServiceObligation::allocate(
        &mut ledger,
        "req-5",
        "caller",
        "callee",
        "svc.echo",
        DeliveryClass::ObligationBacked,
        make_task(),
        make_region(),
        Time::from_nanos(3),
        Some(Duration::from_secs(1)),
    )
    .expect("tracked request should allocate");
    let obligation_id = obligation.obligation_id().expect("tracked id");

    let leaks = ledger.check_leaks();

    assert!(!leaks.is_clean());
    assert_eq!(ledger.pending_count(), 1);
    assert!(leaks.leaked.iter().any(|entry| entry.id == obligation_id));
    drop(obligation);
}
#[test]
fn allocation_rejects_blank_text_and_zero_timeout_without_touching_the_ledger() {
    let mut ledger = ObligationLedger::new();
    let err = ServiceObligation::allocate(
        &mut ledger,
        "req",
        " ",
        "callee",
        "svc",
        DeliveryClass::ObligationBacked,
        make_task(),
        make_region(),
        Time::from_nanos(1),
        None,
    )
    .unwrap_err();
    assert_eq!(err, ServiceObligationError::EmptyField { field: "caller" });
    let err = ServiceObligation::allocate(
        &mut ledger,
        "req",
        "caller",
        "",
        "svc",
        DeliveryClass::ObligationBacked,
        make_task(),
        make_region(),
        Time::from_nanos(1),
        None,
    )
    .unwrap_err();
    assert_eq!(err, ServiceObligationError::EmptyField { field: "callee" });
    let err = ServiceObligation::allocate(
        &mut ledger,
        "req",
        "caller",
        "callee",
        "svc",
        DeliveryClass::ObligationBacked,
        make_task(),
        make_region(),
        Time::from_nanos(1),
        Some(Duration::ZERO),
    )
    .unwrap_err();
    assert_eq!(err, ServiceObligationError::ZeroTimeout);
    assert_eq!(ledger.pending_count(), 0);
    assert!(ledger.check_leaks().is_clean());
}

#[test]
fn tracked_allocation_records_a_lease_with_context() {
    let mut ledger = ObligationLedger::new();
    let obligation = ServiceObligation::allocate(
        &mut ledger,
        "req-ctx",
        "alice",
        "bob",
        "svc.echo",
        DeliveryClass::ForensicReplayable,
        make_task(),
        make_region(),
        Time::from_nanos(9),
        None,
    )
    .unwrap();
    let id = obligation.obligation_id().unwrap();
    let record = ledger.get(id).unwrap();
    assert_eq!(record.kind, ObligationKind::Lease);
    assert_eq!(record.state, ObligationState::Reserved);
    assert_eq!(record.holder, make_task());
    assert_eq!(record.region, make_region());
    assert_eq!(record.reserved_at, Time::from_nanos(9));
    assert_eq!(
        record.description.as_deref(),
        Some("service request req-ctx: alice -> bob")
    );
    let receipt = obligation
        .timeout(&mut ledger, Time::from_nanos(12))
        .unwrap();
    assert_eq!(receipt.obligation_id, Some(id));
    assert_eq!(ledger.get(id).unwrap().resolved_at, Some(Time::from_nanos(12)));
}

#[test]
fn durable_ordered_requests_stay_untracked() {
    let mut ledger = ObligationLedger::new();
    let obligation = ServiceObligation::allocate(
        &mut ledger,
        "req-d",
        "caller",
        "callee",
        "svc",
        DeliveryClass::DurableOrdered,
        make_task(),
        make_region(),
        Time::from_nanos(1),
        None,
    )
    .unwrap();
    assert!(!obligation.is_tracked());
    let receipt = obligation
        .abort(&mut ledger, Time::from_nanos(2), ServiceFailure::Cancelled)
        .unwrap();
    assert_eq!(receipt.obligation_id, None);
    assert_eq!(receipt.failure, ServiceFailure::Cancelled);
}

#[test]
fn reply_boundary_rules() {
    assert_eq!(
        validate_reply_boundary(DeliveryClass::ObligationBacked, AckKind::Served, false),
        Ok(())
    );
    assert_eq!(
        validate_reply_boundary(DeliveryClass::ObligationBacked, AckKind::Accepted, false),
        Err(ServiceObligationError::ReplyBoundaryBelowMinimum {
            delivery_class: DeliveryClass::ObligationBacked,
            minimum_boundary: AckKind::Served,
            requested_boundary: AckKind::Accepted,
        })
    );
    assert_eq!(
        validate_reply_boundary(DeliveryClass::EphemeralInteractive, AckKind::Accepted, false),
        Ok(())
    );
    assert_eq!(
        validate_reply_boundary(DeliveryClass::MobilitySafe, AckKind::Received, true),
        Ok(())
    );
}

#[test]
fn committed_reply_record_and_follow_up_ack() {
    let mut ledger = ObligationLedger::new();
    let mut obligation = ServiceObligation::allocate(
        &mut ledger,
        "req-f",
        "caller",
        "callee",
        "svc",
        DeliveryClass::MobilitySafe,
        make_task(),
        make_region(),
        Time::from_nanos(1),
        None,
    )
    .unwrap();
    let service_id = obligation.obligation_id().unwrap();
    let committed = obligation
        .commit_with_reply(&mut ledger, Time::from_nanos(5), b"x".to_vec(), AckKind::Received, false)
        .unwrap();
    assert!(!obligation.is_tracked());
    let service_record = ledger.get(service_id).unwrap();
    assert_eq!(service_record.state, ObligationState::Committed);
    assert_eq!(service_record.resolved_at, Some(Time::from_nanos(5)));
    let reply = committed.reply_obligation.unwrap();
    assert_eq!(reply.payload, b"x".to_vec());
    let ack = ledger.get(reply.obligation_id()).unwrap();
    assert_eq!(ack.kind, ObligationKind::Ack);
    assert_eq!(ack.state, ObligationState::Reserved);
    assert_eq!(ledger.pending_count(), 1);
    let leaks = ledger.check_leaks();
    assert_eq!(leaks.leaked.len(), 1);
    assert_eq!(leaks.leaked[0].id, reply.obligation_id());
    reply.commit_delivery(&mut ledger, Time::from_nanos(6));
    assert!(ledger.check_leaks().is_clean());
    assert_eq!(ObligationAbortReason::Error, ServiceFailure::Overloaded.abort_reason());
}
