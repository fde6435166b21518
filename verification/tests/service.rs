use asupersync::messaging::class::{AckKind, DeliveryClass, DeliveryClassPolicy, DeliveryClassPolicyError};
use asupersync::messaging::ir::ReplySpaceRule;
use asupersync::messaging::service::{
    BudgetSemantics, CallerOptions, CancellationObligations, ChunkedReplyObligation, CleanupUrgency,
    CompensationSemantics, EvidenceLevel, MobilityConstraint, ObligationAbortReason, OverloadPolicy, PayloadShape,
    ProviderTerms, ReplyCertificate, ReplyShape, RequestCertificate, ServiceContractError, ServiceContractSchema,
    ServiceFailure, ServiceObligationError, ServiceRegistration, ServiceReplyCommit, ValidatedServiceRequest,
};
use asupersync::types::{ObligationId, Time};
use std::time::Duration;

fn provider_terms() -> ProviderTerms {
    ProviderTerms {
        admissible_classes: DeliveryClassPolicy::new(
            DeliveryClass::ObligationBacked,
            [DeliveryClass::ObligationBacked, DeliveryClass::MobilitySafe],
        )
        .expect("provider policy"),
        guaranteed_durability: DeliveryClass::MobilitySafe,
        compensation_policy: CompensationSemantics::BestEffort,
        mobility_constraint: MobilityConstraint::Pinned,
        evidence_level: EvidenceLevel::Detailed,
    }
}

fn contract() -> ServiceContractSchema {
    ServiceContractSchema {
        budget_semantics: BudgetSemantics {
            honor_priority_hints: true,
            ..BudgetSemantics::default()
        },
        compensation_semantics: CompensationSemantics::BestEffort,
        mobility_constraints: MobilityConstraint::Unrestricted,
        evidence_requirements: EvidenceLevel::Standard,
        ..ServiceContractSchema::default()
    }
}

#[test]
fn service_registration_accepts_valid_contract() {
    let registration =
        ServiceRegistration::new("fabric.echo", contract(), provider_terms()).expect("valid");

    assert_eq!(registration.service_name, "fabric.echo");
    assert_eq!(
        registration.provider_terms.guaranteed_durability,
        DeliveryClass::MobilitySafe
    );
}

#[test]
fn service_registration_rejects_provider_terms_below_contract() {
    let provider_terms = ProviderTerms {
        guaranteed_durability: DeliveryClass::DurableOrdered,
        ..provider_terms()
    };

    let err = ServiceRegistration::new("fabric.echo", contract(), provider_terms)
        .expect_err("durability floor should be enforced");

    assert_eq!(
        err,
        ServiceContractError::ProviderGuaranteeBelowContractFloor {
            guaranteed_durability: DeliveryClass::DurableOrdered,
            required_durability: DeliveryClass::ObligationBacked,
        }
    );
}

#[test]
fn validate_caller_accepts_in_bounds_request() {
    let registration =
        ServiceRegistration::new("fabric.echo", contract(), provider_terms()).expect("valid");
    let caller = CallerOptions {
        requested_class: Some(DeliveryClass::MobilitySafe),
        timeout_override: Some(Duration::from_secs(5)),
        priority_hint: Some(200),
    };

    let validated = registration
        .validate_caller(&caller)
        .expect("caller request should be valid");

    assert_eq!(validated.delivery_class, DeliveryClass::MobilitySafe);
    assert_eq!(validated.timeout, Some(Duration::from_secs(5)));
    assert_eq!(validated.priority_hint, Some(200));
    assert_eq!(validated.mobility_constraint, MobilityConstraint::Pinned);
}

#[test]
fn validate_caller_rejects_out_of_bounds_delivery_class() {
    let registration =
        ServiceRegistration::new("fabric.echo", contract(), provider_terms()).expect("valid");
    let caller = CallerOptions {
        requested_class: Some(DeliveryClass::ForensicReplayable),
        ..CallerOptions::default()
    };

    let err = registration
        .validate_caller(&caller)
        .expect_err("caller class should be rejected");

    assert_eq!(
        err,
        ServiceContractError::DeliveryClassPolicy(
            DeliveryClassPolicyError::RequestedClassNotAdmissible {
                requested: DeliveryClass::ForensicReplayable,
                default_class: DeliveryClass::ObligationBacked,
            }
        )
    );
}

#[test]
fn validate_caller_rejects_timeout_override_when_disabled() {
    let mut contract = contract();
    contract.budget_semantics.allow_timeout_override = false;
    let registration =
        ServiceRegistration::new("fabric.echo", contract, provider_terms()).expect("valid");
    let caller = CallerOptions {
        timeout_override: Some(Duration::from_secs(1)),
        ..CallerOptions::default()
    };

    let err = registration
        .validate_caller(&caller)
        .expect_err("timeout override should be rejected");

    assert_eq!(err, ServiceContractError::TimeoutOverrideNotAllowed);
}

#[test]
fn payload_shape_named_schema_rejects_empty() {
    let shape = PayloadShape::NamedSchema {
        schema: "  ".to_owned(),
    };
    assert!(shape.validate("test").is_err());
}

#[test]
fn payload_shape_named_schema_accepts_non_empty() {
    let shape = PayloadShape::NamedSchema {
        schema: "orders.v1".to_owned(),
    };
    assert!(shape.validate("test").is_ok());
}

#[test]
fn payload_shape_non_named_variants_validate() {
    for shape in [
        PayloadShape::Empty,
        PayloadShape::JsonDocument,
        PayloadShape::BinaryBlob,
        PayloadShape::SubjectEncoded,
    ] {
        assert!(shape.validate("test").is_ok());
    }
}

#[test]
fn reply_shape_none_validates() {
    assert!(ReplyShape::NoReply.validate("test").is_ok());
}

#[test]
fn reply_shape_unary_with_empty_named_schema_rejects() {
    let shape = ReplyShape::Unary {
        shape: PayloadShape::NamedSchema {
            schema: "".to_owned(),
        },
    };
    assert!(shape.validate("test").is_err());
}

#[test]
fn reply_shape_stream_validates_inner_shape() {
    let shape = ReplyShape::Stream {
        shape: PayloadShape::JsonDocument,
    };
    assert!(shape.validate("test").is_ok());
}

#[test]
fn budget_semantics_rejects_zero_timeout() {
    let budget = BudgetSemantics {
        default_timeout: Some(Duration::ZERO),
        ..BudgetSemantics::default()
    };
    match budget.validate() {
        Err(ServiceContractError::ZeroDuration { field }) => {
            assert!(field.contains("default_timeout"));
        }
        other => panic!("expected ZeroDuration, got {other:?}"),
    }
}

#[test]
fn budget_semantics_none_timeout_validates() {
    let budget = BudgetSemantics {
        default_timeout: None,
        ..BudgetSemantics::default()
    };
    assert!(budget.validate().is_ok());
}

#[test]
fn mobility_unrestricted_satisfies_any_requirement() {
    assert!(MobilityConstraint::Unrestricted.satisfies(&MobilityConstraint::Unrestricted));
}

#[test]
fn mobility_pinned_satisfies_pinned() {
    assert!(MobilityConstraint::Pinned.satisfies(&MobilityConstraint::Pinned));
}

#[test]
fn mobility_pinned_satisfies_bounded_region() {
    assert!(
        MobilityConstraint::Pinned.satisfies(&MobilityConstraint::BoundedRegion {
            region: "us-east".to_owned(),
        })
    );
}

#[test]
fn mobility_bounded_satisfies_same_region() {
    let constraint = MobilityConstraint::BoundedRegion {
        region: "eu-west".to_owned(),
    };
    let required = MobilityConstraint::BoundedRegion {
        region: "eu-west".to_owned(),
    };
    assert!(constraint.satisfies(&required));
}

#[test]
fn mobility_bounded_does_not_satisfy_different_region() {
    let constraint = MobilityConstraint::BoundedRegion {
        region: "us-east".to_owned(),
    };
    let required = MobilityConstraint::BoundedRegion {
        region: "eu-west".to_owned(),
    };
    assert!(!constraint.satisfies(&required));
}

#[test]
fn mobility_unrestricted_does_not_satisfy_bounded() {
    assert!(
        !MobilityConstraint::Unrestricted.satisfies(&MobilityConstraint::BoundedRegion {
            region: "any".to_owned(),
        })
    );
}

#[test]
fn mobility_unrestricted_does_not_satisfy_pinned() {
    assert!(!MobilityConstraint::Unrestricted.satisfies(&MobilityConstraint::Pinned));
}

#[test]
fn mobility_bounded_rejects_empty_region() {
    let mc = MobilityConstraint::BoundedRegion {
        region: "  ".to_owned(),
    };
    assert!(mc.validate("test").is_err());
}

#[test]
fn overload_queue_rejects_zero_capacity() {
    let policy = OverloadPolicy::QueueWithinBudget { max_pending: 0 };
    assert_eq!(
        policy.validate().unwrap_err(),
        ServiceContractError::InvalidQueueCapacity
    );
}

#[test]
fn overload_queue_accepts_nonzero_capacity() {
    let policy = OverloadPolicy::QueueWithinBudget { max_pending: 100 };
    assert!(policy.validate().is_ok());
}

#[test]
fn overload_non_queue_variants_validate() {
    for policy in [
        OverloadPolicy::RejectNew,
        OverloadPolicy::DropEphemeral,
        OverloadPolicy::FailFast,
    ] {
        assert!(policy.validate().is_ok());
    }
}

#[test]
fn default_contract_schema_validates() {
    assert!(ServiceContractSchema::default().validate().is_ok());
}

#[test]
fn contract_schema_rejects_invalid_overload_policy() {
    let mut schema = ServiceContractSchema::default();
    schema.overload_policy = OverloadPolicy::QueueWithinBudget { max_pending: 0 };
    assert!(schema.validate().is_err());
}

#[test]
fn provider_terms_reject_compensation_below_contract() {
    let provider = ProviderTerms {
        compensation_policy: CompensationSemantics::NoCompensation,
        ..provider_terms()
    };
    let err = provider.validate_against(&contract()).unwrap_err();
    assert!(matches!(
        err,
        ServiceContractError::ProviderCompensationBelowContract { .. }
    ));
}

#[test]
fn provider_terms_reject_evidence_below_contract() {
    let c = ServiceContractSchema {
        evidence_requirements: EvidenceLevel::Forensic,
        ..contract()
    };
    let provider = ProviderTerms {
        evidence_level: EvidenceLevel::Standard,
        ..provider_terms()
    };
    let err = provider.validate_against(&c).unwrap_err();
    assert!(matches!(
        err,
        ServiceContractError::ProviderEvidenceBelowContract { .. }
    ));
}

#[test]
fn provider_terms_reject_incompatible_mobility() {
    let c = ServiceContractSchema {
        mobility_constraints: MobilityConstraint::Pinned,
        ..contract()
    };
    let provider = ProviderTerms {
        mobility_constraint: MobilityConstraint::Unrestricted,
        ..provider_terms()
    };
    let err = provider.validate_against(&c).unwrap_err();
    assert!(matches!(
        err,
        ServiceContractError::ProviderMobilityIncompatible { .. }
    ));
}

#[test]
fn service_failure_maps_to_correct_abort_reasons() {
    assert_eq!(
        ServiceFailure::Cancelled.abort_reason(),
        ObligationAbortReason::Cancel
    );
    assert_eq!(
        ServiceFailure::TimedOut.abort_reason(),
        ObligationAbortReason::Explicit
    );
    assert_eq!(
        ServiceFailure::Rejected.abort_reason(),
        ObligationAbortReason::Explicit
    );
    assert_eq!(
        ServiceFailure::Overloaded.abort_reason(),
        ObligationAbortReason::Error
    );
    assert_eq!(
        ServiceFailure::TransportError.abort_reason(),
        ObligationAbortReason::Error
    );
    assert_eq!(
        ServiceFailure::ApplicationError.abort_reason(),
        ObligationAbortReason::Error
    );
}

#[test]
fn cleanup_urgency_display() {
    assert_eq!(CleanupUrgency::Background.to_string(), "background");
    assert_eq!(CleanupUrgency::Prompt.to_string(), "prompt");
    assert_eq!(CleanupUrgency::Immediate.to_string(), "immediate");
}

#[test]
fn cancellation_obligations_display() {
    assert_eq!(
        CancellationObligations::BestEffortDrain.to_string(),
        "best-effort-drain"
    );
    assert_eq!(
        CancellationObligations::DrainBeforeReply.to_string(),
        "drain-before-reply"
    );
    assert_eq!(
        CancellationObligations::DrainAndCompensate.to_string(),
        "drain-and-compensate"
    );
}

#[test]
fn service_failure_display() {
    assert_eq!(ServiceFailure::Cancelled.to_string(), "cancelled");
    assert_eq!(ServiceFailure::TimedOut.to_string(), "timed_out");
    assert_eq!(ServiceFailure::Overloaded.to_string(), "overloaded");
}

#[test]
fn default_enum_values_match_expected() {
    assert_eq!(PayloadShape::default(), PayloadShape::Empty);
    assert_eq!(ReplyShape::default(), ReplyShape::NoReply);
    assert_eq!(CleanupUrgency::default(), CleanupUrgency::Prompt);
    assert_eq!(
        CancellationObligations::default(),
        CancellationObligations::DrainBeforeReply
    );
    assert_eq!(
        CompensationSemantics::default(),
        CompensationSemantics::NoCompensation
    );
    assert_eq!(
        MobilityConstraint::default(),
        MobilityConstraint::Unrestricted
    );
    assert_eq!(EvidenceLevel::default(), EvidenceLevel::Standard);
    assert_eq!(OverloadPolicy::default(), OverloadPolicy::RejectNew);
}

#[test]
fn request_certificate_from_validated_roundtrip() {
    let request = ValidatedServiceRequest {
        delivery_class: DeliveryClass::ObligationBacked,
        timeout: Some(Duration::from_secs(5)),
        priority_hint: None,
        guaranteed_durability: DeliveryClass::MobilitySafe,
        evidence_level: EvidenceLevel::Standard,
        mobility_constraint: MobilityConstraint::Unrestricted,
        compensation_policy: CompensationSemantics::NoCompensation,
        overload_policy: OverloadPolicy::RejectNew,
    };

    let cert = RequestCertificate::from_validated(
        "req-1".into(),
        "caller-a".into(),
        "orders.region1.created".into(),
        &request,
        ReplySpaceRule::CallerInbox,
        "OrderService".into(),
        0xDEAD_BEEF,
        Time::from_nanos(1000),
    );

    assert_eq!(cert.request_id, "req-1");
    assert_eq!(cert.caller, "caller-a");
    assert_eq!(cert.delivery_class, DeliveryClass::ObligationBacked);
    assert_eq!(cert.capability_fingerprint, 0xDEAD_BEEF);
    assert!(cert.validate().is_ok());
}

#[test]
fn request_certificate_rejects_empty_fields() {
    let cert = RequestCertificate {
        request_id: String::new(),
        caller: "caller".into(),
        subject: "sub".into(),
        delivery_class: DeliveryClass::EphemeralInteractive,
        reply_space_rule: ReplySpaceRule::CallerInbox,
        service_class: "svc".into(),
        capability_fingerprint: 0,
        issued_at: Time::from_nanos(1),
        timeout: None,
    };
    assert!(cert.validate().is_err());
}

#[test]
fn request_certificate_rejects_zero_timeout() {
    let cert = RequestCertificate {
        request_id: "req-1".into(),
        caller: "caller".into(),
        subject: "sub".into(),
        delivery_class: DeliveryClass::EphemeralInteractive,
        reply_space_rule: ReplySpaceRule::CallerInbox,
        service_class: "svc".into(),
        capability_fingerprint: 0,
        issued_at: Time::from_nanos(1),
        timeout: Some(Duration::ZERO),
    };
    assert!(matches!(
        cert.validate(),
        Err(ServiceObligationError::ZeroTimeout)
    ));
}

#[test]
fn request_certificate_digest_is_deterministic() {
    let cert = RequestCertificate {
        request_id: "req-1".into(),
        caller: "caller-a".into(),
        subject: "orders.created".into(),
        delivery_class: DeliveryClass::DurableOrdered,
        reply_space_rule: ReplySpaceRule::CallerInbox,
        service_class: "OrderSvc".into(),
        capability_fingerprint: 42,
        issued_at: Time::from_nanos(1000),
        timeout: None,
    };
    assert_eq!(cert.digest(), cert.digest());
}

#[test]
fn request_certificate_digest_distinguishes_reply_contract_metadata() {
    let shared = RequestCertificate {
        request_id: "req-1".into(),
        caller: "caller-a".into(),
        subject: "orders.created".into(),
        delivery_class: DeliveryClass::DurableOrdered,
        reply_space_rule: ReplySpaceRule::SharedPrefix {
            prefix: "_INBOX.shared".into(),
        },
        service_class: "OrderSvc".into(),
        capability_fingerprint: 42,
        issued_at: Time::from_nanos(1000),
        timeout: Some(Duration::from_secs(5)),
    };
    let dedicated = RequestCertificate {
        reply_space_rule: ReplySpaceRule::DedicatedPrefix {
            prefix: "_INBOX.dedicated".into(),
        },
        ..shared.clone()
    };

    assert_ne!(shared.digest(), dedicated.digest());
}

#[test]
fn reply_certificate_from_commit() {
    let commit = ServiceReplyCommit {
        request_id: "req-1".into(),
        service_obligation_id: None,
        payload: b"hello".to_vec(),
        delivery_class: DeliveryClass::EphemeralInteractive,
        reply_obligation: None,
    };

    let cert = ReplyCertificate::from_commit(
        &commit,
        "callee-a".into(),
        Time::from_nanos(2000),
        Duration::from_millis(50),
    );

    assert_eq!(cert.request_id, "req-1");
    assert_eq!(cert.callee, "callee-a");
    assert!(!cert.is_chunked);
    assert!(cert.total_chunks.is_none());
    assert!(cert.validate().is_ok());
}

#[test]
fn reply_certificate_rejects_chunked_without_count() {
    let cert = ReplyCertificate {
        request_id: "req-1".into(),
        callee: "callee-a".into(),
        delivery_class: DeliveryClass::DurableOrdered,
        service_obligation_id: None,
        payload_digest: 0,
        is_chunked: true,
        total_chunks: None,
        issued_at: Time::from_nanos(1),
        service_latency: Duration::from_millis(1),
    };
    assert!(matches!(
        cert.validate(),
        Err(ServiceObligationError::ChunkedReplyMissingCount)
    ));
}

#[test]
fn reply_certificate_digest_is_deterministic() {
    let cert = ReplyCertificate {
        request_id: "req-1".into(),
        callee: "callee-a".into(),
        delivery_class: DeliveryClass::DurableOrdered,
        service_obligation_id: None,
        payload_digest: 0xCAFE,
        is_chunked: false,
        total_chunks: None,
        issued_at: Time::from_nanos(1000),
        service_latency: Duration::from_millis(10),
    };
    assert_eq!(cert.digest(), cert.digest());
}

#[test]
fn reply_certificate_digest_distinguishes_chunk_metadata() {
    let unary = ReplyCertificate {
        request_id: "req-1".into(),
        callee: "callee-a".into(),
        delivery_class: DeliveryClass::DurableOrdered,
        service_obligation_id: Some(ObligationId::new_for_test(7, 0)),
        payload_digest: 0xCAFE,
        is_chunked: false,
        total_chunks: None,
        issued_at: Time::from_nanos(1000),
        service_latency: Duration::from_millis(10),
    };
    let chunked = ReplyCertificate {
        is_chunked: true,
        total_chunks: Some(3),
        ..unary.clone()
    };

    assert_ne!(unary.digest(), chunked.digest());
}

#[test]
fn chunked_reply_lifecycle_bounded() {
    let mut chunked = ChunkedReplyObligation::new(
        "family-1".into(),
        "req-1".into(),
        None,
        Some(3),
        DeliveryClass::DurableOrdered,
        AckKind::Committed,
    )
    .unwrap();

    assert!(!chunked.is_complete());
    assert_eq!(chunked.receive_chunk().unwrap(), 0);
    assert_eq!(chunked.receive_chunk().unwrap(), 1);
    assert!(!chunked.is_complete());
    assert_eq!(chunked.receive_chunk().unwrap(), 2);
    assert!(chunked.is_complete());

    // Fourth chunk should overflow
    assert!(matches!(
        chunked.receive_chunk(),
        Err(ServiceObligationError::ChunkedReplyOverflow {
            expected: 3,
            received: 4,
        })
    ));

    let count = chunked.finalize().unwrap();
    assert_eq!(count, 3);
    assert!(chunked.is_finalized());
}

#[test]
fn chunked_reply_unbounded_stream() {
    let mut chunked = ChunkedReplyObligation::new(
        "family-2".into(),
        "req-2".into(),
        None,
        None, // unbounded
        DeliveryClass::ObligationBacked,
        AckKind::Accepted,
    )
    .unwrap();

    for _ in 0..100 {
        chunked.receive_chunk().unwrap();
    }
    assert!(!chunked.is_complete()); // unbounded never reports complete
    assert_eq!(chunked.received_chunks(), 100);

    let count = chunked.finalize().unwrap();
    assert_eq!(count, 100);
}

#[test]
fn chunked_reply_rejects_zero_expected() {
    assert!(matches!(
        ChunkedReplyObligation::new(
            "family-3".into(),
            "req-3".into(),
            None,
            Some(0),
            DeliveryClass::DurableOrdered,
            AckKind::Committed,
        ),
        Err(ServiceObligationError::ChunkedReplyZeroExpected)
    ));
}

#[test]
fn chunked_reply_finalize_is_idempotent_guard() {
    let mut chunked = ChunkedReplyObligation::new(
        "family-4".into(),
        "req-4".into(),
        None,
        Some(1),
        DeliveryClass::EphemeralInteractive,
        AckKind::Accepted,
    )
    .unwrap();

    chunked.receive_chunk().unwrap();
    chunked.finalize().unwrap();

    // Second finalize should fail
    assert!(matches!(
        chunked.finalize(),
        Err(ServiceObligationError::AlreadyResolved { .. })
    ));
}

#[test]
fn chunked_reply_certificate_carries_chunk_count() {
    let mut chunked = ChunkedReplyObligation::new(
        "family-5".into(),
        "req-5".into(),
        None,
        Some(2),
        DeliveryClass::DurableOrdered,
        AckKind::Committed,
    )
    .unwrap();

    chunked.receive_chunk().unwrap();
    chunked.receive_chunk().unwrap();
    chunked.finalize().unwrap();

    let cert = chunked
        .certificate(
            "callee-a".into(),
            0xBEEF,
            Time::from_nanos(3000),
            Duration::from_millis(100),
        )
        .expect("finalized bounded stream should produce a certificate");

    assert!(cert.is_chunked);
    assert_eq!(cert.total_chunks, Some(2));
    assert_eq!(cert.payload_digest, 0xBEEF);
    assert!(cert.validate().is_ok());
}

#[test]
fn chunked_reply_finalize_rejects_incomplete_bounded_stream() {
    let mut chunked = ChunkedReplyObligation::new(
        "family-early-finalize".into(),
        "req-early-finalize".into(),
        None,
        Some(2),
        DeliveryClass::DurableOrdered,
        AckKind::Committed,
    )
    .unwrap();

    chunked.receive_chunk().unwrap();

    assert!(matches!(
        chunked.finalize(),
        Err(ServiceObligationError::ChunkedReplyIncomplete {
            expected: 2,
            received: 1,
        })
    ));
    assert!(!chunked.is_finalized());
}

#[test]
fn chunked_reply_certificate_requires_finalize() {
    let mut chunked = ChunkedReplyObligation::new(
        "family-unfinalized-cert".into(),
        "req-unfinalized-cert".into(),
        None,
        Some(1),
        DeliveryClass::DurableOrdered,
        AckKind::Committed,
    )
    .unwrap();

    chunked.receive_chunk().unwrap();

    assert!(matches!(
        chunked.certificate(
            "callee-a".into(),
            0xCAFE,
            Time::from_nanos(1),
            Duration::from_millis(10),
        ),
        Err(ServiceObligationError::ChunkedReplyNotFinalized)
    ));
}

#[test]
fn chunked_reply_receive_after_finalize_fails() {
    let mut chunked = ChunkedReplyObligation::new(
        "family-6".into(),
        "req-6".into(),
        None,
        None, // unbounded stream — finalize is allowed at any count
        DeliveryClass::ObligationBacked,
        AckKind::Recoverable,
    )
    .unwrap();

    chunked.receive_chunk().unwrap();
    chunked.finalize().unwrap();

    assert!(matches!(
        chunked.receive_chunk(),
        Err(ServiceObligationError::AlreadyResolved { .. })
    ));
}

#[test]
fn chunked_reply_finalize_rejects_incomplete() {
    let mut chunked = ChunkedReplyObligation::new(
        "family-7".into(),
        "req-7".into(),
        None,
        Some(5),
        DeliveryClass::ObligationBacked,
        AckKind::Recoverable,
    )
    .unwrap();

    chunked.receive_chunk().unwrap();
    // Finalize with only 1 of 5 chunks should fail
    assert!(matches!(
        chunked.finalize(),
        Err(ServiceObligationError::ChunkedReplyIncomplete {
            expected: 5,
            received: 1,
        })
    ));
}
