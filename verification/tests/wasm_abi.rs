use asupersync::types::outcome::{CancelKind, CancelPhase, CancelReason, Outcome, PanicPayload};
use asupersync::types::wasm_abi::{
    apply_abort_signal_event, apply_runtime_cancel_phase_event, classify_wasm_abi_compatibility,
    is_valid_wasm_boundary_transition, required_wasm_abi_bump, validate_wasm_boundary_transition,
    wasm_abi_signature_fingerprint, wasm_abi_signatures_v1, wasm_boundary_state_for_cancel_phase,
    WasmAbiBoundaryEvent, WasmAbiCancellation, WasmAbiChangeClass, WasmAbiCompatibilityDecision,
    WasmAbiErrorCode, WasmAbiFailure, WasmAbiOutcomeEnvelope, WasmAbiPayloadShape,
    WasmAbiRecoverability, WasmAbiSignature, WasmAbiSymbol, WasmAbiValue, WasmAbiVersion,
    WasmAbiVersionBump, WasmAbortInteropSnapshot, WasmAbortPropagationMode, WasmBoundaryState,
    WasmBoundaryTransitionError, WasmHandleKind, WasmHandleRef, WASM_ABI_SIGNATURE_FINGERPRINT_V1,
};
use asupersync::types::{RegionId, TaskId, Time};

fn v(major: u16, minor: u16) -> WasmAbiVersion {
    WasmAbiVersion { major, minor }
}

#[test]
fn abi_compatibility_rules_enforced() {
    let exact = classify_wasm_abi_compatibility(v(1, 2), v(1, 2));
    assert_eq!(exact, WasmAbiCompatibilityDecision::Exact);
    assert!(exact.is_compatible());

    let backward = classify_wasm_abi_compatibility(v(1, 2), v(1, 5));
    assert!(matches!(
        backward,
        WasmAbiCompatibilityDecision::BackwardCompatible {
            producer_minor: 2,
            consumer_minor: 5
        }
    ));
    assert!(backward.is_compatible());

    let old_consumer = classify_wasm_abi_compatibility(v(1, 3), v(1, 2));
    assert!(matches!(
        old_consumer,
        WasmAbiCompatibilityDecision::ConsumerTooOld {
            producer_minor: 3,
            consumer_minor: 2
        }
    ));
    assert!(!old_consumer.is_compatible());

    let major_mismatch = classify_wasm_abi_compatibility(v(1, 0), v(2, 0));
    assert!(matches!(
        major_mismatch,
        WasmAbiCompatibilityDecision::MajorMismatch {
            producer_major: 1,
            consumer_major: 2
        }
    ));
    assert!(!major_mismatch.is_compatible());
}

#[test]
fn change_class_maps_to_required_version_bump() {
    assert_eq!(
        required_wasm_abi_bump(WasmAbiChangeClass::AdditiveField),
        WasmAbiVersionBump::Minor
    );
    assert_eq!(
        required_wasm_abi_bump(WasmAbiChangeClass::AdditiveSymbol),
        WasmAbiVersionBump::Minor
    );
    assert_eq!(
        required_wasm_abi_bump(WasmAbiChangeClass::BehavioralRelaxation),
        WasmAbiVersionBump::Minor
    );
    assert_eq!(
        required_wasm_abi_bump(WasmAbiChangeClass::BehavioralTightening),
        WasmAbiVersionBump::Major
    );
    assert_eq!(
        required_wasm_abi_bump(WasmAbiChangeClass::SymbolRemoval),
        WasmAbiVersionBump::Major
    );
    assert_eq!(
        required_wasm_abi_bump(WasmAbiChangeClass::ValueEncodingChange),
        WasmAbiVersionBump::Major
    );
}

#[test]
fn signature_fingerprint_matches_expected_v1() {
    let fingerprint = wasm_abi_signature_fingerprint(&wasm_abi_signatures_v1());
    assert_eq!(
        fingerprint, WASM_ABI_SIGNATURE_FINGERPRINT_V1,
        "ABI signature drift detected; update version policy and migration notes first"
    );
}

#[test]
fn cancellation_payload_maps_core_reason_fields() {
    let reason = CancelReason::with_origin(
        CancelKind::Timeout,
        RegionId::new_for_test(3, 7),
        Time::from_nanos(42),
    )
    .with_task(TaskId::new_for_test(4, 1))
    .with_message("deadline exceeded");

    let encoded = WasmAbiCancellation::from_reason(&reason, CancelPhase::Cancelling);

    assert_eq!(encoded.kind, "timeout");
    assert_eq!(encoded.phase, "cancelling");
    assert_eq!(encoded.timestamp_nanos, 42);
    assert_eq!(encoded.message.as_deref(), Some("deadline exceeded"));
    assert_eq!(encoded.origin_region, "R3");
    assert_eq!(encoded.origin_task.as_deref(), Some("T4"));
}

#[test]
fn abort_signal_event_propagates_to_runtime_when_configured() {
    let snapshot = WasmAbortInteropSnapshot {
        mode: WasmAbortPropagationMode::AbortSignalToRuntime,
        boundary_state: WasmBoundaryState::Active,
        abort_signal_aborted: false,
    };

    let update = apply_abort_signal_event(snapshot);
    assert_eq!(update.next_boundary_state, WasmBoundaryState::Cancelling);
    assert!(update.abort_signal_aborted);
    assert!(update.propagated_to_runtime);
    assert!(!update.propagated_to_abort_signal);

    let repeated = apply_abort_signal_event(WasmAbortInteropSnapshot {
        mode: snapshot.mode,
        boundary_state: update.next_boundary_state,
        abort_signal_aborted: update.abort_signal_aborted,
    });
    assert_eq!(repeated.next_boundary_state, WasmBoundaryState::Cancelling);
    assert!(repeated.abort_signal_aborted);
    assert!(!repeated.propagated_to_runtime);
    assert!(!repeated.propagated_to_abort_signal);
}

#[test]
fn runtime_cancel_phase_event_maps_to_abort_signal_and_state() {
    let requested = apply_runtime_cancel_phase_event(
        WasmAbortInteropSnapshot {
            mode: WasmAbortPropagationMode::RuntimeToAbortSignal,
            boundary_state: WasmBoundaryState::Active,
            abort_signal_aborted: false,
        },
        CancelPhase::Requested,
    );
    assert_eq!(requested.next_boundary_state, WasmBoundaryState::Cancelling);
    assert!(requested.abort_signal_aborted);
    assert!(requested.propagated_to_abort_signal);
    assert!(!requested.propagated_to_runtime);

    let finalizing = apply_runtime_cancel_phase_event(
        WasmAbortInteropSnapshot {
            mode: WasmAbortPropagationMode::RuntimeToAbortSignal,
            boundary_state: requested.next_boundary_state,
            abort_signal_aborted: requested.abort_signal_aborted,
        },
        CancelPhase::Finalizing,
    );
    assert_eq!(finalizing.next_boundary_state, WasmBoundaryState::Draining);
    assert!(finalizing.abort_signal_aborted);
    assert!(!finalizing.propagated_to_abort_signal);

    let completed = apply_runtime_cancel_phase_event(
        WasmAbortInteropSnapshot {
            mode: WasmAbortPropagationMode::RuntimeToAbortSignal,
            boundary_state: finalizing.next_boundary_state,
            abort_signal_aborted: finalizing.abort_signal_aborted,
        },
        CancelPhase::Completed,
    );
    assert_eq!(completed.next_boundary_state, WasmBoundaryState::Closed);
    assert!(completed.abort_signal_aborted);
}

#[test]
fn bidirectional_mode_keeps_already_aborted_signal_idempotent() {
    let update = apply_abort_signal_event(WasmAbortInteropSnapshot {
        mode: WasmAbortPropagationMode::Bidirectional,
        boundary_state: WasmBoundaryState::Active,
        abort_signal_aborted: true,
    });
    assert_eq!(update.next_boundary_state, WasmBoundaryState::Active);
    assert!(update.abort_signal_aborted);
    assert!(!update.propagated_to_runtime);
}

#[test]
fn from_outcome_maps_cancel_and_panic_variants() {
    let cancel_reason = CancelReason::with_origin(
        CancelKind::ParentCancelled,
        RegionId::new_for_test(9, 1),
        Time::from_nanos(9_000),
    );
    let cancelled = WasmAbiOutcomeEnvelope::from_outcome(Outcome::cancelled(cancel_reason));
    assert!(matches!(
        cancelled,
        WasmAbiOutcomeEnvelope::Cancelled {
            cancellation: WasmAbiCancellation {
                ref kind,
                ref phase,
                ..
            }
        } if kind == "parentcancelled" && phase == "completed"
    ));

    let panicked = WasmAbiOutcomeEnvelope::from_outcome(Outcome::Panicked(PanicPayload::new(
        "boundary panic",
    )));
    assert_eq!(
        panicked,
        WasmAbiOutcomeEnvelope::Panicked {
            message: "boundary panic".to_string(),
        }
    );
}

#[test]
fn boundary_transition_validator_accepts_and_rejects_expected_paths() {
    assert!(
        validate_wasm_boundary_transition(WasmBoundaryState::Unbound, WasmBoundaryState::Bound)
            .is_ok()
    );
    assert!(
        validate_wasm_boundary_transition(WasmBoundaryState::Bound, WasmBoundaryState::Active)
            .is_ok()
    );
    assert!(validate_wasm_boundary_transition(
        WasmBoundaryState::Active,
        WasmBoundaryState::Cancelling
    )
    .is_ok());
    assert!(validate_wasm_boundary_transition(
        WasmBoundaryState::Cancelling,
        WasmBoundaryState::Draining
    )
    .is_ok());
    assert!(
        validate_wasm_boundary_transition(WasmBoundaryState::Draining, WasmBoundaryState::Closed)
            .is_ok()
    );

    let invalid =
        validate_wasm_boundary_transition(WasmBoundaryState::Closed, WasmBoundaryState::Active);
    assert!(matches!(
        invalid,
        Err(WasmBoundaryTransitionError::Invalid {
            from: WasmBoundaryState::Closed,
            to: WasmBoundaryState::Active
        })
    ));
}

#[test]
fn boundary_event_log_fields_include_contract_keys() {
    let event = WasmAbiBoundaryEvent {
        abi_version: WasmAbiVersion::current(),
        symbol: WasmAbiSymbol::FetchRequest,
        payload_shape: WasmAbiPayloadShape::FetchRequestV1,
        state_from: WasmBoundaryState::Active,
        state_to: WasmBoundaryState::Cancelling,
        compatibility: WasmAbiCompatibilityDecision::Exact,
    };

    let fields = event.as_log_fields();
    assert_eq!(fields.get("abi_version"), Some(&"1.0".to_string()));
    assert_eq!(fields.get("symbol"), Some(&"fetch_request".to_string()));
    assert!(fields.contains_key("payload_shape"));
    assert!(fields.contains_key("state_from"));
    assert!(fields.contains_key("state_to"));
    assert!(fields.contains_key("compatibility"));
    assert_eq!(fields.get("compatibility"), Some(&"exact".to_string()));
    assert_eq!(
        fields.get("compatibility_decision"),
        Some(&"exact".to_string())
    );
    assert_eq!(
        fields.get("compatibility_compatible"),
        Some(&"true".to_string())
    );
    assert_eq!(
        fields.get("compatibility_producer_major"),
        Some(&"1".to_string())
    );
    assert_eq!(
        fields.get("compatibility_consumer_major"),
        Some(&"1".to_string())
    );
    assert_eq!(
        fields.get("compatibility_producer_minor"),
        Some(&"0".to_string())
    );
    assert_eq!(
        fields.get("compatibility_consumer_minor"),
        Some(&"0".to_string())
    );
}

#[test]
fn major_mismatch_log_fields_include_major_only_details() {
    let event = WasmAbiBoundaryEvent {
        abi_version: WasmAbiVersion::current(),
        symbol: WasmAbiSymbol::RuntimeCreate,
        payload_shape: WasmAbiPayloadShape::Empty,
        state_from: WasmBoundaryState::Unbound,
        state_to: WasmBoundaryState::Bound,
        compatibility: WasmAbiCompatibilityDecision::MajorMismatch {
            producer_major: 1,
            consumer_major: 2,
        },
    };

    let fields = event.as_log_fields();
    assert_eq!(
        fields.get("compatibility_decision"),
        Some(&"major_mismatch".to_string())
    );
    assert_eq!(
        fields.get("compatibility_compatible"),
        Some(&"false".to_string())
    );
    assert_eq!(
        fields.get("compatibility_producer_major"),
        Some(&"1".to_string())
    );
    assert_eq!(
        fields.get("compatibility_consumer_major"),
        Some(&"2".to_string())
    );
    assert!(!fields.contains_key("compatibility_producer_minor"));
    assert!(!fields.contains_key("compatibility_consumer_minor"));
}

#[test]
fn backward_compatible_log_fields_carry_both_minors() {
    let event = WasmAbiBoundaryEvent {
        abi_version: v(1, 2),
        symbol: WasmAbiSymbol::TaskCancel,
        payload_shape: WasmAbiPayloadShape::CancelRequestV1,
        state_from: WasmBoundaryState::Active,
        state_to: WasmBoundaryState::Cancelling,
        compatibility: classify_wasm_abi_compatibility(v(1, 2), v(1, 5)),
    };
    let fields = event.as_log_fields();
    assert_eq!(fields.get("abi_version"), Some(&"1.2".to_string()));
    assert_eq!(fields.get("symbol"), Some(&"task_cancel".to_string()));
    assert_eq!(
        fields.get("compatibility_decision"),
        Some(&"backward_compatible".to_string())
    );
    assert_eq!(
        fields.get("compatibility_producer_minor"),
        Some(&"2".to_string())
    );
    assert_eq!(
        fields.get("compatibility_consumer_minor"),
        Some(&"5".to_string())
    );
    assert_eq!(
        fields.get("state_to"),
        Some(&"cancelling".to_string())
    );
}

#[test]
fn consumer_too_old_and_remaining_change_classes() {
    let d = classify_wasm_abi_compatibility(v(2, 9), v(2, 0));
    assert_eq!(
        d,
        WasmAbiCompatibilityDecision::ConsumerTooOld {
            producer_minor: 9,
            consumer_minor: 0
        }
    );
    assert_eq!(
        required_wasm_abi_bump(WasmAbiChangeClass::OutcomeSemanticChange),
        WasmAbiVersionBump::Major
    );
    assert_eq!(
        required_wasm_abi_bump(WasmAbiChangeClass::CancellationSemanticChange),
        WasmAbiVersionBump::Major
    );
}

#[test]
fn fingerprint_changes_when_signatures_change() {
    let table = wasm_abi_signatures_v1();
    assert_eq!(table.len(), 8);
    assert_eq!(table[0].symbol, WasmAbiSymbol::RuntimeCreate);
    assert_eq!(table[7].symbol, WasmAbiSymbol::FetchRequest);
    let mut changed = table;
    changed[0] = WasmAbiSignature {
        symbol: WasmAbiSymbol::RuntimeCreate,
        request: WasmAbiPayloadShape::HandleRefV1,
        response: WasmAbiPayloadShape::HandleRefV1,
    };
    assert_ne!(
        wasm_abi_signature_fingerprint(&changed),
        wasm_abi_signature_fingerprint(&table)
    );
    // The empty table hashes to the FNV offset basis.
    assert_eq!(wasm_abi_signature_fingerprint(&[]), 0xcbf2_9ce4_8422_2325);
}

#[test]
fn every_cancel_phase_maps_to_a_boundary_state() {
    assert_eq!(
        wasm_boundary_state_for_cancel_phase(CancelPhase::Requested),
        WasmBoundaryState::Cancelling
    );
    assert_eq!(
        wasm_boundary_state_for_cancel_phase(CancelPhase::Cancelling),
        WasmBoundaryState::Cancelling
    );
    assert_eq!(
        wasm_boundary_state_for_cancel_phase(CancelPhase::Finalizing),
        WasmBoundaryState::Draining
    );
    assert_eq!(
        wasm_boundary_state_for_cancel_phase(CancelPhase::Completed),
        WasmBoundaryState::Closed
    );
}

#[test]
fn transitions_only_move_forward() {
    let all = [
        WasmBoundaryState::Unbound,
        WasmBoundaryState::Bound,
        WasmBoundaryState::Active,
        WasmBoundaryState::Cancelling,
        WasmBoundaryState::Draining,
        WasmBoundaryState::Closed,
    ];
    for s in all {
        assert!(is_valid_wasm_boundary_transition(s, s));
    }
    assert!(is_valid_wasm_boundary_transition(
        WasmBoundaryState::Active,
        WasmBoundaryState::Closed
    ));
    assert!(!is_valid_wasm_boundary_transition(
        WasmBoundaryState::Draining,
        WasmBoundaryState::Active
    ));
    assert!(!is_valid_wasm_boundary_transition(
        WasmBoundaryState::Unbound,
        WasmBoundaryState::Active
    ));
}

#[test]
fn abort_event_without_runtime_propagation_only_marks_signal() {
    let update = apply_abort_signal_event(WasmAbortInteropSnapshot {
        mode: WasmAbortPropagationMode::RuntimeToAbortSignal,
        boundary_state: WasmBoundaryState::Active,
        abort_signal_aborted: false,
    });
    assert_eq!(update.next_boundary_state, WasmBoundaryState::Active);
    assert!(update.abort_signal_aborted);
    assert!(!update.propagated_to_runtime);
    assert!(!update.propagated_to_abort_signal);
}

#[test]
fn from_outcome_keeps_values_and_failures() {
    let handle = WasmHandleRef {
        kind: WasmHandleKind::Task,
        slot: 11,
        generation: 2,
    };
    let ok = WasmAbiOutcomeEnvelope::from_outcome(Outcome::Completed(WasmAbiValue::Handle(handle)));
    assert_eq!(
        ok,
        WasmAbiOutcomeEnvelope::Completed {
            value: WasmAbiValue::Handle(handle)
        }
    );
    let failure = WasmAbiFailure {
        code: WasmAbiErrorCode::CapabilityDenied,
        recoverability: WasmAbiRecoverability::Permanent,
        message: "missing fetch capability".to_string(),
    };
    let err = WasmAbiOutcomeEnvelope::from_outcome(Outcome::Failed(failure.clone()));
    assert_eq!(err, WasmAbiOutcomeEnvelope::Failed { failure });
}

#[test]
fn cancellation_without_task_or_message() {
    let reason = CancelReason::with_origin(
        CancelKind::User,
        RegionId::new_for_test(12, 0),
        Time::from_nanos(7),
    );
    let encoded = WasmAbiCancellation::from_reason(&reason, CancelPhase::Finalizing);
    assert_eq!(encoded.kind, "user");
    assert_eq!(encoded.phase, "finalizing");
    assert_eq!(encoded.origin_region, "R12");
    assert_eq!(encoded.origin_task, None);
    assert_eq!(encoded.message, None);
    assert_eq!(encoded.timestamp_nanos, 7);
    assert!(!encoded.truncated);
}
