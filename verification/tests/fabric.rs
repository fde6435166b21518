use asupersync::error::ErrorKind;
use asupersync::messaging::class::{AckKind, DeliveryClass};
use asupersync::messaging::fabric::{
    connect_endpoint, loopback_reply, CapturePolicy, CellEpoch, FabricLog, FabricStreamHandle, CellId, CellTemperature, DataCapsule, FabricError, FabricStreamConfig, NodeRole,
    NormalizationPolicy, ObservedCellLoad, PlacementPolicy, RebalanceBudget, ReplySpaceCompactionPolicy, RepairPolicy,
    StewardCandidate, StewardHealth, StorageClass, SubjectCell, SubjectPrefixMorphism,
};
use asupersync::messaging::subject::{SubjectPattern, SubjectPatternError};
use asupersync::remote::NodeId;

fn candidate(
    name: &str,
    domain: &str,
    storage_class: StorageClass,
    latency_millis: u32,
) -> StewardCandidate {
    StewardCandidate::new(NodeId::new(name), domain)
        .with_role(NodeRole::Steward)
        .with_role(NodeRole::RepairWitness)
        .with_storage_class(storage_class)
        .with_latency_millis(latency_millis)
}

#[test]
fn stream_config_defaults_to_ephemeral_interactive() {
    let config = FabricStreamConfig::default();
    assert_eq!(config.delivery_class, DeliveryClass::EphemeralInteractive);
    assert_eq!(config.capture_policy, CapturePolicy::ExplicitOptIn);
    assert!(config.subjects.is_empty());
}

#[test]
fn stream_config_rejects_empty_subject_lists() {
    let err = FabricStreamConfig::default()
        .validate()
        .expect_err("empty stream declarations must fail closed");
    assert_eq!(err.kind(), ErrorKind::ConfigError);
}

#[test]
fn stream_config_rejects_overlapping_subjects() {
    let config = FabricStreamConfig {
        subjects: vec![
            SubjectPattern::parse("orders.>").expect("orders wildcard"),
            SubjectPattern::parse("orders.created").expect("orders literal"),
        ],
        ..FabricStreamConfig::default()
    };

    let err = config
        .validate()
        .expect_err("overlapping capture declarations must be rejected");
    assert_eq!(err.kind(), ErrorKind::User);
}

#[test]
fn parse_subject_pattern_trims_outer_whitespace() {
    let pattern = SubjectPattern::parse("  orders.created.>  ").expect("pattern");
    assert_eq!(pattern.canonical_key(), "orders.created.>");
}

#[test]
fn parse_subject_pattern_rejects_non_terminal_tail_wildcard() {
    let err = SubjectPattern::parse("orders.>.created").expect_err("should reject");
    assert_eq!(err, SubjectPatternError::TailWildcardMustBeTerminal);
}

#[test]
fn reply_space_aggregation_compacts_ephemeral_suffixes() {
    let pattern =
        SubjectPattern::parse("_INBOX.orders.region.instance.12345").expect("pattern");
    let compacted = pattern.aggregate_reply_space(ReplySpaceCompactionPolicy {
        enabled: true,
        preserve_segments: 3,
    });
    assert_eq!(compacted.canonical_key(), "_INBOX.orders.region.>");
}

#[test]
fn overlap_detection_handles_literals_and_wildcards() {
    let left = SubjectPattern::parse("orders.*").expect("left");
    let right = SubjectPattern::parse("orders.created").expect("right");
    let third = SubjectPattern::parse("metrics.>").expect("third");
    let fourth = SubjectPattern::parse("orders.created").expect("fourth");

    assert!(left.overlaps(&right));
    assert!(!left.overlaps(&third));
    assert!(third.overlaps(&SubjectPattern::parse("metrics.region.1").expect("tail")));
    assert!(right.overlaps(&fourth));
}

#[test]
fn tail_wildcard_requires_a_non_empty_suffix() {
    let wildcard = SubjectPattern::parse("orders.>").expect("wildcard");
    let bare_prefix = SubjectPattern::parse("orders").expect("bare prefix");

    assert!(!wildcard.overlaps(&bare_prefix));
    assert!(wildcard.overlaps(&SubjectPattern::parse("orders.created").expect("expanded")));
}

#[test]
fn normalization_policy_applies_prefix_morphisms() {
    let policy = NormalizationPolicy {
        morphisms: vec![SubjectPrefixMorphism::new("svc.orders", "orders").expect("morphism")],
        reply_space_policy: ReplySpaceCompactionPolicy {
            enabled: true,
            preserve_segments: 3,
        },
    };

    let canonical = policy
        .normalize(&SubjectPattern::parse("svc.orders.created").expect("pattern"))
        .expect("normalized");

    assert_eq!(canonical.canonical_key(), "orders.created");
}

#[test]
fn normalization_policy_chains_prefix_morphisms() {
    let policy = NormalizationPolicy {
        morphisms: vec![
            SubjectPrefixMorphism::new("svc.orders", "orders").expect("morphism"),
            SubjectPrefixMorphism::new("orders", "canonical.orders").expect("morphism"),
        ],
        reply_space_policy: ReplySpaceCompactionPolicy::default(),
    };

    let canonical = policy
        .normalize(&SubjectPattern::parse("svc.orders.created").expect("pattern"))
        .expect("normalized");

    assert_eq!(canonical.canonical_key(), "canonical.orders.created");
}

#[test]
fn normalization_policy_rejects_morphism_cycles() {
    let policy = NormalizationPolicy {
        morphisms: vec![
            SubjectPrefixMorphism::new("svc.orders", "orders").expect("morphism"),
            SubjectPrefixMorphism::new("orders", "svc.orders").expect("morphism"),
        ],
        reply_space_policy: ReplySpaceCompactionPolicy::default(),
    };

    let err = policy
        .normalize(&SubjectPattern::parse("svc.orders.created").expect("pattern"))
        .expect_err("should reject cycle");

    assert!(matches!(err, FabricError::CyclicSubjectMorphisms { .. }));
}

#[test]
fn normalization_policy_can_compact_reply_space_after_morphism() {
    let policy = NormalizationPolicy {
        morphisms: vec![SubjectPrefixMorphism::new("svc", "_INBOX").expect("morphism")],
        reply_space_policy: ReplySpaceCompactionPolicy {
            enabled: true,
            preserve_segments: 3,
        },
    };

    let canonical = policy
        .normalize(&SubjectPattern::parse("svc.orders.region.instance.123").expect("pattern"))
        .expect("normalized");

    assert_eq!(canonical.canonical_key(), "_INBOX.orders.region.>");
}

#[test]
fn non_overlapping_validation_rejects_conflicts() {
    let patterns = vec![
        SubjectPattern::parse("orders.created").expect("orders.created"),
        SubjectPattern::parse("orders.*").expect("orders.*"),
    ];
    let err = SubjectPattern::validate_non_overlapping(&patterns).expect_err("should overlap");
    assert!(matches!(
        err,
        FabricError::OverlappingSubjectPartitions { .. }
    ));
}

#[test]
fn cell_id_is_stable_for_same_partition_and_epoch() {
    let partition = SubjectPattern::parse("orders.created").expect("pattern");
    let epoch = CellEpoch::new(7, 3);
    let first = CellId::for_partition(epoch, &partition);
    let second = CellId::for_partition(epoch, &partition);

    assert_eq!(first, second);
    assert_ne!(
        first,
        CellId::for_partition(CellEpoch::new(8, 3), &partition)
    );
}

#[test]
fn alias_subjects_collapse_to_the_same_subject_cell() {
    let policy = PlacementPolicy {
        normalization: NormalizationPolicy {
            morphisms: vec![
                SubjectPrefixMorphism::new("svc.orders", "orders").expect("morphism"),
            ],
            ..NormalizationPolicy::default()
        },
        ..PlacementPolicy::default()
    };
    let candidates = vec![
        candidate("node-a", "rack-a", StorageClass::Durable, 5),
        candidate("node-b", "rack-b", StorageClass::Standard, 7),
        candidate("node-c", "rack-c", StorageClass::Standard, 9),
    ];
    let epoch = CellEpoch::new(17, 4);

    let canonical = SubjectCell::new(
        &SubjectPattern::parse("orders.created").expect("canonical"),
        epoch,
        &candidates,
        &policy,
        RepairPolicy::default(),
        DataCapsule::default(),
    )
    .expect("canonical cell");
    let aliased = SubjectCell::new(
        &SubjectPattern::parse("svc.orders.created").expect("aliased"),
        epoch,
        &candidates,
        &policy,
        RepairPolicy::default(),
        DataCapsule::default(),
    )
    .expect("aliased cell");

    assert_eq!(canonical.subject_partition, aliased.subject_partition);
    assert_eq!(canonical.cell_id, aliased.cell_id);
    assert_eq!(canonical.steward_set, aliased.steward_set);
}

#[test]
fn thermal_hysteresis_damps_temperature_flips() {
    let policy = PlacementPolicy::default();

    assert_eq!(
        policy.recommend_temperature(CellTemperature::Warm, ObservedCellLoad::new(64)),
        CellTemperature::Warm
    );
    assert_eq!(
        policy.recommend_temperature(CellTemperature::Warm, ObservedCellLoad::new(32)),
        CellTemperature::Cold
    );
    assert_eq!(
        policy.recommend_temperature(CellTemperature::Hot, ObservedCellLoad::new(768)),
        CellTemperature::Hot
    );
    assert_eq!(
        policy.recommend_temperature(CellTemperature::Hot, ObservedCellLoad::new(256)),
        CellTemperature::Warm
    );
}

#[test]
fn rebalance_budget_limits_steward_churn() {
    let partition = SubjectPattern::parse("orders.created").expect("pattern");
    let policy = PlacementPolicy {
        cold_stewards: 1,
        warm_stewards: 2,
        hot_stewards: 3,
        candidate_pool_size: 5,
        rebalance_budget: RebalanceBudget {
            max_steward_changes: 1,
        },
        ..PlacementPolicy::default()
    };
    let candidates = vec![
        candidate("node-a", "rack-a", StorageClass::Durable, 5),
        candidate("node-b", "rack-b", StorageClass::Durable, 6),
        candidate("node-c", "rack-c", StorageClass::Standard, 7),
    ];
    let current_stewards = vec![NodeId::new("node-a")];

    let plan = policy
        .plan_rebalance(
            &partition,
            &candidates,
            &current_stewards,
            CellTemperature::Cold,
            ObservedCellLoad::new(2_048),
        )
        .expect("rebalance");

    assert_eq!(plan.next_temperature, CellTemperature::Hot);
    assert_eq!(plan.added_stewards.len(), 1);
    assert!(plan.removed_stewards.is_empty());
    assert_eq!(plan.next_stewards.len(), 2);
    assert!(
        plan.next_stewards
            .iter()
            .any(|node| node.as_str() == "node-a")
    );
}

#[test]
fn rebalance_planning_uses_normalized_subject_partition() {
    let policy = PlacementPolicy {
        cold_stewards: 1,
        warm_stewards: 1,
        hot_stewards: 1,
        candidate_pool_size: 4,
        normalization: NormalizationPolicy {
            morphisms: vec![
                SubjectPrefixMorphism::new("svc.orders", "orders").expect("morphism"),
            ],
            ..NormalizationPolicy::default()
        },
        ..PlacementPolicy::default()
    };
    let candidates = vec![
        candidate("node-a", "rack-a", StorageClass::Durable, 5),
        candidate("node-b", "rack-b", StorageClass::Durable, 6),
        candidate("node-c", "rack-c", StorageClass::Standard, 7),
        candidate("node-d", "rack-d", StorageClass::Standard, 8),
        candidate("node-e", "rack-e", StorageClass::Standard, 9),
    ];
    let alias_subjects = [
        "svc.orders.created",
        "svc.orders.updated",
        "svc.orders.cancelled",
        "svc.orders.fulfilled",
        "svc.orders.archived",
        "svc.orders.audit",
        "svc.orders.retry",
        "svc.orders.snapshot",
    ];

    let (aliased, current_stewards) = alias_subjects
        .iter()
        .find_map(|raw| {
            let aliased = SubjectPattern::parse(raw).expect("pattern");
            let canonical = policy.normalization.normalize(&aliased).expect("canonical");
            let raw_stewards = policy
                .select_stewards(&aliased, &candidates, CellTemperature::Warm)
                .expect("raw placement");
            let canonical_stewards = policy
                .select_stewards(&canonical, &candidates, CellTemperature::Warm)
                .expect("canonical placement");

            (raw_stewards != canonical_stewards).then_some((aliased, canonical_stewards))
        })
        .expect("expected at least one alias subject to hash differently before normalization");

    let plan = policy
        .plan_rebalance(
            &aliased,
            &candidates,
            &current_stewards,
            CellTemperature::Warm,
            ObservedCellLoad::new(256),
        )
        .expect("rebalance");

    assert_eq!(plan.next_stewards, current_stewards);
    assert!(plan.added_stewards.is_empty());
    assert!(plan.removed_stewards.is_empty());
}

#[test]
fn placement_is_deterministic_and_filters_ineligible_nodes() {
    let partition = SubjectPattern::parse("orders.created").expect("pattern");
    let policy = PlacementPolicy {
        cold_stewards: 2,
        warm_stewards: 2,
        hot_stewards: 2,
        candidate_pool_size: 4,
        ..PlacementPolicy::default()
    };
    let candidates = vec![
        candidate("node-a", "rack-a", StorageClass::Durable, 8),
        candidate("node-b", "rack-b", StorageClass::Standard, 12),
        StewardCandidate::new(NodeId::new("observer"), "rack-c")
            .with_role(NodeRole::Subscriber)
            .with_health(StewardHealth::Healthy),
    ];

    let first = policy
        .select_stewards(&partition, &candidates, CellTemperature::Warm)
        .expect("placement");
    let second = policy
        .select_stewards(&partition, &candidates, CellTemperature::Warm)
        .expect("placement");

    assert_eq!(first, second);
    assert!(first.iter().all(|node| node.as_str() != "observer"));
}

#[test]
fn hot_cells_widen_steward_set() {
    let partition = SubjectPattern::parse("orders.created").expect("pattern");
    let policy = PlacementPolicy {
        cold_stewards: 1,
        warm_stewards: 2,
        hot_stewards: 3,
        candidate_pool_size: 5,
        ..PlacementPolicy::default()
    };
    let candidates = vec![
        candidate("node-a", "rack-a", StorageClass::Durable, 5),
        candidate("node-b", "rack-b", StorageClass::Durable, 6),
        candidate("node-c", "rack-c", StorageClass::Standard, 7),
    ];

    let cold = policy
        .select_stewards(&partition, &candidates, CellTemperature::Cold)
        .expect("cold");
    let hot = policy
        .select_stewards(&partition, &candidates, CellTemperature::Hot)
        .expect("hot");

    assert_eq!(cold.len(), 1);
    assert_eq!(hot.len(), 3);
}

#[test]
fn placement_prefers_failure_domain_diversity() {
    let partition = SubjectPattern::parse("orders.created").expect("pattern");
    let policy = PlacementPolicy {
        cold_stewards: 2,
        warm_stewards: 2,
        hot_stewards: 2,
        candidate_pool_size: 4,
        ..PlacementPolicy::default()
    };
    let candidates = vec![
        candidate("node-a", "rack-a", StorageClass::Durable, 5),
        candidate("node-b", "rack-a", StorageClass::Durable, 5),
        candidate("node-c", "rack-b", StorageClass::Standard, 6),
        candidate("node-d", "rack-c", StorageClass::Standard, 7),
    ];

    let selected = policy
        .select_stewards(&partition, &candidates, CellTemperature::Warm)
        .expect("selected");
    assert_eq!(selected.len(), 2);
    assert!(selected.iter().any(|node| node.as_str() == "node-a"));
    assert!(
        selected
            .iter()
            .any(|node| node.as_str() == "node-c" || node.as_str() == "node-d")
    );
}

#[test]
fn placement_falls_back_to_high_latency_candidates_to_fill_steward_set() {
    let partition = SubjectPattern::parse("orders.created").expect("pattern");
    let policy = PlacementPolicy {
        cold_stewards: 3,
        warm_stewards: 3,
        hot_stewards: 3,
        candidate_pool_size: 3,
        max_latency_millis: 20,
        ..PlacementPolicy::default()
    };
    let candidates = vec![
        candidate("node-a", "rack-a", StorageClass::Durable, 5),
        candidate("node-b", "rack-b", StorageClass::Standard, 7),
        candidate("node-c", "rack-c", StorageClass::Standard, 250),
    ];

    let selected = policy
        .select_stewards(&partition, &candidates, CellTemperature::Warm)
        .expect("selected");

    assert_eq!(selected.len(), 3);
    assert!(selected.iter().any(|node| node.as_str() == "node-c"));
}

#[test]
fn hot_placement_prefers_explicit_repair_witness_capacity() {
    let partition = SubjectPattern::parse("orders.created").expect("pattern");
    let policy = PlacementPolicy {
        cold_stewards: 1,
        warm_stewards: 1,
        hot_stewards: 1,
        candidate_pool_size: 2,
        max_latency_millis: 20,
        ..PlacementPolicy::default()
    };
    let candidates = vec![
        StewardCandidate::new(NodeId::new("node-a"), "rack-a")
            .with_role(NodeRole::Steward)
            .with_storage_class(StorageClass::Standard)
            .with_latency_millis(5),
        StewardCandidate::new(NodeId::new("node-b"), "rack-b")
            .with_role(NodeRole::Steward)
            .with_role(NodeRole::RepairWitness)
            .with_storage_class(StorageClass::Standard)
            .with_latency_millis(5),
    ];

    let warm = policy
        .select_stewards(&partition, &candidates, CellTemperature::Warm)
        .expect("warm");
    let hot = policy
        .select_stewards(&partition, &candidates, CellTemperature::Hot)
        .expect("hot");

    assert_eq!(warm, vec![NodeId::new("node-a")]);
    assert_eq!(hot, vec![NodeId::new("node-b")]);
}

#[test]
fn subject_cell_construction_builds_capsules_and_compacts_reply_space() {
    let subject_partition =
        SubjectPattern::parse("_INBOX.orders.region.instance.123").expect("pattern");
    let policy = PlacementPolicy {
        cold_stewards: 2,
        warm_stewards: 2,
        hot_stewards: 3,
        candidate_pool_size: 4,
        normalization: NormalizationPolicy {
            morphisms: Vec::new(),
            reply_space_policy: ReplySpaceCompactionPolicy {
                enabled: true,
                preserve_segments: 3,
            },
        },
        ..PlacementPolicy::default()
    };
    let data_capsule = DataCapsule {
        temperature: CellTemperature::Warm,
        retained_message_blocks: 4,
    };
    let candidates = vec![
        candidate("node-a", "rack-a", StorageClass::Durable, 5),
        candidate("node-b", "rack-b", StorageClass::Standard, 6),
        candidate("node-c", "rack-c", StorageClass::Standard, 7),
    ];

    let cell = SubjectCell::new(
        &subject_partition,
        CellEpoch::new(11, 2),
        &candidates,
        &policy,
        RepairPolicy::default(),
        data_capsule,
    )
    .expect("cell");

    assert_eq!(
        cell.subject_partition.canonical_key(),
        "_INBOX.orders.region.>"
    );
    assert_eq!(
        cell.control_capsule.active_sequencer,
        cell.steward_set.first().cloned()
    );
    assert_eq!(cell.steward_set.len(), 2);
}


#[test]
fn endpoint_is_trimmed_and_blank_is_config_error() {
    assert_eq!(connect_endpoint("  node1:4222 ").unwrap(), "node1:4222");
    let err = connect_endpoint("   ").unwrap_err();
    assert_eq!(err.kind(), ErrorKind::ConfigError);
    assert_eq!(err.message(), "fabric endpoint must not be empty");
}

#[test]
fn log_publish_and_match_in_order() {
    let mut log = FabricLog::new();
    let receipt = log.publish("orders.created", b"payload".to_vec()).expect("publish");
    assert_eq!(receipt.ack_kind, AckKind::Accepted);
    assert_eq!(receipt.delivery_class, DeliveryClass::EphemeralInteractive);
    assert_eq!(receipt.payload_len, 7);
    log.publish("metrics.cpu", b"x".to_vec()).expect("publish");
    log.publish("orders.updated", b"y".to_vec()).expect("publish");
    let pattern = SubjectPattern::parse("orders.>").unwrap();
    let (next, first) = log.next_matching(&pattern, 0).expect("first");
    assert_eq!(next, 1);
    assert_eq!(first.subject.as_str(), "orders.created");
    assert_eq!(first.payload, b"payload".to_vec());
    let (next, second) = log.next_matching(&pattern, next).expect("second");
    assert_eq!(next, 3);
    assert_eq!(second.subject.as_str(), "orders.updated");
    assert!(log.next_matching(&pattern, next).is_none());
    let err = log.publish("orders.*", Vec::new()).unwrap_err();
    assert_eq!(err.kind(), ErrorKind::User);
    assert_eq!(err.message(), "subject `orders.*` must not contain wildcard tokens");
    assert_eq!(log.published.len(), 3);
    let reply = loopback_reply(receipt, b"lookup".to_vec());
    assert_eq!(reply.subject.as_str(), "orders.created");
    assert_eq!(reply.payload, b"lookup".to_vec());
}

#[test]
fn stream_handle_keeps_endpoint_and_config() {
    let config = FabricStreamConfig {
        subjects: vec![SubjectPattern::parse("orders.>").unwrap()],
        delivery_class: DeliveryClass::DurableOrdered,
        capture_policy: CapturePolicy::ExplicitOptIn,
        request_timeout: None,
    };
    let handle = FabricStreamHandle::open("node1:4222", config).expect("stream");
    assert_eq!(handle.endpoint(), "node1:4222");
    assert_eq!(handle.config().delivery_class, DeliveryClass::DurableOrdered);
    assert!(FabricStreamHandle::open("node1", FabricStreamConfig::default()).is_err());
}

#[test]
fn overlap_error_text_names_both_partitions() {
    let config = FabricStreamConfig {
        subjects: vec![
            SubjectPattern::parse("a.b").unwrap(),
            SubjectPattern::parse("c.>").unwrap(),
            SubjectPattern::parse("c.d").unwrap(),
        ],
        ..FabricStreamConfig::default()
    };
    let err = config.validate().unwrap_err();
    assert_eq!(err.message(), "subject partitions `c.>` and `c.d` overlap");
}

#[test]
fn cell_id_text_is_thirty_two_hex_digits() {
    let id = CellId::for_partition(CellEpoch::new(1, 2), &SubjectPattern::parse("orders").unwrap());
    let text = id.to_string();
    assert_eq!(text, format!("cell-{:032x}", id.raw()));
    assert_ne!(
        id,
        CellId::for_partition(CellEpoch::new(1, 3), &SubjectPattern::parse("orders").unwrap())
    );
}

#[test]
fn prefix_morphism_requires_literal_patterns() {
    assert_eq!(
        SubjectPrefixMorphism::new("svc.*", "orders"),
        Err(SubjectPatternError::LiteralOnlyPatternRequired(String::from("svc.*")))
    );
    assert_eq!(
        SubjectPrefixMorphism::new("svc", "orders.>"),
        Err(SubjectPatternError::LiteralOnlyPatternRequired(String::from("orders.>")))
    );
    assert_eq!(SubjectPrefixMorphism::new("", "orders"), Err(SubjectPatternError::EmptyPattern));
}

#[test]
fn conflicting_morphisms_are_rejected() {
    let policy = NormalizationPolicy {
        morphisms: vec![
            SubjectPrefixMorphism::new("svc", "a").unwrap(),
            SubjectPrefixMorphism::new("svc.orders", "b").unwrap(),
        ],
        reply_space_policy: ReplySpaceCompactionPolicy::default(),
    };
    let err = policy
        .normalize(&SubjectPattern::parse("svc.orders.x").unwrap())
        .unwrap_err();
    match &err {
        FabricError::ConflictingSubjectMorphisms { subject, left, right } => {
            assert_eq!(subject.canonical_key(), "svc.orders.x");
            assert_eq!(left.canonical_key(), "a.orders.x");
            assert_eq!(right.canonical_key(), "b.x");
        }
        other => panic!("unexpected {other:?}"),
    }
    assert_eq!(
        err.to_string(),
        "subject `svc.orders.x` matched multiple canonical morphisms (`a.orders.x` and `b.x`)"
    );
}

#[test]
fn placement_without_eligible_stewards_fails() {
    let policy = PlacementPolicy::default();
    let partition = SubjectPattern::parse("orders").unwrap();
    let candidates = vec![
        StewardCandidate::new(NodeId::new("a"), "r").with_role(NodeRole::Subscriber),
        StewardCandidate::new(NodeId::new("b"), "r")
            .with_role(NodeRole::Steward)
            .with_health(StewardHealth::Unavailable),
    ];
    let err = policy
        .select_stewards(&partition, &candidates, CellTemperature::Cold)
        .unwrap_err();
    assert_eq!(err, FabricError::NoStewardCandidates { partition: partition.clone() });
    assert_eq!(
        err.to_string(),
        "no steward-eligible candidates available for partition `orders`"
    );
    let zero = PlacementPolicy { cold_stewards: 0, candidate_pool_size: 0, ..PlacementPolicy::default() };
    let ok = vec![StewardCandidate::new(NodeId::new("c"), "r").with_role(NodeRole::Steward)];
    assert!(zero.select_stewards(&partition, &ok, CellTemperature::Cold).is_err());
}

#[test]
fn roles_are_kept_once_and_repair_follows_stewardship() {
    let c = StewardCandidate::new(NodeId::new("n"), "d")
        .with_role(NodeRole::Steward)
        .with_role(NodeRole::Steward);
    assert_eq!(c.roles.len(), 1);
    assert!(c.is_steward_eligible());
    assert!(c.can_repair());
    let w = StewardCandidate::new(NodeId::new("w"), "d").with_role(NodeRole::RepairWitness);
    assert!(!w.is_steward_eligible());
    assert!(w.can_repair());
}

#[test]
fn cold_cells_jump_to_hot_under_heavy_load() {
    let policy = PlacementPolicy::default();
    assert_eq!(
        policy.recommend_temperature(CellTemperature::Cold, ObservedCellLoad::new(1_024)),
        CellTemperature::Hot
    );
    assert_eq!(
        policy.recommend_temperature(CellTemperature::Cold, ObservedCellLoad::new(128)),
        CellTemperature::Warm
    );
    assert_eq!(
        policy.recommend_temperature(CellTemperature::Cold, ObservedCellLoad::new(127)),
        CellTemperature::Cold
    );
    assert_eq!(
        policy.recommend_temperature(CellTemperature::Warm, ObservedCellLoad::new(48)),
        CellTemperature::Cold
    );
}

#[test]
fn rebalance_shrinks_within_budget_removing_undesired_first() {
    let partition = SubjectPattern::parse("orders.created").unwrap();
    let policy = PlacementPolicy {
        cold_stewards: 1,
        warm_stewards: 1,
        hot_stewards: 1,
        candidate_pool_size: 3,
        rebalance_budget: RebalanceBudget { max_steward_changes: 1 },
        ..PlacementPolicy::default()
    };
    let candidates = vec![candidate("node-a", "rack-a", StorageClass::Durable, 5)];
    let current = vec![NodeId::new("node-a"), NodeId::new("node-x"), NodeId::new("node-y")];
    let plan = policy
        .plan_rebalance(&partition, &candidates, &current, CellTemperature::Cold, ObservedCellLoad::new(0))
        .unwrap();
    assert_eq!(plan.next_temperature, CellTemperature::Cold);
    assert_eq!(plan.next_stewards, vec![NodeId::new("node-a"), NodeId::new("node-x")]);
    assert_eq!(plan.removed_stewards, vec![NodeId::new("node-y")]);
    assert!(plan.added_stewards.is_empty());
}

#[test]
fn reply_space_compaction_respects_policy_switches() {
    let pattern = SubjectPattern::parse("_RPLY.a.b.c").unwrap();
    let off = pattern.aggregate_reply_space(ReplySpaceCompactionPolicy { enabled: false, preserve_segments: 1 });
    assert_eq!(off.canonical_key(), "_RPLY.a.b.c");
    let one = pattern.aggregate_reply_space(ReplySpaceCompactionPolicy { enabled: true, preserve_segments: 0 });
    assert_eq!(one.canonical_key(), "_RPLY.>");
    let plain = SubjectPattern::parse("orders.a.b.c").unwrap();
    let kept = plain.aggregate_reply_space(ReplySpaceCompactionPolicy { enabled: true, preserve_segments: 1 });
    assert_eq!(kept.canonical_key(), "orders.a.b.c");
    let tail = SubjectPattern::parse("reply.x.>").unwrap();
    let same = tail.aggregate_reply_space(ReplySpaceCompactionPolicy { enabled: true, preserve_segments: 2 });
    assert_eq!(same.canonical_key(), "reply.x.>");
}

#[test]
fn normalizing_a_normalized_pattern_changes_nothing() {
    let policy = NormalizationPolicy {
        morphisms: vec![
            SubjectPrefixMorphism::new("svc.orders", "orders").expect("morphism"),
            SubjectPrefixMorphism::new("_INBOX.svc", "_INBOX.orders").expect("morphism"),
        ],
        reply_space_policy: ReplySpaceCompactionPolicy {
            enabled: true,
            preserve_segments: 2,
        },
    };
    for raw in ["svc.orders.created", "_INBOX.svc.a.b.c", "plain.subject"] {
        let once = policy
            .normalize(&SubjectPattern::parse(raw).expect("pattern"))
            .expect("normalized once");
        let twice = policy.normalize(&once).expect("normalized twice");
        assert_eq!(twice, once);
    }
}

#[test]
fn candidate_pool_takes_each_node_once() {
    let partition = SubjectPattern::parse("orders.created").expect("pattern");
    let policy = PlacementPolicy {
        cold_stewards: 3,
        warm_stewards: 3,
        hot_stewards: 3,
        candidate_pool_size: 3,
        ..PlacementPolicy::default()
    };
    let candidates = vec![
        candidate("node-a", "rack-a", StorageClass::Durable, 5),
        candidate("node-a", "rack-b", StorageClass::Durable, 5),
        candidate("node-b", "rack-c", StorageClass::Standard, 6),
        candidate("node-c", "rack-d", StorageClass::Standard, 7),
    ];
    let selected = policy
        .select_stewards(&partition, &candidates, CellTemperature::Warm)
        .expect("selected");
    let mut ids: Vec<&str> = selected.iter().map(|n| n.as_str()).collect();
    ids.sort();
    assert_eq!(ids, vec!["node-a", "node-b", "node-c"]);
}
