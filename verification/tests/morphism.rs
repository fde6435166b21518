use asupersync::messaging::morphism::{
    FabricCapability, Morphism, MorphismClass, MorphismEvaluationError, MorphismValidationError,
    ResponsePolicy, ReversibilityRequirement, SharingPolicy, SubjectTransform,
};
use asupersync::messaging::subject::SubjectPattern;
use std::time::Duration;

fn authoritative_morphism() -> Morphism {
    Morphism {
        source_language: SubjectPattern::new("tenant.orders"),
        dest_language: SubjectPattern::new("authority.orders"),
        class: MorphismClass::Authoritative,
        transform: SubjectTransform::RenamePrefix {
            from: SubjectPattern::new("tenant.orders"),
            to: SubjectPattern::new("authority.orders"),
        },
        reversibility: ReversibilityRequirement::Bijective,
        capability_requirements: vec![
            FabricCapability::CarryAuthority,
            FabricCapability::ReplyAuthority,
        ],
        response_policy: ResponsePolicy::ReplyAuthoritative,
        ..Morphism::default()
    }
}

#[test]
fn authoritative_compile_produces_deterministic_certificate() {
    let morphism = authoritative_morphism();
    let first = morphism.compile().expect("compile certificate");
    let second = morphism.compile().expect("compile certificate twice");

    assert_eq!(first, second);
    assert_eq!(first.class, MorphismClass::Authoritative);
    assert_eq!(
        first.facets.authority.capability_requirements,
        vec![
            FabricCapability::CarryAuthority,
            FabricCapability::ReplyAuthority,
        ]
    );
}

#[test]
fn delegation_requires_delegate_capability_bounded_duration_and_revocation() {
    let mut delegation = Morphism {
        class: MorphismClass::Delegation,
        response_policy: ResponsePolicy::ForwardOpaque,
        ..Morphism::default()
    };

    assert_eq!(
        delegation.validate(),
        Err(MorphismValidationError::DelegationRequiresDelegateCapability)
    );

    delegation.capability_requirements = vec![FabricCapability::DelegateNamespace];
    assert_eq!(
        delegation.validate(),
        Err(MorphismValidationError::DelegationMustBeTimeBounded)
    );

    delegation.quota_policy.max_handoff_duration = Some(Duration::from_secs(30));
    assert_eq!(
        delegation.validate(),
        Err(MorphismValidationError::DelegationMustBeRevocable)
    );

    delegation.quota_policy.revocation_required = true;
    assert!(delegation.validate().is_ok());
}

#[test]
fn egress_requires_stripped_replies_and_one_way_reversibility() {
    let mut egress = Morphism {
        class: MorphismClass::Egress,
        sharing_policy: SharingPolicy::Federated,
        reversibility: ReversibilityRequirement::Irreversible,
        ..Morphism::default()
    };

    assert_eq!(
        egress.validate(),
        Err(MorphismValidationError::EgressMustStripReplies)
    );

    egress.response_policy = ResponsePolicy::StripReplies;
    egress.reversibility = ReversibilityRequirement::EvidenceBacked;
    assert_eq!(
        egress.validate(),
        Err(MorphismValidationError::EgressMustBeIrreversible)
    );

    egress.reversibility = ReversibilityRequirement::Irreversible;
    egress.sharing_policy = SharingPolicy::Private;
    assert_eq!(
        egress.validate(),
        Err(MorphismValidationError::EgressMustCrossBoundary)
    );
}

#[test]
fn facet_views_change_independently() {
    let base = Morphism::default();

    let mut cost_variant = base.clone();
    cost_variant.quota_policy.max_fanout = 8;
    assert_eq!(base.authority_facet(), cost_variant.authority_facet());
    assert_eq!(
        base.reversibility_facet(),
        cost_variant.reversibility_facet()
    );
    assert_eq!(base.secrecy_facet(), cost_variant.secrecy_facet());
    assert_ne!(base.cost_facet(), cost_variant.cost_facet());
    assert_eq!(
        base.observability_facet(),
        cost_variant.observability_facet()
    );

    let mut observability_variant = base.clone();
    observability_variant
        .evidence_policy
        .record_counterfactual_branches = true;
    assert_eq!(
        base.authority_facet(),
        observability_variant.authority_facet()
    );
    assert_eq!(base.cost_facet(), observability_variant.cost_facet());
    assert_ne!(
        base.observability_facet(),
        observability_variant.observability_facet()
    );
}

#[test]
fn duplicate_capabilities_fail_closed() {
    let mut morphism = authoritative_morphism();
    morphism.capability_requirements = vec![
        FabricCapability::ReplyAuthority,
        FabricCapability::CarryAuthority,
        FabricCapability::ReplyAuthority,
    ];

    assert_eq!(
        morphism.validate(),
        Err(MorphismValidationError::DuplicateCapability(
            FabricCapability::ReplyAuthority
        ))
    );
}

#[test]
fn wildcard_capture_and_compose_apply_deterministically() {
    let tokens = vec![
        String::from("tenant"),
        String::from("orders-eu"),
        String::from("priority"),
    ];
    let transform = SubjectTransform::Compose {
        steps: vec![
            SubjectTransform::WildcardCapture { index: 2 },
            SubjectTransform::SplitSlice {
                index: 1,
                delimiter: String::from("-"),
                start: 0,
                len: 1,
            },
        ],
    };

    assert_eq!(
        transform
            .apply_tokens(&tokens)
            .expect("compose should evaluate"),
        vec![String::from("orders")]
    );
    assert!(!transform.is_invertible());
}

#[test]
fn deterministic_hash_is_stable_for_selected_tokens() {
    let tokens = vec![
        String::from("tenant"),
        String::from("region"),
        String::from("user"),
    ];
    let transform = SubjectTransform::DeterministicHash {
        buckets: 32,
        source_indices: vec![1, 3],
    };

    let first = transform
        .apply_tokens(&tokens)
        .expect("hash should evaluate deterministically");
    let second = transform
        .apply_tokens(&tokens)
        .expect("hash should evaluate deterministically twice");
    assert_eq!(first, second);
}

#[test]
fn left_and_right_extract_project_expected_substrings() {
    let tokens = vec![String::from("priority")];
    assert_eq!(
        SubjectTransform::LeftExtract { index: 1, len: 4 }
            .apply_tokens(&tokens)
            .expect("left extract should evaluate"),
        vec![String::from("prio")]
    );
    assert_eq!(
        SubjectTransform::RightExtract { index: 1, len: 4 }
            .apply_tokens(&tokens)
            .expect("right extract should evaluate"),
        vec![String::from("rity")]
    );
}

#[test]
fn bijective_reversibility_rejects_irreversible_transforms() {
    let mut morphism = authoritative_morphism();
    morphism.transform = SubjectTransform::DeterministicHash {
        buckets: 16,
        source_indices: vec![1],
    };
    assert_eq!(
        morphism.validate(),
        Err(MorphismValidationError::TransformCannotSatisfyBijectiveRequirement)
    );
}

#[test]
fn reversible_compose_builds_inverse_in_reverse_order() {
    let transform = SubjectTransform::Compose {
        steps: vec![
            SubjectTransform::RenamePrefix {
                from: SubjectPattern::new("tenant.orders"),
                to: SubjectPattern::new("authority.orders"),
            },
            SubjectTransform::Identity,
        ],
    };

    let inverse = transform.inverse().expect("compose should be invertible");
    assert_eq!(
        inverse,
        SubjectTransform::Compose {
            steps: vec![
                SubjectTransform::Identity,
                SubjectTransform::RenamePrefix {
                    from: SubjectPattern::new("authority.orders"),
                    to: SubjectPattern::new("tenant.orders"),
                },
            ],
        }
    );
}


fn strings(items: &[&str]) -> Vec<String> {
    items.iter().map(|s| s.to_string()).collect()
}

#[test]
fn rename_prefix_rewrites_matching_prefix_only() {
    let rename = SubjectTransform::RenamePrefix {
        from: SubjectPattern::new("tenant.orders"),
        to: SubjectPattern::new("authority.orders.v2"),
    };
    assert_eq!(
        rename.apply_tokens(&strings(&["tenant", "orders", "eu"])).unwrap(),
        strings(&["authority", "orders", "v2", "eu"])
    );
    assert_eq!(
        rename.apply_tokens(&strings(&["tenant", "billing"])).unwrap(),
        strings(&["tenant", "billing"])
    );
}

#[test]
fn rename_prefix_with_wildcard_fails_evaluation() {
    let rename = SubjectTransform::RenamePrefix {
        from: SubjectPattern::new("tenant.*"),
        to: SubjectPattern::new("authority"),
    };
    assert_eq!(
        rename.apply_tokens(&strings(&["tenant", "x"])),
        Err(MorphismEvaluationError::NonLiteralPattern(String::from("tenant.*")))
    );
}

#[test]
fn redact_and_summarize_preserve_shape() {
    let tokens = strings(&["a", "b", "c"]);
    assert_eq!(
        SubjectTransform::RedactLiterals.apply_tokens(&tokens).unwrap(),
        strings(&["_", "_", "_"])
    );
    assert_eq!(
        SubjectTransform::SummarizeTail { preserve_segments: 1 }
            .apply_tokens(&tokens)
            .unwrap(),
        strings(&["a", "..."])
    );
    assert_eq!(
        SubjectTransform::SummarizeTail { preserve_segments: 3 }
            .apply_tokens(&tokens)
            .unwrap(),
        tokens
    );
}

#[test]
fn capture_out_of_range_reports_index_and_available() {
    let tokens = strings(&["a", "b"]);
    assert_eq!(
        SubjectTransform::WildcardCapture { index: 3 }.apply_tokens(&tokens),
        Err(MorphismEvaluationError::TokenIndexOutOfRange { index: 3, available: 2 })
    );
    assert_eq!(
        SubjectTransform::WildcardCapture { index: 0 }.apply_tokens(&tokens),
        Err(MorphismEvaluationError::TokenIndexOutOfRange { index: 0, available: 2 })
    );
}

#[test]
fn hash_partition_with_zero_buckets_fails() {
    assert_eq!(
        SubjectTransform::HashPartition { buckets: 0 }.apply_tokens(&strings(&["a"])),
        Err(MorphismEvaluationError::ZeroBuckets)
    );
}

#[test]
fn hash_partition_lands_in_range_and_single_bucket_is_zero() {
    let tokens = strings(&["tenant", "region"]);
    let out = SubjectTransform::HashPartition { buckets: 7 }
        .apply_tokens(&tokens)
        .unwrap();
    assert_eq!(out.len(), 1);
    let bucket: u16 = out[0].parse().unwrap();
    assert!(bucket < 7);
    assert_eq!(
        SubjectTransform::HashPartition { buckets: 1 }
            .apply_tokens(&tokens)
            .unwrap(),
        strings(&["0"])
    );
}

#[test]
fn split_slice_bounds_and_empty_delimiter() {
    let tokens = strings(&["a-b-c"]);
    let slice = |start: usize, len: usize, delimiter: &str| SubjectTransform::SplitSlice {
        index: 1,
        delimiter: delimiter.to_string(),
        start,
        len,
    };
    assert_eq!(slice(1, 5, "-").apply_tokens(&tokens).unwrap(), strings(&["b", "c"]));
    assert_eq!(slice(3, 1, "-").apply_tokens(&tokens).unwrap(), Vec::<String>::new());
    assert_eq!(
        slice(0, usize::MAX, "").apply_tokens(&strings(&["ab"])).unwrap(),
        strings(&["", "a", "b", ""])
    );
    assert_eq!(slice(0, 3, "--").apply_tokens(&strings(&["x--y--"])).unwrap(), strings(&["x", "y", ""]));
}

#[test]
fn extracts_longer_than_token_keep_whole_token() {
    let tokens = strings(&["héllo"]);
    assert_eq!(
        SubjectTransform::LeftExtract { index: 1, len: 9 }.apply_tokens(&tokens).unwrap(),
        strings(&["héllo"])
    );
    assert_eq!(
        SubjectTransform::RightExtract { index: 1, len: 3 }.apply_tokens(&tokens).unwrap(),
        strings(&["llo"])
    );
    assert_eq!(
        SubjectTransform::LeftExtract { index: 1, len: 2 }.apply_tokens(&tokens).unwrap(),
        strings(&["hé"])
    );
}

#[test]
fn compose_stops_at_first_failing_step() {
    let transform = SubjectTransform::Compose {
        steps: vec![
            SubjectTransform::WildcardCapture { index: 5 },
            SubjectTransform::HashPartition { buckets: 0 },
        ],
    };
    assert_eq!(
        transform.apply_tokens(&strings(&["a"])),
        Err(MorphismEvaluationError::TokenIndexOutOfRange { index: 5, available: 1 })
    );
}

#[test]
fn default_morphism_is_valid_and_compiles() {
    let morphism = Morphism::default();
    assert_eq!(morphism.source_language.as_str(), "fabric.subject.>");
    assert_eq!(morphism.validate(), Ok(()));
    let certificate = morphism.compile().expect("default compiles");
    assert_eq!(certificate.fingerprint.len(), 16);
    assert!(certificate
        .fingerprint
        .chars()
        .all(|c| c.is_ascii_digit() || ('a'..='f').contains(&c)));
    assert_eq!(certificate.class, MorphismClass::DerivedView);
}

#[test]
fn fingerprint_changes_with_declaration() {
    let base = Morphism::default();
    let mut other = base.clone();
    other.quota_policy.max_fanout = 2;
    let a = base.compile().unwrap();
    let b = other.compile().unwrap();
    assert_ne!(a.fingerprint, b.fingerprint);
    assert_eq!(a.facets.authority, b.facets.authority);
}

#[test]
fn transform_validation_reports_each_rule() {
    let with = |transform: SubjectTransform| Morphism {
        transform,
        ..Morphism::default()
    };
    let cases = vec![
        (
            SubjectTransform::RenamePrefix {
                from: SubjectPattern::new("a.b"),
                to: SubjectPattern::new("a.b"),
            },
            MorphismValidationError::RenamePrefixIdentity,
        ),
        (
            SubjectTransform::SummarizeTail { preserve_segments: 0 },
            MorphismValidationError::SummarizeTailMustPreserveSegments,
        ),
        (
            SubjectTransform::HashPartition { buckets: 0 },
            MorphismValidationError::HashPartitionRequiresBuckets,
        ),
        (
            SubjectTransform::WildcardCapture { index: 0 },
            MorphismValidationError::WildcardCaptureRequiresIndex,
        ),
        (
            SubjectTransform::DeterministicHash { buckets: 0, source_indices: vec![0] },
            MorphismValidationError::DeterministicHashRequiresBuckets,
        ),
        (
            SubjectTransform::DeterministicHash { buckets: 4, source_indices: vec![1, 0] },
            MorphismValidationError::DeterministicHashIndexMustBePositive,
        ),
        (
            SubjectTransform::SplitSlice { index: 0, delimiter: String::new(), start: 0, len: 0 },
            MorphismValidationError::SplitSliceRequiresIndex,
        ),
        (
            SubjectTransform::SplitSlice { index: 1, delimiter: String::new(), start: 0, len: 0 },
            MorphismValidationError::SplitSliceRequiresDelimiter,
        ),
        (
            SubjectTransform::SplitSlice { index: 1, delimiter: String::from("."), start: 0, len: 0 },
            MorphismValidationError::SplitSliceRequiresLength,
        ),
        (
            SubjectTransform::LeftExtract { index: 0, len: 0 },
            MorphismValidationError::LeftExtractRequiresIndex,
        ),
        (
            SubjectTransform::LeftExtract { index: 1, len: 0 },
            MorphismValidationError::LeftExtractRequiresLength,
        ),
        (
            SubjectTransform::RightExtract { index: 0, len: 1 },
            MorphismValidationError::RightExtractRequiresIndex,
        ),
        (
            SubjectTransform::RightExtract { index: 1, len: 0 },
            MorphismValidationError::RightExtractRequiresLength,
        ),
        (
            SubjectTransform::Compose { steps: vec![] },
            MorphismValidationError::ComposeRequiresSteps,
        ),
        (
            SubjectTransform::Compose {
                steps: vec![
                    SubjectTransform::Identity,
                    SubjectTransform::HashPartition { buckets: 0 },
                    SubjectTransform::WildcardCapture { index: 0 },
                ],
            },
            MorphismValidationError::HashPartitionRequiresBuckets,
        ),
    ];
    for (transform, expected) in cases {
        assert_eq!(with(transform).validate(), Err(expected));
    }
}

#[test]
fn quota_validation_reports_each_zero_bound() {
    let mut morphism = Morphism::default();
    morphism.quota_policy.max_expansion_factor = 0;
    assert_eq!(morphism.validate(), Err(MorphismValidationError::ZeroMaxExpansionFactor));
    morphism.quota_policy.max_expansion_factor = 1;
    morphism.quota_policy.max_fanout = 0;
    assert_eq!(morphism.validate(), Err(MorphismValidationError::ZeroMaxFanout));
    morphism.quota_policy.max_fanout = 1;
    morphism.quota_policy.max_observability_bytes = 0;
    assert_eq!(morphism.validate(), Err(MorphismValidationError::ZeroMaxObservabilityBytes));
    morphism.quota_policy.max_observability_bytes = 1;
    morphism.quota_policy.max_handoff_duration = Some(Duration::ZERO);
    assert_eq!(morphism.validate(), Err(MorphismValidationError::ZeroMaxHandoffDuration));
    morphism.quota_policy.max_handoff_duration = Some(Duration::from_nanos(1));
    assert_eq!(morphism.validate(), Ok(()));
}

#[test]
fn derived_view_guardrails() {
    let mut view = Morphism::default();
    view.capability_requirements = vec![FabricCapability::ObserveEvidence, FabricCapability::CarryAuthority];
    assert_eq!(
        view.validate(),
        Err(MorphismValidationError::DerivedViewCannotRequireAuthorityCapability)
    );
    view.capability_requirements = vec![FabricCapability::ObserveEvidence];
    view.response_policy = ResponsePolicy::ReplyAuthoritative;
    assert_eq!(
        view.validate(),
        Err(MorphismValidationError::DerivedViewCannotOriginateReplyAuthority)
    );
}

#[test]
fn authoritative_guardrails_in_order() {
    let mut m = Morphism {
        class: MorphismClass::Authoritative,
        capability_requirements: vec![],
        ..Morphism::default()
    };
    assert_eq!(m.validate(), Err(MorphismValidationError::AuthoritativeRequiresCapability));
    m.capability_requirements = vec![FabricCapability::ObserveEvidence];
    assert_eq!(
        m.validate(),
        Err(MorphismValidationError::AuthoritativeRequiresAuthorityCapability)
    );
    m.capability_requirements = vec![FabricCapability::ReplyAuthority];
    assert_eq!(m.validate(), Err(MorphismValidationError::AuthoritativeRequiresReplyAuthority));
    m.response_policy = ResponsePolicy::ReplyAuthoritative;
    m.reversibility = ReversibilityRequirement::Irreversible;
    assert_eq!(m.validate(), Err(MorphismValidationError::AuthoritativeMustBeReversible));
    m.reversibility = ReversibilityRequirement::EvidenceBacked;
    assert_eq!(m.validate(), Ok(()));
}

#[test]
fn egress_valid_when_all_rules_hold() {
    let egress = Morphism {
        class: MorphismClass::Egress,
        sharing_policy: SharingPolicy::PublicRead,
        reversibility: ReversibilityRequirement::Irreversible,
        response_policy: ResponsePolicy::StripReplies,
        ..Morphism::default()
    };
    assert_eq!(egress.validate(), Ok(()));
}

#[test]
fn authority_facet_sorts_and_dedups_capabilities() {
    let m = Morphism {
        capability_requirements: vec![
            FabricCapability::CrossBoundaryEgress,
            FabricCapability::RewriteNamespace,
            FabricCapability::CrossBoundaryEgress,
            FabricCapability::ObserveEvidence,
        ],
        ..Morphism::default()
    };
    assert_eq!(
        m.authority_facet().capability_requirements,
        vec![
            FabricCapability::RewriteNamespace,
            FabricCapability::ObserveEvidence,
            FabricCapability::CrossBoundaryEgress,
        ]
    );
    assert_eq!(
        m.validate(),
        Err(MorphismValidationError::DuplicateCapability(FabricCapability::CrossBoundaryEgress))
    );
}

#[test]
fn lossy_and_invertible_classification() {
    let rename = SubjectTransform::RenamePrefix {
        from: SubjectPattern::new("a"),
        to: SubjectPattern::new("b"),
    };
    assert!(!rename.is_lossy());
    assert!(rename.is_invertible());
    let compose = SubjectTransform::Compose {
        steps: vec![rename.clone(), SubjectTransform::RedactLiterals],
    };
    assert!(compose.is_lossy());
    assert!(!compose.is_invertible());
    assert_eq!(compose.inverse(), None);
    assert_eq!(SubjectTransform::Identity.inverse(), Some(SubjectTransform::Identity));
}

#[test]
fn authoritative_morphisms_reject_lossy_or_wildcard_rewrites() {
    let mut lossy = authoritative_morphism();
    lossy.transform = SubjectTransform::RedactLiterals;
    assert_eq!(
        lossy.validate(),
        Err(MorphismValidationError::AuthoritativeTransformMustBeLossless)
    );

    let mut wildcard = authoritative_morphism();
    wildcard.transform = SubjectTransform::RenamePrefix {
        from: SubjectPattern::new("tenant.*"),
        to: SubjectPattern::new("authority.orders"),
    };
    assert_eq!(
        wildcard.validate(),
        Err(MorphismValidationError::AuthoritativeRenameMustBeLiteralOnly)
    );
}

#[test]
fn authoritative_lossy_transform_is_rejected_under_evidence_backed_promise() {
    let mut lossy = authoritative_morphism();
    lossy.reversibility = ReversibilityRequirement::EvidenceBacked;
    lossy.transform = SubjectTransform::RedactLiterals;
    assert_eq!(
        lossy.validate(),
        Err(MorphismValidationError::AuthoritativeTransformMustBeLossless)
    );
}

#[test]
fn rename_followed_by_its_inverse_restores_tokens() {
    let rename = SubjectTransform::RenamePrefix {
        from: SubjectPattern::new("tenant.orders"),
        to: SubjectPattern::new("authority.orders.v2"),
    };
    let inverse = rename.inverse().expect("rename is invertible");
    let tokens: Vec<String> = ["tenant", "orders", "created", "7"].iter().map(|s| s.to_string()).collect();
    let renamed = rename.apply_tokens(&tokens).expect("rename applies");
    assert_eq!(renamed, vec!["authority", "orders", "v2", "created", "7"]);
    assert_eq!(inverse.apply_tokens(&renamed), Ok(tokens));
}

#[test]
fn bijective_promise_is_checked_before_non_authoritative_guardrails() {
    let derived = Morphism {
        class: MorphismClass::DerivedView,
        transform: SubjectTransform::RedactLiterals,
        reversibility: ReversibilityRequirement::Bijective,
        response_policy: ResponsePolicy::ReplyAuthoritative,
        ..Morphism::default()
    };
    assert_eq!(
        derived.validate(),
        Err(MorphismValidationError::TransformCannotSatisfyBijectiveRequirement)
    );

    let mut authoritative = authoritative_morphism();
    authoritative.capability_requirements = vec![];
    authoritative.transform = SubjectTransform::RedactLiterals;
    assert_eq!(
        authoritative.validate(),
        Err(MorphismValidationError::TransformCannotSatisfyBijectiveRequirement)
    );
}
