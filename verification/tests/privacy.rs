use asupersync::messaging::ir::MetadataDisclosure;
use asupersync::messaging::privacy::{
    apply_noise, blind_identifier, blind_subject, blind_summary, check_export, count_noise_seeds,
    hash_token, noise_sample_bits, noise_seed, splitmix64, AuthoritativeMetadataSummary,
    CountNoise, ExportPolicy, PrivacyExportError,
};

fn summary() -> AuthoritativeMetadataSummary {
    AuthoritativeMetadataSummary {
        summary_name: "fabric.advisory".to_owned(),
        tenant: "tenant-a".to_owned(),
        subject: "orders.eu.created".to_owned(),
        message_count: 41,
        byte_count: 4096,
        error_count: 2,
        cross_tenant: false,
    }
}

fn policy() -> ExportPolicy {
    ExportPolicy {
        name: "default".to_owned(),
        metadata_disclosure: MetadataDisclosure::Full,
        redact_subject_literals: false,
        allow_cross_tenant_flow: false,
    }
}

const ZERO: CountNoise = CountNoise {
    message: 0,
    byte: 0,
    error: 0,
};

#[test]
fn plain_export_preserves_authoritative_values() {
    let s = summary();
    assert_eq!(check_export(&policy(), &s), Ok(()));
    let exported = blind_summary(&policy(), &s, ZERO);
    assert_eq!(exported.summary_name, "fabric.advisory");
    assert_eq!(exported.policy_name, "default");
    assert_eq!(exported.subject_token, "orders.eu.created");
    assert_eq!(exported.tenant_token, "tenant-a");
    assert_eq!(exported.message_count, 41);
    assert_eq!(exported.byte_count, 4096);
    assert_eq!(exported.error_count, 2);
    assert_eq!(exported.message_noise, 0);
    assert_eq!(exported.byte_noise, 0);
    assert_eq!(exported.error_noise, 0);
    assert!(!exported.cross_tenant);
    assert_eq!(s, summary());
}

#[test]
fn hashed_export_blinds_subject_and_tenant_tokens() {
    let mut p = policy();
    p.metadata_disclosure = MetadataDisclosure::Hashed;
    let exported = blind_summary(&p, &summary(), ZERO);
    assert!(exported.subject_token.starts_with("sha256:"));
    assert!(exported.tenant_token.starts_with("sha256:"));
    assert_eq!(exported.subject_token.len(), "sha256:".len() + 64);
    assert_ne!(exported.subject_token, "orders.eu.created");
    assert_ne!(exported.tenant_token, "tenant-a");
    assert_eq!(exported.subject_token, hash_token("orders.eu.created"));
}

#[test]
fn hash_token_is_hex_sha256() {
    assert_eq!(
        hash_token("abc"),
        "sha256:ba7816bf8f01cfea414140de5dae2223b00361a396177a9cb410ff61f20015ad"
    );
    assert_eq!(
        hash_token(""),
        "sha256:e3b0c44298fc1c149afbf4c8996fb92427ae41e4649b934ca495991b7852b855"
    );
}

#[test]
fn full_export_can_mask_subject_literals() {
    let mut p = policy();
    p.redact_subject_literals = true;
    let exported = blind_summary(&p, &summary(), ZERO);
    assert_eq!(exported.subject_token, "*.*.*");
    assert_eq!(exported.tenant_token, "tenant-a");
    assert_eq!(blind_subject(MetadataDisclosure::Full, "single", true), "*");
    assert_eq!(blind_subject(MetadataDisclosure::Full, "a..b.", true), "*.*.*.*");
    assert_eq!(blind_subject(MetadataDisclosure::Full, "", true), "*");
}

#[test]
fn redacted_export_hides_identifiers() {
    assert_eq!(
        blind_subject(MetadataDisclosure::Redacted, "orders.eu", false),
        "<redacted>"
    );
    assert_eq!(
        blind_identifier(MetadataDisclosure::Redacted, "tenant-a"),
        "<redacted>"
    );
    assert_eq!(blind_identifier(MetadataDisclosure::Full, "tenant-a"), "tenant-a");
}

#[test]
fn cross_tenant_export_requires_policy_opt_in() {
    let mut s = summary();
    s.cross_tenant = true;
    let err = check_export(&policy(), &s).unwrap_err();
    assert_eq!(
        err,
        PrivacyExportError::CrossTenantFlowDisallowed {
            policy_name: "default".to_owned()
        }
    );
    let mut open = policy();
    open.allow_cross_tenant_flow = true;
    assert_eq!(check_export(&open, &s), Ok(()));
}

#[test]
fn blank_fields_fail_closed_in_order() {
    let mut invalid = summary();
    invalid.subject = "   ".to_owned();
    assert_eq!(
        check_export(&policy(), &invalid),
        Err(PrivacyExportError::EmptyField { field: "subject" })
    );
    invalid.tenant = "".to_owned();
    assert_eq!(
        check_export(&policy(), &invalid),
        Err(PrivacyExportError::EmptyField { field: "tenant" })
    );
    invalid.summary_name = "\t".to_owned();
    assert_eq!(
        check_export(&policy(), &invalid),
        Err(PrivacyExportError::EmptyField { field: "summary_name" })
    );
    let mut unnamed = policy();
    unnamed.name = " ".to_owned();
    assert_eq!(
        check_export(&unnamed, &summary()),
        Err(PrivacyExportError::EmptyField {
            field: "policy_name"
        })
    );
}

#[test]
fn noise_seeds_are_deterministic_and_field_specific() {
    let p = policy();
    let s = summary();
    let a = count_noise_seeds(&p, &s, 99);
    let b = count_noise_seeds(&p, &s, 99);
    assert_eq!(a, b);
    assert_ne!(a[0], a[1]);
    assert_ne!(a[1], a[2]);
    assert_eq!(a[0], noise_seed(&p, &s, "message_count", 99));
    assert_ne!(count_noise_seeds(&p, &s, 100), a);
}

#[test]
fn splitmix64_matches_reference_values() {
    // First outputs of the reference SplitMix64 generator seeded with 0.
    assert_eq!(splitmix64(0), 0xe220_a839_7b1d_cdaf);
    assert_eq!(splitmix64(0x9e37_79b9_7f4a_7c15), 0x6e78_9e6a_a1b9_65f4);
    assert_eq!(noise_sample_bits(0), 0xe220_a839_7b1d_cdaf >> 11);
    assert!(noise_sample_bits(u64::MAX) < (1u64 << 53));
}

#[test]
fn noise_saturates_at_the_bounds() {
    assert_eq!(apply_noise(41, 3), 44);
    assert_eq!(apply_noise(41, -3), 38);
    assert_eq!(apply_noise(2, -5), 0);
    assert_eq!(apply_noise(u64::MAX - 1, 7), u64::MAX);
    assert_eq!(apply_noise(0, i64::MIN), 0);
    assert_eq!(apply_noise(u64::MAX, i64::MAX), u64::MAX);
    assert_eq!(apply_noise(9, 0), 9);
}

#[test]
fn noised_summary_carries_deltas() {
    let exported = blind_summary(
        &policy(),
        &summary(),
        CountNoise {
            message: -1,
            byte: 10,
            error: -7,
        },
    );
    assert_eq!(exported.message_count, 40);
    assert_eq!(exported.byte_count, 4106);
    assert_eq!(exported.error_count, 0);
    assert_eq!(exported.message_noise, -1);
    assert_eq!(exported.byte_noise, 10);
    assert_eq!(exported.error_noise, -7);
}
