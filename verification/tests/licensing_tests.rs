use smarthub::licensing::{
    activation_instance_id, check_key, current, deactivate, effective_state, effective_tier,
    ActivationReply,
    effective_tier_at, grace_remaining_at, grace_remaining_checked, grace_remaining_secs,
    load_local_state, local_state_at, mask_key, require_pro, revalidated_state, stored_license,
    validation_result, ActivateResponse, InstanceObj, LicenseError, LicenseInfo, LicenseKeyObj,
    Tier, ValidationOutcome, GRACE_PERIOD_SECS, KEY_INSTANCE, KEY_LAST_VALIDATED, KEY_MASKED,
    KEY_TIER,
};

const DAY: i64 = 86_400;
const T0: i64 = 1_700_000_000;

fn wall_clock() -> i64 {
    std::time::SystemTime::now()
        .duration_since(std::time::UNIX_EPOCH)
        .unwrap()
        .as_secs() as i64
}

fn pro(last: Option<i64>) -> LicenseInfo {
    LicenseInfo {
        tier: Tier::Pro,
        key_masked: Some("****-****-****-9F3A".to_string()),
        grace_valid: true,
        grace_days_left: Some(7),
        instance_id: Some("inst".to_string()),
        last_validated_at: last,
    }
}

#[test]
fn masking() {
    assert_eq!(mask_key("abcd-efgh-ijkl-9f3a"), "****-****-****-9F3A");
    assert_eq!(mask_key("x-y"), "****-****-****-XY");
    assert_eq!(mask_key(""), "****-****-****-");
    assert_eq!(mask_key("ab!cd#ef"), "****-****-****-CDEF");
}

#[test]
fn grace_window() {
    assert_eq!(grace_remaining_at(Some(T0), T0), Some(GRACE_PERIOD_SECS));
    assert_eq!(grace_remaining_at(Some(T0), T0 + DAY), Some(6 * DAY));
    assert_eq!(grace_remaining_at(Some(T0), T0 + GRACE_PERIOD_SECS - 1), Some(1));
    assert_eq!(grace_remaining_at(Some(T0), T0 + GRACE_PERIOD_SECS), None);
    assert_eq!(grace_remaining_at(None, T0), None);
    assert_eq!(grace_remaining_checked(Some(i64::MAX), -1), None);
    assert_eq!(grace_remaining_checked(Some(T0), T0), Some(GRACE_PERIOD_SECS));
    assert_eq!(grace_remaining_secs(Some(wall_clock())).map(|s| s > 0), Some(true));
    assert_eq!(grace_remaining_secs(Some(0)), None);
}

#[test]
fn tier_in_force() {
    assert_eq!(effective_tier_at(&pro(Some(T0)), T0 + DAY), Tier::Pro);
    assert_eq!(effective_tier_at(&pro(Some(T0)), T0 + GRACE_PERIOD_SECS), Tier::Free);
    assert_eq!(effective_tier_at(&pro(None), T0), Tier::Free);
    assert_eq!(effective_tier_at(&LicenseInfo::default(), T0), Tier::Free);
    assert_eq!(effective_tier(&pro(Some(wall_clock()))), Tier::Pro);
    assert_eq!(effective_tier(&pro(Some(0))), Tier::Free);
}

#[test]
fn local_state_from_stored_values() {
    let info = local_state_at(
        Some("pro".to_string()),
        Some("****-****-****-9F3A".to_string()),
        Some("inst-1".to_string()),
        Some(T0.to_string()),
        T0 + DAY,
    );
    assert_eq!(info.tier, Tier::Pro);
    assert!(info.grace_valid);
    assert_eq!(info.grace_days_left, Some(6));
    assert_eq!(info.last_validated_at, Some(T0));
    assert_eq!(info.instance_id.as_deref(), Some("inst-1"));
    let part = local_state_at(None, None, None, Some(T0.to_string()), T0 + DAY + 1);
    assert_eq!(part.grace_days_left, Some(6));
    let last_second = local_state_at(None, None, None, Some(T0.to_string()), T0 + GRACE_PERIOD_SECS - 1);
    assert_eq!(last_second.grace_days_left, Some(1));

    let stale = local_state_at(Some("free".to_string()), None, None, Some("garbage".into()), T0);
    assert_eq!(stale.tier, Tier::Free);
    assert!(!stale.grace_valid);
    assert_eq!(stale.grace_days_left, None);
    assert_eq!(stale.last_validated_at, None);

    let nothing = load_local_state(None, None, None, None);
    assert_eq!(nothing.tier, Tier::Free);
    assert!(!nothing.grace_valid);
}

#[test]
fn activation_reads_back_as_pro() {
    let writes = stored_license("abcd-efgh-ijkl-9f3a", "inst-7", T0);
    assert_eq!(
        writes,
        vec![
            (KEY_TIER.to_string(), "pro".to_string()),
            (KEY_MASKED.to_string(), "****-****-****-9F3A".to_string()),
            (KEY_INSTANCE.to_string(), "inst-7".to_string()),
            (KEY_LAST_VALIDATED.to_string(), "1700000000".to_string()),
        ]
    );
    let get = |k: &str| writes.iter().find(|(key, _)| key == k).map(|(_, v)| v.clone());
    let info = local_state_at(get(KEY_TIER), get(KEY_MASKED), get(KEY_INSTANCE), get(KEY_LAST_VALIDATED), T0);
    assert_eq!(info.tier, Tier::Pro);
    assert!(info.grace_valid);
    assert_eq!(info.grace_days_left, Some(7));
    assert_eq!(info.last_validated_at, Some(T0));
    assert_eq!(stored_license("k", "i", -5)[3].1, "-5");
}

#[test]
fn mask_of_a_mask() {
    let m = mask_key("abcd-efgh-ijkl-9f3a");
    assert_eq!(mask_key(&m), m);
    let short = mask_key("x");
    assert_eq!(mask_key(&short), short);
}

#[test]
fn license_error_messages() {
    assert_eq!(LicenseError::NotALicenseKey.message(), "That doesn't look like a license key.");
    assert_eq!(LicenseError::Unreachable.message(), "licensing server unreachable");
    assert_eq!(LicenseError::BadResponse.message(), "bad response from licensing server");
    assert_eq!(LicenseError::NoInstanceId.message(), "licensing server returned no instance id");
    assert_eq!(LicenseError::Rejected("nope".to_string()).message(), "nope");
}

#[test]
fn key_checks() {
    assert_eq!(check_key("  short  "), Err(LicenseError::NotALicenseKey));
    assert_eq!(check_key("  ABCD-EFGH-IJKL \n"), Ok("ABCD-EFGH-IJKL".to_string()));
    assert_eq!(check_key("123456789012"), Ok("123456789012".to_string()));
    assert_eq!(check_key("12345678901"), Err(LicenseError::NotALicenseKey));
}

#[test]
fn activation_replies() {
    let refused = ActivateResponse {
        activated: false,
        license_key: None,
        instance: None,
        error: Some("license_key_disabled".to_string()),
    };
    assert_eq!(
        activation_instance_id(ActivationReply::Answer(refused)),
        Err(LicenseError::Rejected("license_key_disabled".to_string()))
    );
    let refused_quietly = ActivateResponse { activated: false, license_key: None, instance: None, error: None };
    assert_eq!(
        activation_instance_id(ActivationReply::Answer(refused_quietly)),
        Err(LicenseError::Rejected("License could not be activated".to_string()))
    );
    let with_instance = ActivateResponse {
        activated: true,
        license_key: Some(LicenseKeyObj { id: 42 }),
        instance: Some(InstanceObj { id: "abc-123".to_string() }),
        error: None,
    };
    assert_eq!(activation_instance_id(ActivationReply::Answer(with_instance)), Ok("abc-123".to_string()));
    let key_only = ActivateResponse {
        activated: true,
        license_key: Some(LicenseKeyObj { id: 42 }),
        instance: None,
        error: None,
    };
    assert_eq!(activation_instance_id(ActivationReply::Answer(key_only)), Ok("42".to_string()));
    let bare = ActivateResponse { activated: true, license_key: None, instance: None, error: None };
    assert_eq!(activation_instance_id(ActivationReply::Answer(bare)), Err(LicenseError::NoInstanceId));
    assert_eq!(activation_instance_id(ActivationReply::Unreachable), Err(LicenseError::Unreachable));
    assert_eq!(activation_instance_id(ActivationReply::BadResponse), Err(LicenseError::BadResponse));
}

#[test]
fn deactivation() {
    let (writes, info) = deactivate();
    assert_eq!(writes.len(), 4);
    assert_eq!(writes[0].0, KEY_TIER);
    assert_eq!(writes[3].0, KEY_LAST_VALIDATED);
    assert!(writes.iter().all(|(_, v)| v.is_empty()));
    assert_eq!(info.tier, Tier::Free);
    assert!(info.key_masked.is_none() && info.instance_id.is_none());
    let back = local_state_at(
        Some(String::new()),
        Some(String::new()),
        Some(String::new()),
        Some(String::new()),
        T0,
    );
    assert_eq!(back.tier, Tier::Free);
    assert!(!back.grace_valid);
    assert_eq!(back.key_masked, None);
    assert_eq!(back.instance_id, None);
    assert_eq!(back.last_validated_at, None);
    assert_eq!(back.grace_days_left, None);
}

#[test]
fn validation_outcomes() {
    let (o, w) = validation_result(false, Some(true), T0);
    assert_eq!(o, ValidationOutcome::Invalid);
    assert!(w.is_empty());
    let (o, w) = validation_result(true, None, T0);
    assert_eq!(o, ValidationOutcome::Unreachable);
    assert!(w.is_empty());
    let (o, w) = validation_result(true, Some(true), T0);
    assert_eq!(o, ValidationOutcome::Valid);
    assert_eq!(
        w,
        vec![
            (KEY_TIER.to_string(), "pro".to_string()),
            (KEY_LAST_VALIDATED.to_string(), T0.to_string())
        ]
    );
    let (o, w) = validation_result(true, Some(false), T0);
    assert_eq!(o, ValidationOutcome::Invalid);
    assert_eq!(w, vec![(KEY_TIER.to_string(), "free".to_string())]);
}

#[test]
fn published_states() {
    let mut free = LicenseInfo::default();
    free.grace_valid = true;
    assert!(!current(free).grace_valid);
    assert!(current(pro(Some(T0))).grace_valid);

    let local = pro(Some(T0));
    assert_eq!(effective_state(&local, T0 + DAY).tier, Tier::Pro);
    let expired = effective_state(&local, T0 + 8 * DAY);
    assert_eq!(expired.tier, Tier::Free);
    assert_eq!(expired.instance_id.as_deref(), Some("inst"));

    let fetched = LicenseInfo::default();
    assert_eq!(
        revalidated_state(ValidationOutcome::Unreachable, fetched, &local, T0 + DAY).tier,
        Tier::Pro
    );
    assert_eq!(
        revalidated_state(ValidationOutcome::Invalid, LicenseInfo::default(), &local, T0 + DAY).tier,
        Tier::Free
    );
}

#[test]
fn pro_gate() {
    assert_eq!(require_pro(&pro(Some(T0)), T0 + DAY), Ok(()));
    assert_eq!(require_pro(&pro(Some(T0)), T0 + 8 * DAY), Err("pro_required"));
    assert_eq!(require_pro(&LicenseInfo::default(), T0), Err("pro_required"));
}
