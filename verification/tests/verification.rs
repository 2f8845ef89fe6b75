use quest_tasks::error::QuestError;
use quest_tasks::registry::{
    conclude, outcome, reply, select_check, should_record, verify, Check, Decision, Evidence,
    VerifierRegistry, VerifyReply,
};
use quest_tasks::store::TaskStore;
use quest_tasks::task::Task;

fn draft(quest_id: u32, kind: &str) -> Task {
    Task {
        id: 0,
        quest_id,
        name: "n".to_string(),
        desc: "d".to_string(),
        cta: "c".to_string(),
        href: "h".to_string(),
        verify_endpoint: "e".to_string(),
        verify_endpoint_type: kind.to_string(),
        verify_redirect: None,
        task_type: None,
        discord_guild_id: None,
        quiz_name: None,
    }
}

fn quest_seven() -> TaskStore {
    let mut store = TaskStore::new();
    store.create_task(draft(7, "default")).unwrap();
    store.create_task(draft(7, "score_gt_50")).unwrap();
    store
}

#[test]
fn score_below_threshold_is_not_yet_satisfied() {
    let mut store = quest_seven();
    let registry = VerifierRegistry::standard();
    let out = verify(&mut store, &registry, 2, "abc", &Evidence::Measured(40));
    assert!(matches!(out, Ok(false)));
    assert_eq!(store.record_count(), 0);
    assert!(!store.has_completion(2, "abc"));
}

#[test]
fn score_at_threshold_is_not_enough() {
    let mut store = quest_seven();
    let registry = VerifierRegistry::standard();
    assert!(matches!(verify(&mut store, &registry, 2, "abc", &Evidence::Measured(50)), Ok(false)));
    assert_eq!(store.record_count(), 0);
    assert!(matches!(verify(&mut store, &registry, 2, "abc", &Evidence::Measured(51)), Ok(true)));
    assert!(store.has_completion(2, "abc"));
}

#[test]
fn unknown_strategy_is_unsupported() {
    let mut store = quest_seven();
    let id = store.create_task(draft(7, "carrier_pigeon")).unwrap();
    let registry = VerifierRegistry::standard();
    let out = verify(&mut store, &registry, id, "abc", &Evidence::Measured(1000));
    assert!(matches!(out, Err(QuestError::UnsupportedVerificationType)));
    assert_eq!(store.record_count(), 0);
    let empty = store.create_task(draft(7, "")).unwrap();
    let out = verify(&mut store, &registry, empty, "abc", &Evidence::Absent);
    assert!(matches!(out, Err(QuestError::UnsupportedVerificationType)));
    assert_eq!(store.record_count(), 0);
}

#[test]
fn unknown_task_is_not_found() {
    let mut store = quest_seven();
    let registry = VerifierRegistry::standard();
    let out = verify(&mut store, &registry, 9, "abc", &Evidence::Absent);
    assert!(matches!(out, Err(QuestError::NotFound)));
    assert_eq!(store.record_count(), 0);
}

#[test]
fn verifying_twice_leaves_one_record() {
    let mut store = quest_seven();
    let registry = VerifierRegistry::standard();
    assert!(matches!(verify(&mut store, &registry, 1, "abc", &Evidence::Absent), Ok(true)));
    assert!(matches!(verify(&mut store, &registry, 1, "abc", &Evidence::Absent), Ok(true)));
    assert_eq!(store.record_count(), 1);
    assert!(store.has_completion(1, "abc"));
}

#[test]
fn failed_outside_check_is_retryable_and_records_nothing() {
    let mut store = quest_seven();
    let registry = VerifierRegistry::standard();
    let out = verify(&mut store, &registry, 2, "abc", &Evidence::Unavailable("timeout".to_string()));
    match out {
        Err(e) => {
            assert!(e.is_retryable());
            assert_eq!(e.code(), 503);
            assert!(matches!(e, QuestError::ExternalCheckFailed(ref r) if r == "timeout"));
        }
        Ok(v) => panic!("expected an error, got {}", v),
    }
    assert_eq!(store.record_count(), 0);
    let out = verify(&mut store, &registry, 2, "abc", &Evidence::Absent);
    assert!(matches!(out, Err(QuestError::ExternalCheckFailed(ref r)) if r == "no evidence"));
    assert_eq!(store.record_count(), 0);
}

#[test]
fn error_codes_and_retry() {
    assert_eq!(QuestError::NotFound.code(), 404);
    assert_eq!(QuestError::UnsupportedVerificationType.code(), 500);
    assert_eq!(QuestError::StoreUnavailable.code(), 500);
    assert_eq!(QuestError::IdSpaceExhausted.code(), 507);
    assert!(!QuestError::NotFound.is_retryable());
    assert!(!QuestError::StoreUnavailable.is_retryable());
    assert!(!QuestError::UnsupportedVerificationType.is_retryable());
}

#[test]
fn checks_decide_by_threshold() {
    assert!(matches!(Check::Redirect.decide(&Evidence::Absent), Decision::Verified));
    assert!(matches!(
        Check::Redirect.decide(&Evidence::Unavailable("x".to_string())),
        Decision::Verified
    ));
    assert!(matches!(Check::HasPlayed.decide(&Evidence::Measured(0)), Decision::NotYetSatisfied));
    assert!(matches!(Check::HasPlayed.decide(&Evidence::Measured(1)), Decision::Verified));
    assert!(matches!(Check::HasDomain.decide(&Evidence::Measured(0)), Decision::NotYetSatisfied));
    assert!(matches!(Check::HasDomain.decide(&Evidence::Measured(3)), Decision::Verified));
    assert!(matches!(Check::ScoreAbove(100).decide(&Evidence::Measured(100)), Decision::NotYetSatisfied));
    assert!(matches!(Check::ScoreAbove(100).decide(&Evidence::Measured(101)), Decision::Verified));
    assert!(matches!(
        Check::ScoreAbove(u64::MAX).decide(&Evidence::Measured(u64::MAX)),
        Decision::NotYetSatisfied
    ));
    assert_eq!(Check::ScoreAbove(50).threshold(), 50);
    assert_eq!(Check::HasPlayed.threshold(), 0);
    assert!(!Check::Redirect.needs_evidence());
    assert!(Check::HasDomain.needs_evidence());
}

#[test]
fn registry_matches_keys_exactly() {
    let mut registry = VerifierRegistry::new();
    assert_eq!(registry.lookup("default"), None);
    assert!(registry.register("default", Check::Redirect));
    assert!(!registry.register("default", Check::HasPlayed));
    assert!(!registry.register("", Check::HasPlayed));
    assert!(registry.register("Default", Check::HasDomain));
    assert_eq!(registry.lookup("default"), Some(Check::Redirect));
    assert_eq!(registry.lookup("Default"), Some(Check::HasDomain));
    assert_eq!(registry.lookup("default "), None);
    assert_eq!(registry.lookup(""), None);
}

#[test]
fn standard_registry_holds_the_known_checks() {
    let registry = VerifierRegistry::standard();
    assert_eq!(registry.lookup("default"), Some(Check::Redirect));
    assert_eq!(registry.lookup("has_played"), Some(Check::HasPlayed));
    assert_eq!(registry.lookup("score_gt_50"), Some(Check::ScoreAbove(50)));
    assert_eq!(registry.lookup("score_gt_100"), Some(Check::ScoreAbove(100)));
    assert_eq!(registry.lookup("has_domain"), Some(Check::HasDomain));
    assert_eq!(registry.lookup("score_gt_51"), None);
}

#[test]
fn select_check_reads_the_task_type() {
    let registry = VerifierRegistry::standard();
    assert!(matches!(select_check(&registry, &draft(1, "score_gt_100")), Ok(Check::ScoreAbove(100))));
    assert!(matches!(
        select_check(&registry, &draft(1, "nothing")),
        Err(QuestError::UnsupportedVerificationType)
    ));
}

#[test]
fn conclude_records_only_when_verified() {
    let mut store = TaskStore::new();
    assert!(matches!(conclude(&mut store, 1, "abc", &Decision::NotYetSatisfied), Ok(false)));
    assert_eq!(store.record_count(), 0);
    let failed = Decision::ExternalCheckFailed("down".to_string());
    assert!(matches!(conclude(&mut store, 1, "abc", &failed), Err(QuestError::ExternalCheckFailed(_))));
    assert_eq!(store.record_count(), 0);
    assert!(matches!(conclude(&mut store, 1, "abc", &Decision::Verified), Ok(true)));
    assert!(matches!(conclude(&mut store, 1, "abc", &Decision::Verified), Ok(true)));
    assert_eq!(store.record_count(), 1);
    assert!(should_record(&Decision::Verified));
    assert!(!should_record(&Decision::NotYetSatisfied));
    assert!(matches!(outcome(&Decision::Verified), Ok(true)));
    assert!(matches!(outcome(&Decision::NotYetSatisfied), Ok(false)));
}

#[test]
fn reply_shows_code_but_no_reason() {
    assert_eq!(reply(&Ok(true)), VerifyReply { verified: true, code: None, retryable: false });
    assert_eq!(reply(&Ok(false)), VerifyReply { verified: false, code: None, retryable: false });
    assert_eq!(
        reply(&Err(QuestError::ExternalCheckFailed("socket closed".to_string()))),
        VerifyReply { verified: false, code: Some(503), retryable: true }
    );
    assert_eq!(
        reply(&Err(QuestError::StoreUnavailable)),
        VerifyReply { verified: false, code: Some(500), retryable: false }
    );
    assert_eq!(
        reply(&Err(QuestError::NotFound)),
        VerifyReply { verified: false, code: Some(404), retryable: false }
    );
}
