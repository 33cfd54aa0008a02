use authelia_controller::apply::{DeploymentPatch, SecretPatch};
use authelia_controller::context::Context;
use authelia_controller::document::SerializeError;
use authelia_controller::reconciler::{Action, Event, Phase, Reconciler};
use authelia_controller::resources::{AccessControlRule, AccessControlRuleSpec, AccessPolicy};

fn context() -> Context {
    Context::new(
        "authelia.huizinga.dev",
        "authelia".to_string(),
        "authelia".to_string(),
        "authelia-acl".to_string(),
    )
}

fn snapshot() -> Vec<AccessControlRule> {
    vec![
        AccessControlRule::new(
            "b".to_string(),
            AccessControlRuleSpec::new("x.com".to_string(), AccessPolicy::TwoFactor, None),
        ),
        AccessControlRule::new(
            "a".to_string(),
            AccessControlRuleSpec::new("y.com".to_string(), AccessPolicy::Bypass, None),
        ),
    ]
}

fn secret_patch(contents: &str) -> SecretPatch {
    SecretPatch {
        namespace: "authelia".to_string(),
        name: "authelia-acl".to_string(),
        field_manager: "authelia.huizinga.dev".to_string(),
        key: "configuration.acl.yaml".to_string(),
        contents: contents.to_string(),
    }
}

fn deployment_patch(value: &str) -> DeploymentPatch {
    DeploymentPatch {
        namespace: "authelia".to_string(),
        name: "authelia".to_string(),
        annotation: "authelia.huizinga.dev/aclHash".to_string(),
        value: value.to_string(),
    }
}

const TWO_RULES: &str = "access_control:\n  rules:\n  - domain: y.com\n    policy: bypass\n    subject: null\n  - domain: x.com\n    policy: two_factor\n    subject: null\n";

/// A loop whose first write has just been asked for.
fn applying_config() -> Reconciler {
    let (reconciler, _) = Reconciler::new(context(), 15).step(Event::StoreReady);
    let (reconciler, _) = reconciler.step(Event::Snapshot(snapshot()));
    reconciler
}

#[test]
fn a_new_loop_waits_for_the_store() {
    let reconciler = Reconciler::new(context(), 15);
    assert_eq!(reconciler.phase(), &Phase::AwaitingStore);
    assert_eq!(reconciler.interval(), 15);
    assert_eq!(reconciler.context(), &context());
}

#[test]
fn nothing_happens_before_the_store_is_ready() {
    let mut reconciler = Reconciler::new(context(), 15);
    let events = vec![
        Event::TimerElapsed,
        Event::Snapshot(snapshot()),
        Event::WriteSucceeded,
        Event::TimerElapsed,
        Event::WriteFailed("too early".to_string()),
        Event::TimerElapsed,
    ];
    for event in events {
        let (after, action) = reconciler.step(event);
        assert_eq!(action, Action::Ignore);
        assert_eq!(after.phase(), &Phase::AwaitingStore);
        reconciler = after;
    }
    let (after, action) = reconciler.step(Event::StoreReady);
    assert_eq!(action, Action::TakeSnapshot);
    assert_eq!(after.phase(), &Phase::Snapshot);
}

#[test]
fn a_pass_writes_the_secret_then_the_deployment_then_sleeps() {
    let (reconciler, action) = Reconciler::new(context(), 15).step(Event::StoreReady);
    assert_eq!(action, Action::TakeSnapshot);

    let (reconciler, action) = reconciler.step(Event::Snapshot(snapshot()));
    assert_eq!(action, Action::ApplyConfig(secret_patch(TWO_RULES)));
    assert_eq!(
        reconciler.phase(),
        &Phase::ApplyConfig { next: deployment_patch("18196707939996550811") }
    );

    let (reconciler, action) = reconciler.step(Event::WriteSucceeded);
    assert_eq!(action, Action::AnnotateWorkload(deployment_patch("18196707939996550811")));
    assert_eq!(reconciler.phase(), &Phase::ApplyWorkloadAnnotation);

    let (reconciler, action) = reconciler.step(Event::WriteSucceeded);
    assert_eq!(action, Action::Sleep { seconds: 15, failure: None });
    assert_eq!(reconciler.phase(), &Phase::Idle);

    let (reconciler, action) = reconciler.step(Event::TimerElapsed);
    assert_eq!(action, Action::TakeSnapshot);
    assert_eq!(reconciler.phase(), &Phase::Snapshot);
}

#[test]
fn a_failed_secret_write_skips_the_deployment() {
    let (reconciler, action) = applying_config().step(Event::WriteFailed("conflict".to_string()));
    assert_eq!(
        action,
        Action::Sleep { seconds: 15, failure: Some("conflict".to_string()) }
    );
    assert_eq!(reconciler.phase(), &Phase::Idle);
}

#[test]
fn a_failed_deployment_write_ends_the_pass() {
    let (reconciler, _) = applying_config().step(Event::WriteSucceeded);
    let (reconciler, action) = reconciler.step(Event::WriteFailed("timeout".to_string()));
    assert_eq!(
        action,
        Action::Sleep { seconds: 15, failure: Some("timeout".to_string()) }
    );
    assert_eq!(reconciler.phase(), &Phase::Idle);
}

#[test]
fn the_pass_after_a_failure_starts_from_a_fresh_snapshot() {
    let (reconciler, _) = applying_config().step(Event::WriteFailed("conflict".to_string()));
    let (reconciler, action) = reconciler.step(Event::TimerElapsed);
    assert_eq!(action, Action::TakeSnapshot);

    let (reconciler, action) = reconciler.step(Event::Snapshot(Vec::new()));
    assert_eq!(action, Action::ApplyConfig(secret_patch("access_control:\n  rules: []\n")));
    let (reconciler, action) = reconciler.step(Event::WriteSucceeded);
    assert_eq!(action, Action::AnnotateWorkload(deployment_patch("10737761904028433844")));
    let (reconciler, action) = reconciler.step(Event::WriteSucceeded);
    assert_eq!(action, Action::Sleep { seconds: 15, failure: None });
    assert_eq!(reconciler, {
        let (fresh, _) = Reconciler::new(context(), 15).step(Event::StoreReady);
        let (fresh, _) = fresh.step(Event::Snapshot(Vec::new()));
        let (fresh, _) = fresh.step(Event::WriteSucceeded);
        let (fresh, _) = fresh.step(Event::WriteSucceeded);
        fresh
    });
}

#[test]
fn two_passes_over_the_same_rules_write_the_same() {
    let (reconciler, first) = Reconciler::new(context(), 15)
        .step(Event::StoreReady)
        .0
        .step(Event::Snapshot(snapshot()));
    let (reconciler, first_annotation) = reconciler.step(Event::WriteSucceeded);
    let (reconciler, _) = reconciler.step(Event::WriteSucceeded);
    let (reconciler, _) = reconciler.step(Event::TimerElapsed);
    let mut reversed = snapshot();
    reversed.reverse();
    let (reconciler, second) = reconciler.step(Event::Snapshot(reversed));
    let (_, second_annotation) = reconciler.step(Event::WriteSucceeded);
    assert_eq!(first, second);
    assert_eq!(first_annotation, second_annotation);
}

#[test]
fn a_timer_does_not_start_a_pass_inside_a_pass() {
    let (reconciler, _) = Reconciler::new(context(), 15).step(Event::StoreReady);
    let (reconciler, action) = reconciler.step(Event::TimerElapsed);
    assert_eq!(action, Action::Ignore);
    assert_eq!(reconciler.phase(), &Phase::Snapshot);

    let (reconciler, _) = reconciler.step(Event::Snapshot(snapshot()));
    let before = format!("{reconciler:?}");
    let (reconciler, action) = reconciler.step(Event::TimerElapsed);
    assert_eq!(action, Action::Ignore);
    assert_eq!(format!("{reconciler:?}"), before);
    let (reconciler, action) = reconciler.step(Event::StoreReady);
    assert_eq!(action, Action::Ignore);
    assert_eq!(format!("{reconciler:?}"), before);

    let (reconciler, _) = reconciler.step(Event::WriteSucceeded);
    let (reconciler, action) = reconciler.step(Event::TimerElapsed);
    assert_eq!(action, Action::Ignore);
    assert_eq!(reconciler.phase(), &Phase::ApplyWorkloadAnnotation);
}

#[test]
fn events_out_of_turn_change_nothing() {
    let (idle, _) = applying_config().step(Event::WriteFailed("x".to_string()));
    let (idle, action) = idle.step(Event::WriteSucceeded);
    assert_eq!(action, Action::Ignore);
    let (idle, action) = idle.step(Event::Snapshot(snapshot()));
    assert_eq!(action, Action::Ignore);
    let (idle, action) = idle.step(Event::StoreReady);
    assert_eq!(action, Action::Ignore);
    assert_eq!(idle.phase(), &Phase::Idle);
}

#[test]
fn the_loop_sleeps_for_its_interval() {
    let (reconciler, _) = Reconciler::new(context(), 3600).step(Event::StoreReady);
    let (reconciler, _) = reconciler.step(Event::Snapshot(Vec::new()));
    let (reconciler, _) = reconciler.step(Event::WriteSucceeded);
    let (_, action) = reconciler.step(Event::WriteSucceeded);
    assert_eq!(action, Action::Sleep { seconds: 3600, failure: None });
}

#[test]
fn a_configuration_that_is_too_large_halts_the_loop() {
    let heavy = vec![AccessControlRule::new(
        "a".to_string(),
        AccessControlRuleSpec::new("d".repeat(64 * 1024 * 1024), AccessPolicy::Deny, None),
    )];
    let (reconciler, _) = Reconciler::new(context(), 15).step(Event::StoreReady);
    let (reconciler, action) = reconciler.step(Event::Snapshot(heavy));
    assert_eq!(action, Action::Halt(SerializeError::TooLarge));
    assert_eq!(reconciler.phase(), &Phase::Halted);

    let (reconciler, action) = reconciler.step(Event::TimerElapsed);
    assert_eq!(action, Action::Ignore);
    let (reconciler, action) = reconciler.step(Event::Snapshot(snapshot()));
    assert_eq!(action, Action::Ignore);
    assert_eq!(reconciler.phase(), &Phase::Halted);
}
