use authelia_controller::aggregate::aggregate;
use authelia_controller::apply::{plan, CONFIG_KEY, HASH_ANNOTATION};
use authelia_controller::context::Context;
use authelia_controller::document::{to_yaml, SerializeError};
use authelia_controller::fingerprint::{decimal, fingerprint};
use authelia_controller::resources::{AccessControlRule, AccessControlRuleSpec, AccessPolicy};
use authelia_controller::yaml::{MAX_DEPTH, MAX_WEIGHT};

fn context() -> Context {
    Context::new(
        "authelia.huizinga.dev",
        "authelia".to_string(),
        "authelia".to_string(),
        "authelia-acl".to_string(),
    )
}

fn rule(name: &str, domain: &str, policy: AccessPolicy, subject: Option<&str>) -> AccessControlRule {
    AccessControlRule::new(
        name.to_string(),
        AccessControlRuleSpec::new(domain.to_string(), policy, subject.map(str::to_string)),
    )
}

const TWO_RULES: &str = "access_control:\n  rules:\n  - domain: y.com\n    policy: bypass\n    subject: null\n  - domain: x.com\n    policy: two_factor\n    subject: null\n";

#[test]
fn rules_are_listed_by_name() {
    let rules = vec![
        rule("b", "x.com", AccessPolicy::TwoFactor, None),
        rule("a", "y.com", AccessPolicy::Bypass, None),
    ];
    let update = AccessControlRule::update_acl(rules, &context()).unwrap();
    assert_eq!(update.secret.contents, TWO_RULES);
    assert_eq!(update.deployment.value, "18196707939996550811");
}

#[test]
fn arrival_order_does_not_matter() {
    let forward = vec![
        rule("a", "y.com", AccessPolicy::Bypass, None),
        rule("b", "x.com", AccessPolicy::TwoFactor, None),
    ];
    let backward = vec![
        rule("b", "x.com", AccessPolicy::TwoFactor, None),
        rule("a", "y.com", AccessPolicy::Bypass, None),
    ];
    let first = AccessControlRule::update_acl(forward, &context()).unwrap();
    let second = AccessControlRule::update_acl(backward, &context()).unwrap();
    assert_eq!(first, second);
    assert_eq!(first.secret.contents, TWO_RULES);
}

#[test]
fn every_order_of_three_rules_gives_one_update() {
    let make = |order: [usize; 3]| {
        let all = [
            ("mail", "mail.example.com", AccessPolicy::OneFactor, Some("group:staff")),
            ("admin", "admin.example.com", AccessPolicy::TwoFactor, Some("user:root")),
            ("public", "www.example.com", AccessPolicy::Bypass, None),
        ];
        order
            .iter()
            .map(|&i| rule(all[i].0, all[i].1, all[i].2, all[i].3))
            .collect::<Vec<_>>()
    };
    let expected = AccessControlRule::update_acl(make([0, 1, 2]), &context()).unwrap();
    for order in [[0, 2, 1], [1, 0, 2], [1, 2, 0], [2, 0, 1], [2, 1, 0]] {
        let update = AccessControlRule::update_acl(make(order), &context()).unwrap();
        assert_eq!(update, expected);
    }
    assert_eq!(
        expected.secret.contents,
        "access_control:\n  rules:\n  - domain: admin.example.com\n    policy: two_factor\n    subject: user:root\n  - domain: mail.example.com\n    policy: one_factor\n    subject: group:staff\n  - domain: www.example.com\n    policy: bypass\n    subject: null\n"
    );
}

#[test]
fn no_rules_give_an_empty_list() {
    let update = AccessControlRule::update_acl(Vec::new(), &context()).unwrap();
    assert_eq!(update.secret.contents, "access_control:\n  rules: []\n");
    assert_eq!(update.deployment.value, "10737761904028433844");
}

#[test]
fn the_same_rules_give_the_same_update_again() {
    let rules = || {
        vec![
            rule("a", "y.com", AccessPolicy::Bypass, None),
            rule("b", "x.com", AccessPolicy::Deny, Some("user:eve")),
        ]
    };
    let first = AccessControlRule::update_acl(rules(), &context()).unwrap();
    let second = AccessControlRule::update_acl(rules(), &context()).unwrap();
    assert_eq!(first.secret, second.secret);
    assert_eq!(first.deployment, second.deployment);
}

#[test]
fn the_name_of_a_rule_is_not_part_of_the_configuration() {
    let first = vec![rule("a", "y.com", AccessPolicy::Bypass, None)];
    let second = vec![rule("z", "y.com", AccessPolicy::Bypass, None)];
    assert_eq!(
        AccessControlRule::update_acl(first, &context()).unwrap(),
        AccessControlRule::update_acl(second, &context()).unwrap()
    );
}

#[test]
fn a_changed_field_changes_the_fingerprint() {
    let base = AccessControlRule::update_acl(
        vec![rule("a", "y.com", AccessPolicy::Bypass, None)],
        &context(),
    )
    .unwrap();
    let variants = vec![
        vec![rule("a", "z.com", AccessPolicy::Bypass, None)],
        vec![rule("a", "y.com", AccessPolicy::Deny, None)],
        vec![rule("a", "y.com", AccessPolicy::Bypass, Some("user:john"))],
        vec![
            rule("a", "y.com", AccessPolicy::Bypass, None),
            rule("b", "x.com", AccessPolicy::TwoFactor, None),
        ],
        Vec::new(),
    ];
    for rules in variants {
        let changed = AccessControlRule::update_acl(rules, &context()).unwrap();
        assert_ne!(changed.secret.contents, base.secret.contents);
        assert_ne!(changed.deployment.value, base.deployment.value);
    }
}

#[test]
fn the_writes_go_where_the_context_says() {
    let ctx = Context::new(
        "controller.example",
        "auth".to_string(),
        "authelia-server".to_string(),
        "acl-secret".to_string(),
    );
    let update =
        AccessControlRule::update_acl(vec![rule("a", "y.com", AccessPolicy::Deny, None)], &ctx)
            .unwrap();
    assert_eq!(update.secret.namespace, "auth");
    assert_eq!(update.secret.name, "acl-secret");
    assert_eq!(update.secret.field_manager, "controller.example");
    assert_eq!(update.secret.key, "configuration.acl.yaml");
    assert_eq!(update.deployment.namespace, "auth");
    assert_eq!(update.deployment.name, "authelia-server");
    assert_eq!(update.deployment.annotation, "authelia.huizinga.dev/aclHash");
    assert_eq!(CONFIG_KEY, "configuration.acl.yaml");
    assert_eq!(HASH_ANNOTATION, "authelia.huizinga.dev/aclHash");
}

#[test]
fn the_annotation_is_the_fingerprint_of_the_secret_contents() {
    let update = AccessControlRule::update_acl(
        vec![
            rule("one", "a.example.com", AccessPolicy::OneFactor, Some("group:dev")),
            rule("two", "b.example.com", AccessPolicy::Deny, None),
        ],
        &context(),
    )
    .unwrap();
    assert_eq!(
        update.deployment.value,
        decimal(fingerprint(&update.secret.contents))
    );
}

#[test]
fn plan_takes_the_text_as_it_is() {
    let update = plan(&context(), "anything at all".to_string());
    assert_eq!(update.secret.contents, "anything at all");
    assert_eq!(
        update.deployment.value,
        fingerprint("anything at all").to_string()
    );
    assert_eq!(update.secret.name, "authelia-acl");
    assert_eq!(update.deployment.name, "authelia");
}

#[test]
fn every_policy_has_its_word() {
    assert_eq!(AccessPolicy::Deny.as_str(), "deny");
    assert_eq!(AccessPolicy::Bypass.as_str(), "bypass");
    assert_eq!(AccessPolicy::OneFactor.as_str(), "one_factor");
    assert_eq!(AccessPolicy::TwoFactor.as_str(), "two_factor");
}

#[test]
fn all_policies_and_a_subject_in_the_document() {
    let rules = vec![
        rule("1", "a.com", AccessPolicy::Deny, Some("user:john")),
        rule("2", "b.com", AccessPolicy::Bypass, None),
        rule("3", "c.com", AccessPolicy::OneFactor, Some("group:admins")),
        rule("4", "d.com", AccessPolicy::TwoFactor, None),
    ];
    let text = to_yaml(&aggregate(rules)).unwrap();
    assert_eq!(
        text,
        "access_control:\n  rules:\n  - domain: a.com\n    policy: deny\n    subject: user:john\n  - domain: b.com\n    policy: bypass\n    subject: null\n  - domain: c.com\n    policy: one_factor\n    subject: group:admins\n  - domain: d.com\n    policy: two_factor\n    subject: null\n"
    );
}

#[test]
fn the_serializer_quotes_what_yaml_would_misread() {
    let rules = vec![
        rule("a", "*.example.com", AccessPolicy::Bypass, Some("null")),
        rule("b", "123", AccessPolicy::Deny, Some("")),
    ];
    let text = to_yaml(&aggregate(rules)).unwrap();
    assert_eq!(
        text,
        "access_control:\n  rules:\n  - domain: '*.example.com'\n    policy: bypass\n    subject: 'null'\n  - domain: '123'\n    policy: deny\n    subject: ''\n"
    );
}

#[test]
fn aggregate_drops_the_names_and_keeps_the_rest() {
    let config = aggregate(vec![
        rule("b", "x.com", AccessPolicy::TwoFactor, Some("user:b")),
        rule("a", "y.com", AccessPolicy::Bypass, None),
    ]);
    let entries = config.rules();
    assert_eq!(entries.len(), 2);
    assert_eq!(entries[0].domain(), "y.com");
    assert_eq!(entries[0].policy(), AccessPolicy::Bypass);
    assert_eq!(entries[0].subject(), None);
    assert_eq!(entries[1].domain(), "x.com");
    assert_eq!(entries[1].policy(), AccessPolicy::TwoFactor);
    assert_eq!(entries[1].subject(), Some("user:b"));
}

#[test]
fn rules_of_one_name_are_both_kept_in_their_order() {
    let config = aggregate(vec![
        rule("same", "second.com", AccessPolicy::Deny, None),
        rule("other", "first.com", AccessPolicy::Deny, None),
        rule("same", "third.com", AccessPolicy::Bypass, None),
    ]);
    let domains: Vec<&str> = config.rules().iter().map(|entry| entry.domain()).collect();
    assert_eq!(domains, vec!["first.com", "second.com", "third.com"]);
}

#[test]
fn a_rule_gives_back_what_it_was_made_of() {
    let made = rule("name", "example.com", AccessPolicy::OneFactor, Some("user:a"));
    assert_eq!(made.name(), "name");
    assert_eq!(made.spec().domain(), "example.com");
    assert_eq!(made.spec().policy(), AccessPolicy::OneFactor);
    assert_eq!(made.spec().subject(), Some("user:a"));
    let copy = made.clone();
    assert_eq!(copy, made);
    let spec = made.into_spec();
    assert_eq!(&spec, copy.spec());
}

#[test]
fn names_beyond_ascii_are_ordered_by_their_bytes() {
    let rules = vec![
        rule("\u{e9}", "last.example", AccessPolicy::Deny, None),
        rule("z", "middle.example", AccessPolicy::Deny, None),
        rule("Z", "first.example", AccessPolicy::Deny, None),
    ];
    let config = aggregate(rules);
    let domains: Vec<&str> = config.rules().iter().map(|entry| entry.domain()).collect();
    assert_eq!(domains, vec!["first.example", "middle.example", "last.example"]);
}

#[test]
fn text_beyond_ascii_is_written_as_it_is() {
    let rules = vec![rule(
        "books",
        "b\u{fc}cher.example",
        AccessPolicy::OneFactor,
        Some("user:j\u{f6}rg"),
    )];
    let text = to_yaml(&aggregate(rules)).unwrap();
    assert_eq!(
        text,
        "access_control:\n  rules:\n  - domain: b\u{fc}cher.example\n    policy: one_factor\n    subject: user:j\u{f6}rg\n"
    );
}

#[test]
fn a_subject_of_several_lines_is_written_as_a_block() {
    let rules = vec![rule("a", "a.com", AccessPolicy::Deny, Some("one\ntwo"))];
    let text = to_yaml(&aggregate(rules)).unwrap();
    assert_eq!(
        text,
        "access_control:\n  rules:\n  - domain: a.com\n    policy: deny\n    subject: |-\n      one\n      two\n"
    );
}

/// The weight of the document of one rule without a subject: the nodes and
/// keys, the policy's word and the domain.
fn weight_of_one_rule(policy: AccessPolicy, domain_bytes: usize) -> usize {
    3 + "access_control".len()
        + "rules".len()
        + 4
        + "domain".len()
        + "policy".len()
        + "subject".len()
        + policy.as_str().len()
        + domain_bytes
}

#[test]
fn the_limit_is_sixty_four_mebibytes_and_sixty_four_levels() {
    assert_eq!(MAX_WEIGHT, 64 * 1024 * 1024);
    assert_eq!(MAX_DEPTH, 64);
    assert_eq!(weight_of_one_rule(AccessPolicy::Deny, 0), 49);
}

#[test]
fn a_document_at_the_limit_is_written() {
    let domain = "d".repeat(MAX_WEIGHT - weight_of_one_rule(AccessPolicy::Deny, 0));
    let text = to_yaml(&aggregate(vec![rule("a", &domain, AccessPolicy::Deny, None)])).unwrap();
    assert_eq!(
        text.len(),
        "access_control:\n  rules:\n  - domain: \n    policy: deny\n    subject: null\n".len()
            + domain.len()
    );
    assert!(text.starts_with("access_control:\n  rules:\n  - domain: dddd"));
    assert!(text.ends_with("dddd\n    policy: deny\n    subject: null\n"));
}

#[test]
fn a_document_beyond_the_limit_is_refused() {
    let domain = "d".repeat(MAX_WEIGHT - weight_of_one_rule(AccessPolicy::Deny, 0) + 1);
    assert_eq!(
        to_yaml(&aggregate(vec![rule("a", &domain, AccessPolicy::Deny, None)])),
        Err(SerializeError::TooLarge)
    );
    assert_eq!(
        AccessControlRule::update_acl(
            vec![rule("a", &domain, AccessPolicy::Deny, None)],
            &context()
        ),
        Err(SerializeError::TooLarge)
    );
}

#[test]
fn the_limit_counts_every_text_and_every_rule() {
    // Two rules that fit one by one do not fit together.
    let half = "d".repeat(MAX_WEIGHT / 2);
    let one = to_yaml(&aggregate(vec![rule("a", &half, AccessPolicy::Bypass, None)]));
    assert!(one.is_ok());
    let both = to_yaml(&aggregate(vec![
        rule("a", &half, AccessPolicy::Bypass, None),
        rule("b", &half, AccessPolicy::Bypass, None),
    ]));
    assert_eq!(both, Err(SerializeError::TooLarge));
    // The subject counts as the domain does.
    let subject = "s".repeat(MAX_WEIGHT);
    let heavy = to_yaml(&aggregate(vec![rule("a", "a.com", AccessPolicy::Deny, Some(&subject))]));
    assert_eq!(heavy, Err(SerializeError::TooLarge));
}
