use flake_checker::flake::check_flake_lock_at;
use flake_checker::json::JsonValue;
use flake_checker::telemetry::{calculate_opaque_id, TelemetryReport};
use flake_checker::{
    check_flake_lock, FlakeCheckConfig, FlakeCheckerError, FlakeLock, Issue, IssueDetails,
    IssueKind,
};

fn repo_node(owner: &str, git_ref: Option<&str>, last_modified: i64) -> String {
    let ref_member = match git_ref {
        Some(r) => format!("\"ref\": \"{r}\", "),
        None => String::new(),
    };
    format!(
        "{{\"locked\": {{\"lastModified\": {lm}, \
         \"narHash\": \"sha256-BLCs0nLCM6A4Ga3HiFKDP+B0HXF58fXJWiTT9HFmtZ0=\", \
         \"owner\": \"{owner}\", \"repo\": \"nixpkgs\", \
         \"rev\": \"0c5678df521e1407884205fe3ce3cf1d7df297db\", \
         \"type\": \"github\"}}, \
         \"original\": {{\"owner\": \"{owner}\", {ref_member}\
         \"repo\": \"nixpkgs\", \"type\": \"github\"}}}}",
        lm = last_modified,
        owner = owner,
        ref_member = ref_member
    )
}

fn lock_with_nodes(nodes: &[(&str, String)]) -> String {
    let mut members = Vec::new();
    let mut root_inputs = Vec::new();
    for (name, body) in nodes {
        members.push(format!("\"{name}\": {body}"));
        root_inputs.push(format!("\"{name}\": \"{name}\""));
    }
    members.push(format!(
        "\"root\": {{\"inputs\": {{{}}}}}",
        root_inputs.join(", ")
    ));
    format!(
        "{{\"nodes\": {{{}}}, \"root\": \"root\", \"version\": 7}}",
        members.join(", ")
    )
}

fn clean_lock(n: usize) -> String {
    let node = match n {
        0 => repo_node("NixOS", Some("nixos-22.11"), 1668087632),
        1 => repo_node("NixOS", Some("nixos-unstable"), 1668087632),
        _ => repo_node("NixOS", None, 1668087632),
    };
    lock_with_nodes(&[("nixpkgs", node)])
}

#[test]
fn test_clean_flake_locks() {
    for n in 0..=2 {
        let text = clean_lock(n);
        let flake_lock = FlakeLock::new(&text).expect("couldn't create flake.lock");
        let config = FlakeCheckConfig {
            check_outdated: false,
            ..Default::default()
        };
        let issues =
            check_flake_lock(&flake_lock, &config).expect("couldn't run check_flake_lock function");
        assert!(issues.is_empty());
    }
}

#[test]
fn test_dirty_flake_locks() {
    let cases: Vec<(String, Vec<Issue>)> = vec![
        (
            lock_with_nodes(&[(
                "nixpkgs",
                repo_node("bitcoin-miner-org", Some("this-should-fail"), 1668087632),
            )]),
            vec![
                Issue {
                    dependency: String::from("nixpkgs"),
                    kind: IssueKind::Disallowed,
                    details: IssueDetails::Disallowed {
                        input: String::from("nixpkgs"),
                        git_ref: String::from("this-should-fail"),
                    },
                },
                Issue {
                    dependency: String::from("nixpkgs"),
                    kind: IssueKind::NonUpstream,
                    details: IssueDetails::NonUpstream {
                        input: String::from("nixpkgs"),
                        owner: String::from("bitcoin-miner-org"),
                    },
                },
            ],
        ),
        (
            lock_with_nodes(&[(
                "nixpkgs",
                repo_node("pretty-shady", Some("probably-nefarious"), 1668087632),
            )]),
            vec![
                Issue {
                    dependency: String::from("nixpkgs"),
                    kind: IssueKind::Disallowed,
                    details: IssueDetails::Disallowed {
                        input: String::from("nixpkgs"),
                        git_ref: String::from("probably-nefarious"),
                    },
                },
                Issue {
                    dependency: String::from("nixpkgs"),
                    kind: IssueKind::NonUpstream,
                    details: IssueDetails::NonUpstream {
                        input: String::from("nixpkgs"),
                        owner: String::from("pretty-shady"),
                    },
                },
            ],
        ),
    ];

    for (text, expected_issues) in cases {
        let flake_lock = FlakeLock::new(&text).expect("couldn't create flake.lock");
        let config = FlakeCheckConfig {
            check_outdated: false,
            ..Default::default()
        };
        let issues =
            check_flake_lock(&flake_lock, &config).expect("couldn't run check_flake_lock function");
        assert_eq!(issues, expected_issues);
    }
}

#[test]
fn test_explicit_nixpkgs_keys() {
    let cases: Vec<(String, Vec<String>, Vec<Issue>)> = vec![(
        lock_with_nodes(&[
            ("nixpkgs", repo_node("NixOS", Some("nixos-22.11"), 1668087632)),
            (
                "nixpkgs-alt",
                repo_node("seems-pretty-shady", Some("nixos-22.11"), 1668087632),
            ),
        ]),
        vec![String::from("nixpkgs"), String::from("nixpkgs-alt")],
        vec![Issue {
            dependency: String::from("nixpkgs-alt"),
            kind: IssueKind::NonUpstream,
            details: IssueDetails::NonUpstream {
                input: String::from("nixpkgs-alt"),
                owner: String::from("seems-pretty-shady"),
            },
        }],
    )];

    for (text, nixpkgs_keys, expected_issues) in cases {
        let flake_lock = FlakeLock::new(&text).expect("couldn't create flake.lock");
        let config = FlakeCheckConfig {
            check_outdated: false,
            nixpkgs_keys,
            ..Default::default()
        };
        let issues =
            check_flake_lock(&flake_lock, &config).expect("couldn't run check_flake_lock function");
        assert_eq!(issues, expected_issues);
    }
}

#[test]
fn test_missing_nixpkgs_keys() {
    let cases: Vec<(String, Vec<String>, String)> = vec![
        (
            clean_lock(0),
            vec![
                String::from("nixpkgs"),
                String::from("foo"),
                String::from("bar"),
            ],
            String::from(
                "invalid flake.lock: no nixpkgs dependency found for specified keys: foo, bar",
            ),
        ),
        (
            clean_lock(1),
            vec![String::from("nixpkgs"), String::from("nixpkgs-other")],
            String::from(
                "invalid flake.lock: no nixpkgs dependency found for specified key: nixpkgs-other",
            ),
        ),
    ];
    for (text, nixpkgs_keys, expected_err) in cases {
        let flake_lock = FlakeLock::new(&text).expect("couldn't create flake.lock");
        let config = FlakeCheckConfig {
            check_outdated: false,
            nixpkgs_keys,
            ..Default::default()
        };

        let result = check_flake_lock(&flake_lock, &config);

        assert!(result.is_err());
        assert_eq!(result.unwrap_err().message(), expected_err);
    }
}

#[test]
fn round_trip_same_issues() {
    let text = lock_with_nodes(&[(
        "nixpkgs",
        repo_node("bitcoin-miner-org", Some("this-should-fail"), 1668087632),
    )]);
    let config = FlakeCheckConfig {
        check_outdated: false,
        ..Default::default()
    };
    let first = check_flake_lock(&FlakeLock::new(&text).unwrap(), &config).unwrap();
    let second = check_flake_lock(&FlakeLock::new(&text).unwrap(), &config).unwrap();
    assert_eq!(first, second);
    assert_eq!(first.len(), 2);
}

#[test]
fn disallowed_ref_only_when_enabled() {
    let text = lock_with_nodes(&[(
        "nixpkgs",
        repo_node("NixOS", Some("this-should-fail"), 1668087632),
    )]);
    let flake_lock = FlakeLock::new(&text).unwrap();

    let enabled = FlakeCheckConfig {
        check_outdated: false,
        ..Default::default()
    };
    let issues = check_flake_lock(&flake_lock, &enabled).unwrap();
    assert_eq!(
        issues,
        vec![Issue {
            dependency: String::from("nixpkgs"),
            kind: IssueKind::Disallowed,
            details: IssueDetails::Disallowed {
                input: String::from("nixpkgs"),
                git_ref: String::from("this-should-fail"),
            },
        }]
    );

    let disabled = FlakeCheckConfig {
        check_supported: false,
        check_outdated: false,
        ..Default::default()
    };
    let issues = check_flake_lock(&flake_lock, &disabled).unwrap();
    assert!(issues.is_empty());
}

#[test]
fn staleness_boundary() {
    let now: i64 = 1700000000;
    let config = FlakeCheckConfig {
        check_supported: false,
        check_owner: false,
        ..Default::default()
    };

    // Exactly 30 days old: not outdated.
    let text = lock_with_nodes(&[("nixpkgs", repo_node("NixOS", None, now - 30 * 86400))]);
    let issues = check_flake_lock_at(&FlakeLock::new(&text).unwrap(), &config, now).unwrap();
    assert!(issues.is_empty());

    // 30 days and a part of a day: the partial day does not count.
    let text = lock_with_nodes(&[(
        "nixpkgs",
        repo_node("NixOS", None, now - 30 * 86400 - 86399),
    )]);
    let issues = check_flake_lock_at(&FlakeLock::new(&text).unwrap(), &config, now).unwrap();
    assert!(issues.is_empty());

    // 31 days old: exactly one Outdated violation, truncated day count.
    let text = lock_with_nodes(&[("nixpkgs", repo_node("NixOS", None, now - 31 * 86400))]);
    let issues = check_flake_lock_at(&FlakeLock::new(&text).unwrap(), &config, now).unwrap();
    assert_eq!(
        issues,
        vec![Issue {
            dependency: String::from("nixpkgs"),
            kind: IssueKind::Outdated,
            details: IssueDetails::Outdated {
                input: String::from("nixpkgs"),
                num_days_old: 31,
            },
        }]
    );
}

#[test]
fn owner_check_is_case_insensitive() {
    let config = FlakeCheckConfig {
        check_outdated: false,
        ..Default::default()
    };
    for owner in ["NixOS", "nixos", "NIXOS"] {
        let text = lock_with_nodes(&[(
            "nixpkgs",
            repo_node(owner, Some("nixos-22.11"), 1668087632),
        )]);
        let issues = check_flake_lock(&FlakeLock::new(&text).unwrap(), &config).unwrap();
        assert!(issues.is_empty());
    }

    let text = lock_with_nodes(&[(
        "nixpkgs",
        repo_node("bitcoin-miner-org", Some("nixos-22.11"), 1668087632),
    )]);
    let issues = check_flake_lock(&FlakeLock::new(&text).unwrap(), &config).unwrap();
    assert_eq!(
        issues,
        vec![Issue {
            dependency: String::from("nixpkgs"),
            kind: IssueKind::NonUpstream,
            details: IssueDetails::NonUpstream {
                input: String::from("nixpkgs"),
                owner: String::from("bitcoin-miner-org"),
            },
        }]
    );
}

#[test]
fn parse_rejects_bad_input() {
    // Not JSON at all.
    let err = FlakeLock::new("not json").unwrap_err();
    assert!(matches!(err, FlakeCheckerError::Parse(_)));

    // JSON, but not an object.
    let err = FlakeLock::new("[1, 2, 3]").unwrap_err();
    assert_eq!(
        err.message(),
        "malformed flake.lock: expected a JSON object at the top level"
    );

    // Missing top-level fields, reported in a fixed order.
    let err = FlakeLock::new("{}").unwrap_err();
    assert_eq!(err.message(), "malformed flake.lock: missing field `nodes`");
    let err = FlakeLock::new("{\"nodes\": {}}").unwrap_err();
    assert_eq!(err.message(), "malformed flake.lock: missing field `root`");
    let err = FlakeLock::new("{\"nodes\": {}, \"root\": \"root\"}").unwrap_err();
    assert_eq!(
        err.message(),
        "malformed flake.lock: missing field `version`"
    );

    // A field of the wrong shape.
    let err = FlakeLock::new("{\"nodes\": 3, \"root\": \"root\", \"version\": 7}").unwrap_err();
    assert_eq!(
        err.message(),
        "malformed flake.lock: the field `nodes` is not an object"
    );
    let err =
        FlakeLock::new("{\"nodes\": {}, \"root\": \"root\", \"version\": -1}").unwrap_err();
    assert_eq!(
        err.message(),
        "malformed flake.lock: the field `version` is not an unsigned integer"
    );

    // The declared root is absent from the table.
    let err =
        FlakeLock::new("{\"nodes\": {}, \"root\": \"root\", \"version\": 7}").unwrap_err();
    assert_eq!(
        err.message(),
        "malformed flake.lock: the declared root `root` is not in the node table"
    );

    // The declared root is not root-shaped.
    let text = format!(
        "{{\"nodes\": {{\"root\": {}}}, \"root\": \"root\", \"version\": 7}}",
        repo_node("NixOS", None, 1668087632)
    );
    let err = FlakeLock::new(&text).unwrap_err();
    assert_eq!(
        err.message(),
        "malformed flake.lock: root node was not a Root node, but was a Repo node"
    );

    // A root input points at a name absent from the table.
    let text = "{\"nodes\": {\"root\": {\"inputs\": {\"nixpkgs\": \"nixpkgs\"}}}, \
                \"root\": \"root\", \"version\": 7}";
    let err = FlakeLock::new(text).unwrap_err();
    assert_eq!(
        err.message(),
        "malformed flake.lock: the root input `nixpkgs` points to `nixpkgs`, \
         which is not in the node table"
    );
}

#[test]
fn legacy_field_aliases_accepted() {
    // last_modified / nar_hash / node_type / git_ref are the legacy
    // spellings of lastModified / narHash / type / ref.
    let node = "{\"locked\": {\"last_modified\": 1668087632, \
         \"nar_hash\": \"sha256-BLCs0nLCM6A4Ga3HiFKDP+B0HXF58fXJWiTT9HFmtZ0=\", \
         \"owner\": \"NixOS\", \"repo\": \"nixpkgs\", \
         \"rev\": \"0c5678df521e1407884205fe3ce3cf1d7df297db\", \
         \"node_type\": \"github\"}, \
         \"original\": {\"owner\": \"NixOS\", \"git_ref\": \"this-should-fail\", \
         \"repo\": \"nixpkgs\", \"node_type\": \"github\"}}";
    let text = lock_with_nodes(&[("nixpkgs", String::from(node))]);
    let config = FlakeCheckConfig {
        check_outdated: false,
        ..Default::default()
    };
    let issues = check_flake_lock(&FlakeLock::new(&text).unwrap(), &config).unwrap();
    assert_eq!(issues.len(), 1);
    assert_eq!(issues[0].kind, IssueKind::Disallowed);
}

#[test]
fn fallthrough_nodes_are_tolerated() {
    // An unrelated node of some other shape neither fails the load nor
    // matches a tracked key.
    let text = "{\"nodes\": {\
                \"nixpkgs\": {\"locked\": {\"lastModified\": 1668087632, \
                \"narHash\": \"sha256-BLCs0nLCM6A4Ga3HiFKDP+B0HXF58fXJWiTT9HFmtZ0=\", \
                \"owner\": \"NixOS\", \"repo\": \"nixpkgs\", \
                \"rev\": \"0c5678df521e1407884205fe3ce3cf1d7df297db\", \"type\": \"github\"}, \
                \"original\": {\"owner\": \"NixOS\", \"ref\": \"nixos-22.11\", \
                \"repo\": \"nixpkgs\", \"type\": \"github\"}}, \
                \"flake-compat\": {\"flake\": false}, \
                \"root\": {\"inputs\": {\"nixpkgs\": \"nixpkgs\"}}}, \
                \"root\": \"root\", \"version\": 7}";
    let config = FlakeCheckConfig {
        check_outdated: false,
        ..Default::default()
    };
    let issues = check_flake_lock(&FlakeLock::new(text).unwrap(), &config).unwrap();
    assert!(issues.is_empty());
}

#[test]
fn telemetry_counts_per_kind() {
    let text = lock_with_nodes(&[(
        "nixpkgs",
        repo_node("bitcoin-miner-org", Some("this-should-fail"), 1668087632),
    )]);
    let config = FlakeCheckConfig {
        check_outdated: false,
        ..Default::default()
    };
    let issues = check_flake_lock(&FlakeLock::new(&text).unwrap(), &config).unwrap();
    let report = TelemetryReport::new(
        &issues,
        String::from("some-id"),
        String::from("0.1.0"),
        true,
    );
    assert_eq!(report.disallowed, 1);
    assert_eq!(report.outdated, 0);
    assert_eq!(report.non_upstream, 1);
    assert_eq!(report.distinct_id, "some-id");
    assert!(report.is_ci);
}

#[test]
fn opaque_id_is_a_real_digest() {
    // The SHA-256 digest of the empty string, in lowercase hex.
    assert_eq!(
        calculate_opaque_id("", "", "", ""),
        "e3b0c44298fc1c149afbf4c8996fb92427ae41e4649b934ca495991b7852b855"
    );
    // Hashing the concatenation of the four parts.
    let id = calculate_opaque_id("owner/repo", "12345", "owner", "67890");
    assert_eq!(id.len(), 64);
    assert_ne!(id, "owner/repo12345owner67890");
}

#[test]
fn node_shape_helpers() {
    let lock = FlakeLock::new(&clean_lock(0)).unwrap();
    // A second parse of the same text yields a graph with the same checks.
    let issues = check_flake_lock_at(
        &lock,
        &FlakeCheckConfig::default(),
        1668087632 + 86400,
    )
    .unwrap();
    assert!(issues.is_empty());

    let fallthrough = flake_checker::flake::Node::Fallthrough(JsonValue::Null);
    assert_eq!(fallthrough.variant(), "Fallthrough");
    assert!(!fallthrough.is_nixpkgs());
}

#[test]
fn issues_follow_request_order() {
    let text = lock_with_nodes(&[
        (
            "nixpkgs-alt",
            repo_node("shady-one", Some("nixos-22.11"), 1668087632),
        ),
        (
            "nixpkgs",
            repo_node("shady-two", Some("nixos-22.11"), 1668087632),
        ),
    ]);
    let flake_lock = FlakeLock::new(&text).unwrap();
    let config = FlakeCheckConfig {
        check_outdated: false,
        nixpkgs_keys: vec![String::from("nixpkgs"), String::from("nixpkgs-alt")],
        ..Default::default()
    };
    let issues = check_flake_lock(&flake_lock, &config).unwrap();
    // One violation per node, attributed in the order the keys were requested,
    // not in node-table order.
    assert_eq!(issues.len(), 2);
    assert_eq!(issues[0].dependency, "nixpkgs");
    assert_eq!(issues[1].dependency, "nixpkgs-alt");
}

#[test]
fn repeated_keys_are_checked_once() {
    let text = lock_with_nodes(&[(
        "nixpkgs",
        repo_node("shady-one", Some("nixos-22.11"), 1668087632),
    )]);
    let flake_lock = FlakeLock::new(&text).unwrap();
    let config = FlakeCheckConfig {
        check_outdated: false,
        nixpkgs_keys: vec![String::from("nixpkgs"), String::from("nixpkgs")],
        ..Default::default()
    };
    let issues = check_flake_lock(&flake_lock, &config).unwrap();
    assert_eq!(issues.len(), 1);
    assert_eq!(issues[0].dependency, "nixpkgs");
}

#[test]
fn unknown_top_level_field_rejected() {
    let text = "{\"nodes\": {}, \"root\": \"root\", \"version\": 7, \"bogus\": 1}";
    let err = FlakeLock::new(text).unwrap_err();
    assert_eq!(err.message(), "malformed flake.lock: unknown field `bogus`");
}
