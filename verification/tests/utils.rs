use torb::utils::{
    checksum, hash_of, kebab_to_snake_case, normalize_name, resource_kind_among,
    snake_case_to_kebab, CommandConfig, PrettyContext, ResourceKind, TorbUtilityErrors,
};

#[test]
fn kebab_and_snake_case() {
    assert_eq!(kebab_to_snake_case("my-stack-name"), "my_stack_name");
    assert_eq!(kebab_to_snake_case("plain"), "plain");
    assert_eq!(snake_case_to_kebab("my_stack_name"), "my-stack-name");
    assert_eq!(snake_case_to_kebab("a-b_c"), "a-b-c");
}

#[test]
fn normalize_name_makes_an_identifier() {
    assert_eq!(normalize_name("My Stack-v1.2/beta"), "my_stack_v1_2beta");
    assert_eq!(normalize_name("already_fine"), "already_fine");
    assert_eq!(normalize_name("ÄB"), "äb");
}

#[test]
fn hash_is_base32_of_sha256() {
    assert_eq!(
        hash_of("abc"),
        "XJ4BNP4PAHH6UQKBIDPF3LRCEOYAGYNDSYLXVHFUCD7WD4QACWWQ===="
    );
    assert_eq!(
        hash_of(""),
        "4OYMIQUY7QOBJGX36TEJS35ZEQT24QPEMSNZGTFESWMRW6CSXBKQ===="
    );
}

#[test]
fn checksum_compares_with_the_hash() {
    let hash = hash_of("content");
    assert!(checksum("content".to_string(), hash.clone()));
    assert!(!checksum("other content".to_string(), hash));
    assert!(!checksum("content".to_string(), "content".to_string()));
}

#[test]
fn resource_kind_is_picked_by_name() {
    let items = vec![
        ("api".to_string(), "Deployment".to_string()),
        ("db".to_string(), "StatefulSet".to_string()),
        ("agent".to_string(), "DaemonSet".to_string()),
        ("job".to_string(), "CronJob".to_string()),
    ];
    assert_eq!(resource_kind_among("api", &items), Ok(ResourceKind::Deployment));
    assert_eq!(resource_kind_among("db", &items), Ok(ResourceKind::StatefulSet));
    assert_eq!(resource_kind_among("agent", &items), Ok(ResourceKind::DaemonSet));
    assert_eq!(resource_kind_among("job", &items), Err(TorbUtilityErrors::UnsupportedKind));
    assert_eq!(resource_kind_among("none", &items), Err(TorbUtilityErrors::ResourceNotFound));
}

#[test]
fn the_last_resource_of_a_name_counts() {
    let items = vec![
        ("api".to_string(), "Deployment".to_string()),
        ("api".to_string(), "StatefulSet".to_string()),
    ];
    assert_eq!(resource_kind_among("api", &items), Ok(ResourceKind::StatefulSet));
}

#[test]
fn utility_error_messages() {
    assert_eq!(TorbUtilityErrors::ResourceNotFound.message(), "Resource not found.");
    assert_eq!(
        TorbUtilityErrors::UnsupportedKind.message(),
        "Resource did not match Torb supported Kind, supported: StatefulSet, Deployment, DaemonSet"
    );
    assert_eq!(
        TorbUtilityErrors::UnableToRunCommand {
            command: "ls".to_string(),
            reason: "no".to_string()
        }
        .message(),
        "Unable to run this command:\n\nls, \n\nbecause of this reason: \n\nno"
    );
    assert_eq!(
        TorbUtilityErrors::UnableToRunCommandInShell {
            command: "ls".to_string(),
            shell: "sh".to_string(),
            reason: "no".to_string()
        }
        .message(),
        "Unable to run this command:\n\nls, \n\nShell: sh, \n\nReason:\n\nno"
    );
}

#[test]
fn command_config_holds_what_it_is_given() {
    let config = CommandConfig::new("docker", vec!["build", "."], Some("/tmp"));
    assert_eq!(config.command, "docker");
    assert_eq!(config.args, vec!["build", "."]);
    assert_eq!(config.working_dir, Some("/tmp"));
}

#[test]
fn pretty_context_is_built_step_by_step() {
    let mut context = PrettyContext::default();
    assert_eq!(context.success_marquee_msg, None);
    assert_eq!(context.error_context, "");
    let built = context
        .success("done")
        .error("failed")
        .context("while building")
        .suggestions(vec!["retry", "report"])
        .warn("careful")
        .pretty();
    assert_eq!(built.success_marquee_msg, Some("done"));
    assert_eq!(built.error_marquee_msg, Some("failed"));
    assert_eq!(built.error_context, "while building");
    assert_eq!(built.suggestions, vec!["retry", "report"]);
    assert_eq!(built.warning, Some("careful"));
    assert_eq!(context, built);
}
