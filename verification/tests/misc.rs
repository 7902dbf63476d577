use torb::animation::{BuilderAnimation, FRAME_HEIGHT};
use torb::composer::TorbComposerErrors;
use torb::deployer::StackDeployer;
use torb::vcs::{or_else, TorbVCSErrors};
use torb::utils::{repository_for, stack_reference, ResourceKind};
use torb::watcher::{ChangeQueue, WatchAction, WatchEvent, WatcherConfig};

#[test]
fn the_environment_lies_below_the_build_state() {
    assert_eq!(
        StackDeployer::new(false).iac_environment_path("/work/.torb_buildstate"),
        "/work/.torb_buildstate/iac_environment"
    );
    assert_eq!(
        StackDeployer::new(true).iac_environment_path("/work/.torb_buildstate"),
        "/work/.torb_buildstate/watcher_iac_environment"
    );
    assert!(StackDeployer::new(true).watcher_patch);
}

#[test]
fn the_watcher_defaults() {
    let config = WatcherConfig::default();
    assert_eq!(config.paths, vec!["./"]);
    assert_eq!(config.interval, 3000);
    assert!(config.patch);
    assert_eq!(config.duplicate(), config);
}

#[test]
fn vcs_messages_and_fallbacks() {
    assert_eq!(
        TorbVCSErrors::UnableToCreateLocalRepoDir {
            path: "/tmp/x".to_string(),
            response: "denied".to_string()
        }
        .message(),
        "Cannot create repo directory at: /tmp/x, reason: denied"
    );
    assert_eq!(
        TorbVCSErrors::UnableToInitLocalGitRepo { response: "r".to_string() }.message(),
        "Unable to init local git repo, reason: r"
    );
    assert_eq!(
        TorbVCSErrors::UnableToSyncRemoteRepo { response: "r".to_string() }.message(),
        "Unable to sync remote repo, reason: r"
    );
    assert_eq!(
        TorbVCSErrors::UnableToPushToRemoteRepo { response: "r".to_string() }.message(),
        "Unable to push to remote repo, reason: r"
    );
    assert_eq!(
        TorbVCSErrors::UnableToInitReadme { response: "r".to_string() }.message(),
        "Unable to push to init readme, reason: r"
    );
    assert_eq!(or_else("", "fallback"), "fallback");
    assert_eq!(or_else("given", "fallback"), "given");
}

#[test]
fn the_animation_rewinds_a_frame() {
    assert_eq!(BuilderAnimation::new().rows_to_rewind(), FRAME_HEIGHT);
    assert_eq!(FRAME_HEIGHT, 16);
}

#[test]
fn composer_error_messages() {
    assert_eq!(
        TorbComposerErrors::NestedArray.message(),
        "Nested array types are not supported."
    );
    assert_eq!(
        TorbComposerErrors::UnknownNode { fqn: "s.service.x".to_string() }.message(),
        "Unable to map input address to node, make sure your mapping is correct: s.service.x"
    );
}

#[test]
fn the_watcher_redeploys_after_an_interval_with_changes() {
    let mut queue = ChangeQueue::new();
    assert_eq!(queue.on(WatchEvent::Tick), WatchAction::Wait);
    assert_eq!(queue.on(WatchEvent::Changed), WatchAction::Wait);
    assert_eq!(queue.on(WatchEvent::Changed), WatchAction::Wait);
    assert_eq!(queue.pending, 2);
    assert_eq!(queue.on(WatchEvent::Tick), WatchAction::Redeploy);
    assert_eq!(queue.pending, 0);
    assert_eq!(queue.on(WatchEvent::Tick), WatchAction::Wait);
    queue.pending = u64::MAX;
    assert_eq!(queue.on(WatchEvent::Changed), WatchAction::Wait);
    assert_eq!(queue.pending, u64::MAX);
}

#[test]
fn the_rollout_of_a_workload() {
    assert_eq!(
        torb::watcher::rollout_arguments(&ResourceKind::StatefulSet, "rel-db", "prod"),
        vec!["rollout", "restart", "statefulset", "rel-db", "--namespace", "prod"]
    );
    assert_eq!(
        torb::watcher::rollout_arguments(&ResourceKind::Deployment, "rel-api", "prod")[2],
        "deployment"
    );
    assert_eq!(
        torb::watcher::rollout_arguments(&ResourceKind::DaemonSet, "rel-agent", "prod")[2],
        "daemonset"
    );
}

#[test]
fn a_stack_reference_names_repository_and_stack() {
    assert_eq!(
        stack_reference("my-repo:flask-app"),
        ("my-repo".to_string(), "flask-app".to_string())
    );
    assert_eq!(stack_reference("flask-app"), (String::new(), "flask-app".to_string()));
    assert_eq!(stack_reference("a:b:c"), ("a".to_string(), "b".to_string()));
    assert_eq!(repository_for("", 1), Some("torb-artifacts".to_string()));
    assert_eq!(repository_for("", 0), Some("torb-artifacts".to_string()));
    assert_eq!(repository_for("", 2), None);
    assert_eq!(repository_for("mine", 2), Some("mine".to_string()));
}
