//! What the file watcher is told by the stack document.

use crate::node::{display_name_of, ArtifactNodeRepr};
use crate::text::{concat3, copy_strings, texts};
use crate::utils::ResourceKind;
use vstd::prelude::*;

verus! {

/// The watcher's settings: the paths to watch, the interval between two
/// redeployments in milliseconds, and whether a redeployment patches the
/// running stack.
#[derive(Debug, PartialEq)]
pub struct WatcherConfig {
    pub paths: Vec<String>,
    pub interval: u64,
    pub patch: bool,
}

/// What a `WatcherConfig` holds.
pub struct WatcherView {
    pub paths: Seq<Seq<char>>,
    pub interval: u64,
    pub patch: bool,
}

impl View for WatcherConfig {
    type V = WatcherView;

    open spec fn view(&self) -> WatcherView {
        WatcherView { paths: texts(self.paths@), interval: self.interval, patch: self.patch }
    }
}

impl Default for WatcherConfig {
    /// The settings of a stack that gives none: watch the current directory
    /// every three seconds, and patch.
    fn default() -> (config: WatcherConfig)
        ensures
            config@ == (WatcherView { paths: seq!["./"@], interval: 3000, patch: true }),
    {
        let mut paths: Vec<String> = Vec::new();
        paths.push("./".to_owned());
        assert(texts(paths@) =~= seq!["./"@]);
        WatcherConfig { paths, interval: 3000, patch: true }
    }
}

impl WatcherConfig {
    pub fn new(paths: Vec<String>, interval: u64, patch: bool) -> (config: WatcherConfig)
        ensures
            config.paths == paths,
            config.interval == interval,
            config.patch == patch,
    {
        WatcherConfig { paths, interval, patch }
    }

    pub fn duplicate(&self) -> (copy: Self)
        ensures
            copy@ == self@,
    {
        WatcherConfig {
            paths: copy_strings(&self.paths),
            interval: self.interval,
            patch: self.patch,
        }
    }
}

/// What the watcher is told of: a watched file changed, or the interval
/// between two redeployments is over.
#[derive(Debug, PartialEq)]
pub enum WatchEvent {
    Changed,
    Tick,
}

/// What the watcher does next.
#[derive(Debug, PartialEq)]
pub enum WatchAction {
    Wait,
    Redeploy,
}

/// The changes seen since the last redeployment.
#[derive(Debug, PartialEq)]
pub struct ChangeQueue {
    pub pending: u64,
}

impl ChangeQueue {
    pub fn new() -> (queue: ChangeQueue)
        ensures
            queue.pending == 0,
    {
        ChangeQueue { pending: 0 }
    }

    /// Takes in an event: a change is counted; at the end of an interval
    /// the stack is redeployed if anything changed, and the count starts
    /// anew.
    pub fn on(&mut self, event: WatchEvent) -> (action: WatchAction)
        ensures
            match event {
                WatchEvent::Changed => action == WatchAction::Wait && final(self).pending == if old(
                    self,
                ).pending == u64::MAX {
                    u64::MAX
                } else {
                    (old(self).pending + 1) as u64
                },
                WatchEvent::Tick => final(self).pending == 0 && action == if old(self).pending
                    > 0 {
                    WatchAction::Redeploy
                } else {
                    WatchAction::Wait
                },
            },
    {
        match event {
            WatchEvent::Changed => {
                if self.pending < u64::MAX {
                    self.pending = self.pending + 1;
                }
                WatchAction::Wait
            },
            WatchEvent::Tick => {
                let changed = self.pending > 0;
                self.pending = 0;
                if changed {
                    WatchAction::Redeploy
                } else {
                    WatchAction::Wait
                }
            },
        }
    }
}

/// The word for a kind of workload on the command line of the cluster.
pub open spec fn kind_word(kind: ResourceKind) -> Seq<char> {
    match kind {
        ResourceKind::DaemonSet => "daemonset"@,
        ResourceKind::Deployment => "deployment"@,
        ResourceKind::StatefulSet => "statefulset"@,
    }
}

/// The name of the workload of a node in a release: the release and the
/// node's display name in its kebab form.
pub fn resource_name(release: &str, node: &ArtifactNodeRepr) -> (name: String)
    ensures
        name@ == release@ + "-"@ + display_name_of(node@, true),
{
    concat3(release, "-", node.display_name(Some(true)).as_str())
}

/// The arguments that restart the workload of a node.
pub fn rollout_arguments(kind: &ResourceKind, resource_name: &str, namespace: &str) -> (arguments:
    Vec<String>)
    ensures
        texts(arguments@) == seq![
            "rollout"@,
            "restart"@,
            kind_word(*kind),
            resource_name@,
            "--namespace"@,
            namespace@,
        ],
{
    let word = match kind {
        ResourceKind::DaemonSet => "daemonset",
        ResourceKind::Deployment => "deployment",
        ResourceKind::StatefulSet => "statefulset",
    };
    let mut arguments: Vec<String> = Vec::new();
    arguments.push("rollout".to_owned());
    arguments.push("restart".to_owned());
    arguments.push(word.to_owned());
    arguments.push(resource_name.to_owned());
    arguments.push("--namespace".to_owned());
    arguments.push(namespace.to_owned());
    assert(texts(arguments@) =~= seq![
        "rollout"@,
        "restart"@,
        kind_word(*kind),
        resource_name@,
        "--namespace"@,
        namespace@,
    ]);
    arguments
}

} // verus!
