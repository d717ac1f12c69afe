//! How the Redis backend is configured.

use vstd::prelude::*;
use vstd::string::StringExecFns;

verus! {

/// Key prefix where none is configured: `kvidx`.
pub open spec fn default_namespace() -> Seq<char> {
    "kvidx"@
}

/// How many seconds a worker stays alive without a sign of life, where nothing
/// is configured.
pub const DEFAULT_WORKER_TTL_SECS: u64 = 120;

/// The values of the environment variables; `None` for one that is not set.
#[derive(Debug)]
pub struct Environment {
    /// `KV_INDEXER_REDIS_NAMESPACE`
    pub namespace: Option<String>,
    /// `KV_INDEXER_REDIS_REQUIRED`
    pub required: Option<String>,
    /// `KV_INDEXER_WORKER_TTL_SECS`
    pub worker_ttl_secs: Option<String>,
    /// `KV_INDEXER_REDIS_CLUSTER_NODES`
    pub cluster_nodes: Option<String>,
    /// `KV_INDEXER_REDIS_URL`
    pub url: Option<String>,
}

/// Which store to connect to.
#[derive(Debug, PartialEq, Eq)]
pub enum Target {
    /// One instance, by its URL.
    Single(String),
    /// A cluster, by the URLs of its seed nodes.
    Cluster(Vec<String>),
}

/// The model of a [`Target`].
pub enum TargetView {
    Single(Seq<char>),
    Cluster(Seq<Seq<char>>),
}

impl View for Target {
    type V = TargetView;

    open spec fn view(&self) -> TargetView {
        match self {
            Target::Single(url) => TargetView::Single(url@),
            Target::Cluster(nodes) => TargetView::Cluster(crate::text::texts(nodes@)),
        }
    }
}

/// The settings of the Redis backend.
#[derive(Debug, PartialEq, Eq)]
pub struct Settings {
    pub namespace: String,
    /// Whether startup fails when the store cannot be reached.
    pub required: bool,
    /// How long a worker stays alive without a sign of life, for ever if `None`.
    pub worker_ttl_secs: Option<u64>,
    pub target: Target,
}

/// The model of [`Settings`].
pub struct SettingsView {
    pub namespace: Seq<char>,
    pub required: bool,
    pub worker_ttl_secs: Option<u64>,
    pub target: TargetView,
}

impl View for Settings {
    type V = SettingsView;

    open spec fn view(&self) -> SettingsView {
        SettingsView {
            namespace: self.namespace@,
            required: self.required,
            worker_ttl_secs: self.worker_ttl_secs,
            target: self.target@,
        }
    }
}

/// What is wrong with the environment.
#[derive(Debug, PartialEq, Eq)]
pub enum SettingsError {
    /// The time to live is not a number of seconds.
    BadWorkerTtl(String),
    /// Cluster nodes are configured, but none is named.
    NoClusterNodes,
    /// Neither cluster nodes nor a URL are configured.
    NoTarget,
}

/// The model of a [`SettingsError`].
pub enum SettingsErrorView {
    BadWorkerTtl(Seq<char>),
    NoClusterNodes,
    NoTarget,
}

impl View for SettingsError {
    type V = SettingsErrorView;

    open spec fn view(&self) -> SettingsErrorView {
        match self {
            SettingsError::BadWorkerTtl(value) => SettingsErrorView::BadWorkerTtl(value@),
            SettingsError::NoClusterNodes => SettingsErrorView::NoClusterNodes,
            SettingsError::NoTarget => SettingsErrorView::NoTarget,
        }
    }
}

/// A text in quotes, as `str`'s `Debug` writes it.
pub uninterp spec fn quoted(text: Seq<char>) -> Seq<char>;

/// Formats a text with the `Debug` of `str`, which puts it in quotes and escapes
/// what cannot stand in them.
#[verifier::external_body]
fn quote(text: &str) -> (r: String)
    ensures
        r@ == quoted(text@),
{
    format!("{:?}", text)
}

/// What is wrong, in words.
pub open spec fn complaint(error: SettingsErrorView) -> Seq<char> {
    match error {
        SettingsErrorView::BadWorkerTtl(value) =>
            "KV_INDEXER_WORKER_TTL_SECS must be a non-negative integer, got "@ + quoted(value),
        SettingsErrorView::NoClusterNodes => "KV_INDEXER_REDIS_CLUSTER_NODES is empty"@,
        SettingsErrorView::NoTarget =>
            "KV_INDEXER_REDIS_URL (or KV_INDEXER_REDIS_CLUSTER_NODES) is required for the redis backend"@,
    }
}

impl SettingsError {
    /// What is wrong, in words.
    pub fn message(&self) -> (r: String)
        ensures
            r@ == complaint(self@),
    {
        match self {
            SettingsError::BadWorkerTtl(value) => {
                let mut message =
                    "KV_INDEXER_WORKER_TTL_SECS must be a non-negative integer, got ".to_owned();
                message.append(quote(value.as_str()).as_str());
                message
            },
            SettingsError::NoClusterNodes => "KV_INDEXER_REDIS_CLUSTER_NODES is empty".to_owned(),
            SettingsError::NoTarget =>
                "KV_INDEXER_REDIS_URL (or KV_INDEXER_REDIS_CLUSTER_NODES) is required for the redis backend".to_owned(),
        }
    }
}

/// The model of an optional text.
pub open spec fn optional_text(value: Option<String>) -> Option<Seq<char>> {
    match value {
        Some(text) => Some(text@),
        None => None,
    }
}

/// The configured time to live in seconds; 0 stands for none at all.
pub open spec fn ttl_of(value: Option<Seq<char>>) -> Result<Option<u64>, SettingsErrorView> {
    match value {
        Some(text) => match crate::text::parsed_u64(crate::text::trimmed(text)) {
            Some(secs) => Ok(
                if secs > 0 {
                    Some(secs)
                } else {
                    None
                },
            ),
            None => Err(SettingsErrorView::BadWorkerTtl(text)),
        },
        None => Ok(Some(DEFAULT_WORKER_TTL_SECS)),
    }
}

/// Reads the configured time to live.
pub fn parse_worker_ttl(value: &Option<String>) -> (r: Result<Option<u64>, SettingsError>)
    ensures
        match ttl_of(optional_text(*value)) {
            Ok(ttl) => r == Ok::<Option<u64>, SettingsError>(ttl),
            Err(error) => r matches Err(e) && e@ == error,
        },
{
    match value {
        Some(text) => match crate::text::parse_u64(crate::text::trim(text.as_str())) {
            Some(secs) => Ok(
                if secs > 0 {
                    Some(secs)
                } else {
                    None
                },
            ),
            None => Err(SettingsError::BadWorkerTtl(text.clone())),
        },
        None => Ok(Some(DEFAULT_WORKER_TTL_SECS)),
    }
}

/// The configured target. Cluster nodes take precedence over a single URL.
pub open spec fn target_of(nodes: Option<Seq<char>>, url: Option<Seq<char>>) -> Result<
    TargetView,
    SettingsErrorView,
> {
    match (nodes, url) {
        (Some(list), _) => {
            let items = crate::text::list_items(list, ',');
            if items.len() == 0 {
                Err(SettingsErrorView::NoClusterNodes)
            } else {
                Ok(TargetView::Cluster(items))
            }
        },
        (None, Some(url)) => Ok(TargetView::Single(url)),
        (None, None) => Err(SettingsErrorView::NoTarget),
    }
}

/// Reads the configured target.
pub fn parse_target(nodes: &Option<String>, url: &Option<String>) -> (r: Result<
    Target,
    SettingsError,
>)
    ensures
        match target_of(optional_text(*nodes), optional_text(*url)) {
            Ok(target) => r matches Ok(t) && t@ == target,
            Err(error) => r matches Err(e) && e@ == error,
        },
{
    match nodes {
        Some(list) => {
            let items = crate::text::split_list(list.as_str(), ',');
            assert(crate::text::texts(items@).len() == items@.len());
            if items.len() == 0 {
                Err(SettingsError::NoClusterNodes)
            } else {
                Ok(Target::Cluster(items))
            }
        },
        None => match url {
            Some(url) => Ok(Target::Single(url.clone())),
            None => Err(SettingsError::NoTarget),
        },
    }
}

/// The settings that an environment writes. What is wrong with the time to live
/// is found before what is wrong with the target.
pub open spec fn settings_of(env: Environment) -> Result<SettingsView, SettingsErrorView> {
    match ttl_of(optional_text(env.worker_ttl_secs)) {
        Err(error) => Err(error),
        Ok(worker_ttl_secs) => match target_of(
            optional_text(env.cluster_nodes),
            optional_text(env.url),
        ) {
            Err(error) => Err(error),
            Ok(target) => Ok(
                SettingsView {
                    namespace: match optional_text(env.namespace) {
                        Some(namespace) => namespace,
                        None => default_namespace(),
                    },
                    required: optional_text(env.required) != Some("0"@),
                    worker_ttl_secs,
                    target,
                },
            ),
        },
    }
}

/// Reads the settings from the environment.
pub fn read_settings(env: &Environment) -> (r: Result<Settings, SettingsError>)
    ensures
        match settings_of(*env) {
            Ok(settings) => r matches Ok(s) && s@ == settings,
            Err(error) => r matches Err(e) && e@ == error,
        },
{
    let namespace = match &env.namespace {
        Some(namespace) => namespace.clone(),
        None => "kvidx".to_owned(),
    };
    let required = match &env.required {
        Some(value) => !crate::text::same_text(value.as_str(), "0"),
        None => true,
    };
    let worker_ttl_secs = match parse_worker_ttl(&env.worker_ttl_secs) {
        Ok(ttl) => ttl,
        Err(e) => {
            return Err(e);
        },
    };
    match parse_target(&env.cluster_nodes, &env.url) {
        Ok(target) => Ok(Settings { namespace, required, worker_ttl_secs, target }),
        Err(e) => Err(e),
    }
}

/// How many workers' locks are kept before those that nobody holds are dropped.
pub const WORKER_LOCKS_KEPT: usize = 1024;

/// How the lock of a worker is found.
#[derive(Debug, Clone, Copy, PartialEq, Eq, Structural)]
pub enum LockAction {
    /// Somebody holds one: it is shared.
    Share,
    /// A new one is entered.
    Enter,
    /// Locks that nobody holds are dropped, then a new one is entered.
    PruneAndEnter,
}

/// How the lock of a worker is found, given whether one is held and how many are
/// entered.
pub open spec fn lock_action_of(held: bool, entered: nat) -> LockAction {
    if held {
        LockAction::Share
    } else if entered >= WORKER_LOCKS_KEPT {
        LockAction::PruneAndEnter
    } else {
        LockAction::Enter
    }
}

/// How the lock of a worker is found.
pub fn lock_action(held: bool, entered: usize) -> (r: LockAction)
    ensures
        r == lock_action_of(held, entered as nat),
{
    if held {
        LockAction::Share
    } else if entered >= WORKER_LOCKS_KEPT {
        LockAction::PruneAndEnter
    } else {
        LockAction::Enter
    }
}

/// Where the part of a list that is worked on at once ends.
pub fn fan_out_end(start: usize, len: usize) -> (r: usize)
    requires
        start <= len,
    ensures
        start + crate::redis_backend::scan::REDIS_FANOUT_CHUNK <= len ==> r == start
            + crate::redis_backend::scan::REDIS_FANOUT_CHUNK,
        start + crate::redis_backend::scan::REDIS_FANOUT_CHUNK > len ==> r == len,
{
    if len - start >= crate::redis_backend::scan::REDIS_FANOUT_CHUNK {
        start + crate::redis_backend::scan::REDIS_FANOUT_CHUNK
    } else {
        len
    }
}

} // verus!
