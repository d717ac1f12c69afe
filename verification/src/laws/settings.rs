//! What the environment configures.

use vstd::prelude::*;

use crate::redis_backend::settings::{
    fan_out_end, lock_action, parse_target, parse_worker_ttl, read_settings, Environment,
    LockAction, Settings, SettingsError, Target,
};

verus! {

/// A time to live is a number of seconds, with white space around it or not; 120
/// where nothing is configured, and none at all where it is 0.
pub proof fn a_time_to_live_is_a_number_of_seconds(
    value: Option<String>,
    text: &str,
    trimmed: &str,
    number: Option<u64>,
    r: Result<Option<u64>, SettingsError>,
)
    requires
        call_ensures(parse_worker_ttl, (&value,), r),
        value is Some ==> text@ == value->0@,
        call_ensures(crate::text::trim, (text,), trimmed),
        call_ensures(crate::text::parse_u64, (trimmed,), number),
    ensures
        value is None ==> r is Ok && r->Ok_0 == Some(120u64),
        value is Some && number is None ==> r is Err && r->Err_0 is BadWorkerTtl
            && r->Err_0->BadWorkerTtl_0@ == value->0@,
        value is Some && number is Some && number->0 > 0 ==> r is Ok && r->Ok_0 == number,
        value is Some && number is Some && number->0 == 0 ==> r is Ok && r->Ok_0 is None,
{
}

/// Cluster nodes are a list with commas, and take precedence over a URL. One of
/// the two is needed.
pub proof fn nodes_take_precedence_over_a_url(
    nodes: Option<String>,
    url: Option<String>,
    list: &str,
    items: Vec<String>,
    r: Result<Target, SettingsError>,
)
    requires
        call_ensures(parse_target, (&nodes, &url), r),
        nodes is Some ==> list@ == nodes->0@,
        call_ensures(crate::text::split_list, (list, ','), items),
    ensures
        nodes is Some && items@.len() == 0 ==> r is Err && r->Err_0 is NoClusterNodes,
        nodes is Some && items@.len() > 0 ==> r is Ok && r->Ok_0 is Cluster
            && r->Ok_0->Cluster_0@.map_values(|t: String| t@) == items@.map_values(|t: String| t@),
        nodes is None && url is Some ==> r is Ok && r->Ok_0 is Single && r->Ok_0->Single_0@
            == url->0@,
        nodes is None && url is None ==> r is Err && r->Err_0 is NoTarget,
{
    assert(crate::text::texts(items@).len() == items@.len());
    assert(crate::text::texts(items@) =~= items@.map_values(|t: String| t@));
    if nodes is Some && items@.len() > 0 {
        assert(crate::text::texts(r->Ok_0->Cluster_0@) =~= r->Ok_0->Cluster_0@.map_values(
            |t: String| t@,
        ));
    }
}

/// The settings are what the environment writes: the namespace `kvidx` where none
/// is named, a store that is required unless that is switched off by `0`, the time
/// to live and the target. What is wrong with the time to live is told first.
pub proof fn the_environment_is_read_as_it_is(
    env: Environment,
    r: Result<Settings, SettingsError>,
    ttl: Result<Option<u64>, SettingsError>,
    target: Result<Target, SettingsError>,
)
    requires
        call_ensures(read_settings, (&env,), r),
        call_ensures(parse_worker_ttl, (&env.worker_ttl_secs,), ttl),
        call_ensures(parse_target, (&env.cluster_nodes, &env.url), target),
    ensures
        ttl is Err ==> r is Err && r->Err_0@ == ttl->Err_0@,
        ttl is Ok && target is Err ==> r is Err && r->Err_0@ == target->Err_0@,
        ttl is Ok && target is Ok ==> r is Ok && r->Ok_0.worker_ttl_secs == ttl->Ok_0
            && r->Ok_0.target@ == target->Ok_0@ && (env.namespace is Some ==> r->Ok_0.namespace@
            == env.namespace->0@) && (env.namespace is None ==> r->Ok_0.namespace@ == "kvidx"@) && (
        env.required is None ==> r->Ok_0.required) && (env.required is Some ==> (
        r->Ok_0.required <==> env.required->0@ != "0"@)),
{
}

/// What is wrong with the environment is told in words.
pub proof fn bad_settings_are_told_in_words(error: SettingsError, r: String)
    requires
        call_ensures(SettingsError::message, (&error,), r),
    ensures
        error is BadWorkerTtl ==> r@
            == "KV_INDEXER_WORKER_TTL_SECS must be a non-negative integer, got "@
            + crate::redis_backend::settings::quoted(error->BadWorkerTtl_0@),
        error is NoClusterNodes ==> r@ == "KV_INDEXER_REDIS_CLUSTER_NODES is empty"@,
        error is NoTarget ==> r@
            == "KV_INDEXER_REDIS_URL (or KV_INDEXER_REDIS_CLUSTER_NODES) is required for the redis backend"@,
{
}

/// A lock that somebody holds is shared. Another one is entered, and with 1024 or
/// more entered those that nobody holds are dropped first.
pub proof fn a_held_lock_is_shared(held: bool, entered: usize, r: LockAction)
    requires
        call_ensures(lock_action, (held, entered), r),
    ensures
        held <==> r is Share,
        !held && entered >= 1024 <==> r is PruneAndEnter,
        !held && entered < 1024 <==> r is Enter,
{
}

/// Work is handed out in parts of 256, the last of which may be shorter.
pub proof fn work_is_handed_out_in_parts(start: usize, len: usize, r: usize)
    requires
        start <= len,
        call_ensures(fan_out_end, (start, len), r),
    ensures
        start + 256 <= len ==> r == start + 256,
        start + 256 > len ==> r == len,
{
}

} // verus!
