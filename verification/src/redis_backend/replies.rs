//! What Redis replies mean.
//!
//! A reply is a `redis::Value`, which is converted with that crate's own
//! conversions. What the conversions return is then judged here.

use redis::FromRedisValue;
use vstd::prelude::*;
use vstd::string::StringExecFns;

use crate::redis_backend::codec::ReverseMember;
use crate::status::{Code, RpcStatus};

verus! {

/// A reply of the store, carried without being looked into.
#[verifier::external_type_specification]
#[verifier::external_body]
pub struct ExRedisValue(redis::Value);

/// A failure of the store, carried without being looked into.
#[verifier::external_type_specification]
#[verifier::external_body]
pub struct ExRedisError(redis::RedisError);

/// What `i64::from_redis_value` makes of a reply; `None` when it refuses.
pub uninterp spec fn reply_integer(reply: redis::Value) -> Option<i64>;

/// What `Vec::<i64>::from_redis_value` makes of a reply; `None` when it
/// refuses.
pub uninterp spec fn reply_integers(reply: redis::Value) -> Option<Seq<i64>>;

/// What `Option::<i64>::from_redis_value` makes of a reply; `None` when it
/// refuses.
pub uninterp spec fn reply_optional_integer(reply: redis::Value) -> Option<Option<i64>>;

/// What `Vec::<String>::from_redis_value` makes of a reply; `None` when it
/// refuses.
pub uninterp spec fn reply_texts(reply: redis::Value) -> Option<Seq<Seq<char>>>;

/// The reply behind the attributes of a reply, which is the reply itself where
/// it has none.
pub uninterp spec fn reply_data(reply: redis::Value) -> redis::Value;

/// Whether a reply equals `redis::Value::Map` without entries.
pub uninterp spec fn reply_is_empty_map(reply: redis::Value) -> bool;

/// What `<(u64, Vec<String>)>::from_redis_value` makes of a reply; `None` when
/// it refuses.
pub uninterp spec fn reply_page(reply: redis::Value) -> Option<(u64, Seq<Seq<char>>)>;

/// What `<(String, i64, i64, String, u32)>::from_redis_value` makes of a
/// reply; `None` when it refuses.
pub uninterp spec fn reply_registry_entry(reply: redis::Value) -> Option<
    (Seq<char>, i64, i64, Seq<char>, u32),
>;

/// Calls `i64::from_redis_value`: the number in a reply, or an error.
#[verifier::external_body]
fn decode_integer(reply: &redis::Value) -> (r: Result<i64, redis::RedisError>)
    ensures
        match r {
            Ok(v) => reply_integer(*reply) == Some(v),
            Err(_) => reply_integer(*reply) is None,
        },
{
    i64::from_redis_value(reply)
}

/// Calls `Vec::<i64>::from_redis_value`: the numbers in a reply, or an error.
#[verifier::external_body]
fn decode_integers(reply: &redis::Value) -> (r: Result<Vec<i64>, redis::RedisError>)
    ensures
        match r {
            Ok(v) => reply_integers(*reply) == Some(v@),
            Err(_) => reply_integers(*reply) is None,
        },
{
    Vec::<i64>::from_redis_value(reply)
}

/// Calls `Option::<i64>::from_redis_value`: a number, nothing, or an error.
#[verifier::external_body]
fn decode_optional_integer(reply: &redis::Value) -> (r: Result<Option<i64>, redis::RedisError>)
    ensures
        match r {
            Ok(v) => reply_optional_integer(*reply) == Some(v),
            Err(_) => reply_optional_integer(*reply) is None,
        },
{
    Option::<i64>::from_redis_value(reply)
}

/// Calls `Vec::<String>::from_redis_value`: the texts in a reply, or an error.
#[verifier::external_body]
fn decode_texts(reply: &redis::Value) -> (r: Result<Vec<String>, redis::RedisError>)
    ensures
        match r {
            Ok(v) => reply_texts(*reply) == Some(crate::text::texts(v@)),
            Err(_) => reply_texts(*reply) is None,
        },
{
    Vec::<String>::from_redis_value(reply)
}

/// Takes the field `data` out of a `redis::Value::Attribute`; any other reply
/// is handed back.
#[verifier::external_body]
fn data_of(reply: &redis::Value) -> (r: &redis::Value)
    ensures
        *r == reply_data(*reply),
{
    match reply {
        redis::Value::Attribute { data, attributes: _ } => data.as_ref(),
        other => other,
    }
}

/// Calls `redis::Value::eq` with a map that has no entries.
#[verifier::external_body]
fn is_empty_map(reply: &redis::Value) -> (r: bool)
    ensures
        r == reply_is_empty_map(*reply),
{
    *reply == redis::Value::Map(Vec::new())
}

/// Calls `<(u64, Vec<String>)>::from_redis_value`: the cursor and the members
/// of a scanned page, or an error. That conversion panics on a map without
/// entries, with attributes or without.
#[verifier::external_body]
fn decode_page(reply: &redis::Value) -> (r: Result<(u64, Vec<String>), redis::RedisError>)
    requires
        !reply_is_empty_map(reply_data(*reply)),
    ensures
        match r {
            Ok((cursor, members)) => reply_page(*reply) == Some(
                (cursor, crate::text::texts(members@)),
            ),
            Err(_) => reply_page(*reply) is None,
        },
{
    <(u64, Vec<String>)>::from_redis_value(reply)
}

/// Calls `<(String, i64, i64, String, u32)>::from_redis_value`: the fields of a
/// registry entry, or an error.
#[verifier::external_body]
fn decode_registry_entry(reply: &redis::Value) -> (r: Result<
    (String, i64, i64, String, u32),
    redis::RedisError,
>)
    ensures
        match r {
            Ok((address, alive, generation, spec, dp_rank)) => reply_registry_entry(*reply)
                == Some((address@, alive, generation, spec@, dp_rank)),
            Err(_) => reply_registry_entry(*reply) is None,
        },
{
    <(String, i64, i64, String, u32)>::from_redis_value(reply)
}

/// Calls `redis::RedisError::to_string`. Nothing is claimed of the text: that
/// of an I/O failure is the operating system's.
#[verifier::external_body]
pub fn error_text(error: &redis::RedisError) -> (r: String)
{
    error.to_string()
}

/// The status that reports a failure of the store.
pub open spec fn store_failure(detail: Seq<char>) -> crate::status::StatusView {
    crate::status::status(Code::Unavailable, "redis backend error: "@ + detail)
}

/// Whether a status reports an error of the store in that error's words.
pub open spec fn reports(status: RpcStatus, error: redis::RedisError) -> bool {
    exists|detail: String| #[trigger]
        call_ensures(error_text, (&error,), detail) && status@ == store_failure(detail@)
}

/// Whether a status reports some error of the store.
pub open spec fn is_store_failure(status: RpcStatus) -> bool {
    exists|error: redis::RedisError| #[trigger] reports(status, error)
}

/// The refusal of a reply that is no page of a scan.
pub open spec fn no_page() -> crate::status::StatusView {
    store_failure("not a page of a scan"@)
}

/// Reports a failure of the store in the given words.
pub fn store_unavailable(detail: &str) -> (r: RpcStatus)
    ensures
        r@ == store_failure(detail@),
{
    let mut message = "redis backend error: ".to_owned();
    message.append(detail);
    RpcStatus::unavailable(message)
}

/// Reports a failure of the store in the words of its error.
pub fn to_status(error: redis::RedisError) -> (r: RpcStatus)
    ensures
        reports(r, error),
{
    let detail = error_text(&error);
    let status = store_unavailable(detail.as_str());
    assert(call_ensures(error_text, (&error,), detail));
    status
}

/// What a script that answers with a pair answered.
pub open spec fn pair_of(values: Seq<i64>) -> Option<(i64, i64)> {
    if values.len() >= 2 {
        Some((values[0], values[1]))
    } else {
        None
    }
}

/// The first two of the numbers that a script answered with.
pub fn first_pair(values: &Vec<i64>) -> (r: Result<(i64, i64), RpcStatus>)
    ensures
        match r {
            Ok(pair) => pair_of(values@) == Some(pair),
            Err(e) => pair_of(values@) is None && e@ == crate::status::status(
                Code::Internal,
                "invalid Redis script response"@,
            ),
        },
{
    if values.len() >= 2 {
        Ok((values[0], values[1]))
    } else {
        Err(RpcStatus::internal("invalid Redis script response"))
    }
}

/// Reads the reply of a script that answers with a pair.
pub fn script_pair(reply: &redis::Value) -> (r: Result<(i64, i64), RpcStatus>)
    ensures
        match reply_integers(*reply) {
            Some(values) => match pair_of(values) {
                Some(pair) => r == Ok::<_, RpcStatus>(pair),
                None => r matches Err(e) && e@ == crate::status::status(
                    Code::Internal,
                    "invalid Redis script response"@,
                ),
            },
            None => r matches Err(e) && is_store_failure(e),
        },
{
    match decode_integers(reply) {
        Ok(values) => first_pair(&values),
        Err(error) => Err(to_status(error)),
    }
}

/// Reads the reply of a script that answers with one status number.
pub fn script_status(reply: &redis::Value) -> (r: Result<i64, RpcStatus>)
    ensures
        match reply_integer(*reply) {
            Some(value) => r == Ok::<_, RpcStatus>(value),
            None => r matches Err(e) && is_store_failure(e),
        },
{
    match decode_integer(reply) {
        Ok(value) => Ok(value),
        Err(error) => Err(to_status(error)),
    }
}

/// Refuses a negative script status: the worker's generation moved on.
pub fn require_current(status: i64, message: &str) -> (r: Result<(), RpcStatus>)
    ensures
        status >= 0 <==> r is Ok,
        r matches Err(e) ==> e@ == crate::status::status(Code::FailedPrecondition, message@),
{
    if status >= 0 {
        Ok(())
    } else {
        Err(RpcStatus::failed_precondition(message.to_owned()))
    }
}

/// Reads a worker's stored sequence number, `-1` when none has been stored.
pub fn stored_seq(reply: &redis::Value) -> (r: Result<i64, RpcStatus>)
    ensures
        match reply_optional_integer(*reply) {
            Some(Some(value)) => r == Ok::<_, RpcStatus>(value),
            Some(None) => r matches Ok(v) && v == -1,
            None => r matches Err(e) && is_store_failure(e),
        },
{
    match decode_optional_integer(reply) {
        Ok(Some(value)) => Ok(value),
        Ok(None) => Ok(-1),
        Err(error) => Err(to_status(error)),
    }
}

/// Reads a block's hit counter, `None` when it has none.
pub fn hit_count(reply: &redis::Value) -> (r: Result<Option<i64>, RpcStatus>)
    ensures
        match reply_optional_integer(*reply) {
            Some(count) => r == Ok::<_, RpcStatus>(count),
            None => r matches Err(e) && is_store_failure(e),
        },
{
    match decode_optional_integer(reply) {
        Ok(count) => Ok(count),
        Err(error) => Err(to_status(error)),
    }
}

/// One worker's entry in a block's placement.
#[derive(Debug)]
pub struct PlacementOwner {
    pub worker: String,
    pub generation: i64,
    pub mask: i64,
}

/// The model of a [`PlacementOwner`].
pub struct OwnerView {
    pub worker: Seq<char>,
    pub generation: i64,
    pub mask: i64,
}

impl View for PlacementOwner {
    type V = OwnerView;

    open spec fn view(&self) -> OwnerView {
        OwnerView { worker: self.worker@, generation: self.generation, mask: self.mask }
    }
}

/// The models of a block's owners.
pub open spec fn owner_views(owners: Seq<PlacementOwner>) -> Seq<OwnerView> {
    owners.map_values(|o: PlacementOwner| o@)
}

/// The owners that a flat list of worker and value pairs writes. A worker
/// without a value is dropped.
pub open spec fn listed_owners(flat: Seq<Seq<char>>) -> Seq<OwnerView> {
    Seq::new(
        flat.len() / 2,
        |i: int|
            {
                let parts = crate::redis_backend::codec::placement_parts(flat[2 * i + 1]);
                OwnerView { worker: flat[2 * i], generation: parts.0, mask: parts.1 }
            },
    )
}

/// Pairs up a flat list of workers and placement values.
pub fn owners_from_list(flat: &Vec<String>) -> (r: Vec<PlacementOwner>)
    ensures
        owner_views(r@) == listed_owners(crate::text::texts(flat@)),
{
    let ghost all = crate::text::texts(flat@);
    let mut owners: Vec<PlacementOwner> = Vec::new();
    let mut i: usize = 0;
    while i + 1 < flat.len()
        invariant
            i <= flat@.len(),
            i == 2 * owners@.len(),
            all == crate::text::texts(flat@),
            owner_views(owners@) == listed_owners(all).take(owners@.len() as int),
        decreases flat@.len() - i,
    {
        let ghost before = owners@;
        let (generation, mask) = crate::redis_backend::codec::parse_placement_value(
            flat[i + 1].as_str(),
        );
        owners.push(PlacementOwner { worker: flat[i].clone(), generation, mask });
        i = i + 2;
        assert(owner_views(owners@) =~= listed_owners(all).take(owners@.len() as int)) by {
            assert(owner_views(owners@) =~= owner_views(before).push(owners@.last()@));
        }
    }
    assert(owner_views(owners@) =~= listed_owners(all));
    owners
}

/// Reads a block's placement.
pub fn placement_from_reply(reply: &redis::Value) -> (r: Result<Vec<PlacementOwner>, RpcStatus>)
    ensures
        match reply_texts(*reply) {
            Some(flat) => r matches Ok(owners) && owner_views(owners@) == listed_owners(flat),
            None => r matches Err(e) && is_store_failure(e),
        },
{
    match decode_texts(reply) {
        Ok(flat) => Ok(owners_from_list(&flat)),
        Err(error) => Err(to_status(error)),
    }
}

/// A worker's registry entry, as read for a match.
#[derive(Debug)]
pub struct WorkerView {
    pub address: String,
    pub alive: bool,
    pub generation: i64,
    /// Stored hash spec, empty when the worker never reported one.
    pub spec: String,
    pub dp_rank: u32,
}

/// The model of a [`WorkerView`].
pub struct RegistryView {
    pub address: Seq<char>,
    pub alive: bool,
    pub generation: i64,
    pub spec: Seq<char>,
    pub dp_rank: u32,
}

impl View for WorkerView {
    type V = RegistryView;

    open spec fn view(&self) -> RegistryView {
        RegistryView {
            address: self.address@,
            alive: self.alive,
            generation: self.generation,
            spec: self.spec@,
            dp_rank: self.dp_rank,
        }
    }
}

/// The models of several registry entries.
pub open spec fn registry_views(views: Seq<WorkerView>) -> Seq<RegistryView> {
    views.map_values(|v: WorkerView| v@)
}

/// Reads a worker's registry entry.
pub fn worker_from_reply(reply: &redis::Value) -> (r: Result<WorkerView, RpcStatus>)
    ensures
        match reply_registry_entry(*reply) {
            Some((address, alive, generation, spec, dp_rank)) => r matches Ok(view) && view@ == (
            RegistryView { address, alive: alive == 1, generation, spec, dp_rank }),
            None => r matches Err(e) && is_store_failure(e),
        },
{
    match decode_registry_entry(reply) {
        Ok((address, alive, generation, spec, dp_rank)) => Ok(
            WorkerView { address, alive: alive == 1, generation, spec, dp_rank },
        ),
        Err(error) => Err(to_status(error)),
    }
}

/// The models of several reverse index entries.
pub open spec fn member_views(members: Seq<ReverseMember>) -> Seq<
    crate::redis_backend::codec::ReverseMemberView,
> {
    members.map_values(|m: ReverseMember| m@)
}

/// The reverse index entries that a page of texts writes.
pub open spec fn parsed_members(page: Seq<Seq<char>>) -> Seq<
    crate::redis_backend::codec::ReverseMemberView,
> {
    page.map_values(|t: Seq<char>| crate::redis_backend::codec::parsed_member(t))
}

/// Reads the entries of a page.
pub fn members_from_page(page: Vec<String>) -> (r: Vec<ReverseMember>)
    ensures
        member_views(r@) == parsed_members(crate::text::texts(page@)),
{
    let mut members: Vec<ReverseMember> = Vec::new();
    let mut i: usize = 0;
    while i < page.len()
        invariant
            i <= page@.len(),
            i == members@.len(),
            forall|k: int|
                0 <= k < i ==> (#[trigger] members@[k])@
                    == crate::redis_backend::codec::parsed_member(page@[k]@),
        decreases page@.len() - i,
    {
        members.push(ReverseMember::parse(page[i].clone()));
        i = i + 1;
    }
    assert(member_views(members@) =~= parsed_members(crate::text::texts(page@)));
    members
}

/// Reads one scanned page of a worker's reverse index: the next cursor, `0`
/// once the iteration is complete, and the entries.
pub fn page_from_reply(reply: &redis::Value) -> (r: Result<
    (u64, Vec<ReverseMember>),
    RpcStatus,
>)
    ensures
        if reply_is_empty_map(reply_data(*reply)) {
            r matches Err(e) && e@ == no_page()
        } else {
            match reply_page(*reply) {
                Some((cursor, page)) => r matches Ok((next, members)) && next == cursor
                    && member_views(members@) == parsed_members(page),
                None => r matches Err(e) && is_store_failure(e),
            }
        },
{
    if is_empty_map(data_of(reply)) {
        return Err(store_unavailable("not a page of a scan"));
    }
    match decode_page(reply) {
        Ok((next, page)) => Ok((next, members_from_page(page))),
        Err(error) => Err(to_status(error)),
    }
}

} // verus!
