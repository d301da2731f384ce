use vstd::prelude::*;

verus! {

/// Only methods without a request body are mirrored: replaying a body would
/// need it buffered, and replaying a write twice is not harmless.
pub open spec fn bodiless_method(method: Seq<char>) -> bool {
    method == "GET"@ || method == "HEAD"@
}

/// Why a request was not mirrored.
#[derive(Clone, Copy, Debug, PartialEq, Eq, Structural)]
pub enum DropReason {
    /// Its method may carry a body.
    MethodHasBody,
    /// It was not chosen by the sampling draw.
    NotSampled,
    /// It names no target.
    NoTargets,
    /// The free concurrency slots cannot take every one of its targets.
    OverCapacity,
}

/// What the mirror does with one incoming request.
#[derive(Clone, Copy, Debug, PartialEq, Eq, Structural)]
pub enum Decision {
    /// Send it to every one of its `fan_out` targets, one slot each.
    Mirror { fan_out: usize },
    /// Count it as dropped and send nothing.
    Drop(DropReason),
}

/// The decision for a request, checking in order: method, sampling draw,
/// target list, free capacity. Capacity is all-or-nothing: a request is never
/// sent to only some of its targets.
pub open spec fn decision_for(
    method: Seq<char>,
    sampled: bool,
    target_count: nat,
    available_permits: nat,
) -> Decision {
    if !bodiless_method(method) {
        Decision::Drop(DropReason::MethodHasBody)
    } else if !sampled {
        Decision::Drop(DropReason::NotSampled)
    } else if target_count == 0 {
        Decision::Drop(DropReason::NoTargets)
    } else if available_permits < target_count {
        Decision::Drop(DropReason::OverCapacity)
    } else {
        Decision::Mirror { fan_out: target_count as usize }
    }
}

fn same_text(a: &str, b: &str) -> (r: bool)
    ensures
        r == (a@ == b@),
{
    let a_owned = a.to_owned();
    let b_owned = b.to_owned();
    a_owned == b_owned
}

/// Whether a request with this method token (`"GET"`, `"POST"`, ...) may be
/// mirrored: true exactly for `GET` and `HEAD`.
pub fn is_bodiless(method: &str) -> (r: bool)
    ensures
        r == bodiless_method(method@),
        r == (method@ == "GET"@ || method@ == "HEAD"@),
{
    same_text(method, "GET") || same_text(method, "HEAD")
}

/// Decides what to do with one request.
///
/// `sampled` is the outcome of the sampling draw for this request; it is not
/// looked at when the method already rules the request out.
/// `available_permits` is the number of free concurrency slots.
pub fn decide(method: &str, sampled: bool, target_count: usize, available_permits: usize) -> (d:
    Decision)
    ensures
        d == decision_for(method@, sampled, target_count as nat, available_permits as nat),
        d is Mirror <==> ((method@ == "GET"@ || method@ == "HEAD"@) && sampled && 0 < target_count
            <= available_permits),
        d matches Decision::Mirror { fan_out } ==> fan_out == target_count,
        !(method@ == "GET"@ || method@ == "HEAD"@) ==> d == Decision::Drop(
            DropReason::MethodHasBody,
        ),
{
    if !is_bodiless(method) {
        Decision::Drop(DropReason::MethodHasBody)
    } else if !sampled {
        Decision::Drop(DropReason::NotSampled)
    } else if target_count == 0 {
        Decision::Drop(DropReason::NoTargets)
    } else if available_permits < target_count {
        Decision::Drop(DropReason::OverCapacity)
    } else {
        Decision::Mirror { fan_out: target_count }
    }
}

/// A request is mirrored exactly when its method is `GET` or `HEAD`, it was
/// sampled, it names at least one target, and every target fits into the free
/// slots; it is then sent to all of its targets, never to only some of them.
pub proof fn lemma_mirror_exactly_when_admissible(
    method: Seq<char>,
    sampled: bool,
    target_count: nat,
    available_permits: nat,
)
    requires
        target_count <= usize::MAX,
    ensures
        decision_for(method, sampled, target_count, available_permits) is Mirror <==> (
        bodiless_method(method) && sampled && 0 < target_count <= available_permits),
        decision_for(method, sampled, target_count, available_permits) is Mirror ==> decision_for(
            method,
            sampled,
            target_count,
            available_permits,
        )->fan_out == target_count,
{
}

/// Only the tokens `GET` and `HEAD` are bodiless methods; every other token,
/// `TRACE`, `OPTIONS`, lower-case `get` and the empty one included, is not.
pub proof fn lemma_only_get_and_head_are_bodiless(method: Seq<char>)
    ensures
        bodiless_method(method) <==> (method == seq!['G', 'E', 'T'] || method == seq![
            'H',
            'E',
            'A',
            'D',
        ]),
{
    reveal_strlit("GET");
    reveal_strlit("HEAD");
    assert("GET"@ =~= seq!['G', 'E', 'T']);
    assert("HEAD"@ =~= seq!['H', 'E', 'A', 'D']);
}

/// A request is only ever mirrored when its method token is `GET` or `HEAD`.
pub proof fn lemma_mirrored_methods_are_get_or_head(
    method: Seq<char>,
    sampled: bool,
    target_count: nat,
    available_permits: nat,
)
    requires
        decision_for(method, sampled, target_count, available_permits) is Mirror,
    ensures
        method == seq!['G', 'E', 'T'] || method == seq!['H', 'E', 'A', 'D'],
{
    lemma_only_get_and_head_are_bodiless(method);
}

/// A method that may carry a body is dropped whatever the draw, the targets
/// and the free capacity are.
pub proof fn lemma_body_methods_always_dropped(
    method: Seq<char>,
    sampled: bool,
    target_count: nat,
    available_permits: nat,
)
    requires
        !bodiless_method(method),
    ensures
        decision_for(method, sampled, target_count, available_permits) == Decision::Drop(
            DropReason::MethodHasBody,
        ),
{
}

/// A request that lost the sampling draw is never mirrored.
pub proof fn lemma_unsampled_never_mirrored(
    method: Seq<char>,
    target_count: nat,
    available_permits: nat,
)
    ensures
        decision_for(method, false, target_count, available_permits) is Drop,
{
}

/// Freeing slots never turns a mirrored request into a dropped one, and does
/// not change how many targets it goes to.
pub proof fn lemma_more_capacity_keeps_mirroring(
    method: Seq<char>,
    sampled: bool,
    target_count: nat,
    available_permits: nat,
    more_permits: nat,
)
    requires
        available_permits <= more_permits,
        decision_for(method, sampled, target_count, available_permits) is Mirror,
    ensures
        decision_for(method, sampled, target_count, more_permits) == decision_for(
            method,
            sampled,
            target_count,
            available_permits,
        ),
{
}

/// A request with more targets than the concurrency limit is never mirrored
/// while the free slots do not exceed that limit: it is dropped whatever its
/// method and sampling draw.
pub proof fn lemma_oversized_request_always_dropped(
    method: Seq<char>,
    sampled: bool,
    target_count: nat,
    available_permits: nat,
    max_concurrent_requests: nat,
)
    requires
        available_permits <= max_concurrent_requests,
        max_concurrent_requests < target_count,
    ensures
        decision_for(method, sampled, target_count, available_permits) is Drop,
{
}

} // verus!
