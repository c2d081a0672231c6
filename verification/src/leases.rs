//! Short-lived leases of a host's capacity: one is taken before a runner is
//! registered anywhere, and used up when its container is created.
use vstd::prelude::*;

use crate::capacity::{
    admitted_runners_fit_the_host, combine_usage, enforce_capacity, refusal_of, refuses_with,
    used_together, CapacityUsage, DiskCapacity, LimitsView, ManagerLimits,
};
use crate::manager_error::{ManagerError, ManagerErrorView};
use crate::models::CPU;
use crate::numbers::{saturated, sum_saturated};
use crate::text::{byte_len, lower, same, to_lower, utf8_len};

verus! {

/// How long a lease lasts, in milliseconds.
pub const LEASE_MILLIS: i64 = 300_000;

/// Capacity that is set aside for a runner until an instant.
#[derive(Debug)]
pub struct CapacityReservation {
    pub lease_id: String,
    pub runner_id: String,
    pub pool_id: String,
    pub provider: String,
    pub cpu_limit: i64,
    pub memory_limit_mb: i64,
    pub expires_at: i64,
}

/// The model of a lease.
pub struct LeaseView {
    pub lease_id: Seq<char>,
    pub runner_id: Seq<char>,
    pub pool_id: Seq<char>,
    pub provider: Seq<char>,
    pub cpu_limit: i64,
    pub memory_limit_mb: i64,
    pub expires_at: i64,
}

impl View for CapacityReservation {
    type V = LeaseView;

    open spec fn view(&self) -> LeaseView {
        LeaseView {
            lease_id: self.lease_id@,
            runner_id: self.runner_id@,
            pool_id: self.pool_id@,
            provider: self.provider@,
            cpu_limit: self.cpu_limit,
            memory_limit_mb: self.memory_limit_mb,
            expires_at: self.expires_at,
        }
    }
}

/// A request for capacity. The processor limit is in billionths of a processor.
#[derive(Debug)]
pub struct CapacityRequest {
    pub runner_id: String,
    pub pool_id: String,
    pub provider: String,
    pub cpu_limit: i64,
    pub memory_limit_mb: i64,
}

/// The processor and memory limits of a runner lie within what is supported.
pub open spec fn resources_ok(cpu_limit: i64, memory_limit_mb: i64) -> bool {
    CPU / 4 <= cpu_limit <= 64 * CPU && 256 <= memory_limit_mb <= 262_144
}

/// Whether the limits of a runner lie within what is supported.
pub fn valid_resources(cpu_limit: i64, memory_limit_mb: i64) -> (r: bool)
    ensures
        r == resources_ok(cpu_limit, memory_limit_mb),
{
    CPU / 4 <= cpu_limit && cpu_limit <= 64 * CPU && 256 <= memory_limit_mb && memory_limit_mb
        <= 262_144
}

impl CapacityRequest {
    /// What is wrong with the request, if anything is.
    pub open spec fn error(&self) -> Option<ManagerErrorView> {
        if self.runner_id@.len() == 0 || utf8_len(self.runner_id@) > 128 || self.pool_id@.len() == 0
            || utf8_len(self.pool_id@) > 128 {
            Some(ManagerErrorView::BadRequest("Runner and pool identifiers are invalid."@))
        } else if !resources_ok(self.cpu_limit, self.memory_limit_mb) {
            Some(
                ManagerErrorView::BadRequest(
                    "Runner resource limits are outside the supported range."@,
                ),
            )
        } else if self.provider@ != "docker"@ && self.provider@ != "tart"@ {
            Some(ManagerErrorView::BadRequest("Runner provider must be Docker or Tart."@))
        } else {
            None
        }
    }

    /// What the request asks for.
    pub open spec fn usage(&self) -> CapacityUsage {
        CapacityUsage { active_runners: 1, cpu: self.cpu_limit, memory_mb: self.memory_limit_mb }
    }

    /// Checks the request.
    pub fn validate(&self) -> (r: Result<(), ManagerError>)
        ensures
            refuses_with(r, self.error()),
    {
        if self.runner_id.as_str().is_empty() || byte_len(self.runner_id.as_str()) > 128
            || self.pool_id.as_str().is_empty() || byte_len(self.pool_id.as_str()) > 128 {
            return Err(
                ManagerError::BadRequest("Runner and pool identifiers are invalid.".to_owned()),
            );
        }
        if !valid_resources(self.cpu_limit, self.memory_limit_mb) {
            return Err(
                ManagerError::BadRequest(
                    "Runner resource limits are outside the supported range.".to_owned(),
                ),
            );
        }
        if !same(self.provider.as_str(), "docker") && !same(self.provider.as_str(), "tart") {
            return Err(
                ManagerError::BadRequest("Runner provider must be Docker or Tart.".to_owned()),
            );
        }
        Ok(())
    }
}

/// Whether a host begins with provisioning paused, by a setting: `1`, `true` and
/// `yes`, in any case.
pub fn paused_at_start(setting: &Option<String>) -> (r: bool)
    ensures
        r == match *setting {
            Some(text) => lower(text@) == "1"@ || lower(text@) == "true"@ || lower(text@)
                == "yes"@,
            None => false,
        },
{
    match setting {
        Some(text) => {
            let word: String = to_lower(text.as_str());
            same(word.as_str(), "1") || same(word.as_str(), "true") || same(word.as_str(), "yes")
        },
        None => false,
    }
}

/// Refuses while provisioning is paused for the whole host.
pub fn ensure_provisioning_enabled(paused: bool) -> (r: Result<(), ManagerError>)
    ensures
        refuses_with(r, paused_error(paused)),
{
    if paused {
        return Err(
            ManagerError::Guardrail {
                code: "provisioning_paused",
                message: "Runner provisioning is globally paused.".to_owned(),
            },
        );
    }
    Ok(())
}

/// The refusal while provisioning is paused.
pub open spec fn paused_error(paused: bool) -> Option<ManagerErrorView> {
    if paused {
        Some(
            ManagerErrorView::Guardrail {
                code: "provisioning_paused"@,
                message: "Runner provisioning is globally paused."@,
            },
        )
    } else {
        None
    }
}

// ---------------------------------------------------------------------------
// The ledger

/// The leases that are outstanding.
#[derive(Debug)]
pub struct Ledger {
    pub leases: Vec<CapacityReservation>,
}

/// The models of a list of leases.
pub open spec fn lease_views(list: Seq<CapacityReservation>) -> Seq<LeaseView> {
    list.map_values(|lease: CapacityReservation| lease@)
}

/// No two leases have the same name.
pub open spec fn leases_distinct(list: Seq<LeaseView>) -> bool {
    forall|i: int, j: int|
        0 <= i < j < list.len() ==> (#[trigger] list[i]).lease_id != (#[trigger] list[j]).lease_id
}

/// Every lease is for an amount that was supported.
pub open spec fn leases_supported(list: Seq<LeaseView>) -> bool {
    forall|i: int|
        0 <= i < list.len() ==> resources_ok(
            (#[trigger] list[i]).cpu_limit,
            list[i].memory_limit_mb,
        )
}

/// The leases that have not expired at an instant.
pub open spec fn live(list: Seq<LeaseView>, now: i64) -> Seq<LeaseView>
    decreases list.len(),
{
    if list.len() == 0 {
        Seq::empty()
    } else if list.last().expires_at > now {
        live(list.drop_last(), now).push(list.last())
    } else {
        live(list.drop_last(), now)
    }
}

/// The leases but for one.
pub open spec fn without_lease(list: Seq<LeaseView>, lease_id: Seq<char>) -> Seq<LeaseView>
    decreases list.len(),
{
    if list.len() == 0 {
        Seq::empty()
    } else if list.last().lease_id != lease_id {
        without_lease(list.drop_last(), lease_id).push(list.last())
    } else {
        without_lease(list.drop_last(), lease_id)
    }
}

/// A lease of this name is outstanding.
pub open spec fn has_lease(list: Seq<LeaseView>, lease_id: Seq<char>) -> bool {
    exists|i: int| 0 <= i < list.len() && (#[trigger] list[i]).lease_id == lease_id
}

/// What the leases set aside.
pub open spec fn reserved(list: Seq<LeaseView>) -> CapacityUsage
    decreases list.len(),
{
    if list.len() == 0 {
        CapacityUsage { active_runners: 0, cpu: 0, memory_mb: 0 }
    } else {
        used_together(
            reserved(list.drop_last()),
            CapacityUsage {
                active_runners: 1,
                cpu: list.last().cpu_limit,
                memory_mb: list.last().memory_limit_mb,
            },
        )
    }
}

proof fn lemma_live(list: Seq<LeaseView>, now: i64)
    ensures
        forall|k: int| 0 <= k < live(list, now).len() ==> list.contains(#[trigger] live(list, now)[k]),
        leases_distinct(list) ==> leases_distinct(live(list, now)),
        leases_supported(list) ==> leases_supported(live(list, now)),
        forall|k: int| 0 <= k < live(list, now).len() ==> (#[trigger] live(list, now)[k]).expires_at > now,
    decreases list.len(),
{
    let kept = live(list, now);
    if list.len() > 0 {
        let front = list.drop_last();
        let before = live(front, now);
        lemma_live(front, now);
        assert forall|k: int| 0 <= k < kept.len() implies list.contains(#[trigger] kept[k]) by {
            if k < before.len() {
                assert(kept[k] == before[k]);
                let m = choose|m: int| 0 <= m < front.len() && front[m] == before[k];
                assert(list[m] == kept[k]);
            } else {
                assert(list[list.len() - 1] == kept[k]);
            }
        }
        if leases_distinct(list) {
            assert(leases_distinct(front)) by {
                assert forall|i: int, j: int| 0 <= i < j < front.len() implies (
                #[trigger] front[i]).lease_id != (#[trigger] front[j]).lease_id by {
                    assert(list[i].lease_id != list[j].lease_id);
                }
            }
            assert forall|i: int, j: int| 0 <= i < j < kept.len() implies (
            #[trigger] kept[i]).lease_id != (#[trigger] kept[j]).lease_id by {
                assert(kept[i] == before[i]);
                if j < before.len() {
                    assert(kept[j] == before[j]);
                } else {
                    assert(front.contains(before[i]));
                    let m = choose|m: int| 0 <= m < front.len() && front[m] == before[i];
                    assert(list[m].lease_id != list[list.len() - 1].lease_id);
                }
            }
        }
        if leases_supported(list) {
            assert(leases_supported(front)) by {
                assert forall|i: int| 0 <= i < front.len() implies resources_ok(
                    (#[trigger] front[i]).cpu_limit,
                    front[i].memory_limit_mb,
                ) by {
                    assert(list[i] == front[i]);
                }
            }
            assert forall|i: int| 0 <= i < kept.len() implies resources_ok(
                (#[trigger] kept[i]).cpu_limit,
                kept[i].memory_limit_mb,
            ) by {
                if i < before.len() {
                    assert(kept[i] == before[i]);
                } else {
                    assert(list[list.len() - 1] == kept[i]);
                }
            }
        }
    }
}

proof fn lemma_without(list: Seq<LeaseView>, lease_id: Seq<char>)
    ensures
        forall|k: int|
            0 <= k < without_lease(list, lease_id).len() ==> list.contains(
                #[trigger] without_lease(list, lease_id)[k],
            ) && without_lease(list, lease_id)[k].lease_id != lease_id,
        leases_distinct(list) ==> leases_distinct(without_lease(list, lease_id)),
        leases_supported(list) ==> leases_supported(without_lease(list, lease_id)),
        !has_lease(list, lease_id) ==> without_lease(list, lease_id) == list,
    decreases list.len(),
{
    let kept = without_lease(list, lease_id);
    if list.len() > 0 {
        let front = list.drop_last();
        let before = without_lease(front, lease_id);
        lemma_without(front, lease_id);
        assert forall|k: int| 0 <= k < kept.len() implies list.contains(#[trigger] kept[k])
            && kept[k].lease_id != lease_id by {
            if k < before.len() {
                assert(kept[k] == before[k]);
                let m = choose|m: int| 0 <= m < front.len() && front[m] == before[k];
                assert(list[m] == kept[k]);
            } else {
                assert(list[list.len() - 1] == kept[k]);
            }
        }
        if leases_distinct(list) {
            assert(leases_distinct(front)) by {
                assert forall|i: int, j: int| 0 <= i < j < front.len() implies (
                #[trigger] front[i]).lease_id != (#[trigger] front[j]).lease_id by {
                    assert(list[i].lease_id != list[j].lease_id);
                }
            }
            assert forall|i: int, j: int| 0 <= i < j < kept.len() implies (
            #[trigger] kept[i]).lease_id != (#[trigger] kept[j]).lease_id by {
                assert(kept[i] == before[i]);
                if j < before.len() {
                    assert(kept[j] == before[j]);
                } else {
                    assert(front.contains(before[i]));
                    let m = choose|m: int| 0 <= m < front.len() && front[m] == before[i];
                    assert(list[m].lease_id != list[list.len() - 1].lease_id);
                }
            }
        }
        if leases_supported(list) {
            assert(leases_supported(front)) by {
                assert forall|i: int| 0 <= i < front.len() implies resources_ok(
                    (#[trigger] front[i]).cpu_limit,
                    front[i].memory_limit_mb,
                ) by {
                    assert(list[i] == front[i]);
                }
            }
            assert forall|i: int| 0 <= i < kept.len() implies resources_ok(
                (#[trigger] kept[i]).cpu_limit,
                kept[i].memory_limit_mb,
            ) by {
                if i < before.len() {
                    assert(kept[i] == before[i]);
                } else {
                    assert(list[list.len() - 1] == kept[i]);
                }
            }
        }
        if !has_lease(list, lease_id) {
            assert(list[list.len() - 1].lease_id != lease_id);
            if has_lease(front, lease_id) {
                let m = choose|m: int| 0 <= m < front.len() && (#[trigger] front[m]).lease_id == lease_id;
                assert(list[m].lease_id == lease_id);
            }
            assert(front.push(list.last()) =~= list);
        }
    } else {
        assert(kept =~= list);
    }
}

/// The lease that a request gets.
pub open spec fn granted(lease_id: Seq<char>, request: CapacityRequest, now: i64) -> LeaseView {
    LeaseView {
        lease_id,
        runner_id: request.runner_id@,
        pool_id: request.pool_id@,
        provider: request.provider@,
        cpu_limit: request.cpu_limit,
        memory_limit_mb: request.memory_limit_mb,
        expires_at: saturated(now + LEASE_MILLIS) as i64,
    }
}

/// The leases after a request.
pub open spec fn after_request(
    list: Seq<LeaseView>,
    limits: LimitsView,
    active: CapacityUsage,
    request: CapacityRequest,
    disk: DiskCapacity,
    now: i64,
    lease_id: Seq<char>,
) -> Seq<LeaseView> {
    let current = live(list, now);
    if refusal_of(limits, active, reserved(current), request.usage(), disk) is None {
        without_lease(current, lease_id).push(granted(lease_id, request, now))
    } else {
        current
    }
}

/// What a request to start a runner says of its lease.
pub struct LeaseClaim {
    pub lease_id: Seq<char>,
    pub runner_id: Seq<char>,
    pub pool_id: Seq<char>,
    pub provider: Seq<char>,
    pub cpu_limit: i64,
    pub memory_limit_mb: i64,
}

/// A lease is the one that a claim speaks of.
pub open spec fn lease_matches(lease: LeaseView, claim: LeaseClaim) -> bool {
    &&& lease.runner_id == claim.runner_id
    &&& lease.pool_id == claim.pool_id
    &&& lease.provider == claim.provider
    &&& lease.cpu_limit == claim.cpu_limit
    &&& lease.memory_limit_mb == claim.memory_limit_mb
}

/// The position of a lease, or the number of leases.
pub open spec fn lease_position(list: Seq<LeaseView>, lease_id: Seq<char>, from: int) -> int
    decreases list.len() - from,
{
    if from >= list.len() {
        list.len() as int
    } else if list[from].lease_id == lease_id {
        from
    } else {
        lease_position(list, lease_id, from + 1)
    }
}

/// Why a claim is refused, if it is.
pub open spec fn claim_error(list: Seq<LeaseView>, claim: LeaseClaim) -> Option<ManagerErrorView> {
    let i = lease_position(list, claim.lease_id, 0);
    if i >= list.len() {
        Some(
            ManagerErrorView::Guardrail {
                code: "capacity_lease_invalid"@,
                message: "Runner capacity reservation is missing or expired."@,
            },
        )
    } else if !lease_matches(list[i], claim) {
        Some(
            ManagerErrorView::Forbidden(
                "Runner capacity reservation does not match the provisioning request."@,
            ),
        )
    } else {
        None
    }
}

impl Ledger {
    /// The model of the ledger.
    pub open spec fn view(&self) -> Seq<LeaseView> {
        lease_views(self.leases@)
    }

    /// No lease stands twice, and each is for an amount that is supported.
    pub open spec fn wf(&self) -> bool {
        leases_distinct(self@) && leases_supported(self@)
    }

    /// The ledger without leases.
    pub fn new() -> (r: Ledger)
        ensures
            r@ == Seq::<LeaseView>::empty(),
            r.wf(),
    {
        let r: Ledger = Ledger { leases: Vec::new() };
        proof {
            assert(r@ =~= Seq::<LeaseView>::empty());
        }
        r
    }

    /// Drops the leases that have expired.
    pub fn expire(&mut self, now: i64)
        ensures
            final(self)@ == live(old(self)@, now),
            old(self).wf() ==> final(self).wf(),
    {
        let ghost all = self@;
        let mut source: Vec<CapacityReservation> = Vec::new();
        core::mem::swap(&mut source, &mut self.leases);
        let mut kept: Vec<CapacityReservation> = Vec::new();
        for lease in it: source
            invariant
                all == lease_views(it.seq()),
                lease_views(kept@) == live(all.take(it.index()), now),
        {
            let ghost before = lease_views(kept@);
            let ghost view = lease@;
            proof {
                let next = all.take(it.index() + 1);
                assert(next.drop_last() =~= all.take(it.index()));
                assert(next.last() == view);
            }
            if lease.expires_at > now {
                kept.push(lease);
                proof {
                    assert(lease_views(kept@) =~= before.push(view));
                }
            }
        }
        proof {
            assert(all.take(all.len() as int) =~= all);
            lemma_live(all, now);
        }
        self.leases = kept;
    }

    /// What the leases set aside.
    pub fn reserved(&self) -> (r: CapacityUsage)
        ensures
            r == reserved(self@),
    {
        let ghost all = self@;
        let mut usage: CapacityUsage = CapacityUsage { active_runners: 0, cpu: 0, memory_mb: 0 };
        let mut i: usize = 0;
        while i < self.leases.len()
            invariant
                i <= self.leases@.len(),
                all == lease_views(self.leases@),
                usage == reserved(all.take(i as int)),
            decreases self.leases@.len() - i,
        {
            proof {
                let next = all.take(i + 1);
                assert(next.drop_last() =~= all.take(i as int));
                assert(next.last() == self.leases@[i as int]@);
            }
            usage = combine_usage(
                usage,
                CapacityUsage {
                    active_runners: 1,
                    cpu: self.leases[i].cpu_limit,
                    memory_mb: self.leases[i].memory_limit_mb,
                },
            );
            i += 1;
        }
        proof {
            assert(all.take(all.len() as int) =~= all);
        }
        usage
    }

    /// Takes a lease out, and says whether it was there.
    pub fn release(&mut self, lease_id: &str) -> (r: bool)
        ensures
            final(self)@ == without_lease(old(self)@, lease_id@),
            r == has_lease(old(self)@, lease_id@),
            old(self).wf() ==> final(self).wf(),
    {
        let ghost all = self@;
        let mut source: Vec<CapacityReservation> = Vec::new();
        core::mem::swap(&mut source, &mut self.leases);
        let mut kept: Vec<CapacityReservation> = Vec::new();
        let mut found: bool = false;
        for lease in it: source
            invariant
                all == lease_views(it.seq()),
                lease_views(kept@) == without_lease(all.take(it.index()), lease_id@),
                found == has_lease(all.take(it.index()), lease_id@),
        {
            let ghost before = lease_views(kept@);
            let ghost view = lease@;
            let ghost taken = all.take(it.index());
            let ghost next = all.take(it.index() + 1);
            proof {
                assert(next.drop_last() =~= taken);
                assert(next.last() == view);
                if has_lease(taken, lease_id@) {
                    let k = choose|k: int|
                        0 <= k < taken.len() && (#[trigger] taken[k]).lease_id == lease_id@;
                    assert(next[k].lease_id == lease_id@);
                }
            }
            if same(lease.lease_id.as_str(), lease_id) {
                found = true;
                proof {
                    assert(next[next.len() - 1].lease_id == lease_id@);
                }
            } else {
                kept.push(lease);
                proof {
                    assert(lease_views(kept@) =~= before.push(view));
                    if has_lease(next, lease_id@) {
                        let k = choose|k: int|
                            0 <= k < next.len() && (#[trigger] next[k]).lease_id == lease_id@;
                        assert(taken[k].lease_id == lease_id@);
                    }
                }
            }
        }
        proof {
            assert(all.take(all.len() as int) =~= all);
            lemma_without(all, lease_id@);
        }
        self.leases = kept;
        found
    }

    /// Admits a request where the host has room for it, under a new lease. The
    /// leases that have expired are dropped first.
    pub fn reserve(
        &mut self,
        limits: &ManagerLimits,
        active: CapacityUsage,
        request: &CapacityRequest,
        disk: DiskCapacity,
        now: i64,
        lease_id: &str,
    ) -> (r: Result<(), ManagerError>)
        requires
            old(self).wf(),
            request.error() is None,
        ensures
            final(self).wf(),
            final(self)@ == after_request(
                old(self)@,
                limits@,
                active,
                *request,
                disk,
                now,
                lease_id@,
            ),
            refuses_with(
                r,
                refusal_of(
                    limits@,
                    active,
                    reserved(live(old(self)@, now)),
                    request.usage(),
                    disk,
                ),
            ),
    {
        self.expire(now);
        let held: CapacityUsage = self.reserved();
        let asked: CapacityUsage = CapacityUsage {
            active_runners: 1,
            cpu: request.cpu_limit,
            memory_mb: request.memory_limit_mb,
        };
        if let Err(error) = enforce_capacity(limits, active, held, asked, disk) {
            return Err(error);
        }
        let ghost current = self@;
        self.release(lease_id);
        let ghost before = self@;
        proof {
            lemma_without(current, lease_id@);
        }
        let lease: CapacityReservation = CapacityReservation {
            lease_id: lease_id.to_owned(),
            runner_id: request.runner_id.clone(),
            pool_id: request.pool_id.clone(),
            provider: request.provider.clone(),
            cpu_limit: request.cpu_limit,
            memory_limit_mb: request.memory_limit_mb,
            expires_at: sum_saturated(now, LEASE_MILLIS),
        };
        self.leases.push(lease);
        proof {
            assert(self@ =~= before.push(lease@));
            assert(lease@ == granted(lease_id@, *request, now));
        }
        Ok(())
    }

    /// Checks that a claim is covered by its lease. The leases that have expired
    /// are dropped first.
    pub fn validate_claim(
        &mut self,
        lease_id: &str,
        runner_id: &str,
        pool_id: &str,
        provider: &str,
        cpu_limit: i64,
        memory_limit_mb: i64,
        now: i64,
    ) -> (r: Result<(), ManagerError>)
        ensures
            final(self)@ == live(old(self)@, now),
            old(self).wf() ==> final(self).wf(),
            refuses_with(
                r,
                claim_error(
                    live(old(self)@, now),
                    LeaseClaim {
                        lease_id: lease_id@,
                        runner_id: runner_id@,
                        pool_id: pool_id@,
                        provider: provider@,
                        cpu_limit,
                        memory_limit_mb,
                    },
                ),
            ),
    {
        self.expire(now);
        let mut i: usize = 0;
        while i < self.leases.len() && !same(self.leases[i].lease_id.as_str(), lease_id)
            invariant
                i <= self.leases@.len(),
                self@ == live(old(self)@, now),
                lease_position(self@, lease_id@, i as int) == lease_position(self@, lease_id@, 0),
            decreases self.leases@.len() - i,
        {
            proof {
                assert(self@[i as int] == self.leases@[i as int]@);
            }
            i += 1;
        }
        if i == self.leases.len() {
            return Err(
                ManagerError::Guardrail {
                    code: "capacity_lease_invalid",
                    message: "Runner capacity reservation is missing or expired.".to_owned(),
                },
            );
        }
        let lease: &CapacityReservation = &self.leases[i];
        proof {
            assert(self@[i as int] == lease@);
        }
        if !same(lease.runner_id.as_str(), runner_id) || !same(lease.pool_id.as_str(), pool_id)
            || !same(lease.provider.as_str(), provider) || lease.cpu_limit != cpu_limit
            || lease.memory_limit_mb != memory_limit_mb {
            return Err(
                ManagerError::Forbidden(
                    "Runner capacity reservation does not match the provisioning request."
                        .to_owned(),
                ),
            );
        }
        Ok(())
    }
}

proof fn lemma_reserved_not_negative(list: Seq<LeaseView>)
    requires
        leases_supported(list),
    ensures
        reserved(list).cpu >= 0,
        reserved(list).memory_mb >= 0,
    decreases list.len(),
{
    if list.len() > 0 {
        let front = list.drop_last();
        assert forall|i: int| 0 <= i < front.len() implies resources_ok(
            (#[trigger] front[i]).cpu_limit,
            front[i].memory_limit_mb,
        ) by {
            assert(list[i] == front[i]);
        }
        assert(resources_ok(list[list.len() - 1].cpu_limit, list[list.len() - 1].memory_limit_mb));
        lemma_reserved_not_negative(front);
    }
}

/// The capacity boundary: after every request, admitted or not, what runs and
/// what is set aside together stay within the host's budgets, where they did
/// before.
pub proof fn leases_never_exceed_the_budget(
    list: Seq<LeaseView>,
    limits: LimitsView,
    active: CapacityUsage,
    request: CapacityRequest,
    disk: DiskCapacity,
    now: i64,
    lease_id: Seq<char>,
)
    requires
        leases_distinct(list),
        leases_supported(list),
        request.error() is None,
        !has_lease(list, lease_id),
        limits.max_runners < usize::MAX,
        limits.cpu_budget < i64::MAX,
        limits.memory_budget_mb < i64::MAX,
        active.cpu >= 0,
        active.memory_mb >= 0,
        active.active_runners + reserved(live(list, now)).active_runners <= limits.max_runners,
        active.cpu + reserved(live(list, now)).cpu <= limits.cpu_budget,
        active.memory_mb + reserved(live(list, now)).memory_mb <= limits.memory_budget_mb,
    ensures
        ({
            let after = reserved(
                after_request(list, limits, active, request, disk, now, lease_id),
            );
            &&& active.active_runners + after.active_runners <= limits.max_runners
            &&& active.cpu + after.cpu <= limits.cpu_budget
            &&& active.memory_mb + after.memory_mb <= limits.memory_budget_mb
        }),
{
    let current = live(list, now);
    lemma_live(list, now);
    lemma_reserved_not_negative(current);
    if refusal_of(limits, active, reserved(current), request.usage(), disk) is None {
        admitted_runners_fit_the_host(limits, active, reserved(current), request.usage(), disk);
        if has_lease(current, lease_id) {
            let k = choose|k: int|
                0 <= k < current.len() && (#[trigger] current[k]).lease_id == lease_id;
            assert(list.contains(current[k]));
            let m = choose|m: int| 0 <= m < list.len() && list[m] == current[k];
            assert(list[m].lease_id == lease_id);
        }
        lemma_without(current, lease_id);
        let after = current.push(granted(lease_id, request, now));
        assert(after.drop_last() =~= current);
    }
}

proof fn lemma_lease_position(list: Seq<LeaseView>, lease_id: Seq<char>, from: int)
    requires
        0 <= from,
    ensures
        ({
            let i = lease_position(list, lease_id, from);
            &&& i < list.len() ==> from <= i && list[i].lease_id == lease_id
            &&& forall|k: int| from <= k < i && k < list.len() ==> (#[trigger] list[k]).lease_id != lease_id
        }),
    decreases list.len() - from,
{
    if from < list.len() && list[from].lease_id != lease_id {
        lemma_lease_position(list, lease_id, from + 1);
    }
}

/// A lease is used once: after it has been taken out, no claim is covered by it.
pub proof fn a_lease_is_used_once(list: Seq<LeaseView>, claim: LeaseClaim)
    ensures
        claim_error(without_lease(list, claim.lease_id), claim) is Some,
{
    let rest = without_lease(list, claim.lease_id);
    lemma_without(list, claim.lease_id);
    lemma_lease_position(rest, claim.lease_id, 0);
}

/// A lease that has expired covers no claim.
pub proof fn expired_leases_cover_nothing(list: Seq<LeaseView>, claim: LeaseClaim, now: i64)
    requires
        forall|i: int|
            0 <= i < list.len() && (#[trigger] list[i]).lease_id == claim.lease_id
                ==> list[i].expires_at <= now,
    ensures
        claim_error(live(list, now), claim) is Some,
{
    let current = live(list, now);
    lemma_live(list, now);
    lemma_lease_position(current, claim.lease_id, 0);
    let i = lease_position(current, claim.lease_id, 0);
    if i < current.len() {
        assert(list.contains(current[i]));
        let m = choose|m: int| 0 <= m < list.len() && list[m] == current[i];
        assert(list[m].expires_at <= now);
    }
}

// ---------------------------------------------------------------------------
// What leases are

/// Exactly the leases whose end lies in the future are live, and to take a lease out leaves
/// all others as they were.
pub proof fn only_expired_leases_are_dropped(list: Seq<LeaseView>, now: i64, lease_id: Seq<char>)
    ensures
        live(list, now) == list.filter(|lease: LeaseView| now < lease.expires_at),
        without_lease(list, lease_id) == list.filter(
            |lease: LeaseView| lease.lease_id != lease_id,
        ),
    decreases list.len(),
{
    reveal(Seq::filter);
    if list.len() > 0 {
        only_expired_leases_are_dropped(list.drop_last(), now, lease_id);
    }
}

/// Each lease sets aside one runner and the processors and the memory that it is for.
pub proof fn each_lease_sets_aside_what_it_is_for(list: Seq<LeaseView>, lease: LeaseView)
    requires
        reserved(list).active_runners < usize::MAX,
        i64::MIN <= reserved(list).cpu + lease.cpu_limit <= i64::MAX,
        i64::MIN <= reserved(list).memory_mb + lease.memory_limit_mb <= i64::MAX,
    ensures
        reserved(Seq::empty()) == (CapacityUsage { active_runners: 0, cpu: 0, memory_mb: 0 }),
        reserved(list.push(lease)).active_runners == reserved(list).active_runners + 1,
        reserved(list.push(lease)).cpu == reserved(list).cpu + lease.cpu_limit,
        reserved(list.push(lease)).memory_mb == reserved(list).memory_mb + lease.memory_limit_mb,
{
    assert(list.push(lease).drop_last() =~= list);
}

/// A claim is covered exactly by a lease of its name that is for the same runner, pool and
/// provider, and for the same processors and memory.
pub proof fn claims_are_covered_by_their_own_lease(list: Seq<LeaseView>, claim: LeaseClaim)
    requires
        leases_distinct(list),
    ensures
        claim_error(list, claim) is None <==> exists|i: int|
            0 <= i < list.len() && (#[trigger] list[i]).lease_id == claim.lease_id
                && list[i].runner_id == claim.runner_id && list[i].pool_id == claim.pool_id
                && list[i].provider == claim.provider && list[i].cpu_limit == claim.cpu_limit
                && list[i].memory_limit_mb == claim.memory_limit_mb,
{
    lemma_position(list, claim.lease_id, 0);
    let k = lease_position(list, claim.lease_id, 0);
    if exists|i: int|
        0 <= i < list.len() && (#[trigger] list[i]).lease_id == claim.lease_id && list[i].runner_id
            == claim.runner_id && list[i].pool_id == claim.pool_id && list[i].provider
            == claim.provider && list[i].cpu_limit == claim.cpu_limit && list[i].memory_limit_mb
            == claim.memory_limit_mb {
        let i = choose|i: int|
            0 <= i < list.len() && (#[trigger] list[i]).lease_id == claim.lease_id
                && list[i].runner_id == claim.runner_id && list[i].pool_id == claim.pool_id
                && list[i].provider == claim.provider && list[i].cpu_limit == claim.cpu_limit
                && list[i].memory_limit_mb == claim.memory_limit_mb;
        assert(k <= i);
        if k < i {
            assert(list[k].lease_id != list[i].lease_id);
        }
    }
    if claim_error(list, claim) is None {
        assert(list[k].lease_id == claim.lease_id);
    }
}

proof fn lemma_position(list: Seq<LeaseView>, lease_id: Seq<char>, from: int)
    requires
        0 <= from <= list.len(),
    ensures
        from <= lease_position(list, lease_id, from) <= list.len(),
        lease_position(list, lease_id, from) < list.len() ==> list[lease_position(
            list,
            lease_id,
            from,
        )].lease_id == lease_id,
        forall|i: int|
            from <= i < lease_position(list, lease_id, from) ==> (#[trigger] list[i]).lease_id
                != lease_id,
    decreases list.len() - from,
{
    if from < list.len() {
        lemma_position(list, lease_id, from + 1);
    }
}

/// A claim without a lease, and one whose lease has expired, are told so; a claim on a
/// lease for something else is forbidden.
pub proof fn refused_claims_are_told_why(list: Seq<LeaseView>, claim: LeaseClaim)
    ensures
        (forall|i: int|
            0 <= i < list.len() ==> (#[trigger] list[i]).lease_id != claim.lease_id)
            ==> claim_error(list, claim) is Some && claim_error(list, claim)->0 is Guardrail
            && claim_error(list, claim)->0->Guardrail_code == "capacity_lease_invalid"@,
        (exists|i: int| 0 <= i < list.len() && (#[trigger] list[i]).lease_id == claim.lease_id)
            && claim_error(list, claim) is Some ==> claim_error(list, claim)->0 is Forbidden,
{
    lemma_position(list, claim.lease_id, 0);
    if exists|i: int| 0 <= i < list.len() && (#[trigger] list[i]).lease_id == claim.lease_id {
        let i = choose|i: int|
            0 <= i < list.len() && (#[trigger] list[i]).lease_id == claim.lease_id;
        assert(lease_position(list, claim.lease_id, 0) <= i);
    }
}

/// An admitted request gets a lease that lasts five minutes: until then a claim for the same
/// runner and the same amounts is covered by it, and from then on it is not.
pub proof fn an_admitted_request_is_covered_for_five_minutes(
    list: Seq<LeaseView>,
    limits: LimitsView,
    active: CapacityUsage,
    request: CapacityRequest,
    disk: DiskCapacity,
    now: i64,
    lease_id: Seq<char>,
    later: i64,
)
    requires
        leases_distinct(list),
        now <= i64::MAX - 300_000,
        now <= later,
        refusal_of(limits, active, reserved(live(list, now)), request.usage(), disk) is None,
    ensures
        ({
            let after = after_request(list, limits, active, request, disk, now, lease_id);
            let claim = LeaseClaim {
                lease_id,
                runner_id: request.runner_id@,
                pool_id: request.pool_id@,
                provider: request.provider@,
                cpu_limit: request.cpu_limit,
                memory_limit_mb: request.memory_limit_mb,
            };
            claim_error(live(after, later), claim) is None <==> later < now + 300_000
        }),
{
    let after = after_request(list, limits, active, request, disk, now, lease_id);
    let lease = granted(lease_id, request, now);
    let claim = LeaseClaim {
        lease_id,
        runner_id: request.runner_id@,
        pool_id: request.pool_id@,
        provider: request.provider@,
        cpu_limit: request.cpu_limit,
        memory_limit_mb: request.memory_limit_mb,
    };
    let current = live(list, now);
    let before = without_lease(current, lease_id);
    lemma_live(list, now);
    lemma_without(current, lease_id);
    assert(after.drop_last() =~= before);
    assert(leases_distinct(after));
    lemma_live(after, later);
    if later < now + 300_000 {
        let shown = live(after, later);
        assert(shown[shown.len() - 1] == lease);
        claims_are_covered_by_their_own_lease(shown, claim);
    } else {
        assert forall|i: int|
            0 <= i < after.len() && (#[trigger] after[i]).lease_id
                == lease_id implies after[i].expires_at <= later by {
            if i < before.len() {
                assert(after[i] == before[i]);
            }
        }
        expired_leases_cover_nothing(after, claim, later);
    }
}

/// A request for capacity is in order exactly if it names a runner and a pool by at most
/// 128 bytes each, asks for a quarter to 64 processors and for 256 MB to 256 GB, and names
/// Docker or Tart.
pub proof fn requests_in_order(request: CapacityRequest)
    ensures
        request.error() is None <==> {
            &&& 0 < request.runner_id@.len() && utf8_len(request.runner_id@) <= 128
            &&& 0 < request.pool_id@.len() && utf8_len(request.pool_id@) <= 128
            &&& 250_000_000 <= request.cpu_limit <= 64_000_000_000
            &&& 256 <= request.memory_limit_mb <= 262_144
            &&& request.provider@ == "docker"@ || request.provider@ == "tart"@
        },
        request.usage().active_runners == 1,
        request.usage().cpu == request.cpu_limit,
        request.usage().memory_mb == request.memory_limit_mb,
{
}

/// A host on which provisioning is paused refuses, and only such a host does.
pub proof fn pausing_refuses(paused: bool)
    ensures
        paused <==> paused_error(paused) is Some,
        paused ==> paused_error(paused)->0 is Guardrail && paused_error(paused)->0->Guardrail_code
            == "provisioning_paused"@,
{
}

}
