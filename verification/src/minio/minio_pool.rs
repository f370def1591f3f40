//! The registry of storage pools: for each key an ordered list of pool
//! instances with a health flag each, and a rotation cursor.
//!
//! The registry never opens a connection. It says which pools are to be
//! built, takes the pools that were built, chooses among them, and records
//! what the health probes found.

use crate::config::minio_config::MinioConfig;
use crate::config::power_config::PowerConfig;
use crate::config::warp_config::WarpConfig;
use crate::minio::r2d2_minio::MinioConnectionManager;
use crate::pool::{pool_sizing, requested_sizing, PoolInitError, PoolSizing, BACKEND_POOL_MAX_SIZE};
use crate::string_map::StringMap;
use vstd::prelude::*;
use vstd::string::*;

verus! {

/// One backend pool and whether the last probe found it healthy.
#[derive(Debug)]
pub struct MinioPoolInstance<P> {
    pub pool: P,
    pub is_healthy: bool,
}

/// The pool instances of one key, in order, and the position at which the
/// next selection starts.
#[derive(Debug)]
pub struct PoolGroup<P> {
    pub instances: Vec<MinioPoolInstance<P>>,
    pub cursor: usize,
}

/// The health flags of a list of instances.
pub open spec fn flags_of<P>(instances: Seq<MinioPoolInstance<P>>) -> Seq<bool> {
    Seq::new(instances.len(), |i: int| instances[i].is_healthy)
}

/// The position that stands `k` steps after `start` in a ring of `n`.
pub open spec fn ring(n: int, start: int, k: int) -> int {
    if start + k < n {
        start + k
    } else {
        start + k - n
    }
}

/// The first healthy position met from `start` on, going round the ring
/// once, after `tried` positions were found unhealthy.
pub open spec fn scan(flags: Seq<bool>, start: int, tried: int) -> Option<int>
    decreases flags.len() - tried,
{
    if tried < 0 || tried >= flags.len() {
        None
    } else if flags[ring(flags.len() as int, start, tried)] {
        Some(ring(flags.len() as int, start, tried))
    } else {
        scan(flags, start, tried + 1)
    }
}

/// The position that a selection returns: the first healthy one within
/// one full pass that starts at the cursor.
pub open spec fn selected(flags: Seq<bool>, cursor: int) -> Option<int> {
    if flags.len() == 0 {
        None
    } else {
        scan(flags, cursor % (flags.len() as int), 0)
    }
}

/// The cursor after a selection: one position further, wrapping.
pub open spec fn advanced(len: int, cursor: int) -> int {
    if len == 0 {
        cursor
    } else {
        ring(len, cursor % len, 1) % len
    }
}

/// What a scan returns is a healthy position, no position met before it
/// is healthy, and it returns nothing only if no position from `tried` on
/// is healthy.
pub proof fn lemma_scan(flags: Seq<bool>, start: int, tried: int)
    requires
        0 <= start < flags.len(),
        0 <= tried <= flags.len(),
    ensures
        match scan(flags, start, tried) {
            Some(j) => {
                &&& 0 <= j < flags.len()
                &&& flags[j]
                &&& exists|k: int|
                    tried <= k < flags.len() && j == ring(flags.len() as int, start, k) && forall|
                        m: int,
                    |
                        tried <= m < k ==> !flags[#[trigger] ring(flags.len() as int, start, m)]
            },
            None => forall|m: int|
                tried <= m < flags.len() ==> !flags[#[trigger] ring(flags.len() as int, start, m)],
        },
    decreases flags.len() - tried,
{
    let n = flags.len() as int;
    if tried >= n {
    } else if flags[ring(n, start, tried)] {
        assert(tried <= tried < n && ring(n, start, tried) == ring(n, start, tried));
    } else {
        lemma_scan(flags, start, tried + 1);
        match scan(flags, start, tried + 1) {
            Some(j) => {
                let k = choose|k: int|
                    tried + 1 <= k < n && j == ring(n, start, k) && forall|m: int|
                        tried + 1 <= m < k ==> !flags[#[trigger] ring(n, start, m)];
                assert forall|m: int| tried <= m < k implies !flags[#[trigger] ring(
                    n,
                    start,
                    m,
                )] by {
                    if m == tried {
                    }
                }
            },
            None => {
                assert forall|m: int| tried <= m < n implies !flags[#[trigger] ring(
                    n,
                    start,
                    m,
                )] by {
                    if m == tried {
                    }
                }
            },
        }
    }
}

/// A selection never returns an unhealthy instance, and it returns none
/// exactly when no instance is healthy.
pub proof fn law_selection(flags: Seq<bool>, cursor: int)
    requires
        cursor >= 0,
    ensures
        match selected(flags, cursor) {
            Some(j) => 0 <= j < flags.len() && flags[j],
            None => forall|i: int| 0 <= i < flags.len() ==> !flags[i],
        },
        selected(flags, cursor) is None <==> forall|i: int| 0 <= i < flags.len() ==> !flags[i],
{
    let n = flags.len() as int;
    if n > 0 {
        let start = cursor % n;
        lemma_scan(flags, start, 0);
        if scan(flags, start, 0) is None {
            assert forall|i: int| 0 <= i < n implies !flags[i] by {
                let m = if i >= start {
                    i - start
                } else {
                    i - start + n
                };
                assert(ring(n, start, m) == i);
            }
        }
    }
}

/// With the cursor on a healthy instance, the selection returns that
/// instance.
pub proof fn law_selection_at_cursor(flags: Seq<bool>, cursor: int)
    requires
        0 <= cursor < flags.len(),
        flags[cursor],
    ensures
        selected(flags, cursor) == Some(cursor),
{
    vstd::arithmetic::div_mod::lemma_small_mod(cursor as nat, flags.len());
}

/// The cursor stays a valid position, and after as many selections as
/// there are instances it is back where it was.
pub proof fn law_cursor(len: int, cursor: int)
    requires
        len > 0,
        0 <= cursor < len,
    ensures
        0 <= advanced(len, cursor) < len,
        advanced(len, cursor) == (cursor + 1) % len,
{
    vstd::arithmetic::div_mod::lemma_small_mod(cursor as nat, len as nat);
    if cursor + 1 < len {
        vstd::arithmetic::div_mod::lemma_small_mod((cursor + 1) as nat, len as nat);
    } else {
        vstd::arithmetic::div_mod::lemma_small_mod(0, len as nat);
        vstd::arithmetic::div_mod::lemma_mod_self_0(len);
    }
}

/// What a health probe of one instance found.
#[derive(Debug, Clone, Copy, PartialEq, Eq, Structural)]
pub enum ProbeOutcome {
    /// A connection was checked out and the probe call succeeded.
    Healthy,
    /// No connection could be checked out.
    CheckoutFailed,
    /// The probe call failed.
    ProbeFailed,
}

/// One instance of the registry: the position of its group and its
/// position in the group.
#[derive(Debug, Clone, Copy, PartialEq, Eq, Structural)]
pub struct ProbeTarget {
    pub group: usize,
    pub instance: usize,
}

/// The outcome of probing one instance.
#[derive(Debug, Clone, Copy, PartialEq, Eq, Structural)]
pub struct ProbeReport {
    pub target: ProbeTarget,
    pub outcome: ProbeOutcome,
}

/// The targets of the first `groups` groups with the given sizes: every
/// instance once, group after group.
pub open spec fn targets_of(sizes: Seq<int>) -> Seq<ProbeTarget>
    decreases sizes.len(),
{
    if sizes.len() == 0 {
        Seq::empty()
    } else {
        targets_of(sizes.drop_last()) + Seq::new(
            sizes.last() as nat,
            |i: int| ProbeTarget { group: (sizes.len() - 1) as usize, instance: i as usize },
        )
    }
}

/// One round of probes visits every instance: each instance of each
/// group is among the targets.
pub proof fn law_every_instance_probed(sizes: Seq<int>, g: int, i: int)
    requires
        0 <= g < sizes.len(),
        0 <= i < sizes[g],
    ensures
        targets_of(sizes).contains(ProbeTarget { group: g as usize, instance: i as usize }),
    decreases sizes.len(),
{
    let front = targets_of(sizes.drop_last());
    let back = Seq::new(
        sizes.last() as nat,
        |i: int| ProbeTarget { group: (sizes.len() - 1) as usize, instance: i as usize },
    );
    if g == sizes.len() - 1 {
        assert((front + back)[front.len() + i] == back[i]);
    } else {
        law_every_instance_probed(sizes.drop_last(), g, i);
        let k = choose|k: int|
            0 <= k < front.len() && front[k] == (ProbeTarget {
                group: g as usize,
                instance: i as usize,
            });
        assert((front + back)[k] == front[k]);
    }
}

/// One round of probes visits nothing else: each target is an instance
/// of a group.
pub proof fn law_only_instances_probed(sizes: Seq<int>, k: int)
    requires
        forall|g: int| 0 <= g < sizes.len() ==> 0 <= #[trigger] sizes[g] <= usize::MAX,
        sizes.len() <= usize::MAX,
        0 <= k < targets_of(sizes).len(),
    ensures
        targets_of(sizes)[k].group < sizes.len(),
        targets_of(sizes)[k].instance < sizes[targets_of(sizes)[k].group as int],
    decreases sizes.len(),
{
    if sizes.len() > 0 {
        let front = targets_of(sizes.drop_last());
        if k < front.len() {
            law_only_instances_probed(sizes.drop_last(), k);
            assert(targets_of(sizes)[k] == front[k]);
        } else {
            assert(targets_of(sizes)[k].group == (sizes.len() - 1) as usize);
            assert(targets_of(sizes)[k].instance == (k - front.len()) as usize);
        }
    }
}

/// One round of probes visits no instance twice.
pub proof fn law_probed_once(sizes: Seq<int>)
    requires
        forall|g: int| 0 <= g < sizes.len() ==> 0 <= #[trigger] sizes[g] <= usize::MAX,
        sizes.len() <= usize::MAX,
    ensures
        targets_of(sizes).no_duplicates(),
    decreases sizes.len(),
{
    if sizes.len() > 0 {
        let front = targets_of(sizes.drop_last());
        let back = Seq::new(
            sizes.last() as nat,
            |i: int| ProbeTarget { group: (sizes.len() - 1) as usize, instance: i as usize },
        );
        law_probed_once(sizes.drop_last());
        assert forall|i: int, j: int| 0 <= i < front.len() && 0 <= j < back.len() implies front[i]
            != back[j] by {
            law_only_instances_probed(sizes.drop_last(), i);
        }
        vstd::seq_lib::lemma_no_dup_in_concat(front, back);
    }
}

/// The registry of storage pools.
#[derive(Debug)]
pub struct MinioPool<P> {
    pub groups: StringMap<PoolGroup<P>>,
}

/// A group as the registry keeps it: not empty, the cursor on one of its
/// instances.
pub open spec fn group_wf<P>(g: PoolGroup<P>) -> bool {
    g.instances@.len() > 0 && g.cursor < g.instances@.len()
}

/// `after` is `before` with the health flag of instance `i` set to
/// `healthy`, and nothing else changed.
pub open spec fn flag_set<P>(before: PoolGroup<P>, after: PoolGroup<P>, i: int, healthy: bool) -> bool {
    &&& after.cursor == before.cursor
    &&& after.instances@.len() == before.instances@.len()
    &&& forall|j: int|
        0 <= j < before.instances@.len() ==> (#[trigger] after.instances@[j]).pool
            == before.instances@[j].pool
    &&& forall|j: int|
        0 <= j < before.instances@.len() && j != i ==> (#[trigger] after.instances@[j]).is_healthy
            == before.instances@[j].is_healthy
    &&& 0 <= i < before.instances@.len() ==> after.instances@[i].is_healthy == healthy
}

/// The health flags of every group, group after group.
pub open spec fn health_of<P>(groups: Seq<PoolGroup<P>>) -> Seq<Seq<bool>> {
    Seq::new(groups.len(), |g: int| flags_of(groups[g].instances@))
}

/// `flags` with the flag at `target` set to `healthy`; unchanged where
/// `target` names no instance.
pub open spec fn set_flag(flags: Seq<Seq<bool>>, target: ProbeTarget, healthy: bool) -> Seq<
    Seq<bool>,
> {
    if target.group < flags.len() && target.instance < flags[target.group as int].len() {
        flags.update(
            target.group as int,
            flags[target.group as int].update(target.instance as int, healthy),
        )
    } else {
        flags
    }
}

/// The flags after the reports were recorded one after the other.
pub open spec fn flags_after(flags: Seq<Seq<bool>>, reports: Seq<ProbeReport>) -> Seq<Seq<bool>>
    decreases reports.len(),
{
    if reports.len() == 0 {
        flags
    } else {
        set_flag(
            flags_after(flags, reports.drop_last()),
            reports.last().target,
            reports.last().outcome == ProbeOutcome::Healthy,
        )
    }
}

/// Two lists of groups differ at most in their health flags.
pub open spec fn same_but_health<P>(a: Seq<PoolGroup<P>>, b: Seq<PoolGroup<P>>) -> bool {
    &&& a.len() == b.len()
    &&& forall|g: int|
        0 <= g < a.len() ==> (#[trigger] a[g]).cursor == b[g].cursor && a[g].instances@.len()
            == b[g].instances@.len()
    &&& forall|g: int, i: int|
        0 <= g < a.len() && 0 <= i < a[g].instances@.len() ==> (
        #[trigger] a[g].instances@[i]).pool == b[g].instances@[i].pool
}

/// What a selection for `key` does: `r` is the first healthy instance of
/// the key's group within one pass from the cursor, the cursor of that
/// group moves on by one, and nothing else changes. Without a group for
/// the key nothing is chosen and nothing changes.
pub open spec fn chosen<P>(before: MinioPool<P>, after: MinioPool<P>, key: Seq<char>, r: Option<usize>) -> bool {
    &&& after.groups.keys() == before.groups.keys()
    &&& after.groups.values().len() == before.groups.values().len()
    &&& match before.groups.keys().index_of_first(key) {
        None => r is None && after.groups.values() == before.groups.values(),
        Some(g) => {
            let old_group = before.groups.values()[g];
            let new_group = after.groups.values()[g];
            &&& new_group.instances == old_group.instances
            &&& new_group.cursor == advanced(
                old_group.instances@.len() as int,
                old_group.cursor as int,
            )
            &&& match selected(flags_of(old_group.instances@), old_group.cursor as int) {
                Some(j) => r == Some(j as usize) && j < old_group.instances@.len()
                    && old_group.instances@[j].is_healthy,
                None => r is None,
            }
            &&& forall|h: int|
                0 <= h < before.groups.values().len() && h != g ==> after.groups.values()[h]
                    == before.groups.values()[h]
        },
    }
}

/// The first healthy instance of `group` within one pass from its cursor.
pub fn select_in<P>(group: &PoolGroup<P>) -> (r: Option<usize>)
    ensures
        match selected(flags_of(group.instances@), group.cursor as int) {
            Some(j) => r == Some(j as usize) && 0 <= j < group.instances@.len(),
            None => r is None,
        },
{
    let n = group.instances.len();
    if n == 0 {
        return None;
    }
    let start = group.cursor % n;
    let ghost flags = flags_of(group.instances@);
    let mut k: usize = 0;
    while k < n
        invariant
            n == group.instances@.len(),
            n == flags.len(),
            flags == flags_of(group.instances@),
            0 <= start < n,
            start as int == (group.cursor as int) % (n as int),
            k <= n,
            scan(flags, start as int, 0) == scan(flags, start as int, k as int),
        decreases n - k,
    {
        let j = if k < n - start {
            start + k
        } else {
            k - (n - start)
        };
        assert(j == ring(n as int, start as int, k as int));
        assert(flags[j as int] == group.instances@[j as int].is_healthy);
        if group.instances[j].is_healthy {
            assert(scan(flags, start as int, k as int) == Some(j as int));
            return Some(j);
        }
        assert(scan(flags, start as int, k as int) == scan(flags, start as int, k + 1));
        k += 1;
    }
    None
}

impl<P> MinioPool<P> {
    /// Every group has an instance, every cursor stands on one, and no
    /// key occurs twice.
    pub open spec fn wf(&self) -> bool {
        &&& self.groups.wf()
        &&& forall|g: int|
            0 <= g < self.groups.values().len() ==> group_wf(#[trigger] self.groups.values()[g])
    }

    /// The health flags of every group.
    pub open spec fn health(&self) -> Seq<Seq<bool>> {
        health_of(self.groups.values())
    }

    /// The number of instances of every group.
    pub open spec fn sizes(&self) -> Seq<int> {
        Seq::new(self.groups.values().len(), |g: int| self.groups.values()[g].instances@.len() as int)
    }

    /// A registry without pools.
    pub fn new() -> (r: Self)
        ensures
            r.groups.keys().len() == 0,
            r.groups.values().len() == 0,
            r.wf(),
    {
        MinioPool { groups: StringMap::new() }
    }

    /// Registers the pools that were built for `config_key`, all healthy,
    /// with the cursor on the first. Without a pool nothing is registered:
    /// a key whose pools all failed to build stays absent.
    pub fn insert_pool(&mut self, config_key: String, pools: Vec<P>) -> (r: bool)
        ensures
            r == (pools@.len() > 0),
            !r ==> final(self).groups.keys() == old(self).groups.keys() && final(self).groups.values() == old(self).groups.values(),
            r ==> {
                &&& final(self).groups.lookup(config_key@) is Some
                &&& final(self).groups.lookup(config_key@).unwrap().cursor == 0
                &&& final(self).groups.lookup(config_key@).unwrap().instances@.len()
                    == pools@.len()
                &&& forall|i: int|
                    0 <= i < pools@.len() ==> (#[trigger] final(self).groups.lookup(
                        config_key@,
                    ).unwrap().instances@[i]) == (MinioPoolInstance {
                        pool: pools@[i],
                        is_healthy: true,
                    })
            },
            forall|k: Seq<char>|
                k != config_key@ ==> final(self).groups.lookup(k) == old(self).groups.lookup(k),
            r ==> final(self).groups.keys() == if old(self).groups.keys().contains(config_key@) {
                old(self).groups.keys()
            } else {
                old(self).groups.keys().push(config_key@)
            },
            old(self).wf() ==> final(self).wf(),
    {
        proof {
            self.groups.keys().index_of_first_ensures(config_key@);
        }
        if pools.len() == 0 {
            return false;
        }
        let ghost given = pools@;
        let mut instances: Vec<MinioPoolInstance<P>> = Vec::new();
        for pool in it: pools
            invariant
                it.seq() == given,
                instances@.len() == it.index(),
                forall|i: int|
                    0 <= i < it.index() ==> (#[trigger] instances@[i]) == (MinioPoolInstance {
                        pool: given[i],
                        is_healthy: true,
                    }),
        {
            instances.push(MinioPoolInstance { pool, is_healthy: true });
        }
        let group = PoolGroup { instances, cursor: 0 };
        let ghost before = self.groups.values();
        let ghost found = self.groups.keys().index_of_first(config_key@);
        self.groups.insert(config_key, group);
        proof {
            if old(self).wf() {
                self.groups.lemma_same_length();
                old(self).groups.lemma_same_length();
                old(self).groups.keys().index_of_first_ensures(config_key@);
                assert forall|g: int| 0 <= g < self.groups.values().len() implies group_wf(
                    #[trigger] self.groups.values()[g],
                ) by {
                    match found {
                        Some(i) => {
                            if g != i {
                                assert(self.groups.values()[g] == before[g]);
                            }
                        },
                        None => {
                            if g < before.len() {
                                assert(self.groups.values()[g] == before[g]);
                            }
                        },
                    }
                }
            }
        }
        true
    }

    /// Chooses a healthy pool instance of `config_key`: the first healthy
    /// one within a single pass that starts at the group's cursor. The
    /// cursor then moves on by one position, wrapping. `None` where the
    /// key has no pools or none of them is healthy.
    pub fn get_minio_client(&mut self, config_key: &str) -> (r: Option<usize>)
        ensures
            chosen(*old(self), *final(self), config_key@, r),
            final(self).health() == old(self).health(),
            old(self).wf() ==> final(self).wf(),
    {
        proof {
            self.groups.lemma_same_length();
        }
        let found = self.groups.position(config_key);
        match found {
            None => None,
            Some(g) => {
                let ghost before = self.groups.values()[g as int];
                let choice = select_in(self.groups.value_at(g));
                proof {
                    law_selection(flags_of(before.instances@), before.cursor as int);
                }
                let group = self.groups.value_mut(g);
                let n = group.instances.len();
                if n > 0 {
                    let start = group.cursor % n;
                    group.cursor = if start + 1 < n {
                        start + 1
                    } else {
                        0
                    };
                    proof {
                        if start + 1 < n {
                            vstd::arithmetic::div_mod::lemma_small_mod((start + 1) as nat, n as nat);
                        } else {
                            vstd::arithmetic::div_mod::lemma_small_mod(0, n as nat);
                        }
                    }
                }
                proof {
                    assert(self.health() =~= old(self).health());
                }
                choice
            },
        }
    }

    /// The pool of the instance at a target.
    pub fn pool_at(&self, target: ProbeTarget) -> (r: Option<&P>)
        ensures
            match r {
                Some(pool) => target.group < self.groups.values().len() && target.instance
                    < self.groups.values()[target.group as int].instances@.len() && *pool
                    == self.groups.values()[target.group as int].instances@[target.instance as int].pool,
                None => !(target.group < self.groups.values().len() && target.instance
                    < self.groups.values()[target.group as int].instances@.len()),
            },
    {
        if target.group < self.groups.len() {
            let group = self.groups.value_at(target.group);
            if target.instance < group.instances.len() {
                return Some(&group.instances[target.instance].pool);
            }
        }
        None
    }

    /// The position of the group of `config_key`.
    pub fn group_of(&self, config_key: &str) -> (r: Option<usize>)
        ensures
            match r {
                Some(g) => self.groups.keys().index_of_first(config_key@) == Some(g as int) && g
                    < self.groups.values().len(),
                None => self.groups.keys().index_of_first(config_key@) is None,
            },
    {
        proof {
            self.groups.lemma_same_length();
        }
        self.groups.position(config_key)
    }

    /// Every instance of the registry, once: what one round of health
    /// probes has to visit.
    pub fn probe_targets(&self) -> (r: Vec<ProbeTarget>)
        ensures
            r@ == targets_of(self.sizes()),
    {
        let mut targets: Vec<ProbeTarget> = Vec::new();
        let n = self.groups.len();
        let ghost sizes = self.sizes();
        let mut g: usize = 0;
        while g < n
            invariant
                n == self.groups.values().len(),
                n == self.groups.keys().len(),
                sizes == self.sizes(),
                g <= n,
                targets@ == targets_of(sizes.take(g as int)),
            decreases n - g,
        {
            let group = self.groups.value_at(g);
            let ghost before = targets@;
            let m = group.instances.len();
            proof {
                assert(sizes.take(g + 1).drop_last() =~= sizes.take(g as int));
                assert(sizes.take(g + 1).last() == m);
                assert(sizes.take(g + 1).len() - 1 == g);
            }
            let mut i: usize = 0;
            while i < m
                invariant
                    i <= m,
                    targets@ == before + Seq::new(
                        i as nat,
                        |i: int| ProbeTarget { group: g, instance: i as usize },
                    ),
                decreases m - i,
            {
                targets.push(ProbeTarget { group: g, instance: i });
                i += 1;
                assert(targets@ =~= before + Seq::new(
                    i as nat,
                    |i: int| ProbeTarget { group: g, instance: i as usize },
                ));
            }
            assert(targets@ =~= targets_of(sizes.take(g + 1)));
            g += 1;
        }
        assert(sizes.take(n as int) =~= sizes);
        targets
    }

    /// Records the outcome of one probe: the instance is healthy exactly
    /// if the probe succeeded. A target that names no instance changes
    /// nothing. No instance is added, removed or moved.
    pub fn record_probe(&mut self, report: ProbeReport)
        ensures
            final(self).groups.keys() == old(self).groups.keys(),
            same_but_health(old(self).groups.values(), final(self).groups.values()),
            final(self).health() == set_flag(
                old(self).health(),
                report.target,
                report.outcome == ProbeOutcome::Healthy,
            ),
            old(self).wf() ==> final(self).wf(),
    {
        proof {
            self.groups.lemma_same_length();
        }
        let healthy = match report.outcome {
            ProbeOutcome::Healthy => true,
            ProbeOutcome::CheckoutFailed => false,
            ProbeOutcome::ProbeFailed => false,
        };
        let target = report.target;
        if target.group < self.groups.len() {
            let group = self.groups.value_mut(target.group);
            if target.instance < group.instances.len() {
                group.instances[target.instance].is_healthy = healthy;
            }
        }
        proof {
            assert(self.health() =~~= set_flag(old(self).health(), target, healthy));
        }
    }

    /// Records the outcomes of one round of probes, in order.
    pub fn perform_health_checks(&mut self, reports: &Vec<ProbeReport>)
        ensures
            final(self).groups.keys() == old(self).groups.keys(),
            same_but_health(old(self).groups.values(), final(self).groups.values()),
            final(self).health() == flags_after(old(self).health(), reports@),
            old(self).wf() ==> final(self).wf(),
    {
        let mut i: usize = 0;
        while i < reports.len()
            invariant
                i <= reports.len(),
                self.groups.keys() == old(self).groups.keys(),
                same_but_health(old(self).groups.values(), self.groups.values()),
                self.health() == flags_after(old(self).health(), reports@.take(i as int)),
                old(self).wf() ==> self.wf(),
            decreases reports.len() - i,
        {
            proof {
                assert(reports@.take(i + 1).drop_last() =~= reports@.take(i as int));
                assert(reports@.take(i + 1).last() == reports@[i as int]);
            }
            self.record_probe(reports[i]);
            i += 1;
        }
        assert(reports@.take(reports@.len() as int) =~= reports@);
    }
}

/// One storage pool that is to be built: the key it will be registered
/// under, what its connections are opened with, and its bounds, or why it
/// cannot be built.
#[derive(Debug)]
pub struct BackendPoolPlan {
    pub config_key: String,
    pub manager: MinioConnectionManager,
    pub sizing: Result<PoolSizing, PoolInitError>,
}

/// The endpoints of `list`, each with the key `key`.
pub open spec fn keyed(key: Seq<char>, list: Seq<MinioConfig>) -> Seq<(Seq<char>, MinioConfig)> {
    Seq::new(list.len(), |i: int| (key, list[i]))
}

/// The storage endpoints of the tenants, tenant after tenant, each with
/// its tenant's key.
pub open spec fn tenant_backends(keys: Seq<Seq<char>>, tenants: Seq<PowerConfig>) -> Seq<
    (Seq<char>, MinioConfig),
>
    decreases tenants.len(),
{
    if tenants.len() == 0 || keys.len() != tenants.len() {
        Seq::empty()
    } else {
        tenant_backends(keys.drop_last(), tenants.drop_last()) + keyed(
            keys.last(),
            tenants.last().minio_list(),
        )
    }
}

/// The default storage endpoints; none where none are configured.
pub open spec fn default_backends(config: WarpConfig) -> Seq<MinioConfig> {
    match config.default.minio_config {
        Some(list) => list@,
        None => Seq::empty(),
    }
}

/// Every storage endpoint of the configuration with the key of its pool
/// group: first the default endpoints under `default`, then those of the
/// tenants.
pub open spec fn backend_endpoints(config: WarpConfig) -> Seq<(Seq<char>, MinioConfig)> {
    keyed("default"@, default_backends(config)) + match config.power {
        Some(power) => tenant_backends(power.keys(), power.values()),
        None => Seq::empty(),
    }
}

/// The bounds of the pool of a storage endpoint, or why it has none.
pub open spec fn backend_sizing(endpoint: MinioConfig) -> Result<PoolSizing, PoolInitError> {
    let asked = requested_sizing(
        endpoint.idle_pool_size,
        endpoint.max_pool_size,
        BACKEND_POOL_MAX_SIZE,
    );
    if asked.valid() {
        Ok(asked)
    } else {
        Err(PoolInitError::InvalidSizing)
    }
}

/// `plan` is the plan for the endpoint `endpoint` under the key `key`.
pub open spec fn plan_for(plan: BackendPoolPlan, key: Seq<char>, endpoint: MinioConfig) -> bool {
    &&& plan.config_key@ == key
    &&& plan.manager.spec_endpoint() == endpoint.endpoint@
    &&& plan.manager.spec_access_key() == endpoint.access_key@
    &&& plan.manager.spec_secret_key() == endpoint.secret_key@
    &&& plan.sizing == backend_sizing(endpoint)
}

/// `plans` holds the plans for `endpoints`, one for one.
pub open spec fn plans_for(plans: Seq<BackendPoolPlan>, endpoints: Seq<(Seq<char>, MinioConfig)>) -> bool {
    &&& plans.len() == endpoints.len()
    &&& forall|i: int|
        0 <= i < plans.len() ==> plan_for(#[trigger] plans[i], endpoints[i].0, endpoints[i].1)
}

/// The plan for one endpoint.
pub fn plan_backend_pool(config_key: &str, endpoint: &MinioConfig) -> (r: BackendPoolPlan)
    ensures
        plan_for(r, config_key@, *endpoint),
{
    BackendPoolPlan {
        config_key: config_key.to_owned(),
        manager: MinioConnectionManager::new(
            endpoint.endpoint.clone(),
            endpoint.access_key.clone(),
            endpoint.secret_key.clone(),
        ),
        sizing: pool_sizing(endpoint.idle_pool_size, endpoint.max_pool_size, BACKEND_POOL_MAX_SIZE),
    }
}

/// Adds the plans for the endpoints of `list` under `config_key`.
fn plan_group(plans: &mut Vec<BackendPoolPlan>, config_key: &str, list: &Vec<MinioConfig>)
    ensures
        final(plans)@.len() == old(plans)@.len() + list@.len(),
        forall|i: int| 0 <= i < old(plans)@.len() ==> final(plans)@[i] == old(plans)@[i],
        forall|i: int|
            0 <= i < list@.len() ==> plan_for(
                #[trigger] final(plans)@[old(plans)@.len() + i],
                config_key@,
                list@[i],
            ),
{
    let mut i: usize = 0;
    while i < list.len()
        invariant
            i <= list.len(),
            plans@.len() == old(plans)@.len() + i,
            forall|j: int| 0 <= j < old(plans)@.len() ==> plans@[j] == old(plans)@[j],
            forall|j: int|
                0 <= j < i ==> plan_for(
                    #[trigger] plans@[old(plans)@.len() + j],
                    config_key@,
                    list@[j],
                ),
        decreases list.len() - i,
    {
        plans.push(plan_backend_pool(config_key, &list[i]));
        i += 1;
    }
}

/// The storage pools that are to be built: one plan for every configured
/// endpoint, the default ones first under the key `default`, then those
/// of each tenant under the tenant's key.
pub fn initialize_minio_pools(config: &WarpConfig) -> (r: Vec<BackendPoolPlan>)
    ensures
        plans_for(r@, backend_endpoints(*config)),
{
    let mut plans: Vec<BackendPoolPlan> = Vec::new();
    match &config.default.minio_config {
        Some(list) => plan_group(&mut plans, "default", list),
        None => {},
    }
    let ghost defaults = keyed("default"@, default_backends(*config));
    assert(plans_for(plans@, defaults)) by {
        assert forall|i: int| 0 <= i < plans@.len() implies plan_for(
            #[trigger] plans@[i],
            defaults[i].0,
            defaults[i].1,
        ) by {
            assert(plans@[0 + i] == plans@[i]);
        }
    }
    if let Some(power) = &config.power {
        let n = power.len();
        let ghost keys = power.keys();
        let ghost tenants = power.values();
        let mut g: usize = 0;
        assert(tenant_backends(keys.take(0), tenants.take(0)) =~= Seq::empty());
        assert(defaults + Seq::<(Seq<char>, MinioConfig)>::empty() =~= defaults);
        while g < n
            invariant
                n == keys.len(),
                n == tenants.len(),
                keys == power.keys(),
                tenants == power.values(),
                g <= n,
                plans_for(
                    plans@,
                    defaults + tenant_backends(keys.take(g as int), tenants.take(g as int)),
                ),
            decreases n - g,
        {
            let ghost before = plans@;
            let ghost done = defaults + tenant_backends(
                keys.take(g as int),
                tenants.take(g as int),
            );
            let key = power.key_at(g);
            let tenant = power.value_at(g);
            proof {
                assert(keys.take(g + 1).drop_last() =~= keys.take(g as int));
                assert(tenants.take(g + 1).drop_last() =~= tenants.take(g as int));
                assert(keys.take(g + 1).last() == key@);
                assert(tenants.take(g + 1).last() == *tenant);
            }
            match &tenant.minio_config {
                Some(list) => plan_group(&mut plans, key.as_str(), list),
                None => {},
            }
            proof {
                let added = keyed(key@, tenant.minio_list());
                let all = defaults + tenant_backends(keys.take(g + 1), tenants.take(g + 1));
                assert(all =~= done + added);
                assert forall|i: int| 0 <= i < plans@.len() implies plan_for(
                    #[trigger] plans@[i],
                    all[i].0,
                    all[i].1,
                ) by {
                    if i < before.len() {
                        assert(plans@[i] == before[i]);
                    } else {
                        assert(plans@[before.len() + (i - before.len())] == plans@[i]);
                    }
                }
            }
            g += 1;
        }
        assert(keys.take(n as int) =~= keys);
        assert(tenants.take(n as int) =~= tenants);
    } else {
        assert(defaults + Seq::<(Seq<char>, MinioConfig)>::empty() =~= defaults);
    }
    plans
}

} // verus!
