//! The port reconciler: keeps the set of SSH TCP forwards in line with the set
//! of ports that running containers publish on the host.
//!
//! The application lists containers and runs `ssh -O forward` / `ssh -O cancel`;
//! this module decides which ports to open and close and tracks which forwards
//! are up.

use vstd::prelude::*;
use crate::text::{dec, u64_to_string};

verus! {

/// One port mapping of a container, as the engine lists it.
pub struct PortMapping {
    /// The port published on the host, if the mapping publishes one.
    pub public_port: Option<u16>,
}

/// A running container, reduced to what the reconciler reads: its port mappings.
pub struct ContainerPorts {
    /// The container's port mappings, when the engine reported any.
    pub ports: Option<Vec<PortMapping>>,
}

/// Whether container `c` publishes host port `p`.
pub open spec fn publishes(c: ContainerPorts, p: u16) -> bool {
    match c.ports {
        Some(v) => exists|j: int| 0 <= j < v@.len() && #[trigger] v@[j].public_port == Some(p),
        None => false,
    }
}

/// The set of host ports published across the containers.
pub open spec fn published(cs: Seq<ContainerPorts>) -> Set<u16> {
    Set::new(|p: u16| exists|i: int| 0 <= i < cs.len() && publishes(#[trigger] cs[i], p))
}

/// Every element is smaller than every later one.
pub open spec fn strictly_increasing(s: Seq<u16>) -> bool {
    forall|i: int, j: int| 0 <= i < j < s.len() ==> s[i] < s[j]
}

proof fn lemma_increasing_no_duplicates(s: Seq<u16>)
    requires
        strictly_increasing(s),
    ensures
        s.no_duplicates(),
{
    assert forall|i: int, j: int| 0 <= i < s.len() && 0 <= j < s.len() && i != j implies s[i]
        != s[j] by {
        if i < j {
            assert(s[i] < s[j]);
        } else {
            assert(s[j] < s[i]);
        }
    }
}

/// The host ports published by the containers, each once, in increasing order.
pub fn desired_ports(containers: &Vec<ContainerPorts>) -> (ports: Vec<u16>)
    ensures
        strictly_increasing(ports@),
        ports@.no_duplicates(),
        ports@.to_set() == published(containers@),
{
    let mut seen: Vec<bool> = Vec::new();
    let mut k: usize = 0;
    while k < 65536
        invariant
            k <= 65536,
            seen@.len() == k,
            forall|q: int| 0 <= q < k ==> !(#[trigger] seen@[q]),
        decreases 65536 - k,
    {
        seen.push(false);
        k = k + 1;
    }
    let n = containers.len();
    let mut i: usize = 0;
    while i < n
        invariant
            n == containers@.len(),
            i <= n,
            seen@.len() == 65536,
            forall|q: u16|
                #![trigger seen@[q as int]]
                seen@[q as int] <==> exists|i2: int|
                    0 <= i2 < i && publishes(#[trigger] containers@[i2], q),
        decreases n - i,
    {
        match &containers[i].ports {
            Some(v) => {
                let m = v.len();
                let mut j: usize = 0;
                while j < m
                    invariant
                        m == v@.len(),
                        j <= m,
                        i < n,
                        n == containers@.len(),
                        containers@[i as int].ports == Some(*v),
                        seen@.len() == 65536,
                        forall|q: u16|
                            #![trigger seen@[q as int]]
                            seen@[q as int] <==> (exists|i2: int|
                                0 <= i2 < i && publishes(#[trigger] containers@[i2], q)) || (exists|
                                j2: int,
                            |
                                0 <= j2 < j && #[trigger] v@[j2].public_port == Some(q)),
                    decreases m - j,
                {
                    if let Some(p) = v[j].public_port {
                        seen.set(p as usize, true);
                        proof {
                            assert(v@[j as int].public_port == Some(p));
                        }
                    }
                    j = j + 1;
                }
                proof {
                    assert forall|q: u16| #![trigger seen@[q as int]] seen@[q as int] <==> exists|
                        i2: int,
                    | 0 <= i2 < i + 1 && publishes(#[trigger] containers@[i2], q) by {
                        if seen@[q as int] {
                            if !(exists|i2: int|
                                0 <= i2 < i && publishes(#[trigger] containers@[i2], q)) {
                                let j2 = choose|j2: int|
                                    0 <= j2 < m && #[trigger] v@[j2].public_port == Some(q);
                                assert(publishes(containers@[i as int], q));
                            }
                        } else {
                            if publishes(containers@[i as int], q) {
                                let j2 = choose|j2: int|
                                    0 <= j2 < v@.len() && #[trigger] v@[j2].public_port == Some(
                                        q,
                                    );
                                assert(false);
                            }
                        }
                    }
                }
            },
            None => {
                proof {
                    assert forall|q: u16| #![trigger seen@[q as int]] seen@[q as int] <==> exists|
                        i2: int,
                    | 0 <= i2 < i + 1 && publishes(#[trigger] containers@[i2], q) by {
                        if exists|i2: int| 0 <= i2 < i + 1 && publishes(#[trigger] containers@[i2], q) {
                            let i2 = choose|i2: int|
                                0 <= i2 < i + 1 && publishes(#[trigger] containers@[i2], q);
                            assert(i2 != i);
                        }
                    }
                }
            },
        }
        i = i + 1;
    }
    let mut ports: Vec<u16> = Vec::new();
    let mut q: u32 = 0;
    while q < 65536
        invariant
            q <= 65536,
            seen@.len() == 65536,
            strictly_increasing(ports@),
            forall|t: int| 0 <= t < ports@.len() ==> (#[trigger] ports@[t]) < q,
            forall|p: u16| #![trigger ports@.contains(p)] ports@.contains(p) <==> (p < q && seen@[p as int]),
        decreases 65536 - q,
    {
        if seen[q as usize] {
            let ghost old_ports = ports@;
            ports.push(q as u16);
            proof {
                assert forall|p: u16| #![trigger ports@.contains(p)] ports@.contains(p) <==> (p < q
                    + 1 && seen@[p as int]) by {
                    if ports@.contains(p) {
                        let t = choose|t: int| 0 <= t < ports@.len() && ports@[t] == p;
                        if t < old_ports.len() {
                            assert(old_ports[t] == p);
                            assert(old_ports.contains(p));
                        }
                    }
                    if p < q + 1 && seen@[p as int] {
                        if p == q {
                            assert(ports@[old_ports.len() as int] == p);
                        } else {
                            assert(old_ports.contains(p));
                            let t = choose|t: int| 0 <= t < old_ports.len() && old_ports[t] == p;
                            assert(ports@[t] == p);
                        }
                    }
                }
            }
        } else {
            proof {
                assert forall|p: u16| #![trigger ports@.contains(p)] ports@.contains(p) <==> (p < q
                    + 1 && seen@[p as int]) by {
                    if p == q && ports@.contains(p) {
                        let t = choose|t: int| 0 <= t < ports@.len() && ports@[t] == p;
                        assert(ports@[t] < q);
                    }
                }
            }
        }
        q = q + 1;
    }
    proof {
        lemma_increasing_no_duplicates(ports@);
        assert forall|p: u16| ports@.to_set().contains(p) <==> #[trigger] published(
            containers@,
        ).contains(p) by {
            assert(ports@.contains(p) <==> seen@[p as int]);
        }
        assert(ports@.to_set() =~= published(containers@));
    }
    ports
}

} // verus!

verus! {

/// The predicate "not a member of `s`".
pub open spec fn not_in(s: Set<u16>) -> spec_fn(u16) -> bool {
    |p: u16| !s.contains(p)
}

/// The ports to open: those wanted that are not forwarded yet, in the order wanted.
pub open spec fn plan_adds(current: Set<u16>, desired: Seq<u16>) -> Seq<u16> {
    desired.filter(not_in(current))
}

/// The ports to close: those forwarded that are no longer wanted.
pub open spec fn plan_removes(current: Set<u16>, desired: Seq<u16>) -> Set<u16> {
    current.difference(desired.to_set())
}

/// The ports of `adds` whose forward was opened, by `ok` taken index by index.
pub open spec fn opened(adds: Seq<u16>, ok: Seq<bool>) -> Set<u16> {
    Set::new(|p: u16| exists|i: int| 0 <= i < adds.len() && adds[i] == p && #[trigger] ok[i])
}

/// The forwards after a reconcile round: the closed ports are gone and the
/// ports whose forward opened are added.
pub open spec fn after_round(current: Set<u16>, adds: Seq<u16>, ok: Seq<bool>, removes: Seq<u16>) -> Set<
    u16,
> {
    current.difference(removes.to_set()).union(opened(adds, ok))
}

/// What one reconcile round asks for: forwards to open, then forwards to close.
pub struct ReconcilePlan {
    /// Ports to forward, in order.
    pub add: Vec<u16>,
    /// Ports to stop forwarding.
    pub remove: Vec<u16>,
}

/// The set of host ports currently forwarded to localhost.
pub struct Forwards {
    ports: Vec<u16>,
}

impl View for Forwards {
    type V = Set<u16>;

    closed spec fn view(&self) -> Set<u16> {
        self.ports@.to_set()
    }
}

impl Forwards {
    #[verifier::type_invariant]
    spec fn well_formed(&self) -> bool {
        self.ports@.no_duplicates()
    }

    /// No forwards yet.
    pub fn new() -> (f: Forwards)
        ensures
            f@ == Set::<u16>::empty(),
    {
        let f = Forwards { ports: Vec::new() };
        proof {
            assert(f.ports@.to_set() =~= Set::<u16>::empty());
        }
        f
    }

    /// The forwarded ports, each once.
    pub fn ports(&self) -> (v: Vec<u16>)
        ensures
            v@.to_set() == self@,
            v@.no_duplicates(),
    {
        proof {
            use_type_invariant(self);
        }
        self.ports.clone()
    }

    /// Whether `port` is forwarded.
    pub fn contains(&self, port: u16) -> (r: bool)
        ensures
            r == self@.contains(port),
    {
        let n = self.ports.len();
        let mut i: usize = 0;
        while i < n
            invariant
                n == self.ports@.len(),
                i <= n,
                forall|k: int| 0 <= k < i ==> self.ports@[k] != port,
            decreases n - i,
        {
            if self.ports[i] == port {
                return true;
            }
            i = i + 1;
        }
        false
    }

    /// The round that brings the forwards in line with `desired`: open what is
    /// wanted and missing, close what is forwarded and no longer wanted.
    pub fn plan(&self, desired: &Vec<u16>) -> (plan: ReconcilePlan)
        requires
            desired@.no_duplicates(),
        ensures
            plan.add@ == plan_adds(self@, desired@),
            plan.add@.no_duplicates(),
            plan.remove@.to_set() == plan_removes(self@, desired@),
            plan.remove@.no_duplicates(),
    {
        proof {
            use_type_invariant(self);
        }
        let mut add: Vec<u16> = Vec::new();
        let n = desired.len();
        let mut i: usize = 0;
        while i < n
            invariant
                n == desired@.len(),
                i <= n,
                desired@.no_duplicates(),
                add@ == desired@.take(i as int).filter(not_in(self@)),
                add@.no_duplicates(),
                forall|p: u16| add@.contains(p) ==> #[trigger] desired@.take(i as int).contains(p),
            decreases n - i,
        {
            let p = desired[i];
            let ghost before = add@;
            proof {
                assert(desired@.take(i + 1).drop_last() == desired@.take(i as int));
                assert(desired@.take(i + 1).last() == p);
            }
            if !self.contains(p) {
                add.push(p);
                proof {
                    assert forall|a: int, b: int|
                        0 <= a < add@.len() && 0 <= b < add@.len() && a != b implies add@[a]
                        != add@[b] by {
                        if a == before.len() && b < before.len() {
                            assert(before.contains(add@[b]));
                            assert(desired@.take(i as int).contains(add@[b]));
                            let t = choose|t: int|
                                0 <= t < i && desired@.take(i as int)[t] == add@[b];
                            assert(desired@.take(i as int)[t] == desired@[t]);
                        } else if b == before.len() && a < before.len() {
                            assert(before.contains(add@[a]));
                            assert(desired@.take(i as int).contains(add@[a]));
                            let t = choose|t: int|
                                0 <= t < i && desired@.take(i as int)[t] == add@[a];
                            assert(desired@.take(i as int)[t] == desired@[t]);
                        }
                    }
                }
            }
            proof {
                assert forall|q: u16| add@.contains(q) implies #[trigger] desired@.take(
                    i + 1,
                ).contains(q) by {
                    let t = choose|t: int| 0 <= t < add@.len() && add@[t] == q;
                    if t < before.len() {
                        assert(before[t] == q);
                        assert(before.contains(q));
                        assert(desired@.take(i as int).contains(q));
                        let u = choose|u: int| 0 <= u < i && desired@.take(i as int)[u] == q;
                        assert(desired@.take(i + 1)[u] == q);
                    } else {
                        assert(add@[t] == p);
                        assert(desired@.take(i + 1)[i as int] == q);
                    }
                }
                let t1 = desired@.take(i + 1);
                reveal_with_fuel(Seq::<_>::filter, 1);
                assert(t1.filter(not_in(self@)) == (if not_in(self@)(t1.last()) {
                    t1.drop_last().filter(not_in(self@)).push(t1.last())
                } else {
                    t1.drop_last().filter(not_in(self@))
                }));
            }
            i = i + 1;
        }
        proof {
            assert(desired@.take(n as int) == desired@);
        }
        let mut remove: Vec<u16> = Vec::new();
        let m = self.ports.len();
        let mut j: usize = 0;
        while j < m
            invariant
                m == self.ports@.len(),
                n == desired@.len(),
                j <= m,
                self.ports@.no_duplicates(),
                remove@.no_duplicates(),
                forall|p: u16|
                    #![trigger remove@.contains(p)]
                    remove@.contains(p) <==> (exists|k: int|
                        0 <= k < j && self.ports@[k] == p) && !desired@.contains(p),
            decreases m - j,
        {
            let p = self.ports[j];
            let ghost before = remove@;
            let mut wanted = false;
            let mut k: usize = 0;
            while k < n
                invariant
                    n == desired@.len(),
                    k <= n,
                    wanted == (exists|t: int| 0 <= t < k && desired@[t] == p),
                decreases n - k,
            {
                if desired[k] == p {
                    wanted = true;
                }
                k = k + 1;
            }
            if !wanted {
                remove.push(p);
                proof {
                    assert forall|a: int, b: int|
                        0 <= a < remove@.len() && 0 <= b < remove@.len() && a != b implies remove@[a]
                        != remove@[b] by {
                        if a == before.len() && b < before.len() {
                            assert(before.contains(remove@[b]));
                            let t = choose|t: int| 0 <= t < j && self.ports@[t] == remove@[b];
                            assert(self.ports@[t] != self.ports@[j as int]);
                        } else if b == before.len() && a < before.len() {
                            assert(before.contains(remove@[a]));
                            let t = choose|t: int| 0 <= t < j && self.ports@[t] == remove@[a];
                            assert(self.ports@[t] != self.ports@[j as int]);
                        }
                    }
                }
            }
            proof {
                assert forall|q: u16| #![trigger remove@.contains(q)] remove@.contains(q) <==> (exists|
                    t: int,
                | 0 <= t < j + 1 && self.ports@[t] == q) && !desired@.contains(q) by {
                    if remove@.contains(q) {
                        let t = choose|t: int| 0 <= t < remove@.len() && remove@[t] == q;
                        if t < before.len() {
                            assert(before.contains(q));
                        } else {
                            assert(self.ports@[j as int] == q);
                            if desired@.contains(q) {
                                let u = choose|u: int| 0 <= u < n && desired@[u] == q;
                                assert(desired@[u] == p);
                            }
                        }
                    }
                    if (exists|t: int| 0 <= t < j + 1 && self.ports@[t] == q) && !desired@.contains(
                        q,
                    ) {
                        let t = choose|t: int| 0 <= t < j + 1 && self.ports@[t] == q;
                        if t < j {
                            assert(before.contains(q));
                            let u = choose|u: int| 0 <= u < before.len() && before[u] == q;
                            assert(remove@[u] == q);
                        } else {
                            assert(!wanted);
                            assert(remove@[before.len() as int] == q);
                        }
                    }
                }
            }
            j = j + 1;
        }
        proof {
            assert forall|q: u16| #[trigger] remove@.to_set().contains(q) <==> plan_removes(
                self@,
                desired@,
            ).contains(q) by {
                if self.ports@.contains(q) {
                    let t = choose|t: int| 0 <= t < m && self.ports@[t] == q;
                }
            }
            assert(remove@.to_set() =~= plan_removes(self@, desired@));
        }
        ReconcilePlan { add, remove }
    }


    /// Record the outcome of a round: the closed ports are dropped, and each port
    /// of `plan.add` whose forward opened (`opened_ok` at the same index) is added.
    pub fn apply(&mut self, plan: &ReconcilePlan, opened_ok: &Vec<bool>)
        requires
            opened_ok@.len() == plan.add@.len(),
        ensures
            final(self)@ == after_round(old(self)@, plan.add@, opened_ok@, plan.remove@),
    {
        proof {
            use_type_invariant(&*self);
        }
        let ghost goal = after_round(self@, plan.add@, opened_ok@, plan.remove@);
        let mut kept: Vec<u16> = Vec::new();
        let n = self.ports.len();
        let r = plan.remove.len();
        let mut i: usize = 0;
        while i < n
            invariant
                n == self.ports@.len(),
                r == plan.remove@.len(),
                self.ports@.no_duplicates(),
                i <= n,
                kept@.no_duplicates(),
                forall|p: u16|
                    #![trigger kept@.contains(p)]
                    kept@.contains(p) <==> (exists|k: int| 0 <= k < i && self.ports@[k] == p)
                        && !plan.remove@.contains(p),
            decreases n - i,
        {
            let p = self.ports[i];
            let ghost before = kept@;
            let mut gone = false;
            let mut k: usize = 0;
            while k < r
                invariant
                    r == plan.remove@.len(),
                    k <= r,
                    gone == (exists|t: int| 0 <= t < k && plan.remove@[t] == p),
                decreases r - k,
            {
                if plan.remove[k] == p {
                    gone = true;
                }
                k = k + 1;
            }
            if !gone {
                kept.push(p);
                proof {
                    assert forall|a: int, b: int|
                        0 <= a < kept@.len() && 0 <= b < kept@.len() && a != b implies kept@[a]
                        != kept@[b] by {
                        if a == before.len() && b < before.len() {
                            assert(before.contains(kept@[b]));
                            let t = choose|t: int| 0 <= t < i && self.ports@[t] == kept@[b];
                            assert(self.ports@[t] != self.ports@[i as int]);
                        } else if b == before.len() && a < before.len() {
                            assert(before.contains(kept@[a]));
                            let t = choose|t: int| 0 <= t < i && self.ports@[t] == kept@[a];
                            assert(self.ports@[t] != self.ports@[i as int]);
                        }
                    }
                }
            }
            proof {
                assert forall|q: u16| #![trigger kept@.contains(q)] kept@.contains(q) <==> (exists|
                    t: int,
                | 0 <= t < i + 1 && self.ports@[t] == q) && !plan.remove@.contains(q) by {
                    if kept@.contains(q) {
                        let t = choose|t: int| 0 <= t < kept@.len() && kept@[t] == q;
                        if t < before.len() {
                            assert(before[t] == q);
                            assert(before.contains(q));
                        } else {
                            assert(self.ports@[i as int] == q);
                            if plan.remove@.contains(q) {
                                let u = choose|u: int| 0 <= u < r && plan.remove@[u] == q;
                                assert(plan.remove@[u] == p);
                            }
                        }
                    }
                    if (exists|t: int| 0 <= t < i + 1 && self.ports@[t] == q)
                        && !plan.remove@.contains(q) {
                        let t = choose|t: int| 0 <= t < i + 1 && self.ports@[t] == q;
                        if t < i {
                            assert(before.contains(q));
                            let u = choose|u: int| 0 <= u < before.len() && before[u] == q;
                            assert(kept@[u] == q);
                        } else {
                            assert(!gone);
                            assert(kept@[before.len() as int] == q);
                        }
                    }
                }
            }
            i = i + 1;
        }
        let a = plan.add.len();
        let mut j: usize = 0;
        while j < a
            invariant
                a == plan.add@.len(),
                a == opened_ok@.len(),
                j <= a,
                kept@.no_duplicates(),
                forall|p: u16|
                    #![trigger kept@.contains(p)]
                    kept@.contains(p) <==> ((self.ports@.contains(p) && !plan.remove@.contains(p))
                        || (exists|k: int| 0 <= k < j && plan.add@[k] == p && opened_ok@[k])),
            decreases a - j,
        {
            let p = plan.add[j];
            let ghost before = kept@;
            if opened_ok[j] {
                let mut present = false;
                let m = kept.len();
                let mut k: usize = 0;
                while k < m
                    invariant
                        m == kept@.len(),
                        k <= m,
                        present == (exists|t: int| 0 <= t < k && kept@[t] == p),
                    decreases m - k,
                {
                    if kept[k] == p {
                        present = true;
                    }
                    k = k + 1;
                }
                if !present {
                    kept.push(p);
                    proof {
                        assert forall|x: int, y: int|
                            0 <= x < kept@.len() && 0 <= y < kept@.len() && x != y implies kept@[x]
                            != kept@[y] by {
                            if x == before.len() && y < before.len() {
                                assert(before[y] == kept@[y]);
                            } else if y == before.len() && x < before.len() {
                                assert(before[x] == kept@[x]);
                            }
                        }
                    }
                }
            }
            proof {
                assert forall|q: u16| #![trigger kept@.contains(q)] kept@.contains(q) <==> ((
                self.ports@.contains(q) && !plan.remove@.contains(q)) || (exists|k: int|
                    0 <= k < j + 1 && plan.add@[k] == q && opened_ok@[k])) by {
                    if kept@.contains(q) {
                        let t = choose|t: int| 0 <= t < kept@.len() && kept@[t] == q;
                        if t < before.len() {
                            assert(before[t] == q);
                            assert(before.contains(q));
                        } else {
                            assert(plan.add@[j as int] == q && opened_ok@[j as int]);
                        }
                    }
                    if exists|k: int| 0 <= k < j + 1 && plan.add@[k] == q && opened_ok@[k] {
                        let k = choose|k: int| 0 <= k < j + 1 && plan.add@[k] == q && opened_ok@[k];
                        if k < j {
                            assert(before.contains(q));
                            let u = choose|u: int| 0 <= u < before.len() && before[u] == q;
                            assert(kept@[u] == q);
                        } else if before.contains(q) {
                            let u = choose|u: int| 0 <= u < before.len() && before[u] == q;
                            assert(kept@[u] == q);
                        } else {
                            assert(kept@[before.len() as int] == q);
                        }
                    }
                    if self.ports@.contains(q) && !plan.remove@.contains(q) {
                        assert(before.contains(q));
                        let u = choose|u: int| 0 <= u < before.len() && before[u] == q;
                        assert(kept@[u] == q);
                    }
                }
            }
            j = j + 1;
        }
        proof {
            assert forall|q: u16| #[trigger] kept@.to_set().contains(q) <==> goal.contains(q) by {
                if self.ports@.contains(q) {
                    let t = choose|t: int| 0 <= t < n && self.ports@[t] == q;
                }
                if opened(plan.add@, opened_ok@).contains(q) {
                    let k = choose|k: int|
                        0 <= k < plan.add@.len() && plan.add@[k] == q && #[trigger] opened_ok@[k];
                }
            }
            assert(kept@.to_set() =~= goal);
        }
        self.ports = kept;
    }

    /// The ports a round should aim for after listing the containers: what the
    /// listing gave, or, when the listing failed, the forwards as they are.
    pub fn desired_after_listing(&self, listed: Option<Vec<u16>>) -> (d: Vec<u16>)
        ensures
            listed is Some ==> d@ == listed->0@,
            listed is None ==> d@.to_set() == self@ && d@.no_duplicates(),
    {
        match listed {
            Some(v) => v,
            None => self.ports(),
        }
    }
}

proof fn lemma_adds_contain(current: Set<u16>, desired: Seq<u16>, p: u16)
    ensures
        plan_adds(current, desired).contains(p) <==> (desired.contains(p) && !current.contains(p)),
{
    let f = not_in(current);
    if plan_adds(current, desired).contains(p) {
        desired.lemma_filter_contains_rev(f, p);
        let i = choose|i: int|
            0 <= i < desired.filter(f).len() && desired.filter(f)[i] == p;
        desired.lemma_filter_pred(f, i);
    }
    if desired.contains(p) && !current.contains(p) {
        let i = choose|i: int| 0 <= i < desired.len() && desired[i] == p;
        desired.lemma_filter_contains(f, i);
    }
}

/// A round in which every forward opens leaves exactly the desired ports forwarded.
pub proof fn lemma_round_reaches_desired(
    current: Set<u16>,
    desired: Seq<u16>,
    removes: Seq<u16>,
    ok: Seq<bool>,
)
    requires
        removes.to_set() == plan_removes(current, desired),
        ok.len() == plan_adds(current, desired).len(),
        forall|i: int| 0 <= i < ok.len() ==> ok[i],
    ensures
        after_round(current, plan_adds(current, desired), ok, removes) == desired.to_set(),
{
    let adds = plan_adds(current, desired);
    let res = after_round(current, adds, ok, removes);
    assert forall|p: u16| #[trigger] res.contains(p) <==> desired.to_set().contains(p) by {
        lemma_adds_contain(current, desired, p);
        if adds.contains(p) {
            let i = choose|i: int| 0 <= i < adds.len() && adds[i] == p;
            assert(ok[i]);
            assert(opened(adds, ok).contains(p));
        }
        if opened(adds, ok).contains(p) {
            let i = choose|i: int| 0 <= i < adds.len() && adds[i] == p && #[trigger] ok[i];
            assert(adds.contains(p));
        }
        assert(removes.to_set().contains(p) == removes.contains(p));
    }
    assert(res =~= desired.to_set());
}

/// Whatever opens, a round never leaves a port forwarded that is not desired,
/// and never closes a forward that is still desired.
pub proof fn lemma_round_within_desired(
    current: Set<u16>,
    desired: Seq<u16>,
    removes: Seq<u16>,
    ok: Seq<bool>,
)
    requires
        removes.to_set() == plan_removes(current, desired),
        ok.len() == plan_adds(current, desired).len(),
    ensures
        after_round(current, plan_adds(current, desired), ok, removes).subset_of(desired.to_set()),
        current.intersect(desired.to_set()).subset_of(
            after_round(current, plan_adds(current, desired), ok, removes),
        ),
{
    let adds = plan_adds(current, desired);
    let res = after_round(current, adds, ok, removes);
    assert forall|p: u16| #[trigger] res.contains(p) implies desired.to_set().contains(p) by {
        lemma_adds_contain(current, desired, p);
        assert(removes.to_set().contains(p) == removes.contains(p));
        if opened(adds, ok).contains(p) {
            let i = choose|i: int| 0 <= i < adds.len() && adds[i] == p && #[trigger] ok[i];
            assert(adds.contains(p));
        }
    }
    assert forall|p: u16| #[trigger] current.intersect(desired.to_set()).contains(p) implies res.contains(
        p,
    ) by {
        assert(removes.to_set().contains(p) == removes.contains(p));
    }
}

/// When the forwards already match the desired ports, a round has nothing to do.
pub proof fn lemma_settled_round_is_empty(current: Set<u16>, desired: Seq<u16>)
    requires
        current == desired.to_set(),
    ensures
        plan_adds(current, desired).len() == 0,
        plan_removes(current, desired) == Set::<u16>::empty(),
{
    let adds = plan_adds(current, desired);
    if adds.len() > 0 {
        lemma_adds_contain(current, desired, adds[0]);
        assert(adds.contains(adds[0]));
    }
    assert(plan_removes(current, desired) =~= Set::<u16>::empty());
}

/// The line printed when a forward opens.
pub fn added_line(port: u16) -> (r: String)
    ensures
        r@ == "  + forwarding localhost:"@ + dec(port as nat) + " \u{2192} host:"@ + dec(port as nat),
{
    let p = u64_to_string(port as u64);
    String::from_str("  + forwarding localhost:").concat(p.as_str()).concat(" \u{2192} host:").concat(
        p.as_str(),
    )
}

/// The line printed when a forward could not be opened, with the reason.
pub fn failed_line(port: u16, reason: &str) -> (r: String)
    ensures
        r@ == "  ! could not forward "@ + dec(port as nat) + ": "@ + reason@,
{
    String::from_str("  ! could not forward ").concat(u64_to_string(port as u64).as_str()).concat(
        ": ",
    ).concat(reason)
}

/// The line printed when a forward is closed.
pub fn stopped_line(port: u16) -> (r: String)
    ensures
        r@ == "  - stopped forwarding "@ + dec(port as nat),
{
    String::from_str("  - stopped forwarding ").concat(u64_to_string(port as u64).as_str())
}

} // verus!
