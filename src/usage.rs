//! Live resource counters per route and per equity class.
//!
//! A tracker is owned by one writer; `&mut` access serialises the
//! read-decide-commit step of each admission. A process that admits from
//! several threads holds the tracker behind a lock.

use vstd::prelude::*;

use crate::keyed::{
    Named,
    find_named,
    lemma_position_after_push,
    lemma_position_after_update,
    lemma_position_from_valid,
    position_of,
};

verus! {

/// Amounts of the three metered resources.
#[derive(Clone, Copy, Debug, PartialEq, Eq, Structural)]
pub struct ResourceAmounts {
    pub power: u64,
    pub energy: u64,
    /// In parts per million of the compute capacity.
    pub compute_fraction: u64,
}

/// Cumulative consumption of one route.
#[derive(Clone, Debug)]
pub struct RouteUsage {
    pub route: String,
    pub totals: ResourceAmounts,
}

/// Cumulative share of one equity class, in parts per million of the pool.
#[derive(Clone, Debug)]
pub struct ClassUsage {
    pub class: String,
    pub share: u64,
}

impl Named for RouteUsage {
    open spec fn name_view(&self) -> Seq<char> {
        self.route@
    }

    fn name(&self) -> (r: &String) {
        &self.route
    }
}

impl Named for ClassUsage {
    open spec fn name_view(&self) -> Seq<char> {
        self.class@
    }

    fn name(&self) -> (r: &String) {
        &self.class
    }
}

/// The totals a route and a class would reach if a demand were committed.
/// Wide integers: a projection never overflows.
#[derive(Clone, Copy, Debug, PartialEq, Eq, Structural)]
pub struct ProjectedUsage {
    pub power: u128,
    pub energy: u128,
    pub compute_fraction: u128,
    /// Present where a class was named.
    pub class_share: Option<u128>,
}

/// Live counters. Nothing but `commit` (and `new`) changes them.
#[derive(Clone, Debug)]
pub struct UsageTracker {
    routes: Vec<RouteUsage>,
    classes: Vec<ClassUsage>,
}

/// No resources at all.
pub open spec fn no_amounts() -> ResourceAmounts {
    ResourceAmounts { power: 0, energy: 0, compute_fraction: 0 }
}

impl UsageTracker {
    pub closed spec fn spec_routes(&self) -> Seq<RouteUsage> {
        self.routes@
    }

    pub closed spec fn spec_classes(&self) -> Seq<ClassUsage> {
        self.classes@
    }

    /// What `route` has consumed so far; zero for a route never used.
    pub open spec fn route_usage(&self, route: Seq<char>) -> ResourceAmounts {
        match position_of(self.spec_routes(), route) {
            Some(i) => self.spec_routes()[i].totals,
            None => no_amounts(),
        }
    }

    /// The share `class` holds so far; zero for a class never used.
    pub open spec fn class_share(&self, class: Seq<char>) -> u64 {
        match position_of(self.spec_classes(), class) {
            Some(i) => self.spec_classes()[i].share,
            None => 0,
        }
    }

    /// The totals after committing `d` on `route` and, where named, `class`.
    pub open spec fn spec_projected(
        &self,
        route: Seq<char>,
        class: Option<Seq<char>>,
        d: ResourceAmounts,
    ) -> ProjectedUsage {
        ProjectedUsage {
            power: (self.route_usage(route).power + d.power) as u128,
            energy: (self.route_usage(route).energy + d.energy) as u128,
            compute_fraction: (self.route_usage(route).compute_fraction
                + d.compute_fraction) as u128,
            class_share: match class {
                Some(c) => Some((self.class_share(c) + d.compute_fraction) as u128),
                None => None,
            },
        }
    }

    /// `d` can be added to the counters it would touch without overflow.
    pub open spec fn can_commit(
        &self,
        route: Seq<char>,
        class: Option<Seq<char>>,
        d: ResourceAmounts,
    ) -> bool {
        &&& self.route_usage(route).power + d.power <= u64::MAX
        &&& self.route_usage(route).energy + d.energy <= u64::MAX
        &&& self.route_usage(route).compute_fraction + d.compute_fraction <= u64::MAX
        &&& match class {
            Some(c) => self.class_share(c) + d.compute_fraction <= u64::MAX,
            None => true,
        }
    }

    /// `after` is `self` with `d` added to `route` and, where named, to the
    /// share of `class`; every other counter is unchanged.
    pub open spec fn commits_to(
        &self,
        after: &UsageTracker,
        route: Seq<char>,
        class: Option<Seq<char>>,
        d: ResourceAmounts,
    ) -> bool {
        &&& forall|r: Seq<char>|
            #![trigger after.route_usage(r)]
            after.route_usage(r) == if r == route {
                ResourceAmounts {
                    power: (self.route_usage(r).power + d.power) as u64,
                    energy: (self.route_usage(r).energy + d.energy) as u64,
                    compute_fraction: (self.route_usage(r).compute_fraction
                        + d.compute_fraction) as u64,
                }
            } else {
                self.route_usage(r)
            }
        &&& forall|c: Seq<char>|
            #![trigger after.class_share(c)]
            after.class_share(c) == if class == Some(c) {
                (self.class_share(c) + d.compute_fraction) as u64
            } else {
                self.class_share(c)
            }
    }

    /// A tracker on which nothing has been consumed.
    pub fn new() -> (r: UsageTracker)
        ensures
            forall|route: Seq<char>| #[trigger] r.route_usage(route) == no_amounts(),
            forall|class: Seq<char>| #[trigger] r.class_share(class) == 0,
    {
        UsageTracker { routes: Vec::new(), classes: Vec::new() }
    }

    /// What `route` has consumed so far.
    pub fn route_totals(&self, route: &str) -> (r: ResourceAmounts)
        ensures
            r == self.route_usage(route@),
    {
        let key = route.to_owned();
        match find_named(&self.routes, &key) {
            Some(i) => self.routes[i].totals,
            None => ResourceAmounts { power: 0, energy: 0, compute_fraction: 0 },
        }
    }

    /// The share `class` holds so far.
    pub fn share_of(&self, class: &str) -> (r: u64)
        ensures
            r == self.class_share(class@),
    {
        let key = class.to_owned();
        match find_named(&self.classes, &key) {
            Some(i) => self.classes[i].share,
            None => 0,
        }
    }

    /// What the totals would become if `demand` were committed, without
    /// committing it.
    pub fn projected_usage(&self, route: &str, class: Option<&str>, demand: ResourceAmounts) -> (r:
        ProjectedUsage)
        ensures
            r == self.spec_projected(
                route@,
                match class {
                    Some(c) => Some(c@),
                    None => None,
                },
                demand,
            ),
    {
        let t = self.route_totals(route);
        let class_share = match class {
            Some(c) => Some(self.share_of(c) as u128 + demand.compute_fraction as u128),
            None => None,
        };
        ProjectedUsage {
            power: t.power as u128 + demand.power as u128,
            energy: t.energy as u128 + demand.energy as u128,
            compute_fraction: t.compute_fraction as u128 + demand.compute_fraction as u128,
            class_share,
        }
    }

    /// Adds `demand` to the counters of `route` and, where named, to the share
    /// of `class`.
    pub fn commit(&mut self, route: &str, class: Option<&str>, demand: ResourceAmounts)
        requires
            old(self).can_commit(
                route@,
                match class {
                    Some(c) => Some(c@),
                    None => None,
                },
                demand,
            ),
        ensures
            old(self).commits_to(
                final(self),
                route@,
                match class {
                    Some(c) => Some(c@),
                    None => None,
                },
                demand,
            ),
    {
        let ghost before = *self;
        let ghost cls: Option<Seq<char>> = match class {
            Some(c) => Some(c@),
            None => None,
        };
        self.add_to_route(route, demand);
        let ghost mid = *self;
        match class {
            Some(c) => {
                self.add_to_class(c, demand.compute_fraction);
            },
            None => {},
        }
        assert forall|r: Seq<char>| #[trigger]
            self.route_usage(r) == mid.route_usage(r) by {}
        assert forall|c: Seq<char>| #[trigger] self.class_share(c) == (if cls == Some(c) {
            (before.class_share(c) + demand.compute_fraction) as u64
        } else {
            before.class_share(c)
        }) by {
            assert(mid.class_share(c) == before.class_share(c));
        }
    }

    fn add_to_route(&mut self, route: &str, d: ResourceAmounts)
        requires
            old(self).route_usage(route@).power + d.power <= u64::MAX,
            old(self).route_usage(route@).energy + d.energy <= u64::MAX,
            old(self).route_usage(route@).compute_fraction + d.compute_fraction <= u64::MAX,
        ensures
            final(self).spec_classes() == old(self).spec_classes(),
            forall|r: Seq<char>|
                #![trigger final(self).route_usage(r)]
                final(self).route_usage(r) == if r == route@ {
                    ResourceAmounts {
                        power: (old(self).route_usage(r).power + d.power) as u64,
                        energy: (old(self).route_usage(r).energy + d.energy) as u64,
                        compute_fraction: (old(self).route_usage(r).compute_fraction
                            + d.compute_fraction) as u64,
                    }
                } else {
                    old(self).route_usage(r)
                },
    {
        let key = route.to_owned();
        let ghost s = self.routes@;
        match find_named(&self.routes, &key) {
            Some(i) => {
                let t = self.routes[i].totals;
                let updated = RouteUsage {
                    route: key,
                    totals: ResourceAmounts {
                        power: t.power + d.power,
                        energy: t.energy + d.energy,
                        compute_fraction: t.compute_fraction + d.compute_fraction,
                    },
                };
                self.routes.set(i, updated);
                assert forall|r: Seq<char>|
                    #![trigger self.route_usage(r)]
                    position_of(self.routes@, r) == position_of(s, r) by {
                    lemma_position_after_update(s, i as int, updated, r, 0);
                }
            },
            None => {
                let added = RouteUsage { route: key, totals: d };
                self.routes.push(added);
                assert forall|r: Seq<char>|
                    #![trigger self.route_usage(r)]
                    position_of(self.routes@, r) == (if r == route@ {
                        Some(s.len() as int)
                    } else {
                        position_of(s, r)
                    }) by {
                    lemma_position_after_push(s, added, r, 0);
                }
                assert(self.routes@[s.len() as int] == added);
            },
        }
        assert forall|r: Seq<char>| #[trigger] self.route_usage(r) == (if r == route@ {
            ResourceAmounts {
                power: (old(self).route_usage(r).power + d.power) as u64,
                energy: (old(self).route_usage(r).energy + d.energy) as u64,
                compute_fraction: (old(self).route_usage(r).compute_fraction
                    + d.compute_fraction) as u64,
            }
        } else {
            old(self).route_usage(r)
        }) by {
            lemma_position_from_valid(s, r, 0);
        }
    }

    fn add_to_class(&mut self, class: &str, amount: u64)
        requires
            old(self).class_share(class@) + amount <= u64::MAX,
        ensures
            final(self).spec_routes() == old(self).spec_routes(),
            forall|c: Seq<char>|
                #![trigger final(self).class_share(c)]
                final(self).class_share(c) == if c == class@ {
                    (old(self).class_share(c) + amount) as u64
                } else {
                    old(self).class_share(c)
                },
    {
        let key = class.to_owned();
        let ghost s = self.classes@;
        match find_named(&self.classes, &key) {
            Some(i) => {
                let updated = ClassUsage { class: key, share: self.classes[i].share + amount };
                self.classes.set(i, updated);
                assert forall|c: Seq<char>|
                    #![trigger self.class_share(c)]
                    position_of(self.classes@, c) == position_of(s, c) by {
                    lemma_position_after_update(s, i as int, updated, c, 0);
                }
            },
            None => {
                let added = ClassUsage { class: key, share: amount };
                self.classes.push(added);
                assert forall|c: Seq<char>|
                    #![trigger self.class_share(c)]
                    position_of(self.classes@, c) == (if c == class@ {
                        Some(s.len() as int)
                    } else {
                        position_of(s, c)
                    }) by {
                    lemma_position_after_push(s, added, c, 0);
                }
                assert(self.classes@[s.len() as int] == added);
            },
        }
        assert forall|c: Seq<char>| #[trigger] self.class_share(c) == (if c == class@ {
            (old(self).class_share(c) + amount) as u64
        } else {
            old(self).class_share(c)
        }) by {
            lemma_position_from_valid(s, c, 0);
        }
    }
}

/// The component-wise sum of a run of demands.
pub open spec fn sum_amounts(ds: Seq<ResourceAmounts>) -> (int, int, int)
    decreases ds.len(),
{
    if ds.len() == 0 {
        (0, 0, 0)
    } else {
        let (p, e, c) = sum_amounts(ds.drop_last());
        (p + ds.last().power, e + ds.last().energy, c + ds.last().compute_fraction)
    }
}

/// No committed delta is lost: after a run of commits `ds` on one route (and
/// one class), the route's totals, and the class's share, have grown by
/// exactly the sum of the deltas. `ts[i + 1]` is `ts[i]` after committing
/// `ds[i]`.
pub proof fn lemma_commits_accumulate(
    ts: Seq<UsageTracker>,
    route: Seq<char>,
    class: Option<Seq<char>>,
    ds: Seq<ResourceAmounts>,
)
    requires
        ts.len() == ds.len() + 1,
        forall|i: int|
            0 <= i < ds.len() ==> #[trigger] ts[i].can_commit(route, class, ds[i]) && ts[i].commits_to(
                &ts[i + 1],
                route,
                class,
                ds[i],
            ),
    ensures
        ts.last().route_usage(route).power == ts[0].route_usage(route).power + sum_amounts(ds).0,
        ts.last().route_usage(route).energy == ts[0].route_usage(route).energy + sum_amounts(ds).1,
        ts.last().route_usage(route).compute_fraction == ts[0].route_usage(route).compute_fraction
            + sum_amounts(ds).2,
        match class {
            Some(c) => ts.last().class_share(c) == ts[0].class_share(c) + sum_amounts(ds).2,
            None => true,
        },
    decreases ds.len(),
{
    if ds.len() > 0 {
        let n = ds.len() - 1;
        lemma_commits_accumulate(ts.drop_last(), route, class, ds.drop_last());
        assert(ts[n].can_commit(route, class, ds[n]));
        assert(ts.drop_last().last() == ts[n]);
        let after = ts[n + 1];
        assert(after.route_usage(route) == ResourceAmounts {
            power: (ts[n].route_usage(route).power + ds[n].power) as u64,
            energy: (ts[n].route_usage(route).energy + ds[n].energy) as u64,
            compute_fraction: (ts[n].route_usage(route).compute_fraction
                + ds[n].compute_fraction) as u64,
        });
        match class {
            Some(c) => {
                assert(after.class_share(c) == (ts[n].class_share(c) + ds[n].compute_fraction) as u64);
            },
            None => {},
        }
    }
}

/// `n` equal demands `d` sum to `n * d` in each component.
pub proof fn lemma_sum_of_equal_amounts(ds: Seq<ResourceAmounts>, d: ResourceAmounts)
    requires
        forall|i: int| 0 <= i < ds.len() ==> ds[i] == d,
    ensures
        sum_amounts(ds) == (ds.len() * d.power, ds.len() * d.energy, ds.len() * d.compute_fraction),
    decreases ds.len(),
{
    if ds.len() > 0 {
        lemma_sum_of_equal_amounts(ds.drop_last(), d);
        let m = ds.len() - 1;
        assert(m * d.power + d.power == ds.len() * d.power) by (nonlinear_arith)
            requires m == ds.len() - 1;
        assert(m * d.energy + d.energy == ds.len() * d.energy) by (nonlinear_arith)
            requires m == ds.len() - 1;
        assert(m * d.compute_fraction + d.compute_fraction == ds.len() * d.compute_fraction) by (nonlinear_arith)
            requires m == ds.len() - 1;
    }
}

/// `n` commits of the same demand `d` on one route leave its totals at the
/// start plus `n * d`, never less.
pub proof fn lemma_equal_commits_accumulate(
    ts: Seq<UsageTracker>,
    route: Seq<char>,
    class: Option<Seq<char>>,
    d: ResourceAmounts,
)
    requires
        ts.len() >= 1,
        forall|i: int|
            0 <= i < ts.len() - 1 ==> #[trigger] ts[i].can_commit(route, class, d) && ts[i].commits_to(
                &ts[i + 1],
                route,
                class,
                d,
            ),
    ensures
        ts.last().route_usage(route).power == ts[0].route_usage(route).power + (ts.len() - 1)
            * d.power,
        ts.last().route_usage(route).energy == ts[0].route_usage(route).energy + (ts.len() - 1)
            * d.energy,
        ts.last().route_usage(route).compute_fraction == ts[0].route_usage(route).compute_fraction
            + (ts.len() - 1) * d.compute_fraction,
        match class {
            Some(c) => ts.last().class_share(c) == ts[0].class_share(c) + (ts.len() - 1)
                * d.compute_fraction,
            None => true,
        },
{
    let ds = Seq::new((ts.len() - 1) as nat, |i: int| d);
    assert forall|i: int| 0 <= i < ds.len() implies #[trigger] ts[i].can_commit(route, class, ds[i])
        && ts[i].commits_to(&ts[i + 1], route, class, ds[i]) by {
        assert(ts[i].can_commit(route, class, d));
    }
    lemma_commits_accumulate(ts, route, class, ds);
    lemma_sum_of_equal_amounts(ds, d);
}

} // verus!
