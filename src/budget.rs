//! The budget specification: route envelopes, equity class bounds and the
//! global risk ceiling, validated once and read-only afterwards.

use vstd::prelude::*;

use crate::keyed::{
    Named,
    find_last_named,
    find_named,
    has_name,
    last_position_of,
    named_at,
    position_of,
};

verus! {

/// `1.0` in parts per million.
pub const SHARE_SCALE: u64 = 1_000_000;

/// Tolerance on the sum of the class floors: `1e-6` in parts per million.
pub const SHARE_EPSILON: u64 = 1;

/// Floor and ceiling of one equity class, in parts per million.
#[derive(Clone, Copy, Debug, PartialEq, Eq, Structural)]
pub struct EquityBounds {
    pub min_share: u64,
    pub max_share: u64,
}

/// One equity class as the configuration names it.
#[derive(Clone, Debug, PartialEq, Eq)]
pub struct EquityClassSpec {
    pub name: String,
    /// Guaranteed fraction of the pool under scarcity (advisory).
    pub min_share: u64,
    /// Fraction of the pool the class may never exceed.
    pub max_share: u64,
}

/// Resource caps of one route.
#[derive(Clone, Debug, PartialEq, Eq)]
pub struct RouteEnvelope {
    pub route: String,
    /// Cap on cumulative power draw.
    pub max_power: u64,
    /// Cap on cumulative energy in the measurement window.
    pub max_cumulative_energy: u64,
    /// Cap on the occupied compute fraction, in parts per million.
    pub max_compute_fraction: u64,
}

impl Named for EquityClassSpec {
    open spec fn name_view(&self) -> Seq<char> {
        self.name@
    }

    fn name(&self) -> (r: &String) {
        &self.name
    }
}

impl Named for RouteEnvelope {
    open spec fn name_view(&self) -> Seq<char> {
        self.route@
    }

    fn name(&self) -> (r: &String) {
        &self.route
    }
}

/// The configuration document a budget specification is built from.
#[derive(Clone, Debug)]
pub struct BudgetConfig {
    /// Risk ceiling that no admitted action may exceed, in parts per million.
    pub global_ceiling: u64,
    /// Whether every action must name an equity class.
    pub require_equity_class: bool,
    pub classes: Vec<EquityClassSpec>,
    pub node_routes: Vec<RouteEnvelope>,
}

/// Why a configuration was refused. Each variant names the offending entry.
#[derive(Clone, Debug, PartialEq, Eq)]
pub enum ConfigError {
    EmptyClassSet,
    MinShareOutOfRange { class: String },
    MaxShareOutOfRange { class: String },
    MinAboveMax { class: String },
    DuplicateClass { class: String },
    MinShareSumExceeded,
    MalformedRouteEnvelope { route: String },
    /// The risk ceiling is a fraction like every other and must lie in
    /// `[0, 1]`.
    GlobalCeilingOutOfRange,
}

/// The first rule that a configuration breaks, by position.
pub enum ConfigFault {
    EmptyClassSet,
    MinShareOutOfRange(int),
    MaxShareOutOfRange(int),
    MinAboveMax(int),
    DuplicateClass(int),
    MinShareSumExceeded,
    MalformedRouteEnvelope(int),
    GlobalCeilingOutOfRange,
}

/// What is wrong with class `i` on its own or against the classes before it.
pub open spec fn class_fault(cs: Seq<EquityClassSpec>, i: int) -> Option<ConfigFault> {
    if cs[i].min_share > SHARE_SCALE {
        Some(ConfigFault::MinShareOutOfRange(i))
    } else if cs[i].max_share > SHARE_SCALE {
        Some(ConfigFault::MaxShareOutOfRange(i))
    } else if cs[i].min_share > cs[i].max_share {
        Some(ConfigFault::MinAboveMax(i))
    } else if has_name(cs.take(i), cs[i].name@) {
        Some(ConfigFault::DuplicateClass(i))
    } else {
        None
    }
}

/// The first faulty class at or after position `i`.
pub open spec fn first_class_fault(cs: Seq<EquityClassSpec>, i: int) -> Option<ConfigFault>
    decreases cs.len() - i,
{
    if i < 0 || i >= cs.len() {
        None
    } else if class_fault(cs, i).is_some() {
        class_fault(cs, i)
    } else {
        first_class_fault(cs, i + 1)
    }
}

/// A route envelope may cap compute at no more than the whole capacity. A
/// route listed more than once is no fault: the last envelope for it holds.
pub open spec fn route_fault(rs: Seq<RouteEnvelope>, i: int) -> Option<ConfigFault> {
    if rs[i].max_compute_fraction > SHARE_SCALE {
        Some(ConfigFault::MalformedRouteEnvelope(i))
    } else {
        None
    }
}

/// The first faulty route envelope at or after position `i`.
pub open spec fn first_route_fault(rs: Seq<RouteEnvelope>, i: int) -> Option<ConfigFault>
    decreases rs.len() - i,
{
    if i < 0 || i >= rs.len() {
        None
    } else if route_fault(rs, i).is_some() {
        route_fault(rs, i)
    } else {
        first_route_fault(rs, i + 1)
    }
}

/// The sum of the class floors.
pub open spec fn sum_min_shares(cs: Seq<EquityClassSpec>) -> int
    decreases cs.len(),
{
    if cs.len() == 0 {
        0
    } else {
        sum_min_shares(cs.drop_last()) + cs.last().min_share
    }
}

/// The first rule that the configuration breaks, checked in a fixed order:
/// the global ceiling (a risk fraction, so within `[0, 1]`), the class set, each class in turn, the sum of the
/// floors, then each route envelope in turn.
pub open spec fn config_fault(
    global_ceiling: u64,
    cs: Seq<EquityClassSpec>,
    rs: Seq<RouteEnvelope>,
) -> Option<ConfigFault> {
    if global_ceiling > SHARE_SCALE {
        Some(ConfigFault::GlobalCeilingOutOfRange)
    } else if cs.len() == 0 {
        Some(ConfigFault::EmptyClassSet)
    } else if first_class_fault(cs, 0).is_some() {
        first_class_fault(cs, 0)
    } else if sum_min_shares(cs) > SHARE_SCALE + SHARE_EPSILON {
        Some(ConfigFault::MinShareSumExceeded)
    } else {
        first_route_fault(rs, 0)
    }
}

/// `e` reports the fault `f` of the classes `cs` and routes `rs`.
pub open spec fn reports(
    e: ConfigError,
    f: ConfigFault,
    cs: Seq<EquityClassSpec>,
    rs: Seq<RouteEnvelope>,
) -> bool {
    match f {
        ConfigFault::EmptyClassSet => e is EmptyClassSet,
        ConfigFault::MinShareOutOfRange(i) => match e {
            ConfigError::MinShareOutOfRange { class } => class@ == cs[i].name@,
            _ => false,
        },
        ConfigFault::MaxShareOutOfRange(i) => match e {
            ConfigError::MaxShareOutOfRange { class } => class@ == cs[i].name@,
            _ => false,
        },
        ConfigFault::MinAboveMax(i) => match e {
            ConfigError::MinAboveMax { class } => class@ == cs[i].name@,
            _ => false,
        },
        ConfigFault::DuplicateClass(i) => match e {
            ConfigError::DuplicateClass { class } => class@ == cs[i].name@,
            _ => false,
        },
        ConfigFault::MinShareSumExceeded => e is MinShareSumExceeded,
        ConfigFault::MalformedRouteEnvelope(i) => match e {
            ConfigError::MalformedRouteEnvelope { route } => route@ == rs[i].route@,
            _ => false,
        },
        ConfigFault::GlobalCeilingOutOfRange => e is GlobalCeilingOutOfRange,
    }
}

/// A validated budget specification. It cannot be changed once built.
#[derive(Clone, Debug)]
pub struct BudgetSpec {
    global_ceiling: u64,
    require_equity_class: bool,
    classes: Vec<EquityClassSpec>,
    routes: Vec<RouteEnvelope>,
}

impl BudgetSpec {
    pub closed spec fn spec_global_ceiling(&self) -> u64 {
        self.global_ceiling
    }

    pub closed spec fn spec_require_equity_class(&self) -> bool {
        self.require_equity_class
    }

    pub closed spec fn spec_classes(&self) -> Seq<EquityClassSpec> {
        self.classes@
    }

    pub closed spec fn spec_routes(&self) -> Seq<RouteEnvelope> {
        self.routes@
    }

    /// Every rule of a configuration holds.
    pub open spec fn wf(&self) -> bool {
        config_fault(self.spec_global_ceiling(), self.spec_classes(), self.spec_routes()).is_none()
    }

    /// The envelope configured for `route`, if any: where the route is
    /// listed more than once, the last envelope listed for it.
    pub open spec fn spec_route_envelope(&self, route: Seq<char>) -> Option<RouteEnvelope> {
        match last_position_of(self.spec_routes(), route) {
            Some(i) => Some(self.spec_routes()[i]),
            None => None,
        }
    }

    /// The bounds configured for `class`, if any.
    pub open spec fn spec_equity_bounds(&self, class: Seq<char>) -> Option<EquityBounds> {
        match position_of(self.spec_classes(), class) {
            Some(i) => Some(
                EquityBounds {
                    min_share: self.spec_classes()[i].min_share,
                    max_share: self.spec_classes()[i].max_share,
                },
            ),
            None => None,
        }
    }

    /// Validates `config` and builds the specification from it; refuses it,
    /// naming the first rule broken, if any rule does not hold.
    pub fn load(config: BudgetConfig) -> (r: Result<BudgetSpec, ConfigError>)
        ensures
            match r {
                Ok(s) => {
                    &&& config_fault(
                        config.global_ceiling,
                        config.classes@,
                        config.node_routes@,
                    ).is_none()
                    &&& s.wf()
                    &&& s.spec_global_ceiling() == config.global_ceiling
                    &&& s.spec_require_equity_class() == config.require_equity_class
                    &&& s.spec_classes() == config.classes@
                    &&& s.spec_routes() == config.node_routes@
                    &&& forall|route: Seq<char>|
                        #[trigger] s.spec_route_envelope(route) == match last_position_of(
                            config.node_routes@,
                            route,
                        ) {
                            Some(i) => Some(config.node_routes@[i]),
                            None => None,
                        }
                },
                Err(e) => {
                    &&& config_fault(
                        config.global_ceiling,
                        config.classes@,
                        config.node_routes@,
                    ).is_some()
                    &&& reports(
                        e,
                        config_fault(
                            config.global_ceiling,
                            config.classes@,
                            config.node_routes@,
                        ).unwrap(),
                        config.classes@,
                        config.node_routes@,
                    )
                },
            },
            r is Ok ==> sum_min_shares(config.classes@) <= SHARE_SCALE + SHARE_EPSILON,
            sum_min_shares(config.classes@) > SHARE_SCALE + SHARE_EPSILON ==> r is Err,
    {
        if config.global_ceiling > SHARE_SCALE {
            return Err(ConfigError::GlobalCeilingOutOfRange);
        }
        if config.classes.len() == 0 {
            return Err(ConfigError::EmptyClassSet);
        }
        match check_classes(&config.classes) {
            Some(e) => {
                return Err(e);
            },
            None => {},
        }
        proof {
            lemma_no_class_fault_from(config.classes@, 0);
            assert forall|k: int| 0 <= k < config.classes.len() implies #[trigger] config.classes@[
                k
            ].min_share <= SHARE_SCALE by {
                assert(class_fault(config.classes@, k).is_none());
            }
        }
        if !min_shares_fit(&config.classes) {
            return Err(ConfigError::MinShareSumExceeded);
        }
        match check_routes(&config.node_routes) {
            Some(e) => {
                return Err(e);
            },
            None => {},
        }
        Ok(
            BudgetSpec {
                global_ceiling: config.global_ceiling,
                require_equity_class: config.require_equity_class,
                classes: config.classes,
                routes: config.node_routes,
            },
        )
    }

    /// The global risk ceiling.
    pub fn global_ceiling(&self) -> (r: u64)
        ensures
            r == self.spec_global_ceiling(),
    {
        self.global_ceiling
    }

    /// Whether every action must name an equity class.
    pub fn require_equity_class(&self) -> (r: bool)
        ensures
            r == self.spec_require_equity_class(),
    {
        self.require_equity_class
    }

    /// The envelope configured for `route`, if any; the last one listed
    /// where the route is listed more than once.
    pub fn route_envelope(&self, route: &str) -> (r: Option<&RouteEnvelope>)
        ensures
            match r {
                Some(e) => self.spec_route_envelope(route@) == Some(*e),
                None => self.spec_route_envelope(route@).is_none(),
            },
    {
        let key = route.to_owned();
        match find_last_named(&self.routes, &key) {
            Some(i) => Some(&self.routes[i]),
            None => None,
        }
    }

    /// The floor and ceiling configured for `class`, if any.
    pub fn equity_bounds(&self, class: &str) -> (r: Option<EquityBounds>)
        ensures
            r == self.spec_equity_bounds(class@),
    {
        let key = class.to_owned();
        match find_named(&self.classes, &key) {
            Some(i) => Some(
                EquityBounds {
                    min_share: self.classes[i].min_share,
                    max_share: self.classes[i].max_share,
                },
            ),
            None => None,
        }
    }
}

/// Every valid specification keeps the sum of its class floors within
/// `1.0` plus the tolerance.
pub proof fn lemma_valid_spec_floors_fit(s: BudgetSpec)
    requires
        s.wf(),
    ensures
        sum_min_shares(s.spec_classes()) <= SHARE_SCALE + SHARE_EPSILON,
{
    lemma_no_class_fault_from(s.spec_classes(), 0);
}

proof fn lemma_no_class_fault_from(cs: Seq<EquityClassSpec>, i: int)
    requires
        0 <= i,
    ensures
        first_class_fault(cs, i).is_none() <==> forall|k: int|
            i <= k < cs.len() ==> #[trigger] class_fault(cs, k).is_none(),
    decreases cs.len() - i,
{
    if i < cs.len() {
        lemma_no_class_fault_from(cs, i + 1);
    }
}

/// Checks each class in turn against the rules of `class_fault`.
fn check_classes(cs: &Vec<EquityClassSpec>) -> (r: Option<ConfigError>)
    ensures
        match r {
            Some(e) => first_class_fault(cs@, 0).is_some() && forall|rs: Seq<RouteEnvelope>|
                #[trigger] reports(e, first_class_fault(cs@, 0).unwrap(), cs@, rs),
            None => first_class_fault(cs@, 0).is_none(),
        },
{
    let mut i: usize = 0;
    while i < cs.len()
        invariant
            i <= cs.len(),
            first_class_fault(cs@, 0) == first_class_fault(cs@, i as int),
        decreases cs.len() - i,
    {
        let c = &cs[i];
        let fault: Option<ConfigError> = if c.min_share > SHARE_SCALE {
            Some(ConfigError::MinShareOutOfRange { class: c.name.clone() })
        } else if c.max_share > SHARE_SCALE {
            Some(ConfigError::MaxShareOutOfRange { class: c.name.clone() })
        } else if c.min_share > c.max_share {
            Some(ConfigError::MinAboveMax { class: c.name.clone() })
        } else if name_before(cs, i, &c.name) {
            Some(ConfigError::DuplicateClass { class: c.name.clone() })
        } else {
            None
        };
        if fault.is_some() {
            return fault;
        }
        assert(class_fault(cs@, i as int).is_none());
        i = i + 1;
    }
    None
}

/// Whether one of the first `i` entries of `v` is named `n`.
fn name_before<T: Named>(v: &Vec<T>, i: usize, n: &String) -> (r: bool)
    requires
        i <= v.len(),
    ensures
        r == has_name(v@.take(i as int), n@),
{
    let mut j: usize = 0;
    while j < i
        invariant
            i <= v.len(),
            j <= i,
            forall|k: int| 0 <= k < j ==> !named_at(v@.take(i as int), n@, k),
        decreases i - j,
    {
        if v[j].name().eq(n) {
            assert(named_at(v@.take(i as int), n@, j as int));
            return true;
        }
        j = j + 1;
    }
    false
}

/// Whether the class floors sum to at most `1.0` plus the tolerance.
fn min_shares_fit(cs: &Vec<EquityClassSpec>) -> (r: bool)
    requires
        forall|k: int| 0 <= k < cs.len() ==> #[trigger] cs@[k].min_share <= SHARE_SCALE,
    ensures
        r == (sum_min_shares(cs@) <= SHARE_SCALE + SHARE_EPSILON),
{
    let mut sum: u64 = 0;
    let mut i: usize = 0;
    while i < cs.len()
        invariant
            i <= cs.len(),
            forall|k: int| 0 <= k < cs.len() ==> #[trigger] cs@[k].min_share <= SHARE_SCALE,
            sum == sum_min_shares(cs@.take(i as int)),
            sum <= SHARE_SCALE + SHARE_EPSILON,
        decreases cs.len() - i,
    {
        assert(cs@.take(i + 1).drop_last() == cs@.take(i as int));
        sum = sum + cs[i].min_share;
        i = i + 1;
        if sum > SHARE_SCALE + SHARE_EPSILON {
            proof {
                lemma_sum_prefix_grows(cs@, i as int);
            }
            return false;
        }
    }
    assert(cs@.take(cs.len() as int) == cs@);
    true
}

/// The floors of a prefix never sum to more than those of the whole.
proof fn lemma_sum_prefix_grows(cs: Seq<EquityClassSpec>, i: int)
    requires
        0 <= i <= cs.len(),
    ensures
        sum_min_shares(cs.take(i)) <= sum_min_shares(cs),
    decreases cs.len() - i,
{
    if i < cs.len() {
        lemma_sum_prefix_grows(cs, i + 1);
        assert(cs.take(i + 1).drop_last() == cs.take(i));
    } else {
        assert(cs.take(i) == cs);
    }
}

/// Checks each route envelope in turn against the rules of `route_fault`.
fn check_routes(rs: &Vec<RouteEnvelope>) -> (r: Option<ConfigError>)
    ensures
        match r {
            Some(e) => first_route_fault(rs@, 0).is_some() && forall|cs: Seq<EquityClassSpec>|
                #[trigger] reports(e, first_route_fault(rs@, 0).unwrap(), cs, rs@),
            None => first_route_fault(rs@, 0).is_none(),
        },
{
    let mut i: usize = 0;
    while i < rs.len()
        invariant
            i <= rs.len(),
            first_route_fault(rs@, 0) == first_route_fault(rs@, i as int),
        decreases rs.len() - i,
    {
        let e = &rs[i];
        if e.max_compute_fraction > SHARE_SCALE {
            return Some(ConfigError::MalformedRouteEnvelope { route: e.route.clone() });
        }
        assert(route_fault(rs@, i as int).is_none());
        i = i + 1;
    }
    None
}

} // verus!
