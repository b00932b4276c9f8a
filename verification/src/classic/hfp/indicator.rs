//! Indicators and their values.

use std::collections::BTreeSet;
use vstd::prelude::*;
use crate::bytes;
use crate::classic::at::{AtParameter, AtParameterModel};
use crate::classic::hfp::values::{AgIndicator, HfIndicator};
use crate::models;
use crate::text;

verus! {

broadcast use {vstd::std_specs::btree::group_btree_axioms, vstd::laws_cmp::group_laws_cmp};

// ---------------------------------------------------------------------------
// Sets of values
// ---------------------------------------------------------------------------

/// Whether each number is less than the next.
pub open spec fn increasing(s: Seq<u32>) -> bool {
    forall|i: int, j: int| 0 <= i < j < s.len() ==> s[i] < s[j]
}

/// The numbers of a set in ascending order.
pub open spec fn ascending(values: Set<u32>) -> Seq<u32> {
    choose|s: Seq<u32>| #[trigger] increasing(s) && s.to_set() == values
}

/// The numbers from `lo` to `hi`.
pub open spec fn values_between(lo: u32, hi: u32) -> Set<u32> {
    Set::new(|v: u32| lo <= v <= hi)
}

/// The last of ascending numbers is the greatest.
proof fn lemma_last_is_greatest(s: Seq<u32>, v: u32)
    requires
        increasing(s),
        s.to_set().contains(v),
    ensures
        v <= s.last(),
        s.drop_last().to_set() == s.to_set().remove(s.last()),
{
    let i = choose|i: int| 0 <= i < s.len() && s[i] == v;
    let n = s.len() - 1;
    if i < n {
        assert(s[i] < s[n]);
    }
    assert forall|x: u32| s.drop_last().to_set().contains(x) == s.to_set().remove(
        s.last(),
    ).contains(x) by {
        if s.drop_last().contains(x) {
            let k = choose|k: int| 0 <= k < s.drop_last().len() && s.drop_last()[k] == x;
            assert(s[k] == x);
            assert(s[k] < s[n]);
        }
        if s.contains(x) && x != s.last() {
            let k = choose|k: int| 0 <= k < s.len() && s[k] == x;
            assert(s.drop_last()[k] == x);
        }
    }
    assert(s.drop_last().to_set() =~= s.to_set().remove(s.last()));
}

/// There is one ascending order of a set.
pub proof fn lemma_ascending_is_unique(a: Seq<u32>, b: Seq<u32>)
    requires
        increasing(a),
        increasing(b),
        a.to_set() == b.to_set(),
    ensures
        a == b,
    decreases a.len(),
{
    if a.len() == 0 {
        if b.len() > 0 {
            assert(b.contains(b[0]));
            assert(a.to_set().contains(b[0]));
        }
        assert(a =~= b);
    } else {
        assert(a.contains(a[0]));
        assert(b.to_set().contains(a[0]));
        assert(b.len() > 0);
        assert(a.contains(a.last()));
        assert(b.contains(b.last()));
        lemma_last_is_greatest(b, a.last());
        lemma_last_is_greatest(a, b.last());
        lemma_ascending_is_unique(a.drop_last(), b.drop_last());
        assert(a =~= a.drop_last().push(a.last()));
        assert(b =~= b.drop_last().push(b.last()));
    }
}

/// An ascending order of a set is the ascending order.
pub proof fn lemma_ascending(s: Seq<u32>, values: Set<u32>)
    requires
        increasing(s),
        s.to_set() == values,
    ensures
        ascending(values) == s,
{
    lemma_ascending_is_unique(s, ascending(values));
}

/// What a set hands out in order is ascending.
proof fn lemma_handed_out_ascending(s: Seq<&u32>)
    requires
        vstd::std_specs::btree::increasing_seq(s),
    ensures
        increasing(s.unref()),
{
    assert(vstd::laws_cmp::obeys_cmp::<u32>());
    assert(vstd::laws_cmp::obeys_cmp::<&u32>());
    assert forall|i: int, j: int| 0 <= i < j < s.len() implies s.unref()[i] < s.unref()[j] by {
        assert(vstd::std_specs::cmp::OrdSpec::cmp_spec(&s[i], &s[j]) is Less);
    }
}

/// Lists the numbers of a set in ascending order.
fn list_ascending(values: &BTreeSet<u32>) -> (r: Vec<u32>)
    ensures
        r@ == ascending(values@),
        increasing(r@),
        r@.to_set() == values@,
{
    let mut r: Vec<u32> = Vec::new();
    for v in it: values.iter()
        invariant
            r@.len() == it.index(),
            forall|k: int| 0 <= k < r@.len() ==> r@[k] == *it.seq()[k],
            it.seq().unref().to_set() == values@,
            vstd::std_specs::btree::increasing_seq(it.seq()),
            increasing(r@),
            r@.len() == it.seq().len() ==> r@ == it.seq().unref(),
    {
        r.push(*v);
        proof {
            lemma_handed_out_ascending(it.seq());
            assert forall|i: int, j: int| 0 <= i < j < r@.len() implies r@[i] < r@[j] by {
                assert(it.seq().unref()[i] < it.seq().unref()[j]);
            }
        }
    }
    proof {
        lemma_ascending(r@, values@);
    }
    r
}

/// Adds the numbers from `lo` to `hi` to a set.
fn add_range(values: &mut BTreeSet<u32>, lo: u32, hi: u32)
    ensures
        final(values)@ == old(values)@.union(values_between(lo, hi)),
{
    let ghost before = values@;
    let mut v: u64 = lo as u64;
    assert(values@ =~= before.union(Set::new(|x: u32| lo <= x < v)));
    while v <= hi as u64
        invariant
            lo <= v,
            v <= hi + 1 || v == lo,
            values@ == before.union(Set::new(|x: u32| lo <= x < v)),
        decreases hi + 1 - v,
    {
        values.insert(v as u32);
        v = v + 1;
        assert(values@ =~= before.union(Set::new(|x: u32| lo <= x < v)));
    }
    assert(values@ =~= before.union(values_between(lo, hi)));
}

// ---------------------------------------------------------------------------
// Indicators of the Audio Gateway
// ---------------------------------------------------------------------------

/// An indicator of the Audio Gateway, with the values that it can take and the
/// current one.
#[derive(Debug, PartialEq, Eq)]
pub struct AgIndicatorState {
    /// Which indicator.
    pub indicator: AgIndicator,
    /// Values that it can take.
    pub supported_values: BTreeSet<u32>,
    /// Current value.
    pub current_status: u32,
    /// Whether changes are reported.
    pub enabled: bool,
}

/// The model of an [`AgIndicatorState`].
#[verifier::ext_equal]
pub struct AgIndicatorModel {
    pub indicator: AgIndicator,
    pub supported_values: Set<u32>,
    pub current_status: u32,
    pub enabled: bool,
}

impl View for AgIndicatorState {
    type V = AgIndicatorModel;

    open spec fn view(&self) -> AgIndicatorModel {
        AgIndicatorModel {
            indicator: self.indicator,
            supported_values: self.supported_values@,
            current_status: self.current_status,
            enabled: self.enabled,
        }
    }
}

impl Clone for AgIndicatorState {
    fn clone(&self) -> (r: Self)
        ensures
            r@ == self@,
    {
        AgIndicatorState {
            indicator: self.indicator,
            supported_values: self.supported_values.clone(),
            current_status: self.current_status,
            enabled: self.enabled,
        }
    }
}

/// An indicator that nothing has been reported of.
pub open spec fn fresh(indicator: AgIndicator, values: Set<u32>) -> AgIndicatorModel {
    AgIndicatorModel { indicator, supported_values: values, current_status: 0, enabled: true }
}

/// Numbers in decimal notation.
pub open spec fn decimals(s: Seq<u32>) -> Seq<Seq<char>> {
    Seq::new(s.len(), |i: int| text::decimal(s[i] as nat))
}

/// A set of values in a list of indicators: its bounds where it has no gaps,
/// or else its values one by one.
pub open spec fn values_text(values: Set<u32>) -> Seq<char> {
    let s = ascending(values);
    if s.len() > 0 && s.len() == s.last() - s[0] + 1 {
        "("@ + text::decimal(s[0] as nat) + "-"@ + text::decimal(s.last() as nat) + ")"@
    } else {
        "("@ + text::joined(decimals(s)) + ")"@
    }
}

/// An indicator in a list of indicators: its name and its values.
pub open spec fn test_text(state: AgIndicatorModel) -> Seq<char> {
    "("@ + text::quoted(state.indicator.wire_text()) + ","@ + values_text(state.supported_values)
        + ")"@
}

/// Writes numbers in decimal notation.
pub fn decimal_texts(s: &Vec<u32>) -> (r: Vec<String>)
    ensures
        models::seq_views(r@) == decimals(s@),
{
    let mut r: Vec<String> = Vec::new();
    let mut i: usize = 0;
    while i < s.len()
        invariant
            i <= s@.len(),
            r@.len() == i,
            forall|k: int| 0 <= k < i ==> (#[trigger] r@[k])@ == text::decimal(s@[k] as nat),
        decreases s@.len() - i,
    {
        r.push(text::decimal_text(s[i] as u64));
        i = i + 1;
    }
    assert(models::seq_views(r@) =~= decimals(s@));
    r
}

impl AgIndicatorState {
    fn with_range(indicator: AgIndicator, lo: u32, hi: u32) -> (r: Self)
        ensures
            r@ == fresh(indicator, values_between(lo, hi)),
    {
        let mut supported_values: BTreeSet<u32> = BTreeSet::new();
        add_range(&mut supported_values, lo, hi);
        assert(supported_values@ =~= values_between(lo, hi));
        AgIndicatorState { indicator, supported_values, current_status: 0, enabled: true }
    }

    /// Call indicator, with values 0 to 1.
    pub fn call() -> (r: Self)
        ensures
            r@ == fresh(AgIndicator::Call, values_between(0, 1)),
    {
        AgIndicatorState::with_range(AgIndicator::Call, 0, 1)
    }

    /// Call-setup indicator, with values 0 to 3.
    pub fn callsetup() -> (r: Self)
        ensures
            r@ == fresh(AgIndicator::CallSetup, values_between(0, 3)),
    {
        AgIndicatorState::with_range(AgIndicator::CallSetup, 0, 3)
    }

    /// Call-held indicator, with values 0 to 2.
    pub fn callheld() -> (r: Self)
        ensures
            r@ == fresh(AgIndicator::CallHeld, values_between(0, 2)),
    {
        AgIndicatorState::with_range(AgIndicator::CallHeld, 0, 2)
    }

    /// Service indicator, with values 0 to 1.
    pub fn service() -> (r: Self)
        ensures
            r@ == fresh(AgIndicator::Service, values_between(0, 1)),
    {
        AgIndicatorState::with_range(AgIndicator::Service, 0, 1)
    }

    /// Signal indicator, with values 0 to 5.
    pub fn signal() -> (r: Self)
        ensures
            r@ == fresh(AgIndicator::Signal, values_between(0, 5)),
    {
        AgIndicatorState::with_range(AgIndicator::Signal, 0, 5)
    }

    /// Roaming indicator, with values 0 to 1.
    pub fn roam() -> (r: Self)
        ensures
            r@ == fresh(AgIndicator::Roam, values_between(0, 1)),
    {
        AgIndicatorState::with_range(AgIndicator::Roam, 0, 1)
    }

    /// Battery-charge indicator, with values 0 to 5.
    pub fn battchg() -> (r: Self)
        ensures
            r@ == fresh(AgIndicator::BatteryCharge, values_between(0, 5)),
    {
        AgIndicatorState::with_range(AgIndicator::BatteryCharge, 0, 5)
    }

    /// The indicator in a list of indicators: `("name",(min-max))`, or
    /// `("name",(v1,v2,...))` where its values have gaps.
    pub fn on_test_text(&self) -> (r: String)
        ensures
            r@ == test_text(self@),
    {
        let values = list_ascending(&self.supported_values);
        let mut r = text::owned("(");
        text::append_quoted(&mut r, self.indicator.wire_name());
        r.append(",");
        let ghost before = r@;
        r.append("(");
        if values.len() > 0 && values.len() as u64 == values[values.len() - 1] as u64
            - values[0] as u64 + 1 {
            text::append_decimal(&mut r, values[0] as u64);
            r.append("-");
            text::append_decimal(&mut r, values[values.len() - 1] as u64);
        } else {
            let parts = decimal_texts(&values);
            r.append(text::join(&parts).as_str());
        }
        r.append(")");
        assert(r@ =~= before + values_text(self@.supported_values));
        r.append(")");
        assert(r@ =~= test_text(self@));
        r
    }
}

/// The bounds of a run of values: two numbers with a hyphen between them, or
/// one number.
pub open spec fn bounds_of(value: Seq<u8>) -> Option<(u32, u32)> {
    let n = text::run_without(value, 45) as int;
    match text::u32_of(value.take(n)) {
        Some(lo) => if n < value.len() {
            let rest = value.skip(n + 1);
            match text::u32_of(rest.take(text::run_without(rest, 45) as int)) {
                Some(hi) => Some((lo, hi)),
                None => None,
            }
        } else {
            Some((lo, lo))
        },
        None => None,
    }
}

/// Reads the bounds of a run of values.
fn parse_bounds(value: &[u8]) -> (r: Option<(u32, u32)>)
    ensures
        r == bounds_of(value@),
{
    assert(value@.skip(0) =~= value@);
    let n: usize = text::count_without(value, 0, 45);
    let first = bytes::range(value, 0, n);
    assert(first@ =~= value@.take(n as int));
    match text::parse_u32(first) {
        Some(lo) => {
            if n < value.len() {
                let m: usize = text::count_without(value, n + 1, 45);
                let second = bytes::range(value, n + 1, n + 1 + m);
                assert(second@ =~= value@.skip(n + 1).take(m as int));
                match text::parse_u32(second) {
                    Some(hi) => Some((lo, hi)),
                    None => None,
                }
            } else {
                Some((lo, lo))
            }
        },
        None => None,
    }
}

/// The values in a list of runs.
pub open spec fn values_in(runs: Seq<AtParameterModel>) -> Option<Set<u32>>
    decreases runs.len(),
{
    if runs.len() == 0 {
        Some(Set::empty())
    } else {
        match (values_in(runs.drop_last()), runs.last().text()) {
            (Some(values), Some(_)) => match bounds_of(runs.last()->Value_0) {
                Some((lo, hi)) => Some(values.union(values_between(lo, hi))),
                None => None,
            },
            _ => None,
        }
    }
}

/// A list of runs with an unreadable one is unreadable.
proof fn lemma_unreadable_run(runs: Seq<AtParameterModel>, n: int)
    requires
        0 <= n <= runs.len(),
        values_in(runs.take(n)) is None,
    ensures
        values_in(runs) is None,
    decreases runs.len() - n,
{
    if n < runs.len() {
        assert(runs.take(n + 1).drop_last() =~= runs.take(n));
        lemma_unreadable_run(runs, n + 1);
    } else {
        assert(runs.take(n) =~= runs);
    }
}

/// Reads the values in a list of runs.
fn parse_values(runs: &[AtParameter]) -> (r: Option<BTreeSet<u32>>)
    ensures
        models::opt_view(r) == values_in(models::seq_views(runs@)),
{
    let ghost all = models::seq_views(runs@);
    let mut values: BTreeSet<u32> = BTreeSet::new();
    let mut i: usize = 0;
    assert(all.take(0) =~= seq![]);
    while i < runs.len()
        invariant
            i <= runs@.len(),
            all == models::seq_views(runs@),
            values_in(all.take(i as int)) == Some(values@),
        decreases runs@.len() - i,
    {
        assert(all.take(i + 1).drop_last() =~= all.take(i as int));
        assert(all.take(i + 1).last() == runs@[i as int]@);
        let bounds = match (runs[i].as_str(), runs[i].as_value()) {
            (Some(_), Some(value)) => parse_bounds(value),
            _ => None,
        };
        match bounds {
            Some((lo, hi)) => {
                add_range(&mut values, lo, hi);
            },
            None => {
                proof {
                    lemma_unreadable_run(all, i + 1);
                }
                return None;
            },
        }
        i = i + 1;
    }
    assert(all.take(i as int) =~= all);
    Some(values)
}

/// The indicator that an entry of a list of indicators holds.
pub open spec fn indicator_of(entry: AtParameterModel) -> Option<AgIndicatorModel> {
    match entry {
        AtParameterModel::List(pair) => if pair.len() >= 2 {
            match (pair[0].text(), pair[1]) {
                (Some(name), AtParameterModel::List(runs)) => match (
                    AgIndicator::wired(name),
                    values_in(runs),
                ) {
                    (Some(indicator), Some(values)) => Some(fresh(indicator, values)),
                    _ => None,
                },
                _ => None,
            }
        } else {
            None
        },
        AtParameterModel::Value(_) => None,
    }
}

/// Reads an entry of a list of indicators.
pub fn parse_one_cind_indicator(entry: &AtParameter) -> (r: Option<AgIndicatorState>)
    ensures
        models::opt_view(r) == indicator_of(entry@),
{
    let pair = match entry.as_list() {
        Some(pair) => pair,
        None => {
            return None;
        },
    };
    if pair.len() < 2 {
        return None;
    }
    assert(models::seq_views(pair@)[0] == pair@[0]@);
    assert(models::seq_views(pair@)[1] == pair@[1]@);
    match (pair[0].as_str(), pair[1].as_list()) {
        (Some(name), Some(runs)) => match (AgIndicator::from_wire_name(name), parse_values(runs)) {
            (Some(indicator), Some(supported_values)) => Some(
                AgIndicatorState { indicator, supported_values, current_status: 0, enabled: true },
            ),
            _ => None,
        },
        _ => None,
    }
}

// ---------------------------------------------------------------------------
// Indicators of the Hands-Free
// ---------------------------------------------------------------------------

/// An indicator of the Hands-Free.
#[derive(Debug, Clone, Copy, PartialEq, Eq, Structural)]
pub struct HfIndicatorState {
    /// Which indicator.
    pub indicator: HfIndicator,
    /// Whether the peer supports it.
    pub supported: bool,
    /// Whether it is enabled.
    pub enabled: bool,
    /// Current value.
    pub current_status: u32,
}

/// An indicator of the Hands-Free that nothing has been said of.
pub open spec fn unused(indicator: HfIndicator) -> HfIndicatorState {
    HfIndicatorState { indicator, supported: false, enabled: false, current_status: 0 }
}

impl HfIndicatorState {
    /// An indicator that nothing has been said of.
    pub fn new(indicator: HfIndicator) -> (r: Self)
        ensures
            r == unused(indicator),
    {
        HfIndicatorState { indicator, supported: false, enabled: false, current_status: 0 }
    }
}

/// What is kept for each indicator of the Hands-Free, where there is anything.
#[derive(Debug, Clone, Copy, PartialEq, Eq, Structural)]
pub struct HfIndicators {
    /// Enhanced Safety.
    pub enhanced_safety: Option<HfIndicatorState>,
    /// Battery Level.
    pub battery_level: Option<HfIndicatorState>,
}

impl HfIndicators {
    /// What is kept for an indicator.
    pub open spec fn at(self, indicator: HfIndicator) -> Option<HfIndicatorState> {
        match indicator {
            HfIndicator::EnhancedSafety => self.enhanced_safety,
            HfIndicator::BatteryLevel => self.battery_level,
        }
    }

    /// The same, with something else kept for an indicator.
    pub open spec fn with(self, indicator: HfIndicator, state: HfIndicatorState) -> HfIndicators {
        match indicator {
            HfIndicator::EnhancedSafety => HfIndicators { enhanced_safety: Some(state), ..self },
            HfIndicator::BatteryLevel => HfIndicators { battery_level: Some(state), ..self },
        }
    }

    /// The indicators that something is kept for, by their numbers.
    pub open spec fn listed(self) -> Seq<HfIndicator> {
        let first = if self.enhanced_safety is Some {
            seq![HfIndicator::EnhancedSafety]
        } else {
            seq![]
        };
        if self.battery_level is Some {
            first.push(HfIndicator::BatteryLevel)
        } else {
            first
        }
    }

    /// Nothing kept.
    pub fn new() -> (r: Self)
        ensures
            r == (HfIndicators { enhanced_safety: None, battery_level: None }),
    {
        HfIndicators { enhanced_safety: None, battery_level: None }
    }

    /// What is kept for an indicator.
    pub fn get(&self, indicator: HfIndicator) -> (r: Option<HfIndicatorState>)
        ensures
            r == self.at(indicator),
    {
        match indicator {
            HfIndicator::EnhancedSafety => self.enhanced_safety,
            HfIndicator::BatteryLevel => self.battery_level,
        }
    }

    /// Keeps a state for an indicator.
    pub fn insert(&mut self, indicator: HfIndicator, state: HfIndicatorState)
        ensures
            *final(self) == old(self).with(indicator, state),
    {
        match indicator {
            HfIndicator::EnhancedSafety => {
                self.enhanced_safety = Some(state);
            },
            HfIndicator::BatteryLevel => {
                self.battery_level = Some(state);
            },
        }
    }

    /// Lists the indicators that something is kept for.
    pub fn keys(&self) -> (r: Vec<HfIndicator>)
        ensures
            r@ == self.listed(),
    {
        let mut r: Vec<HfIndicator> = Vec::new();
        if self.enhanced_safety.is_some() {
            r.push(HfIndicator::EnhancedSafety);
        }
        if self.battery_level.is_some() {
            r.push(HfIndicator::BatteryLevel);
        }
        assert(r@ =~= self.listed());
        r
    }
}

/// What is kept for a list of indicators before anything is said of them.
pub open spec fn unused_all(indicators: Seq<HfIndicator>) -> HfIndicators {
    HfIndicators {
        enhanced_safety: if indicators.contains(HfIndicator::EnhancedSafety) {
            Some(unused(HfIndicator::EnhancedSafety))
        } else {
            None
        },
        battery_level: if indicators.contains(HfIndicator::BatteryLevel) {
            Some(unused(HfIndicator::BatteryLevel))
        } else {
            None
        },
    }
}

/// Keeps a state for each of a list of indicators.
pub fn keep_unused(indicators: &Vec<HfIndicator>) -> (r: HfIndicators)
    ensures
        r == unused_all(indicators@),
{
    let mut r = HfIndicators::new();
    let mut i: usize = 0;
    while i < indicators.len()
        invariant
            i <= indicators@.len(),
            r == unused_all(indicators@.take(i as int)),
        decreases indicators@.len() - i,
    {
        let indicator = indicators[i];
        proof {
            let before = indicators@.take(i as int);
            assert(indicators@.take(i + 1) =~= before.push(indicator));
            assert forall|x: HfIndicator|
                before.push(indicator).contains(x) == (before.contains(x) || x == indicator) by {
                if before.contains(x) {
                    let k = choose|k: int| 0 <= k < before.len() && before[k] == x;
                    assert(before.push(indicator)[k] == x);
                }
                assert(before.push(indicator)[before.len() as int] == indicator);
            }
        }
        r.insert(indicator, HfIndicatorState::new(indicator));
        i = i + 1;
    }
    assert(indicators@.take(i as int) =~= indicators@);
    r
}

/// The numbers of indicators in decimal notation.
pub open spec fn indicator_numbers(indicators: Seq<HfIndicator>) -> Seq<Seq<char>> {
    Seq::new(indicators.len(), |i: int| text::decimal(indicators[i].number() as nat))
}

/// Writes the numbers of indicators, separated by commas.
pub fn join_indicators(indicators: &Vec<HfIndicator>) -> (r: String)
    ensures
        r@ == text::joined(indicator_numbers(indicators@)),
{
    let mut parts: Vec<String> = Vec::new();
    let mut i: usize = 0;
    while i < indicators.len()
        invariant
            i <= indicators@.len(),
            parts@.len() == i,
            forall|k: int|
                0 <= k < i ==> (#[trigger] parts@[k])@ == text::decimal(
                    indicators@[k].number() as nat,
                ),
        decreases indicators@.len() - i,
    {
        parts.push(text::decimal_text(indicators[i].to_value() as u64));
        i = i + 1;
    }
    assert(models::seq_views(parts@) =~= indicator_numbers(indicators@));
    text::join(&parts)
}

} // verus!
