//! The time index, which answers queries with time scopes, and the
//! timeline, the inventory of every year of every era that the corpus
//! mentions.

use crate::event::{TimeScope, TimeScopeView};
use crate::order::{arrange, stable_order, stable_perm};
use crate::query::{scope_matches, scope_matches_query, TimeQuery, TimeQueryView};
use crate::regime::{era_rank, era_sort_key, find_era_by_names, regime_rank, regime_sort_key};
use crate::text::str_eq;

use crate::words::has_word;
use vstd::prelude::*;

verus! {

/// The views of a list of scopes.
pub open spec fn scope_views(scopes: Seq<TimeScope>) -> Seq<TimeScopeView> {
    Seq::new(scopes.len(), |i: int| scopes[i]@)
}

/// Those of the first `n` scopes that answer the query, in order.
pub open spec fn select(scopes: Seq<TimeScopeView>, q: TimeQueryView, n: nat) -> Seq<TimeScopeView>
    decreases n,
{
    if n == 0 || n > scopes.len() {
        Seq::empty()
    } else {
        let r = select(scopes, q, (n - 1) as nat);
        if scope_matches(scopes[n - 1].time, q) {
            r.push(scopes[n - 1])
        } else {
            r
        }
    }
}

/// Every time scope of the corpus, in the order of extraction.
#[derive(Debug)]
pub struct TimeIndex {
    pub scopes: Vec<TimeScope>,
}

impl View for TimeIndex {
    type V = Seq<TimeScopeView>;

    open spec fn view(&self) -> Seq<TimeScopeView> {
        self.scopes.deep_view()
    }
}

impl TimeIndex {
    /// The scopes that answer a query, in the order of the index.
    pub fn select(&self, q: &TimeQuery) -> (r: Vec<&TimeScope>)
        ensures
            r.deep_view() == select(self@, q@, self@.len()),
    {
        let mut r: Vec<&TimeScope> = Vec::new();
        let mut i: usize = 0;
        while i < self.scopes.len()
            invariant
                i <= self.scopes.len(),
                r.deep_view() == select(self@, q@, i as nat),
            decreases self.scopes.len() - i,
        {
            if scope_matches_query(&self.scopes[i].time, q) {
                r.push(&self.scopes[i]);
            }
            i += 1;
        }
        r
    }

    /// The scopes of an era and, where a year is given, of that year.
    pub fn query(&self, era: &str, year: Option<u8>) -> (r: Vec<&TimeScope>)
        ensures
            r.deep_view() == select(self@, TimeQueryView::Single { era: era@, year }, self@.len()),
    {
        self.select(&TimeQuery::Single { era: String::from_str(era), year })
    }

    /// The scopes of an era whose year lies in a closed range.
    pub fn query_range(&self, era: &str, year_from: u8, year_to: u8) -> (r: Vec<&TimeScope>)
        ensures
            r.deep_view() == select(
                self@,
                TimeQueryView::Range { era: era@, year_from, year_to },
                self@.len(),
            ),
    {
        self.select(&TimeQuery::Range { era: String::from_str(era), year_from, year_to })
    }

    /// The scopes of a regime.
    pub fn query_regime(&self, regime: &str) -> (r: Vec<&TimeScope>)
        ensures
            r.deep_view() == select(self@, TimeQueryView::Regime { regime: regime@ }, self@.len()),
    {
        self.select(&TimeQuery::Regime { regime: String::from_str(regime) })
    }

    /// The scopes of one year AD.
    pub fn query_ad(&self, year: u16) -> (r: Vec<&TimeScope>)
        ensures
            r.deep_view() == select(self@, TimeQueryView::AdYear { year }, self@.len()),
    {
        self.select(&TimeQuery::AdYear { year })
    }

    /// The scopes whose year AD lies in a closed range.
    pub fn query_ad_range(&self, from: u16, to: u16) -> (r: Vec<&TimeScope>)
        ensures
            r.deep_view() == select(self@, TimeQueryView::AdRange { from, to }, self@.len()),
    {
        self.select(&TimeQuery::AdRange { from, to })
    }
}

/// A query that asks no more than another one is answered by a part of
/// the other's answer.
pub proof fn lemma_select_refines(
    scopes: Seq<TimeScopeView>,
    narrow: TimeQueryView,
    wide: TimeQueryView,
    n: nat,
)
    requires
        n <= scopes.len(),
        forall|i: int|
            0 <= i < scopes.len() && scope_matches((#[trigger] scopes[i]).time, narrow)
                ==> scope_matches(scopes[i].time, wide),
    ensures
        forall|s: TimeScopeView| #[trigger]
            select(scopes, narrow, n).contains(s) ==> select(scopes, wide, n).contains(s),
    decreases n,
{
    if n > 0 {
        lemma_select_refines(scopes, narrow, wide, (n - 1) as nat);
        let a = select(scopes, narrow, (n - 1) as nat);
        let b = select(scopes, wide, (n - 1) as nat);
        assert forall|s: TimeScopeView| #[trigger]
            select(scopes, narrow, n).contains(s) implies select(scopes, wide, n).contains(s) by {
            if s == scopes[n - 1] && scope_matches(scopes[n - 1].time, narrow) {
                assert(select(scopes, wide, n) == b.push(scopes[n - 1]));
                assert(b.push(scopes[n - 1])[b.len() as int] == s);
            } else {
                if scope_matches(scopes[n - 1].time, narrow) {
                    let ap = a.push(scopes[n - 1]);
                    let i = choose|i: int| 0 <= i < ap.len() && #[trigger] ap[i] == s;
                    assert(a[i] == s);
                }
                assert(a.contains(s));
                assert(b.contains(s));
                let j = choose|j: int| 0 <= j < b.len() && b[j] == s;
                if scope_matches(scopes[n - 1].time, wide) {
                    assert(b.push(scopes[n - 1])[j] == s);
                }
            }
        }
    }
}

/// Two queries that the same scopes answer have the same answer.
pub proof fn lemma_select_same(scopes: Seq<TimeScopeView>, p: TimeQueryView, q: TimeQueryView, n: nat)
    requires
        n <= scopes.len(),
        forall|i: int|
            0 <= i < scopes.len() ==> scope_matches((#[trigger] scopes[i]).time, p) == scope_matches(
                scopes[i].time,
                q,
            ),
    ensures
        select(scopes, p, n) == select(scopes, q, n),
    decreases n,
{
    if n > 0 {
        lemma_select_same(scopes, p, q, (n - 1) as nat);
    }
}

/// The answer to an era and a year is part of the answer to the era alone.
pub proof fn lemma_query_year_refines_era(scopes: Seq<TimeScopeView>, era: Seq<char>, y: u8)
    ensures
        forall|s: TimeScopeView| #[trigger]
            select(scopes, TimeQueryView::Single { era, year: Some(y) }, scopes.len()).contains(s)
                ==> select(scopes, TimeQueryView::Single { era, year: None }, scopes.len()).contains(
                s,
            ),
{
    lemma_select_refines(
        scopes,
        TimeQueryView::Single { era, year: Some(y) },
        TimeQueryView::Single { era, year: None },
        scopes.len(),
    );
}

/// The range from a year to the same year answers as that year does.
pub proof fn lemma_query_range_of_one_year(scopes: Seq<TimeScopeView>, era: Seq<char>, y: u8)
    ensures
        select(scopes, TimeQueryView::Range { era, year_from: y, year_to: y }, scopes.len())
            == select(scopes, TimeQueryView::Single { era, year: Some(y) }, scopes.len()),
{
    lemma_select_same(
        scopes,
        TimeQueryView::Range { era, year_from: y, year_to: y },
        TimeQueryView::Single { era, year: Some(y) },
        scopes.len(),
    );
}

/// The range from a year AD to the same year answers as that year does.
pub proof fn lemma_query_ad_range_of_one_year(scopes: Seq<TimeScopeView>, n: u16)
    ensures
        select(scopes, TimeQueryView::AdRange { from: n, to: n }, scopes.len()) == select(
            scopes,
            TimeQueryView::AdYear { year: n },
            scopes.len(),
        ),
{
    lemma_select_same(
        scopes,
        TimeQueryView::AdRange { from: n, to: n },
        TimeQueryView::AdYear { year: n },
        scopes.len(),
    );
}

/// The era of the scope names one regime only, and the scope is of it.
pub open spec fn regime_is_certain(s: TimeScopeView) -> bool {
    forall|regime: Seq<char>|
        (#[trigger] find_era_by_names(regime, s.time.era, 0)) is Some <==> regime == s.time.regime
}

/// Those of the first `n` scopes whose era the catalogue lists for the
/// regime: the union of the answers to every era and year of the regime.
pub open spec fn select_eras_of(scopes: Seq<TimeScopeView>, regime: Seq<char>, n: nat) -> Seq<
    TimeScopeView,
>
    decreases n,
{
    if n == 0 || n > scopes.len() {
        Seq::empty()
    } else {
        let r = select_eras_of(scopes, regime, (n - 1) as nat);
        if find_era_by_names(regime, scopes[n - 1].time.era, 0) is Some {
            r.push(scopes[n - 1])
        } else {
            r
        }
    }
}

/// Where the era of every scope names one regime only, the answer to a
/// regime is the union of the answers to the eras that the catalogue lists
/// for it.
pub proof fn lemma_query_regime_is_union(scopes: Seq<TimeScopeView>, regime: Seq<char>, n: nat)
    requires
        n <= scopes.len(),
        forall|i: int| 0 <= i < scopes.len() ==> regime_is_certain(#[trigger] scopes[i]),
    ensures
        select(scopes, TimeQueryView::Regime { regime }, n) == select_eras_of(scopes, regime, n),
    decreases n,
{
    if n > 0 {
        lemma_query_regime_is_union(scopes, regime, (n - 1) as nat);
    }
}

/// One year of one era, with the files that mention it.
#[derive(Debug)]
pub struct TimePoint {
    pub era: String,
    pub year: u8,
    /// Number of files that mention it.
    pub occurrence_count: usize,
    pub files: Vec<String>,
}

pub struct TimePointView {
    pub era: Seq<char>,
    pub year: u8,
    pub occurrence_count: usize,
    pub files: Seq<Seq<char>>,
}

impl View for TimePoint {
    type V = TimePointView;

    open spec fn view(&self) -> TimePointView {
        TimePointView {
            era: self.era@,
            year: self.year,
            occurrence_count: self.occurrence_count,
            files: self.files.deep_view(),
        }
    }
}

impl DeepView for TimePoint {
    type V = TimePointView;

    open spec fn deep_view(&self) -> TimePointView {
        self@
    }
}

/// The years of one era of one regime, ascending.
#[derive(Debug)]
pub struct EraTimeline {
    pub era: String,
    pub years: Vec<TimePoint>,
}

pub struct EraTimelineView {
    pub era: Seq<char>,
    pub years: Seq<TimePointView>,
}

impl View for EraTimeline {
    type V = EraTimelineView;

    open spec fn view(&self) -> EraTimelineView {
        EraTimelineView { era: self.era@, years: self.years.deep_view() }
    }
}

impl DeepView for EraTimeline {
    type V = EraTimelineView;

    open spec fn deep_view(&self) -> EraTimelineView {
        self@
    }
}

/// The eras of one regime, in catalogue order.
#[derive(Debug)]
pub struct RegimeTimeline {
    pub regime: String,
    pub eras: Vec<EraTimeline>,
}

pub struct RegimeTimelineView {
    pub regime: Seq<char>,
    pub eras: Seq<EraTimelineView>,
}

impl View for RegimeTimeline {
    type V = RegimeTimelineView;

    open spec fn view(&self) -> RegimeTimelineView {
        RegimeTimelineView { regime: self.regime@, eras: self.eras.deep_view() }
    }
}

impl DeepView for RegimeTimeline {
    type V = RegimeTimelineView;

    open spec fn deep_view(&self) -> RegimeTimelineView {
        self@
    }
}

/// The chronological inventory of the corpus.
#[derive(Debug)]
pub struct Timeline {
    pub regimes: Vec<RegimeTimeline>,
    /// Number of distinct (regime, era, year) triples.
    pub total_time_points: usize,
}

pub struct TimelineView {
    pub regimes: Seq<RegimeTimelineView>,
    pub total_time_points: usize,
}

impl View for Timeline {
    type V = TimelineView;

    open spec fn view(&self) -> TimelineView {
        TimelineView { regimes: self.regimes.deep_view(), total_time_points: self.total_time_points }
    }
}

/// The regimes of the first `n` scopes, each once, as they first occur.
pub open spec fn scope_regimes(scopes: Seq<TimeScopeView>, n: nat) -> Seq<Seq<char>>
    decreases n,
{
    if n == 0 || n > scopes.len() {
        Seq::empty()
    } else {
        let r = scope_regimes(scopes, (n - 1) as nat);
        let x = scopes[n - 1].time.regime;
        if r.contains(x) {
            r
        } else {
            r.push(x)
        }
    }
}

/// The eras of a regime among the first `n` scopes, each once.
pub open spec fn scope_eras(scopes: Seq<TimeScopeView>, regime: Seq<char>, n: nat) -> Seq<Seq<char>>
    decreases n,
{
    if n == 0 || n > scopes.len() {
        Seq::empty()
    } else {
        let r = scope_eras(scopes, regime, (n - 1) as nat);
        let t = scopes[n - 1].time;
        if t.regime == regime && !r.contains(t.era) {
            r.push(t.era)
        } else {
            r
        }
    }
}

/// The years of an era of a regime among the first `n` scopes, each once.
pub open spec fn scope_years(scopes: Seq<TimeScopeView>, regime: Seq<char>, era: Seq<char>, n: nat) -> Seq<
    u8,
>
    decreases n,
{
    if n == 0 || n > scopes.len() {
        Seq::empty()
    } else {
        let r = scope_years(scopes, regime, era, (n - 1) as nat);
        let t = scopes[n - 1].time;
        if t.regime == regime && t.era == era && !r.contains(t.year) {
            r.push(t.year)
        } else {
            r
        }
    }
}

/// The files that mention a year of an era of a regime among the first `n`
/// scopes, each once.
pub open spec fn scope_files(
    scopes: Seq<TimeScopeView>,
    regime: Seq<char>,
    era: Seq<char>,
    year: u8,
    n: nat,
) -> Seq<Seq<char>>
    decreases n,
{
    if n == 0 || n > scopes.len() {
        Seq::empty()
    } else {
        let r = scope_files(scopes, regime, era, year, (n - 1) as nat);
        let s = scopes[n - 1];
        if s.time.regime == regime && s.time.era == era && s.time.year == year && !r.contains(
            s.span.file,
        ) {
            r.push(s.span.file)
        } else {
            r
        }
    }
}

/// The (regime, era, year) triples of the first `n` scopes, each once.
pub open spec fn scope_triples(scopes: Seq<TimeScopeView>, n: nat) -> Seq<(Seq<char>, Seq<char>, u8)>
    decreases n,
{
    if n == 0 || n > scopes.len() {
        Seq::empty()
    } else {
        let r = scope_triples(scopes, (n - 1) as nat);
        let t = scopes[n - 1].time;
        if r.contains((t.regime, t.era, t.year)) {
            r
        } else {
            r.push((t.regime, t.era, t.year))
        }
    }
}

/// The keys by which regimes are ordered.
pub open spec fn regime_keys(names: Seq<Seq<char>>) -> Seq<u64> {
    Seq::new(names.len(), |i: int| regime_rank(names[i]) as u64)
}

/// The keys by which the eras of a regime are ordered.
pub open spec fn era_keys(regime: Seq<char>, names: Seq<Seq<char>>) -> Seq<u64> {
    Seq::new(names.len(), |i: int| era_rank(regime, names[i]) as u64)
}

/// The keys by which years are ordered.
pub open spec fn year_keys(years: Seq<u8>) -> Seq<u64> {
    Seq::new(years.len(), |i: int| years[i] as u64)
}

/// One year of an era of a regime, with the files that mention it.
pub open spec fn time_point_of(scopes: Seq<TimeScopeView>, regime: Seq<char>, era: Seq<char>, year: u8) -> TimePointView {
    let files = scope_files(scopes, regime, era, year, scopes.len());
    TimePointView { era, year, occurrence_count: files.len() as usize, files }
}

/// The years of an era of a regime, ascending.
pub open spec fn era_timeline_of(scopes: Seq<TimeScopeView>, regime: Seq<char>, era: Seq<char>) -> EraTimelineView {
    let years = scope_years(scopes, regime, era, scopes.len());
    let sorted = arrange(years, stable_perm(year_keys(years)));
    EraTimelineView {
        era,
        years: Seq::new(sorted.len(), |i: int| time_point_of(scopes, regime, era, sorted[i])),
    }
}

/// The eras of a regime, by their rank in the catalogue.
pub open spec fn regime_timeline_of(scopes: Seq<TimeScopeView>, regime: Seq<char>) -> RegimeTimelineView {
    let eras = scope_eras(scopes, regime, scopes.len());
    let sorted = arrange(eras, stable_perm(era_keys(regime, eras)));
    RegimeTimelineView {
        regime,
        eras: Seq::new(sorted.len(), |i: int| era_timeline_of(scopes, regime, sorted[i])),
    }
}

/// The timeline of a list of scopes: regimes by first year, eras by
/// catalogue rank, years ascending; where keys are equal, what occurs
/// first in the scopes stands first. The total is the number of distinct
/// (regime, era, year) triples.
pub open spec fn timeline_of(scopes: Seq<TimeScopeView>) -> TimelineView {
    let regimes = scope_regimes(scopes, scopes.len());
    let sorted = arrange(regimes, stable_perm(regime_keys(regimes)));
    TimelineView {
        regimes: Seq::new(sorted.len(), |i: int| regime_timeline_of(scopes, sorted[i])),
        total_time_points: scope_triples(scopes, scopes.len()).len() as usize,
    }
}

/// The years of an era stand in strictly rising order.
pub open spec fn years_rise(e: EraTimelineView) -> bool {
    forall|i: int, j: int|
        0 <= i < j < e.years.len() ==> (#[trigger] e.years[i]).year < (#[trigger] e.years[j]).year
}

/// The eras of a regime stand by their rank in the catalogue, and the
/// years of each rise.
pub open spec fn eras_rise(r: RegimeTimelineView) -> bool {
    &&& forall|i: int, j: int|
        0 <= i < j < r.eras.len() ==> era_rank(r.regime, (#[trigger] r.eras[i]).era) <= era_rank(
            r.regime,
            (#[trigger] r.eras[j]).era,
        )
    &&& forall|i: int| 0 <= i < r.eras.len() ==> years_rise(#[trigger] r.eras[i])
}

/// The regimes stand by their first years, and within each the eras and
/// years are in order.
pub open spec fn in_order(t: TimelineView) -> bool {
    &&& forall|i: int, j: int|
        0 <= i < j < t.regimes.len() ==> regime_rank((#[trigger] t.regimes[i]).regime)
            <= regime_rank((#[trigger] t.regimes[j]).regime)
    &&& forall|i: int| 0 <= i < t.regimes.len() ==> eras_rise(#[trigger] t.regimes[i])
}

proof fn lemma_scope_years(scopes: Seq<TimeScopeView>, regime: Seq<char>, era: Seq<char>, n: nat)
    requires
        n <= scopes.len(),
    ensures
        scope_years(scopes, regime, era, n).len() <= n,
        scope_years(scopes, regime, era, n).no_duplicates(),
    decreases n,
{
    if n > 0 {
        lemma_scope_years(scopes, regime, era, (n - 1) as nat);
    }
}

proof fn lemma_scope_eras(scopes: Seq<TimeScopeView>, regime: Seq<char>, n: nat)
    requires
        n <= scopes.len(),
    ensures
        scope_eras(scopes, regime, n).len() <= n,
    decreases n,
{
    if n > 0 {
        lemma_scope_eras(scopes, regime, (n - 1) as nat);
    }
}

proof fn lemma_scope_regimes(scopes: Seq<TimeScopeView>, n: nat)
    requires
        n <= scopes.len(),
    ensures
        scope_regimes(scopes, n).len() <= n,
    decreases n,
{
    if n > 0 {
        lemma_scope_regimes(scopes, (n - 1) as nat);
    }
}

proof fn lemma_years_rise(scopes: Seq<TimeScopeView>, regime: Seq<char>, era: Seq<char>)
    requires
        scopes.len() <= usize::MAX,
    ensures
        years_rise(era_timeline_of(scopes, regime, era)),
{
    let years = scope_years(scopes, regime, era, scopes.len());
    lemma_scope_years(scopes, regime, era, scopes.len());
    let keys = year_keys(years);
    crate::order::lemma_stable_perm_rises(keys);
    let e = era_timeline_of(scopes, regime, era);
    assert forall|i: int, j: int| 0 <= i < j < e.years.len() implies (#[trigger] e.years[i]).year < (
    #[trigger] e.years[j]).year by {
    }
}

proof fn lemma_eras_rise(scopes: Seq<TimeScopeView>, regime: Seq<char>)
    requires
        scopes.len() <= usize::MAX,
    ensures
        eras_rise(regime_timeline_of(scopes, regime)),
{
    let eras = scope_eras(scopes, regime, scopes.len());
    lemma_scope_eras(scopes, regime, scopes.len());
    let keys = era_keys(regime, eras);
    crate::order::lemma_stable_perm_rises(keys);
    let perm = stable_perm(keys);
    let r = regime_timeline_of(scopes, regime);
    let sorted = arrange(eras, perm);
    assert forall|i: int, j: int| 0 <= i < j < r.eras.len() implies era_rank(
        r.regime,
        (#[trigger] r.eras[i]).era,
    ) <= era_rank(r.regime, (#[trigger] r.eras[j]).era) by {
    }
    assert forall|i: int| 0 <= i < r.eras.len() implies years_rise(#[trigger] r.eras[i]) by {
        lemma_years_rise(scopes, regime, sorted[i]);
    }
}

/// In the timeline of any scopes the regimes stand by their first years,
/// the eras of each regime by their rank in the catalogue, and the years
/// of each era in strictly rising order.
pub proof fn lemma_timeline_in_order(scopes: Seq<TimeScopeView>)
    requires
        scopes.len() <= usize::MAX,
    ensures
        in_order(timeline_of(scopes)),
{
    let regimes = scope_regimes(scopes, scopes.len());
    lemma_scope_regimes(scopes, scopes.len());
    let keys = regime_keys(regimes);
    crate::order::lemma_stable_perm_rises(keys);
    let perm = stable_perm(keys);
    let t = timeline_of(scopes);
    let sorted = arrange(regimes, perm);
    assert forall|i: int, j: int| 0 <= i < j < t.regimes.len() implies regime_rank(
        (#[trigger] t.regimes[i]).regime,
    ) <= regime_rank((#[trigger] t.regimes[j]).regime) by {
    }
    assert forall|i: int| 0 <= i < t.regimes.len() implies eras_rise(#[trigger] t.regimes[i]) by {
        lemma_eras_rise(scopes, sorted[i]);
    }
}

fn regimes_in(scopes: &[TimeScope]) -> (r: Vec<String>)
    ensures
        r.deep_view() == scope_regimes(scope_views(scopes@), scopes@.len()),
{
    let mut r: Vec<String> = Vec::new();
    let ghost sv = scope_views(scopes@);
    let mut i: usize = 0;
    while i < scopes.len()
        invariant
            i <= scopes.len(),
            sv == scope_views(scopes@),
            r.deep_view() == scope_regimes(sv, i as nat),
        decreases scopes.len() - i,
    {
        let t = &scopes[i].time;
        if !has_word(&r, t.regime.as_str()) {
            r.push(t.regime.clone());
        }
        i += 1;
    }
    r
}

fn eras_in(scopes: &[TimeScope], regime: &str) -> (r: Vec<String>)
    ensures
        r.deep_view() == scope_eras(scope_views(scopes@), regime@, scopes@.len()),
{
    let mut r: Vec<String> = Vec::new();
    let ghost sv = scope_views(scopes@);
    let mut i: usize = 0;
    while i < scopes.len()
        invariant
            i <= scopes.len(),
            sv == scope_views(scopes@),
            r.deep_view() == scope_eras(sv, regime@, i as nat),
        decreases scopes.len() - i,
    {
        let t = &scopes[i].time;
        if str_eq(t.regime.as_str(), regime) && !has_word(&r, t.era.as_str()) {
            r.push(t.era.clone());
        }
        i += 1;
    }
    r
}

fn has_year(years: &Vec<u8>, y: u8) -> (r: bool)
    ensures
        r == years@.contains(y),
{
    let mut i: usize = 0;
    while i < years.len()
        invariant
            i <= years.len(),
            forall|j: int| 0 <= j < i ==> years@[j] != y,
        decreases years.len() - i,
    {
        if years[i] == y {
            return true;
        }
        i += 1;
    }
    false
}

fn years_in(scopes: &[TimeScope], regime: &str, era: &str) -> (r: Vec<u8>)
    ensures
        r@ == scope_years(scope_views(scopes@), regime@, era@, scopes@.len()),
{
    let mut r: Vec<u8> = Vec::new();
    let ghost sv = scope_views(scopes@);
    let mut i: usize = 0;
    while i < scopes.len()
        invariant
            i <= scopes.len(),
            sv == scope_views(scopes@),
            r@ == scope_years(sv, regime@, era@, i as nat),
        decreases scopes.len() - i,
    {
        let t = &scopes[i].time;
        if str_eq(t.regime.as_str(), regime) && str_eq(t.era.as_str(), era) && !has_year(&r, t.year) {
            r.push(t.year);
        }
        i += 1;
    }
    r
}

fn files_in(scopes: &[TimeScope], regime: &str, era: &str, year: u8) -> (r: Vec<String>)
    ensures
        r.deep_view() == scope_files(scope_views(scopes@), regime@, era@, year, scopes@.len()),
{
    let mut r: Vec<String> = Vec::new();
    let ghost sv = scope_views(scopes@);
    let mut i: usize = 0;
    while i < scopes.len()
        invariant
            i <= scopes.len(),
            sv == scope_views(scopes@),
            r.deep_view() == scope_files(sv, regime@, era@, year, i as nat),
        decreases scopes.len() - i,
    {
        let s = &scopes[i];
        if str_eq(s.time.regime.as_str(), regime) && str_eq(s.time.era.as_str(), era) && s.time.year
            == year && !has_word(&r, s.span.file.as_str()) {
            r.push(s.span.file.clone());
        }
        i += 1;
    }
    r
}

fn count_triples(scopes: &[TimeScope]) -> (n: usize)
    ensures
        n == scope_triples(scope_views(scopes@), scopes@.len()).len(),
{
    let mut seen: Vec<(String, String, u8)> = Vec::new();
    let ghost sv = scope_views(scopes@);
    let mut i: usize = 0;
    while i < scopes.len()
        invariant
            i <= scopes.len(),
            sv == scope_views(scopes@),
            seen.deep_view() == scope_triples(sv, i as nat),
        decreases scopes.len() - i,
    {
        let t = &scopes[i].time;
        let mut found = false;
        let mut j: usize = 0;
        while j < seen.len()
            invariant_except_break
                j <= seen.len(),
                !found,
                forall|k: int|
                    0 <= k < j ==> (#[trigger] seen.deep_view()[k]) != (t.regime@, t.era@, t.year),
            ensures
                found == seen.deep_view().contains((t.regime@, t.era@, t.year)),
            decreases seen.len() - j,
        {
            if str_eq(seen[j].0.as_str(), t.regime.as_str()) && str_eq(
                seen[j].1.as_str(),
                t.era.as_str(),
            ) && seen[j].2 == t.year {
                assert(seen.deep_view()[j as int] == (t.regime@, t.era@, t.year));
                found = true;
                break;
            }
            j += 1;
        }
        if !found {
            seen.push((t.regime.clone(), t.era.clone(), t.year));
        }
        i += 1;
    }
    seen.len()
}

fn time_point(scopes: &[TimeScope], regime: &str, era: &str, year: u8) -> (r: TimePoint)
    ensures
        r@ == time_point_of(scope_views(scopes@), regime@, era@, year),
{
    let files = files_in(scopes, regime, era, year);
    TimePoint { era: String::from_str(era), year, occurrence_count: files.len(), files }
}

fn era_timeline(scopes: &[TimeScope], regime: &str, era: &str) -> (r: EraTimeline)
    ensures
        r@ == era_timeline_of(scope_views(scopes@), regime@, era@),
{
    let years = years_in(scopes, regime, era);
    let mut keys: Vec<u64> = Vec::new();
    let mut i: usize = 0;
    while i < years.len()
        invariant
            i <= years.len(),
            keys@.len() == i,
            forall|j: int| 0 <= j < i ==> keys@[j] == years@[j] as u64,
        decreases years.len() - i,
    {
        keys.push(years[i] as u64);
        i += 1;
    }
    assert(keys@ =~= year_keys(years@));
    let perm = stable_order(&keys);
    let ghost sv = scope_views(scopes@);
    let ghost sorted = arrange(years@, perm@);
    let mut points: Vec<TimePoint> = Vec::new();
    let mut i: usize = 0;
    while i < perm.len()
        invariant
            i <= perm.len(),
            perm@.len() == years@.len(),
            sv == scope_views(scopes@),
            sorted == arrange(years@, perm@),
            forall|j: int| 0 <= j < perm@.len() ==> (#[trigger] perm@[j]) < years@.len(),
            points@.len() == i,
            forall|j: int|
                0 <= j < i ==> (#[trigger] points@[j])@ == time_point_of(sv, regime@, era@, sorted[j]),
        decreases perm.len() - i,
    {
        points.push(time_point(scopes, regime, era, years[perm[i]]));
        i += 1;
    }
    assert(points.deep_view() =~= Seq::new(
        sorted.len(),
        |i: int| time_point_of(sv, regime@, era@, sorted[i]),
    ));
    EraTimeline { era: String::from_str(era), years: points }
}

fn regime_timeline(scopes: &[TimeScope], regime: &str) -> (r: RegimeTimeline)
    ensures
        r@ == regime_timeline_of(scope_views(scopes@), regime@),
{
    let eras = eras_in(scopes, regime);
    let mut keys: Vec<u64> = Vec::new();
    let mut i: usize = 0;
    while i < eras.len()
        invariant
            i <= eras.len(),
            keys@.len() == i,
            forall|j: int| 0 <= j < i ==> keys@[j] == era_rank(regime@, eras@[j]@) as u64,
        decreases eras.len() - i,
    {
        keys.push(era_sort_key(regime, eras[i].as_str()) as u64);
        i += 1;
    }
    assert(keys@ =~= era_keys(regime@, eras.deep_view()));
    let perm = stable_order(&keys);
    let ghost sv = scope_views(scopes@);
    let ghost sorted = arrange(eras.deep_view(), perm@);
    let mut out: Vec<EraTimeline> = Vec::new();
    let mut i: usize = 0;
    while i < perm.len()
        invariant
            i <= perm.len(),
            perm@.len() == eras@.len(),
            sv == scope_views(scopes@),
            sorted == arrange(eras.deep_view(), perm@),
            forall|j: int| 0 <= j < perm@.len() ==> (#[trigger] perm@[j]) < eras@.len(),
            out@.len() == i,
            forall|j: int|
                0 <= j < i ==> (#[trigger] out@[j])@ == era_timeline_of(sv, regime@, sorted[j]),
        decreases perm.len() - i,
    {
        out.push(era_timeline(scopes, regime, eras[perm[i]].as_str()));
        i += 1;
    }
    assert(out.deep_view() =~= Seq::new(
        sorted.len(),
        |i: int| era_timeline_of(sv, regime@, sorted[i]),
    ));
    RegimeTimeline { regime: String::from_str(regime), eras: out }
}

impl Timeline {
    /// Builds the timeline of all collected time scopes.
    pub fn from_scopes(scopes: &[TimeScope]) -> (r: Timeline)
        ensures
            r@ == timeline_of(scope_views(scopes@)),
            r.total_time_points == scope_triples(scope_views(scopes@), scopes@.len()).len(),
            in_order(r@),
    {
        if scopes.len() == 0 {
            let empty = Timeline { regimes: Vec::new(), total_time_points: 0 };
            assert(empty@.regimes =~= timeline_of(scope_views(scopes@)).regimes);
            return empty;
        }
        let regimes = regimes_in(scopes);
        let mut keys: Vec<u64> = Vec::new();
        let mut i: usize = 0;
        while i < regimes.len()
            invariant
                i <= regimes.len(),
                keys@.len() == i,
                forall|j: int| 0 <= j < i ==> keys@[j] == regime_rank(regimes@[j]@) as u64,
            decreases regimes.len() - i,
        {
            keys.push(regime_sort_key(regimes[i].as_str()) as u64);
            i += 1;
        }
        assert(keys@ =~= regime_keys(regimes.deep_view()));
        let perm = stable_order(&keys);
        let ghost sv = scope_views(scopes@);
        let ghost sorted = arrange(regimes.deep_view(), perm@);
        let mut out: Vec<RegimeTimeline> = Vec::new();
        let mut i: usize = 0;
        while i < perm.len()
            invariant
                i <= perm.len(),
                perm@.len() == regimes@.len(),
                sv == scope_views(scopes@),
                sorted == arrange(regimes.deep_view(), perm@),
                forall|j: int| 0 <= j < perm@.len() ==> (#[trigger] perm@[j]) < regimes@.len(),
                out@.len() == i,
                forall|j: int| 0 <= j < i ==> (#[trigger] out@[j])@ == regime_timeline_of(sv, sorted[j]),
            decreases perm.len() - i,
        {
            out.push(regime_timeline(scopes, regimes[perm[i]].as_str()));
            i += 1;
        }
        assert(out.deep_view() =~= Seq::new(sorted.len(), |i: int| regime_timeline_of(sv, sorted[i])));
        let total = count_triples(scopes);
        proof {
            lemma_timeline_in_order(sv);
        }
        Timeline { regimes: out, total_time_points: total }
    }
}

} // verus!
