//! Fee spike alerting decisions.
//!
//! Each polling cycle reports the spikes still inside the congestion
//! window. A spike is identified by its severity, start second and peak
//! fee. Identifiers of spikes that have left the window are forgotten; a
//! spike that meets a threshold is dispatched the first time its identifier
//! (or, per configured webhook, its identifier and the webhook URL) is seen.
use vstd::prelude::*;
use crate::text::{
    chars_eq, chars_of, decimal, push_decimal, push_signed_decimal, push_str, signed_decimal,
    string_from,
};
use crate::tracker::horizon::{parse_rfc3339, rfc3339_instant};

verus! {

broadcast use vstd::seq_lib::group_seq_properties;

/// Severity of a fee spike, from least to most severe.
#[derive(Debug, Clone, Copy, PartialEq, Eq, Structural)]
pub enum SpikeSeverity {
    Minor,
    Moderate,
    Major,
    Critical,
}

/// The position of a severity in severity order.
pub open spec fn rank(s: SpikeSeverity) -> int {
    match s {
        SpikeSeverity::Minor => 0,
        SpikeSeverity::Moderate => 1,
        SpikeSeverity::Major => 2,
        SpikeSeverity::Critical => 3,
    }
}

/// The name of a severity.
pub open spec fn severity_name(s: SpikeSeverity) -> Seq<char> {
    match s {
        SpikeSeverity::Minor => "Minor"@,
        SpikeSeverity::Moderate => "Moderate"@,
        SpikeSeverity::Major => "Major"@,
        SpikeSeverity::Critical => "Critical"@,
    }
}

/// The position of a severity in severity order.
pub fn severity_rank(severity: &SpikeSeverity) -> (res: u8)
    ensures
        res == rank(*severity),
{
    match severity {
        SpikeSeverity::Minor => 0,
        SpikeSeverity::Moderate => 1,
        SpikeSeverity::Major => 2,
        SpikeSeverity::Critical => 3,
    }
}

/// Whether a spike of `severity` is at least as severe as `threshold`.
pub fn meets_threshold(severity: &SpikeSeverity, threshold: &SpikeSeverity) -> (res: bool)
    ensures
        res == (rank(*severity) >= rank(*threshold)),
{
    severity_rank(severity) >= severity_rank(threshold)
}

/// The name of a severity.
pub fn severity_to_str(severity: &SpikeSeverity) -> (res: &'static str)
    ensures
        res@ == severity_name(*severity),
{
    match severity {
        SpikeSeverity::Minor => "Minor",
        SpikeSeverity::Moderate => "Moderate",
        SpikeSeverity::Major => "Major",
        SpikeSeverity::Critical => "Critical",
    }
}

/// The severity a configured threshold names, if any.
pub open spec fn threshold_named(s: Seq<char>) -> Option<SpikeSeverity> {
    if s == "Minor"@ {
        Some(SpikeSeverity::Minor)
    } else if s == "Moderate"@ {
        Some(SpikeSeverity::Moderate)
    } else if s == "Major"@ {
        Some(SpikeSeverity::Major)
    } else if s == "Critical"@ {
        Some(SpikeSeverity::Critical)
    } else {
        None
    }
}

/// The severity a configured threshold names (`"Minor"`, `"Moderate"`,
/// `"Major"` or `"Critical"`), if any.
pub fn parse_threshold(s: &str) -> (res: Option<SpikeSeverity>)
    ensures
        res == threshold_named(s@),
{
    let cs = chars_of(s);
    if chars_eq(&cs, &chars_of("Minor")) {
        Some(SpikeSeverity::Minor)
    } else if chars_eq(&cs, &chars_of("Moderate")) {
        Some(SpikeSeverity::Moderate)
    } else if chars_eq(&cs, &chars_of("Major")) {
        Some(SpikeSeverity::Major)
    } else if chars_eq(&cs, &chars_of("Critical")) {
        Some(SpikeSeverity::Critical)
    } else {
        None
    }
}

/// The identifier of a spike: `severity:start:peak`.
pub open spec fn spike_key(severity: Seq<char>, start_secs: int, peak_fee: int) -> Seq<char> {
    severity + ":"@ + signed_decimal(start_secs) + ":"@ + signed_decimal(peak_fee)
}

/// The identifier of a logged alert event: its severity name, trigger
/// second and peak fee.
pub fn event_key(severity: &str, triggered_secs: i64, peak_fee: i64) -> (res: String)
    ensures
        res@ == spike_key(severity@, triggered_secs as int, peak_fee as int),
{
    let mut k = string_from(severity);
    push_str(&mut k, ":");
    push_signed_decimal(&mut k, triggered_secs);
    push_str(&mut k, ":");
    push_signed_decimal(&mut k, peak_fee);
    k
}

/// The identifier a logged alert event stands for when the seen
/// identifiers are rebuilt after a restart: its severity name, the whole
/// seconds of its RFC 3339 trigger time (zero when that does not parse)
/// and its peak fee.
pub fn rehydrated_key(severity: &str, triggered_at: &str, peak_fee: i64) -> (res: String)
    ensures
        res@ == spike_key(
            severity@,
            match rfc3339_instant(triggered_at@) {
                Some(t) => t.0 as int,
                None => 0,
            },
            peak_fee as int,
        ),
{
    let secs: i64 = match parse_rfc3339(triggered_at) {
        Some(t) => t.0,
        None => 0,
    };
    event_key(severity, secs, peak_fee)
}

/// What an alert decision reads of a fee spike.
#[derive(Debug, Clone, Copy, PartialEq, Eq, Structural)]
pub struct SpikeInfo {
    pub severity: SpikeSeverity,
    /// Start of the spike, in whole seconds since the epoch.
    pub start_secs: i64,
    pub peak_fee: u64,
}

/// The identifier of a spike.
pub open spec fn spike_id(s: SpikeInfo) -> Seq<char> {
    spike_key(severity_name(s.severity), s.start_secs as int, s.peak_fee as int)
}

/// The identifier of a spike.
pub fn spike_id_of(s: &SpikeInfo) -> (res: String)
    ensures
        res@ == spike_id(*s),
{
    let mut k = string_from(severity_to_str(&s.severity));
    push_str(&mut k, ":");
    push_signed_decimal(&mut k, s.start_secs);
    push_str(&mut k, ":");
    push_decimal(&mut k, s.peak_fee);
    assert(signed_decimal(s.peak_fee as int) == decimal(s.peak_fee as nat));
    k
}

/// The identifier of a spike's dispatch to one configured webhook.
pub open spec fn route_key(id: Seq<char>, url: Seq<char>) -> Seq<char> {
    id + ":"@ + url
}

/// Identifiers seen so far, without repeats.
pub struct SeenSpikes {
    ids: Vec<String>,
}

/// The character sequences of a list of strings.
pub open spec fn texts(s: Seq<String>) -> Seq<Seq<char>> {
    s.map_values(|t: String| t@)
}

impl View for SeenSpikes {
    type V = Set<Seq<char>>;

    closed spec fn view(&self) -> Set<Seq<char>> {
        texts(self.ids@).to_set()
    }
}

fn str_eq(a: &String, b: &String) -> (res: bool)
    ensures
        res == (a@ == b@),
{
    a.eq(b)
}

impl SeenSpikes {
    #[verifier::type_invariant]
    closed spec fn no_repeats(self) -> bool {
        texts(self.ids@).no_duplicates()
    }

    /// No identifier seen yet.
    pub fn new() -> (res: Self)
        ensures
            res@ == Set::<Seq<char>>::empty(),
    {
        let res = SeenSpikes { ids: Vec::new() };
        assert(texts(res.ids@).to_set() =~= Set::<Seq<char>>::empty());
        res
    }

    /// Whether `id` has been seen.
    pub fn contains(&self, id: &String) -> (res: bool)
        ensures
            res == self@.contains(id@),
    {
        for k in 0..self.ids.len()
            invariant
                forall|j: int| 0 <= j < k ==> self.ids@[j]@ != id@,
        {
            if str_eq(&self.ids[k], id) {
                assert(texts(self.ids@)[k as int] == id@);
                return true;
            }
        }
        proof {
            if texts(self.ids@).to_set().contains(id@) {
                let j = choose|j: int| 0 <= j < texts(self.ids@).len() && texts(self.ids@)[j] == id@;
                assert(self.ids@[j]@ == id@);
            }
        }
        false
    }

    /// Records `id`; true when it had not been seen before.
    pub fn insert(&mut self, id: String) -> (res: bool)
        ensures
            res == !old(self)@.contains(id@),
            final(self)@ == old(self)@.insert(id@),
    {
        proof {
            use_type_invariant(&*self);
        }
        if self.contains(&id) {
            assert(old(self)@.insert(id@) =~= old(self)@);
            return false;
        }
        let ghost before = self.ids@;
        let mut ids: Vec<String> = Vec::new();
        std::mem::swap(&mut ids, &mut self.ids);
        ids.push(id);
        assert(texts(ids@) =~= texts(before).push(id@));
        assert(texts(ids@).no_duplicates()) by {
            assert(!texts(before).contains(id@)) by {
                if texts(before).contains(id@) {
                    assert(texts(before).to_set().contains(id@));
                }
            }
        }
        assert(texts(ids@).to_set() =~= texts(before).to_set().insert(id@));
        *self = SeenSpikes { ids };
        true
    }

    /// Forgets every identifier not among `active`.
    pub fn retain_active(&mut self, active: &Vec<String>)
        ensures
            final(self)@ == old(self)@.intersect(texts(active@).to_set()),
    {
        proof {
            use_type_invariant(&*self);
        }
        let mut old_ids: Vec<String> = Vec::new();
        std::mem::swap(&mut old_ids, &mut self.ids);
        let ghost before = texts(old_ids@);
        let act = SeenSpikes::from_list(active);
        let mut kept: Vec<String> = Vec::new();
        let mut k: usize = 0;
        let n = old_ids.len();
        let mut rest = old_ids;
        let mut idx: usize = 0;
        while idx < n
            invariant
                n == rest.len(),
                before == texts(rest@),
                before.no_duplicates(),
                act@ == texts(active@).to_set(),
                idx <= n,
                texts(kept@).no_duplicates(),
                texts(kept@).to_set() == before.take(idx as int).to_set().intersect(act@),
                forall|x: Seq<char>| texts(kept@).contains(x) ==> before.take(idx as int).contains(x),
            decreases n - idx,
        {
            let ghost pre = texts(kept@);
            let s = rest[idx].clone();
            assert(s@ == before[idx as int]);
            let keep = act.contains(&s);
            if keep {
                kept.push(s);
                proof {
                    assert(texts(kept@) =~= pre.push(before[idx as int]));
                    assert(!pre.contains(before[idx as int])) by {
                        if pre.contains(before[idx as int]) {
                            assert(before.take(idx as int).contains(before[idx as int]));
                            let j = choose|j: int| 0 <= j < idx && before.take(idx as int)[j] == before[idx as int];
                            assert(before[j] == before[idx as int]);
                        }
                    }
                }
            }
            proof {
                let x = before[idx as int];
                assert(before.take(idx + 1) =~= before.take(idx as int).push(x));
                assert(before.take(idx + 1).to_set() =~= before.take(idx as int).to_set().insert(x));
                if keep {
                    assert(act@.contains(x));
                    assert(texts(kept@).to_set() =~= pre.to_set().insert(x));
                } else {
                    assert(!act@.contains(x));
                    assert(texts(kept@) == pre);
                }
                assert(texts(kept@).to_set() =~= before.take(idx + 1).to_set().intersect(act@));
                assert forall|x: Seq<char>| texts(kept@).contains(x) implies before.take(idx + 1).contains(x) by {
                    if pre.contains(x) {
                        let j = choose|j: int| 0 <= j < pre.len() && pre[j] == x;
                        assert(before.take(idx as int).contains(x));
                        let i = choose|i: int| 0 <= i < idx && before.take(idx as int)[i] == x;
                        assert(before.take(idx + 1)[i] == x);
                    } else {
                        assert(before.take(idx + 1)[idx as int] == x);
                    }
                }
            }
            idx = idx + 1;
        }
        assert(before.take(n as int) =~= before);
        *self = SeenSpikes { ids: kept };
    }

    /// The set of the identifiers `list` holds.
    pub fn from_list(list: &Vec<String>) -> (res: Self)
        ensures
            res@ == texts(list@).to_set(),
    {
        let mut res = SeenSpikes::new();
        for k in 0..list.len()
            invariant
                res@ == texts(list@.take(k as int)).to_set(),
        {
            res.insert(list[k].clone());
            assert(texts(list@.take(k + 1)) =~= texts(list@.take(k as int)).push(list@[k as int]@));
            assert(texts(list@.take(k + 1)).to_set() =~= texts(list@.take(k as int)).to_set().insert(list@[k as int]@));
        }
        assert(list@.take(list.len() as int) =~= list@);
        res
    }
}

/// Who receives a dispatched alert.
#[derive(Debug, Clone)]
pub enum Delivery {
    /// The single webhook configured at start-up.
    Legacy,
    /// A webhook configured in the alert settings, by URL.
    Webhook(String),
}

/// One alert to send: which spike, to whom.
#[derive(Debug, Clone)]
pub struct Dispatch {
    /// Index of the spike in the list planned over.
    pub spike_index: usize,
    pub delivery: Delivery,
}

/// An enabled alert setting: a webhook and the least severity it wants.
#[derive(Debug, Clone)]
pub struct AlertRoute {
    pub webhook_url: String,
    pub threshold: SpikeSeverity,
}

/// A stored alert setting: a webhook, the name of the least severity it
/// wants, and whether it is enabled.
#[derive(Debug, Clone)]
pub struct AlertConfig {
    pub webhook_url: String,
    pub threshold: String,
    pub enabled: bool,
}

/// The routes of the enabled settings whose threshold names a severity,
/// in order.
pub open spec fn routes_of(configs: Seq<AlertConfig>) -> Seq<(Seq<char>, SpikeSeverity)>
    decreases configs.len(),
{
    if configs.len() == 0 {
        Seq::empty()
    } else {
        let rest = routes_of(configs.drop_last());
        let c = configs.last();
        match threshold_named(c.threshold@) {
            Some(t) if c.enabled => rest.push((c.webhook_url@, t)),
            _ => rest,
        }
    }
}

/// What a list of routes says: each webhook URL with its threshold.
pub open spec fn route_views(routes: Seq<AlertRoute>) -> Seq<(Seq<char>, SpikeSeverity)> {
    routes.map_values(|r: AlertRoute| (r.webhook_url@, r.threshold))
}

/// The routes of the enabled settings whose threshold names a severity;
/// the others are ignored.
pub fn enabled_routes(configs: &Vec<AlertConfig>) -> (res: Vec<AlertRoute>)
    ensures
        route_views(res@) == routes_of(configs@),
{
    let mut res: Vec<AlertRoute> = Vec::new();
    for i in 0..configs.len()
        invariant
            route_views(res@) == routes_of(configs@.take(i as int)),
    {
        let ghost before = res@;
        proof {
            assert(configs@.take(i + 1).drop_last() =~= configs@.take(i as int));
            assert(configs@.take(i + 1).last() == configs@[i as int]);
        }
        if configs[i].enabled {
            match parse_threshold(configs[i].threshold.as_str()) {
                Some(threshold) => {
                    res.push(AlertRoute { webhook_url: configs[i].webhook_url.clone(), threshold });
                    assert(route_views(res@) =~= route_views(before).push(
                        (configs@[i as int].webhook_url@, threshold),
                    ));
                },
                None => {},
            }
        }
    }
    assert(configs@.take(configs.len() as int) =~= configs@);
    res
}

/// What a dispatch says: the spike's index, and the webhook URL (`None`
/// for the start-up webhook).
pub struct DispatchView {
    pub spike: int,
    pub webhook: Option<Seq<char>>,
}

pub open spec fn dispatch_view(d: Dispatch) -> DispatchView {
    DispatchView {
        spike: d.spike_index as int,
        webhook: match d.delivery {
            Delivery::Legacy => None,
            Delivery::Webhook(u) => Some(u@),
        },
    }
}

pub open spec fn dispatch_views(s: Seq<Dispatch>) -> Seq<DispatchView> {
    s.map_values(|d: Dispatch| dispatch_view(d))
}

/// The identifiers of the spikes still in the window.
pub open spec fn active_ids(spikes: Seq<SpikeInfo>) -> Set<Seq<char>> {
    spikes.map_values(|s: SpikeInfo| spike_id(s)).to_set()
}

/// Seen identifiers and dispatches after offering spike `i` (identifier
/// `id`, severity `sev`) to the first `n` routes.
pub open spec fn route_steps(
    seen: Set<Seq<char>>,
    id: Seq<char>,
    sev: SpikeSeverity,
    routes: Seq<AlertRoute>,
    i: int,
    n: int,
) -> (Set<Seq<char>>, Seq<DispatchView>)
    decreases n,
{
    if n <= 0 {
        (seen, Seq::empty())
    } else {
        let (s1, d1) = route_steps(seen, id, sev, routes, i, n - 1);
        let r = routes[n - 1];
        let key = route_key(id, r.webhook_url@);
        if rank(sev) >= rank(r.threshold) && !s1.contains(key) {
            (s1.insert(key), d1.push(DispatchView { spike: i, webhook: Some(r.webhook_url@) }))
        } else {
            (s1, d1)
        }
    }
}

/// Seen identifiers and dispatches after the first `m` spikes.
pub open spec fn spike_steps(
    seen: Set<Seq<char>>,
    spikes: Seq<SpikeInfo>,
    routes: Seq<AlertRoute>,
    legacy_threshold: SpikeSeverity,
    legacy_delivery: bool,
    m: int,
) -> (Set<Seq<char>>, Seq<DispatchView>)
    decreases m,
{
    if m <= 0 {
        (seen, Seq::empty())
    } else {
        let (s1, d1) = spike_steps(seen, spikes, routes, legacy_threshold, legacy_delivery, m - 1);
        let sp = spikes[m - 1];
        let id = spike_id(sp);
        if routes.len() == 0 {
            if rank(sp.severity) >= rank(legacy_threshold) && !s1.contains(id) {
                (
                    s1.insert(id),
                    if legacy_delivery {
                        d1.push(DispatchView { spike: m - 1, webhook: None })
                    } else {
                        d1
                    },
                )
            } else {
                (s1, d1)
            }
        } else {
            let (s2, d2) = route_steps(s1, id, sp.severity, routes, m - 1, routes.len() as int);
            (s2, d1 + d2)
        }
    }
}

/// The seen identifiers and dispatches of one alert cycle: identifiers of
/// spikes no longer in the window are forgotten, then each spike in turn
/// is offered to the start-up webhook (when no routes are configured) or
/// to every route.
pub open spec fn plan(
    seen: Set<Seq<char>>,
    spikes: Seq<SpikeInfo>,
    routes: Seq<AlertRoute>,
    legacy_threshold: SpikeSeverity,
    legacy_delivery: bool,
) -> (Set<Seq<char>>, Seq<DispatchView>) {
    spike_steps(
        seen.intersect(active_ids(spikes)),
        spikes,
        routes,
        legacy_threshold,
        legacy_delivery,
        spikes.len() as int,
    )
}

fn route_key_of(id: &String, url: &String) -> (res: String)
    ensures
        res@ == route_key(id@, url@),
{
    let mut k = id.clone();
    push_str(&mut k, ":");
    push_str(&mut k, url.as_str());
    k
}

/// Decides which alerts one cycle sends, and updates the seen identifiers.
pub fn plan_dispatches(
    seen: &mut SeenSpikes,
    spikes: &Vec<SpikeInfo>,
    routes: &Vec<AlertRoute>,
    legacy_threshold: SpikeSeverity,
    legacy_delivery: bool,
) -> (res: Vec<Dispatch>)
    ensures
        (final(seen)@, dispatch_views(res@)) == plan(
            old(seen)@,
            spikes@,
            routes@,
            legacy_threshold,
            legacy_delivery,
        ),
{
    let use_legacy = routes.len() == 0;
    let mut active: Vec<String> = Vec::new();
    for i in 0..spikes.len()
        invariant
            active@.len() == i,
            texts(active@) == spikes@.take(i as int).map_values(|s: SpikeInfo| spike_id(s)),
    {
        let ghost pre = active@;
        let id = spike_id_of(&spikes[i]);
        active.push(id);
        proof {
            let ids = spikes@.take(i + 1).map_values(|s: SpikeInfo| spike_id(s));
            assert forall|j: int| 0 <= j < i + 1 implies texts(active@)[j] == ids[j] by {
                if j < i {
                    assert(texts(active@)[j] == texts(pre)[j]);
                    assert(texts(pre)[j] == spikes@.take(i as int).map_values(
                        |s: SpikeInfo| spike_id(s),
                    )[j]);
                }
            }
            assert(texts(active@) =~= ids);
        }
    }
    assert(spikes@.take(spikes.len() as int) =~= spikes@);
    seen.retain_active(&active);
    let ghost start = seen@;
    let mut out: Vec<Dispatch> = Vec::new();
    for i in 0..spikes.len()
        invariant
            use_legacy == (routes@.len() == 0),
            (seen@, dispatch_views(out@)) == spike_steps(
                start,
                spikes@,
                routes@,
                legacy_threshold,
                legacy_delivery,
                i as int,
            ),
    {
        let id = spike_id_of(&spikes[i]);
        let ghost before_out = dispatch_views(out@);
        let ghost before_seen = seen@;
        if use_legacy {
            if meets_threshold(&spikes[i].severity, &legacy_threshold) {
                let fresh = seen.insert(id);
                if fresh && legacy_delivery {
                    out.push(Dispatch { spike_index: i, delivery: Delivery::Legacy });
                    assert(dispatch_views(out@) =~= before_out.push(
                        DispatchView { spike: i as int, webhook: None },
                    ));
                }
            }
        } else {
            let ghost mid_out = dispatch_views(out@);
            for r in 0..routes.len()
                invariant
                    i < spikes@.len(),
                    mid_out == before_out,
                    id@ == spike_id(spikes@[i as int]),
                    ({
                        let (s2, d2) = route_steps(
                            before_seen,
                            id@,
                            spikes@[i as int].severity,
                            routes@,
                            i as int,
                            r as int,
                        );
                        seen@ == s2 && dispatch_views(out@) == before_out + d2
                    }),
            {
                let ghost pre_out = dispatch_views(out@);
                if meets_threshold(&spikes[i].severity, &routes[r].threshold) {
                    let key = route_key_of(&id, &routes[r].webhook_url);
                    let fresh = seen.insert(key);
                    if fresh {
                        out.push(
                            Dispatch {
                                spike_index: i,
                                delivery: Delivery::Webhook(routes[r].webhook_url.clone()),
                            },
                        );
                        assert(dispatch_views(out@) =~= pre_out.push(
                            DispatchView { spike: i as int, webhook: Some(routes@[r as int].webhook_url@) },
                        ));
                    }
                }
                proof {
                    let (s1, d1) = route_steps(
                        before_seen,
                        id@,
                        spikes@[i as int].severity,
                        routes@,
                        i as int,
                        r as int,
                    );
                    let (s3, d3) = route_steps(
                        before_seen,
                        id@,
                        spikes@[i as int].severity,
                        routes@,
                        i as int,
                        r + 1,
                    );
                    assert(pre_out == before_out + d1);
                    assert(dispatch_views(out@) =~= before_out + d3);
                }
            }
        }
    }
    out
}

/// Legacy-mode law: with no routes configured, once a cycle has run, a
/// second cycle over the same spikes dispatches nothing; each spike still
/// in the window is sent at most once.
pub proof fn lemma_spike_dispatched_once(
    seen: Set<Seq<char>>,
    spikes: Seq<SpikeInfo>,
    legacy_threshold: SpikeSeverity,
    legacy_delivery: bool,
)
    ensures
        ({
            let routes = Seq::<AlertRoute>::empty();
            let first = plan(seen, spikes, routes, legacy_threshold, legacy_delivery);
            plan(first.0, spikes, routes, legacy_threshold, legacy_delivery).1.len() == 0
        }),
{
    let routes = Seq::<AlertRoute>::empty();
    let first = plan(seen, spikes, routes, legacy_threshold, legacy_delivery);
    let n = spikes.len() as int;
    lemma_legacy_records_ids(seen.intersect(active_ids(spikes)), spikes, legacy_threshold, legacy_delivery, n);
    let s2 = first.0.intersect(active_ids(spikes));
    assert forall|k: int| 0 <= k < n && rank(#[trigger] spikes[k].severity) >= rank(legacy_threshold)
        implies s2.contains(spike_id(spikes[k])) by {
        assert(spikes.map_values(|s: SpikeInfo| spike_id(s))[k] == spike_id(spikes[k]));
    }
    lemma_legacy_silent(s2, spikes, legacy_threshold, legacy_delivery, n);
}

proof fn lemma_legacy_records_ids(
    seen: Set<Seq<char>>,
    spikes: Seq<SpikeInfo>,
    lt: SpikeSeverity,
    ld: bool,
    m: int,
)
    requires
        0 <= m <= spikes.len(),
    ensures
        forall|k: int| 0 <= k < m && rank(#[trigger] spikes[k].severity) >= rank(lt)
            ==> spike_steps(seen, spikes, Seq::<AlertRoute>::empty(), lt, ld, m).0.contains(spike_id(spikes[k])),
    decreases m,
{
    if m > 0 {
        lemma_legacy_records_ids(seen, spikes, lt, ld, m - 1);
    }
}

proof fn lemma_legacy_silent(
    seen: Set<Seq<char>>,
    spikes: Seq<SpikeInfo>,
    lt: SpikeSeverity,
    ld: bool,
    m: int,
)
    requires
        0 <= m <= spikes.len(),
        forall|k: int| 0 <= k < m && rank(#[trigger] spikes[k].severity) >= rank(lt) ==> seen.contains(spike_id(spikes[k])),
    ensures
        spike_steps(seen, spikes, Seq::<AlertRoute>::empty(), lt, ld, m).1.len() == 0,
        spike_steps(seen, spikes, Seq::<AlertRoute>::empty(), lt, ld, m).0 == seen,
    decreases m,
{
    if m > 0 {
        lemma_legacy_silent(seen, spikes, lt, ld, m - 1);
    }
}


/// Legacy-mode law: after a cycle, only identifiers of spikes still in the
/// window are remembered.
pub proof fn lemma_legacy_seen_stays_active(
    seen: Set<Seq<char>>,
    spikes: Seq<SpikeInfo>,
    legacy_threshold: SpikeSeverity,
    legacy_delivery: bool,
)
    ensures
        plan(seen, spikes, Seq::<AlertRoute>::empty(), legacy_threshold, legacy_delivery).0.subset_of(
            active_ids(spikes),
        ),
{
    lemma_legacy_steps_within(
        seen.intersect(active_ids(spikes)),
        spikes,
        legacy_threshold,
        legacy_delivery,
        spikes.len() as int,
    );
}

proof fn lemma_legacy_steps_within(
    start: Set<Seq<char>>,
    spikes: Seq<SpikeInfo>,
    lt: SpikeSeverity,
    ld: bool,
    m: int,
)
    requires
        0 <= m <= spikes.len(),
        start.subset_of(active_ids(spikes)),
    ensures
        spike_steps(start, spikes, Seq::<AlertRoute>::empty(), lt, ld, m).0.subset_of(active_ids(spikes)),
    decreases m,
{
    if m > 0 {
        lemma_legacy_steps_within(start, spikes, lt, ld, m - 1);
        let ids = spikes.map_values(|s: SpikeInfo| spike_id(s));
        assert(ids[m - 1] == spike_id(spikes[m - 1]));
        assert(ids.contains(spike_id(spikes[m - 1])));
    }
}


/// Whether spike `i` of `spikes` has identifier `id` and meets `lt`.
spec fn qualifies(spikes: Seq<SpikeInfo>, lt: SpikeSeverity, id: Seq<char>, i: int) -> bool {
    spike_id(spikes[i]) == id && rank(spikes[i].severity) >= rank(lt)
}

proof fn lemma_first_qualifying(spikes: Seq<SpikeInfo>, lt: SpikeSeverity, id: Seq<char>, k: int) -> (j:
    int)
    requires
        0 <= k < spikes.len(),
        qualifies(spikes, lt, id, k),
    ensures
        0 <= j <= k,
        qualifies(spikes, lt, id, j),
        forall|i: int| 0 <= i < j ==> !#[trigger] qualifies(spikes, lt, id, i),
    decreases k,
{
    if exists|i: int| 0 <= i < k && #[trigger] qualifies(spikes, lt, id, i) {
        let i = choose|i: int| 0 <= i < k && #[trigger] qualifies(spikes, lt, id, i);
        lemma_first_qualifying(spikes, lt, id, i)
    } else {
        k
    }
}

proof fn lemma_id_stays_unseen(
    start: Set<Seq<char>>,
    spikes: Seq<SpikeInfo>,
    lt: SpikeSeverity,
    ld: bool,
    id: Seq<char>,
    m: int,
)
    requires
        0 <= m <= spikes.len(),
        !start.contains(id),
        forall|i: int| 0 <= i < m ==> !#[trigger] qualifies(spikes, lt, id, i),
    ensures
        !spike_steps(start, spikes, Seq::<AlertRoute>::empty(), lt, ld, m).0.contains(id),
    decreases m,
{
    if m > 0 {
        lemma_id_stays_unseen(start, spikes, lt, ld, id, m - 1);
        assert(!qualifies(spikes, lt, id, m - 1));
    }
}

proof fn lemma_dispatch_kept(
    start: Set<Seq<char>>,
    spikes: Seq<SpikeInfo>,
    lt: SpikeSeverity,
    ld: bool,
    x: DispatchView,
    m: int,
    n: int,
)
    requires
        0 <= m <= n <= spikes.len(),
        spike_steps(start, spikes, Seq::<AlertRoute>::empty(), lt, ld, m).1.contains(x),
    ensures
        spike_steps(start, spikes, Seq::<AlertRoute>::empty(), lt, ld, n).1.contains(x),
    decreases n - m,
{
    if m < n {
        lemma_dispatch_kept(start, spikes, lt, ld, x, m, n - 1);
        let d = spike_steps(start, spikes, Seq::<AlertRoute>::empty(), lt, ld, n - 1).1;
        let w = choose|w: int| 0 <= w < d.len() && d[w] == x;
        let d2 = spike_steps(start, spikes, Seq::<AlertRoute>::empty(), lt, ld, n).1;
        assert(d2[w] == x);
    }
}

proof fn lemma_dispatch_indices(
    start: Set<Seq<char>>,
    spikes: Seq<SpikeInfo>,
    lt: SpikeSeverity,
    ld: bool,
    m: int,
)
    requires
        0 <= m <= spikes.len(),
    ensures
        forall|x: DispatchView|
            #[trigger] spike_steps(start, spikes, Seq::<AlertRoute>::empty(), lt, ld, m).1.contains(x)
                ==> 0 <= x.spike < m,
    decreases m,
{
    if m > 0 {
        lemma_dispatch_indices(start, spikes, lt, ld, m - 1);
        let d1 = spike_steps(start, spikes, Seq::<AlertRoute>::empty(), lt, ld, m - 1).1;
        let d = spike_steps(start, spikes, Seq::<AlertRoute>::empty(), lt, ld, m).1;
        assert forall|x: DispatchView| d.contains(x) implies 0 <= x.spike < m by {
            let w = choose|w: int| 0 <= w < d.len() && d[w] == x;
            if w < d1.len() {
                assert(d1[w] == x);
                assert(d1.contains(x));
            }
        }
    }
}

proof fn lemma_unseen_spike_dispatched(
    start: Set<Seq<char>>,
    spikes: Seq<SpikeInfo>,
    lt: SpikeSeverity,
    k: int,
) -> (j: int)
    requires
        0 <= k < spikes.len(),
        rank(spikes[k].severity) >= rank(lt),
        !start.contains(spike_id(spikes[k])),
    ensures
        0 <= j <= k,
        spike_id(spikes[j]) == spike_id(spikes[k]),
        spike_steps(start, spikes, Seq::<AlertRoute>::empty(), lt, true, spikes.len() as int).1.contains(
            DispatchView { spike: j, webhook: None },
        ),
{
    let id = spike_id(spikes[k]);
    assert(qualifies(spikes, lt, id, k));
    let j = lemma_first_qualifying(spikes, lt, id, k);
    lemma_id_stays_unseen(start, spikes, lt, true, id, j);
    let d = spike_steps(start, spikes, Seq::<AlertRoute>::empty(), lt, true, j + 1).1;
    let x = DispatchView { spike: j, webhook: None };
    assert(d[d.len() - 1] == x);
    lemma_dispatch_kept(start, spikes, lt, true, x, j + 1, spikes.len() as int);
    j
}

proof fn lemma_not_active(spikes: Seq<SpikeInfo>, id: Seq<char>)
    requires
        forall|i: int| 0 <= i < spikes.len() ==> spike_id(#[trigger] spikes[i]) != id,
    ensures
        !active_ids(spikes).contains(id),
{
    let ids = spikes.map_values(|s: SpikeInfo| spike_id(s));
    if ids.contains(id) {
        let i = choose|i: int| 0 <= i < ids.len() && ids[i] == id;
        assert(spike_id(spikes[i]) != id);
    }
}

/// Legacy-mode law: a spike that meets the threshold is sent when it is in
/// the window and not yet seen (so, from nothing seen, on the first cycle);
/// a cycle whose window no longer holds it sends nothing for it; and once
/// it comes back into the window it is sent again.
pub proof fn lemma_returning_spike_dispatched_again(
    seen: Set<Seq<char>>,
    first: Seq<SpikeInfo>,
    second: Seq<SpikeInfo>,
    legacy_threshold: SpikeSeverity,
    k: int,
)
    requires
        0 <= k < first.len(),
        rank(first[k].severity) >= rank(legacy_threshold),
        forall|i: int| 0 <= i < second.len() ==> spike_id(#[trigger] second[i]) != spike_id(first[k]),
    ensures
        ({
            let routes = Seq::<AlertRoute>::empty();
            let id = spike_id(first[k]);
            let c1 = plan(seen, first, routes, legacy_threshold, true);
            let c2 = plan(c1.0, second, routes, legacy_threshold, true);
            let c3 = plan(c2.0, first, routes, legacy_threshold, true);
            &&& !seen.contains(id) ==> exists|j: int|
                0 <= j <= k && spike_id(first[j]) == id && #[trigger] c1.1.contains(
                    DispatchView { spike: j, webhook: None },
                )
            &&& forall|x: DispatchView| #[trigger] c2.1.contains(x) ==> spike_id(second[x.spike]) != id
            &&& exists|j: int|
                0 <= j <= k && spike_id(first[j]) == id && #[trigger] c3.1.contains(
                    DispatchView { spike: j, webhook: None },
                )
        }),
{
    let routes = Seq::<AlertRoute>::empty();
    let lt = legacy_threshold;
    let id = spike_id(first[k]);
    let c1 = plan(seen, first, routes, lt, true);
    let c2 = plan(c1.0, second, routes, lt, true);
    if !seen.contains(id) {
        let j = lemma_unseen_spike_dispatched(seen.intersect(active_ids(first)), first, lt, k);
        assert(c1.1.contains(DispatchView { spike: j, webhook: None }));
    }
    lemma_dispatch_indices(c1.0.intersect(active_ids(second)), second, lt, true, second.len() as int);
    lemma_legacy_seen_stays_active(c1.0, second, lt, true);
    lemma_not_active(second, id);
    assert(!c2.0.contains(id));
    let j = lemma_unseen_spike_dispatched(c2.0.intersect(active_ids(first)), first, lt, k);
    assert(plan(c2.0, first, routes, lt, true).1.contains(DispatchView { spike: j, webhook: None }));
}


proof fn lemma_route_key_cancel(id: Seq<char>, a: Seq<char>, b: Seq<char>)
    requires
        route_key(id, a) == route_key(id, b),
    ensures
        a == b,
{
    reveal_strlit(":");
    let n = id.len() + 1;
    assert(route_key(id, a).len() == n + a.len());
    assert(route_key(id, b).len() == n + b.len());
    assert forall|j: int| 0 <= j < a.len() implies a[j] == b[j] by {
        assert(route_key(id, a)[n + j] == a[j]);
        assert(route_key(id, b)[n + j] == b[j]);
    }
    assert(a =~= b);
}

proof fn lemma_route_seen_from(
    s1: Set<Seq<char>>,
    id: Seq<char>,
    sev: SpikeSeverity,
    routes: Seq<AlertRoute>,
    i: int,
    n: int,
    x: Seq<char>,
)
    requires
        0 <= n <= routes.len(),
        route_steps(s1, id, sev, routes, i, n).0.contains(x),
    ensures
        s1.contains(x) || exists|r: int|
            0 <= r < n && rank(sev) >= rank(routes[r].threshold) && x == #[trigger] route_key(
                id,
                routes[r].webhook_url@,
            ),
    decreases n,
{
    if n > 0 {
        let prev = route_steps(s1, id, sev, routes, i, n - 1).0;
        let key = route_key(id, routes[n - 1].webhook_url@);
        if prev.contains(x) {
            lemma_route_seen_from(s1, id, sev, routes, i, n - 1, x);
        } else {
            assert(x == key);
        }
    }
}

proof fn lemma_route_dispatch_kept(
    s1: Set<Seq<char>>,
    id: Seq<char>,
    sev: SpikeSeverity,
    routes: Seq<AlertRoute>,
    i: int,
    m: int,
    n: int,
    y: DispatchView,
)
    requires
        0 <= m <= n <= routes.len(),
        route_steps(s1, id, sev, routes, i, m).1.contains(y),
    ensures
        route_steps(s1, id, sev, routes, i, n).1.contains(y),
    decreases n - m,
{
    if m < n {
        lemma_route_dispatch_kept(s1, id, sev, routes, i, m, n - 1, y);
        let d = route_steps(s1, id, sev, routes, i, n - 1).1;
        let w = choose|w: int| 0 <= w < d.len() && d[w] == y;
        assert(route_steps(s1, id, sev, routes, i, n).1[w] == y);
    }
}

/// Spike `i` is sent to URL `u` by its route offers when some route with
/// URL `u` takes its severity and its key was not seen before.
proof fn lemma_route_offer_sent(
    s1: Set<Seq<char>>,
    id: Seq<char>,
    sev: SpikeSeverity,
    routes: Seq<AlertRoute>,
    i: int,
    n: int,
    u: Seq<char>,
)
    requires
        0 <= n <= routes.len(),
        !s1.contains(route_key(id, u)),
        exists|r: int| 0 <= r < n && routes[r].webhook_url@ == u && rank(sev) >= rank(#[trigger] routes[r].threshold),
    ensures
        route_steps(s1, id, sev, routes, i, n).1.contains(DispatchView { spike: i, webhook: Some(u) }),
    decreases n,
{
    let y = DispatchView { spike: i, webhook: Some(u) };
    let key = route_key(id, u);
    if exists|r: int| 0 <= r < n - 1 && routes[r].webhook_url@ == u && rank(sev) >= rank(#[trigger] routes[r].threshold) {
        lemma_route_offer_sent(s1, id, sev, routes, i, n - 1, u);
        lemma_route_dispatch_kept(s1, id, sev, routes, i, n - 1, n, y);
    } else {
        let prev = route_steps(s1, id, sev, routes, i, n - 1);
        if prev.0.contains(key) {
            lemma_route_seen_from(s1, id, sev, routes, i, n - 1, key);
            let r = choose|r: int|
                0 <= r < n - 1 && rank(sev) >= rank(routes[r].threshold) && key == #[trigger] route_key(
                    id,
                    routes[r].webhook_url@,
                );
            lemma_route_key_cancel(id, routes[r].webhook_url@, u);
            assert(false);
        }
        assert(routes[n - 1].webhook_url@ == u);
        let d = route_steps(s1, id, sev, routes, i, n).1;
        assert(d[d.len() - 1] == y);
    }
}

proof fn lemma_spike_seen_from(
    start: Set<Seq<char>>,
    spikes: Seq<SpikeInfo>,
    routes: Seq<AlertRoute>,
    lt: SpikeSeverity,
    ld: bool,
    m: int,
    x: Seq<char>,
)
    requires
        0 <= m <= spikes.len(),
        routes.len() > 0,
        spike_steps(start, spikes, routes, lt, ld, m).0.contains(x),
    ensures
        start.contains(x) || exists|j: int, r: int|
            0 <= j < m && 0 <= r < routes.len() && x == #[trigger] route_key(
                spike_id(spikes[j]),
                routes[r].webhook_url@,
            ),
    decreases m,
{
    if m > 0 {
        let s1 = spike_steps(start, spikes, routes, lt, ld, m - 1).0;
        let sp = spikes[m - 1];
        if s1.contains(x) {
            lemma_spike_seen_from(start, spikes, routes, lt, ld, m - 1, x);
            if !start.contains(x) {
                let (j, r) = choose|j: int, r: int|
                    0 <= j < m - 1 && 0 <= r < routes.len() && x == #[trigger] route_key(
                        spike_id(spikes[j]),
                        routes[r].webhook_url@,
                    );
                assert(0 <= j < m && 0 <= r < routes.len() && x == route_key(spike_id(spikes[j]), routes[r].webhook_url@));
            }
        } else {
            lemma_route_seen_from(s1, spike_id(sp), sp.severity, routes, m - 1, routes.len() as int, x);
            let r = choose|r: int|
                0 <= r < routes.len() && rank(sp.severity) >= rank(routes[r].threshold) && x
                    == #[trigger] route_key(spike_id(sp), routes[r].webhook_url@);
            assert(0 <= m - 1 < m && x == route_key(spike_id(spikes[m - 1]), routes[r].webhook_url@));
        }
    }
}

proof fn lemma_spike_dispatch_kept(
    start: Set<Seq<char>>,
    spikes: Seq<SpikeInfo>,
    routes: Seq<AlertRoute>,
    lt: SpikeSeverity,
    ld: bool,
    m: int,
    n: int,
    y: DispatchView,
)
    requires
        0 <= m <= n <= spikes.len(),
        routes.len() > 0,
        spike_steps(start, spikes, routes, lt, ld, m).1.contains(y),
    ensures
        spike_steps(start, spikes, routes, lt, ld, n).1.contains(y),
    decreases n - m,
{
    if m < n {
        lemma_spike_dispatch_kept(start, spikes, routes, lt, ld, m, n - 1, y);
        let d = spike_steps(start, spikes, routes, lt, ld, n - 1).1;
        let w = choose|w: int| 0 <= w < d.len() && d[w] == y;
        assert(spike_steps(start, spikes, routes, lt, ld, n).1[w] == y);
    }
}

/// Route-mode law: with alert routes configured, spike `k` of the window
/// is sent to the URL of every route whose threshold its severity meets,
/// unless that spike-and-URL pair was seen before the cycle or already
/// came up for an earlier spike of the window; this holds whether or not a
/// start-up webhook is configured.
pub proof fn lemma_route_receives_spike(
    seen: Set<Seq<char>>,
    spikes: Seq<SpikeInfo>,
    routes: Seq<AlertRoute>,
    legacy_threshold: SpikeSeverity,
    legacy_delivery: bool,
    k: int,
    r: int,
)
    requires
        0 <= k < spikes.len(),
        0 <= r < routes.len(),
        rank(spikes[k].severity) >= rank(routes[r].threshold),
        !seen.contains(route_key(spike_id(spikes[k]), routes[r].webhook_url@)),
        forall|j: int, q: int|
            0 <= j < k && 0 <= q < routes.len() ==> #[trigger] route_key(
                spike_id(spikes[j]),
                routes[q].webhook_url@,
            ) != route_key(spike_id(spikes[k]), routes[r].webhook_url@),
    ensures
        plan(seen, spikes, routes, legacy_threshold, legacy_delivery).1.contains(
            DispatchView { spike: k, webhook: Some(routes[r].webhook_url@) },
        ),
{
    let start = seen.intersect(active_ids(spikes));
    let lt = legacy_threshold;
    let ld = legacy_delivery;
    let id = spike_id(spikes[k]);
    let u = routes[r].webhook_url@;
    let key = route_key(id, u);
    let y = DispatchView { spike: k, webhook: Some(u) };
    let s1 = spike_steps(start, spikes, routes, lt, ld, k).0;
    if s1.contains(key) {
        lemma_spike_seen_from(start, spikes, routes, lt, ld, k, key);
        if !start.contains(key) {
            let (j, q) = choose|j: int, q: int|
                0 <= j < k && 0 <= q < routes.len() && key == #[trigger] route_key(
                    spike_id(spikes[j]),
                    routes[q].webhook_url@,
                );
            assert(false);
        }
    }
    assert(routes[r].webhook_url@ == u && rank(spikes[k].severity) >= rank(routes[r].threshold));
    lemma_route_offer_sent(s1, id, spikes[k].severity, routes, k, routes.len() as int, u);
    let d1 = spike_steps(start, spikes, routes, lt, ld, k).1;
    let d2 = route_steps(s1, id, spikes[k].severity, routes, k, routes.len() as int).1;
    let w = choose|w: int| 0 <= w < d2.len() && d2[w] == y;
    assert(spike_steps(start, spikes, routes, lt, ld, k + 1).1[d1.len() + w] == y);
    lemma_spike_dispatch_kept(start, spikes, routes, lt, ld, k + 1, spikes.len() as int, y);
}

proof fn lemma_route_steps_ignore_delivery(
    start: Set<Seq<char>>,
    spikes: Seq<SpikeInfo>,
    routes: Seq<AlertRoute>,
    lt: SpikeSeverity,
    m: int,
)
    requires
        routes.len() > 0,
    ensures
        spike_steps(start, spikes, routes, lt, true, m) == spike_steps(start, spikes, routes, lt, false, m),
    decreases m,
{
    if m > 0 {
        lemma_route_steps_ignore_delivery(start, spikes, routes, lt, m - 1);
    }
}

/// Route-mode law: with alert routes configured, what a cycle sends and
/// remembers does not depend on whether a start-up webhook is configured.
pub proof fn lemma_routes_ignore_startup_webhook(
    seen: Set<Seq<char>>,
    spikes: Seq<SpikeInfo>,
    routes: Seq<AlertRoute>,
    legacy_threshold: SpikeSeverity,
)
    requires
        routes.len() > 0,
    ensures
        plan(seen, spikes, routes, legacy_threshold, true) == plan(
            seen,
            spikes,
            routes,
            legacy_threshold,
            false,
        ),
{
    lemma_route_steps_ignore_delivery(
        seen.intersect(active_ids(spikes)),
        spikes,
        routes,
        legacy_threshold,
        spikes.len() as int,
    );
}

} // verus!