//! The integrity and status pages: which links of a menu hash chain are broken, the
//! overall status from open incidents, and the daily status history of a component.

use vstd::prelude::*;
use vstd::string::StringExecFns;
use crate::calendar::{CalendarDate, prev_day, date_pred};
use crate::pricing::{date_le, date_on_or_before};
use crate::assistant::str_is;
use crate::text::{extend_str, string_from_chars};

verus! {

/// One approved menu of a chain (one city and meal, in serving order), as stored.
pub struct ChainNode {
    pub menu_id: i32,
    pub stored_root: Option<String>,
    pub stored_prev: Option<String>,
}

/// The hash the `i`-th menu of a chain must point back to: none for the first, else the
/// hash computed for the one before.
pub open spec fn expected_prev(calculated: Seq<Seq<char>>, i: int) -> Option<Seq<char>> {
    if i == 0 { None } else { Some(calculated[i - 1]) }
}

/// A menu is corrupted when its stored hash is missing or differs from the hash computed
/// for it, or when the hash it points back to is not the one computed for its
/// predecessor.
pub open spec fn link_corrupted(n: ChainNode, calculated: Seq<Seq<char>>, i: int) -> bool {
    (match n.stored_root {
        Some(h) => h@ != calculated[i],
        None => true,
    }) || (match n.stored_prev {
        Some(h) => expected_prev(calculated, i) != Some(h@),
        None => expected_prev(calculated, i) is Some,
    })
}

/// The places of the corrupted menus of a chain, in order.
pub open spec fn corrupted_links(nodes: Seq<ChainNode>, calculated: Seq<Seq<char>>) -> Seq<int>
    decreases nodes.len(),
{
    if nodes.len() == 0 {
        Seq::empty()
    } else {
        let i = nodes.len() - 1;
        let p = corrupted_links(nodes.drop_last(), calculated);
        if link_corrupted(nodes[i], calculated, i) { p.push(i) } else { p }
    }
}

fn same_text(a: &String, b: &String) -> (r: bool)
    ensures
        r == (a@ == b@),
{
    str_is(a.as_str(), b.as_str())
}

/// Checks the links of one chain against the hashes computed for it (`calculated[i]`
/// for the `i`-th menu), returning the places of the corrupted menus.
pub fn check_chain(nodes: &Vec<ChainNode>, calculated: &Vec<String>) -> (r: Vec<usize>)
    requires
        calculated@.len() == nodes@.len(),
    ensures
        r@.map_values(|i: usize| i as int) == corrupted_links(nodes@, calculated@.map_values(|s: String| s@)),
{
    let ghost cv = calculated@.map_values(|s: String| s@);
    let mut out: Vec<usize> = Vec::new();
    let mut i: usize = 0;
    assert(nodes@.take(0) =~= Seq::<ChainNode>::empty());
    assert(out@.map_values(|i: usize| i as int) =~= Seq::<int>::empty());
    while i < nodes.len()
        invariant
            i <= nodes@.len() == calculated@.len(),
            cv == calculated@.map_values(|s: String| s@),
            out@.map_values(|i: usize| i as int) == corrupted_links(nodes@.take(i as int), cv),
        decreases nodes@.len() - i,
    {
        let n = &nodes[i];
        let root_bad = match &n.stored_root {
            Some(h) => !same_text(h, &calculated[i]),
            None => true,
        };
        let prev_bad = match &n.stored_prev {
            Some(h) => i == 0 || !same_text(h, &calculated[i - 1]),
            None => i > 0,
        };
        proof {
            let t = nodes@.take(i + 1);
            assert(t.drop_last() =~= nodes@.take(i as int));
            assert(t[i as int] == nodes@[i as int]);
            assert(cv[i as int] == calculated@[i as int]@);
            if i > 0 {
                assert(cv[i - 1] == calculated@[i - 1]@);
            }
            assert(root_bad || prev_bad <==> link_corrupted(nodes@[i as int], cv, i as int));
        }
        let ghost before = out@.map_values(|i: usize| i as int);
        if root_bad || prev_bad {
            out.push(i);
            assert(out@.map_values(|i: usize| i as int) =~= before.push(i as int));
        }
        i = i + 1;
    }
    assert(nodes@.take(nodes@.len() as int) =~= nodes@);
    out
}

/// A chain whose every stored hash is the computed one and points back to the
/// predecessor's has no corrupted menu.
pub proof fn lemma_intact_chain(nodes: Seq<ChainNode>, calculated: Seq<Seq<char>>)
    requires
        forall|i: int| 0 <= i < nodes.len() ==> ((#[trigger] nodes[i]).stored_root matches Some(h) && h@ == calculated[i]),
        forall|i: int| 0 <= i < nodes.len() ==> match (#[trigger] nodes[i]).stored_prev {
            Some(h) => i > 0 && h@ == calculated[i - 1],
            None => i == 0,
        },
    ensures
        corrupted_links(nodes, calculated).len() == 0,
    decreases nodes.len(),
{
    if nodes.len() > 0 {
        let i = nodes.len() - 1;
        assert(nodes[i] == nodes[i]);
        assert forall|k: int| 0 <= k < nodes.drop_last().len() implies ((#[trigger] nodes.drop_last()[k]).stored_root matches Some(h) && h@ == calculated[k]) by {
            assert(nodes.drop_last()[k] == nodes[k]);
        }
        assert forall|k: int| 0 <= k < nodes.drop_last().len() implies match (#[trigger] nodes.drop_last()[k]).stored_prev {
            Some(h) => k > 0 && h@ == calculated[k - 1],
            None => k == 0,
        } by {
            assert(nodes.drop_last()[k] == nodes[k]);
        }
        lemma_intact_chain(nodes.drop_last(), calculated);
    }
}

/// The key of a chain head: `menu:<city>:<meal>`.
pub open spec fn spec_head_key(city_slug: Seq<char>, meal: Seq<char>) -> Seq<char> {
    "menu:"@ + city_slug + ":"@ + meal
}

/// Writes the key of a chain head.
pub fn head_key(city_slug: &str, meal: &str) -> (r: String)
    ensures
        r@ == spec_head_key(city_slug@, meal@),
{
    let mut out: Vec<char> = Vec::new();
    extend_str(&mut out, "menu:");
    extend_str(&mut out, city_slug);
    extend_str(&mut out, ":");
    extend_str(&mut out, meal);
    string_from_chars(out.as_slice())
}

/// A recorded incident of a component: its status (`resolved` once over), its impact
/// (`kesinti` for an outage, otherwise a slowdown), and the days it started and, if
/// resolved, ended on.
pub struct IncidentRecord {
    pub component: String,
    pub status: String,
    pub impact: String,
    pub started: CalendarDate,
    pub resolved: Option<CalendarDate>,
}

/// Whether an incident is still open.
pub open spec fn is_open(i: IncidentRecord) -> bool {
    i.status@ != "resolved"@
}

/// The overall status: `kesinti` while an open incident is an outage, else `yavas` while
/// any incident is open, else `aktif`.
pub open spec fn spec_overall_status(incs: Seq<IncidentRecord>) -> Seq<char> {
    if exists|k: int| 0 <= k < incs.len() && is_open(#[trigger] incs[k]) && incs[k].impact@ == "kesinti"@ {
        "kesinti"@
    } else if exists|k: int| 0 <= k < incs.len() && is_open(#[trigger] incs[k]) {
        "yavas"@
    } else {
        "aktif"@
    }
}

/// Computes the overall status from the incidents of the last thirty days.
pub fn overall_status(incs: &Vec<IncidentRecord>) -> (r: String)
    ensures
        r@ == spec_overall_status(incs@),
{
    let mut outage = false;
    let mut open = false;
    let mut i: usize = 0;
    while i < incs.len()
        invariant
            i <= incs@.len(),
            outage == exists|k: int| 0 <= k < i && is_open(#[trigger] incs@[k]) && incs@[k].impact@ == "kesinti"@,
            open == exists|k: int| 0 <= k < i && is_open(#[trigger] incs@[k]),
        decreases incs@.len() - i,
    {
        let o = !str_is(incs[i].status.as_str(), "resolved");
        if o {
            open = true;
            if str_is(incs[i].impact.as_str(), "kesinti") {
                outage = true;
            }
        }
        proof {
            assert(o == is_open(incs@[i as int]));
        }
        i = i + 1;
    }
    if outage {
        String::from_str("kesinti")
    } else if open {
        String::from_str("yavas")
    } else {
        String::from_str("aktif")
    }
}

/// Whether an incident of `component` covers `day`: it started on or before it, and it
/// ends on or after it (an unresolved one lasts until `today`).
pub open spec fn covers(i: IncidentRecord, component: Seq<char>, day: CalendarDate, today: CalendarDate) -> bool {
    &&& i.component@ == component
    &&& date_le(i.started, day)
    &&& date_le(day, match i.resolved { Some(e) => e, None => today })
}

/// The status of `component` on `day`: the impact of the first incident that covers the
/// day, else `aktif`.
pub open spec fn spec_day_status(incs: Seq<IncidentRecord>, component: Seq<char>, day: CalendarDate, today: CalendarDate) -> Seq<char>
    decreases incs.len(),
{
    if incs.len() == 0 {
        "aktif"@
    } else if covers(incs[0], component, day, today) {
        incs[0].impact@
    } else {
        spec_day_status(incs.drop_first(), component, day, today)
    }
}

/// Computes the status of a component on one day.
pub fn day_status(incs: &Vec<IncidentRecord>, component: &str, day: CalendarDate, today: CalendarDate) -> (r: String)
    ensures
        r@ == spec_day_status(incs@, component@, day, today),
{
    let mut i: usize = 0;
    assert(incs@.skip(0) =~= incs@);
    while i < incs.len()
        invariant
            i <= incs@.len(),
            spec_day_status(incs@, component@, day, today) == spec_day_status(incs@.skip(i as int), component@, day, today),
        decreases incs@.len() - i,
    {
        let inc = &incs[i];
        let end = match inc.resolved {
            Some(e) => e,
            None => today,
        };
        proof {
            assert(incs@.skip(i as int)[0] == incs@[i as int]);
            assert(incs@.skip(i as int).drop_first() =~= incs@.skip(i + 1));
        }
        if str_is(inc.component.as_str(), component) && date_on_or_before(inc.started, day) && date_on_or_before(day, end) {
            return inc.impact.clone();
        }
        i = i + 1;
    }
    String::from_str("aktif")
}

/// The `n` days that end with `today`, oldest first (fewer if the calendar starts
/// before).
pub open spec fn days_ending(today: CalendarDate, n: nat) -> Seq<CalendarDate>
    decreases n,
{
    if n == 0 {
        Seq::empty()
    } else if n == 1 {
        seq![today]
    } else {
        match prev_day(today) {
            Some(p) => days_ending(p, (n - 1) as nat).push(today),
            None => seq![today],
        }
    }
}

proof fn lemma_days_ending_len(t: CalendarDate, n: nat)
    ensures
        days_ending(t, n).len() <= n,
        n > 0 ==> days_ending(t, n).len() >= 1 && days_ending(t, n).last() == t,
    decreases n,
{
    if n > 1 {
        if let Some(p) = prev_day(t) {
            lemma_days_ending_len(p, (n - 1) as nat);
        }
    }
}

/// One more day at the front: when the `n` days ending with `t` are all there and the
/// calendar goes back one more, the `n + 1` days are those with that day in front; when
/// it does not, there are no more days to add.
proof fn lemma_days_ending_grow(t: CalendarDate, n: nat)
    requires
        n >= 1,
        days_ending(t, n).len() == n,
    ensures
        match prev_day(days_ending(t, n)[0]) {
            Some(p) => days_ending(t, n + 1) == seq![p] + days_ending(t, n),
            None => days_ending(t, n + 1) == days_ending(t, n),
        },
    decreases n,
{
    let e = days_ending(t, n);
    if n == 1 {
        assert(e =~= seq![t]);
        if let Some(p) = prev_day(t) {
            assert(days_ending(p, 1) =~= seq![p]);
            assert(days_ending(t, 2) =~= seq![p] + e);
        }
    } else {
        let q = prev_day(t)->0;
        lemma_days_ending_len(q, (n - 1) as nat);
        let inner = days_ending(q, (n - 1) as nat);
        assert(e == inner.push(t));
        assert(inner.len() == n - 1);
        assert(e[0] == inner[0]);
        lemma_days_ending_grow(q, (n - 1) as nat);
        match prev_day(inner[0]) {
            Some(p) => {
                assert(days_ending(q, n) == seq![p] + inner);
                assert(days_ending(t, n + 1) == days_ending(q, n).push(t));
                assert(days_ending(t, n + 1) =~= seq![p] + e);
            },
            None => {
                assert(days_ending(t, n + 1) == days_ending(q, n).push(t));
            },
        }
    }
}

/// Once the calendar runs out, asking for more days gives the same days.
proof fn lemma_days_ending_stuck(t: CalendarDate, n: nat, m: nat)
    requires
        n >= 1,
        m >= n,
        days_ending(t, n).len() == n,
        prev_day(days_ending(t, n)[0]) is None,
    ensures
        days_ending(t, m) == days_ending(t, n),
    decreases m - n,
{
    if m > n {
        lemma_days_ending_grow(t, n);
        lemma_days_ending_stuck_step(t, n, m);
    }
}

proof fn lemma_days_ending_stuck_step(t: CalendarDate, n: nat, m: nat)
    requires
        n >= 1,
        m > n,
        days_ending(t, n).len() == n,
        prev_day(days_ending(t, n)[0]) is None,
        days_ending(t, n + 1) == days_ending(t, n),
    ensures
        days_ending(t, m) == days_ending(t, n),
    decreases m - n,
{
    if m > n + 1 {
        lemma_days_ending_stuck_more(t, n, (n + 1) as nat, m);
    }
}

proof fn lemma_days_ending_stuck_more(t: CalendarDate, n: nat, k: nat, m: nat)
    requires
        n >= 1,
        n < k <= m,
        days_ending(t, n).len() == n,
        prev_day(days_ending(t, n)[0]) is None,
        days_ending(t, k) == days_ending(t, n),
    ensures
        days_ending(t, m) == days_ending(t, n),
    decreases m - k,
{
    if k < m {
        lemma_days_ending_more_is_same(t, n, k);
        lemma_days_ending_stuck_more(t, n, (k + 1) as nat, m);
    }
}

proof fn lemma_days_ending_more_is_same(t: CalendarDate, n: nat, k: nat)
    requires
        n >= 1,
        n < k,
        days_ending(t, n).len() == n,
        prev_day(days_ending(t, n)[0]) is None,
        days_ending(t, k) == days_ending(t, n),
    ensures
        days_ending(t, k + 1) == days_ending(t, n),
    decreases k,
{
    let e = days_ending(t, n);
    if n == 1 {
        assert(e =~= seq![t]);
        assert(prev_day(t) is None);
    } else {
        let q = prev_day(t)->0;
        lemma_days_ending_len(q, (n - 1) as nat);
        let inner = days_ending(q, (n - 1) as nat);
        assert(e == inner.push(t));
        assert(e[0] == inner[0]);
        assert(days_ending(t, k) == days_ending(q, (k - 1) as nat).push(t));
        assert(days_ending(q, (k - 1) as nat) =~= days_ending(t, k).drop_last());
        assert(days_ending(q, (k - 1) as nat) =~= inner);
        lemma_days_ending_more_is_same(q, (n - 1) as nat, (k - 1) as nat);
    }
}

/// Lists the `n` days that end with `today`.
pub fn last_days(today: CalendarDate, n: usize) -> (r: Vec<CalendarDate>)
    requires
        today.wf(),
    ensures
        r@ == days_ending(today, n as nat),
{
    if n == 0 {
        return Vec::new();
    }
    let mut back: Vec<CalendarDate> = vec![today];
    let mut cur = today;
    let mut k: usize = 1;
    proof {
        assert(days_ending(today, 1) =~= seq![today]);
    }
    while k < n
        invariant
            1 <= k <= n,
            cur.wf(),
            days_ending(today, k as nat).len() == k,
            days_ending(today, k as nat)[0] == cur,
            back@.len() == k,
            forall|j: int| 0 <= j < k ==> back@[j] == days_ending(today, k as nat)[k - 1 - j],
        ensures
            days_ending(today, n as nat) == days_ending(today, k as nat),
            back@.len() == k,
            forall|j: int| 0 <= j < k ==> back@[j] == days_ending(today, k as nat)[k - 1 - j],
        decreases n - k,
    {
        proof {
            lemma_days_ending_grow(today, k as nat);
        }
        match date_pred(cur) {
            Some(p) => {
                proof {
                    let e = days_ending(today, k as nat);
                    let e2 = days_ending(today, (k + 1) as nat);
                    assert(e2 == seq![p] + e);
                    assert forall|j: int| 0 <= j < k + 1 implies #[trigger] back@.push(p)[j] == e2[k - j] by {
                        if j < k {
                            assert(back@.push(p)[j] == back@[j]);
                            assert(e2[k - j] == e[k - 1 - j]);
                        }
                    }
                    assert(p.year as int == p.year && p.wf());
                }
                back.push(p);
                cur = p;
                k = k + 1;
            },
            None => {
                proof {
                    lemma_days_ending_stuck(today, k as nat, n as nat);
                }
                break;
            },
        }
    }
    let ghost kk = back@.len();
    let mut out: Vec<CalendarDate> = Vec::new();
    let mut i = back.len();
    while i > 0
        invariant
            i <= back@.len(),
            out@.len() == back@.len() - i,
            forall|j: int| 0 <= j < out@.len() ==> out@[j] == back@[back@.len() - 1 - j],
        decreases i,
    {
        out.push(back[i - 1]);
        i = i - 1;
    }
    proof {
        let e = days_ending(today, kk as nat);
        assert(out@ =~= e);
    }
    out
}

/// The daily status of a component over the `n` days that end with `today`, oldest
/// first.
pub fn status_history(incs: &Vec<IncidentRecord>, component: &str, today: CalendarDate, n: usize) -> (r: Vec<(CalendarDate, String)>)
    requires
        today.wf(),
    ensures
        r@.len() == days_ending(today, n as nat).len(),
        forall|k: int| 0 <= k < r@.len() ==> (#[trigger] r@[k]).0 == days_ending(today, n as nat)[k]
            && r@[k].1@ == spec_day_status(incs@, component@, r@[k].0, today),
{
    let days = last_days(today, n);
    let mut out: Vec<(CalendarDate, String)> = Vec::new();
    let mut i: usize = 0;
    while i < days.len()
        invariant
            i <= days@.len(),
            days@ == days_ending(today, n as nat),
            out@.len() == i,
            forall|k: int| 0 <= k < i ==> (#[trigger] out@[k]).0 == days@[k]
                && out@[k].1@ == spec_day_status(incs@, component@, out@[k].0, today),
        decreases days@.len() - i,
    {
        let d = days[i];
        let s = day_status(incs, component, d, today);
        out.push((d, s));
        i = i + 1;
    }
    out
}

/// The plain value of a chain head: key and hash.
pub open spec fn head_view(h: crate::dto::system::HeadDto) -> (Seq<char>, Seq<char>) {
    (h.key@, h.hash@)
}

pub open spec fn head_views(hs: Seq<crate::dto::system::HeadDto>) -> Seq<(Seq<char>, Seq<char>)> {
    hs.map_values(|h: crate::dto::system::HeadDto| head_view(h))
}

/// The hashes of chain heads, in order.
pub open spec fn head_hashes(hs: Seq<crate::dto::system::HeadDto>) -> Seq<Seq<char>> {
    hs.map_values(|h: crate::dto::system::HeadDto| h.hash@)
}

/// The health report from the number of unresolved incidents, the stored menus,
/// comments, users and reports, and the newest hash of each chain: `unhealthy` while an
/// incident is open; the counts by kind and their total; the heads with the fingerprint
/// of their hashes.
pub fn system_health(
    open_incidents: u64,
    menus: i64,
    comments: i64,
    users: i64,
    reports: i64,
    heads: Vec<crate::dto::system::HeadDto>,
) -> (r: crate::dto::system::SystemHealthResponseDto)
    requires
        i64::MIN <= menus + comments + users + reports <= i64::MAX,
    ensures
        r.status@ == (if open_incidents > 0 { "unhealthy"@ } else { "healthy"@ }),
        r.node_counts@.map_values(|p: (String, i64)| (p.0@, p.1)) == seq![
            ("Menü node"@, menus),
            ("Yorum node"@, comments),
            ("Kullanıcı node"@, users),
            ("Rapor node"@, reports),
        ],
        r.total_nodes == menus + comments + users + reports,
        head_views(r.heads@) == head_views(heads@),
        r.global_fingerprint@ == crate::digest::spec_global_fingerprint(head_hashes(heads@)),
{
    let status = if open_incidents > 0 {
        String::from_str("unhealthy")
    } else {
        String::from_str("healthy")
    };
    let mut node_counts: Vec<(String, i64)> = Vec::new();
    node_counts.push((String::from_str("Menü node"), menus));
    node_counts.push((String::from_str("Yorum node"), comments));
    node_counts.push((String::from_str("Kullanıcı node"), users));
    node_counts.push((String::from_str("Rapor node"), reports));
    proof {
        assert(node_counts@.map_values(|p: (String, i64)| (p.0@, p.1)) =~= seq![
            ("Menü node"@, menus),
            ("Yorum node"@, comments),
            ("Kullanıcı node"@, users),
            ("Rapor node"@, reports),
        ]);
    }
    let total = (menus as i128 + comments as i128 + users as i128 + reports as i128) as i64;
    let mut hashes: Vec<String> = Vec::new();
    let mut i: usize = 0;
    while i < heads.len()
        invariant
            i <= heads@.len(),
            hashes@.map_values(|h: String| h@) == head_hashes(heads@).take(i as int),
        decreases heads@.len() - i,
    {
        let ghost before = hashes@.map_values(|h: String| h@);
        hashes.push(heads[i].hash.clone());
        proof {
            assert(hashes@.map_values(|h: String| h@) =~= before.push(heads@[i as int].hash@));
            assert(head_hashes(heads@).take(i + 1) =~= head_hashes(heads@).take(i as int).push(heads@[i as int].hash@));
        }
        i = i + 1;
    }
    proof {
        assert(head_hashes(heads@).take(i as int) =~= head_hashes(heads@));
    }
    let fingerprint = crate::digest::global_fingerprint(&hashes);
    crate::dto::system::SystemHealthResponseDto {
        status,
        global_fingerprint: fingerprint,
        node_counts,
        heads,
        total_nodes: total,
    }
}

} // verus!
