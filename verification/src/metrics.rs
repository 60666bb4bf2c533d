//! Request metrics: labelled counters for requests, responses and
//! errors, and a running total of request durations.

use vstd::prelude::*;
use crate::proxy::utils::spec_extract_service_type;
use crate::text::{is_prefix_of, str_eq, str_starts_with};

verus! {

/// The views of one label tuple.
pub open spec fn label_views(key: Seq<String>) -> Seq<Seq<char>> {
    key.map_values(|s: String| s@)
}

/// A counter family: rows of label tuples with a count each.
pub struct CounterMap {
    /// One row per distinct label tuple.
    pub entries: Vec<(Vec<String>, u64)>,
}

/// The view of a counter family.
pub open spec fn counter_views(entries: Seq<(Vec<String>, u64)>) -> Seq<(Seq<Seq<char>>, u64)> {
    entries.map_values(|e: (Vec<String>, u64)| (label_views(e.0@), e.1))
}

/// The count under a label tuple; zero when the row does not exist.
pub open spec fn spec_counter(rows: Seq<(Seq<Seq<char>>, u64)>, key: Seq<Seq<char>>) -> int
    decreases rows.len(),
{
    if rows.len() == 0 {
        0
    } else if rows[0].0 == key {
        rows[0].1 as int
    } else {
        spec_counter(rows.drop_first(), key)
    }
}

fn labels_eq(a: &Vec<String>, b: &Vec<String>) -> (r: bool)
    ensures
        r == (label_views(a@) == label_views(b@)),
{
    if a.len() != b.len() {
        proof {
            assert(label_views(a@).len() != label_views(b@).len());
        }
        return false;
    }
    let mut i: usize = 0;
    while i < a.len()
        invariant
            0 <= i <= a@.len(),
            a@.len() == b@.len(),
            forall|j: int| 0 <= j < i ==> (#[trigger] label_views(a@)[j]) == label_views(b@)[j],
        decreases a@.len() - i,
    {
        if !str_eq(a[i].as_str(), b[i].as_str()) {
            proof {
                assert(label_views(a@)[i as int] != label_views(b@)[i as int]);
            }
            return false;
        }
        i += 1;
    }
    proof {
        assert(label_views(a@) =~= label_views(b@));
    }
    true
}

impl CounterMap {
    /// No two rows share a label tuple.
    pub open spec fn wf(self) -> bool {
        forall|i: int, j: int|
            0 <= i < j < self.entries@.len() ==> label_views((#[trigger] self.entries@[i]).0@)
                != label_views((#[trigger] self.entries@[j]).0@)
    }

    /// An empty family.
    pub fn new() -> (r: Self)
        ensures
            r.wf(),
            r.entries@.len() == 0,
    {
        CounterMap { entries: Vec::new() }
    }

    /// The count under `key`.
    pub fn get(&self, key: &Vec<String>) -> (r: u64)
        ensures
            r == spec_counter(counter_views(self.entries@), label_views(key@)),
    {
        let mut i: usize = 0;
        while i < self.entries.len()
            invariant
                0 <= i <= self.entries@.len(),
                forall|j: int|
                    0 <= j < i ==> (#[trigger] counter_views(self.entries@)[j]).0 != label_views(
                        key@,
                    ),
            decreases self.entries@.len() - i,
        {
            if labels_eq(&self.entries[i].0, &key) {
                proof {
                    lemma_counter_hit(counter_views(self.entries@), label_views(key@), i as int);
                }
                return self.entries[i].1;
            }
            i += 1;
        }
        proof {
            lemma_counter_miss(counter_views(self.entries@), label_views(key@));
        }
        0
    }

    /// Adds one to the count under `key`, creating the row at one if
    /// absent; every other row keeps its count.  A counter at the
    /// integer limit stays there.
    pub fn inc(&mut self, key: Vec<String>)
        requires
            old(self).wf(),
        ensures
            final(self).wf(),
            spec_counter(counter_views(final(self).entries@), label_views(key@)) == (
            if spec_counter(counter_views(old(self).entries@), label_views(key@)) == u64::MAX {
                u64::MAX as int
            } else {
                spec_counter(counter_views(old(self).entries@), label_views(key@)) + 1
            }),
            forall|other: Seq<Seq<char>>|
                other != label_views(key@) ==> #[trigger] spec_counter(
                    counter_views(final(self).entries@),
                    other,
                ) == spec_counter(counter_views(old(self).entries@), other),
    {
        let ghost pre = self.entries@;
        let n = self.entries.len();
        let mut i: usize = 0;
        while i < n
            invariant
                0 <= i <= n,
                n == self.entries@.len(),
                self.entries@ == pre,
                pre == old(self).entries@,
                old(self).wf(),
                forall|j: int|
                    0 <= j < i ==> (#[trigger] counter_views(self.entries@)[j]).0 != label_views(
                        key@,
                    ),
            decreases n - i,
        {
            if labels_eq(&self.entries[i].0, &key) {
                proof {
                    lemma_counter_hit(counter_views(pre), label_views(key@), i as int);
                }
                let old_count = self.entries[i].1;
                if old_count < u64::MAX {
                    self.entries[i].1 = old_count + 1;
                }
                proof {
                    assert(self.entries@.len() == pre.len());
                    assert(forall|k: int| 0 <= k < pre.len() && k != i ==> self.entries@[k] == pre[k]);
                    assert(counter_views(self.entries@)[i as int].0 == label_views(key@));
                    assert forall|j: int|
                        0 <= j < i implies (#[trigger] counter_views(self.entries@)[j]).0
                        != label_views(key@) by {
                        assert(self.entries@[j] == pre[j]);
                        assert(counter_views(pre)[j].0 != label_views(key@));
                    }
                    lemma_counter_hit(counter_views(self.entries@), label_views(key@), i as int);
                    assert forall|other: Seq<Seq<char>>|
                        other != label_views(key@) implies #[trigger] spec_counter(
                            counter_views(self.entries@),
                            other,
                        ) == spec_counter(counter_views(pre), other) by {
                        lemma_counter_update_other(
                            counter_views(pre),
                            counter_views(self.entries@),
                            i as int,
                            other,
                        );
                    }
                    assert forall|p: int, q: int|
                        0 <= p < q < self.entries@.len() implies label_views(
                        (#[trigger] self.entries@[p]).0@) != label_views(
                        (#[trigger] self.entries@[q]).0@) by {
                        assert(old(self).entries@[p] == pre[p] && old(self).entries@[q] == pre[q]);
                        assert(label_views(old(self).entries@[p].0@) != label_views(
                            old(self).entries@[q].0@,
                        ));
                        assert(self.entries@[p].0 == pre[p].0 && self.entries@[q].0 == pre[q].0);
                    }
                }
                return;
            }
            i += 1;
        }
        self.entries.push((key, 1));
        proof {
            let rows = counter_views(self.entries@);
            let k = rows.len() - 1;
            assert(rows[k].0 == label_views(self.entries@[k].0@));
            lemma_counter_miss(counter_views(pre), label_views(self.entries@[k].0@));
            lemma_counter_push(counter_views(pre), rows[k].0, 1);
            assert(rows =~= counter_views(pre).push((rows[k].0, 1u64)));
            assert forall|other: Seq<Seq<char>>|
                other != label_views(self.entries@[k].0@) implies #[trigger] spec_counter(
                    rows,
                    other,
                ) == spec_counter(counter_views(pre), other) by {
                lemma_counter_push_other(counter_views(pre), rows[k].0, 1, other);
            }
            assert forall|p: int, q: int|
                0 <= p < q < self.entries@.len() implies label_views(
                (#[trigger] self.entries@[p]).0@) != label_views(
                (#[trigger] self.entries@[q]).0@) by {
                if q < k {
                    assert(old(self).entries@[p] == pre[p] && old(self).entries@[q] == pre[q]);
                    assert(label_views(old(self).entries@[p].0@) != label_views(
                        old(self).entries@[q].0@,
                    ));
                } else {
                    assert(counter_views(pre)[p].0 == label_views(pre[p].0@));
                    assert(counter_views(pre)[p].0 != label_views(self.entries@[k].0@));
                }
            }
        }
    }
}

proof fn lemma_counter_hit(rows: Seq<(Seq<Seq<char>>, u64)>, key: Seq<Seq<char>>, i: int)
    requires
        0 <= i < rows.len(),
        rows[i].0 == key,
        forall|j: int| 0 <= j < i ==> (#[trigger] rows[j]).0 != key,
    ensures
        spec_counter(rows, key) == rows[i].1,
    decreases rows.len(),
{
    if i > 0 {
        lemma_counter_hit(rows.drop_first(), key, i - 1);
    }
}

proof fn lemma_counter_miss(rows: Seq<(Seq<Seq<char>>, u64)>, key: Seq<Seq<char>>)
    requires
        forall|j: int| 0 <= j < rows.len() ==> (#[trigger] rows[j]).0 != key,
    ensures
        spec_counter(rows, key) == 0,
    decreases rows.len(),
{
    if rows.len() > 0 {
        lemma_counter_miss(rows.drop_first(), key);
    }
}

proof fn lemma_counter_update_other(
    pre: Seq<(Seq<Seq<char>>, u64)>,
    post: Seq<(Seq<Seq<char>>, u64)>,
    i: int,
    other: Seq<Seq<char>>,
)
    requires
        pre.len() == post.len(),
        0 <= i < pre.len(),
        forall|k: int| 0 <= k < pre.len() && k != i ==> post[k] == pre[k],
        post[i].0 == pre[i].0,
        pre[i].0 != other,
    ensures
        spec_counter(post, other) == spec_counter(pre, other),
    decreases pre.len(),
{
    if pre.len() > 0 {
        if i == 0 {
            assert(post.drop_first() =~= pre.drop_first());
        } else {
            assert(post[0] == pre[0]);
            lemma_counter_update_other(pre.drop_first(), post.drop_first(), i - 1, other);
        }
    }
}

proof fn lemma_counter_push(rows: Seq<(Seq<Seq<char>>, u64)>, key: Seq<Seq<char>>, v: u64)
    requires
        forall|j: int| 0 <= j < rows.len() ==> (#[trigger] rows[j]).0 != key,
    ensures
        spec_counter(rows.push((key, v)), key) == v,
    decreases rows.len(),
{
    if rows.len() == 0 {
        assert(rows.push((key, v))[0] == (key, v));
    } else {
        assert(rows.push((key, v)).drop_first() =~= rows.drop_first().push((key, v)));
        lemma_counter_push(rows.drop_first(), key, v);
    }
}

proof fn lemma_counter_push_other(
    rows: Seq<(Seq<Seq<char>>, u64)>,
    key: Seq<Seq<char>>,
    v: u64,
    other: Seq<Seq<char>>,
)
    requires
        key != other,
    ensures
        spec_counter(rows.push((key, v)), other) == spec_counter(rows, other),
    decreases rows.len(),
{
    if rows.len() == 0 {
        assert(rows.push((key, v))[0] == (key, v));
        assert(rows.push((key, v)).drop_first() =~= rows);
    } else {
        assert(rows.push((key, v)).drop_first() =~= rows.drop_first().push((key, v)));
        lemma_counter_push_other(rows.drop_first(), key, v, other);
    }
}

proof fn lemma_counter_nonneg(rows: Seq<(Seq<Seq<char>>, u64)>, key: Seq<Seq<char>>)
    ensures
        spec_counter(rows, key) >= 0,
    decreases rows.len(),
{
    if rows.len() > 0 {
        lemma_counter_nonneg(rows.drop_first(), key);
    }
}

/// The service label for a request path.
pub open spec fn spec_extract_service_name(path: Seq<char>) -> Seq<char> {
    if is_prefix_of("/metrics"@, path) {
        "metrics"@
    } else {
        spec_extract_service_type(path)
    }
}

/// Names the service label for a request path.
pub fn extract_service_name(path: &str) -> (r: String)
    ensures
        r@ == spec_extract_service_name(path@),
{
    if str_starts_with(path, "/metrics") {
        "metrics".to_owned()
    } else {
        crate::proxy::utils::extract_service_type(path).to_owned()
    }
}

/// The per-request metric state: counters keyed by method, path and
/// service (responses and errors also by status), and the running
/// duration totals.
pub struct MetricsMiddleware {
    /// `gateway.requests.total`, keyed by method, path, service.
    pub requests_total: CounterMap,
    /// `gateway.responses.total`, keyed by method, path, service, status.
    pub responses_total: CounterMap,
    /// `gateway.errors.total`, keyed by method, path, service, status.
    pub errors_total: CounterMap,
    /// Completed requests measured.
    pub duration_count: u64,
    /// Their total duration, milliseconds.
    pub duration_sum_ms: u64,
}

impl MetricsMiddleware {
    /// All counter families well-formed.
    pub open spec fn wf(self) -> bool {
        self.requests_total.wf() && self.responses_total.wf() && self.errors_total.wf()
    }

    /// Fresh, empty metrics.
    pub fn new() -> (r: Self)
        ensures
            r.wf(),
            r.duration_count == 0,
            r.duration_sum_ms == 0,
            r.requests_total.entries@.len() == 0,
            r.responses_total.entries@.len() == 0,
            r.errors_total.entries@.len() == 0,
    {
        MetricsMiddleware {
            requests_total: CounterMap::new(),
            responses_total: CounterMap::new(),
            errors_total: CounterMap::new(),
            duration_count: 0,
            duration_sum_ms: 0,
        }
    }

    /// Counts an arriving request under its method, path and service:
    /// that row grows by one (saturating), every other row and family
    /// stays.
    pub fn record_request(&mut self, method: &str, path: &str)
        requires
            old(self).wf(),
        ensures
            final(self).wf(),
            ({
                let key = seq![method@, path@, spec_extract_service_name(path@)];
                let before = spec_counter(counter_views(old(self).requests_total.entries@), key);
                &&& spec_counter(counter_views(final(self).requests_total.entries@), key) == (
                if before == u64::MAX {
                    u64::MAX as int
                } else {
                    before + 1
                })
                &&& forall|other: Seq<Seq<char>>|
                    other != key ==> #[trigger] spec_counter(
                        counter_views(final(self).requests_total.entries@),
                        other,
                    ) == spec_counter(counter_views(old(self).requests_total.entries@), other)
            }),
            final(self).responses_total == old(self).responses_total,
            final(self).errors_total == old(self).errors_total,
            final(self).duration_count == old(self).duration_count,
            final(self).duration_sum_ms == old(self).duration_sum_ms,
    {
        let service = extract_service_name(path);
        let mut key: Vec<String> = Vec::new();
        key.push(method.to_owned());
        key.push(path.to_owned());
        key.push(service);
        let ghost kv = label_views(key@);
        proof {
            assert(kv =~= seq![method@, path@, spec_extract_service_name(path@)]);
        }
        self.requests_total.inc(key);
    }

    /// Counts a completed response: its duration, its status, and —
    /// when the status is 400 or above — an error row.
    pub fn record_response(&mut self, method: &str, path: &str, status: u16, duration_ms: u64)
        requires
            old(self).wf(),
        ensures
            final(self).wf(),
            final(self).duration_count == (if old(self).duration_count == u64::MAX {
                u64::MAX as int
            } else {
                old(self).duration_count + 1
            }),
            final(self).duration_sum_ms == (if old(self).duration_sum_ms + duration_ms
                <= u64::MAX {
                old(self).duration_sum_ms + duration_ms
            } else {
                old(self).duration_sum_ms as int
            }),
            final(self).requests_total == old(self).requests_total,
            ({
                let key = seq![
                    method@,
                    path@,
                    spec_extract_service_name(path@),
                    crate::text::dec_rep(status as nat),
                ];
                let before = spec_counter(counter_views(old(self).responses_total.entries@), key);
                &&& spec_counter(counter_views(final(self).responses_total.entries@), key) == (
                if before == u64::MAX {
                    u64::MAX as int
                } else {
                    before + 1
                })
                &&& forall|other: Seq<Seq<char>>|
                    other != key ==> #[trigger] spec_counter(
                        counter_views(final(self).responses_total.entries@),
                        other,
                    ) == spec_counter(counter_views(old(self).responses_total.entries@), other)
            }),
            status < 400 ==> final(self).errors_total == old(self).errors_total,
            status >= 400 ==> ({
                let key = seq![
                    method@,
                    path@,
                    spec_extract_service_name(path@),
                    crate::text::dec_rep(status as nat),
                ];
                let before = spec_counter(counter_views(old(self).errors_total.entries@), key);
                &&& spec_counter(counter_views(final(self).errors_total.entries@), key) == (
                if before == u64::MAX {
                    u64::MAX as int
                } else {
                    before + 1
                })
                &&& forall|other: Seq<Seq<char>>|
                    other != key ==> #[trigger] spec_counter(
                        counter_views(final(self).errors_total.entries@),
                        other,
                    ) == spec_counter(counter_views(old(self).errors_total.entries@), other)
            }),
    {
        if self.duration_count < u64::MAX {
            self.duration_count = self.duration_count + 1;
        }
        if self.duration_sum_ms <= u64::MAX - duration_ms {
            self.duration_sum_ms = self.duration_sum_ms + duration_ms;
        }
        let service = extract_service_name(path);
        let status_str = crate::text::u64_to_string(status as u64);
        let mut key: Vec<String> = Vec::new();
        key.push(method.to_owned());
        key.push(path.to_owned());
        key.push(service.clone());
        key.push(status_str.clone());
        proof {
            assert(label_views(key@) =~= seq![
                method@,
                path@,
                spec_extract_service_name(path@),
                crate::text::dec_rep(status as nat),
            ]);
        }
        self.responses_total.inc(key);
        if status >= 400 {
            let mut ekey: Vec<String> = Vec::new();
            ekey.push(method.to_owned());
            ekey.push(path.to_owned());
            ekey.push(service);
            ekey.push(status_str);
            proof {
                assert(label_views(ekey@) =~= seq![
                    method@,
                    path@,
                    spec_extract_service_name(path@),
                    crate::text::dec_rep(status as nat),
                ]);
            }
            self.errors_total.inc(ekey);
        }
    }

    /// Counts a request that failed before any response existed: the
    /// error row under the literal status label `error` grows by one
    /// (saturating); every other row and family stays.
    pub fn record_failure(&mut self, method: &str, path: &str)
        requires
            old(self).wf(),
        ensures
            final(self).wf(),
            final(self).requests_total == old(self).requests_total,
            final(self).responses_total == old(self).responses_total,
            final(self).duration_count == old(self).duration_count,
            final(self).duration_sum_ms == old(self).duration_sum_ms,
            ({
                let key = seq![method@, path@, spec_extract_service_name(path@), "error"@];
                let before = spec_counter(counter_views(old(self).errors_total.entries@), key);
                &&& spec_counter(counter_views(final(self).errors_total.entries@), key) == (
                if before == u64::MAX {
                    u64::MAX as int
                } else {
                    before + 1
                })
                &&& forall|other: Seq<Seq<char>>|
                    other != key ==> #[trigger] spec_counter(
                        counter_views(final(self).errors_total.entries@),
                        other,
                    ) == spec_counter(counter_views(old(self).errors_total.entries@), other)
            }),
    {
        let service = extract_service_name(path);
        let mut key: Vec<String> = Vec::new();
        key.push(method.to_owned());
        key.push(path.to_owned());
        key.push(service);
        key.push("error".to_owned());
        proof {
            assert(label_views(key@) =~= seq![
                method@,
                path@,
                spec_extract_service_name(path@),
                "error"@,
            ]);
        }
        self.errors_total.inc(key);
    }
}

/// The exposition label name for a position: the gateway's counters
/// carry method, path, service and, where present, status.
pub open spec fn spec_label_name(i: int) -> Seq<char> {
    if i == 0 {
        "method"@
    } else if i == 1 {
        "path"@
    } else if i == 2 {
        "service"@
    } else if i == 3 {
        "status"@
    } else {
        "label"@
    }
}

/// The rendered `name="value"` pairs of one label tuple, in order.
/// Values are emitted verbatim, without escaping.
pub open spec fn spec_label_pairs(labels: Seq<Seq<char>>) -> Seq<Seq<char>> {
    Seq::new(labels.len(), |i: int| spec_label_name(i) + "=\""@ + labels[i] + "\""@)
}

/// One exposition row: the family name, the braced comma-joined label
/// pairs, a space, the count in decimal, and a newline.
pub open spec fn spec_counter_row(
    family: Seq<char>,
    labels: Seq<Seq<char>>,
    count: u64,
) -> Seq<char> {
    family + "{"@ + crate::text::joined_with(spec_label_pairs(labels), ","@) + "} "@
        + crate::text::dec_rep(count as nat) + "\n"@
}

/// The rows of one family, in table order.
pub open spec fn spec_family_rows(
    family: Seq<char>,
    rows: Seq<(Seq<Seq<char>>, u64)>,
) -> Seq<char>
    decreases rows.len(),
{
    if rows.len() == 0 {
        Seq::empty()
    } else {
        spec_family_rows(family, rows.drop_last()) + spec_counter_row(
            family,
            rows.last().0,
            rows.last().1,
        )
    }
}

/// One family's exposition text: its type comment, then its rows.
pub open spec fn spec_family_text(family: Seq<char>, rows: Seq<(Seq<Seq<char>>, u64)>) -> Seq<
    char,
> {
    "# TYPE "@ + family + " counter\n"@ + spec_family_rows(family, rows)
}

/// The whole exposition page: the three counter families, then the
/// duration summary.
pub open spec fn spec_metrics_text(m: MetricsMiddleware) -> Seq<char> {
    spec_family_text("gateway_requests_total"@, counter_views(m.requests_total.entries@))
        + spec_family_text("gateway_responses_total"@, counter_views(m.responses_total.entries@))
        + spec_family_text("gateway_errors_total"@, counter_views(m.errors_total.entries@))
        + "# TYPE gateway_request_duration_ms summary\n"@
        + "gateway_request_duration_ms_sum "@ + crate::text::dec_rep(m.duration_sum_ms as nat)
        + "\n"@ + "gateway_request_duration_ms_count "@ + crate::text::dec_rep(
        m.duration_count as nat,
    ) + "\n"@
}

fn label_name(i: usize) -> (r: &'static str)
    ensures
        r@ == spec_label_name(i as int),
{
    if i == 0 {
        "method"
    } else if i == 1 {
        "path"
    } else if i == 2 {
        "service"
    } else if i == 3 {
        "status"
    } else {
        "label"
    }
}

fn counter_row(family: &str, labels: &Vec<String>, count: u64) -> (r: String)
    ensures
        r@ == spec_counter_row(family@, label_views(labels@), count),
{
    let ghost pair_views = spec_label_pairs(label_views(labels@));
    let mut pairs: Vec<String> = Vec::new();
    let mut i: usize = 0;
    while i < labels.len()
        invariant
            0 <= i <= labels@.len(),
            pair_views == spec_label_pairs(label_views(labels@)),
            pair_views.len() == labels@.len(),
            pairs@.map_values(|p: String| p@) == pair_views.subrange(0, i as int),
        decreases labels@.len() - i,
    {
        let mut pair: String = label_name(i).to_owned();
        pair.append("=\"");
        pair.append(labels[i].as_str());
        pair.append("\"");
        proof {
            assert(label_views(labels@)[i as int] == labels@[i as int]@);
            assert(pair@ =~= spec_label_name(i as int) + "=\""@ + label_views(labels@)[i as int]
                + "\""@);
            assert(pair_views[i as int] == spec_label_name(i as int) + "=\""@ + label_views(
                labels@,
            )[i as int] + "\""@);
        }
        let ghost prev = pairs@;
        let ghost pair_view = pair@;
        pairs.push(pair);
        proof {
            assert(pairs@.map_values(|p: String| p@) =~= prev.map_values(
                |p: String| p@,
            ).push(pair_view));
            assert(pair_view == pair_views[i as int]);
            assert(pair_views.subrange(0, i as int).push(pair_views[i as int]) =~= pair_views
                .subrange(0, i + 1));
        }
        i += 1;
    }
    proof {
        assert(pair_views.subrange(0, pair_views.len() as int) =~= pair_views);
    }
    let joined = crate::text::join_strings(&pairs, ",");
    let mut r: String = family.to_owned();
    r.append("{");
    r.append(joined.as_str());
    r.append("} ");
    let c = crate::text::u64_to_string(count);
    r.append(c.as_str());
    r.append("\n");
    proof {
        assert(r@ =~= spec_counter_row(family@, label_views(labels@), count));
    }
    r
}

fn family_text(family: &str, map: &CounterMap) -> (r: String)
    ensures
        r@ == spec_family_text(family@, counter_views(map.entries@)),
{
    let ghost rows = counter_views(map.entries@);
    let mut r: String = "# TYPE ".to_owned();
    r.append(family);
    r.append(" counter\n");
    let ghost head = "# TYPE "@ + family@ + " counter\n"@;
    proof {
        assert(r@ =~= head + spec_family_rows(family@, rows.subrange(0, 0)));
    }
    let mut i: usize = 0;
    while i < map.entries.len()
        invariant
            0 <= i <= map.entries@.len(),
            rows == counter_views(map.entries@),
            head == "# TYPE "@ + family@ + " counter\n"@,
            r@ == head + spec_family_rows(family@, rows.subrange(0, i as int)),
        decreases map.entries@.len() - i,
    {
        let row = counter_row(family, &map.entries[i].0, map.entries[i].1);
        r.append(row.as_str());
        proof {
            let sub = rows.subrange(0, i + 1);
            assert(sub.drop_last() =~= rows.subrange(0, i as int));
            assert(sub.last() == rows[i as int]);
            assert(rows[i as int].0 == label_views(map.entries@[i as int].0@));
            assert(r@ =~= head + spec_family_rows(family@, sub));
        }
        i += 1;
    }
    proof {
        assert(rows.subrange(0, rows.len() as int) =~= rows);
    }
    r
}

/// Renders the whole metrics page in the Prometheus text exposition
/// style: one `# TYPE` comment and one row per label tuple for each
/// counter family, then the duration summary.  Label values are
/// emitted verbatim.
pub fn metrics_text(m: &MetricsMiddleware) -> (r: String)
    ensures
        r@ == spec_metrics_text(*m),
{
    let mut r = family_text("gateway_requests_total", &m.requests_total);
    let responses = family_text("gateway_responses_total", &m.responses_total);
    r.append(responses.as_str());
    let errors = family_text("gateway_errors_total", &m.errors_total);
    r.append(errors.as_str());
    r.append("# TYPE gateway_request_duration_ms summary\n");
    r.append("gateway_request_duration_ms_sum ");
    let sum = crate::text::u64_to_string(m.duration_sum_ms);
    r.append(sum.as_str());
    r.append("\n");
    r.append("gateway_request_duration_ms_count ");
    let count = crate::text::u64_to_string(m.duration_count);
    r.append(count.as_str());
    r.append("\n");
    proof {
        assert(r@ =~= spec_metrics_text(*m));
    }
    r
}

/// Creates the metric state a gateway starts with.
pub fn init_metrics() -> (r: MetricsMiddleware)
    ensures
        r.wf(),
        r.duration_count == 0,
{
    MetricsMiddleware::new()
}

/// The identity-style layer that installs metrics around a service
/// stack.
#[derive(Clone)]
pub struct MetricsLayer;

} // verus!
