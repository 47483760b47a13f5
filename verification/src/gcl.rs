//! The layout for Google Cloud structured logging: how the key-values of a record and of its
//! diagnostics are sorted into payload fields, labels and trace fields.
//!
//! The fields that this module collects are serialised as JSON by the caller.
use vstd::prelude::*;

use crate::diagnostic::OrderedMap;
use crate::kv::{value_text, KeyValues, ValueView};
use crate::text::{push_str, str_eq};

verus! {

/// A layout for Google Cloud structured logging.
///
/// With a trace project ID, the key `trace_id` gives the trace field (combined with the project
/// ID), `span_id` the span ID field, and `sampled` or `trace_sampled` the trace-sampled field.
/// Keys named as labels go to the labels; all other keys are payload fields.
#[derive(Debug)]
pub struct GoogleCloudLoggingLayout {
    trace_project_id: Option<String>,
    label_keys: Vec<String>,
}

pub open spec fn is_trace_key(k: Seq<char>) -> bool {
    k == "trace_id"@
}

pub open spec fn is_span_id_key(k: Seq<char>) -> bool {
    k == "span_id"@
}

pub open spec fn is_trace_sampled_key(k: Seq<char>) -> bool {
    k == "sampled"@ || k == "trace_sampled"@
}

/// The fields of a formatted record, as the collector gathers them.
pub struct GclModel<'a> {
    pub payload: Map<Seq<char>, ValueView<'a>>,
    pub labels: Map<Seq<char>, ValueView<'a>>,
    pub trace: Option<Seq<char>>,
    pub span_id: Option<Seq<char>>,
    pub trace_sampled: Option<bool>,
}

pub open spec fn empty_model<'a>() -> GclModel<'a> {
    GclModel {
        payload: Map::empty(),
        labels: Map::empty(),
        trace: None,
        span_id: None,
        trace_sampled: None,
    }
}

pub open spec fn to_bool_spec(v: ValueView) -> Option<bool> {
    match v {
        ValueView::Bool(b) => Some(b),
        _ => None,
    }
}

/// Where one key-value pair goes. With a trace project ID, the first trace key gives the trace
/// field, the first span ID key the span ID field, and a trace-sampled key the trace-sampled
/// field while that field is unset (a value that is not a boolean leaves it unset); these pairs
/// go nowhere else. Any other pair goes to the labels when its key is a label key, and to the
/// payload otherwise, replacing an earlier value of the same key.
pub open spec fn route<'a>(
    project: Option<Seq<char>>,
    labels: Set<Seq<char>>,
    st: GclModel<'a>,
    key: Seq<char>,
    value: ValueView<'a>,
) -> GclModel<'a> {
    if project is Some && st.trace is None && is_trace_key(key) {
        GclModel {
            trace: Some("projects/"@ + project->0 + "/traces/"@ + value_text(value)),
            ..st
        }
    } else if project is Some && st.span_id is None && is_span_id_key(key) {
        GclModel { span_id: Some(value_text(value)), ..st }
    } else if project is Some && st.trace_sampled is None && is_trace_sampled_key(key) {
        GclModel { trace_sampled: to_bool_spec(value), ..st }
    } else if labels.contains(key) {
        GclModel { labels: st.labels.insert(key, value), ..st }
    } else {
        GclModel { payload: st.payload.insert(key, value), ..st }
    }
}

/// The pairs routed one after another.
pub open spec fn route_all<'a>(
    project: Option<Seq<char>>,
    labels: Set<Seq<char>>,
    st: GclModel<'a>,
    pairs: Seq<(Seq<char>, ValueView<'a>)>,
) -> GclModel<'a>
    decreases pairs.len(),
{
    if pairs.len() == 0 {
        st
    } else {
        let (k, v) = pairs.last();
        route(project, labels, route_all(project, labels, st, pairs.drop_last()), k, v)
    }
}

/// The pairs of the record, then those of each diagnostic.
pub open spec fn all_pairs<'a>(kvs: KeyValues<'a>, diags: Seq<KeyValues<'a>>) -> Seq<
    (Seq<char>, ValueView<'a>),
>
    decreases diags.len(),
{
    if diags.len() == 0 {
        kvs.entries()
    } else {
        all_pairs(kvs, diags.drop_last()) + diags.last().entries()
    }
}

/// The ordered map holds exactly the pairs of the model.
pub open spec fn agrees<'a>(m: OrderedMap<ValueView<'a>>, model: Map<Seq<char>, ValueView<'a>>) -> bool {
    &&& m.wf()
    &&& forall|k: Seq<char>|
        #[trigger] m.spec_get(k) == (if model.dom().contains(k) {
            Some(model[k])
        } else {
            None
        })
}

/// The fields that the layout collects from a record and its diagnostics.
pub struct GclFields<'a> {
    /// The payload fields, in the order of their keys.
    pub payload: OrderedMap<ValueView<'a>>,
    /// The labels, in the order of their keys.
    pub labels: OrderedMap<ValueView<'a>>,
    /// The trace field.
    pub trace: Option<String>,
    /// The span ID field.
    pub span_id: Option<String>,
    /// The trace-sampled field.
    pub trace_sampled: Option<bool>,
}

impl<'a> GclFields<'a> {
    /// The fields hold what the model says.
    pub open spec fn matches(&self, model: GclModel<'a>) -> bool {
        &&& agrees(self.payload, model.payload)
        &&& agrees(self.labels, model.labels)
        &&& (match self.trace {
            Some(t) => model.trace == Some(t@),
            None => model.trace is None,
        })
        &&& (match self.span_id {
            Some(t) => model.span_id == Some(t@),
            None => model.span_id is None,
        })
        &&& self.trace_sampled == model.trace_sampled
    }
}

/// The texts of a list of keys, as a set.
pub open spec fn key_set(keys: Seq<String>) -> Set<Seq<char>> {
    Set::new(|k: Seq<char>| exists|i: int| 0 <= i < keys.len() && #[trigger] keys[i]@ == k)
}

impl GoogleCloudLoggingLayout {
    pub closed spec fn spec_project(&self) -> Option<Seq<char>> {
        match self.trace_project_id {
            Some(p) => Some(p@),
            None => None,
        }
    }

    pub closed spec fn spec_label_keys(&self) -> Set<Seq<char>> {
        Set::new(|k: Seq<char>| exists|i: int| 0 <= i < self.label_keys@.len() && #[trigger] self.label_keys@[i]@ == k)
    }

    /// The layout without trace project ID or label keys.
    pub fn new() -> (r: GoogleCloudLoggingLayout)
        ensures
            r.spec_project() is None,
            r.spec_label_keys() == Set::<Seq<char>>::empty(),
    {
        let r = GoogleCloudLoggingLayout { trace_project_id: None, label_keys: Vec::new() };
        assert(r.spec_label_keys() =~= Set::<Seq<char>>::empty());
        r
    }

    /// Set the trace project ID for traces.
    pub fn trace_project_id(self, project_id: String) -> (r: GoogleCloudLoggingLayout)
        ensures
            r.spec_project() == Some(project_id@),
            r.spec_label_keys() == self.spec_label_keys(),
    {
        let r = GoogleCloudLoggingLayout { trace_project_id: Some(project_id), label_keys: self.label_keys };
        assert(r.spec_label_keys() =~= self.spec_label_keys());
        r
    }

    /// Extend the set of keys that are treated as labels.
    pub fn label_keys(self, keys: Vec<String>) -> (r: GoogleCloudLoggingLayout)
        ensures
            r.spec_project() == self.spec_project(),
            r.spec_label_keys() == self.spec_label_keys().union(key_set(keys@)),
    {
        let ghost old_keys = self.label_keys@;
        let mut all = self.label_keys;
        let ghost added = keys@;
        let mut j: usize = 0;
        let n = keys.len();
        while j < n
            invariant
                n == added.len(),
                j <= n,
                all@ == old_keys + added.take(j as int),
                keys@ == added,
            decreases n - j,
        {
            let k = keys[j].clone();
            all.push(k);
            assert(all@ =~= old_keys + added.take(j + 1));
            j = j + 1;
        }
        assert(added.take(n as int) =~= added);
        let r = GoogleCloudLoggingLayout { trace_project_id: self.trace_project_id, label_keys: all };
        assert(r.spec_label_keys() =~= self.spec_label_keys().union(
            Set::new(|k: Seq<char>| exists|i: int| 0 <= i < added.len() && #[trigger] added[i]@ == k),
        )) by {
            assert forall|k: Seq<char>| r.spec_label_keys().contains(k) implies self.spec_label_keys().union(
                Set::new(|k: Seq<char>| exists|i: int| 0 <= i < added.len() && #[trigger] added[i]@ == k),
            ).contains(k) by {
                let i = choose|i: int| 0 <= i < all@.len() && #[trigger] all@[i]@ == k;
                if i < old_keys.len() {
                    assert(old_keys[i]@ == k);
                } else {
                    assert(added[i - old_keys.len()]@ == k);
                }
            }
            assert forall|k: Seq<char>| self.spec_label_keys().union(
                Set::new(|k: Seq<char>| exists|i: int| 0 <= i < added.len() && #[trigger] added[i]@ == k),
            ).contains(k) implies r.spec_label_keys().contains(k) by {
                if self.spec_label_keys().contains(k) {
                    let i = choose|i: int| 0 <= i < old_keys.len() && #[trigger] old_keys[i]@ == k;
                    assert(all@[i]@ == k);
                } else {
                    let i = choose|i: int| 0 <= i < added.len() && #[trigger] added[i]@ == k;
                    assert(all@[old_keys.len() + i]@ == k);
                }
            }
        }
        r
    }

    fn is_label_key(&self, key: &str) -> (r: bool)
        ensures
            r == self.spec_label_keys().contains(key@),
    {
        let n = self.label_keys.len();
        let mut i: usize = 0;
        while i < n
            invariant
                n == self.label_keys@.len(),
                i <= n,
                forall|j: int| 0 <= j < i ==> #[trigger] self.label_keys@[j]@ != key@,
            decreases n - i,
        {
            if str_eq(self.label_keys[i].as_str(), key) {
                assert(self.spec_label_keys().contains(key@));
                return true;
            }
            i = i + 1;
        }
        false
    }

    /// Routes one key-value pair into the fields.
    fn visit<'a>(&self, fields: &mut GclFields<'a>, key: &str, value: ValueView<'a>, Ghost(st): Ghost<
        GclModel<'a>,
    >)
        requires
            old(fields).matches(st),
        ensures
            final(fields).matches(route(self.spec_project(), self.spec_label_keys(), st, key@, value)),
    {
        let ghost next = route(self.spec_project(), self.spec_label_keys(), st, key@, value);
        match &self.trace_project_id {
            Some(project) => {
                if fields.trace.is_none() && str_eq(key, "trace_id") {
                    let mut t = String::new();
                    push_str(&mut t, "projects/");
                    push_str(&mut t, project.as_str());
                    push_str(&mut t, "/traces/");
                    value.write_text(&mut t);
                    fields.trace = Some(t);
                    return;
                }
                if fields.span_id.is_none() && str_eq(key, "span_id") {
                    fields.span_id = Some(value.to_string());
                    return;
                }
                if fields.trace_sampled.is_none() && (str_eq(key, "sampled") || str_eq(
                    key,
                    "trace_sampled",
                )) {
                    fields.trace_sampled = value.to_bool();
                    return;
                }
            },
            None => {},
        }
        let ghost owned_key = key@;
        if self.is_label_key(key) {
            fields.labels.insert(key.to_owned(), value);
            assert(agrees(fields.labels, next.labels)) by {
                assert forall|k: Seq<char>| #[trigger] fields.labels.spec_get(k) == (if next.labels.dom().contains(k) {
                    Some(next.labels[k])
                } else {
                    None
                }) by {
                    if k != owned_key {
                        assert(old(fields).labels.spec_get(k) == (if st.labels.dom().contains(k) {
                            Some(st.labels[k])
                        } else {
                            None
                        }));
                    }
                }
            }
        } else {
            fields.payload.insert(key.to_owned(), value);
            assert(agrees(fields.payload, next.payload)) by {
                assert forall|k: Seq<char>| #[trigger] fields.payload.spec_get(k) == (if next.payload.dom().contains(k) {
                    Some(next.payload[k])
                } else {
                    None
                }) by {
                    if k != owned_key {
                        assert(old(fields).payload.spec_get(k) == (if st.payload.dom().contains(k) {
                            Some(st.payload[k])
                        } else {
                            None
                        }));
                    }
                }
            }
        }
    }

    /// Routes the pairs of a collection into the fields, in their order.
    fn visit_all<'a>(&self, fields: &mut GclFields<'a>, kvs: &KeyValues<'a>, Ghost(st): Ghost<
        GclModel<'a>,
    >)
        requires
            old(fields).matches(st),
        ensures
            final(fields).matches(
                route_all(self.spec_project(), self.spec_label_keys(), st, kvs.entries()),
            ),
    {
        let ghost es = kvs.entries();
        let n = kvs.len();
        for i in 0..n
            invariant
                n == es.len(),
                es == kvs.entries(),
                fields.matches(route_all(self.spec_project(), self.spec_label_keys(), st, es.take(i as int))),
        {
            let (k, v) = kvs.entry(i);
            let ghost cur = route_all(self.spec_project(), self.spec_label_keys(), st, es.take(i as int));
            self.visit(fields, k.as_str(), v, Ghost(cur));
            assert(es.take(i + 1).drop_last() =~= es.take(i as int));
        }
        assert(es.take(n as int) =~= es);
    }

    /// Collects the fields of a record with the key-values `kvs` and the key-values of its
    /// diagnostics, the record's pairs first.
    pub fn collect<'a>(&self, kvs: &KeyValues<'a>, diags: &[KeyValues<'a>]) -> (r: GclFields<'a>)
        ensures
            r.matches(
                route_all(
                    self.spec_project(),
                    self.spec_label_keys(),
                    empty_model(),
                    all_pairs(*kvs, diags@),
                ),
            ),
    {
        let mut fields = GclFields {
            payload: OrderedMap::new(),
            labels: OrderedMap::new(),
            trace: None,
            span_id: None,
            trace_sampled: None,
        };
        let ghost p = self.spec_project();
        let ghost l = self.spec_label_keys();
        assert(fields.matches(empty_model()));
        self.visit_all(&mut fields, kvs, Ghost(empty_model()));
        let m = diags.len();
        for j in 0..m
            invariant
                m == diags@.len(),
                p == self.spec_project(),
                l == self.spec_label_keys(),
                fields.matches(route_all(p, l, empty_model(), all_pairs(*kvs, diags@.take(j as int)))),
        {
            let ghost before = all_pairs(*kvs, diags@.take(j as int));
            let ghost cur = route_all(p, l, empty_model(), before);
            self.visit_all(&mut fields, &diags[j], Ghost(cur));
            proof {
                assert(diags@.take(j + 1).drop_last() =~= diags@.take(j as int));
                lemma_route_all_append(p, l, empty_model(), before, diags@[j as int].entries());
            }
        }
        assert(diags@.take(m as int) =~= diags@);
        fields
    }
}

pub proof fn lemma_route_all_append<'a>(
    project: Option<Seq<char>>,
    labels: Set<Seq<char>>,
    st: GclModel<'a>,
    a: Seq<(Seq<char>, ValueView<'a>)>,
    b: Seq<(Seq<char>, ValueView<'a>)>,
)
    ensures
        route_all(project, labels, st, a + b) == route_all(
            project,
            labels,
            route_all(project, labels, st, a),
            b,
        ),
    decreases b.len(),
{
    if b.len() == 0 {
        assert(a + b =~= a);
    } else {
        lemma_route_all_append(project, labels, st, a, b.drop_last());
        assert((a + b).drop_last() =~= a + b.drop_last());
        assert((a + b).last() == b.last());
    }
}

/// Label keys accumulate: a layout given the keys `a` and then the keys `b` has the label keys of
/// the layout given `a` followed by `b` at once, so the two route every record alike (`collect`
/// depends on the layout through its project ID and label keys alone).
pub proof fn lemma_label_keys_accumulate(l: GoogleCloudLoggingLayout, a: Seq<String>, b: Seq<String>)
    ensures
        l.spec_label_keys().union(key_set(a)).union(key_set(b)) == l.spec_label_keys().union(
            key_set(a + b),
        ),
{
    let lhs = l.spec_label_keys().union(key_set(a)).union(key_set(b));
    let rhs = l.spec_label_keys().union(key_set(a + b));
    assert forall|k: Seq<char>| lhs.contains(k) implies rhs.contains(k) by {
        if key_set(a).contains(k) {
            let i = choose|i: int| 0 <= i < a.len() && #[trigger] a[i]@ == k;
            assert((a + b)[i]@ == k);
        } else if key_set(b).contains(k) {
            let i = choose|i: int| 0 <= i < b.len() && #[trigger] b[i]@ == k;
            assert((a + b)[a.len() + i]@ == k);
        }
    }
    assert forall|k: Seq<char>| rhs.contains(k) implies lhs.contains(k) by {
        if key_set(a + b).contains(k) {
            let i = choose|i: int| 0 <= i < (a + b).len() && #[trigger] (a + b)[i]@ == k;
            if i < a.len() {
                assert(a[i]@ == k);
            } else {
                assert(b[i - a.len()]@ == k);
            }
        }
    }
    assert(lhs =~= rhs);
}

} // verus!
