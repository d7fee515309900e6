//! Trace spans recorded by the runtime, and the closure check over a set of spans:
//! ids are unique, intervals are ordered, and every parent exists in the same trace.
use vstd::prelude::*;
use vstd::string::*;

use crate::failure::{copy_entries, ScalarValue};
use crate::text::{decimal, decimal_chars, lemma_decimal_injective, str_eq};

verus! {

#[derive(Clone, Copy, Debug, PartialEq, Eq, Structural)]
pub enum SpanStatus {
    Success,
    Error,
}

/// A span. Times are logical ticks.
#[derive(Clone, Debug, PartialEq, Eq)]
pub struct TraceSpan {
    pub trace_id: String,
    pub span_id: String,
    pub parent_span_id: Option<String>,
    pub name: String,
    pub start: u64,
    pub end: Option<u64>,
    pub attributes: Vec<(String, ScalarValue)>,
    pub status: SpanStatus,
}

/// Two spans carry the same content.
pub open spec fn same_span(a: TraceSpan, b: TraceSpan) -> bool {
    &&& a.trace_id == b.trace_id
    &&& a.span_id == b.span_id
    &&& a.parent_span_id == b.parent_span_id
    &&& a.name == b.name
    &&& a.start == b.start
    &&& a.end == b.end
    &&& a.attributes@ == b.attributes@
    &&& a.status == b.status
}

impl TraceSpan {
    pub fn copy(&self) -> (r: Self)
        ensures
            same_span(r, *self),
    {
        TraceSpan {
            trace_id: self.trace_id.clone(),
            span_id: self.span_id.clone(),
            parent_span_id: match &self.parent_span_id {
                Some(p) => Some(p.clone()),
                None => None,
            },
            name: self.name.clone(),
            start: self.start,
            end: self.end,
            attributes: copy_entries(&self.attributes),
            status: self.status,
        }
    }
}

/// The `n`-th span a book records (counting from 1).
pub open spec fn recorded_span(span: TraceSpan, n: int, agent_id: Seq<char>) -> bool {
    &&& span.trace_id@ == "trace-"@ + agent_id
    &&& span.span_id@ == "span-"@ + decimal_chars(n as nat)
    &&& span.start == n
    &&& span.end == Some(n as u64)
    &&& span.attributes@.len() == 1
    &&& span.attributes@[0].0@ == "agent_id"@
    &&& span.attributes@[0].1 matches ScalarValue::String(a) && a@ == agent_id
}

#[derive(Clone, Debug)]
pub struct TraceBook {
    spans: Vec<TraceSpan>,
    next_span: u64,
}

impl Default for TraceBook {
    fn default() -> (r: Self)
        ensures
            r.wf(),
            r.recorded().len() == 0,
    {
        TraceBook::new()
    }
}

impl TraceBook {
    pub closed spec fn recorded(&self) -> Seq<TraceSpan> {
        self.spans@
    }

    /// The book holds one span per number handed out, the `i`-th numbered `i + 1`.
    pub closed spec fn wf(&self) -> bool {
        &&& self.spans@.len() == self.next_span
        &&& forall|i: int|
            0 <= i < self.spans@.len() ==> #[trigger] self.spans@[i].span_id@ == "span-"@
                + decimal_chars((i + 1) as nat) && self.spans@[i].start == i + 1 && self.spans@[i].end
                == Some(self.spans@[i].start)
    }

    /// The spans are numbered in order and every interval is closed.
    pub proof fn lemma_numbered(&self)
        requires
            self.wf(),
        ensures
            forall|i: int|
                0 <= i < self.recorded().len() ==> #[trigger] self.recorded()[i].span_id@ == "span-"@
                    + decimal_chars((i + 1) as nat) && self.recorded()[i].end == Some(self.recorded()[i].start),
    {
    }

    /// Whatever a book has recorded, no span id repeats and no interval ends
    /// before it starts: only a parent can keep its spans from being closed.
    pub proof fn lemma_recorded_spans_have_no_own_issue(&self)
        requires
            self.wf(),
        ensures
            forall|i: int|
                0 <= i < self.recorded().len() ==> (#[trigger] own_issues(self.recorded(), i)).len() == 0,
    {
        let s = self.recorded();
        assert forall|i: int| 0 <= i < s.len() implies (#[trigger] own_issues(s, i)).len() == 0 by {
            if exists|j: int| 0 <= j < i && s[j].span_id@ == s[i].span_id@ {
                let j = choose|j: int| 0 <= j < i && s[j].span_id@ == s[i].span_id@;
                let a = decimal_chars((j + 1) as nat);
                let b = decimal_chars((i + 1) as nat);
                assert(s[j].span_id@ == "span-"@ + a);
                assert(s[i].span_id@ == "span-"@ + b);
                reveal_strlit("span-");
                assert(("span-"@ + a).skip(5) =~= a);
                assert(("span-"@ + b).skip(5) =~= b);
                lemma_decimal_injective((j + 1) as nat, (i + 1) as nat);
            }
            assert(s[i].end == Some(s[i].start));
        }
    }

    pub fn new() -> (r: Self)
        ensures
            r.wf(),
            r.recorded().len() == 0,
    {
        TraceBook { spans: Vec::new(), next_span: 0 }
    }

    /// Records a closed span of `agent_id` under the next span number.
    pub fn record(
        &mut self,
        agent_id: &str,
        name: String,
        parent_span_id: Option<String>,
        status: SpanStatus,
    ) -> (r: TraceSpan)
        requires
            old(self).wf(),
            old(self).recorded().len() < u64::MAX,
        ensures
            final(self).wf(),
            final(self).recorded().len() == old(self).recorded().len() + 1,
            final(self).recorded().take(old(self).recorded().len() as int) == old(self).recorded(),
            same_span(final(self).recorded().last(), r),
            recorded_span(r, final(self).recorded().len() as int, agent_id@),
            r.name == name,
            r.parent_span_id == parent_span_id,
            r.status == status,
    {
        self.next_span = self.next_span + 1;
        let mut trace_id = String::from_str("trace-");
        trace_id.append(agent_id);
        let mut span_id = String::from_str("span-");
        span_id.append(decimal(self.next_span).as_str());
        let mut attributes: Vec<(String, ScalarValue)> = Vec::new();
        attributes.push(
            (String::from_str("agent_id"), ScalarValue::String(String::from_str(agent_id))),
        );
        let span = TraceSpan {
            trace_id,
            span_id,
            parent_span_id,
            name,
            start: self.next_span,
            end: Some(self.next_span),
            attributes,
            status,
        };
        let ghost before = self.spans@;
        self.spans.push(span.copy());
        assert(self.spans@.take(before.len() as int) =~= before);
        span
    }

    pub fn spans(&self) -> (r: &[TraceSpan])
        ensures
            r@ == self.recorded(),
    {
        self.spans.as_slice()
    }
}

#[derive(Clone, Debug, PartialEq, Eq)]
pub enum TraceClosureIssue {
    DuplicateSpanId { span_id: String },
    MissingParent { span_id: String, parent_span_id: String },
    ParentTraceMismatch { span_id: String, parent_span_id: String },
    InvalidInterval { span_id: String },
}

/// The issues of span `i` that need no parent: a repeated id, an inverted interval.
pub open spec fn own_issues(s: Seq<TraceSpan>, i: int) -> Seq<TraceClosureIssue> {
    (if exists|j: int| 0 <= j < i && s[j].span_id@ == s[i].span_id@ {
        seq![TraceClosureIssue::DuplicateSpanId { span_id: s[i].span_id }]
    } else {
        Seq::empty()
    }) + (if s[i].end matches Some(end) && end < s[i].start {
        seq![TraceClosureIssue::InvalidInterval { span_id: s[i].span_id }]
    } else {
        Seq::empty()
    })
}

/// The first span with the given id, searching from `k`.
pub open spec fn first_with_id(s: Seq<TraceSpan>, id: Seq<char>, k: int) -> Option<int>
    decreases s.len() - k,
{
    if k < 0 || k >= s.len() {
        None
    } else if s[k].span_id@ == id {
        Some(k)
    } else {
        first_with_id(s, id, k + 1)
    }
}

/// The issues of span `i` about its parent, which is the first span with the parent's id.
pub open spec fn parent_issues(s: Seq<TraceSpan>, i: int) -> Seq<TraceClosureIssue> {
    match s[i].parent_span_id {
        None => Seq::empty(),
        Some(p) => match first_with_id(s, p@, 0) {
            None => seq![TraceClosureIssue::MissingParent { span_id: s[i].span_id, parent_span_id: p }],
            Some(k) => if s[k].trace_id@ != s[i].trace_id@ {
                seq![
                    TraceClosureIssue::ParentTraceMismatch {
                        span_id: s[i].span_id,
                        parent_span_id: p,
                    },
                ]
            } else {
                Seq::empty()
            },
        },
    }
}

pub open spec fn own_issues_upto(s: Seq<TraceSpan>, n: int) -> Seq<TraceClosureIssue>
    decreases n,
{
    if n <= 0 {
        Seq::empty()
    } else {
        own_issues_upto(s, n - 1) + own_issues(s, n - 1)
    }
}

pub open spec fn parent_issues_upto(s: Seq<TraceSpan>, n: int) -> Seq<TraceClosureIssue>
    decreases n,
{
    if n <= 0 {
        Seq::empty()
    } else {
        parent_issues_upto(s, n - 1) + parent_issues(s, n - 1)
    }
}

/// All issues: first every span's own issues in order, then every span's parent issues.
pub open spec fn closure_issues(s: Seq<TraceSpan>) -> Seq<TraceClosureIssue> {
    own_issues_upto(s, s.len() as int) + parent_issues_upto(s, s.len() as int)
}

/// Span `i` has no parent, or its parent is an earlier span of the same trace.
pub open spec fn parent_recorded(s: Seq<TraceSpan>, i: int) -> bool {
    s[i].parent_span_id matches Some(p) ==> exists|k: int|
        0 <= k < i && #[trigger] s[k].span_id@ == p@ && s[k].trace_id@ == s[i].trace_id@
}

/// Spans numbered in order, with closed intervals, each parent recorded before its
/// child in the same trace.
pub open spec fn well_nested(s: Seq<TraceSpan>) -> bool {
    forall|i: int|
        0 <= i < s.len() ==> #[trigger] s[i].span_id@ == "span-"@ + decimal_chars((i + 1) as nat) && s[i].end
            == Some(s[i].start) && parent_recorded(s, i)
}

proof fn lemma_numbered_ids_distinct(s: Seq<TraceSpan>, i: int, j: int)
    requires
        well_nested(s),
        0 <= i < s.len(),
        0 <= j < s.len(),
        s[i].span_id@ == s[j].span_id@,
    ensures
        i == j,
{
    let a = decimal_chars((i + 1) as nat);
    let b = decimal_chars((j + 1) as nat);
    reveal_strlit("span-");
    assert(("span-"@ + a).skip(5) =~= a);
    assert(("span-"@ + b).skip(5) =~= b);
    lemma_decimal_injective((i + 1) as nat, (j + 1) as nat);
}

proof fn lemma_first_with_id_unique(s: Seq<TraceSpan>, id: Seq<char>, m: int, k: int)
    requires
        well_nested(s),
        0 <= m <= k < s.len(),
        s[k].span_id@ == id,
    ensures
        first_with_id(s, id, m) == Some(k),
    decreases k - m,
{
    if m < k {
        if s[m].span_id@ == id {
            lemma_numbered_ids_distinct(s, m, k);
        }
        lemma_first_with_id_unique(s, id, m + 1, k);
    }
}

proof fn lemma_no_issues_upto(s: Seq<TraceSpan>, n: int)
    requires
        well_nested(s),
        0 <= n <= s.len(),
    ensures
        own_issues_upto(s, n).len() == 0,
        parent_issues_upto(s, n).len() == 0,
    decreases n,
{
    if n > 0 {
        lemma_no_issues_upto(s, n - 1);
        let i = n - 1;
        assert(s[i].span_id@ == "span-"@ + decimal_chars((i + 1) as nat));
        if exists|j: int| 0 <= j < i && s[j].span_id@ == s[i].span_id@ {
            let j = choose|j: int| 0 <= j < i && s[j].span_id@ == s[i].span_id@;
            lemma_numbered_ids_distinct(s, j, i);
        }
        assert(own_issues(s, i).len() == 0);
        match s[i].parent_span_id {
            Some(p) => {
                let k = choose|k: int| 0 <= k < i && #[trigger] s[k].span_id@ == p@ && s[k].trace_id@ == s[i].trace_id@;
                lemma_first_with_id_unique(s, p@, 0, k);
            },
            None => {},
        }
        assert(parent_issues(s, i).len() == 0);
    }
}

/// Spans that are well nested pass the closure check without an issue.
pub proof fn lemma_well_nested_closed(s: Seq<TraceSpan>)
    requires
        well_nested(s),
    ensures
        closure_issues(s).len() == 0,
{
    lemma_no_issues_upto(s, s.len() as int);
}

/// Span `i` closes its part of the trace: no earlier span has its id, its
/// interval does not end before it starts, and its parent, if it names one, is a
/// recorded span of the same trace.
pub open spec fn span_closed(s: Seq<TraceSpan>, i: int) -> bool {
    &&& forall|j: int| 0 <= j < i ==> (#[trigger] s[j]).span_id@ != s[i].span_id@
    &&& !(s[i].end matches Some(end) && end < s[i].start)
    &&& s[i].parent_span_id matches Some(p) ==> exists|k: int|
        0 <= k < s.len() && #[trigger] s[k].span_id@ == p@ && s[k].trace_id@ == s[i].trace_id@
}

/// The spans form closed traces: no span id repeats, no interval ends before it
/// starts, and every parent is a recorded span of the same trace.
pub open spec fn trace_closed(s: Seq<TraceSpan>) -> bool {
    forall|i: int| 0 <= i < s.len() ==> #[trigger] span_closed(s, i)
}

proof fn lemma_first_with_id_found(s: Seq<TraceSpan>, id: Seq<char>, m: int)
    requires
        0 <= m,
    ensures
        match first_with_id(s, id, m) {
            Some(k) => m <= k < s.len() && s[k].span_id@ == id,
            None => forall|j: int| m <= j < s.len() ==> (#[trigger] s[j]).span_id@ != id,
        },
    decreases s.len() - m,
{
    if m < s.len() && s[m].span_id@ != id {
        lemma_first_with_id_found(s, id, m + 1);
        if first_with_id(s, id, m + 1) is None {
            assert forall|j: int| m <= j < s.len() implies (#[trigger] s[j]).span_id@ != id by {
                if j > m {
                    assert(s[j].span_id@ != id);
                }
            }
        }
    }
}

proof fn lemma_issues_upto_empty(s: Seq<TraceSpan>, n: int)
    requires
        0 <= n <= s.len(),
    ensures
        own_issues_upto(s, n).len() == 0 <==> forall|i: int| 0 <= i < n ==> (#[trigger] own_issues(s, i)).len() == 0,
        parent_issues_upto(s, n).len() == 0 <==> forall|i: int|
            0 <= i < n ==> (#[trigger] parent_issues(s, i)).len() == 0,
    decreases n,
{
    if n > 0 {
        lemma_issues_upto_empty(s, n - 1);
    }
}

proof fn lemma_closed_span_has_no_issue(s: Seq<TraceSpan>, i: int)
    requires
        trace_closed(s),
        0 <= i < s.len(),
    ensures
        own_issues(s, i).len() == 0,
        parent_issues(s, i).len() == 0,
{
    assert(span_closed(s, i));
    if let Some(p) = s[i].parent_span_id {
        let k = choose|k: int| 0 <= k < s.len() && #[trigger] s[k].span_id@ == p@ && s[k].trace_id@ == s[i].trace_id@;
        lemma_first_with_id_found(s, p@, 0);
        match first_with_id(s, p@, 0) {
            Some(f) => {
                if f < k {
                    assert(span_closed(s, k));
                    assert(s[f].span_id@ != s[k].span_id@);
                } else if k < f {
                    assert(span_closed(s, f));
                    assert(s[k].span_id@ != s[f].span_id@);
                }
            },
            None => {
                assert(s[k].span_id@ != p@);
            },
        }
    }
}

/// The closure check reports nothing exactly when the spans form closed traces.
pub proof fn lemma_closure_issues_empty_iff_closed(s: Seq<TraceSpan>)
    ensures
        closure_issues(s).len() == 0 <==> trace_closed(s),
{
    let n = s.len() as int;
    lemma_issues_upto_empty(s, n);
    if trace_closed(s) {
        assert forall|i: int| 0 <= i < n implies (#[trigger] own_issues(s, i)).len() == 0 by {
            lemma_closed_span_has_no_issue(s, i);
        }
        assert forall|i: int| 0 <= i < n implies (#[trigger] parent_issues(s, i)).len() == 0 by {
            lemma_closed_span_has_no_issue(s, i);
        }
    }
    if closure_issues(s).len() == 0 {
        assert forall|i: int| 0 <= i < n implies #[trigger] span_closed(s, i) by {
            assert(own_issues(s, i).len() == 0);
            assert(parent_issues(s, i).len() == 0);
            if let Some(p) = s[i].parent_span_id {
                lemma_first_with_id_found(s, p@, 0);
                let k = first_with_id(s, p@, 0)->0;
                assert(s[k].span_id@ == p@);
            }
        }
    }
}

/// The number of duplicate-id issues in a list.
pub open spec fn duplicate_count(issues: Seq<TraceClosureIssue>) -> nat
    decreases issues.len(),
{
    if issues.len() == 0 {
        0
    } else {
        duplicate_count(issues.drop_last()) + (if issues.last() is DuplicateSpanId {
            1nat
        } else {
            0nat
        })
    }
}

/// The distinct span ids among the first `n` spans.
pub open spec fn span_ids(s: Seq<TraceSpan>, n: int) -> Set<Seq<char>>
    decreases n,
{
    if n <= 0 {
        Set::empty()
    } else {
        span_ids(s, n - 1).insert(s[n - 1].span_id@)
    }
}

proof fn lemma_duplicate_count_concat(a: Seq<TraceClosureIssue>, b: Seq<TraceClosureIssue>)
    ensures
        duplicate_count(a + b) == duplicate_count(a) + duplicate_count(b),
    decreases b.len(),
{
    if b.len() == 0 {
        assert(a + b =~= a);
    } else {
        lemma_duplicate_count_concat(a, b.drop_last());
        assert((a + b).drop_last() =~= a + b.drop_last());
    }
}

proof fn lemma_span_ids(s: Seq<TraceSpan>, n: int)
    requires
        0 <= n <= s.len(),
    ensures
        span_ids(s, n).finite(),
        forall|x: Seq<char>| span_ids(s, n).contains(x) <==> exists|j: int| 0 <= j < n && #[trigger] s[j].span_id@ == x,
    decreases n,
{
    broadcast use vstd::set::axiom_set_insert_finite, vstd::set::axiom_set_empty_finite;

    if n > 0 {
        lemma_span_ids(s, n - 1);
        assert forall|x: Seq<char>| span_ids(s, n).contains(x) implies exists|j: int|
            0 <= j < n && #[trigger] s[j].span_id@ == x by {
            if x != s[n - 1].span_id@ {
                let j = choose|j: int| 0 <= j < n - 1 && #[trigger] s[j].span_id@ == x;
            }
        }
    }
}

proof fn lemma_duplicates_upto(s: Seq<TraceSpan>, n: int)
    requires
        0 <= n <= s.len(),
    ensures
        duplicate_count(own_issues_upto(s, n)) + span_ids(s, n).len() == n,
        duplicate_count(parent_issues_upto(s, n)) == 0,
    decreases n,
{
    broadcast use vstd::set::axiom_set_insert_len, vstd::set::axiom_set_empty_len;

    if n > 0 {
        let i = n - 1;
        lemma_duplicates_upto(s, i);
        lemma_span_ids(s, i);
        lemma_duplicate_count_concat(own_issues_upto(s, i), own_issues(s, i));
        lemma_duplicate_count_concat(parent_issues_upto(s, i), parent_issues(s, i));
        let first: Seq<TraceClosureIssue> = if exists|j: int| 0 <= j < i && s[j].span_id@ == s[i].span_id@ {
            seq![TraceClosureIssue::DuplicateSpanId { span_id: s[i].span_id }]
        } else {
            Seq::empty()
        };
        let second: Seq<TraceClosureIssue> = if s[i].end matches Some(end) && end < s[i].start {
            seq![TraceClosureIssue::InvalidInterval { span_id: s[i].span_id }]
        } else {
            Seq::empty()
        };
        assert(own_issues(s, i) == first + second);
        lemma_duplicate_count_concat(first, second);
        assert(duplicate_count(second) == 0) by {
            reveal_with_fuel(duplicate_count, 2);
            if second.len() > 0 {
                assert(second.drop_last() =~= Seq::<TraceClosureIssue>::empty());
            }
        }
        assert(duplicate_count(first) == (if span_ids(s, i).contains(s[i].span_id@) { 1nat } else { 0nat })) by {
            reveal_with_fuel(duplicate_count, 2);
            if first.len() > 0 {
                assert(first.drop_last() =~= Seq::<TraceClosureIssue>::empty());
            }
        }
        assert(duplicate_count(parent_issues(s, i)) == 0) by {
            reveal_with_fuel(duplicate_count, 2);
            let p = parent_issues(s, i);
            if p.len() > 0 {
                assert(p.drop_last() =~= Seq::<TraceClosureIssue>::empty());
            }
        }
    }
}

/// Every span whose id an earlier span already has is reported once as a
/// duplicate: the duplicate-id issues number the spans less their distinct ids.
pub proof fn lemma_duplicate_issues_count(s: Seq<TraceSpan>)
    ensures
        duplicate_count(closure_issues(s)) + span_ids(s, s.len() as int).len() == s.len(),
{
    lemma_duplicates_upto(s, s.len() as int);
    lemma_duplicate_count_concat(own_issues_upto(s, s.len() as int), parent_issues_upto(s, s.len() as int));
}

fn find_first(spans: &[TraceSpan], id: &str) -> (r: Option<usize>)
    ensures
        match r {
            Some(k) => first_with_id(spans@, id@, 0) == Some(k as int) && k < spans@.len(),
            None => first_with_id(spans@, id@, 0) is None,
        },
{
    let mut k: usize = 0;
    while k < spans.len()
        invariant
            0 <= k <= spans@.len(),
            first_with_id(spans@, id@, 0) == first_with_id(spans@, id@, k as int),
        decreases spans@.len() - k,
    {
        if str_eq(spans[k].span_id.as_str(), id) {
            return Some(k);
        }
        k = k + 1;
    }
    None
}

fn seen_before(spans: &[TraceSpan], i: usize) -> (r: bool)
    requires
        i < spans@.len(),
    ensures
        r == exists|j: int| 0 <= j < i && spans@[j].span_id@ == spans@[i as int].span_id@,
{
    let mut j: usize = 0;
    while j < i
        invariant
            0 <= j <= i < spans@.len(),
            forall|k: int| 0 <= k < j ==> spans@[k].span_id@ != spans@[i as int].span_id@,
        decreases i - j,
    {
        if str_eq(spans[j].span_id.as_str(), spans[i].span_id.as_str()) {
            return true;
        }
        j = j + 1;
    }
    false
}

/// Reports every duplicate span id, inverted interval, missing parent and parent in
/// another trace.
pub fn validate_trace_closure(spans: &[TraceSpan]) -> (r: Vec<TraceClosureIssue>)
    ensures
        r@ == closure_issues(spans@),
{
    let mut issues: Vec<TraceClosureIssue> = Vec::new();
    let mut i: usize = 0;
    while i < spans.len()
        invariant
            0 <= i <= spans@.len(),
            issues@ == own_issues_upto(spans@, i as int),
        decreases spans@.len() - i,
    {
        let span = &spans[i];
        let ghost before = issues@;
        if seen_before(spans, i) {
            issues.push(TraceClosureIssue::DuplicateSpanId { span_id: span.span_id.clone() });
        }
        match span.end {
            Some(end) => {
                if end < span.start {
                    issues.push(TraceClosureIssue::InvalidInterval { span_id: span.span_id.clone() });
                }
            },
            None => {},
        }
        assert(issues@ =~= before + own_issues(spans@, i as int));
        i = i + 1;
    }
    let ghost own = issues@;
    let mut i: usize = 0;
    while i < spans.len()
        invariant
            0 <= i <= spans@.len(),
            own == own_issues_upto(spans@, spans@.len() as int),
            issues@ == own + parent_issues_upto(spans@, i as int),
        decreases spans@.len() - i,
    {
        let span = &spans[i];
        let ghost before = issues@;
        match &span.parent_span_id {
            None => {},
            Some(parent_span_id) => {
                match find_first(spans, parent_span_id.as_str()) {
                    None => {
                        issues.push(
                            TraceClosureIssue::MissingParent {
                                span_id: span.span_id.clone(),
                                parent_span_id: parent_span_id.clone(),
                            },
                        );
                    },
                    Some(k) => {
                        if spans[k].trace_id != span.trace_id {
                            issues.push(
                                TraceClosureIssue::ParentTraceMismatch {
                                    span_id: span.span_id.clone(),
                                    parent_span_id: parent_span_id.clone(),
                                },
                            );
                        }
                    },
                }
            },
        }
        assert(issues@ =~= before + parent_issues(spans@, i as int));
        assert(own + parent_issues_upto(spans@, i + 1) =~= own + parent_issues_upto(spans@, i as int)
            + parent_issues(spans@, i as int));
        i = i + 1;
    }
    issues
}

} // verus!
