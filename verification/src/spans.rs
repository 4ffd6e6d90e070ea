//! Spans, the records that the analytics work on, and the spans with
//! many children among them.

use vstd::prelude::*;
use crate::text::same_text;

verus! {

/// A span: a record with an identifier and, possibly, a parent.
#[derive(Debug)]
pub struct Span {
    pub id: u128,
    pub parent: Option<u128>,
    pub kind: String,
    pub payload: String,
    /// When the span was recorded, in milliseconds since the epoch.
    pub timestamp: i64,
}

/// A span as plain data.
pub struct SpanView {
    pub id: u128,
    pub parent: Option<u128>,
    pub kind: Seq<char>,
    pub payload: Seq<char>,
    pub timestamp: i64,
}

impl View for Span {
    type V = SpanView;

    open spec fn view(&self) -> SpanView {
        SpanView {
            id: self.id,
            parent: self.parent,
            kind: self.kind@,
            payload: self.payload@,
            timestamp: self.timestamp,
        }
    }
}

/// The spans of a sequence as plain data.
pub open spec fn span_views(spans: Seq<Span>) -> Seq<SpanView> {
    spans.map_values(|s: Span| s@)
}

impl Span {
    /// A copy of the span.
    pub fn duplicate(&self) -> (copy: Span)
        ensures
            copy@ == self@,
    {
        Span {
            id: self.id,
            parent: self.parent,
            kind: self.kind.clone(),
            payload: self.payload.clone(),
            timestamp: self.timestamp,
        }
    }
}

/// Which spans a query asks for.
#[derive(Debug, Clone, Default)]
pub struct SpanFilter {
    /// Only spans of this kind, where given.
    pub kind: Option<String>,
    /// No more spans than this, where given.
    pub limit: Option<usize>,
}

/// What mining can fail with.
#[derive(Debug)]
pub enum DiamondError {
    /// There are no spans to mine.
    EmptyInput,
}

impl DiamondError {
    /// The message of the error.
    pub fn message(&self) -> (s: String)
        ensures
            s@ == "A lista de spans para mineração não pode estar vazia."@,
    {
        "A lista de spans para mineração não pode estar vazia.".to_owned()
    }
}

/// The spans that were recorded, oldest first.
pub struct SpanStore {
    pub spans: Vec<Span>,
}

/// The spans of a sequence that a kind filter lets through, in their
/// order.
pub open spec fn of_span_kind(spans: Seq<SpanView>, kind: Option<String>) -> Seq<SpanView>
    decreases spans.len(),
{
    if spans.len() == 0 {
        Seq::empty()
    } else {
        let rest = of_span_kind(spans.drop_last(), kind);
        match kind {
            Some(k) => if spans.last().kind == k@ {
                rest.push(spans.last())
            } else {
                rest
            },
            None => rest.push(spans.last()),
        }
    }
}

/// The first `limit` elements of a sequence, or all of it where there is
/// no limit or it has no more.
pub open spec fn first_of(spans: Seq<SpanView>, limit: Option<usize>) -> Seq<SpanView> {
    match limit {
        Some(n) => if spans.len() > n {
            spans.subrange(0, n as int)
        } else {
            spans
        },
        None => spans,
    }
}

impl SpanStore {
    /// The recorded spans as plain data, oldest first.
    pub open spec fn view(self) -> Seq<SpanView> {
        span_views(self.spans@)
    }

    /// A store without spans.
    pub fn new() -> (store: SpanStore)
        ensures
            store.view() == Seq::<SpanView>::empty(),
    {
        let store = SpanStore { spans: Vec::new() };
        assert(store.view() =~= Seq::<SpanView>::empty());
        store
    }
}

/// Records a span.
pub fn record_span(store: &mut SpanStore, span: Span) -> (r: Result<(), DiamondError>)
    ensures
        r is Ok,
        final(store).view() == old(store).view().push(span@),
{
    let ghost before = store.view();
    store.spans.push(span);
    assert(store.view() =~= before.push(span@));
    Ok(())
}

/// The recorded spans that a filter asks for: those of its kind, oldest
/// first, and of those no more than its limit.
pub fn fetch_spans(store: &SpanStore, filter: &SpanFilter) -> (r: Result<Vec<Span>, DiamondError>)
    ensures
        r matches Ok(spans) && span_views(spans@) == first_of(
            of_span_kind(store.view(), filter.kind),
            filter.limit,
        ),
{
    let mut found: Vec<Span> = Vec::new();
    let mut i: usize = 0;
    let ghost all = store.view();
    assert(all.subrange(0, 0) =~= Seq::<SpanView>::empty());
    while i < store.spans.len()
        invariant
            i <= store.spans@.len(),
            all == store.view(),
            span_views(found@) == of_span_kind(all.subrange(0, i as int), filter.kind),
        decreases store.spans@.len() - i,
    {
        let ghost next = all.subrange(0, i as int + 1);
        assert(next.drop_last() =~= all.subrange(0, i as int));
        assert(next.last() == store.spans@[i as int]@);
        let wanted = match &filter.kind {
            Some(kind) => same_text(store.spans[i].kind.as_str(), kind.as_str()),
            None => true,
        };
        if wanted {
            let ghost before = span_views(found@);
            found.push(store.spans[i].duplicate());
            assert(span_views(found@) =~= before.push(store.spans@[i as int]@));
        }
        i = i + 1;
    }
    assert(all.subrange(0, store.spans@.len() as int) =~= all);
    match filter.limit {
        Some(limit) => {
            if found.len() > limit {
                let ghost whole = span_views(found@);
                found.truncate(limit);
                assert(span_views(found@) =~= whole.subrange(0, limit as int));
            }
        },
        None => {},
    }
    Ok(found)
}

/// How many spans of a sequence have the given span as their parent.
pub open spec fn child_count(spans: Seq<SpanView>, id: u128) -> nat
    decreases spans.len(),
{
    if spans.len() == 0 {
        0
    } else if spans.last().parent == Some(id) {
        child_count(spans.drop_last(), id) + 1
    } else {
        child_count(spans.drop_last(), id)
    }
}

/// Whether a span is a diamond among `all`: it has a child, and at least
/// `threshold` children.
pub open spec fn is_diamond(all: Seq<SpanView>, span: SpanView, threshold: nat) -> bool {
    child_count(all, span.id) >= 1 && child_count(all, span.id) >= threshold
}

/// The diamonds among the first spans of `all`, in their order.
pub open spec fn diamonds(spans: Seq<SpanView>, all: Seq<SpanView>, threshold: nat) -> Seq<SpanView>
    decreases spans.len(),
{
    if spans.len() == 0 {
        Seq::empty()
    } else if is_diamond(all, spans.last(), threshold) {
        diamonds(spans.drop_last(), all, threshold).push(spans.last())
    } else {
        diamonds(spans.drop_last(), all, threshold)
    }
}

fn count_children(spans: &Vec<Span>, id: u128) -> (n: usize)
    ensures
        n == child_count(span_views(spans@), id),
{
    let mut n: usize = 0;
    let mut i: usize = 0;
    let ghost all = span_views(spans@);
    assert(all.subrange(0, 0) =~= Seq::<SpanView>::empty());
    while i < spans.len()
        invariant
            i <= spans@.len(),
            all == span_views(spans@),
            n == child_count(all.subrange(0, i as int), id),
            n <= i,
        decreases spans@.len() - i,
    {
        let ghost next = all.subrange(0, i as int + 1);
        assert(next.drop_last() =~= all.subrange(0, i as int));
        assert(next.last() == spans@[i as int]@);
        match spans[i].parent {
            Some(parent) => {
                if parent == id {
                    n = n + 1;
                }
            },
            None => {},
        }
        i = i + 1;
    }
    assert(all.subrange(0, spans@.len() as int) =~= all);
    n
}

/// Mines the diamonds of a list of spans: the spans that at least
/// `threshold` other spans, and at least one, name as their parent, in
/// the order of the list.  An empty list is refused.
pub fn mine_diamonds(spans: &Vec<Span>, threshold: usize) -> (r: Result<Vec<Span>, DiamondError>)
    ensures
        match r {
            Ok(found) => spans@.len() > 0 && span_views(found@) == diamonds(
                span_views(spans@),
                span_views(spans@),
                threshold as nat,
            ),
            Err(_) => spans@.len() == 0,
        },
{
    if spans.len() == 0 {
        return Err(DiamondError::EmptyInput);
    }
    let mut found: Vec<Span> = Vec::new();
    let mut i: usize = 0;
    let ghost all = span_views(spans@);
    assert(all.subrange(0, 0) =~= Seq::<SpanView>::empty());
    while i < spans.len()
        invariant
            i <= spans@.len(),
            all == span_views(spans@),
            span_views(found@) == diamonds(all.subrange(0, i as int), all, threshold as nat),
        decreases spans@.len() - i,
    {
        let ghost next = all.subrange(0, i as int + 1);
        assert(next.drop_last() =~= all.subrange(0, i as int));
        assert(next.last() == spans@[i as int]@);
        let children = count_children(spans, spans[i].id);
        if children >= 1 && children >= threshold {
            let ghost before = span_views(found@);
            found.push(spans[i].duplicate());
            assert(span_views(found@) =~= before.push(spans@[i as int]@));
        }
        i = i + 1;
    }
    assert(all.subrange(0, spans@.len() as int) =~= all);
    Ok(found)
}

} // verus!
