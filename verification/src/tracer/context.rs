//! Zipkin specific span context.
//!
//! Carries the information about the current trace that crosses process
//! boundaries: trace id, span id, optional parent span id, the debug and
//! sampled flags, and the baggage items.
//!
//! A context with no reference starts a new trace, sampled and not in
//! debug; a referenced context inherits trace id, debug and sampled from
//! the referenced parent while keeping its own span id and baggage.

use vstd::prelude::*;

use super::trace_id::TraceID;

verus! {

/// The mathematical value of a span context.
pub ghost struct CtxView {
    pub trace_id: Seq<u8>,
    pub span_id: u64,
    pub parent_span_id: Option<u64>,
    pub debug: bool,
    pub sampled: bool,
    pub baggage: Seq<(Seq<char>, Seq<char>)>,
}

/// Zipkin specific span context.
#[derive(Debug)]
pub struct ZipkinContext {
    debug: bool,
    sampled: bool,
    span_id: u64,
    trace_id: TraceID,
    parent_span_id: Option<u64>,
    baggage: Vec<(String, String)>,
}

/// The baggage items as sequences of characters.
pub open spec fn baggage_view(b: Seq<(String, String)>) -> Seq<(Seq<char>, Seq<char>)> {
    b.map_values(|p: (String, String)| (p.0@, p.1@))
}

impl View for ZipkinContext {
    type V = CtxView;

    closed spec fn view(&self) -> CtxView {
        CtxView {
            trace_id: self.trace_id@,
            span_id: self.span_id,
            parent_span_id: self.parent_span_id,
            debug: self.debug,
            sampled: self.sampled,
            baggage: baggage_view(self.baggage@),
        }
    }
}

/// Position of the first baggage item with the given key, or -1.
pub open spec fn key_index(b: Seq<(Seq<char>, Seq<char>)>, key: Seq<char>) -> int
    decreases b.len(),
{
    if b.len() == 0 {
        -1
    } else if b[0].0 == key {
        0
    } else {
        let rest = key_index(b.skip(1), key);
        if rest < 0 {
            -1
        } else {
            1 + rest
        }
    }
}

/// Setting a baggage item replaces the first item with the same key, or
/// appends a new item.
pub open spec fn baggage_set(
    b: Seq<(Seq<char>, Seq<char>)>,
    key: Seq<char>,
    value: Seq<char>,
) -> Seq<(Seq<char>, Seq<char>)> {
    let i = key_index(b, key);
    if i < 0 {
        b.push((key, value))
    } else {
        b.update(i, (key, value))
    }
}

/// `key_index` is in bounds and finds the key, or reports that no item
/// holds the key.
pub proof fn lemma_key_index_spec(b: Seq<(Seq<char>, Seq<char>)>, key: Seq<char>)
    ensures
        key_index(b, key) >= 0 ==> key_index(b, key) < b.len() && b[key_index(b, key)].0 == key,
        key_index(b, key) < 0 ==> forall|j: int| 0 <= j < b.len() ==> (#[trigger] b[j]).0 != key,
    decreases b.len(),
{
    if b.len() > 0 && b[0].0 != key {
        let rest = b.skip(1);
        lemma_key_index_spec(rest, key);
        if key_index(rest, key) >= 0 {
            assert(rest[key_index(rest, key)] == b[1 + key_index(rest, key)]);
        } else {
            assert forall|j: int| 0 <= j < b.len() implies (#[trigger] b[j]).0 != key by {
                if j > 0 {
                    assert(rest[j - 1] == b[j]);
                }
            }
        }
    }
}

/// No two baggage items share a key.
pub open spec fn baggage_keys_unique(b: Seq<(Seq<char>, Seq<char>)>) -> bool {
    forall|i: int, j: int| 0 <= i < j < b.len() ==> (#[trigger] b[i]).0 != (#[trigger] b[j]).0
}

/// The baggage built by setting the given items in order, starting from
/// no baggage.
pub open spec fn baggage_from_items(items: Seq<(Seq<char>, Seq<char>)>) -> Seq<
    (Seq<char>, Seq<char>),
>
    decreases items.len(),
{
    if items.len() == 0 {
        Seq::<(Seq<char>, Seq<char>)>::empty()
    } else {
        baggage_set(baggage_from_items(items.drop_last()), items.last().0, items.last().1)
    }
}

/// Setting items whose keys are pairwise distinct keeps them unchanged
/// and in order.
pub proof fn lemma_baggage_from_items_unique(items: Seq<(Seq<char>, Seq<char>)>)
    requires
        baggage_keys_unique(items),
    ensures
        baggage_from_items(items) == items,
    decreases items.len(),
{
    if items.len() > 0 {
        let pre = items.drop_last();
        let last = items.last();
        assert(baggage_keys_unique(pre)) by {
            assert(forall|i: int| 0 <= i < pre.len() ==> pre[i] == items[i]);
        }
        lemma_baggage_from_items_unique(pre);
        lemma_key_index_spec(pre, last.0);
        if key_index(pre, last.0) >= 0 {
            let idx = key_index(pre, last.0);
            assert(pre[idx] == items[idx]);
            assert(items[idx].0 == items[items.len() - 1].0);
            assert(false);
        }
        assert(baggage_from_items(items) == pre.push((last.0, last.1)));
        assert((last.0, last.1) == last);
        assert(pre.push(last) =~= items);
    }
}

/// A scan that passed the first `i` items without a match agrees with
/// `key_index`.
pub(crate) proof fn lemma_key_index_scan(b: Seq<(Seq<char>, Seq<char>)>, key: Seq<char>, i: int)
    requires
        0 <= i <= b.len(),
        forall|j: int| 0 <= j < i ==> (#[trigger] b[j]).0 != key,
        i < b.len() ==> b[i].0 == key,
    ensures
        key_index(b, key) == if i == b.len() {
            -1
        } else {
            i
        },
    decreases i,
{
    if i == 0 {
        if b.len() > 0 {
            assert(b[0].0 == key);
        }
    } else {
        let rest = b.skip(1);
        assert forall|j: int| 0 <= j < i - 1 implies (#[trigger] rest[j]).0 != key by {
            assert(rest[j] == b[j + 1]);
        }
        if i < b.len() {
            assert(rest[i - 1] == b[i as int]);
        }
        lemma_key_index_scan(rest, key, i - 1);
        assert(b[0].0 != key);
    }
}

/// Copies baggage items one by one, so that each copied string is known
/// to equal its source.
pub(crate) fn clone_baggage(b: &Vec<(String, String)>) -> (r: Vec<(String, String)>)
    ensures
        r@ == b@,
{
    let mut out: Vec<(String, String)> = Vec::new();
    let mut i: usize = 0;
    while i < b.len()
        invariant
            i <= b@.len(),
            out@ =~= b@.take(i as int),
        decreases b@.len() - i,
    {
        let pair = &b[i];
        out.push((pair.0.clone(), pair.1.clone()));
        i += 1;
    }
    proof {
        assert(b@.take(b@.len() as int) =~= b@);
    }
    out
}

impl Clone for ZipkinContext {
    /// The clone carries the same trace id, span id, parent span id,
    /// flags and baggage.
    fn clone(&self) -> (r: Self)
        ensures
            r@ == self@,
    {
        ZipkinContext {
            debug: self.debug,
            sampled: self.sampled,
            span_id: self.span_id,
            trace_id: self.trace_id,
            parent_span_id: self.parent_span_id,
            baggage: clone_baggage(&self.baggage),
        }
    }
}

/// A reference from a new span to the context of an existing span.
/// Both kinds pass the same fields on to the referencing context.
#[derive(Debug)]
pub enum SpanReference {
    ChildOf(ZipkinContext),
    FollowsFrom(ZipkinContext),
}

/// The context a reference points at.
pub open spec fn referenced_context(r: SpanReference) -> ZipkinContext {
    match r {
        SpanReference::ChildOf(ctx) => ctx,
        SpanReference::FollowsFrom(ctx) => ctx,
    }
}

impl ZipkinContext {
    /// Returns a new root context with the default options: fresh random
    /// trace id and span id, no parent, not debug, sampled.
    pub fn new() -> (r: ZipkinContext)
        ensures
            r@.debug == false,
            r@.sampled == true,
            r@.parent_span_id is None,
            r@.baggage =~= Seq::<(Seq<char>, Seq<char>)>::empty(),
            r@.trace_id.len() == 16,
    {
        ZipkinContext::new_with_options(ZipkinContextOptions::default())
    }

    /// Returns a new context with the given options; an unset span id or
    /// trace id falls back to a fresh random one.
    pub fn new_with_options(options: ZipkinContextOptions) -> (r: ZipkinContext)
        ensures
            r@.debug == options.debug,
            r@.sampled == options.sampled,
            r@.parent_span_id == options.parent_span_id,
            r@.baggage == baggage_view(options.baggage@),
            options.span_id is Some ==> r@.span_id == options.span_id->Some_0,
            options.trace_id is Some ==> r@.trace_id == options.trace_id->Some_0@,
            options.trace_id is None ==> r@.trace_id.len() == 16,
            r@.trace_id.len() == 8 || r@.trace_id.len() == 16,
    {
        let span_id = match options.span_id {
            Some(span_id) => span_id,
            None => rand::random::<u64>(),
        };
        let trace_id = match options.trace_id {
            Some(trace_id) => trace_id,
            None => TraceID::new(),
        };
        proof {
            trace_id.lemma_len();
        }
        ZipkinContext {
            debug: options.debug,
            sampled: options.sampled,
            span_id,
            trace_id,
            parent_span_id: options.parent_span_id,
            baggage: options.baggage,
        }
    }

    /// Is the debug flag set?
    pub fn debug(&self) -> (r: bool)
        ensures
            r == self@.debug,
    {
        self.debug
    }

    /// Is the context sampled?
    pub fn sampled(&self) -> (r: bool)
        ensures
            r == self@.sampled,
    {
        self.sampled
    }

    /// Access the context's span ID.
    pub fn span_id(&self) -> (r: u64)
        ensures
            r == self@.span_id,
    {
        self.span_id
    }

    /// Access the context's trace ID.
    pub fn trace_id(&self) -> (r: &TraceID)
        ensures
            r@ == self@.trace_id,
    {
        &self.trace_id
    }

    /// Access the parent span ID, absent for a root context.
    pub fn parent_span_id(&self) -> (r: Option<u64>)
        ensures
            r == self@.parent_span_id,
    {
        self.parent_span_id
    }

    /// Access the baggage items, in insertion order.
    pub fn baggage_items(&self) -> (r: &Vec<(String, String)>)
        ensures
            baggage_view(r@) == self@.baggage,
    {
        &self.baggage
    }

    /// Adds a baggage item: replaces the value of the first item with the
    /// same key, or appends a new item.
    pub fn set_baggage_item(&mut self, key: String, value: String)
        ensures
            final(self)@ == (CtxView {
                baggage: baggage_set(old(self)@.baggage, key@, value@),
                ..old(self)@
            }),
    {
        let ghost gb = baggage_view(old(self).baggage@);
        proof {
            assert(gb.len() == old(self).baggage@.len());
        }
        let mut i: usize = 0;
        let n = self.baggage.len();
        while i < n
            invariant
                n == self.baggage@.len(),
                n == gb.len(),
                i <= n,
                *self == *old(self),
                gb == baggage_view(self.baggage@),
                forall|j: int| 0 <= j < i ==> (#[trigger] gb[j]).0 != key@,
            decreases n - i,
        {
            if str_eq_pair_key(&self.baggage, i, &key) {
                proof {
                    assert(gb[i as int].0 == key@);
                    lemma_key_index_scan(gb, key@, i as int);
                }
                self.baggage.remove(i);
                self.baggage.insert(i, (key, value));
                proof {
                    assert(baggage_view(self.baggage@) =~= gb.update(i as int, (key@, value@)));
                }
                return ;
            }
            proof {
                assert(gb[i as int].0 != key@);
            }
            i += 1;
        }
        proof {
            lemma_key_index_scan(gb, key@, n as int);
        }
        self.baggage.push((key, value));
        proof {
            assert(baggage_view(self.baggage@) =~= gb.push((key@, value@)));
        }
    }

    /// Inherit from a referenced context: debug, sampled and trace id are
    /// taken from it and the parent span id becomes its span id, while
    /// this context's own span id and baggage stay untouched. Child-of
    /// and follows-from references behave identically.
    pub fn reference_span(&mut self, reference: &SpanReference)
        ensures
            final(self)@ == (CtxView {
                trace_id: referenced_context(*reference)@.trace_id,
                debug: referenced_context(*reference)@.debug,
                sampled: referenced_context(*reference)@.sampled,
                parent_span_id: Some(referenced_context(*reference)@.span_id),
                ..old(self)@
            }),
    {
        match reference {
            SpanReference::ChildOf(other) | SpanReference::FollowsFrom(other) => {
                self.debug = other.debug;
                self.sampled = other.sampled;
                self.trace_id = other.trace_id;
                self.parent_span_id = Some(other.span_id);
            },
        }
    }
}

/// Compares the key of the `i`-th baggage item with `key`.
fn str_eq_pair_key(b: &Vec<(String, String)>, i: usize, key: &String) -> (r: bool)
    requires
        i < b@.len(),
    ensures
        r == (baggage_view(b@)[i as int].0 == key@),
{
    let pair = &b[i];
    pair.0.eq(key)
}

/// Additional options to seed a new span context with.
pub struct ZipkinContextOptions {
    pub debug: bool,
    pub sampled: bool,
    pub span_id: Option<u64>,
    pub trace_id: Option<TraceID>,
    pub parent_span_id: Option<u64>,
    pub baggage: Vec<(String, String)>,
}

impl ZipkinContextOptions {
    /// Sets the desired debug flag.
    pub fn debug(self, debug: bool) -> (r: ZipkinContextOptions)
        ensures
            r == (ZipkinContextOptions { debug, ..self }),
    {
        ZipkinContextOptions { debug, ..self }
    }

    /// Sets the desired sampling flag.
    pub fn sampled(self, sampled: bool) -> (r: ZipkinContextOptions)
        ensures
            r == (ZipkinContextOptions { sampled, ..self }),
    {
        ZipkinContextOptions { sampled, ..self }
    }

    /// Sets the desired span id.
    pub fn span_id(self, span_id: u64) -> (r: ZipkinContextOptions)
        ensures
            r == (ZipkinContextOptions { span_id: Some(span_id), ..self }),
    {
        ZipkinContextOptions { span_id: Some(span_id), ..self }
    }

    /// Sets the desired trace id.
    pub fn trace_id(self, trace_id: TraceID) -> (r: ZipkinContextOptions)
        ensures
            r == (ZipkinContextOptions { trace_id: Some(trace_id), ..self }),
    {
        ZipkinContextOptions { trace_id: Some(trace_id), ..self }
    }

    /// Sets the desired parent span id.
    pub fn parent_span_id(self, parent_span_id: u64) -> (r: ZipkinContextOptions)
        ensures
            r == (ZipkinContextOptions { parent_span_id: Some(parent_span_id), ..self }),
    {
        ZipkinContextOptions { parent_span_id: Some(parent_span_id), ..self }
    }

    /// Sets the starting baggage items.
    pub fn baggage(self, baggage: Vec<(String, String)>) -> (r: ZipkinContextOptions)
        ensures
            r == (ZipkinContextOptions { baggage, ..self }),
    {
        ZipkinContextOptions { baggage, ..self }
    }
}

impl Default for ZipkinContextOptions {
    /// The root-span defaults: not debug, sampled, nothing else set.
    fn default() -> (r: ZipkinContextOptions)
        ensures
            r.debug == false,
            r.sampled == true,
            r.span_id is None,
            r.trace_id is None,
            r.parent_span_id is None,
            r.baggage@ =~= Seq::<(String, String)>::empty(),
    {
        ZipkinContextOptions {
            debug: false,
            sampled: true,
            span_id: None,
            trace_id: None,
            parent_span_id: None,
            baggage: Vec::new(),
        }
    }
}

} // verus!
