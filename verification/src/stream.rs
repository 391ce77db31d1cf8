//! The streaming session: turns the upstream token stream into a
//! terminating, ordered event sequence for the UI boundary.
//!
//! The machine has two live states — streaming and terminated — plus the
//! gate in [`StreamSession::start`]: a relay request without a resolved,
//! non-empty credential never enters streaming and is reported at once as a
//! precondition failure, before any upstream connection is opened.
//!
//! While streaming, each upstream item maps to at most one event: a chunk
//! with non-empty text becomes a `Content` event in arrival order; a chunk
//! with no text is suppressed; a transport error becomes the single
//! terminal `Error` event and ends the session, which then consumes nothing
//! further. Natural end of stream becomes the single terminal `Complete`
//! event. Terminated is absorbing: nothing is emitted after the terminal
//! event.

use vstd::prelude::*;

use crate::error::{ConfigError, ErrorKind};

verus! {

/// One item from the upstream token stream.
pub enum UpstreamItem {
    /// A delivered chunk, possibly without a text payload.
    Chunk(Option<String>),
    /// A transport or protocol failure.
    TransportError(String),
}

/// View of an [`UpstreamItem`].
pub enum UpstreamItemView {
    Chunk(Option<Seq<char>>),
    TransportError(Seq<char>),
}

impl View for UpstreamItem {
    type V = UpstreamItemView;

    open spec fn view(&self) -> UpstreamItemView {
        match self {
            UpstreamItem::Chunk(t) => UpstreamItemView::Chunk(
                match t {
                    Some(s) => Some(s@),
                    None => None,
                },
            ),
            UpstreamItem::TransportError(e) => UpstreamItemView::TransportError(e@),
        }
    }
}

/// One event delivered to the UI boundary: zero or more `Content`, then
/// exactly one terminal `Error` or `Complete`.
#[derive(Clone)]
pub enum StreamMessage {
    Content(String),
    Error(String),
    Complete,
}

/// View of a [`StreamMessage`].
pub enum StreamMessageView {
    Content(Seq<char>),
    Error(Seq<char>),
    Complete,
}

impl View for StreamMessage {
    type V = StreamMessageView;

    open spec fn view(&self) -> StreamMessageView {
        match self {
            StreamMessage::Content(s) => StreamMessageView::Content(s@),
            StreamMessage::Error(e) => StreamMessageView::Error(e@),
            StreamMessage::Complete => StreamMessageView::Complete,
        }
    }
}

/// The event, if any, one upstream item produces in the streaming state,
/// and whether the session terminates on it.
pub open spec fn step_of(item: UpstreamItemView) -> (Option<StreamMessageView>, bool) {
    match item {
        UpstreamItemView::Chunk(t) => match t {
            Some(s) => if s.len() > 0 {
                (Some(StreamMessageView::Content(s)), false)
            } else {
                (None, false)
            },
            None => (None, false),
        },
        UpstreamItemView::TransportError(e) => (Some(StreamMessageView::Error(e)), true),
    }
}

/// The full event sequence a finite upstream sequence produces: contents of
/// the non-empty chunks in arrival order, cut off by the first transport
/// error's single `Error` event, else closed by a single `Complete`.
pub open spec fn relay_spec(items: Seq<UpstreamItemView>) -> Seq<StreamMessageView>
    decreases items.len(),
{
    if items.len() == 0 {
        seq![StreamMessageView::Complete]
    } else {
        match step_of(items[0]) {
            (ev, true) => seq![StreamMessageView::Error(items[0]->TransportError_0)],
            (Some(ev), false) => seq![ev] + relay_spec(items.drop_first()),
            (None, false) => relay_spec(items.drop_first()),
        }
    }
}

/// The `Content` events of the non-empty chunks, in arrival order.
pub open spec fn content_events(items: Seq<UpstreamItemView>) -> Seq<StreamMessageView>
    decreases items.len(),
{
    if items.len() == 0 {
        Seq::empty()
    } else {
        (match items[0] {
            UpstreamItemView::Chunk(Some(s)) => if s.len() > 0 {
                seq![StreamMessageView::Content(s)]
            } else {
                Seq::empty()
            },
            _ => Seq::empty(),
        }) + content_events(items.drop_first())
    }
}

/// An event is terminal.
pub open spec fn is_terminal(ev: StreamMessageView) -> bool {
    ev is Error || ev is Complete
}

/// A well-formed event sequence: zero or more `Content` events followed by
/// exactly one terminal event, and nothing after it.
pub open spec fn wf_events(evs: Seq<StreamMessageView>) -> bool {
    &&& evs.len() >= 1
    &&& is_terminal(evs.last())
    &&& forall|i: int| 0 <= i < evs.len() - 1 ==> #[trigger] evs[i] is Content
}

/// View of a [`StreamSession`].
pub struct StreamSessionView {
    pub credential: Seq<char>,
    pub model: Seq<char>,
    pub terminated: bool,
}

/// A streaming session: the resolved credential and model it was opened
/// with, and whether its terminal event has been emitted.
#[derive(Debug)]
pub struct StreamSession {
    credential: String,
    model: String,
    terminated: bool,
}

impl View for StreamSession {
    type V = StreamSessionView;

    closed spec fn view(&self) -> StreamSessionView {
        StreamSessionView {
            credential: self.credential@,
            model: self.model@,
            terminated: self.terminated,
        }
    }
}

impl StreamSession {
    /// Opens a session. Requires a resolved credential: an absent or empty
    /// one is a precondition failure, reported before any stream exists.
    pub fn start(credential: Option<String>, model: String) -> (r: Result<
        StreamSession,
        ConfigError,
    >)
        ensures
            ({
                let live = credential matches Some(c) && c@.len() > 0;
                &&& live ==> (r matches Ok(s) && s@.credential == credential->Some_0@ && s@.model
                    == model@ && !s@.terminated)
                &&& !live ==> (r matches Err(e) && e.kind == ErrorKind::PreconditionFailed)
            }),
    {
        match credential {
            Some(c) => {
                if c.as_str().is_empty() {
                    Err(
                        ConfigError::new(
                            ErrorKind::PreconditionFailed,
                            "No API key configured".to_owned(),
                        ),
                    )
                } else {
                    Ok(StreamSession { credential: c, model, terminated: false })
                }
            },
            None => Err(
                ConfigError::new(ErrorKind::PreconditionFailed, "No API key configured".to_owned()),
            ),
        }
    }

    /// The credential the session was opened with.
    pub fn credential(&self) -> (r: &String)
        ensures
            r@ == self@.credential,
    {
        &self.credential
    }

    /// The model the session was opened with.
    pub fn model(&self) -> (r: &String)
        ensures
            r@ == self@.model,
    {
        &self.model
    }

    /// Whether the terminal event has been emitted.
    pub fn is_terminated(&self) -> (r: bool)
        ensures
            r == self@.terminated,
    {
        self.terminated
    }

    /// Feeds one upstream item through the session: returns the event to
    /// deliver, if any, exactly as [`step_of`] states. Once terminated the
    /// session absorbs everything and emits nothing.
    pub fn step(&mut self, item: UpstreamItem) -> (r: Option<StreamMessage>)
        ensures
            final(self)@.credential == old(self)@.credential,
            final(self)@.model == old(self)@.model,
            old(self)@.terminated ==> (r is None && final(self)@.terminated),
            !old(self)@.terminated ==> ({
                let (ev, term) = step_of(item@);
                &&& final(self)@.terminated == term
                &&& (match r {
                    Some(m) => Some(m@),
                    None => None,
                }) == ev
            }),
    {
        if self.terminated {
            return None;
        }
        match item {
            UpstreamItem::Chunk(t) => match t {
                Some(s) => {
                    if s.as_str().is_empty() {
                        None
                    } else {
                        Some(StreamMessage::Content(s))
                    }
                },
                None => None,
            },
            UpstreamItem::TransportError(e) => {
                self.terminated = true;
                Some(StreamMessage::Error(e))
            },
        }
    }

    /// Closes the session on natural end of upstream: the single `Complete`
    /// event, or nothing if a terminal event was already emitted.
    pub fn finish(&mut self) -> (r: Option<StreamMessage>)
        ensures
            final(self)@.credential == old(self)@.credential,
            final(self)@.model == old(self)@.model,
            final(self)@.terminated,
            old(self)@.terminated ==> r is None,
            !old(self)@.terminated ==> (r matches Some(m) && m@ == StreamMessageView::Complete),
    {
        if self.terminated {
            None
        } else {
            self.terminated = true;
            Some(StreamMessage::Complete)
        }
    }

    /// Relays a whole finite upstream sequence: the events are exactly
    /// [`relay_spec`] of the items. Consumption stops at the first
    /// transport error.
    pub fn relay(&mut self, items: Vec<UpstreamItem>) -> (r: Vec<StreamMessage>)
        requires
            !old(self)@.terminated,
        ensures
            final(self)@.credential == old(self)@.credential,
            final(self)@.model == old(self)@.model,
            final(self)@.terminated,
            r@.map_values(|m: StreamMessage| m@) == relay_spec(
                items@.map_values(|it: UpstreamItem| it@),
            ),
    {
        let ghost vs = items@.map_values(|it: UpstreamItem| it@);
        let mut out: Vec<StreamMessage> = Vec::new();
        let mut items = items;
        while items.len() > 0 && !self.terminated
            invariant
                self@.credential == old(self)@.credential,
                self@.model == old(self)@.model,
                !self@.terminated ==> relay_spec(vs) == out@.map_values(|m: StreamMessage| m@)
                    + relay_spec(items@.map_values(|it: UpstreamItem| it@)),
                self@.terminated ==> relay_spec(vs) == out@.map_values(|m: StreamMessage| m@),
            decreases items@.len(),
        {
            let ghost rest = items@.map_values(|it: UpstreamItem| it@);
            let ghost out0 = out@;
            let item = items.remove(0);
            proof {
                assert(rest.len() > 0);
                assert(rest[0] == item@);
                assert(items@.map_values(|it: UpstreamItem| it@) =~= rest.drop_first());
            }
            let ev = self.step(item);
            match ev {
                Some(m) => {
                    out.push(m);
                    proof {
                        assert(out@.map_values(|m: StreamMessage| m@) =~= out0.map_values(
                            |m: StreamMessage| m@,
                        ) + seq![out@[out@.len() - 1]@]);
                    }
                },
                None => {
                },
            }
        }
        proof {
            if !self@.terminated {
                assert(items@.len() == 0);
                assert(items@.map_values(|it: UpstreamItem| it@)
                    =~= Seq::<UpstreamItemView>::empty());
            }
        }
        match self.finish() {
            Some(m) => {
                let ghost out0 = out@;
                out.push(m);
                proof {
                    assert(out@.map_values(|m: StreamMessage| m@) =~= out0.map_values(
                        |m: StreamMessage| m@,
                    ) + seq![StreamMessageView::Complete]);
                }
            },
            None => {
            },
        }
        out
    }
}

// ---------------------------------------------------------------------------
// Laws.
// ---------------------------------------------------------------------------

/// Every relayed sequence is well formed: zero or more `Content` events,
/// then exactly one terminal event, and nothing after it.
pub proof fn lemma_relay_well_formed(items: Seq<UpstreamItemView>)
    ensures
        wf_events(relay_spec(items)),
    decreases items.len(),
{
    if items.len() == 0 {
    } else {
        lemma_relay_well_formed(items.drop_first());
        let evs = relay_spec(items);
        let rest = relay_spec(items.drop_first());
        match step_of(items[0]) {
            (ev, true) => {
            },
            (Some(ev), false) => {
                assert(evs.last() == rest.last());
                assert forall|i: int| 0 <= i < evs.len() - 1 implies #[trigger] evs[i]
                    is Content by {
                    if i > 0 {
                        assert(evs[i] == rest[i - 1]);
                    }
                }
            },
            (None, false) => {
            },
        }
    }
}

/// Termination on a clean stream: a finite upstream sequence of chunks,
/// ending normally, relays to the `Content` events of its non-empty chunks
/// in arrival order followed by exactly one `Complete` — and nothing after.
pub proof fn lemma_stream_termination(items: Seq<UpstreamItemView>)
    requires
        forall|i: int| 0 <= i < items.len() ==> #[trigger] items[i] is Chunk,
    ensures
        relay_spec(items) == content_events(items) + seq![StreamMessageView::Complete],
    decreases items.len(),
{
    if items.len() == 0 {
        assert(relay_spec(items) =~= content_events(items) + seq![StreamMessageView::Complete]);
    } else {
        assert(items[0] is Chunk);
        lemma_stream_termination(items.drop_first());
        assert(relay_spec(items) =~= content_events(items) + seq![StreamMessageView::Complete]);
    }
}

/// Error cut-off: if the upstream sequence fails at position `k` after `k`
/// chunks, the relay emits exactly the `Content` events of the first `k`
/// chunks (empty ones suppressed) followed by exactly one `Error` carrying
/// the failure description — and nothing after.
pub proof fn lemma_stream_error(items: Seq<UpstreamItemView>, k: int)
    requires
        0 <= k < items.len(),
        items[k] is TransportError,
        forall|i: int| 0 <= i < k ==> #[trigger] items[i] is Chunk,
    ensures
        relay_spec(items) == content_events(items.take(k)) + seq![
            StreamMessageView::Error(items[k]->TransportError_0),
        ],
    decreases k,
{
    if k == 0 {
        assert(content_events(items.take(0)) =~= Seq::<StreamMessageView>::empty());
        assert(relay_spec(items) =~= content_events(items.take(0)) + seq![
            StreamMessageView::Error(items[0]->TransportError_0),
        ]);
    } else {
        assert(items[0] is Chunk);
        lemma_stream_error(items.drop_first(), k - 1);
        assert(items.drop_first()[k - 1] == items[k]);
        assert(items.drop_first().take(k - 1) =~= items.take(k).drop_first());
        assert(relay_spec(items) =~= content_events(items.take(k)) + seq![
            StreamMessageView::Error(items[k]->TransportError_0),
        ]);
    }
}

} // verus!
