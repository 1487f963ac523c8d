//! The per-dispatch context: a FIFO queue of platform actions that a peer asks
//! for while it is borrowed, run by the caller once the peer call returns.
use smallvec::SmallVec;
use vstd::prelude::*;

verus! {

/// A platform-facing action that runs after the peer call returns.
#[derive(Clone, Copy, Debug, PartialEq, Eq, Structural)]
pub enum DeferredAction {
    ShowSoftInput,
    HideSoftInput,
    RestartInput,
    /// Tell the input method where the selection and composing region are,
    /// in UTF-16 code units (-1 for no composing region).
    UpdateSelection { sel_start: i32, sel_end: i32, compose_start: i32, compose_end: i32 },
    PostFrameCallback,
    RemoveFrameCallback,
    PostDelayed { delay_ms: i64 },
    RemoveDelayedCallbacks,
    AccessibilityEvent { virtual_view_id: i32, event_type: i32 },
    /// Run the callback that the embedding layer keeps in `slot` of this
    /// dispatch: any other platform action, in its place in the queue.
    Callback { slot: u32 },
}

/// The most actions that one context holds: far more than one dispatch
/// queues, and few enough that the storage's size in bytes can never
/// overflow.
pub const MAX_DEFERRED: usize = 65536;

/// The queue's storage: a `smallvec::SmallVec` that keeps up to four actions
/// inline. Verus does not take a declaration of `SmallVec` itself (its
/// `Array` bound), so the vector sits in this opaque struct.
#[verifier::external_body]
pub struct DeferredQueue {
    inner: SmallVec<[DeferredAction; 4]>,
}

/// The actions that a queue holds, oldest first.
pub uninterp spec fn queued(q: DeferredQueue) -> Seq<DeferredAction>;

/// Relies on `SmallVec::new`: an empty vector.
#[verifier::external_body]
fn queue_new() -> (r: DeferredQueue)
    ensures
        queued(r) == Seq::<DeferredAction>::empty(),
{
    DeferredQueue { inner: SmallVec::new() }
}

/// Relies on `SmallVec::push`: appends at the end. When full it grows to the
/// next power of two above the length, and panics only when that capacity,
/// or its size in bytes, overflows; below `MAX_DEFERRED` items the capacity
/// stays at most 65536 small actions, so neither can happen.
#[verifier::external_body]
fn queue_push(q: &mut DeferredQueue, a: DeferredAction)
    requires
        queued(*old(q)).len() < MAX_DEFERRED,
    ensures
        queued(*final(q)) == queued(*old(q)).push(a),
{
    q.inner.push(a)
}

/// Relies on `SmallVec::len`: the number of items.
#[verifier::external_body]
fn queue_len(q: &DeferredQueue) -> (r: usize)
    ensures
        r == queued(*q).len(),
{
    q.inner.len()
}

/// Relies on `SmallVec::into_vec`: the same items, in order.
#[verifier::external_body]
fn queue_into_vec(q: DeferredQueue) -> (r: Vec<DeferredAction>)
    ensures
        r@ == queued(q),
{
    q.inner.into_vec()
}

/// The context handed to a peer for one dispatch.
pub struct CallbackCtx {
    deferred: DeferredQueue,
}

impl View for CallbackCtx {
    type V = Seq<DeferredAction>;

    closed spec fn view(&self) -> Seq<DeferredAction> {
        queued(self.deferred)
    }
}

impl CallbackCtx {
    /// A context with nothing queued.
    pub fn new() -> (r: CallbackCtx)
        ensures
            r@ == Seq::<DeferredAction>::empty(),
    {
        CallbackCtx { deferred: queue_new() }
    }

    /// Queues `action` to run after the peer call, after everything queued
    /// before it.
    pub fn push_static_deferred_callback(&mut self, action: DeferredAction)
        requires
            old(self)@.len() < MAX_DEFERRED,
        ensures
            final(self)@ == old(self)@.push(action),
    {
        queue_push(&mut self.deferred, action);
    }

    /// The number of queued actions.
    pub fn len(&self) -> (r: usize)
        ensures
            r == self@.len(),
    {
        queue_len(&self.deferred)
    }

    /// The queued actions, in the order in which they are to run.
    pub fn finish(self) -> (r: Vec<DeferredAction>)
        ensures
            r@ == self@,
    {
        queue_into_vec(self.deferred)
    }
}

/// A peer's result together with at most one action to run after it.
pub struct PeerResult<T> {
    result: T,
    deferred: Option<DeferredAction>,
}

impl<T> PeerResult<T> {
    pub closed spec fn result(&self) -> T {
        self.result
    }

    pub closed spec fn deferred(&self) -> Option<DeferredAction> {
        self.deferred
    }

    /// A result with no action after it.
    pub fn new(result: T) -> (r: PeerResult<T>)
        ensures
            r.result() == result,
            r.deferred() is None,
    {
        PeerResult { result, deferred: None }
    }

    /// A result with `action` to run after it.
    pub fn with_deferred_fn(result: T, action: DeferredAction) -> (r: PeerResult<T>)
        ensures
            r.result() == result,
            r.deferred() == Some(action),
    {
        PeerResult { result, deferred: Some(action) }
    }

    /// The result with `f` applied, the action kept.
    pub fn map<U, F: FnOnce(T) -> U>(self, f: F) -> (r: PeerResult<U>)
        requires
            f.requires((self.result(),)),
        ensures
            f.ensures((self.result(),), r.result()),
            r.deferred() == self.deferred(),
    {
        PeerResult { result: f(self.result), deferred: self.deferred }
    }

    /// Queues the action, if any, on `ctx` and hands back the result.
    pub fn finish(self, ctx: &mut CallbackCtx) -> (r: T)
        requires
            old(ctx)@.len() < MAX_DEFERRED,
        ensures
            r == self.result(),
            match self.deferred() {
                Some(a) => final(ctx)@ == old(ctx)@.push(a),
                None => final(ctx)@ == old(ctx)@,
            },
    {
        if let Some(a) = self.deferred {
            ctx.push_static_deferred_callback(a);
        }
        self.result
    }
}

} // verus!
