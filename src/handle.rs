//! The state of a connection to the driver: its registry of capture buffers,
//! the mode changes it has been told of, and the steps of an update request.
use vstd::prelude::*;

use crate::buffer::{Buffer, BufferID, BufferModel, DirtyRectModel, Mode, Rect, MAX_RECTS_BUFFER_LEN};
use crate::registry::{
    has_id, ids_unique, lemma_keys, lemma_lookup, lemma_push, lemma_remove, lemma_update, registry_of,
};

verus! {

/// What a handle holds, as plain values.
pub struct HandleModel {
    /// The registered buffers, by identifier.
    pub registry: Map<BufferID, BufferModel>,
    /// Mode changes delivered by the driver and not yet received, oldest first.
    pub modes: Seq<Mode>,
}

/// What the driver reported during an update request.
#[derive(Debug, Copy, Clone, PartialEq, Eq, Structural)]
pub enum UpdateEvent {
    /// The driver answered the request; `ready` if the pixels can be grabbed
    /// at once.
    Answered { ready: bool },
    /// The driver's events were dispatched once.
    EventsPumped,
}

/// What to do next for an update request.
#[derive(Debug, Copy, Clone, PartialEq, Eq, Structural)]
pub enum UpdateAction {
    /// Dispatch the driver's events, then report `EventsPumped`.
    PumpEvents,
    /// Grab the pixels into the buffer, then call `complete_update`.
    Grab,
    /// No notification came: once the timeout has passed, the request fails.
    TimedOut,
}

/// The connection's registry of buffers and its pending mode changes.
///
/// At most one update request is in progress at a time: each step takes the
/// handle by exclusive reference.
#[derive(Debug)]
pub struct Handle {
    buffers: Vec<Buffer>,
    modes: Vec<Mode>,
}

impl View for Handle {
    type V = HandleModel;

    closed spec fn view(&self) -> HandleModel {
        HandleModel { registry: registry_of(self.models()), modes: self.modes@ }
    }
}

/// The registry after an update of `id` was requested: its version is one
/// more, and no notification is pending for it; all else is as it was.
pub open spec fn update_requested(before: HandleModel, after: HandleModel, id: BufferID) -> bool {
    let b = before.registry[id];
    &&& after.modes == before.modes
    &&& after.registry == before.registry.insert(
        id,
        BufferModel { version: b.version + 1, ready: false, ..b },
    )
}

/// The action `update_step` decides on for `event`.
pub open spec fn step_action(h: HandleModel, id: BufferID, event: UpdateEvent) -> UpdateAction {
    match event {
        UpdateEvent::Answered { ready } => if ready {
            UpdateAction::Grab
        } else {
            UpdateAction::PumpEvents
        },
        UpdateEvent::EventsPumped => if h.registry[id].ready {
            UpdateAction::Grab
        } else {
            UpdateAction::TimedOut
        },
    }
}

/// The registry after `update_step` for `event`: a notification is taken
/// once events were dispatched; nothing else changes.
pub open spec fn step_registry(h: HandleModel, id: BufferID, event: UpdateEvent) -> Map<
    BufferID,
    BufferModel,
> {
    match event {
        UpdateEvent::Answered { .. } => h.registry,
        UpdateEvent::EventsPumped => h.registry.insert(
            id,
            BufferModel { ready: false, ..h.registry[id] },
        ),
    }
}

/// The registry after the driver's update-ready notification for `id`.
pub open spec fn notified(h: HandleModel, id: BufferID) -> Map<BufferID, BufferModel> {
    if h.registry.dom().contains(id) {
        h.registry.insert(id, BufferModel { ready: true, ..h.registry[id] })
    } else {
        h.registry
    }
}

impl HandleModel {
    /// Each buffer is registered under its own identifier.
    pub open spec fn keys_match(self) -> bool {
        forall|id: BufferID| #[trigger] self.registry.dom().contains(id) ==> self.registry[id].id
            == id
    }
}

/// What `receive_mode` hands out: the oldest pending mode change, if any.
pub open spec fn next_mode(h: HandleModel) -> Option<Mode> {
    if h.modes.len() == 0 {
        None
    } else {
        Some(h.modes[0])
    }
}

impl Handle {
    closed spec fn models(&self) -> Seq<BufferModel> {
        self.buffers@.map_values(|b: Buffer| b@)
    }

    /// Every registered buffer is well formed and no two share an identifier.
    pub closed spec fn wf(&self) -> bool {
        &&& ids_unique(self.models())
        &&& forall|i: int| 0 <= i < self.buffers@.len() ==> (#[trigger] self.buffers@[i]).wf()
    }

    /// Each buffer of a well-formed handle is registered under its own
    /// identifier.
    pub proof fn lemma_keys_match(&self)
        requires
            self.wf(),
        ensures
            self@.keys_match(),
    {
        lemma_keys(self.models());
    }

    /// A handle with no buffers and no mode changes.
    pub fn new() -> (r: Handle)
        ensures
            r.wf(),
            r@.registry == Map::<BufferID, BufferModel>::empty(),
            r@.modes == Seq::<Mode>::empty(),
    {
        let r = Handle { buffers: Vec::new(), modes: Vec::new() };
        assert(r@.registry =~= Map::<BufferID, BufferModel>::empty());
        r
    }

    /// The position of the buffer registered under `id`, if any.
    fn position(&self, id: &BufferID) -> (r: Option<usize>)
        requires
            self.wf(),
        ensures
            match r {
                Some(i) => i < self.buffers@.len() && self.models()[i as int].id == *id,
                None => !has_id(self.models(), *id),
            },
    {
        let mut i: usize = 0;
        while i < self.buffers.len()
            invariant
                i <= self.buffers@.len(),
                forall|k: int| 0 <= k < i ==> (#[trigger] self.models()[k]).id != *id,
            decreases self.buffers@.len() - i,
        {
            if self.buffers[i].id() == *id {
                return Some(i);
            }
            i = i + 1;
        }
        None
    }

    /// Whether a buffer is registered under `id`.
    pub fn is_registered(&self, id: &BufferID) -> (r: bool)
        requires
            self.wf(),
        ensures
            r == self@.registry.dom().contains(*id),
    {
        self.position(id).is_some()
    }

    /// Replaces the buffer at `i` by `b`, of the same identifier.
    fn replace(&mut self, i: usize, b: Buffer)
        requires
            old(self).wf(),
            i < old(self).buffers@.len(),
            b.wf(),
            b@.id == old(self).models()[i as int].id,
        ensures
            final(self).wf(),
            final(self)@.modes == old(self)@.modes,
            final(self)@.registry == old(self)@.registry.insert(b@.id, b@),
            final(self).buffers@.len() == old(self).buffers@.len(),
    {
        proof {
            lemma_update(self.models(), i as int, b@);
        }
        let ghost s = self.models();
        self.buffers.set(i, b);
        assert(self.models() =~= s.update(i as int, b@));
    }

    /// Registers `buffer` under its identifier, in place of any buffer
    /// registered under it before.
    pub fn register_buffer(&mut self, buffer: Buffer)
        requires
            old(self).wf(),
            buffer.wf(),
        ensures
            final(self).wf(),
            final(self)@.modes == old(self)@.modes,
            final(self)@.registry == old(self)@.registry.insert(buffer@.id, buffer@),
    {
        match self.position(&buffer.id()) {
            Some(i) => {
                self.replace(i, buffer);
            },
            None => {
                proof {
                    lemma_push(self.models(), buffer@);
                }
                let ghost s = self.models();
                let ghost bm = buffer@;
                self.buffers.push(buffer);
                assert(self.models() =~= s.push(bm));
            },
        }
    }

    /// Unregisters the buffer under `id`. Returns whether one was registered,
    /// that is whether the driver must be told to release it.
    pub fn unregister_buffer(&mut self, id: BufferID) -> (r: bool)
        requires
            old(self).wf(),
        ensures
            final(self).wf(),
            r == old(self)@.registry.dom().contains(id),
            final(self)@.modes == old(self)@.modes,
            final(self)@.registry == old(self)@.registry.remove(id),
    {
        match self.position(&id) {
            Some(i) => {
                proof {
                    lemma_remove(self.models(), i as int);
                }
                let ghost s = self.models();
                let _removed = self.buffers.remove(i);
                assert(self.models() =~= s.remove(i as int));
                true
            },
            None => {
                assert(self@.registry =~= self@.registry.remove(id));
                false
            },
        }
    }

    /// The buffer registered under `id`.
    pub fn buf_required(&self, id: &BufferID) -> (r: &Buffer)
        requires
            self.wf(),
            self@.registry.dom().contains(*id),
        ensures
            r.wf(),
            r@ == self@.registry[*id],
            r@.id == *id,
    {
        let i = self.position(id).unwrap();
        proof {
            lemma_lookup(self.models(), i as int);
        }
        &self.buffers[i]
    }
}

impl Handle {
    /// Takes the buffer at `i` out of the vector, to be put back by `put_back`.
    fn take_out(&mut self, i: usize) -> (b: Buffer)
        requires
            old(self).wf(),
            i < old(self).buffers@.len(),
        ensures
            b.wf(),
            b@ == old(self).models()[i as int],
            final(self).buffers@ == old(self).buffers@.remove(i as int),
            final(self).modes@ == old(self).modes@,
    {
        self.buffers.remove(i)
    }

    /// Puts back at `i` a buffer taken out by `take_out`, of the same
    /// identifier.
    proof fn lemma_put_back(before: &Handle, after: &Handle, i: int, b: Buffer)
        requires
            before.wf(),
            0 <= i < before.buffers@.len(),
            b.wf(),
            b@.id == before.models()[i].id,
            after.buffers@ == before.buffers@.remove(i).insert(i, b),
            after.modes@ == before.modes@,
        ensures
            after.wf(),
            after@.modes == before@.modes,
            after@.registry == before@.registry.insert(b@.id, b@),
    {
        lemma_update(before.models(), i, b@);
        assert(after.buffers@ =~= before.buffers@.update(i, b));
        assert(after.models() =~= before.models().update(i, b@));
    }

    /// Starts an update of the buffer under `id`: its version grows by one at
    /// once, before the driver may write to it, so that every view made
    /// before is invalid from now on; a notification left from an earlier
    /// request is dropped. The driver is then to be asked for the update, and
    /// its answer reported to `update_step`.
    pub fn request_update(&mut self, id: &BufferID)
        requires
            old(self).wf(),
            old(self)@.registry.dom().contains(*id),
            old(self)@.registry[*id].version < u64::MAX,
        ensures
            final(self).wf(),
            update_requested(old(self)@, final(self)@, *id),
    {
        let i = self.position(id).unwrap();
        proof {
            lemma_lookup(self.models(), i as int);
        }
        let ghost before = *self;
        let mut b = self.take_out(i);
        b.mark_updated();
        let _stale = b.take_ready();
        self.buffers.insert(i, b);
        proof {
            Self::lemma_put_back(&before, self, i as int, b);
        }
    }

    /// Decides the next step of the update of `id` from what the driver
    /// reported: grab when the driver answered ready, or when the dispatched
    /// events brought the buffer's notification (which is then taken);
    /// otherwise dispatch events, or, once they were dispatched, time out.
    pub fn update_step(&mut self, id: &BufferID, event: UpdateEvent) -> (r: UpdateAction)
        requires
            old(self).wf(),
            old(self)@.registry.dom().contains(*id),
        ensures
            final(self).wf(),
            final(self)@.modes == old(self)@.modes,
            r == step_action(old(self)@, *id, event),
            final(self)@.registry == step_registry(old(self)@, *id, event),
    {
        match event {
            UpdateEvent::Answered { ready } => {
                if ready {
                    UpdateAction::Grab
                } else {
                    UpdateAction::PumpEvents
                }
            },
            UpdateEvent::EventsPumped => {
                let i = self.position(id).unwrap();
                proof {
                    lemma_lookup(self.models(), i as int);
                }
                let ghost before = *self;
                let mut b = self.take_out(i);
                let notified = b.take_ready();
                self.buffers.insert(i, b);
                proof {
                    Self::lemma_put_back(&before, self, i as int, b);
                }
                if notified {
                    UpdateAction::Grab
                } else {
                    UpdateAction::TimedOut
                }
            },
        }
    }

    /// Stores in the buffer under `id` what the driver's grab wrote (the
    /// rectangle slots, how many it populated, and the pixels), and returns
    /// the updated buffer.
    pub fn complete_update(
        &mut self,
        id: &BufferID,
        rects: &Vec<Rect>,
        num_rects: i32,
        pixels: &Vec<u8>,
    ) -> (r: &Buffer)
        requires
            old(self).wf(),
            old(self)@.registry.dom().contains(*id),
            rects@.len() == MAX_RECTS_BUFFER_LEN,
            num_rects <= MAX_RECTS_BUFFER_LEN,
            pixels@.len() == old(self)@.registry[*id].pixels.len(),
        ensures
            final(self).wf(),
            final(self)@.modes == old(self)@.modes,
            final(self)@.registry == old(self)@.registry.insert(
                *id,
                BufferModel {
                    rects: rects@,
                    num_rects: num_rects as int,
                    pixels: pixels@,
                    ..old(self)@.registry[*id]
                },
            ),
            r.wf(),
            r@ == final(self)@.registry[*id],
            r@.id == *id,
    {
        let i = self.position(id).unwrap();
        proof {
            lemma_lookup(self.models(), i as int);
        }
        let ghost before = *self;
        let mut b = self.take_out(i);
        b.store_capture(rects, num_rects, pixels);
        self.buffers.insert(i, b);
        proof {
            Self::lemma_put_back(&before, self, i as int, b);
        }
        self.buf_required(id)
    }

    /// Delivers the driver's update-ready notification for buffer `buf`.
    /// Returns `false` when no buffer is registered under it: the
    /// notification is then dropped.
    pub fn update_ready_handler(&mut self, buf: i32) -> (r: bool)
        requires
            old(self).wf(),
        ensures
            final(self).wf(),
            r == old(self)@.registry.dom().contains(BufferID(buf)),
            final(self)@.modes == old(self)@.modes,
            final(self)@.registry == notified(old(self)@, BufferID(buf)),
    {
        let id = BufferID(buf);
        match self.position(&id) {
            Some(i) => {
                proof {
                    lemma_lookup(self.models(), i as int);
                }
                let ghost before = *self;
                let mut b = self.take_out(i);
                b.set_ready();
                self.buffers.insert(i, b);
                proof {
                    Self::lemma_put_back(&before, self, i as int, b);
                }
                true
            },
            None => false,
        }
    }

    /// Delivers the driver's mode-change notification: it waits behind those
    /// delivered before.
    pub fn mode_changed_handler(&mut self, mode: Mode)
        requires
            old(self).wf(),
        ensures
            final(self).wf(),
            final(self)@.registry == old(self)@.registry,
            final(self)@.modes == old(self)@.modes.push(mode),
    {
        self.modes.push(mode);
    }

    /// Receives the oldest pending mode change, or `None` when there is none.
    pub fn receive_mode(&mut self) -> (r: Option<Mode>)
        requires
            old(self).wf(),
        ensures
            final(self).wf(),
            r == next_mode(old(self)@),
            final(self)@.registry == old(self)@.registry,
            final(self)@.modes == if old(self)@.modes.len() == 0 {
                old(self)@.modes
            } else {
                old(self)@.modes.drop_first()
            },
    {
        if self.modes.len() == 0 {
            None
        } else {
            Some(self.modes.remove(0))
        }
    }
}

/// Requesting an update of a buffer invalidates every view made of it up to
/// then, at once and whether or not the capture completes: the buffer's
/// version moves past the view's.
pub proof fn lemma_request_invalidates(
    before: HandleModel,
    after: HandleModel,
    id: BufferID,
    v: DirtyRectModel,
)
    requires
        before.registry.dom().contains(id),
        update_requested(before, after, id),
        v.version <= before.registry[id].version,
    ensures
        after.registry.dom().contains(id),
        after.registry[id].version == before.registry[id].version + 1,
        v.version < after.registry[id].version,
        !(DirtyRectModel { buffer: after.registry[id], ..v }).valid(),
{
}

/// Once a view of a later capture of a buffer exists and is valid, a view of
/// an earlier capture of it is invalid.
pub proof fn lemma_newer_view_invalidates(v1: DirtyRectModel, v2: DirtyRectModel)
    requires
        v1.version < v2.version,
        v2.valid(),
    ensures
        !(DirtyRectModel { buffer: v2.buffer, ..v1 }).valid(),
{
}

/// After a buffer is registered and then unregistered, no buffer is
/// registered under its identifier, so no update of it may be requested.
pub proof fn lemma_unregister_removes(
    h0: HandleModel,
    h1: HandleModel,
    h2: HandleModel,
    b: BufferModel,
)
    requires
        h1.registry == h0.registry.insert(b.id, b),
        h2.registry == h1.registry.remove(b.id),
    ensures
        !h2.registry.dom().contains(b.id),
{
}

/// Whatever the driver reports after an update was requested, the buffer's
/// version stays one more than before the request, so every view made before
/// it stays invalid, whether the capture completes or times out.
pub proof fn lemma_invalid_whatever_step(
    h0: HandleModel,
    h1: HandleModel,
    h2: HandleModel,
    id: BufferID,
    event: UpdateEvent,
    v: DirtyRectModel,
)
    requires
        h0.registry.dom().contains(id),
        update_requested(h0, h1, id),
        h2.registry == step_registry(h1, id, event),
        v.version <= h0.registry[id].version,
    ensures
        h2.registry.dom().contains(id),
        h2.registry[id].version == h0.registry[id].version + 1,
        !(DirtyRectModel { buffer: h2.registry[id], ..v }).valid(),
{
}

/// With a responsive driver every update request reaches the grab: when the
/// driver answers ready, or when it delivers the buffer's notification while
/// events are dispatched. A notification from before the request does not
/// count: without a new one, dispatching events ends in a time-out.
pub proof fn lemma_responsive_driver_grabs(
    h0: HandleModel,
    h1: HandleModel,
    h2: HandleModel,
    id: BufferID,
)
    requires
        h0.registry.dom().contains(id),
        update_requested(h0, h1, id),
        h2.registry == notified(h1, id),
    ensures
        step_action(h1, id, UpdateEvent::Answered { ready: true }) == UpdateAction::Grab,
        step_action(h1, id, UpdateEvent::EventsPumped) == UpdateAction::TimedOut,
        step_action(h2, id, UpdateEvent::EventsPumped) == UpdateAction::Grab,
{
}

/// With no mode change delivered, as on a new handle whose events were
/// never dispatched, `receive_mode` receives nothing.
pub proof fn lemma_no_mode_without_events(h: HandleModel)
    requires
        h.modes.len() == 0,
    ensures
        next_mode(h) is None,
{
}

} // verus!
