use vstd::prelude::*;
use vstd::multiset::Multiset;

verus! {

/// The step of the frame slot after a present: the next slot, wrapping after the last.
pub open spec fn next_slot(id: nat, count: nat) -> nat {
    (id + 1) % count
}

/// The frame slot after `k` presents starting from slot `id`.
pub open spec fn slot_after(id: nat, count: nat, k: nat) -> nat
    decreases k,
{
    if k == 0 {
        id
    } else {
        next_slot(slot_after(id, count, (k - 1) as nat), count)
    }
}

/// What a `FrameSync` holds: per-frame fences, per-image semaphores and the
/// pool of semaphores handed to image acquisition, with the current indices.
pub struct FrameSyncView<S, F> {
    pub image_available: Seq<S>,
    pub render_finished: Seq<S>,
    pub fences: Seq<F>,
    pub acquire_semaphores: Seq<S>,
    pub frame_count: nat,
    pub frame_id: nat,
    pub acquired_image_index: nat,
    pub acquire_sem_idx: nat,
}

impl<S, F> FrameSyncView<S, F> {
    /// Every list has one entry per frame and every index is in range.
    pub open spec fn wf(self) -> bool {
        &&& 0 < self.frame_count <= u32::MAX
        &&& self.image_available.len() == self.frame_count
        &&& self.render_finished.len() == self.frame_count
        &&& self.fences.len() == self.frame_count
        &&& self.acquire_semaphores.len() == self.frame_count
        &&& self.frame_id < self.frame_count
        &&& self.acquired_image_index < self.frame_count
        &&& self.acquire_sem_idx < self.frame_count
    }

    /// The state after image `i` was acquired with the next pool semaphore: that
    /// semaphore is bound to the image, the image's previous one returns to the
    /// pool in its place and the next pool semaphore is chosen.
    pub open spec fn after_acquire(self, i: nat) -> Self {
        let j = self.acquire_sem_idx as int;
        FrameSyncView {
            image_available: self.image_available.update(i as int, self.acquire_semaphores[j]),
            acquire_semaphores: self.acquire_semaphores.update(j, self.image_available[i as int]),
            acquire_sem_idx: next_slot(self.acquire_sem_idx, self.frame_count),
            acquired_image_index: i,
            ..self
        }
    }

    /// The state after the acquired image was presented: the next frame slot.
    pub open spec fn after_present(self) -> Self {
        FrameSyncView { frame_id: next_slot(self.frame_id, self.frame_count), ..self }
    }

    /// The fence of the current frame slot.
    pub open spec fn fence(self) -> F {
        self.fences[self.frame_id as int]
    }

    /// The pool semaphore handed to the next acquisition.
    pub open spec fn next_acquire(self) -> S {
        self.acquire_semaphores[self.acquire_sem_idx as int]
    }

    /// The semaphore the submission waits on.
    pub open spec fn wait(self) -> S {
        self.image_available[self.acquired_image_index as int]
    }

    /// The semaphore the submission signals and the present waits on.
    pub open spec fn signal(self) -> S {
        self.render_finished[self.acquired_image_index as int]
    }

    /// All the semaphores used to wait for an acquired image, bound to an image or not.
    pub open spec fn acquire_pool(self) -> Multiset<S> {
        (self.image_available + self.acquire_semaphores).to_multiset()
    }
}

/// Synchronisation state of the frames in flight: which frame slot is being
/// recorded, which swapchain image was acquired for it, and the semaphores and
/// fences that order the work of each.
pub struct FrameSync<S, F> {
    image_available: Vec<S>,
    render_finished: Vec<S>,
    fences: Vec<F>,
    acquire_semaphores: Vec<S>,
    frame_count: u32,
    frame_id: u32,
    acquired_image_index: u32,
    acquire_sem_idx: u32,
}

impl<S, F> View for FrameSync<S, F> {
    type V = FrameSyncView<S, F>;

    closed spec fn view(&self) -> FrameSyncView<S, F> {
        FrameSyncView {
            image_available: self.image_available@,
            render_finished: self.render_finished@,
            fences: self.fences@,
            acquire_semaphores: self.acquire_semaphores@,
            frame_count: self.frame_count as nat,
            frame_id: self.frame_id as nat,
            acquired_image_index: self.acquired_image_index as nat,
            acquire_sem_idx: self.acquire_sem_idx as nat,
        }
    }
}

impl<S: Copy, F: Copy> FrameSync<S, F> {
    /// Synchronisation for `image_available.len()` frames, starting at slot 0
    /// with image 0 acquired and the first pool semaphore next for acquisition.
    /// With no frames the state holds nothing and is not well formed: no frame
    /// can be acquired, submitted or presented with it.
    pub fn new(
        image_available: Vec<S>,
        render_finished: Vec<S>,
        fences: Vec<F>,
        acquire_semaphores: Vec<S>,
    ) -> (r: Self)
        requires
            image_available@.len() <= u32::MAX,
            render_finished@.len() == image_available@.len(),
            fences@.len() == image_available@.len(),
            acquire_semaphores@.len() == image_available@.len(),
        ensures
            r@ == (FrameSyncView {
                image_available: image_available@,
                render_finished: render_finished@,
                fences: fences@,
                acquire_semaphores: acquire_semaphores@,
                frame_count: image_available@.len(),
                frame_id: 0,
                acquired_image_index: 0,
                acquire_sem_idx: 0,
            }),
            r@.wf() <==> image_available@.len() > 0,
    {
        let frame_count = image_available.len() as u32;
        FrameSync {
            image_available,
            render_finished,
            fences,
            acquire_semaphores,
            frame_count,
            frame_id: 0,
            acquired_image_index: 0,
            acquire_sem_idx: 0,
        }
    }

    /// The number of frames in flight.
    pub fn frame_count(&self) -> (r: u32)
        ensures
            r == self@.frame_count,
    {
        self.frame_count
    }

    pub fn frame_id(&self) -> (r: u32)
        ensures
            r == self@.frame_id,
    {
        self.frame_id
    }

    pub fn acquired_image_index(&self) -> (r: u32)
        ensures
            r == self@.acquired_image_index,
    {
        self.acquired_image_index
    }

    /// The fence of the current frame slot: waited on and reset before the
    /// frame is recorded, signalled by its submission.
    pub fn frame_fence(&self) -> (r: F)
        requires
            self@.wf(),
        ensures
            r == self@.fence(),
    {
        self.fences[self.frame_id as usize]
    }

    /// The semaphore to hand to the next image acquisition.
    pub fn acquire_semaphore(&self) -> (r: S)
        requires
            self@.wf(),
        ensures
            r == self@.next_acquire(),
    {
        self.acquire_semaphores[self.acquire_sem_idx as usize]
    }

    /// The semaphore that the submission waits on: the one bound to the acquired image.
    pub fn wait_semaphore(&self) -> (r: S)
        requires
            self@.wf(),
        ensures
            r == self@.wait(),
    {
        self.image_available[self.acquired_image_index as usize]
    }

    /// The semaphore that the submission signals and the present waits on.
    pub fn signal_semaphore(&self) -> (r: S)
        requires
            self@.wf(),
        ensures
            r == self@.signal(),
    {
        self.render_finished[self.acquired_image_index as usize]
    }

    pub fn image_available(&self) -> (r: &[S])
        ensures
            r@ == self@.image_available,
    {
        self.image_available.as_slice()
    }

    pub fn render_finished(&self) -> (r: &[S])
        ensures
            r@ == self@.render_finished,
    {
        self.render_finished.as_slice()
    }

    pub fn fences(&self) -> (r: &[F])
        ensures
            r@ == self@.fences,
    {
        self.fences.as_slice()
    }

    pub fn acquire_semaphores(&self) -> (r: &[S])
        ensures
            r@ == self@.acquire_semaphores,
    {
        self.acquire_semaphores.as_slice()
    }

    /// Records that image `image_index` was acquired with the pool semaphore
    /// `acquire_semaphore()`: that semaphore becomes the one bound to the image,
    /// the image's previous semaphore returns to the pool in its place, and the
    /// next pool semaphore is chosen, wrapping after the last.
    pub fn acquired(&mut self, image_index: u32)
        requires
            old(self)@.wf(),
            image_index < old(self)@.frame_count,
        ensures
            final(self)@ == old(self)@.after_acquire(image_index as nat),
            final(self)@.acquire_pool() == old(self)@.acquire_pool(),
            final(self)@.wf(),
    {
        let i = image_index as usize;
        let j = self.acquire_sem_idx as usize;
        let bound = self.image_available[i];
        let fresh = self.acquire_semaphores[j];
        self.image_available.set(i, fresh);
        self.acquire_semaphores.set(j, bound);
        self.acquire_sem_idx = (self.acquire_sem_idx + 1) % self.frame_count;
        self.acquired_image_index = image_index;
        proof {
            lemma_swap_preserves_pool(
                old(self)@.image_available,
                old(self)@.acquire_semaphores,
                i as int,
                j as int,
            );
        }
    }

    /// Moves to the next frame slot after a present, wrapping after the last.
    pub fn advance(&mut self)
        requires
            old(self)@.wf(),
        ensures
            final(self)@ == old(self)@.after_present(),
            final(self)@.wf(),
    {
        self.frame_id = (self.frame_id + 1) % self.frame_count;
    }
}

/// After an image is acquired, the submission waits on exactly the semaphore
/// that was handed to the acquisition, signals the image's own semaphore, and
/// the pool of acquisition semaphores neither loses nor gains one.
pub proof fn lemma_acquire_then_submit<S, F>(v: FrameSyncView<S, F>, i: nat)
    requires
        v.wf(),
        i < v.frame_count,
    ensures
        v.after_acquire(i).wf(),
        v.after_acquire(i).wait() == v.next_acquire(),
        v.after_acquire(i).signal() == v.render_finished[i as int],
        v.after_acquire(i).acquire_pool() == v.acquire_pool(),
{
    lemma_swap_preserves_pool(v.image_available, v.acquire_semaphores, i as int, v.acquire_sem_idx as int);
}

/// Presenting keeps the state well formed and moves only the frame slot.
pub proof fn lemma_present_keeps_images<S, F>(v: FrameSyncView<S, F>)
    requires
        v.wf(),
    ensures
        v.after_present().wf(),
        v.after_present().wait() == v.wait(),
        v.after_present().fence() == v.fences[next_slot(v.frame_id, v.frame_count) as int],
{
}

/// Exchanging an entry of `a` with an entry of `b` keeps the multiset of all their entries.
pub proof fn lemma_swap_preserves_pool<S>(a: Seq<S>, b: Seq<S>, i: int, j: int)
    requires
        0 <= i < a.len(),
        0 <= j < b.len(),
    ensures
        (a.update(i, b[j]) + b.update(j, a[i])).to_multiset() == (a + b).to_multiset(),
{
    broadcast use vstd::seq_lib::group_to_multiset_ensures;
    broadcast use vstd::multiset::group_multiset_axioms;

    vstd::seq_lib::lemma_multiset_commutative(a.update(i, b[j]), b.update(j, a[i]));
    vstd::seq_lib::lemma_multiset_commutative(a, b);
    let x = a[i];
    let y = b[j];
    assert(a.to_multiset().count(x) > 0);
    assert(b.to_multiset().count(y) > 0);
    assert(a.update(i, y).to_multiset().add(b.update(j, x).to_multiset()) =~= a.to_multiset().add(
        b.to_multiset(),
    ));
}

/// After `k` presents from slot `id` the frame slot is `(id + k) % count`; in
/// particular after `count` presents every slot comes back to itself.
pub proof fn lemma_slot_cycle(id: nat, count: nat, k: nat)
    requires
        id < count,
    ensures
        slot_after(id, count, k) == (id + k) % count,
        slot_after(id, count, count) == id,
{
    lemma_slot_after(id, count, k);
    lemma_slot_cycle_full(id, count);
}

proof fn lemma_slot_cycle_full(id: nat, count: nat)
    requires
        id < count,
    ensures
        slot_after(id, count, count) == id,
{
    lemma_slot_after(id, count, count);
    vstd::arithmetic::div_mod::lemma_mod_self_0(count as int);
    vstd::arithmetic::div_mod::lemma_add_mod_noop(id as int, count as int, count as int);
    vstd::arithmetic::div_mod::lemma_small_mod(id, count);
}

proof fn lemma_slot_after(id: nat, count: nat, k: nat)
    requires
        id < count,
    ensures
        slot_after(id, count, k) == (id + k) % count,
    decreases k,
{
    if k > 0 {
        lemma_slot_after(id, count, (k - 1) as nat);
        vstd::arithmetic::div_mod::lemma_add_mod_noop_right(1, id + (k - 1), count as int);
    } else {
        vstd::arithmetic::div_mod::lemma_small_mod(id, count);
    }
}

} // verus!
