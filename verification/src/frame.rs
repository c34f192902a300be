//! The frame loop: which frame slot is in use, what the renderer does with
//! the answer of the presentation engine, and what it does on each window
//! event.

use vstd::prelude::*;
use vstd::arithmetic::div_mod::{lemma_add_mod_noop, lemma_small_mod, lemma_mod_bound};

verus! {

/// `VK_ERROR_OUT_OF_DATE_KHR`: the surface changed and the swapchain no
/// longer matches it.
pub const ERROR_OUT_OF_DATE_KHR: i32 = -1000001004;

/// `VK_SUBOPTIMAL_KHR`: the swapchain still works but no longer matches the
/// surface exactly.
pub const SUBOPTIMAL_KHR: i32 = 1000001003;

/// Presentation failed with a result other than an out-of-date or suboptimal
/// swapchain; `code` is the Vulkan result code.
#[derive(Clone, Copy, Debug, PartialEq, Eq)]
pub struct PresentError {
    pub code: i32,
}

/// What the renderer does after presenting, given the pending resize flag
/// and the outcome of the present call (`Ok` with the suboptimal flag of a
/// successful present, or `Err` with the error code): `Some(recreate)` where
/// `recreate` says whether the swapchain is recreated, `None` where the
/// error is fatal. A successful present leads to recreation only when a
/// resize is pending; an out-of-date or suboptimal error always does.
pub open spec fn present_decision(resize_pending: bool, present: Result<bool, i32>) -> Option<bool> {
    match present {
        Ok(_) => Some(resize_pending),
        Err(code) => if code == ERROR_OUT_OF_DATE_KHR || code == SUBOPTIMAL_KHR {
            Some(true)
        } else {
            None
        },
    }
}

/// What ending a frame must answer: after a successful present (suboptimal
/// or not), recreate exactly when a resize is pending; after an out-of-date
/// or suboptimal error, recreate; after any other error, fail with that
/// error's code.
pub open spec fn present_law(resize_pending: bool, present: Result<bool, i32>, r: Result<bool, PresentError>) -> bool {
    &&& present is Ok ==> r == Ok::<bool, PresentError>(resize_pending)
    &&& present == Err::<bool, i32>(ERROR_OUT_OF_DATE_KHR) ==> r == Ok::<bool, PresentError>(true)
    &&& present == Err::<bool, i32>(SUBOPTIMAL_KHR) ==> r == Ok::<bool, PresentError>(true)
    &&& forall|code: i32|
        present == Err::<bool, i32>(code) && code != ERROR_OUT_OF_DATE_KHR && code != SUBOPTIMAL_KHR
            ==> r == Err::<bool, PresentError>(PresentError { code })
}

/// The decision obeys `present_law`.
pub proof fn lemma_present_decision(resize_pending: bool, present: Result<bool, i32>)
    ensures
        present_law(
            resize_pending,
            present,
            match present_decision(resize_pending, present) {
                Some(recreate) => Ok::<bool, PresentError>(recreate),
                None => Err::<bool, PresentError>(PresentError { code: present->Err_0 }),
            },
        ),
{
}

/// The frame slot after `slot`, with `frames_in_flight` slots in turn.
pub open spec fn next_slot(slot: nat, frames_in_flight: nat) -> nat {
    (slot + 1) % frames_in_flight
}

/// The frame slot after `n` frames from `slot`.
pub open spec fn slot_after(slot: nat, frames_in_flight: nat, n: nat) -> nat
    decreases n,
{
    if n == 0 {
        slot
    } else {
        next_slot(slot_after(slot, frames_in_flight, (n - 1) as nat), frames_in_flight)
    }
}

/// The state the frame loop keeps between frames.
pub struct FrameControl {
    current_frame: usize,
    frames_in_flight: usize,
    is_framebuffer_resized: bool,
}

impl FrameControl {
    #[verifier::type_invariant]
    spec fn inv(self) -> bool {
        0 < self.frames_in_flight && self.current_frame < self.frames_in_flight
    }

    /// The slot of the frame being drawn: which fence and semaphores it uses.
    pub closed spec fn slot(self) -> nat {
        self.current_frame as nat
    }

    /// How many frames may be in flight at once.
    pub closed spec fn frames_in_flight(self) -> nat {
        self.frames_in_flight as nat
    }

    /// A resize is waiting to be handled by recreating the swapchain.
    pub closed spec fn resize_pending(self) -> bool {
        self.is_framebuffer_resized
    }

    /// The loop before its first frame: slot 0, no resize pending.
    pub fn new(frames_in_flight: usize) -> (r: FrameControl)
        requires
            frames_in_flight > 0,
        ensures
            r.slot() == 0,
            r.frames_in_flight() == frames_in_flight,
            !r.resize_pending(),
    {
        FrameControl { current_frame: 0, frames_in_flight, is_framebuffer_resized: false }
    }

    /// The slot of the frame being drawn; always below the number of frames
    /// in flight.
    pub fn current_frame(&self) -> (r: usize)
        ensures
            r == self.slot(),
            r < self.frames_in_flight(),
    {
        proof {
            use_type_invariant(self);
        }
        self.current_frame
    }

    pub fn frames_in_flight_count(&self) -> (r: usize)
        ensures
            r == self.frames_in_flight(),
            r > 0,
    {
        proof {
            use_type_invariant(self);
        }
        self.frames_in_flight
    }

    /// Ends the frame given the outcome of the present call. On a fatal
    /// error nothing changes and the error is returned. Otherwise the resize
    /// flag is cleared, the loop moves on to the next slot, and the result
    /// says whether the swapchain is to be recreated.
    pub fn finish_frame(&mut self, present_result: Result<bool, i32>) -> (r: Result<
        bool,
        PresentError,
    >)
        ensures
            final(self).frames_in_flight() == old(self).frames_in_flight(),
            match present_decision(old(self).resize_pending(), present_result) {
                Some(recreate) => {
                    &&& r == Ok::<bool, PresentError>(recreate)
                    &&& !final(self).resize_pending()
                    &&& final(self).slot() == next_slot(old(self).slot(), old(self).frames_in_flight())
                },
                None => {
                    &&& r == Err::<bool, PresentError>(PresentError { code: present_result->Err_0 })
                    &&& final(self).slot() == old(self).slot()
                    &&& final(self).resize_pending() == old(self).resize_pending()
                },
            },
            present_law(old(self).resize_pending(), present_result, r),
            r is Ok ==> final(self).slot() == (old(self).slot() + 1) % old(self).frames_in_flight()
                && !final(self).resize_pending(),
            r is Err ==> final(self).slot() == old(self).slot(),
    {
        proof {
            use_type_invariant(&*self);
            lemma_present_decision(self.is_framebuffer_resized, present_result);
        }
        let is_resized = match present_result {
            Ok(_) => self.is_framebuffer_resized,
            Err(code) => {
                if code == ERROR_OUT_OF_DATE_KHR || code == SUBOPTIMAL_KHR {
                    true
                } else {
                    return Err(PresentError { code });
                }
            },
        };
        if is_resized {
            self.is_framebuffer_resized = false;
        }
        self.current_frame = (self.current_frame + 1) % self.frames_in_flight;
        Ok(is_resized)
    }
}

/// After `n` frames from `slot`, the loop is at slot `(slot + n) mod F`: the
/// slots are used in turn, each once every `F` frames.
pub proof fn lemma_slot_cycle(slot: nat, frames_in_flight: nat, n: nat)
    requires
        frames_in_flight > 0,
        slot < frames_in_flight,
    ensures
        slot_after(slot, frames_in_flight, n) == (slot + n) % frames_in_flight,
        slot_after(slot, frames_in_flight, n) < frames_in_flight,
    decreases n,
{
    let f = frames_in_flight as int;
    let s = slot as int;
    if n == 0 {
        lemma_small_mod(slot, frames_in_flight);
    } else {
        lemma_slot_cycle(slot, frames_in_flight, (n - 1) as nat);
        let prev = slot_after(slot, frames_in_flight, (n - 1) as nat) as int;
        let k = n as int;
        assert(prev == (s + k - 1) % f);
        lemma_add_mod_noop(s + k - 1, 1, f);
        lemma_mod_bound(s + k, f);
        lemma_mod_bound(prev + 1, f);
        if f == 1 {
            assert((s + k) % f == 0);
            assert((prev + 1) % f == 0);
        } else {
            lemma_small_mod(1, frames_in_flight);
            lemma_small_mod(prev as nat, frames_in_flight);
        }
    }
}

/// What happens in the window system, as far as the frame loop cares.
#[derive(Clone, Copy, Debug, PartialEq, Eq)]
pub enum LoopEvent {
    /// The user asked to close the window.
    CloseRequested,
    /// Any other event of the window.
    OtherWindowEvent,
    /// All pending events have been handled.
    MainEventsCleared,
    /// The window is to be redrawn.
    RedrawRequested,
    /// The event loop is shutting down.
    LoopDestroyed,
    /// Any other event.
    Other,
}

/// What the frame loop does in answer to an event.
#[derive(Clone, Copy, Debug, PartialEq, Eq)]
pub enum LoopAction {
    /// Leave the event loop.
    Exit,
    /// Ask the window for a redraw.
    RequestRedraw,
    /// Draw and present a frame.
    DrawFrame,
    /// Wait until the device is idle, so that its objects can be destroyed.
    WaitIdle,
    /// Nothing.
    Nothing,
}

pub open spec fn loop_action_spec(event: LoopEvent) -> LoopAction {
    match event {
        LoopEvent::CloseRequested => LoopAction::Exit,
        LoopEvent::OtherWindowEvent => LoopAction::Nothing,
        LoopEvent::MainEventsCleared => LoopAction::RequestRedraw,
        LoopEvent::RedrawRequested => LoopAction::DrawFrame,
        LoopEvent::LoopDestroyed => LoopAction::WaitIdle,
        LoopEvent::Other => LoopAction::Nothing,
    }
}

/// The frame loop's answer to an event: close requests end the loop, a
/// cleared event queue asks for a redraw, a redraw draws a frame, and the end
/// of the loop waits for the device to go idle.
pub fn handle_event(event: LoopEvent) -> (r: LoopAction)
    ensures
        r == loop_action_spec(event),
        event == LoopEvent::CloseRequested <==> r == LoopAction::Exit,
        event == LoopEvent::MainEventsCleared <==> r == LoopAction::RequestRedraw,
        event == LoopEvent::RedrawRequested <==> r == LoopAction::DrawFrame,
        event == LoopEvent::LoopDestroyed <==> r == LoopAction::WaitIdle,
{
    match event {
        LoopEvent::CloseRequested => LoopAction::Exit,
        LoopEvent::OtherWindowEvent => LoopAction::Nothing,
        LoopEvent::MainEventsCleared => LoopAction::RequestRedraw,
        LoopEvent::RedrawRequested => LoopAction::DrawFrame,
        LoopEvent::LoopDestroyed => LoopAction::WaitIdle,
        LoopEvent::Other => LoopAction::Nothing,
    }
}

} // verus!
