//! The life of the overlay's GPU resources.
//!
//! The crosshair is drawn once: on the first configuration of the layer
//! surface the surface is configured, the renderer is set up if it is not,
//! one frame is rendered into a shared-memory buffer, and then the renderer's
//! resources and the GPU adapter, device, queue and surface are all released
//! to save memory. Later configurations find no GPU and change nothing. A
//! closed layer asks the event loop to stop.
use vstd::prelude::*;

verus! {

/// What to do on a configure event of the layer surface.
#[derive(Clone, Copy, Debug, PartialEq, Eq, Structural)]
pub enum ConfigureAction {
    /// The GPU is gone: nothing to do.
    Ignore,
    /// Configure the GPU surface, set up the renderer first if
    /// `initialize_renderer`, render the frame, then release every GPU
    /// resource.
    Render { initialize_renderer: bool },
}

/// An event that the lifecycle reacts to.
#[derive(Clone, Copy, Debug, PartialEq, Eq, Structural)]
pub enum LifecycleEvent {
    /// The compositor configured the layer surface.
    Configure,
    /// The compositor closed the layer surface.
    Closed,
}

/// The state of the overlay: whether the GPU adapter, device, queue and
/// surface are still held, whether the renderer's pipeline and buffers are
/// set up, and whether the event loop is to stop.
#[derive(Clone, Copy, Debug, PartialEq, Eq, Structural)]
pub struct OverlayLifecycle {
    pub gpu_held: bool,
    pub renderer_ready: bool,
    pub exit_requested: bool,
}

/// The state and the action after `event`.
pub open spec fn step(s: OverlayLifecycle, event: LifecycleEvent) -> (
    OverlayLifecycle,
    Option<ConfigureAction>,
) {
    match event {
        LifecycleEvent::Configure => if s.gpu_held {
            (
                OverlayLifecycle { gpu_held: false, renderer_ready: false, ..s },
                Some(ConfigureAction::Render { initialize_renderer: !s.renderer_ready }),
            )
        } else {
            (s, Some(ConfigureAction::Ignore))
        },
        LifecycleEvent::Closed => (OverlayLifecycle { exit_requested: true, ..s }, None),
    }
}

/// The state after the events `events`, in order.
pub open spec fn run(s: OverlayLifecycle, events: Seq<LifecycleEvent>) -> OverlayLifecycle
    decreases events.len(),
{
    if events.len() == 0 {
        s
    } else {
        run(step(s, events[0]).0, events.drop_first())
    }
}

/// The number of frames rendered along the events `events`.
pub open spec fn frames_rendered(s: OverlayLifecycle, events: Seq<LifecycleEvent>) -> nat
    decreases events.len(),
{
    if events.len() == 0 {
        0
    } else {
        let (next, action) = step(s, events[0]);
        (if action matches Some(ConfigureAction::Render { .. }) {
            1nat
        } else {
            0nat
        }) + frames_rendered(next, events.drop_first())
    }
}

/// The state in which the overlay starts: the GPU is held, the renderer is
/// not set up, the loop runs.
pub open spec fn initial_lifecycle() -> OverlayLifecycle {
    OverlayLifecycle { gpu_held: true, renderer_ready: false, exit_requested: false }
}

impl OverlayLifecycle {
    /// The state in which the overlay starts.
    pub fn new() -> (s: Self)
        ensures
            s == initial_lifecycle(),
    {
        OverlayLifecycle { gpu_held: true, renderer_ready: false, exit_requested: false }
    }

    /// Reacts to a configure event of the layer surface.
    pub fn on_configure(&mut self) -> (action: ConfigureAction)
        ensures
            (*final(self), Some(action)) == step(*old(self), LifecycleEvent::Configure),
            final(self).exit_requested == old(self).exit_requested,
            old(self).gpu_held ==> action == (ConfigureAction::Render {
                initialize_renderer: !old(self).renderer_ready,
            }) && !final(self).gpu_held && !final(self).renderer_ready,
            !old(self).gpu_held ==> action == ConfigureAction::Ignore && *final(self) == *old(self),
    {
        if !self.gpu_held {
            return ConfigureAction::Ignore;
        }
        let initialize_renderer = !self.renderer_ready;
        self.gpu_held = false;
        self.renderer_ready = false;
        ConfigureAction::Render { initialize_renderer }
    }

    /// Reacts to the closing of the layer surface.
    pub fn on_closed(&mut self)
        ensures
            *final(self) == step(*old(self), LifecycleEvent::Closed).0,
            final(self).exit_requested,
            final(self).gpu_held == old(self).gpu_held,
            final(self).renderer_ready == old(self).renderer_ready,
    {
        self.exit_requested = true;
    }
}

/* Laws of the lifecycle */

/// Once the GPU is released, no event renders a frame again.
pub proof fn lemma_released_gpu_renders_nothing(s: OverlayLifecycle, events: Seq<LifecycleEvent>)
    requires
        !s.gpu_held,
    ensures
        frames_rendered(s, events) == 0,
        !run(s, events).gpu_held,
    decreases events.len(),
{
    if events.len() > 0 {
        lemma_released_gpu_renders_nothing(step(s, events[0]).0, events.drop_first());
    }
}

/// The crosshair is rendered at most once, whatever events follow; and once
/// a configure event has come, the GPU is released.
pub proof fn lemma_renders_at_most_once(s: OverlayLifecycle, events: Seq<LifecycleEvent>)
    ensures
        frames_rendered(s, events) <= 1,
        events.contains(LifecycleEvent::Configure) ==> !run(s, events).gpu_held,
    decreases events.len(),
{
    if events.len() > 0 {
        let next = step(s, events[0]).0;
        let rest = events.drop_first();
        if events[0] == LifecycleEvent::Configure {
            lemma_released_gpu_renders_nothing(next, rest);
        } else {
            lemma_renders_at_most_once(next, rest);
            if events.contains(LifecycleEvent::Configure) {
                let i = choose|i: int| 0 <= i < events.len() && events[i] == LifecycleEvent::Configure;
                assert(rest[i - 1] == LifecycleEvent::Configure);
            }
        }
    }
}

/// The first configure event from the initial state renders the frame and
/// sets up the renderer for it.
pub proof fn lemma_first_configure_renders()
    ensures
        step(initial_lifecycle(), LifecycleEvent::Configure).1 == Some(
            ConfigureAction::Render { initialize_renderer: true },
        ),
{
}

/// From a state whose renderer is not set up, no event sequence sets it up:
/// the renderer is set up only inside the one render and released with the
/// GPU right after. So every render reached from the initial state sets the
/// renderer up first.
pub proof fn lemma_renderer_is_set_up_for_each_render(s: OverlayLifecycle, events: Seq<LifecycleEvent>)
    requires
        !s.renderer_ready,
    ensures
        !run(s, events).renderer_ready,
        step(run(s, events), LifecycleEvent::Configure).1 is Some,
        step(run(s, events), LifecycleEvent::Configure).1 matches Some(ConfigureAction::Render { initialize_renderer }) ==> initialize_renderer,
    decreases events.len(),
{
    if events.len() > 0 {
        lemma_renderer_is_set_up_for_each_render(step(s, events[0]).0, events.drop_first());
    }
}

/// Only the closing of the layer stops the event loop: a configure event
/// leaves the request to exit as it was, and a closed event sets it while
/// leaving the GPU state alone.
pub proof fn lemma_only_closing_requests_exit(s: OverlayLifecycle)
    ensures
        step(s, LifecycleEvent::Configure).0.exit_requested == s.exit_requested,
        step(s, LifecycleEvent::Closed).0.exit_requested,
        step(s, LifecycleEvent::Closed).0.gpu_held == s.gpu_held,
        step(s, LifecycleEvent::Closed).0.renderer_ready == s.renderer_ready,
        step(s, LifecycleEvent::Closed).1 is None,
{
}

/// Along any events without a closing, the loop keeps running: the request
/// to exit stays as it was at the start.
pub proof fn lemma_no_exit_without_closing(s: OverlayLifecycle, events: Seq<LifecycleEvent>)
    requires
        !events.contains(LifecycleEvent::Closed),
    ensures
        run(s, events).exit_requested == s.exit_requested,
    decreases events.len(),
{
    if events.len() > 0 {
        assert(events[0] != LifecycleEvent::Closed);
        let rest = events.drop_first();
        assert forall|i: int| 0 <= i < rest.len() implies rest[i] != LifecycleEvent::Closed by {
            assert(rest[i] == events[i + 1]);
        }
        lemma_no_exit_without_closing(step(s, events[0]).0, rest);
    }
}

/// Once the layer is closed, the event loop stops: no later event clears the
/// request.
pub proof fn lemma_exit_is_permanent(s: OverlayLifecycle, events: Seq<LifecycleEvent>)
    requires
        s.exit_requested,
    ensures
        run(s, events).exit_requested,
    decreases events.len(),
{
    if events.len() > 0 {
        lemma_exit_is_permanent(step(s, events[0]).0, events.drop_first());
    }
}

} // verus!
