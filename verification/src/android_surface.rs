//! The surface of a window and what draws on it: when it is created, resized and given up, when a
//! frame is drawn, and how the graphics context comes about.
use crate::text;
use vstd::prelude::*;
use vstd::string::*;

verus! {

/// How much of what is behind a window shows.
#[derive(Clone, Copy, Debug, PartialEq, Eq, Structural)]
pub enum WindowBackgroundAppearance {
    Opaque,
    Transparent,
    Blurred,
}

impl WindowBackgroundAppearance {
    /// Tests whether something behind the window shows.
    pub fn is_transparent(&self) -> (transparent: bool)
        ensures
            transparent == (self is Transparent || self is Blurred),
    {
        match self {
            WindowBackgroundAppearance::Opaque => false,
            WindowBackgroundAppearance::Transparent => true,
            WindowBackgroundAppearance::Blurred => true,
        }
    }
}

/// What a window has to draw on.
#[derive(Clone, Copy, Debug, PartialEq, Eq, Structural)]
pub struct SurfaceState {
    pub has_window: bool,
    pub has_renderer: bool,
    /// Whether images were loaded for an earlier renderer.
    pub has_atlas: bool,
}

/// What to do about a new surface.
#[derive(Clone, Copy, Debug, PartialEq, Eq, Structural)]
pub enum SurfaceCreation {
    /// Hand the surface to the renderer that is there.
    ReplaceSurface,
    CreateRenderer { share_atlas: bool },
    /// There is a renderer, but no graphics context to hand the surface to it.
    Fail,
}

/// What to do about a changed surface.
#[derive(Clone, Copy, Debug, PartialEq, Eq, Structural)]
pub struct SurfaceChange {
    pub update_renderer: bool,
    pub notify: bool,
}

/// What to do about a frame.
#[derive(Clone, Copy, Debug, PartialEq, Eq, Structural)]
pub enum DrawStep {
    Skip,
    Draw,
    /// The device was lost: recover it, and draw if that succeeds.
    RecoverAndDraw,
}

impl SurfaceState {
    /// Starts with nothing to draw on.
    pub fn new() -> (state: Self)
        ensures
            state == (SurfaceState { has_window: false, has_renderer: false, has_atlas: false }),
    {
        SurfaceState { has_window: false, has_renderer: false, has_atlas: false }
    }

    /// Tells what to do about a new surface.
    pub fn creation(&self, context_ready: bool) -> (step: SurfaceCreation)
        ensures
            step == (if self.has_renderer {
                if context_ready {
                    SurfaceCreation::ReplaceSurface
                } else {
                    SurfaceCreation::Fail
                }
            } else {
                SurfaceCreation::CreateRenderer { share_atlas: self.has_atlas }
            }),
    {
        if self.has_renderer {
            if context_ready {
                SurfaceCreation::ReplaceSurface
            } else {
                SurfaceCreation::Fail
            }
        } else {
            SurfaceCreation::CreateRenderer { share_atlas: self.has_atlas }
        }
    }

    /// Keeps a new surface after a renderer has taken it.
    pub fn handle_surface_created(&mut self)
        ensures
            *final(self) == (SurfaceState {
                has_window: true,
                has_renderer: true,
                has_atlas: true,
            }),
    {
        self.has_window = true;
        self.has_renderer = true;
        self.has_atlas = true;
    }

    /// Tells what to do about a changed surface. Whoever asked is told even where the size is the
    /// same.
    pub fn handle_surface_changed(&self, has_callback: bool) -> (change: SurfaceChange)
        ensures
            change == (SurfaceChange { update_renderer: self.has_renderer, notify: has_callback }),
    {
        SurfaceChange { update_renderer: self.has_renderer, notify: has_callback }
    }

    /// Gives up the surface, and tells whether a renderer has to let go of it. The renderer stays.
    pub fn handle_surface_destroyed(&mut self) -> (unconfigure: bool)
        ensures
            unconfigure == old(self).has_renderer,
            *final(self) == (SurfaceState { has_window: false, ..*old(self) }),
    {
        self.has_window = false;
        self.has_renderer
    }

    /// Tells what to do about a frame.
    pub fn draw(&self, device_lost: bool) -> (step: DrawStep)
        ensures
            step == (if !self.has_renderer || (device_lost && !self.has_window) {
                DrawStep::Skip
            } else if device_lost {
                DrawStep::RecoverAndDraw
            } else {
                DrawStep::Draw
            }),
    {
        if !self.has_renderer {
            DrawStep::Skip
        } else if device_lost {
            if self.has_window {
                DrawStep::RecoverAndDraw
            } else {
                DrawStep::Skip
            }
        } else {
            DrawStep::Draw
        }
    }

    /// Tells what to do about a changed surface where a renderer cannot be resized: only a new size
    /// counts, a renderer is made anew on a window that is there, and whoever asked is told.
    pub fn handle_surface_rebuilt(&self, bounds_changed: bool, has_callback: bool) -> (change:
        SurfaceChange)
        ensures
            change == (SurfaceChange {
                update_renderer: bounds_changed && self.has_window,
                notify: bounds_changed && has_callback,
            }),
    {
        SurfaceChange {
            update_renderer: bounds_changed && self.has_window,
            notify: bounds_changed && has_callback,
        }
    }

    /// Gives up the surface together with its renderer; the images stay.
    pub fn drop_surface(&mut self)
        ensures
            *final(self) == (SurfaceState {
                has_window: false,
                has_renderer: false,
                ..*old(self)
            }),
    {
        self.has_renderer = false;
        self.has_window = false;
    }
}

/// What to do once the host has made a surface.
#[derive(Clone, Copy, Debug, PartialEq, Eq, Structural)]
pub struct SurfaceLaunch {
    /// Run what waits for the end of launching.
    pub finish_launching: bool,
    pub resize: bool,
    pub force_frame: bool,
}

/// Tells what to do once the host has made a surface: nothing, unless it was attached. `attached`
/// is missing where there is no platform.
pub fn surface_launch(attached: Option<bool>, has_callback: bool) -> (launch: SurfaceLaunch)
    ensures
        launch == (SurfaceLaunch {
            finish_launching: attached == Some(true) && has_callback,
            resize: attached == Some(true),
            force_frame: attached == Some(true),
        }),
{
    let proceeds: bool = match attached {
        Some(attached) => attached,
        None => false,
    };
    SurfaceLaunch {
        finish_launching: proceeds && has_callback,
        resize: proceeds,
        force_frame: proceeds,
    }
}

/// What to do about a graphics context.
#[derive(Clone, Copy, Debug, PartialEq, Eq, Structural)]
pub enum ContextStep {
    /// Use this context.
    Use(u64),
    Create,
    /// Ask for any device, and create again.
    CreateLeniently,
    Fail,
}

/// The graphics context, which is made once.
#[derive(Clone, Copy, Debug, PartialEq, Eq, Structural)]
pub struct ContextSlot {
    pub context: Option<u64>,
}

impl ContextSlot {
    /// Starts without a context.
    pub fn new() -> (slot: Self)
        ensures
            slot.context is None,
    {
        ContextSlot { context: None }
    }

    /// Asks for the context.
    pub fn ensure_context(&self) -> (step: ContextStep)
        ensures
            step == match self.context {
                Some(context) => ContextStep::Use(context),
                None => ContextStep::Create,
            },
    {
        match self.context {
            Some(context) => ContextStep::Use(context),
            None => ContextStep::Create,
        }
    }

    /// Takes the outcome of creating a context. The first failure is followed by a second, lenient
    /// try, and that by none.
    pub fn created(&mut self, outcome: Option<u64>, lenient: bool) -> (step: ContextStep)
        ensures
            match outcome {
                Some(context) => step == ContextStep::Use(context) && final(self).context == Some(
                    context,
                ),
                None => final(self).context == old(self).context && step == (if lenient {
                    ContextStep::Fail
                } else {
                    ContextStep::CreateLeniently
                }),
            },
    {
        match outcome {
            Some(context) => {
                self.context = Some(context);
                ContextStep::Use(context)
            },
            None => if lenient {
                ContextStep::Fail
            } else {
                ContextStep::CreateLeniently
            },
        }
    }
}

/// A window in the list of those that draw.
#[derive(Clone, Copy, Debug, PartialEq, Eq, Structural)]
pub struct WindowSlot {
    pub handle: u64,
    /// Whether the window still exists.
    pub alive: bool,
    /// Whether somebody wants to know of its frames.
    pub has_callback: bool,
}

/// The windows of which a frame is asked.
pub open spec fn frame_targets(windows: Seq<WindowSlot>) -> Seq<u64>
    decreases windows.len(),
{
    if windows.len() == 0 {
        Seq::empty()
    } else {
        let rest = frame_targets(windows.drop_last());
        if windows.last().alive && windows.last().has_callback {
            rest.push(windows.last().handle)
        } else {
            rest
        }
    }
}

/// The windows that still exist.
pub open spec fn living(windows: Seq<WindowSlot>) -> Seq<WindowSlot>
    decreases windows.len(),
{
    if windows.len() == 0 {
        Seq::empty()
    } else {
        let rest = living(windows.drop_last());
        if windows.last().alive {
            rest.push(windows.last())
        } else {
            rest
        }
    }
}

/// Lists the windows of which a frame is asked, in order.
pub fn request_frames(windows: &Vec<WindowSlot>) -> (targets: Vec<u64>)
    ensures
        targets@ == frame_targets(windows@),
{
    let mut targets: Vec<u64> = Vec::new();
    let mut i: usize = 0;
    assert(targets@ =~= frame_targets(windows@.take(0)));
    while i < windows.len()
        invariant
            i <= windows@.len(),
            targets@ == frame_targets(windows@.take(i as int)),
        decreases windows@.len() - i,
    {
        assert(windows@.take(i as int + 1).drop_last() =~= windows@.take(i as int));
        if windows[i].alive && windows[i].has_callback {
            targets.push(windows[i].handle);
        }
        i = i + 1;
    }
    assert(windows@.take(windows@.len() as int) =~= windows@);
    targets
}

/// Forgets the windows that do not exist any more.
pub fn retain_living(windows: &mut Vec<WindowSlot>)
    ensures
        final(windows)@ == living(old(windows)@),
{
    let ghost all = windows@;
    let mut kept: Vec<WindowSlot> = Vec::new();
    let mut i: usize = 0;
    assert(kept@ =~= living(all.take(0)));
    while i < windows.len()
        invariant
            windows@ == all,
            i <= all.len(),
            kept@ == living(all.take(i as int)),
        decreases all.len() - i,
    {
        assert(all.take(i as int + 1).drop_last() =~= all.take(i as int));
        if windows[i].alive {
            kept.push(windows[i]);
        }
        i = i + 1;
    }
    assert(all.take(all.len() as int) =~= all);
    *windows = kept;
}

/// The window that input goes to: the last, if it still exists.
pub fn input_target(windows: &Vec<WindowSlot>) -> (target: Option<u64>)
    ensures
        target == (if windows@.len() > 0 && windows@.last().alive {
            Some(windows@.last().handle)
        } else {
            None::<u64>
        }),
{
    if windows.len() == 0 {
        return None;
    }
    let last: WindowSlot = windows[windows.len() - 1];
    if last.alive {
        Some(last.handle)
    } else {
        None
    }
}

/// What the event loop does next.
#[derive(Clone, Copy, Debug, PartialEq, Eq, Structural)]
pub enum LoopStep {
    Stop,
    Poll,
    RunTasks,
}

/// Tells what the event loop does next: it polls until somebody asks to quit, runs tasks after each
/// poll, and stops where polling fails. `polled` is missing at the start of a round.
pub fn next_loop_step(quit_requested: bool, polled: Option<bool>) -> (step: LoopStep)
    ensures
        step == match polled {
            None => if quit_requested {
                LoopStep::Stop
            } else {
                LoopStep::Poll
            },
            Some(true) => LoopStep::RunTasks,
            Some(false) => LoopStep::Stop,
        },
{
    match polled {
        None => if quit_requested {
            LoopStep::Stop
        } else {
            LoopStep::Poll
        },
        Some(true) => LoopStep::RunTasks,
        Some(false) => LoopStep::Stop,
    }
}

/// Tests whether a file holds fonts, by its extension.
pub fn is_font_file(extension: Option<&str>) -> (font: bool)
    ensures
        font == (extension is Some && (extension->0@ == "ttf"@ || extension->0@ == "otf"@
            || extension->0@ == "ttc"@)),
{
    match extension {
        Some(extension) => text::same_text(extension, "ttf") || text::same_text(extension, "otf")
            || text::same_text(extension, "ttc"),
        None => false,
    }
}

/// The least number of threads that work in the background.
pub const MIN_THREADS: usize = 2;

/// How many threads work in the background: as many as can run at once, but never fewer than two.
pub fn worker_count(parallelism: Option<usize>) -> (count: usize)
    ensures
        count == match parallelism {
            Some(threads) => if threads > MIN_THREADS {
                threads
            } else {
                MIN_THREADS
            },
            None => MIN_THREADS,
        },
{
    match parallelism {
        Some(threads) => if threads > MIN_THREADS {
            threads
        } else {
            MIN_THREADS
        },
        None => MIN_THREADS,
    }
}

proof fn lemma_living_lists_the_living(windows: Seq<WindowSlot>)
    ensures
        forall|i: int| 0 <= i < living(windows).len() ==> (#[trigger] living(windows)[i]).alive,
        living(windows).len() <= windows.len(),
    decreases windows.len(),
{
    if windows.len() > 0 {
        lemma_living_lists_the_living(windows.drop_last());
    }
}

proof fn lemma_living_keeps_the_living(windows: Seq<WindowSlot>)
    requires
        forall|i: int| 0 <= i < windows.len() ==> (#[trigger] windows[i]).alive,
    ensures
        living(windows) == windows,
    decreases windows.len(),
{
    if windows.len() > 0 {
        lemma_living_keeps_the_living(windows.drop_last());
        assert(windows.drop_last().push(windows.last()) =~= windows);
    }
}

/// Only windows that exist are kept, and forgetting twice forgets nothing more.
pub proof fn only_living_windows_are_kept(windows: Seq<WindowSlot>)
    ensures
        forall|i: int| 0 <= i < living(windows).len() ==> (#[trigger] living(windows)[i]).alive,
        living(living(windows)) == living(windows),
{
    lemma_living_lists_the_living(windows);
    lemma_living_keeps_the_living(living(windows));
}

/// Forgetting windows changes nothing about which are asked for a frame.
pub proof fn dead_windows_get_no_frames(windows: Seq<WindowSlot>)
    ensures
        frame_targets(living(windows)) == frame_targets(windows),
    decreases windows.len(),
{
    if windows.len() > 0 {
        let rest = windows.drop_last();
        dead_windows_get_no_frames(rest);
        if windows.last().alive {
            assert(living(rest).push(windows.last()).drop_last() =~= living(rest));
        }
    }
}

/// The windows that are kept are those that still exist, in their order.
pub proof fn living_windows_keep_their_order(items: Seq<WindowSlot>) -> (sources: Seq<int>)
    ensures
        sources.len() == living(items).len(),
        forall|i: int, j: int| 0 <= i < j < sources.len() ==> #[trigger] sources[i] < #[trigger] sources[j],
        forall|i: int|
            0 <= i < sources.len() ==> {
                &&& 0 <= #[trigger] sources[i] < items.len()
                &&& items[sources[i]].alive
                &&& living(items)[i] == items[sources[i]]
            },
        forall|k: int|
            0 <= k < items.len() && (#[trigger] items[k]).alive ==> sources.contains(k),
    decreases items.len(),
{
    if items.len() == 0 {
        Seq::empty()
    } else {
        let shorter = items.drop_last();
        let rest = living_windows_keep_their_order(shorter);
        let last = items.len() - 1;
        let sources = if items[last].alive {
            rest.push(last)
        } else {
            rest
        };
        assert forall|k: int|
            0 <= k < items.len() && (#[trigger] items[k]).alive implies sources.contains(k) by {
            if k < last {
                assert(shorter[k] == items[k]);
                let i = choose|i: int| 0 <= i < rest.len() && rest[i] == k;
                assert(sources[i] == k);
            } else {
                assert(sources[rest.len() as int] == k);
            }
        }
        assert forall|i: int| 0 <= i < rest.len() implies items[#[trigger] rest[i]]
            == shorter[rest[i]] by {}
        sources
    }
}

/// A frame is asked of every window that exists and has somebody waiting, by its own handle and in order.
pub proof fn frames_go_to_those_who_wait_for_them(items: Seq<WindowSlot>) -> (sources: Seq<int>)
    ensures
        sources.len() == frame_targets(items).len(),
        forall|i: int, j: int| 0 <= i < j < sources.len() ==> #[trigger] sources[i] < #[trigger] sources[j],
        forall|i: int|
            0 <= i < sources.len() ==> {
                &&& 0 <= #[trigger] sources[i] < items.len()
                &&& items[sources[i]].alive && items[sources[i]].has_callback
                &&& frame_targets(items)[i] == items[sources[i]].handle
            },
        forall|k: int|
            0 <= k < items.len() && (#[trigger] items[k]).alive && items[k].has_callback
                ==> sources.contains(k),
    decreases items.len(),
{
    if items.len() == 0 {
        Seq::empty()
    } else {
        let shorter = items.drop_last();
        let rest = frames_go_to_those_who_wait_for_them(shorter);
        let last = items.len() - 1;
        let sources = if items[last].alive && items[last].has_callback {
            rest.push(last)
        } else {
            rest
        };
        assert forall|k: int|
            0 <= k < items.len() && (#[trigger] items[k]).alive && items[k].has_callback
            implies sources.contains(k) by {
            if k < last {
                assert(shorter[k] == items[k]);
                let i = choose|i: int| 0 <= i < rest.len() && rest[i] == k;
                assert(sources[i] == k);
            } else {
                assert(sources[rest.len() as int] == k);
            }
        }
        assert forall|i: int| 0 <= i < rest.len() implies items[#[trigger] rest[i]]
            == shorter[rest[i]] by {}
        sources
    }
}

} // verus!
