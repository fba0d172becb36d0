//! The state of an application between the calls of its host: what was stored before the platform
//! exists, the platform itself, and the metrics of the screen.
use vstd::prelude::*;

verus! {

/// What the host stored. Nothing can be stored before it is initialized.
pub struct AppState<Machine, Activity, Platform, Callback> {
    pub initialized: bool,
    pub machine: Option<Machine>,
    pub activity: Option<Activity>,
    pub platform: Option<Platform>,
    pub finish_launching: Option<Callback>,
}

impl<Machine, Activity, Platform, Callback> AppState<Machine, Activity, Platform, Callback> {
    /// Starts uninitialized.
    pub fn new() -> (state: Self)
        ensures
            !state.initialized,
            state.machine is None,
            state.activity is None,
            state.platform is None,
            state.finish_launching is None,
    {
        AppState {
            initialized: false,
            machine: None,
            activity: None,
            platform: None,
            finish_launching: None,
        }
    }

    /// Initializes the state, unless it is.
    pub fn ensure_initialized(&mut self)
        ensures
            *final(self) == (AppState { initialized: true, ..*old(self) }),
    {
        self.initialized = true;
    }

    /// Stores what the host hands over first.
    pub fn store_jvm_and_activity(&mut self, machine: Machine, activity: Activity)
        ensures
            *final(self) == (AppState {
                initialized: true,
                machine: Some(machine),
                activity: Some(activity),
                ..*old(self)
            }),
    {
        self.ensure_initialized();
        self.machine = Some(machine);
        self.activity = Some(activity);
    }

    /// Takes out what the host handed over. Where a part is missing the other is gone too.
    pub fn take_jvm_and_activity(&mut self) -> (taken: Option<(Machine, Activity)>)
        ensures
            match (old(self).machine, old(self).activity) {
                (Some(machine), Some(activity)) => taken == Some((machine, activity)),
                _ => taken is None,
            },
            *final(self) == (AppState {
                machine: None,
                activity: if old(self).machine is Some {
                    None
                } else {
                    old(self).activity
                },
                ..*old(self)
            }),
    {
        match self.machine.take() {
            Some(machine) => match self.activity.take() {
                Some(activity) => Some((machine, activity)),
                None => None,
            },
            None => None,
        }
    }

    /// Keeps the platform, if the state is initialized.
    pub fn set_platform(&mut self, platform: Platform)
        ensures
            *final(self) == (if old(self).initialized {
                AppState { platform: Some(platform), ..*old(self) }
            } else {
                *old(self)
            }),
    {
        if self.initialized {
            self.platform = Some(platform);
        }
    }

    /// Forgets the platform.
    pub fn clear_platform(&mut self)
        ensures
            *final(self) == (AppState { platform: None, ..*old(self) }),
    {
        self.platform = None;
    }

    /// Keeps what is to run when launching has finished.
    pub fn set_finish_launching_callback(&mut self, callback: Callback)
        ensures
            *final(self) == (AppState {
                initialized: true,
                finish_launching: Some(callback),
                ..*old(self)
            }),
    {
        self.ensure_initialized();
        self.finish_launching = Some(callback);
    }

    /// Takes out what is to run when launching has finished, so that it runs once.
    pub fn take_finish_launching_callback(&mut self) -> (callback: Option<Callback>)
        ensures
            callback == old(self).finish_launching,
            *final(self) == (AppState { finish_launching: None, ..*old(self) }),
    {
        self.finish_launching.take()
    }
}

/// Runs a function on the platform, if there is one.
pub fn with_platform<Machine, Activity, Platform, Callback, R, F: FnOnce(&Platform) -> R>(
    state: &AppState<Machine, Activity, Platform, Callback>,
    f: F,
) -> (result: Option<R>)
    requires
        state.platform is Some ==> f.requires((&state.platform->0,)),
    ensures
        match result {
            Some(given) => state.platform is Some && f.ensures((&state.platform->0,), given),
            None => state.platform is None,
        },
{
    match &state.platform {
        Some(platform) => Some(f(platform)),
        None => None,
    }
}

/// Makes the platform of what the host handed over, gives it the scale of the display, which the host
/// may have reported before there was a platform, and keeps a clone of it. `build` makes it and `scale`
/// hands it the bits of the scale.
pub fn create_platform<
    Machine,
    Activity,
    Platform: Clone,
    Callback,
    F: FnOnce(Machine, Activity) -> Platform,
    G: FnOnce(&Platform, u32),
>(
    state: &mut AppState<Machine, Activity, Platform, Callback>,
    metrics: &ScreenMetrics,
    build: F,
    scale: G,
) -> (platform: Platform)
    requires
        old(state).machine is Some,
        old(state).activity is Some,
        build.requires((old(state).machine->0, old(state).activity->0)),
        forall|made: Platform|
            build.ensures((old(state).machine->0, old(state).activity->0), made)
                ==> #[trigger] scale.requires((&made, metrics.scale())),
    ensures
        build.ensures((old(state).machine->0, old(state).activity->0), platform),
        scale.ensures((&platform, metrics.scale()), ()),
        *final(state) == (AppState {
            machine: None,
            activity: None,
            platform: final(state).platform,
            ..*old(state)
        }),
        if old(state).initialized {
            final(state).platform is Some && call_ensures(
                Platform::clone,
                (&platform,),
                final(state).platform->0,
            )
        } else {
            final(state).platform == old(state).platform
        },
{
    let machine: Machine = state.machine.take().unwrap();
    let activity: Activity = state.activity.take().unwrap();
    let platform: Platform = build(machine, activity);
    scale(&platform, metrics.display_scale_bits());
    state.set_platform(platform.clone());
    platform
}

/// The bits of the scale that holds until the host reports one.
pub const DEFAULT_DISPLAY_SCALE_BITS: u32 = 0x4040_0000;

/// What the host reported of the screen, in physical pixels.
#[derive(Clone, Copy, Debug, PartialEq, Eq, Structural)]
pub struct ScreenMetrics {
    pub keyboard_height: u32,
    pub inset_top: u32,
    pub inset_bottom: u32,
    /// The bits of the scale, or zero before one was reported.
    pub scale_bits: u32,
}

/// A report as a number that is not negative.
pub open spec fn at_least_zero(reported: i32) -> u32 {
    if reported > 0 {
        reported as u32
    } else {
        0
    }
}

/// Takes a report as a number that is not negative.
pub fn not_negative(reported: i32) -> (size: u32)
    ensures
        size == at_least_zero(reported),
{
    if reported > 0 {
        reported as u32
    } else {
        0
    }
}

impl ScreenMetrics {
    /// Starts without reports.
    pub fn new() -> (metrics: Self)
        ensures
            metrics == (ScreenMetrics {
                keyboard_height: 0,
                inset_top: 0,
                inset_bottom: 0,
                scale_bits: 0,
            }),
    {
        ScreenMetrics { keyboard_height: 0, inset_top: 0, inset_bottom: 0, scale_bits: 0 }
    }

    /// Takes a report on the height of the keyboard.
    pub fn set_keyboard_height(&mut self, height: i32)
        ensures
            *final(self) == (ScreenMetrics {
                keyboard_height: at_least_zero(height),
                ..*old(self)
            }),
    {
        self.keyboard_height = not_negative(height);
    }

    /// Takes a report on the insets of the system.
    pub fn set_system_insets(&mut self, top: i32, bottom: i32)
        ensures
            *final(self) == (ScreenMetrics {
                inset_top: at_least_zero(top),
                inset_bottom: at_least_zero(bottom),
                ..*old(self)
            }),
    {
        self.inset_top = not_negative(top);
        self.inset_bottom = not_negative(bottom);
    }

    /// Takes a report on the scale.
    pub fn set_display_scale(&mut self, scale_bits: u32)
        ensures
            *final(self) == (ScreenMetrics { scale_bits, ..*old(self) }),
    {
        self.scale_bits = scale_bits;
    }

    /// The bits of the scale: the last that was reported, or else the default.
    pub open spec fn scale(self) -> u32 {
        if self.scale_bits == 0 {
            DEFAULT_DISPLAY_SCALE_BITS
        } else {
            self.scale_bits
        }
    }

    /// The bits of the scale.
    pub fn display_scale_bits(&self) -> (bits: u32)
        ensures
            bits == self.scale(),
    {
        if self.scale_bits == 0 {
            DEFAULT_DISPLAY_SCALE_BITS
        } else {
            self.scale_bits
        }
    }
}

/// The height of the keyboard, zero while it is hidden.
pub fn keyboard_height(metrics: &ScreenMetrics) -> (height: u32)
    ensures
        height == metrics.keyboard_height,
{
    metrics.keyboard_height
}

/// The inset at the top.
pub fn system_inset_top(metrics: &ScreenMetrics) -> (inset: u32)
    ensures
        inset == metrics.inset_top,
{
    metrics.inset_top
}

/// The inset at the bottom.
pub fn system_inset_bottom(metrics: &ScreenMetrics) -> (inset: u32)
    ensures
        inset == metrics.inset_bottom,
{
    metrics.inset_bottom
}

/// The window that a handle of the host means: negative ones mean the first.
pub fn selection_handle(window_handle: i64) -> (handle: u64)
    ensures
        handle == (if window_handle > 0 {
            window_handle as u64
        } else {
            0
        }),
{
    if window_handle > 0 {
        window_handle as u64
    } else {
        0
    }
}

/// Reports an index to the host, which counts in thirty-two bits; no index is minus one.
pub fn reported_index(index: Option<usize>) -> (reported: i32)
    ensures
        reported == match index {
            Some(at) => at as i32,
            None => -1i32,
        },
        index matches Some(at) ==> at <= i32::MAX ==> reported == at,
{
    match index {
        Some(at) => at as i32,
        None => -1,
    }
}

/// Reports a count to the host, up to the largest that it can count.
pub fn reported_count(count: usize) -> (reported: i32)
    ensures
        reported == (if count <= i32::MAX as usize {
            count as i32
        } else {
            i32::MAX
        }),
{
    if count <= i32::MAX as usize {
        count as i32
    } else {
        i32::MAX
    }
}

/// Takes the bounds of a range from the host. Negative ones are no range.
pub fn requested_range(start: i32, end: i32) -> (range: Option<(usize, usize)>)
    ensures
        range == (if start < 0 || end < 0 {
            None::<(usize, usize)>
        } else {
            Some((start as usize, end as usize))
        }),
{
    if start < 0 || end < 0 {
        None
    } else {
        Some((start as usize, end as usize))
    }
}

/// Takes the place of an action from the host. A negative one is no place.
pub fn requested_action(action_index: i32) -> (index: Option<usize>)
    ensures
        index == (if action_index < 0 {
            None::<usize>
        } else {
            Some(action_index as usize)
        }),
{
    if action_index < 0 {
        None
    } else {
        Some(action_index as usize)
    }
}

/// A report of a size counts as it is unless it is negative, which counts as none.
pub proof fn negative_sizes_count_as_none(reported: i32)
    ensures
        reported >= 0 ==> at_least_zero(reported) == reported,
        reported < 0 ==> at_least_zero(reported) == 0,
{
}

/// The scale is the one last reported, and three until one is.
pub proof fn the_scale_is_the_one_reported(metrics: ScreenMetrics)
    ensures
        metrics.scale_bits != 0 ==> metrics.scale() == metrics.scale_bits,
        metrics.scale_bits == 0 ==> metrics.scale() == 0x4040_0000,
{
}

} // verus!
