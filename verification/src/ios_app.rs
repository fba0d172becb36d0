//! The state of an iOS application between the calls of its delegate: its windows, the file picker,
//! the keyboard, and text and gestures that arrive from outside as input events.
use crate::geometry::{Pixels, Point};
use crate::gesture::GestureEvent;
use crate::ios_keys::character_to_key_down;
use crate::platform_input::{Modifiers, PlatformInput, TouchPhase};
use crate::text;
use crate::touch_events;
use crate::touch_events::{
    touch_began_to_pointer_down, touch_ended_to_pointer_up, touch_moved_to_pointer_move,
};
use vstd::prelude::*;
use vstd::string::*;

verus! {

/// A view of the host in which the next window is placed.
#[derive(Clone, Copy, Debug, PartialEq, Eq, Structural)]
pub struct EmbeddedWindowConfig {
    pub parent_view: u64,
    pub size: Point,
}

/// What the application delegate set up. Windows and the embedding are kept once it has.
pub struct IosAppState<Callback> {
    pub initialized: bool,
    pub finish_launching: Option<Callback>,
    /// The windows, oldest first.
    pub windows: Vec<u64>,
    pub pending_embedded_window: Option<EmbeddedWindowConfig>,
}

/// The windows but one.
pub open spec fn windows_without(windows: Seq<u64>, window: u64) -> Seq<u64>
    decreases windows.len(),
{
    if windows.len() == 0 {
        Seq::empty()
    } else {
        let rest = windows_without(windows.drop_last(), window);
        if windows.last() == window {
            rest
        } else {
            rest.push(windows.last())
        }
    }
}

impl<Callback> IosAppState<Callback> {
    /// Starts uninitialized.
    pub fn new() -> (state: Self)
        ensures
            !state.initialized,
            state.finish_launching is None,
            state.windows@.len() == 0,
            state.pending_embedded_window is None,
    {
        IosAppState {
            initialized: false,
            finish_launching: None,
            windows: Vec::new(),
            pending_embedded_window: None,
        }
    }

    /// Initializes the application, and tells whether it was not before.
    pub fn initialize(&mut self) -> (first: bool)
        ensures
            first == !old(self).initialized,
            *final(self) == (IosAppState { initialized: true, ..*old(self) }),
    {
        let first: bool = !self.initialized;
        self.initialized = true;
        first
    }

    /// Adds a window, if the application is initialized.
    pub fn register_window(&mut self, window: u64)
        ensures
            final(self).windows@ == (if old(self).initialized {
                old(self).windows@.push(window)
            } else {
                old(self).windows@
            }),
            final(self).initialized == old(self).initialized,
            final(self).finish_launching == old(self).finish_launching,
            final(self).pending_embedded_window == old(self).pending_embedded_window,
    {
        if self.initialized {
            self.windows.push(window);
        }
    }

    /// Forgets a window.
    pub fn unregister_window(&mut self, window: u64)
        ensures
            final(self).windows@ == windows_without(old(self).windows@, window),
            final(self).initialized == old(self).initialized,
            final(self).finish_launching == old(self).finish_launching,
            final(self).pending_embedded_window == old(self).pending_embedded_window,
    {
        let ghost all = self.windows@;
        let mut kept: Vec<u64> = Vec::new();
        let mut i: usize = 0;
        assert(kept@ =~= windows_without(all.take(0), window));
        while i < self.windows.len()
            invariant
                self.windows@ == all,
                all == old(self).windows@,
                self.initialized == old(self).initialized,
                self.finish_launching == old(self).finish_launching,
                self.pending_embedded_window == old(self).pending_embedded_window,
                i <= all.len(),
                kept@ == windows_without(all.take(i as int), window),
            decreases all.len() - i,
        {
            assert(all.take(i as int + 1).drop_last() =~= all.take(i as int));
            if self.windows[i] != window {
                kept.push(self.windows[i]);
            }
            i = i + 1;
        }
        assert(all.take(all.len() as int) =~= all);
        self.windows = kept;
    }

    /// The window that was added last.
    pub fn get_window(&self) -> (window: Option<u64>)
        ensures
            window == (if self.windows@.len() > 0 {
                Some(self.windows@.last())
            } else {
                None::<u64>
            }),
    {
        if self.windows.len() > 0 {
            Some(self.windows[self.windows.len() - 1])
        } else {
            None
        }
    }

    /// Keeps the view in which the next window is placed, if the application is initialized.
    pub fn set_next_embedded_parent(&mut self, config: EmbeddedWindowConfig)
        ensures
            *final(self) == (if old(self).initialized {
                IosAppState { pending_embedded_window: Some(config), ..*old(self) }
            } else {
                *old(self)
            }),
    {
        if self.initialized {
            self.pending_embedded_window = Some(config);
        }
    }

    /// Takes out the view in which the next window is placed, so that it serves for one.
    pub fn take_pending_embedded_window(&mut self) -> (config: Option<EmbeddedWindowConfig>)
        ensures
            config == old(self).pending_embedded_window,
            *final(self) == (IosAppState { pending_embedded_window: None, ..*old(self) }),
    {
        self.pending_embedded_window.take()
    }

    /// Keeps what is to run when launching has finished, if the application is initialized.
    pub fn set_finish_launching_callback(&mut self, callback: Callback)
        ensures
            *final(self) == (if old(self).initialized {
                IosAppState { finish_launching: Some(callback), ..*old(self) }
            } else {
                *old(self)
            }),
    {
        if self.initialized {
            self.finish_launching = Some(callback);
        }
    }

    /// Takes out what is to run when launching has finished, so that it runs once.
    pub fn did_finish_launching(&mut self) -> (callback: Option<Callback>)
        ensures
            callback == old(self).finish_launching,
            *final(self) == (IosAppState { finish_launching: None, ..*old(self) }),
    {
        self.finish_launching.take()
    }
}

/// The phase of a scroll that the host injects.
pub fn injected_phase(phase: i32) -> (touch_phase: TouchPhase)
    ensures
        touch_phase == (if phase == 2 {
            TouchPhase::Ended
        } else {
            TouchPhase::Moved
        }),
{
    if phase == 2 {
        TouchPhase::Ended
    } else {
        TouchPhase::Moved
    }
}

/// Whether the keyboard on screen is visible, as the host reported last.
#[derive(Clone, Copy, Debug, PartialEq, Eq, Structural)]
pub struct SoftwareKeyboard {
    pub visible: bool,
}

/// Keeps whether the keyboard on screen is visible.
pub fn set_software_keyboard_visible(keyboard: &mut SoftwareKeyboard, visible: bool)
    ensures
        final(keyboard).visible == visible,
{
    keyboard.visible = visible;
}

/// Tells whether the keyboard on screen is visible.
pub fn software_keyboard_visible(keyboard: &SoftwareKeyboard) -> (visible: bool)
    ensures
        visible == keyboard.visible,
{
    keyboard.visible
}

/// Turns text from outside into one event for each character.
pub fn handle_text_input(typed: &str) -> (events: Vec<PlatformInput>)
    ensures
        events@.len() == typed@.len(),
        forall|i: int|
            0 <= i < typed@.len() ==> types_itself(#[trigger] events@[i], typed@[i]),
{
    let chars: Vec<char> = text::to_chars(typed);
    let mut events: Vec<PlatformInput> = Vec::new();
    let mut i: usize = 0;
    while i < chars.len()
        invariant
            chars@ == typed@,
            i <= chars@.len(),
            events@.len() == i,
            forall|k: int| 0 <= k < i ==> types_itself(#[trigger] events@[k], typed@[k]),
        decreases chars@.len() - i,
    {
        let event: PlatformInput = character_to_key_down(chars[i]);
        assert(types_itself(event, chars@[i as int]));
        events.push(event);
        i = i + 1;
    }
    events
}

/// Whether an event is that of a key which types a character and is named by it.
pub open spec fn types_itself(event: PlatformInput, c: char) -> bool {
    event matches PlatformInput::KeyDown(down) && {
        &&& down.keystroke.modifiers == Modifiers::none()
        &&& down.keystroke.key@ == seq![c]
        &&& down.keystroke.key_char is Some
        &&& down.keystroke.key_char->0@ == seq![c]
        &&& !down.is_held
        &&& down.prefer_character_input
    }
}

/// The number of the finger that synthetic gestures use.
pub const DEVTOOL_POINTER_ID: u64 = 999;

/// The input event of a step of a synthetic gesture.
pub open spec fn gesture_input(event: GestureEvent) -> PlatformInput {
    match event {
        GestureEvent::Down(x, y) => touch_events::touch_down(
            Point { x, y },
            DEVTOOL_POINTER_ID,
            Modifiers::none(),
        ),
        GestureEvent::Move(x, y) => touch_events::touch_move(
            Point { x, y },
            DEVTOOL_POINTER_ID,
            Modifiers::none(),
        ),
        GestureEvent::Up(x, y) => touch_events::touch_up(
            Point { x, y },
            DEVTOOL_POINTER_ID,
            Modifiers::none(),
        ),
    }
}

/// Turns a step of a synthetic gesture into an input event.
fn input_of(event: GestureEvent) -> (input: PlatformInput)
    ensures
        input == gesture_input(event),
{
    match event {
        GestureEvent::Down(x, y) => touch_began_to_pointer_down(
            Point { x, y },
            DEVTOOL_POINTER_ID,
            Modifiers::default(),
        ),
        GestureEvent::Move(x, y) => touch_moved_to_pointer_move(
            Point { x, y },
            DEVTOOL_POINTER_ID,
            Modifiers::default(),
        ),
        GestureEvent::Up(x, y) => touch_ended_to_pointer_up(
            Point { x, y },
            DEVTOOL_POINTER_ID,
            Modifiers::default(),
        ),
    }
}

/// Turns steps of synthetic gestures into input events, in order.
pub fn process_devtool_gestures(events: &Vec<GestureEvent>) -> (inputs: Vec<PlatformInput>)
    ensures
        inputs@ == events@.map_values(|event: GestureEvent| gesture_input(event)),
{
    let mut inputs: Vec<PlatformInput> = Vec::new();
    let ghost all = events@.map_values(|event: GestureEvent| gesture_input(event));
    let mut i: usize = 0;
    while i < events.len()
        invariant
            i <= events@.len(),
            all == events@.map_values(|event: GestureEvent| gesture_input(event)),
            inputs@ == all.take(i as int),
        decreases events@.len() - i,
    {
        inputs.push(input_of(events[i]));
        i = i + 1;
        assert(inputs@ =~= all.take(i as int));
    }
    assert(all.take(i as int) =~= all);
    inputs
}

/// Why the file picker could not be shown or a path be made up.
#[derive(Clone, Copy, Debug, PartialEq, Eq, Structural)]
pub enum PickerError {
    NoKeyWindow,
    NoRootViewController,
    NoDocumentsDirectory,
    NoDocumentsPath,
}

/// The request that the file picker is shown for. There is at most one.
#[derive(Clone, Copy, Debug, PartialEq, Eq, Structural)]
pub struct FilePickerState {
    pub request: Option<u64>,
    pub selecting_directories: bool,
}

/// The paths that are not empty.
pub open spec fn usable_paths(paths: Seq<String>) -> Seq<String>
    decreases paths.len(),
{
    if paths.len() == 0 {
        Seq::empty()
    } else {
        let rest = usable_paths(paths.drop_last());
        if paths.last()@.len() > 0 {
            rest.push(paths.last())
        } else {
            rest
        }
    }
}

impl FilePickerState {
    /// Starts without a request.
    pub fn new() -> (state: Self)
        ensures
            state == (FilePickerState { request: None, selecting_directories: false }),
    {
        FilePickerState { request: None, selecting_directories: false }
    }

    /// Takes a request in place of an earlier one.
    pub fn prompt_for_paths(&mut self, request: u64, directories: bool)
        ensures
            *final(self) == (FilePickerState {
                request: Some(request),
                selecting_directories: directories,
            }),
    {
        self.request = Some(request);
        self.selecting_directories = directories;
    }

    /// Tells what keeps the picker from being shown, if anything.
    pub fn presentation_error(has_key_window: bool, has_root_view_controller: bool) -> (error:
        Option<PickerError>)
        ensures
            error == (if !has_key_window {
                Some(PickerError::NoKeyWindow)
            } else if !has_root_view_controller {
                Some(PickerError::NoRootViewController)
            } else {
                None
            }),
    {
        if !has_key_window {
            Some(PickerError::NoKeyWindow)
        } else if !has_root_view_controller {
            Some(PickerError::NoRootViewController)
        } else {
            None
        }
    }

    /// Takes out the request, which is answered now. A second answer finds none.
    pub fn finish(&mut self) -> (request: Option<u64>)
        ensures
            request == old(self).request,
            *final(self) == (FilePickerState { request: None, ..*old(self) }),
    {
        self.request.take()
    }
}

/// The answer to a request after paths were picked: the paths that are not empty, and nothing where
/// none is left.
pub fn picked_paths(paths: Vec<String>) -> (picked: Option<Vec<String>>)
    ensures
        match picked {
            Some(kept) => kept@ == usable_paths(paths@) && kept@.len() > 0,
            None => usable_paths(paths@).len() == 0,
        },
{
    let ghost all = paths@;
    let mut rest: Vec<String> = paths;
    let mut kept: Vec<String> = Vec::new();
    let ghost mut done: int = 0;
    assert(kept@ =~= usable_paths(all.take(0)));
    while rest.len() > 0
        invariant
            0 <= done <= all.len(),
            rest@ == all.skip(done),
            kept@ == usable_paths(all.take(done)),
        decreases rest@.len(),
    {
        let path: String = rest.remove(0);
        assert(all.take(done + 1).drop_last() =~= all.take(done));
        if !path.as_str().is_empty() {
            kept.push(path);
        }
        proof {
            assert(rest@ =~= all.skip(done + 1));
            done = done + 1;
        }
    }
    assert(all.take(done) =~= all);
    if kept.len() == 0 {
        None
    } else {
        Some(kept)
    }
}

/// The name under which a file is saved.
pub fn save_name(suggested: Option<&str>) -> (name: String)
    ensures
        name@ == match suggested {
            Some(name) => name@,
            None => "Untitled"@,
        },
{
    match suggested {
        Some(name) => name.to_owned(),
        None => "Untitled".to_owned(),
    }
}

/// A window that was forgotten is not listed any more, and the others stay.
pub proof fn forgotten_windows_are_gone(windows: Seq<u64>, window: u64, other: u64)
    ensures
        !windows_without(windows, window).contains(window),
        other != window ==> (windows.contains(other) <==> windows_without(
            windows,
            window,
        ).contains(other)),
    decreases windows.len(),
{
    if windows.len() > 0 {
        let rest = windows.drop_last();
        let last = windows.last();
        forgotten_windows_are_gone(rest, window, other);
        let kept = windows_without(rest, window);
        let all = windows_without(windows, window);
        assert(windows =~= rest.push(last));
        if all.contains(window) {
            let i = choose|i: int| 0 <= i < all.len() && all[i] == window;
            if i < kept.len() {
                assert(kept[i] == window);
                assert(kept.contains(window));
            }
        }
        if other != window {
            if windows.contains(other) {
                let i = choose|i: int| 0 <= i < windows.len() && windows[i] == other;
                if i < rest.len() {
                    assert(rest[i] == other);
                    assert(rest.contains(other));
                    let k = choose|k: int| 0 <= k < kept.len() && kept[k] == other;
                    assert(all[k] == other);
                } else {
                    assert(all[all.len() - 1] == other);
                }
            }
            if all.contains(other) {
                let i = choose|i: int| 0 <= i < all.len() && all[i] == other;
                if i < kept.len() {
                    assert(kept[i] == other);
                    assert(kept.contains(other));
                    let k = choose|k: int| 0 <= k < rest.len() && rest[k] == other;
                    assert(windows[k] == other);
                } else {
                    assert(windows[windows.len() - 1] == other);
                }
            }
        }
    }
}

/// The windows that stay are all but the forgotten one, each as often as before and in the same order.
pub proof fn the_other_windows_keep_their_order(items: Seq<u64>, window: u64) -> (sources: Seq<int>)
    ensures
        sources.len() == windows_without(items, window).len(),
        forall|i: int, j: int| 0 <= i < j < sources.len() ==> #[trigger] sources[i] < #[trigger] sources[j],
        forall|i: int|
            0 <= i < sources.len() ==> {
                &&& 0 <= #[trigger] sources[i] < items.len()
                &&& items[sources[i]] != window
                &&& windows_without(items, window)[i] == items[sources[i]]
            },
        forall|k: int|
            0 <= k < items.len() && (#[trigger] items[k]) != window ==> sources.contains(k),
    decreases items.len(),
{
    if items.len() == 0 {
        Seq::empty()
    } else {
        let shorter = items.drop_last();
        let rest = the_other_windows_keep_their_order(shorter, window);
        let last = items.len() - 1;
        let sources = if items[last] != window {
            rest.push(last)
        } else {
            rest
        };
        assert forall|k: int|
            0 <= k < items.len() && (#[trigger] items[k]) != window implies sources.contains(k) by {
            if k < last {
                assert(shorter[k] == items[k]);
                let i = choose|i: int| 0 <= i < rest.len() && rest[i] == k;
                assert(sources[i] == k);
            } else {
                assert(sources[rest.len() as int] == k);
            }
        }
        assert forall|i: int| 0 <= i < rest.len() implies items[#[trigger] rest[i]]
            == shorter[rest[i]] by {}
        sources
    }
}

/// The paths that are kept are those with any character, in the order in which they were picked.
pub proof fn picked_paths_keep_their_order(items: Seq<String>) -> (sources: Seq<int>)
    ensures
        sources.len() == usable_paths(items).len(),
        forall|i: int, j: int| 0 <= i < j < sources.len() ==> #[trigger] sources[i] < #[trigger] sources[j],
        forall|i: int|
            0 <= i < sources.len() ==> {
                &&& 0 <= #[trigger] sources[i] < items.len()
                &&& items[sources[i]]@.len() > 0
                &&& usable_paths(items)[i] == items[sources[i]]
            },
        forall|k: int|
            0 <= k < items.len() && (#[trigger] items[k])@.len() > 0 ==> sources.contains(k),
    decreases items.len(),
{
    if items.len() == 0 {
        Seq::empty()
    } else {
        let shorter = items.drop_last();
        let rest = picked_paths_keep_their_order(shorter);
        let last = items.len() - 1;
        let sources = if items[last]@.len() > 0 {
            rest.push(last)
        } else {
            rest
        };
        assert forall|k: int|
            0 <= k < items.len() && (#[trigger] items[k])@.len() > 0 implies sources.contains(k) by {
            if k < last {
                assert(shorter[k] == items[k]);
                let i = choose|i: int| 0 <= i < rest.len() && rest[i] == k;
                assert(sources[i] == k);
            } else {
                assert(sources[rest.len() as int] == k);
            }
        }
        assert forall|i: int| 0 <= i < rest.len() implies items[#[trigger] rest[i]]
            == shorter[rest[i]] by {}
        sources
    }
}

/// A step of a synthetic gesture is the event of one finger at its point: pressed, moved or released as
/// the step says.
pub proof fn gesture_steps_are_events_of_one_finger(x: Pixels, y: Pixels)
    ensures
        gesture_input(GestureEvent::Down(x, y)) matches PlatformInput::PointerDown(event) && {
            &&& event.pointer_id == 999
            &&& event.is_primary
            &&& event.kind is Touch
            &&& event.button is Primary
            &&& event.position.x == x
            &&& event.position.y == y
            &&& event.modifiers == Modifiers::none()
        },
        gesture_input(GestureEvent::Move(x, y)) matches PlatformInput::PointerMove(event) && {
            &&& event.pointer_id == 999
            &&& event.is_primary
            &&& event.kind is Touch
            &&& event.position.x == x
            &&& event.position.y == y
            &&& event.modifiers == Modifiers::none()
        },
        gesture_input(GestureEvent::Up(x, y)) matches PlatformInput::PointerUp(event) && {
            &&& event.pointer_id == 999
            &&& event.is_primary
            &&& event.kind is Touch
            &&& event.button is Primary
            &&& event.position.x == x
            &&& event.position.y == y
            &&& event.modifiers == Modifiers::none()
        },
{
}

/// An event that types a character is a key that goes down once, is named by the character and types
/// it, without any modifier.
pub proof fn typed_characters_are_keys(event: PlatformInput, c: char)
    requires
        types_itself(event, c),
    ensures
        event matches PlatformInput::KeyDown(down) && {
            &&& down.keystroke.key@.len() == 1
            &&& down.keystroke.key@[0] == c
            &&& down.keystroke.key_char matches Some(typed)
            &&& typed@.len() == 1
            &&& typed@[0] == c
            &&& !down.keystroke.modifiers.shift
            &&& !down.keystroke.modifiers.control
            &&& !down.keystroke.modifiers.alt
            &&& !down.keystroke.modifiers.platform
            &&& !down.is_held
            &&& down.prefer_character_input
        },
{
}

} // verus!
