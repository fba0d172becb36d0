//! Selectable subtrees, their menu actions and the text fragments registered inside them.
use crate::element_id::{ElementId, GlobalElementId};
use crate::geometry::Bounds;
use smallvec::SmallVec;
use std::ops::Range;
use vstd::prelude::*;

verus! {

/// The key under which the application keeps an action that a menu item dispatches.
#[derive(Clone, Copy, Debug, PartialEq, Eq, Structural)]
pub struct ActionHandle {
    pub key: u64,
}

/// The key under which the renderer keeps the painted layout of a text.
#[derive(Clone, Copy, Debug, PartialEq, Eq, Structural)]
pub struct TextLayout {
    pub key: u64,
}

/// Native menu presentation metadata for a selection action.
#[derive(Debug, PartialEq, Eq)]
pub struct SelectionActionPresentation {
    /// Title shown for this action in the native selection menu.
    pub name: String,
    /// Optional platform-native image name shown beside this action.
    pub image_name: Option<String>,
}

/// A custom menu action attached to a selection area.
#[derive(Debug, PartialEq, Eq)]
pub struct SelectionAction {
    pub name: String,
    pub image_name: Option<String>,
    pub action: ActionHandle,
}

impl SelectionAction {
    /// Create a new selection-scoped action.
    pub fn new(name: String, action: ActionHandle) -> (item: Self)
        ensures
            item == (SelectionAction { name, image_name: None, action }),
    {
        SelectionAction { name, image_name: None, action }
    }

    /// Set the platform-native image name shown beside this action.
    pub fn image(self, image_name: String) -> (item: Self)
        ensures
            item == (SelectionAction { image_name: Some(image_name), ..self }),
    {
        SelectionAction { name: self.name, image_name: Some(image_name), action: self.action }
    }

    /// Set the platform-native system image name shown beside this action.
    pub fn system_image(self, system_image_name: String) -> (item: Self)
        ensures
            item == (SelectionAction { image_name: Some(system_image_name), ..self }),
    {
        self.image(system_image_name)
    }

    /// Returns the title that should appear in the native selection menu.
    pub fn name(&self) -> (name: &String)
        ensures
            *name == self.name,
    {
        &self.name
    }

    /// Returns the platform-native image name for the native selection menu.
    pub fn image_name(&self) -> (image_name: Option<&String>)
        ensures
            image_name is Some == self.image_name is Some,
            image_name matches Some(name) ==> *name == self.image_name->0,
    {
        self.image_name.as_ref()
    }

    /// Returns the native menu presentation metadata for this action.
    pub fn presentation(&self) -> (presentation: SelectionActionPresentation)
        ensures
            presentation.name == self.name,
            presentation.image_name == self.image_name,
    {
        SelectionActionPresentation {
            name: self.name.clone(),
            image_name: self.image_name.clone(),
        }
    }

    /// Returns the action to dispatch when this menu item is chosen.
    pub fn action(&self) -> (action: ActionHandle)
        ensures
            action == self.action,
    {
        self.action
    }
}

impl Clone for SelectionAction {
    fn clone(&self) -> (copy: Self)
        ensures
            copy == *self,
    {
        SelectionAction {
            name: self.name.clone(),
            image_name: self.image_name.clone(),
            action: self.action,
        }
    }
}

/// Menu actions in order, kept in a small vector that stores up to four of them inline.
#[verifier::external_body]
pub struct ActionList {
    items: SmallVec<[SelectionAction; 4]>,
}

/// The actions a list holds, in order.
pub uninterp spec fn action_items(actions: ActionList) -> Seq<SelectionAction>;

impl ActionList {
    /// Calls `SmallVec::new`. Trusted: a new small vector holds nothing.
    #[verifier::external_body]
    pub(crate) fn new() -> (actions: Self)
        ensures
            action_items(actions) == Seq::<SelectionAction>::empty(),
    {
        ActionList { items: SmallVec::new() }
    }

    /// Calls `SmallVec::push`. Trusted: the value is added behind what was there.
    #[verifier::external_body]
    pub(crate) fn push(&mut self, action: SelectionAction)
        ensures
            action_items(*final(self)) == action_items(*old(self)).push(action),
    {
        self.items.push(action)
    }

    /// Calls `SmallVec::as_slice`. Trusted: the slice holds the contents in order.
    #[verifier::external_body]
    fn slice(&self) -> (slice: &[SelectionAction])
        ensures
            slice@ == action_items(*self),
    {
        self.items.as_slice()
    }

    /// The actions in order.
    pub fn as_slice(&self) -> (slice: &[SelectionAction])
        ensures
            slice@ == self@,
    {
        self.slice()
    }
}

impl View for ActionList {
    type V = Seq<SelectionAction>;

    open spec fn view(&self) -> Seq<SelectionAction> {
        action_items(*self)
    }
}

impl Clone for ActionList {
    fn clone(&self) -> (copy: Self)
        ensures
            copy@ == self@,
    {
        let items: &[SelectionAction] = self.as_slice();
        let mut copy = ActionList::new();
        let mut i: usize = 0;
        while i < items.len()
            invariant
                i <= items@.len(),
                copy@ == items@.take(i as int),
            decreases items@.len() - i,
        {
            copy.push(items[i].clone());
            i = i + 1;
            assert(copy@ =~= items@.take(i as int));
        }
        assert(items@.take(items@.len() as int) =~= items@);
        copy
    }
}

/// Logical metadata for a selectable subtree.
///
/// A selection area owns stable identity and any custom selection-scoped menu actions. Platform
/// selection presenters can bind native UI to this logical boundary.
pub struct SelectionArea {
    pub id: ElementId,
    pub actions: ActionList,
}

impl SelectionArea {
    /// Create a new logical selection area with the given element identity.
    pub fn new(id: ElementId) -> (area: Self)
        ensures
            area.id == id,
            area.actions@ == Seq::<SelectionAction>::empty(),
    {
        SelectionArea { id, actions: ActionList::new() }
    }

    /// Returns the element identity for this selection area.
    pub fn id(&self) -> (id: &ElementId)
        ensures
            *id == self.id,
    {
        &self.id
    }

    /// Returns the custom actions exposed for the current selection.
    pub fn actions(&self) -> (actions: &[SelectionAction])
        ensures
            actions@ == self.actions@,
    {
        self.actions.as_slice()
    }

    /// Append a custom action to the native selection menu.
    pub fn action(self, name: String, action: ActionHandle) -> (area: Self)
        ensures
            area.id == self.id,
            area.actions@ == self.actions@.push(
                SelectionAction { name, image_name: None, action },
            ),
    {
        let mut area = self;
        area.actions.push(SelectionAction::new(name, action));
        area
    }

    /// Append a custom action with a platform-native image name.
    pub fn action_with_image(self, name: String, image_name: String, action: ActionHandle) -> (area:
        Self)
        ensures
            area.id == self.id,
            area.actions@ == self.actions@.push(
                SelectionAction { name, image_name: Some(image_name), action },
            ),
    {
        let mut area = self;
        area.actions.push(SelectionAction::new(name, action).image(image_name));
        area
    }

    /// Append a custom action with a platform-native system image name.
    pub fn action_with_system_image(
        self,
        name: String,
        system_image_name: String,
        action: ActionHandle,
    ) -> (area: Self)
        ensures
            area.id == self.id,
            area.actions@ == self.actions@.push(
                SelectionAction { name, image_name: Some(system_image_name), action },
            ),
    {
        self.action_with_image(name, system_image_name, action)
    }

    /// Extend the selection menu with pre-built actions.
    pub fn with_actions(self, actions: Vec<SelectionAction>) -> (area: Self)
        ensures
            area.id == self.id,
            area.actions@ == self.actions@ + actions@,
    {
        let mut area = self;
        let mut i: usize = 0;
        while i < actions.len()
            invariant
                i <= actions@.len(),
                area.id == self.id,
                area.actions@ == self.actions@ + actions@.take(i as int),
            decreases actions@.len() - i,
        {
            area.actions.push(actions[i].clone());
            i = i + 1;
            assert(area.actions@ =~= self.actions@ + actions@.take(i as int));
        }
        assert(actions@.take(actions@.len() as int) =~= actions@);
        area
    }
}

impl Clone for SelectionArea {
    fn clone(&self) -> (copy: Self)
        ensures
            copy.id@ == self.id@,
            copy.actions@ == self.actions@,
    {
        SelectionArea { id: self.id.clone(), actions: self.actions.clone() }
    }
}

/// A selection area while its subtree is being painted.
pub struct ActiveSelectionArea {
    pub selection_area: SelectionArea,
    pub global_id: Option<GlobalElementId>,
    pub bounds: Option<Bounds>,
    pub hitbox_range: Option<Range<usize>>,
}

impl ActiveSelectionArea {
    /// Starts with no known region on screen.
    pub fn new(selection_area: SelectionArea, global_id: Option<GlobalElementId>) -> (area: Self)
        ensures
            area == (ActiveSelectionArea {
                selection_area,
                global_id,
                bounds: None,
                hitbox_range: None,
            }),
    {
        ActiveSelectionArea { selection_area, global_id, bounds: None, hitbox_range: None }
    }

    /// Records where the area was painted and which hitboxes its subtree owns.
    pub fn with_interaction_region(self, bounds: Bounds, hitbox_range: Range<usize>) -> (area: Self)
        ensures
            area == (ActiveSelectionArea {
                bounds: Some(bounds),
                hitbox_range: Some(hitbox_range),
                ..self
            }),
    {
        let mut area = self;
        area.bounds = Some(bounds);
        area.hitbox_range = Some(hitbox_range);
        area
    }
}

/// A selection area that was active during the current rendered frame.
pub struct RegisteredSelectionArea {
    pub selection_area: SelectionArea,
    pub global_id: Option<GlobalElementId>,
    pub view_id: u64,
    pub bounds: Option<Bounds>,
}

impl RegisteredSelectionArea {
    pub fn new(
        selection_area: SelectionArea,
        global_id: Option<GlobalElementId>,
        view_id: u64,
        bounds: Option<Bounds>,
    ) -> (area: Self)
        ensures
            area == (RegisteredSelectionArea { selection_area, global_id, view_id, bounds }),
    {
        RegisteredSelectionArea { selection_area, global_id, view_id, bounds }
    }

    /// Returns the logical selection-area metadata for this registration.
    pub fn selection_area(&self) -> (area: &SelectionArea)
        ensures
            *area == self.selection_area,
    {
        &self.selection_area
    }

    /// Returns the globally unique element identity for this area, if available.
    pub fn global_id(&self) -> (id: Option<&GlobalElementId>)
        ensures
            id is Some == self.global_id is Some,
            id matches Some(id) ==> *id == self.global_id->0,
    {
        self.global_id.as_ref()
    }

    /// Returns the owning view for the registered selection area.
    pub fn view_id(&self) -> (id: u64)
        ensures
            id == self.view_id,
    {
        self.view_id
    }

    /// Returns the rendered bounds for this selection area, if known.
    pub fn bounds(&self) -> (bounds: Option<Bounds>)
        ensures
            bounds == self.bounds,
    {
        self.bounds
    }
}

/// A text fragment that participates in selection inside a [`SelectionArea`].
#[derive(Debug)]
pub struct TextSelectionFragment {
    pub text: String,
    pub layout: TextLayout,
    pub order: Option<u64>,
    pub separator_after: String,
}

impl TextSelectionFragment {
    /// Create a new text-layout-backed selection fragment.
    pub fn new(text: String, layout: TextLayout) -> (fragment: Self)
        ensures
            fragment.text == text,
            fragment.layout == layout,
            fragment.order is None,
            fragment.separator_after@ == Seq::<char>::empty(),
    {
        TextSelectionFragment { text, layout, order: None, separator_after: String::new() }
    }

    /// Override this fragment's ordering within the containing selection area.
    pub fn order(self, order: u64) -> (fragment: Self)
        ensures
            fragment == (TextSelectionFragment { order: Some(order), ..self }),
    {
        let mut fragment = self;
        fragment.order = Some(order);
        fragment
    }

    /// Append text after this fragment when copying across fragment boundaries.
    pub fn separator_after(self, separator_after: String) -> (fragment: Self)
        ensures
            fragment == (TextSelectionFragment { separator_after, ..self }),
    {
        let mut fragment = self;
        fragment.separator_after = separator_after;
        fragment
    }

    /// Returns the fragment text.
    pub fn text(&self) -> (text: &String)
        ensures
            *text == self.text,
    {
        &self.text
    }

    /// Returns the fragment layout.
    pub fn layout(&self) -> (layout: &TextLayout)
        ensures
            *layout == self.layout,
    {
        &self.layout
    }

    /// Returns the explicit ordering for this fragment, if any.
    pub fn explicit_order(&self) -> (order: Option<u64>)
        ensures
            order == self.order,
    {
        self.order
    }

    /// Returns the separator appended after this fragment during copy serialization.
    pub fn trailing_separator(&self) -> (separator: &String)
        ensures
            *separator == self.separator_after,
    {
        &self.separator_after
    }
}

impl Clone for TextSelectionFragment {
    fn clone(&self) -> (copy: Self)
        ensures
            copy == *self,
    {
        TextSelectionFragment {
            text: self.text.clone(),
            layout: self.layout,
            order: self.order,
            separator_after: self.separator_after.clone(),
        }
    }
}

/// A text fragment registered during the current rendered frame.
pub struct RegisteredTextSelectionFragment {
    pub active_area: ActiveSelectionArea,
    pub view_id: u64,
    pub fragment: TextSelectionFragment,
}

impl RegisteredTextSelectionFragment {
    pub fn new(
        active_area: ActiveSelectionArea,
        view_id: u64,
        fragment: TextSelectionFragment,
    ) -> (registered: Self)
        ensures
            registered == (RegisteredTextSelectionFragment { active_area, view_id, fragment }),
    {
        RegisteredTextSelectionFragment { active_area, view_id, fragment }
    }

    /// Returns the logical selection area that owns this fragment.
    pub fn selection_area(&self) -> (area: &SelectionArea)
        ensures
            *area == self.active_area.selection_area,
    {
        &self.active_area.selection_area
    }

    /// Returns the global element identity for the owning selection area, if available.
    pub fn selection_area_global_id(&self) -> (id: Option<&GlobalElementId>)
        ensures
            id is Some == self.active_area.global_id is Some,
            id matches Some(id) ==> *id == self.active_area.global_id->0,
    {
        self.active_area.global_id.as_ref()
    }

    /// Returns the view that painted this fragment.
    pub fn view_id(&self) -> (id: u64)
        ensures
            id == self.view_id,
    {
        self.view_id
    }

    /// Returns the registered fragment data.
    pub fn fragment(&self) -> (fragment: &TextSelectionFragment)
        ensures
            *fragment == self.fragment,
    {
        &self.fragment
    }
}

/// Prepaint state used to preserve the hitboxes owned by a selection area subtree.
#[derive(Debug)]
pub struct SelectionAreaPrepaintState {
    pub hitbox_range: Range<usize>,
}

/// An element wrapper that marks its subtree as a logical selection area.
pub struct SelectionAreaElement {
    pub selection_area: SelectionArea,
    /// The key under which the renderer keeps the wrapped subtree.
    pub child: u64,
}

impl SelectionAreaElement {
    /// Create a selection-area wrapper around the provided child subtree, identified by the place
    /// in the source that created it.
    pub fn new(child: u64, file: String, line: u32, column: u32) -> (element: Self)
        ensures
            element.selection_area.id == (ElementId::CodeLocation { file, line, column }),
            element.selection_area.actions@ == Seq::<SelectionAction>::empty(),
            element.child == child,
    {
        SelectionAreaElement {
            selection_area: SelectionArea::new(ElementId::CodeLocation { file, line, column }),
            child,
        }
    }

    /// Override the selection area's stable identity.
    pub fn id(self, id: ElementId) -> (element: Self)
        ensures
            element.selection_area.id == id,
            element.selection_area.actions@ == self.selection_area.actions@,
            element.child == self.child,
    {
        let mut element = self;
        element.selection_area.id = id;
        element
    }

    /// Append a custom selection action to this area.
    pub fn action(self, name: String, action: ActionHandle) -> (element: Self)
        ensures
            element.selection_area.id == self.selection_area.id,
            element.selection_area.actions@ == self.selection_area.actions@.push(
                SelectionAction { name, image_name: None, action },
            ),
            element.child == self.child,
    {
        SelectionAreaElement {
            selection_area: self.selection_area.action(name, action),
            child: self.child,
        }
    }

    /// Append a custom selection action with a platform-native image name.
    pub fn action_with_image(self, name: String, image_name: String, action: ActionHandle) -> (
    element: Self)
        ensures
            element.selection_area.id == self.selection_area.id,
            element.selection_area.actions@ == self.selection_area.actions@.push(
                SelectionAction { name, image_name: Some(image_name), action },
            ),
            element.child == self.child,
    {
        SelectionAreaElement {
            selection_area: self.selection_area.action_with_image(name, image_name, action),
            child: self.child,
        }
    }

    /// Append a custom selection action with a platform-native system image name.
    pub fn action_with_system_image(
        self,
        name: String,
        system_image_name: String,
        action: ActionHandle,
    ) -> (element: Self)
        ensures
            element.selection_area.id == self.selection_area.id,
            element.selection_area.actions@ == self.selection_area.actions@.push(
                SelectionAction { name, image_name: Some(system_image_name), action },
            ),
            element.child == self.child,
    {
        self.action_with_image(name, system_image_name, action)
    }

    /// Extend this selection area with pre-built custom actions.
    pub fn with_actions(self, actions: Vec<SelectionAction>) -> (element: Self)
        ensures
            element.selection_area.id == self.selection_area.id,
            element.selection_area.actions@ == self.selection_area.actions@ + actions@,
            element.child == self.child,
    {
        SelectionAreaElement {
            selection_area: self.selection_area.with_actions(actions),
            child: self.child,
        }
    }

    /// Returns the logical selection-area metadata for this wrapper.
    pub fn selection_area(&self) -> (area: &SelectionArea)
        ensures
            *area == self.selection_area,
    {
        &self.selection_area
    }

    /// The hitboxes that prepainting the child added to a frame that held `hitbox_start` before.
    pub fn prepaint_state(&self, hitbox_start: usize, hitbox_end: usize) -> (state:
        SelectionAreaPrepaintState)
        ensures
            state.hitbox_range.start == hitbox_start,
            state.hitbox_range.end == hitbox_end,
    {
        SelectionAreaPrepaintState { hitbox_range: hitbox_start..hitbox_end }
    }

    /// The region that the area's fragments carry while its child is painted.
    pub fn painted_area(
        &self,
        global_id: Option<GlobalElementId>,
        bounds: Bounds,
        prepaint: &SelectionAreaPrepaintState,
    ) -> (area: ActiveSelectionArea)
        ensures
            area.selection_area.id@ == self.selection_area.id@,
            area.selection_area.actions@ == self.selection_area.actions@,
            area.global_id == global_id,
            area.bounds == Some(bounds),
            area.hitbox_range == Some(prepaint.hitbox_range),
    {
        ActiveSelectionArea::new(
            self.selection_area.clone(),
            global_id,
        ).with_interaction_region(bounds, prepaint.hitbox_range.start..prepaint.hitbox_range.end)
    }
}

/// Wrap a subtree in a logical text-selection boundary.
///
/// This establishes the identity for selectable content without routing selection through the
/// editable input system.
pub fn selection_area(child: u64, file: String, line: u32, column: u32) -> (element:
    SelectionAreaElement)
    ensures
        element.selection_area.id == (ElementId::CodeLocation { file, line, column }),
        element.selection_area.actions@ == Seq::<SelectionAction>::empty(),
        element.child == child,
{
    SelectionAreaElement::new(child, file, line, column)
}

} // verus!
