//! Selections in the areas of a window.
use gpui_mobile::element_id::{ElementId, GlobalElementId};
use gpui_mobile::geometry::{Bounds, Pixels, Point, Size};
use gpui_mobile::selection::{
    selection_area, ActionHandle, ActiveSelectionArea, RegisteredTextSelectionFragment,
    SelectionAction, SelectionArea, TextLayout, TextSelectionFragment,
};
use gpui_mobile::selection_document::{SelectionAreaKey, SelectionDocument};
use gpui_mobile::selection_handler::{
    active_read_only_selection, SelectionState, SelectionWindow, WindowSelectionHandler,
};
use gpui_mobile::selection_probe::{FragmentProbe, HitboxBehavior, HitboxProbe, PointProbe};
use gpui_mobile::selection_range::{caret_bounds, BoundsQuery, CaretProbe, LayoutRect};

fn px(value: f32) -> Pixels {
    Pixels { bits: value.to_bits() }
}

fn bounds(x: f32, y: f32, width: f32, height: f32) -> Bounds {
    Bounds {
        origin: Point { x: px(x), y: px(y) },
        size: Size { width: px(width), height: px(height) },
    }
}

fn name(name: &str) -> ElementId {
    ElementId::Name(name.to_string())
}

fn path(names: &[&str]) -> Option<GlobalElementId> {
    Some(GlobalElementId(names.iter().map(|part| name(part)).collect()))
}

fn fragment(text: &str, key: u64) -> TextSelectionFragment {
    TextSelectionFragment::new(text.to_string(), TextLayout { key })
}

fn registered(
    area: SelectionArea,
    global_id: Option<GlobalElementId>,
    view_id: u64,
    fragment: TextSelectionFragment,
) -> RegisteredTextSelectionFragment {
    let active = ActiveSelectionArea::new(area, global_id)
        .with_interaction_region(bounds(0.0, 0.0, 240.0, 80.0), 1..2);
    RegisteredTextSelectionFragment::new(active, view_id, fragment)
}

fn window(fragments: Vec<RegisteredTextSelectionFragment>) -> SelectionWindow {
    SelectionWindow {
        fragments,
        selection_state: SelectionState::default(),
        latest_read_only_selection: None,
    }
}

fn hello_world() -> SelectionWindow {
    let area = || SelectionArea::new(name("area"));
    window(vec![
        registered(
            area(),
            path(&["root", "area"]),
            7,
            fragment("hello", 1).separator_after(" ".to_string()),
        ),
        registered(area(), path(&["root", "area"]), 7, fragment("world", 2)),
    ])
}

fn with_actions() -> SelectionWindow {
    let area = SelectionArea::new(name("area"))
        .action_with_system_image(
            "Add to Chat".to_string(),
            "plus.bubble".to_string(),
            ActionHandle { key: 1 },
        )
        .action("Other".to_string(), ActionHandle { key: 2 });
    window(vec![registered(area, path(&["area"]), 7, fragment("hello", 1))])
}

fn first_key(window: &SelectionWindow) -> SelectionAreaKey {
    SelectionDocument::all(&window.fragments).remove(0).key
}

fn select(window: &mut SelectionWindow, range: std::ops::Range<usize>) {
    let key = first_key(window);
    window.selection_state = SelectionState {
        active_area: Some(key),
        range_utf16: Some(range),
        reversed: false,
    };
}

fn action_names(window: &SelectionWindow) -> Vec<String> {
    let actions = WindowSelectionHandler.selection_actions(window);
    actions.as_slice().iter().map(|action| action.name().clone()).collect()
}

fn miss() -> FragmentProbe {
    FragmentProbe {
        in_area: false,
        in_layout: false,
        byte_index: 0,
        vertical_distance: px(0.0),
        horizontal_distance: px(0.0),
    }
}

fn on_text(byte_index: usize) -> FragmentProbe {
    FragmentProbe { in_area: true, in_layout: true, byte_index, ..miss() }
}

fn near(byte_index: usize, vertical: f32, horizontal: f32) -> FragmentProbe {
    FragmentProbe {
        in_area: true,
        in_layout: false,
        byte_index,
        vertical_distance: px(vertical),
        horizontal_distance: px(horizontal),
    }
}

fn probe(fragments: Vec<FragmentProbe>) -> PointProbe {
    PointProbe { fragments, hitboxes: vec![], hit_ids: vec![] }
}

fn overlaid(fragments: Vec<FragmentProbe>, behavior: HitboxBehavior) -> PointProbe {
    let hitbox = |id: u64, behavior: HitboxBehavior| HitboxProbe { id, behavior, contains_point: true };
    PointProbe {
        fragments,
        hitboxes: vec![
            hitbox(10, HitboxBehavior::Normal),
            hitbox(11, HitboxBehavior::Normal),
            hitbox(12, behavior),
        ],
        hit_ids: vec![12, 11, 10],
    }
}

#[test]
fn selection_handler_reads_multi_fragment_selection_area() {
    let mut window = hello_world();
    select(&mut window, 0..11);

    let selection = WindowSelectionHandler.selected_text_range(&mut window).unwrap();
    assert_eq!(selection.range, 0..11);
    assert_eq!(
        WindowSelectionHandler.text_for_range(0..11, &window),
        Some((0..11, "hello world".to_string()))
    );
    assert!(WindowSelectionHandler.bounds_for_range(0..11, &window).is_some());
    assert!(!WindowSelectionHandler.rects_for_range(0..11, &window).is_empty());

    WindowSelectionHandler.set_selected_text_range(0..11, &mut window);
    let latest = window.latest_read_only_selection.as_ref().unwrap();
    assert_eq!(latest.range_utf16, 0..11);
    assert_eq!(latest.text, "hello world");

    WindowSelectionHandler.clear_selected_text_range(&mut window);
    assert!(active_read_only_selection(&window).is_none());
    assert_eq!(
        window.latest_read_only_selection.as_ref().map(|selection| selection.text.clone()),
        Some("hello world".to_string())
    );
}

#[test]
fn selection_handler_exposes_selection_area_actions() {
    let mut window = with_actions();
    select(&mut window, 0..5);

    assert_eq!(action_names(&window), vec!["Add to Chat", "Other"]);
    let actions = WindowSelectionHandler.selection_actions(&window);
    let first = actions.as_slice()[0].presentation();
    assert_eq!(first.name, "Add to Chat");
    assert_eq!(first.image_name, Some("plus.bubble".to_string()));
    let second = actions.as_slice()[1].presentation();
    assert_eq!(second.name, "Other");
    assert!(second.image_name.is_none());
    assert_eq!(actions.as_slice()[1].action(), ActionHandle { key: 2 });

    WindowSelectionHandler.clear_selected_text_range(&mut window);
    assert!(action_names(&window).is_empty());
}

#[test]
fn selection_handler_hides_actions_for_empty_clamped_selection() {
    let mut window = with_actions();
    select(&mut window, 10..20);

    assert!(action_names(&window).is_empty());
}

#[test]
fn selection_handler_preserves_selection_when_global_key_shifts() {
    let mut window = hello_world();
    let key = first_key(&window);
    let area_id = key.selection_area_id().unwrap().clone();
    window.selection_state = SelectionState {
        active_area: Some(SelectionAreaKey::ViewScoped(9_999, area_id)),
        range_utf16: Some(0..5),
        reversed: false,
    };

    assert_eq!(WindowSelectionHandler.selected_text_range(&mut window).unwrap().range, 0..5);
    assert!(WindowSelectionHandler.bounds_for_range(0..5, &window).is_some());
}

#[test]
fn selection_handler_ignores_points_outside_selection_area() {
    let mut window = hello_world();
    let outside = probe(vec![miss(), miss()]);
    assert_eq!(WindowSelectionHandler.character_index_for_point(&outside, &mut window), None);
}

#[test]
fn selection_handler_ignores_points_occluded_after_selection_area() {
    let mut window = hello_world();
    let under = overlaid(vec![on_text(0), miss()], HitboxBehavior::BlockMouse);
    assert_eq!(WindowSelectionHandler.character_index_for_point(&under, &mut window), None);
}

#[test]
fn selection_handler_ignores_normal_overlay_above_selection_area() {
    let mut window = hello_world();
    let under = overlaid(vec![on_text(2), miss()], HitboxBehavior::Normal);
    assert_eq!(WindowSelectionHandler.character_index_for_point(&under, &mut window), Some(2));
}

#[test]
fn selection_area_cache_allows_nearest_position_without_starting_on_empty_space() {
    let mut window = hello_world();
    let empty = probe(vec![near(5, 40.0, 0.0), near(0, 40.0, 10.0)]);

    assert_eq!(WindowSelectionHandler.character_index_for_point(&empty, &mut window), None);
    assert_eq!(
        WindowSelectionHandler.nearest_character_index_for_point(&empty, &window),
        Some(5)
    );
}

#[test]
fn nearest_selection_position_prefers_nearest_visual_row() {
    let area = || SelectionArea::new(name("area"));
    let mut window = window(vec![
        registered(
            area(),
            path(&["area"]),
            7,
            fragment("a", 1).order(0).separator_after("\n".to_string()),
        ),
        registered(area(), path(&["area"]), 7, fragment("bbbbbbbbbbbbbbbb", 2)),
    ]);
    select(&mut window, 0..1);

    let upper = probe(vec![near(1, 2.0, 200.0), near(3, 30.0, 0.0)]);
    assert_eq!(
        WindowSelectionHandler.nearest_character_index_for_point(&upper, &window),
        Some(1)
    );
    let lower = probe(vec![near(1, 30.0, 0.0), near(3, 2.0, 200.0)]);
    assert_eq!(
        WindowSelectionHandler.nearest_character_index_for_point(&lower, &window),
        Some(5)
    );
}

#[test]
fn div_selection_area_uses_distinct_global_ids() {
    let area = || SelectionArea::new(name("area"));
    let window = window(vec![
        registered(area(), path(&["first", "area"]), 7, fragment("alpha", 1)),
        registered(area(), path(&["second", "area"]), 7, fragment("beta", 2)),
    ]);
    let documents = SelectionDocument::all(&window.fragments);
    assert_eq!(documents.len(), 2);
    assert_eq!(documents[0].serialize_text(), "alpha");
    assert_eq!(documents[1].serialize_text(), "beta");
}

#[test]
fn entries_are_placed_in_document_order_however_they_come() {
    let window = hello_world();
    let key = first_key(&window);
    let count = window.fragments.len();
    assert!(count > 1);
    let entries = (0..count).rev().map(|index| (index, &window.fragments[index])).collect();
    let document = SelectionDocument::from_fragments(key, entries);
    let ordered = SelectionDocument::all(&window.fragments).remove(0);
    assert_eq!(document.serialize_text(), ordered.serialize_text());
    let sources: Vec<usize> = document.fragments.iter().map(|piece| piece.source_index).collect();
    assert_eq!(sources, (0..count).collect::<Vec<usize>>());
    let len = document.len_utf16;
    assert_eq!(
        document.text_for_range(2..len + 5).map(|text| text.len()),
        Some(document.serialize_text().len() - 2)
    );
}

#[test]
fn fragments_follow_their_explicit_order() {
    let area = || SelectionArea::new(name("area"));
    let fragments = vec![
        registered(
            area(),
            None,
            7,
            fragment("second", 2).order(2).separator_after(" ".to_string()),
        ),
        registered(
            area(),
            None,
            7,
            fragment("first", 3).order(1).separator_after(" ".to_string()),
        ),
        registered(area(), None, 7, fragment("last", 1)),
    ];
    let documents = SelectionDocument::all(&fragments);
    assert_eq!(documents.len(), 1);
    assert_eq!(documents[0].serialize_text(), "first second last");
    assert_eq!(documents[0].text_for_range(0..usize::MAX), Some("first second last".to_string()));
}

#[test]
fn neighbouring_ranges_join_to_the_whole() {
    let mut window = hello_world();
    select(&mut window, 0..0);
    let left = WindowSelectionHandler.text_for_range(0..7, &window).unwrap().1;
    let right = WindowSelectionHandler.text_for_range(7..11, &window).unwrap().1;
    assert_eq!(left, "hello w");
    assert_eq!(format!("{left}{right}"), "hello world");
    assert_eq!(WindowSelectionHandler.text_for_range(9..99, &window), Some((9..11, "ld".to_string())));
}

#[test]
fn spans_name_the_bytes_of_each_fragment() {
    let mut window = hello_world();
    select(&mut window, 0..0);
    let spans = WindowSelectionHandler.rects_for_range(3..8, &window);
    assert_eq!(spans.len(), 2);
    assert_eq!(spans[0].bytes, 3..5);
    assert_eq!(spans[0].layout, TextLayout { key: 1 });
    assert_eq!(spans[1].bytes, 0..2);
    assert_eq!(spans[1].layout, TextLayout { key: 2 });
}

#[test]
fn an_empty_range_asks_for_a_caret() {
    let mut window = hello_world();
    select(&mut window, 0..0);
    match WindowSelectionHandler.bounds_for_range(3..3, &window) {
        Some(BoundsQuery::Caret(Some(query))) => {
            assert_eq!(query.layout, TextLayout { key: 1 });
            assert_eq!(query.local_byte, 3);
            assert_eq!(query.probe, CaretProbe::Leading(3..4));
        }
        other => panic!("{}", other.is_some()),
    }
    let rect = LayoutRect { bounds: bounds(30.0, 4.0, 8.0, 16.0), right: px(38.0) };
    let caret = caret_bounds(&CaretProbe::Leading(3..4), &vec![rect], None, px(20.0)).unwrap();
    assert_eq!(caret.origin, Point { x: px(30.0), y: px(4.0) });
    assert_eq!(caret.size.height, px(16.0));
}

#[test]
fn a_long_press_selects_the_word_under_it() {
    let mut window = hello_world();
    select(&mut window, 0..0);
    assert_eq!(
        WindowSelectionHandler.initial_native_selection_range(7..7, &window),
        Some(6..11)
    );
    assert_eq!(WindowSelectionHandler.marked_text_range(), None);
    assert!(!WindowSelectionHandler.accepts_text_input());
}

#[test]
fn touching_text_makes_its_area_active() {
    let mut window = hello_world();
    let touched = probe(vec![near(5, 10.0, 0.0), on_text(2)]);
    assert_eq!(
        WindowSelectionHandler.character_index_for_point(&touched, &mut window),
        Some(8)
    );
    assert!(window.selection_state.active_area.is_some());
    WindowSelectionHandler.set_selected_text_range(6..11, &mut window);
    assert_eq!(active_read_only_selection(&window).unwrap().text, "world");
}

#[test]
fn areas_remember_where_they_were_made() {
    let element = selection_area(3, "view.rs".to_string(), 10, 4)
        .action("Copy".to_string(), ActionHandle { key: 5 })
        .with_actions(vec![SelectionAction::new("Share".to_string(), ActionHandle { key: 6 })
            .image("share".to_string())]);
    assert!(element.selection_area().id().same(&ElementId::CodeLocation {
        file: "view.rs".to_string(),
        line: 10,
        column: 4,
    }));
    let names: Vec<&str> = element
        .selection_area()
        .actions()
        .iter()
        .map(|action| action.name().as_str())
        .collect();
    assert_eq!(names, vec!["Copy", "Share"]);
    let renamed = element.id(name("mine"));
    assert!(renamed.selection_area().id().same(&name("mine")));
}

#[test]
fn small_lists_of_actions_spill_in_order() {
    let mut area = SelectionArea::new(name("area"));
    for key in 0..9 {
        area = area.action(format!("action {key}"), ActionHandle { key });
    }
    let keys: Vec<u64> = area.actions().iter().map(|action| action.action().key).collect();
    assert_eq!(keys, vec![0, 1, 2, 3, 4, 5, 6, 7, 8]);
}
