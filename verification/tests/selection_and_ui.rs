use bevy_scene_editor::editor::listing::{asset_group_label, push_decimal, sorted_by_name, str_le};
use bevy_scene_editor::editor::ui::{
    clear_background, handle_pick_events, is_asset_selected, is_resource_selected, palette_entries,
    title, EguiWindow, InspectorSelection, InspectorView, UiState,
};
use bevy_scene_editor::editor::PrimitiveKind;

// entity bits as `Entity::to_bits` gives them: index in the low half, generation in the high half
const A: u64 = 1;
const B: u64 = 2;
const C: u64 = (7 << 32) | 3;

fn state_with(selected: &[u64]) -> UiState {
    let mut ui = UiState::new();
    ui.pointer_in_viewport = true;
    for (i, e) in selected.iter().enumerate() {
        if i == 0 {
            ui.select_spawned(*e);
        } else {
            handle_pick_events(&mut ui, &vec![true], &vec![vec![*e]], true);
        }
    }
    ui
}

#[test]
fn new_ui_state_is_empty() {
    let ui = UiState::new();
    assert!(ui.selected().is_empty());
    assert!(matches!(ui.selection, InspectorSelection::Entities));
    assert!(!ui.pointer_in_viewport);
    assert!(!ui.gizmo_active);
}

#[test]
fn state_helper_builds_selection_in_order() {
    let ui = state_with(&[A, B, C]);
    assert_eq!(ui.selected(), vec![A, B, C]);
}

#[test]
fn picking_outside_viewport_changes_nothing() {
    let mut ui = state_with(&[A]);
    ui.pointer_in_viewport = false;
    handle_pick_events(&mut ui, &vec![true], &vec![vec![B]], false);
    assert_eq!(ui.selected(), vec![A]);
    handle_pick_events(&mut ui, &vec![true, true], &vec![vec![]], false);
    assert_eq!(ui.selected(), vec![A]);
}

#[test]
fn picking_while_gizmo_in_use_changes_nothing() {
    let mut ui = state_with(&[A]);
    ui.gizmo_active = true;
    handle_pick_events(&mut ui, &vec![true], &vec![], false);
    assert_eq!(ui.selected(), vec![A]);
}

#[test]
fn click_on_nothing_clears_selection() {
    let mut ui = state_with(&[A, B]);
    handle_pick_events(&mut ui, &vec![true], &vec![vec![], vec![]], false);
    assert!(ui.selected().is_empty());
    let mut ui = state_with(&[A, B]);
    handle_pick_events(&mut ui, &vec![true], &vec![], true);
    assert!(ui.selected().is_empty());
}

#[test]
fn no_press_changes_nothing() {
    let mut ui = state_with(&[A, B]);
    handle_pick_events(&mut ui, &vec![], &vec![], false);
    assert_eq!(ui.selected(), vec![A, B]);
    handle_pick_events(&mut ui, &vec![false, false], &vec![vec![C]], false);
    assert_eq!(ui.selected(), vec![A, B]);
}

#[test]
fn only_primary_presses_count() {
    let mut ui = state_with(&[]);
    handle_pick_events(&mut ui, &vec![false, true, false], &vec![vec![A, B]], true);
    assert_eq!(ui.selected(), vec![A, B]);
}

#[test]
fn plain_click_selects_last_hit_only() {
    let mut ui = state_with(&[A, B]);
    handle_pick_events(&mut ui, &vec![true], &vec![vec![C, A], vec![], vec![B]], false);
    assert_eq!(ui.selected(), vec![B]);
    handle_pick_events(&mut ui, &vec![true], &vec![vec![C, A], vec![]], false);
    assert_eq!(ui.selected(), vec![A]);
}

#[test]
fn ctrl_click_adds_and_removes() {
    let mut ui = state_with(&[A]);
    handle_pick_events(&mut ui, &vec![true], &vec![vec![B]], true);
    assert_eq!(ui.selected(), vec![A, B]);
    handle_pick_events(&mut ui, &vec![true], &vec![vec![A]], true);
    assert_eq!(ui.selected(), vec![B]);
}

#[test]
fn ctrl_click_on_empty_selection_selects() {
    let mut ui = state_with(&[]);
    handle_pick_events(&mut ui, &vec![true], &vec![vec![C]], true);
    assert_eq!(ui.selected(), vec![C]);
}

#[test]
fn ctrl_click_twice_keeps_the_same_entities() {
    let mut ui = state_with(&[A, B]);
    handle_pick_events(&mut ui, &vec![true], &vec![vec![A]], true);
    handle_pick_events(&mut ui, &vec![true], &vec![vec![A]], true);
    let mut got = ui.selected();
    got.sort();
    assert_eq!(got, vec![A, B]);

    let mut ui = state_with(&[A, B]);
    handle_pick_events(&mut ui, &vec![true, true], &vec![vec![C]], true);
    assert_eq!(ui.selected(), vec![A, B]);
}

#[test]
fn removing_the_only_entity_then_clicking_again_selects_it() {
    let mut ui = state_with(&[A]);
    handle_pick_events(&mut ui, &vec![true], &vec![vec![A]], true);
    assert!(ui.selected().is_empty());
    handle_pick_events(&mut ui, &vec![true], &vec![vec![A]], true);
    assert_eq!(ui.selected(), vec![A]);
}

#[test]
fn every_press_of_a_frame_applies_the_hits_again() {
    let mut ui = state_with(&[]);
    handle_pick_events(&mut ui, &vec![true; 3], &vec![vec![A, B]], true);
    // first press selects A then adds B; second removes both; third selects A then adds B
    assert_eq!(ui.selected(), vec![A, B]);
}

#[test]
fn selection_never_holds_an_entity_twice() {
    let mut ui = state_with(&[]);
    handle_pick_events(&mut ui, &vec![true], &vec![vec![A, B, A, C, B, B]], true);
    let got = ui.selected();
    let mut dedup = got.clone();
    dedup.sort();
    dedup.dedup();
    assert_eq!(got.len(), dedup.len());
    assert_eq!(got, vec![C, B]);
}

#[test]
fn spawned_entity_becomes_the_only_selection() {
    let mut ui = state_with(&[A, B]);
    ui.selection = InspectorSelection::Resource(9, "Time".to_string());
    ui.select_spawned(C);
    assert_eq!(ui.selected(), vec![C]);
    assert!(matches!(ui.selection, InspectorSelection::Resource(9, _)));
}

#[test]
fn gizmo_only_for_single_selection() {
    assert_eq!(state_with(&[]).gizmo_target(), None);
    assert_eq!(state_with(&[C]).gizmo_target(), Some(C));
    assert_eq!(state_with(&[A, B]).gizmo_target(), None);
}

#[test]
fn inspector_shows_one_entity_or_shared_components() {
    match state_with(&[B]).inspector_view() {
        InspectorView::Entity(e) => assert_eq!(e, B),
        _ => panic!("expected a single entity"),
    }
    match state_with(&[A, C]).inspector_view() {
        InspectorView::SharedComponents(v) => assert_eq!(v, vec![A, C]),
        _ => panic!("expected shared components"),
    }
    match state_with(&[]).inspector_view() {
        InspectorView::SharedComponents(v) => assert!(v.is_empty()),
        _ => panic!("expected shared components"),
    }
}

#[test]
fn inspector_shows_selected_resource_or_asset() {
    let mut ui = state_with(&[A]);
    ui.selection = InspectorSelection::Resource(4, "Time".to_string());
    match ui.inspector_view() {
        InspectorView::Resource(k, n) => {
            assert_eq!(k, 4);
            assert_eq!(n, "Time");
        }
        _ => panic!("expected a resource"),
    }
    ui.selection = InspectorSelection::Asset(5, "Mesh".to_string(), 11);
    match ui.inspector_view() {
        InspectorView::Asset(k, n, h) => {
            assert_eq!((k, n.as_str(), h), (5, "Mesh", 11));
        }
        _ => panic!("expected an asset"),
    }
}

#[test]
fn hierarchy_selection_turns_inspector_to_entities() {
    let mut ui = state_with(&[A]);
    ui.selection = InspectorSelection::Resource(4, "Time".to_string());
    ui.hierarchy_shown(false);
    assert!(matches!(ui.selection, InspectorSelection::Resource(4, _)));
    ui.hierarchy_shown(true);
    assert!(matches!(ui.selection, InspectorSelection::Entities));
    assert_eq!(ui.selected(), vec![A]);
}

#[test]
fn resource_and_asset_selection_marks() {
    let resource = InspectorSelection::Resource(4, "Time".to_string());
    assert!(is_resource_selected(&resource, 4));
    assert!(!is_resource_selected(&resource, 5));
    assert!(!is_asset_selected(&resource, 4));
    let asset = InspectorSelection::Asset(5, "Mesh".to_string(), 11);
    assert!(is_asset_selected(&asset, 11));
    assert!(!is_asset_selected(&asset, 5));
    assert!(!is_resource_selected(&asset, 5));
    assert!(!is_resource_selected(&InspectorSelection::Entities, 0));
    assert!(!is_asset_selected(&InspectorSelection::Entities, 0));
}

#[test]
fn tab_titles_and_backgrounds() {
    let tabs = [
        (EguiWindow::GameView, "GameView", false),
        (EguiWindow::Hierarchy, "Hierarchy", true),
        (EguiWindow::Resources, "Resources", true),
        (EguiWindow::Assets, "Assets", true),
        (EguiWindow::Inspector, "Inspector", true),
        (EguiWindow::Palette, "Palette", true),
    ];
    for (tab, name, clears) in tabs {
        assert_eq!(title(tab), name);
        assert_eq!(title(tab), format!("{tab:?}"));
        assert_eq!(clear_background(tab), clears);
    }
}

#[test]
fn palette_offers_each_primitive_once() {
    let entries = palette_entries();
    let got: Vec<(&str, PrimitiveKind)> = entries.iter().map(|e| (e.label, e.kind)).collect();
    assert_eq!(
        got,
        vec![
            ("⬛  Cube", PrimitiveKind::Cube),
            ("⬤  Sphere", PrimitiveKind::Sphere),
            ("▬  Plane", PrimitiveKind::Plane),
            ("⬤  Cylinder", PrimitiveKind::Cylinder),
        ]
    );
}

#[test]
fn str_le_matches_str_ordering() {
    let words = ["", "a", "ab", "b", "Time", "time", "Äpfel", "Z", "zz"];
    for x in words {
        for y in words {
            assert_eq!(str_le(x, y), x <= y, "{x:?} <= {y:?}");
        }
    }
}

#[test]
fn resources_are_listed_by_name() {
    let names: Vec<String> = ["Time", "AmbientLight", "ClearColor", "Assets"]
        .iter()
        .map(|s| s.to_string())
        .collect();
    assert_eq!(sorted_by_name(&names), vec![1, 3, 2, 0]);
}

#[test]
fn equal_names_keep_their_order() {
    let names: Vec<String> = ["b", "a", "b", "a", "c"].iter().map(|s| s.to_string()).collect();
    assert_eq!(sorted_by_name(&names), vec![1, 3, 0, 2, 4]);
    assert_eq!(sorted_by_name(&Vec::new()), Vec::<usize>::new());
}

#[test]
fn listing_agrees_with_a_stable_sort() {
    let names: Vec<String> =
        ["Mesh", "Image", "mesh", "Font", "Image", "", "StandardMaterial", "AnimationClip"]
            .iter()
            .map(|s| s.to_string())
            .collect();
    let mut expected: Vec<usize> = (0..names.len()).collect();
    expected.sort_by(|&a, &b| names[a].cmp(&names[b]));
    assert_eq!(sorted_by_name(&names), expected);
}

#[test]
fn asset_group_label_shows_count() {
    assert_eq!(asset_group_label("Mesh", 12), "Mesh (12)");
    assert_eq!(asset_group_label("Image", 0), "Image (0)");
    assert_eq!(asset_group_label("", 7), " (7)");
}

#[test]
fn decimal_writing_matches_formatting() {
    for n in [0usize, 9, 10, 99, 100, 1234567, usize::MAX] {
        let mut s = String::from("x");
        push_decimal(&mut s, n);
        assert_eq!(s, format!("x{n}"));
    }
}
