use layouts::error::AppError;
use layouts::layout::{LayoutDescription, LayoutNode, SplitDirection, HALF_RATIO};
use layouts::operations::{
    detect_fast_mutation, equal_sequence, expanded_ratio, insertion_steps, rearrange_unsupported, target_for_balance,
    target_for_expand, target_for_preset, target_for_rotate, undo_plan, validate_mutation, validate_same_panes,
    FastMutation, LayoutPreset, UndoPlan, ONE_THIRD_RATIO, TWO_THIRDS_RATIO,
};
use layouts::state::UndoRecord;

fn describe(error: AppError) -> String {
    error.describe()
}

fn layout(pane_count: usize, focused: usize) -> LayoutDescription {
    let pane_ids: Vec<String> = (1..=pane_count).map(|index| format!("p{index}")).collect();
    LayoutDescription {
        workspace_id: "w1".into(),
        tab_id: "t1".into(),
        zoomed: false,
        focused_pane_id: pane_ids[focused].clone(),
        root: equal_sequence(&pane_ids, SplitDirection::Right).unwrap_or_else(|error| panic!("{}", describe(error))),
    }
}

#[test]
fn main_left_keeps_the_focused_pane_first() {
    let target = target_for_preset(&layout(4, 2), LayoutPreset::Left).unwrap_or_else(|error| panic!("{}", describe(error)));
    assert_eq!(target.first_pane_id().unwrap_or_default(), "p3");
    assert_eq!(target.pane_ids().unwrap_or_default(), vec!["p3", "p1", "p2", "p4"]);
}

#[test]
fn grid_uses_row_reading_order() {
    let target = target_for_preset(&layout(4, 0), LayoutPreset::Grid).unwrap_or_else(|error| panic!("{}", describe(error)));
    assert_eq!(target.pane_ids().unwrap_or_default(), vec!["p1", "p2", "p3", "p4"]);
    assert_eq!(insertion_steps(&target).unwrap_or_default().len(), 3);
}

#[test]
fn detects_a_swap_as_one_native_mutation() {
    let current = layout(4, 0).root;
    let target = current.swap_panes("p1", "p4").unwrap_or_else(|error| panic!("{}", describe(error)));

    match detect_fast_mutation(&current, &target) {
        Ok(Some(FastMutation::Swap { source, target })) => {
            assert_eq!(source, "p1");
            assert_eq!(target, "p4");
        },
        _ => panic!("no swap found"),
    }
}

#[test]
fn grid_is_only_available_for_four_panes() {
    assert!(!LayoutPreset::available(3).contains(&LayoutPreset::Grid));
    assert!(LayoutPreset::available(4).contains(&LayoutPreset::Grid));
}

#[test]
fn presets_are_named_and_described() {
    assert_eq!(LayoutPreset::from_name("columns"), Some(LayoutPreset::Columns));
    assert_eq!(LayoutPreset::from_name("bottom"), Some(LayoutPreset::Bottom));
    assert_eq!(LayoutPreset::from_name("diagonal"), None);
    assert_eq!(LayoutPreset::Grid.description(), "2 × 2 grid");
    assert_eq!(LayoutPreset::Top.description(), "Focused pane on top");
    assert_eq!(LayoutPreset::Right.label(), "Right");
    assert!(LayoutPreset::Rows.is_equal());
    assert!(!LayoutPreset::Left.is_equal());
    assert_eq!(
        LayoutPreset::available(2),
        vec![
            LayoutPreset::Columns,
            LayoutPreset::Rows,
            LayoutPreset::Left,
            LayoutPreset::Right,
            LayoutPreset::Top,
            LayoutPreset::Bottom
        ]
    );
}

#[test]
fn focused_layouts_give_the_focused_pane_two_thirds() {
    let left = target_for_preset(&layout(3, 1), LayoutPreset::Left).unwrap_or_else(|e| panic!("{}", describe(e)));
    assert!(matches!(left, LayoutNode::Split { direction: SplitDirection::Right, ratio, .. } if ratio == TWO_THIRDS_RATIO));
    let bottom = target_for_preset(&layout(3, 1), LayoutPreset::Bottom).unwrap_or_else(|e| panic!("{}", describe(e)));
    assert!(matches!(bottom, LayoutNode::Split { direction: SplitDirection::Down, ratio, .. } if ratio == ONE_THIRD_RATIO));
    assert_eq!(bottom.pane_ids().unwrap_or_default(), vec!["p1", "p3", "p2"]);
}

#[test]
fn equal_columns_share_evenly() {
    let ids: Vec<String> = vec!["a".into(), "b".into(), "c".into(), "d".into()];
    let tree = equal_sequence(&ids, SplitDirection::Right).unwrap_or_else(|e| panic!("{}", describe(e)));
    assert!(matches!(tree, LayoutNode::Split { ratio: 250_000_000, .. }));
    let error = equal_sequence(&[], SplitDirection::Down).err().map(describe);
    assert_eq!(error.as_deref(), Some("A layout needs at least one pane"));
}

#[test]
fn presets_refuse_the_wrong_number_of_panes() {
    let error = target_for_preset(&layout(3, 0), LayoutPreset::Grid).err().map(describe);
    assert_eq!(error.as_deref(), Some("Grid requires four panes"));
    let error = target_for_preset(&layout(5, 0), LayoutPreset::Columns).err().map(describe);
    assert_eq!(error.as_deref(), Some("Arrange supports two to four panes"));
}

#[test]
fn mutations_need_an_unzoomed_tab_of_two_to_four_panes() {
    let mut zoomed = layout(2, 0);
    zoomed.zoomed = true;
    assert_eq!(validate_mutation(&zoomed).err().map(describe).as_deref(), Some("Unzoom this tab to change its layout"));
    assert_eq!(
        validate_mutation(&layout(1, 0)).err().map(describe).as_deref(),
        Some("Arrange works with two to four panes")
    );
    assert!(validate_mutation(&layout(4, 0)).is_ok());
}

#[test]
fn expanding_gives_the_focused_pane_two_thirds() {
    assert_eq!(expanded_ratio(HALF_RATIO, false), TWO_THIRDS_RATIO);
    assert_eq!(expanded_ratio(HALF_RATIO, true), ONE_THIRD_RATIO);
    assert_eq!(expanded_ratio(800_000_000, false), 800_000_000);
    let expanded = target_for_expand(&layout(2, 1)).unwrap_or_else(|e| panic!("{}", describe(e)));
    assert!(matches!(expanded, LayoutNode::Split { ratio, .. } if ratio == ONE_THIRD_RATIO));
    let balanced = target_for_balance(&layout(2, 1)).unwrap_or_else(|e| panic!("{}", describe(e)));
    assert!(matches!(balanced, LayoutNode::Split { ratio, .. } if ratio == HALF_RATIO));
}

#[test]
fn resizing_a_lone_pane_is_refused() {
    let single = LayoutDescription {
        workspace_id: "w1".into(),
        tab_id: "t1".into(),
        zoomed: false,
        focused_pane_id: "p1".into(),
        root: LayoutNode::pane("p1".into()),
    };
    assert_eq!(target_for_expand(&single).err().map(describe).as_deref(), Some("The focused pane has no split to resize"));
    assert_eq!(target_for_rotate(&single).err().map(describe).as_deref(), Some("The focused pane has no split to rotate"));
    let mut lost = layout(2, 0);
    lost.focused_pane_id = "p9".into();
    assert_eq!(
        target_for_balance(&lost).err().map(describe).as_deref(),
        Some("The focused pane is not in the current layout")
    );
}

#[test]
fn rotating_turns_the_closest_split() {
    let rotated = target_for_rotate(&layout(3, 2)).unwrap_or_else(|e| panic!("{}", describe(e)));
    assert!(matches!(
        rotated,
        LayoutNode::Split { direction: SplitDirection::Right, ref second, .. }
            if matches!(**second, LayoutNode::Split { direction: SplitDirection::Down, .. })
    ));
}

#[test]
fn the_same_panes_are_required() {
    let two = layout(2, 0).root;
    let three = layout(3, 0).root;
    assert_eq!(
        validate_same_panes(&two, &three).err().map(describe).as_deref(),
        Some("The requested layout does not contain the same panes")
    );
    let reordered = two.swap_panes("p1", "p2").unwrap_or_else(|e| panic!("{}", describe(e)));
    assert!(validate_same_panes(&two, &reordered).is_ok());
}

#[test]
fn old_herdr_answers_are_recognized() {
    assert!(rearrange_unsupported("method_not_found", "anything"));
    assert!(rearrange_unsupported("invalid_request", "unknown method layout.rearrange"));
    assert!(!rearrange_unsupported("invalid_request", "bad pane"));
    assert!(!rearrange_unsupported("internal", "layout.rearrange"));
}

#[test]
fn undo_restores_only_an_unchanged_layout() {
    let before = layout(2, 0);
    let after = layout(2, 1);
    let record = UndoRecord {
        workspace_id: "w1".into(),
        tab_id: "t1".into(),
        focused_pane_id: "p1".into(),
        before: before.root.swap_panes("p1", "p2").unwrap_or_else(|e| panic!("{}", describe(e))),
        after: after.root.normalized().unwrap_or_else(|e| panic!("{}", describe(e))),
    };
    match undo_plan(&after, Some(record)) {
        Ok(UndoPlan::Restore(tree)) => assert_eq!(tree.pane_ids().unwrap_or_default(), vec!["p2", "p1"]),
        _ => panic!("expected a restore"),
    }
    assert!(matches!(undo_plan(&after, None), Ok(UndoPlan::Nothing)));
    let stale = UndoRecord {
        workspace_id: "w1".into(),
        tab_id: "t1".into(),
        focused_pane_id: "p1".into(),
        before: before.root.swap_panes("p1", "p2").unwrap_or_else(|e| panic!("{}", describe(e))),
        after: layout(3, 0).root.normalized().unwrap_or_else(|e| panic!("{}", describe(e))),
    };
    assert!(matches!(undo_plan(&after, Some(stale)), Ok(UndoPlan::Discard)));
}

#[test]
fn expanding_an_expanded_split_changes_nothing() {
    let once = target_for_expand(&layout(3, 0)).unwrap_or_else(|e| panic!("{}", describe(e)));
    let again = target_for_expand(&LayoutDescription { root: once, ..layout(3, 0) }).unwrap_or_else(|e| panic!("{}", describe(e)));
    let first = target_for_expand(&layout(3, 0)).unwrap_or_else(|e| panic!("{}", describe(e)));
    assert!(again.normalized().ok() == first.normalized().ok());
}

#[test]
fn rotating_twice_gives_the_layout_back() {
    let once = target_for_rotate(&layout(3, 1)).unwrap_or_else(|e| panic!("{}", describe(e)));
    let twice = target_for_rotate(&LayoutDescription { root: once, ..layout(3, 1) }).unwrap_or_else(|e| panic!("{}", describe(e)));
    assert!(twice.normalized().ok() == layout(3, 1).root.normalized().ok());
}

#[test]
fn focused_right_puts_the_focused_pane_last() {
    let target = target_for_preset(&layout(3, 0), LayoutPreset::Right).unwrap_or_else(|e| panic!("{}", describe(e)));
    assert_eq!(target.pane_ids().unwrap_or_default(), vec!["p2", "p3", "p1"]);
    assert!(matches!(target, LayoutNode::Split { direction: SplitDirection::Right, ratio, .. } if ratio == ONE_THIRD_RATIO));
}

#[test]
fn balancing_a_balanced_layout_again_changes_nothing() {
    let mut skewed = layout(3, 2);
    if let LayoutNode::Split { second, .. } = &mut skewed.root {
        if let LayoutNode::Split { ratio, .. } = second.as_mut() {
            *ratio = TWO_THIRDS_RATIO;
        }
    }
    let once = target_for_balance(&skewed).unwrap_or_else(|e| panic!("{}", describe(e)));
    assert!(matches!(once.node_at_path(&[true]), Some(LayoutNode::Split { ratio, .. }) if *ratio == HALF_RATIO));
    let twice = target_for_balance(&LayoutDescription { root: once.duplicate(), ..layout(3, 2) })
        .unwrap_or_else(|e| panic!("{}", describe(e)));
    assert!(twice.normalized().ok() == once.normalized().ok());
}
