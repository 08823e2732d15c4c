use layouts::error::AppError;
use layouts::geometry::{drop_zone, DropZone, Rect};
use layouts::layout::{LayoutDescription, LayoutNode, SplitDirection, HALF_RATIO};
use layouts::operations::LayoutPreset;
use layouts::picker::{
    decimal, Footer, ListLine, Picker, PickerAction, PickerItem, PickerKey, PickerOperation, PickerRequest, PickerStep,
    PickerTab, PointerEvent, PointerKind,
};

fn layout(root: LayoutNode, focused_pane_id: &str) -> LayoutDescription {
    LayoutDescription {
        workspace_id: "w1".into(),
        tab_id: "t1".into(),
        zoomed: false,
        focused_pane_id: focused_pane_id.into(),
        root,
    }
}

fn describe(error: AppError) -> String {
    error.describe()
}

fn picker(root: LayoutNode, focused: &str) -> Picker {
    Picker::new(layout(root, focused), None).unwrap_or_else(|error| panic!("{}", describe(error)))
}

fn two_columns() -> LayoutNode {
    LayoutNode::split(SplitDirection::Right, HALF_RATIO, LayoutNode::pane("p1".into()), LayoutNode::pane("p2".into()))
}

fn mouse(kind: PointerKind, column: u16, row: u16) -> PointerEvent {
    PointerEvent { kind, column, row }
}

#[test]
fn one_pane_shows_guidance_instead_of_failing() {
    let picker = picker(LayoutNode::pane("p1".into()), "p1");

    assert_eq!(picker.unavailable, Some("Add another pane to arrange a layout."));
    assert!(picker.items.is_empty());
    assert!(!picker.can_apply());
}

#[test]
fn rearrange_is_selected_on_open() {
    let root = LayoutNode::split(SplitDirection::Down, HALF_RATIO, LayoutNode::pane("p1".into()), LayoutNode::pane("p2".into()));
    let picker = picker(root, "p1");

    assert_eq!(picker.items[picker.selected], PickerItem::Action(PickerAction::Rearrange));
}

#[test]
fn layouts_tab_opens_on_the_current_preset() {
    let mut picker = picker(two_columns(), "p1");

    picker.switch_to_tab(PickerTab::Layouts);

    assert_eq!(picker.items[picker.selected], PickerItem::Preset(LayoutPreset::Columns));
    assert_eq!(picker.item_hint(picker.selected), Some("current"));
    assert_eq!(picker.preview_label(&Vec::new()), "Current layout");
}

#[test]
fn tabs_keep_the_list_and_preview_geometry_stable() {
    let mut picker = picker(two_columns(), "p1");
    picker.lay_out(Rect::new(0, 0, 64, 18));
    let action_row = picker
        .row_areas
        .iter()
        .find(|(index, _)| *index == picker.selected)
        .map(|(_, area)| *area)
        .unwrap_or(Rect::new(0, 0, 0, 0));
    let action_preview = picker.pane_areas.clone();

    picker.switch_to_tab(PickerTab::Layouts);
    picker.lay_out(Rect::new(0, 0, 64, 18));
    let layout_row = picker
        .row_areas
        .iter()
        .find(|(index, _)| *index == picker.selected)
        .map(|(_, area)| *area)
        .unwrap_or(Rect::new(0, 0, 0, 0));

    assert_eq!(action_row.y, layout_row.y);
    assert_eq!(action_preview, picker.pane_areas);
}

#[test]
fn clicking_a_tab_switches_the_visible_list() {
    let mut picker = picker(two_columns(), "p1");
    picker.lay_out(Rect::new(0, 0, 64, 18));
    let layouts_area = picker
        .tab_areas
        .iter()
        .find(|(tab, _)| *tab == PickerTab::Layouts)
        .map(|(_, area)| *area)
        .unwrap_or(Rect::new(0, 0, 0, 0));

    picker.handle_mouse(mouse(PointerKind::LeftDown, layouts_area.x, layouts_area.y));

    assert_eq!(picker.active_tab, PickerTab::Layouts);
    assert!(matches!(picker.items[picker.selected], PickerItem::Preset(_)));
}

#[test]
fn corners_choose_the_nearest_edge() {
    let area = Rect::new(10, 10, 20, 10);
    assert!(matches!(drop_zone(area, 10, 12), DropZone::Left));
    assert!(matches!(drop_zone(area, 29, 18), DropZone::Right));
    assert!(matches!(drop_zone(area, 20, 15), DropZone::Center));
}

#[test]
fn pane_numbers_stay_with_ids_after_reordering() {
    let mut picker = picker(two_columns(), "p1");
    let reordered: Vec<String> = vec!["p2".into(), "p1".into()];

    picker.ensure_pane_numbers(&reordered);

    assert_eq!(picker.pane_number("p1"), Some(1));
    assert_eq!(picker.pane_number("p2"), Some(2));
}

#[test]
fn hovering_a_pane_exposes_its_drag_affordance() {
    let mut picker = picker(two_columns(), "p1");
    picker.pane_areas = vec![("p1".into(), Rect::new(0, 0, 10, 10)), ("p2".into(), Rect::new(11, 0, 10, 10))];

    picker.handle_mouse(mouse(PointerKind::Moved, 15, 5));

    assert_eq!(picker.hovered_pane.as_deref(), Some("p2"));
    let numbers: Vec<(String, usize)> = vec![("p1".into(), 1), ("p2".into(), 2)];
    assert_eq!(picker.preview_label(&numbers), "Drag pane 2");
}

#[test]
fn escape_unwinds_keyboard_rearranging_one_step_at_a_time() {
    let mut picker = picker(two_columns(), "p1");
    picker.focus_preview();
    picker.handle_key(PickerKey::Space);
    assert!(picker.drag_source.is_some());

    picker.handle_key(PickerKey::Esc);
    assert!(picker.preview_focused);
    assert!(picker.drag_source.is_none());

    picker.handle_key(PickerKey::Esc);
    assert!(!picker.preview_focused);
}

#[test]
fn dragging_to_an_edge_builds_the_expected_layout() {
    let mut picker = picker(two_columns(), "p2");
    picker.selected = picker
        .items
        .iter()
        .position(|item| *item == PickerItem::Action(PickerAction::Rearrange))
        .unwrap_or_default();
    picker.pane_areas = vec![("p1".into(), Rect::new(0, 0, 10, 10)), ("p2".into(), Rect::new(11, 0, 10, 10))];

    picker.handle_mouse(mouse(PointerKind::LeftDown, 15, 5));
    picker.handle_mouse(mouse(PointerKind::LeftDrag, 0, 5));
    let request = picker.handle_mouse(mouse(PointerKind::LeftUp, 0, 5));
    let PickerRequest::ApplyLayout(target) = request else {
        panic!("drag did not produce a layout");
    };

    assert_eq!(target.pane_ids().unwrap_or_default(), vec!["p2", "p1"]);
    assert!(matches!(target, LayoutNode::Split { direction: SplitDirection::Right, .. }));
}

#[test]
fn unavailable_undo_is_skipped() {
    let mut picker = picker(two_columns(), "p1");
    let rotate = picker
        .items
        .iter()
        .position(|item| *item == PickerItem::Action(PickerAction::Rotate))
        .unwrap_or_default();
    picker.select(rotate);

    picker.move_selection(1);

    assert_eq!(picker.items[picker.selected], PickerItem::Action(PickerAction::Rearrange));
}

#[test]
fn switching_tabs_preserves_each_selection() {
    let mut picker = picker(two_columns(), "p1");

    picker.switch_tab();
    picker.move_selection(1);
    let layout_selection = picker.selected;
    picker.switch_tab();
    picker.move_selection(1);
    let action_selection = picker.selected;
    picker.switch_tab();
    assert_eq!(picker.selected, layout_selection);
    picker.switch_tab();
    assert_eq!(picker.selected, action_selection);
}

#[test]
fn zoomed_and_crowded_tabs_explain_why() {
    let mut zoomed = layout(two_columns(), "p1");
    zoomed.zoomed = true;
    let picker = Picker::new(zoomed, None).unwrap_or_else(|e| panic!("{}", describe(e)));
    assert_eq!(picker.unavailable, Some("Unzoom this tab to change its layout."));
    let five = LayoutNode::split(
        SplitDirection::Right,
        HALF_RATIO,
        two_columns(),
        LayoutNode::split(
            SplitDirection::Right,
            HALF_RATIO,
            LayoutNode::pane("p3".into()),
            LayoutNode::split(SplitDirection::Down, HALF_RATIO, LayoutNode::pane("p4".into()), LayoutNode::pane("p5".into())),
        ),
    );
    let picker = Picker::new(layout(five, "p1"), None).unwrap_or_else(|e| panic!("{}", describe(e)));
    assert_eq!(picker.unavailable, Some("Arrange works with two to four panes."));
    let footer = picker.footer();
    assert!(matches!(footer, Footer::Hints(ref hints) if hints == &vec![("esc", "close")]));
}

#[test]
fn enter_on_rearrange_focuses_the_preview() {
    let mut picker = picker(two_columns(), "p1");
    let request = picker.handle_key(PickerKey::Enter);
    assert!(matches!(request, PickerRequest::Activate));
    let step = picker.on_request(request);
    assert!(matches!(step, PickerStep::Redraw));
    assert!(picker.preview_focused);
    assert_eq!(picker.preview_label(&picker.pane_numbers.clone()), "Choose a pane to move");
}

#[test]
fn activating_an_action_asks_to_run_it() {
    let mut picker = picker(two_columns(), "p1");
    picker.move_selection(1);
    assert_eq!(picker.items[picker.selected], PickerItem::Action(PickerAction::Expand));
    let step = picker.on_request(PickerRequest::Activate);
    assert!(matches!(step, PickerStep::Run(Some(PickerOperation::Expand))));
    assert!(matches!(picker.footer(), Footer::Applying));
    picker.show_error(&AppError::Message("no luck".into()));
    assert!(matches!(picker.footer(), Footer::Error(ref text) if text == "no luck"));
}

#[test]
fn escape_closes_the_list() {
    let mut picker = picker(two_columns(), "p1");
    assert!(matches!(picker.handle_key(PickerKey::Esc), PickerRequest::Close));
    assert!(matches!(picker.on_request(PickerRequest::Close), PickerStep::Close));
}

#[test]
fn the_list_groups_items_under_headings() {
    let mut picker = picker(two_columns(), "p1");
    let lines = picker.lay_out_list(Rect::new(2, 3, 22, 13));
    let texts: Vec<String> = lines
        .iter()
        .map(|line| match line {
            ListLine::Heading(text, area) => format!("{text}@{}", area.y),
            ListLine::Item(index, area) => format!("{index}@{}", area.y),
        })
        .collect();
    assert_eq!(texts, vec!["Adjust@4", "0@5", "1@6", "2@7", "3@8", "History@10", "4@11"]);
    assert_eq!(picker.row_areas.len(), 5);
    picker.switch_to_tab(PickerTab::Layouts);
    let lines = picker.lay_out_list(Rect::new(2, 3, 22, 13));
    let headings: Vec<&str> = lines
        .iter()
        .filter_map(|line| match line {
            ListLine::Heading(text, _) => Some(*text),
            ListLine::Item(..) => None,
        })
        .collect();
    assert_eq!(headings, vec!["Equal", "Focused"]);
    assert_eq!(picker.row_areas.len(), 6);
}

#[test]
fn hints_show_the_shortcuts() {
    let picker = picker(two_columns(), "p1");
    assert_eq!(picker.item_hint(0), None);
    assert_eq!(picker.item_hint(1), Some("⌘⌥↩"));
    assert_eq!(picker.item_hint(4), Some("⌘⌥Z"));
    assert_eq!(picker.item_hint(5), Some("current"));
}

#[test]
fn numbers_are_written_in_decimal() {
    assert_eq!(decimal(0), "0");
    assert_eq!(decimal(7), "7");
    assert_eq!(decimal(42), "42");
    assert_eq!(decimal(1_000_305), "1000305");
}

#[test]
fn dropping_in_the_center_swaps() {
    let mut picker = picker(two_columns(), "p1");
    picker.pane_areas = vec![("p1".into(), Rect::new(0, 0, 10, 10)), ("p2".into(), Rect::new(11, 0, 10, 10))];
    picker.handle_mouse(mouse(PointerKind::LeftDown, 2, 5));
    picker.handle_mouse(mouse(PointerKind::LeftDrag, 16, 5));
    let numbers: Vec<(String, usize)> = vec![("p1".into(), 1), ("p2".into(), 2)];
    assert_eq!(picker.preview_label(&numbers), "Swap 1 and 2");
    assert_eq!(picker.drop_highlight(), Some(Rect::new(13, 2, 5, 5)));
    let request = picker.handle_mouse(mouse(PointerKind::LeftUp, 16, 5));
    let PickerRequest::ApplyLayout(target) = request else {
        panic!("drop did not produce a layout");
    };
    assert_eq!(target.pane_ids().unwrap_or_default(), vec!["p2", "p1"]);
}

#[test]
fn releasing_outside_a_pane_cancels_the_drag() {
    let mut picker = picker(two_columns(), "p1");
    picker.pane_areas = vec![("p1".into(), Rect::new(0, 0, 10, 10)), ("p2".into(), Rect::new(11, 0, 10, 10))];
    picker.handle_mouse(mouse(PointerKind::LeftDown, 2, 5));
    picker.handle_mouse(mouse(PointerKind::LeftDrag, 40, 40));
    let request = picker.handle_mouse(mouse(PointerKind::LeftUp, 40, 40));
    assert!(matches!(request, PickerRequest::Nothing));
    assert!(picker.drag_source.is_none());
}

#[test]
fn the_preview_is_planned_inside_its_area() {
    let mut picker = picker(two_columns(), "p1");
    let plan = picker.lay_out_preview(Rect::new(27, 3, 35, 13)).unwrap_or_else(|| panic!("no plan"));
    assert_eq!(plan.label, "Drag a pane to move or swap it");
    assert_eq!(plan.label_area, Rect::new(27, 14, 35, 1));
    assert_eq!(picker.pane_areas.len(), 2);
    let mut dividers = Vec::new();
    let mut marks = Vec::new();
    let inner = plan.diagram_area.inner(1, 1);
    layouts::picker::paint_preview(
        &plan.displayed,
        inner,
        &picker.pane_numbers,
        "p1",
        &plan.highlighted,
        &picker.drag_source,
        &mut dividers,
        &mut marks,
    );
    assert_eq!(dividers.len(), 1);
    assert_eq!(marks.len(), 2);
    assert_eq!(marks[0].text, "1");
    assert!(matches!(marks[0].tone, layouts::picker::PaneTone::Focused));
}

#[test]
fn the_screen_keeps_a_margin_and_stacks_tabs_main_and_footer() {
    let mut picker = picker(two_columns(), "p1");
    let screen = picker.lay_out(Rect::new(0, 0, 64, 18));
    assert_eq!(screen.tabs_area, Rect::new(2, 0, 60, 3));
    assert_eq!(screen.footer_area, Rect::new(2, 16, 60, 2));
    assert!(screen.message_area.is_none());
    assert_eq!(picker.tab_areas, vec![(PickerTab::Actions, Rect::new(2, 0, 11, 1)), (PickerTab::Layouts, Rect::new(15, 0, 11, 1))]);
    let plan = screen.preview.unwrap_or_else(|| panic!("no preview"));
    assert!(plan.diagram_area.x >= 2 + 22 + 3);
    assert_eq!(picker.pane_areas.len(), 2);
}

#[test]
fn an_unavailable_picker_shows_only_its_reason() {
    let mut picker = picker(LayoutNode::pane("p1".into()), "p1");
    let screen = picker.lay_out(Rect::new(0, 0, 64, 18));
    assert!(screen.message_area.is_some());
    assert!(screen.lines.is_empty());
    assert!(picker.tab_areas.is_empty() && picker.row_areas.is_empty() && picker.pane_areas.is_empty());
}

#[test]
fn switching_away_and_back_restores_the_selection() {
    let mut picker = picker(two_columns(), "p1");
    picker.move_selection(1);
    let chosen = picker.selected;
    picker.handle_key(PickerKey::Tab);
    assert_eq!(picker.active_tab, PickerTab::Layouts);
    picker.handle_key(PickerKey::Tab);
    assert_eq!(picker.selected, chosen);
}

#[test]
fn moving_up_from_the_top_wraps_past_unavailable_undo() {
    let mut picker = picker(two_columns(), "p1");
    picker.move_selection(-1);
    assert_eq!(picker.items[picker.selected], PickerItem::Action(PickerAction::Rotate));
}

#[test]
fn keyboard_rearranging_docks_beside_the_target() {
    let mut picker = picker(two_columns(), "p1");
    picker.focus_preview();
    picker.handle_key(PickerKey::Space);
    assert_eq!(picker.drag_source.as_deref(), Some("p1"));
    assert_eq!(picker.drop_target.as_ref().map(|t| t.pane_id.as_str()), Some("p2"));
    picker.handle_key(PickerKey::Tab);
    assert!(matches!(picker.drop_target.as_ref().map(|t| t.zone), Some(DropZone::Left)));
    let numbers: Vec<(String, usize)> = vec![("p1".into(), 1), ("p2".into(), 2)];
    assert_eq!(picker.preview_label(&numbers), "Move 1 left of 2");
    let request = picker.handle_key(PickerKey::Space);
    let PickerRequest::ApplyLayout(target) = request else {
        panic!("no layout to apply");
    };
    assert_eq!(target.pane_ids().unwrap_or_default(), vec!["p1", "p2"]);
}

#[test]
fn a_repeated_pane_id_is_numbered_by_its_last_place() {
    let root = LayoutNode::split(
        SplitDirection::Right,
        HALF_RATIO,
        LayoutNode::pane("p1".into()),
        LayoutNode::split(SplitDirection::Down, HALF_RATIO, LayoutNode::pane("p2".into()), LayoutNode::pane("p1".into())),
    );
    let picker = picker(root, "p1");

    assert_eq!(picker.pane_number("p1"), Some(3));
    assert_eq!(picker.pane_number("p2"), Some(2));
    assert_eq!(picker.pane_numbers.len(), 2);
}

#[test]
fn new_panes_are_numbered_after_the_largest_number() {
    let mut picker = picker(two_columns(), "p1");

    picker.ensure_pane_numbers(&["p2".to_string(), "p9".to_string(), "p7".to_string(), "p9".to_string()]);

    assert_eq!(picker.pane_number("p1"), Some(1));
    assert_eq!(picker.pane_number("p2"), Some(2));
    assert_eq!(picker.pane_number("p9"), Some(3));
    assert_eq!(picker.pane_number("p7"), Some(4));
    assert_eq!(picker.pane_numbers.len(), 4);
}

#[test]
fn a_margin_wider_than_the_area_leaves_nothing() {
    assert_eq!(Rect::new(1, 2, 3, 4).inner(1, 2), Rect::new(2, 4, 1, 0));
    assert_eq!(Rect::new(5, 5, 10, 10).inner(6, 1), Rect::new(0, 0, 0, 0));
    assert_eq!(Rect::new(0, 0, 100, 100).inner(u16::MAX, 0), Rect::new(0, 0, 0, 0));
}

#[test]
fn the_rows_stay_stacked_on_any_screen_height() {
    for height in 0..40u16 {
        let mut picker = picker(two_columns(), "p1");
        let screen = picker.lay_out(Rect::new(0, 3, 64, height));
        let (tabs, main, footer) = (screen.tabs_area, screen.main_area, screen.footer_area);
        assert_eq!(tabs.y, 3);
        assert_eq!(main.y, tabs.y + tabs.height);
        assert_eq!(footer.y, main.y + main.height);
        assert!(footer.y + footer.height <= 3 + height);
        if height >= 13 {
            assert_eq!((tabs.height, main.height, footer.height), (3, height - 5, 2));
        }
    }
}
