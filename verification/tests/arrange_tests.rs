use layouts::arrange::{Arrange, ArrangeNext, Call, Operation, Reply};
use layouts::error::AppError;
use layouts::layout::{LayoutDescription, LayoutNode, SplitDirection, HALF_RATIO};
use layouts::operations::{LayoutPreset, TWO_THIRDS_RATIO};
use layouts::state::UndoRecord;

fn rows() -> LayoutNode {
    LayoutNode::split(SplitDirection::Down, HALF_RATIO, LayoutNode::pane("p1".into()), LayoutNode::pane("p2".into()))
}

fn columns() -> LayoutNode {
    LayoutNode::split(SplitDirection::Right, HALF_RATIO, LayoutNode::pane("p1".into()), LayoutNode::pane("p2".into()))
}

fn described(root: LayoutNode, tab: &str) -> LayoutDescription {
    LayoutDescription {
        workspace_id: "w1".into(),
        tab_id: tab.into(),
        zoomed: false,
        focused_pane_id: "p1".into(),
        root,
    }
}

fn expect_call(next: ArrangeNext) -> (Arrange, Call) {
    match next {
        ArrangeNext::Continue(arrange, call) => (arrange, call),
        ArrangeNext::Finish(outcome) => panic!("finished early: {:?}", outcome.err().map(|e| e.describe())),
    }
}

fn expect_finish(next: ArrangeNext) -> Result<bool, String> {
    match next {
        ArrangeNext::Finish(outcome) => outcome.map_err(|e| e.describe()),
        ArrangeNext::Continue(_, call) => panic!("still working: {call:?}"),
    }
}

fn answer(arrange: Arrange, reply: Reply) -> ArrangeNext {
    assert!(arrange.accepts(&reply));
    arrange.resume(reply)
}

#[test]
fn a_preset_is_applied_in_one_rearrange_request() {
    let (arrange, call) = expect_call(Arrange::start(Operation::Preset(LayoutPreset::Columns), "p1".into()));
    assert!(matches!(call, Call::Export { ref pane_id } if pane_id == "p1"));
    let (arrange, call) = expect_call(answer(arrange, Reply::Layout(described(rows(), "t1"))));
    assert!(matches!(call, Call::Rearrange { ref tab_id, .. } if tab_id == "t1"));
    let (arrange, call) = expect_call(answer(arrange, Reply::Layout(described(columns(), "t1"))));
    let Call::SaveUndo { record } = call else { panic!("expected the undo record to be saved") };
    assert_eq!(record.tab_id, "t1");
    assert_eq!(record.before.pane_ids().unwrap_or_default(), vec!["p1", "p2"]);
    assert!(matches!(record.before, LayoutNode::Split { direction: SplitDirection::Down, .. }));
    assert_eq!(expect_finish(answer(arrange, Reply::Done)), Ok(true));
}

#[test]
fn a_layout_that_is_already_there_changes_nothing() {
    let (arrange, _) = expect_call(Arrange::start(Operation::Preset(LayoutPreset::Rows), "p1".into()));
    assert_eq!(expect_finish(answer(arrange, Reply::Layout(described(rows(), "t1")))), Ok(true));
}

#[test]
fn a_swap_takes_one_native_request() {
    let swapped = columns().swap_panes("p1", "p2").unwrap_or_else(|e| panic!("{}", e.describe()));
    let (arrange, _) = expect_call(Arrange::start(Operation::Layout(swapped), "p1".into()));
    let (arrange, call) = expect_call(answer(arrange, Reply::Layout(described(columns(), "t1"))));
    assert!(matches!(call, Call::Swap { ref source, ref target } if source == "p1" && target == "p2"));
    let (arrange, call) = expect_call(answer(arrange, Reply::Done));
    assert!(matches!(call, Call::Export { ref pane_id } if pane_id == "p1"));
    let after = columns().swap_panes("p1", "p2").unwrap_or_else(|e| panic!("{}", e.describe()));
    let (arrange, call) = expect_call(answer(arrange, Reply::Layout(described(after, "t1"))));
    assert!(matches!(call, Call::SaveUndo { .. }));
    assert_eq!(expect_finish(answer(arrange, Reply::Done)), Ok(true));
}

#[test]
fn old_herdr_rebuilds_through_a_temporary_tab() {
    let (arrange, _) = expect_call(Arrange::start(Operation::Preset(LayoutPreset::Columns), "p1".into()));
    let (arrange, call) = expect_call(answer(arrange, Reply::Layout(described(rows(), "t1"))));
    assert!(matches!(call, Call::Rearrange { .. }));
    let unsupported = AppError::Herdr { code: "method_not_found".into(), message: "layout.rearrange".into() };
    let (arrange, call) = expect_call(answer(arrange, Reply::Failed(unsupported)));
    assert!(matches!(call, Call::CreateParkingTab { ref workspace_id } if workspace_id == "w1"));
    let (arrange, call) = expect_call(answer(arrange, Reply::ParkingTab { tab_id: "park".into(), pane_id: "root".into() }));
    assert!(matches!(call, Call::Export { ref pane_id } if pane_id == "p1"));
    let (arrange, call) = expect_call(answer(arrange, Reply::Layout(described(rows(), "t1"))));
    assert!(matches!(
        call,
        Call::Move { ref pane_id, ref tab_id, ref target_pane_id, focus: false, .. }
            if pane_id == "p2" && tab_id == "park" && target_pane_id == "root"
    ));
    let (arrange, call) = expect_call(answer(arrange, Reply::Done));
    assert!(matches!(
        call,
        Call::Move { ref pane_id, ref tab_id, ref target_pane_id, direction: SplitDirection::Right, ratio, focus: false }
            if pane_id == "p2" && tab_id == "t1" && target_pane_id == "p1" && ratio == HALF_RATIO
    ));
    let (arrange, call) = expect_call(answer(arrange, Reply::Done));
    assert!(matches!(call, Call::Export { ref pane_id } if pane_id == "p1"));
    let (arrange, call) = expect_call(answer(arrange, Reply::Layout(described(columns(), "t1"))));
    assert!(matches!(call, Call::CloseTab { ref tab_id } if tab_id == "park"));
    let (arrange, call) = expect_call(answer(arrange, Reply::Done));
    assert!(matches!(call, Call::SaveUndo { .. }));
    assert_eq!(expect_finish(answer(arrange, Reply::Done)), Ok(true));
}

#[test]
fn a_rebuild_that_fails_twice_leaves_a_notice() {
    let (arrange, _) = expect_call(Arrange::start(Operation::Preset(LayoutPreset::Columns), "p1".into()));
    let (arrange, _) = expect_call(answer(arrange, Reply::Layout(described(rows(), "t1"))));
    let unsupported = AppError::Herdr { code: "method_not_found".into(), message: String::new() };
    let (arrange, _) = expect_call(answer(arrange, Reply::Failed(unsupported)));
    let (arrange, _) = expect_call(answer(arrange, Reply::ParkingTab { tab_id: "park".into(), pane_id: "root".into() }));
    let (arrange, call) = expect_call(answer(arrange, Reply::Failed(AppError::Message("gone".into()))));
    assert!(matches!(call, Call::Export { ref pane_id } if pane_id == "p1"));
    let (arrange, call) = expect_call(answer(arrange, Reply::Failed(AppError::Message("still gone".into()))));
    assert!(matches!(
        call,
        Call::Notify { ref title, ref body }
            if title == "Arrange needs attention" && body == "A pane remains safe in temporary tab park."
    ));
    assert_eq!(
        expect_finish(answer(arrange, Reply::Done)),
        Err("gone; restoring the original layout also failed: still gone".into())
    );
}

#[test]
fn expanding_resizes_the_split_and_remembers_it() {
    let (arrange, _) = expect_call(Arrange::start(Operation::Expand, "p1".into()));
    let (arrange, call) = expect_call(answer(arrange, Reply::Layout(described(columns(), "t1"))));
    assert!(matches!(call, Call::SetRatio { ref tab_id, ref path, ratio } if tab_id == "t1" && path.is_empty() && ratio == TWO_THIRDS_RATIO));
    let (arrange, call) = expect_call(answer(arrange, Reply::Done));
    assert!(matches!(call, Call::Export { .. }));
    let expanded = LayoutNode::split(SplitDirection::Right, TWO_THIRDS_RATIO, LayoutNode::pane("p1".into()), LayoutNode::pane("p2".into()));
    let (arrange, call) = expect_call(answer(arrange, Reply::Layout(described(expanded, "t1"))));
    assert!(matches!(call, Call::SaveUndo { .. }));
    let (arrange, call) = expect_call(answer(arrange, Reply::Failed(AppError::Io("disk full".into()))));
    assert!(matches!(call, Call::SetRatio { ratio: HALF_RATIO, .. }));
    assert_eq!(expect_finish(answer(arrange, Reply::Done)), Err("disk full".into()));
}

#[test]
fn balancing_a_balanced_split_does_nothing() {
    let (arrange, _) = expect_call(Arrange::start(Operation::Balance, "p1".into()));
    assert_eq!(expect_finish(answer(arrange, Reply::Layout(described(columns(), "t1")))), Ok(true));
}

#[test]
fn undo_without_a_record_reports_nothing() {
    let (arrange, _) = expect_call(Arrange::start(Operation::Undo, "p1".into()));
    let (arrange, call) = expect_call(answer(arrange, Reply::Layout(described(columns(), "t1"))));
    assert!(matches!(call, Call::LoadUndo { ref tab_id } if tab_id == "t1"));
    assert_eq!(expect_finish(answer(arrange, Reply::Record(None))), Ok(false));
}

#[test]
fn undo_restores_and_drops_the_record() {
    let record = UndoRecord {
        workspace_id: "w1".into(),
        tab_id: "t1".into(),
        focused_pane_id: "p1".into(),
        before: rows(),
        after: columns().normalized().unwrap_or_else(|e| panic!("{}", e.describe())),
    };
    let (arrange, _) = expect_call(Arrange::start(Operation::Undo, "p1".into()));
    let (arrange, _) = expect_call(answer(arrange, Reply::Layout(described(columns(), "t1"))));
    let (arrange, call) = expect_call(answer(arrange, Reply::Record(Some(record))));
    assert!(matches!(call, Call::Rearrange { ref root, .. } if matches!(root, LayoutNode::Split { direction: SplitDirection::Down, .. })));
    let (arrange, call) = expect_call(answer(arrange, Reply::Layout(described(rows(), "t1"))));
    assert!(matches!(call, Call::RemoveUndo { ref tab_id } if tab_id == "t1"));
    assert_eq!(expect_finish(answer(arrange, Reply::Done)), Ok(true));
}

#[test]
fn a_zoomed_tab_is_left_alone() {
    let (arrange, _) = expect_call(Arrange::start(Operation::Rotate, "p1".into()));
    let mut zoomed = described(columns(), "t1");
    zoomed.zoomed = true;
    assert_eq!(expect_finish(answer(arrange, Reply::Layout(zoomed))), Err("Unzoom this tab to change its layout".into()));
}

#[test]
fn a_wrong_rearrangement_is_taken_back() {
    let (arrange, _) = expect_call(Arrange::start(Operation::Preset(LayoutPreset::Columns), "p1".into()));
    let (arrange, _) = expect_call(answer(arrange, Reply::Layout(described(rows(), "t1"))));
    let (arrange, call) = expect_call(answer(arrange, Reply::Layout(described(rows(), "t1"))));
    assert!(matches!(call, Call::Rearrange { .. }));
    assert_eq!(
        expect_finish(answer(arrange, Reply::Layout(described(rows(), "t1")))),
        Err("Herdr built a different layout than requested".into())
    );
}
