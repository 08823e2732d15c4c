use layouts::error::AppError;
use layouts::layout::{ComparableLayoutNode, LayoutNode, SplitDirection, HALF_RATIO};

fn three_panes() -> LayoutNode {
    LayoutNode::split(
        SplitDirection::Right,
        HALF_RATIO,
        LayoutNode::pane("p1".into()),
        LayoutNode::split(
            SplitDirection::Down,
            HALF_RATIO,
            LayoutNode::pane("p2".into()),
            LayoutNode::pane("p3".into()),
        ),
    )
}

fn describe(error: AppError) -> String {
    error.describe()
}

#[test]
fn swapping_panes_keeps_the_layout_shape() {
    let swapped = three_panes()
        .swap_panes("p1", "p3")
        .unwrap_or_else(|error| panic!("{}", describe(error)));

    assert_eq!(swapped.pane_ids().unwrap_or_default(), vec!["p3", "p2", "p1"]);
    assert!(matches!(
        swapped,
        LayoutNode::Split {
            direction: SplitDirection::Right,
            ..
        }
    ));
}

#[test]
fn docking_a_pane_collapses_its_old_split() {
    let docked = three_panes()
        .dock_pane("p3", "p1", SplitDirection::Down, true)
        .unwrap_or_else(|error| panic!("{}", describe(error)));

    assert_eq!(docked.pane_ids().unwrap_or_default(), vec!["p3", "p1", "p2"]);
    let p3_path = docked.pane_path("p3").unwrap_or_default();
    let p1_path = docked.pane_path("p1").unwrap_or_default();
    assert_eq!(&p3_path[..p3_path.len() - 1], &p1_path[..p1_path.len() - 1]);
}

#[test]
fn rotating_a_direction_twice_gives_it_back() {
    assert_eq!(SplitDirection::Right.rotated(), SplitDirection::Down);
    assert_eq!(SplitDirection::Down.rotated(), SplitDirection::Right);
    assert_eq!(SplitDirection::Right.rotated().rotated(), SplitDirection::Right);
    assert_eq!(SplitDirection::Right.as_str(), "right");
    assert_eq!(SplitDirection::Down.as_str(), "down");
}

#[test]
fn swapping_twice_restores_the_tree() {
    let tree = three_panes();
    let twice = tree
        .swap_panes("p1", "p2")
        .and_then(|t| t.swap_panes("p1", "p2"))
        .unwrap_or_else(|error| panic!("{}", describe(error)));
    let a = twice.normalized().unwrap_or_else(|error| panic!("{}", describe(error)));
    let b = tree.normalized().unwrap_or_else(|error| panic!("{}", describe(error)));
    assert!(a == b);
}

#[test]
fn swapping_a_pane_with_itself_is_refused() {
    let error = three_panes().swap_panes("p1", "p1").err().map(describe);
    assert_eq!(error.as_deref(), Some("Choose two different panes to swap"));
    let error = three_panes().swap_panes("p1", "p9").err().map(describe);
    assert_eq!(error.as_deref(), Some("Choose two different panes to swap"));
}

#[test]
fn docking_on_itself_is_refused() {
    let error = three_panes().dock_pane("p2", "p2", SplitDirection::Right, false).err().map(describe);
    assert_eq!(error.as_deref(), Some("Choose a different pane as the drop target"));
}

#[test]
fn docking_after_the_target_puts_the_pane_second() {
    let docked = three_panes()
        .dock_pane("p1", "p3", SplitDirection::Right, false)
        .unwrap_or_else(|error| panic!("{}", describe(error)));
    assert_eq!(docked.pane_ids().unwrap_or_default(), vec!["p2", "p3", "p1"]);
}

#[test]
fn a_pane_without_an_id_is_an_error() {
    let tree = LayoutNode::split(
        SplitDirection::Right,
        HALF_RATIO,
        LayoutNode::pane("p1".into()),
        LayoutNode::Pane { pane_id: None, cwd: None, label: None, command: None, env: Vec::new() },
    );
    let error = tree.pane_ids().err().map(describe);
    assert_eq!(error.as_deref(), Some("The layout contains a pane without an ID"));
    assert!(tree.normalized().is_err());
    assert!(tree.first_pane_id().is_ok());
}

#[test]
fn paths_lead_to_panes_and_closest_splits() {
    let tree = three_panes();
    assert_eq!(tree.pane_path("p3"), Some(vec![true, true]));
    assert_eq!(tree.pane_path("p9"), None);
    assert_eq!(tree.closest_split_path("p3"), Some(vec![true]));
    assert_eq!(tree.closest_split_path("p1"), Some(vec![]));
    assert!(matches!(tree.node_at_path(&[true]), Some(LayoutNode::Split { direction: SplitDirection::Down, .. })));
    assert!(tree.node_at_path(&[false, true]).is_none());
}

#[test]
fn replacing_a_node_at_a_stale_path_is_an_error() {
    let tree = three_panes();
    let error = tree.with_node_at_path(&[false, false], LayoutNode::pane("p9".into())).err().map(describe);
    assert_eq!(error.as_deref(), Some("The split path is no longer valid"));
    let replaced = tree
        .with_node_at_path(&[true], LayoutNode::pane("p9".into()))
        .unwrap_or_else(|error| panic!("{}", describe(error)));
    assert_eq!(replaced.pane_ids().unwrap_or_default(), vec!["p1", "p9"]);
}

#[test]
fn ratios_compare_in_ten_thousandths() {
    let a = LayoutNode::split(SplitDirection::Right, 333_333_333, LayoutNode::pane("a".into()), LayoutNode::pane("b".into()));
    let b = LayoutNode::split(SplitDirection::Right, 333_340_000, LayoutNode::pane("a".into()), LayoutNode::pane("b".into()));
    let c = LayoutNode::split(SplitDirection::Right, 333_400_000, LayoutNode::pane("a".into()), LayoutNode::pane("b".into()));
    let na = a.normalized().unwrap_or_else(|e| panic!("{}", describe(e)));
    let nb = b.normalized().unwrap_or_else(|e| panic!("{}", describe(e)));
    let nc = c.normalized().unwrap_or_else(|e| panic!("{}", describe(e)));
    assert!(na == nb);
    assert!(na != nc);
    assert!(matches!(na, ComparableLayoutNode::Split { ratio: 3333, .. }));
}

#[test]
fn herdr_errors_are_described_with_their_code() {
    let error = AppError::Herdr { code: "invalid_request".into(), message: "bad".into() };
    assert_eq!(error.describe(), "Herdr returned invalid_request: bad");
    assert_eq!(AppError::Message("plain".into()).describe(), "plain");
}

#[test]
fn replacing_a_node_leaves_the_other_branches_and_splits() {
    let tree = three_panes();
    let replaced = tree
        .with_node_at_path(&[true, false], LayoutNode::pane("p9".into()))
        .unwrap_or_else(|error| panic!("{}", describe(error)));

    assert_eq!(replaced.pane_ids().unwrap_or_default(), vec!["p1", "p9", "p3"]);
    assert!(matches!(replaced.node_at_path(&[false]), Some(LayoutNode::Pane { pane_id: Some(id), .. }) if id == "p1"));
    assert!(matches!(replaced.node_at_path(&[true, true]), Some(LayoutNode::Pane { pane_id: Some(id), .. }) if id == "p3"));
    assert!(matches!(replaced, LayoutNode::Split { direction: SplitDirection::Right, ratio: HALF_RATIO, .. }));
    assert!(matches!(replaced.node_at_path(&[true]), Some(LayoutNode::Split { direction: SplitDirection::Down, ratio: HALF_RATIO, .. })));

    let put_back = replaced
        .with_node_at_path(&[true, false], LayoutNode::pane("p2".into()))
        .and_then(|t| t.normalized())
        .unwrap_or_else(|error| panic!("{}", describe(error)));
    let original = tree.normalized().unwrap_or_else(|error| panic!("{}", describe(error)));
    assert!(put_back == original);
}

#[test]
fn a_swapped_layout_can_be_swapped_back() {
    let tree = three_panes();
    let swapped = tree.swap_panes("p2", "p3").unwrap_or_else(|error| panic!("{}", describe(error)));

    assert_eq!(swapped.pane_ids().unwrap_or_default(), vec!["p1", "p3", "p2"]);
    assert_eq!(swapped.pane_path("p2"), Some(vec![true, true]));
    assert_eq!(swapped.pane_path("p3"), Some(vec![true, false]));
    assert!(matches!(swapped.node_at_path(&[true]), Some(LayoutNode::Split { direction: SplitDirection::Down, ratio: HALF_RATIO, .. })));
    let back = swapped
        .swap_panes("p2", "p3")
        .and_then(|t| t.normalized())
        .unwrap_or_else(|error| panic!("{}", describe(error)));
    let original = tree.normalized().unwrap_or_else(|error| panic!("{}", describe(error)));
    assert!(back == original);
}
