use vstd::prelude::*;
use vstd::string::*;

use crate::error::{
    message, AppError, ErrorModel, FOCUSED_NOT_IN_LAYOUT, GRID_NEEDS_FOUR, LAYOUT_NEEDS_A_PANE, MISSING_PANE_ID,
    NOT_SAME_PANES, NO_SPLIT_TO_RESIZE, NO_SPLIT_TO_ROTATE, TWO_TO_FOUR_PANES, UNZOOM_FIRST, WORKS_WITH_TWO_TO_FOUR,
};
use crate::layout::{
    ComparableTree, DescriptionModel, LayoutDescription, LayoutNode, LayoutTree, SplitDirection, HALF_RATIO,
};
use crate::operations::{
    detect_fast_mutation, no_earlier_swap, rearrange_unsupported, spec_rearrange_unsupported, swap_gives, undo_record,
    preset_layout, ratio_at, rotated_layout, spec_chosen_ratio, undo_outcome, FastMutation, LayoutPreset, RatioRule,
    ratio_change, target_for_preset, target_for_rotate, undo_plan, validate_mutation, UndoOutcome, UndoPlan,
    ids_other_than, insertion_steps, others, steps_of, steps_view, validate_same_panes, InsertionStep, StepInfo,
};
use crate::state::{RecordModel, UndoRecord};
use crate::text::same_text;

verus! {

/// Work outside the library that an Arrange operation asks for: a request
/// to Herdr, or a read or write of the undo record.
#[derive(Debug)]
pub enum Call {
    /// Ask Herdr for the layout of the tab holding the pane.
    Export { pane_id: String },
    /// Ask Herdr to rebuild the tab's layout as `root` in one request.
    Rearrange { tab_id: String, root: LayoutNode },
    /// Set the share of the first child of the split at `path`.
    SetRatio { tab_id: String, path: Vec<bool>, ratio: u32 },
    /// Open a temporary tab to hold panes while rebuilding.
    CreateParkingTab { workspace_id: String },
    /// Exchange two panes.
    Swap { source: String, target: String },
    /// Move a pane into a split beside another pane of a tab.
    Move {
        pane_id: String,
        tab_id: String,
        target_pane_id: String,
        direction: SplitDirection,
        ratio: u32,
        focus: bool,
    },
    CloseTab { tab_id: String },
    /// Show a notification; its outcome does not matter.
    Notify { title: String, body: String },
    /// Read the undo record of a tab.
    LoadUndo { tab_id: String },
    /// Store the undo record of its tab.
    SaveUndo { record: UndoRecord },
    /// Forget the undo record of a tab.
    RemoveUndo { tab_id: String },
}

/// A move request as a mathematical value.
pub struct MoveModel {
    pub pane_id: Seq<char>,
    pub tab_id: Seq<char>,
    pub target_pane_id: Seq<char>,
    pub direction: SplitDirection,
    pub ratio: u32,
    pub focus: bool,
}

/// Outside work as a mathematical value.
pub enum CallModel {
    Export(Seq<char>),
    Rearrange(Seq<char>, LayoutTree),
    SetRatio(Seq<char>, Seq<bool>, u32),
    CreateParkingTab(Seq<char>),
    Swap(Seq<char>, Seq<char>),
    Move(MoveModel),
    CloseTab(Seq<char>),
    Notify(Seq<char>, Seq<char>),
    LoadUndo(Seq<char>),
    SaveUndo(RecordModel),
    RemoveUndo(Seq<char>),
}

impl View for Call {
    type V = CallModel;

    open spec fn view(&self) -> CallModel {
        match self {
            Call::Export { pane_id } => CallModel::Export(pane_id@),
            Call::Rearrange { tab_id, root } => CallModel::Rearrange(tab_id@, root@),
            Call::SetRatio { tab_id, path, ratio } => CallModel::SetRatio(tab_id@, path@, *ratio),
            Call::CreateParkingTab { workspace_id } => CallModel::CreateParkingTab(workspace_id@),
            Call::Swap { source, target } => CallModel::Swap(source@, target@),
            Call::Move { pane_id, tab_id, target_pane_id, direction, ratio, focus } => CallModel::Move(
                MoveModel {
                    pane_id: pane_id@,
                    tab_id: tab_id@,
                    target_pane_id: target_pane_id@,
                    direction: *direction,
                    ratio: *ratio,
                    focus: *focus,
                },
            ),
            Call::CloseTab { tab_id } => CallModel::CloseTab(tab_id@),
            Call::Notify { title, body } => CallModel::Notify(title@, body@),
            Call::LoadUndo { tab_id } => CallModel::LoadUndo(tab_id@),
            Call::SaveUndo { record } => CallModel::SaveUndo(record@),
            Call::RemoveUndo { tab_id } => CallModel::RemoveUndo(tab_id@),
        }
    }
}

/// What came of outside work.
#[derive(Debug)]
pub enum Reply {
    /// The layout Herdr reported (after an export or a rearrangement).
    Layout(LayoutDescription),
    /// The temporary tab and its first pane.
    ParkingTab { tab_id: String, pane_id: String },
    /// The undo record that was read, if there was one.
    Record(Option<UndoRecord>),
    /// The work succeeded and gave nothing back.
    Done,
    /// The work failed.
    Failed(AppError),
}

/// What came of outside work, as a mathematical value.
pub enum ReplyModel {
    Layout(DescriptionModel),
    ParkingTab(Seq<char>, Seq<char>),
    Record(Option<RecordModel>),
    Done,
    Failed(ErrorModel),
}

impl View for Reply {
    type V = ReplyModel;

    open spec fn view(&self) -> ReplyModel {
        match self {
            Reply::Layout(layout) => ReplyModel::Layout(layout@),
            Reply::ParkingTab { tab_id, pane_id } => ReplyModel::ParkingTab(tab_id@, pane_id@),
            Reply::Record(record) => ReplyModel::Record(
                match record {
                    Some(r) => Some(r@),
                    None => None,
                },
            ),
            Reply::Done => ReplyModel::Done,
            Reply::Failed(error) => ReplyModel::Failed(error@),
        }
    }
}

/// The kind of reply that outside work gives when it succeeds.
pub enum ReplyKind {
    Layout,
    ParkingTab,
    Record,
    Done,
}

impl CallModel {
    /// The kind of reply this work gives when it succeeds.
    pub open spec fn answered_by(self) -> ReplyKind {
        match self {
            CallModel::Export(_) => ReplyKind::Layout,
            CallModel::Rearrange(..) => ReplyKind::Layout,
            CallModel::CreateParkingTab(_) => ReplyKind::ParkingTab,
            CallModel::LoadUndo(_) => ReplyKind::Record,
            _ => ReplyKind::Done,
        }
    }
}

impl ReplyModel {
    /// The reply can answer work whose success gives `kind`: it is a failure,
    /// or a success of that kind.
    pub open spec fn answers(self, kind: ReplyKind) -> bool {
        match self {
            ReplyModel::Failed(_) => true,
            ReplyModel::Layout(_) => kind is Layout,
            ReplyModel::ParkingTab(..) => kind is ParkingTab,
            ReplyModel::Record(_) => kind is Record,
            ReplyModel::Done => kind is Done,
        }
    }
}

/// The error of a layout that has a pane without an ID.
pub open spec fn missing_id() -> ErrorModel {
    ErrorModel::Message(MISSING_PANE_ID@)
}

/// The error of a rebuild whose way back failed too.
pub open spec fn rollback_failure(first: ErrorModel, second: ErrorModel) -> ErrorModel {
    ErrorModel::Message(first.text() + "; restoring the original layout also failed: "@ + second.text())
}

/// The title of the notice that a pane was left in the temporary tab.
pub open spec fn attention_title() -> Seq<char> {
    "Arrange needs attention"@
}

/// The notice that a pane was left in the temporary tab.
pub open spec fn stranded_notice(parking_tab: Seq<char>) -> Seq<char> {
    "A pane remains safe in temporary tab "@ + parking_tab + "."@
}

/// The notice that the temporary tab could not be closed.
pub open spec fn leftover_notice(parking_tab: Seq<char>) -> Seq<char> {
    "Close temporary tab "@ + parking_tab + " when convenient."@
}

/// Where a rebuild stands: which reply it waits for.
#[derive(Debug)]
pub enum RebuildStage {
    /// The temporary tab is being created.
    CreateParking,
    /// The layout around the goal's first pane is being read.
    Anchor,
    /// The layout around `ids[index]` is being read, looking for a pane still
    /// in the source tab; `found` is the first one seen there so far.
    Probe { index: usize, found: Option<String> },
    /// The first pane is being moved back into the source tab.
    MoveAnchor,
    /// The source tab's layout is being read again.
    Reexport,
    /// `panes[index]` is being moved to the temporary tab.
    Park { panes: Vec<String>, index: usize },
    /// `steps[index]` is being carried out.
    Insert { steps: Vec<InsertionStep>, index: usize },
    /// The rebuilt layout is being read to compare it with the goal.
    Check,
    /// The temporary tab is being closed; `outcome` follows.
    Close { outcome: Result<LayoutDescription, AppError> },
    /// A notification is being shown; `outcome` follows.
    Notify { outcome: Result<LayoutDescription, AppError> },
}

/// Where a rebuild stands, as a mathematical value.
pub enum StageModel {
    CreateParking,
    Anchor,
    Probe(usize, Option<Seq<char>>),
    MoveAnchor,
    Reexport,
    Park(Seq<Seq<char>>, usize),
    Insert(Seq<StepInfo>, usize),
    Check,
    Close(Result<DescriptionModel, ErrorModel>),
    Notify(Result<DescriptionModel, ErrorModel>),
}

pub open spec fn outcome_view(outcome: Result<LayoutDescription, AppError>) -> Result<DescriptionModel, ErrorModel> {
    match outcome {
        Ok(layout) => Ok(layout@),
        Err(error) => Err(error@),
    }
}

impl View for RebuildStage {
    type V = StageModel;

    open spec fn view(&self) -> StageModel {
        match self {
            RebuildStage::CreateParking => StageModel::CreateParking,
            RebuildStage::Anchor => StageModel::Anchor,
            RebuildStage::Probe { index, found } => StageModel::Probe(*index, found.deep_view()),
            RebuildStage::MoveAnchor => StageModel::MoveAnchor,
            RebuildStage::Reexport => StageModel::Reexport,
            RebuildStage::Park { panes, index } => StageModel::Park(panes.deep_view(), *index),
            RebuildStage::Insert { steps, index } => StageModel::Insert(steps_view(steps@), *index),
            RebuildStage::Check => StageModel::Check,
            RebuildStage::Close { outcome } => StageModel::Close(outcome_view(*outcome)),
            RebuildStage::Notify { outcome } => StageModel::Notify(outcome_view(*outcome)),
        }
    }
}

/// Rebuilding a tab's layout pane by pane: every pane but the goal's first
/// goes to a temporary tab and comes back into place, one move at a time.
/// When that fails, the same is done to get back the layout it started from; when
/// that fails too, a pane may be left in the temporary tab and the user is
/// told so.
#[derive(Debug)]
pub struct Rebuild {
    pub source_tab: String,
    pub focused: String,
    /// The layout before the rebuild, restored when the rebuild fails.
    pub former: LayoutNode,
    /// The layout being built now.
    pub goal: LayoutNode,
    pub parking_tab: String,
    pub parking_root: String,
    /// The goal's pane IDs and its first pane.
    pub ids: Vec<String>,
    pub anchor: String,
    /// Why the rebuild failed, once the way back is being built.
    pub first_error: Option<AppError>,
    pub stage: RebuildStage,
}

/// A rebuild as a mathematical value.
pub struct RebuildModel {
    pub source_tab: Seq<char>,
    pub focused: Seq<char>,
    pub former: LayoutTree,
    pub goal: LayoutTree,
    pub parking_tab: Seq<char>,
    pub parking_root: Seq<char>,
    pub ids: Seq<Seq<char>>,
    pub anchor: Seq<char>,
    pub first_error: Option<ErrorModel>,
    pub stage: StageModel,
}

impl View for Rebuild {
    type V = RebuildModel;

    open spec fn view(&self) -> RebuildModel {
        RebuildModel {
            source_tab: self.source_tab@,
            focused: self.focused@,
            former: self.former@,
            goal: self.goal@,
            parking_tab: self.parking_tab@,
            parking_root: self.parking_root@,
            ids: self.ids.deep_view(),
            anchor: self.anchor@,
            first_error: match self.first_error {
                Some(e) => Some(e@),
                None => None,
            },
            stage: self.stage@,
        }
    }
}

/// A rebuild's next move: outside work and the rebuild waiting for its
/// reply, or the finished outcome (the rebuilt layout).
#[derive(Debug)]
pub enum RebuildNext {
    Continue(Rebuild, Call),
    Finish(Result<LayoutDescription, AppError>),
}

/// A rebuild's next move as a mathematical value.
pub enum RebuildNextModel {
    Continue(RebuildModel, CallModel),
    Finish(Result<DescriptionModel, ErrorModel>),
}

impl View for RebuildNext {
    type V = RebuildNextModel;

    open spec fn view(&self) -> RebuildNextModel {
        match self {
            RebuildNext::Continue(rebuild, call) => RebuildNextModel::Continue(rebuild@, call@),
            RebuildNext::Finish(outcome) => RebuildNextModel::Finish(outcome_view(*outcome)),
        }
    }
}

impl RebuildModel {
    /// The kind of reply the rebuild waits for.
    pub open spec fn expects(self) -> ReplyKind {
        match self.stage {
            StageModel::CreateParking => ReplyKind::ParkingTab,
            StageModel::Anchor | StageModel::Probe(..) | StageModel::Reexport | StageModel::Check => ReplyKind::Layout,
            _ => ReplyKind::Done,
        }
    }

    /// Give up after the way back failed too: tell the user a pane may be
    /// left in the temporary tab, then fail with both reasons.
    pub open spec fn give_up(self, first: ErrorModel, second: ErrorModel) -> RebuildNextModel {
        RebuildNextModel::Continue(
            RebuildModel { stage: StageModel::Notify(Err(rollback_failure(first, second))), ..self },
            CallModel::Notify(attention_title(), stranded_notice(self.parking_tab)),
        )
    }

    /// The current pass failed with `error`: build the starting layout
    /// again, or give up when that was the pass that failed.
    pub open spec fn fail_pass(self, error: ErrorModel) -> RebuildNextModel {
        match self.first_error {
            Some(first) => self.give_up(first, error),
            None => {
                let back = RebuildModel { first_error: Some(error), goal: self.former, ..self };
                match back.goal.pane_ids() {
                    Some(ids) => {
                        let anchor = back.goal.first_pane_id()->0;
                        RebuildNextModel::Continue(
                            RebuildModel { ids, anchor, stage: StageModel::Anchor, ..back },
                            CallModel::Export(anchor),
                        )
                    },
                    None => back.give_up(error, missing_id()),
                }
            },
        }
    }

    /// Start building the goal: read the layout around its first pane.
    pub open spec fn open_pass(self) -> RebuildNextModel {
        match self.goal.pane_ids() {
            Some(ids) => {
                let anchor = self.goal.first_pane_id()->0;
                RebuildNextModel::Continue(
                    RebuildModel { ids, anchor, stage: StageModel::Anchor, ..self },
                    CallModel::Export(anchor),
                )
            },
            None => self.fail_pass(missing_id()),
        }
    }

    /// The pass built the goal, shown in `layout`: close the temporary tab,
    /// then report the layout, or the first error when this was the way back.
    pub open spec fn pass_built(self, layout: DescriptionModel) -> RebuildNextModel {
        let outcome = match self.first_error {
            Some(first) => Err(first),
            None => Ok(layout),
        };
        RebuildNextModel::Continue(
            RebuildModel { stage: StageModel::Close(outcome), ..self },
            CallModel::CloseTab(self.parking_tab),
        )
    }

    /// Carry out the goal's moves from `steps[index]` on, then read the
    /// result.
    pub open spec fn insert_from(self, steps: Seq<StepInfo>, index: usize) -> RebuildNextModel {
        if index < steps.len() {
            let step = steps[index as int];
            RebuildNextModel::Continue(
                RebuildModel { stage: StageModel::Insert(steps, index), ..self },
                CallModel::Move(
                    MoveModel {
                        pane_id: step.pane_id,
                        tab_id: self.source_tab,
                        target_pane_id: step.target_pane_id,
                        direction: step.direction,
                        ratio: step.ratio,
                        focus: step.pane_id == self.focused,
                    },
                ),
            )
        } else {
            RebuildNextModel::Continue(RebuildModel { stage: StageModel::Check, ..self }, CallModel::Export(self.anchor))
        }
    }

    /// Move `panes[index]` and the ones after it to the temporary tab, then
    /// start putting them back.
    pub open spec fn park_from(self, panes: Seq<Seq<char>>, index: usize) -> RebuildNextModel {
        if index < panes.len() {
            RebuildNextModel::Continue(
                RebuildModel { stage: StageModel::Park(panes, index), ..self },
                CallModel::Move(
                    MoveModel {
                        pane_id: panes[index as int],
                        tab_id: self.parking_tab,
                        target_pane_id: self.parking_root,
                        direction: SplitDirection::Right,
                        ratio: HALF_RATIO,
                        focus: false,
                    },
                ),
            )
        } else {
            match steps_of(self.goal) {
                Some(steps) => self.insert_from(steps, 0),
                None => self.fail_pass(missing_id()),
            }
        }
    }

    /// The source tab looks like `layout`: park every pane of it but the
    /// first pane of the goal.
    pub open spec fn park_all(self, layout: DescriptionModel) -> RebuildNextModel {
        match layout.root.pane_ids() {
            Some(ids) => self.park_from(others(ids, self.anchor), 0),
            None => self.fail_pass(missing_id()),
        }
    }

    /// The next move after `reply`.
    pub open spec fn next(self, reply: ReplyModel) -> RebuildNextModel {
        match reply {
            ReplyModel::Failed(error) => match self.stage {
                StageModel::CreateParking => RebuildNextModel::Finish(Err(error)),
                StageModel::Close(outcome) => RebuildNextModel::Continue(
                    RebuildModel { stage: StageModel::Notify(outcome), ..self },
                    CallModel::Notify("Arrange"@, leftover_notice(self.parking_tab)),
                ),
                StageModel::Notify(outcome) => RebuildNextModel::Finish(outcome),
                _ => self.fail_pass(error),
            },
            _ => match self.stage {
                StageModel::CreateParking => match reply {
                    ReplyModel::ParkingTab(tab, pane) => RebuildModel {
                        parking_tab: tab,
                        parking_root: pane,
                        ..self
                    }.open_pass(),
                    _ => RebuildNextModel::Finish(Err(missing_id())),
                },
                StageModel::Anchor => match reply {
                    ReplyModel::Layout(layout) => if layout.tab_id == self.source_tab {
                        self.park_all(layout)
                    } else {
                        RebuildNextModel::Continue(
                            RebuildModel { stage: StageModel::Probe(0, None), ..self },
                            CallModel::Export(self.ids[0]),
                        )
                    },
                    _ => self.fail_pass(missing_id()),
                },
                StageModel::Probe(index, found) => match reply {
                    ReplyModel::Layout(layout) => {
                        let found_now = match found {
                            Some(f) => Some(f),
                            None => if layout.tab_id == self.source_tab {
                                Some(self.ids[index as int])
                            } else {
                                None
                            },
                        };
                        let count = self.ids.len();
                    if index + 1 < count {
                            RebuildNextModel::Continue(
                                RebuildModel { stage: StageModel::Probe((index + 1) as usize, found_now), ..self },
                                CallModel::Export(self.ids[index + 1]),
                            )
                        } else {
                            match found_now {
                                Some(source_pane) => RebuildNextModel::Continue(
                                    RebuildModel { stage: StageModel::MoveAnchor, ..self },
                                    CallModel::Move(
                                        MoveModel {
                                            pane_id: self.anchor,
                                            tab_id: self.source_tab,
                                            target_pane_id: source_pane,
                                            direction: SplitDirection::Right,
                                            ratio: HALF_RATIO,
                                            focus: self.anchor == self.focused,
                                        },
                                    ),
                                ),
                                None => self.fail_pass(ErrorModel::Message(LOST_EVERY_PANE@)),
                            }
                        }
                    },
                    _ => self.fail_pass(missing_id()),
                },
                StageModel::MoveAnchor => RebuildNextModel::Continue(
                    RebuildModel { stage: StageModel::Reexport, ..self },
                    CallModel::Export(self.anchor),
                ),
                StageModel::Reexport => match reply {
                    ReplyModel::Layout(layout) => self.park_all(layout),
                    _ => self.fail_pass(missing_id()),
                },
                StageModel::Park(panes, index) => self.park_from(panes, (index + 1) as usize),
                StageModel::Insert(steps, index) => self.insert_from(steps, (index + 1) as usize),
                StageModel::Check => match reply {
                    ReplyModel::Layout(layout) => match (layout.root.normalized(), self.goal.normalized()) {
                        (Some(built), Some(wanted)) => if built == wanted {
                            self.pass_built(layout)
                        } else {
                            self.fail_pass(ErrorModel::Message(DIFFERENT_LAYOUT@))
                        },
                        _ => self.fail_pass(missing_id()),
                    },
                    _ => self.fail_pass(missing_id()),
                },
                StageModel::Close(outcome) => RebuildNextModel::Finish(outcome),
                StageModel::Notify(outcome) => RebuildNextModel::Finish(outcome),
            },
        }
    }
}

pub const LOST_EVERY_PANE: &'static str = "The source tab lost every user pane";

pub const DIFFERENT_LAYOUT: &'static str = "Herdr built a different layout than requested";

} // verus!

verus! {

/// A tree lists at least one pane.
pub proof fn lemma_ids_nonempty(t: LayoutTree)
    ensures
        t.pane_ids() is Some ==> t.pane_ids()->0.len() > 0,
    decreases t,
{
    match t {
        LayoutTree::Pane(_) => {},
        LayoutTree::Split { first, second, .. } => {
            lemma_ids_nonempty(*first);
            lemma_ids_nonempty(*second);
        },
    }
}

impl RebuildModel {
    /// The rebuild's positions point into what they count.
    pub open spec fn wf(self) -> bool {
        match self.stage {
            StageModel::Anchor => self.ids.len() > 0,
            StageModel::Probe(index, _) => index < self.ids.len(),
            StageModel::Park(panes, index) => index < panes.len(),
            StageModel::Insert(steps, index) => index < steps.len(),
            _ => true,
        }
    }
}

impl RebuildNextModel {
    /// A rebuild that goes on is well formed.
    pub open spec fn wf(self) -> bool {
        match self {
            RebuildNextModel::Continue(rebuild, _) => rebuild.wf(),
            RebuildNextModel::Finish(_) => true,
        }
    }
}

/// How a rebuild of `before` into `target` starts: both must hold the same
/// panes; then a temporary tab is created in the workspace.
pub open spec fn rebuild_start(before: DescriptionModel, target: LayoutTree) -> RebuildNextModel {
    match (before.root.pane_ids(), target.pane_ids()) {
        (Some(a), Some(b)) => if crate::operations::same_id_set(a, b) {
            RebuildNextModel::Continue(
                RebuildModel {
                    source_tab: before.tab_id,
                    focused: before.focused_pane_id,
                    former: before.root,
                    goal: target,
                    parking_tab: Seq::empty(),
                    parking_root: Seq::empty(),
                    ids: Seq::empty(),
                    anchor: Seq::empty(),
                    first_error: None,
                    stage: StageModel::CreateParking,
                },
                CallModel::CreateParkingTab(before.workspace_id),
            )
        } else {
            RebuildNextModel::Finish(Err(ErrorModel::Message(crate::error::NOT_SAME_PANES@)))
        },
        _ => RebuildNextModel::Finish(Err(missing_id())),
    }
}

impl Rebuild {
    /// Start rebuilding the tab of `before` into `target`.
    pub fn start(before: &LayoutDescription, target: LayoutNode) -> (r: RebuildNext)
        ensures
            r@ == rebuild_start(before@, target@),
            r@.wf(),
    {
        match validate_same_panes(&before.root, &target) {
            Ok(()) => {},
            Err(e) => return RebuildNext::Finish(Err(e)),
        }
        let rebuild = Rebuild {
            source_tab: before.tab_id.clone(),
            focused: before.focused_pane_id.clone(),
            former: before.root.duplicate(),
            goal: target,
            parking_tab: String::new(),
            parking_root: String::new(),
            ids: Vec::new(),
            anchor: String::new(),
            first_error: None,
            stage: RebuildStage::CreateParking,
        };
        assert(rebuild.ids.deep_view() =~= Seq::<Seq<char>>::empty());
        RebuildNext::Continue(rebuild, Call::CreateParkingTab { workspace_id: before.workspace_id.clone() })
    }

    /// Whether `reply` is of the kind the rebuild waits for.
    pub fn accepts(&self, reply: &Reply) -> (r: bool)
        ensures
            r == reply@.answers(self@.expects()),
    {
        match reply {
            Reply::Failed(_) => true,
            Reply::Layout(_) => match self.stage {
                RebuildStage::Anchor | RebuildStage::Probe { .. } | RebuildStage::Reexport | RebuildStage::Check => true,
                _ => false,
            },
            Reply::ParkingTab { .. } => match self.stage {
                RebuildStage::CreateParking => true,
                _ => false,
            },
            Reply::Record(_) => false,
            Reply::Done => match self.stage {
                RebuildStage::CreateParking | RebuildStage::Anchor | RebuildStage::Probe { .. }
                | RebuildStage::Reexport | RebuildStage::Check => false,
                _ => true,
            },
        }
    }

    fn give_up(self, first: AppError, second: AppError) -> (r: RebuildNext)
        ensures
            r@ == self@.give_up(first@, second@),
            r@.wf(),
    {
        let text = first.describe().concat("; restoring the original layout also failed: ").concat(
            second.describe().as_str(),
        );
        let body = "A pane remains safe in temporary tab ".to_owned().concat(self.parking_tab.as_str()).concat(".");
        let call = Call::Notify { title: "Arrange needs attention".to_owned(), body };
        RebuildNext::Continue(
            Rebuild { stage: RebuildStage::Notify { outcome: Err(AppError::Message(text)) }, ..self },
            call,
        )
    }

    fn fail_pass(self, error: AppError) -> (r: RebuildNext)
        ensures
            r@ == self@.fail_pass(error@),
            r@.wf(),
    {
        match &self.first_error {
            Some(first) => {
                let first = first.duplicate();
                return self.give_up(first, error);
            },
            None => {},
        }
        let first = error.duplicate();
        let goal = self.former.duplicate();
        let back = Rebuild { first_error: Some(error), goal, ..self };
        match back.goal.pane_ids() {
            Ok(ids) => {
                proof {
                    crate::operations::lemma_ids_give_first(back.goal@);
                    lemma_ids_nonempty(back.goal@);
                }
                let anchor = match back.goal.first_pane_id() {
                    Ok(a) => a,
                    Err(e) => return back.give_up(first, e),
                };
                let call = Call::Export { pane_id: anchor.clone() };
                RebuildNext::Continue(Rebuild { ids, anchor, stage: RebuildStage::Anchor, ..back }, call)
            },
            Err(e) => back.give_up(first, e),
        }
    }

    fn open_pass(self) -> (r: RebuildNext)
        ensures
            r@ == self@.open_pass(),
            r@.wf(),
    {
        match self.goal.pane_ids() {
            Ok(ids) => {
                proof {
                    crate::operations::lemma_ids_give_first(self.goal@);
                    lemma_ids_nonempty(self.goal@);
                }
                let anchor = match self.goal.first_pane_id() {
                    Ok(a) => a,
                    Err(e) => return self.fail_pass(e),
                };
                let call = Call::Export { pane_id: anchor.clone() };
                RebuildNext::Continue(Rebuild { ids, anchor, stage: RebuildStage::Anchor, ..self }, call)
            },
            Err(e) => self.fail_pass(e),
        }
    }

    fn pass_built(self, layout: LayoutDescription) -> (r: RebuildNext)
        ensures
            r@ == self@.pass_built(layout@),
            r@.wf(),
    {
        let outcome = match &self.first_error {
            Some(first) => Err(first.duplicate()),
            None => Ok(layout),
        };
        let call = Call::CloseTab { tab_id: self.parking_tab.clone() };
        RebuildNext::Continue(Rebuild { stage: RebuildStage::Close { outcome }, ..self }, call)
    }

    fn insert_from(self, steps: Vec<InsertionStep>, index: usize) -> (r: RebuildNext)
        ensures
            r@ == self@.insert_from(steps_view(steps@), index),
            r@.wf(),
    {
        if index < steps.len() {
            let call = Call::Move {
                pane_id: steps[index].pane_id.clone(),
                tab_id: self.source_tab.clone(),
                target_pane_id: steps[index].target_pane_id.clone(),
                direction: steps[index].direction,
                ratio: steps[index].ratio,
                focus: same_text(steps[index].pane_id.as_str(), self.focused.as_str()),
            };
            RebuildNext::Continue(Rebuild { stage: RebuildStage::Insert { steps, index }, ..self }, call)
        } else {
            let call = Call::Export { pane_id: self.anchor.clone() };
            RebuildNext::Continue(Rebuild { stage: RebuildStage::Check, ..self }, call)
        }
    }

    fn park_from(self, panes: Vec<String>, index: usize) -> (r: RebuildNext)
        ensures
            r@ == self@.park_from(panes.deep_view(), index),
            r@.wf(),
    {
        if index < panes.len() {
            let call = Call::Move {
                pane_id: panes[index].clone(),
                tab_id: self.parking_tab.clone(),
                target_pane_id: self.parking_root.clone(),
                direction: SplitDirection::Right,
                ratio: HALF_RATIO,
                focus: false,
            };
            RebuildNext::Continue(Rebuild { stage: RebuildStage::Park { panes, index }, ..self }, call)
        } else {
            match insertion_steps(&self.goal) {
                Ok(steps) => self.insert_from(steps, 0),
                Err(e) => self.fail_pass(e),
            }
        }
    }

    fn park_all(self, layout: LayoutDescription) -> (r: RebuildNext)
        ensures
            r@ == self@.park_all(layout@),
            r@.wf(),
    {
        match layout.root.pane_ids() {
            Ok(ids) => {
                let panes = ids_other_than(&ids, self.anchor.as_str());
                self.park_from(panes, 0)
            },
            Err(e) => self.fail_pass(e),
        }
    }

    /// Go on after `reply`, the outcome of the work asked for last.
    pub fn resume(self, reply: Reply) -> (r: RebuildNext)
        requires
            self@.wf(),
            reply@.answers(self@.expects()),
        ensures
            r@ == self@.next(reply@),
            r@.wf(),
    {
        proof {
            assert(self.ids.deep_view().len() == self.ids@.len());
            if let RebuildStage::Park { panes, .. } = &self.stage {
                assert(panes.deep_view().len() == panes@.len());
            }
        }
        match reply {
            Reply::Failed(error) => match self.stage {
                RebuildStage::CreateParking => RebuildNext::Finish(Err(error)),
                RebuildStage::Close { outcome } => {
                    let body = "Close temporary tab ".to_owned().concat(self.parking_tab.as_str()).concat(
                        " when convenient.",
                    );
                    let call = Call::Notify { title: "Arrange".to_owned(), body };
                    RebuildNext::Continue(Rebuild { stage: RebuildStage::Notify { outcome }, ..self }, call)
                },
                RebuildStage::Notify { outcome } => RebuildNext::Finish(outcome),
                _ => self.fail_pass(error),
            },
            Reply::ParkingTab { tab_id, pane_id } => {
                let rebuild = Rebuild { parking_tab: tab_id, parking_root: pane_id, ..self };
                rebuild.open_pass()
            },
            Reply::Layout(layout) => match self.stage {
                RebuildStage::Anchor => {
                    if same_text(layout.tab_id.as_str(), self.source_tab.as_str()) {
                        self.park_all(layout)
                    } else {
                        let call = Call::Export { pane_id: self.ids[0].clone() };
                        RebuildNext::Continue(
                            Rebuild { stage: RebuildStage::Probe { index: 0, found: None }, ..self },
                            call,
                        )
                    }
                },
                RebuildStage::Probe { index, found } => {
                    let found_now = match found {
                        Some(f) => Some(f),
                        None => if same_text(layout.tab_id.as_str(), self.source_tab.as_str()) {
                            Some(self.ids[index].clone())
                        } else {
                            None
                        },
                    };
                    let count = self.ids.len();
                    if index + 1 < count {
                        let call = Call::Export { pane_id: self.ids[index + 1].clone() };
                        RebuildNext::Continue(
                            Rebuild { stage: RebuildStage::Probe { index: index + 1, found: found_now }, ..self },
                            call,
                        )
                    } else {
                        match found_now {
                            Some(source_pane) => {
                                let call = Call::Move {
                                    pane_id: self.anchor.clone(),
                                    tab_id: self.source_tab.clone(),
                                    target_pane_id: source_pane,
                                    direction: SplitDirection::Right,
                                    ratio: HALF_RATIO,
                                    focus: same_text(self.anchor.as_str(), self.focused.as_str()),
                                };
                                RebuildNext::Continue(Rebuild { stage: RebuildStage::MoveAnchor, ..self }, call)
                            },
                            None => {
                                let me = Rebuild { stage: RebuildStage::Check, ..self };
                                me.fail_pass(message(LOST_EVERY_PANE))
                            },
                        }
                    }
                },
                RebuildStage::Reexport => self.park_all(layout),
                RebuildStage::Check => {
                    let built = match layout.root.normalized() {
                        Ok(b) => b,
                        Err(e) => return self.fail_pass(e),
                    };
                    let wanted = match self.goal.normalized() {
                        Ok(w) => w,
                        Err(e) => return self.fail_pass(e),
                    };
                    if built.same_as(&wanted) {
                        self.pass_built(layout)
                    } else {
                        self.fail_pass(message(DIFFERENT_LAYOUT))
                    }
                },
                _ => self.fail_pass(message(MISSING_PANE_ID)),
            },
            Reply::Record(_) => self.fail_pass(message(MISSING_PANE_ID)),
            Reply::Done => match self.stage {
                RebuildStage::MoveAnchor => {
                    let call = Call::Export { pane_id: self.anchor.clone() };
                    RebuildNext::Continue(Rebuild { stage: RebuildStage::Reexport, ..self }, call)
                },
                RebuildStage::Park { panes, index } => {
                    let count = panes.len();
                    assert(index < count);
                    let me = Rebuild { stage: RebuildStage::Check, ..self };
                    me.park_from(panes, index + 1)
                },
                RebuildStage::Insert { steps, index } => {
                    let count = steps.len();
                    assert(index < count);
                    let me = Rebuild { stage: RebuildStage::Check, ..self };
                    me.insert_from(steps, index + 1)
                },
                RebuildStage::Close { outcome } => RebuildNext::Finish(outcome),
                RebuildStage::Notify { outcome } => RebuildNext::Finish(outcome),
                _ => self.fail_pass(message(MISSING_PANE_ID)),
            },
        }
    }
}

} // verus!

verus! {

/// Swapping the panes `source` and `target` of `current` is the first swap,
/// in reading order, that gives the layout `goal`.
pub open spec fn first_swap(current: LayoutTree, goal: ComparableTree, source: Seq<char>, target: Seq<char>) -> bool {
    let ids = current.pane_ids()->0;
    exists|i: int, j: int|
        0 <= i < j < ids.len() && ids[i] == source && ids[j] == target && ids[i] != ids[j] && swap_gives(
            current,
            ids[i],
            ids[j],
            goal,
        ) && no_earlier_swap(current, ids, goal, i, j)
}

/// No swap of two panes of `current` gives the layout `goal`.
pub open spec fn no_swap(current: LayoutTree, goal: ComparableTree) -> bool {
    let ids = current.pane_ids()->0;
    no_earlier_swap(current, ids, goal, ids.len() as int, 0)
}

/// A pane ID of `current` repeats before any swap giving `goal` is found.
pub open spec fn repeated_before_swap(current: LayoutTree, goal: ComparableTree) -> bool {
    let ids = current.pane_ids()->0;
    exists|i: int, j: int| 0 <= i < j < ids.len() && ids[i] == ids[j] && no_earlier_swap(current, ids, goal, i, j)
}

/// Where applying a layout stands: which reply it waits for.
#[derive(Debug)]
pub enum TreeStage {
    /// Herdr is swapping two panes.
    Swapping { source: String, target: String },
    /// The swap failed with `error`; the layout is being read to see
    /// whether it changed anyway.
    SwapRecover { error: AppError },
    /// The layout after the swap is being read.
    SwapCheck,
    /// Herdr is rearranging the tab in one request.
    Rearranging,
    /// The starting layout is being rearranged back; then `error`.
    RestoreThenFail { error: AppError },
    /// The undo record is being stored for the change to `after`; when that
    /// fails, the starting layout is restored by a rearrangement or by a
    /// rebuild.
    Saving { after: LayoutDescription, by_rearrange: bool },
    /// A rebuild runs; then the change is saved (`then` is `None`), or the
    /// rebuild restored the starting layout and `then` is the error to report.
    Rebuilding { rebuild: Rebuild, then: Option<AppError> },
}

/// Where applying a layout stands, as a mathematical value.
pub enum TreeStageModel {
    Swapping(Seq<char>, Seq<char>),
    SwapRecover(ErrorModel),
    SwapCheck,
    Rearranging,
    RestoreThenFail(ErrorModel),
    Saving(DescriptionModel, bool),
    Rebuilding(RebuildModel, Option<ErrorModel>),
}

pub open spec fn error_option(error: Option<AppError>) -> Option<ErrorModel> {
    match error {
        Some(e) => Some(e@),
        None => None,
    }
}

impl View for TreeStage {
    type V = TreeStageModel;

    open spec fn view(&self) -> TreeStageModel {
        match self {
            TreeStage::Swapping { source, target } => TreeStageModel::Swapping(source@, target@),
            TreeStage::SwapRecover { error } => TreeStageModel::SwapRecover(error@),
            TreeStage::SwapCheck => TreeStageModel::SwapCheck,
            TreeStage::Rearranging => TreeStageModel::Rearranging,
            TreeStage::RestoreThenFail { error } => TreeStageModel::RestoreThenFail(error@),
            TreeStage::Saving { after, by_rearrange } => TreeStageModel::Saving(after@, *by_rearrange),
            TreeStage::Rebuilding { rebuild, then } => TreeStageModel::Rebuilding(rebuild@, error_option(*then)),
        }
    }
}

/// Changing a tab's layout into `target` and remembering how to undo it:
/// by one swap when that is all it takes, else by one rearrange request,
/// else by a rebuild; a change that cannot be remembered is taken back.
#[derive(Debug)]
pub struct ApplyTree {
    pub before: LayoutDescription,
    pub target: LayoutNode,
    pub stage: TreeStage,
}

/// Applying a layout, as a mathematical value.
pub struct TreeModel {
    pub before: DescriptionModel,
    pub target: LayoutTree,
    pub stage: TreeStageModel,
}

impl View for ApplyTree {
    type V = TreeModel;

    open spec fn view(&self) -> TreeModel {
        TreeModel { before: self.before@, target: self.target@, stage: self.stage@ }
    }
}

/// The next move of applying a layout.
#[derive(Debug)]
pub enum TreeNext {
    Continue(ApplyTree, Call),
    Finish(Result<(), AppError>),
}

pub enum TreeNextModel {
    Continue(TreeModel, CallModel),
    Finish(Result<(), ErrorModel>),
}

pub open spec fn unit_outcome(outcome: Result<(), AppError>) -> Result<(), ErrorModel> {
    match outcome {
        Ok(()) => Ok(()),
        Err(e) => Err(e@),
    }
}

impl View for TreeNext {
    type V = TreeNextModel;

    open spec fn view(&self) -> TreeNextModel {
        match self {
            TreeNext::Continue(apply, call) => TreeNextModel::Continue(apply@, call@),
            TreeNext::Finish(outcome) => TreeNextModel::Finish(unit_outcome(*outcome)),
        }
    }
}

impl TreeModel {
    /// Positions inside a running rebuild are well formed.
    pub open spec fn wf(self) -> bool {
        match self.stage {
            TreeStageModel::Rebuilding(rebuild, _) => rebuild.wf(),
            _ => true,
        }
    }

    /// The kind of reply applying waits for.
    pub open spec fn expects(self) -> ReplyKind {
        match self.stage {
            TreeStageModel::Rebuilding(rebuild, _) => rebuild.expects(),
            TreeStageModel::SwapRecover(_) | TreeStageModel::SwapCheck | TreeStageModel::Rearranging
            | TreeStageModel::RestoreThenFail(_) => ReplyKind::Layout,
            _ => ReplyKind::Done,
        }
    }

    /// A rebuild finished with `outcome`: save the change it made, or
    /// report the error that made it restore the starting layout.
    pub open spec fn rebuilt(self, outcome: Result<DescriptionModel, ErrorModel>, then: Option<ErrorModel>) -> TreeNextModel
        decreases
                (if then is None {
                    5int
                } else {
                    1int
                }),
    {
        match then {
            None => match outcome {
                Ok(after) => self.save(after, false),
                Err(e) => TreeNextModel::Finish(Err(e)),
            },
            Some(e) => match outcome {
                Ok(_) => TreeNextModel::Finish(Err(e)),
                Err(second) => TreeNextModel::Finish(Err(second)),
            },
        }
    }

    /// Go on with a rebuild's next move.
    pub open spec fn follow(self, step: RebuildNextModel, then: Option<ErrorModel>) -> TreeNextModel
        decreases
                (if then is None {
                    6int
                } else {
                    2int
                }),
    {
        match step {
            RebuildNextModel::Continue(rebuild, call) => TreeNextModel::Continue(
                TreeModel { stage: TreeStageModel::Rebuilding(rebuild, then), ..self },
                call,
            ),
            RebuildNextModel::Finish(outcome) => self.rebuilt(outcome, then),
        }
    }

    /// Take the change to `after` back, then fail with `error`.
    pub open spec fn restore(self, after: DescriptionModel, by_rearrange: bool, error: ErrorModel) -> TreeNextModel
        decreases 3int,
    {
        if by_rearrange {
            TreeNextModel::Continue(
                TreeModel { stage: TreeStageModel::RestoreThenFail(error), ..self },
                CallModel::Rearrange(self.before.tab_id, self.before.root),
            )
        } else {
            self.follow(rebuild_start(after, self.before.root), Some(error))
        }
    }

    /// Store the undo record of the change to `after`.
    pub open spec fn save(self, after: DescriptionModel, by_rearrange: bool) -> TreeNextModel
        decreases 4int,
    {
        match after.root.normalized() {
            Some(now) => TreeNextModel::Continue(
                TreeModel { stage: TreeStageModel::Saving(after, by_rearrange), ..self },
                CallModel::SaveUndo(
                    RecordModel {
                        workspace_id: self.before.workspace_id,
                        tab_id: self.before.tab_id,
                        focused_pane_id: self.before.focused_pane_id,
                        before: self.before.root,
                        after: now,
                    },
                ),
            ),
            None => self.restore(after, by_rearrange, missing_id()),
        }
    }

    /// The next move after `reply`.
    pub open spec fn next(self, reply: ReplyModel) -> TreeNextModel {
        match self.stage {
            TreeStageModel::Rebuilding(rebuild, then) => self.follow(rebuild.next(reply), then),
            TreeStageModel::Swapping(..) => match reply {
                ReplyModel::Failed(e) => TreeNextModel::Continue(
                    TreeModel { stage: TreeStageModel::SwapRecover(e), ..self },
                    CallModel::Export(self.before.focused_pane_id),
                ),
                _ => TreeNextModel::Continue(
                    TreeModel { stage: TreeStageModel::SwapCheck, ..self },
                    CallModel::Export(self.before.focused_pane_id),
                ),
            },
            TreeStageModel::SwapRecover(error) => match reply {
                ReplyModel::Layout(partial) => match (partial.root.normalized(), self.before.root.normalized()) {
                    (Some(x), Some(y)) => if x != y {
                        self.follow(rebuild_start(partial, self.before.root), Some(error))
                    } else {
                        TreeNextModel::Finish(Err(error))
                    },
                    _ => TreeNextModel::Finish(Err(missing_id())),
                },
                _ => TreeNextModel::Finish(Err(error)),
            },
            TreeStageModel::SwapCheck => match reply {
                ReplyModel::Layout(after) => match (after.root.normalized(), self.target.normalized()) {
                    (Some(x), Some(y)) => if x != y {
                        self.follow(
                            rebuild_start(after, self.before.root),
                            Some(ErrorModel::Message(DIFFERENT_LAYOUT@)),
                        )
                    } else {
                        self.save(after, false)
                    },
                    _ => TreeNextModel::Finish(Err(missing_id())),
                },
                ReplyModel::Failed(e) => TreeNextModel::Finish(Err(e)),
                _ => TreeNextModel::Finish(Err(missing_id())),
            },
            TreeStageModel::Rearranging => match reply {
                ReplyModel::Layout(after) => match (after.root.normalized(), self.target.normalized()) {
                    (Some(x), Some(y)) => if x != y {
                        TreeNextModel::Continue(
                            TreeModel {
                                stage: TreeStageModel::RestoreThenFail(ErrorModel::Message(DIFFERENT_LAYOUT@)),
                                ..self
                            },
                            CallModel::Rearrange(self.before.tab_id, self.before.root),
                        )
                    } else {
                        self.save(after, true)
                    },
                    _ => TreeNextModel::Finish(Err(missing_id())),
                },
                ReplyModel::Failed(e) => match e {
                    ErrorModel::Herdr(code, text) => if spec_rearrange_unsupported(code, text) {
                        self.follow(rebuild_start(self.before, self.target), None)
                    } else {
                        TreeNextModel::Finish(Err(e))
                    },
                    _ => TreeNextModel::Finish(Err(e)),
                },
                _ => TreeNextModel::Finish(Err(missing_id())),
            },
            TreeStageModel::RestoreThenFail(error) => match reply {
                ReplyModel::Failed(second) => TreeNextModel::Finish(Err(second)),
                _ => TreeNextModel::Finish(Err(error)),
            },
            TreeStageModel::Saving(after, by_rearrange) => match reply {
                ReplyModel::Failed(e) => self.restore(after, by_rearrange, e),
                _ => TreeNextModel::Finish(Ok(())),
            },
        }
    }
}

impl TreeNextModel {
    pub open spec fn wf(self) -> bool {
        match self {
            TreeNextModel::Continue(apply, _) => apply.wf(),
            TreeNextModel::Finish(_) => true,
        }
    }
}

/// How changing the tab of `before` into `target` may start: nothing to do
/// when both look the same; else the first swap in reading order that gives
/// the target, or an error when a pane ID repeats before one is found, or a
/// rearrange request when no swap does it.
pub open spec fn tree_start_ok(before: DescriptionModel, target: LayoutTree, r: TreeNextModel) -> bool {
    match (before.root.normalized(), target.normalized()) {
        (Some(now), Some(goal)) => if now == goal {
            r == TreeNextModel::Finish(Ok(()))
        } else {
            match r {
                TreeNextModel::Continue(apply, call) => apply.before == before && apply.target == target
                    && match apply.stage {
                    TreeStageModel::Swapping(source, other) => call == CallModel::Swap(source, other) && first_swap(
                        before.root,
                        goal,
                        source,
                        other,
                    ),
                    TreeStageModel::Rearranging => call == CallModel::Rearrange(before.tab_id, target) && no_swap(
                        before.root,
                        goal,
                    ),
                    _ => false,
                },
                TreeNextModel::Finish(outcome) => outcome == Err::<(), ErrorModel>(
                    ErrorModel::Message(crate::error::SAME_SWAP_PANES@),
                ) && repeated_before_swap(before.root, goal),
            }
        },
        _ => r == TreeNextModel::Finish(Err(missing_id())),
    }
}

impl ApplyTree {
    /// Start changing the tab of `before` into `target`. Nothing is done
    /// when both already look the same. When one swap of two panes gives the
    /// target, the first such swap in reading order is asked for; else one
    /// rearrange request.
    pub fn start(before: LayoutDescription, target: LayoutNode) -> (r: TreeNext)
        ensures
            r@.wf(),
            tree_start_ok(before@, target@, r@),
    {
        let now = match before.root.normalized() {
            Ok(n) => n,
            Err(e) => return TreeNext::Finish(Err(e)),
        };
        let goal = match target.normalized() {
            Ok(g) => g,
            Err(e) => return TreeNext::Finish(Err(e)),
        };
        if now.same_as(&goal) {
            return TreeNext::Finish(Ok(()));
        }
        proof {
            crate::layout::lemma_ids_give_normalized(before.root@);
        }
        match detect_fast_mutation(&before.root, &target) {
            Ok(Some(FastMutation::Swap { source, target: other })) => {
                let call = Call::Swap { source: source.clone(), target: other.clone() };
                TreeNext::Continue(
                    ApplyTree { before, target, stage: TreeStage::Swapping { source, target: other } },
                    call,
                )
            },
            Ok(None) => {
                let call = Call::Rearrange { tab_id: before.tab_id.clone(), root: target.duplicate() };
                TreeNext::Continue(ApplyTree { before, target, stage: TreeStage::Rearranging }, call)
            },
            Err(e) => TreeNext::Finish(Err(e)),
        }
    }
}

} // verus!

verus! {

/// Applying's next moves after a rebuild do not depend on the stage it was
/// in: each move sets the stage anew.
proof fn lemma_rebuilt_ignores_stage(
    m: TreeModel,
    stage: TreeStageModel,
    outcome: Result<DescriptionModel, ErrorModel>,
    then: Option<ErrorModel>,
)
    ensures
        (TreeModel { stage, ..m }).rebuilt(outcome, then) == m.rebuilt(outcome, then),
    decreases
            (if then is None {
                5int
            } else {
                1int
            }),
{
    if then is None {
        if let Ok(after) = outcome {
            lemma_save_ignores_stage(m, stage, after, false);
        }
    }
}

proof fn lemma_follow_ignores_stage(m: TreeModel, stage: TreeStageModel, step: RebuildNextModel, then: Option<ErrorModel>)
    ensures
        (TreeModel { stage, ..m }).follow(step, then) == m.follow(step, then),
    decreases
            (if then is None {
                6int
            } else {
                2int
            }),
{
    if let RebuildNextModel::Finish(outcome) = step {
        lemma_rebuilt_ignores_stage(m, stage, outcome, then);
    }
}

proof fn lemma_restore_ignores_stage(
    m: TreeModel,
    stage: TreeStageModel,
    after: DescriptionModel,
    by_rearrange: bool,
    error: ErrorModel,
)
    ensures
        (TreeModel { stage, ..m }).restore(after, by_rearrange, error) == m.restore(after, by_rearrange, error),
    decreases 3int,
{
    if !by_rearrange {
        lemma_follow_ignores_stage(m, stage, rebuild_start(after, m.before.root), Some(error));
    }
}

proof fn lemma_save_ignores_stage(m: TreeModel, stage: TreeStageModel, after: DescriptionModel, by_rearrange: bool)
    ensures
        (TreeModel { stage, ..m }).save(after, by_rearrange) == m.save(after, by_rearrange),
    decreases 4int,
{
    if after.root.normalized() is None {
        lemma_restore_ignores_stage(m, stage, after, by_rearrange, missing_id());
    }
}

impl ApplyTree {
    fn rebuilt(self, outcome: Result<LayoutDescription, AppError>, then: Option<AppError>) -> (r: TreeNext)
        ensures
            r@ == self@.rebuilt(outcome_view(outcome), error_option(then)),
            r@.wf(),
        decreases
                (if then is None {
                    5int
                } else {
                    1int
                }),
    {
        match then {
            None => match outcome {
                Ok(after) => self.save(after, false),
                Err(e) => TreeNext::Finish(Err(e)),
            },
            Some(e) => match outcome {
                Ok(_) => TreeNext::Finish(Err(e)),
                Err(second) => TreeNext::Finish(Err(second)),
            },
        }
    }

    fn follow(self, step: RebuildNext, then: Option<AppError>) -> (r: TreeNext)
        requires
            step@.wf(),
        ensures
            r@ == self@.follow(step@, error_option(then)),
            r@.wf(),
        decreases
                (if then is None {
                    6int
                } else {
                    2int
                }),
    {
        match step {
            RebuildNext::Continue(rebuild, call) => TreeNext::Continue(
                ApplyTree { stage: TreeStage::Rebuilding { rebuild, then }, ..self },
                call,
            ),
            RebuildNext::Finish(outcome) => self.rebuilt(outcome, then),
        }
    }

    fn restore(self, after: LayoutDescription, by_rearrange: bool, error: AppError) -> (r: TreeNext)
        ensures
            r@ == self@.restore(after@, by_rearrange, error@),
            r@.wf(),
        decreases 3int,
    {
        if by_rearrange {
            let call = Call::Rearrange { tab_id: self.before.tab_id.clone(), root: self.before.root.duplicate() };
            TreeNext::Continue(ApplyTree { stage: TreeStage::RestoreThenFail { error }, ..self }, call)
        } else {
            let root = self.before.root.duplicate();
            let step = Rebuild::start(&after, root);
            self.follow(step, Some(error))
        }
    }

    fn save(self, after: LayoutDescription, by_rearrange: bool) -> (r: TreeNext)
        ensures
            r@ == self@.save(after@, by_rearrange),
            r@.wf(),
        decreases 4int,
    {
        match undo_record(&self.before, &after) {
            Ok(record) => TreeNext::Continue(
                ApplyTree { stage: TreeStage::Saving { after, by_rearrange }, ..self },
                Call::SaveUndo { record },
            ),
            Err(e) => self.restore(after, by_rearrange, e),
        }
    }

    /// Whether `reply` is of the kind applying waits for.
    pub fn accepts(&self, reply: &Reply) -> (r: bool)
        ensures
            r == reply@.answers(self@.expects()),
    {
        match &self.stage {
            TreeStage::Rebuilding { rebuild, .. } => rebuild.accepts(reply),
            TreeStage::SwapRecover { .. } | TreeStage::SwapCheck | TreeStage::Rearranging
            | TreeStage::RestoreThenFail { .. } => match reply {
                Reply::Failed(_) | Reply::Layout(_) => true,
                _ => false,
            },
            _ => match reply {
                Reply::Failed(_) | Reply::Done => true,
                _ => false,
            },
        }
    }

    /// Go on after `reply`, the outcome of the work asked for last.
    pub fn resume(self, reply: Reply) -> (r: TreeNext)
        requires
            self@.wf(),
            reply@.answers(self@.expects()),
        ensures
            r@ == self@.next(reply@),
            r@.wf(),
    {
        match &self.stage {
            TreeStage::Rebuilding { .. } => self.resume_rebuilding(reply),
            TreeStage::Swapping { .. } => self.resume_swapping(reply),
            TreeStage::SwapRecover { .. } => self.resume_recovering(reply),
            TreeStage::SwapCheck => self.resume_swap_check(reply),
            TreeStage::Rearranging => self.resume_rearranging(reply),
            TreeStage::RestoreThenFail { .. } => self.resume_restoring(reply),
            TreeStage::Saving { .. } => self.resume_saving(reply),
        }
    }

    fn resume_rebuilding(self, reply: Reply) -> (r: TreeNext)
        requires
            self@.wf(),
            reply@.answers(self@.expects()),
            self.stage is Rebuilding,
        ensures
            r@ == self@.next(reply@),
            r@.wf(),
    {
        match self.stage {
            TreeStage::Rebuilding { rebuild, then } => {
                let me = ApplyTree { stage: TreeStage::SwapCheck, ..self };
                let step = rebuild.resume(reply);
                proof {
                    lemma_follow_ignores_stage(self@, me@.stage, step@, error_option(then));
                }
                me.follow(step, then)
            },
            _ => TreeNext::Finish(Ok(())),
        }
    }

    fn resume_swapping(self, reply: Reply) -> (r: TreeNext)
        requires
            self.stage is Swapping,
        ensures
            r@ == self@.next(reply@),
            r@.wf(),
    {
        let call = Call::Export { pane_id: self.before.focused_pane_id.clone() };
        match reply {
            Reply::Failed(error) => TreeNext::Continue(
                ApplyTree { stage: TreeStage::SwapRecover { error }, ..self },
                call,
            ),
            _ => TreeNext::Continue(ApplyTree { stage: TreeStage::SwapCheck, ..self }, call),
        }
    }

    fn resume_recovering(self, reply: Reply) -> (r: TreeNext)
        requires
            self.stage is SwapRecover,
        ensures
            r@ == self@.next(reply@),
            r@.wf(),
    {
        match self.stage {
            TreeStage::SwapRecover { error } => {
                let me = ApplyTree { stage: TreeStage::SwapCheck, ..self };
                match reply {
                    Reply::Layout(partial) => {
                        let now = match partial.root.normalized() {
                            Ok(n) => n,
                            Err(e) => return TreeNext::Finish(Err(e)),
                        };
                        let was = match me.before.root.normalized() {
                            Ok(n) => n,
                            Err(e) => return TreeNext::Finish(Err(e)),
                        };
                        if !now.same_as(&was) {
                            let root = me.before.root.duplicate();
                            let step = Rebuild::start(&partial, root);
                            proof {
                                lemma_follow_ignores_stage(self@, me@.stage, step@, Some(error@));
                            }
                            me.follow(step, Some(error))
                        } else {
                            TreeNext::Finish(Err(error))
                        }
                    },
                    _ => TreeNext::Finish(Err(error)),
                }
            },
            _ => TreeNext::Finish(Ok(())),
        }
    }

    fn resume_swap_check(self, reply: Reply) -> (r: TreeNext)
        requires
            self.stage is SwapCheck,
        ensures
            r@ == self@.next(reply@),
            r@.wf(),
    {
        match reply {
            Reply::Layout(after) => {
                let built = match after.root.normalized() {
                    Ok(n) => n,
                    Err(e) => return TreeNext::Finish(Err(e)),
                };
                let wanted = match self.target.normalized() {
                    Ok(n) => n,
                    Err(e) => return TreeNext::Finish(Err(e)),
                };
                if !built.same_as(&wanted) {
                    let root = self.before.root.duplicate();
                    let step = Rebuild::start(&after, root);
                    self.follow(step, Some(message(DIFFERENT_LAYOUT)))
                } else {
                    self.save(after, false)
                }
            },
            Reply::Failed(e) => TreeNext::Finish(Err(e)),
            _ => TreeNext::Finish(Err(message(MISSING_PANE_ID))),
        }
    }

    fn resume_rearranging(self, reply: Reply) -> (r: TreeNext)
        requires
            self.stage is Rearranging,
        ensures
            r@ == self@.next(reply@),
            r@.wf(),
    {
        match reply {
            Reply::Layout(after) => {
                let built = match after.root.normalized() {
                    Ok(n) => n,
                    Err(e) => return TreeNext::Finish(Err(e)),
                };
                let wanted = match self.target.normalized() {
                    Ok(n) => n,
                    Err(e) => return TreeNext::Finish(Err(e)),
                };
                if !built.same_as(&wanted) {
                    let call = Call::Rearrange { tab_id: self.before.tab_id.clone(), root: self.before.root.duplicate() };
                    TreeNext::Continue(
                        ApplyTree { stage: TreeStage::RestoreThenFail { error: message(DIFFERENT_LAYOUT) }, ..self },
                        call,
                    )
                } else {
                    self.save(after, true)
                }
            },
            Reply::Failed(e) => {
                let unsupported = match &e {
                    AppError::Herdr { code, message } => rearrange_unsupported(code.as_str(), message.as_str()),
                    _ => false,
                };
                if unsupported {
                    let goal = self.target.duplicate();
                    let step = Rebuild::start(&self.before, goal);
                    self.follow(step, None)
                } else {
                    TreeNext::Finish(Err(e))
                }
            },
            _ => TreeNext::Finish(Err(message(MISSING_PANE_ID))),
        }
    }

    fn resume_restoring(self, reply: Reply) -> (r: TreeNext)
        requires
            self.stage is RestoreThenFail,
        ensures
            r@ == self@.next(reply@),
            r@.wf(),
    {
        match self.stage {
            TreeStage::RestoreThenFail { error } => match reply {
                Reply::Failed(second) => TreeNext::Finish(Err(second)),
                _ => TreeNext::Finish(Err(error)),
            },
            _ => TreeNext::Finish(Ok(())),
        }
    }

    fn resume_saving(self, reply: Reply) -> (r: TreeNext)
        requires
            self.stage is Saving,
        ensures
            r@ == self@.next(reply@),
            r@.wf(),
    {
        match self.stage {
            TreeStage::Saving { after, by_rearrange } => {
                let me = ApplyTree { stage: TreeStage::SwapCheck, ..self };
                match reply {
                    Reply::Failed(e) => {
                        proof {
                            lemma_restore_ignores_stage(self@, me@.stage, after@, by_rearrange, e@);
                        }
                        me.restore(after, by_rearrange, e)
                    },
                    _ => TreeNext::Finish(Ok(())),
                }
            },
            _ => TreeNext::Finish(Ok(())),
        }
    }
}

} // verus!

verus! {

/// An Arrange operation on the tab holding a pane.
#[derive(Debug)]
pub enum Operation {
    /// Lay the panes out as a preset.
    Preset(LayoutPreset),
    /// Lay the panes out as this tree of the same panes.
    Layout(LayoutNode),
    /// Turn the split around the focused pane to the other axis.
    Rotate,
    /// Give the focused pane the larger share of its split.
    Expand,
    /// Share the focused pane's split evenly.
    Balance,
    /// Take back the latest change, if the layout still looks as it left it.
    Undo,
}

pub enum OperationModel {
    Preset(LayoutPreset),
    Layout(LayoutTree),
    Rotate,
    Expand,
    Balance,
    Undo,
}

impl View for Operation {
    type V = OperationModel;

    open spec fn view(&self) -> OperationModel {
        match self {
            Operation::Preset(p) => OperationModel::Preset(*p),
            Operation::Layout(t) => OperationModel::Layout(t@),
            Operation::Rotate => OperationModel::Rotate,
            Operation::Expand => OperationModel::Expand,
            Operation::Balance => OperationModel::Balance,
            Operation::Undo => OperationModel::Undo,
        }
    }
}

/// Where an operation stands: which reply it waits for.
#[derive(Debug)]
pub enum ArrangeStage {
    /// The tab's layout is being read.
    Reading,
    /// A new layout is being applied.
    Applying(ApplyTree),
    /// The split at `path` of `layout`, whose share was `before_ratio`, is being resized.
    RatioSet { layout: LayoutDescription, path: Vec<bool>, before_ratio: u32 },
    /// The layout after the resize is being read.
    RatioRead { layout: LayoutDescription, path: Vec<bool>, before_ratio: u32 },
    /// The undo record of the resize is being stored.
    RatioSaving { layout: LayoutDescription, path: Vec<bool>, before_ratio: u32 },
    /// The resize is being taken back; then `error`.
    RatioRestore { error: AppError },
    /// The tab's undo record is being read.
    UndoLoading { layout: LayoutDescription },
    /// A stale undo record is being dropped.
    UndoForget,
    /// The remembered tree is being rearranged back into the tab.
    UndoRearranging { layout: LayoutDescription, before: LayoutNode },
    /// The remembered tree is being rebuilt in the tab `tab_id`.
    UndoRebuilding { rebuild: Rebuild, tab_id: String },
    /// The used undo record is being dropped.
    UndoClearing,
}

pub enum ArrangeStageModel {
    Reading,
    Applying(TreeModel),
    RatioSet(DescriptionModel, Seq<bool>, u32),
    RatioRead(DescriptionModel, Seq<bool>, u32),
    RatioSaving(DescriptionModel, Seq<bool>, u32),
    RatioRestore(ErrorModel),
    UndoLoading(DescriptionModel),
    UndoForget,
    UndoRearranging(DescriptionModel, LayoutTree),
    UndoRebuilding(RebuildModel, Seq<char>),
    UndoClearing,
}

impl View for ArrangeStage {
    type V = ArrangeStageModel;

    open spec fn view(&self) -> ArrangeStageModel {
        match self {
            ArrangeStage::Reading => ArrangeStageModel::Reading,
            ArrangeStage::Applying(apply) => ArrangeStageModel::Applying(apply@),
            ArrangeStage::RatioSet { layout, path, before_ratio } => ArrangeStageModel::RatioSet(
                layout@,
                path@,
                *before_ratio,
            ),
            ArrangeStage::RatioRead { layout, path, before_ratio } => ArrangeStageModel::RatioRead(
                layout@,
                path@,
                *before_ratio,
            ),
            ArrangeStage::RatioSaving { layout, path, before_ratio } => ArrangeStageModel::RatioSaving(
                layout@,
                path@,
                *before_ratio,
            ),
            ArrangeStage::RatioRestore { error } => ArrangeStageModel::RatioRestore(error@),
            ArrangeStage::UndoLoading { layout } => ArrangeStageModel::UndoLoading(layout@),
            ArrangeStage::UndoForget => ArrangeStageModel::UndoForget,
            ArrangeStage::UndoRearranging { layout, before } => ArrangeStageModel::UndoRearranging(layout@, before@),
            ArrangeStage::UndoRebuilding { rebuild, tab_id } => ArrangeStageModel::UndoRebuilding(rebuild@, tab_id@),
            ArrangeStage::UndoClearing => ArrangeStageModel::UndoClearing,
        }
    }
}

/// An Arrange operation under way on the tab holding `pane_id`.
#[derive(Debug)]
pub struct Arrange {
    pub pane_id: String,
    pub operation: Operation,
    pub stage: ArrangeStage,
}

pub struct ArrangeModel {
    pub pane_id: Seq<char>,
    pub operation: OperationModel,
    pub stage: ArrangeStageModel,
}

impl View for Arrange {
    type V = ArrangeModel;

    open spec fn view(&self) -> ArrangeModel {
        ArrangeModel { pane_id: self.pane_id@, operation: self.operation@, stage: self.stage@ }
    }
}

/// An operation's next move: outside work and the operation waiting for
/// its reply, or the outcome. The outcome of Undo says whether there was
/// a change to undo; that of the others is `true`.
#[derive(Debug)]
pub enum ArrangeNext {
    Continue(Arrange, Call),
    Finish(Result<bool, AppError>),
}

pub enum ArrangeNextModel {
    Continue(ArrangeModel, CallModel),
    Finish(Result<bool, ErrorModel>),
}

pub open spec fn bool_outcome(outcome: Result<bool, AppError>) -> Result<bool, ErrorModel> {
    match outcome {
        Ok(b) => Ok(b),
        Err(e) => Err(e@),
    }
}

impl View for ArrangeNext {
    type V = ArrangeNextModel;

    open spec fn view(&self) -> ArrangeNextModel {
        match self {
            ArrangeNext::Continue(arrange, call) => ArrangeNextModel::Continue(arrange@, call@),
            ArrangeNext::Finish(outcome) => ArrangeNextModel::Finish(bool_outcome(*outcome)),
        }
    }
}

/// Why a layout may not be changed, if it may not.
pub open spec fn mutation_check(layout: DescriptionModel) -> Option<ErrorModel> {
    if layout.zoomed {
        Some(ErrorModel::Message(UNZOOM_FIRST@))
    } else {
        match layout.root.pane_ids() {
            None => Some(missing_id()),
            Some(ids) => if 2 <= ids.len() <= 4 {
                None
            } else {
                Some(ErrorModel::Message(WORKS_WITH_TWO_TO_FOUR@))
            },
        }
    }
}

/// The tree a preset builds from the layout, or why it cannot.
pub open spec fn preset_outcome(layout: DescriptionModel, preset: LayoutPreset) -> Result<LayoutTree, ErrorModel> {
    match layout.root.pane_ids() {
        None => Err(missing_id()),
        Some(ids) => if !(2 <= ids.len() <= 4) {
            Err(ErrorModel::Message(TWO_TO_FOUR_PANES@))
        } else if preset is Grid && ids.len() != 4 {
            Err(ErrorModel::Message(GRID_NEEDS_FOUR@))
        } else {
            match preset_layout(ids, layout.focused_pane_id, preset) {
                Some(t) => Ok(t),
                None => Err(ErrorModel::Message(LAYOUT_NEEDS_A_PANE@)),
            }
        },
    }
}

/// Why `target` is not a layout of the panes of `current`, if it is not.
pub open spec fn same_panes_check(current: LayoutTree, target: LayoutTree) -> Option<ErrorModel> {
    match (current.pane_ids(), target.pane_ids()) {
        (Some(a), Some(b)) => if crate::operations::same_id_set(a, b) {
            None
        } else {
            Some(ErrorModel::Message(NOT_SAME_PANES@))
        },
        _ => Some(missing_id()),
    }
}

/// The split path, the share before and the share after a ratio rule, or
/// why the focused pane's split cannot be resized.
pub open spec fn ratio_outcome(layout: DescriptionModel, rule: RatioRule) -> Result<(Seq<bool>, u32, u32), ErrorModel> {
    match layout.root.path_to(layout.focused_pane_id) {
        None => Err(ErrorModel::Message(FOCUSED_NOT_IN_LAYOUT@)),
        Some(p) => if p.len() == 0 {
            Err(ErrorModel::Message(NO_SPLIT_TO_RESIZE@))
        } else {
            let before = ratio_at(layout.root, p.drop_last())->0;
            Ok((p.drop_last(), before, spec_chosen_ratio(rule, before, p.last())))
        },
    }
}

/// The change is under a ten-thousandth of the split.
pub open spec fn negligible(before: u32, after: u32) -> bool {
    (if before >= after {
        before - after
    } else {
        after - before
    }) < 100_000
}

impl ArrangeModel {
    /// Applying goes on as the operation.
    pub open spec fn lift(self, step: TreeNextModel) -> ArrangeNextModel {
        match step {
            TreeNextModel::Continue(apply, call) => ArrangeNextModel::Continue(
                ArrangeModel { stage: ArrangeStageModel::Applying(apply), ..self },
                call,
            ),
            TreeNextModel::Finish(Ok(())) => ArrangeNextModel::Finish(Ok(true)),
            TreeNextModel::Finish(Err(e)) => ArrangeNextModel::Finish(Err(e)),
        }
    }

    /// `next` is how applying `target` to `layout` starts.
    pub open spec fn applies(self, layout: DescriptionModel, target: LayoutTree, next: ArrangeNextModel) -> bool {
        exists|step: TreeNextModel| tree_start_ok(layout, target, step) && step.wf() && next == #[trigger] self.lift(step)
    }

    /// How a resize by `rule` starts: nothing to do when the share would
    /// hardly change.
    pub open spec fn resize(self, layout: DescriptionModel, rule: RatioRule) -> ArrangeNextModel {
        match ratio_outcome(layout, rule) {
            Err(e) => ArrangeNextModel::Finish(Err(e)),
            Ok((path, before, after)) => if negligible(before, after) {
                ArrangeNextModel::Finish(Ok(true))
            } else {
                ArrangeNextModel::Continue(
                    ArrangeModel { stage: ArrangeStageModel::RatioSet(layout, path, before), ..self },
                    CallModel::SetRatio(layout.tab_id, path, after),
                )
            },
        }
    }

    /// `next` is how the operation goes on once the tab reads as `layout`.
    pub open spec fn after_reading(self, layout: DescriptionModel, next: ArrangeNextModel) -> bool {
        match mutation_check(layout) {
            Some(e) => next == ArrangeNextModel::Finish(Err(e)),
            None => match self.operation {
                OperationModel::Preset(preset) => match preset_outcome(layout, preset) {
                    Ok(target) => self.applies(layout, target, next),
                    Err(e) => next == ArrangeNextModel::Finish(Err(e)),
                },
                OperationModel::Layout(target) => match same_panes_check(layout.root, target) {
                    None => self.applies(layout, target, next),
                    Some(e) => next == ArrangeNextModel::Finish(Err(e)),
                },
                OperationModel::Rotate => match rotated_layout(layout.root, layout.focused_pane_id) {
                    Some(target) => self.applies(layout, target, next),
                    None => next == ArrangeNextModel::Finish(Err(ErrorModel::Message(NO_SPLIT_TO_ROTATE@))),
                },
                OperationModel::Expand => next == self.resize(layout, RatioRule::Expand),
                OperationModel::Balance => next == self.resize(layout, RatioRule::Balance),
                OperationModel::Undo => next == ArrangeNextModel::Continue(
                    ArrangeModel { stage: ArrangeStageModel::UndoLoading(layout), ..self },
                    CallModel::LoadUndo(layout.tab_id),
                ),
            },
        }
    }

    /// A rebuild of the remembered tree moves on.
    pub open spec fn undo_rebuild(self, step: RebuildNextModel, tab_id: Seq<char>) -> ArrangeNextModel {
        match step {
            RebuildNextModel::Continue(rebuild, call) => ArrangeNextModel::Continue(
                ArrangeModel { stage: ArrangeStageModel::UndoRebuilding(rebuild, tab_id), ..self },
                call,
            ),
            RebuildNextModel::Finish(Ok(_)) => ArrangeNextModel::Continue(
                ArrangeModel { stage: ArrangeStageModel::UndoClearing, ..self },
                CallModel::RemoveUndo(tab_id),
            ),
            RebuildNextModel::Finish(Err(e)) => ArrangeNextModel::Finish(Err(e)),
        }
    }

    /// The next move after `reply` from any stage but reading and applying.
    pub open spec fn later(self, reply: ReplyModel) -> ArrangeNextModel {
        match self.stage {
            ArrangeStageModel::RatioSet(layout, path, before) => match reply {
                ReplyModel::Failed(e) => ArrangeNextModel::Finish(Err(e)),
                _ => ArrangeNextModel::Continue(
                    ArrangeModel { stage: ArrangeStageModel::RatioRead(layout, path, before), ..self },
                    CallModel::Export(self.pane_id),
                ),
            },
            ArrangeStageModel::RatioRead(layout, path, before) => match reply {
                ReplyModel::Layout(after) => match after.root.normalized() {
                    Some(now) => ArrangeNextModel::Continue(
                        ArrangeModel { stage: ArrangeStageModel::RatioSaving(layout, path, before), ..self },
                        CallModel::SaveUndo(
                            RecordModel {
                                workspace_id: layout.workspace_id,
                                tab_id: layout.tab_id,
                                focused_pane_id: layout.focused_pane_id,
                                before: layout.root,
                                after: now,
                            },
                        ),
                    ),
                    None => ArrangeNextModel::Continue(
                        ArrangeModel { stage: ArrangeStageModel::RatioRestore(missing_id()), ..self },
                        CallModel::SetRatio(layout.tab_id, path, before),
                    ),
                },
                ReplyModel::Failed(e) => ArrangeNextModel::Finish(Err(e)),
                _ => ArrangeNextModel::Finish(Err(missing_id())),
            },
            ArrangeStageModel::RatioSaving(layout, path, before) => match reply {
                ReplyModel::Failed(e) => ArrangeNextModel::Continue(
                    ArrangeModel { stage: ArrangeStageModel::RatioRestore(e), ..self },
                    CallModel::SetRatio(layout.tab_id, path, before),
                ),
                _ => ArrangeNextModel::Finish(Ok(true)),
            },
            ArrangeStageModel::RatioRestore(error) => match reply {
                ReplyModel::Failed(second) => ArrangeNextModel::Finish(Err(second)),
                _ => ArrangeNextModel::Finish(Err(error)),
            },
            ArrangeStageModel::UndoLoading(layout) => match reply {
                ReplyModel::Record(record) => match undo_outcome(
                    layout.root,
                    match record {
                        Some(r) => Some((r.after, r.before)),
                        None => None,
                    },
                ) {
                    Some(UndoOutcome::Nothing) => ArrangeNextModel::Finish(Ok(false)),
                    Some(UndoOutcome::Discard) => ArrangeNextModel::Continue(
                        ArrangeModel { stage: ArrangeStageModel::UndoForget, ..self },
                        CallModel::RemoveUndo(layout.tab_id),
                    ),
                    Some(UndoOutcome::Restore(before)) => ArrangeNextModel::Continue(
                        ArrangeModel { stage: ArrangeStageModel::UndoRearranging(layout, before), ..self },
                        CallModel::Rearrange(layout.tab_id, before),
                    ),
                    None => ArrangeNextModel::Finish(Err(missing_id())),
                },
                ReplyModel::Failed(e) => ArrangeNextModel::Finish(Err(e)),
                _ => ArrangeNextModel::Finish(Err(missing_id())),
            },
            ArrangeStageModel::UndoForget => match reply {
                ReplyModel::Failed(e) => ArrangeNextModel::Finish(Err(e)),
                _ => ArrangeNextModel::Finish(Ok(false)),
            },
            ArrangeStageModel::UndoRearranging(layout, before) => match reply {
                ReplyModel::Failed(e) => match e {
                    ErrorModel::Herdr(code, text) => if spec_rearrange_unsupported(code, text) {
                        self.undo_rebuild(rebuild_start(layout, before), layout.tab_id)
                    } else {
                        ArrangeNextModel::Finish(Err(e))
                    },
                    _ => ArrangeNextModel::Finish(Err(e)),
                },
                _ => ArrangeNextModel::Continue(
                    ArrangeModel { stage: ArrangeStageModel::UndoClearing, ..self },
                    CallModel::RemoveUndo(layout.tab_id),
                ),
            },
            ArrangeStageModel::UndoRebuilding(rebuild, tab_id) => self.undo_rebuild(rebuild.next(reply), tab_id),
            ArrangeStageModel::UndoClearing => match reply {
                ReplyModel::Failed(e) => ArrangeNextModel::Finish(Err(e)),
                _ => ArrangeNextModel::Finish(Ok(true)),
            },
            _ => ArrangeNextModel::Finish(Err(missing_id())),
        }
    }

    /// `next` is how the operation goes on after `reply`.
    pub open spec fn steps(self, reply: ReplyModel, next: ArrangeNextModel) -> bool {
        match self.stage {
            ArrangeStageModel::Reading => match reply {
                ReplyModel::Layout(layout) => self.after_reading(layout, next),
                ReplyModel::Failed(e) => next == ArrangeNextModel::Finish(Err(e)),
                _ => true,
            },
            ArrangeStageModel::Applying(apply) => next == self.lift(apply.next(reply)),
            _ => next == self.later(reply),
        }
    }

    /// Positions inside running work are well formed.
    pub open spec fn wf(self) -> bool {
        match self.stage {
            ArrangeStageModel::Applying(apply) => apply.wf(),
            ArrangeStageModel::UndoRebuilding(rebuild, _) => rebuild.wf(),
            _ => true,
        }
    }

    /// The kind of reply the operation waits for.
    pub open spec fn expects(self) -> ReplyKind {
        match self.stage {
            ArrangeStageModel::Applying(apply) => apply.expects(),
            ArrangeStageModel::UndoRebuilding(rebuild, _) => rebuild.expects(),
            ArrangeStageModel::Reading | ArrangeStageModel::RatioRead(..)
            | ArrangeStageModel::UndoRearranging(..) => ReplyKind::Layout,
            ArrangeStageModel::UndoLoading(_) => ReplyKind::Record,
            _ => ReplyKind::Done,
        }
    }
}

impl ArrangeNextModel {
    pub open spec fn wf(self) -> bool {
        match self {
            ArrangeNextModel::Continue(arrange, _) => arrange.wf(),
            ArrangeNextModel::Finish(_) => true,
        }
    }
}

} // verus!

verus! {

fn copy_path(path: &Vec<bool>) -> (r: Vec<bool>)
    ensures
        r@ == path@,
{
    let mut out: Vec<bool> = Vec::new();
    for i in 0..path.len()
        invariant
            out@ == path@.take(i as int),
    {
        out.push(path[i]);
        assert(out@ =~= path@.take(i + 1));
    }
    assert(path@.take(path@.len() as int) =~= path@);
    out
}

impl Arrange {
    /// Start `operation` on the tab holding `pane_id`: read its layout.
    pub fn start(operation: Operation, pane_id: String) -> (r: ArrangeNext)
        ensures
            r@ == ArrangeNextModel::Continue(
                ArrangeModel { pane_id: pane_id@, operation: operation@, stage: ArrangeStageModel::Reading },
                CallModel::Export(pane_id@),
            ),
            r@.wf(),
    {
        let call = Call::Export { pane_id: pane_id.clone() };
        ArrangeNext::Continue(Arrange { pane_id, operation, stage: ArrangeStage::Reading }, call)
    }

    /// Whether `reply` is of the kind the operation waits for.
    pub fn accepts(&self, reply: &Reply) -> (r: bool)
        ensures
            r == reply@.answers(self@.expects()),
    {
        match &self.stage {
            ArrangeStage::Applying(apply) => apply.accepts(reply),
            ArrangeStage::UndoRebuilding { rebuild, .. } => rebuild.accepts(reply),
            ArrangeStage::Reading | ArrangeStage::RatioRead { .. } | ArrangeStage::UndoRearranging { .. } => match reply {
                Reply::Failed(_) | Reply::Layout(_) => true,
                _ => false,
            },
            ArrangeStage::UndoLoading { .. } => match reply {
                Reply::Failed(_) | Reply::Record(_) => true,
                _ => false,
            },
            _ => match reply {
                Reply::Failed(_) | Reply::Done => true,
                _ => false,
            },
        }
    }

    fn lift(self, step: TreeNext) -> (r: ArrangeNext)
        ensures
            r@ == self@.lift(step@),
    {
        match step {
            TreeNext::Continue(apply, call) => ArrangeNext::Continue(
                Arrange { stage: ArrangeStage::Applying(apply), ..self },
                call,
            ),
            TreeNext::Finish(Ok(())) => ArrangeNext::Finish(Ok(true)),
            TreeNext::Finish(Err(e)) => ArrangeNext::Finish(Err(e)),
        }
    }

    fn resize(self, layout: LayoutDescription, rule: RatioRule) -> (r: ArrangeNext)
        ensures
            r@ == self@.resize(layout@, rule),
            r@.wf(),
    {
        let change = match ratio_change(&layout, rule) {
            Ok(c) => c,
            Err(e) => return ArrangeNext::Finish(Err(e)),
        };
        if change.is_negligible() {
            return ArrangeNext::Finish(Ok(true));
        }
        let call = Call::SetRatio {
            tab_id: layout.tab_id.clone(),
            path: copy_path(&change.split_path),
            ratio: change.after_ratio,
        };
        ArrangeNext::Continue(
            Arrange {
                stage: ArrangeStage::RatioSet { layout, path: change.split_path, before_ratio: change.before_ratio },
                ..self
            },
            call,
        )
    }

    fn read(self, layout: LayoutDescription) -> (r: ArrangeNext)
        ensures
            self@.after_reading(layout@, r@),
            r@.wf(),
    {
        match validate_mutation(&layout) {
            Ok(()) => {},
            Err(e) => return ArrangeNext::Finish(Err(e)),
        }
        let target = match &self.operation {
            Operation::Preset(preset) => match target_for_preset(&layout, *preset) {
                Ok(t) => t,
                Err(e) => return ArrangeNext::Finish(Err(e)),
            },
            Operation::Layout(t) => match validate_same_panes(&layout.root, t) {
                Ok(()) => t.duplicate(),
                Err(e) => return ArrangeNext::Finish(Err(e)),
            },
            Operation::Rotate => match target_for_rotate(&layout) {
                Ok(t) => t,
                Err(e) => return ArrangeNext::Finish(Err(e)),
            },
            Operation::Expand => return self.resize(layout, RatioRule::Expand),
            Operation::Balance => return self.resize(layout, RatioRule::Balance),
            Operation::Undo => {
                let call = Call::LoadUndo { tab_id: layout.tab_id.clone() };
                return ArrangeNext::Continue(Arrange { stage: ArrangeStage::UndoLoading { layout }, ..self }, call);
            },
        };
        let ghost model = self@;
        let ghost layout_model = layout@;
        let ghost target_model = target@;
        let step = ApplyTree::start(layout, target);
        let ghost step_model = step@;
        let r = self.lift(step);
        assert(tree_start_ok(layout_model, target_model, step_model) && step_model.wf() && r@ == model.lift(
            step_model,
        ));
        r
    }

    fn undo_rebuild(self, step: RebuildNext, tab_id: String) -> (r: ArrangeNext)
        requires
            step@.wf(),
        ensures
            r@ == self@.undo_rebuild(step@, tab_id@),
            r@.wf(),
    {
        match step {
            RebuildNext::Continue(rebuild, call) => ArrangeNext::Continue(
                Arrange { stage: ArrangeStage::UndoRebuilding { rebuild, tab_id }, ..self },
                call,
            ),
            RebuildNext::Finish(Ok(_)) => {
                let call = Call::RemoveUndo { tab_id };
                ArrangeNext::Continue(Arrange { stage: ArrangeStage::UndoClearing, ..self }, call)
            },
            RebuildNext::Finish(Err(e)) => ArrangeNext::Finish(Err(e)),
        }
    }

    /// Go on after `reply`, the outcome of the work asked for last.
    pub fn resume(self, reply: Reply) -> (r: ArrangeNext)
        requires
            self@.wf(),
            reply@.answers(self@.expects()),
        ensures
            self@.steps(reply@, r@),
            r@.wf(),
    {
        match &self.stage {
            ArrangeStage::Reading => match reply {
                Reply::Layout(layout) => self.read(layout),
                Reply::Failed(e) => ArrangeNext::Finish(Err(e)),
                _ => ArrangeNext::Finish(Err(message(MISSING_PANE_ID))),
            },
            ArrangeStage::Applying(_) => self.resume_applying(reply),
            ArrangeStage::RatioSet { .. } | ArrangeStage::RatioRead { .. } | ArrangeStage::RatioSaving { .. }
            | ArrangeStage::RatioRestore { .. } => self.resume_ratio(reply),
            ArrangeStage::UndoRebuilding { .. } => self.resume_rebuilding(reply),
            _ => self.resume_undo(reply),
        }
    }

    fn resume_applying(self, reply: Reply) -> (r: ArrangeNext)
        requires
            self@.wf(),
            reply@.answers(self@.expects()),
            self.stage is Applying,
        ensures
            self@.steps(reply@, r@),
            r@.wf(),
    {
        match self.stage {
            ArrangeStage::Applying(apply) => {
                let me = Arrange { stage: ArrangeStage::Reading, ..self };
                let step = apply.resume(reply);
                me.lift(step)
            },
            _ => ArrangeNext::Finish(Ok(true)),
        }
    }

    fn resume_rebuilding(self, reply: Reply) -> (r: ArrangeNext)
        requires
            self@.wf(),
            reply@.answers(self@.expects()),
            self.stage is UndoRebuilding,
        ensures
            self@.steps(reply@, r@),
            r@.wf(),
    {
        match self.stage {
            ArrangeStage::UndoRebuilding { rebuild, tab_id } => {
                let me = Arrange { stage: ArrangeStage::Reading, ..self };
                let step = rebuild.resume(reply);
                me.undo_rebuild(step, tab_id)
            },
            _ => ArrangeNext::Finish(Ok(true)),
        }
    }

    fn resume_ratio(self, reply: Reply) -> (r: ArrangeNext)
        requires
            self.stage is RatioSet || self.stage is RatioRead || self.stage is RatioSaving || self.stage is RatioRestore,
        ensures
            self@.steps(reply@, r@),
            r@.wf(),
    {
        match self.stage {
            ArrangeStage::RatioSet { layout, path, before_ratio } => match reply {
                Reply::Failed(e) => ArrangeNext::Finish(Err(e)),
                _ => {
                    let call = Call::Export { pane_id: self.pane_id.clone() };
                    ArrangeNext::Continue(
                        Arrange { stage: ArrangeStage::RatioRead { layout, path, before_ratio }, ..self },
                        call,
                    )
                },
            },
            ArrangeStage::RatioRead { layout, path, before_ratio } => match reply {
                Reply::Layout(after) => match undo_record(&layout, &after) {
                    Ok(record) => ArrangeNext::Continue(
                        Arrange { stage: ArrangeStage::RatioSaving { layout, path, before_ratio }, ..self },
                        Call::SaveUndo { record },
                    ),
                    Err(e) => {
                        let call = Call::SetRatio { tab_id: layout.tab_id.clone(), path, ratio: before_ratio };
                        ArrangeNext::Continue(Arrange { stage: ArrangeStage::RatioRestore { error: e }, ..self }, call)
                    },
                },
                Reply::Failed(e) => ArrangeNext::Finish(Err(e)),
                _ => ArrangeNext::Finish(Err(message(MISSING_PANE_ID))),
            },
            ArrangeStage::RatioSaving { layout, path, before_ratio } => match reply {
                Reply::Failed(e) => {
                    let call = Call::SetRatio { tab_id: layout.tab_id.clone(), path, ratio: before_ratio };
                    ArrangeNext::Continue(Arrange { stage: ArrangeStage::RatioRestore { error: e }, ..self }, call)
                },
                _ => ArrangeNext::Finish(Ok(true)),
            },
            ArrangeStage::RatioRestore { error } => match reply {
                Reply::Failed(second) => ArrangeNext::Finish(Err(second)),
                _ => ArrangeNext::Finish(Err(error)),
            },
            _ => ArrangeNext::Finish(Ok(true)),
        }
    }

    fn resume_undo(self, reply: Reply) -> (r: ArrangeNext)
        requires
            self.stage is UndoLoading || self.stage is UndoForget || self.stage is UndoRearranging
                || self.stage is UndoClearing,
        ensures
            self@.steps(reply@, r@),
            r@.wf(),
    {
        match self.stage {
            ArrangeStage::UndoLoading { layout } => match reply {
                Reply::Record(record) => match undo_plan(&layout, record) {
                    Ok(UndoPlan::Nothing) => ArrangeNext::Finish(Ok(false)),
                    Ok(UndoPlan::Discard) => {
                        let call = Call::RemoveUndo { tab_id: layout.tab_id.clone() };
                        ArrangeNext::Continue(Arrange { stage: ArrangeStage::UndoForget, ..self }, call)
                    },
                    Ok(UndoPlan::Restore(before)) => {
                        let call = Call::Rearrange { tab_id: layout.tab_id.clone(), root: before.duplicate() };
                        ArrangeNext::Continue(
                            Arrange { stage: ArrangeStage::UndoRearranging { layout, before }, ..self },
                            call,
                        )
                    },
                    Err(e) => ArrangeNext::Finish(Err(e)),
                },
                Reply::Failed(e) => ArrangeNext::Finish(Err(e)),
                _ => ArrangeNext::Finish(Err(message(MISSING_PANE_ID))),
            },
            ArrangeStage::UndoForget => match reply {
                Reply::Failed(e) => ArrangeNext::Finish(Err(e)),
                _ => ArrangeNext::Finish(Ok(false)),
            },
            ArrangeStage::UndoRearranging { layout, before } => {
                let me = Arrange { stage: ArrangeStage::Reading, ..self };
                match reply {
                    Reply::Failed(e) => {
                        let unsupported = match &e {
                            AppError::Herdr { code, message } => rearrange_unsupported(code.as_str(), message.as_str()),
                            _ => false,
                        };
                        if unsupported {
                            let tab_id = layout.tab_id.clone();
                            let step = Rebuild::start(&layout, before);
                            me.undo_rebuild(step, tab_id)
                        } else {
                            ArrangeNext::Finish(Err(e))
                        }
                    },
                    _ => {
                        let call = Call::RemoveUndo { tab_id: layout.tab_id.clone() };
                        ArrangeNext::Continue(Arrange { stage: ArrangeStage::UndoClearing, ..me }, call)
                    },
                }
            },
            ArrangeStage::UndoClearing => match reply {
                Reply::Failed(e) => ArrangeNext::Finish(Err(e)),
                _ => ArrangeNext::Finish(Ok(true)),
            },
            _ => ArrangeNext::Finish(Ok(true)),
        }
    }
}

} // verus!

verus! {

/// A rebuild finishes only where nothing is left behind unannounced: before
/// the temporary tab exists, after closing it, or after telling the user
/// about it.
pub proof fn law_rebuild_cleans_up(rebuild: RebuildModel, reply: ReplyModel)
    requires
        reply.answers(rebuild.expects()),
        rebuild.next(reply) is Finish,
    ensures
        rebuild.stage is CreateParking || rebuild.stage is Close || rebuild.stage is Notify,
{
}

/// When the way back fails too, the user is told which temporary tab holds
/// the panes, and the error names both failures.
pub proof fn law_failed_rollback_is_announced(rebuild: RebuildModel, first: ErrorModel, second: ErrorModel)
    requires
        rebuild.first_error == Some(first),
    ensures
        rebuild.fail_pass(second) == RebuildNextModel::Continue(
            RebuildModel { stage: StageModel::Notify(Err(rollback_failure(first, second))), ..rebuild },
            CallModel::Notify(attention_title(), stranded_notice(rebuild.parking_tab)),
        ),
{
}

/// A first failure turns the rebuild back toward the layout it started from.
pub proof fn law_failure_turns_back(rebuild: RebuildModel, error: ErrorModel)
    requires
        rebuild.first_error is None,
    ensures
        match rebuild.fail_pass(error) {
            RebuildNextModel::Continue(back, _) => back.first_error == Some(error) && back.goal == rebuild.former,
            RebuildNextModel::Finish(_) => false,
        },
{
}

/// Applying a layout succeeds only once its undo record has been stored.
pub proof fn law_apply_succeeds_after_saving(apply: TreeModel, reply: ReplyModel)
    requires
        apply.wf(),
        reply.answers(apply.expects()),
        apply.next(reply) == TreeNextModel::Finish(Ok(())),
    ensures
        apply.stage is Saving,
{
    match apply.stage {
        TreeStageModel::Rebuilding(rebuild, then) => {
            lemma_follow_never_succeeds(apply, rebuild.next(reply), then);
        },
        TreeStageModel::SwapRecover(error) => {
            if let ReplyModel::Layout(partial) = reply {
                if partial.root.normalized() is Some && apply.before.root.normalized() is Some
                    && partial.root.normalized() != apply.before.root.normalized() {
                    lemma_follow_never_succeeds(apply, rebuild_start(partial, apply.before.root), Some(error));
                }
            }
        },
        TreeStageModel::SwapCheck => {
            if let ReplyModel::Layout(after) = reply {
                lemma_follow_never_succeeds(
                    apply,
                    rebuild_start(after, apply.before.root),
                    Some(ErrorModel::Message(DIFFERENT_LAYOUT@)),
                );
                lemma_save_never_succeeds(apply, after, false);
            }
        },
        TreeStageModel::Rearranging => {
            if let ReplyModel::Layout(after) = reply {
                lemma_save_never_succeeds(apply, after, true);
            }
            lemma_follow_never_succeeds(apply, rebuild_start(apply.before, apply.target), None);
        },
        _ => {},
    }
}

proof fn lemma_rebuilt_never_succeeds(
    apply: TreeModel,
    outcome: Result<DescriptionModel, ErrorModel>,
    then: Option<ErrorModel>,
)
    ensures
        apply.rebuilt(outcome, then) != TreeNextModel::Finish(Ok(())),
    decreases
            (if then is None {
                5int
            } else {
                1int
            }),
{
    if then is None {
        if let Ok(after) = outcome {
            lemma_save_never_succeeds(apply, after, false);
        }
    }
}

proof fn lemma_follow_never_succeeds(apply: TreeModel, step: RebuildNextModel, then: Option<ErrorModel>)
    ensures
        apply.follow(step, then) != TreeNextModel::Finish(Ok(())),
    decreases
            (if then is None {
                6int
            } else {
                2int
            }),
{
    if let RebuildNextModel::Finish(outcome) = step {
        lemma_rebuilt_never_succeeds(apply, outcome, then);
    }
}

proof fn lemma_restore_never_succeeds(apply: TreeModel, after: DescriptionModel, by_rearrange: bool, error: ErrorModel)
    ensures
        apply.restore(after, by_rearrange, error) != TreeNextModel::Finish(Ok(())),
    decreases 3int,
{
    if !by_rearrange {
        lemma_follow_never_succeeds(apply, rebuild_start(after, apply.before.root), Some(error));
    }
}

proof fn lemma_save_never_succeeds(apply: TreeModel, after: DescriptionModel, by_rearrange: bool)
    ensures
        apply.save(after, by_rearrange) != TreeNextModel::Finish(Ok(())),
    decreases 4int,
{
    if after.root.normalized() is None {
        lemma_restore_never_succeeds(apply, after, by_rearrange, missing_id());
    }
}

/// A Herdr too old to rearrange in one request gets the same layout
/// through the temporary-tab rebuild instead.
pub proof fn law_old_herdr_falls_back_to_rebuild(apply: TreeModel, code: Seq<char>, text: Seq<char>)
    requires
        apply.stage is Rearranging,
        spec_rearrange_unsupported(code, text),
    ensures
        apply.next(ReplyModel::Failed(ErrorModel::Herdr(code, text))) == apply.follow(
            rebuild_start(apply.before, apply.target),
            None,
        ),
{
}

/// A layout that Herdr built differently from the request is taken back.
pub proof fn law_wrong_rearrangement_is_taken_back(apply: TreeModel, after: DescriptionModel)
    requires
        apply.stage is Rearranging,
        after.root.normalized() is Some,
        apply.target.normalized() is Some,
        after.root.normalized() != apply.target.normalized(),
    ensures
        apply.next(ReplyModel::Layout(after)) == TreeNextModel::Continue(
            TreeModel { stage: TreeStageModel::RestoreThenFail(ErrorModel::Message(DIFFERENT_LAYOUT@)), ..apply },
            CallModel::Rearrange(apply.before.tab_id, apply.before.root),
        ),
{
}

/// Undo reports a change only after dropping the record it used, and
/// "nothing to undo" only when there was no record or the record was stale
/// and has been dropped.
pub proof fn law_undo_drops_its_record(arrange: ArrangeModel, reply: ReplyModel)
    requires
        arrange.stage is UndoLoading || arrange.stage is UndoForget || arrange.stage is UndoRearranging
            || arrange.stage is UndoRebuilding || arrange.stage is UndoClearing,
    ensures
        arrange.later(reply) == ArrangeNextModel::Finish(Ok(true)) ==> arrange.stage is UndoClearing,
        arrange.later(reply) == ArrangeNextModel::Finish(Ok(false)) ==> arrange.stage is UndoLoading
            || arrange.stage is UndoForget,
{
}

} // verus!

verus! {

/// The layout `layout` looks exactly like `goal`.
pub open spec fn looks_like(layout: DescriptionModel, goal: LayoutTree) -> bool {
    layout.root.normalized() is Some && layout.root.normalized() == goal.normalized()
}

impl RebuildModel {
    /// While no pass has failed the rebuild builds `goal`, and a finished
    /// pass that succeeded saw the tab looking like it.
    pub open spec fn builds(self, goal: LayoutTree) -> bool {
        &&& self.first_error is None ==> self.goal == goal
        &&& match self.stage {
            StageModel::Close(Ok(layout)) => self.first_error is None && looks_like(layout, self.goal),
            StageModel::Notify(Ok(layout)) => self.first_error is None && looks_like(layout, self.goal),
            _ => true,
        }
    }
}

impl TreeModel {
    /// What applying remembers is the target: an undo record is stored
    /// only for a layout seen looking like the target, and a rebuild toward
    /// the target keeps building it.
    pub open spec fn keeps_target(self) -> bool {
        match self.stage {
            TreeStageModel::Saving(after, _) => looks_like(after, self.target),
            TreeStageModel::Rebuilding(rebuild, None) => rebuild.builds(self.target),
            _ => true,
        }
    }
}

proof fn lemma_fail_pass_builds(m: RebuildModel, goal: LayoutTree, error: ErrorModel)
    ensures
        m.fail_pass(error) matches RebuildNextModel::Continue(next, _) && next.builds(goal),
{
}

proof fn lemma_open_pass_builds(m: RebuildModel, goal: LayoutTree)
    requires
        m.first_error is None ==> m.goal == goal,
    ensures
        m.open_pass() matches RebuildNextModel::Continue(next, _) && next.builds(goal),
{
    if m.goal.pane_ids() is None {
        lemma_fail_pass_builds(m, goal, missing_id());
    }
}

proof fn lemma_insert_from_builds(m: RebuildModel, goal: LayoutTree, steps: Seq<StepInfo>, index: usize)
    requires
        m.first_error is None ==> m.goal == goal,
    ensures
        m.insert_from(steps, index) matches RebuildNextModel::Continue(next, _) && next.builds(goal),
{
}

proof fn lemma_park_from_builds(m: RebuildModel, goal: LayoutTree, panes: Seq<Seq<char>>, index: usize)
    requires
        m.first_error is None ==> m.goal == goal,
    ensures
        m.park_from(panes, index) matches RebuildNextModel::Continue(next, _) && next.builds(goal),
{
    if index >= panes.len() {
        match steps_of(m.goal) {
            Some(steps) => lemma_insert_from_builds(m, goal, steps, 0),
            None => lemma_fail_pass_builds(m, goal, missing_id()),
        }
    }
}

proof fn lemma_park_all_builds(m: RebuildModel, goal: LayoutTree, layout: DescriptionModel)
    requires
        m.first_error is None ==> m.goal == goal,
    ensures
        m.park_all(layout) matches RebuildNextModel::Continue(next, _) && next.builds(goal),
{
    match layout.root.pane_ids() {
        Some(ids) => lemma_park_from_builds(m, goal, others(ids, m.anchor), 0),
        None => lemma_fail_pass_builds(m, goal, missing_id()),
    }
}

/// A rebuild toward `goal` keeps building it, and when it finishes well the
/// tab was seen looking like `goal`.
pub proof fn lemma_rebuild_keeps_goal(m: RebuildModel, goal: LayoutTree, reply: ReplyModel)
    requires
        m.builds(goal),
        m.wf(),
        reply.answers(m.expects()),
    ensures
        match m.next(reply) {
            RebuildNextModel::Continue(next, _) => next.builds(goal),
            RebuildNextModel::Finish(Ok(layout)) => looks_like(layout, goal),
            RebuildNextModel::Finish(Err(_)) => true,
        },
{
    match reply {
        ReplyModel::Failed(error) => {
            match m.stage {
                StageModel::CreateParking | StageModel::Close(_) | StageModel::Notify(_) => {},
                _ => lemma_fail_pass_builds(m, goal, error),
            }
        },
        _ => match m.stage {
            StageModel::CreateParking => {
                if let ReplyModel::ParkingTab(tab, pane) = reply {
                    lemma_open_pass_builds(RebuildModel { parking_tab: tab, parking_root: pane, ..m }, goal);
                }
            },
            StageModel::Anchor => {
                if let ReplyModel::Layout(layout) = reply {
                    if layout.tab_id == m.source_tab {
                        lemma_park_all_builds(m, goal, layout);
                    }
                }
            },
            StageModel::Probe(index, found) => {
                if let ReplyModel::Layout(layout) = reply {
                    lemma_fail_pass_builds(m, goal, ErrorModel::Message(LOST_EVERY_PANE@));
                }
            },
            StageModel::Reexport => {
                if let ReplyModel::Layout(layout) = reply {
                    lemma_park_all_builds(m, goal, layout);
                }
            },
            StageModel::Park(panes, index) => lemma_park_from_builds(m, goal, panes, (index + 1) as usize),
            StageModel::Insert(steps, index) => lemma_insert_from_builds(m, goal, steps, (index + 1) as usize),
            StageModel::Check => {
                if let ReplyModel::Layout(layout) = reply {
                    lemma_fail_pass_builds(m, goal, missing_id());
                    lemma_fail_pass_builds(m, goal, ErrorModel::Message(DIFFERENT_LAYOUT@));
                }
            },
            _ => {},
        },
    }
}

/// How a rebuild toward `target` starts keeps to it.
pub proof fn lemma_rebuild_start_builds(before: DescriptionModel, target: LayoutTree)
    ensures
        match rebuild_start(before, target) {
            RebuildNextModel::Continue(next, _) => next.builds(target),
            RebuildNextModel::Finish(outcome) => outcome is Err,
        },
{
}

proof fn lemma_save_keeps_target(apply: TreeModel, after: DescriptionModel, by_rearrange: bool)
    requires
        looks_like(after, apply.target),
    ensures
        apply.save(after, by_rearrange) matches TreeNextModel::Continue(next, call) && next.keeps_target()
            && call == CallModel::SaveUndo(
            RecordModel {
                workspace_id: apply.before.workspace_id,
                tab_id: apply.before.tab_id,
                focused_pane_id: apply.before.focused_pane_id,
                before: apply.before.root,
                after: apply.target.normalized()->0,
            },
        ),
{
}

/// A rebuild never stores an undo record.
proof fn lemma_rebuild_never_saves(m: RebuildModel, reply: ReplyModel)
    ensures
        m.next(reply) matches RebuildNextModel::Continue(_, call) ==> !(call is SaveUndo),
{
}

proof fn lemma_follow_keeps_target(apply: TreeModel, step: RebuildNextModel, then: Option<ErrorModel>)
    requires
        step matches RebuildNextModel::Continue(_, call) ==> !(call is SaveUndo),
        then is None ==> match step {
            RebuildNextModel::Continue(next, _) => next.builds(apply.target),
            RebuildNextModel::Finish(Ok(layout)) => looks_like(layout, apply.target),
            RebuildNextModel::Finish(Err(_)) => true,
        },
    ensures
        match apply.follow(step, then) {
            TreeNextModel::Continue(next, call) => next.keeps_target() && (call is SaveUndo ==> call
                == CallModel::SaveUndo(
                RecordModel {
                    workspace_id: apply.before.workspace_id,
                    tab_id: apply.before.tab_id,
                    focused_pane_id: apply.before.focused_pane_id,
                    before: apply.before.root,
                    after: apply.target.normalized()->0,
                },
            )),
            TreeNextModel::Finish(_) => true,
        },
{
    if then is None {
        if let RebuildNextModel::Finish(Ok(layout)) = step {
            lemma_save_keeps_target(apply, layout, false);
        }
    }
}

proof fn lemma_restore_keeps_target(apply: TreeModel, after: DescriptionModel, by_rearrange: bool, error: ErrorModel)
    ensures
        match apply.restore(after, by_rearrange, error) {
            TreeNextModel::Continue(next, call) => next.keeps_target() && !(call is SaveUndo),
            TreeNextModel::Finish(_) => true,
        },
{
}

/// Whatever Herdr answers, applying a layout stores an undo record only for
/// the requested layout: the record remembers the tab as it was before and
/// the target's look as the look after, and it is stored only right after
/// the tab was seen looking like the target.
pub proof fn law_undo_record_is_for_the_target(apply: TreeModel, reply: ReplyModel)
    requires
        apply.wf(),
        apply.keeps_target(),
        reply.answers(apply.expects()),
    ensures
        match apply.next(reply) {
            TreeNextModel::Continue(next, call) => next.keeps_target() && (call is SaveUndo ==> call
                == CallModel::SaveUndo(
                RecordModel {
                    workspace_id: apply.before.workspace_id,
                    tab_id: apply.before.tab_id,
                    focused_pane_id: apply.before.focused_pane_id,
                    before: apply.before.root,
                    after: apply.target.normalized()->0,
                },
            )),
            TreeNextModel::Finish(_) => true,
        },
{
    match apply.stage {
        TreeStageModel::Rebuilding(rebuild, then) => {
            if then is None {
                lemma_rebuild_keeps_goal(rebuild, apply.target, reply);
            }
            lemma_rebuild_never_saves(rebuild, reply);
            lemma_follow_keeps_target(apply, rebuild.next(reply), then);
        },
        TreeStageModel::SwapRecover(error) => {
            if let ReplyModel::Layout(partial) = reply {
                lemma_follow_keeps_target(apply, rebuild_start(partial, apply.before.root), Some(error));
            }
        },
        TreeStageModel::SwapCheck => {
            if let ReplyModel::Layout(after) = reply {
                lemma_follow_keeps_target(
                    apply,
                    rebuild_start(after, apply.before.root),
                    Some(ErrorModel::Message(DIFFERENT_LAYOUT@)),
                );
                if looks_like(after, apply.target) {
                    lemma_save_keeps_target(apply, after, false);
                }
            }
        },
        TreeStageModel::Rearranging => {
            if let ReplyModel::Layout(after) = reply {
                if looks_like(after, apply.target) {
                    lemma_save_keeps_target(apply, after, true);
                }
            }
            lemma_rebuild_start_builds(apply.before, apply.target);
            lemma_follow_keeps_target(apply, rebuild_start(apply.before, apply.target), None);
        },
        TreeStageModel::Saving(after, by_rearrange) => {
            if let ReplyModel::Failed(e) = reply {
                lemma_restore_keeps_target(apply, after, by_rearrange, e);
            }
        },
        _ => {},
    }
}

/// Applying starts out keeping to its target.
pub proof fn law_apply_starts_on_target(before: DescriptionModel, target: LayoutTree, step: TreeNextModel)
    requires
        tree_start_ok(before, target, step),
    ensures
        step matches TreeNextModel::Continue(apply, _) ==> apply.keeps_target(),
{
}

} // verus!
