use vstd::prelude::*;

use crate::state::UndoRecord;
use crate::text::{contains_text, same_text, text_contains};
use crate::error::{
    message, AppError, FOCUSED_NOT_IN_LAYOUT, SAME_SWAP_PANES, FOCUSED_SPLIT_GONE, GRID_NEEDS_FOUR,
    LAYOUT_NEEDS_A_PANE, MISSING_PANE_ID, NO_SPLIT_TO_RESIZE, NO_SPLIT_TO_ROTATE, NOT_SAME_PANES,
    TWO_TO_FOUR_PANES, UNZOOM_FIRST, WORKS_WITH_TWO_TO_FOUR,
};
use crate::layout::{
    law_replace_at_path, lemma_joined_contains, lemma_replace_keeps_paths,
    lemma_write_back, lemma_write_over_write, law_read_after_replace, lemma_exchange_needs_ids, lemma_path_reaches_pane, plain_pane, split_of, ComparableLayoutNode,
    ComparableTree, LayoutDescription, LayoutNode, LayoutTree, SplitDirection, HALF_RATIO,
    RATIO_SCALE,
};

verus! {

/// The ratio that gives the first child two thirds of a split, rounded to
/// the nearest billionth.
pub const TWO_THIRDS_RATIO: u32 = 666_666_667;

/// The ratio that gives the first child one third of a split, rounded to
/// the nearest billionth.
pub const ONE_THIRD_RATIO: u32 = 333_333_333;

/// The layouts that Arrange can build in one step.
#[derive(Clone, Copy, Debug, PartialEq, Eq, Structural)]
pub enum LayoutPreset {
    Columns,
    Rows,
    Grid,
    Left,
    Right,
    Top,
    Bottom,
}

/// The presets offered for a tab of `pane_count` panes, in menu order.
pub open spec fn presets_for(pane_count: nat) -> Seq<LayoutPreset> {
    if pane_count == 4 {
        seq![
            LayoutPreset::Columns,
            LayoutPreset::Rows,
            LayoutPreset::Grid,
            LayoutPreset::Left,
            LayoutPreset::Right,
            LayoutPreset::Top,
            LayoutPreset::Bottom,
        ]
    } else {
        seq![
            LayoutPreset::Columns,
            LayoutPreset::Rows,
            LayoutPreset::Left,
            LayoutPreset::Right,
            LayoutPreset::Top,
            LayoutPreset::Bottom,
        ]
    }
}

pub open spec fn preset_named(name: Seq<char>) -> Option<LayoutPreset> {
    if name == "columns"@ {
        Some(LayoutPreset::Columns)
    } else if name == "rows"@ {
        Some(LayoutPreset::Rows)
    } else if name == "grid"@ {
        Some(LayoutPreset::Grid)
    } else if name == "left"@ {
        Some(LayoutPreset::Left)
    } else if name == "right"@ {
        Some(LayoutPreset::Right)
    } else if name == "top"@ {
        Some(LayoutPreset::Top)
    } else if name == "bottom"@ {
        Some(LayoutPreset::Bottom)
    } else {
        None
    }
}

impl LayoutPreset {
    /// Whether the preset divides the space evenly.
    pub open spec fn spec_is_equal(self) -> bool {
        self is Columns || self is Rows || self is Grid
    }

    pub open spec fn spec_description(self) -> Seq<char> {
        match self {
            LayoutPreset::Columns => "Equal columns"@,
            LayoutPreset::Rows => "Equal rows"@,
            LayoutPreset::Grid => "2 × 2 grid"@,
            LayoutPreset::Left => "Focused pane on the left"@,
            LayoutPreset::Right => "Focused pane on the right"@,
            LayoutPreset::Top => "Focused pane on top"@,
            LayoutPreset::Bottom => "Focused pane on the bottom"@,
        }
    }

    pub open spec fn spec_label(self) -> Seq<char> {
        match self {
            LayoutPreset::Columns => "Columns"@,
            LayoutPreset::Rows => "Rows"@,
            LayoutPreset::Grid => "Grid"@,
            LayoutPreset::Left => "Left"@,
            LayoutPreset::Right => "Right"@,
            LayoutPreset::Top => "Top"@,
            LayoutPreset::Bottom => "Bottom"@,
        }
    }

    /// The presets offered for `pane_count` panes: all of them, the grid only
    /// for four panes.
    pub fn available(pane_count: usize) -> (r: Vec<Self>)
        ensures
            r@ == presets_for(pane_count as nat),
    {
        let mut presets = Vec::new();
        presets.push(LayoutPreset::Columns);
        presets.push(LayoutPreset::Rows);
        if pane_count == 4 {
            presets.push(LayoutPreset::Grid);
        }
        presets.push(LayoutPreset::Left);
        presets.push(LayoutPreset::Right);
        presets.push(LayoutPreset::Top);
        presets.push(LayoutPreset::Bottom);
        assert(presets@ =~= presets_for(pane_count as nat));
        presets
    }

    /// Whether the preset divides the space evenly.
    pub fn is_equal(self) -> (r: bool)
        ensures
            r == self.spec_is_equal(),
    {
        match self {
            LayoutPreset::Columns | LayoutPreset::Rows | LayoutPreset::Grid => true,
            _ => false,
        }
    }

    /// The preset called `name` on the command line.
    pub fn from_name(name: &str) -> (r: Option<Self>)
        ensures
            r == preset_named(name@),
    {
        if same_text(name, "columns") {
            Some(LayoutPreset::Columns)
        } else if same_text(name, "rows") {
            Some(LayoutPreset::Rows)
        } else if same_text(name, "grid") {
            Some(LayoutPreset::Grid)
        } else if same_text(name, "left") {
            Some(LayoutPreset::Left)
        } else if same_text(name, "right") {
            Some(LayoutPreset::Right)
        } else if same_text(name, "top") {
            Some(LayoutPreset::Top)
        } else if same_text(name, "bottom") {
            Some(LayoutPreset::Bottom)
        } else {
            None
        }
    }

    /// A sentence describing the preset.
    pub fn description(self) -> (r: &'static str)
        ensures
            r@ == self.spec_description(),
    {
        match self {
            LayoutPreset::Columns => "Equal columns",
            LayoutPreset::Rows => "Equal rows",
            LayoutPreset::Grid => "2 × 2 grid",
            LayoutPreset::Left => "Focused pane on the left",
            LayoutPreset::Right => "Focused pane on the right",
            LayoutPreset::Top => "Focused pane on top",
            LayoutPreset::Bottom => "Focused pane on the bottom",
        }
    }

    /// The preset's display name.
    pub fn label(self) -> (r: &'static str)
        ensures
            r@ == self.spec_label(),
    {
        match self {
            LayoutPreset::Columns => "Columns",
            LayoutPreset::Rows => "Rows",
            LayoutPreset::Grid => "Grid",
            LayoutPreset::Left => "Left",
            LayoutPreset::Right => "Right",
            LayoutPreset::Top => "Top",
            LayoutPreset::Bottom => "Bottom",
        }
    }
}

/// The share of one pane among `n` equal panes, in billionths rounded
/// down: a third is 333 333 333, a billionth under the exact share.
pub open spec fn even_share(n: nat) -> u32 {
    (RATIO_SCALE as nat / n) as u32
}

/// The panes `ids` one after another along `direction`, each taking an equal
/// share: the first pane, then the rest in a nested split.
pub open spec fn even_sequence(ids: Seq<Seq<char>>, direction: SplitDirection) -> Option<LayoutTree>
    decreases ids.len(),
{
    if ids.len() == 0 {
        None
    } else if ids.len() == 1 {
        Some(plain_pane(ids[0]))
    } else {
        match even_sequence(ids.drop_first(), direction) {
            Some(rest) => Some(split_of(direction, even_share(ids.len()), plain_pane(ids[0]), rest)),
            None => None,
        }
    }
}

/// `ids` without the entries equal to `id`, in order.
pub open spec fn others(ids: Seq<Seq<char>>, id: Seq<char>) -> Seq<Seq<char>>
    decreases ids.len(),
{
    if ids.len() == 0 {
        Seq::empty()
    } else {
        others(ids.drop_last(), id) + if ids.last() == id {
            Seq::empty()
        } else {
            seq![ids.last()]
        }
    }
}

/// The layout a preset asks for, given the panes in reading order and the
/// focused pane.
pub open spec fn preset_layout(ids: Seq<Seq<char>>, focused: Seq<char>, preset: LayoutPreset) -> Option<
    LayoutTree,
> {
    let secondary = others(ids, focused);
    match preset {
        LayoutPreset::Columns => even_sequence(ids, SplitDirection::Right),
        LayoutPreset::Rows => even_sequence(ids, SplitDirection::Down),
        LayoutPreset::Grid => Some(
            split_of(
                SplitDirection::Down,
                HALF_RATIO,
                split_of(SplitDirection::Right, HALF_RATIO, plain_pane(ids[0]), plain_pane(ids[1])),
                split_of(SplitDirection::Right, HALF_RATIO, plain_pane(ids[2]), plain_pane(ids[3])),
            ),
        ),
        LayoutPreset::Left => match even_sequence(secondary, SplitDirection::Down) {
            Some(rest) => Some(
                split_of(SplitDirection::Right, TWO_THIRDS_RATIO, plain_pane(focused), rest),
            ),
            None => None,
        },
        LayoutPreset::Right => match even_sequence(secondary, SplitDirection::Down) {
            Some(rest) => Some(
                split_of(SplitDirection::Right, ONE_THIRD_RATIO, rest, plain_pane(focused)),
            ),
            None => None,
        },
        LayoutPreset::Top => match even_sequence(secondary, SplitDirection::Right) {
            Some(rest) => Some(
                split_of(SplitDirection::Down, TWO_THIRDS_RATIO, plain_pane(focused), rest),
            ),
            None => None,
        },
        LayoutPreset::Bottom => match even_sequence(secondary, SplitDirection::Right) {
            Some(rest) => Some(
                split_of(SplitDirection::Down, ONE_THIRD_RATIO, rest, plain_pane(focused)),
            ),
            None => None,
        },
    }
}

/// The tree a preset builds from a layout, when it can build one.
pub open spec fn preset_target(root: LayoutTree, focused: Seq<char>, preset: LayoutPreset) -> Option<
    LayoutTree,
> {
    match root.pane_ids() {
        None => None,
        Some(ids) => if !(2 <= ids.len() <= 4) || (preset is Grid && ids.len() != 4) {
            None
        } else {
            preset_layout(ids, focused, preset)
        },
    }
}

/// The panes `pane_ids` one after another along `direction`, in equal shares.
pub fn equal_sequence(pane_ids: &[String], direction: SplitDirection) -> (r: Result<
    LayoutNode,
    AppError,
>)
    ensures
        match even_sequence(pane_ids.deep_view(), direction) {
            Some(t) => r is Ok && r->Ok_0@ == t,
            None => r is Err && r->Err_0.is_message(LAYOUT_NEEDS_A_PANE@),
        },
{
    assert(pane_ids.deep_view().skip(0) =~= pane_ids.deep_view());
    equal_sequence_from(pane_ids, 0, direction)
}

fn equal_sequence_from(pane_ids: &[String], start: usize, direction: SplitDirection) -> (r: Result<
    LayoutNode,
    AppError,
>)
    requires
        start <= pane_ids@.len(),
    ensures
        match even_sequence(pane_ids.deep_view().skip(start as int), direction) {
            Some(t) => r is Ok && r->Ok_0@ == t,
            None => r is Err && r->Err_0.is_message(LAYOUT_NEEDS_A_PANE@),
        },
    decreases pane_ids@.len() - start,
{
    let ghost ids = pane_ids.deep_view().skip(start as int);
    if start == pane_ids.len() {
        assert(ids.len() == 0);
        return Err(message(LAYOUT_NEEDS_A_PANE));
    }
    assert(ids[0] == pane_ids@[start as int]@);
    let first = LayoutNode::pane(pane_ids[start].clone());
    if start + 1 == pane_ids.len() {
        return Ok(first);
    }
    assert(ids.drop_first() =~= pane_ids.deep_view().skip(start + 1));
    let count = pane_ids.len() - start;
    let ratio = (RATIO_SCALE as u64 / count as u64) as u32;
    match equal_sequence_from(pane_ids, start + 1, direction) {
        Ok(rest) => Ok(LayoutNode::split(direction, ratio, first, rest)),
        Err(e) => Err(e),
    }
}

/// `pane_ids` without the entries equal to `id`.
pub fn ids_other_than(pane_ids: &Vec<String>, id: &str) -> (r: Vec<String>)
    ensures
        r.deep_view() == others(pane_ids.deep_view(), id@),
{
    let mut out: Vec<String> = Vec::new();
    for i in 0..pane_ids.len()
        invariant
            out.deep_view() == others(pane_ids.deep_view().take(i as int), id@),
    {
        let ghost before = out.deep_view();
        assert(pane_ids.deep_view().take(i + 1).drop_last() =~= pane_ids.deep_view().take(
            i as int,
        ));
        if !same_text(pane_ids[i].as_str(), id) {
            out.push(pane_ids[i].clone());
            assert(out.deep_view() =~= before + seq![pane_ids@[i as int]@]);
        } else {
            assert(before + Seq::<Seq<char>>::empty() =~= before);
        }
    }
    assert(pane_ids.deep_view().take(pane_ids.len() as int) =~= pane_ids.deep_view());
    out
}

/// The tree a preset builds from the layout, or why it cannot.
pub fn target_for_preset(layout: &LayoutDescription, preset: LayoutPreset) -> (r: Result<
    LayoutNode,
    AppError,
>)
    ensures
        match layout.root@.pane_ids() {
            None => r is Err && r->Err_0.is_message(MISSING_PANE_ID@),
            Some(ids) => if !(2 <= ids.len() <= 4) {
                r is Err && r->Err_0.is_message(TWO_TO_FOUR_PANES@)
            } else if preset is Grid && ids.len() != 4 {
                r is Err && r->Err_0.is_message(GRID_NEEDS_FOUR@)
            } else {
                match preset_layout(ids, layout.focused_pane_id@, preset) {
                    Some(t) => r is Ok && r->Ok_0@ == t,
                    None => r is Err && r->Err_0.is_message(LAYOUT_NEEDS_A_PANE@),
                }
            },
        },
        match preset_target(layout.root@, layout.focused_pane_id@, preset) {
            Some(t) => r is Ok && r->Ok_0@ == t,
            None => r is Err,
        },
{
    let pane_ids = match layout.root.pane_ids() {
        Ok(ids) => ids,
        Err(e) => return Err(e),
    };
    let count = pane_ids.len();
    if count < 2 || count > 4 {
        return Err(message(TWO_TO_FOUR_PANES));
    }
    if preset == LayoutPreset::Grid && count != 4 {
        return Err(message(GRID_NEEDS_FOUR));
    }
    let focused = layout.focused_pane_id.clone();
    let secondary = ids_other_than(&pane_ids, focused.as_str());
    let target = match preset {
        LayoutPreset::Columns => equal_sequence(pane_ids.as_slice(), SplitDirection::Right),
        LayoutPreset::Rows => equal_sequence(pane_ids.as_slice(), SplitDirection::Down),
        LayoutPreset::Grid => Ok(
            LayoutNode::split(
                SplitDirection::Down,
                HALF_RATIO,
                LayoutNode::split(
                    SplitDirection::Right,
                    HALF_RATIO,
                    LayoutNode::pane(pane_ids[0].clone()),
                    LayoutNode::pane(pane_ids[1].clone()),
                ),
                LayoutNode::split(
                    SplitDirection::Right,
                    HALF_RATIO,
                    LayoutNode::pane(pane_ids[2].clone()),
                    LayoutNode::pane(pane_ids[3].clone()),
                ),
            ),
        ),
        LayoutPreset::Left => match equal_sequence(secondary.as_slice(), SplitDirection::Down) {
            Ok(rest) => Ok(
                LayoutNode::split(
                    SplitDirection::Right,
                    TWO_THIRDS_RATIO,
                    LayoutNode::pane(focused),
                    rest,
                ),
            ),
            Err(e) => Err(e),
        },
        LayoutPreset::Right => match equal_sequence(secondary.as_slice(), SplitDirection::Down) {
            Ok(rest) => Ok(
                LayoutNode::split(
                    SplitDirection::Right,
                    ONE_THIRD_RATIO,
                    rest,
                    LayoutNode::pane(focused),
                ),
            ),
            Err(e) => Err(e),
        },
        LayoutPreset::Top => match equal_sequence(secondary.as_slice(), SplitDirection::Right) {
            Ok(rest) => Ok(
                LayoutNode::split(
                    SplitDirection::Down,
                    TWO_THIRDS_RATIO,
                    LayoutNode::pane(focused),
                    rest,
                ),
            ),
            Err(e) => Err(e),
        },
        LayoutPreset::Bottom => match equal_sequence(secondary.as_slice(), SplitDirection::Right) {
            Ok(rest) => Ok(
                LayoutNode::split(
                    SplitDirection::Down,
                    ONE_THIRD_RATIO,
                    rest,
                    LayoutNode::pane(focused),
                ),
            ),
            Err(e) => Err(e),
        },
    };
    target
}


/// The same split turned to the other axis.
pub open spec fn rotated_split(t: LayoutTree) -> LayoutTree {
    match t {
        LayoutTree::Split { direction, ratio, first, second } => LayoutTree::Split {
            direction: direction.spec_rotated(),
            ratio,
            first,
            second,
        },
        LayoutTree::Pane(_) => t,
    }
}

/// The layout with the split around the focused pane rotated.
pub open spec fn rotated_layout(root: LayoutTree, focused: Seq<char>) -> Option<LayoutTree> {
    match root.closest_split_path(focused) {
        Some(p) => match root.at_path(p) {
            Some(s) => root.with_at_path(p, rotated_split(s)),
            None => None,
        },
        None => None,
    }
}

/// The node just above a reachable node is a split.
pub proof fn lemma_parent_is_split(t: LayoutTree, path: Seq<bool>)
    requires
        path.len() > 0,
        t.at_path(path) is Some,
    ensures
        t.at_path(path.drop_last()) matches Some(LayoutTree::Split { .. }),
    decreases path.len(),
{
    if path.len() > 1 {
        match t {
            LayoutTree::Pane(_) => {},
            LayoutTree::Split { first, second, .. } => {
                let rest = path.drop_first();
                assert(rest.drop_last() =~= path.drop_last().drop_first());
                if path[0] {
                    lemma_parent_is_split(*second, rest);
                } else {
                    lemma_parent_is_split(*first, rest);
                }
            },
        }
    } else {
        assert(path.drop_last().len() == 0);
    }
}

/// A split found around a pane can be read and replaced.
pub proof fn lemma_closest_split_is_split(root: LayoutTree, focused: Seq<char>, r: LayoutTree)
    requires
        root.closest_split_path(focused) is Some,
    ensures
        root.at_path(root.closest_split_path(focused)->0) matches Some(LayoutTree::Split { .. }),
        root.with_at_path(root.closest_split_path(focused)->0, r) is Some,
{
    lemma_path_reaches_pane(root, focused);
    let q = root.path_to(focused)->0;
    lemma_parent_is_split(root, q);
    crate::layout::lemma_reachable_path_replaceable(root, q.drop_last(), r);
}

/// The layout with the split that directly holds the focused pane turned to
/// the other axis.
pub fn target_for_rotate(layout: &LayoutDescription) -> (r: Result<LayoutNode, AppError>)
    ensures
        match rotated_layout(layout.root@, layout.focused_pane_id@) {
            Some(t) => r is Ok && r->Ok_0@ == t,
            None => r is Err && r->Err_0.is_message(NO_SPLIT_TO_ROTATE@),
        },
        (rotated_layout(layout.root@, layout.focused_pane_id@) is Some) == (
        layout.root@.closest_split_path(layout.focused_pane_id@) is Some),
{
    let path = match layout.root.closest_split_path(layout.focused_pane_id.as_str()) {
        Some(path) => path,
        None => return Err(message(NO_SPLIT_TO_ROTATE)),
    };
    let ghost found = layout.root@.at_path(path@);
    proof {
        lemma_closest_split_is_split(layout.root@, layout.focused_pane_id@, rotated_split(found->0));
    }
    let split = match layout.root.node_at_path(path.as_slice()) {
        Some(node) => node,
        None => return Err(message(FOCUSED_SPLIT_GONE)),
    };
    let replacement = match split {
        LayoutNode::Split { direction, ratio, first, second } => LayoutNode::split(
            direction.rotated(),
            *ratio,
            first.duplicate(),
            second.duplicate(),
        ),
        LayoutNode::Pane { .. } => return Err(message(NO_SPLIT_TO_ROTATE)),
    };
    layout.root.with_node_at_path(path.as_slice(), replacement)
}

/// How the ratio of the focused split is chosen.
#[derive(Clone, Copy, Debug, PartialEq, Eq, Structural)]
pub enum RatioRule {
    /// Give the focused pane at least two thirds of its split.
    Expand,
    /// Share the split evenly.
    Balance,
}

/// At least two thirds for the focused side: the first child's share rises
/// to two thirds, or falls to one third when the focused pane is second.
pub open spec fn spec_expanded_ratio(ratio: u32, focused_is_second: bool) -> u32 {
    if focused_is_second {
        if ratio < ONE_THIRD_RATIO {
            ratio
        } else {
            ONE_THIRD_RATIO
        }
    } else {
        if ratio > TWO_THIRDS_RATIO {
            ratio
        } else {
            TWO_THIRDS_RATIO
        }
    }
}

pub open spec fn spec_chosen_ratio(rule: RatioRule, ratio: u32, focused_is_second: bool) -> u32 {
    match rule {
        RatioRule::Expand => spec_expanded_ratio(ratio, focused_is_second),
        RatioRule::Balance => HALF_RATIO,
    }
}

/// The ratio that expanding gives the split holding the focused pane.
pub fn expanded_ratio(ratio: u32, focused_is_second: bool) -> (r: u32)
    ensures
        r == spec_expanded_ratio(ratio, focused_is_second),
{
    if focused_is_second {
        if ratio < ONE_THIRD_RATIO {
            ratio
        } else {
            ONE_THIRD_RATIO
        }
    } else {
        if ratio > TWO_THIRDS_RATIO {
            ratio
        } else {
            TWO_THIRDS_RATIO
        }
    }
}

/// The ratio a rule gives the split holding the focused pane.
pub fn chosen_ratio(rule: RatioRule, ratio: u32, focused_is_second: bool) -> (r: u32)
    ensures
        r == spec_chosen_ratio(rule, ratio, focused_is_second),
{
    match rule {
        RatioRule::Expand => expanded_ratio(ratio, focused_is_second),
        RatioRule::Balance => HALF_RATIO,
    }
}

/// A change of one split's ratio.
#[derive(Debug)]
pub struct RatioChange {
    pub split_path: Vec<bool>,
    pub before_ratio: u32,
    pub after_ratio: u32,
}

/// The ratio of the split at `path`.
pub open spec fn ratio_at(root: LayoutTree, path: Seq<bool>) -> Option<u32> {
    match root.at_path(path) {
        Some(LayoutTree::Split { ratio, .. }) => Some(ratio),
        _ => None,
    }
}

impl RatioChange {
    /// Whether the change is too small to be worth making: under a
    /// ten-thousandth of the split.
    pub open spec fn spec_is_negligible(&self) -> bool {
        (if self.before_ratio >= self.after_ratio {
            self.before_ratio - self.after_ratio
        } else {
            self.after_ratio - self.before_ratio
        }) < 100_000
    }

    pub fn is_negligible(&self) -> (r: bool)
        ensures
            r == self.spec_is_negligible(),
    {
        let difference = if self.before_ratio >= self.after_ratio {
            self.before_ratio - self.after_ratio
        } else {
            self.after_ratio - self.before_ratio
        };
        difference < 100_000
    }
}

/// The ratio change a rule makes to the split directly holding the focused
/// pane, or why there is none.
pub fn ratio_change(layout: &LayoutDescription, rule: RatioRule) -> (r: Result<RatioChange, AppError>)
    ensures
        match layout.root@.path_to(layout.focused_pane_id@) {
            None => r is Err && r->Err_0.is_message(FOCUSED_NOT_IN_LAYOUT@),
            Some(p) => if p.len() == 0 {
                r is Err && r->Err_0.is_message(NO_SPLIT_TO_RESIZE@)
            } else {
                r matches Ok(c) && c.split_path@ == p.drop_last() && ratio_at(
                    layout.root@,
                    p.drop_last(),
                ) == Some(c.before_ratio) && c.after_ratio == spec_chosen_ratio(
                    rule,
                    c.before_ratio,
                    p.last(),
                )
            },
        },
{
    let pane_path = match layout.root.pane_path(layout.focused_pane_id.as_str()) {
        Some(path) => path,
        None => return Err(message(FOCUSED_NOT_IN_LAYOUT)),
    };
    if pane_path.len() == 0 {
        return Err(message(NO_SPLIT_TO_RESIZE));
    }
    let focused_is_second = pane_path[pane_path.len() - 1];
    let mut split_path = pane_path;
    split_path.pop();
    proof {
        lemma_path_reaches_pane(layout.root@, layout.focused_pane_id@);
        lemma_parent_is_split(layout.root@, layout.root@.path_to(layout.focused_pane_id@)->0);
    }
    let before_ratio = match layout.root.node_at_path(split_path.as_slice()) {
        Some(LayoutNode::Split { ratio, .. }) => *ratio,
        _ => return Err(message(FOCUSED_SPLIT_GONE)),
    };
    let after_ratio = chosen_ratio(rule, before_ratio, focused_is_second);
    Ok(RatioChange { split_path, before_ratio, after_ratio })
}

/// The layout with the ratio of the split around the focused pane chosen by `rule`.
pub open spec fn ratio_layout(root: LayoutTree, focused: Seq<char>, rule: RatioRule) -> Option<
    LayoutTree,
> {
    match root.closest_split_path(focused) {
        Some(p) => match root.at_path(p) {
            Some(LayoutTree::Split { direction, ratio, first, second }) => root.with_at_path(
                p,
                LayoutTree::Split {
                    direction,
                    ratio: spec_chosen_ratio(rule, ratio, root.path_to(focused)->0.last()),
                    first,
                    second,
                },
            ),
            _ => None,
        },
        None => None,
    }
}

/// What a ratio rule gives, when the focused pane sits in a split.
pub open spec fn ratio_target(root: LayoutTree, focused: Seq<char>, rule: RatioRule) -> Option<LayoutTree> {
    match root.path_to(focused) {
        Some(p) => if p.len() == 0 {
            None
        } else {
            ratio_layout(root, focused, rule)
        },
        None => None,
    }
}

/// The layout with the focused split's ratio chosen by `rule`.
pub fn target_for_ratio(layout: &LayoutDescription, rule: RatioRule) -> (r: Result<
    LayoutNode,
    AppError,
>)
    ensures
        match layout.root@.path_to(layout.focused_pane_id@) {
            None => r is Err && r->Err_0.is_message(FOCUSED_NOT_IN_LAYOUT@),
            Some(p) => if p.len() == 0 {
                r is Err && r->Err_0.is_message(NO_SPLIT_TO_RESIZE@)
            } else {
                ratio_layout(layout.root@, layout.focused_pane_id@, rule) matches Some(t) && r is Ok
                    && r->Ok_0@ == t
            },
        },
{
    let change = match ratio_change(layout, rule) {
        Ok(change) => change,
        Err(e) => return Err(e),
    };
    let split = match layout.root.node_at_path(change.split_path.as_slice()) {
        Some(node) => node,
        None => return Err(message(FOCUSED_SPLIT_GONE)),
    };
    let replacement = match split {
        LayoutNode::Split { direction, first, second, .. } => LayoutNode::split(
            *direction,
            change.after_ratio,
            first.duplicate(),
            second.duplicate(),
        ),
        LayoutNode::Pane { .. } => return Err(message(FOCUSED_SPLIT_GONE)),
    };
    proof {
        crate::layout::lemma_reachable_path_replaceable(
            layout.root@,
            change.split_path@,
            replacement@,
        );
    }
    layout.root.with_node_at_path(change.split_path.as_slice(), replacement)
}

/// The layout with the focused pane's split expanded toward it.
pub fn target_for_expand(layout: &LayoutDescription) -> (r: Result<LayoutNode, AppError>)
    ensures
        match layout.root@.path_to(layout.focused_pane_id@) {
            None => r is Err && r->Err_0.is_message(FOCUSED_NOT_IN_LAYOUT@),
            Some(p) => if p.len() == 0 {
                r is Err && r->Err_0.is_message(NO_SPLIT_TO_RESIZE@)
            } else {
                ratio_layout(layout.root@, layout.focused_pane_id@, RatioRule::Expand) matches Some(
                    t,
                ) && r is Ok && r->Ok_0@ == t
            },
        },
        match ratio_target(layout.root@, layout.focused_pane_id@, RatioRule::Expand) {
            Some(t) => r is Ok && r->Ok_0@ == t,
            None => r is Err,
        },
{
    target_for_ratio(layout, RatioRule::Expand)
}

/// The layout with the focused pane's split shared evenly.
pub fn target_for_balance(layout: &LayoutDescription) -> (r: Result<LayoutNode, AppError>)
    ensures
        match layout.root@.path_to(layout.focused_pane_id@) {
            None => r is Err && r->Err_0.is_message(FOCUSED_NOT_IN_LAYOUT@),
            Some(p) => if p.len() == 0 {
                r is Err && r->Err_0.is_message(NO_SPLIT_TO_RESIZE@)
            } else {
                ratio_layout(layout.root@, layout.focused_pane_id@, RatioRule::Balance) matches Some(
                    t,
                ) && r is Ok && r->Ok_0@ == t
            },
        },
        match ratio_target(layout.root@, layout.focused_pane_id@, RatioRule::Balance) {
            Some(t) => r is Ok && r->Ok_0@ == t,
            None => r is Err,
        },
{
    target_for_ratio(layout, RatioRule::Balance)
}

/// Whether Arrange may change the layout: the tab is not zoomed and holds two
/// to four panes.
pub fn validate_mutation(layout: &LayoutDescription) -> (r: Result<(), AppError>)
    ensures
        if layout.zoomed {
            r is Err && r->Err_0.is_message(UNZOOM_FIRST@)
        } else {
            match layout.root@.pane_ids() {
                None => r is Err && r->Err_0.is_message(MISSING_PANE_ID@),
                Some(ids) => if 2 <= ids.len() <= 4 {
                    r is Ok
                } else {
                    r is Err && r->Err_0.is_message(WORKS_WITH_TWO_TO_FOUR@)
                },
            }
        },
{
    if layout.zoomed {
        return Err(message(UNZOOM_FIRST));
    }
    let count = match layout.root.pane_count() {
        Ok(n) => n,
        Err(e) => return Err(e),
    };
    if count < 2 || count > 4 {
        return Err(message(WORKS_WITH_TWO_TO_FOUR));
    }
    Ok(())
}

/// Whether `id` is among `ids`.
pub fn holds_id(ids: &Vec<String>, id: &str) -> (r: bool)
    ensures
        r == ids.deep_view().contains(id@),
{
    for i in 0..ids.len()
        invariant
            forall|j: int| 0 <= j < i ==> ids.deep_view()[j] != id@,
    {
        if same_text(ids[i].as_str(), id) {
            assert(ids.deep_view()[i as int] == id@);
            return true;
        }
    }
    false
}

/// Whether every entry of `ids` is among `others`.
fn all_held(ids: &Vec<String>, others: &Vec<String>) -> (r: bool)
    ensures
        r == (forall|id: Seq<char>| ids.deep_view().contains(id) ==> others.deep_view().contains(id)),
{
    for i in 0..ids.len()
        invariant
            forall|j: int| 0 <= j < i ==> others.deep_view().contains(#[trigger] ids.deep_view()[j]),
    {
        if !holds_id(others, ids[i].as_str()) {
            assert(ids.deep_view().contains(ids.deep_view()[i as int]));
            return false;
        }
    }
    true
}

/// Both sequences hold the same IDs, whatever their order and repetitions.
pub open spec fn same_id_set(a: Seq<Seq<char>>, b: Seq<Seq<char>>) -> bool {
    forall|id: Seq<char>| a.contains(id) <==> b.contains(id)
}

/// Whether the target holds the same panes as the current layout.
pub fn validate_same_panes(current: &LayoutNode, target: &LayoutNode) -> (r: Result<(), AppError>)
    ensures
        match (current@.pane_ids(), target@.pane_ids()) {
            (Some(a), Some(b)) => if same_id_set(a, b) {
                r is Ok
            } else {
                r is Err && r->Err_0.is_message(NOT_SAME_PANES@)
            },
            _ => r is Err && r->Err_0.is_message(MISSING_PANE_ID@),
        },
{
    let current_ids = match current.pane_ids() {
        Ok(ids) => ids,
        Err(e) => return Err(e),
    };
    let target_ids = match target.pane_ids() {
        Ok(ids) => ids,
        Err(e) => return Err(e),
    };
    if all_held(&current_ids, &target_ids) && all_held(&target_ids, &current_ids) {
        Ok(())
    } else {
        Err(message(NOT_SAME_PANES))
    }
}


/// One move that rebuilds a split: put `pane_id` beside `target_pane_id`.
pub struct StepInfo {
    pub pane_id: Seq<char>,
    pub target_pane_id: Seq<char>,
    pub direction: SplitDirection,
    pub ratio: u32,
}

/// The moves that build the tree from its first pane: for each split, the
/// first pane of its second child goes beside the first pane of its first
/// child, splits in pre-order.
pub open spec fn steps_of(t: LayoutTree) -> Option<Seq<StepInfo>>
    decreases t,
{
    match t {
        LayoutTree::Pane(_) => Some(Seq::empty()),
        LayoutTree::Split { direction, ratio, first, second } => match (
            first.first_pane_id(),
            second.first_pane_id(),
            steps_of(*first),
            steps_of(*second),
        ) {
            (Some(a), Some(b), Some(x), Some(y)) => Some(
                seq![StepInfo { pane_id: b, target_pane_id: a, direction, ratio }] + x + y,
            ),
            _ => None,
        },
    }
}

/// A move of `pane_id` into a split beside `target_pane_id`.
#[derive(Debug)]
pub struct InsertionStep {
    pub pane_id: String,
    pub target_pane_id: String,
    pub direction: SplitDirection,
    pub ratio: u32,
}

impl View for InsertionStep {
    type V = StepInfo;

    open spec fn view(&self) -> StepInfo {
        StepInfo {
            pane_id: self.pane_id@,
            target_pane_id: self.target_pane_id@,
            direction: self.direction,
            ratio: self.ratio,
        }
    }
}

pub open spec fn steps_view(steps: Seq<InsertionStep>) -> Seq<StepInfo> {
    steps.map_values(|s: InsertionStep| s@)
}

/// The moves that rebuild `node` pane by pane.
pub fn insertion_steps(node: &LayoutNode) -> (r: Result<Vec<InsertionStep>, AppError>)
    ensures
        match steps_of(node@) {
            Some(steps) => r is Ok && steps_view(r->Ok_0@) == steps,
            None => r is Err && r->Err_0.is_message(MISSING_PANE_ID@),
        },
    decreases node,
{
    match node {
        LayoutNode::Pane { .. } => {
            let steps: Vec<InsertionStep> = Vec::new();
            assert(steps_view(steps@) =~= Seq::empty());
            Ok(steps)
        },
        LayoutNode::Split { direction, ratio, first, second } => {
            let first_pane_id = match first.first_pane_id() {
                Ok(id) => id,
                Err(e) => return Err(e),
            };
            let second_pane_id = match second.first_pane_id() {
                Ok(id) => id,
                Err(e) => return Err(e),
            };
            let step = InsertionStep {
                pane_id: second_pane_id,
                target_pane_id: first_pane_id,
                direction: *direction,
                ratio: *ratio,
            };
            let mut first_steps = match insertion_steps(first) {
                Ok(steps) => steps,
                Err(e) => return Err(e),
            };
            let mut second_steps = match insertion_steps(second) {
                Ok(steps) => steps,
                Err(e) => return Err(e),
            };
            let ghost x = first_steps@;
            let ghost y = second_steps@;
            let mut steps = vec![step];
            let ghost head = steps@;
            steps.append(&mut first_steps);
            steps.append(&mut second_steps);
            assert(steps@ =~= head + x + y);
            assert(steps_view(steps@) =~= steps_view(head) + steps_view(x) + steps_view(y));
            Ok(steps)
        },
    }
}

/// A change Herdr can make in one native request.
#[derive(Debug)]
pub enum FastMutation {
    Swap { source: String, target: String },
}

/// Swapping `a` and `b` in `current` gives the layout `goal`.
pub open spec fn swap_gives(current: LayoutTree, a: Seq<char>, b: Seq<char>, goal: ComparableTree) -> bool {
    current.exchanged(a, b) matches Some(u) && u.normalized() == Some(goal)
}

/// The pair of positions `(i, j)` comes before `(a, b)`, row by row.
pub open spec fn pair_before(i: int, j: int, a: int, b: int) -> bool {
    i < a || (i == a && j < b)
}

/// No pair of positions before `(a, b)` holds a repeated ID or a swap giving `goal`.
pub open spec fn no_earlier_swap(
    current: LayoutTree,
    ids: Seq<Seq<char>>,
    goal: ComparableTree,
    a: int,
    b: int,
) -> bool {
    forall|i: int, j: int|
        #![trigger ids[i], ids[j]]
        0 <= i < j < ids.len() && pair_before(i, j, a, b) ==> ids[i] != ids[j] && !swap_gives(
            current,
            ids[i],
            ids[j],
            goal,
        )
}

/// Listed IDs can be found.
pub proof fn lemma_listed_id_found(t: LayoutTree, k: int)
    requires
        t.pane_ids() is Some,
        0 <= k < t.pane_ids()->0.len(),
    ensures
        t.path_to(t.pane_ids()->0[k]) is Some,
    decreases t,
{
    match t {
        LayoutTree::Pane(_) => {},
        LayoutTree::Split { first, second, .. } => {
            let x = first.pane_ids()->0;
            let y = second.pane_ids()->0;
            if k < x.len() {
                lemma_listed_id_found(*first, k);
                assert(t.pane_ids()->0[k] == x[k]);
            } else {
                lemma_listed_id_found(*second, k - x.len());
                assert(t.pane_ids()->0[k] == y[k - x.len()]);
                if first.path_to(y[k - x.len()]) is Some {
                }
            }
        },
    }
}

/// A tree whose panes all have IDs can be exchanged and compared.
pub proof fn lemma_exchanged_normalizes(t: LayoutTree, a: Seq<char>, b: Seq<char>)
    requires
        t.pane_ids() is Some,
    ensures
        t.exchanged(a, b) matches Some(u) && u.normalized() is Some,
    decreases t,
{
    lemma_exchange_needs_ids(t, a, b);
    match t {
        LayoutTree::Pane(_) => {},
        LayoutTree::Split { first, second, .. } => {
            lemma_exchanged_normalizes(*first, a, b);
            lemma_exchanged_normalizes(*second, a, b);
        },
    }
}

/// The first pair of panes, in reading order, whose swap turns `current`
/// into `target`.
pub fn detect_fast_mutation(current: &LayoutNode, target: &LayoutNode) -> (r: Result<
    Option<FastMutation>,
    AppError,
>)
    ensures
        match (current@.pane_ids(), target@.normalized()) {
            (Some(ids), Some(goal)) => match r {
                Ok(Some(FastMutation::Swap { source, target })) => exists|i: int, j: int|
                    0 <= i < j < ids.len() && ids[i] == source@ && ids[j] == target@ && ids[i]
                        != ids[j] && swap_gives(current@, ids[i], ids[j], goal) && no_earlier_swap(
                        current@,
                        ids,
                        goal,
                        i,
                        j,
                    ),
                Ok(None) => no_earlier_swap(current@, ids, goal, ids.len() as int, 0),
                Err(e) => e.is_message(SAME_SWAP_PANES@) && exists|i: int, j: int|
                    0 <= i < j < ids.len() && ids[i] == ids[j] && no_earlier_swap(
                        current@,
                        ids,
                        goal,
                        i,
                        j,
                    ),
            },
            _ => r is Err && r->Err_0.is_message(MISSING_PANE_ID@),
        },
{
    let pane_ids = match current.pane_ids() {
        Ok(ids) => ids,
        Err(e) => return Err(e),
    };
    let goal = match target.normalized() {
        Ok(n) => n,
        Err(e) => return Err(e),
    };
    let ghost ids = pane_ids.deep_view();
    let count = pane_ids.len();
    let mut index: usize = 0;
    while index < count
        invariant
            count == ids.len(),
            ids == pane_ids.deep_view(),
            current@.pane_ids() == Some(ids),
            target@.normalized() == Some(goal@),
            index <= count,
            no_earlier_swap(current@, ids, goal@, index as int, 0),
        decreases count - index,
    {
        let mut other: usize = index + 1;
        assert(no_earlier_swap(current@, ids, goal@, index as int, other as int)) by {
            assert forall|i: int, j: int|
                #![trigger ids[i], ids[j]]
                0 <= i < j < ids.len() && pair_before(i, j, index as int, other as int) implies ids[i]
                != ids[j] && !swap_gives(current@, ids[i], ids[j], goal@) by {
                assert(pair_before(i, j, index as int, 0));
            }
        }
        while other < count
            invariant
                count == ids.len(),
                ids == pane_ids.deep_view(),
                current@.pane_ids() == Some(ids),
                target@.normalized() == Some(goal@),
                index < count,
                index < other <= count,
                no_earlier_swap(current@, ids, goal@, index as int, other as int),
            decreases count - other,
        {
            proof {
                lemma_listed_id_found(current@, index as int);
                lemma_listed_id_found(current@, other as int);
                lemma_exchanged_normalizes(current@, ids[index as int], ids[other as int]);
            }
            let swapped = match current.swap_panes(
                pane_ids[index].as_str(),
                pane_ids[other].as_str(),
            ) {
                Ok(node) => node,
                Err(e) => {
                    assert(ids[index as int] == ids[other as int]);
                    return Err(e);
                },
            };
            let normal = match swapped.normalized() {
                Ok(n) => n,
                Err(e) => return Err(e),
            };
            if normal.same_as(&goal) {
                return Ok(
                    Some(
                        FastMutation::Swap {
                            source: pane_ids[index].clone(),
                            target: pane_ids[other].clone(),
                        },
                    ),
                );
            }
            assert(!swap_gives(current@, ids[index as int], ids[other as int], goal@));
            assert(ids[index as int] != ids[other as int]);
            assert(no_earlier_swap(current@, ids, goal@, index as int, other + 1)) by {
                assert forall|i: int, j: int|
                    #![trigger ids[i], ids[j]]
                    0 <= i < j < ids.len() && pair_before(i, j, index as int, other + 1) implies ids[i]
                    != ids[j] && !swap_gives(current@, ids[i], ids[j], goal@) by {
                    if !(i == index && j == other) {
                        assert(pair_before(i, j, index as int, other as int));
                    }
                }
            }
            other = other + 1;
        }
        assert(no_earlier_swap(current@, ids, goal@, index + 1, 0)) by {
            assert forall|i: int, j: int|
                #![trigger ids[i], ids[j]]
                0 <= i < j < ids.len() && pair_before(i, j, index + 1, 0) implies ids[i] != ids[j]
                && !swap_gives(current@, ids[i], ids[j], goal@) by {
                assert(pair_before(i, j, index as int, count as int));
            }
        }
        index = index + 1;
    }
    Ok(None)
}


/// What undoing does, given the current layout and the remembered change.
pub enum UndoOutcome {
    /// Nothing was remembered.
    Nothing,
    /// The layout changed since: the record is stale and is dropped.
    Discard,
    /// The layout is as the change left it: the earlier tree comes back.
    Restore(LayoutTree),
}

/// The outcome of undoing on `current`, given the remembered look after the
/// change and the tree before it; `None` when some pane has no ID.
pub open spec fn undo_outcome(current: LayoutTree, record: Option<(ComparableTree, LayoutTree)>) -> Option<
    UndoOutcome,
> {
    match record {
        None => Some(UndoOutcome::Nothing),
        Some((after, before)) => match current.normalized() {
            None => None,
            Some(now) => if now == after {
                Some(UndoOutcome::Restore(before))
            } else {
                Some(UndoOutcome::Discard)
            },
        },
    }
}

/// What a stored record asks for.
pub open spec fn record_model(record: Option<UndoRecord>) -> Option<(ComparableTree, LayoutTree)> {
    match record {
        Some(r) => Some((r.after@, r.before@)),
        None => None,
    }
}

/// The step undo takes.
#[derive(Debug)]
pub enum UndoPlan {
    Nothing,
    Discard,
    Restore(LayoutNode),
}

/// The step undo takes on `current` with the record stored for its tab.
pub fn undo_plan(current: &LayoutDescription, record: Option<UndoRecord>) -> (r: Result<
    UndoPlan,
    AppError,
>)
    ensures
        match undo_outcome(current.root@, record_model(record)) {
            Some(UndoOutcome::Nothing) => r matches Ok(UndoPlan::Nothing),
            Some(UndoOutcome::Discard) => r matches Ok(UndoPlan::Discard),
            Some(UndoOutcome::Restore(t)) => r matches Ok(UndoPlan::Restore(n)) && n@ == t,
            None => r is Err && r->Err_0.is_message(MISSING_PANE_ID@),
        },
{
    let record = match record {
        Some(record) => record,
        None => return Ok(UndoPlan::Nothing),
    };
    let now = match current.root.normalized() {
        Ok(n) => n,
        Err(e) => return Err(e),
    };
    if !now.same_as(&record.after) {
        return Ok(UndoPlan::Discard);
    }
    Ok(UndoPlan::Restore(record.before))
}

/// The tree undo would bring back, if the stored record still applies.
pub fn undo_target_for(layout: &LayoutDescription, record: Option<UndoRecord>) -> (r: Result<
    Option<LayoutNode>,
    AppError,
>)
    ensures
        match undo_outcome(layout.root@, record_model(record)) {
            Some(UndoOutcome::Restore(t)) => r matches Ok(Some(n)) && n@ == t,
            Some(_) => r matches Ok(None),
            None => r is Err && r->Err_0.is_message(MISSING_PANE_ID@),
        },
{
    match undo_plan(layout, record) {
        Ok(UndoPlan::Restore(node)) => Ok(Some(node)),
        Ok(_) => Ok(None),
        Err(e) => Err(e),
    }
}

/// The record kept after changing `before` into `after`.
pub fn undo_record(before: &LayoutDescription, after: &LayoutDescription) -> (r: Result<
    UndoRecord,
    AppError,
>)
    ensures
        match after.root@.normalized() {
            Some(n) => r matches Ok(rec) && rec.after@ == n && rec.before@ == before.root@
                && rec.workspace_id@ == before.workspace_id@ && rec.tab_id@ == before.tab_id@
                && rec.focused_pane_id@ == before.focused_pane_id@,
            None => r is Err && r->Err_0.is_message(MISSING_PANE_ID@),
        },
{
    let after_normalized = match after.root.normalized() {
        Ok(n) => n,
        Err(e) => return Err(e),
    };
    Ok(
        UndoRecord {
            workspace_id: before.workspace_id.clone(),
            tab_id: before.tab_id.clone(),
            focused_pane_id: before.focused_pane_id.clone(),
            before: before.root.duplicate(),
            after: after_normalized,
        },
    )
}

/// Undoing right after a change brings back the tree from before it: the
/// record of a change from `before` to `after` restores `before` as long as
/// the layout still looks like `after`.
pub proof fn law_undo_restores_before(before: LayoutTree, after: LayoutTree, current: LayoutTree)
    requires
        after.normalized() is Some,
        current.normalized() == after.normalized(),
    ensures
        undo_outcome(current, Some((after.normalized()->0, before))) == Some(
            UndoOutcome::Restore(before),
        ),
{
}

/// A record whose layout has changed since is dropped, never applied.
pub proof fn law_stale_undo_is_dropped(before: LayoutTree, after: ComparableTree, current: LayoutTree)
    requires
        current.normalized() is Some,
        current.normalized() != Some(after),
    ensures
        undo_outcome(current, Some((after, before))) == Some(UndoOutcome::Discard),
{
}

/// Herdr's answer to a rearrange request says that it cannot rearrange, so a
/// slower rebuild must be used instead.
pub open spec fn spec_rearrange_unsupported(code: Seq<char>, message: Seq<char>) -> bool {
    (code == "invalid_request"@ && contains_text(message, "layout.rearrange"@)) || code
        == "method_not_found"@
}

/// Whether Herdr's error says that it cannot rearrange layouts.
pub fn rearrange_unsupported(code: &str, message: &str) -> (r: bool)
    ensures
        r == spec_rearrange_unsupported(code@, message@),
{
    (same_text(code, "invalid_request") && text_contains(message, "layout.rearrange"))
        || same_text(code, "method_not_found")
}


/// The grid is offered exactly when the tab holds four panes.
pub proof fn law_grid_only_for_four(pane_count: nat)
    ensures
        presets_for(pane_count).contains(LayoutPreset::Grid) == (pane_count == 4),
{
    if pane_count == 4 {
        assert(presets_for(pane_count)[2] == LayoutPreset::Grid);
    } else {
        assert forall|k: int| 0 <= k < presets_for(pane_count).len() implies presets_for(
            pane_count,
        )[k] != LayoutPreset::Grid by {}
    }
}

/// An equal sequence keeps its panes in the given order.
pub proof fn law_even_sequence_keeps_order(ids: Seq<Seq<char>>, direction: SplitDirection)
    requires
        ids.len() > 0,
    ensures
        even_sequence(ids, direction) matches Some(t) && t.pane_ids() == Some(ids),
    decreases ids.len(),
{
    assert(plain_pane(ids[0]).pane_ids() == Some(seq![ids[0]]));
    if ids.len() == 1 {
        assert(seq![ids[0]] =~= ids);
    } else {
        law_even_sequence_keeps_order(ids.drop_first(), direction);
        let rest = even_sequence(ids.drop_first(), direction)->0;
        let t = split_of(direction, even_share(ids.len()), plain_pane(ids[0]), rest);
        assert(t.pane_ids() == Some(seq![ids[0]] + ids.drop_first()));
        assert(seq![ids[0]] + ids.drop_first() =~= ids);
    }
}

/// What `others` keeps.
pub proof fn lemma_others_contains(ids: Seq<Seq<char>>, focused: Seq<char>, y: Seq<char>)
    ensures
        others(ids, focused).contains(y) == (ids.contains(y) && y != focused),
    decreases ids.len(),
{
    if ids.len() > 0 {
        lemma_others_contains(ids.drop_last(), focused, y);
        let tail: Seq<Seq<char>> = if ids.last() == focused {
            Seq::empty()
        } else {
            seq![ids.last()]
        };
        lemma_joined_contains(others(ids.drop_last(), focused), tail, y);
        lemma_joined_contains(ids.drop_last(), seq![ids.last()], y);
        assert(ids.drop_last() + seq![ids.last()] =~= ids);
        if tail.contains(y) {
            assert(tail[0] == y);
        }
        if y == ids.last() && y != focused {
            assert(tail[0] == y);
        }
        if seq![ids.last()].contains(y) {
            assert(seq![ids.last()][0] == y);
        }
        if y == ids.last() {
            assert(seq![ids.last()][0] == y);
        }
    }
}

/// The reading order a preset produces: the panes in order for equal
/// presets; the focused pane first (left, top) or last (right, bottom) with
/// the others in order for focused presets. Focused presets give the focused
/// pane two thirds of the space and share the rest evenly.
pub proof fn law_preset_reading_order(ids: Seq<Seq<char>>, focused: Seq<char>, preset: LayoutPreset)
    requires
        2 <= ids.len() <= 4,
        preset is Grid ==> ids.len() == 4,
        preset_layout(ids, focused, preset) is Some,
    ensures
        (preset is Left || preset is Top) ==> {
            &&& preset_layout(ids, focused, preset)->0.pane_ids() == Some(
                seq![focused] + others(ids, focused),
            )
            &&& preset_layout(ids, focused, preset)->0 matches LayoutTree::Split { ratio, first, .. }
            &&& ratio == TWO_THIRDS_RATIO
            &&& *first == plain_pane(focused)
        },
        (preset is Right || preset is Bottom) ==> {
            &&& preset_layout(ids, focused, preset)->0.pane_ids() == Some(
                others(ids, focused) + seq![focused],
            )
            &&& preset_layout(ids, focused, preset)->0 matches LayoutTree::Split { ratio, second, .. }
            &&& ratio == ONE_THIRD_RATIO
            &&& *second == plain_pane(focused)
        },
        preset.spec_is_equal() ==> preset_layout(ids, focused, preset)->0.pane_ids() == Some(ids),
{
    let rest = others(ids, focused);
    assert(plain_pane(focused).pane_ids() == Some(seq![focused]));
    match preset {
        LayoutPreset::Columns => law_even_sequence_keeps_order(ids, SplitDirection::Right),
        LayoutPreset::Rows => law_even_sequence_keeps_order(ids, SplitDirection::Down),
        LayoutPreset::Grid => {
            assert(plain_pane(ids[0]).pane_ids() == Some(seq![ids[0]]));
            assert(plain_pane(ids[1]).pane_ids() == Some(seq![ids[1]]));
            assert(plain_pane(ids[2]).pane_ids() == Some(seq![ids[2]]));
            assert(plain_pane(ids[3]).pane_ids() == Some(seq![ids[3]]));
            let top = split_of(SplitDirection::Right, HALF_RATIO, plain_pane(ids[0]), plain_pane(ids[1]));
            let bottom = split_of(SplitDirection::Right, HALF_RATIO, plain_pane(ids[2]), plain_pane(ids[3]));
            assert(top.pane_ids() == Some(seq![ids[0]] + seq![ids[1]]));
            assert(bottom.pane_ids() == Some(seq![ids[2]] + seq![ids[3]]));
            assert(seq![ids[0]] + seq![ids[1]] + (seq![ids[2]] + seq![ids[3]]) =~= ids);
        },
        LayoutPreset::Left | LayoutPreset::Right => {
            law_even_sequence_keeps_order(rest, SplitDirection::Down);
            let e = even_sequence(rest, SplitDirection::Down)->0;
            assert(split_of(SplitDirection::Right, TWO_THIRDS_RATIO, plain_pane(focused), e).pane_ids()
                == Some(seq![focused] + rest));
            assert(split_of(SplitDirection::Right, ONE_THIRD_RATIO, e, plain_pane(focused)).pane_ids()
                == Some(rest + seq![focused]));
        },
        LayoutPreset::Top | LayoutPreset::Bottom => {
            law_even_sequence_keeps_order(rest, SplitDirection::Right);
            let e = even_sequence(rest, SplitDirection::Right)->0;
            assert(split_of(SplitDirection::Down, TWO_THIRDS_RATIO, plain_pane(focused), e).pane_ids()
                == Some(seq![focused] + rest));
            assert(split_of(SplitDirection::Down, ONE_THIRD_RATIO, e, plain_pane(focused)).pane_ids()
                == Some(rest + seq![focused]));
        },
    }
}

/// Every preset keeps the set of panes of a layout whose focused pane is in it.
pub proof fn law_preset_keeps_panes(
    ids: Seq<Seq<char>>,
    focused: Seq<char>,
    preset: LayoutPreset,
)
    requires
        2 <= ids.len() <= 4,
        preset is Grid ==> ids.len() == 4,
        ids.contains(focused),
        preset_layout(ids, focused, preset) is Some,
    ensures
        same_id_set(ids, preset_layout(ids, focused, preset)->0.pane_ids()->0),
{
    law_preset_reading_order(ids, focused, preset);
    let rest = others(ids, focused);
    assert forall|y: Seq<char>| ids.contains(y) == preset_layout(
        ids,
        focused,
        preset,
    )->0.pane_ids()->0.contains(y) by {
        lemma_others_contains(ids, focused, y);
        lemma_joined_contains(seq![focused], rest, y);
        lemma_joined_contains(rest, seq![focused], y);
        if y == focused {
            assert(seq![focused][0] == y);
        }
        if seq![focused].contains(y) {
            assert(seq![focused][0] == y);
        }
    }
}

/// Rotating the split that directly holds the focused pane twice, as two
/// calls of `target_for_rotate` on the layout and then on its result do,
/// gives back the original tree.
pub proof fn law_rotate_twice_restores(root: LayoutTree, focused: Seq<char>)
    requires
        rotated_layout(root, focused) is Some,
    ensures
        rotated_layout(rotated_layout(root, focused)->0, focused) == Some(root),
{
    let p = root.closest_split_path(focused)->0;
    let s = root.at_path(p)->0;
    let r = rotated_split(s);
    lemma_closest_split_is_split(root, focused, r);
    let u = root.with_at_path(p, r)->0;
    lemma_replace_keeps_paths(root, p, r, focused);
    law_read_after_replace(root, p, r);
    assert(rotated_split(r) == s);
    lemma_write_back(root, p, r);
}

/// Rotating keeps the panes and their reading order.
pub proof fn law_rotate_keeps_order(root: LayoutTree, focused: Seq<char>)
    requires
        rotated_layout(root, focused) is Some,
    ensures
        rotated_layout(root, focused)->0.pane_ids() == root.pane_ids(),
{
    let p = root.closest_split_path(focused)->0;
    let s = root.at_path(p)->0;
    lemma_closest_split_is_split(root, focused, rotated_split(s));
    lemma_replace_keeps_ids(root, p, rotated_split(s));
}

/// Replacing a node by one listing the same IDs keeps the tree's IDs.
pub proof fn lemma_replace_keeps_ids(t: LayoutTree, path: Seq<bool>, r: LayoutTree)
    requires
        t.at_path(path) matches Some(s) && s.pane_ids() == r.pane_ids(),
    ensures
        t.with_at_path(path, r) matches Some(u) && u.pane_ids() == t.pane_ids(),
    decreases path.len(),
{
    crate::layout::lemma_reachable_path_replaceable(t, path, r);
    if path.len() > 0 {
        match t {
            LayoutTree::Pane(_) => {},
            LayoutTree::Split { first, second, .. } => {
                if path[0] {
                    lemma_replace_keeps_ids(*second, path.drop_first(), r);
                } else {
                    lemma_replace_keeps_ids(*first, path.drop_first(), r);
                }
            },
        }
    }
}

/// Expanding or balancing a second time changes nothing more.
pub proof fn law_ratio_rule_settles(root: LayoutTree, focused: Seq<char>, rule: RatioRule)
    requires
        ratio_layout(root, focused, rule) is Some,
    ensures
        ratio_layout(ratio_layout(root, focused, rule)->0, focused, rule) == ratio_layout(
            root,
            focused,
            rule,
        ),
{
    let p = root.closest_split_path(focused)->0;
    let s = root.at_path(p)->0;
    let last = root.path_to(focused)->0.last();
    let r = match s {
        LayoutTree::Split { direction, ratio, first, second } => LayoutTree::Split {
            direction,
            ratio: spec_chosen_ratio(rule, ratio, last),
            first,
            second,
        },
        LayoutTree::Pane(_) => s,
    };
    lemma_closest_split_is_split(root, focused, r);
    lemma_replace_keeps_paths(root, p, r, focused);
    law_read_after_replace(root, p, r);
    let r2 = match r {
        LayoutTree::Split { direction, ratio, first, second } => LayoutTree::Split {
            direction,
            ratio: spec_chosen_ratio(rule, ratio, last),
            first,
            second,
        },
        LayoutTree::Pane(_) => r,
    };
    assert(r2 == r);
    lemma_write_over_write(root, p, r, r2);
}

/// Rebuilding a tree pane by pane takes one move per split: one fewer than
/// its panes.
pub proof fn law_one_step_per_split(t: LayoutTree)
    requires
        t.pane_ids() is Some,
    ensures
        steps_of(t) matches Some(steps) && steps.len() + 1 == t.pane_ids()->0.len(),
    decreases t,
{
    match t {
        LayoutTree::Pane(_) => {},
        LayoutTree::Split { first, second, .. } => {
            law_one_step_per_split(*first);
            law_one_step_per_split(*second);
            lemma_ids_give_first(*first);
            lemma_ids_give_first(*second);
        },
    }
}

/// A tree whose panes all have IDs has a first pane ID.
pub proof fn lemma_ids_give_first(t: LayoutTree)
    requires
        t.pane_ids() is Some,
    ensures
        t.first_pane_id() is Some,
    decreases t,
{
    match t {
        LayoutTree::Pane(_) => {},
        LayoutTree::Split { first, .. } => lemma_ids_give_first(*first),
    }
}

} // verus!

verus! {

/// Balancing, as `target_for_balance` does, is refused when the focused
/// pane is missing or stands alone. Otherwise it gives the split directly
/// holding the focused pane an even ratio, with its direction and children
/// kept; every node off the path to that split stays as it was; and
/// balancing the result again gives the same tree.
pub proof fn law_balance_settles(root: LayoutTree, focused: Seq<char>)
    ensures
        (ratio_target(root, focused, RatioRule::Balance) is None) == (root.path_to(focused) matches Some(
            p,
        ) ==> p.len() == 0),
        ratio_target(root, focused, RatioRule::Balance) matches Some(t) ==> {
            let q = root.path_to(focused)->0.drop_last();
            &&& root.closest_split_path(focused) == Some(q)
            &&& root.at_path(q) matches Some(LayoutTree::Split { direction, first, second, .. }) && t.at_path(q)
                == Some(LayoutTree::Split { direction, ratio: HALF_RATIO, first, second })
            &&& forall|other: Seq<bool>|
                crate::layout::paths_diverge(q, other) ==> #[trigger] t.at_path(other) == root.at_path(other)
            &&& ratio_target(t, focused, RatioRule::Balance) == Some(t)
        },
{
    if let Some(p) = root.path_to(focused) {
        if p.len() > 0 {
            let q = p.drop_last();
            let s = root.at_path(q)->0;
            let r = match s {
                LayoutTree::Split { direction, ratio, first, second } => LayoutTree::Split {
                    direction,
                    ratio: HALF_RATIO,
                    first,
                    second,
                },
                LayoutTree::Pane(_) => s,
            };
            lemma_closest_split_is_split(root, focused, r);
            assert(ratio_layout(root, focused, RatioRule::Balance) == root.with_at_path(q, r));
            law_replace_at_path(root, q, r);
            lemma_replace_keeps_paths(root, q, r, focused);
            law_ratio_rule_settles(root, focused, RatioRule::Balance);
        }
    }
}

} // verus!

verus! {

/// Whether every split of `t` divides its area along `direction`.
pub open spec fn splits_along(t: LayoutTree, direction: SplitDirection) -> bool
    decreases t,
{
    match t {
        LayoutTree::Pane(_) => true,
        LayoutTree::Split { direction: d, first, second, .. } => d == direction && splits_along(*first, direction)
            && splits_along(*second, direction),
    }
}

/// The axis of a split; `None` for a pane.
pub open spec fn direction_of(t: LayoutTree) -> Option<SplitDirection> {
    match t {
        LayoutTree::Split { direction, .. } => Some(direction),
        LayoutTree::Pane(_) => None,
    }
}

proof fn lemma_even_sequence_along(ids: Seq<Seq<char>>, direction: SplitDirection)
    ensures
        even_sequence(ids, direction) matches Some(t) ==> splits_along(t, direction),
    decreases ids.len(),
{
    if ids.len() > 1 {
        lemma_even_sequence_along(ids.drop_first(), direction);
        if let Some(rest) = even_sequence(ids.drop_first(), direction) {
            let t = split_of(direction, even_share(ids.len()), plain_pane(ids[0]), rest);
            assert(splits_along(plain_pane(ids[0]), direction));
            assert(splits_along(t, direction));
        }
    }
}

/// Expanding gives the focused pane at least two thirds of its split,
/// whatever the split's ratio was: the first child's share becomes at least
/// two thirds when the focused pane is first, at most one third when it is
/// second. A share already beyond that is left as it was.
pub proof fn law_expand_gives_two_thirds(ratio: u32, focused_is_second: bool)
    ensures
        !focused_is_second ==> spec_expanded_ratio(ratio, focused_is_second) >= TWO_THIRDS_RATIO,
        focused_is_second ==> spec_expanded_ratio(ratio, focused_is_second) <= ONE_THIRD_RATIO,
        !focused_is_second && ratio >= TWO_THIRDS_RATIO ==> spec_expanded_ratio(ratio, focused_is_second) == ratio,
        focused_is_second && ratio <= ONE_THIRD_RATIO ==> spec_expanded_ratio(ratio, focused_is_second) == ratio,
        spec_chosen_ratio(RatioRule::Expand, ratio, focused_is_second) == spec_expanded_ratio(ratio, focused_is_second),
{
}

/// Expanding, as `target_for_expand` does, is refused exactly when the
/// focused pane is missing or stands alone. Otherwise the split directly
/// holding the focused pane keeps its direction and children and gives the
/// focused pane at least two thirds: its ratio is at least two thirds when
/// the focused pane is its first child and at most one third when it is the
/// second; every node off the path to that split stays as it was.
pub proof fn law_expand_target(root: LayoutTree, focused: Seq<char>)
    ensures
        (ratio_target(root, focused, RatioRule::Expand) is None) == (root.path_to(focused) matches Some(
            p,
        ) ==> p.len() == 0),
        ratio_target(root, focused, RatioRule::Expand) matches Some(t) ==> {
            let p = root.path_to(focused)->0;
            let q = p.drop_last();
            &&& root.at_path(q) matches Some(LayoutTree::Split { direction, first, second, .. })
            &&& t.at_path(q) matches Some(LayoutTree::Split { direction: d, ratio, first: f, second: s })
            &&& d == direction && f == first && s == second
            &&& !p.last() ==> ratio >= TWO_THIRDS_RATIO
            &&& p.last() ==> ratio <= ONE_THIRD_RATIO
            &&& t.path_to(focused) == root.path_to(focused)
            &&& forall|other: Seq<bool>|
                crate::layout::paths_diverge(q, other) ==> #[trigger] t.at_path(other) == root.at_path(other)
        },
{
    if let Some(p) = root.path_to(focused) {
        if p.len() > 0 {
            let q = p.drop_last();
            let s = root.at_path(q)->0;
            let r = match s {
                LayoutTree::Split { direction, ratio, first, second } => LayoutTree::Split {
                    direction,
                    ratio: spec_chosen_ratio(RatioRule::Expand, ratio, p.last()),
                    first,
                    second,
                },
                LayoutTree::Pane(_) => s,
            };
            lemma_closest_split_is_split(root, focused, r);
            assert(ratio_layout(root, focused, RatioRule::Expand) == root.with_at_path(q, r));
            law_replace_at_path(root, q, r);
            lemma_replace_keeps_paths(root, q, r, focused);
            if let LayoutTree::Split { ratio, .. } = s {
                law_expand_gives_two_thirds(ratio, p.last());
            }
        }
    }
}

/// Rotating, as `target_for_rotate` does, turns the split directly holding
/// the focused pane to the other axis, whichever of its children holds the
/// focus, and keeps its ratio and children; every node off the path to that
/// split stays as it was, and the focused pane keeps its place.
pub proof fn law_rotate_turns_split(root: LayoutTree, focused: Seq<char>)
    ensures
        (rotated_layout(root, focused) is Some) == (root.path_to(focused) matches Some(p) && p.len() > 0),
        rotated_layout(root, focused) matches Some(t) ==> {
            let q = root.path_to(focused)->0.drop_last();
            &&& root.closest_split_path(focused) == Some(q)
            &&& root.at_path(q) matches Some(LayoutTree::Split { direction, ratio, first, second })
            &&& t.at_path(q) matches Some(LayoutTree::Split { direction: d, ratio: r, first: f, second: s })
            &&& d != direction && d == direction.spec_rotated()
            &&& r == ratio && f == first && s == second
            &&& t.path_to(focused) == root.path_to(focused)
            &&& forall|other: Seq<bool>|
                crate::layout::paths_diverge(q, other) ==> #[trigger] t.at_path(other) == root.at_path(other)
        },
{
    if let Some(p) = root.path_to(focused) {
        if p.len() > 0 {
            let q = p.drop_last();
            let s = root.at_path(q)->0;
            let r = rotated_split(s);
            lemma_closest_split_is_split(root, focused, r);
            law_replace_at_path(root, q, r);
            lemma_replace_keeps_paths(root, q, r, focused);
        }
    }
}

/// Each preset builds the arrangement its name promises: columns put every
/// pane side by side, rows stack them, the grid stacks two rows of two side
/// by side; Left and Right put the focused pane beside the others, which are
/// stacked, and Top and Bottom put it above or below the others, which stand
/// side by side; the focused pane comes first for Left and Top, last for
/// Right and Bottom, and its side of the outer split gets two thirds.
pub proof fn law_preset_axes(ids: Seq<Seq<char>>, focused: Seq<char>, preset: LayoutPreset)
    ensures
        preset_layout(ids, focused, preset) matches Some(t) ==> match preset {
            LayoutPreset::Columns => splits_along(t, SplitDirection::Right),
            LayoutPreset::Rows => splits_along(t, SplitDirection::Down),
            LayoutPreset::Grid => t matches LayoutTree::Split { direction, first, second, .. }
                && direction == SplitDirection::Down && direction_of(*first) == Some(SplitDirection::Right)
                && direction_of(*second) == Some(SplitDirection::Right),
            LayoutPreset::Left => t matches LayoutTree::Split { direction, ratio, first, second }
                && direction == SplitDirection::Right && ratio == TWO_THIRDS_RATIO && *first == plain_pane(
                focused,
            ) && splits_along(*second, SplitDirection::Down),
            LayoutPreset::Right => t matches LayoutTree::Split { direction, ratio, first, second }
                && direction == SplitDirection::Right && ratio == ONE_THIRD_RATIO && *second == plain_pane(
                focused,
            ) && splits_along(*first, SplitDirection::Down),
            LayoutPreset::Top => t matches LayoutTree::Split { direction, ratio, first, second }
                && direction == SplitDirection::Down && ratio == TWO_THIRDS_RATIO && *first == plain_pane(
                focused,
            ) && splits_along(*second, SplitDirection::Right),
            LayoutPreset::Bottom => t matches LayoutTree::Split { direction, ratio, first, second }
                && direction == SplitDirection::Down && ratio == ONE_THIRD_RATIO && *second == plain_pane(
                focused,
            ) && splits_along(*first, SplitDirection::Right),
        },
{
    let rest = others(ids, focused);
    lemma_even_sequence_along(ids, SplitDirection::Right);
    lemma_even_sequence_along(ids, SplitDirection::Down);
    lemma_even_sequence_along(rest, SplitDirection::Right);
    lemma_even_sequence_along(rest, SplitDirection::Down);
}

} // verus!

verus! {

/// The path that takes the second child `k` times.
pub open spec fn second_turns(k: nat) -> Seq<bool> {
    Seq::new(k, |i: int| true)
}

/// What an even sequence of `ids` along `direction` holds `k` turns down its
/// second children: the pane `ids[k]`, alone at the end, otherwise first in
/// a split along `direction` that gives it one share of the `n - k` panes
/// left.
pub open spec fn even_step_holds(node: Option<LayoutTree>, ids: Seq<Seq<char>>, k: int, direction: SplitDirection) -> bool {
    if k + 1 == ids.len() {
        node == Some(plain_pane(ids[k]))
    } else {
        node matches Some(LayoutTree::Split { direction: d, ratio, first, .. }) && d == direction && ratio == (
        RATIO_SCALE as nat / ((ids.len() - k) as nat)) as u32 && *first == plain_pane(ids[k])
    }
}

/// Columns and rows give each pane an equal share: the pane at place `k` of
/// `n` stands first in a split along the preset's axis whose first child
/// takes one `n - k`-th of what is left, the last pane fills the rest.
pub proof fn law_even_sequence_shares(ids: Seq<Seq<char>>, direction: SplitDirection, k: int)
    requires
        0 <= k < ids.len(),
    ensures
        even_sequence(ids, direction) matches Some(t) ==> even_step_holds(
            t.at_path(second_turns(k as nat)),
            ids,
            k,
            direction,
        ),
    decreases ids.len(),
{
    if let Some(t) = even_sequence(ids, direction) {
        assert(second_turns(0) =~= Seq::<bool>::empty());
        if k > 0 {
            let rest = ids.drop_first();
            law_even_sequence_shares(rest, direction, k - 1);
            assert(second_turns(k as nat).drop_first() =~= second_turns((k - 1) as nat));
            assert(second_turns(k as nat)[0]);
            assert(rest[k - 1] == ids[k]);
            assert(rest.len() - (k - 1) == ids.len() - k);
        }
    }
}

/// The grid shares both its rows and both halves of each row evenly.
pub proof fn law_grid_is_even(ids: Seq<Seq<char>>, focused: Seq<char>)
    ensures
        preset_layout(ids, focused, LayoutPreset::Grid) matches Some(
            LayoutTree::Split { ratio, first, second, .. },
        ) && ratio == HALF_RATIO && ratio_of(*first) == Some(HALF_RATIO) && ratio_of(*second) == Some(HALF_RATIO),
{
}

/// The ratio of a split; `None` for a pane.
pub open spec fn ratio_of(t: LayoutTree) -> Option<u32> {
    match t {
        LayoutTree::Split { ratio, .. } => Some(ratio),
        LayoutTree::Pane(_) => None,
    }
}

} // verus!

verus! {

/// Whether each step moves its pane beside `start` or beside a pane that an
/// earlier step moved.
pub open spec fn steps_build_from(steps: Seq<StepInfo>, start: Seq<char>) -> bool {
    forall|k: int|
        0 <= k < steps.len() ==> (#[trigger] steps[k]).target_pane_id == start || exists|i: int|
            0 <= i < k && (#[trigger] steps[i]).pane_id == steps[k].target_pane_id
}

proof fn lemma_first_is_first_listed(t: LayoutTree)
    requires
        t.pane_ids() is Some,
    ensures
        t.pane_ids()->0.len() > 0,
        t.first_pane_id() == Some(t.pane_ids()->0[0]),
    decreases t,
{
    if let LayoutTree::Split { first, second, .. } = t {
        lemma_first_is_first_listed(*first);
        lemma_first_is_first_listed(*second);
    }
}

proof fn lemma_steps_join(s0: StepInfo, x: Seq<StepInfo>, y: Seq<StepInfo>, a: Seq<char>, b: Seq<char>)
    requires
        s0.pane_id == b,
        s0.target_pane_id == a,
        steps_build_from(x, a),
        steps_build_from(y, b),
    ensures
        steps_build_from(seq![s0] + x + y, a),
{
    let all = seq![s0] + x + y;
    assert forall|k: int| 0 <= k < all.len() implies (#[trigger] all[k]).target_pane_id == a || exists|i: int|
        0 <= i < k && (#[trigger] all[i]).pane_id == all[k].target_pane_id by {
        if k == 0 {
        } else if k < 1 + x.len() {
            assert(all[k] == x[k - 1]);
            if x[k - 1].target_pane_id != a {
                let i = choose|i: int| 0 <= i < k - 1 && (#[trigger] x[i]).pane_id == x[k - 1].target_pane_id;
                assert(all[i + 1] == x[i]);
            }
        } else {
            let m = k - 1 - x.len();
            assert(all[k] == y[m]);
            if y[m].target_pane_id == b {
                assert(all[0] == s0);
            } else {
                let i = choose|i: int| 0 <= i < m && (#[trigger] y[i]).pane_id == y[m].target_pane_id;
                assert(all[i + 1 + x.len()] == y[i]);
            }
        }
    }
}

/// Rebuilding a layout pane by pane, as `insertion_steps` plans it, starts
/// from its first pane and moves every other pane once: one step per pane
/// after the first, each moving a pane of the layout other than the first
/// listed, every pane after the first moved by some step, and each step
/// placing its pane beside the first pane or beside a pane already moved.
pub proof fn law_insertion_steps_rebuild(t: LayoutTree)
    requires
        t.pane_ids() is Some,
    ensures
        steps_of(t) matches Some(steps) && {
            let ids = t.pane_ids()->0;
            &&& steps.len() + 1 == ids.len()
            &&& steps_build_from(steps, ids[0])
            &&& forall|k: int| 0 <= k < steps.len() ==> ids.drop_first().contains(#[trigger] steps[k].pane_id)
            &&& forall|j: int| #![trigger ids[j]] 1 <= j < ids.len() ==> exists|k: int| #![trigger steps[k]] 0 <= k < steps.len() && steps[k].pane_id == ids[j]
        },
    decreases t,
{
    law_one_step_per_split(t);
    lemma_first_is_first_listed(t);
    if let LayoutTree::Split { direction, ratio, first, second } = t {
        law_insertion_steps_rebuild(*first);
        law_insertion_steps_rebuild(*second);
        lemma_first_is_first_listed(*first);
        lemma_first_is_first_listed(*second);
        let a_ids = first.pane_ids()->0;
        let b_ids = second.pane_ids()->0;
        let ids = t.pane_ids()->0;
        assert(ids == a_ids + b_ids);
        let x = steps_of(*first)->0;
        let y = steps_of(*second)->0;
        let s0 = StepInfo { pane_id: b_ids[0], target_pane_id: a_ids[0], direction, ratio };
        let steps = steps_of(t)->0;
        assert(steps == seq![s0] + x + y);
        lemma_steps_join(s0, x, y, a_ids[0], b_ids[0]);
        assert(ids[0] == a_ids[0]);
        assert forall|k: int| 0 <= k < steps.len() implies ids.drop_first().contains(#[trigger] steps[k].pane_id) by {
            if k == 0 {
                assert(ids.drop_first()[a_ids.len() - 1] == b_ids[0]);
            } else if k < 1 + x.len() {
                assert(steps[k] == x[k - 1]);
                let w = choose|w: int| 0 <= w < a_ids.drop_first().len() && a_ids.drop_first()[w] == x[k - 1].pane_id;
                assert(ids.drop_first()[w] == a_ids.drop_first()[w]);
            } else {
                let m = k - 1 - x.len();
                assert(steps[k] == y[m]);
                let w = choose|w: int| 0 <= w < b_ids.drop_first().len() && b_ids.drop_first()[w] == y[m].pane_id;
                assert(ids.drop_first()[a_ids.len() + w] == b_ids.drop_first()[w]);
            }
        }
        assert forall|j: int| #![trigger ids[j]] 1 <= j < ids.len() implies exists|k: int| #![trigger steps[k]] 0 <= k < steps.len() && steps[k].pane_id == ids[j] by {
            if j < a_ids.len() {
                assert(ids[j] == a_ids[j]);
                let kx = choose|kx: int| #![trigger x[kx]] 0 <= kx < x.len() && x[kx].pane_id == a_ids[j];
                assert(steps[kx + 1] == x[kx]);
            } else if j == a_ids.len() {
                assert(steps[0] == s0);
            } else {
                let jb = j - a_ids.len();
                assert(ids[j] == b_ids[jb]);
                let ky = choose|ky: int| #![trigger y[ky]] 0 <= ky < y.len() && y[ky].pane_id == b_ids[jb];
                assert(steps[ky + 1 + x.len()] == y[ky]);
            }
        }
    }
}

} // verus!
