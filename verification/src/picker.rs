use vstd::prelude::*;
use vstd::string::*;

use crate::error::{message, AppError, ErrorModel, MISSING_PANE_ID};
use crate::geometry::{
    area_entries, centered_rect, collect_pane_areas, drop_zone, has_room, pane_areas, spec_centered_rect,
    spec_drop_zone, spec_split_rect, spec_zone_rect, split_rect, zone_rect, DropZone, Rect,
};
use crate::layout::{
    dock_result, swap_result, ComparableTree, DescriptionModel, LayoutDescription, LayoutNode,
    LayoutTree, SplitDirection,
};
use crate::operations::{
    preset_target, presets_for, ratio_target, rotated_layout, target_for_balance, target_for_expand,
    target_for_preset, target_for_rotate, LayoutPreset, RatioRule,
};
use crate::text::same_text;

verus! {

/// The operations the picker lists besides the presets.
#[derive(Clone, Copy, Debug, PartialEq, Eq, Structural)]
pub enum PickerAction {
    Rearrange,
    Expand,
    Balance,
    Rotate,
    Undo,
}

/// An entry of the picker's lists.
#[derive(Clone, Copy, Debug, PartialEq, Eq, Structural)]
pub enum PickerItem {
    Preset(LayoutPreset),
    Action(PickerAction),
}

/// The picker's two lists.
#[derive(Clone, Copy, Debug, PartialEq, Eq, Structural)]
pub enum PickerTab {
    Actions,
    Layouts,
}

/// What the picker shows in its footer instead of key hints.
#[derive(Debug)]
pub enum PickerStatus {
    Applying,
    Error(String),
}

/// A pane under a dragged pane, and where on it the drop would land.
#[derive(Debug)]
pub struct DropTarget {
    pub pane_id: String,
    pub zone: DropZone,
}

/// The picker's state.
#[derive(Debug)]
pub struct Picker {
    pub layout: LayoutDescription,
    pub pane_numbers: Vec<(String, usize)>,
    pub items: Vec<PickerItem>,
    pub selected: usize,
    pub active_tab: PickerTab,
    pub last_action: usize,
    pub last_layout: usize,
    pub current_preset: Option<usize>,
    pub undo_target: Option<LayoutNode>,
    pub unavailable: Option<&'static str>,
    pub tab_areas: Vec<(PickerTab, Rect)>,
    pub row_areas: Vec<(usize, Rect)>,
    pub pane_areas: Vec<(String, Rect)>,
    pub armed_row: Option<usize>,
    pub mouse_position: Option<(u16, u16)>,
    pub preview_focused: bool,
    pub keyboard_pane: usize,
    pub hovered_pane: Option<String>,
    pub drag_source: Option<String>,
    pub drop_target: Option<DropTarget>,
    pub status: Option<PickerStatus>,
}

impl PickerAction {
    pub open spec fn spec_label(self) -> Seq<char> {
        match self {
            PickerAction::Rearrange => "Rearrange"@,
            PickerAction::Expand => "Expand"@,
            PickerAction::Balance => "Balance"@,
            PickerAction::Rotate => "Rotate"@,
            PickerAction::Undo => "Undo"@,
        }
    }

    pub open spec fn spec_description(self) -> Seq<char> {
        match self {
            PickerAction::Rearrange => "Drag a numbered pane"@,
            PickerAction::Expand => "Expand the focused pane"@,
            PickerAction::Balance => "Balance the focused split"@,
            PickerAction::Rotate => "Rotate the focused split"@,
            PickerAction::Undo => "Restore the previous layout"@,
        }
    }

    /// The action's name in the list.
    pub fn label(self) -> (r: &'static str)
        ensures
            r@ == self.spec_label(),
    {
        match self {
            PickerAction::Rearrange => "Rearrange",
            PickerAction::Expand => "Expand",
            PickerAction::Balance => "Balance",
            PickerAction::Rotate => "Rotate",
            PickerAction::Undo => "Undo",
        }
    }

    /// What the action does, shown under the preview.
    pub fn description(self) -> (r: &'static str)
        ensures
            r@ == self.spec_description(),
    {
        match self {
            PickerAction::Rearrange => "Drag a numbered pane",
            PickerAction::Expand => "Expand the focused pane",
            PickerAction::Balance => "Balance the focused split",
            PickerAction::Rotate => "Rotate the focused split",
            PickerAction::Undo => "Restore the previous layout",
        }
    }
}

impl PickerItem {
    pub open spec fn spec_label(self) -> Seq<char> {
        match self {
            PickerItem::Preset(preset) => preset.spec_label(),
            PickerItem::Action(action) => action.spec_label(),
        }
    }

    /// The item's name in the list.
    pub fn label(self) -> (r: &'static str)
        ensures
            r@ == self.spec_label(),
    {
        match self {
            PickerItem::Preset(preset) => preset.label(),
            PickerItem::Action(action) => action.label(),
        }
    }

    /// Whether the item is listed under `tab`.
    pub open spec fn listed_under(self, tab: PickerTab) -> bool {
        match tab {
            PickerTab::Actions => self is Action,
            PickerTab::Layouts => self is Preset,
        }
    }
}

impl PickerTab {
    pub open spec fn spec_label(self) -> Seq<char> {
        match self {
            PickerTab::Actions => "Actions"@,
            PickerTab::Layouts => "Layouts"@,
        }
    }

    pub open spec fn spec_other(self) -> PickerTab {
        match self {
            PickerTab::Actions => PickerTab::Layouts,
            PickerTab::Layouts => PickerTab::Actions,
        }
    }

    /// The tab's title.
    pub fn label(self) -> (r: &'static str)
        ensures
            r@ == self.spec_label(),
    {
        match self {
            PickerTab::Actions => "Actions",
            PickerTab::Layouts => "Layouts",
        }
    }

    /// The other tab.
    pub fn other(self) -> (r: Self)
        ensures
            r == self.spec_other(),
    {
        match self {
            PickerTab::Actions => PickerTab::Layouts,
            PickerTab::Layouts => PickerTab::Actions,
        }
    }
}

/// The positions of the items listed under `tab`, in order.
pub open spec fn tab_indices(items: Seq<PickerItem>, tab: PickerTab) -> Seq<usize>
    decreases items.len(),
{
    if items.len() == 0 {
        Seq::empty()
    } else {
        tab_indices(items.drop_last(), tab) + if items.last().listed_under(tab) {
            seq![(items.len() - 1) as usize]
        } else {
            Seq::empty()
        }
    }
}

/// The first position of `v` in `s`.
pub open spec fn position_of(s: Seq<usize>, v: usize) -> Option<int>
    decreases s.len(),
{
    if s.len() == 0 {
        None
    } else if s[0] == v {
        Some(0)
    } else {
        match position_of(s.drop_first(), v) {
            Some(p) => Some(p + 1),
            None => None,
        }
    }
}

/// The picker's status as a mathematical value.
pub enum StatusModel {
    Applying,
    Error(Seq<char>),
}

/// The mathematical model of the picker's state.
pub struct PickerModel {
    pub layout: DescriptionModel,
    pub pane_numbers: Seq<(Seq<char>, usize)>,
    pub items: Seq<PickerItem>,
    pub selected: usize,
    pub active_tab: PickerTab,
    pub last_action: usize,
    pub last_layout: usize,
    pub current_preset: Option<usize>,
    pub undo_target: Option<LayoutTree>,
    pub unavailable: Option<Seq<char>>,
    pub tab_areas: Seq<(PickerTab, Rect)>,
    pub row_areas: Seq<(usize, Rect)>,
    pub pane_areas: Seq<(Seq<char>, Rect)>,
    pub armed_row: Option<usize>,
    pub mouse_position: Option<(u16, u16)>,
    pub preview_focused: bool,
    pub keyboard_pane: usize,
    pub hovered_pane: Option<Seq<char>>,
    pub drag_source: Option<Seq<char>>,
    pub drop_target: Option<(Seq<char>, DropZone)>,
    pub status: Option<StatusModel>,
}

pub open spec fn text_of(text: Option<&'static str>) -> Option<Seq<char>> {
    match text {
        Some(t) => Some(t@),
        None => None,
    }
}

pub open spec fn tree_of(node: Option<LayoutNode>) -> Option<LayoutTree> {
    match node {
        Some(n) => Some(n@),
        None => None,
    }
}

pub open spec fn drop_of(target: Option<DropTarget>) -> Option<(Seq<char>, DropZone)> {
    match target {
        Some(t) => Some((t.pane_id@, t.zone)),
        None => None,
    }
}

pub open spec fn status_of(status: Option<PickerStatus>) -> Option<StatusModel> {
    match status {
        Some(PickerStatus::Applying) => Some(StatusModel::Applying),
        Some(PickerStatus::Error(text)) => Some(StatusModel::Error(text@)),
        None => None,
    }
}

/// Pane numbers as mathematical values.
pub open spec fn number_entries(numbers: Seq<(String, usize)>) -> Seq<(Seq<char>, usize)> {
    numbers.map_values(|e: (String, usize)| (e.0@, e.1))
}


impl View for Picker {
    type V = PickerModel;

    open spec fn view(&self) -> PickerModel {
        PickerModel {
            layout: self.layout@,
            pane_numbers: number_entries(self.pane_numbers@),
            items: self.items@,
            selected: self.selected,
            active_tab: self.active_tab,
            last_action: self.last_action,
            last_layout: self.last_layout,
            current_preset: self.current_preset,
            undo_target: tree_of(self.undo_target),
            unavailable: text_of(self.unavailable),
            tab_areas: self.tab_areas@,
            row_areas: self.row_areas@,
            pane_areas: area_entries(self.pane_areas@),
            armed_row: self.armed_row,
            mouse_position: self.mouse_position,
            preview_focused: self.preview_focused,
            keyboard_pane: self.keyboard_pane,
            hovered_pane: self.hovered_pane.deep_view(),
            drag_source: self.drag_source.deep_view(),
            drop_target: drop_of(self.drop_target),
            status: status_of(self.status),
        }
    }
}

impl PickerModel {
    pub open spec fn select(self, index: usize) -> PickerModel {
        let chosen = PickerModel {
            selected: index,
            preview_focused: false,
            hovered_pane: None,
            drag_source: None,
            drop_target: None,
            status: None,
            ..self
        };
        if index < self.items.len() && self.items[index as int] is Action {
            PickerModel { last_action: index, ..chosen }
        } else if index < self.items.len() && self.items[index as int] is Preset {
            PickerModel { last_layout: index, ..chosen }
        } else {
            chosen
        }
    }

    /// Undo can be chosen only when there is something to undo.
    pub open spec fn item_enabled(self, index: usize) -> bool {
        !(index < self.items.len() && self.items[index as int] == PickerItem::Action(
            PickerAction::Undo,
        ) && self.undo_target is None)
    }

    pub open spec fn can_apply(self) -> bool {
        self.items.len() > 0 && self.item_enabled(self.selected)
    }

    pub open spec fn is_rearrange_selected(self) -> bool {
        self.selected < self.items.len() && self.items[self.selected as int] == PickerItem::Action(
            PickerAction::Rearrange,
        )
    }

    pub open spec fn focus_preview(self) -> PickerModel {
        PickerModel {
            preview_focused: true,
            hovered_pane: None,
            drag_source: None,
            drop_target: None,
            status: None,
            ..self
        }
    }

    pub open spec fn cancel_rearrange(self) -> PickerModel {
        PickerModel {
            preview_focused: false,
            hovered_pane: None,
            drag_source: None,
            drop_target: None,
            status: None,
            ..self
        }
    }

    pub open spec fn switch_to_tab(self, tab: PickerTab) -> PickerModel {
        if self.active_tab == tab {
            self
        } else {
            PickerModel { active_tab: tab, ..self }.select(
                match tab {
                    PickerTab::Actions => self.last_action,
                    PickerTab::Layouts => self.last_layout,
                },
            )
        }
    }

    /// From the position `current` in `indices`, step by `amount` (wrapping)
    /// up to `remaining` times, selecting the first enabled item reached.
    pub open spec fn seek(self, indices: Seq<usize>, current: int, amount: int, remaining: nat) -> PickerModel
        decreases remaining,
    {
        if remaining == 0 || indices.len() == 0 {
            self
        } else {
            let next = (current + amount) % (indices.len() as int);
            if self.item_enabled(indices[next]) {
                self.select(indices[next])
            } else {
                self.seek(indices, next, amount, (remaining - 1) as nat)
            }
        }
    }

    pub open spec fn move_selection(self, amount: int) -> PickerModel {
        let indices = tab_indices(self.items, self.active_tab);
        match position_of(indices, self.selected) {
            Some(p) => self.seek(indices, p, amount, indices.len()),
            None => self,
        }
    }
}

impl Picker {
    /// Select the item at `index`, remembering it for its tab, and drop any
    /// rearranging in progress.
    pub fn select(&mut self, index: usize)
        ensures
            final(self)@ == old(self)@.select(index),
    {
        self.selected = index;
        if index < self.items.len() {
            match self.items[index] {
                PickerItem::Action(_) => self.last_action = index,
                PickerItem::Preset(_) => self.last_layout = index,
            }
        }
        self.preview_focused = false;
        self.hovered_pane = None;
        self.drag_source = None;
        self.drop_target = None;
        self.status = None;
    }

    /// Whether the item can be chosen: undo only when there is something to undo.
    pub fn item_enabled(&self, index: usize) -> (r: bool)
        ensures
            r == self@.item_enabled(index),
    {
        !(index < self.items.len() && self.items[index] == PickerItem::Action(PickerAction::Undo)
            && self.undo_target.is_none())
    }

    /// Whether the selected item can be applied.
    pub fn can_apply(&self) -> (r: bool)
        ensures
            r == self@.can_apply(),
    {
        self.items.len() > 0 && self.item_enabled(self.selected)
    }

    /// Whether Rearrange is selected.
    pub fn is_rearrange_selected(&self) -> (r: bool)
        ensures
            r == self@.is_rearrange_selected(),
    {
        self.selected < self.items.len() && self.items[self.selected] == PickerItem::Action(
            PickerAction::Rearrange,
        )
    }

    /// Move the keyboard into the preview to rearrange panes.
    pub fn focus_preview(&mut self)
        ensures
            final(self)@ == old(self)@.focus_preview(),
    {
        self.preview_focused = true;
        self.hovered_pane = None;
        self.drag_source = None;
        self.drop_target = None;
        self.status = None;
    }

    /// Leave the preview and drop any rearranging in progress.
    pub fn cancel_rearrange(&mut self)
        ensures
            final(self)@ == old(self)@.cancel_rearrange(),
    {
        self.preview_focused = false;
        self.hovered_pane = None;
        self.drag_source = None;
        self.drop_target = None;
        self.status = None;
    }

    /// The positions of the items listed under `tab`.
    pub fn indices_for_tab(&self, tab: PickerTab) -> (r: Vec<usize>)
        ensures
            r@ == tab_indices(self.items@, tab),
    {
        let mut indices: Vec<usize> = Vec::new();
        for i in 0..self.items.len()
            invariant
                indices@ == tab_indices(self.items@.take(i as int), tab),
        {
            assert(self.items@.take(i + 1).drop_last() =~= self.items@.take(i as int));
            let listed = match (tab, self.items[i]) {
                (PickerTab::Actions, PickerItem::Action(_)) => true,
                (PickerTab::Layouts, PickerItem::Preset(_)) => true,
                _ => false,
            };
            let ghost before = indices@;
            if listed {
                indices.push(i);
                assert(indices@ =~= before + seq![i]);
            } else {
                assert(before + Seq::<usize>::empty() =~= before);
            }
        }
        assert(self.items@.take(self.items@.len() as int) =~= self.items@);
        indices
    }

    /// Show `tab`, selecting the item last chosen there.
    pub fn switch_to_tab(&mut self, tab: PickerTab)
        ensures
            final(self)@ == old(self)@.switch_to_tab(tab),
    {
        if self.active_tab == tab {
            return;
        }
        self.active_tab = tab;
        let index = match tab {
            PickerTab::Actions => self.last_action,
            PickerTab::Layouts => self.last_layout,
        };
        self.select(index);
    }

    /// Show the other tab.
    pub fn switch_tab(&mut self)
        ensures
            final(self)@ == old(self)@.switch_to_tab(old(self).active_tab.spec_other()),
    {
        let tab = self.active_tab.other();
        self.switch_to_tab(tab);
    }

    /// Move the selection `amount` items within the active tab, wrapping and
    /// skipping items that cannot be chosen.
    pub fn move_selection(&mut self, amount: isize)
        ensures
            final(self)@ == old(self)@.move_selection(amount as int),
    {
        let indices = self.indices_for_tab(self.active_tab);
        let len = indices.len();
        let mut position: usize = 0;
        assert(indices@.skip(0) =~= indices@);
        while position < len && indices[position] != self.selected
            invariant
                len == indices@.len(),
                position <= len,
                position_of(indices@, self.selected) == match position_of(
                    indices@.skip(position as int),
                    self.selected,
                ) {
                    Some(p) => Some(p + position),
                    None => None,
                },
            decreases len - position,
        {
            assert(indices@.skip(position as int).drop_first() =~= indices@.skip(position + 1));
            position = position + 1;
        }
        if position == len {
            assert(indices@.skip(len as int).len() == 0);
            return;
        }
        assert(indices@.skip(position as int)[0] == indices@[position as int]);
        let ghost start = self@;
        let n: u128 = len as u128;
        let delta: u128 = if amount >= 0 {
            (amount as u128) % n
        } else {
            let k: u128 = (-(amount as i128)) as u128;
            let m = k % n;
            if m == 0 {
                0
            } else {
                n - m
            }
        };
        proof {
            let a = amount as int;
            let ni = n as int;
            if a < 0 {
                let k = -a;
                vstd::arithmetic::div_mod::lemma_sub_mod_noop(0, k, ni);
                vstd::arithmetic::div_mod::lemma_small_mod(0, ni as nat);
                let m = k % ni;
                if m != 0 {
                    vstd::arithmetic::div_mod::lemma_mod_add_multiples_vanish(-m, ni);
                    vstd::arithmetic::div_mod::lemma_small_mod((ni - m) as nat, ni as nat);
                    vstd::arithmetic::div_mod::lemma_mod_twice(-k, ni);
                } else {
                    vstd::arithmetic::div_mod::lemma_small_mod(0, ni as nat);
                }
            }
            assert(delta as int == a % ni);
        }
        let mut next: usize = position;
        let mut remaining: usize = len;
        let mut chosen: Option<usize> = None;
        while remaining > 0
            invariant_except_break
                chosen is None,
                start.move_selection(amount as int) == start.seek(
                    indices@,
                    next as int,
                    amount as int,
                    remaining as nat,
                ),
            invariant
                n == len as int,
                len == indices@.len(),
                len > 0,
                next < len,
                remaining <= len,
                delta == (amount as int) % (len as int),
                delta < n,
                self@ == start,
                indices@ == tab_indices(start.items, start.active_tab),
            ensures
                chosen matches Some(i) ==> start.move_selection(amount as int) == start.select(i),
                chosen is None ==> start.move_selection(amount as int) == start,
            decreases remaining,
        {
            let wrapped: u128 = (next as u128 + delta) % n;
            proof {
                vstd::arithmetic::div_mod::lemma_add_mod_noop_right(
                    next as int,
                    amount as int,
                    len as int,
                );
            }
            assert(wrapped == (next + amount) % (len as int));
            next = wrapped as usize;
            remaining = remaining - 1;
            let index = indices[next];
            if self.item_enabled(index) {
                chosen = Some(index);
                break;
            }
        }
        if let Some(index) = chosen {
            self.select(index);
        }
    }
}

pub const PICKER_UNZOOM: &'static str = "Unzoom this tab to change its layout.";

pub const PICKER_ADD_PANE: &'static str = "Add another pane to arrange a layout.";

pub const PICKER_TWO_TO_FOUR: &'static str = "Arrange works with two to four panes.";

/// The actions, in list order.
pub open spec fn action_items() -> Seq<PickerItem> {
    seq![
        PickerItem::Action(PickerAction::Rearrange),
        PickerItem::Action(PickerAction::Expand),
        PickerItem::Action(PickerAction::Balance),
        PickerItem::Action(PickerAction::Rotate),
        PickerItem::Action(PickerAction::Undo),
    ]
}

/// The picker's items for a usable tab of `pane_count` panes: the actions,
/// then the presets offered for that many panes.
pub open spec fn picker_items(pane_count: nat) -> Seq<PickerItem> {
    action_items() + presets_for(pane_count).map_values(|p: LayoutPreset| PickerItem::Preset(p))
}

/// Why the picker cannot change this layout, if it cannot.
pub open spec fn unavailable_reason(zoomed: bool, pane_count: nat) -> Option<Seq<char>> {
    if zoomed {
        Some(PICKER_UNZOOM@)
    } else if pane_count < 2 {
        Some(PICKER_ADD_PANE@)
    } else if pane_count > 4 {
        Some(PICKER_TWO_TO_FOUR@)
    } else {
        None
    }
}

/// The item is a preset that builds a layout looking like `now`.
pub open spec fn preset_matches(item: PickerItem, root: LayoutTree, focused: Seq<char>, now: ComparableTree) -> bool {
    item matches PickerItem::Preset(p) && preset_target(root, focused, p) matches Some(t)
        && t.normalized() == Some(now)
}

/// The first item that is a preset matching `now`.
pub open spec fn first_matching_preset(
    items: Seq<PickerItem>,
    root: LayoutTree,
    focused: Seq<char>,
    now: ComparableTree,
) -> Option<usize> {
    if exists|i: int| 0 <= i < items.len() && preset_matches(items[i], root, focused, now) {
        let i = choose|i: int|
            0 <= i < items.len() && preset_matches(items[i], root, focused, now) && forall|j: int|
                0 <= j < i ==> !preset_matches(items[j], root, focused, now);
        Some(i as usize)
    } else {
        None
    }
}

/// The first position of `id` in `ids`.
pub open spec fn id_position(ids: Seq<Seq<char>>, id: Seq<char>) -> Option<int> {
    if exists|i: int| 0 <= i < ids.len() && ids[i] == id {
        Some(choose|i: int| 0 <= i < ids.len() && ids[i] == id && forall|j: int| 0 <= j < i ==> ids[j] != id)
    } else {
        None
    }
}

/// The number of the first entry for `id`.
pub open spec fn number_for(entries: Seq<(Seq<char>, usize)>, id: Seq<char>) -> Option<usize>
    decreases entries.len(),
{
    if entries.len() == 0 {
        None
    } else if entries[0].0 == id {
        Some(entries[0].1)
    } else {
        number_for(entries.drop_first(), id)
    }
}

/// The preset among `items` whose layout looks like the current one.
pub fn current_preset_for(items: &[PickerItem], layout: &LayoutDescription) -> (r: Result<
    Option<usize>,
    AppError,
>)
    ensures
        match layout.root@.normalized() {
            Some(now) => r == Ok::<Option<usize>, AppError>(
                first_matching_preset(items@, layout.root@, layout.focused_pane_id@, now),
            ),
            None => r is Err && r->Err_0.is_message(MISSING_PANE_ID@),
        },
{
    let now = match layout.root.normalized() {
        Ok(n) => n,
        Err(e) => return Err(e),
    };
    let ghost root = layout.root@;
    let ghost focused = layout.focused_pane_id@;
    for index in 0..items.len()
        invariant
            layout.root@.normalized() == Some(now@),
            root == layout.root@,
            focused == layout.focused_pane_id@,
            forall|j: int| 0 <= j < index ==> !preset_matches(items@[j], root, focused, now@),
    {
        if let PickerItem::Preset(preset) = items[index] {
            if let Ok(target) = target_for_preset(layout, preset) {
                if let Ok(normal) = target.normalized() {
                    if normal.same_as(&now) {
                        assert(preset_matches(items@[index as int], root, focused, now@));
                        assert(first_matching_preset(items@, root, focused, now@) == Some(index)) by {
                            let i = choose|i: int|
                                0 <= i < items@.len() && preset_matches(items@[i], root, focused, now@)
                                    && forall|j: int| 0 <= j < i ==> !preset_matches(items@[j], root, focused, now@);
                            if i < index {
                            } else if i > index {
                                assert(!preset_matches(items@[index as int], root, focused, now@));
                            }
                        }
                        return Ok(Some(index));
                    }
                }
            }
        }
    }
    Ok(None)
}

impl Picker {
    /// The picker for a layout, the tree that undo would restore given.
    pub fn new(layout: LayoutDescription, undo_target: Option<LayoutNode>) -> (r: Result<
        Picker,
        AppError,
    >)
        ensures
            match layout.root@.pane_ids() {
                None => r is Err && r->Err_0.is_message(MISSING_PANE_ID@),
                Some(ids) => r matches Ok(p) && {
                    let count = ids.len();
                    let reason = unavailable_reason(layout.zoomed, count);
                    let now = layout.root@.normalized()->0;
                    let current = first_matching_preset(p.items@, layout.root@, layout.focused_pane_id@, now);
                    &&& p.layout == layout
                    &&& text_of(p.unavailable) == reason
                    &&& p.items@ == if reason is None { picker_items(count) } else { Seq::empty() }
                    &&& p.selected == 0
                    &&& p.active_tab == PickerTab::Actions
                    &&& p.last_action == 0
                    &&& p.current_preset == current
                    &&& p.last_layout == match current {
                        Some(i) => i,
                        None => if reason is None { 5 } else { 0 },
                    }
                    &&& p.undo_target == undo_target
                    &&& p.keyboard_pane == match id_position(ids, layout.focused_pane_id@) {
                        Some(i) => i as usize,
                        None => 0,
                    }
                    &&& number_entries(p.pane_numbers@) == fresh_numbers(ids)
                    &&& distinct_ids(number_entries(p.pane_numbers@))
                    &&& p.tab_areas@.len() == 0 && p.row_areas@.len() == 0 && p.pane_areas@.len() == 0
                    &&& p.armed_row is None && p.mouse_position is None
                    &&& !p.preview_focused
                    &&& p.hovered_pane is None && p.drag_source is None && p.drop_target is None
                    &&& p.status is None
                },
            },
    {
        let pane_ids = match layout.root.pane_ids() {
            Ok(ids) => ids,
            Err(e) => return Err(e),
        };
        let pane_count = pane_ids.len();
        let unavailable: Option<&'static str> = if layout.zoomed {
            Some(PICKER_UNZOOM)
        } else if pane_count < 2 {
            Some(PICKER_ADD_PANE)
        } else if pane_count > 4 {
            Some(PICKER_TWO_TO_FOUR)
        } else {
            None
        };
        let mut items: Vec<PickerItem> = Vec::new();
        if unavailable.is_none() {
            items.push(PickerItem::Action(PickerAction::Rearrange));
            items.push(PickerItem::Action(PickerAction::Expand));
            items.push(PickerItem::Action(PickerAction::Balance));
            items.push(PickerItem::Action(PickerAction::Rotate));
            items.push(PickerItem::Action(PickerAction::Undo));
            let presets = LayoutPreset::available(pane_count);
            for i in 0..presets.len()
                invariant
                    presets@ == presets_for(pane_count as nat),
                    items@ == action_items() + presets@.take(i as int).map_values(
                        |p: LayoutPreset| PickerItem::Preset(p),
                    ),
            {
                items.push(PickerItem::Preset(presets[i]));
                assert(items@ =~= action_items() + presets@.take(i + 1).map_values(
                    |p: LayoutPreset| PickerItem::Preset(p),
                ));
            }
            assert(presets@.take(presets@.len() as int) =~= presets@);
        } else {
            assert(items@ =~= Seq::<PickerItem>::empty());
        }
        proof {
            crate::layout::lemma_ids_give_normalized(layout.root@);
        }
        let current_preset = match current_preset_for(items.as_slice(), &layout) {
            Ok(c) => c,
            Err(e) => return Err(e),
        };
        let last_layout = match current_preset {
            Some(index) => index,
            None => if unavailable.is_none() {
                5
            } else {
                0
            },
        };
        let keyboard_pane = position_or_first(&pane_ids, layout.focused_pane_id.as_str());
        let pane_numbers = fresh_pane_numbers(&pane_ids);
        proof {
            law_fresh_numbers_are_distinct(pane_ids.deep_view());
        }
        assert(pane_ids.deep_view().take(pane_count as int) =~= pane_ids.deep_view());
        Ok(
            Picker {
                layout,
                pane_numbers,
                items,
                selected: 0,
                active_tab: PickerTab::Actions,
                last_action: 0,
                last_layout,
                current_preset,
                undo_target,
                unavailable,
                tab_areas: Vec::new(),
                row_areas: Vec::new(),
                pane_areas: Vec::new(),
                armed_row: None,
                mouse_position: None,
                preview_focused: false,
                keyboard_pane,
                hovered_pane: None,
                drag_source: None,
                drop_target: None,
                status: None,
            },
        )
    }
}

} // verus!

verus! {

/// The largest pane number handed out so far.
pub open spec fn max_number(entries: Seq<(Seq<char>, usize)>) -> nat
    decreases entries.len(),
{
    if entries.len() == 0 {
        0
    } else {
        let rest = max_number(entries.drop_last());
        if entries.last().1 > rest {
            entries.last().1 as nat
        } else {
            rest
        }
    }
}

/// The entries after numbering each ID of `ids` that has no number yet,
/// counting up from `next`.
pub open spec fn extend_numbers(entries: Seq<(Seq<char>, usize)>, ids: Seq<Seq<char>>, next: nat) -> Seq<
    (Seq<char>, usize),
>
    decreases ids.len(),
{
    if ids.len() == 0 {
        entries
    } else if number_for(entries, ids[0]) is Some {
        extend_numbers(entries, ids.drop_first(), next)
    } else {
        extend_numbers(entries.push((ids[0], next as usize)), ids.drop_first(), next + 1)
    }
}

/// Whether numbering `ids` after `entries` stays within `usize`: the last
/// number handed out, and the one counted past it, both fit.
pub open spec fn numbering_fits(entries: Seq<(Seq<char>, usize)>, ids: Seq<Seq<char>>) -> bool {
    let next = max_number(entries) + 1;
    next + extend_numbers(entries, ids, next).len() - entries.len() <= usize::MAX
}

/// Numbering only appends entries.
pub proof fn lemma_extend_grows(entries: Seq<(Seq<char>, usize)>, ids: Seq<Seq<char>>, next: nat)
    ensures
        extend_numbers(entries, ids, next).len() >= entries.len(),
    decreases ids.len(),
{
    if ids.len() > 0 {
        if number_for(entries, ids[0]) is Some {
            lemma_extend_grows(entries, ids.drop_first(), next);
        } else {
            lemma_extend_grows(entries.push((ids[0], next as usize)), ids.drop_first(), next + 1);
        }
    }
}

/// A number found for an ID stays found when entries are appended.
pub proof fn lemma_number_kept(entries: Seq<(Seq<char>, usize)>, more: Seq<(Seq<char>, usize)>, id: Seq<char>)
    requires
        number_for(entries, id) is Some,
    ensures
        number_for(entries + more, id) == number_for(entries, id),
    decreases entries.len(),
{
    if entries[0].0 != id {
        lemma_number_kept(entries.drop_first(), more, id);
        assert((entries + more).drop_first() =~= entries.drop_first() + more);
    }
}

/// An ID without a number gets the one appended for it.
pub proof fn lemma_number_appended(entries: Seq<(Seq<char>, usize)>, id: Seq<char>, n: usize)
    requires
        number_for(entries, id) is None,
    ensures
        number_for(entries.push((id, n)), id) == Some(n),
    decreases entries.len(),
{
    if entries.len() > 0 {
        lemma_number_appended(entries.drop_first(), id, n);
        assert(entries.push((id, n)).drop_first() =~= entries.drop_first().push((id, n)));
    }
}

/// Numbering new IDs keeps every number already handed out and gives each
/// listed ID a number: pane numbers stay tied to pane IDs.
pub proof fn law_numbers_stay_with_ids(
    entries: Seq<(Seq<char>, usize)>,
    ids: Seq<Seq<char>>,
    next: nat,
    id: Seq<char>,
)
    ensures
        number_for(entries, id) is Some ==> number_for(extend_numbers(entries, ids, next), id)
            == number_for(entries, id),
        ids.contains(id) ==> number_for(extend_numbers(entries, ids, next), id) is Some,
    decreases ids.len(),
{
    if ids.len() > 0 {
        let rest = ids.drop_first();
        if number_for(entries, ids[0]) is Some {
            law_numbers_stay_with_ids(entries, rest, next, id);
            if ids.contains(id) && id != ids[0] {
                let k = choose|k: int| 0 <= k < ids.len() && ids[k] == id;
                assert(rest[k - 1] == id);
            }
        } else {
            let grown = entries.push((ids[0], next as usize));
            law_numbers_stay_with_ids(grown, rest, next + 1, id);
            if number_for(entries, id) is Some {
                lemma_number_kept(entries, seq![(ids[0], next as usize)], id);
                assert(entries + seq![(ids[0], next as usize)] =~= grown);
            }
            if id == ids[0] {
                lemma_number_appended(entries, id, next as usize);
            }
            if ids.contains(id) && id != ids[0] {
                let k = choose|k: int| 0 <= k < ids.len() && ids[k] == id;
                assert(rest[k - 1] == id);
            }
        }
    }
}

fn number_lookup(numbers: &Vec<(String, usize)>, id: &str) -> (r: Option<usize>)
    ensures
        r == number_for(number_entries(numbers@), id@),
{
    let mut i: usize = 0;
    assert(number_entries(numbers@).skip(0) =~= number_entries(numbers@));
    while i < numbers.len()
        invariant
            i <= numbers@.len(),
            number_for(number_entries(numbers@), id@) == number_for(
                number_entries(numbers@).skip(i as int),
                id@,
            ),
        decreases numbers@.len() - i,
    {
        assert(number_entries(numbers@).skip(i as int)[0] == (numbers@[i as int].0@, numbers@[i as int].1));
        if same_text(numbers[i].0.as_str(), id) {
            return Some(numbers[i].1);
        }
        assert(number_entries(numbers@).skip(i as int).drop_first() =~= number_entries(numbers@).skip(
            i + 1,
        ));
        i = i + 1;
    }
    None
}

fn fresh_pane_numbers(pane_ids: &Vec<String>) -> (r: Vec<(String, usize)>)
    ensures
        number_entries(r@) == fresh_numbers(pane_ids.deep_view()),
{
    let mut pane_numbers: Vec<(String, usize)> = Vec::new();
    assert(number_entries(pane_numbers@) =~= fresh_numbers(pane_ids.deep_view().take(0)));
    for i in 0..pane_ids.len()
        invariant
            number_entries(pane_numbers@) == fresh_numbers(pane_ids.deep_view().take(i as int)),
    {
        let ghost before = number_entries(pane_numbers@);
        let ghost taken = pane_ids.deep_view().take(i + 1);
        assert(taken.drop_last() =~= pane_ids.deep_view().take(i as int));
        assert(taken.last() == pane_ids@[i as int]@);
        proof {
            lemma_entry_index(before, pane_ids@[i as int]@);
        }
        let id = pane_ids[i].as_str();
        let count = pane_numbers.len();
        assert(id@ == pane_ids@[i as int]@ && count == before.len());
        match entry_position(&pane_numbers, id) {
            Some(k) => {
                let ghost old_entries = pane_numbers@;
                assert(before.len() == pane_numbers@.len());
                assert(entry_index(before, id@) matches Some(j) && j == k);
                let key = pane_numbers[k].0.clone();
                assert(before[k as int].0 == pane_ids@[i as int]@);
                assert(key@ == pane_ids@[i as int]@);
                pane_numbers.set(k, (key, i + 1));
                assert(pane_numbers@ == old_entries.update(k as int, (key, (i + 1) as usize)));
                assert(number_entries(pane_numbers@) =~= before.update(
                    k as int,
                    (pane_ids@[i as int]@, (i + 1) as usize),
                ));
            },
            None => {
                pane_numbers.push((pane_ids[i].clone(), i + 1));
                assert(number_entries(pane_numbers@) =~= before.push((pane_ids@[i as int]@, (i + 1) as usize)));
            },
        }
        assert(taken.len() == i + 1);
        assert(fresh_numbers(taken) == match entry_index(before, pane_ids@[i as int]@) {
            Some(k) => before.update(k, (pane_ids@[i as int]@, (i + 1) as usize)),
            None => before.push((pane_ids@[i as int]@, (i + 1) as usize)),
        });
    }
    assert(pane_ids.deep_view().take(pane_ids@.len() as int) =~= pane_ids.deep_view());
    pane_numbers
}

fn entry_position(numbers: &Vec<(String, usize)>, id: &str) -> (r: Option<usize>)
    ensures
        match entry_index(number_entries(numbers@), id@) {
            Some(k) => r == Some(k as usize),
            None => r is None,
        },
{
    let mut i: usize = 0;
    assert(number_entries(numbers@).skip(0) =~= number_entries(numbers@));
    while i < numbers.len()
        invariant
            i <= numbers@.len(),
            entry_index(number_entries(numbers@), id@) == match entry_index(
                number_entries(numbers@).skip(i as int),
                id@,
            ) {
                Some(k) => Some(k + i),
                None => None,
            },
        decreases numbers@.len() - i,
    {
        assert(number_entries(numbers@).skip(i as int)[0] == (numbers@[i as int].0@, numbers@[i as int].1));
        if same_text(numbers[i].0.as_str(), id) {
            return Some(i);
        }
        assert(number_entries(numbers@).skip(i as int).drop_first() =~= number_entries(numbers@).skip(
            i + 1,
        ));
        i = i + 1;
    }
    None
}

impl Picker {
    /// The number shown for the pane `id`.
    pub fn pane_number(&self, id: &str) -> (r: Option<usize>)
        ensures
            r == number_for(self@.pane_numbers, id@),
    {
        number_lookup(&self.pane_numbers, id)
    }

    /// Give a number to every pane in `pane_ids` that has none yet, counting
    /// up from the largest number handed out; numbers already given stay.
    pub fn ensure_pane_numbers(&mut self, pane_ids: &[String])
        requires
            numbering_fits(old(self)@.pane_numbers, pane_ids.deep_view()),
        ensures
            final(self)@ == (PickerModel {
                pane_numbers: extend_numbers(
                    old(self)@.pane_numbers,
                    pane_ids.deep_view(),
                    max_number(old(self)@.pane_numbers) + 1,
                ),
                ..old(self)@
            }),
            distinct_ids(old(self)@.pane_numbers) ==> distinct_ids(final(self)@.pane_numbers),
    {
        proof {
            if distinct_ids(self@.pane_numbers) {
                law_numbering_keeps_ids_distinct(
                    self@.pane_numbers,
                    pane_ids.deep_view(),
                    max_number(self@.pane_numbers) + 1,
                );
            }
        }
        let mut largest: usize = 0;
        for i in 0..self.pane_numbers.len()
            invariant
                largest == max_number(number_entries(self.pane_numbers@).take(i as int)),
        {
            assert(number_entries(self.pane_numbers@).take(i + 1).drop_last() =~= number_entries(
                self.pane_numbers@,
            ).take(i as int));
            if self.pane_numbers[i].1 > largest {
                largest = self.pane_numbers[i].1;
            }
        }
        assert(number_entries(self.pane_numbers@).take(self.pane_numbers@.len() as int)
            =~= number_entries(self.pane_numbers@));
        let ghost start = self@;
        let ghost total = extend_numbers(start.pane_numbers, pane_ids.deep_view(), max_number(start.pane_numbers) + 1).len();
        proof {
            lemma_extend_grows(start.pane_numbers, pane_ids.deep_view(), max_number(start.pane_numbers) + 1);
        }
        let mut next: usize = largest + 1;
        assert(pane_ids.deep_view().skip(0) =~= pane_ids.deep_view());
        for i in 0..pane_ids.len()
            invariant
                next + total - self@.pane_numbers.len() <= usize::MAX,
                total >= self@.pane_numbers.len(),
                total == extend_numbers(start.pane_numbers, pane_ids.deep_view(), max_number(start.pane_numbers) + 1).len(),
                self@ == (PickerModel { pane_numbers: self@.pane_numbers, ..start }),
                extend_numbers(start.pane_numbers, pane_ids.deep_view(), max_number(start.pane_numbers) + 1)
                    == extend_numbers(self@.pane_numbers, pane_ids.deep_view().skip(i as int), next as nat),
        {
            let ghost ids = pane_ids.deep_view();
            assert(ids.skip(i as int).drop_first() =~= ids.skip(i + 1));
            assert(ids.skip(i as int)[0] == pane_ids@[i as int]@);
            if number_lookup(&self.pane_numbers, pane_ids[i].as_str()).is_none() {
                proof {
                    lemma_extend_grows(
                        self@.pane_numbers.push((ids[i as int], next as usize)),
                        ids.skip(i + 1),
                        (next + 1) as nat,
                    );
                }
                let ghost before = self.pane_numbers@;
                self.pane_numbers.push((pane_ids[i].clone(), next));
                assert(number_entries(self.pane_numbers@) =~= number_entries(before).push(
                    (pane_ids@[i as int]@, next),
                ));
                next = next + 1;
            }
        }
        assert(pane_ids.deep_view().skip(pane_ids@.len() as int).len() == 0);
    }
}

/// The IDs of the panes, or none when some pane has no ID.
pub open spec fn listed_ids(root: LayoutTree) -> Seq<Seq<char>> {
    match root.pane_ids() {
        Some(ids) => ids,
        None => Seq::empty(),
    }
}

/// The next pane position after `position` among `n`, wrapping.
pub open spec fn next_position(position: usize, n: nat) -> usize {
    (((position as int) % (n as int) + 1) % (n as int)) as usize
}

/// Step the keyboard from `position` to the next pane until it leaves the
/// dragged pane, at most `remaining` times.
pub open spec fn step_off(position: usize, ids: Seq<Seq<char>>, source: Option<Seq<char>>, remaining: nat) -> usize
    decreases remaining,
{
    if remaining == 0 || ids.len() == 0 {
        position
    } else {
        let next = next_position(position, ids.len());
        if Some(ids[next as int]) != source {
            next
        } else {
            step_off(next, ids, source, (remaining - 1) as nat)
        }
    }
}

impl PickerModel {
    /// Aim the drop at the pane under the keyboard, keeping the zone.
    pub open spec fn update_keyboard_target(self, ids: Seq<Seq<char>>) -> PickerModel {
        match self.drag_source {
            None => self,
            Some(source) => if self.keyboard_pane < ids.len() && ids[self.keyboard_pane as int] != source {
                PickerModel {
                    drop_target: Some(
                        (
                            ids[self.keyboard_pane as int],
                            match self.drop_target {
                                Some((_, zone)) => zone,
                                None => DropZone::Center,
                            },
                        ),
                    ),
                    ..self
                }
            } else {
                self
            },
        }
    }

    /// Move the keyboard off the dragged pane.
    pub open spec fn move_keyboard_to_other_pane(self, ids: Seq<Seq<char>>) -> PickerModel {
        if ids.len() < 2 {
            self
        } else {
            PickerModel {
                keyboard_pane: step_off(self.keyboard_pane, ids, self.drag_source, ids.len()),
                ..self
            }
        }
    }

    /// The layout the drag in progress would produce.
    pub open spec fn target_layout(self) -> Option<LayoutTree> {
        match (self.drag_source, self.drop_target) {
            (Some(source), Some((target, zone))) => match zone {
                DropZone::Center => swap_result(self.layout.root, source, target),
                DropZone::Left => dock_result(self.layout.root, source, target, SplitDirection::Right, true),
                DropZone::Right => dock_result(self.layout.root, source, target, SplitDirection::Right, false),
                DropZone::Top => dock_result(self.layout.root, source, target, SplitDirection::Down, true),
                DropZone::Bottom => dock_result(self.layout.root, source, target, SplitDirection::Down, false),
            },
            _ => None,
        }
    }
}

impl Picker {
    /// Move the keyboard off the dragged pane, to the next pane in reading order.
    pub fn move_keyboard_to_other_pane(&mut self, pane_ids: &[String])
        ensures
            final(self)@ == old(self)@.move_keyboard_to_other_pane(pane_ids.deep_view()),
    {
        let n = pane_ids.len();
        if n < 2 {
            return;
        }
        let ghost ids = pane_ids.deep_view();
        let ghost start = self@;
        let mut remaining = n;
        while remaining > 0
            invariant_except_break
                step_off(start.keyboard_pane, ids, start.drag_source, n as nat) == step_off(
                    self.keyboard_pane,
                    ids,
                    start.drag_source,
                    remaining as nat,
                ),
            invariant
                n == ids.len(),
                n >= 2,
                ids == pane_ids.deep_view(),
                remaining <= n,
                self@ == (PickerModel { keyboard_pane: self.keyboard_pane, ..start }),
            ensures
                self.keyboard_pane == step_off(start.keyboard_pane, ids, start.drag_source, n as nat),
            decreases remaining,
        {
            self.keyboard_pane = (self.keyboard_pane % n + 1) % n;
            remaining = remaining - 1;
            let leaves = match &self.drag_source {
                Some(source) => !same_text(pane_ids[self.keyboard_pane].as_str(), source.as_str()),
                None => true,
            };
            if leaves {
                break;
            }
        }
    }

    /// Aim the drop at the pane under the keyboard, keeping the zone.
    pub fn update_keyboard_target(&mut self, pane_ids: &[String])
        ensures
            final(self)@ == old(self)@.update_keyboard_target(pane_ids.deep_view()),
    {
        let source = match &self.drag_source {
            Some(source) => source,
            None => return,
        };
        if self.keyboard_pane >= pane_ids.len() {
            return;
        }
        let target = &pane_ids[self.keyboard_pane];
        if !same_text(target.as_str(), source.as_str()) {
            let zone = match &self.drop_target {
                Some(current) => current.zone,
                None => DropZone::Center,
            };
            self.drop_target = Some(DropTarget { pane_id: target.clone(), zone });
        }
    }

    /// The layout the drag in progress would produce.
    pub fn target_layout(&self) -> (r: Option<LayoutNode>)
        ensures
            tree_of(r) == self@.target_layout(),
    {
        let source = match &self.drag_source {
            Some(source) => source,
            None => return None,
        };
        let target = match &self.drop_target {
            Some(target) => target,
            None => return None,
        };
        let result = match target.zone {
            DropZone::Center => self.layout.root.swap_panes(source.as_str(), target.pane_id.as_str()),
            DropZone::Left => self.layout.root.dock_pane(
                source.as_str(),
                target.pane_id.as_str(),
                SplitDirection::Right,
                true,
            ),
            DropZone::Right => self.layout.root.dock_pane(
                source.as_str(),
                target.pane_id.as_str(),
                SplitDirection::Right,
                false,
            ),
            DropZone::Top => self.layout.root.dock_pane(
                source.as_str(),
                target.pane_id.as_str(),
                SplitDirection::Down,
                true,
            ),
            DropZone::Bottom => self.layout.root.dock_pane(
                source.as_str(),
                target.pane_id.as_str(),
                SplitDirection::Down,
                false,
            ),
        };
        match result {
            Ok(node) => Some(node),
            Err(_) => None,
        }
    }
}

} // verus!

verus! {

/// A key the picker reacts to.
#[derive(Clone, Copy, Debug, PartialEq, Eq, Structural)]
pub enum PickerKey {
    Left,
    Right,
    Up,
    Down,
    Tab,
    BackTab,
    Enter,
    Esc,
    Space,
    Other,
}

/// What the picker asks its caller to do after an event.
#[derive(Debug)]
pub enum PickerRequest {
    Nothing,
    Close,
    Activate,
    ApplyLayout(LayoutNode),
}

/// A request as a mathematical value.
pub enum RequestModel {
    Nothing,
    Close,
    Activate,
    ApplyLayout(LayoutTree),
}

impl View for PickerRequest {
    type V = RequestModel;

    open spec fn view(&self) -> RequestModel {
        match self {
            PickerRequest::Nothing => RequestModel::Nothing,
            PickerRequest::Close => RequestModel::Close,
            PickerRequest::Activate => RequestModel::Activate,
            PickerRequest::ApplyLayout(node) => RequestModel::ApplyLayout(node@),
        }
    }
}

/// The request to apply a layout, when there is one.
pub open spec fn apply_request(target: Option<LayoutTree>) -> RequestModel {
    match target {
        Some(t) => RequestModel::ApplyLayout(t),
        None => RequestModel::Nothing,
    }
}

impl PickerModel {
    /// The keyboard while rearranging: arrows choose a pane, Space picks it
    /// up or places it, Tab cycles the drop position, Escape backs out one step.
    pub open spec fn rearrange_key(self, key: PickerKey) -> (PickerModel, RequestModel) {
        let ids = listed_ids(self.layout.root);
        let n = ids.len();
        match key {
            PickerKey::Left | PickerKey::Up => if n > 0 {
                let moved = PickerModel {
                    keyboard_pane: if self.keyboard_pane == 0 {
                        (n - 1) as usize
                    } else {
                        (self.keyboard_pane - 1) as usize
                    },
                    ..self
                };
                (moved.update_keyboard_target(ids), RequestModel::Nothing)
            } else {
                (self, RequestModel::Nothing)
            },
            PickerKey::Right | PickerKey::Down => if n > 0 {
                let moved = PickerModel { keyboard_pane: next_position(self.keyboard_pane, n), ..self };
                (moved.update_keyboard_target(ids), RequestModel::Nothing)
            } else {
                (self, RequestModel::Nothing)
            },
            PickerKey::Tab => if self.drag_source is Some {
                (
                    PickerModel {
                        drop_target: match self.drop_target {
                            Some((id, zone)) => Some((id, zone.spec_next())),
                            None => None,
                        },
                        ..self
                    },
                    RequestModel::Nothing,
                )
            } else {
                (self, RequestModel::Nothing)
            },
            PickerKey::Space => if self.keyboard_pane < n {
                if self.drag_source is None {
                    let picked = PickerModel { drag_source: Some(ids[self.keyboard_pane as int]), ..self };
                    (
                        picked.move_keyboard_to_other_pane(ids).update_keyboard_target(ids),
                        RequestModel::Nothing,
                    )
                } else {
                    (self, apply_request(self.target_layout()))
                }
            } else {
                (self, RequestModel::Nothing)
            },
            PickerKey::Esc => if self.drag_source is Some {
                (
                    PickerModel { drag_source: None, drop_target: None, status: None, ..self },
                    RequestModel::Nothing,
                )
            } else {
                (self.cancel_rearrange(), RequestModel::Nothing)
            },
            _ => (self, RequestModel::Nothing),
        }
    }

    /// A key press: in the preview while rearranging, else tabs, selection,
    /// applying and closing.
    pub open spec fn handle_key(self, key: PickerKey) -> (PickerModel, RequestModel) {
        if self.preview_focused && self.is_rearrange_selected() {
            self.rearrange_key(key)
        } else {
            match key {
                PickerKey::Left | PickerKey::Right | PickerKey::Tab | PickerKey::BackTab => (
                    self.switch_to_tab(self.active_tab.spec_other()),
                    RequestModel::Nothing,
                ),
                PickerKey::Up => (self.move_selection(-1), RequestModel::Nothing),
                PickerKey::Down => (self.move_selection(1), RequestModel::Nothing),
                PickerKey::Enter => if self.can_apply() {
                    (self, RequestModel::Activate)
                } else {
                    (self, RequestModel::Nothing)
                },
                PickerKey::Esc => (self, RequestModel::Close),
                _ => (self, RequestModel::Nothing),
            }
        }
    }
}

fn ids_or_none(root: &LayoutNode) -> (r: Vec<String>)
    ensures
        r.deep_view() == listed_ids(root@),
{
    match root.pane_ids() {
        Ok(ids) => ids,
        Err(_) => {
            let ids: Vec<String> = Vec::new();
            assert(ids.deep_view() =~= Seq::<Seq<char>>::empty());
            ids
        },
    }
}

impl Picker {
    /// The keyboard while rearranging.
    pub fn handle_rearrange_key(&mut self, key: PickerKey) -> (r: PickerRequest)
        ensures
            (final(self)@, r@) == old(self)@.rearrange_key(key),
    {
        let pane_ids = ids_or_none(&self.layout.root);
        let n = pane_ids.len();
        match key {
            PickerKey::Left | PickerKey::Up => {
                if n > 0 {
                    self.keyboard_pane = if self.keyboard_pane == 0 {
                        n - 1
                    } else {
                        self.keyboard_pane - 1
                    };
                    self.update_keyboard_target(pane_ids.as_slice());
                }
                PickerRequest::Nothing
            },
            PickerKey::Right | PickerKey::Down => {
                if n > 0 {
                    self.keyboard_pane = (self.keyboard_pane % n + 1) % n;
                    self.update_keyboard_target(pane_ids.as_slice());
                }
                PickerRequest::Nothing
            },
            PickerKey::Tab => {
                if self.drag_source.is_some() {
                    let next = match &self.drop_target {
                        Some(target) => Some(
                            DropTarget { pane_id: target.pane_id.clone(), zone: target.zone.next() },
                        ),
                        None => None,
                    };
                    self.drop_target = next;
                }
                PickerRequest::Nothing
            },
            PickerKey::Space => {
                if self.keyboard_pane >= n {
                    return PickerRequest::Nothing;
                }
                if self.drag_source.is_none() {
                    self.drag_source = Some(pane_ids[self.keyboard_pane].clone());
                    self.move_keyboard_to_other_pane(pane_ids.as_slice());
                    self.update_keyboard_target(pane_ids.as_slice());
                    PickerRequest::Nothing
                } else {
                    match self.target_layout() {
                        Some(target) => PickerRequest::ApplyLayout(target),
                        None => PickerRequest::Nothing,
                    }
                }
            },
            PickerKey::Esc => {
                if self.drag_source.is_some() {
                    self.drag_source = None;
                    self.drop_target = None;
                    self.status = None;
                } else {
                    self.cancel_rearrange();
                }
                PickerRequest::Nothing
            },
            _ => PickerRequest::Nothing,
        }
    }

    /// A key press.
    pub fn handle_key(&mut self, key: PickerKey) -> (r: PickerRequest)
        ensures
            (final(self)@, r@) == old(self)@.handle_key(key),
    {
        if self.preview_focused && self.is_rearrange_selected() {
            return self.handle_rearrange_key(key);
        }
        match key {
            PickerKey::Left | PickerKey::Right | PickerKey::Tab | PickerKey::BackTab => {
                self.switch_tab();
                PickerRequest::Nothing
            },
            PickerKey::Up => {
                self.move_selection(-1);
                PickerRequest::Nothing
            },
            PickerKey::Down => {
                self.move_selection(1);
                PickerRequest::Nothing
            },
            PickerKey::Enter => if self.can_apply() {
                PickerRequest::Activate
            } else {
                PickerRequest::Nothing
            },
            PickerKey::Esc => PickerRequest::Close,
            _ => PickerRequest::Nothing,
        }
    }
}

} // verus!

verus! {

/// The kind of a mouse event the picker reacts to.
#[derive(Clone, Copy, Debug, PartialEq, Eq, Structural)]
pub enum PointerKind {
    Moved,
    LeftDown,
    LeftUp,
    LeftDrag,
    Other,
}

/// A mouse event at a terminal cell.
#[derive(Clone, Copy, Debug, PartialEq, Eq, Structural)]
pub struct PointerEvent {
    pub kind: PointerKind,
    pub column: u16,
    pub row: u16,
}

/// The first tab drawn over the cell.
pub open spec fn tab_hit(areas: Seq<(PickerTab, Rect)>, x: u16, y: u16) -> Option<PickerTab>
    decreases areas.len(),
{
    if areas.len() == 0 {
        None
    } else if areas[0].1.spec_contains(x, y) {
        Some(areas[0].0)
    } else {
        tab_hit(areas.drop_first(), x, y)
    }
}

/// The first list row drawn over the cell.
pub open spec fn row_hit(areas: Seq<(usize, Rect)>, x: u16, y: u16) -> Option<usize>
    decreases areas.len(),
{
    if areas.len() == 0 {
        None
    } else if areas[0].1.spec_contains(x, y) {
        Some(areas[0].0)
    } else {
        row_hit(areas.drop_first(), x, y)
    }
}

/// The first pane drawn over the cell, with its area.
pub open spec fn pane_hit(areas: Seq<(Seq<char>, Rect)>, x: u16, y: u16) -> Option<(Seq<char>, Rect)>
    decreases areas.len(),
{
    if areas.len() == 0 {
        None
    } else if areas[0].1.spec_contains(x, y) {
        Some(areas[0])
    } else {
        pane_hit(areas.drop_first(), x, y)
    }
}

fn find_tab(areas: &Vec<(PickerTab, Rect)>, x: u16, y: u16) -> (r: Option<PickerTab>)
    ensures
        r == tab_hit(areas@, x, y),
{
    let mut i: usize = 0;
    assert(areas@.skip(0) =~= areas@);
    while i < areas.len()
        invariant
            i <= areas@.len(),
            tab_hit(areas@, x, y) == tab_hit(areas@.skip(i as int), x, y),
        decreases areas@.len() - i,
    {
        assert(areas@.skip(i as int)[0] == areas@[i as int]);
        if areas[i].1.contains(x, y) {
            return Some(areas[i].0);
        }
        assert(areas@.skip(i as int).drop_first() =~= areas@.skip(i + 1));
        i = i + 1;
    }
    None
}

fn find_row(areas: &Vec<(usize, Rect)>, x: u16, y: u16) -> (r: Option<usize>)
    ensures
        r == row_hit(areas@, x, y),
{
    let mut i: usize = 0;
    assert(areas@.skip(0) =~= areas@);
    while i < areas.len()
        invariant
            i <= areas@.len(),
            row_hit(areas@, x, y) == row_hit(areas@.skip(i as int), x, y),
        decreases areas@.len() - i,
    {
        assert(areas@.skip(i as int)[0] == areas@[i as int]);
        if areas[i].1.contains(x, y) {
            return Some(areas[i].0);
        }
        assert(areas@.skip(i as int).drop_first() =~= areas@.skip(i + 1));
        i = i + 1;
    }
    None
}

impl PickerModel {
    /// The mouse while Rearrange is selected: hovering shows a pane can be
    /// dragged, pressing picks it up, dragging aims at a pane and zone, and
    /// releasing asks for the new layout. `None` when the event is not about
    /// rearranging.
    pub open spec fn rearrange_mouse(self, event: PointerEvent) -> (PickerModel, Option<RequestModel>) {
        let pane = pane_hit(self.pane_areas, event.column, event.row);
        let pane_id = match pane {
            Some((id, _)) => Some(id),
            None => None,
        };
        if event.kind == PointerKind::Moved && self.drag_source is None {
            let hovered = PickerModel { hovered_pane: pane_id, ..self };
            (hovered, if pane_id is Some { Some(RequestModel::Nothing) } else { None })
        } else if event.kind == PointerKind::LeftDown {
            match pane_id {
                Some(id) => (
                    PickerModel { hovered_pane: None, drag_source: Some(id), drop_target: None, ..self },
                    Some(RequestModel::Nothing),
                ),
                None => (self, None),
            }
        } else if (event.kind == PointerKind::LeftDrag || event.kind == PointerKind::Moved)
            && self.drag_source is Some {
            (
                PickerModel {
                    hovered_pane: None,
                    drop_target: match pane {
                        Some((id, area)) => if Some(id) != self.drag_source {
                            Some((id, spec_drop_zone(area, event.column, event.row)))
                        } else {
                            None
                        },
                        None => None,
                    },
                    ..self
                },
                Some(RequestModel::Nothing),
            )
        } else if event.kind == PointerKind::LeftUp && self.drag_source is Some {
            let request = apply_request(self.target_layout());
            if request is Nothing {
                (
                    PickerModel { drag_source: None, drop_target: None, hovered_pane: pane_id, ..self },
                    Some(request),
                )
            } else {
                (self, Some(request))
            }
        } else {
            (self, None)
        }
    }

    /// The list and tabs under the mouse once rearranging has had its say.
    pub open spec fn list_mouse(self, event: PointerEvent) -> (PickerModel, RequestModel) {
        let hit = row_hit(self.row_areas, event.column, event.row);
        match event.kind {
            PointerKind::Moved => {
                let position = (event.column, event.row);
                let has_moved = self.mouse_position is Some && self.mouse_position->0 != position;
                let tracked_position = PickerModel { mouse_position: Some(position), ..self };
                if has_moved && hit is Some && hit->0 != self.selected && self.item_enabled(hit->0) {
                    (tracked_position.select(hit->0), RequestModel::Nothing)
                } else {
                    (tracked_position, RequestModel::Nothing)
                }
            },
            PointerKind::LeftDown => {
                let armed = match hit {
                    Some(index) => if self.item_enabled(index) {
                        Some(index)
                    } else {
                        None
                    },
                    None => None,
                };
                let pressed = PickerModel { armed_row: armed, ..self };
                if armed is Some && armed->0 != self.selected {
                    (pressed.select(armed->0), RequestModel::Nothing)
                } else {
                    (pressed, RequestModel::Nothing)
                }
            },
            PointerKind::LeftUp => {
                let activate = hit is Some && hit == self.armed_row;
                (
                    PickerModel { armed_row: None, ..self },
                    if activate {
                        RequestModel::Activate
                    } else {
                        RequestModel::Nothing
                    },
                )
            },
            _ => (self, RequestModel::Nothing),
        }
    }

    /// A mouse event: clicking a tab switches to it; the preview belongs to
    /// Rearrange; the list follows the pointer and applies on a full click.
    pub open spec fn handle_mouse(self, event: PointerEvent) -> (PickerModel, RequestModel) {
        let tab = tab_hit(self.tab_areas, event.column, event.row);
        if event.kind == PointerKind::LeftDown && tab is Some {
            (self.switch_to_tab(tab->0), RequestModel::Nothing)
        } else {
            let over_preview = pane_hit(self.pane_areas, event.column, event.row) is Some;
            let focused = if over_preview && !self.is_rearrange_selected() {
                self.switch_to_tab(PickerTab::Actions).select(0)
            } else {
                self
            };
            if focused.is_rearrange_selected() {
                let (after, request) = focused.rearrange_mouse(event);
                match request {
                    Some(r) => (after, r),
                    None => after.list_mouse(event),
                }
            } else {
                focused.list_mouse(event)
            }
        }
    }
}

impl Picker {
    /// The pane drawn under the cell.
    pub fn pane_at(&self, x: u16, y: u16) -> (r: Option<(String, Rect)>)
        ensures
            match pane_hit(self@.pane_areas, x, y) {
                Some((id, area)) => r matches Some((s, a)) && s@ == id && a == area,
                None => r is None,
            },
    {
        let mut i: usize = 0;
        assert(area_entries(self.pane_areas@).skip(0) =~= area_entries(self.pane_areas@));
        while i < self.pane_areas.len()
            invariant
                i <= self.pane_areas@.len(),
                pane_hit(self@.pane_areas, x, y) == pane_hit(
                    area_entries(self.pane_areas@).skip(i as int),
                    x,
                    y,
                ),
            decreases self.pane_areas@.len() - i,
        {
            assert(area_entries(self.pane_areas@).skip(i as int)[0] == (
                self.pane_areas@[i as int].0@,
                self.pane_areas@[i as int].1,
            ));
            if self.pane_areas[i].1.contains(x, y) {
                return Some((self.pane_areas[i].0.clone(), self.pane_areas[i].1));
            }
            assert(area_entries(self.pane_areas@).skip(i as int).drop_first() =~= area_entries(
                self.pane_areas@,
            ).skip(i + 1));
            i = i + 1;
        }
        None
    }

    /// The mouse while Rearrange is selected; `None` when the event is not
    /// about rearranging.
    pub fn handle_rearrange_mouse(&mut self, event: PointerEvent) -> (r: Option<PickerRequest>)
        ensures
            ({
                let (after, request) = old(self)@.rearrange_mouse(event);
                &&& final(self)@ == after
                &&& match request {
                    Some(q) => r matches Some(p) && p@ == q,
                    None => r is None,
                }
            }),
    {
        let pane = self.pane_at(event.column, event.row);
        if event.kind == PointerKind::Moved && self.drag_source.is_none() {
            self.hovered_pane = match &pane {
                Some((id, _)) => Some(id.clone()),
                None => None,
            };
            if self.hovered_pane.is_some() {
                Some(PickerRequest::Nothing)
            } else {
                None
            }
        } else if event.kind == PointerKind::LeftDown {
            let pane_id = match pane {
                Some((id, _)) => id,
                None => return None,
            };
            self.hovered_pane = None;
            self.drag_source = Some(pane_id);
            self.drop_target = None;
            Some(PickerRequest::Nothing)
        } else if (event.kind == PointerKind::LeftDrag || event.kind == PointerKind::Moved)
            && self.drag_source.is_some() {
            self.hovered_pane = None;
            let target = match pane {
                Some((id, area)) => {
                    let same = match &self.drag_source {
                        Some(source) => same_text(id.as_str(), source.as_str()),
                        None => false,
                    };
                    if !same {
                        Some(DropTarget { pane_id: id, zone: drop_zone(area, event.column, event.row) })
                    } else {
                        None
                    }
                },
                None => None,
            };
            self.drop_target = target;
            Some(PickerRequest::Nothing)
        } else if event.kind == PointerKind::LeftUp && self.drag_source.is_some() {
            match self.target_layout() {
                Some(target) => Some(PickerRequest::ApplyLayout(target)),
                None => {
                    self.drag_source = None;
                    self.drop_target = None;
                    self.hovered_pane = match pane {
                        Some((id, _)) => Some(id),
                        None => None,
                    };
                    Some(PickerRequest::Nothing)
                },
            }
        } else {
            None
        }
    }

    fn handle_list_mouse(&mut self, event: PointerEvent) -> (r: PickerRequest)
        ensures
            (final(self)@, r@) == old(self)@.list_mouse(event),
    {
        let hit = find_row(&self.row_areas, event.column, event.row);
        match event.kind {
            PointerKind::Moved => {
                let position = (event.column, event.row);
                let has_moved = match self.mouse_position {
                    Some(previous) => previous.0 != position.0 || previous.1 != position.1,
                    None => false,
                };
                self.mouse_position = Some(position);
                if has_moved {
                    if let Some(index) = hit {
                        if index != self.selected && self.item_enabled(index) {
                            self.select(index);
                        }
                    }
                }
                PickerRequest::Nothing
            },
            PointerKind::LeftDown => {
                let armed = match hit {
                    Some(index) => if self.item_enabled(index) {
                        Some(index)
                    } else {
                        None
                    },
                    None => None,
                };
                self.armed_row = armed;
                if let Some(index) = armed {
                    if index != self.selected {
                        self.select(index);
                    }
                }
                PickerRequest::Nothing
            },
            PointerKind::LeftUp => {
                let activate = match (hit, self.armed_row) {
                    (Some(a), Some(b)) => a == b,
                    _ => false,
                };
                self.armed_row = None;
                if activate {
                    PickerRequest::Activate
                } else {
                    PickerRequest::Nothing
                }
            },
            _ => PickerRequest::Nothing,
        }
    }

    /// A mouse event.
    pub fn handle_mouse(&mut self, event: PointerEvent) -> (r: PickerRequest)
        ensures
            (final(self)@, r@) == old(self)@.handle_mouse(event),
    {
        let tab = find_tab(&self.tab_areas, event.column, event.row);
        if event.kind == PointerKind::LeftDown {
            if let Some(tab) = tab {
                self.switch_to_tab(tab);
                return PickerRequest::Nothing;
            }
        }
        let over_preview = self.pane_at(event.column, event.row).is_some();
        if over_preview && !self.is_rearrange_selected() {
            self.switch_to_tab(PickerTab::Actions);
            self.select(0);
        }
        if self.is_rearrange_selected() {
            if let Some(request) = self.handle_rearrange_mouse(event) {
                return request;
            }
        }
        self.handle_list_mouse(event)
    }
}

} // verus!

verus! {

/// The character for a decimal digit.
pub open spec fn digit_char(d: nat) -> char {
    if d == 0 {
        '0'
    } else if d == 1 {
        '1'
    } else if d == 2 {
        '2'
    } else if d == 3 {
        '3'
    } else if d == 4 {
        '4'
    } else if d == 5 {
        '5'
    } else if d == 6 {
        '6'
    } else if d == 7 {
        '7'
    } else if d == 8 {
        '8'
    } else {
        '9'
    }
}

/// A number written in decimal, without leading zeros.
pub open spec fn spec_decimal(n: nat) -> Seq<char>
    decreases n,
{
    if n < 10 {
        seq![digit_char(n)]
    } else {
        spec_decimal(n / 10) + seq![digit_char(n % 10)]
    }
}

fn digit_text(d: usize) -> (r: &'static str)
    requires
        d < 10,
    ensures
        r@ == seq![digit_char(d as nat)],
{
    proof {
        reveal_strlit("0");
        reveal_strlit("1");
        reveal_strlit("2");
        reveal_strlit("3");
        reveal_strlit("4");
        reveal_strlit("5");
        reveal_strlit("6");
        reveal_strlit("7");
        reveal_strlit("8");
        reveal_strlit("9");
    }
    if d == 0 {
        "0"
    } else if d == 1 {
        "1"
    } else if d == 2 {
        "2"
    } else if d == 3 {
        "3"
    } else if d == 4 {
        "4"
    } else if d == 5 {
        "5"
    } else if d == 6 {
        "6"
    } else if d == 7 {
        "7"
    } else if d == 8 {
        "8"
    } else {
        "9"
    }
}

/// `n` written in decimal.
pub fn decimal(n: usize) -> (r: String)
    ensures
        r@ == spec_decimal(n as nat),
    decreases n,
{
    if n < 10 {
        digit_text(n).to_owned()
    } else {
        let head = decimal(n / 10);
        head.concat(digit_text(n % 10))
    }
}

/// The number of `id` in `entries`, zero when it has none.
pub open spec fn number_or_zero(entries: Seq<(Seq<char>, usize)>, id: Seq<char>) -> nat {
    match number_for(entries, id) {
        Some(n) => n as nat,
        None => 0,
    }
}

/// What dropping pane number `source` on pane number `target` in `zone` does.
pub open spec fn zone_sentence(zone: DropZone, source: Seq<char>, target: Seq<char>) -> Seq<char> {
    match zone {
        DropZone::Center => "Swap "@ + source + " and "@ + target,
        DropZone::Left => "Move "@ + source + " left of "@ + target,
        DropZone::Right => "Move "@ + source + " right of "@ + target,
        DropZone::Top => "Move "@ + source + " above "@ + target,
        DropZone::Bottom => "Move "@ + source + " below "@ + target,
    }
}

/// The layout a ratio rule gives, or why the focused pane's split cannot
/// be resized.
pub open spec fn resize_outcome(root: LayoutTree, focused: Seq<char>, rule: RatioRule) -> Result<LayoutTree, ErrorModel> {
    match root.path_to(focused) {
        None => Err(ErrorModel::Message(crate::error::FOCUSED_NOT_IN_LAYOUT@)),
        Some(p) => if p.len() == 0 {
            Err(ErrorModel::Message(crate::error::NO_SPLIT_TO_RESIZE@))
        } else {
            Ok(crate::operations::ratio_layout(root, focused, rule)->0)
        },
    }
}

impl PickerModel {
    /// The tree the preview shows for the selected item, when it can be built.
    pub open spec fn preview_target(self) -> Option<LayoutTree> {
        let root = self.layout.root;
        let focused = self.layout.focused_pane_id;
        if self.selected >= self.items.len() {
            Some(root)
        } else {
            match self.items[self.selected as int] {
                PickerItem::Preset(preset) => preset_target(root, focused, preset),
                PickerItem::Action(PickerAction::Rearrange) => Some(root),
                PickerItem::Action(PickerAction::Expand) => ratio_target(root, focused, RatioRule::Expand),
                PickerItem::Action(PickerAction::Balance) => ratio_target(root, focused, RatioRule::Balance),
                PickerItem::Action(PickerAction::Rotate) => rotated_layout(root, focused),
                PickerItem::Action(PickerAction::Undo) => match self.undo_target {
                    Some(t) => Some(t),
                    None => Some(root),
                },
            }
        }
    }

    /// The tree the preview shows for the selected item, or why it cannot
    /// be built.
    pub open spec fn preview_outcome(self) -> Result<LayoutTree, ErrorModel> {
        let root = self.layout.root;
        let focused = self.layout.focused_pane_id;
        if self.selected >= self.items.len() {
            Ok(root)
        } else {
            match self.items[self.selected as int] {
                PickerItem::Preset(preset) => crate::arrange::preset_outcome(self.layout, preset),
                PickerItem::Action(PickerAction::Rearrange) => Ok(root),
                PickerItem::Action(PickerAction::Expand) => resize_outcome(root, focused, RatioRule::Expand),
                PickerItem::Action(PickerAction::Balance) => resize_outcome(root, focused, RatioRule::Balance),
                PickerItem::Action(PickerAction::Rotate) => match rotated_layout(root, focused) {
                    Some(t) => Ok(t),
                    None => Err(ErrorModel::Message(crate::error::NO_SPLIT_TO_ROTATE@)),
                },
                PickerItem::Action(PickerAction::Undo) => match self.undo_target {
                    Some(t) => Ok(t),
                    None => Ok(root),
                },
            }
        }
    }

    /// The preview would look exactly like the current layout.
    pub open spec fn preview_matches_current(self) -> bool {
        match (self.preview_target(), self.layout.root.normalized()) {
            (Some(t), Some(now)) => t.normalized() == Some(now),
            _ => false,
        }
    }

    /// The sentence under the preview.
    pub open spec fn preview_label(self, numbers: Seq<(Seq<char>, usize)>) -> Seq<char> {
        if self.is_rearrange_selected() {
            match (self.drag_source, self.drop_target) {
                (Some(source), Some((target, zone))) => zone_sentence(
                    zone,
                    spec_decimal(number_or_zero(numbers, source)),
                    spec_decimal(number_or_zero(numbers, target)),
                ),
                (Some(source), None) => "Choose where to place pane "@ + spec_decimal(
                    number_or_zero(numbers, source),
                ),
                (None, _) => if self.preview_focused {
                    "Choose a pane to move"@
                } else {
                    match self.hovered_pane {
                        Some(hovered) => "Drag pane "@ + spec_decimal(number_or_zero(numbers, hovered)),
                        None => "Drag a pane to move or swap it"@,
                    }
                },
            }
        } else if self.selected < self.items.len() {
            match self.items[self.selected as int] {
                PickerItem::Preset(preset) => if self.current_preset == Some(self.selected) {
                    "Current layout"@
                } else {
                    preset.spec_description()
                },
                PickerItem::Action(action) => if action is Expand && self.preview_matches_current() {
                    "Already expanded"@
                } else if action is Balance && self.preview_matches_current() {
                    "Already balanced"@
                } else {
                    action.spec_description()
                },
            }
        } else {
            Seq::empty()
        }
    }

    /// The short note at the right of a list row.
    pub open spec fn item_hint(self, index: usize) -> Option<Seq<char>> {
        if self.current_preset == Some(index) {
            Some("current"@)
        } else if index < self.items.len() {
            match self.items[index as int] {
                PickerItem::Action(PickerAction::Expand) => Some("⌘⌥↩"@),
                PickerItem::Action(PickerAction::Balance) => Some("⌘⌥B"@),
                PickerItem::Action(PickerAction::Rotate) => Some("⌘⌥R"@),
                PickerItem::Action(PickerAction::Undo) => Some("⌘⌥Z"@),
                _ => None,
            }
        } else {
            None
        }
    }
}

impl Picker {
    /// The tree the preview shows for the selected item.
    pub fn preview_target(&self) -> (r: Result<LayoutNode, AppError>)
        ensures
            match self@.preview_target() {
                Some(t) => r is Ok && r->Ok_0@ == t,
                None => r is Err,
            },
            match self@.preview_outcome() {
                Ok(t) => r is Ok && r->Ok_0@ == t,
                Err(e) => r is Err && r->Err_0@ == e,
            },
    {
        if self.selected >= self.items.len() {
            return Ok(self.layout.root.duplicate());
        }
        match self.items[self.selected] {
            PickerItem::Preset(preset) => target_for_preset(&self.layout, preset),
            PickerItem::Action(PickerAction::Rearrange) => Ok(self.layout.root.duplicate()),
            PickerItem::Action(PickerAction::Expand) => target_for_expand(&self.layout),
            PickerItem::Action(PickerAction::Balance) => target_for_balance(&self.layout),
            PickerItem::Action(PickerAction::Rotate) => target_for_rotate(&self.layout),
            PickerItem::Action(PickerAction::Undo) => match &self.undo_target {
                Some(target) => Ok(target.duplicate()),
                None => Ok(self.layout.root.duplicate()),
            },
        }
    }

    /// Whether the preview looks exactly like the current layout.
    pub fn preview_matches_current(&self) -> (r: bool)
        ensures
            r == self@.preview_matches_current(),
    {
        let target = match self.preview_target() {
            Ok(t) => t,
            Err(_) => return false,
        };
        let target = match target.normalized() {
            Ok(t) => t,
            Err(_) => return false,
        };
        match self.layout.root.normalized() {
            Ok(current) => target.same_as(&current),
            Err(_) => false,
        }
    }

    /// The sentence under the preview, with pane numbers taken from `numbers`.
    pub fn preview_label(&self, numbers: &Vec<(String, usize)>) -> (r: String)
        ensures
            r@ == self@.preview_label(number_entries(numbers@)),
    {
        let ghost entries = number_entries(numbers@);
        if self.is_rearrange_selected() {
            match (&self.drag_source, &self.drop_target) {
                (Some(source), Some(target)) => {
                    let s = decimal(number_or_default(numbers, source.as_str()));
                    let t = decimal(number_or_default(numbers, target.pane_id.as_str()));
                    let text = match target.zone {
                        DropZone::Center => "Swap ".to_owned().concat(s.as_str()).concat(" and "),
                        DropZone::Left => "Move ".to_owned().concat(s.as_str()).concat(" left of "),
                        DropZone::Right => "Move ".to_owned().concat(s.as_str()).concat(" right of "),
                        DropZone::Top => "Move ".to_owned().concat(s.as_str()).concat(" above "),
                        DropZone::Bottom => "Move ".to_owned().concat(s.as_str()).concat(" below "),
                    };
                    return text.concat(t.as_str());
                },
                (Some(source), None) => {
                    let s = decimal(number_or_default(numbers, source.as_str()));
                    return "Choose where to place pane ".to_owned().concat(s.as_str());
                },
                (None, _) => {},
            }
            if self.preview_focused {
                return "Choose a pane to move".to_owned();
            }
            return match &self.hovered_pane {
                Some(hovered) => {
                    let h = decimal(number_or_default(numbers, hovered.as_str()));
                    "Drag pane ".to_owned().concat(h.as_str())
                },
                None => "Drag a pane to move or swap it".to_owned(),
            };
        }
        if self.selected >= self.items.len() {
            return String::new();
        }
        match self.items[self.selected] {
            PickerItem::Preset(preset) => {
                if self.current_preset == Some(self.selected) {
                    "Current layout".to_owned()
                } else {
                    preset.description().to_owned()
                }
            },
            PickerItem::Action(action) => {
                if action == PickerAction::Expand && self.preview_matches_current() {
                    "Already expanded".to_owned()
                } else if action == PickerAction::Balance && self.preview_matches_current() {
                    "Already balanced".to_owned()
                } else {
                    action.description().to_owned()
                }
            },
        }
    }

    /// The short note at the right of the list row for `index`.
    pub fn item_hint(&self, index: usize) -> (r: Option<&'static str>)
        ensures
            text_of(r) == self@.item_hint(index),
    {
        if self.current_preset == Some(index) {
            return Some("current");
        }
        if index >= self.items.len() {
            return None;
        }
        match self.items[index] {
            PickerItem::Action(PickerAction::Expand) => Some("⌘⌥↩"),
            PickerItem::Action(PickerAction::Balance) => Some("⌘⌥B"),
            PickerItem::Action(PickerAction::Rotate) => Some("⌘⌥R"),
            PickerItem::Action(PickerAction::Undo) => Some("⌘⌥Z"),
            _ => None,
        }
    }
}

/// The number of `id`, zero when it has none.
fn number_or_default(numbers: &Vec<(String, usize)>, id: &str) -> (r: usize)
    ensures
        r == number_or_zero(number_entries(numbers@), id@),
{
    match number_lookup(numbers, id) {
        Some(n) => n,
        None => 0,
    }
}

} // verus!

verus! {

/// Where `id` first stands in `ids`, or zero when it is not there.
fn position_or_first(ids: &Vec<String>, id: &str) -> (r: usize)
    ensures
        r == match id_position(ids.deep_view(), id@) {
            Some(i) => i as usize,
            None => 0,
        },
{
    let n = ids.len();
    let mut k: usize = 0;
    while k < n && !same_text(ids[k].as_str(), id)
        invariant
            n == ids@.len(),
            k <= n,
            forall|j: int| 0 <= j < k ==> ids.deep_view()[j] != id@,
        decreases n - k,
    {
        k = k + 1;
    }
    proof {
        let v = ids.deep_view();
        if k < n {
            assert(v[k as int] == id@);
            let c = choose|i: int| 0 <= i < v.len() && v[i] == id@ && forall|j: int| 0 <= j < i ==> v[j] != id@;
            assert(c == k);
        }
    }
    if k < n {
        k
    } else {
        0
    }
}

impl PickerModel {
    /// The picker after Herdr reported `layout` again, with `undo` the tree
    /// that undo would now restore.
    pub open spec fn refreshed(self, layout: DescriptionModel, undo: Option<LayoutTree>) -> PickerModel {
        let ids = listed_ids(layout.root);
        let now = layout.root.normalized()->0;
        let current = first_matching_preset(self.items, layout.root, layout.focused_pane_id, now);
        let updated = PickerModel {
            pane_numbers: extend_numbers(self.pane_numbers, ids, max_number(self.pane_numbers) + 1),
            layout: layout,
            current_preset: current,
            last_layout: match current {
                Some(i) => i,
                None => self.last_layout,
            },
            undo_target: undo,
            keyboard_pane: match id_position(ids, layout.focused_pane_id) {
                Some(i) => i as usize,
                None => 0,
            },
            preview_focused: self.preview_focused && self.is_rearrange_selected(),
            hovered_pane: None,
            drag_source: None,
            drop_target: None,
            armed_row: None,
            status: None,
            ..self
        };
        if !updated.item_enabled(updated.selected) {
            updated.move_selection(-1)
        } else {
            updated
        }
    }
}

impl Picker {
    /// Take in the layout Herdr reports after a change, and `undo`, what undo
    /// would restore now (or why that could not be found out). On an error
    /// the picker stays as it was.
    pub fn refresh_with(&mut self, layout: LayoutDescription, undo: Result<Option<LayoutNode>, AppError>) -> (r:
        Result<(), AppError>)
        requires
            layout.root@.pane_ids() is Some ==> numbering_fits(
                old(self)@.pane_numbers,
                layout.root@.pane_ids()->0,
            ),
        ensures
            match layout.root@.normalized() {
                None => r is Err && r->Err_0.is_message(MISSING_PANE_ID@) && final(self)@ == old(self)@,
                Some(_) => match undo {
                    Err(e) => r == Err::<(), AppError>(e) && final(self)@ == old(self)@,
                    Ok(u) => r is Ok && final(self)@ == old(self)@.refreshed(layout@, tree_of(u)),
                },
            },
            distinct_ids(old(self)@.pane_numbers) ==> distinct_ids(final(self)@.pane_numbers),
    {
        proof {
            crate::layout::lemma_ids_give_normalized(layout.root@);
        }
        let keep_keyboard_focus = self.preview_focused && self.is_rearrange_selected();
        let current_preset = match current_preset_for(self.items.as_slice(), &layout) {
            Ok(c) => c,
            Err(e) => return Err(e),
        };
        let undo_target = match undo {
            Ok(u) => u,
            Err(e) => return Err(e),
        };
        let pane_ids = match layout.root.pane_ids() {
            Ok(ids) => ids,
            Err(e) => return Err(e),
        };
        let keyboard_pane = position_or_first(&pane_ids, layout.focused_pane_id.as_str());
        self.ensure_pane_numbers(pane_ids.as_slice());
        self.layout = layout;
        self.current_preset = current_preset;
        if let Some(index) = current_preset {
            self.last_layout = index;
        }
        self.undo_target = undo_target;
        self.keyboard_pane = keyboard_pane;
        self.preview_focused = keep_keyboard_focus;
        self.hovered_pane = None;
        self.drag_source = None;
        self.drop_target = None;
        self.armed_row = None;
        self.status = None;
        if !self.item_enabled(self.selected) {
            proof {
                lemma_selection_keeps_numbers(self@, -1);
            }
            self.move_selection(-1);
        }
        Ok(())
    }
}

/// An operation the picker asks to be run on the tab.
#[derive(Clone, Copy, Debug, PartialEq, Eq, Structural)]
pub enum PickerOperation {
    Preset(LayoutPreset),
    Expand,
    Balance,
    Rotate,
    Undo,
}

/// What the picker's loop does next after a request.
#[derive(Debug)]
pub enum PickerStep {
    /// Draw again and wait for the next event.
    Redraw,
    /// Leave the picker.
    Close,
    /// Draw the "applying" status, then run the operation, if there is one.
    Run(Option<PickerOperation>),
    /// Draw the "applying" status, then build this layout.
    Build(LayoutNode),
}

/// What the picker's loop does next, as a mathematical value.
pub enum StepModel {
    Redraw,
    Close,
    Run(Option<PickerOperation>),
    Build(LayoutTree),
}

impl View for PickerStep {
    type V = StepModel;

    open spec fn view(&self) -> StepModel {
        match self {
            PickerStep::Redraw => StepModel::Redraw,
            PickerStep::Close => StepModel::Close,
            PickerStep::Run(op) => StepModel::Run(*op),
            PickerStep::Build(node) => StepModel::Build(node@),
        }
    }
}

/// The operation behind an item; none for Rearrange.
pub open spec fn operation_of(item: PickerItem) -> Option<PickerOperation> {
    match item {
        PickerItem::Preset(preset) => Some(PickerOperation::Preset(preset)),
        PickerItem::Action(PickerAction::Expand) => Some(PickerOperation::Expand),
        PickerItem::Action(PickerAction::Balance) => Some(PickerOperation::Balance),
        PickerItem::Action(PickerAction::Rotate) => Some(PickerOperation::Rotate),
        PickerItem::Action(PickerAction::Undo) => Some(PickerOperation::Undo),
        PickerItem::Action(PickerAction::Rearrange) => None,
    }
}

/// The outcome of an undo that changed nothing is an error for the picker.
pub fn undo_applied(changed: bool) -> (r: Result<(), AppError>)
    ensures
        changed ==> r is Ok,
        !changed ==> r is Err && r->Err_0.is_message("Nothing to undo"@),
{
    if changed {
        Ok(())
    } else {
        Err(message("Nothing to undo"))
    }
}

impl PickerModel {
    /// The operation of the selected item, when there is one.
    pub open spec fn selected_operation(self) -> Option<PickerOperation> {
        if self.selected < self.items.len() {
            operation_of(self.items[self.selected as int])
        } else {
            None
        }
    }

    /// The picker and its loop's next step after `request`.
    pub open spec fn on_request(self, request: RequestModel) -> (PickerModel, StepModel) {
        match request {
            RequestModel::Nothing => (self, StepModel::Redraw),
            RequestModel::Close => (self, StepModel::Close),
            RequestModel::Activate => if self.is_rearrange_selected() {
                (self.focus_preview(), StepModel::Redraw)
            } else if !self.can_apply() {
                (self, StepModel::Redraw)
            } else {
                (
                    PickerModel { status: Some(StatusModel::Applying), ..self },
                    StepModel::Run(self.selected_operation()),
                )
            },
            RequestModel::ApplyLayout(target) => (
                PickerModel { status: Some(StatusModel::Applying), ..self },
                StepModel::Build(target),
            ),
        }
    }
}

impl Picker {
    /// The operation of the selected item; none for Rearrange or when
    /// nothing is selected.
    pub fn selected_operation(&self) -> (r: Option<PickerOperation>)
        ensures
            r == self@.selected_operation(),
    {
        if self.selected >= self.items.len() {
            return None;
        }
        match self.items[self.selected] {
            PickerItem::Preset(preset) => Some(PickerOperation::Preset(preset)),
            PickerItem::Action(PickerAction::Expand) => Some(PickerOperation::Expand),
            PickerItem::Action(PickerAction::Balance) => Some(PickerOperation::Balance),
            PickerItem::Action(PickerAction::Rotate) => Some(PickerOperation::Rotate),
            PickerItem::Action(PickerAction::Undo) => Some(PickerOperation::Undo),
            PickerItem::Action(PickerAction::Rearrange) => None,
        }
    }

    /// Act on a request from a key or the mouse: Activate focuses the preview
    /// for Rearrange and otherwise runs the selected item when it can be
    /// applied; a layout from rearranging is built.
    pub fn on_request(&mut self, request: PickerRequest) -> (r: PickerStep)
        ensures
            (final(self)@, r@) == old(self)@.on_request(request@),
    {
        match request {
            PickerRequest::Nothing => PickerStep::Redraw,
            PickerRequest::Close => PickerStep::Close,
            PickerRequest::Activate => {
                if self.is_rearrange_selected() {
                    self.focus_preview();
                    PickerStep::Redraw
                } else if !self.can_apply() {
                    PickerStep::Redraw
                } else {
                    self.status = Some(PickerStatus::Applying);
                    PickerStep::Run(self.selected_operation())
                }
            },
            PickerRequest::ApplyLayout(target) => {
                self.status = Some(PickerStatus::Applying);
                PickerStep::Build(target)
            },
        }
    }

    /// Show why applying or refreshing failed.
    pub fn show_error(&mut self, error: &AppError)
        ensures
            final(self)@ == (PickerModel {
                status: Some(StatusModel::Error(error.spec_describe())),
                ..old(self)@
            }),
    {
        self.status = Some(PickerStatus::Error(error.describe()));
    }
}

} // verus!

verus! {

/// The tabs along the top of `area`: each title with two spaces on either
/// side, the second two cells after the first.
pub open spec fn spec_tab_areas(area: Rect) -> Seq<(PickerTab, Rect)> {
    let first = (PickerTab::Actions.spec_label().len() + 4) as u16;
    let second = (PickerTab::Layouts.spec_label().len() + 4) as u16;
    seq![
        (PickerTab::Actions, Rect::spec_new(area.x, area.y, first, 1)),
        (PickerTab::Layouts, Rect::spec_new((area.x + first + 2) as u16, area.y, second, 1)),
    ]
}

/// A heading of the list, grouping the rows below it.
#[derive(Clone, Copy, Debug, PartialEq, Eq, Structural)]
pub enum ListGroup {
    Adjust,
    History,
    Equal,
    Focused,
}

impl ListGroup {
    pub open spec fn spec_label(self) -> Seq<char> {
        match self {
            ListGroup::Adjust => "Adjust"@,
            ListGroup::History => "History"@,
            ListGroup::Equal => "Equal"@,
            ListGroup::Focused => "Focused"@,
        }
    }

    /// The heading's text.
    pub fn label(self) -> (r: &'static str)
        ensures
            r@ == self.spec_label(),
    {
        match self {
            ListGroup::Adjust => "Adjust",
            ListGroup::History => "History",
            ListGroup::Equal => "Equal",
            ListGroup::Focused => "Focused",
        }
    }
}

/// The item is listed under the heading.
pub open spec fn in_group(item: PickerItem, group: ListGroup) -> bool {
    match group {
        ListGroup::Adjust => item is Action && item->Action_0 != PickerAction::Undo,
        ListGroup::History => item == PickerItem::Action(PickerAction::Undo),
        ListGroup::Equal => item is Preset && item->Preset_0.spec_is_equal(),
        ListGroup::Focused => item is Preset && !item->Preset_0.spec_is_equal(),
    }
}

/// The positions of the items that belong under the heading, in order.
pub open spec fn group_members(items: Seq<PickerItem>, group: ListGroup) -> Seq<usize>
    decreases items.len(),
{
    if items.len() == 0 {
        Seq::empty()
    } else {
        group_members(items.drop_last(), group) + if in_group(items.last(), group) {
            seq![(items.len() - 1) as usize]
        } else {
            Seq::empty()
        }
    }
}

/// The rows listed under the heading: all members, but only the first
/// under History.
pub open spec fn group_indices(items: Seq<PickerItem>, group: ListGroup) -> Seq<usize> {
    let members = group_members(items, group);
    if group is History && members.len() > 1 {
        members.take(1)
    } else {
        members
    }
}

/// The headings of a tab's list.
pub open spec fn tab_groups(tab: PickerTab) -> (ListGroup, ListGroup) {
    match tab {
        PickerTab::Actions => (ListGroup::Adjust, ListGroup::History),
        PickerTab::Layouts => (ListGroup::Equal, ListGroup::Focused),
    }
}

/// A line of the list as a mathematical value.
pub enum LineModel {
    Heading(Seq<char>, Rect),
    Item(usize, Rect),
}

/// A line of the list: a heading, or the row of an item.
#[derive(Debug)]
pub enum ListLine {
    Heading(&'static str, Rect),
    Item(usize, Rect),
}

impl View for ListLine {
    type V = LineModel;

    open spec fn view(&self) -> LineModel {
        match self {
            ListLine::Heading(text, area) => LineModel::Heading(text@, *area),
            ListLine::Item(index, area) => LineModel::Item(*index, *area),
        }
    }
}

pub open spec fn lines_view(lines: Seq<ListLine>) -> Seq<LineModel> {
    lines.map_values(|l: ListLine| l@)
}

/// The rows of a group whose heading stands at `row`, one per item below it.
pub open spec fn group_rows(indices: Seq<usize>, x: u16, width: u16, row: int) -> Seq<(usize, Rect)> {
    Seq::new(indices.len(), |k: int| (indices[k], Rect::spec_new(x, (row + 1 + k) as u16, width, 1)))
}

/// A group's heading at `row` and its rows below.
pub open spec fn group_lines(group: ListGroup, indices: Seq<usize>, x: u16, width: u16, row: int) -> Seq<
    LineModel,
> {
    seq![LineModel::Heading(group.spec_label(), Rect::spec_new(x, row as u16, width, 1))] + group_rows(
        indices,
        x,
        width,
        row,
    ).map_values(|e: (usize, Rect)| LineModel::Item(e.0, e.1))
}

/// The lines of the list for `tab` in `area`: two groups, one blank line apart,
/// starting one line below the top.
pub open spec fn list_lines(items: Seq<PickerItem>, tab: PickerTab, area: Rect) -> Seq<LineModel> {
    let (g1, g2) = tab_groups(tab);
    let first = group_indices(items, g1);
    let start = area.y + 1;
    group_lines(g1, first, area.x, area.width, start) + group_lines(
        g2,
        group_indices(items, g2),
        area.x,
        area.width,
        start + first.len() + 2,
    )
}

/// The rows of the list for `tab` in `area`.
pub open spec fn list_rows(items: Seq<PickerItem>, tab: PickerTab, area: Rect) -> Seq<(usize, Rect)> {
    let (g1, g2) = tab_groups(tab);
    let first = group_indices(items, g1);
    let start = area.y + 1;
    group_rows(first, area.x, area.width, start) + group_rows(
        group_indices(items, g2),
        area.x,
        area.width,
        start + first.len() + 2,
    )
}

proof fn lemma_members_bounded(items: Seq<PickerItem>, group: ListGroup)
    ensures
        group_members(items, group).len() <= items.len(),
    decreases items.len(),
{
    if items.len() > 0 {
        lemma_members_bounded(items.drop_last(), group);
    }
}

fn members_of(items: &Vec<PickerItem>, group: ListGroup) -> (r: Vec<usize>)
    ensures
        r@ == group_indices(items@, group),
{
    let mut members: Vec<usize> = Vec::new();
    for i in 0..items.len()
        invariant
            members@ == group_members(items@.take(i as int), group),
    {
        assert(items@.take(i + 1).drop_last() =~= items@.take(i as int));
        let item = items[i];
        let belongs = match group {
            ListGroup::Adjust => match item {
                PickerItem::Action(action) => action != PickerAction::Undo,
                PickerItem::Preset(_) => false,
            },
            ListGroup::History => item == PickerItem::Action(PickerAction::Undo),
            ListGroup::Equal => match item {
                PickerItem::Preset(preset) => preset.is_equal(),
                PickerItem::Action(_) => false,
            },
            ListGroup::Focused => match item {
                PickerItem::Preset(preset) => !preset.is_equal(),
                PickerItem::Action(_) => false,
            },
        };
        let ghost before = members@;
        if belongs {
            members.push(i);
            assert(members@ =~= before + seq![i]);
        } else {
            assert(before + Seq::<usize>::empty() =~= before);
        }
    }
    assert(items@.take(items@.len() as int) =~= items@);
    if group == ListGroup::History && members.len() > 1 {
        members.truncate(1);
    }
    members
}

fn push_group(
    lines: &mut Vec<ListLine>,
    rows: &mut Vec<(usize, Rect)>,
    group: ListGroup,
    indices: &Vec<usize>,
    area: Rect,
    row: u16,
) -> (next: u16)
    requires
        row + indices@.len() + 1 <= u16::MAX,
    ensures
        lines_view(final(lines)@) == lines_view(old(lines)@) + group_lines(group, indices@, area.x, area.width, row as int),
        final(rows)@ == old(rows)@ + group_rows(indices@, area.x, area.width, row as int),
        next == row + 1 + indices@.len(),
{
    let ghost lines_before = lines_view(lines@);
    let ghost rows_before = rows@;
    lines.push(ListLine::Heading(group.label(), Rect::new(area.x, row, area.width, 1)));
    let mut current: u16 = row + 1;
    for k in 0..indices.len()
        invariant
            row + indices@.len() + 1 <= u16::MAX,
            current == row + 1 + k,
            lines_view(lines@) == lines_before + seq![
                LineModel::Heading(group.spec_label(), Rect::spec_new(area.x, row, area.width, 1)),
            ] + group_rows(indices@.take(k as int), area.x, area.width, row as int).map_values(
                |e: (usize, Rect)| LineModel::Item(e.0, e.1),
            ),
            rows@ == rows_before + group_rows(indices@.take(k as int), area.x, area.width, row as int),
    {
        let ghost lv = lines_view(lines@);
        let ghost rv = rows@;
        let cell = Rect::new(area.x, current, area.width, 1);
        lines.push(ListLine::Item(indices[k], cell));
        rows.push((indices[k], cell));
        assert(group_rows(indices@.take(k + 1), area.x, area.width, row as int) =~= group_rows(
            indices@.take(k as int),
            area.x,
            area.width,
            row as int,
        ).push((indices@[k as int], cell)));
        assert(lines_view(lines@) =~= lv.push(LineModel::Item(indices@[k as int], cell)));
        assert(rows@ =~= rv.push((indices@[k as int], cell)));
        current = current + 1;
    }
    assert(indices@.take(indices@.len() as int) =~= indices@);
    current
}

impl Picker {
    /// Place the tabs along the top of `area`.
    pub fn lay_out_tabs(&mut self, area: Rect)
        requires
            area.x + 26 <= u16::MAX,
        ensures
            final(self)@ == (PickerModel { tab_areas: spec_tab_areas(area), ..old(self)@ }),
    {
        proof {
            reveal_strlit("Actions");
            reveal_strlit("Layouts");
        }
        self.tab_areas = Vec::new();
        let first = PickerTab::Actions.label().unicode_len() as u16 + 4;
        self.tab_areas.push((PickerTab::Actions, Rect::new(area.x, area.y, first, 1)));
        let second = PickerTab::Layouts.label().unicode_len() as u16 + 4;
        self.tab_areas.push((PickerTab::Layouts, Rect::new(area.x + first + 2, area.y, second, 1)));
        assert(self.tab_areas@ =~= spec_tab_areas(area));
    }

    /// Place the headings and rows of the active tab's list in `area`; the
    /// rows become the places the mouse can choose.
    pub fn lay_out_list(&mut self, area: Rect) -> (r: Vec<ListLine>)
        requires
            area.y + 2 * old(self).items@.len() + 4 <= u16::MAX,
        ensures
            lines_view(r@) == list_lines(old(self)@.items, old(self)@.active_tab, area),
            final(self)@ == (PickerModel {
                row_areas: list_rows(old(self)@.items, old(self)@.active_tab, area),
                ..old(self)@
            }),
    {
        let (g1, g2) = match self.active_tab {
            PickerTab::Actions => (ListGroup::Adjust, ListGroup::History),
            PickerTab::Layouts => (ListGroup::Equal, ListGroup::Focused),
        };
        let first = members_of(&self.items, g1);
        let second = members_of(&self.items, g2);
        proof {
            lemma_members_bounded(self.items@, g1);
            lemma_members_bounded(self.items@, g2);
        }
        let mut lines: Vec<ListLine> = Vec::new();
        let mut rows: Vec<(usize, Rect)> = Vec::new();
        assert(lines_view(lines@) =~= Seq::<LineModel>::empty());
        let next = push_group(&mut lines, &mut rows, g1, &first, area, area.y + 1);
        push_group(&mut lines, &mut rows, g2, &second, area, next + 1);
        assert(lines_view(lines@) =~= list_lines(self@.items, self@.active_tab, area));
        assert(rows@ =~= list_rows(self@.items, self@.active_tab, area));
        self.row_areas = rows;
        lines
    }
}

/// What the preview area shows: the diagram, the tree drawn in it, the pane
/// to underline, and the sentence below.
#[derive(Debug)]
pub struct PreviewPlan {
    pub label_area: Rect,
    pub diagram_area: Rect,
    pub displayed: LayoutNode,
    pub highlighted: Option<String>,
    pub label: String,
}

/// `value - by`, or zero when that is negative.
pub open spec fn less_or_zero(value: int, by: int) -> u16 {
    if value >= by {
        (value - by) as u16
    } else {
        0
    }
}

impl PickerModel {
    /// The pane the preview underlines: the hovered one, or the keyboard's
    /// pane while choosing a pane to pick up.
    pub open spec fn highlighted_pane(self) -> Option<Seq<char>> {
        match self.hovered_pane {
            Some(hovered) => Some(hovered),
            None => {
                let ids = listed_ids(self.layout.root);
                if self.is_rearrange_selected() && self.preview_focused && self.drag_source is None
                    && self.keyboard_pane < ids.len() {
                    Some(ids[self.keyboard_pane as int])
                } else {
                    None
                }
            },
        }
    }

    /// The area of the diagram inside the preview `area`.
    pub open spec fn diagram_area(area: Rect) -> Rect {
        spec_centered_rect(Rect::spec_new(area.x, area.y, area.width, less_or_zero(area.height as int, 3)), 36, 11)
    }
}

/// What the preview area shows, as a mathematical value.
pub struct PlanModel {
    pub label_area: Rect,
    pub diagram_area: Rect,
    pub displayed: LayoutTree,
    pub highlighted: Option<Seq<char>>,
    pub label: Seq<char>,
}

pub open spec fn plan_view(plan: Option<PreviewPlan>) -> Option<PlanModel> {
    match plan {
        Some(p) => Some(
            PlanModel {
                label_area: p.label_area,
                diagram_area: p.diagram_area,
                displayed: p.displayed@,
                highlighted: p.highlighted.deep_view(),
                label: p.label@,
            },
        ),
        None => None,
    }
}

impl PickerModel {
    /// The tree drawn in the preview: the current one while rearranging,
    /// else what the selected item would give.
    pub open spec fn displayed_tree(self) -> Option<LayoutTree> {
        match self.preview_target() {
            Some(target) => Some(
                if self.is_rearrange_selected() {
                    self.layout.root
                } else {
                    target
                },
            ),
            None => None,
        }
    }

    /// The plan of the preview in `area`; none when the selected item's
    /// layout cannot be built.
    pub open spec fn preview_plan(self, area: Rect) -> Option<PlanModel> {
        match self.displayed_tree() {
            Some(displayed) => Some(
                PlanModel {
                    label_area: Rect::spec_new(area.x, less_or_zero(area.spec_bottom(), 2), area.width, 1),
                    diagram_area: PickerModel::diagram_area(area),
                    displayed,
                    highlighted: self.highlighted_pane(),
                    label: self.preview_label(self.pane_numbers),
                },
            ),
            None => None,
        }
    }

    /// The picker after planning the preview in `area`: the panes of the
    /// drawn tree become the places the mouse can reach.
    pub open spec fn after_preview(self, area: Rect) -> PickerModel {
        match self.displayed_tree() {
            Some(displayed) => PickerModel {
                pane_areas: pane_areas(displayed, PickerModel::diagram_area(area).spec_inner(1, 1)),
                ..self
            },
            None => self,
        }
    }
}

impl Picker {
    /// Plan the preview in `area`: the layout the selected item would give
    /// (the current one while rearranging), where each pane of it is drawn,
    /// and the sentence below. Nothing when that layout cannot be built;
    /// the drawn panes then stay as they were.
    pub fn lay_out_preview(&mut self, area: Rect) -> (r: Option<PreviewPlan>)
        requires
            area.wf(),
        ensures
            plan_view(r) == old(self)@.preview_plan(area),
            final(self)@ == old(self)@.after_preview(area),
    {
        let target = match self.preview_target() {
            Ok(t) => t,
            Err(_) => return None,
        };
        let label_area = Rect::new(area.x, area.bottom().saturating_sub(2), area.width, 1);
        let bounds = Rect::new(area.x, area.y, area.width, area.height.saturating_sub(3));
        let diagram_area = centered_rect(bounds, 36, 11);
        let rearranging = self.is_rearrange_selected();
        let displayed = if rearranging {
            self.layout.root.duplicate()
        } else {
            target
        };
        let inner = diagram_area.inner(1, 1);
        let label = self.preview_label(&self.pane_numbers);
        let highlighted = match &self.hovered_pane {
            Some(hovered) => Some(hovered.clone()),
            None => {
                let ids = ids_or_none(&self.layout.root);
                if rearranging && self.preview_focused && self.drag_source.is_none() && self.keyboard_pane
                    < ids.len() {
                    Some(ids[self.keyboard_pane].clone())
                } else {
                    None
                }
            },
        };
        let mut areas: Vec<(String, Rect)> = Vec::new();
        assert(area_entries(areas@) =~= Seq::<(Seq<char>, Rect)>::empty());
        collect_pane_areas(&displayed, inner, &mut areas);
        assert(area_entries(areas@) =~= pane_areas(displayed@, inner));
        self.pane_areas = areas;
        Some(PreviewPlan { label_area, diagram_area, displayed, highlighted, label })
    }
}

} // verus!

verus! {

/// How a pane's number is drawn in the preview.
#[derive(Clone, Copy, Debug, PartialEq, Eq, Structural)]
pub enum PaneTone {
    /// The pane being dragged.
    Source,
    /// The hovered pane, or the keyboard's pane.
    Highlighted,
    /// The tab's focused pane.
    Focused,
    Plain,
}

/// A pane's number as drawn in the preview, as a mathematical value.
pub struct MarkModel {
    pub x: u16,
    pub y: u16,
    pub text: Seq<char>,
    pub tone: PaneTone,
}

/// A pane's number as drawn in the preview, at its first cell.
#[derive(Debug)]
pub struct PaneMark {
    pub x: u16,
    pub y: u16,
    pub text: String,
    pub tone: PaneTone,
}

impl View for PaneMark {
    type V = MarkModel;

    open spec fn view(&self) -> MarkModel {
        MarkModel { x: self.x, y: self.y, text: self.text@, tone: self.tone }
    }
}

pub open spec fn marks_view(marks: Seq<PaneMark>) -> Seq<MarkModel> {
    marks.map_values(|m: PaneMark| m@)
}

/// The number of a pane, in brackets for the dragged one.
pub open spec fn mark_text(number: nat, source: bool) -> Seq<char> {
    if source {
        "["@ + spec_decimal(number) + "]"@
    } else {
        spec_decimal(number)
    }
}

/// The number of pane `id` centered in `area`.
pub open spec fn pane_mark(
    id: Seq<char>,
    area: Rect,
    numbers: Seq<(Seq<char>, usize)>,
    focused: Seq<char>,
    highlighted: Option<Seq<char>>,
    source: Option<Seq<char>>,
) -> MarkModel {
    let is_source = source == Some(id);
    let text = mark_text(number_or_zero(numbers, id), is_source);
    MarkModel {
        x: (area.x + less_or_zero(area.width as int, (text.len() as u16) as int) / 2) as u16,
        y: (area.y + less_or_zero(area.height as int, 1) / 2) as u16,
        text,
        tone: if is_source {
            PaneTone::Source
        } else if highlighted == Some(id) {
            PaneTone::Highlighted
        } else if id == focused {
            PaneTone::Focused
        } else {
            PaneTone::Plain
        },
    }
}

/// The dividers and pane numbers drawn for the tree in `area`, in drawing
/// order; splits without room draw nothing.
pub open spec fn preview_paint(
    t: LayoutTree,
    area: Rect,
    numbers: Seq<(Seq<char>, usize)>,
    focused: Seq<char>,
    highlighted: Option<Seq<char>>,
    source: Option<Seq<char>>,
) -> (Seq<(Rect, SplitDirection)>, Seq<MarkModel>)
    decreases t,
{
    match t {
        LayoutTree::Pane(info) => match info.id {
            Some(id) => (Seq::empty(), seq![pane_mark(id, area, numbers, focused, highlighted, source)]),
            None => (Seq::empty(), Seq::empty()),
        },
        LayoutTree::Split { direction, ratio, first, second } => if has_room(area, direction) {
            let (a, b, divider) = spec_split_rect(area, direction, ratio);
            let (d1, m1) = preview_paint(*first, a, numbers, focused, highlighted, source);
            let (d2, m2) = preview_paint(*second, b, numbers, focused, highlighted, source);
            (seq![(divider, direction)] + d1 + d2, m1 + m2)
        } else {
            (Seq::empty(), Seq::empty())
        },
    }
}

/// Append the dividers and pane numbers drawn for `node` in `area`.
pub fn paint_preview(
    node: &LayoutNode,
    area: Rect,
    numbers: &Vec<(String, usize)>,
    focused: &str,
    highlighted: &Option<String>,
    source: &Option<String>,
    dividers: &mut Vec<(Rect, SplitDirection)>,
    marks: &mut Vec<PaneMark>,
)
    requires
        area.wf(),
    ensures
        ({
            let (d, m) = preview_paint(
                node@,
                area,
                number_entries(numbers@),
                focused@,
                highlighted.deep_view(),
                source.deep_view(),
            );
            &&& final(dividers)@ == old(dividers)@ + d
            &&& marks_view(final(marks)@) == marks_view(old(marks)@) + m
        }),
    decreases node,
{
    match node {
        LayoutNode::Pane { pane_id, .. } => match pane_id {
            Some(id) => {
                let is_source = match source {
                    Some(s) => same_text(s.as_str(), id.as_str()),
                    None => false,
                };
                let number = decimal(number_or_default(numbers, id.as_str()));
                let text = if is_source {
                    "[".to_owned().concat(number.as_str()).concat("]")
                } else {
                    number
                };
                let width = text.as_str().unicode_len() as u16;
                let x = area.x + area.width.saturating_sub(width) / 2;
                let y = area.y + area.height.saturating_sub(1) / 2;
                let is_highlighted = match highlighted {
                    Some(h) => same_text(h.as_str(), id.as_str()),
                    None => false,
                };
                let tone = if is_source {
                    PaneTone::Source
                } else if is_highlighted {
                    PaneTone::Highlighted
                } else if same_text(id.as_str(), focused) {
                    PaneTone::Focused
                } else {
                    PaneTone::Plain
                };
                let ghost before = marks_view(marks@);
                marks.push(PaneMark { x, y, text, tone });
                assert(marks_view(marks@) =~= before.push(
                    pane_mark(id@, area, number_entries(numbers@), focused@, highlighted.deep_view(), source.deep_view()),
                ));
                assert(dividers@ =~= old(dividers)@ + Seq::<(Rect, SplitDirection)>::empty());
            },
            None => {
                assert(dividers@ =~= old(dividers)@ + Seq::<(Rect, SplitDirection)>::empty());
                assert(marks_view(marks@) =~= marks_view(old(marks)@) + Seq::<MarkModel>::empty());
            },
        },
        LayoutNode::Split { direction, ratio, first, second } => {
            let room = match direction {
                SplitDirection::Right => area.width >= 3,
                SplitDirection::Down => area.height >= 3,
            };
            if !room {
                assert(dividers@ =~= old(dividers)@ + Seq::<(Rect, SplitDirection)>::empty());
                assert(marks_view(marks@) =~= marks_view(old(marks)@) + Seq::<MarkModel>::empty());
                return;
            }
            let (first_area, second_area, divider) = split_rect(area, *direction, *ratio);
            dividers.push((divider, *direction));
            let ghost d0 = dividers@;
            let ghost m0 = marks_view(marks@);
            paint_preview(first, first_area, numbers, focused, highlighted, source, dividers, marks);
            paint_preview(second, second_area, numbers, focused, highlighted, source, dividers, marks);
            let ghost p1 = preview_paint(
                first@,
                first_area,
                number_entries(numbers@),
                focused@,
                highlighted.deep_view(),
                source.deep_view(),
            );
            let ghost p2 = preview_paint(
                second@,
                second_area,
                number_entries(numbers@),
                focused@,
                highlighted.deep_view(),
                source.deep_view(),
            );
            assert(dividers@ =~= old(dividers)@ + (seq![(divider, *direction)] + p1.0 + p2.0));
            assert(marks_view(marks@) =~= marks_view(old(marks)@) + (p1.1 + p2.1));
        },
    }
}

/// The first drawn area of pane `id`.
pub open spec fn area_of(areas: Seq<(Seq<char>, Rect)>, id: Seq<char>) -> Option<Rect>
    decreases areas.len(),
{
    if areas.len() == 0 {
        None
    } else if areas[0].0 == id {
        Some(areas[0].1)
    } else {
        area_of(areas.drop_first(), id)
    }
}

impl PickerModel {
    /// The part of the drop target shaded to show where the drop lands.
    pub open spec fn drop_highlight(self) -> Option<Rect> {
        match self.drop_target {
            Some((id, zone)) => match area_of(self.pane_areas, id) {
                Some(area) => Some(spec_zone_rect(area, zone)),
                None => None,
            },
            None => None,
        }
    }
}

impl Picker {
    /// The part of the drop target shaded to show where the drop lands.
    pub fn drop_highlight(&self) -> (r: Option<Rect>)
        requires
            forall|i: int| 0 <= i < self.pane_areas@.len() ==> (#[trigger] self.pane_areas@[i]).1.wf(),
        ensures
            r == self@.drop_highlight(),
    {
        let target = match &self.drop_target {
            Some(t) => t,
            None => return None,
        };
        let mut i: usize = 0;
        assert(area_entries(self.pane_areas@).skip(0) =~= area_entries(self.pane_areas@));
        while i < self.pane_areas.len()
            invariant
                i <= self.pane_areas@.len(),
                forall|j: int| 0 <= j < self.pane_areas@.len() ==> (#[trigger] self.pane_areas@[j]).1.wf(),
                self@.drop_target == Some((target.pane_id@, target.zone)),
                area_of(self@.pane_areas, target.pane_id@) == area_of(
                    area_entries(self.pane_areas@).skip(i as int),
                    target.pane_id@,
                ),
            decreases self.pane_areas@.len() - i,
        {
            assert(area_entries(self.pane_areas@).skip(i as int)[0] == (
                self.pane_areas@[i as int].0@,
                self.pane_areas@[i as int].1,
            ));
            if same_text(self.pane_areas[i].0.as_str(), target.pane_id.as_str()) {
                return Some(zone_rect(self.pane_areas[i].1, target.zone));
            }
            assert(area_entries(self.pane_areas@).skip(i as int).drop_first() =~= area_entries(
                self.pane_areas@,
            ).skip(i + 1));
            i = i + 1;
        }
        None
    }
}

/// The footer as a mathematical value.
pub enum FooterModel {
    Applying,
    Error(Seq<char>),
    Hints(Seq<(Seq<char>, Seq<char>)>),
}

/// The line at the bottom: the status, or the keys that work now and what
/// they do.
#[derive(Debug)]
pub enum Footer {
    Applying,
    Error(String),
    Hints(Vec<(&'static str, &'static str)>),
}

impl View for Footer {
    type V = FooterModel;

    open spec fn view(&self) -> FooterModel {
        match self {
            Footer::Applying => FooterModel::Applying,
            Footer::Error(text) => FooterModel::Error(text@),
            Footer::Hints(hints) => FooterModel::Hints(
                hints@.map_values(|h: (&'static str, &'static str)| (h.0@, h.1@)),
            ),
        }
    }
}

impl PickerModel {
    /// The footer for the picker's state.
    pub open spec fn footer(self) -> FooterModel {
        match self.status {
            Some(StatusModel::Applying) => FooterModel::Applying,
            Some(StatusModel::Error(text)) => FooterModel::Error(text),
            None => FooterModel::Hints(
                if self.unavailable is Some {
                    seq![("esc"@, "close"@)]
                } else if self.preview_focused && self.drag_source is Some {
                    seq![("arrows"@, "target"@), ("tab"@, "position"@), ("space"@, "place"@), ("esc"@, "back"@)]
                } else if self.preview_focused {
                    seq![("arrows"@, "pane"@), ("space"@, "pick up"@), ("esc"@, "back"@)]
                } else if self.is_rearrange_selected() {
                    seq![("drag"@, "panes"@), ("tab"@, "switch"@), ("enter"@, "keyboard"@), ("esc"@, "close"@)]
                } else {
                    seq![("↑↓"@, "choose"@), ("tab"@, "switch"@), ("enter"@, "apply"@), ("esc"@, "close"@)]
                },
            ),
        }
    }
}

impl Picker {
    /// The footer for the picker's state.
    pub fn footer(&self) -> (r: Footer)
        ensures
            r@ == self@.footer(),
    {
        match &self.status {
            Some(PickerStatus::Applying) => return Footer::Applying,
            Some(PickerStatus::Error(text)) => return Footer::Error(text.clone()),
            None => {},
        }
        let hints: Vec<(&'static str, &'static str)> = if self.unavailable.is_some() {
            vec![("esc", "close")]
        } else if self.preview_focused && self.drag_source.is_some() {
            vec![("arrows", "target"), ("tab", "position"), ("space", "place"), ("esc", "back")]
        } else if self.preview_focused {
            vec![("arrows", "pane"), ("space", "pick up"), ("esc", "back")]
        } else if self.is_rearrange_selected() {
            vec![("drag", "panes"), ("tab", "switch"), ("enter", "keyboard"), ("esc", "close")]
        } else {
            vec![("↑↓", "choose"), ("tab", "switch"), ("enter", "apply"), ("esc", "close")]
        };
        let f = Footer::Hints(hints);
        proof {
            if let FooterModel::Hints(got) = f@ {
                if let FooterModel::Hints(want) = self@.footer() {
                    assert(got =~= want);
                }
            }
        }
        f
    }
}

} // verus!

verus! {

/// Escape puts down a picked-up pane first, keeping the keyboard on the
/// preview.
pub proof fn law_escape_puts_down_first(m: PickerModel)
    requires
        m.preview_focused,
        m.is_rearrange_selected(),
        m.drag_source is Some,
    ensures
        m.handle_key(PickerKey::Esc).0.drag_source is None,
        m.handle_key(PickerKey::Esc).0.drop_target is None,
        m.handle_key(PickerKey::Esc).0.preview_focused,
        m.handle_key(PickerKey::Esc).1 == RequestModel::Nothing,
{
}

/// With nothing picked up, Escape returns from the preview to the list;
/// from the list, it closes the picker.
pub proof fn law_escape_then_leaves(m: PickerModel)
    requires
        m.drag_source is None,
    ensures
        m.preview_focused && m.is_rearrange_selected() ==> !m.handle_key(PickerKey::Esc).0.preview_focused
            && m.handle_key(PickerKey::Esc).1 == RequestModel::Nothing,
        !m.preview_focused ==> m.handle_key(PickerKey::Esc).1 == RequestModel::Close,
{
}

/// Switching to the other tab and back brings back the selection: each tab
/// remembers its own.
pub proof fn law_switching_back_restores_selection(m: PickerModel)
    requires
        m.selected == match m.active_tab {
            PickerTab::Actions => m.last_action,
            PickerTab::Layouts => m.last_layout,
        },
        m.active_tab is Actions ==> !(m.last_layout < m.items.len() && m.items[m.last_layout as int] is Action),
        m.active_tab is Layouts ==> !(m.last_action < m.items.len() && m.items[m.last_action as int] is Preset),
    ensures
        m.switch_to_tab(m.active_tab.spec_other()).switch_to_tab(m.active_tab).selected == m.selected,
        m.switch_to_tab(m.active_tab.spec_other()).switch_to_tab(m.active_tab).active_tab == m.active_tab,
{
}

/// The Layouts tab opens on the preset matching the current layout.
pub proof fn law_layouts_open_on_current(m: PickerModel, index: usize)
    requires
        m.active_tab is Actions,
        m.current_preset == Some(index),
        m.last_layout == index,
    ensures
        m.switch_to_tab(PickerTab::Layouts).selected == index,
{
}

/// An available picker lists Rearrange first, and the Actions tab before
/// the presets.
pub proof fn law_opens_on_rearrange(pane_count: nat)
    ensures
        picker_items(pane_count).len() >= 5,
        picker_items(pane_count)[0] == PickerItem::Action(PickerAction::Rearrange),
        forall|i: int| 0 <= i < 5 ==> (#[trigger] picker_items(pane_count)[i]) is Action,
        forall|i: int| 5 <= i < picker_items(pane_count).len() ==> (#[trigger] picker_items(pane_count)[i]) is Preset,
{
}

proof fn lemma_seek_lands_on_enabled(m: PickerModel, indices: Seq<usize>, current: int, amount: int, remaining: nat)
    ensures
        m.seek(indices, current, amount, remaining) == m || m.seek(indices, current, amount, remaining).item_enabled(
            m.seek(indices, current, amount, remaining).selected,
        ),
    decreases remaining,
{
    if remaining > 0 && indices.len() > 0 {
        let next = (current + amount) % (indices.len() as int);
        if !m.item_enabled(indices[next]) {
            lemma_seek_lands_on_enabled(m, indices, next, amount, (remaining - 1) as nat);
        }
    }
}

/// Moving the selection never lands on an item that cannot be chosen: it
/// skips them, or stays.
pub proof fn law_selection_skips_unavailable(m: PickerModel, amount: int)
    ensures
        m.move_selection(amount) == m || m.move_selection(amount).item_enabled(m.move_selection(amount).selected),
{
    let indices = tab_indices(m.items, m.active_tab);
    if let Some(p) = position_of(indices, m.selected) {
        lemma_seek_lands_on_enabled(m, indices, p, amount, indices.len());
    }
}

} // verus!

verus! {

/// No pane ID has two entries.
pub open spec fn distinct_ids(entries: Seq<(Seq<char>, usize)>) -> bool {
    forall|i: int, j: int| 0 <= i < j < entries.len() ==> #[trigger] entries[i].0 != #[trigger] entries[j].0
}

proof fn lemma_number_absent(entries: Seq<(Seq<char>, usize)>, id: Seq<char>, k: int)
    requires
        number_for(entries, id) is None,
        0 <= k < entries.len(),
    ensures
        entries[k].0 != id,
    decreases entries.len(),
{
    if k > 0 {
        lemma_number_absent(entries.drop_first(), id, k - 1);
    }
}

/// Numbering new panes never gives a pane ID a second entry.
pub proof fn law_numbering_keeps_ids_distinct(entries: Seq<(Seq<char>, usize)>, ids: Seq<Seq<char>>, next: nat)
    requires
        distinct_ids(entries),
    ensures
        distinct_ids(extend_numbers(entries, ids, next)),
    decreases ids.len(),
{
    if ids.len() > 0 {
        if number_for(entries, ids[0]) is Some {
            law_numbering_keeps_ids_distinct(entries, ids.drop_first(), next);
        } else {
            let grown = entries.push((ids[0], next as usize));
            assert forall|i: int, j: int| 0 <= i < j < grown.len() implies #[trigger] grown[i].0 != #[trigger] grown[j].0 by {
                if j == entries.len() {
                    lemma_number_absent(entries, ids[0], i);
                }
            }
            law_numbering_keeps_ids_distinct(grown, ids.drop_first(), next + 1);
        }
    }
}

/// Where the first entry for `id` stands.
pub open spec fn entry_index(entries: Seq<(Seq<char>, usize)>, id: Seq<char>) -> Option<int>
    decreases entries.len(),
{
    if entries.len() == 0 {
        None
    } else if entries[0].0 == id {
        Some(0)
    } else {
        match entry_index(entries.drop_first(), id) {
            Some(k) => Some(k + 1),
            None => None,
        }
    }
}

/// The panes `ids` numbered from one in order; a repeated ID keeps one entry,
/// numbered by its last place.
pub open spec fn fresh_numbers(ids: Seq<Seq<char>>) -> Seq<(Seq<char>, usize)>
    decreases ids.len(),
{
    if ids.len() == 0 {
        Seq::empty()
    } else {
        let earlier = fresh_numbers(ids.drop_last());
        let id = ids.last();
        match entry_index(earlier, id) {
            Some(k) => earlier.update(k, (id, ids.len() as usize)),
            None => earlier.push((id, ids.len() as usize)),
        }
    }
}

proof fn lemma_entry_index(entries: Seq<(Seq<char>, usize)>, id: Seq<char>)
    ensures
        match entry_index(entries, id) {
            Some(k) => 0 <= k < entries.len() && entries[k].0 == id,
            None => forall|j: int| 0 <= j < entries.len() ==> #[trigger] entries[j].0 != id,
        },
    decreases entries.len(),
{
    if entries.len() > 0 {
        lemma_entry_index(entries.drop_first(), id);
        if entries[0].0 != id && entry_index(entries.drop_first(), id) is None {
            assert forall|j: int| 0 <= j < entries.len() implies #[trigger] entries[j].0 != id by {
                if j > 0 {
                    assert(entries[j] == entries.drop_first()[j - 1]);
                }
            }
        }
    }
}

/// Numbering a picker's panes gives each pane ID one entry; when the IDs are
/// distinct, the pane at place `i` gets the number `i + 1`.
pub proof fn law_fresh_numbers_are_distinct(ids: Seq<Seq<char>>)
    ensures
        distinct_ids(fresh_numbers(ids)),
        fresh_numbers(ids).len() <= ids.len(),
        (forall|i: int, j: int| 0 <= i < j < ids.len() ==> #[trigger] ids[i] != #[trigger] ids[j])
            ==> fresh_numbers(ids) == ids.map(|i: int, id: Seq<char>| (id, (i + 1) as usize)),
    decreases ids.len(),
{
    if ids.len() > 0 {
        let rest = ids.drop_last();
        law_fresh_numbers_are_distinct(rest);
        let earlier = fresh_numbers(rest);
        let id = ids.last();
        lemma_entry_index(earlier, id);
        let now = fresh_numbers(ids);
        assert forall|i: int, j: int| 0 <= i < j < now.len() implies #[trigger] now[i].0 != #[trigger] now[j].0 by {
            match entry_index(earlier, id) {
                Some(k) => {
                    assert(now[i].0 == earlier[i].0);
                    assert(now[j].0 == earlier[j].0);
                },
                None => {
                    if j == earlier.len() {
                        assert(now[i].0 == earlier[i].0);
                    } else {
                        assert(now[i].0 == earlier[i].0);
                        assert(now[j].0 == earlier[j].0);
                    }
                },
            }
        }
        if forall|i: int, j: int| 0 <= i < j < ids.len() ==> #[trigger] ids[i] != #[trigger] ids[j] {
            assert forall|i: int, j: int| 0 <= i < j < rest.len() implies #[trigger] rest[i] != #[trigger] rest[j] by {
                assert(rest[i] == ids[i] && rest[j] == ids[j]);
            }
            let mapped = rest.map(|i: int, x: Seq<char>| (x, (i + 1) as usize));
            assert(earlier == mapped);
            if let Some(k) = entry_index(earlier, id) {
                assert(earlier[k].0 == rest[k]);
                assert(ids[k] == rest[k]);
                assert(ids[k] != ids[ids.len() - 1]);
            }
            assert(now =~= ids.map(|i: int, x: Seq<char>| (x, (i + 1) as usize)));
        }
    }
}

} // verus!

verus! {

proof fn lemma_seek_keeps_numbers(m: PickerModel, indices: Seq<usize>, current: int, amount: int, remaining: nat)
    ensures
        m.seek(indices, current, amount, remaining).pane_numbers == m.pane_numbers,
    decreases remaining,
{
    if remaining > 0 && indices.len() > 0 {
        let next = (current + amount) % (indices.len() as int);
        if !m.item_enabled(indices[next]) {
            lemma_seek_keeps_numbers(m, indices, next, amount, (remaining - 1) as nat);
        }
    }
}

/// Moving the selection leaves the pane numbers alone.
proof fn lemma_selection_keeps_numbers(m: PickerModel, amount: int)
    ensures
        m.move_selection(amount).pane_numbers == m.pane_numbers,
{
    let indices = tab_indices(m.items, m.active_tab);
    if let Some(p) = position_of(indices, m.selected) {
        lemma_seek_keeps_numbers(m, indices, p, amount, indices.len());
    }
}

} // verus!

verus! {

/// The largest number handed out is at least each one.
proof fn lemma_max_number_bounds(entries: Seq<(Seq<char>, usize)>, i: int)
    requires
        0 <= i < entries.len(),
    ensures
        entries[i].1 <= max_number(entries),
    decreases entries.len(),
{
    if i < entries.len() - 1 {
        lemma_max_number_bounds(entries.drop_last(), i);
    }
}

proof fn lemma_numbering_appends(entries: Seq<(Seq<char>, usize)>, ids: Seq<Seq<char>>, next: nat)
    requires
        next + extend_numbers(entries, ids, next).len() - entries.len() <= usize::MAX,
    ensures
        extend_numbers(entries, ids, next).len() >= entries.len(),
        extend_numbers(entries, ids, next).take(entries.len() as int) == entries,
        forall|j: int|
            entries.len() <= j < extend_numbers(entries, ids, next).len() ==> #[trigger] extend_numbers(
                entries,
                ids,
                next,
            )[j].1 == next + (j - entries.len()),
    decreases ids.len(),
{
    lemma_extend_grows(entries, ids, next);
    let e = extend_numbers(entries, ids, next);
    if ids.len() == 0 {
        assert(e.take(entries.len() as int) =~= entries);
    } else if number_for(entries, ids[0]) is Some {
        lemma_numbering_appends(entries, ids.drop_first(), next);
    } else {
        let grown = entries.push((ids[0], next as usize));
        lemma_extend_grows(grown, ids.drop_first(), next + 1);
        lemma_numbering_appends(grown, ids.drop_first(), next + 1);
        assert(e.take(grown.len() as int)[entries.len() as int] == e[entries.len() as int]);
        assert(e.take(entries.len() as int) =~= grown.take(entries.len() as int));
        assert(grown.take(entries.len() as int) =~= entries);
    }
}

/// Numbering new panes, as `ensure_pane_numbers` does, keeps every entry
/// already there, in place, so no pane that had a number changes it; it
/// appends the new ones with the numbers that follow the largest one handed
/// out, counting up by one, so each new pane gets a number that no other
/// pane has.
pub proof fn law_numbering_appends_fresh(entries: Seq<(Seq<char>, usize)>, ids: Seq<Seq<char>>)
    requires
        numbering_fits(entries, ids),
    ensures
        ({
            let next = max_number(entries) + 1;
            let e = extend_numbers(entries, ids, next);
            &&& e.len() >= entries.len()
            &&& e.take(entries.len() as int) == entries
            &&& forall|j: int| entries.len() <= j < e.len() ==> #[trigger] e[j].1 == next + (j - entries.len())
            &&& forall|i: int, j: int|
                0 <= i < j < e.len() && entries.len() <= j ==> #[trigger] e[i].1 < #[trigger] e[j].1
            &&& forall|i: int, j: int|
                0 <= i < e.len() && entries.len() <= j < e.len() && i != j ==> #[trigger] e[i].1
                    != #[trigger] e[j].1
            &&& forall|id: Seq<char>|
                #[trigger] number_for(entries, id) is Some ==> number_for(e, id) == number_for(entries, id)
        }),
{
    let next = max_number(entries) + 1;
    lemma_numbering_appends(entries, ids, next);
    let e = extend_numbers(entries, ids, next);
    assert forall|id: Seq<char>| #[trigger] number_for(entries, id) is Some implies number_for(e, id)
        == number_for(entries, id) by {
        law_numbers_stay_with_ids(entries, ids, next, id);
    }
    assert forall|i: int, j: int| 0 <= i < j < e.len() && entries.len() <= j implies #[trigger] e[i].1
        < #[trigger] e[j].1 by {
        if i < entries.len() {
            assert(e[i] == e.take(entries.len() as int)[i]);
            lemma_max_number_bounds(entries, i);
        }
    }
    assert forall|i: int, j: int| 0 <= i < e.len() && entries.len() <= j < e.len() && i != j implies #[trigger] e[i].1
        != #[trigger] e[j].1 by {
        if i < entries.len() {
            assert(e[i] == e.take(entries.len() as int)[i]);
            lemma_max_number_bounds(entries, i);
        }
    }
}

} // verus!

verus! {

/// Whether `u` holds the pane `moved` in a split of `direction` beside the
/// pane `target`, after it when `after` holds and before it otherwise.
pub open spec fn placed_beside(
    u: LayoutTree,
    moved: Seq<char>,
    target: Seq<char>,
    direction: SplitDirection,
    after: bool,
) -> bool {
    &&& u.path_to(moved) matches Some(pp)
    &&& pp.len() > 0
    &&& pp.last() == after
    &&& u.path_to(target) == Some(pp.drop_last().push(!after))
    &&& u.at_path(pp.drop_last()) matches Some(LayoutTree::Split { direction: d, .. })
    &&& d == direction
}

/// A drop puts the dragged pane where its zone says: on the left edge of
/// the target, to its left in a split side by side; on the right edge, to
/// its right; on the top edge, above it in a stacked split; on the bottom
/// edge, below it; in the center, the two panes trade places.
pub proof fn law_drop_zone_places(m: PickerModel)
    ensures
        m.target_layout() matches Some(u) ==> match (m.drag_source, m.drop_target) {
            (Some(source), Some((target, zone))) => match zone {
                DropZone::Left => placed_beside(u, source, target, SplitDirection::Right, false),
                DropZone::Right => placed_beside(u, source, target, SplitDirection::Right, true),
                DropZone::Top => placed_beside(u, source, target, SplitDirection::Down, false),
                DropZone::Bottom => placed_beside(u, source, target, SplitDirection::Down, true),
                DropZone::Center => u.path_to(source) == m.layout.root.path_to(target) && u.path_to(target)
                    == m.layout.root.path_to(source),
            },
            _ => false,
        },
{
    if let (Some(source), Some((target, zone))) = (m.drag_source, m.drop_target) {
        let root = m.layout.root;
        match zone {
            DropZone::Center => {
                if swap_result(root, source, target) is Some {
                    crate::layout::lemma_exchange_needs_ids(root, source, target);
                    crate::layout::lemma_exchanged_paths(root, source, target, source);
                    crate::layout::lemma_exchanged_paths(root, source, target, target);
                }
            },
            _ => {
                let (direction, before) = match zone {
                    DropZone::Left => (SplitDirection::Right, true),
                    DropZone::Right => (SplitDirection::Right, false),
                    DropZone::Top => (SplitDirection::Down, true),
                    _ => (SplitDirection::Down, false),
                };
                if dock_result(root, source, target, direction, before) is Some {
                    crate::layout::law_dock_places_side_by_side(root, source, target, direction, before);
                    let p = root.without(source)->0->0.path_to(target)->0;
                    assert(p.push(!before).drop_last() =~= p);
                }
            },
        }
    }
}

} // verus!
