use vstd::prelude::*;

use crate::text::same_text;
use crate::error::{
    message, AppError, DROP_TARGET_GONE, LAYOUT_NEEDS_A_PANE, MISSING_PANE_ID,
    SAME_DROP_TARGET, SAME_SWAP_PANES, STALE_SPLIT_PATH,
};

verus! {

/// The axis along which a split divides its area.
#[derive(Clone, Copy, Debug, PartialEq, Eq, Structural)]
pub enum SplitDirection {
    Right,
    Down,
}

impl SplitDirection {
    pub open spec fn spec_rotated(self) -> SplitDirection {
        match self {
            SplitDirection::Right => SplitDirection::Down,
            SplitDirection::Down => SplitDirection::Right,
        }
    }

    pub open spec fn spec_name(self) -> Seq<char> {
        match self {
            SplitDirection::Right => "right"@,
            SplitDirection::Down => "down"@,
        }
    }

    /// The other axis.
    pub fn rotated(self) -> (r: Self)
        ensures
            r == self.spec_rotated(),
    {
        match self {
            SplitDirection::Right => SplitDirection::Down,
            SplitDirection::Down => SplitDirection::Right,
        }
    }

    /// The lowercase name Herdr uses for the direction.
    pub fn as_str(self) -> (s: &'static str)
        ensures
            s@ == self.spec_name(),
    {
        match self {
            SplitDirection::Right => "right",
            SplitDirection::Down => "down",
        }
    }
}


/// Split ratios are held as integers: the share of the first child in
/// billionths of the split's area. Herdr speaks of ratios as fractions; a
/// fraction `f` is held as `f` times this scale, rounded to the nearest
/// billionth, and sent back as the held value divided by the scale. Shares
/// that are not whole billionths (a third, two thirds) therefore reach Herdr
/// off by less than one billionth, and layouts are compared only to the
/// nearest ten-thousandth (see `comparable_ratio`), far above that error.
pub const RATIO_SCALE: u32 = 1_000_000_000;

/// What the library reads and keeps of a pane, as mathematical values.
pub struct PaneInfo {
    pub id: Option<Seq<char>>,
    pub cwd: Option<Seq<char>>,
    pub label: Option<Seq<char>>,
    pub command: Option<Seq<Seq<char>>>,
    pub env: Seq<(Seq<char>, Seq<char>)>,
}

/// The mathematical model of a layout tree.
pub enum LayoutTree {
    Pane(PaneInfo),
    Split { direction: SplitDirection, ratio: u32, first: Box<LayoutTree>, second: Box<LayoutTree> },
}

/// The ratio of an even split.
pub const HALF_RATIO: u32 = 500_000_000;

/// A pane carrying only its ID, as every pane that Arrange creates does.
pub open spec fn plain_pane(id: Seq<char>) -> LayoutTree {
    LayoutTree::Pane(
        PaneInfo { id: Some(id), cwd: None, label: None, command: None, env: Seq::empty() },
    )
}

pub open spec fn split_of(
    direction: SplitDirection,
    ratio: u32,
    first: LayoutTree,
    second: LayoutTree,
) -> LayoutTree {
    LayoutTree::Split { direction, ratio, first: Box::new(first), second: Box::new(second) }
}

pub open spec fn exchange_id(id: Seq<char>, a: Seq<char>, b: Seq<char>) -> Seq<char> {
    if id == a {
        b
    } else if id == b {
        a
    } else {
        id
    }
}

/// A ratio in billionths rounded to the nearest ten-thousandth, halves up.
pub open spec fn comparable_ratio(ratio: u32) -> i64 {
    ((ratio + 50_000) / 100_000) as i64
}

/// The model of a layout compared up to ratio rounding.
pub enum ComparableTree {
    Pane(Seq<char>),
    Split { direction: SplitDirection, ratio: i64, first: Box<ComparableTree>, second: Box<ComparableTree> },
}

/// What swapping two panes gives, when the swap is allowed and every pane has an ID.
pub open spec fn swap_result(t: LayoutTree, a: Seq<char>, b: Seq<char>) -> Option<LayoutTree> {
    if a == b || t.path_to(a) is None || t.path_to(b) is None {
        None
    } else {
        t.exchanged(a, b)
    }
}

/// What docking gives, when the dock is allowed and every pane has an ID.
pub open spec fn dock_result(
    t: LayoutTree,
    pane: Seq<char>,
    target: Seq<char>,
    direction: SplitDirection,
    before_target: bool,
) -> Option<LayoutTree> {
    if pane == target || t.path_to(pane) is None || t.path_to(target) is None || t.without(pane) is None {
        None
    } else {
        t.docked(pane, target, direction, before_target)
    }
}

impl LayoutTree {
    /// The pane IDs in reading order, or `None` when some pane has no ID.
    pub open spec fn pane_ids(self) -> Option<Seq<Seq<char>>>
        decreases self,
    {
        match self {
            LayoutTree::Pane(info) => match info.id {
                Some(id) => Some(seq![id]),
                None => None,
            },
            LayoutTree::Split { first, second, .. } => match (first.pane_ids(), second.pane_ids()) {
                (Some(a), Some(b)) => Some(a + b),
                _ => None,
            },
        }
    }

    /// The ID of the leftmost pane.
    pub open spec fn first_pane_id(self) -> Option<Seq<char>>
        decreases self,
    {
        match self {
            LayoutTree::Pane(info) => info.id,
            LayoutTree::Split { first, .. } => first.first_pane_id(),
        }
    }

    /// The turns (`false` for the first child, `true` for the second) that lead
    /// from the root to the first pane, in reading order, whose ID is `target`.
    pub open spec fn path_to(self, target: Seq<char>) -> Option<Seq<bool>>
        decreases self,
    {
        match self {
            LayoutTree::Pane(info) => if info.id == Some(target) {
                Some(Seq::empty())
            } else {
                None
            },
            LayoutTree::Split { first, second, .. } => match first.path_to(target) {
                Some(p) => Some(seq![false] + p),
                None => match second.path_to(target) {
                    Some(p) => Some(seq![true] + p),
                    None => None,
                },
            },
        }
    }

    /// The subtree reached by following `path`, if every turn meets a split.
    pub open spec fn at_path(self, path: Seq<bool>) -> Option<LayoutTree>
        decreases path.len(),
    {
        if path.len() == 0 {
            Some(self)
        } else {
            match self {
                LayoutTree::Pane(_) => None,
                LayoutTree::Split { first, second, .. } => if path[0] {
                    second.at_path(path.drop_first())
                } else {
                    first.at_path(path.drop_first())
                },
            }
        }
    }

    /// The tree with the subtree at `path` replaced, if every turn meets a split.
    pub open spec fn with_at_path(self, path: Seq<bool>, replacement: LayoutTree) -> Option<
        LayoutTree,
    >
        decreases path.len(),
    {
        if path.len() == 0 {
            Some(replacement)
        } else {
            match self {
                LayoutTree::Pane(_) => None,
                LayoutTree::Split { direction, ratio, first, second } => if path[0] {
                    match second.with_at_path(path.drop_first(), replacement) {
                        Some(n) => Some(split_of(direction, ratio, *first, n)),
                        None => None,
                    }
                } else {
                    match first.with_at_path(path.drop_first(), replacement) {
                        Some(n) => Some(split_of(direction, ratio, n, *second)),
                        None => None,
                    }
                },
            }
        }
    }

    /// The tree without the panes whose ID is `target`, each emptied split
    /// collapsing into its other child; the inner `None` when nothing is
    /// left, the outer `None` when some pane has no ID.
    pub open spec fn without(self, target: Seq<char>) -> Option<Option<LayoutTree>>
        decreases self,
    {
        match self {
            LayoutTree::Pane(info) => match info.id {
                Some(id) => if id == target {
                    Some(None)
                } else {
                    Some(Some(self))
                },
                None => None,
            },
            LayoutTree::Split { direction, ratio, first, second } => match (
                first.without(target),
                second.without(target),
            ) {
                (Some(a), Some(b)) => Some(
                    match (a, b) {
                        (Some(x), Some(y)) => Some(split_of(direction, ratio, x, y)),
                        (Some(x), None) => Some(x),
                        (None, Some(y)) => Some(y),
                        (None, None) => None,
                    },
                ),
                _ => None,
            },
        }
    }

    /// The tree with the IDs `a` and `b` exchanged, every pane rebuilt from
    /// its ID alone; `None` when some pane has no ID.
    pub open spec fn exchanged(self, a: Seq<char>, b: Seq<char>) -> Option<LayoutTree>
        decreases self,
    {
        match self {
            LayoutTree::Pane(info) => match info.id {
                Some(id) => Some(plain_pane(exchange_id(id, a, b))),
                None => None,
            },
            LayoutTree::Split { direction, ratio, first, second } => match (
                first.exchanged(a, b),
                second.exchanged(a, b),
            ) {
                (Some(x), Some(y)) => Some(split_of(direction, ratio, x, y)),
                _ => None,
            },
        }
    }

    /// `pane` taken out of the tree and docked beside the first pane `target`,
    /// in a new even split of `direction`, before or after it.
    pub open spec fn docked(
        self,
        pane: Seq<char>,
        target: Seq<char>,
        direction: SplitDirection,
        before_target: bool,
    ) -> Option<LayoutTree> {
        match self.without(pane) {
            Some(Some(rest)) => match rest.path_to(target) {
                Some(p) => match rest.at_path(p) {
                    Some(t) => rest.with_at_path(
                        p,
                        if before_target {
                            split_of(direction, HALF_RATIO, plain_pane(pane), t)
                        } else {
                            split_of(direction, HALF_RATIO, t, plain_pane(pane))
                        },
                    ),
                    None => None,
                },
                None => None,
            },
            _ => None,
        }
    }

    /// The comparable form: pane IDs and ratios rounded to ten-thousandths;
    /// `None` when some pane has no ID.
    pub open spec fn normalized(self) -> Option<ComparableTree>
        decreases self,
    {
        match self {
            LayoutTree::Pane(info) => match info.id {
                Some(id) => Some(ComparableTree::Pane(id)),
                None => None,
            },
            LayoutTree::Split { direction, ratio, first, second } => match (
                first.normalized(),
                second.normalized(),
            ) {
                (Some(x), Some(y)) => Some(
                    ComparableTree::Split {
                        direction,
                        ratio: comparable_ratio(ratio),
                        first: Box::new(x),
                        second: Box::new(y),
                    },
                ),
                _ => None,
            },
        }
    }

    /// Whether both trees have the same splits, directions and ratios,
    /// whatever their panes hold.
    pub open spec fn same_shape(self, other: LayoutTree) -> bool
        decreases self,
    {
        match self {
            LayoutTree::Pane(_) => other is Pane,
            LayoutTree::Split { direction, ratio, first, second } => match other {
                LayoutTree::Split {
                    direction: other_direction,
                    ratio: other_ratio,
                    first: other_first,
                    second: other_second,
                } => direction == other_direction && ratio == other_ratio && first.same_shape(
                    *other_first,
                ) && second.same_shape(*other_second),
                LayoutTree::Pane(_) => false,
            },
        }
    }

    /// The path of the split directly holding the pane `target`.
    pub open spec fn closest_split_path(self, target: Seq<char>) -> Option<Seq<bool>> {
        match self.path_to(target) {
            Some(p) => if p.len() == 0 {
                None
            } else {
                Some(p.drop_last())
            },
            None => None,
        }
    }
}

/// A node of a Herdr layout: a pane, or a split of an area into two children.
#[derive(Debug)]
pub enum LayoutNode {
    Pane {
        pane_id: Option<String>,
        cwd: Option<String>,
        label: Option<String>,
        command: Option<Vec<String>>,
        env: Vec<(String, String)>,
    },
    Split {
        direction: SplitDirection,
        /// Share of the first child, in billionths (see `RATIO_SCALE`).
        ratio: u32,
        first: Box<LayoutNode>,
        second: Box<LayoutNode>,
    },
}

impl LayoutNode {
    pub open spec fn model(self) -> LayoutTree
        decreases self,
    {
        match self {
            LayoutNode::Pane { pane_id, cwd, label, command, env } => LayoutTree::Pane(
                PaneInfo {
                    id: pane_id.deep_view(),
                    cwd: cwd.deep_view(),
                    label: label.deep_view(),
                    command: command.deep_view(),
                    env: env.deep_view(),
                },
            ),
            LayoutNode::Split { direction, ratio, first, second } => LayoutTree::Split {
                direction,
                ratio,
                first: Box::new(first.model()),
                second: Box::new(second.model()),
            },
        }
    }
}

impl View for LayoutNode {
    type V = LayoutTree;

    open spec fn view(&self) -> LayoutTree {
        self.model()
    }
}

fn copy_text(s: &Option<String>) -> (r: Option<String>)
    ensures
        r.deep_view() == s.deep_view(),
{
    match s {
        Some(text) => Some(text.clone()),
        None => None,
    }
}

fn copy_words(words: &Vec<String>) -> (r: Vec<String>)
    ensures
        r.deep_view() == words.deep_view(),
{
    let mut out: Vec<String> = Vec::new();
    for i in 0..words.len()
        invariant
            out@.len() == i,
            forall|j: int| 0 <= j < i ==> out@[j]@ == words@[j]@,
    {
        out.push(words[i].clone());
    }
    assert(out.deep_view() =~= words.deep_view());
    out
}

fn copy_command(command: &Option<Vec<String>>) -> (r: Option<Vec<String>>)
    ensures
        r.deep_view() == command.deep_view(),
{
    match command {
        Some(words) => Some(copy_words(words)),
        None => None,
    }
}

fn copy_env(env: &Vec<(String, String)>) -> (r: Vec<(String, String)>)
    ensures
        r.deep_view() == env.deep_view(),
{
    let mut out: Vec<(String, String)> = Vec::new();
    for i in 0..env.len()
        invariant
            out@.len() == i,
            forall|j: int| 0 <= j < i ==> out@[j].0@ == env@[j].0@ && out@[j].1@ == env@[j].1@,
    {
        let (key, value) = &env[i];
        out.push((key.clone(), value.clone()));
    }
    assert(out.deep_view() =~= env.deep_view());
    out
}

impl LayoutNode {
    /// A pane with the given ID and nothing else.
    pub fn pane(pane_id: String) -> (r: Self)
        ensures
            r@ == plain_pane(pane_id@),
            r@.envs_distinct(),
    {
        let env: Vec<(String, String)> = Vec::new();
        assert(env.deep_view() =~= Seq::empty());
        LayoutNode::Pane { pane_id: Some(pane_id), cwd: None, label: None, command: None, env }
    }

    /// A split of `direction` giving `ratio` to `first`.
    pub fn split(direction: SplitDirection, ratio: u32, first: LayoutNode, second: LayoutNode) -> (r: Self)
        ensures
            r@ == split_of(direction, ratio, first@, second@),
            r@.envs_distinct() == (first@.envs_distinct() && second@.envs_distinct()),
    {
        LayoutNode::Split { direction, ratio, first: Box::new(first), second: Box::new(second) }
    }

    /// A copy of the tree.
    pub fn duplicate(&self) -> (r: Self)
        ensures
            r@ == self@,
        decreases self,
    {
        match self {
            LayoutNode::Pane { pane_id, cwd, label, command, env } => LayoutNode::Pane {
                pane_id: copy_text(pane_id),
                cwd: copy_text(cwd),
                label: copy_text(label),
                command: copy_command(command),
                env: copy_env(env),
            },
            LayoutNode::Split { direction, ratio, first, second } => LayoutNode::Split {
                direction: *direction,
                ratio: *ratio,
                first: Box::new(first.duplicate()),
                second: Box::new(second.duplicate()),
            },
        }
    }

    /// The pane IDs in reading order; an error when a pane has no ID.
    pub fn pane_ids(&self) -> (r: Result<Vec<String>, AppError>)
        ensures
            match r {
                Ok(ids) => self@.pane_ids() == Some(ids.deep_view()),
                Err(e) => self@.pane_ids() is None && e.is_message(MISSING_PANE_ID@),
            },
        decreases self,
    {
        match self {
            LayoutNode::Pane { pane_id, .. } => match pane_id {
                Some(id) => {
                    let ids = vec![id.clone()];
                    assert(ids.deep_view() =~= seq![id@]);
                    Ok(ids)
                },
                None => Err(message(MISSING_PANE_ID)),
            },
            LayoutNode::Split { first, second, .. } => {
                let mut ids = match first.pane_ids() {
                    Ok(ids) => ids,
                    Err(e) => return Err(e),
                };
                let mut rest = match second.pane_ids() {
                    Ok(ids) => ids,
                    Err(e) => return Err(e),
                };
                let ghost before = ids.deep_view();
                let ghost tail = rest.deep_view();
                ids.append(&mut rest);
                assert(ids.deep_view() =~= before + tail);
                Ok(ids)
            },
        }
    }

    /// How many panes the tree holds; an error when a pane has no ID.
    pub fn pane_count(&self) -> (r: Result<usize, AppError>)
        ensures
            match r {
                Ok(n) => self@.pane_ids() is Some && n == self@.pane_ids()->0.len(),
                Err(e) => self@.pane_ids() is None && e.is_message(MISSING_PANE_ID@),
            },
    {
        match self.pane_ids() {
            Ok(ids) => Ok(ids.len()),
            Err(e) => Err(e),
        }
    }

    /// The ID of the leftmost pane; an error when it has none.
    pub fn first_pane_id(&self) -> (r: Result<String, AppError>)
        ensures
            match r {
                Ok(id) => self@.first_pane_id() == Some(id@),
                Err(e) => self@.first_pane_id() is None && e.is_message(MISSING_PANE_ID@),
            },
        decreases self,
    {
        match self {
            LayoutNode::Pane { pane_id, .. } => match pane_id {
                Some(id) => Ok(id.clone()),
                None => Err(message(MISSING_PANE_ID)),
            },
            LayoutNode::Split { first, .. } => first.first_pane_id(),
        }
    }

    /// The path to the first pane whose ID is `target`, in reading order.
    pub fn pane_path(&self, target: &str) -> (r: Option<Vec<bool>>)
        ensures
            match self@.path_to(target@) {
                Some(p) => r is Some && r->0@ == p,
                None => r is None,
            },
        decreases self,
    {
        match self {
            LayoutNode::Pane { pane_id, .. } => match pane_id {
                Some(id) => if same_text(id.as_str(), target) {
                    let path: Vec<bool> = Vec::new();
                    assert(path@ =~= Seq::empty());
                    Some(path)
                } else {
                    None
                },
                None => None,
            },
            LayoutNode::Split { first, second, .. } => match first.pane_path(target) {
                Some(mut path) => {
                    let ghost rest = path@;
                    path.insert(0, false);
                    assert(path@ =~= seq![false] + rest);
                    Some(path)
                },
                None => match second.pane_path(target) {
                    Some(mut path) => {
                        let ghost rest = path@;
                        path.insert(0, true);
                        assert(path@ =~= seq![true] + rest);
                        Some(path)
                    },
                    None => None,
                },
            },
        }
    }

    /// The path of the split directly holding the pane `target`; `None` when
    /// the pane is missing or is the whole layout.
    pub fn closest_split_path(&self, target: &str) -> (r: Option<Vec<bool>>)
        ensures
            match self@.closest_split_path(target@) {
                Some(p) => r is Some && r->0@ == p,
                None => r is None,
            },
    {
        match self.pane_path(target) {
            Some(mut path) => if path.len() == 0 {
                None
            } else {
                path.pop();
                Some(path)
            },
            None => None,
        }
    }

    /// The node reached by following `path`.
    pub fn node_at_path(&self, path: &[bool]) -> (r: Option<&LayoutNode>)
        ensures
            match self@.at_path(path@) {
                Some(n) => r is Some && r->0@ == n,
                None => r is None,
            },
    {
        assert(path@.skip(0) =~= path@);
        self.node_from(path, 0)
    }

    fn node_from<'a>(&'a self, path: &[bool], start: usize) -> (r: Option<&'a LayoutNode>)
        requires
            start <= path@.len(),
        ensures
            match self@.at_path(path@.skip(start as int)) {
                Some(n) => r is Some && r->0@ == n,
                None => r is None,
            },
        decreases path@.len() - start,
    {
        if start == path.len() {
            assert(path@.skip(start as int).len() == 0);
            return Some(self);
        }
        assert(path@.skip(start as int).drop_first() =~= path@.skip(start + 1));
        assert(path@.skip(start as int)[0] == path@[start as int]);
        match self {
            LayoutNode::Split { first, second, .. } => if path[start] {
                second.node_from(path, start + 1)
            } else {
                first.node_from(path, start + 1)
            },
            LayoutNode::Pane { .. } => None,
        }
    }

    /// The tree with the node at `path` replaced by `replacement`; an error when
    /// the path runs into a pane before its end.
    pub fn with_node_at_path(&self, path: &[bool], replacement: LayoutNode) -> (r: Result<
        LayoutNode,
        AppError,
    >)
        ensures
            match self@.with_at_path(path@, replacement@) {
                Some(n) => r is Ok && r->Ok_0@ == n,
                None => r is Err && r->Err_0.is_message(STALE_SPLIT_PATH@),
            },
    {
        assert(path@.skip(0) =~= path@);
        self.replace_from(path, 0, replacement)
    }

    fn replace_from(&self, path: &[bool], start: usize, replacement: LayoutNode) -> (r: Result<
        LayoutNode,
        AppError,
    >)
        requires
            start <= path@.len(),
        ensures
            match self@.with_at_path(path@.skip(start as int), replacement@) {
                Some(n) => r is Ok && r->Ok_0@ == n,
                None => r is Err && r->Err_0.is_message(STALE_SPLIT_PATH@),
            },
        decreases path@.len() - start,
    {
        if start == path.len() {
            assert(path@.skip(start as int).len() == 0);
            return Ok(replacement);
        }
        assert(path@.skip(start as int).drop_first() =~= path@.skip(start + 1));
        assert(path@.skip(start as int)[0] == path@[start as int]);
        match self {
            LayoutNode::Split { direction, ratio, first, second } => {
                if path[start] {
                    match second.replace_from(path, start + 1, replacement) {
                        Ok(n) => Ok(LayoutNode::split(*direction, *ratio, first.duplicate(), n)),
                        Err(e) => Err(e),
                    }
                } else {
                    match first.replace_from(path, start + 1, replacement) {
                        Ok(n) => Ok(LayoutNode::split(*direction, *ratio, n, second.duplicate())),
                        Err(e) => Err(e),
                    }
                }
            },
            LayoutNode::Pane { .. } => Err(message(STALE_SPLIT_PATH)),
        }
    }

    /// The tree with the panes `target_id` removed; `Ok(None)` when nothing is left.
    fn without_pane(&self, target_id: &str) -> (r: Result<Option<LayoutNode>, AppError>)
        ensures
            match self@.without(target_id@) {
                Some(Some(t)) => r matches Ok(Some(n)) && n@ == t,
                Some(None) => r matches Ok(None),
                None => r is Err && r->Err_0.is_message(MISSING_PANE_ID@),
            },
        decreases self,
    {
        match self {
            LayoutNode::Pane { pane_id, .. } => match pane_id {
                Some(id) => if same_text(id.as_str(), target_id) {
                    Ok(None)
                } else {
                    Ok(Some(self.duplicate()))
                },
                None => Err(message(MISSING_PANE_ID)),
            },
            LayoutNode::Split { direction, ratio, first, second } => {
                let first = match first.without_pane(target_id) {
                    Ok(n) => n,
                    Err(e) => return Err(e),
                };
                let second = match second.without_pane(target_id) {
                    Ok(n) => n,
                    Err(e) => return Err(e),
                };
                match (first, second) {
                    (Some(first), Some(second)) => Ok(
                        Some(LayoutNode::split(*direction, *ratio, first, second)),
                    ),
                    (Some(node), None) => Ok(Some(node)),
                    (None, Some(node)) => Ok(Some(node)),
                    (None, None) => Ok(None),
                }
            },
        }
    }

    /// The tree with the pane IDs `first_id` and `second_id` exchanged.
    fn exchange_pane_ids(&self, first_id: &str, second_id: &str) -> (r: Result<LayoutNode, AppError>)
        ensures
            match self@.exchanged(first_id@, second_id@) {
                Some(t) => r is Ok && r->Ok_0@ == t,
                None => r is Err && r->Err_0.is_message(MISSING_PANE_ID@),
            },
        decreases self,
    {
        match self {
            LayoutNode::Pane { pane_id, .. } => match pane_id {
                Some(id) => {
                    let mapped = if same_text(id.as_str(), first_id) {
                        second_id.to_owned()
                    } else if same_text(id.as_str(), second_id) {
                        first_id.to_owned()
                    } else {
                        id.clone()
                    };
                    Ok(LayoutNode::pane(mapped))
                },
                None => Err(message(MISSING_PANE_ID)),
            },
            LayoutNode::Split { direction, ratio, first, second } => {
                let first = match first.exchange_pane_ids(first_id, second_id) {
                    Ok(n) => n,
                    Err(e) => return Err(e),
                };
                let second = match second.exchange_pane_ids(first_id, second_id) {
                    Ok(n) => n,
                    Err(e) => return Err(e),
                };
                Ok(LayoutNode::split(*direction, *ratio, first, second))
            },
        }
    }

    /// The same tree with the panes `first_id` and `second_id` trading places.
    pub fn swap_panes(&self, first_id: &str, second_id: &str) -> (r: Result<LayoutNode, AppError>)
        ensures
            ({
                let refused = first_id@ == second_id@ || self@.path_to(first_id@) is None
                    || self@.path_to(second_id@) is None;
                if refused {
                    r is Err && r->Err_0.is_message(SAME_SWAP_PANES@)
                } else {
                    match self@.exchanged(first_id@, second_id@) {
                        Some(t) => r is Ok && r->Ok_0@ == t,
                        None => r is Err && r->Err_0.is_message(MISSING_PANE_ID@),
                    }
                }
            }),
    {
        if same_text(first_id, second_id) || self.pane_path(first_id).is_none() || self.pane_path(
            second_id,
        ).is_none() {
            return Err(message(SAME_SWAP_PANES));
        }
        self.exchange_pane_ids(first_id, second_id)
    }

    /// The tree with `pane_id` moved into a new even split of `direction`
    /// beside the first pane `target_id`, before or after it.
    pub fn dock_pane(
        &self,
        pane_id: &str,
        target_id: &str,
        direction: SplitDirection,
        before_target: bool,
    ) -> (r: Result<LayoutNode, AppError>)
        ensures
            ({
                let refused = pane_id@ == target_id@ || self@.path_to(pane_id@) is None
                    || self@.path_to(target_id@) is None;
                if refused {
                    r is Err && r->Err_0.is_message(SAME_DROP_TARGET@)
                } else if self@.without(pane_id@) is None {
                    r is Err && r->Err_0.is_message(MISSING_PANE_ID@)
                } else {
                    self@.docked(pane_id@, target_id@, direction, before_target) is Some && r is Ok
                        && r->Ok_0@ == self@.docked(pane_id@, target_id@, direction, before_target)->0
                }
            }),
    {
        if same_text(pane_id, target_id) || self.pane_path(pane_id).is_none() || self.pane_path(
            target_id,
        ).is_none() {
            return Err(message(SAME_DROP_TARGET));
        }
        let remaining = match self.without_pane(pane_id) {
            Ok(Some(node)) => node,
            Ok(None) => {
                proof {
                    lemma_without_keeps_other(self@, pane_id@, target_id@);
                }
                return Err(message(LAYOUT_NEEDS_A_PANE));
            },
            Err(e) => return Err(e),
        };
        proof {
            lemma_without_keeps_other(self@, pane_id@, target_id@);
        }
        let target_path = match remaining.pane_path(target_id) {
            Some(path) => path,
            None => return Err(message(DROP_TARGET_GONE)),
        };
        proof {
            lemma_path_reaches_pane(remaining@, target_id@);
        }
        let target = match remaining.node_at_path(target_path.as_slice()) {
            Some(node) => node.duplicate(),
            None => return Err(message(DROP_TARGET_GONE)),
        };
        proof {
            lemma_reachable_path_replaceable(remaining@, target_path@, if before_target {
                split_of(direction, HALF_RATIO, plain_pane(pane_id@), target@)
            } else {
                split_of(direction, HALF_RATIO, target@, plain_pane(pane_id@))
            });
        }
        let moved = LayoutNode::pane(pane_id.to_owned());
        let replacement = if before_target {
            LayoutNode::split(direction, HALF_RATIO, moved, target)
        } else {
            LayoutNode::split(direction, HALF_RATIO, target, moved)
        };
        remaining.with_node_at_path(target_path.as_slice(), replacement)
    }
}

impl LayoutNode {
    /// The comparable form of the tree: IDs, directions and ratios rounded to
    /// ten-thousandths; an error when a pane has no ID.
    pub fn normalized(&self) -> (r: Result<ComparableLayoutNode, AppError>)
        ensures
            match self@.normalized() {
                Some(c) => r is Ok && r->Ok_0@ == c,
                None => r is Err && r->Err_0.is_message(MISSING_PANE_ID@),
            },
        decreases self,
    {
        match self {
            LayoutNode::Pane { pane_id, .. } => match pane_id {
                Some(id) => Ok(ComparableLayoutNode::Pane(id.clone())),
                None => Err(message(MISSING_PANE_ID)),
            },
            LayoutNode::Split { direction, ratio, first, second } => {
                let first = match first.normalized() {
                    Ok(n) => n,
                    Err(e) => return Err(e),
                };
                let second = match second.normalized() {
                    Ok(n) => n,
                    Err(e) => return Err(e),
                };
                let rounded = ((*ratio as u64 + 50_000) / 100_000) as i64;
                Ok(
                    ComparableLayoutNode::Split {
                        direction: *direction,
                        ratio: rounded,
                        first: Box::new(first),
                        second: Box::new(second),
                    },
                )
            },
        }
    }
}

/// A layout reduced to what decides whether two layouts look the same.
#[derive(Debug)]
pub enum ComparableLayoutNode {
    Pane(String),
    Split {
        direction: SplitDirection,
        /// Share of the first child, in ten-thousandths.
        ratio: i64,
        first: Box<ComparableLayoutNode>,
        second: Box<ComparableLayoutNode>,
    },
}

impl ComparableLayoutNode {
    pub open spec fn model(self) -> ComparableTree
        decreases self,
    {
        match self {
            ComparableLayoutNode::Pane(id) => ComparableTree::Pane(id@),
            ComparableLayoutNode::Split { direction, ratio, first, second } => ComparableTree::Split {
                direction,
                ratio,
                first: Box::new(first.model()),
                second: Box::new(second.model()),
            },
        }
    }

    /// Whether both describe the same layout.
    pub fn same_as(&self, other: &ComparableLayoutNode) -> (r: bool)
        ensures
            r == (self@ == other@),
        decreases self,
    {
        match (self, other) {
            (ComparableLayoutNode::Pane(a), ComparableLayoutNode::Pane(b)) => same_text(a.as_str(), b.as_str()),
            (
                ComparableLayoutNode::Split { direction, ratio, first, second },
                ComparableLayoutNode::Split {
                    direction: other_direction,
                    ratio: other_ratio,
                    first: other_first,
                    second: other_second,
                },
            ) => {
                if *direction != *other_direction || *ratio != *other_ratio {
                    return false;
                }
                let same_first = first.same_as(other_first);
                let same_second = second.same_as(other_second);
                proof {
                    if self@ == other@ {
                        assert(first@ == other_first@);
                        assert(second@ == other_second@);
                    }
                }
                same_first && same_second
            },
            _ => false,
        }
    }
}

impl View for ComparableLayoutNode {
    type V = ComparableTree;

    open spec fn view(&self) -> ComparableTree {
        self.model()
    }
}

impl PartialEq for ComparableLayoutNode {
    fn eq(&self, other: &Self) -> (r: bool) {
        self.same_as(other)
    }
}

impl vstd::std_specs::cmp::PartialEqSpecImpl for ComparableLayoutNode {
    open spec fn obeys_eq_spec() -> bool {
        true
    }

    open spec fn eq_spec(&self, other: &Self) -> bool {
        self@ == other@
    }
}

/// What Herdr reports of a tab's layout.
#[derive(Debug)]
pub struct LayoutDescription {
    pub workspace_id: String,
    pub tab_id: String,
    pub zoomed: bool,
    pub focused_pane_id: String,
    pub root: LayoutNode,
}

/// The mathematical model of a layout description.
pub struct DescriptionModel {
    pub workspace_id: Seq<char>,
    pub tab_id: Seq<char>,
    pub zoomed: bool,
    pub focused_pane_id: Seq<char>,
    pub root: LayoutTree,
}

impl View for LayoutDescription {
    type V = DescriptionModel;

    open spec fn view(&self) -> DescriptionModel {
        DescriptionModel {
            workspace_id: self.workspace_id@,
            tab_id: self.tab_id@,
            zoomed: self.zoomed,
            focused_pane_id: self.focused_pane_id@,
            root: self.root@,
        }
    }
}

/// Taking out one pane keeps every other pane that has an ID: something is
/// left and `other` can still be found.
pub proof fn lemma_without_keeps_other(t: LayoutTree, pane: Seq<char>, other: Seq<char>)
    requires
        t.path_to(other) is Some,
        pane != other,
        t.without(pane) is Some,
    ensures
        t.without(pane)->0 is Some,
        t.without(pane)->0->0.path_to(other) is Some,
    decreases t,
{
    match t {
        LayoutTree::Pane(info) => {},
        LayoutTree::Split { direction, ratio, first, second } => {
            if first.path_to(other) is Some {
                lemma_without_keeps_other(*first, pane, other);
                let x = first.without(pane)->0->0;
                match second.without(pane)->0 {
                    Some(y) => {
                        assert(split_of(direction, ratio, x, y).path_to(other) is Some);
                    },
                    None => {},
                }
            } else {
                lemma_without_keeps_other(*second, pane, other);
                let y = second.without(pane)->0->0;
                match first.without(pane)->0 {
                    Some(x) => {
                        lemma_without_keeps_missing(*first, pane, other);
                        assert(split_of(direction, ratio, x, y).path_to(other) is Some);
                    },
                    None => {},
                }
            }
        },
    }
}

/// Taking out a pane never brings in an ID that was not there.
pub proof fn lemma_without_keeps_missing(t: LayoutTree, pane: Seq<char>, other: Seq<char>)
    requires
        t.path_to(other) is None,
        t.without(pane) matches Some(Some(_)),
    ensures
        t.without(pane)->0->0.path_to(other) is None,
    decreases t,
{
    match t {
        LayoutTree::Pane(info) => {},
        LayoutTree::Split { direction, ratio, first, second } => {
            match (first.without(pane)->0, second.without(pane)->0) {
                (Some(x), Some(y)) => {
                    lemma_without_keeps_missing(*first, pane, other);
                    lemma_without_keeps_missing(*second, pane, other);
                },
                (Some(x), None) => {
                    lemma_without_keeps_missing(*first, pane, other);
                },
                (None, Some(y)) => {
                    lemma_without_keeps_missing(*second, pane, other);
                },
                (None, None) => {},
            }
        },
    }
}

/// The path found for an ID leads to a pane with that ID.
pub proof fn lemma_path_reaches_pane(t: LayoutTree, target: Seq<char>)
    requires
        t.path_to(target) is Some,
    ensures
        t.at_path(t.path_to(target)->0) matches Some(LayoutTree::Pane(info)) && info.id == Some(
            target,
        ),
    decreases t,
{
    match t {
        LayoutTree::Pane(info) => {},
        LayoutTree::Split { first, second, .. } => {
            if first.path_to(target) is Some {
                lemma_path_reaches_pane(*first, target);
                let p = first.path_to(target)->0;
                assert((seq![false] + p).drop_first() =~= p);
            } else {
                lemma_path_reaches_pane(*second, target);
                let p = second.path_to(target)->0;
                assert((seq![true] + p).drop_first() =~= p);
            }
        },
    }
}

/// A path that reaches a node can be replaced.
pub proof fn lemma_reachable_path_replaceable(t: LayoutTree, path: Seq<bool>, r: LayoutTree)
    requires
        t.at_path(path) is Some,
    ensures
        t.with_at_path(path, r) is Some,
    decreases path.len(),
{
    if path.len() > 0 {
        match t {
            LayoutTree::Pane(_) => {},
            LayoutTree::Split { first, second, .. } => {
                if path[0] {
                    lemma_reachable_path_replaceable(*second, path.drop_first(), r);
                } else {
                    lemma_reachable_path_replaceable(*first, path.drop_first(), r);
                }
            },
        }
    }
}

} // verus!

verus! {

/// Rotating a direction twice gives it back.
pub proof fn law_rotate_twice(direction: SplitDirection)
    ensures
        direction.spec_rotated().spec_rotated() == direction,
{
}

/// Reading back a replaced node gives the replacement.
pub proof fn law_read_after_replace(t: LayoutTree, path: Seq<bool>, r: LayoutTree)
    requires
        t.at_path(path) is Some,
    ensures
        t.with_at_path(path, r) matches Some(u) && u.at_path(path) == Some(r),
    decreases path.len(),
{
    if path.len() > 0 {
        match t {
            LayoutTree::Pane(_) => {},
            LayoutTree::Split { direction, ratio, first, second } => {
                if path[0] {
                    law_read_after_replace(*second, path.drop_first(), r);
                } else {
                    law_read_after_replace(*first, path.drop_first(), r);
                }
            },
        }
    }
}

/// Exchanging IDs succeeds exactly when every pane has an ID.
pub proof fn lemma_exchange_needs_ids(t: LayoutTree, a: Seq<char>, b: Seq<char>)
    ensures
        (t.exchanged(a, b) is Some) == (t.pane_ids() is Some),
    decreases t,
{
    match t {
        LayoutTree::Pane(_) => {},
        LayoutTree::Split { first, second, .. } => {
            lemma_exchange_needs_ids(*first, a, b);
            lemma_exchange_needs_ids(*second, a, b);
        },
    }
}

/// Swapping two panes keeps the layout's shape, and exchanges the two IDs in
/// the reading order of the panes.
pub proof fn law_swap_keeps_shape(t: LayoutTree, a: Seq<char>, b: Seq<char>)
    requires
        t.pane_ids() is Some,
    ensures
        t.exchanged(a, b) matches Some(u) && t.same_shape(u) && u.pane_ids() == Some(
            t.pane_ids()->0.map_values(|id: Seq<char>| exchange_id(id, a, b)),
        ),
    decreases t,
{
    lemma_exchange_needs_ids(t, a, b);
    match t {
        LayoutTree::Pane(info) => {
            assert(t.exchanged(a, b)->0.pane_ids()->0 =~= t.pane_ids()->0.map_values(
                |id: Seq<char>| exchange_id(id, a, b),
            ));
        },
        LayoutTree::Split { first, second, .. } => {
            law_swap_keeps_shape(*first, a, b);
            law_swap_keeps_shape(*second, a, b);
            let x = first.pane_ids()->0;
            let y = second.pane_ids()->0;
            assert((x + y).map_values(|id: Seq<char>| exchange_id(id, a, b)) =~= x.map_values(
                |id: Seq<char>| exchange_id(id, a, b),
            ) + y.map_values(|id: Seq<char>| exchange_id(id, a, b)));
        },
    }
}

/// Swapping the same two panes twice gives back a layout that compares
/// equal to the first.
pub proof fn law_swap_twice_restores(t: LayoutTree, a: Seq<char>, b: Seq<char>)
    requires
        t.pane_ids() is Some,
    ensures
        t.exchanged(a, b) matches Some(u) && u.exchanged(a, b) matches Some(v) && v.normalized()
            == t.normalized(),
    decreases t,
{
    lemma_exchange_needs_ids(t, a, b);
    match t {
        LayoutTree::Pane(info) => {},
        LayoutTree::Split { first, second, .. } => {
            law_swap_twice_restores(*first, a, b);
            law_swap_twice_restores(*second, a, b);
        },
    }
}

/// Taking out a pane leaves no pane with its ID.
pub proof fn lemma_without_removes(t: LayoutTree, pane: Seq<char>)
    requires
        t.without(pane) matches Some(Some(_)),
    ensures
        t.without(pane)->0->0.path_to(pane) is None,
    decreases t,
{
    match t {
        LayoutTree::Pane(_) => {},
        LayoutTree::Split { first, second, .. } => {
            if first.without(pane)->0 is Some {
                lemma_without_removes(*first, pane);
            }
            if second.without(pane)->0 is Some {
                lemma_without_removes(*second, pane);
            }
        },
    }
}

/// Replacing the first pane `x` by a tree holding `x` at `q` puts the first
/// `x` at the end of the joined path.
pub proof fn lemma_replace_found(
    t: LayoutTree,
    x: Seq<char>,
    r: LayoutTree,
    q: Seq<bool>,
)
    requires
        t.path_to(x) is Some,
        r.path_to(x) == Some(q),
    ensures
        t.with_at_path(t.path_to(x)->0, r) matches Some(u) && u.path_to(x) == Some(
            t.path_to(x)->0 + q,
        ),
    decreases t,
{
    let p = t.path_to(x)->0;
    match t {
        LayoutTree::Pane(_) => {
            assert(p + q =~= q);
        },
        LayoutTree::Split { direction, ratio, first, second } => {
            if first.path_to(x) is Some {
                let p1 = first.path_to(x)->0;
                assert(p.drop_first() =~= p1);
                lemma_replace_found(*first, x, r, q);
                assert(seq![false] + (p1 + q) =~= p + q);
            } else {
                let p2 = second.path_to(x)->0;
                assert(p.drop_first() =~= p2);
                lemma_replace_found(*second, x, r, q);
                assert(seq![true] + (p2 + q) =~= p + q);
            }
        },
    }
}

/// Replacing a reachable node by a tree holding `y` at `q`, where the tree had
/// no `y`, puts the first `y` at the end of the joined path.
pub proof fn lemma_replace_brings(
    t: LayoutTree,
    y: Seq<char>,
    path: Seq<bool>,
    r: LayoutTree,
    q: Seq<bool>,
)
    requires
        t.path_to(y) is None,
        t.at_path(path) is Some,
        r.path_to(y) == Some(q),
    ensures
        t.with_at_path(path, r) matches Some(u) && u.path_to(y) == Some(path + q),
    decreases path.len(),
{
    if path.len() == 0 {
        assert(path + q =~= q);
    } else {
        match t {
            LayoutTree::Pane(_) => {},
            LayoutTree::Split { direction, ratio, first, second } => {
                let rest = path.drop_first();
                if path[0] {
                    lemma_replace_brings(*second, y, rest, r, q);
                    assert(seq![true] + (rest + q) =~= path + q);
                } else {
                    lemma_replace_brings(*first, y, rest, r, q);
                    assert(seq![false] + (rest + q) =~= path + q);
                }
            },
        }
    }
}

/// Docking a pane beside a target puts both in one new even split of the
/// chosen direction, in the chosen order, where the target used to be: the
/// pane's old split collapses and the two become siblings.
pub proof fn law_dock_places_side_by_side(
    t: LayoutTree,
    pane: Seq<char>,
    target: Seq<char>,
    direction: SplitDirection,
    before_target: bool,
)
    requires
        pane != target,
        t.docked(pane, target, direction, before_target) is Some,
    ensures
        ({
            let u = t.docked(pane, target, direction, before_target)->0;
            let p = t.without(pane)->0->0.path_to(target)->0;
            &&& u.path_to(pane) == Some(p.push(!before_target))
            &&& u.path_to(target) == Some(p.push(before_target))
            &&& u.at_path(p) matches Some(LayoutTree::Split { direction: d, ratio, .. })
            &&& d == direction && ratio == HALF_RATIO
        }),
{
    let rest = t.without(pane)->0->0;
    let p = rest.path_to(target)->0;
    lemma_path_reaches_pane(rest, target);
    lemma_without_removes(t, pane);
    let node = rest.at_path(p)->0;
    let r = if before_target {
        split_of(direction, HALF_RATIO, plain_pane(pane), node)
    } else {
        split_of(direction, HALF_RATIO, node, plain_pane(pane))
    };
    assert(node.path_to(target) == Some(Seq::<bool>::empty()));
    assert(plain_pane(pane).path_to(pane) == Some(Seq::<bool>::empty()));
    assert(node.path_to(pane) is None);
    assert(plain_pane(pane).path_to(target) is None);
    assert(seq![true] + Seq::<bool>::empty() =~= seq![true]);
    assert(seq![false] + Seq::<bool>::empty() =~= seq![false]);
    assert(r.path_to(target) == Some(seq![before_target]));
    assert(r.path_to(pane) == Some(seq![!before_target]));
    lemma_replace_found(rest, target, r, seq![before_target]);
    lemma_replace_brings(rest, pane, p, r, seq![!before_target]);
    law_read_after_replace(rest, p, r);
    assert(p + seq![before_target] =~= p.push(before_target));
    assert(p + seq![!before_target] =~= p.push(!before_target));
}

} // verus!

verus! {

/// Replacing a node by one that finds every ID where the old one did keeps
/// the path of that ID in the whole tree.
pub proof fn lemma_replace_keeps_paths(t: LayoutTree, path: Seq<bool>, r: LayoutTree, x: Seq<char>)
    requires
        t.at_path(path) matches Some(s) && r.path_to(x) == s.path_to(x),
    ensures
        t.with_at_path(path, r) matches Some(u) && u.path_to(x) == t.path_to(x),
    decreases path.len(),
{
    lemma_reachable_path_replaceable(t, path, r);
    if path.len() > 0 {
        match t {
            LayoutTree::Pane(_) => {},
            LayoutTree::Split { first, second, .. } => {
                if path[0] {
                    lemma_replace_keeps_paths(*second, path.drop_first(), r, x);
                } else {
                    lemma_replace_keeps_paths(*first, path.drop_first(), r, x);
                }
            },
        }
    }
}

/// Writing back the node that was read restores the tree.
pub proof fn lemma_write_back(t: LayoutTree, path: Seq<bool>, r: LayoutTree)
    requires
        t.at_path(path) is Some,
    ensures
        t.with_at_path(path, r) matches Some(u) && u.with_at_path(path, t.at_path(path)->0) == Some(
            t,
        ),
    decreases path.len(),
{
    lemma_reachable_path_replaceable(t, path, r);
    if path.len() > 0 {
        match t {
            LayoutTree::Pane(_) => {},
            LayoutTree::Split { first, second, .. } => {
                if path[0] {
                    lemma_write_back(*second, path.drop_first(), r);
                } else {
                    lemma_write_back(*first, path.drop_first(), r);
                }
            },
        }
    }
}

/// A second replacement at the same path overrides the first.
pub proof fn lemma_write_over_write(t: LayoutTree, path: Seq<bool>, a: LayoutTree, b: LayoutTree)
    requires
        t.at_path(path) is Some,
    ensures
        t.with_at_path(path, a) matches Some(u) && u.with_at_path(path, b) == t.with_at_path(path, b),
    decreases path.len(),
{
    lemma_reachable_path_replaceable(t, path, a);
    lemma_reachable_path_replaceable(t, path, b);
    if path.len() > 0 {
        match t {
            LayoutTree::Pane(_) => {},
            LayoutTree::Split { first, second, .. } => {
                if path[0] {
                    lemma_write_over_write(*second, path.drop_first(), a, b);
                } else {
                    lemma_write_over_write(*first, path.drop_first(), a, b);
                }
            },
        }
    }
}

/// A pane that can be found is listed among the IDs.
pub proof fn lemma_found_is_listed(t: LayoutTree, x: Seq<char>)
    requires
        t.pane_ids() is Some,
    ensures
        (t.path_to(x) is Some) == t.pane_ids()->0.contains(x),
    decreases t,
{
    match t {
        LayoutTree::Pane(info) => {
            if t.pane_ids()->0.contains(x) {
                assert(t.pane_ids()->0[0] == x);
            }
            if t.path_to(x) is Some {
                assert(t.pane_ids()->0[0] == x);
            }
        },
        LayoutTree::Split { first, second, .. } => {
            lemma_found_is_listed(*first, x);
            lemma_found_is_listed(*second, x);
            let a = first.pane_ids()->0;
            let b = second.pane_ids()->0;
            if a.contains(x) {
                let k = choose|k: int| 0 <= k < a.len() && a[k] == x;
                assert((a + b)[k] == x);
            } else if b.contains(x) {
                let k = choose|k: int| 0 <= k < b.len() && b[k] == x;
                assert((a + b)[a.len() + k] == x);
            }
            if (a + b).contains(x) {
                let k = choose|k: int| 0 <= k < (a + b).len() && (a + b)[k] == x;
                if k < a.len() {
                    assert(a[k] == x);
                } else {
                    assert(b[k - a.len()] == x);
                }
            }
        },
    }
}

/// Membership in a joined list of IDs.
pub proof fn lemma_joined_contains(a: Seq<Seq<char>>, b: Seq<Seq<char>>, x: Seq<char>)
    ensures
        (a + b).contains(x) == (a.contains(x) || b.contains(x)),
{
    if a.contains(x) {
        let k = choose|k: int| 0 <= k < a.len() && a[k] == x;
        assert((a + b)[k] == x);
    } else if b.contains(x) {
        let k = choose|k: int| 0 <= k < b.len() && b[k] == x;
        assert((a + b)[a.len() + k] == x);
    }
    if (a + b).contains(x) {
        let k = choose|k: int| 0 <= k < (a + b).len() && (a + b)[k] == x;
        if k < a.len() {
            assert(a[k] == x);
        } else {
            assert(b[k - a.len()] == x);
        }
    }
}

/// Taking out the panes `x` leaves exactly the other listed IDs.
pub proof fn lemma_without_ids(t: LayoutTree, x: Seq<char>, y: Seq<char>)
    requires
        t.without(x) is Some,
    ensures
        t.pane_ids() is Some,
        match t.without(x)->0 {
            Some(r) => r.pane_ids() is Some && r.pane_ids()->0.contains(y) == (t.pane_ids()->0.contains(
                y,
            ) && y != x),
            None => t.pane_ids()->0.contains(y) ==> y == x,
        },
    decreases t,
{
    match t {
        LayoutTree::Pane(info) => {
            if t.pane_ids()->0.contains(y) {
                assert(t.pane_ids()->0[0] == y);
            }
        },
        LayoutTree::Split { first, second, .. } => {
            lemma_without_ids(*first, x, y);
            lemma_without_ids(*second, x, y);
            lemma_joined_contains(first.pane_ids()->0, second.pane_ids()->0, y);
            match (first.without(x)->0, second.without(x)->0) {
                (Some(a), Some(b)) => {
                    lemma_joined_contains(a.pane_ids()->0, b.pane_ids()->0, y);
                },
                _ => {},
            }
        },
    }
}

/// Replacing a node by a tree listing at least its IDs lists, in the whole
/// tree, the old IDs together with the new tree's.
pub proof fn lemma_replace_ids(t: LayoutTree, path: Seq<bool>, r: LayoutTree, y: Seq<char>)
    requires
        t.pane_ids() is Some,
        r.pane_ids() is Some,
        t.at_path(path) matches Some(s) && s.pane_ids() is Some && forall|z: Seq<char>|
            s.pane_ids()->0.contains(z) ==> r.pane_ids()->0.contains(z),
    ensures
        t.with_at_path(path, r) matches Some(u) && u.pane_ids() is Some && u.pane_ids()->0.contains(y)
            == (t.pane_ids()->0.contains(y) || r.pane_ids()->0.contains(y)),
    decreases path.len(),
{
    lemma_reachable_path_replaceable(t, path, r);
    if path.len() > 0 {
        match t {
            LayoutTree::Pane(_) => {},
            LayoutTree::Split { first, second, .. } => {
                let a = first.pane_ids()->0;
                let b = second.pane_ids()->0;
                lemma_joined_contains(a, b, y);
                if path[0] {
                    lemma_replace_ids(*second, path.drop_first(), r, y);
                    let b2 = second.with_at_path(path.drop_first(), r)->0.pane_ids()->0;
                    lemma_joined_contains(a, b2, y);
                } else {
                    lemma_replace_ids(*first, path.drop_first(), r, y);
                    let a2 = first.with_at_path(path.drop_first(), r)->0.pane_ids()->0;
                    lemma_joined_contains(a2, b, y);
                }
            },
        }
    }
}

/// A pane reached by a path lists its ID there.
pub proof fn lemma_reached_pane_ids(t: LayoutTree, path: Seq<bool>)
    requires
        t.pane_ids() is Some,
        t.at_path(path) is Some,
    ensures
        t.at_path(path)->0.pane_ids() is Some,
    decreases path.len(),
{
    if path.len() > 0 {
        match t {
            LayoutTree::Pane(_) => {},
            LayoutTree::Split { first, second, .. } => {
                if path[0] {
                    lemma_reached_pane_ids(*second, path.drop_first());
                } else {
                    lemma_reached_pane_ids(*first, path.drop_first());
                }
            },
        }
    }
}

/// Docking keeps the set of panes: the moved pane leaves its old place and
/// comes back beside its target, nothing else changes hands.
pub proof fn law_dock_keeps_panes(
    t: LayoutTree,
    pane: Seq<char>,
    target: Seq<char>,
    direction: SplitDirection,
    before_target: bool,
    y: Seq<char>,
)
    requires
        pane != target,
        t.path_to(pane) is Some,
        t.docked(pane, target, direction, before_target) is Some,
    ensures
        t.pane_ids() is Some,
        t.docked(pane, target, direction, before_target)->0.pane_ids() matches Some(ids)
            && ids.contains(y) == t.pane_ids()->0.contains(y),
{
    let rest = t.without(pane)->0->0;
    let p = rest.path_to(target)->0;
    lemma_without_ids(t, pane, y);
    lemma_without_ids(t, pane, target);
    lemma_path_reaches_pane(rest, target);
    let node = rest.at_path(p)->0;
    let r = if before_target {
        split_of(direction, HALF_RATIO, plain_pane(pane), node)
    } else {
        split_of(direction, HALF_RATIO, node, plain_pane(pane))
    };
    lemma_reached_pane_ids(rest, p);
    assert(r.pane_ids() is Some);
    lemma_joined_contains(plain_pane(pane).pane_ids()->0, node.pane_ids()->0, y);
    lemma_joined_contains(node.pane_ids()->0, plain_pane(pane).pane_ids()->0, y);
    assert forall|z: Seq<char>| node.pane_ids()->0.contains(z) implies r.pane_ids()->0.contains(z) by {
        lemma_joined_contains(plain_pane(pane).pane_ids()->0, node.pane_ids()->0, z);
        lemma_joined_contains(node.pane_ids()->0, plain_pane(pane).pane_ids()->0, z);
    }
    lemma_replace_ids(rest, p, r, y);
    lemma_found_is_listed(t, pane);
    lemma_found_is_listed(t, target);
    lemma_found_is_listed(rest, target);
    assert(node.pane_ids()->0 == seq![target]);
    assert(plain_pane(pane).pane_ids()->0 == seq![pane]);
    if y == target {
        assert(node.pane_ids()->0[0] == target);
    }
    if y == pane {
        assert(plain_pane(pane).pane_ids()->0[0] == pane);
    }
}

} // verus!

verus! {

/// A tree whose panes all have IDs has a comparable form.
pub proof fn lemma_ids_give_normalized(t: LayoutTree)
    ensures
        (t.pane_ids() is Some) == (t.normalized() is Some),
    decreases t,
{
    match t {
        LayoutTree::Pane(_) => {},
        LayoutTree::Split { first, second, .. } => {
            lemma_ids_give_normalized(*first);
            lemma_ids_give_normalized(*second);
        },
    }
}

} // verus!

verus! {

/// No variable is named twice in a pane's environment, as in the map Herdr
/// reports it from.
pub open spec fn env_names_distinct(env: Seq<(Seq<char>, Seq<char>)>) -> bool {
    forall|i: int, j: int| 0 <= i < j < env.len() ==> #[trigger] env[i].0 != #[trigger] env[j].0
}

impl LayoutTree {
    /// Every pane's environment names each variable once.
    pub open spec fn envs_distinct(self) -> bool
        decreases self,
    {
        match self {
            LayoutTree::Pane(info) => env_names_distinct(info.env),
            LayoutTree::Split { first, second, .. } => first.envs_distinct() && second.envs_distinct(),
        }
    }
}

proof fn lemma_exchanged_envs(t: LayoutTree, a: Seq<char>, b: Seq<char>)
    ensures
        t.exchanged(a, b) matches Some(u) ==> u.envs_distinct(),
    decreases t,
{
    if let LayoutTree::Split { first, second, .. } = t {
        lemma_exchanged_envs(*first, a, b);
        lemma_exchanged_envs(*second, a, b);
    }
}

proof fn lemma_without_envs(t: LayoutTree, pane: Seq<char>)
    requires
        t.envs_distinct(),
    ensures
        t.without(pane) matches Some(Some(u)) ==> u.envs_distinct(),
    decreases t,
{
    if let LayoutTree::Split { first, second, .. } = t {
        lemma_without_envs(*first, pane);
        lemma_without_envs(*second, pane);
    }
}

proof fn lemma_at_path_envs(t: LayoutTree, path: Seq<bool>)
    requires
        t.envs_distinct(),
    ensures
        t.at_path(path) matches Some(u) ==> u.envs_distinct(),
    decreases path.len(),
{
    if path.len() > 0 {
        if let LayoutTree::Split { first, second, .. } = t {
            lemma_at_path_envs(*first, path.drop_first());
            lemma_at_path_envs(*second, path.drop_first());
        }
    }
}

proof fn lemma_with_at_path_envs(t: LayoutTree, path: Seq<bool>, r: LayoutTree)
    requires
        t.envs_distinct(),
        r.envs_distinct(),
    ensures
        t.with_at_path(path, r) matches Some(u) ==> u.envs_distinct(),
    decreases path.len(),
{
    if path.len() > 0 {
        if let LayoutTree::Split { first, second, .. } = t {
            lemma_with_at_path_envs(*first, path.drop_first(), r);
            lemma_with_at_path_envs(*second, path.drop_first(), r);
        }
    }
}

/// Swapping gives panes that carry only their IDs, so no environment names
/// a variable twice.
pub proof fn law_swap_keeps_envs_distinct(t: LayoutTree, a: Seq<char>, b: Seq<char>)
    ensures
        swap_result(t, a, b) matches Some(u) ==> u.envs_distinct(),
{
    lemma_exchanged_envs(t, a, b);
}

/// Docking keeps every environment free of repeated names.
pub proof fn law_dock_keeps_envs_distinct(
    t: LayoutTree,
    pane: Seq<char>,
    target: Seq<char>,
    direction: SplitDirection,
    before_target: bool,
)
    requires
        t.envs_distinct(),
    ensures
        dock_result(t, pane, target, direction, before_target) matches Some(u) ==> u.envs_distinct(),
{
    lemma_without_envs(t, pane);
    if let Some(Some(rest)) = t.without(pane) {
        if let Some(p) = rest.path_to(target) {
            lemma_at_path_envs(rest, p);
            if let Some(s) = rest.at_path(p) {
                let moved = plain_pane(pane);
                assert(moved.envs_distinct());
                lemma_with_at_path_envs(rest, p, split_of(direction, HALF_RATIO, moved, s));
                lemma_with_at_path_envs(rest, p, split_of(direction, HALF_RATIO, s, moved));
            }
        }
    }
}

/// Replacing a subtree by one without repeated names keeps the whole tree
/// without them.
pub proof fn law_replace_keeps_envs_distinct(t: LayoutTree, path: Seq<bool>, r: LayoutTree)
    requires
        t.envs_distinct(),
        r.envs_distinct(),
    ensures
        t.with_at_path(path, r) matches Some(u) ==> u.envs_distinct(),
{
    lemma_with_at_path_envs(t, path, r);
}

} // verus!

verus! {

/// Whether two paths part ways: some turn that both take differs, so
/// neither path leads into the subtree that the other reaches.
pub open spec fn paths_diverge(p: Seq<bool>, q: Seq<bool>) -> bool {
    exists|i: int| 0 <= i < p.len() && i < q.len() && p[i] != q[i]
}

/// The direction and ratio of a split reached by a read, if it is a split.
pub open spec fn split_label(node: Option<LayoutTree>) -> Option<(SplitDirection, u32)> {
    match node {
        Some(LayoutTree::Split { direction, ratio, .. }) => Some((direction, ratio)),
        _ => None,
    }
}

proof fn lemma_replace_leaves_path(t: LayoutTree, path: Seq<bool>, r: LayoutTree, q: Seq<bool>)
    requires
        t.at_path(path) is Some,
        paths_diverge(path, q),
    ensures
        t.with_at_path(path, r) matches Some(u) && u.at_path(q) == t.at_path(q),
    decreases path.len(),
{
    lemma_reachable_path_replaceable(t, path, r);
    let i = choose|i: int| 0 <= i < path.len() && i < q.len() && path[i] != q[i];
    if let LayoutTree::Split { first, second, .. } = t {
        if i > 0 {
            assert(path.drop_first()[i - 1] != q.drop_first()[i - 1]);
            if path[0] {
                lemma_replace_leaves_path(*second, path.drop_first(), r, q.drop_first());
            } else {
                lemma_replace_leaves_path(*first, path.drop_first(), r, q.drop_first());
            }
        }
    }
}

proof fn lemma_replace_keeps_split_at(t: LayoutTree, path: Seq<bool>, r: LayoutTree, k: int)
    requires
        t.at_path(path) is Some,
        0 <= k < path.len(),
    ensures
        t.with_at_path(path, r) matches Some(u) && split_label(t.at_path(path.take(k))) is Some
            && split_label(u.at_path(path.take(k))) == split_label(t.at_path(path.take(k))),
    decreases path.len(),
{
    lemma_reachable_path_replaceable(t, path, r);
    assert(path.take(0) =~= Seq::<bool>::empty());
    if let LayoutTree::Split { first, second, .. } = t {
        if k > 0 {
            assert(path.take(k).drop_first() =~= path.drop_first().take(k - 1));
            assert(path.take(k)[0] == path[0]);
            if path[0] {
                lemma_replace_keeps_split_at(*second, path.drop_first(), r, k - 1);
            } else {
                lemma_replace_keeps_split_at(*first, path.drop_first(), r, k - 1);
            }
        }
    }
}

proof fn lemma_replace_with_itself(t: LayoutTree, path: Seq<bool>)
    requires
        t.at_path(path) is Some,
    ensures
        t.with_at_path(path, t.at_path(path)->0) == Some(t),
    decreases path.len(),
{
    if path.len() > 0 {
        if let LayoutTree::Split { first, second, .. } = t {
            if path[0] {
                lemma_replace_with_itself(*second, path.drop_first());
            } else {
                lemma_replace_with_itself(*first, path.drop_first());
            }
        }
    }
}

/// Replacing the node at a path whose every turn meets a split succeeds; the
/// path then reads the replacement; every path that parts ways with it reads
/// what it read before; each split on the way keeps its direction and
/// ratio; and putting back the node that stood there gives the tree back.
pub proof fn law_replace_at_path(t: LayoutTree, path: Seq<bool>, r: LayoutTree)
    requires
        t.at_path(path) is Some,
    ensures
        t.with_at_path(path, r) matches Some(u) && {
            &&& u.at_path(path) == Some(r)
            &&& forall|q: Seq<bool>| paths_diverge(path, q) ==> #[trigger] u.at_path(q) == t.at_path(q)
            &&& forall|k: int|
                0 <= k < path.len() ==> split_label(t.at_path(path.take(k))) is Some
                    && #[trigger] split_label(u.at_path(path.take(k))) == split_label(
                    t.at_path(path.take(k)),
                )
        },
        t.with_at_path(path, t.at_path(path)->0) == Some(t),
{
    law_read_after_replace(t, path, r);
    let u = t.with_at_path(path, r)->0;
    assert forall|q: Seq<bool>| paths_diverge(path, q) implies #[trigger] u.at_path(q) == t.at_path(q) by {
        lemma_replace_leaves_path(t, path, r, q);
    }
    assert forall|k: int| 0 <= k < path.len() implies split_label(t.at_path(path.take(k))) is Some
        && #[trigger] split_label(u.at_path(path.take(k))) == split_label(t.at_path(path.take(k))) by {
        lemma_replace_keeps_split_at(t, path, r, k);
    }
    lemma_replace_with_itself(t, path);
}

/// After exchanging two IDs, the first pane with the exchanged ID of `x`
/// stands where the first pane `x` stood.
pub proof fn lemma_exchanged_paths(t: LayoutTree, a: Seq<char>, b: Seq<char>, x: Seq<char>)
    requires
        t.pane_ids() is Some,
    ensures
        t.exchanged(a, b) matches Some(s) && s.path_to(exchange_id(x, a, b)) == t.path_to(x),
    decreases t,
{
    lemma_exchange_needs_ids(t, a, b);
    if let LayoutTree::Split { first, second, .. } = t {
        lemma_exchanged_paths(*first, a, b, x);
        lemma_exchanged_paths(*second, a, b, x);
    }
}

/// Swapping two panes is refused exactly when they are the same pane or one
/// of them is not in the layout. Otherwise the result keeps every split with
/// its direction and ratio, lists the pane IDs in the same order with the two
/// exchanged, and swapping the same two again is allowed and gives back a
/// layout that compares equal to the first.
pub proof fn law_swap_panes(t: LayoutTree, a: Seq<char>, b: Seq<char>)
    requires
        t.pane_ids() is Some,
    ensures
        (swap_result(t, a, b) is None) == (a == b || t.path_to(a) is None || t.path_to(b) is None),
        swap_result(t, a, b) matches Some(s) ==> {
            &&& t.same_shape(s)
            &&& s.pane_ids() == Some(t.pane_ids()->0.map_values(|id: Seq<char>| exchange_id(id, a, b)))
            &&& swap_result(s, a, b) matches Some(v) && v.normalized() == t.normalized()
        },
{
    law_swap_keeps_shape(t, a, b);
    law_swap_twice_restores(t, a, b);
    lemma_exchanged_paths(t, a, b, a);
    lemma_exchanged_paths(t, a, b, b);
}

} // verus!

verus! {

/// Taking out a pane that is not in a layout changes nothing.
pub proof fn law_without_absent(t: LayoutTree, pane: Seq<char>)
    requires
        t.pane_ids() is Some,
        t.path_to(pane) is None,
    ensures
        t.without(pane) == Some(Some(t)),
    decreases t,
{
    if let LayoutTree::Split { first, second, .. } = t {
        law_without_absent(*first, pane);
        law_without_absent(*second, pane);
    }
}

/// Taking out a pane keeps every split both of whose sides keep a pane: the
/// split keeps its direction and ratio and holds what is left of each side.
/// Only a split that loses a whole side collapses into the other side.
pub proof fn law_without_keeps_split(t: LayoutTree, pane: Seq<char>)
    ensures
        match t {
            LayoutTree::Split { direction, ratio, first, second } => match (
                first.without(pane),
                second.without(pane),
            ) {
                (Some(Some(x)), Some(Some(y))) => t.without(pane) == Some(Some(split_of(direction, ratio, x, y))),
                (Some(Some(x)), Some(None)) => t.without(pane) == Some(Some(x)),
                (Some(None), Some(Some(y))) => t.without(pane) == Some(Some(y)),
                _ => true,
            },
            LayoutTree::Pane(_) => true,
        },
{
}

/// Docking changes no split but the new one: every node off the path to the
/// target stays as it was once the pane is taken out, and each split on that
/// path keeps its direction and ratio.
pub proof fn law_dock_keeps_other_splits(
    t: LayoutTree,
    pane: Seq<char>,
    target: Seq<char>,
    direction: SplitDirection,
    before_target: bool,
)
    ensures
        dock_result(t, pane, target, direction, before_target) matches Some(u) ==> {
            let rest = t.without(pane)->0->0;
            let p = rest.path_to(target)->0;
            &&& forall|q: Seq<bool>| paths_diverge(p, q) ==> #[trigger] u.at_path(q) == rest.at_path(q)
            &&& forall|k: int|
                0 <= k < p.len() ==> #[trigger] split_label(u.at_path(p.take(k))) == split_label(
                    rest.at_path(p.take(k)),
                )
        },
{
    if let Some(u) = dock_result(t, pane, target, direction, before_target) {
        let rest = t.without(pane)->0->0;
        let p = rest.path_to(target)->0;
        let s = rest.at_path(p)->0;
        let r = if before_target {
            split_of(direction, HALF_RATIO, plain_pane(pane), s)
        } else {
            split_of(direction, HALF_RATIO, s, plain_pane(pane))
        };
        law_replace_at_path(rest, p, r);
    }
}

} // verus!
