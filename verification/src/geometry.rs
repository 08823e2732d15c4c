use vstd::prelude::*;

use crate::layout::{LayoutNode, LayoutTree, SplitDirection, RATIO_SCALE};

verus! {

/// A rectangle of terminal cells.
#[derive(Clone, Copy, Debug, PartialEq, Eq, Structural)]
pub struct Rect {
    pub x: u16,
    pub y: u16,
    pub width: u16,
    pub height: u16,
}

/// Where a dragged pane is dropped on its target.
#[derive(Clone, Copy, Debug, PartialEq, Eq, Structural)]
pub enum DropZone {
    Center,
    Left,
    Right,
    Top,
    Bottom,
}

impl DropZone {
    pub open spec fn spec_next(self) -> DropZone {
        match self {
            DropZone::Center => DropZone::Left,
            DropZone::Left => DropZone::Right,
            DropZone::Right => DropZone::Top,
            DropZone::Top => DropZone::Bottom,
            DropZone::Bottom => DropZone::Center,
        }
    }

    /// The zone after this one when cycling with the keyboard.
    pub fn next(self) -> (r: Self)
        ensures
            r == self.spec_next(),
    {
        match self {
            DropZone::Center => DropZone::Left,
            DropZone::Left => DropZone::Right,
            DropZone::Right => DropZone::Top,
            DropZone::Top => DropZone::Bottom,
            DropZone::Bottom => DropZone::Center,
        }
    }
}

impl Rect {
    /// The rectangle stays inside the coordinate space.
    pub open spec fn wf(self) -> bool {
        self.x + self.width <= u16::MAX && self.y + self.height <= u16::MAX
    }

    pub open spec fn spec_new(x: u16, y: u16, width: u16, height: u16) -> Rect {
        Rect {
            x,
            y,
            width: if width > u16::MAX - x {
                (u16::MAX - x) as u16
            } else {
                width
            },
            height: if height > u16::MAX - y {
                (u16::MAX - y) as u16
            } else {
                height
            },
        }
    }

    /// A rectangle, its size cut down to stay inside the coordinate space.
    pub fn new(x: u16, y: u16, width: u16, height: u16) -> (r: Rect)
        ensures
            r == Rect::spec_new(x, y, width, height),
            r.wf(),
    {
        let max_width = u16::MAX - x;
        let max_height = u16::MAX - y;
        Rect {
            x,
            y,
            width: if width > max_width {
                max_width
            } else {
                width
            },
            height: if height > max_height {
                max_height
            } else {
                height
            },
        }
    }

    pub open spec fn spec_right(self) -> int {
        if self.x + self.width > u16::MAX {
            u16::MAX as int
        } else {
            self.x + self.width
        }
    }

    pub open spec fn spec_bottom(self) -> int {
        if self.y + self.height > u16::MAX {
            u16::MAX as int
        } else {
            self.y + self.height
        }
    }

    /// The first column right of the rectangle.
    pub fn right(self) -> (r: u16)
        ensures
            r == self.spec_right(),
    {
        self.x.saturating_add(self.width)
    }

    /// The first row below the rectangle.
    pub fn bottom(self) -> (r: u16)
        ensures
            r == self.spec_bottom(),
    {
        self.y.saturating_add(self.height)
    }

    pub open spec fn spec_contains(self, x: u16, y: u16) -> bool {
        self.x <= x < self.spec_right() && self.y <= y < self.spec_bottom()
    }

    /// Whether the cell `(x, y)` lies in the rectangle.
    pub fn contains(self, x: u16, y: u16) -> (r: bool)
        ensures
            r == self.spec_contains(x, y),
    {
        x >= self.x && x < self.right() && y >= self.y && y < self.bottom()
    }

    /// `value`, kept at the largest `u16`.
    pub open spec fn saturated(value: int) -> u16 {
        if value > u16::MAX {
            u16::MAX
        } else {
            value as u16
        }
    }

    pub open spec fn spec_inner(self, horizontal: u16, vertical: u16) -> Rect {
        let across = Rect::saturated(2 * horizontal);
        let down = Rect::saturated(2 * vertical);
        if self.width < across || self.height < down {
            Rect { x: 0, y: 0, width: 0, height: 0 }
        } else {
            Rect {
                x: Rect::saturated(self.x + horizontal),
                y: Rect::saturated(self.y + vertical),
                width: (self.width - across) as u16,
                height: (self.height - down) as u16,
            }
        }
    }

    /// The rectangle shrunk by a margin on every side; empty when the margin
    /// does not fit. Sums that would leave the coordinate space stop at its
    /// edge.
    pub fn inner(self, horizontal: u16, vertical: u16) -> (r: Rect)
        ensures
            r == self.spec_inner(horizontal, vertical),
            self.wf() ==> r.wf(),
    {
        let across: u16 = if horizontal > 0x7fff {
            u16::MAX
        } else {
            horizontal * 2
        };
        let down: u16 = if vertical > 0x7fff {
            u16::MAX
        } else {
            vertical * 2
        };
        if self.width < across || self.height < down {
            Rect { x: 0, y: 0, width: 0, height: 0 }
        } else {
            Rect {
                x: self.x.saturating_add(horizontal),
                y: self.y.saturating_add(vertical),
                width: self.width - across,
                height: self.height - down,
            }
        }
    }
}

proof fn lemma_product_bound(a: int, a_max: int, b: int, b_max: int)
    by (nonlinear_arith)
    requires
        0 <= a <= a_max,
        0 <= b <= b_max,
    ensures
        0 <= a * b <= a_max * b_max,
{
}

/// The size given to the first child of a split of `usable` cells: its
/// share rounded to the nearest cell, kept between one cell and all but one.
pub open spec fn first_extent(usable: int, ratio: u32) -> int {
    let share = (usable * ratio + RATIO_SCALE / 2) / RATIO_SCALE as int;
    if share < 1 {
        1
    } else if share > usable - 1 {
        usable - 1
    } else {
        share
    }
}

pub open spec fn spec_split_rect(area: Rect, direction: SplitDirection, ratio: u32) -> (Rect, Rect, Rect) {
    match direction {
        SplitDirection::Right => {
            let usable = area.width - 1;
            let first = first_extent(usable, ratio);
            (
                Rect { x: area.x, y: area.y, width: first as u16, height: area.height },
                Rect {
                    x: (area.x + first + 1) as u16,
                    y: area.y,
                    width: (usable - first) as u16,
                    height: area.height,
                },
                Rect { x: (area.x + first) as u16, y: area.y, width: 1, height: area.height },
            )
        },
        SplitDirection::Down => {
            let usable = area.height - 1;
            let first = first_extent(usable, ratio);
            (
                Rect { x: area.x, y: area.y, width: area.width, height: first as u16 },
                Rect {
                    x: area.x,
                    y: (area.y + first + 1) as u16,
                    width: area.width,
                    height: (usable - first) as u16,
                },
                Rect { x: area.x, y: (area.y + first) as u16, width: area.width, height: 1 },
            )
        },
    }
}

/// The split has room for both children and the divider between them.
pub open spec fn has_room(area: Rect, direction: SplitDirection) -> bool {
    match direction {
        SplitDirection::Right => area.width >= 3,
        SplitDirection::Down => area.height >= 3,
    }
}

fn share_of(usable: u16, ratio: u32) -> (r: u16)
    requires
        usable >= 2,
    ensures
        r == first_extent(usable as int, ratio),
{
    proof {
        lemma_product_bound(usable as int, 0xffff, ratio as int, 0xffff_ffff);
    }
    let share: u64 = (usable as u64 * ratio as u64 + (RATIO_SCALE / 2) as u64) / RATIO_SCALE as u64;
    if share < 1 {
        1
    } else if share > (usable - 1) as u64 {
        usable - 1
    } else {
        share as u16
    }
}

/// The two child areas of a split and the one-cell divider between them.
pub fn split_rect(area: Rect, direction: SplitDirection, ratio: u32) -> (r: (Rect, Rect, Rect))
    requires
        area.wf(),
        has_room(area, direction),
    ensures
        r == spec_split_rect(area, direction, ratio),
        r.0.wf() && r.1.wf() && r.2.wf(),
{
    match direction {
        SplitDirection::Right => {
            let usable = area.width - 1;
            let first = share_of(usable, ratio);
            (
                Rect::new(area.x, area.y, first, area.height),
                Rect::new(area.x + first + 1, area.y, usable - first, area.height),
                Rect::new(area.x + first, area.y, 1, area.height),
            )
        },
        SplitDirection::Down => {
            let usable = area.height - 1;
            let first = share_of(usable, ratio);
            (
                Rect::new(area.x, area.y, area.width, first),
                Rect::new(area.x, area.y + first + 1, area.width, usable - first),
                Rect::new(area.x, area.y + first, area.width, 1),
            )
        },
    }
}

/// Where each pane of the tree is drawn inside `area`, in reading order;
/// panes without an ID and splits without room are left out.
pub open spec fn pane_areas(t: LayoutTree, area: Rect) -> Seq<(Seq<char>, Rect)>
    decreases t,
{
    match t {
        LayoutTree::Pane(info) => match info.id {
            Some(id) => seq![(id, area)],
            None => Seq::empty(),
        },
        LayoutTree::Split { direction, ratio, first, second } => if has_room(area, direction) {
            let (a, b, _) = spec_split_rect(area, direction, ratio);
            pane_areas(*first, a) + pane_areas(*second, b)
        } else {
            Seq::empty()
        },
    }
}

pub open spec fn area_entries(areas: Seq<(String, Rect)>) -> Seq<(Seq<char>, Rect)> {
    areas.map_values(|e: (String, Rect)| (e.0@, e.1))
}

/// Appends where each pane of `node` is drawn inside `area`.
pub fn collect_pane_areas(node: &LayoutNode, area: Rect, areas: &mut Vec<(String, Rect)>)
    requires
        area.wf(),
    ensures
        area_entries(final(areas)@) == area_entries(old(areas)@) + pane_areas(node@, area),
    decreases node,
{
    match node {
        LayoutNode::Pane { pane_id, .. } => match pane_id {
            Some(id) => {
                let ghost before = areas@;
                areas.push((id.clone(), area));
                assert(area_entries(areas@) =~= area_entries(before) + seq![(id@, area)]);
            },
            None => {
                assert(area_entries(areas@) + Seq::empty() =~= area_entries(areas@));
            },
        },
        LayoutNode::Split { direction, ratio, first, second } => {
            let room = match direction {
                SplitDirection::Right => area.width >= 3,
                SplitDirection::Down => area.height >= 3,
            };
            if !room {
                assert(area_entries(areas@) + Seq::empty() =~= area_entries(areas@));
                return;
            }
            let (first_area, second_area, _) = split_rect(area, *direction, *ratio);
            let ghost start = area_entries(areas@);
            collect_pane_areas(first, first_area, areas);
            let ghost middle = area_entries(areas@);
            collect_pane_areas(second, second_area, areas);
            assert(area_entries(areas@) =~= start + (pane_areas(first@, first_area) + pane_areas(
                second@,
                second_area,
            )));
        },
    }
}

/// `a / w` is below `b / h`.
pub open spec fn fraction_below(a: int, w: int, b: int, h: int) -> bool {
    a * h < b * w
}

pub open spec fn spec_drop_zone(area: Rect, x: u16, y: u16) -> DropZone {
    let width = if area.width < 1 {
        1int
    } else {
        area.width as int
    };
    let height = if area.height < 1 {
        1int
    } else {
        area.height as int
    };
    let left = if x >= area.x {
        x - area.x
    } else {
        0
    };
    let right = if area.spec_right() - 1 >= x {
        area.spec_right() - 1 - x
    } else {
        0
    };
    let top = if y >= area.y {
        y - area.y
    } else {
        0
    };
    let bottom = if area.spec_bottom() - 1 >= y {
        area.spec_bottom() - 1 - y
    } else {
        0
    };
    // The nearest edge, the earlier one in left, right, top, bottom order on a tie.
    let (zone, num, den) = if fraction_below(right, width, left, width) {
        (DropZone::Right, right, width)
    } else {
        (DropZone::Left, left, width)
    };
    let (zone, num, den) = if fraction_below(top, height, num, den) {
        (DropZone::Top, top, height)
    } else {
        (zone, num, den)
    };
    let (zone, num, den) = if fraction_below(bottom, height, num, den) {
        (DropZone::Bottom, bottom, height)
    } else {
        (zone, num, den)
    };
    if 4 * num <= den {
        zone
    } else {
        DropZone::Center
    }
}

/// The drop zone under the cell `(x, y)` of a pane drawn at `area`: the
/// nearest edge when it lies within a quarter of the pane's size, else the
/// center.
pub fn drop_zone(area: Rect, x: u16, y: u16) -> (r: DropZone)
    ensures
        r == spec_drop_zone(area, x, y),
{
    let width: u64 = if area.width < 1 {
        1
    } else {
        area.width as u64
    };
    let height: u64 = if area.height < 1 {
        1
    } else {
        area.height as u64
    };
    let left = x.saturating_sub(area.x) as u64;
    let right = area.right().saturating_sub(1).saturating_sub(x) as u64;
    let top = y.saturating_sub(area.y) as u64;
    let bottom = area.bottom().saturating_sub(1).saturating_sub(y) as u64;
    let (mut zone, mut num, mut den) = (DropZone::Left, left, width);
    proof {
        lemma_product_bound(right as int, 0xffff, den as int, 0xffff);
        lemma_product_bound(num as int, 0xffff, width as int, 0xffff);
    }
    if right * den < num * width {
        zone = DropZone::Right;
        num = right;
        den = width;
    }
    proof {
        lemma_product_bound(top as int, 0xffff, den as int, 0xffff);
        lemma_product_bound(num as int, 0xffff, height as int, 0xffff);
    }
    if top * den < num * height {
        zone = DropZone::Top;
        num = top;
        den = height;
    }
    proof {
        lemma_product_bound(bottom as int, 0xffff, den as int, 0xffff);
        lemma_product_bound(num as int, 0xffff, height as int, 0xffff);
    }
    if bottom * den < num * height {
        zone = DropZone::Bottom;
        num = bottom;
        den = height;
    }
    if 4 * num <= den {
        zone
    } else {
        DropZone::Center
    }
}

pub open spec fn spec_zone_rect(area: Rect, zone: DropZone) -> Rect {
    let quarter_width = if area.width / 4 < 1 {
        1
    } else {
        area.width / 4
    };
    let quarter_height = if area.height / 4 < 1 {
        1
    } else {
        area.height / 4
    };
    match zone {
        DropZone::Left => Rect::spec_new(area.x, area.y, quarter_width as u16, area.height),
        DropZone::Right => Rect::spec_new(
            (if area.spec_right() >= quarter_width {
                area.spec_right() - quarter_width
            } else {
                0
            }) as u16,
            area.y,
            quarter_width as u16,
            area.height,
        ),
        DropZone::Top => Rect::spec_new(area.x, area.y, area.width, quarter_height as u16),
        DropZone::Bottom => Rect::spec_new(
            area.x,
            (if area.spec_bottom() >= quarter_height {
                area.spec_bottom() - quarter_height
            } else {
                0
            }) as u16,
            area.width,
            quarter_height as u16,
        ),
        DropZone::Center => {
            let width = if area.width / 2 < 1 {
                1
            } else {
                area.width / 2
            };
            let height = if area.height / 2 < 1 {
                1
            } else {
                area.height / 2
            };
            Rect::spec_new(
                (area.x + (if area.width >= width {
                    area.width - width
                } else {
                    0
                }) / 2) as u16,
                (area.y + (if area.height >= height {
                    area.height - height
                } else {
                    0
                }) / 2) as u16,
                width as u16,
                height as u16,
            )
        },
    }
}

/// The highlighted part of a pane for a drop zone: a quarter strip along an
/// edge, or the middle half for the center.
pub fn zone_rect(area: Rect, zone: DropZone) -> (r: Rect)
    requires
        area.wf(),
    ensures
        r == spec_zone_rect(area, zone),
{
    let quarter_width = if area.width / 4 < 1 {
        1
    } else {
        area.width / 4
    };
    let quarter_height = if area.height / 4 < 1 {
        1
    } else {
        area.height / 4
    };
    match zone {
        DropZone::Left => Rect::new(area.x, area.y, quarter_width, area.height),
        DropZone::Right => Rect::new(
            area.right().saturating_sub(quarter_width),
            area.y,
            quarter_width,
            area.height,
        ),
        DropZone::Top => Rect::new(area.x, area.y, area.width, quarter_height),
        DropZone::Bottom => Rect::new(
            area.x,
            area.bottom().saturating_sub(quarter_height),
            area.width,
            quarter_height,
        ),
        DropZone::Center => {
            let width = if area.width / 2 < 1 {
                1
            } else {
                area.width / 2
            };
            let height = if area.height / 2 < 1 {
                1
            } else {
                area.height / 2
            };
            Rect::new(
                area.x + area.width.saturating_sub(width) / 2,
                area.y + area.height.saturating_sub(height) / 2,
                width,
                height,
            )
        },
    }
}

pub open spec fn spec_centered_rect(area: Rect, max_width: u16, max_height: u16) -> Rect {
    let width = if area.width < max_width {
        area.width
    } else {
        max_width
    };
    let height = if area.height < max_height {
        area.height
    } else {
        max_height
    };
    Rect::spec_new(
        (area.x + (area.width - width) / 2) as u16,
        (area.y + (area.height - height) / 2) as u16,
        width,
        height,
    )
}

/// A rectangle of at most the given size centered in `area`.
pub fn centered_rect(area: Rect, max_width: u16, max_height: u16) -> (r: Rect)
    requires
        area.wf(),
    ensures
        r == spec_centered_rect(area, max_width, max_height),
        r.wf(),
{
    let width = if area.width < max_width {
        area.width
    } else {
        max_width
    };
    let height = if area.height < max_height {
        area.height
    } else {
        max_height
    };
    Rect::new(
        area.x + area.width.saturating_sub(width) / 2,
        area.y + area.height.saturating_sub(height) / 2,
        width,
        height,
    )
}

} // verus!

verus! {

proof fn lemma_fraction_trans(a: int, w: int, b: int, h: int, c: int, k: int)
    by (nonlinear_arith)
    requires
        w > 0,
        h > 0,
        k > 0,
        a * h <= b * w,
        b * k <= c * h,
    ensures
        a * k <= c * w,
{
}

proof fn lemma_quarter_beyond(num: int, den: int, e: int, big: int)
    by (nonlinear_arith)
    requires
        den > 0,
        big > 0,
        num * big <= e * den,
        4 * num > den,
    ensures
        4 * e > big,
{
}

/// Over a pane's area, the drop zone is the nearest edge when it lies within
/// a quarter of the pane's size along its axis, distances measured as shares
/// of the width for the left and right edges and of the height for the top
/// and bottom ones; otherwise the center. On a tie the left edge comes
/// before the right, and both before the top and bottom.
pub proof fn law_drop_zone_is_nearest_edge(area: Rect, x: u16, y: u16)
    requires
        area.wf(),
        area.width > 0,
        area.height > 0,
        area.x <= x < area.x + area.width,
        area.y <= y < area.y + area.height,
    ensures
        ({
            let w = area.width as int;
            let h = area.height as int;
            let l = x - area.x;
            let r = area.x + area.width - 1 - x;
            let t = y - area.y;
            let b = area.y + area.height - 1 - y;
            let zone = spec_drop_zone(area, x, y);
            &&& zone == DropZone::Left ==> 4 * l <= w && l <= r && l * h <= t * w && l * h <= b * w
            &&& zone == DropZone::Right ==> 4 * r <= w && r < l && r * h <= t * w && r * h <= b * w
            &&& zone == DropZone::Top ==> 4 * t <= h && t <= b && t * w < l * h && t * w < r * h
            &&& zone == DropZone::Bottom ==> 4 * b <= h && b < t && b * w < l * h && b * w < r * h
            &&& zone == DropZone::Center ==> 4 * l > w && 4 * r > w && 4 * t > h && 4 * b > h
        }),
{
    let w = area.width as int;
    let h = area.height as int;
    let l = x - area.x;
    let r = area.x + area.width - 1 - x;
    let t = y - area.y;
    let b = area.y + area.height - 1 - y;
    assert(area.spec_right() == area.x + area.width);
    assert(area.spec_bottom() == area.y + area.height);
    let (n1, d1) = if r * w < l * w { (r, w) } else { (l, w) };
    assert(r * w < l * w <==> r < l) by (nonlinear_arith)
        requires
            w > 0,
    ;
    let (n2, d2) = if t * d1 < n1 * h { (t, h) } else { (n1, d1) };
    let (n3, d3) = if b * d2 < n2 * h { (b, h) } else { (n2, d2) };
    assert(t * h <= b * h <==> t <= b) by (nonlinear_arith)
        requires
            h > 0,
    ;
    assert(b * h < t * h <==> b < t) by (nonlinear_arith)
        requires
            h > 0,
    ;
    assert(n1 * w <= l * w && n1 * w <= r * w) by (nonlinear_arith)
        requires
            w > 0,
            n1 == l || n1 == r,
            n1 <= l,
            n1 <= r,
    ;
    assert(n1 * h <= l * h && n1 * h <= r * h) by (nonlinear_arith)
        requires
            h > 0,
            n1 <= l,
            n1 <= r,
    ;
    assert((b < t ==> b * w < t * w) && (b * w < t * w ==> b < t)) by (nonlinear_arith)
        requires
            w > 0,
    ;
    // The chosen share is at most every edge's share.
    assert(n2 * w <= l * d2 && n2 * w <= r * d2 && n2 * h <= t * d2) by {
        if t * d1 < n1 * h {
            lemma_fraction_trans(t, h, n1, d1, l, w);
            lemma_fraction_trans(t, h, n1, d1, r, w);
            assert(t * h <= t * h);
        } else {
            assert(n1 * w <= l * w);
        }
    }
    assert(n3 * w <= l * d3 && n3 * w <= r * d3 && n3 * h <= t * d3 && n3 * h <= b * d3) by {
        if b * d2 < n2 * h {
            lemma_fraction_trans(b, h, n2, d2, l, w);
            lemma_fraction_trans(b, h, n2, d2, r, w);
            lemma_fraction_trans(b, h, n2, d2, t, h);
        }
    }
    if 4 * n3 > d3 {
        lemma_quarter_beyond(n3, d3, l, w);
        lemma_quarter_beyond(n3, d3, r, w);
        lemma_quarter_beyond(n3, d3, t, h);
        lemma_quarter_beyond(n3, d3, b, h);
    }
}

} // verus!

verus! {

/// Cycling the drop position with the keyboard visits all five zones, each
/// once, before coming back: from the center it goes to the left edge first.
pub proof fn law_zone_cycle_visits_all(zone: DropZone)
    ensures
        zone.spec_next().spec_next().spec_next().spec_next().spec_next() == zone,
        zone.spec_next() != zone,
        zone.spec_next().spec_next() != zone,
        zone.spec_next().spec_next().spec_next() != zone,
        zone.spec_next().spec_next().spec_next().spec_next() != zone,
        DropZone::Center.spec_next() == DropZone::Left,
{
}

} // verus!
