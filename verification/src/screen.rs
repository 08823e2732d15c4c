use vstd::prelude::*;

use ratatui::layout::{Constraint, Layout};

use crate::geometry::{centered_rect, spec_centered_rect, Rect};
use crate::picker::{
    lines_view, list_lines, list_rows, plan_view, spec_tab_areas, ListLine, Picker, PickerModel, PreviewPlan,
};

verus! {

/// The main part's columns inside `area` as ratatui's layout solver places
/// them: the list 22 cells wide, a 3-cell gap, the preview at least 28.
pub uninterp spec fn picker_columns(area: Rect) -> (Rect, Rect, Rect);

/// Three rows stacked from the top of `area` without gaps or overlap, the
/// last ending inside it.
pub open spec fn rows_stacked(area: Rect, top: Rect, middle: Rect, bottom: Rect) -> bool {
    &&& top.y == area.y
    &&& middle.y == top.y + top.height
    &&& bottom.y == middle.y + middle.height
    &&& bottom.y + bottom.height <= area.y + area.height
}

/// Calls ratatui's `Layout::vertical(..).areas` for the picker's rows: tabs
/// three lines high, the main part at least eight, the footer two, with the
/// default start-aligned flex. Claimed of it:
/// - each part keeps the columns of `area`, since `changes_to_rects` copies
///   `x` and `width` for a vertical layout, and stays inside the coordinate
///   space, since its `y` and `height` come from a float-to-`u16` cast, which
///   saturates, and a saturating subtraction;
/// - the rows are stacked from the top of `area` in the order given: the
///   solver keeps every variable inside the area and each segment's start
///   before its end as required constraints, holds the spacers between the
///   segments at zero and the first spacer empty with strengths above those
///   of the row constraints, and the rounding in `changes_to_rects` keeps
///   that order;
/// - when `area` has room for all three (13 lines or more), the tabs get
///   three lines, the footer two and the main part the rest, since every
///   length can then be met and the main part's grow constraint outweighs the
///   last spacer's.
/// The heights on a shorter area are not stated: there the solver settles
/// ties between the row constraints in a way that may differ from one
/// process to the next.
#[verifier::external_body]
fn split_rows(area: Rect) -> (r: (Rect, Rect, Rect))
    requires
        area.wf(),
    ensures
        r.0.x == area.x && r.0.width == area.width && r.0.wf(),
        r.1.x == area.x && r.1.width == area.width && r.1.wf(),
        r.2.x == area.x && r.2.width == area.width && r.2.wf(),
        rows_stacked(area, r.0, r.1, r.2),
        area.height >= 13 ==> r.0.height == 3 && r.1.height == area.height - 5 && r.2.height == 2,
{
    let outside = ratatui::layout::Rect { x: area.x, y: area.y, width: area.width, height: area.height };
    let [a, b, c] = Layout::vertical([Constraint::Length(3), Constraint::Min(8), Constraint::Length(2)]).areas(
        outside,
    );
    (
        Rect { x: a.x, y: a.y, width: a.width, height: a.height },
        Rect { x: b.x, y: b.y, width: b.width, height: b.height },
        Rect { x: c.x, y: c.y, width: c.width, height: c.height },
    )
}

/// Calls ratatui's `Layout::horizontal(..).areas` for the main part's
/// columns. Claimed of it: the result depends on `area` alone (named
/// `picker_columns`); each part keeps the rows of `area`, since
/// `changes_to_rects` copies `y` and `height` for a horizontal layout; and
/// each part stays inside the coordinate space, for the reason given at
/// `split_rows`. Where in `area` the solver puts the columns is not stated.
#[verifier::external_body]
fn split_columns(area: Rect) -> (r: (Rect, Rect, Rect))
    requires
        area.wf(),
    ensures
        r == picker_columns(area),
        r.0.y == area.y && r.0.height == area.height && r.0.wf(),
        r.1.y == area.y && r.1.height == area.height && r.1.wf(),
        r.2.y == area.y && r.2.height == area.height && r.2.wf(),
{
    let outside = ratatui::layout::Rect { x: area.x, y: area.y, width: area.width, height: area.height };
    let [a, b, c] = Layout::horizontal([Constraint::Length(22), Constraint::Length(3), Constraint::Min(28)]).areas(
        outside,
    );
    (
        Rect { x: a.x, y: a.y, width: a.width, height: a.height },
        Rect { x: b.x, y: b.y, width: b.width, height: b.height },
        Rect { x: c.x, y: c.y, width: c.width, height: c.height },
    )
}

/// Where the picker's parts go on the screen.
#[derive(Debug)]
pub struct Screen {
    pub tabs_area: Rect,
    /// Where the list and the preview go, or the reason.
    pub main_area: Rect,
    pub footer_area: Rect,
    /// Where the reason goes when the picker cannot arrange this tab.
    pub message_area: Option<Rect>,
    pub lines: Vec<ListLine>,
    pub preview: Option<PreviewPlan>,
}

/// The tabs fit to the left of the last 26 columns.
pub open spec fn tabs_fit(tabs: Rect) -> bool {
    tabs.x + 26 <= u16::MAX
}

/// The list's lines fit above the last rows.
pub open spec fn list_fits(list: Rect, item_count: nat) -> bool {
    list.y + 2 * item_count + 4 <= u16::MAX
}

impl PickerModel {
    /// The picker after laying out the list and tabs of an available picker
    /// in the rows and columns ratatui gives.
    pub open spec fn after_lists(self, tabs: Rect, list: Rect) -> PickerModel {
        let with_tabs = PickerModel {
            tab_areas: if tabs_fit(tabs) {
                spec_tab_areas(tabs)
            } else {
                Seq::empty()
            },
            ..self
        };
        PickerModel {
            row_areas: if list_fits(list, self.items.len()) {
                list_rows(self.items, self.active_tab, list)
            } else {
                Seq::empty()
            },
            ..with_tabs
        }
    }
}

impl PickerModel {
    /// `screen` and the picker `after` are what laying out the picker gives
    /// for the rows `tabs`, `main` and `footer`. When the picker cannot
    /// arrange this tab, the main part holds only the reason and nothing can
    /// be clicked; otherwise it holds the list and the preview. Tabs or list
    /// lines that would run past the last column or row are left out.
    pub open spec fn screened(self, tabs: Rect, main: Rect, footer: Rect, screen: Screen, after: PickerModel) -> bool {
        &&& screen.tabs_area == tabs
        &&& screen.main_area == main
        &&& screen.footer_area == footer
        &&& if self.unavailable is Some {
            &&& screen.message_area == Some(spec_centered_rect(main, 42, 3))
            &&& screen.lines@.len() == 0
            &&& screen.preview is None
            &&& after == (PickerModel {
                tab_areas: Seq::empty(),
                row_areas: Seq::empty(),
                pane_areas: Seq::empty(),
                ..self
            })
        } else {
            let (list, _, preview) = picker_columns(main);
            let listed = self.after_lists(tabs, list);
            &&& screen.message_area is None
            &&& lines_view(screen.lines@) == if list_fits(list, self.items.len()) {
                list_lines(self.items, self.active_tab, list)
            } else {
                Seq::empty()
            }
            &&& plan_view(screen.preview) == listed.preview_plan(preview)
            &&& after == listed.after_preview(preview)
        }
    }
}

impl Picker {
    /// Lay the picker out in the rows `tabs`, `main` and `footer`.
    pub fn arrange_screen(&mut self, tabs: Rect, main: Rect, footer: Rect) -> (r: Screen)
        requires
            main.wf(),
        ensures
            old(self)@.screened(tabs, main, footer, r, final(self)@),
    {
        if self.unavailable.is_some() {
            self.tab_areas = Vec::new();
            self.row_areas = Vec::new();
            self.pane_areas = Vec::new();
            assert(crate::geometry::area_entries(self.pane_areas@) =~= Seq::<(Seq<char>, Rect)>::empty());
            return Screen {
                tabs_area: tabs,
                main_area: main,
                footer_area: footer,
                message_area: Some(centered_rect(main, 42, 3)),
                lines: Vec::new(),
                preview: None,
            };
        }
        if tabs.x <= u16::MAX - 26 {
            self.lay_out_tabs(tabs);
        } else {
            self.tab_areas = Vec::new();
        }
        let (list, _, preview) = split_columns(main);
        let lines = if (list.y as usize) <= (u16::MAX as usize) - 4 && self.items.len() <= ((u16::MAX as usize) - 4
            - list.y as usize) / 2 {
            self.lay_out_list(list)
        } else {
            self.row_areas = Vec::new();
            let none: Vec<ListLine> = Vec::new();
            assert(lines_view(none@) =~= Seq::<crate::picker::LineModel>::empty());
            none
        };
        let plan = self.lay_out_preview(preview);
        Screen { tabs_area: tabs, main_area: main, footer_area: footer, message_area: None, lines, preview: plan }
    }

    /// Lay the picker out on a screen of `frame`: two columns of margin, then
    /// the rows ratatui's layout gives for the tabs, the main part and the
    /// footer, stacked from the top in that order inside the margin; on a
    /// screen of 13 lines or more the tabs take three, the footer two and the
    /// main part the rest.
    pub fn lay_out(&mut self, frame: Rect) -> (r: Screen)
        requires
            frame.wf(),
        ensures
            ({
                let inner = frame.spec_inner(2, 0);
                &&& r.tabs_area.x == inner.x && r.tabs_area.width == inner.width && r.tabs_area.wf()
                &&& r.main_area.x == inner.x && r.main_area.width == inner.width && r.main_area.wf()
                &&& r.footer_area.x == inner.x && r.footer_area.width == inner.width && r.footer_area.wf()
                &&& rows_stacked(inner, r.tabs_area, r.main_area, r.footer_area)
                &&& inner.height >= 13 ==> r.tabs_area.height == 3 && r.main_area.height == inner.height - 5
                    && r.footer_area.height == 2
                &&& old(self)@.screened(r.tabs_area, r.main_area, r.footer_area, r, final(self)@)
            }),
    {
        let inner = frame.inner(2, 0);
        let (tabs, main, footer) = split_rows(inner);
        self.arrange_screen(tabs, main, footer)
    }
}

} // verus!
