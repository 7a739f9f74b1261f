//! Layouts of the terminal interface for each mode, and the geometry of
//! areas on the screen.
use vstd::prelude::*;
use crate::ui_state::AppMode;
use ratatui::layout::{Constraint, Direction, Layout, Rect};

verus! {

/// How much room a part of a layout asks for.
#[derive(Debug, Clone, Copy, PartialEq, Eq)]
pub enum LayoutConstraint {
    Min(u16),
    Percentage(u16),
    Length(u16),
}

/// A rectangle of the screen.
#[derive(Debug, Clone, Copy, PartialEq, Eq)]
pub struct Area {
    pub x: u16,
    pub y: u16,
    pub width: u16,
    pub height: u16,
}

/// One region of a layout.
#[derive(Debug)]
pub struct LayoutRegion {
    pub constraints: Vec<LayoutConstraint>,
    /// Padding on the left, top, right and bottom.
    pub padding: (u16, u16, u16, u16),
    pub scrollable: bool,
}

impl Default for LayoutRegion {
    /// A region with no constraints, no padding, that does not scroll.
    fn default() -> (r: Self)
        ensures
            r.constraints@.len() == 0,
            r.padding == (0u16, 0u16, 0u16, 0u16),
            !r.scrollable,
    {
        LayoutRegion { constraints: Vec::new(), padding: (0, 0, 0, 0), scrollable: false }
    }
}

impl Clone for LayoutRegion {
    fn clone(&self) -> (r: Self)
        ensures
            region_view(r) == region_view(*self),
    {
        LayoutRegion { constraints: self.constraints.clone(), padding: self.padding, scrollable: self.scrollable }
    }
}

impl Clone for AppLayout {
    fn clone(&self) -> (r: Self)
        ensures
            layout_view(r) == layout_view(*self),
    {
        let sidebar = match &self.sidebar {
            Some(region) => Some(region.clone()),
            None => None,
        };
        AppLayout {
            mode: self.mode,
            main: self.main.clone(),
            sidebar,
            status: self.status.clone(),
            input: self.input.clone(),
        }
    }
}

/// What a region is: its constraints, its padding and whether it scrolls.
pub type RegionView = (Seq<LayoutConstraint>, (u16, u16, u16, u16), bool);

pub open spec fn region_view(r: LayoutRegion) -> RegionView {
    (r.constraints@, r.padding, r.scrollable)
}

/// The layout of the interface in one mode.
#[derive(Debug)]
pub struct AppLayout {
    pub mode: AppMode,
    pub main: LayoutRegion,
    pub sidebar: Option<LayoutRegion>,
    pub status: LayoutRegion,
    pub input: LayoutRegion,
}

/// What a layout is: mode, main, sidebar, status and input regions.
pub type LayoutView = (AppMode, RegionView, Option<RegionView>, RegionView, RegionView);

pub open spec fn layout_view(l: AppLayout) -> LayoutView {
    (
        l.mode,
        region_view(l.main),
        match l.sidebar {
            Some(s) => Some(region_view(s)),
            None => None,
        },
        region_view(l.status),
        region_view(l.input),
    )
}

/// A region of one constraint.
pub open spec fn one(c: LayoutConstraint, padding: (u16, u16, u16, u16), scrollable: bool) -> RegionView {
    (seq![c], padding, scrollable)
}

/// The layout of each mode.
pub open spec fn mode_layout(mode: AppMode) -> LayoutView {
    match mode {
        AppMode::Chat => (
            AppMode::Chat,
            (seq![LayoutConstraint::Min(1), LayoutConstraint::Percentage(60)], (0, 0, 0, 0), true),
            None,
            one(LayoutConstraint::Length(1), (0, 0, 0, 0), false),
            one(LayoutConstraint::Length(4), (1, 0, 1, 0), false),
        ),
        AppMode::History => (
            AppMode::History,
            one(LayoutConstraint::Percentage(100), (0, 0, 1, 0), true),
            Some(one(LayoutConstraint::Percentage(20), (0, 0, 0, 0), true)),
            one(LayoutConstraint::Length(1), (0, 0, 0, 0), false),
            one(LayoutConstraint::Length(2), (1, 0, 1, 0), false),
        ),
        AppMode::Help => (
            AppMode::Help,
            one(LayoutConstraint::Percentage(100), (1, 1, 1, 1), true),
            None,
            one(LayoutConstraint::Length(1), (0, 0, 0, 0), false),
            one(LayoutConstraint::Length(0), (0, 0, 0, 0), false),
        ),
        AppMode::Settings => (
            AppMode::Settings,
            one(LayoutConstraint::Percentage(100), (0, 0, 0, 0), false),
            Some(one(LayoutConstraint::Percentage(15), (0, 0, 0, 0), false)),
            one(LayoutConstraint::Length(1), (0, 0, 0, 0), false),
            one(LayoutConstraint::Length(0), (0, 0, 0, 0), false),
        ),
        AppMode::Status => (
            AppMode::Status,
            one(LayoutConstraint::Percentage(80), (1, 0, 1, 0), true),
            Some(one(LayoutConstraint::Percentage(20), (0, 0, 0, 0), false)),
            one(LayoutConstraint::Length(4), (0, 0, 0, 0), false),
            one(LayoutConstraint::Length(0), (0, 0, 0, 0), false),
        ),
        AppMode::CommandPalette => (
            AppMode::CommandPalette,
            one(LayoutConstraint::Percentage(100), (0, 0, 0, 0), false),
            None,
            one(LayoutConstraint::Length(0), (0, 0, 0, 0), false),
            one(LayoutConstraint::Length(1), (0, 0, 0, 0), false),
        ),
    }
}

fn region1(c: LayoutConstraint, padding: (u16, u16, u16, u16), scrollable: bool) -> (r: LayoutRegion)
    ensures
        region_view(r) == one(c, padding, scrollable),
{
    let mut constraints: Vec<LayoutConstraint> = Vec::new();
    constraints.push(c);
    assert(constraints@ =~= seq![c]);
    LayoutRegion { constraints, padding, scrollable }
}

/// Which region a region's area is taken within.
#[derive(Debug, Clone, Copy, PartialEq, Eq)]
pub enum RatatOffset {
    /// The whole frame.
    Whole,
    /// The sidebar's area.
    Sidebar,
    /// The main area.
    Main,
}

impl Default for RatatOffset {
    fn default() -> (o: Self)
        ensures
            o == RatatOffset::Whole,
    {
        RatatOffset::Whole
    }
}

/// Each of `parts` spans `area` across the direction of a split: the full
/// height for a horizontal split, the full width for a vertical one.
pub open spec fn spans_across(parts: Seq<Area>, vertical: bool, area: Area) -> bool {
    forall|k: int|
        0 <= k < parts.len() ==> if vertical {
            (#[trigger] parts[k]).x == area.x && parts[k].width == area.width
        } else {
            parts[k].y == area.y && parts[k].height == area.height
        }
}

/// Where an area of `size` starting at `start` ends, as `Rect::right` and
/// `Rect::bottom` give it: saturating at `u16::MAX`.
pub open spec fn area_end(start: u16, size: u16) -> int {
    if start + size <= u16::MAX { start + size } else { u16::MAX as int }
}

/// Each of `parts` lies within `area` along the direction of a split.
pub open spec fn lies_within(parts: Seq<Area>, vertical: bool, area: Area) -> bool {
    forall|k: int|
        0 <= k < parts.len() ==> if vertical {
            area.y <= (#[trigger] parts[k]).y && parts[k].y + parts[k].height <= area_end(area.y, area.height)
        } else {
            area.x <= parts[k].x && parts[k].x + parts[k].width <= area_end(area.x, area.width)
        }
}

/// `ratatui::layout::Layout::default().direction(..).constraints(..).split(area)`,
/// converted to areas. The contract claims what the source shows of every
/// outcome: one area per constraint, each spanning `area` across the split's
/// direction (with no margin the inner area is `area` itself; the `Rect` is
/// built field by field, so no clipping of `Rect::new` applies), and each
/// lying within `area` along it (every solver variable is held between the
/// area's start and end by required constraints, and the rounding back to
/// cells keeps it there). Exactly where along the direction each area lies
/// is left unsaid: the `cassowary` solver picks its pivots by walking std
/// `HashMap`s seeded per process, so that outcome is not a function of the
/// arguments and gets no name.
#[verifier::external_body]
fn split(vertical: bool, constraints: &[LayoutConstraint], area: Area) -> (r: Vec<Area>)
    ensures
        r@.len() == constraints@.len(),
        spans_across(r@, vertical, area),
        lies_within(r@, vertical, area),
{
    let cs = constraints.iter().map(|c| match *c {
        LayoutConstraint::Min(v) => Constraint::Min(v),
        LayoutConstraint::Percentage(v) => Constraint::Percentage(v),
        LayoutConstraint::Length(v) => Constraint::Length(v),
    });
    let dir = if vertical { Direction::Vertical } else { Direction::Horizontal };
    let rect = Rect { x: area.x, y: area.y, width: area.width, height: area.height };
    let parts = Layout::default().direction(dir).constraints(cs).split(rect);
    parts.iter().map(|r| Area { x: r.x, y: r.y, width: r.width, height: r.height }).collect()
}

/// The areas of a horizontal split of `area`: one per constraint, each of
/// the full height of `area` and within its width.
pub fn centered_split(area: Area, constraints: &[LayoutConstraint]) -> (r: Vec<Area>)
    ensures
        r@.len() == constraints@.len(),
        spans_across(r@, false, area),
        lies_within(r@, false, area),
{
    split(false, constraints, area)
}

/// The areas of a vertical split of `area`: one per constraint, each of the
/// full width of `area` and within its height.
pub fn centered_vertical_split(area: Area, constraints: &[LayoutConstraint]) -> (r: Vec<Area>)
    ensures
        r@.len() == constraints@.len(),
        spans_across(r@, true, area),
        lies_within(r@, true, area),
{
    split(true, constraints, area)
}

/// A padding fits an area starting at (`x`, `y`): the padded start and the
/// padding sums stay within `u16`.
pub open spec fn padding_fits(x: int, y: int, p: (u16, u16, u16, u16)) -> bool {
    &&& x + p.0 <= u16::MAX
    &&& y + p.1 <= u16::MAX
    &&& p.0 + p.2 <= u16::MAX
    &&& p.1 + p.3 <= u16::MAX
}

/// `r` is where `region` goes within `base`: the base shrunk by the
/// region's padding when it has no constraints, else a part of a horizontal
/// split of the base, of its full height and within its width.
pub open spec fn placed(r: Area, base: Area, region: LayoutRegion) -> bool {
    if region.constraints@.len() == 0 {
        r == padded(base, region.padding)
    } else {
        &&& r.y == base.y
        &&& r.height == base.height
        &&& base.x <= r.x
        &&& r.x + r.width <= area_end(base.x, base.width)
    }
}

/// The furthest column where the sidebar's area of a frame can start.
pub open spec fn sidebar_bound_x(frame: Area, sidebar: LayoutRegion) -> int {
    if sidebar.constraints@.len() == 0 { frame.x + sidebar.padding.0 } else { area_end(frame.x, frame.width) }
}

/// The row where the sidebar's area of a frame starts.
pub open spec fn sidebar_bound_y(frame: Area, sidebar: LayoutRegion) -> int {
    if sidebar.constraints@.len() == 0 { frame.y + sidebar.padding.1 } else { frame.y as int }
}

/// `outer` shrunk by a padding, with sizes that do not go below zero.
pub open spec fn padded(outer: Area, padding: (u16, u16, u16, u16)) -> Area {
    Area {
        x: (outer.x + padding.0) as u16,
        y: (outer.y + padding.1) as u16,
        width: if outer.width >= padding.0 + padding.2 { (outer.width - (padding.0 + padding.2)) as u16 } else { 0 },
        height: if outer.height >= padding.1 + padding.3 { (outer.height - (padding.1 + padding.3)) as u16 } else { 0 },
    }
}

/// Where a cell of a grid lies.
pub open spec fn grid_cell(area: Area, rows: u16, cols: u16, k: int) -> Area {
    let cw = area.width / cols;
    let ch = area.height / rows;
    Area {
        x: (area.x + (k % (cols as int)) * cw) as u16,
        y: (area.y + (k / (cols as int)) * ch) as u16,
        width: cw,
        height: ch,
    }
}

/// The last cell of a grid over `area` starts at a position that fits in a
/// `u16`, in both directions.
pub open spec fn grid_fits(area: Area, rows: u16, cols: u16) -> bool {
    &&& area.x + (cols - 1) * (area.width / cols) <= u16::MAX
    &&& area.y + (rows - 1) * (area.height / rows) <= u16::MAX
}

/// The cells of a grid of `rows` by `cols` equal cells over `area`, row by
/// row; what does not divide evenly is left over at the right and bottom.
pub fn grid_layout(area: Area, rows: u16, cols: u16) -> (r: Vec<Area>)
    requires
        rows > 0,
        cols > 0,
        grid_fits(area, rows, cols),
    ensures
        r@.len() == rows * cols,
        forall|k: int| 0 <= k < r@.len() ==> #[trigger] r@[k] == grid_cell(area, rows, cols, k),
{
    let mut positions: Vec<Area> = Vec::new();
    let cell_width = area.width / cols;
    let cell_height = area.height / rows;
    let mut y: u16 = 0;
    while y < rows
        invariant
            rows > 0,
            cols > 0,
            grid_fits(area, rows, cols),
            cell_width == area.width / cols,
            cell_height == area.height / rows,
            y <= rows,
            positions@.len() == y * cols,
            forall|k: int| 0 <= k < positions@.len() ==> #[trigger] positions@[k] == grid_cell(area, rows, cols, k),
        decreases rows - y,
    {
        let mut x: u16 = 0;
        while x < cols
            invariant
                rows > 0,
                cols > 0,
                grid_fits(area, rows, cols),
                cell_width == area.width / cols,
                cell_height == area.height / rows,
                y < rows,
                x <= cols,
                positions@.len() == y * cols + x,
                forall|k: int| 0 <= k < positions@.len() ==> #[trigger] positions@[k] == grid_cell(area, rows, cols, k),
            decreases cols - x,
        {
            proof {
                lemma_cell_fits(area.width as int, cols as int, x as int);
                lemma_cell_fits(area.height as int, rows as int, y as int);
                vstd::arithmetic::div_mod::lemma_fundamental_div_mod_converse(
                    y * cols + x,
                    cols as int,
                    y as int,
                    x as int,
                );
                assert(x * cell_width <= (cols - 1) * cell_width) by (nonlinear_arith)
                    requires
                        x <= cols - 1,
                        cell_width >= 0,
                ;
                assert(y * cell_height <= (rows - 1) * cell_height) by (nonlinear_arith)
                    requires
                        y <= rows - 1,
                        cell_height >= 0,
                ;
            }
            let px: u16 = area.x + x * cell_width;
            let py: u16 = area.y + y * cell_height;
            positions.push(Area { x: px, y: py, width: cell_width, height: cell_height });
            x = x + 1;
        }
        assert((y + 1) * cols == y * cols + cols) by (nonlinear_arith);
        y = y + 1;
    }
    positions
}

/// Cell `i` of `n` equal cells starts within the whole.
proof fn lemma_cell_fits(whole: int, n: int, i: int)
    requires
        n > 0,
        0 <= i < n,
        whole >= 0,
    ensures
        0 <= i * (whole / n) <= whole,
{
    vstd::arithmetic::div_mod::lemma_fundamental_div_mod(whole, n);
    assert(0 <= whole / n) by {
        vstd::arithmetic::div_mod::lemma_div_pos_is_pos(whole, n);
    }
    assert(i * (whole / n) <= n * (whole / n)) by (nonlinear_arith)
        requires
            0 <= i < n,
            0 <= whole / n,
    ;
    assert(0 <= i * (whole / n)) by (nonlinear_arith)
        requires
            0 <= i,
            0 <= whole / n,
    ;
    assert(n * (whole / n) <= whole) by {
        vstd::arithmetic::div_mod::lemma_mod_pos_bound(whole, n);
    }
}

/// Every cell of a grid lies within the area it divides.
pub proof fn lemma_grid_cell_within(area: Area, rows: u16, cols: u16, k: int)
    requires
        rows > 0,
        cols > 0,
        grid_fits(area, rows, cols),
        0 <= k < rows * cols,
    ensures
        area.x <= grid_cell(area, rows, cols, k).x,
        grid_cell(area, rows, cols, k).x + grid_cell(area, rows, cols, k).width <= area.x + area.width,
        area.y <= grid_cell(area, rows, cols, k).y,
        grid_cell(area, rows, cols, k).y + grid_cell(area, rows, cols, k).height <= area.y + area.height,
{
    let c = cols as int;
    let r = rows as int;
    let x = k % c;
    let y = k / c;
    vstd::arithmetic::div_mod::lemma_fundamental_div_mod(k, c);
    vstd::arithmetic::div_mod::lemma_mod_pos_bound(k, c);
    vstd::arithmetic::div_mod::lemma_div_pos_is_pos(k, c);
    assert(y < r) by (nonlinear_arith)
        requires
            c > 0,
            k == c * y + x,
            0 <= x,
            k < r * c,
    ;
    lemma_cell_end_fits(area.width as int, c, x);
    lemma_cell_end_fits(area.height as int, r, y);
    let cw = area.width / cols;
    let ch = area.height / rows;
    assert(x * cw <= (c - 1) * cw) by (nonlinear_arith)
        requires
            x <= c - 1,
            cw >= 0,
    ;
    assert(y * ch <= (r - 1) * ch) by (nonlinear_arith)
        requires
            y <= r - 1,
            ch >= 0,
    ;
}

/// Cell `i` of `n` equal cells ends within the whole.
proof fn lemma_cell_end_fits(whole: int, n: int, i: int)
    requires
        n > 0,
        0 <= i < n,
        whole >= 0,
    ensures
        0 <= i * (whole / n),
        i * (whole / n) + whole / n <= whole,
{
    vstd::arithmetic::div_mod::lemma_fundamental_div_mod(whole, n);
    vstd::arithmetic::div_mod::lemma_div_pos_is_pos(whole, n);
    vstd::arithmetic::div_mod::lemma_mod_pos_bound(whole, n);
    assert(i * (whole / n) + whole / n <= n * (whole / n)) by (nonlinear_arith)
        requires
            0 <= i < n,
            0 <= whole / n,
    ;
    assert(0 <= i * (whole / n)) by (nonlinear_arith)
        requires
            0 <= i,
            0 <= whole / n,
    ;
}

impl AppLayout {
    /// The layout of `mode`.
    pub fn for_mode(mode: AppMode) -> (l: Self)
        ensures
            layout_view(l) == mode_layout(mode),
    {
        match mode {
            AppMode::Chat => Self::chat_layout(),
            AppMode::History => Self::history_layout(),
            AppMode::Help => Self::help_layout(),
            AppMode::Settings => Self::settings_layout(),
            AppMode::Status => Self::status_layout(),
            AppMode::CommandPalette => Self::command_palette_layout(),
        }
    }

    fn chat_layout() -> (l: Self)
        ensures
            layout_view(l) == mode_layout(AppMode::Chat),
    {
        let mut main_cs: Vec<LayoutConstraint> = Vec::new();
        main_cs.push(LayoutConstraint::Min(1));
        main_cs.push(LayoutConstraint::Percentage(60));
        assert(main_cs@ =~= seq![LayoutConstraint::Min(1), LayoutConstraint::Percentage(60)]);
        AppLayout {
            mode: AppMode::Chat,
            main: LayoutRegion { constraints: main_cs, padding: (0, 0, 0, 0), scrollable: true },
            sidebar: None,
            status: region1(LayoutConstraint::Length(1), (0, 0, 0, 0), false),
            input: region1(LayoutConstraint::Length(4), (1, 0, 1, 0), false),
        }
    }

    fn history_layout() -> (l: Self)
        ensures
            layout_view(l) == mode_layout(AppMode::History),
    {
        AppLayout {
            mode: AppMode::History,
            main: region1(LayoutConstraint::Percentage(100), (0, 0, 1, 0), true),
            sidebar: Some(region1(LayoutConstraint::Percentage(20), (0, 0, 0, 0), true)),
            status: region1(LayoutConstraint::Length(1), (0, 0, 0, 0), false),
            input: region1(LayoutConstraint::Length(2), (1, 0, 1, 0), false),
        }
    }

    fn help_layout() -> (l: Self)
        ensures
            layout_view(l) == mode_layout(AppMode::Help),
    {
        AppLayout {
            mode: AppMode::Help,
            main: region1(LayoutConstraint::Percentage(100), (1, 1, 1, 1), true),
            sidebar: None,
            status: region1(LayoutConstraint::Length(1), (0, 0, 0, 0), false),
            input: region1(LayoutConstraint::Length(0), (0, 0, 0, 0), false),
        }
    }

    fn settings_layout() -> (l: Self)
        ensures
            layout_view(l) == mode_layout(AppMode::Settings),
    {
        AppLayout {
            mode: AppMode::Settings,
            main: region1(LayoutConstraint::Percentage(100), (0, 0, 0, 0), false),
            sidebar: Some(region1(LayoutConstraint::Percentage(15), (0, 0, 0, 0), false)),
            status: region1(LayoutConstraint::Length(1), (0, 0, 0, 0), false),
            input: region1(LayoutConstraint::Length(0), (0, 0, 0, 0), false),
        }
    }

    fn status_layout() -> (l: Self)
        ensures
            layout_view(l) == mode_layout(AppMode::Status),
    {
        AppLayout {
            mode: AppMode::Status,
            main: region1(LayoutConstraint::Percentage(80), (1, 0, 1, 0), true),
            sidebar: Some(region1(LayoutConstraint::Percentage(20), (0, 0, 0, 0), false)),
            status: region1(LayoutConstraint::Length(4), (0, 0, 0, 0), false),
            input: region1(LayoutConstraint::Length(0), (0, 0, 0, 0), false),
        }
    }

    fn command_palette_layout() -> (l: Self)
        ensures
            layout_view(l) == mode_layout(AppMode::CommandPalette),
    {
        AppLayout {
            mode: AppMode::CommandPalette,
            main: region1(LayoutConstraint::Percentage(100), (0, 0, 0, 0), false),
            sidebar: None,
            status: region1(LayoutConstraint::Length(0), (0, 0, 0, 0), false),
            input: region1(LayoutConstraint::Length(1), (0, 0, 0, 0), false),
        }
    }

    /// `outer` shrunk by `padding`; sizes do not go below zero.
    pub fn inner_rect(&self, outer: Area, padding: (u16, u16, u16, u16)) -> (r: Area)
        requires
            outer.x + padding.0 <= u16::MAX,
            outer.y + padding.1 <= u16::MAX,
            padding.0 + padding.2 <= u16::MAX,
            padding.1 + padding.3 <= u16::MAX,
        ensures
            r == padded(outer, padding),
    {
        Area {
            x: outer.x + padding.0,
            y: outer.y + padding.1,
            width: outer.width.saturating_sub(padding.0 + padding.2),
            height: outer.height.saturating_sub(padding.1 + padding.3),
        }
    }

    /// The area of `region` within the frame: taken within the whole frame,
    /// or, for `Sidebar` when there is a sidebar, within the sidebar's own
    /// area. It is the first part of a horizontal split of that base area by
    /// the region's constraints, or the base area shrunk by the region's
    /// padding when it has no constraints.
    pub fn apply_region(&self, frame_area: Area, region: &LayoutRegion, offset: RatatOffset) -> (r: Area)
        requires
            offset == RatatOffset::Sidebar && self.sidebar is Some ==> padding_fits(
                frame_area.x as int,
                frame_area.y as int,
                self.sidebar->0.padding,
            ) && padding_fits(
                sidebar_bound_x(frame_area, self.sidebar->0),
                sidebar_bound_y(frame_area, self.sidebar->0),
                region.padding,
            ),
            !(offset == RatatOffset::Sidebar && self.sidebar is Some) ==> padding_fits(
                frame_area.x as int,
                frame_area.y as int,
                region.padding,
            ),
        ensures
            offset == RatatOffset::Sidebar && self.sidebar is Some ==> exists|b: Area|
                placed(b, frame_area, self.sidebar->0) && #[trigger] placed(r, b, *region),
            !(offset == RatatOffset::Sidebar && self.sidebar is Some) ==> placed(r, frame_area, *region),
        decreases
                (match offset {
                    RatatOffset::Sidebar => 1int,
                    _ => 0int,
                }),
    {
        let rect = match offset {
            RatatOffset::Sidebar => match &self.sidebar {
                Some(sidebar) => self.apply_region(frame_area, sidebar, RatatOffset::Whole),
                None => frame_area,
            },
            _ => frame_area,
        };
        let inner = self.inner_rect(rect, region.padding);
        let constraints = self.constraints_for_region(region);
        let parts = centered_split(rect, constraints.as_slice());
        let r = if parts.len() == 0 {
            inner
        } else {
            assert(lies_within(parts@, false, rect));
            assert(parts@[0] == parts@[0]);
            parts[0]
        };
        assert(placed(r, rect, *region));
        r
    }

    /// The constraints of a region.
    pub fn constraints_for_region(&self, region: &LayoutRegion) -> (r: Vec<LayoutConstraint>)
        ensures
            r@ == region.constraints@,
    {
        region.constraints.clone()
    }
}

} // verus!
