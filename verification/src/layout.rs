//! Terminal layout arithmetic: the playfield's lanes and the browse shell's columns.
use vstd::prelude::*;

verus! {

#[derive(Debug, Clone, Copy, PartialEq, Eq, Structural)]
pub struct PlayfieldLayout {
    lane_count: u16,
    lane_width: u16,
    lane_gap: u16,
}

#[derive(Debug, Clone, Copy, PartialEq, Eq, Structural)]
pub struct HudAnchor {
    pub x: u16,
    pub y: u16,
    pub width: u16,
    pub height: u16,
}

#[derive(Debug, Clone, Copy, PartialEq, Eq, Structural)]
pub enum ShellDensity {
    Compact,
    Regular,
}

#[derive(Debug, Clone, Copy, PartialEq, Eq, Structural)]
pub struct ScreenClass {
    pub density: ShellDensity,
    pub stack_side_panels: bool,
    pub compress_lists: bool,
}

#[derive(Debug, Clone, Copy, PartialEq, Eq, Structural)]
pub struct BrowseColumns {
    pub left: u16,
    pub center: u16,
    pub right: u16,
}

/// Width of the lanes and the gaps between them.
pub open spec fn playfield_width_spec(lane_count: int, lane_width: int, lane_gap: int) -> int {
    if lane_count == 0 {
        0
    } else {
        lane_count * lane_width + lane_gap * (lane_count - 1)
    }
}

/// Left offset that centers `content` inside `container` (0 when it does not fit).
pub open spec fn centered_left_spec(container: int, content: int) -> int {
    if container > content {
        (container - content) / 2
    } else {
        0
    }
}

impl PlayfieldLayout {
    pub closed spec fn lane_count_spec(self) -> u16 {
        self.lane_count
    }

    pub closed spec fn lane_width_spec(self) -> u16 {
        self.lane_width
    }

    pub closed spec fn lane_gap_spec(self) -> u16 {
        self.lane_gap
    }

    pub open spec fn width_spec(self) -> int {
        playfield_width_spec(
            self.lane_count_spec() as int,
            self.lane_width_spec() as int,
            self.lane_gap_spec() as int,
        )
    }

    /// The layout's width fits in `u16`.
    pub open spec fn fits(self) -> bool {
        self.width_spec() <= u16::MAX
    }

    pub fn new(lane_count: u16, lane_width: u16, lane_gap: u16) -> (l: Self)
        ensures
            l.lane_count_spec() == lane_count,
            l.lane_width_spec() == lane_width,
            l.lane_gap_spec() == lane_gap,
    {
        Self { lane_count, lane_width, lane_gap }
    }

    pub fn playfield_width(self) -> (w: u16)
        requires
            self.fits(),
        ensures
            w == self.width_spec(),
    {
        if self.lane_count == 0 {
            return 0;
        }
        proof {
            let c = self.lane_count as int;
            let w = self.lane_width as int;
            let g = self.lane_gap as int;
            assert(c * w >= 0 && g * (c - 1) >= 0) by (nonlinear_arith)
                requires
                    c >= 1,
                    w >= 0,
                    g >= 0,
            ;
        }
        self.lane_count * self.lane_width + self.lane_gap * (self.lane_count - 1)
    }

    pub fn centered_left(self, terminal_width: u16) -> (x: u16)
        requires
            self.fits(),
        ensures
            x == centered_left_spec(terminal_width as int, self.width_spec()),
    {
        terminal_width.saturating_sub(self.playfield_width()) / 2
    }

    /// Left edge of a lane, relative to the playfield.
    pub fn lane_left(self, lane_index: u16) -> (x: u16)
        requires
            self.lane_width_spec() + self.lane_gap_spec() <= u16::MAX,
            lane_index * (self.lane_width_spec() + self.lane_gap_spec()) <= u16::MAX,
        ensures
            x == lane_index * (self.lane_width_spec() + self.lane_gap_spec()),
    {
        lane_index * (self.lane_width + self.lane_gap)
    }

    pub fn inner_origin(self, container_width: u16) -> (x: u16)
        requires
            self.fits(),
        ensures
            x == centered_left_spec(container_width as int, self.width_spec()),
    {
        self.centered_left(container_width)
    }

    pub fn hud_anchor(self, terminal_width: u16, hud_height: u16) -> (a: HudAnchor)
        requires
            self.fits(),
        ensures
            a.x == centered_left_spec(terminal_width as int, self.width_spec()),
            a.y == 0,
            a.width == self.width_spec(),
            a.height == hud_height,
    {
        HudAnchor {
            x: self.centered_left(terminal_width),
            y: 0,
            width: self.playfield_width(),
            height: hud_height,
        }
    }
}

/// Law: a centered playfield that fits its container leaves equal margins
/// (up to one column) on both sides.
pub proof fn lemma_centered_playfield_balanced(layout: PlayfieldLayout, container: u16)
    requires
        layout.width_spec() <= container,
    ensures
        ({
            let left = centered_left_spec(container as int, layout.width_spec());
            let right = container - layout.width_spec() - left;
            &&& 0 <= left <= right <= left + 1
        }),
{
}

pub open spec fn classify_screen_spec(width: int, height: int) -> ScreenClass {
    ScreenClass {
        density: if width < 110 || height < 30 {
            ShellDensity::Compact
        } else {
            ShellDensity::Regular
        },
        stack_side_panels: width < 120,
        compress_lists: height < 32,
    }
}

pub fn classify_screen(width: u16, height: u16) -> (c: ScreenClass)
    ensures
        c == classify_screen_spec(width as int, height as int),
{
    let density = if width < 110 || height < 30 {
        ShellDensity::Compact
    } else {
        ShellDensity::Regular
    };
    ScreenClass { density, stack_side_panels: width < 120, compress_lists: height < 32 }
}

pub fn shell_header_height(screen: ScreenClass) -> (h: u16)
    ensures
        h == (if screen.density == ShellDensity::Compact { 3u16 } else { 4u16 }),
{
    match screen.density {
        ShellDensity::Compact => 3,
        ShellDensity::Regular => 4,
    }
}

pub fn shell_footer_height(screen: ScreenClass) -> (h: u16)
    ensures
        h == (if screen.density == ShellDensity::Compact { 2u16 } else { 3u16 }),
{
    match screen.density {
        ShellDensity::Compact => 2,
        ShellDensity::Regular => 3,
    }
}

/// Minimum widths of the left, center and right browse columns.
pub open spec fn browse_minimums(screen: ScreenClass) -> (int, int, int) {
    if screen.density == ShellDensity::Compact {
        (18, 66, 28)
    } else {
        (20, 66, 32)
    }
}

/// The browse columns: the center keeps its minimum width and the space
/// beyond the three minimums is split between the sidebars, the right one
/// taking the odd column.
pub open spec fn browse_columns_spec(body_width: int, screen: ScreenClass) -> BrowseColumns {
    let (l, c, r) = browse_minimums(screen);
    let extra = if body_width > l + c + r {
        body_width - (l + c + r)
    } else {
        0
    };
    BrowseColumns {
        left: (l + extra / 2) as u16,
        center: c as u16,
        right: (r + (extra - extra / 2)) as u16,
    }
}

pub fn browse_columns(body_width: u16, screen: ScreenClass) -> (b: BrowseColumns)
    ensures
        b == browse_columns_spec(body_width as int, screen),
{
    let left_min: u16 = match screen.density {
        ShellDensity::Compact => 18,
        ShellDensity::Regular => 20,
    };
    let right_min: u16 = match screen.density {
        ShellDensity::Compact => 28,
        ShellDensity::Regular => 32,
    };
    let center_min: u16 = 66;
    let extra = body_width.saturating_sub(left_min + center_min + right_min);
    let left_extra = extra / 2;
    let right_extra = extra - left_extra;
    BrowseColumns {
        left: left_min + left_extra,
        center: center_min,
        right: right_min + right_extra,
    }
}

/// Law: the browse columns use the whole body width whenever it holds the
/// three minimum widths, and the two sidebars differ by at most one column
/// of extra space.
pub proof fn lemma_browse_columns_fill_body(body_width: u16, screen: ScreenClass)
    ensures
        ({
            let (l, c, r) = browse_minimums(screen);
            let b = browse_columns_spec(body_width as int, screen);
            &&& b.center == c
            &&& body_width >= l + c + r ==> b.left + b.center + b.right == body_width
            &&& b.left - l <= b.right - r <= b.left - l + 1
        }),
{
}

} // verus!
