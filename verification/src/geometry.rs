//! Where the toolbar, its action menu and the card are put on a display.
//!
//! A length is counted in 1/65536 of a pixel and a position in half of that, so that
//! the middle of every length is a position.

use vstd::prelude::*;

verus! {

/// One pixel, as a length.
pub const PIXEL: i64 = 65536;

/// One pixel, as a distance between positions.
pub const POSITION_PIXEL: i64 = 131072;

/// No length is larger than this: it is 2^32 pixels.
pub const LENGTH_LIMIT: i64 = 0x1_0000_0000_0000;

/// No position is farther from zero than this: it is 2^32 pixels.
pub const POSITION_LIMIT: i64 = 0x2_0000_0000_0000;

/// The logical sizes of the windows and the gaps around them, in whole pixels at
/// a display scale of one.
pub const TOOLBAR_WIDTH: u16 = 440;

pub const TOOLBAR_HEIGHT: u16 = 60;

pub const ACTION_MENU_HEIGHT: u16 = 208;

pub const CARD_WIDTH: u16 = 440;

pub const CARD_HEIGHT: u16 = 540;

pub const EDGE_GAP: u16 = 12;

pub const ANCHOR_GAP: u16 = 8;

/// A number that a length can be.
pub open spec fn is_length(v: i64) -> bool {
    -LENGTH_LIMIT <= v <= LENGTH_LIMIT
}

/// A number that a position can be.
pub open spec fn is_position(v: i64) -> bool {
    -POSITION_LIMIT <= v <= POSITION_LIMIT
}

/// A length as a distance between positions.
pub open spec fn span(length: int) -> int {
    2 * length
}

/// Half a length as a distance between positions.
pub open spec fn half_span(length: int) -> int {
    length
}

/// A point of the desktop.
#[derive(Debug, Clone, Copy, PartialEq, Eq, Structural)]
pub struct Point {
    pub x: i64,
    pub y: i64,
}

impl Point {
    pub open spec fn in_range(self) -> bool {
        is_position(self.x) && is_position(self.y)
    }
}

/// A rectangle of the desktop: the position of its upper left corner and its lengths.
#[derive(Debug, Clone, Copy, PartialEq, Eq, Structural)]
pub struct CoordinateRect {
    pub x: i64,
    pub y: i64,
    pub width: i64,
    pub height: i64,
}

impl CoordinateRect {
    pub open spec fn in_range(self) -> bool {
        is_position(self.x) && is_position(self.y) && is_length(self.width) && is_length(self.height)
    }

    /// The rectangle lies in the other one with at least `gap` to its left and right.
    pub open spec fn within_x(self, outer: CoordinateRect, gap: int) -> bool {
        &&& outer.x + span(gap) <= self.x
        &&& self.x + span(self.width as int) <= outer.x + span(outer.width as int) - span(gap)
    }

    /// The rectangle lies in the other one with at least `gap` above and below it.
    pub open spec fn within_y(self, outer: CoordinateRect, gap: int) -> bool {
        &&& outer.y + span(gap) <= self.y
        &&& self.y + span(self.height as int) <= outer.y + span(outer.height as int) - span(gap)
    }
}

/// The rectangle around a selected text: the position of its upper left corner and its
/// lengths.
#[derive(Debug, Clone, Copy, PartialEq, Eq, Structural)]
pub struct SelectionRect {
    pub left: i64,
    pub top: i64,
    pub width: i64,
    pub height: i64,
}

impl SelectionRect {
    pub open spec fn in_range(self) -> bool {
        &&& is_position(self.left)
        &&& is_position(self.top)
        &&& is_length(self.width)
        &&& is_length(self.height)
    }

    pub open spec fn spec_center_x(self) -> int {
        self.left + half_span(self.width as int)
    }

    pub open spec fn spec_bottom(self) -> int {
        self.top + span(self.height as int)
    }

    /// The horizontal centre.
    pub fn center_x(self) -> (x: i64)
        requires
            self.in_range(),
        ensures
            x == self.spec_center_x(),
    {
        self.left + self.width
    }

    /// The lower edge.
    pub fn bottom(self) -> (y: i64)
        requires
            self.in_range(),
        ensures
            y == self.spec_bottom(),
    {
        self.top + 2 * self.height
    }
}

/// The sizes and gaps of the windows on a display, as lengths at the scale of that
/// display.
#[derive(Debug, Clone, Copy, PartialEq, Eq, Structural)]
pub struct Metrics {
    pub toolbar_width: i64,
    pub toolbar_height: i64,
    pub menu_height: i64,
    pub card_width: i64,
    pub card_height: i64,
    pub edge_gap: i64,
    pub anchor_gap: i64,
}

impl Metrics {
    pub open spec fn in_range(self) -> bool {
        &&& is_length(self.toolbar_width)
        &&& is_length(self.toolbar_height)
        &&& is_length(self.menu_height)
        &&& is_length(self.card_width)
        &&& is_length(self.card_height)
        &&& is_length(self.edge_gap)
        &&& is_length(self.anchor_gap)
    }
}

pub open spec fn spec_max(a: int, b: int) -> int {
    if a < b {
        b
    } else {
        a
    }
}

pub open spec fn spec_min(a: int, b: int) -> int {
    if b < a {
        b
    } else {
        a
    }
}

/// The number nearest to `v` from `low` to `high`, or `low` where there is none.
pub open spec fn confined(v: int, low: int, high: int) -> int {
    spec_max(low, spec_min(v, high))
}

fn confine(v: i64, low: i64, high: i64) -> (r: i64)
    ensures
        r == confined(v as int, low as int, high as int),
{
    let below: i64 = if high < v {
        high
    } else {
        v
    };
    if low < below {
        below
    } else {
        low
    }
}

/// The point by which the display for the toolbar is looked up: the top centre
/// of the selection, else the cursor.
pub open spec fn spec_probe(anchor: Option<SelectionRect>, cursor: Option<Point>) -> Option<
    (int, int),
> {
    match (anchor, cursor) {
        (Some(rect), _) => Some((rect.spec_center_x(), rect.top as int)),
        (None, Some(point)) => Some((point.x as int, point.y as int)),
        (None, None) => None,
    }
}

/// The point by which the display for the toolbar is looked up.
pub fn toolbar_probe(anchor: Option<SelectionRect>, cursor: Option<Point>) -> (probe: Option<Point>)
    requires
        anchor is Some ==> anchor->0.in_range(),
    ensures
        match probe {
            Some(point) => spec_probe(anchor, cursor) == Some((point.x as int, point.y as int)),
            None => spec_probe(anchor, cursor) is None,
        },
{
    match anchor {
        Some(rect) => Some(Point { x: rect.center_x(), y: rect.top }),
        None => cursor,
    }
}

/// What the toolbar is placed by: the horizontal centre, the upper edge and the
/// lower edge of the selection. Without a selection it is the cursor, and without
/// a cursor the middle of the display.
pub open spec fn toolbar_anchor_lines(
    anchor: Option<SelectionRect>,
    cursor: Option<Point>,
    work: CoordinateRect,
) -> (int, int, int) {
    match (anchor, cursor) {
        (Some(rect), _) => (rect.spec_center_x(), rect.top as int, rect.spec_bottom()),
        (None, Some(point)) => (point.x as int, point.y as int, point.y as int),
        (None, None) => {
            let y = work.y + half_span(work.height as int);
            (work.x + half_span(work.width as int), y, y)
        },
    }
}

/// The horizontal place of a window of the given width, centred on `center` as
/// far as the work area lets it.
pub open spec fn centered_x(center: int, width: int, work: CoordinateRect, edge: int) -> int {
    let low = work.x + span(edge);
    let high = work.x + span(work.width as int) - span(width) - span(edge);
    confined(center - half_span(width), low, spec_max(high, low))
}

/// The vertical place of a window of the given height, at `y` as far as the work
/// area lets it.
pub open spec fn confined_y(y: int, height: int, work: CoordinateRect, edge: int) -> int {
    let low = work.y + span(edge);
    let high = work.y + span(work.height as int) - span(height) - span(edge);
    confined(y, low, spec_max(high, low))
}

/// The place of the toolbar: centred on the selection, and above it where there
/// is room, else below it as far as the work area lets it.
pub open spec fn spec_toolbar_place(
    anchor: Option<SelectionRect>,
    cursor: Option<Point>,
    work: CoordinateRect,
    metrics: Metrics,
) -> (int, int) {
    let (center, top, bottom) = toolbar_anchor_lines(anchor, cursor, work);
    let above = top - span(metrics.toolbar_height as int) - span(metrics.anchor_gap as int);
    (
        centered_x(center, metrics.toolbar_width as int, work, metrics.edge_gap as int),
        if above >= work.y + span(metrics.edge_gap as int) {
            above
        } else {
            confined_y(
                bottom + span(metrics.anchor_gap as int),
                metrics.toolbar_height as int,
                work,
                metrics.edge_gap as int,
            )
        },
    )
}

fn center_x_in(center: i64, width: i64, work: &CoordinateRect, edge: i64) -> (x: i64)
    requires
        -4 * POSITION_LIMIT <= center <= 4 * POSITION_LIMIT,
        is_length(width),
        work.in_range(),
        is_length(edge),
    ensures
        x == centered_x(center as int, width as int, *work, edge as int),
{
    let low: i64 = work.x + 2 * edge;
    let high: i64 = work.x + 2 * work.width - 2 * width - 2 * edge;
    confine(center - width, low, if high < low {
        low
    } else {
        high
    })
}

fn confine_y_in(y: i64, height: i64, work: &CoordinateRect, edge: i64) -> (r: i64)
    requires
        is_length(height),
        work.in_range(),
        is_length(edge),
    ensures
        r == confined_y(y as int, height as int, *work, edge as int),
{
    let low: i64 = work.y + 2 * edge;
    let high: i64 = work.y + 2 * work.height - 2 * height - 2 * edge;
    confine(y, low, if high < low {
        low
    } else {
        high
    })
}

/// The rectangle of the toolbar.
pub fn toolbar_placement(
    anchor: Option<SelectionRect>,
    cursor: Option<Point>,
    work: CoordinateRect,
    metrics: Metrics,
) -> (placed: CoordinateRect)
    requires
        anchor is Some ==> anchor->0.in_range(),
        cursor is Some ==> cursor->0.in_range(),
        work.in_range(),
        metrics.in_range(),
    ensures
        (placed.x as int, placed.y as int) == spec_toolbar_place(anchor, cursor, work, metrics),
        placed.width == metrics.toolbar_width,
        placed.height == metrics.toolbar_height,
{
    let fallback = match cursor {
        Some(point) => point,
        None => Point { x: work.x + work.width, y: work.y + work.height },
    };
    let center: i64 = match anchor {
        Some(rect) => rect.center_x(),
        None => fallback.x,
    };
    let top: i64 = match anchor {
        Some(rect) => rect.top,
        None => fallback.y,
    };
    let bottom: i64 = match anchor {
        Some(rect) => rect.bottom(),
        None => fallback.y,
    };
    let width: i64 = metrics.toolbar_width;
    let height: i64 = metrics.toolbar_height;
    let x: i64 = center_x_in(center, width, &work, metrics.edge_gap);
    let above: i64 = top - 2 * height - 2 * metrics.anchor_gap;
    let y: i64 = if above >= work.y + 2 * metrics.edge_gap {
        above
    } else {
        confine_y_in(bottom + 2 * metrics.anchor_gap, height, &work, metrics.edge_gap)
    };
    CoordinateRect { x, y, width, height }
}

/// The width and the height of the card: its own, or what the work area has
/// between the gaps at its edges.
pub open spec fn spec_card_size(work: CoordinateRect, metrics: Metrics) -> (int, int) {
    (
        spec_min(
            metrics.card_width as int,
            spec_max(work.width - metrics.edge_gap * 2, 0),
        ),
        spec_min(
            metrics.card_height as int,
            spec_max(work.height - metrics.edge_gap * 2, 0),
        ),
    )
}

/// The place of the card: centred on the window that it grows from, with the
/// upper edge of that window, as far as the work area lets it.
pub open spec fn spec_card_place(
    window: CoordinateRect,
    work: CoordinateRect,
    metrics: Metrics,
) -> (int, int) {
    let (width, height) = spec_card_size(work, metrics);
    (
        centered_x(
            window.x + half_span(window.width as int),
            width,
            work,
            metrics.edge_gap as int,
        ),
        confined_y(window.y as int, height, work, metrics.edge_gap as int),
    )
}

/// The rectangle of the card that the window grows to.
pub fn card_placement(window: CoordinateRect, work: CoordinateRect, metrics: Metrics) -> (placed:
    CoordinateRect)
    requires
        is_position(window.x),
        is_length(window.width),
        work.in_range(),
        metrics.in_range(),
    ensures
        (placed.width as int, placed.height as int) == spec_card_size(work, metrics),
        (placed.x as int, placed.y as int) == spec_card_place(window, work, metrics),
{
    let room_x: i64 = work.width - metrics.edge_gap * 2;
    let room_y: i64 = work.height - metrics.edge_gap * 2;
    let max_width: i64 = if room_x < 0 {
        0
    } else {
        room_x
    };
    let max_height: i64 = if room_y < 0 {
        0
    } else {
        room_y
    };
    let width: i64 = if max_width < metrics.card_width {
        max_width
    } else {
        metrics.card_width
    };
    let height: i64 = if max_height < metrics.card_height {
        max_height
    } else {
        metrics.card_height
    };
    let center: i64 = window.x + window.width;
    let x: i64 = center_x_in(center, width, &work, metrics.edge_gap);
    let y: i64 = confine_y_in(window.y, height, &work, metrics.edge_gap);
    CoordinateRect { x, y, width, height }
}

/// A number of units in whole pixels of so many units: the nearest one, and of two
/// equally near ones the one farther from zero.
pub open spec fn nearest_pixel(v: int, pixel: int) -> int {
    if v >= 0 {
        (v + pixel / 2) / pixel
    } else {
        -((-v + pixel / 2) / pixel)
    }
}

/// A position in whole pixels, as far as an `i32` can hold it.
pub fn physical_position(v: i64) -> (r: i32)
    requires
        -0x4000_0000_0000_0000 <= v <= 0x4000_0000_0000_0000,
    ensures
        r == confined(
            nearest_pixel(v as int, POSITION_PIXEL as int),
            i32::MIN as int,
            i32::MAX as int,
        ),
{
    let nearest: i64 = if v >= 0 {
        (v + 65536) / 131072
    } else {
        -((-v + 65536) / 131072)
    };
    if nearest < -2147483648 {
        -2147483648
    } else if nearest > 2147483647 {
        2147483647
    } else {
        nearest as i32
    }
}

/// A length in whole pixels, as far as a `u32` can hold it.
pub fn physical_size(v: i64) -> (r: u32)
    requires
        -0x4000_0000_0000_0000 <= v <= 0x4000_0000_0000_0000,
    ensures
        r == confined(nearest_pixel(v as int, PIXEL as int), 0, u32::MAX as int),
{
    let nearest: i64 = if v >= 0 {
        (v + 32768) / 65536
    } else {
        -((-v + 32768) / 65536)
    };
    if nearest < 0 {
        0
    } else if nearest > 4294967295 {
        4294967295
    } else {
        nearest as u32
    }
}

/// A rectangle around a selection, from the four numbers that stand for it.
pub open spec fn rectangle_at(values: Seq<Option<i64>>, group: int) -> Option<SelectionRect> {
    let at = group * 4;
    match (values[at], values[at + 1], values[at + 2], values[at + 3]) {
        (Some(left), Some(top), Some(width), Some(height)) => if width > 0 && height > 0 {
            Some(SelectionRect { left, top, width, height })
        } else {
            None
        },
        _ => None,
    }
}

/// The rectangles that the first `groups` groups of four numbers stand for.
pub open spec fn rectangles(values: Seq<Option<i64>>, groups: int) -> Seq<SelectionRect>
    decreases groups,
{
    if groups <= 0 {
        seq![]
    } else {
        let before = rectangles(values, groups - 1);
        match rectangle_at(values, groups - 1) {
            Some(rect) => before.push(rect),
            None => before,
        }
    }
}

/// The rectangles around a selection, from a list of numbers in groups of four:
/// left and top as positions, width and height as lengths. A number that is not finite
/// is `None`. A group
/// with such a number or without an area is left out, and so is what is left over
/// after the last full group.
pub fn selection_rectangles(values: &[Option<i64>]) -> (rects: Vec<SelectionRect>)
    ensures
        rects@ == rectangles(values@, values@.len() as int / 4),
{
    let mut rects: Vec<SelectionRect> = Vec::new();
    let total: usize = values.len();
    let groups: usize = total / 4;
    let mut group: usize = 0;
    while group < groups
        invariant
            total == values@.len(),
            groups == total / 4,
            group <= groups,
            rects@ == rectangles(values@, group as int),
        decreases groups - group,
    {
        let at: usize = group * 4;
        match (values[at], values[at + 1], values[at + 2], values[at + 3]) {
            (Some(left), Some(top), Some(width), Some(height)) => {
                if width > 0 && height > 0 {
                    rects.push(SelectionRect { left, top, width, height });
                }
            },
            _ => {},
        }
        group += 1;
    }
    rects
}

/// How many numbers a list with the given bounds holds, if it is a list and not
/// empty.
pub fn safe_array_len(dimensions: u32, lower: i32, upper: i32) -> (len: Option<usize>)
    requires
        dimensions == 1 && lower <= upper ==> upper - lower + 1 <= i32::MAX,
    ensures
        len == if dimensions == 1 && lower <= upper {
            Some((upper - lower + 1) as usize)
        } else {
            None::<usize>
        },
{
    if dimensions != 1 {
        return None;
    }
    if upper < lower {
        return None;
    }
    Some((upper - lower + 1) as usize)
}

/// Where the work area is wide enough for the toolbar and the gaps at its edges,
/// the toolbar keeps these gaps to its left and right.
pub proof fn toolbar_stays_in_work_area(
    anchor: Option<SelectionRect>,
    cursor: Option<Point>,
    work: CoordinateRect,
    metrics: Metrics,
    placed: CoordinateRect,
)
    requires
        (placed.x as int, placed.y as int) == spec_toolbar_place(anchor, cursor, work, metrics),
        placed.width == metrics.toolbar_width,
        placed.height == metrics.toolbar_height,
        work.width >= metrics.toolbar_width + 2 * metrics.edge_gap,
        work.height >= metrics.toolbar_height + 2 * metrics.edge_gap,
    ensures
        placed.within_x(work, metrics.edge_gap as int),
        placed.y >= work.y + span(metrics.edge_gap as int),
        toolbar_anchor_lines(anchor, cursor, work).1 - span(metrics.anchor_gap as int) <= work.y
            + span(work.height as int) - span(metrics.edge_gap as int) ==> placed.within_y(work, metrics.edge_gap as int),
{
}

/// The toolbar ends above the selection with the gap between them; where there is
/// no room for that, it begins at or above the place that leaves the gap below the
/// selection, and exactly there where that lies in the work area.
pub proof fn toolbar_leaves_selection_free(
    anchor: SelectionRect,
    cursor: Option<Point>,
    work: CoordinateRect,
    metrics: Metrics,
    placed: CoordinateRect,
)
    requires
        (placed.x as int, placed.y as int) == spec_toolbar_place(
            Some(anchor),
            cursor,
            work,
            metrics,
        ),
        placed.width == metrics.toolbar_width,
        placed.height == metrics.toolbar_height,
    ensures
        ({
            let above = anchor.top - span(metrics.toolbar_height as int) - span(
                metrics.anchor_gap as int,
            );
            let below = anchor.spec_bottom() + span(metrics.anchor_gap as int);
            let low = work.y + span(metrics.edge_gap as int);
            let high = work.y + span(work.height as int) - span(metrics.toolbar_height as int)
                - span(metrics.edge_gap as int);
            &&& above >= low ==> placed.y + span(placed.height as int) + span(
                metrics.anchor_gap as int,
            ) == anchor.top
            &&& above < low && low <= below <= high ==> placed.y == below
        }),
{
}

/// Where the work area is at least as large as the gaps at its edges, the card
/// keeps these gaps on all sides.
pub proof fn card_stays_in_work_area(
    window: CoordinateRect,
    work: CoordinateRect,
    metrics: Metrics,
    placed: CoordinateRect,
)
    requires
        (placed.width as int, placed.height as int) == spec_card_size(work, metrics),
        (placed.x as int, placed.y as int) == spec_card_place(window, work, metrics),
        work.width >= 2 * metrics.edge_gap,
        work.height >= 2 * metrics.edge_gap,
    ensures
        placed.within_x(work, metrics.edge_gap as int),
        placed.within_y(work, metrics.edge_gap as int),
{
}

/// A position or a length of whole pixels is kept, and every other is moved by at most
/// half a pixel.
pub proof fn pixels_are_nearest(v: int, pixels: int)
    ensures
        nearest_pixel(pixels * POSITION_PIXEL, POSITION_PIXEL as int) == pixels,
        -POSITION_PIXEL <= 2 * (nearest_pixel(v, POSITION_PIXEL as int) * POSITION_PIXEL - v)
            <= POSITION_PIXEL,
        nearest_pixel(pixels * PIXEL, PIXEL as int) == pixels,
        -PIXEL <= 2 * (nearest_pixel(v, PIXEL as int) * PIXEL - v) <= PIXEL,
{
}

/// The horizontal centre of a selection is as far from its left edge as from its right
/// edge.
pub proof fn center_is_in_the_middle(rect: SelectionRect)
    ensures
        rect.spec_center_x() - rect.left == rect.left + span(rect.width as int)
            - rect.spec_center_x(),
{
}

/// Every rectangle that is read off a list of numbers has an area.
pub proof fn rectangles_have_area(values: Seq<Option<i64>>, groups: int)
    ensures
        forall|i: int|
            0 <= i < rectangles(values, groups).len() ==> (#[trigger] rectangles(
                values,
                groups,
            )[i]).width > 0 && rectangles(values, groups)[i].height > 0,
        rectangles(values, groups).len() <= spec_max(groups, 0),
    decreases groups,
{
    if groups > 0 {
        rectangles_have_area(values, groups - 1);
    }
}

/// A number that is confined to a range is itself where it lies in the range, and else the
/// end of the range that it is beyond; where there is no number in the range, it is the
/// lower end.
pub proof fn confined_numbers_lie_between(v: int, low: int, high: int)
    ensures
        low <= v <= high ==> confined(v, low, high) == v,
        v < low ==> confined(v, low, high) == low,
        v > high && high >= low ==> confined(v, low, high) == high,
        high < low ==> confined(v, low, high) == low,
{
}

/// Half a length twice is the length.
pub proof fn spans_are_halved(length: int)
    ensures
        half_span(length) + half_span(length) == span(length),
        span(length) == 2 * length,
{
}

/// The middle of a selection is as far from its left edge as from its right edge, and its
/// lower edge lies its height below its upper edge.
pub proof fn selections_have_their_edges(rect: SelectionRect)
    ensures
        2 * (rect.spec_center_x() - rect.left) == 2 * rect.width,
        rect.spec_bottom() - rect.top == 2 * rect.height,
{
}

/// Across the work area the toolbar is centred on the selection as far as the gaps at the
/// edges let it: exactly where it fits, at the edge that it would cross where it does not,
/// and at the left edge where the work area is too narrow.
pub proof fn toolbar_is_centred(
    anchor: SelectionRect,
    cursor: Option<Point>,
    work: CoordinateRect,
    metrics: Metrics,
)
    ensures
        ({
            let x = spec_toolbar_place(Some(anchor), cursor, work, metrics).0;
            let wanted = anchor.left + anchor.width - metrics.toolbar_width;
            let low = work.x + 2 * metrics.edge_gap;
            let high = work.x + 2 * work.width - 2 * metrics.toolbar_width - 2 * metrics.edge_gap;
            &&& low <= wanted <= high ==> x == wanted
            &&& wanted < low ==> x == low
            &&& wanted > high && high >= low ==> x == high
            &&& high < low ==> x == low
        }),
{
}

/// Down the work area the toolbar stands above the selection where it keeps the gap at the
/// upper edge there, whatever is below; else below the selection as far as the gaps at the
/// edges let it.
pub proof fn toolbar_is_above_or_below(
    anchor: SelectionRect,
    cursor: Option<Point>,
    work: CoordinateRect,
    metrics: Metrics,
)
    ensures
        ({
            let y = spec_toolbar_place(Some(anchor), cursor, work, metrics).1;
            let above = anchor.top - 2 * metrics.toolbar_height - 2 * metrics.anchor_gap;
            let below = anchor.top + 2 * anchor.height + 2 * metrics.anchor_gap;
            let low = work.y + 2 * metrics.edge_gap;
            let high = work.y + 2 * work.height - 2 * metrics.toolbar_height - 2
                * metrics.edge_gap;
            &&& above >= low ==> y == above
            &&& above < low && low <= below <= high ==> y == below
            &&& above < low && below < low ==> y == low
            &&& above < low && below > high && high >= low ==> y == high
            &&& above < low && high < low ==> y == low
        }),
{
}

/// The cursor only matters without a selection: then the toolbar stands where it would for
/// an empty selection at the cursor. Without a cursor it stands where it would for an empty
/// selection in the middle of the work area.
pub proof fn toolbar_falls_back(
    anchor: SelectionRect,
    cursor: Point,
    other: Option<Point>,
    work: CoordinateRect,
    metrics: Metrics,
    middle: Point,
)
    requires
        middle.x == work.x + work.width,
        middle.y == work.y + work.height,
    ensures
        spec_toolbar_place(Some(anchor), other, work, metrics) == spec_toolbar_place(
            Some(anchor),
            None,
            work,
            metrics,
        ),
        spec_toolbar_place(None, Some(cursor), work, metrics) == spec_toolbar_place(
            Some(SelectionRect { left: cursor.x, top: cursor.y, width: 0, height: 0 }),
            None,
            work,
            metrics,
        ),
        spec_toolbar_place(None, None, work, metrics) == spec_toolbar_place(
            None,
            Some(middle),
            work,
            metrics,
        ),
{
}

/// The display is looked up at the middle of the upper edge of the selection, without a
/// selection at the cursor, and without either nowhere.
pub proof fn display_is_looked_up_there(
    anchor: SelectionRect,
    cursor: Point,
    other: Option<Point>,
)
    ensures
        spec_probe(Some(anchor), other) == Some((anchor.left + anchor.width, anchor.top as int)),
        spec_probe(None, Some(cursor)) == Some((cursor.x as int, cursor.y as int)),
        spec_probe(None, None) is None,
{
}

/// The card has its own size where the work area has room for it between the gaps at its
/// edges, and else the size of that room, which is nothing where the gaps meet.
pub proof fn card_takes_its_size_or_the_room(work: CoordinateRect, metrics: Metrics)
    requires
        metrics.card_width >= 0,
        metrics.card_height >= 0,
    ensures
        ({
            let (width, height) = spec_card_size(work, metrics);
            let room_x = work.width - 2 * metrics.edge_gap;
            let room_y = work.height - 2 * metrics.edge_gap;
            &&& metrics.card_width <= room_x ==> width == metrics.card_width
            &&& 0 <= room_x < metrics.card_width ==> width == room_x
            &&& room_x < 0 ==> width == 0
            &&& metrics.card_height <= room_y ==> height == metrics.card_height
            &&& 0 <= room_y < metrics.card_height ==> height == room_y
            &&& room_y < 0 ==> height == 0
        }),
{
}

/// The card stands where the window was, with the same middle and the same upper edge, as
/// far as the gaps at the edges let it.
pub proof fn card_stands_where_the_window_was(
    window: CoordinateRect,
    work: CoordinateRect,
    metrics: Metrics,
)
    ensures
        ({
            let (width, height) = spec_card_size(work, metrics);
            let (x, y) = spec_card_place(window, work, metrics);
            let wanted = window.x + window.width - width;
            let left = work.x + 2 * metrics.edge_gap;
            let right = work.x + 2 * work.width - 2 * width - 2 * metrics.edge_gap;
            let top = work.y + 2 * metrics.edge_gap;
            let bottom = work.y + 2 * work.height - 2 * height - 2 * metrics.edge_gap;
            &&& left <= wanted <= right ==> x == wanted
            &&& wanted < left ==> x == left
            &&& wanted > right && right >= left ==> x == right
            &&& right < left ==> x == left
            &&& top <= window.y <= bottom ==> y == window.y
            &&& window.y < top ==> y == top
            &&& window.y > bottom && bottom >= top ==> y == bottom
            &&& bottom < top ==> y == top
        }),
{
}

/// Positions and lengths on either side of zero are rounded alike, and half a pixel is
/// rounded away from zero.
pub proof fn pixels_are_rounded_alike(v: int, pixels: int)
    requires
        pixels >= 0,
    ensures
        nearest_pixel(-v, POSITION_PIXEL as int) == -nearest_pixel(v, POSITION_PIXEL as int),
        nearest_pixel(-v, PIXEL as int) == -nearest_pixel(v, PIXEL as int),
        nearest_pixel(pixels * 131072 + 65536, POSITION_PIXEL as int) == pixels + 1,
        nearest_pixel(pixels * 65536 + 32768, PIXEL as int) == pixels + 1,
{
}

/// Each full group of four numbers stands for one rectangle, where all four are finite and
/// the width and the height are positive; the rectangles come in the order of the groups.
pub proof fn groups_stand_for_rectangles(values: Seq<Option<i64>>, group: int)
    requires
        0 <= group,
        group * 4 + 4 <= values.len(),
    ensures
        ({
            let left = values[4 * group];
            let top = values[4 * group + 1];
            let width = values[4 * group + 2];
            let height = values[4 * group + 3];
            let is_rect = left is Some && top is Some && width is Some && height is Some
                && width->0 > 0 && height->0 > 0;
            &&& rectangles(values, 0).len() == 0
            &&& is_rect ==> rectangles(values, group + 1) == rectangles(values, group).push(
                SelectionRect {
                    left: left->0,
                    top: top->0,
                    width: width->0,
                    height: height->0,
                },
            )
            &&& !is_rect ==> rectangles(values, group + 1) == rectangles(values, group)
        }),
{
}

}
