//! The action menu of the toolbar: whether it is open, on which side of the
//! toolbar it opens, and how the window grows and shrinks with it.

use crate::geometry::{
    card_placement, is_position, spec_card_place, spec_card_size, span, CoordinateRect, Metrics,
    PIXEL,
};
use crate::text::joined;
use vstd::prelude::*;

verus! {

/// The delays, in milliseconds, after which the place of the toolbar is set once
/// more while the system still moves it.
pub const STABILIZE_DELAYS: [u64; 3] = [150, 200, 350];

/// The side of the toolbar on which the menu opens.
#[derive(Debug, Clone, Copy, PartialEq, Eq, Structural)]
pub enum MenuSide {
    Above,
    Below,
}

impl MenuSide {
    pub open spec fn spec_name(self) -> Seq<char> {
        match self {
            MenuSide::Above => "above"@,
            MenuSide::Below => "below"@,
        }
    }

    /// The name of the side.
    pub fn name(self) -> (name: String)
        ensures
            name@ == self.spec_name(),
    {
        match self {
            MenuSide::Above => "above".to_owned(),
            MenuSide::Below => "below".to_owned(),
        }
    }
}

pub open spec fn side_of(above: bool) -> MenuSide {
    if above {
        MenuSide::Above
    } else {
        MenuSide::Below
    }
}

fn side(above: bool) -> (r: MenuSide)
    ensures
        r == side_of(above),
{
    if above {
        MenuSide::Above
    } else {
        MenuSide::Below
    }
}

/// Two heights that differ by two pixels at most.
pub open spec fn near(a: int, b: int) -> bool {
    -2 * PIXEL <= a - b <= 2 * PIXEL
}

fn is_near(a: i64, b: i64) -> (r: bool)
    ensures
        r == near(a as int, b as int),
{
    let distance: i128 = a as i128 - b as i128;
    -131072 <= distance && distance <= 131072
}

/// Whether the menu is open, and if so whether it is above the toolbar.
#[derive(Debug, Clone, Copy, PartialEq, Eq, Structural)]
pub struct MenuState {
    pub open: bool,
    pub above: bool,
}

/// What is to be done about the menu.
#[derive(Debug)]
pub enum MenuStep {
    /// Nothing: it is on this side, or was.
    Settled(MenuSide),
    /// It cannot be opened, for this reason.
    Refused(String),
    /// The window is to shrink to the toolbar, away from this side.
    Collapse(MenuSide),
    /// The window is to be measured and to grow.
    Expand,
}

/// What a step is, as far as the reasons for a refusal are concerned in words.
pub enum StepModel {
    Settled(MenuSide),
    Refused(Seq<char>),
    Collapse(MenuSide),
    Expand,
}

impl View for MenuStep {
    type V = StepModel;

    open spec fn view(&self) -> StepModel {
        match self {
            MenuStep::Settled(side) => StepModel::Settled(*side),
            MenuStep::Refused(reason) => StepModel::Refused(reason@),
            MenuStep::Collapse(side) => StepModel::Collapse(*side),
            MenuStep::Expand => StepModel::Expand,
        }
    }
}

/// How the window changes: its new rectangle, and whether it moves and does not
/// only change its size.
#[derive(Debug, Clone, Copy, PartialEq, Eq, Structural)]
pub struct MenuResize {
    pub side: MenuSide,
    pub rect: CoordinateRect,
    pub moves: bool,
}

/// The menu of a window at height `y` does not fit below the toolbar.
pub open spec fn opens_above(y: int, work: CoordinateRect, metrics: Metrics) -> bool {
    y + span(metrics.menu_height as int) > work.y + span(work.height as int) - span(
        metrics.edge_gap as int,
    )
}

/// The window with the menu open.
pub open spec fn spec_expanded(
    window: CoordinateRect,
    work: CoordinateRect,
    metrics: Metrics,
) -> MenuResize {
    let above = opens_above(window.y as int, work, metrics);
    MenuResize {
        side: side_of(above),
        rect: CoordinateRect {
            x: window.x,
            y: if above {
                (window.y - span(metrics.menu_height as int) + span(metrics.toolbar_height as int)) as i64
            } else {
                window.y
            },
            width: window.width,
            height: metrics.menu_height,
        },
        moves: above,
    }
}

/// The window with the menu closed again.
pub open spec fn spec_collapsed(
    window: CoordinateRect,
    side: MenuSide,
    metrics: Metrics,
) -> MenuResize {
    MenuResize {
        side,
        rect: CoordinateRect {
            x: window.x,
            y: if side == MenuSide::Above {
                (window.y + span(metrics.menu_height as int) - span(metrics.toolbar_height as int)) as i64
            } else {
                window.y
            },
            width: window.width,
            height: metrics.toolbar_height,
        },
        moves: side == MenuSide::Above,
    }
}

impl MenuState {
    /// A closed menu is on no side.
    pub open spec fn well_formed(self) -> bool {
        self.above ==> self.open
    }

    /// The state after a request to open or close the menu, before the window is
    /// measured.
    pub open spec fn requested(self, open: bool) -> MenuState {
        if open {
            self
        } else {
            MenuState { open: false, above: false }
        }
    }

    /// What a request to open or close the menu asks for.
    pub open spec fn step(self, open: bool, window_height: int, metrics: Metrics) -> StepModel {
        if !open {
            if near(window_height, metrics.menu_height as int) {
                StepModel::Collapse(side_of(self.above))
            } else {
                StepModel::Settled(side_of(self.above))
            }
        } else if self.open {
            StepModel::Settled(side_of(self.above))
        } else if !near(window_height, metrics.toolbar_height as int) {
            StepModel::Refused("Gloss cannot open the action menu in the current view."@)
        } else {
            StepModel::Expand
        }
    }

    /// A closed menu.
    pub fn closed() -> (menu: MenuState)
        ensures
            menu == (MenuState { open: false, above: false }),
            menu.well_formed(),
    {
        MenuState { open: false, above: false }
    }

    /// Closes the menu and returns what it was.
    pub fn take(&mut self) -> (was: MenuState)
        ensures
            was == *old(self),
            *final(self) == (MenuState { open: false, above: false }),
            final(self).well_formed(),
    {
        let was = *self;
        self.open = false;
        self.above = false;
        was
    }

    /// Decides about a request to open or close the menu of a window that has the
    /// given height.
    pub fn set_action_menu_open(&mut self, open: bool, window_height: i64, metrics: Metrics) -> (step:
        MenuStep)
        ensures
            *final(self) == old(self).requested(open),
            step@ == old(self).step(open, window_height as int, metrics),
            old(self).well_formed() ==> final(self).well_formed(),
    {
        if !open {
            self.open = false;
            let above = self.above;
            self.above = false;
            if !is_near(window_height, metrics.menu_height) {
                return MenuStep::Settled(side(above));
            }
            return MenuStep::Collapse(side(above));
        }
        if self.open {
            return MenuStep::Settled(side(self.above));
        }
        if !is_near(window_height, metrics.toolbar_height) {
            return MenuStep::Refused(
                "Gloss cannot open the action menu in the current view.".to_owned(),
            );
        }
        MenuStep::Expand
    }

    /// Opens the menu of a window on a display and returns how the window grows.
    pub fn expand(&mut self, window: CoordinateRect, work: CoordinateRect, metrics: Metrics) -> (r:
        MenuResize)
        requires
            window.in_range(),
            work.in_range(),
            metrics.in_range(),
        ensures
            r == spec_expanded(window, work, metrics),
            *final(self) == (MenuState {
                open: true,
                above: opens_above(window.y as int, work, metrics),
            }),
            final(self).well_formed(),
    {
        let above = window.y + 2 * metrics.menu_height > work.y + 2 * work.height - 2
            * metrics.edge_gap;
        let y: i64 = if above {
            window.y - 2 * metrics.menu_height + 2 * metrics.toolbar_height
        } else {
            window.y
        };
        self.open = true;
        self.above = above;
        MenuResize {
            side: side(above),
            rect: CoordinateRect { x: window.x, y, width: window.width, height: metrics.menu_height },
            moves: above,
        }
    }

    /// Takes in whether the window could grow with the menu on a side. Where it could
    /// not, the menu is closed again.
    pub fn opened(&mut self, side: MenuSide, resized: Result<(), String>) -> (r: Result<
        MenuSide,
        String,
    >)
        ensures
            match resized {
                Ok(_) => r == Ok::<MenuSide, String>(side) && *final(self) == *old(self),
                Err(reason) => {
                    &&& r is Err
                    &&& r->Err_0@ == "Could not open the action menu: "@ + reason@
                    &&& *final(self) == (MenuState { open: false, above: false })
                },
            },
            old(self).well_formed() ==> final(self).well_formed(),
    {
        match resized {
            Ok(_) => Ok(side),
            Err(reason) => {
                self.open = false;
                self.above = false;
                Err(joined("Could not open the action menu: ", reason.as_str()))
            },
        }
    }

    /// Whether the place of the toolbar is set once more after a delay: only while
    /// the menu is closed and the window is known to be visible.
    pub fn keeps_toolbar_place(&self, visible: Option<bool>) -> (keeps: bool)
        ensures
            keeps == (!self.open && visible == Some(true)),
    {
        match visible {
            Some(visible) => !self.open && visible,
            None => false,
        }
    }
}

/// How a window shrinks from the menu on a side to the toolbar.
pub fn collapsed(window: CoordinateRect, side: MenuSide, metrics: Metrics) -> (r: MenuResize)
    requires
        window.in_range(),
        metrics.in_range(),
    ensures
        r == spec_collapsed(window, side, metrics),
{
    let above = side == MenuSide::Above;
    let y: i64 = if above {
        window.y + 2 * metrics.menu_height - 2 * metrics.toolbar_height
    } else {
        window.y
    };
    MenuResize {
        side,
        rect: CoordinateRect { x: window.x, y, width: window.width, height: metrics.toolbar_height },
        moves: above,
    }
}

/// The side on which the menu of a window at height `y` opens on a display.
pub fn action_menu_placement(y: i64, work: CoordinateRect, metrics: Metrics) -> (name: String)
    requires
        is_position(y),
        work.in_range(),
        metrics.in_range(),
    ensures
        name@ == side_of(opens_above(y as int, work, metrics)).spec_name(),
{
    let above = y + 2 * metrics.menu_height > work.y + 2 * work.height - 2 * metrics.edge_gap;
    side(above).name()
}

/// The window that the card grows from: the toolbar, also where the menu was open
/// above it.
pub open spec fn card_origin(was: MenuState, window: CoordinateRect, metrics: Metrics) -> CoordinateRect {
    if was.open && was.above && near(window.height as int, metrics.menu_height as int) {
        CoordinateRect {
            y: (window.y + span(metrics.menu_height as int) - span(metrics.toolbar_height as int)) as i64,
            ..window
        }
    } else {
        window
    }
}

/// The rectangle of the card that a window grows to, with the menu as it was.
pub fn expand_to_card(
    was: MenuState,
    window: CoordinateRect,
    work: CoordinateRect,
    metrics: Metrics,
) -> (placed: CoordinateRect)
    requires
        window.in_range(),
        work.in_range(),
        metrics.in_range(),
    ensures
        (placed.width as int, placed.height as int) == spec_card_size(work, metrics),
        (placed.x as int, placed.y as int) == spec_card_place(
            card_origin(was, window, metrics),
            work,
            metrics,
        ),
{
    let mut origin = window;
    if was.open && was.above && is_near(window.height, metrics.menu_height) {
        origin.y = window.y + 2 * (metrics.menu_height - metrics.toolbar_height);
    }
    card_placement(origin, work, metrics)
}

/// Closing the menu that was just opened brings the window back to where it was.
pub proof fn closing_undoes_opening(
    menu: MenuState,
    window: CoordinateRect,
    work: CoordinateRect,
    metrics: Metrics,
)
    requires
        window.in_range(),
        work.in_range(),
        metrics.in_range(),
        window.height == metrics.toolbar_height,
        menu == (MenuState { open: true, above: opens_above(window.y as int, work, metrics) }),
    ensures
        ({
            let opened = spec_expanded(window, work, metrics);
            &&& menu.step(false, opened.rect.height as int, metrics) == StepModel::Collapse(opened.side)
            &&& spec_collapsed(opened.rect, opened.side, metrics).rect == window
        }),
{
}

/// A menu above the toolbar leaves the lower edge of the toolbar where it was; a
/// menu below it leaves the upper edge, and ends in the work area.
pub proof fn opening_keeps_an_edge(window: CoordinateRect, work: CoordinateRect, metrics: Metrics)
    requires
        window.in_range(),
        metrics.in_range(),
        window.height == metrics.toolbar_height,
    ensures
        ({
            let opened = spec_expanded(window, work, metrics);
            match opened.side {
                MenuSide::Above => opened.rect.y + span(opened.rect.height as int) == window.y + span(
                    window.height as int,
                ),
                MenuSide::Below => opened.rect.y == window.y && opened.rect.y + span(
                    opened.rect.height as int,
                ) <= work.y + span(work.height as int) - span(metrics.edge_gap as int),
            }
        }),
{
}

/// The card grows from the place of the toolbar, whether or not the menu was open
/// above it.
pub proof fn card_grows_from_toolbar(
    window: CoordinateRect,
    work: CoordinateRect,
    metrics: Metrics,
)
    requires
        window.in_range(),
        work.in_range(),
        metrics.in_range(),
        window.height == metrics.toolbar_height,
    ensures
        ({
            let opened = spec_expanded(window, work, metrics);
            let was = MenuState { open: true, above: opened.side == MenuSide::Above };
            spec_card_place(card_origin(was, opened.rect, metrics), work, metrics)
                == spec_card_place(window, work, metrics)
        }),
{
}

/// The sides are named as they are, and a state with the menu above is one with it above.
pub proof fn sides_are_named(above: bool)
    ensures
        MenuSide::Above.spec_name() == "above"@,
        MenuSide::Below.spec_name() == "below"@,
        side_of(true) == MenuSide::Above,
        side_of(false) == MenuSide::Below,
{
}

/// Steps are seen as they are.
pub proof fn steps_are_seen_whole(side: MenuSide, reason: String)
    ensures
        MenuStep::Settled(side)@ == StepModel::Settled(side),
        MenuStep::Refused(reason)@ == StepModel::Refused(reason@),
        MenuStep::Collapse(side)@ == StepModel::Collapse(side),
        MenuStep::Expand@ == StepModel::Expand,
{
}

/// A closed menu opens exactly in a window that is as high as the toolbar of its display,
/// give or take two pixels; in any other window it is refused, and it stays closed either
/// way until the window has grown.
pub proof fn closed_menu_opens_from_the_toolbar(height: int, metrics: Metrics, above: bool)
    ensures
        ({
            let menu = MenuState { open: false, above };
            let step = menu.step(true, height, metrics);
            &&& step is Expand <==> metrics.toolbar_height - 131072 <= height
                <= metrics.toolbar_height + 131072
            &&& !(step is Expand) ==> step == StepModel::Refused(
                "Gloss cannot open the action menu in the current view."@,
            )
            &&& menu.requested(true) == menu
            &&& menu.step(true, metrics.toolbar_height as int, metrics) is Expand
        }),
{
}

/// A menu that is open stays as it is when it is to be opened, in any window.
pub proof fn open_menu_is_settled(height: int, metrics: Metrics, above: bool)
    ensures
        ({
            let menu = MenuState { open: true, above };
            &&& menu.step(true, height, metrics) == StepModel::Settled(
                if above {
                    MenuSide::Above
                } else {
                    MenuSide::Below
                },
            )
            &&& menu.requested(true) == menu
        }),
{
}

/// Closing the menu leaves it closed, whatever it was, and makes the window shrink
/// exactly where it is as high as the menu of its display, give or take two pixels. The
/// answer names the side that the menu was on.
pub proof fn closing_shrinks_the_menu(menu: MenuState, height: int, metrics: Metrics)
    ensures
        ({
            let side = if menu.above {
                MenuSide::Above
            } else {
                MenuSide::Below
            };
            &&& menu.requested(false) == (MenuState { open: false, above: false })
            &&& menu.step(false, height, metrics) == if metrics.menu_height - 131072 <= height
                <= metrics.menu_height + 131072 {
                StepModel::Collapse(side)
            } else {
                StepModel::Settled(side)
            }
        }),
{
}

/// A menu that was opened and closed again can be opened again, and grows as before.
pub proof fn closed_menu_opens_again(
    menu: MenuState,
    window: CoordinateRect,
    work: CoordinateRect,
    metrics: Metrics,
)
    requires
        window.in_range(),
        metrics.in_range(),
        window.height == metrics.toolbar_height,
    ensures
        ({
            let opened = spec_expanded(window, work, metrics);
            let shrunk = spec_collapsed(opened.rect, opened.side, metrics).rect;
            &&& menu.requested(false).step(true, shrunk.height as int, metrics) is Expand
            &&& shrunk == window
            &&& spec_expanded(shrunk, work, metrics) == opened
        }),
{
}

/// The menu opens below the toolbar exactly where its lower edge then keeps the gap to the
/// lower edge of the work area, and above it elsewhere. The window keeps its left edge and
/// its width and becomes as high as the menu. It moves exactly where the menu is above.
pub proof fn menu_opens_where_it_fits(
    window: CoordinateRect,
    work: CoordinateRect,
    metrics: Metrics,
)
    requires
        window.in_range(),
        metrics.in_range(),
    ensures
        ({
            let opened = spec_expanded(window, work, metrics);
            let fits = window.y + 2 * metrics.menu_height <= work.y + 2 * work.height - 2
                * metrics.edge_gap;
            &&& opens_above(window.y as int, work, metrics) == !fits
            &&& opened.side == (if fits {
                MenuSide::Below
            } else {
                MenuSide::Above
            })
            &&& opened.moves == !fits
            &&& opened.rect.x == window.x
            &&& opened.rect.width == window.width
            &&& opened.rect.height == metrics.menu_height
            &&& fits ==> opened.rect.y == window.y
            &&& !fits ==> opened.rect.y + 2 * metrics.menu_height == window.y + 2
                * metrics.toolbar_height
        }),
{
}

/// A window that shrinks to the toolbar keeps its left edge and its width, becomes as high
/// as the toolbar, and keeps its upper edge where the menu was below and its lower edge
/// where the menu was above.
pub proof fn closed_menu_leaves_the_toolbar(
    window: CoordinateRect,
    side: MenuSide,
    metrics: Metrics,
)
    requires
        window.in_range(),
        metrics.in_range(),
    ensures
        ({
            let shrunk = spec_collapsed(window, side, metrics);
            &&& shrunk.side == side
            &&& shrunk.moves == (side == MenuSide::Above)
            &&& shrunk.rect.x == window.x
            &&& shrunk.rect.width == window.width
            &&& shrunk.rect.height == metrics.toolbar_height
            &&& side == MenuSide::Below ==> shrunk.rect.y == window.y
            &&& side == MenuSide::Above ==> shrunk.rect.y + 2 * metrics.toolbar_height == window.y
                + 2 * metrics.menu_height
        }),
{
}

/// The card grows from the window as it is, but where the menu was open above the toolbar
/// and the window still is as high as the menu, give or take two pixels, from the upper
/// edge of the toolbar.
pub proof fn card_grows_from_the_window(
    was: MenuState,
    window: CoordinateRect,
    metrics: Metrics,
)
    requires
        window.in_range(),
        metrics.in_range(),
    ensures
        ({
            let origin = card_origin(was, window, metrics);
            let moved = was.open && was.above && metrics.menu_height - 131072 <= window.height
                <= metrics.menu_height + 131072;
            &&& origin.x == window.x
            &&& origin.width == window.width
            &&& !moved ==> origin.y == window.y
            &&& moved ==> origin.y + 2 * metrics.toolbar_height == window.y + 2
                * metrics.menu_height
        }),
{
}

}
