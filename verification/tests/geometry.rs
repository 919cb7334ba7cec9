use gloss::geometry::{
    card_placement, physical_position, physical_size, safe_array_len, selection_rectangles,
    toolbar_placement, toolbar_probe, CoordinateRect, Metrics, Point, SelectionRect,
    ACTION_MENU_HEIGHT, ANCHOR_GAP, CARD_HEIGHT, CARD_WIDTH, EDGE_GAP, PIXEL, POSITION_PIXEL, TOOLBAR_HEIGHT,
    TOOLBAR_WIDTH,
};
use gloss::menu::{
    action_menu_placement, collapsed, expand_to_card, MenuSide, MenuState, MenuStep,
    STABILIZE_DELAYS,
};

fn at(pixels: f64) -> i64 {
    (pixels * POSITION_PIXEL as f64) as i64
}

fn px(pixels: f64) -> i64 {
    (pixels * PIXEL as f64) as i64
}

fn pixels(position: i64) -> f64 {
    position as f64 / POSITION_PIXEL as f64
}

fn metrics(scale: f64) -> Metrics {
    let units = |logical: u16| px((f64::from(logical) * scale).round());
    Metrics {
        toolbar_width: units(TOOLBAR_WIDTH),
        toolbar_height: units(TOOLBAR_HEIGHT),
        menu_height: units(ACTION_MENU_HEIGHT),
        card_width: units(CARD_WIDTH),
        card_height: units(CARD_HEIGHT),
        edge_gap: units(EDGE_GAP),
        anchor_gap: units(ANCHOR_GAP),
    }
}

fn area(x: f64, y: f64, width: f64, height: f64) -> CoordinateRect {
    CoordinateRect { x: at(x), y: at(y), width: px(width), height: px(height) }
}

fn selected(left: f64, top: f64, width: f64, height: f64) -> SelectionRect {
    SelectionRect { left: at(left), top: at(top), width: px(width), height: px(height) }
}

#[test]
fn rect_helpers_use_physical_coordinates() {
    let rect = selected(10.0, 20.0, 40.0, 12.0);
    assert_eq!(pixels(rect.center_x()), 30.0);
    assert_eq!(pixels(rect.bottom()), 32.0);
}

#[test]
fn half_pixels_are_kept() {
    assert_eq!(pixels(selected(10.0, 20.0, 41.0, 12.0).center_x()), 30.5);
    assert_eq!(pixels(selected(-10.5, 20.0, 3.0, 12.0).center_x()), -9.0);
}

#[test]
fn toolbar_stands_above_the_selection() {
    let work = area(0.0, 0.0, 1920.0, 1040.0);
    let anchor = selected(700.0, 200.0, 40.0, 12.0);
    let placed = toolbar_placement(Some(anchor), None, work, metrics(1.0));
    assert_eq!(placed, area(500.0, 132.0, 440.0, 60.0));
}

#[test]
fn toolbar_keeps_the_gap_to_the_edges() {
    let work = area(0.0, 0.0, 1920.0, 1040.0);
    let left = toolbar_placement(Some(selected(10.0, 200.0, 40.0, 12.0)), None, work, metrics(1.0));
    assert_eq!(left, area(12.0, 132.0, 440.0, 60.0));
    let right =
        toolbar_placement(Some(selected(1900.0, 200.0, 40.0, 12.0)), None, work, metrics(1.0));
    assert_eq!(right, area(1468.0, 132.0, 440.0, 60.0));
}

#[test]
fn toolbar_goes_below_where_there_is_no_room_above() {
    let work = area(0.0, 0.0, 1920.0, 1040.0);
    let placed =
        toolbar_placement(Some(selected(700.0, 79.0, 40.0, 12.0)), None, work, metrics(1.0));
    assert_eq!(placed, area(500.0, 99.0, 440.0, 60.0));
    let just =
        toolbar_placement(Some(selected(700.0, 80.0, 40.0, 12.0)), None, work, metrics(1.0));
    assert_eq!(just, area(500.0, 12.0, 440.0, 60.0));
    let tall =
        toolbar_placement(Some(selected(700.0, 0.0, 40.0, 1040.0)), None, work, metrics(1.0));
    assert_eq!(tall, area(500.0, 968.0, 440.0, 60.0));
}

#[test]
fn toolbar_falls_back_to_the_cursor_and_the_display() {
    let work = area(-1280.0, 0.0, 1280.0, 1000.0);
    let cursor = Point { x: at(-640.0), y: at(300.0) };
    let at_cursor = toolbar_placement(None, Some(cursor), work, metrics(1.0));
    assert_eq!(at_cursor, area(-860.0, 232.0, 440.0, 60.0));
    let centred = toolbar_placement(None, None, work, metrics(1.0));
    assert_eq!(centred, area(-860.0, 432.0, 440.0, 60.0));
}

#[test]
fn toolbar_grows_with_the_display_scale() {
    let work = area(0.0, 0.0, 2880.0, 1560.0);
    let anchor = selected(1000.0, 500.0, 101.0, 20.0);
    let placed = toolbar_placement(Some(anchor), None, work, metrics(1.5));
    assert_eq!(placed, area(720.5, 398.0, 660.0, 90.0));
    assert_eq!(physical_position(placed.x), 721);
}

#[test]
fn display_is_found_by_the_selection_or_the_cursor() {
    let cursor = Point { x: at(1.0), y: at(2.0) };
    assert_eq!(
        toolbar_probe(Some(selected(10.0, 20.0, 40.0, 12.0)), Some(cursor)),
        Some(Point { x: at(30.0), y: at(20.0) })
    );
    assert_eq!(toolbar_probe(None, Some(cursor)), Some(cursor));
    assert_eq!(toolbar_probe(None, None), None);
}

#[test]
fn card_grows_around_the_toolbar() {
    let work = area(0.0, 0.0, 1920.0, 1040.0);
    let placed = card_placement(area(500.0, 132.0, 440.0, 60.0), work, metrics(1.0));
    assert_eq!(placed, area(500.0, 132.0, 440.0, 540.0));
    let low = card_placement(area(500.0, 900.0, 440.0, 60.0), work, metrics(1.0));
    assert_eq!(low, area(500.0, 488.0, 440.0, 540.0));
}

#[test]
fn card_shrinks_to_a_small_work_area() {
    let work = area(0.0, 0.0, 400.0, 300.0);
    let placed = card_placement(area(0.0, 0.0, 440.0, 60.0), work, metrics(1.0));
    assert_eq!(placed, area(12.0, 12.0, 376.0, 276.0));
    let tiny = card_placement(
        area(0.0, 0.0, 440.0, 60.0),
        area(0.0, 0.0, 10.0, 10.0),
        metrics(1.0),
    );
    assert_eq!(tiny, area(12.0, 12.0, 0.0, 0.0));
}

#[test]
fn pixels_are_rounded_away_from_zero() {
    assert_eq!(physical_position(at(2.5)), 3);
    assert_eq!(physical_position(at(-2.5)), -3);
    assert_eq!(physical_position(at(2.25)), 2);
    assert_eq!(physical_position(at(-2.25)), -2);
    assert_eq!(physical_position(at(3.0e9)), i32::MAX);
    assert_eq!(physical_position(at(-3.0e9)), i32::MIN);
    assert_eq!(physical_size(px(-2.0)), 0);
    assert_eq!(physical_size(px(59.5)), 60);
    assert_eq!(physical_size(px(5.0e9)), u32::MAX);
}

#[test]
fn rectangles_without_area_are_left_out() {
    let rect = |left: f64, top: f64, width: f64, height: f64| {
        vec![Some(at(left)), Some(at(top)), Some(px(width)), Some(px(height))]
    };
    let mut unknown_top = rect(1.0, 2.0, 3.0, 4.0);
    unknown_top[1] = None;
    let mut values = rect(1.0, 2.0, 3.0, 4.0);
    values.extend(unknown_top);
    values.extend(rect(1.0, 2.0, 0.0, 4.0));
    values.extend(rect(1.0, 2.0, 3.0, -4.0));
    values.extend(rect(5.0, 6.0, 7.0, 8.0));
    values.extend(&rect(9.0, 9.0, 9.0, 9.0)[..3]);
    assert_eq!(
        selection_rectangles(&values),
        vec![selected(1.0, 2.0, 3.0, 4.0), selected(5.0, 6.0, 7.0, 8.0)]
    );
    assert!(selection_rectangles(&[]).is_empty());
}

#[test]
fn arrays_are_counted_by_their_bounds() {
    assert_eq!(safe_array_len(1, 0, 7), Some(8));
    assert_eq!(safe_array_len(1, 3, 2), None);
    assert_eq!(safe_array_len(2, 0, 7), None);
}

#[test]
fn menu_opens_below_and_closes_again() {
    let work = area(0.0, 0.0, 1920.0, 1040.0);
    let window = area(500.0, 132.0, 440.0, 60.0);
    let mut menu = MenuState::closed();
    let step = menu.set_action_menu_open(true, window.height, metrics(1.0));
    assert!(matches!(step, MenuStep::Expand));
    let grown = menu.expand(window, work, metrics(1.0));
    assert_eq!(grown.rect, area(500.0, 132.0, 440.0, 208.0));
    assert!(!grown.moves);
    assert_eq!(menu.opened(grown.side, Ok(())).unwrap().name(), "below");
    assert!(!menu.keeps_toolbar_place(Some(true)));

    let step = menu.set_action_menu_open(false, grown.rect.height, metrics(1.0));
    assert!(matches!(step, MenuStep::Collapse(MenuSide::Below)));
    assert_eq!(menu, MenuState::closed());
    let shrunk = collapsed(grown.rect, MenuSide::Below, metrics(1.0));
    assert_eq!(shrunk.rect, window);
    assert!(!shrunk.moves);
}

#[test]
fn menu_opens_above_at_the_bottom_and_closes_again() {
    let work = area(0.0, 0.0, 1920.0, 1040.0);
    let window = area(500.0, 821.0, 440.0, 60.0);
    let mut menu = MenuState::closed();
    let grown = menu.expand(window, work, metrics(1.0));
    assert_eq!(grown.rect, area(500.0, 673.0, 440.0, 208.0));
    assert!(grown.moves);
    assert_eq!(menu, MenuState { open: true, above: true });
    assert_eq!(menu.opened(grown.side, Ok(())).unwrap().name(), "above");
    let step = menu.set_action_menu_open(true, grown.rect.height, metrics(1.0));
    assert!(matches!(step, MenuStep::Settled(MenuSide::Above)));
    let step = menu.set_action_menu_open(false, grown.rect.height, metrics(1.0));
    assert!(matches!(step, MenuStep::Collapse(MenuSide::Above)));
    assert_eq!(collapsed(grown.rect, MenuSide::Above, metrics(1.0)).rect, window);
    assert_eq!(action_menu_placement(at(820.0), work, metrics(1.0)), "below");
    assert_eq!(action_menu_placement(at(821.0), work, metrics(1.0)), "above");
}

#[test]
fn menu_stays_closed_where_it_cannot_open() {
    let mut menu = MenuState::closed();
    match menu.set_action_menu_open(true, px(540.0), metrics(1.0)) {
        MenuStep::Refused(reason) => {
            assert_eq!(reason, "Gloss cannot open the action menu in the current view.")
        }
        other => panic!("{:?}", other),
    }
    let step = menu.set_action_menu_open(true, px(62.0), metrics(1.0));
    assert!(matches!(step, MenuStep::Expand));
    let step = menu.set_action_menu_open(true, px(62.5), metrics(1.0));
    assert!(matches!(step, MenuStep::Refused(_)));

    let work = area(0.0, 0.0, 1920.0, 1040.0);
    menu.expand(area(500.0, 900.0, 440.0, 60.0), work, metrics(1.0));
    assert_eq!(
        menu.opened(MenuSide::Above, Err("no window".to_owned())).unwrap_err(),
        "Could not open the action menu: no window"
    );
    assert_eq!(menu, MenuState::closed());
}

#[test]
fn menu_that_is_collapsed_already_is_settled() {
    let mut menu = MenuState { open: true, above: true };
    let step = menu.set_action_menu_open(false, px(60.0), metrics(1.0));
    assert!(matches!(step, MenuStep::Settled(MenuSide::Above)));
    assert_eq!(menu, MenuState::closed());
}

#[test]
fn card_grows_from_the_toolbar_below_an_open_menu() {
    let work = area(0.0, 0.0, 1920.0, 1040.0);
    let window = area(500.0, 821.0, 440.0, 60.0);
    let mut menu = MenuState::closed();
    let grown = menu.expand(window, work, metrics(1.0));
    let was = menu.take();
    assert_eq!(menu, MenuState::closed());
    let from_menu = expand_to_card(was, grown.rect, work, metrics(1.0));
    let from_toolbar = expand_to_card(MenuState::closed(), window, work, metrics(1.0));
    assert_eq!(from_menu, from_toolbar);
    assert_eq!(from_menu, area(500.0, 488.0, 440.0, 540.0));
}

#[test]
fn toolbar_is_put_in_place_while_it_is_seen() {
    let menu = MenuState::closed();
    assert!(menu.keeps_toolbar_place(Some(true)));
    assert!(!menu.keeps_toolbar_place(Some(false)));
    assert!(!menu.keeps_toolbar_place(None));
    assert_eq!(STABILIZE_DELAYS, [150, 200, 350]);
}

#[test]
fn opened_menu_is_named_by_its_own_resize() {
    let work = area(0.0, 0.0, 1920.0, 1040.0);
    let mut menu = MenuState::closed();
    let grown = menu.expand(area(500.0, 900.0, 440.0, 60.0), work, metrics(1.0));
    menu.take();
    assert_eq!(menu.opened(grown.side, Ok(())).unwrap().name(), "above");
    assert_eq!(menu, MenuState::closed());
}

#[test]
fn every_length_has_a_middle() {
    let rect = SelectionRect { left: 0, top: 0, width: 1, height: 1 };
    assert_eq!(rect.center_x(), 1);
    assert_eq!(rect.bottom(), 2);
    assert_eq!(pixels(rect.center_x()), 1.0 / 131072.0);
    let negative = SelectionRect { left: 0, top: 0, width: -3, height: 1 };
    assert_eq!(pixels(negative.center_x()), -3.0 / 131072.0);
}
