use fs_agent::editor::Placed;
use fs_agent::layout::{
    below_minimum, content_width, inner, input_text_width, plan, Rect, SidebarKind,
};

fn r(x: u16, y: u16, width: u16, height: u16) -> Rect {
    Rect::new(x, y, width, height)
}

#[test]
fn a_wide_terminal_draws_the_mark_and_every_field() {
    let regions = plan(r(0, 0, 120, 40), 1);
    assert_eq!(regions.sidebar_kind, SidebarKind::Mark);
    assert_eq!(regions.sidebar, Some(r(1, 1, 40, 38)));
    assert_eq!(regions.divide, Some(41));
    assert_eq!(regions.main, r(42, 1, 77, 38));
    assert_eq!(regions.transcript, r(42, 1, 77, 32));
    assert_eq!(regions.status, r(42, 34, 77, 1));
    assert_eq!(regions.input, r(42, 36, 77, 1));
    assert_eq!(regions.hints, r(42, 38, 77, 1));
    assert_eq!(regions.rail, r(118, 1, 1, 32));
    assert_eq!(regions.tabs, Some(r(1, 7, 40, 1)));
    assert_eq!(regions.sidebar_page, Some(r(1, 9, 40, 6)));
}

#[test]
fn a_narrow_rung_has_a_text_identity_and_the_input_grows() {
    let regions = plan(r(0, 0, 80, 24), 3);
    assert_eq!(regions.sidebar_kind, SidebarKind::Text);
    assert_eq!(regions.sidebar, Some(r(1, 1, 28, 22)));
    assert_eq!(regions.main, r(30, 1, 49, 22));
    assert_eq!(regions.transcript, r(30, 1, 49, 14));
    assert_eq!(regions.status, r(30, 16, 49, 1));
    assert_eq!(regions.input, r(30, 18, 49, 3));
    assert_eq!(regions.hints, r(30, 22, 49, 1));
    assert_eq!(regions.tabs, Some(r(1, 3, 28, 1)));
    assert_eq!(regions.sidebar_page, Some(r(1, 5, 28, 6)));
    assert_eq!(plan(r(0, 0, 80, 24), 50).input.height, 10);
}

#[test]
fn below_eighty_columns_the_sidebar_is_hidden_whole() {
    let regions = plan(r(0, 0, 79, 10), 1);
    assert_eq!(regions.sidebar_kind, SidebarKind::Hidden);
    assert_eq!(regions.sidebar, None);
    assert_eq!(regions.tabs, None);
    assert_eq!(regions.sidebar_page, None);
    assert_eq!(regions.divide, None);
    assert_eq!(regions.main, r(1, 1, 77, 8));
    assert_eq!(regions.transcript, r(1, 1, 77, 2));
    assert_eq!(regions.status, r(1, 4, 77, 1));
    assert_eq!(regions.input, r(1, 6, 77, 1));
    assert_eq!(regions.hints, r(1, 8, 77, 1));
    assert_eq!(regions.rail, r(77, 1, 1, 2));
}

#[test]
fn a_short_sidebar_gives_up_the_mark_before_the_fields() {
    let regions = plan(r(0, 0, 120, 12), 1);
    assert_eq!(regions.sidebar_kind, SidebarKind::Text);
    assert_eq!(regions.sidebar_page.map(|page| page.height), Some(6));
    let regions = plan(r(0, 0, 120, 10), 1);
    assert_eq!(regions.sidebar_kind, SidebarKind::Hidden);
    assert_eq!(regions.sidebar_page, Some(r(1, 4, 40, 5)));
    assert_eq!(SidebarKind::Mark.rows(), 5);
    assert_eq!(SidebarKind::Text.rows(), 1);
    assert_eq!(SidebarKind::Hidden.rows(), 0);
}

#[test]
fn the_minimum_is_forty_by_ten() {
    assert!(below_minimum(r(0, 0, 39, 10)));
    assert!(below_minimum(r(0, 0, 40, 9)));
    assert!(!below_minimum(r(0, 0, 40, 10)));
    assert_eq!(inner(r(0, 0, 1, 1)), r(1, 1, 0, 0));
    assert_eq!(inner(r(2, 3, 10, 5)), r(3, 4, 8, 3));
    assert_eq!(input_text_width(r(0, 0, 120, 40)), 75);
    assert_eq!(content_width(r(0, 0, 120, 40)), 77);
    assert_eq!(content_width(r(0, 0, 60, 20)), 58);
}

#[test]
fn overlays_are_centred_in_the_main_column() {
    let regions = plan(r(0, 0, 120, 40), 1);
    assert_eq!(regions.transcript_text(), r(42, 1, 75, 32));
    assert_eq!(regions.scrollbar(), r(117, 1, 1, 32));
    assert_eq!(regions.modal_width(), 72);
    assert_eq!(regions.detail_width(), 73);
    assert_eq!(regions.detail(), Some(r(44, 3, 73, 34)));
    assert_eq!(regions.modal(5), Some(r(44, 16, 72, 7)));
    assert_eq!(regions.modal(40), None);
}

#[test]
fn the_menu_opens_upwards_from_the_cursor() {
    let regions = plan(r(0, 0, 120, 40), 1);
    let anchor = Placed { row: 0, column: 2 };
    assert_eq!(regions.menu_room(anchor), 34);
    assert_eq!(regions.menu(anchor, 30, 5), Some(r(44, 29, 30, 7)));
    assert_eq!(regions.menu(anchor, 11, 5), None);
    assert_eq!(regions.menu(anchor, 30, 0), None);
    assert_eq!(regions.menu(anchor, 200, 5), Some(r(42, 29, 77, 7)));
}
