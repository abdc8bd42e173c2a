use fltkrs_richdisplay::action::{hint_of, pick_item, Action, ActionItem};
use fltkrs_richdisplay::color::Color;
use fltkrs_richdisplay::data::{DataType, RichData, UserData};
use fltkrs_richdisplay::geometry::{PositionOrder, Rectangle};
use fltkrs_richdisplay::image::{ColorDepth, RgbImageData};
use fltkrs_richdisplay::panel::{calc_default_window_size, PanelState};
use fltkrs_richdisplay::piece::LinePiece;
use fltkrs_richdisplay::text::{chars_of, Font};

#[test]
fn user_data_builders_set_their_fields() {
    let ud = UserData::new_text_with_id(3, "abc".to_string())
        .set_font_and_size(Font { bits: 4 }, 22)
        .set_font_size_index(5)
        .set_fg_color(Color::from_rgb(1, 2, 3))
        .set_fg_color_index(2)
        .set_bg_color(Some(Color::from_rgb(9, 9, 9)))
        .set_bg_color_index(7)
        .set_strong(true)
        .set_underline(true)
        .set_blink(true)
        .set_disabled(true)
        .set_text("xyz".to_string());
    assert_eq!(ud.id, 3);
    assert_eq!(ud.text, "xyz");
    assert_eq!((ud.font, ud.font_size), (Font { bits: 4 }, 22));
    assert!(ud.custom_font_text && ud.custom_font_color);
    assert_eq!(ud.font_size_index, 5);
    assert_eq!(ud.fg_color, Color::from_rgb(1, 2, 3));
    assert_eq!((ud.fg_color_index, ud.bg_color_index), (2, 7));
    assert_eq!(ud.bg_color, Some(Color::from_rgb(9, 9, 9)));
    assert!(ud.strong && ud.underline && ud.blink && ud.disabled);
    let mut ud = ud.set_action(Action { title: "t".to_string(), kind: 1, items: vec![ActionItem::new("d", "c")], active: None, category: None });
    assert!(ud.clickable && ud.underline && !ud.expired);
    ud.set_font_and_size2(Font { bits: 1 }, 9);
    assert_eq!((ud.font.bits, ud.font_size), (1, 9));
    let ud = ud.set_image_file_path(None);
    assert!(ud.image_file_path.is_none());
}

#[test]
fn image_data_is_an_image_segment() {
    let img = RgbImageData { data: vec![0; 12], depth: ColorDepth::Rgb8, w: 2, h: 2 };
    let ud = UserData::new_image(img, 2, 2, 4, 4, Some("http://x".to_string()));
    assert_eq!(ud.data_type, DataType::Image);
    assert!(ud.text.is_empty());
    assert_eq!((ud.image_width, ud.image_height, ud.image_target_width, ud.image_target_height), (2, 2, 4, 4));
    assert_eq!(ud.image_src_url, Some("http://x".to_string()));
}

#[test]
fn segments_set_and_report_their_state() {
    let mut rd = RichData::empty();
    assert!(rd.is_text_data());
    rd.set_text_data("hello");
    assert_eq!(rd.text, chars_of("hello"));
    rd.set_v_bounds(10, 20, 0, 50);
    assert_eq!(rd.v_bounds, (10, 20, 0, 50));
    assert!(rd.is_visible(15, 30));
    assert!(!rd.is_visible(21, 30));
    rd.set_expire(true);
    assert!(rd.is_expired());
    rd.set_clickable(true);
    assert!(!rd.is_clickable());
}

#[test]
fn pieces_select_and_copy() {
    let mut p = LinePiece::init_piece(16);
    p.line = chars_of("hello");
    p.select_from(2);
    assert_eq!(p.selected_range, Some((2, 5)));
    p.select_to(3);
    assert_eq!(p.selected_range, Some((0, 3)));
    p.select_range(1, 4);
    let mut s = String::from(">");
    p.copy_selection(&mut s);
    assert_eq!(s, ">ell");
    p.select_all();
    assert_eq!(p.selected_range, Some((0, 5)));
    p.deselect();
    assert_eq!(p.selected_range, None);
    p.move_cursor_to(30, 40);
    assert_eq!((p.x, p.y, p.next_x, p.next_y), (30, 40, 30, 40));
}

#[test]
fn rectangles_compare_by_position() {
    let a = Rectangle::new(10, 20, 5, 5);
    let b = Rectangle::new(5, 30, 5, 5);
    assert_eq!(a.position_cmp(&b), PositionOrder::Less);
    assert_eq!(b.position_cmp(&a), PositionOrder::Greater);
    assert_eq!(a.position_cmp(&Rectangle::new(10, 20, 9, 9)), PositionOrder::Equal);
    assert!(b.is_below(&Rectangle::new(0, 0, 10, 29)));
    assert!(!b.is_below(&Rectangle::new(0, 0, 10, 30)));
    let (tl, br) = a.corner_rect();
    assert_eq!((tl.tup(), br.tup()), ((10, 20, 0, 0), (15, 25, 0, 0)));
    let mut c = Rectangle::new(10, 0, 5, 5);
    c.stretch_to_left(4);
    assert_eq!(c.tup(), (6, 0, 9, 5));
}

#[test]
fn the_grid_follows_the_panel_size() {
    assert_eq!(calc_default_window_size(810, 410, 10, 16), (80, 17));
    assert_eq!(calc_default_window_size(810, 410, 0, 16), (i32::MAX, 17));
    assert_eq!(calc_default_window_size(5, 5, 10, 16), (-1, -1));
    let mut s = PanelState::new();
    assert_eq!(s.update_window_size(810, 410, 10), (17, 80));
    assert_eq!((s.max_rows, s.max_cols), (17, 80));
    assert_eq!(s.update_window_size(5, 5, 10), (-1, -1));
    assert_eq!((s.max_rows, s.max_cols), (1, 1));
}

#[test]
fn user_data_survive_a_trip_through_a_segment() {
    let ud = UserData::new_text_with_id(11, "round".to_string()).set_underline(true).set_clickable(true);
    let rd = RichData::from_user_data(ud);
    assert_eq!(rd.id, 11);
    assert_eq!(rd.text, chars_of("round"));
    assert!(rd.underline && rd.clickable && !rd.disabled);
    assert!(rd.line_pieces.is_empty());
    let back = rd.to_user_data();
    assert_eq!(back.id, 11);
    assert_eq!(back.text, "round");
    assert!(back.underline && back.clickable);
    assert_eq!(back.data_type, DataType::Text);
}

#[test]
fn hints_break_after_sentence_ends() {
    let h: String = hint_of("Go north. Then?Yes！ok").into_iter().collect();
    assert_eq!(h, "Go north. \nThen?\nYes！\nok");
    let h: String = hint_of("a.b").into_iter().collect();
    assert_eq!(h, "a.b");
}

#[test]
fn picking_a_menu_item_marks_its_command() {
    let mut a = Action::empty();
    a.items.push(ActionItem::new("look", "l"));
    a.items.push(ActionItem::new("take", "t"));
    let picked = pick_item(&a, 1).unwrap();
    assert_eq!(picked.active, Some("t".to_string()));
    assert_eq!(picked.items.len(), 2);
    assert!(pick_item(&a, 2).is_none());
}
