use fltkrs_richdisplay::board::{is_blank_text, split_board_lines, ReWriteBoard};
use fltkrs_richdisplay::color::{BlinkState, Color};
use fltkrs_richdisplay::draw::{draw_plan, draw_requests, DrawOp, Paint};
use fltkrs_richdisplay::locate::{drag_target, locate_target_rd, mouse_enter, search_index_of_piece};
use fltkrs_richdisplay::data::{DataType, RichData};
use fltkrs_richdisplay::geometry::{ClickPoint, Rectangle};
use fltkrs_richdisplay::layout::{
    finish_layout, place_image, place_single_text, place_text_line, text_lines, wrap_step, LayoutContext, Placement, WrapNext, WrapState,
};
use fltkrs_richdisplay::panel::{expand_tabs_exec, find_by_id, split_heights, strip_cr, CursorTarget, PanelState, MAIN_PANEL_FIX_HEIGHT};
use fltkrs_richdisplay::piece::LinePiece;
use fltkrs_richdisplay::records::{image_click_point, PageOptions};
use fltkrs_richdisplay::review::{needs_blink, scroll_page, visible_range_of, ReviewState, ScrollAction};
use fltkrs_richdisplay::selection::{clear_selected_pieces, copy_pieces, select_text};
use fltkrs_richdisplay::text::chars_of;

fn segment(text: &str) -> RichData {
    let mut rd = RichData::empty();
    rd.text = chars_of(text);
    rd
}

fn text_of(chars: &[char]) -> String {
    chars.iter().collect()
}

fn with_bounds(text: &str, top: i32, bottom: i32) -> RichData {
    let mut rd = segment(text);
    rd.v_bounds = (top, bottom, 0, 0);
    rd
}

fn piece(text: &str) -> LinePiece {
    let mut p = LinePiece::init_piece(16);
    p.line = chars_of(text);
    p
}

#[test]
fn panel_starts_empty() {
    let s = PanelState::new();
    assert!(s.current_buffer.is_empty());
    assert_eq!(s.buffer_max_lines, 100);
    assert_eq!(s.tab_width, 4);
    assert!(s.remote_flow_control);
    assert_eq!((s.cursor_piece.x, s.cursor_piece.y, s.cursor_piece.h), (5, 5, 23));
}

#[test]
fn pushing_past_the_cache_drops_the_oldest() {
    let mut s = PanelState::new();
    s.set_cache_size(2);
    let cursor = piece("");
    s.push_data(segment("a"), cursor.duplicate());
    s.push_data(segment("b"), cursor.duplicate());
    s.push_data(segment("c"), cursor.duplicate());
    let texts: Vec<String> = s.current_buffer.iter().map(|rd| text_of(&rd.text)).collect();
    assert_eq!(texts, vec!["b".to_string(), "c".to_string()]);
    s.set_cache_size(1);
    assert_eq!(s.current_buffer.len(), 1);
    assert_eq!(text_of(&s.current_buffer[0].text), "c");
}

#[test]
fn images_do_not_push_text_out() {
    let mut s = PanelState::new();
    s.set_cache_size(1);
    s.push_data(segment("a"), piece(""));
    let mut img = segment("");
    img.data_type = DataType::Image;
    s.push_data(img, piece(""));
    assert_eq!(s.current_buffer.len(), 2);
}

#[test]
fn deleting_after_pushing_gives_the_buffer_back() {
    let mut s = PanelState::new();
    s.push_data(segment("kept"), piece(""));
    s.push_data(segment("gone"), piece(""));
    assert!(s.delete_last_data());
    assert_eq!(s.current_buffer.len(), 1);
    assert_eq!(text_of(&s.current_buffer[0].text), "kept");
    assert!(s.delete_last_data());
    assert!(!s.delete_last_data());
}

#[test]
fn switching_modes_keeps_the_data() {
    let mut s = PanelState::new();
    s.push_data(segment("one"), piece(""));
    s.switch_mode(0);
    assert!(!s.remote_flow_control);
    assert!(s.show_cursor);
    assert!(s.current_buffer.is_empty());
    assert_eq!(s.data_buffer.as_ref().map(|b| b.len()), Some(1));
    s.switch_mode(1);
    assert!(s.remote_flow_control);
    let texts: Vec<String> = s.current_buffer.iter().map(|rd| text_of(&rd.text)).collect();
    assert_eq!(texts, vec!["one".to_string()]);
    assert_eq!(s.data_buffer.as_ref().map(|b| b.len()), Some(0));
    assert!(s.rewrite_board.is_none());
}

#[test]
fn board_output_leaves_with_the_remote_mode() {
    let mut s = PanelState::new();
    s.push_data(segment("main"), piece(""));
    s.switch_mode(0);
    s.push_data(segment("board"), piece(""));
    s.switch_mode(1);
    let texts: Vec<String> = s.current_buffer.iter().map(|rd| text_of(&rd.text)).collect();
    assert_eq!(texts, vec!["main".to_string()]);
}

#[test]
fn tabs_and_carriage_returns() {
    assert_eq!(text_of(&expand_tabs_exec(&chars_of("a\tb"), 2)), "a  b");
    assert_eq!(text_of(&expand_tabs_exec(&chars_of("\t"), 0)), "");
    assert_eq!(text_of(&strip_cr(&chars_of("a\r\nb\r"))), "a\nb");
}

#[test]
fn prepared_data_take_the_view_settings() {
    let s = PanelState::new();
    let mut rd = segment("x\ty");
    rd.font_size = 30;
    let r = s.prepare_data(rd, false, false);
    assert_eq!(r.font_size, 16);
    assert_eq!(text_of(&r.text), "x    y");
    assert_eq!(r.bg_color.map(|c| c.to_rgb()), Some((0, 0, 0)));
    let mut rd = segment("z");
    rd.font_size = 30;
    let r = s.prepare_data(rd, true, true);
    assert_eq!(r.font_size, 30);
}

#[test]
fn scroll_heights_follow_the_last_segment() {
    let mut s = PanelState::new();
    assert_eq!(s.calc_scroll_height(300), 0);
    assert_eq!(s.get_offset_y(300), 0);
    s.push_data(with_bounds("a", 480, 500), piece(""));
    assert_eq!(s.calc_scroll_height(300), 205);
    assert_eq!(s.calc_scroll_height(600), 0);
    assert_eq!(s.get_offset_y(300), 205);
    assert_eq!(s.get_offset_y(500), 0);
}

#[test]
fn segments_are_found_by_identifier() {
    let mut buffer = vec![segment("a"), segment("b"), segment("c")];
    buffer[0].id = 3;
    buffer[1].id = 8;
    buffer[2].id = 20;
    assert_eq!(find_by_id(&buffer, 8), Some(1));
    assert_eq!(find_by_id(&buffer, 20), Some(2));
    assert_eq!(find_by_id(&buffer, 9), None);
}

#[test]
fn cursor_moves_make_a_board() {
    let mut s = PanelState::new();
    s.max_rows = 24;
    s.max_cols = 80;
    s.cursor_down(2, 0, 20);
    assert_eq!(s.cursor_piece.y, 5 + 23 * 2);
    assert_eq!(s.rewrite_board.as_ref().map(|b| b.cursor_pos.get()), Some((3, 1)));
    s.cursor_up(2, 0, 20);
    assert_eq!(s.cursor_piece.y, 5);
    assert_eq!(s.rewrite_board.as_ref().map(|b| b.cursor_pos.get()), Some((1, 1)));
    s.cursor_forward(3, 10, 1000, 0, 20);
    assert_eq!(s.cursor_piece.x, 35);
    s.cursor_back(0, 10, 0, 20);
    assert_eq!(s.cursor_piece.x, 25);
    assert_eq!(s.rewrite_board.as_ref().map(|b| b.cursor_pos.get()), Some((1, 3)));
    assert_eq!(s.get_cursor_pos_dsr(), Some("\x1b[1;3R".to_string()));
}

#[test]
fn moving_home_without_a_board_hands_over_the_cursor() {
    let mut s = PanelState::new();
    s.max_rows = 24;
    s.max_cols = 80;
    match s.move_cursor(1, 1, 0, 20) {
        CursorTarget::Cell { n, m, append_empty } => {
            assert_eq!((n, m), (1, 1));
            assert!(!append_empty);
        }
        other => panic!("unexpected target {:?}", other),
    }
    assert!(s.rewrite_board.is_some());
    assert!(!s.remote_flow_control);
    s.place_cursor_in_cell(3, 4, 10, 20, 100);
    assert_eq!((s.cursor_piece.x, s.cursor_piece.y), (35, 145));
    s.place_cursor_in_segment(40, 60, 12);
    assert_eq!((s.cursor_piece.x, s.cursor_piece.y), (52, 60));
}

#[test]
fn board_lines_are_cut_after_line_feeds() {
    let lines = split_board_lines(&chars_of("ab\r\ncd\r\nef"));
    let texts: Vec<String> = lines.iter().map(|l| text_of(l)).collect();
    assert_eq!(texts, vec!["ab\n".to_string(), "cd\n".to_string(), "ef".to_string()]);
    assert!(is_blank_text(&chars_of(" \t\r\n\u{3000}")));
    assert!(!is_blank_text(&chars_of(" x ")));
}

#[test]
fn board_lines_go_to_the_cursor_row() {
    let mut board = ReWriteBoard::new(3, 8, 0, 20, 0);
    assert!(board.place_line(segment("ab\n")).is_none());
    assert_eq!(board.cursor_pos.get(), (2, 1));
    assert!(board.place_line(segment("   ")).is_none());
    assert_eq!(board.cursor_pos.get(), (2, 1));
    assert!(board.place_line(segment("cd")).is_none());
    assert_eq!(board.cursor_pos.get(), (2, 3));
    assert_eq!(board.line_data_map.rows.len(), 2);
    assert_eq!(board.line_data_map.rows[1].row, 2);
    let all = board.all_data();
    let texts: Vec<String> = all.iter().map(|rd| text_of(&rd.text)).collect();
    assert_eq!(texts, vec!["ab\n".to_string(), "cd".to_string()]);
    let seg = board.line_segment(&segment("whole"), chars_of("part"));
    assert_eq!(text_of(&seg.text), "part");
    assert!(seg.rewrite_board_data);
    board.cursor_pos.set(3, 1);
    assert!(board.place_line(segment("x\n")).is_none());
    let back = board.place_line(segment("below"));
    assert_eq!(back.map(|rd| text_of(&rd.text)), Some("below".to_string()));
}

#[test]
fn review_pages_merge_and_trim() {
    let mut r = ReviewState::new().lazy_page_mode();
    assert!(r.history_mode);
    r.set_page_size(2);
    r.set_data(vec![with_bounds("b", 10, 20), with_bounds("c", 20, 30)]);
    r.merge_page(vec![with_bounds("a", 0, 10)], PageOptions::PrevPage(0));
    r.merge_page(vec![with_bounds("d", 30, 40)], PageOptions::NextPage(0));
    let texts: Vec<String> = r.data_buffer.iter().map(|rd| text_of(&rd.text)).collect();
    assert_eq!(texts, vec!["a", "b", "c", "d"]);
    assert_eq!(r.calc_panel_height(10), 40 + 5 + 5);
    assert_eq!(r.calc_panel_height(100), 100);
    assert!(!r.need_more(39));
    assert!(r.need_more(40));
    assert_eq!(r.trim_far_page(PageOptions::NextPage(0)), 20);
    let texts: Vec<String> = r.data_buffer.iter().map(|rd| text_of(&rd.text)).collect();
    assert_eq!(texts, vec!["c", "d"]);
    assert_eq!(r.trim_far_page(PageOptions::PrevPage(0)), 40);
    assert!(r.data_buffer.is_empty());
    assert_eq!(r.page_request(PageOptions::NextPage(0)), None);
}

#[test]
fn page_requests_carry_the_identifier_at_their_end() {
    let mut r = ReviewState::new();
    let mut a = segment("a");
    a.id = 17;
    let mut b = segment("b");
    b.id = 42;
    r.set_data(vec![a, b]);
    assert_eq!(r.page_request(PageOptions::NextPage(0)), Some(PageOptions::NextPage(42)));
    assert_eq!(r.page_request(PageOptions::PrevPage(7)), Some(PageOptions::PrevPage(17)));
    r.clear();
    assert!(r.data_buffer.is_empty());
    assert_eq!(r.page_request(PageOptions::PrevPage(0)), None);
}

#[test]
fn the_wheel_asks_for_a_page_near_either_end() {
    let mut r = ReviewState::new();
    let mut a = segment("a");
    a.id = 17;
    let mut b = segment("b");
    b.id = 42;
    r.set_data(vec![a, b]);
    assert_eq!(r.wheel_page_request(true, 20, 100, 1000), Some(PageOptions::PrevPage(17)));
    assert_eq!(r.wheel_page_request(true, 25, 100, 1000), None);
    assert_eq!(r.wheel_page_request(false, 876, 100, 1000), Some(PageOptions::NextPage(42)));
    assert_eq!(r.wheel_page_request(false, 875, 100, 1000), None);
    let text_size = r.text_size;
    r.merge_page(Vec::new(), PageOptions::NextPage(0));
    assert_eq!(r.text_size, text_size);
}

#[test]
fn the_visible_range_is_found_from_the_end() {
    let buffer = vec![with_bounds("a", 0, 10), with_bounds("b", 10, 20), with_bounds("c", 20, 30), with_bounds("d", 30, 40)];
    assert_eq!(visible_range_of(&buffer, 12, 25), (1, 3));
    assert_eq!(visible_range_of(&buffer, 0, 40), (0, 4));
    assert_eq!(visible_range_of(&buffer, 100, 200), (0, 4));
    assert!(!needs_blink(&buffer, 0, 4));
    let mut blinking = buffer;
    blinking[2].blink = true;
    assert!(needs_blink(&blinking, 1, 3));
    assert!(!needs_blink(&blinking, 0, 2));
}

#[test]
fn page_scrolls() {
    assert_eq!(scroll_page(500, 200, 350, false, 0), ScrollAction::ToBottomLater(300));
    assert_eq!(scroll_page(500, 200, 250, true, 100), ScrollAction::To(150));
    assert_eq!(scroll_page(500, 200, 50, true, 100), ScrollAction::To(0));
    assert_eq!(scroll_page(500, 200, 50, false, 100), ScrollAction::Stay);
}

fn selectable_buffer() -> Vec<RichData> {
    let mut a = segment("abcdef");
    a.line_pieces = vec![piece("ab"), piece("cdef")];
    let mut b = segment("ghij");
    b.line_pieces = vec![piece("gh"), piece("ij")];
    vec![a, b]
}

#[test]
fn selecting_within_one_piece() {
    let mut buffer = selectable_buffer();
    let mut selected = Vec::new();
    let from = ClickPoint { x: 10, y: 5, p_i: 1, c_i: 1 };
    let to = ClickPoint { x: 30, y: 6, p_i: 1, c_i: 2 };
    let s = select_text(&from, &to, &mut buffer, 0, 0, &mut selected);
    assert_eq!(s, "de");
    assert_eq!(selected, vec![(0, 1)]);
    assert_eq!(buffer[0].line_pieces[1].selected_range, Some((1, 3)));
    assert_eq!(copy_pieces(&buffer, &selected), "de");
    clear_selected_pieces(&mut buffer, &mut selected);
    assert!(selected.is_empty());
    assert_eq!(buffer[0].line_pieces[1].selected_range, None);
}

#[test]
fn selecting_across_segments() {
    let mut buffer = selectable_buffer();
    let mut selected = Vec::new();
    let from = ClickPoint { x: 40, y: 30, p_i: 0, c_i: 1 };
    let to = ClickPoint { x: 10, y: 5, p_i: 1, c_i: 2 };
    let s = select_text(&from, &to, &mut buffer, 0, 1, &mut selected);
    assert_eq!(s, "efgh");
    assert_eq!(selected, vec![(0, 1), (1, 0)]);
    assert_eq!(buffer[0].line_pieces[1].selected_range, Some((2, 4)));
    assert_eq!(buffer[1].line_pieces[0].selected_range, Some((0, 2)));
    let again = select_text(&to, &from, &mut buffer, 0, 0, &mut selected);
    assert_eq!(again, "de");
    assert_eq!(buffer[1].line_pieces[0].selected_range, None);
}

#[test]
fn single_texts_follow_the_cursor() {
    let mut ctx = LayoutContext::new();
    let mut rd = segment("hello");
    rd.font_size = 16;
    let start = LinePiece::init_piece(16);
    match place_single_text(&mut ctx, &mut rd, &start, 40, 20, 4, 200) {
        Placement::Placed(p) => {
            assert_eq!((p.x, p.y, p.w, p.h, p.next_x, p.next_y), (5, 5, 40, 23, 45, 5));
            assert_eq!(p.line_id, 1);
            assert_eq!(text_of(&p.line), "hello");
        }
        other => panic!("unexpected placement {:?}", other),
    }
    assert_eq!(ctx.next_line_id, 2);
    assert_eq!(rd.line_pieces.len(), 1);
    assert_eq!(rd.line_height, 23);
    match place_single_text(&mut ctx, &mut rd, &start, 400, 20, 4, 200) {
        Placement::Wrap(st) => {
            assert_eq!(st.measure_width, 400);
            assert_eq!(st.font_height, 23);
            assert_eq!(text_of(&st.text), "hello");
        }
        other => panic!("unexpected placement {:?}", other),
    }
    assert_eq!(rd.line_pieces.len(), 1);
}

#[test]
fn text_lines_end_their_panel_line() {
    let mut ctx = LayoutContext::new();
    let mut rd = segment("ab\ncd");
    rd.font_size = 16;
    let start = LinePiece::init_piece(16);
    let first = match place_text_line(&mut ctx, &mut rd, &start, chars_of("ab\n"), 20, 10, 200) {
        Placement::Placed(p) => p,
        other => panic!("unexpected placement {:?}", other),
    };
    assert_eq!((first.x, first.y, first.next_x, first.next_y), (5, 5, 5, 28));
    let second = match place_text_line(&mut ctx, &mut rd, &first, chars_of("cd"), 20, 10, 200) {
        Placement::Placed(p) => p,
        other => panic!("unexpected placement {:?}", other),
    };
    assert_eq!((second.x, second.y, second.next_x, second.next_y), (5, 28, 25, 28));
    assert_eq!(second.line_id, 2);
    assert_eq!(rd.line_pieces.len(), 2);
}

#[test]
fn wrapping_cuts_at_the_longest_fitting_prefix() {
    let mut ctx = LayoutContext::new();
    let mut rd = segment("abcd");
    rd.font_size = 16;
    let st = WrapState { text: chars_of("abcd"), last: LinePiece::init_piece(16), measure_width: 40, font_height: 23 };
    let widths = vec![0, 10, 20, 30];
    match wrap_step(&mut ctx, &mut rd, st, &widths, 30) {
        WrapNext::Done(p) => {
            assert_eq!(text_of(&p.line), "cd");
            assert_eq!((p.x, p.y, p.w, p.next_x, p.next_y), (5, 28, 20, 25, 28));
        }
        other => panic!("unexpected step {:?}", other),
    }
    assert_eq!(rd.line_pieces.len(), 2);
    assert_eq!(text_of(&rd.line_pieces[0].line), "ab");
    assert_eq!((rd.line_pieces[0].w, rd.line_pieces[0].next_y), (20, 28));
}

#[test]
fn wrapping_without_room_starts_a_new_line() {
    let mut ctx = LayoutContext::new();
    let mut rd = segment("abcd");
    rd.font_size = 16;
    rd.line_height = 23;
    let mut last = LinePiece::init_piece(16);
    last.next_x = 101;
    last.line_max_h = 23;
    let st = WrapState { text: chars_of("abcd"), last, measure_width: 40, font_height: 23 };
    match wrap_step(&mut ctx, &mut rd, st, &vec![0, 10, 20, 30], 100) {
        WrapNext::Again(next) => {
            assert_eq!((next.last.x, next.last.y, next.last.next_x), (5, 28, 5));
            assert_eq!(text_of(&next.text), "abcd");
        }
        other => panic!("unexpected step {:?}", other),
    }
    assert!(rd.line_pieces.is_empty());
}

#[test]
fn images_join_the_line() {
    let mut ctx = LayoutContext::new();
    let mut rd = segment("");
    rd.data_type = DataType::Image;
    rd.image_target_width = 50;
    rd.image_target_height = 30;
    let start = LinePiece::init_piece(16);
    let p = place_image(&mut ctx, &rd, &start, 200).unwrap();
    assert_eq!((p.x, p.y, p.w, p.h, p.top_y, p.next_x, p.next_y), (7, 7, 50, 30, 5, 59, 7));
    assert!(p.line_has_image);
    let narrow = place_image(&mut ctx, &rd, &p, 80).unwrap();
    assert_eq!((narrow.x, narrow.next_x), (7, 59));
}

#[test]
fn taller_text_centers_the_line() {
    let mut ctx = LayoutContext::new();
    let mut buffer: Vec<RichData> = Vec::new();
    let mut first = segment("ab");
    first.font_size = 16;
    let start = LinePiece::init_piece(16);
    let p1 = match place_single_text(&mut ctx, &mut first, &start, 20, 20, 4, 200) {
        Placement::Placed(p) => p,
        other => panic!("unexpected placement {:?}", other),
    };
    let c1 = finish_layout(&mut buffer, &mut first, 5, p1).unwrap();
    assert_eq!(first.v_bounds, (5, 28, 5, 25));
    assert_eq!(c1.rd_bounds, (5, 28, 5, 25));
    buffer.push(first);

    let mut second = segment("cd");
    second.font_size = 20;
    let p2 = match place_single_text(&mut ctx, &mut second, &c1, 20, 20, 4, 200) {
        Placement::Placed(p) => p,
        other => panic!("unexpected placement {:?}", other),
    };
    assert_eq!((p2.x, p2.h, p2.line_id), (25, 28, 1));
    let c2 = finish_layout(&mut buffer, &mut second, 5, p2).unwrap();
    assert_eq!(second.v_bounds, (5, 33, 25, 45));
    assert_eq!(c2.line_max_h, 28);
    assert_eq!(buffer[0].line_pieces[0].y, 7);
    assert_eq!(buffer[0].line_pieces[0].line_max_h, 28);
    assert_eq!(buffer[0].v_bounds, (5, 30, 5, 25));
}

fn located_buffer() -> Vec<RichData> {
    let mut a = segment("hello");
    a.v_bounds = (5, 28, 5, 55);
    let mut pa = piece("hello");
    pa.w = 50;
    pa.line_max_h = 23;
    a.line_pieces = vec![pa];
    let mut b = segment("world");
    b.v_bounds = (28, 51, 5, 55);
    let mut pb = piece("world");
    pb.y = 28;
    pb.top_y = 28;
    pb.w = 50;
    pb.line_max_h = 23;
    b.line_pieces = vec![pb];
    vec![a, b]
}

#[test]
fn the_segment_under_the_point_is_found() {
    let buffer = located_buffer();
    let mut point = ClickPoint { x: 10, y: 30, p_i: 7, c_i: 0 };
    let drag = point.as_rect();
    assert_eq!(locate_target_rd(&mut point, drag, 200, &buffer, &vec![0, 1]), Some(1));
    assert_eq!(point.p_i, 0);
    let mut outside = ClickPoint { x: 100, y: 300, p_i: 7, c_i: 0 };
    let drag = outside.as_rect();
    assert_eq!(locate_target_rd(&mut outside, drag, 200, &buffer, &vec![0, 1]), None);
    assert_eq!(outside.p_i, 7);
}

#[test]
fn the_character_under_the_point_is_found() {
    let buffer = located_buffer();
    let mut point = ClickPoint { x: 27, y: 30, p_i: 0, c_i: 9 };
    search_index_of_piece(&buffer[1].line_pieces[0], &mut point, &vec![0, 10, 20, 30, 40, 50]);
    assert_eq!(point.c_i, 2);
    let mut far = ClickPoint { x: 400, y: 30, p_i: 0, c_i: 9 };
    search_index_of_piece(&buffer[1].line_pieces[0], &mut far, &vec![0, 10, 20, 30, 40, 50]);
    assert_eq!(far.c_i, 9);
}

#[test]
fn dragging_down_selects_from_the_start_row() {
    let buffer = located_buffer();
    let from = ClickPoint { x: 10, y: 10, p_i: 0, c_i: 0 };
    let mut to = ClickPoint { x: 10, y: 30, p_i: 5, c_i: 0 };
    assert_eq!(drag_target(&from, 0, &mut to, 200, &buffer), Some((1, 0, 1)));
    assert_eq!(to.p_i, 0);
    let mut up = ClickPoint { x: 10, y: 10, p_i: 5, c_i: 0 };
    let start = ClickPoint { x: 10, y: 30, p_i: 0, c_i: 0 };
    assert_eq!(drag_target(&start, 1, &mut up, 200, &buffer), Some((0, 0, 1)));
}

fn drawn_segment() -> RichData {
    let mut rd = segment("hello\n");
    rd.font_size = 16;
    rd.bg_color = Some(Color::from_rgb(10, 10, 10));
    rd.underline = true;
    let mut p = piece("hello\n");
    p.w = 40;
    p.font_height = 20;
    p.selected_range = Some((1, 3));
    rd.line_pieces = vec![p];
    rd.search_result_positions = Some(vec![(2, 4)]);
    rd.search_highlight_pos = Some(0);
    rd
}

#[test]
fn text_drawing_asks_for_the_widths_it_needs() {
    let rd = drawn_segment();
    let requests: Vec<String> = draw_requests(&rd, true).iter().map(|t| text_of(t)).collect();
    assert_eq!(requests, vec!["h", "el", "he", "ll"]);
}

#[test]
fn text_drawing_paints_background_selection_hits_and_text() {
    let rd = drawn_segment();
    let blink = BlinkState::new();
    let ops = draw_plan(&rd, &vec![10, 20, 20, 20], 0, &blink, 2, 2);
    let fg = rd.fg_color;
    assert_eq!(
        ops,
        vec![
            DrawOp::Fill { paint: Paint::Rgb(Color::from_rgb(10, 10, 10)), x: 5, y: 7, w: 40, h: 20 },
            DrawOp::Fill { paint: Paint::Selection, x: 15, y: 7, w: 20, h: 20 },
            DrawOp::RoundedFill { paint: Paint::Rgb(Color::from_rgb(0, 0, 255)), x: 25, y: 7, w: 20, h: 20, radius: 3 },
            DrawOp::RoundedFrame { paint: Paint::Rgb(Color::from_rgb(255, 145, 0)), line_width: 2, x: 25, y: 7, w: 20, h: 20, radius: 3 },
            DrawOp::Line { paint: Paint::Rgb(fg), x1: 5, y1: 22, x2: 41, y2: 22 },
            DrawOp::Text { paint: Paint::Rgb(fg), text: chars_of("hello"), x: 5, y: 22 },
        ]
    );
}

#[test]
fn images_draw_with_their_caption_centered() {
    let mut rd = segment("a\nbc");
    rd.data_type = DataType::Image;
    rd.image = Some(vec![0; 1500]);
    rd.image_width = 50;
    rd.image_height = 30;
    rd.image_target_width = 50;
    rd.image_target_height = 30;
    rd.font_size = 10;
    let mut p = piece("");
    p.x = 7;
    p.y = 7;
    p.w = 50;
    p.h = 30;
    rd.line_pieces = vec![p];
    let requests: Vec<String> = draw_requests(&rd, true).iter().map(|t| text_of(t)).collect();
    assert_eq!(requests, vec!["a", "bc"]);
    let ops = draw_plan(&rd, &vec![6, 12], 0, &BlinkState::new(), 0, 0);
    let fg = Paint::Rgb(rd.fg_color);
    assert_eq!(
        ops,
        vec![
            DrawOp::Picture { inactive: false, depth: rd.image_color_depth, scale: false, x: 7, y: 7, w: 50, h: 30 },
            DrawOp::Text { paint: fg, text: chars_of("a"), x: 29, y: 22 },
            DrawOp::Text { paint: fg, text: chars_of("bc"), x: 26, y: 32 },
        ]
    );
    rd.disabled = true;
    assert!(draw_requests(&rd, true).is_empty());
    assert!(draw_plan(&rd, &vec![], 0, &BlinkState::new(), 0, 0).is_empty());
}

#[test]
fn a_page_loaded_and_unloaded_leaves_the_data() {
    let mut r = ReviewState::new();
    r.set_page_size(1);
    r.set_data(vec![with_bounds("a", 0, 10), with_bounds("b", 10, 20)]);
    r.merge_page(vec![with_bounds("c", 20, 30)], PageOptions::NextPage(0));
    r.trim_far_page(PageOptions::PrevPage(0));
    let texts: Vec<String> = r.data_buffer.iter().map(|rd| text_of(&rd.text)).collect();
    assert_eq!(texts, vec!["a", "b"]);
    r.merge_page(vec![with_bounds("z", 0, 5)], PageOptions::PrevPage(0));
    r.trim_far_page(PageOptions::NextPage(0));
    let texts: Vec<String> = r.data_buffer.iter().map(|rd| text_of(&rd.text)).collect();
    assert_eq!(texts, vec!["a", "b"]);
}

#[test]
fn texts_are_laid_out_line_by_line() {
    assert!(text_lines(&chars_of("no line feed")).is_none());
    let lines: Vec<String> = text_lines(&chars_of("ab\ncd\n\nef")).unwrap().iter().map(|l| text_of(l)).collect();
    assert_eq!(lines, vec!["ab\n", "cd\n", "\n", "ef"]);
    assert_eq!(lines.concat(), "ab\ncd\n\nef");
}

#[test]
fn disabled_text_is_struck_through() {
    let mut rd = segment("gone");
    rd.clickable = true;
    fltkrs_richdisplay::options::disable_data(&mut rd);
    assert!(rd.strike_through);
    assert!(!rd.clickable);
    assert_eq!(text_of(&rd.text), "gone");
}

#[test]
fn the_mouse_finds_the_clickable_area_under_it() {
    let areas = vec![(Rectangle(0, 0, 10, 10), 4), (Rectangle(20, 0, 10, 10), 9)];
    assert_eq!(mouse_enter(&areas, 25, 5), (true, 9));
    assert_eq!(mouse_enter(&areas, 0, 0), (true, 4));
    assert_eq!(mouse_enter(&areas, 10, 5), (false, 0));
    assert_eq!(mouse_enter(&areas, 5, 10), (false, 0));
}

#[test]
fn stepping_back_and_forth_within_a_segment_returns() {
    let mut buffer = vec![segment("ab ab ab")];
    let mut state = fltkrs_richdisplay::search::SearchState::new();
    assert!(state.search_str(&mut buffer, "ab", true));
    assert_eq!(state.current_highlight_focus, Some((0, 2)));
    assert!(state.search_str(&mut buffer, "ab", true));
    assert_eq!(state.current_highlight_focus, Some((0, 1)));
    assert_eq!(buffer[0].search_highlight_pos, Some(1));
    assert!(state.search_str(&mut buffer, "ab", false));
    assert_eq!(state.current_highlight_focus, Some((0, 2)));
    assert_eq!(buffer[0].search_highlight_pos, Some(2));
}

#[test]
fn text_that_fits_is_placed_and_text_that_does_not_wraps() {
    let mut ctx = LayoutContext::new();
    let mut rd = segment("xy");
    rd.font_size = 16;
    let start = LinePiece::init_piece(16);
    match place_single_text(&mut ctx, &mut rd, &start, 95, 10, 4, 100) {
        Placement::Placed(p) => assert_eq!((p.x, p.w, p.next_x), (5, 95, 100)),
        other => panic!("unexpected placement {:?}", other),
    }
    let mut rd2 = segment("xy");
    rd2.font_size = 16;
    match place_single_text(&mut ctx, &mut rd2, &start, 96, 10, 4, 100) {
        Placement::Wrap(st) => assert_eq!(text_of(&st.text), "xy"),
        other => panic!("unexpected placement {:?}", other),
    }
}

fn image_segment() -> RichData {
    let mut rd = RichData::empty();
    rd.data_type = DataType::Image;
    rd.image = Some(vec![255, 0, 0, 0, 0, 255]);
    rd.image_width = 2;
    rd.image_height = 1;
    rd.image_target_width = 4;
    rd.image_target_height = 4;
    rd.image_color_depth = fltkrs_richdisplay::image::ColorDepth::Rgb8;
    rd
}

#[test]
fn disabled_image_gets_a_gray_mask_of_its_pixels() {
    let mut rd = image_segment();
    fltkrs_richdisplay::options::disable_data(&mut rd);
    assert!(!rd.clickable);
    let mask = rd.image_inactive.clone().unwrap();
    assert_eq!(mask.len(), 2);
    assert_eq!(mask, vec![(306 * 255 / 1024) as u8, (116 * 255 / 1024) as u8]);
}

#[test]
fn new_target_size_applies_without_a_new_image() {
    let mut rd = image_segment();
    let options = fltkrs_richdisplay::options::RichDataOptions::new(rd.id).image(None, 40, 30);
    fltkrs_richdisplay::options::update_data_properties(options, &mut rd);
    assert_eq!(rd.image_target_width, 40);
    assert_eq!(rd.image_target_height, 30);
    assert_eq!(rd.image, Some(vec![255, 0, 0, 0, 0, 255]));
    assert_eq!(rd.image_width, 2);
}

#[test]
fn layout_beyond_i32_is_refused_and_large_places_are_laid_out() {
    let mut buffer: Vec<RichData> = Vec::new();
    let mut rd = segment("far");
    let mut p = piece("far");
    p.x = i32::MAX - 10;
    p.w = 20;
    p.h = 20;
    p.line_id = 3;
    rd.line_pieces = vec![p.duplicate()];
    let ret = p.duplicate();
    assert!(finish_layout(&mut buffer, &mut rd, 5, ret).is_none());
    assert_eq!(rd.line_pieces[0].x, i32::MAX - 10);

    let mut rd = segment("big");
    let mut q = piece("big");
    q.x = 1 << 30;
    q.w = 100;
    q.top_y = 1 << 30;
    q.y = 1 << 30;
    q.h = 20;
    q.line_id = 4;
    rd.line_pieces = vec![q.duplicate()];
    let c = finish_layout(&mut buffer, &mut rd, 1 << 30, q.duplicate()).unwrap();
    assert_eq!(rd.v_bounds, (1 << 30, (1 << 30) + 20, 1 << 30, (1 << 30) + 100));
    assert_eq!(c.line_max_h, 20);
}

#[test]
fn review_view_leaves_the_main_view_its_fixed_height() {
    assert_eq!(MAIN_PANEL_FIX_HEIGHT, 200);
    assert_eq!(split_heights(600, true), (200, 400));
    assert_eq!(split_heights(600, false), (600, 0));
}

#[test]
fn image_clicks_are_relative_to_the_image() {
    assert_eq!(image_click_point(120, 300, 10, 20, 50, (200, 260, 30, 80)), (80, 128));
}
