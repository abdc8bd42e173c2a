use fltkrs_richdisplay::board::{BoardRow, ReWriteBoard, RowErase};
use fltkrs_richdisplay::color::{get_contrast_color, get_lighter_or_darker_color, white, BlinkState, Color};
use fltkrs_richdisplay::cursor::CursorPos;
use fltkrs_richdisplay::data::{RichData, UserData};
use fltkrs_richdisplay::geometry::{calc_v_center_offset, is_overlap, ClickPoint, Rectangle};
use fltkrs_richdisplay::options::{expire_data, update_data_properties, RichDataOptions};
use fltkrs_richdisplay::records::{is_svg_path, load_image_options, DocEditType, ImageLoad, LoadImageOption, ShapeData};
use fltkrs_richdisplay::search::{match_ranges, scroll_target, SearchState};
use fltkrs_richdisplay::text::chars_of;

#[test]
pub fn make_rectangle_test() {
    let rect = Rectangle::new(20, 30, 25, 25);
    assert_eq!(rect.tup(), (20, 30, 25, 25));

    let rect = Rectangle::new(20, 30, -10, 25);
    assert_eq!(rect.tup(), (10, 30, 10, 25));

    let rect = Rectangle::new(20, 30, 10, -25);
    assert_eq!(rect.tup(), (20, 5, 10, 25));

    let rect = Rectangle::new(20, 30, -10, -25);
    assert_eq!(rect.tup(), (10, 5, 10, 25));
}

#[test]
pub fn str_index_test() {
    let str = String::from("我爱中国");
    assert_eq!(str.find("中国"), Some(6));

    let hits = match_ranges(&chars_of(&str), &chars_of("中国"));
    for (i, _) in hits {
        assert_eq!(i, 2);
    }
}

#[test]
pub fn test_contrast_color_test() {
    assert_eq!(get_contrast_color(Color::from_rgb(255, 255, 255)), Color::from_rgb(0, 0, 0));
    assert_eq!(get_contrast_color(Color::from_rgb(0, 0, 0)), Color::from_rgb(255, 255, 255));
    for i in 1..116 {
        assert_ne!(get_contrast_color(Color::from_rgb(i, i, i)), white());
    }
    for i in 116..=139 {
        assert_eq!(get_contrast_color(Color::from_rgb(i, i, i)), white());
    }
    for i in 140..=255 {
        assert_ne!(get_contrast_color(Color::from_rgb(i, i, i)), white());
    }
}

#[test]
pub fn get_lighter_color_test() {
    let dark_cyan = Color::from_rgb(0, 128, 128);
    let lighter = get_lighter_or_darker_color(dark_cyan);
    println!("{:?} -> {:?}", dark_cyan.to_rgb(), lighter.to_rgb())
}

#[test]
fn middle_gray_turns_lighter() {
    let c = get_lighter_or_darker_color(Color::from_rgb(128, 128, 128));
    assert_eq!(c.to_rgb(), (255, 255, 255));
    let c = get_lighter_or_darker_color(Color::from_rgb(129, 0, 0));
    assert_eq!(c.to_rgb(), (2, 0, 0));
}

#[test]
pub fn fold_chars_test() {
    let hint = "这里是一个空旷的广场，地面上散落着一些碎纸片。";
    let mut count = 0;
    let new_hint = hint.chars().fold("".to_string(), |mut s, c| {
        s.push(c);
        count += 1;
        if count % 8 == 0 {
            s.push_str("\r\n");
        }

        s
    });
    println!("{:?}", new_hint);
}

#[test]
pub fn c1_test() {
    let s = String::from_utf8_lossy(&[0xe2, 0x96, 0xbd]);
    println!("{}", s);
}

#[test]
fn rectangle_intersection_is_symmetric() {
    let a = Rectangle::new(0, 0, 10, 10);
    let b = Rectangle::new(5, 5, 10, 10);
    let c = Rectangle::new(20, 20, 5, 5);
    assert!(a.intersects(&b));
    assert!(b.intersects(&a));
    assert!(!a.intersects(&c));
    assert!(!c.intersects(&a));
    assert!(is_overlap(&a, &b));
}

#[test]
fn click_points_make_normalized_rectangles() {
    let p = ClickPoint::new(30, 40);
    let q = ClickPoint::new(10, 15);
    assert_eq!(p.to_rect(&q).tup(), (10, 15, 20, 25));
    assert_eq!(q.to_rect(&p).tup(), (10, 15, 20, 25));
}

#[test]
fn center_offsets_split_the_difference() {
    assert_eq!(calc_v_center_offset(20, 10), (5, 15));
    assert_eq!(calc_v_center_offset(21, 10), (5, 15));
    assert_eq!(calc_v_center_offset(10, 21), (-5, 15));
}

#[test]
fn contrast_twice_gives_back_the_color() {
    let c = Color::from_rgb(10, 200, 30);
    assert_eq!(get_contrast_color(get_contrast_color(c)), c);
}

#[test]
fn blink_toggles_back() {
    let mut s = BlinkState::new();
    let before = s.next;
    s.on();
    assert!(s.toggle_when_on());
    assert!(s.toggle_when_on());
    assert_eq!(s.next, before);
}

#[test]
fn cursor_reports_its_position() {
    let mut c = CursorPos::new(0, 0, 24, 80);
    assert_eq!(c.get(), (1, 1));
    c.set(30, 5);
    assert_eq!(c.get(), (24, 5));
    c.sub_n(23);
    c.add_m(10);
    assert_eq!(c.get(), (1, 15));
    assert_eq!(c.dsr(), "\x1b[1;15R");
}

fn segment(text: &str) -> RichData {
    let mut rd = RichData::empty();
    rd.text = chars_of(text);
    rd
}

fn text_of(rd: &RichData) -> String {
    rd.text.iter().collect()
}

fn board_with(rows: Vec<(usize, Vec<&str>)>) -> ReWriteBoard {
    let mut board = ReWriteBoard::new(3, 8, 0, 20, 0);
    for (row, segs) in rows {
        board.line_data_map.rows.push(BoardRow { row, segments: segs.into_iter().map(segment).collect() });
    }
    board
}

#[test]
fn board_has_its_size() {
    let board = ReWriteBoard::new(3, 8, 10, 20, 2);
    assert_eq!(board.bottom_y, 10 + 3 * 20 + 2 * 2);
    assert_eq!(board.cursor_pos.get(), (1, 1));
    let mut board = board;
    board.resize(5, 9);
    assert_eq!(board.max_rows, 5);
    assert_eq!(board.bottom_y, 10 + 5 * 20 + 2 * 4);
}

#[test]
fn erase_in_line_to_start() {
    let mut board = board_with(vec![(1, vec!["abc", "defg"])]);
    board.cursor_pos.set(1, 5);
    board.erase_in_line(1);
    let segs = &board.line_data_map.rows[0].segments;
    assert_eq!(text_of(&segs[0]), "   ");
    assert_eq!(text_of(&segs[1]), "  fg");
}

#[test]
fn erase_in_line_to_end() {
    let mut board = board_with(vec![(1, vec!["abc", "defg", "hi"])]);
    board.cursor_pos.set(1, 5);
    board.erase_in_line(0);
    let segs = &board.line_data_map.rows[0].segments;
    assert_eq!(segs.len(), 2);
    assert_eq!(text_of(&segs[0]), "abc");
    assert_eq!(text_of(&segs[1]), "d   ");
}

#[test]
fn erase_in_line_to_end_blanks_the_cursor_column() {
    let mut board = board_with(vec![(1, vec!["cdef"])]);
    board.cursor_pos.set(1, 3);
    board.erase_in_line(0);
    let segs = &board.line_data_map.rows[0].segments;
    assert_eq!(segs.len(), 1);
    assert_eq!(text_of(&segs[0]), "cd  ");
    assert_eq!(board.cursor_pos.get(), (1, 3));
}

#[test]
fn erase_in_line_to_start_stops_at_the_cursor_column() {
    let mut board = board_with(vec![(1, vec!["ab", "cd"])]);
    board.cursor_pos.set(1, 2);
    board.erase_in_line(1);
    let segs = &board.line_data_map.rows[0].segments;
    assert_eq!(text_of(&segs[0]), "  ");
    assert_eq!(text_of(&segs[1]), "cd");
    assert_eq!(board.cursor_pos.get(), (1, 2));
}

#[test]
fn erase_in_line_from_first_column_clears_the_row() {
    let mut board = board_with(vec![(1, vec!["abc", "defg"])]);
    board.erase_in_line(0);
    assert!(board.line_data_map.rows[0].segments.is_empty());
}

#[test]
fn erase_whole_line_keeps_one_blank_segment() {
    let mut board = board_with(vec![(1, vec!["abc", "defg"]), (2, vec!["x"])]);
    board.erase_in_line(2);
    let segs = &board.line_data_map.rows[0].segments;
    assert_eq!(segs.len(), 1);
    assert_eq!(text_of(&segs[0]), "        ");
    assert_eq!(text_of(&board.line_data_map.rows[1].segments[0]), "x");
}

#[test]
fn erase_display_below_the_cursor() {
    let mut board = board_with(vec![(1, vec!["abc"]), (2, vec!["defg", "h"]), (3, vec!["ij", "k"])]);
    board.cursor_pos.set(2, 2);
    board.erase_in_display(0);
    assert_eq!(text_of(&board.line_data_map.rows[0].segments[0]), "abc");
    assert_eq!(board.line_data_map.rows[1].segments.len(), 1);
    assert_eq!(text_of(&board.line_data_map.rows[1].segments[0]), "d   ");
    assert_eq!(board.line_data_map.rows[2].segments.len(), 1);
    assert_eq!(text_of(&board.line_data_map.rows[2].segments[0]), "        ");
}

#[test]
fn erase_display_above_the_cursor() {
    let mut board = board_with(vec![(1, vec!["abc", "d"]), (2, vec!["efgh"]), (3, vec!["ij"])]);
    board.cursor_pos.set(2, 2);
    board.erase_in_display(1);
    assert_eq!(board.line_data_map.rows[0].segments.len(), 1);
    assert_eq!(text_of(&board.line_data_map.rows[0].segments[0]), "        ");
    assert_eq!(text_of(&board.line_data_map.rows[1].segments[0]), "  gh");
    assert_eq!(text_of(&board.line_data_map.rows[2].segments[0]), "ij");
}

#[test]
fn erase_whole_display_blanks_every_row() {
    let mut board = board_with(vec![(1, vec!["abc", "d"]), (3, vec!["ij"])]);
    board.erase_in_display(2);
    for row in &board.line_data_map.rows {
        assert_eq!(row.segments.len(), 1);
        assert_eq!(text_of(&row.segments[0]), "        ");
    }
    let _ = RowErase::Keep;
}

#[test]
fn search_records_hits_from_the_right() {
    let hits = match_ranges(&chars_of("abcabcab"), &chars_of("ab"));
    assert_eq!(hits, vec![(6, 8), (3, 5), (0, 2)]);
    let hits = match_ranges(&chars_of("aaa"), &chars_of("aa"));
    assert_eq!(hits, vec![(1, 3)]);
    assert!(match_ranges(&chars_of("xyz"), &chars_of("ab")).is_empty());
}

#[test]
fn moving_forward_to_another_segment_marks_its_leftmost_hit() {
    let mut buffer = vec![segment("one two"), segment("nothing"), segment("two and two")];
    let mut state = SearchState::new();
    assert!(state.search_str(&mut buffer, "two", true));
    assert_eq!(state.current_highlight_focus, Some((0, 0)));
    assert!(state.search_str(&mut buffer, "two", true));
    assert_eq!(state.current_highlight_focus, Some((2, 1)));
    assert_eq!(buffer[2].search_highlight_pos, Some(1));
    assert_eq!(buffer[0].search_highlight_pos, None);
    assert!(state.search_str(&mut buffer, "two", true));
    assert_eq!(state.current_highlight_focus, Some((2, 0)));
    assert_eq!(buffer[2].search_highlight_pos, Some(0));
}

#[test]
fn search_moves_the_focus_over_the_hits() {
    let mut buffer = vec![segment("one two"), segment("nothing"), segment("two and two")];
    let mut state = SearchState::new();
    assert!(state.search_str(&mut buffer, "two", true));
    assert_eq!(state.search_results, vec![2, 0]);
    assert_eq!(buffer[2].search_result_positions, Some(vec![(8, 11), (0, 3)]));
    assert_eq!(buffer[1].search_result_positions, None);
    assert_eq!(state.current_highlight_focus, Some((0, 0)));
    assert_eq!(buffer[0].search_highlight_pos, Some(0));

    assert!(state.search_str(&mut buffer, "two", false));
    assert_eq!(state.current_highlight_focus, Some((2, 0)));
    assert_eq!(buffer[0].search_highlight_pos, None);
    assert!(state.search_str(&mut buffer, "two", false));
    assert_eq!(state.current_highlight_focus, Some((2, 1)));
    assert_eq!(buffer[2].search_highlight_pos, Some(1));
    assert!(state.search_str(&mut buffer, "two", false));
    assert_eq!(state.current_highlight_focus, Some((0, 0)));

    assert!(!state.search_str(&mut buffer, "absent", true));
    assert!(state.search_results.is_empty());
    assert_eq!(buffer[2].search_result_positions, None);
    assert_eq!(state.current_highlight_focus, None);
}

#[test]
fn search_descending_binary_search() {
    let mut state = SearchState::new();
    state.search_results = vec![9, 7, 3];
    assert_eq!(state.binary_search_with_desc_order(7), Ok(1));
    assert_eq!(state.binary_search_with_desc_order(5), Err(2));
    assert_eq!(state.binary_search_with_desc_order(10), Err(0));
}

#[test]
fn focused_piece_is_found() {
    let mut buffer = vec![segment("abc def")];
    let mut state = SearchState::new();
    assert!(state.search_str(&mut buffer, "def", true));
    assert_eq!(state.focused_piece(&buffer), Some((0, 0)));
}

#[test]
fn scrolling_brings_the_piece_into_view() {
    assert_eq!(scroll_target(50, 10, 0, 100, 500), None);
    assert_eq!(scroll_target(300, 10, 0, 100, 500), Some(300 - 100 + 20 + 5 + 3));
    assert_eq!(scroll_target(10, 10, 200, 100, 500), Some(0));
    assert_eq!(scroll_target(490, 10, 0, 100, 500), Some(400));
}

#[test]
fn edits_format_as_control_sequences() {
    let e: DocEditType<()> = DocEditType::CursorAbsolute(3, 14);
    assert_eq!(e.format_with(""), "\x1b[3;14H");
    let e: DocEditType<()> = DocEditType::EraseInLine(2);
    assert_eq!(e.format_with(""), "\x1b[2K");
    let e: DocEditType<()> = DocEditType::ToggleCursor("?25".to_string(), true);
    assert_eq!(e.format_with(""), "\x1b[?25h");
    let e: DocEditType<()> = DocEditType::Expire("room".to_string());
    assert_eq!(e.format_with(""), "<EXPIRE room>");
    let e: DocEditType<()> = DocEditType::CursorPosReport(());
    assert_eq!(e.format_with("cb"), "汇报光标位置 cb");
    let e: DocEditType<()> = DocEditType::Data(UserData::new_text_with_id(1, "hello".to_string()));
    assert_eq!(e.format_with(""), "hello");
}

#[test]
fn svg_files_are_told_by_name() {
    assert!(is_svg_path("a/b/logo.SVG"));
    assert!(is_svg_path("x.svg"));
    assert!(!is_svg_path("x.png"));
    assert!(!is_svg_path("svg"));
}

#[test]
fn image_load_outcomes_become_options() {
    let o = load_image_options(LoadImageOption::new(7, None, 10, 10), ImageLoad::DecodeFailed);
    assert_eq!(o.id, 7);
    assert_eq!(o.text, Some("save failed".to_string()));
    let o = load_image_options(LoadImageOption::new(7, Some("a.png".to_string()), 10, 10), ImageLoad::DecodeFailed);
    assert_eq!(o.text, Some("decoding failed".to_string()));
    let o = load_image_options(LoadImageOption::new(7, Some("a.png".to_string()), 10, 10), ImageLoad::ConvertFailed);
    assert_eq!(o.text, None);
    let _ = ShapeData::new(1, 2, 3, 4, 5, 6);
}

#[test]
fn options_change_the_segment() {
    let mut rd = segment("abc");
    update_data_properties(RichDataOptions::new(rd.id).clickable(true).text("xyz".to_string()), &mut rd);
    assert!(rd.clickable);
    assert_eq!(text_of(&rd), "xyz");
    let mut buffer = vec![rd];
    expire_data(&mut buffer, &"none".to_string());
    assert!(!buffer[0].expired);
}
