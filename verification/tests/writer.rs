use youchoose::Fraction;
use youchoose::Item;
use youchoose::Pair;
use youchoose::Screen;
use youchoose::ScreenSide;
use youchoose::Span;
use youchoose::Style;

/// A pane that fills a terminal of the given size, the cursor in its corner.
fn pane(rows: i32, columns: i32) -> Screen {
    let mut screen = Screen::new(ScreenSide::Full, Fraction::whole());
    screen.erase(Pair { y: rows, x: columns });
    screen.reset_pos();
    screen
}

/// The cells that the spans fill: row, column and character.
fn cells(spans: &[Span]) -> Vec<(i32, i32, char)> {
    let mut filled = Vec::new();
    for span in spans {
        for (i, glyph) in span.text.chars().enumerate() {
            filled.push((span.y, span.x + i as i32, glyph));
        }
    }
    filled
}

fn row(y: i32, x: i32, text: &str) -> Vec<(i32, i32, char)> {
    text.chars().enumerate().map(|(i, glyph)| (y, x + i as i32, glyph)).collect()
}

#[test]
fn short_text_stays_on_its_row() {
    let mut screen = pane(2, 10);
    let mut out = Vec::new();
    screen.addstr("abc", Style::Plain, &mut out);
    assert_eq!(cells(&out), row(0, 0, "abc"));
    assert_eq!(screen.pos, Pair { y: 0, x: 3 });
}

#[test]
fn long_text_wraps_at_the_right_edge_and_is_cut_at_the_bottom() {
    let mut screen = pane(2, 3);
    let mut out = Vec::new();
    screen.addstr("abcdefgh", Style::Plain, &mut out);
    let mut expected = row(0, 0, "abc");
    expected.extend(row(1, 0, "def"));
    assert_eq!(cells(&out), expected);
    assert_eq!(screen.pos, Pair { y: 2, x: 0 });
}

#[test]
fn text_that_fills_the_row_does_not_wrap_yet() {
    let mut screen = pane(2, 3);
    let mut out = Vec::new();
    screen.addstr("abc", Style::Plain, &mut out);
    assert_eq!(screen.pos, Pair { y: 0, x: 3 });
    screen.addstr("d", Style::Plain, &mut out);
    let mut expected = row(0, 0, "abc");
    expected.extend(row(1, 0, "d"));
    assert_eq!(cells(&out), expected);
    assert_eq!(screen.pos, Pair { y: 1, x: 1 });
}

#[test]
fn wrapping_counts_from_the_cursor_not_from_the_start_of_the_text() {
    let mut screen = pane(3, 5);
    let mut out = Vec::new();
    screen.addstr("ab", Style::Icon, &mut out);
    screen.addstr("cdefg", Style::Plain, &mut out);
    let mut expected = row(0, 0, "abcde");
    expected.extend(row(1, 0, "fg"));
    assert_eq!(cells(&out), expected);
}

#[test]
fn a_line_feed_moves_to_the_left_edge_of_the_next_row() {
    let mut screen = pane(3, 10);
    let mut out = Vec::new();
    screen.addstr("ab\ncd", Style::Plain, &mut out);
    let mut expected = row(0, 0, "ab");
    expected.extend(row(1, 0, "cd"));
    assert_eq!(cells(&out), expected);
    assert_eq!(screen.pos, Pair { y: 1, x: 2 });
}

#[test]
fn a_line_feed_at_the_right_edge_moves_one_row_only() {
    let mut screen = pane(3, 2);
    let mut out = Vec::new();
    screen.addstr("ab\ncd", Style::Plain, &mut out);
    let mut expected = row(0, 0, "ab");
    expected.extend(row(1, 0, "cd"));
    assert_eq!(cells(&out), expected);
}

#[test]
fn columns_count_characters_not_bytes() {
    let mut screen = pane(2, 3);
    let mut out = Vec::new();
    screen.addstr("äöüß", Style::Plain, &mut out);
    let mut expected = row(0, 0, "äöü");
    expected.extend(row(1, 0, "ß"));
    assert_eq!(cells(&out), expected);
    assert_eq!(screen.pos, Pair { y: 1, x: 1 });
}

#[test]
fn nothing_is_written_below_the_bottom_edge() {
    let mut screen = pane(2, 3);
    screen.pos = Pair { y: 2, x: 0 };
    let mut out = Vec::new();
    screen.addstr("abc\n\n", Style::Plain, &mut out);
    assert_eq!(cells(&out), Vec::new());
    assert_eq!(screen.pos, Pair { y: 2, x: 0 });
}

#[test]
fn nothing_is_written_into_a_pane_without_columns() {
    let mut screen = pane(5, 0);
    let mut out = Vec::new();
    screen.addstr("abc", Style::Plain, &mut out);
    assert_eq!(cells(&out), Vec::new());
}

#[test]
fn spans_carry_the_style_they_were_written_in() {
    let mut screen = pane(2, 10);
    let mut out = Vec::new();
    screen.addstr("ab", Style::Highlight, &mut out);
    assert_eq!(out.len(), 1);
    assert_eq!(out[0].style, Style::Highlight);
    assert_eq!(out[0].text, "ab");
    assert_eq!((out[0].y, out[0].x), (0, 0));
}

#[test]
fn addstr_clean_draws_one_span_and_moves_the_cursor_behind_it() {
    let mut screen = pane(2, 10);
    screen.pos = Pair { y: 1, x: 4 };
    let mut out = Vec::new();
    screen.addstr_clean("héllo".to_string(), Style::Plain, &mut out);
    assert_eq!(out.len(), 1);
    assert_eq!((out[0].y, out[0].x), (1, 4));
    assert_eq!(out[0].text, "héllo");
    assert_eq!(screen.pos, Pair { y: 1, x: 9 });
}

#[test]
fn a_character_is_written_like_a_text_of_one_character() {
    let mut screen = pane(2, 2);
    let mut out = Vec::new();
    screen.addch('a', Style::Plain, &mut out);
    screen.addch('b', Style::Plain, &mut out);
    screen.addch('c', Style::Plain, &mut out);
    let mut expected = row(0, 0, "ab");
    expected.extend(row(1, 0, "c"));
    assert_eq!(cells(&out), expected);
    assert_eq!(screen.pos, Pair { y: 1, x: 1 });
}

#[test]
fn skipping_lines_stops_at_the_bottom_edge() {
    let mut screen = pane(5, 10);
    screen.pos = Pair { y: 1, x: 4 };
    screen.skiplines(2);
    assert_eq!(screen.pos, Pair { y: 3, x: 0 });
    screen.skiplines(7);
    assert_eq!(screen.pos, Pair { y: 5, x: 0 });
    screen.pos = Pair { y: 5, x: 3 };
    screen.skiplines(1);
    assert_eq!(screen.pos, Pair { y: 5, x: 3 });
}

#[test]
fn skipping_no_line_moves_nothing() {
    let mut screen = pane(5, 10);
    screen.pos = Pair { y: 1, x: 4 };
    screen.skiplines(0);
    assert_eq!(screen.pos, Pair { y: 1, x: 4 });
    screen.skiplines(-3);
    assert_eq!(screen.pos, Pair { y: 1, x: 4 });
}

#[test]
fn an_item_is_drawn_with_its_icon_and_takes_a_row() {
    let mut screen = pane(2, 20);
    let mut out = Vec::new();
    let item = Item::new(&42, ">", "*");
    assert!(screen.write_item(&item, false, &mut out));
    assert_eq!(cells(&out), row(0, 0, "> 42"));
    assert_eq!(screen.items_on_screen, 1);
    assert_eq!(screen.pos, Pair { y: 1, x: 0 });
    let styles: Vec<Style> = out.iter().filter(|span| !span.text.is_empty()).map(|span| span.style).collect();
    assert_eq!(styles, vec![Style::Icon, Style::Icon, Style::Plain]);
}

#[test]
fn a_chosen_item_under_the_highlight_is_drawn_in_their_styles() {
    let mut screen = pane(2, 20);
    let mut out = Vec::new();
    let mut item = Item::new(&"pick", ">", "*");
    item.select();
    assert!(screen.write_item(&item, true, &mut out));
    assert_eq!(cells(&out), row(0, 0, "* pick"));
    let styles: Vec<Style> = out.iter().filter(|span| !span.text.is_empty()).map(|span| span.style).collect();
    assert_eq!(styles, vec![Style::ChosenIcon, Style::ChosenIcon, Style::Highlight]);
}

#[test]
fn no_item_is_drawn_at_the_bottom_edge() {
    let mut screen = pane(1, 20);
    let mut out = Vec::new();
    let item = Item::new(&1, ">", "*");
    assert!(screen.write_item(&item, false, &mut out));
    let drawn = out.len();
    assert!(!screen.write_item(&item, false, &mut out));
    assert_eq!(out.len(), drawn);
    assert_eq!(screen.items_on_screen, 1);
    assert_eq!(screen.pos, Pair { y: 1, x: 0 });
}

#[test]
fn an_item_that_wraps_takes_more_rows() {
    let mut screen = pane(4, 4);
    let mut out = Vec::new();
    let item = Item::new(&"abcdef", ">", "*");
    assert!(screen.write_item(&item, false, &mut out));
    let mut expected = row(0, 0, "> ab");
    expected.extend(row(1, 0, "cdef"));
    assert_eq!(cells(&out), expected);
    assert_eq!(screen.pos, Pair { y: 2, x: 0 });
}

#[test]
fn a_box_runs_along_the_edges_of_the_pane() {
    let mut screen = pane(4, 14);
    let mut out = Vec::new();
    screen.draw_box(ScreenSide::Full, Fraction::whole(), &None, &mut out);
    let mut expected = row(0, 0, "┌ preview ───┐");
    expected.extend(vec![(1, 0, '│'), (1, 13, '│'), (2, 0, '│'), (2, 13, '│')]);
    expected.extend(vec![(3, 0, '│'), (3, 13, '│')]);
    expected.extend(row(3, 0, "└────────────┘"));
    assert_eq!(cells(&out), expected);
    assert_eq!(screen.pos, Pair { y: 3, x: 14 });
}

#[test]
fn a_box_carries_its_label() {
    let mut screen = pane(3, 8);
    let mut out = Vec::new();
    screen.draw_box(ScreenSide::Full, Fraction::whole(), &Some(" é ".to_string()), &mut out);
    let mut expected = row(0, 0, "┌ é ───┐");
    expected.extend(vec![(1, 0, '│'), (1, 7, '│'), (2, 0, '│'), (2, 7, '│')]);
    expected.extend(row(2, 0, "└──────┘"));
    assert_eq!(cells(&out), expected);
}

#[test]
fn a_label_that_is_too_long_leaves_no_room_for_the_line() {
    let mut screen = pane(2, 4);
    let mut out = Vec::new();
    screen.draw_box(ScreenSide::Full, Fraction::whole(), &Some("abcdef".to_string()), &mut out);
    let mut expected = row(0, 0, "┌abc");
    expected.extend(row(1, 0, "def┐"));
    expected.extend(vec![(1, 0, '│'), (1, 3, '│')]);
    expected.extend(row(1, 0, "└──┘"));
    assert_eq!(cells(&out), expected);
}

#[test]
fn a_box_in_half_the_pane() {
    let mut screen = pane(3, 8);
    let mut out = Vec::new();
    screen.draw_box(ScreenSide::Left, Fraction::half(), &Some("".to_string()), &mut out);
    let mut expected = row(0, 0, "┌──┐");
    expected.extend(vec![(1, 0, '│'), (1, 3, '│'), (2, 0, '│'), (2, 3, '│')]);
    expected.extend(row(2, 0, "└──┘"));
    assert_eq!(cells(&out), expected);
}

#[test]
fn a_pane_without_rows_gets_no_box() {
    let mut screen = pane(0, 8);
    let mut out = Vec::new();
    screen.draw_box(ScreenSide::Full, Fraction::whole(), &None, &mut out);
    assert_eq!(cells(&out), Vec::new());
}

#[test]
fn a_pane_is_placed_by_its_side_and_width() {
    let mut screen = Screen::new(ScreenSide::Right, Fraction::new(3, 10));
    screen.show(Pair { y: 24, x: 80 });
    assert_eq!(screen.bounds.0, Pair { y: 0, x: 57 });
    assert_eq!(screen.bounds.1, Pair { y: 24, x: 80 });
    assert_eq!(screen.max_y(), 24);
    assert_eq!(screen.max_x(), 80);
    screen.set_pos(ScreenSide::Top, Fraction::half());
    screen.refresh(Pair { y: 24, x: 80 });
    assert_eq!(screen.bounds.0, Pair { y: 0, x: 0 });
    assert_eq!(screen.bounds.1, Pair { y: 12, x: 80 });
}

#[test]
fn the_offset_is_applied_once_however_often_the_pane_is_rewound() {
    let mut screen = Screen::new(ScreenSide::Full, Fraction::whole());
    screen.bounds_offset = Some(youchoose::Bounds(Pair { y: 1, x: 1 }, Pair { y: -1, x: -1 }));
    assert!(screen.can_show(Pair { y: 10, x: 20 }));
    screen.show(Pair { y: 10, x: 20 });
    assert_eq!(screen.bounds, youchoose::Bounds(Pair { y: 1, x: 1 }, Pair { y: 9, x: 19 }));
    screen.reset_pos();
    screen.reset_pos();
    assert_eq!(screen.bounds, youchoose::Bounds(Pair { y: 1, x: 1 }, Pair { y: 9, x: 19 }));
    assert_eq!(screen.pos, Pair { y: 1, x: 1 });
    screen.erase(Pair { y: 10, x: 20 });
    assert_eq!(screen.bounds, youchoose::Bounds(Pair { y: 0, x: 0 }, Pair { y: 10, x: 20 }));
    assert!(screen.can_offset());
    screen.offset_bounds();
    assert_eq!(screen.bounds, youchoose::Bounds(Pair { y: 1, x: 1 }, Pair { y: 9, x: 19 }));
}

#[test]
fn an_offset_that_cannot_be_stored_does_not_fit() {
    let mut screen = Screen::new(ScreenSide::Full, Fraction::whole());
    screen.bounds_offset = Some(youchoose::Bounds(Pair { y: 0, x: 0 }, Pair { y: 2147483647, x: 0 }));
    assert!(screen.can_show(Pair { y: 0, x: 20 }));
    assert!(!screen.can_show(Pair { y: 10, x: 20 }));
}

#[test]
fn edges_above_or_left_of_the_terminal_count_no_rows_or_columns() {
    let mut screen = pane(10, 20);
    screen.bounds = youchoose::Bounds(Pair { y: 0, x: 0 }, Pair { y: -1, x: -5 });
    assert_eq!(screen.max_y(), 0);
    assert_eq!(screen.max_x(), 0);
}
