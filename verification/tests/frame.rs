use youchoose::frame::replace_all;
use youchoose::frame::FrameSize;
use youchoose::frame::Item;
use youchoose::Frame;
use youchoose::Style;

fn line(text: &str) -> Item {
    Item::new(text, 0, String::new(), &"-".to_string())
}

#[test]
fn a_line_is_the_icon_the_prefix_and_the_text() {
    let item = Item::new(&42, 3, "no. ".to_string(), &"-".to_string());
    assert_eq!(item.repr, "- no. 42");
    assert_eq!(item.index, 3);
    assert_eq!(item.icon, "-");
    assert_eq!(item.to_text(), "- no. 42");
}

#[test]
fn a_line_from_a_string_has_the_fixed_icon_and_prefix() {
    let item = Item::from_string("value");
    assert_eq!(item.repr, "‚ùØ pre. value");
    assert_eq!(item.icon, "‚ùØ");
    assert_eq!(item.index, 0);
}

#[test]
fn choosing_replaces_the_icon_wherever_it_stands() {
    let mut item = line("x-y");
    assert_eq!(item.repr, "- x-y");
    item.choose_icon("+".to_string());
    assert_eq!(item.repr, "+ x+y");
    assert_eq!(item.icon, "-");
    item.choose_icon("*".to_string());
    assert_eq!(item.repr, "+ x+y");
}

#[test]
fn replacing_agrees_with_the_standard_library() {
    let cases = [
        ("- x-y", "-", "+"),
        ("aaa", "aa", "b"),
        ("aaaa", "aa", "b"),
        ("abc", "", "-"),
        ("", "", "-"),
        ("", "a", "-"),
        ("abc", "abcd", "-"),
        ("abcabc", "abc", ""),
        ("❯ one ❯ two", "❯", "->"),
        ("ababab", "aba", "x"),
        ("hello", "l", "ll"),
    ];
    for (text, from, to) in cases {
        assert_eq!(replace_all(text, from, to), text.replace(from, to));
    }
}

#[test]
fn replacing_finds_occurrences_from_left_to_right() {
    assert_eq!(replace_all("aaa", "aa", "b"), "ba");
    assert_eq!(replace_all("abc", "", "-"), "-a-b-c-");
}

#[test]
fn a_new_frame_shows_as_many_lines_as_the_terminal_has_rows() {
    let frame = Frame::new(FrameSize::new(24, 80));
    assert!(frame.cache.is_empty());
    assert_eq!(frame.range, (0, 24));
    assert_eq!(frame.height(), 24);
    assert_eq!(frame.width(), 80);
}

#[test]
fn a_negative_height_counts_down_from_the_largest_index() {
    let frame = Frame::new(FrameSize::new(-1, 80));
    assert_eq!(frame.range, (0, usize::MAX));
    let frame = Frame::new(FrameSize::new(-3, 80));
    assert_eq!(frame.range, (0, usize::MAX - 2));
}

#[test]
fn a_frame_draws_the_lines_of_its_range_one_to_a_row() {
    let mut frame = Frame::new(FrameSize::new(3, 80));
    for text in ["a", "b", "c", "d", "e"] {
        frame.send(line(text));
    }
    let spans = frame.refresh(4, 70);
    assert_eq!(frame.height(), 4);
    assert_eq!(frame.width(), 70);
    let drawn: Vec<(i32, i32, &str, Style)> =
        spans.iter().map(|span| (span.y, span.x, span.text.as_str(), span.style)).collect();
    assert_eq!(
        drawn,
        vec![
            (0, 0, "- a", Style::Plain),
            (1, 0, "- b", Style::Plain),
            (2, 0, "- c", Style::Plain),
        ]
    );
    frame.range = (3, 9);
    let spans = frame.refresh(4, 70);
    let drawn: Vec<(i32, &str)> = spans.iter().map(|span| (span.y, span.text.as_str())).collect();
    assert_eq!(drawn, vec![(0, "- d"), (1, "- e")]);
    frame.range = (7, 9);
    assert!(frame.refresh(4, 70).is_empty());
}

#[test]
fn scrolling_moves_the_range_towards_the_first_line() {
    let mut frame = Frame::new(FrameSize::new(3, 80));
    frame.scroll(None);
    assert_eq!(frame.range, (0, 3));
    frame.range = (2, 5);
    frame.scroll(None);
    assert_eq!(frame.range, (1, 4));
    frame.scroll(Some(2));
    assert_eq!(frame.range, (1, 4));
    frame.scroll(Some(1));
    assert_eq!(frame.range, (0, 3));
    frame.scroll(Some(-2));
    assert_eq!(frame.range, (2, 5));
    frame.scroll(Some(0));
    assert_eq!(frame.range, (2, 5));
}

#[test]
fn a_frame_says_whether_it_can_be_drawn_and_scrolled() {
    let mut frame = Frame::new(FrameSize::new(3, 80));
    assert!(frame.refreshable());
    assert!(frame.scrollable(None));
    assert!(frame.scrollable(Some(-5)));
    frame.range = (usize::MAX - 1, usize::MAX);
    assert!(frame.refreshable());
    assert!(frame.scrollable(Some(1)));
    assert!(frame.scrollable(Some(0)));
    assert!(!frame.scrollable(Some(-1)));
}
