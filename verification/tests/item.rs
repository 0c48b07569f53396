use youchoose::DispFunc;
use youchoose::Item;

#[test]
fn a_new_item_is_not_chosen_and_has_no_preview() {
    let item = Item::new(&7, "-", "+");
    assert_eq!(item.repr, "7");
    assert_eq!(item.string(), "7");
    assert!(!item.chosen());
    assert!(item.preview.is_none());
    assert_eq!(item.icon(), "-");
}

#[test]
fn selecting_flips_the_flag_and_the_icon() {
    let mut item = Item::new(&"entry", "-", "+");
    item.select();
    assert!(item.chosen());
    assert_eq!(item.icon(), "+");
    item.select();
    assert!(!item.chosen());
    assert_eq!(item.icon(), "-");
    assert_eq!(item.repr, "entry");
}

#[test]
fn an_item_reads_as_its_icon_and_its_text() {
    let mut item = Item::new(&"entry", "❯", "*");
    assert_eq!(item.to_text(), "❯ entry");
    item.select();
    assert_eq!(item.to_text(), "* entry");
}

#[test]
fn the_preview_is_what_the_function_makes_of_the_entry() {
    let double = DispFunc::new(|number: u32| (2 * number).to_string());
    assert_eq!(double.eval(21), "42");
    let mut item = Item::new(&21u32, "-", "+");
    item.preview(21u32, &double);
    assert_eq!(item.preview, Some("42".to_string()));
    assert_eq!(item.repr, "21");
    assert!(!item.chosen());
}
