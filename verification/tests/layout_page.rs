use initial_setup_pages::layout::{Layout, Message, Page};
use initial_setup_pages::metadata::{read_layout_metadata, LayoutNames};

fn layout(id: i32, path: &str) -> Layout {
    let mut names = LayoutNames::new();
    names.insert("en".to_string(), format!("Layout {path}"));
    Layout { id, names, path: path.to_string(), icon_path: format!("{path}/icon.png") }
}

fn paths(page: &Page) -> Vec<String> {
    page.layouts().iter().map(|l| l.path.clone()).collect()
}

#[test]
fn metadata_names_and_id() {
    let text = "name \"Classic\" de=\"Klassisch\" de_AT=\"Klassisch (AT)\"\nid 3\n";
    let (names, id) = read_layout_metadata(text).expect("valid metadata");
    assert_eq!(id, 3);
    assert_eq!(names.get("en").map(|s| s.as_str()), Some("Classic"));
    assert_eq!(names.get("de").map(|s| s.as_str()), Some("Klassisch"));
    assert_eq!(names.get("de_AT").map(|s| s.as_str()), Some("Klassisch (AT)"));
    assert_eq!(names.get("fr"), None);
}

#[test]
fn metadata_later_entries_win() {
    let text = "name \"First\"\nname \"Second\" fr=\"Deuxième\"\nid 1\nid 7\n";
    let (names, id) = read_layout_metadata(text).expect("valid metadata");
    assert_eq!(names.get("en").map(|s| s.as_str()), Some("Second"));
    assert_eq!(names.get("fr").map(|s| s.as_str()), Some("Deuxième"));
    assert_eq!(id, 7);
}

#[test]
fn metadata_without_id_is_minus_one() {
    let (names, id) = read_layout_metadata("name \"Only a name\"\n").expect("valid metadata");
    assert_eq!(id, -1);
    assert_eq!(names.get("en").map(|s| s.as_str()), Some("Only a name"));
}

#[test]
fn metadata_id_reads_first_argument_only() {
    // properties are skipped, and a non-integer argument leaves the number unset
    let (_, id) = read_layout_metadata("id order=9 5\n").expect("valid metadata");
    assert_eq!(id, 5);
    let (_, id) = read_layout_metadata("id \"five\"\n").expect("valid metadata");
    assert_eq!(id, -1);
    let (_, id) = read_layout_metadata("id 4\nid 2.5\n").expect("valid metadata");
    assert_eq!(id, 4);
}

#[test]
fn metadata_id_is_cut_to_32_bits() {
    let (_, id) = read_layout_metadata("id 4294967298\n").expect("valid metadata");
    assert_eq!(id, 2);
}

#[test]
fn metadata_ignores_non_string_names() {
    let (names, _) = read_layout_metadata("name 5 de=#true\n").expect("valid metadata");
    assert_eq!(names.get("en"), None);
    assert_eq!(names.get("de"), None);
}

#[test]
fn metadata_that_is_not_kdl() {
    assert!(read_layout_metadata("name \"unterminated\n").is_none());
    assert!(Layout::from_metadata("{{{", "/a".to_string(), "/a/icon.png".to_string()).is_none());
}

#[test]
fn layout_from_metadata_keeps_paths() {
    let layout = Layout::from_metadata(
        "id 2\nname \"Modern\"\n",
        "/usr/share/cosmic-layouts/modern".to_string(),
        "/usr/share/cosmic-layouts/modern/icon.png".to_string(),
    )
    .expect("valid metadata");
    assert_eq!(layout.id, 2);
    assert_eq!(layout.path, "/usr/share/cosmic-layouts/modern");
    assert_eq!(layout.icon_path, "/usr/share/cosmic-layouts/modern/icon.png");
}

#[test]
fn display_name_fallbacks() {
    let layout = Layout::from_metadata(
        "name \"Classic\" de=\"Klassisch\" pt_BR=\"Clássico\"\n",
        "/l".to_string(),
        "/l/icon.png".to_string(),
    )
    .unwrap();
    assert_eq!(layout.display_name("pt_BR").map(|s| s.as_str()), Some("Clássico"));
    assert_eq!(layout.display_name("de_AT").map(|s| s.as_str()), Some("Klassisch"));
    assert_eq!(layout.display_name("de").map(|s| s.as_str()), Some("Klassisch"));
    assert_eq!(layout.display_name("fr_FR").map(|s| s.as_str()), Some("Classic"));
    let unnamed = Layout::from_metadata("id 1\n", "/u".to_string(), "/u/icon.png".to_string()).unwrap();
    assert_eq!(unnamed.display_name("en_US"), None);
}

#[test]
fn layouts_are_ordered_stably_by_number() {
    let mut page = Page::new();
    page.set_layouts(vec![layout(3, "a"), layout(1, "b"), layout(3, "c"), layout(2, "d"), layout(-1, "e")]);
    assert_eq!(paths(&page), vec!["e", "b", "d", "a", "c"]);
    // ordering an ordered list keeps it
    let again: Vec<Layout> = vec![layout(-1, "e"), layout(1, "b"), layout(2, "d"), layout(3, "a"), layout(3, "c")];
    page.set_layouts(again);
    assert_eq!(paths(&page), vec!["e", "b", "d", "a", "c"]);
}

#[test]
fn selecting_a_layout() {
    let mut page = Page::default();
    page.set_layouts(vec![layout(2, "x"), layout(1, "y")]);
    assert_eq!(page.update(Message::Selected(1)), Some("x".to_string()));
    assert_eq!(page.selected(), Some(1));
    assert!(page.is_selected(1));
    assert!(!page.is_selected(0));
    assert_eq!(page.update(Message::Selected(2)), None);
    assert_eq!(page.selected(), Some(1));
    assert_eq!(page.update(Message::Selected(0)), Some("y".to_string()));
    assert_eq!(page.selected(), Some(0));
}

#[test]
fn selecting_on_an_empty_page() {
    let mut page = Page::new();
    assert_eq!(page.update(Message::Selected(0)), None);
    assert_eq!(page.selected(), None);
}

#[test]
fn replacing_layouts_keeps_the_choice() {
    let mut page = Page::new();
    page.set_layouts(vec![layout(1, "a"), layout(2, "b")]);
    page.update(Message::Selected(1));
    page.set_layouts(vec![layout(5, "z")]);
    assert_eq!(page.selected(), Some(1));
    assert_eq!(paths(&page), vec!["z"]);
}

#[test]
fn grid_of_three_per_row() {
    let mut page = Page::new();
    assert!(page.grid_rows().is_empty());
    page.set_layouts((0..7).map(|i| layout(i, &i.to_string())).collect());
    assert_eq!(page.grid_rows(), vec![vec![0, 1, 2], vec![3, 4, 5], vec![6]]);
    page.set_layouts((0..3).map(|i| layout(i, &i.to_string())).collect());
    assert_eq!(page.grid_rows(), vec![vec![0, 1, 2]]);
}

#[test]
fn locale_from_lang() {
    let mut page = Page::new();
    assert_eq!(page.locale(), "");
    page.set_locale_from_lang("de_DE.UTF-8");
    assert_eq!(page.locale(), "de_DE");
    page.set_locale_from_lang("C");
    assert_eq!(page.locale(), "C");
}

#[test]
fn layout_page_is_skippable() {
    assert!(Page::new().skippable());
}
