use imagequick::text::{
    chars_of, fold_code, has_prefix, has_suffix_ignoring_case, last_segment_of, name_precedes,
    parent_of,
};

fn chars(s: &str) -> Vec<char> {
    s.chars().collect()
}

#[test]
fn chars_of_keeps_every_character() {
    assert_eq!(chars_of("a/é.jpg"), vec!['a', '/', 'é', '.', 'j', 'p', 'g']);
    assert_eq!(chars_of(""), Vec::<char>::new());
}

#[test]
fn fold_code_lowers_ascii_capitals_only() {
    assert_eq!(fold_code('A'), 'a' as u32);
    assert_eq!(fold_code('Z'), 'z' as u32);
    assert_eq!(fold_code('a'), 'a' as u32);
    assert_eq!(fold_code('@'), '@' as u32);
    assert_eq!(fold_code('['), '[' as u32);
    assert_eq!(fold_code('É'), 'É' as u32);
}

#[test]
fn suffix_is_found_in_any_case() {
    assert!(has_suffix_ignoring_case(&chars("IMG_1.JPG"), &chars(".jpg")));
    assert!(has_suffix_ignoring_case(&chars("img.JpG"), &chars(".jpg")));
    assert!(has_suffix_ignoring_case(&chars(".jpg"), &chars(".jpg")));
    assert!(!has_suffix_ignoring_case(&chars("jpg"), &chars(".jpg")));
    assert!(!has_suffix_ignoring_case(&chars("a.jpg.txt"), &chars(".jpg")));
    assert!(has_suffix_ignoring_case(&chars("anything"), &chars("")));
}

#[test]
fn prefix_is_exact() {
    assert!(has_prefix(&chars("/thumbnails/a"), &chars("/thumbnails")));
    assert!(has_prefix(&chars("abc"), &chars("")));
    assert!(!has_prefix(&chars("/Thumbnails/a"), &chars("/thumbnails")));
    assert!(!has_prefix(&chars("/thumb"), &chars("/thumbnails")));
}

#[test]
fn names_are_ordered_by_code_point() {
    assert!(name_precedes(&chars("a"), &chars("b")));
    assert!(!name_precedes(&chars("b"), &chars("a")));
    assert!(name_precedes(&chars("a"), &chars("a")));
    assert!(name_precedes(&chars("B"), &chars("a")));
    assert!(!name_precedes(&chars("a"), &chars("B")));
    assert!(name_precedes(&chars("ab"), &chars("abc")));
    assert!(!name_precedes(&chars("abc"), &chars("ab")));
    assert!(name_precedes(&chars(""), &chars("a")));
    assert!(name_precedes(&chars("z"), &chars("é")));
}

#[test]
fn name_order_agrees_with_str_order() {
    let names = ["", "a", "A", "ab", "b", "a.jpg", "é", "10", "9", "a b"];
    for a in names {
        for b in names {
            assert_eq!(name_precedes(&chars(a), &chars(b)), a <= b, "{a:?} {b:?}");
        }
    }
}

#[test]
fn last_segment_follows_the_last_separator() {
    assert_eq!(last_segment_of("/Volumes/SD/DCIM/a.jpg"), "a.jpg");
    assert_eq!(last_segment_of("a.jpg"), "a.jpg");
    assert_eq!(last_segment_of("/Volumes/SD/"), "");
    assert_eq!(last_segment_of(""), "");
    assert_eq!(last_segment_of("/"), "");
    assert_eq!(last_segment_of("/été/père.png"), "père.png");
}

#[test]
fn parent_precedes_the_last_separator() {
    assert_eq!(parent_of("/cache/DCIM/a.jpg"), "/cache/DCIM");
    assert_eq!(parent_of("/cache/DCIM/"), "/cache/DCIM");
    assert_eq!(parent_of("a.jpg"), "");
    assert_eq!(parent_of("/a.jpg"), "");
    assert_eq!(parent_of(""), "");
    assert_eq!(parent_of("/cache/DCIM/a.jpg.part"), parent_of("/cache/DCIM/a.jpg"));
}
