use media_pipeline::grouping::{
    count_by_first_letter, entities_by_group, first_char, generate_group_name,
    generate_group_name_twice,
};

#[test]
fn first_char_plain_ascii() {
    assert_eq!(first_char("hello"), 'h');
    assert_eq!(first_char("World"), 'W');
    assert_eq!(first_char("42nd Street"), '4');
}

#[test]
fn first_char_empty_is_hash() {
    assert_eq!(first_char(""), '#');
}

#[test]
fn first_char_transliterates() {
    // the transliteration, not the raw character, decides the group
    assert_eq!(first_char("Æneid"), 'A');
    assert_eq!(first_char("étude"), 'e');
    assert_eq!(first_char("北亰"), 'B');
}

#[test]
fn group_name_upper_cases_lower_letters() {
    assert_eq!(generate_group_name("apple"), "A");
    assert_eq!(generate_group_name("étude"), "E");
}

#[test]
fn group_name_keeps_upper_letters() {
    assert_eq!(generate_group_name("Banana"), "B");
    assert_eq!(generate_group_name("Æneid"), "A");
}

#[test]
fn group_name_digits_and_symbols_are_hash() {
    assert_eq!(generate_group_name("42nd Street"), "#");
    assert_eq!(generate_group_name("!wow"), "#");
    assert_eq!(generate_group_name(""), "#");
}

#[test]
fn first_char_delete_character_is_dropped() {
    // the delete character is not transliterated to itself: alone it leaves
    // an empty transliteration, and in the middle of a word it vanishes
    assert_eq!(first_char("\u{7f}"), '#');
    assert_eq!(first_char("a\u{7f}b"), 'a');
}

#[test]
fn group_name_is_idempotent() {
    for name in ["apple", "Banana", "42nd Street", "", "étude", "北亰", "!wow", "\u{7f}"] {
        let once = generate_group_name(name);
        let twice = generate_group_name(&once);
        assert_eq!(twice, once);
    }
}

#[test]
fn group_name_twice_returns_the_fixed_point() {
    let (once, twice) = generate_group_name_twice("étude");
    assert_eq!(once, "E");
    assert_eq!(twice, "E");
    let (once, twice) = generate_group_name_twice("42nd");
    assert_eq!(once, "#");
    assert_eq!(twice, "#");
}

#[test]
fn count_by_first_letter_tallies_groups() {
    let names: Vec<String> = vec![
        "apple".to_string(),
        "Avocado".to_string(),
        "banana".to_string(),
        "42nd".to_string(),
        "étude".to_string(),
        "Ember".to_string(),
    ];
    let mut counts = count_by_first_letter(&names);
    counts.sort();
    assert_eq!(counts, vec![('#', 1), ('A', 2), ('B', 1), ('E', 2)]);
}

#[test]
fn entities_by_group_orders_and_filters() {
    let groups = vec!["A".to_string(), "#".to_string(), "Z".to_string()];
    let entities = vec![
        (1, "A".to_string()),
        (2, "B".to_string()),
        (3, "#".to_string()),
        (4, "A".to_string()),
    ];
    let r = entities_by_group(&groups, &entities);
    assert_eq!(
        r,
        vec![
            ("A".to_string(), vec![1, 4]),
            ("#".to_string(), vec![3]),
            ("Z".to_string(), vec![]),
        ]
    );
}

#[test]
fn count_by_first_letter_empty_input() {
    let names: Vec<String> = Vec::new();
    let counts = count_by_first_letter(&names);
    assert!(counts.is_empty());
}
