use sqlited::text::{convert_to_snake_name, find_closest_match, levenshtein_distance, remove_spaces};

#[test]
fn snake_name_of_camel_case() {
    assert_eq!(convert_to_snake_name("UserProfile"), "user_profile");
    assert_eq!(convert_to_snake_name("User"), "user");
    assert_eq!(convert_to_snake_name("already_snake"), "already_snake");
    assert_eq!(convert_to_snake_name(""), "");
}

#[test]
fn edit_distance_values() {
    assert_eq!(levenshtein_distance("kitten", "sitting"), 3);
    assert_eq!(levenshtein_distance("", "abc"), 3);
    assert_eq!(levenshtein_distance("abc", "abc"), 0);
    assert_eq!(levenshtein_distance("flaw", "lawn"), 2);
}

#[test]
fn closest_match_within_three_edits() {
    let valid = ["add_column", "rename_column", "drop_column"];
    assert_eq!(find_closest_match("add_colum", &valid), Some("add_column"));
    assert_eq!(find_closest_match("completely_different", &valid), None);
    assert_eq!(find_closest_match("x", &[]), None);
}

#[test]
fn closest_match_prefers_first_on_tie() {
    let valid = ["ab", "ac"];
    assert_eq!(find_closest_match("a", &valid), Some("ab"));
}

#[test]
fn spaces_removed() {
    let v: Vec<char> = "Option < String >".chars().collect();
    let r: String = remove_spaces(&v).into_iter().collect();
    assert_eq!(r, "Option<String>");
}

#[test]
fn snake_name_of_ascii_names() {
    assert_eq!(convert_to_snake_name("HTTPServer"), "h_t_t_p_server");
    assert_eq!(convert_to_snake_name("aB1C"), "a_b1_c");
    assert_eq!(convert_to_snake_name("lower_case9"), "lower_case9");
}

#[test]
fn edit_distance_laws_on_values() {
    assert_eq!(levenshtein_distance("é", "e"), 1);
    assert_eq!(levenshtein_distance("kitten", "sitting"), levenshtein_distance("sitting", "kitten"));
    let (a, b, c) = ("saturday", "sunday", "monday");
    assert!(levenshtein_distance(a, c) <= levenshtein_distance(a, b) + levenshtein_distance(b, c));
    assert_eq!(levenshtein_distance("abcd", "ab"), 2);
    assert!(levenshtein_distance("abc", "abd") > 0);
}
