use dcss_api::{add_i32_to_usize, extract_param};

#[test]
fn test_add_i32_to_usize() {
    let test_val = add_i32_to_usize(10i32, 10usize);
    assert_eq!(test_val, 20);
    let test_val = add_i32_to_usize(50, 50);
    assert_eq!(test_val, 100);
    let test_val = add_i32_to_usize(-50, 50);
    assert_eq!(test_val, 0);
}

#[test]
fn test_extract_param() {
    let text = "Base accuracy: +3  Base damage: 8  Base attack delay: 1.4";

    // Normal
    let test_val = extract_param(text, "Base damage: ", &vec![' ', '\n']);
    assert_eq!(test_val, Some("8".to_string()));

    let test_val = extract_param(text, "Base attack delay: ", &vec![' ', '\n']);
    assert_eq!(test_val, Some("1.4".to_string()));

    let test_val = extract_param(text, "Base accuracy: ", &vec![' ', '\n']);
    assert_eq!(test_val, Some("+3".to_string()));

    // String not found
    let test_val = extract_param(text, "Base coolness: ", &vec![' ', '\n']);
    assert_eq!(test_val, None);

    // End char not found
    let test_val = extract_param(text, "Base accuracy: ", &vec!['X', 'Y']);
    assert_eq!(test_val, None);
}

#[test]
fn extract_param_trims_white_space() {
    let test_val = extract_param("Name:   padded  \tvalue\n", "Name:", &vec!['\n']);
    assert_eq!(test_val, Some("padded  \tvalue".to_string()));
}

#[test]
fn extract_param_stops_at_end_of_text() {
    let test_val = extract_param("Level: 12", "Level: ", &vec!['\n']);
    assert_eq!(test_val, Some("12".to_string()));
}

#[test]
fn add_negative_offset_exactly() {
    assert_eq!(add_i32_to_usize(-1, 250), 249);
    assert_eq!(add_i32_to_usize(i32::MIN, 1usize << 40), (1usize << 40) - (1usize << 31));
}
