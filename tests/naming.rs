use naorm::naming::to_snake_case;

#[test]
fn snake_case_of_struct_name() {
    assert_eq!(to_snake_case("MyStruct"), "my_struct");
}

#[test]
fn snake_case_separates_each_capital() {
    assert_eq!(to_snake_case("ABCField"), "a_b_c_field");
}

#[test]
fn snake_case_keeps_lowercase_text() {
    assert_eq!(to_snake_case("already_snake"), "already_snake");
    assert_eq!(to_snake_case(""), "");
}

#[test]
fn snake_case_after_underscore_adds_none() {
    assert_eq!(to_snake_case("Book_Note"), "book_note");
    assert_eq!(to_snake_case("BookNote"), "book_note");
}

#[test]
fn snake_case_is_idempotent() {
    for s in ["MyStruct", "ABCField", "x_Y", "HTTPServer2Go", "a__B", "Ünïcode", ""] {
        let once = to_snake_case(s);
        assert_eq!(to_snake_case(&once), once);
    }
}

#[test]
fn snake_case_lowers_non_ascii_capitals() {
    assert_eq!(to_snake_case("ÀB"), "à_b");
}
