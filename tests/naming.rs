use bt2_codegen::naming::to_camel_case;

#[test]
fn camel_case() {
    assert_eq!(to_camel_case(""), "");
    assert_eq!(to_camel_case("_"), "");
    assert_eq!(to_camel_case("x"), "X");
    assert_eq!(to_camel_case("x_"), "X");
    assert_eq!(to_camel_case("x__"), "X");
    assert_eq!(to_camel_case("__x_"), "X");
    assert_eq!(to_camel_case("a_b"), "AB");
    assert_eq!(to_camel_case("aBCD_efgh"), "AbcdEfgh");
    assert_eq!(to_camel_case("abcd_efgh_ijkl"), "AbcdEfghIjkl");
}

#[test]
fn camel_case_of_library_names() {
    assert_eq!(to_camel_case("bt_message_iterator"), "BtMessageIterator");
    assert_eq!(to_camel_case("BT_FOO"), "BtFoo");
    assert_eq!(to_camel_case("x1_y2"), "X1Y2");
}
