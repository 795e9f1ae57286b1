use carrier_pigeon::util::convert_case;

#[test]
fn convert_case_conversion() {
    let converted_string = convert_case("HelloWorld".into());
    assert_eq!("Hello World", converted_string);
}

#[test]
fn convert_case_no_conversion() {
    let converted_string = convert_case("Hello".into());
    assert_eq!("Hello", converted_string);
}

#[test]
fn convert_case_tab_names() {
    assert_eq!(convert_case("PathParams".into()), "Path Params");
    assert_eq!(convert_case("QueryParams".into()), "Query Params");
    assert_eq!(convert_case("ABC".into()), "A B C");
    assert_eq!(convert_case("".into()), "");
}
