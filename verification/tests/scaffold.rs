use ember::number::{decimal_chars, read_digits, read_integer};
use ember::scaffold::{find_id, parse_entities, parse_entity_spec, to_snake_case, EntitySpec, FieldSpec};
use ember::text::{
    chars_of, find_char, find_from, has_prefix, has_suffix, is_space, lowercase_chars, same_chars,
    slice_of, split_chars, str_eq, string_of, trim_chars,
};

fn chars(s: &str) -> Vec<char> {
    s.chars().collect()
}

fn text(v: Vec<char>) -> String {
    v.into_iter().collect()
}

fn names(spec: &EntitySpec) -> Vec<(String, String)> {
    spec.fields.iter().map(|f| (f.name.clone(), f.ty.clone())).collect()
}

fn pair(a: &str, b: &str) -> (String, String) {
    (a.to_string(), b.to_string())
}

#[test]
fn entity_spec_reads_name_and_fields() {
    let spec = parse_entity_spec("Book:id:i64,title:String,author:String").unwrap();
    assert_eq!(spec.name, "Book");
    assert_eq!(
        names(&spec),
        vec![pair("id", "i64"), pair("title", "String"), pair("author", "String")]
    );
}

#[test]
fn entity_spec_trims_and_skips_blank_fields() {
    let spec = parse_entity_spec("  Book : title : String , , id:u32 ,").unwrap();
    assert_eq!(spec.name, "Book");
    assert_eq!(names(&spec), vec![pair("title", "String"), pair("id", "u32")]);
}

#[test]
fn entity_spec_without_id_gets_one_in_front() {
    let spec = parse_entity_spec("Tag:label:String").unwrap();
    assert_eq!(names(&spec), vec![pair("id", "i64"), pair("label", "String")]);
    assert_eq!(spec.id_field().name, "id");
}

#[test]
fn entity_spec_keeps_the_colons_of_a_type() {
    let spec = parse_entity_spec("Tag:id:std::string::String").unwrap();
    assert_eq!(names(&spec), vec![pair("id", "std::string::String")]);
}

#[test]
fn entity_spec_says_what_is_wrong() {
    let e = |s: &str| parse_entity_spec(s).unwrap_err();
    assert_eq!(e("Book"), "missing fields (expected Name:field:type,...)");
    assert_eq!(e(""), "missing fields (expected Name:field:type,...)");
    assert_eq!(e(":id:i64"), "entity name cannot be empty");
    assert_eq!(e("  :title"), "entity name cannot be empty");
    assert_eq!(e("Book:"), "at least one field is required");
    assert_eq!(e("Book: , ,"), "at least one field is required");
    assert_eq!(e("Book:title"), "field type missing");
    assert_eq!(e("Book:id:i64, title "), "field type missing");
    assert_eq!(e("Book:title:"), "invalid field definition: title:");
    assert_eq!(e("Book: :String ,x:y"), "invalid field definition: :String");
    assert_eq!(e("Book:a:b,  c : ,d"), "invalid field definition: c :");
}

#[test]
fn entities_are_read_in_order() {
    assert!(parse_entities(&vec![]).unwrap().is_empty());
    let specs = parse_entities(&vec!["A:x:u8".to_string(), "B:id:i64".to_string()]).unwrap();
    assert_eq!(specs.len(), 2);
    assert_eq!(specs[0].name, "A");
    assert_eq!(specs[1].name, "B");
    let e = parse_entities(&vec!["A:x:u8".to_string(), "B".to_string(), "C:".to_string()])
        .unwrap_err();
    assert_eq!(e, "invalid --entity 'B': missing fields (expected Name:field:type,...)");
}

#[test]
fn snake_case_puts_an_underscore_before_upper_case() {
    assert_eq!(to_snake_case("BookController"), "book_controller");
    assert_eq!(to_snake_case("Book"), "book");
    assert_eq!(to_snake_case("book"), "book");
    assert_eq!(to_snake_case("HTTPServer"), "h_t_t_p_server");
    assert_eq!(to_snake_case("aB"), "a_b");
    assert_eq!(to_snake_case(""), "");
    assert_eq!(to_snake_case("ÉtéBook"), "Été_book");
    assert_eq!(to_snake_case("aÉ"), "a_É");
    assert_eq!(to_snake_case("a1_b"), "a1_b");
}

#[test]
fn entity_names_are_derived() {
    let spec = |name: &str| EntitySpec {
        name: name.to_string(),
        fields: vec![FieldSpec { name: "key".to_string(), ty: "u8".to_string() }],
    };
    assert_eq!(spec("BookStore").snake_name(), "book_store");
    assert_eq!(spec("BookStore").plural_snake_name(), "book_stores");
    assert_eq!(spec("Address").plural_snake_name(), "addresses");
    assert_eq!(spec("S").plural_snake_name(), "ses");
    assert_eq!(spec("").plural_snake_name(), "s");
    assert_eq!(spec("Book").id_field().name, "key");
}

#[test]
fn id_field_is_the_first_named_id() {
    let field = |n: &str, t: &str| FieldSpec { name: n.to_string(), ty: t.to_string() };
    let fields = vec![field("a", "u8"), field("id", "u16"), field("id", "u32")];
    assert_eq!(find_id(&fields), 1);
    let spec = EntitySpec { name: "E".to_string(), fields };
    assert_eq!(spec.id_field().ty, "u16");
    assert_eq!(find_id(&vec![field("a", "u8")]), 1);
    assert_eq!(find_id(&vec![]), 0);
}

#[test]
fn text_helpers_agree_with_the_standard_library() {
    for s in ["", "a", "héllo wörld", "a,b,,c", ",", "  x  ", "\u{3000}x\u{a0}", "ab=cd=ef"] {
        let v = chars_of(s);
        assert_eq!(v, chars(s));
        assert_eq!(string_of(&v), s);
        assert_eq!(text(trim_chars(&v)), s.trim());
        assert_eq!(text(lowercase_chars(&v)), s.to_ascii_lowercase());
        let pieces: Vec<String> = split_chars(&v, ',').into_iter().map(text).collect();
        let expected: Vec<String> = s.split(',').map(|p| p.to_string()).collect();
        assert_eq!(pieces, expected);
        assert_eq!(find_char(&v, '='), s.chars().position(|c| c == '=').unwrap_or(v.len()));
        for p in ["", "a", "h", "ab", "ab=", "d=ef", "x  ", "\u{3000}"] {
            assert_eq!(has_prefix(&v, &chars(p)), s.starts_with(p));
            assert_eq!(has_suffix(&v, &chars(p)), s.ends_with(p));
            assert_eq!(same_chars(&v, &chars(p)), s == p);
            assert_eq!(str_eq(s, p), s == p);
        }
    }
    assert_eq!(find_from(&chars("a=b=c"), 2, '='), 3);
    assert_eq!(find_from(&chars("a=b=c"), 4, '='), 5);
    assert_eq!(slice_of(&chars("abcdef"), 2, 4), chars("cd"));
}

#[test]
fn white_space_is_what_the_standard_library_says() {
    for n in 0..0x11_0000u32 {
        if let Some(c) = char::from_u32(n) {
            assert_eq!(is_space(c), c.is_whitespace(), "at U+{:04X}", n);
        }
    }
}

#[test]
fn numbers_are_read_and_printed() {
    assert_eq!(read_digits(&chars("x123"), 1), Some(123));
    assert_eq!(read_digits(&chars("x123"), 4), None);
    assert_eq!(read_digits(&chars("12a"), 0), None);
    assert_eq!(read_digits(&chars("18446744073709551615"), 0), Some(u64::MAX));
    assert_eq!(read_digits(&chars("18446744073709551616"), 0), None);
    assert_eq!(read_integer(&chars("-5"), true, -10, 10), Some((true, 5)));
    assert_eq!(read_integer(&chars("-11"), true, -10, 10), None);
    assert_eq!(read_integer(&chars("11"), true, -10, 10), None);
    assert_eq!(read_integer(&chars("-0"), true, -10, 10), Some((false, 0)));
    assert_eq!(read_integer(&chars("-5"), false, 0, 10), None);
    assert_eq!(read_integer(&chars("+5"), false, 0, 10), Some((false, 5)));
    assert_eq!(read_integer(&chars("5"), true, 6, 10), None);
    assert_eq!(read_integer(&chars("6"), false, 6, 10), Some((false, 6)));
    assert_eq!(read_integer(&chars("-3"), true, -2, 10), None);
    assert_eq!(read_integer(&chars("0"), true, 1, 10), None);
    assert_eq!(read_integer(&chars(""), true, -1, 1), None);
    for n in [0u64, 7, 10, 99, 100, 65535, 1234567890, u64::MAX] {
        assert_eq!(text(decimal_chars(n)), n.to_string());
        assert_eq!(read_digits(&decimal_chars(n), 0), Some(n));
    }
}
