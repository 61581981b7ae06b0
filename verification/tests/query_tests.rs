use worker_route::query::bind;
use worker_route::ErrorCause;
use worker_route::FieldDef;
use worker_route::FieldTy;
use worker_route::PathCaptures;
use worker_route::Query;
use worker_route::TargetShape;

fn field(name: &str, ty: FieldTy, required: bool) -> FieldDef {
    FieldDef { name: name.to_string(), ty, required }
}

fn optional_profile() -> TargetShape {
    TargetShape::Struct {
        name: "OptionalProfile".to_string(),
        fields: vec![
            field("page", FieldTy::Int, false),
            field("sort_by", FieldTy::Text, false),
            field("order_by", FieldTy::Text, false),
        ],
    }
}

fn profile() -> TargetShape {
    TargetShape::Struct {
        name: "Profile".to_string(),
        fields: vec![
            field("page", FieldTy::Int, true),
            field("sort_by", FieldTy::Text, false),
            field("order_by", FieldTy::Text, false),
        ],
    }
}

fn many_fields() -> TargetShape {
    TargetShape::Struct {
        name: "ManyFields".to_string(),
        fields: vec![
            field("age", FieldTy::Int, true),
            field("date", FieldTy::Text, true),
            field("email", FieldTy::Text, true),
            field("first_name", FieldTy::Text, true),
            field("gender", FieldTy::Text, true),
            field("last_name", FieldTy::Text, true),
        ],
    }
}

#[test]
fn no_missing_fields() {
    let url =
        url::Url::parse("http://127.0.0.1:8787/profile?page=1&sort_by=email&order_by=desc")
            .unwrap();
    let params = PathCaptures::new();
    let query = Query::from_query_path(&optional_profile(), &url, &params, true).unwrap();

    let v = query.into_inner();
    assert_eq!(v.text_value("order_by"), Some(String::from("desc")));
    assert_eq!(v.text_value("sort_by"), Some(String::from("email")));
    assert_eq!(v.int_value("page"), Some(1));
}

#[test]
fn optional_fields() {
    let url = url::Url::parse("http://127.0.0.1:8787/profile?page=1").unwrap();
    let params = PathCaptures::new();
    let query = Query::from_query_path(&optional_profile(), &url, &params, true).unwrap();

    let v = query.into_inner();
    assert_eq!(v.text_value("order_by"), None);
    assert_eq!(v.text_value("sort_by"), None);
    assert_eq!(v.int_value("page"), Some(1));
}

#[test]
fn required_fields_ok() {
    let url = url::Url::parse("http://127.0.0.1:8787/profile?page=1").unwrap();
    let params = PathCaptures::new();
    let query = Query::from_query_path(&profile(), &url, &params, true).unwrap();

    let v = query.into_inner();
    assert_eq!(v.text_value("order_by"), None);
    assert_eq!(v.text_value("sort_by"), None);
    assert_eq!(v.int_value("page"), Some(1));
}

#[test]
fn required_fields_err() {
    let url = url::Url::parse("http://127.0.0.1:8787/profile").unwrap();
    let params = PathCaptures::new();
    let query = Query::from_query_path(&profile(), &url, &params, true);

    assert!(query.is_err());
}

#[test]
fn strict_ordered_queries_ok() {
    let url =
        url::Url::parse("http://127.0.0.1:8787/profile?sort_by=last_name&order_by=asc").unwrap();
    let mut params = PathCaptures::new();
    params.insert("page".into(), "10".into());
    let query = Query::from_query_path(&profile(), &url, &params, true).unwrap();
    let query = query.into_inner();
    assert_eq!(query.int_value("page"), Some(10));
    assert_eq!(query.text_value("sort_by").unwrap(), String::from("last_name"));
    assert_eq!(query.text_value("order_by").unwrap(), String::from("asc"));
}

#[test]
fn strict_ordered_queries_err() {
    let url =
        url::Url::parse("http://127.0.0.1:8787/profile?order_by=last_name&sort_by=asc").unwrap();
    let mut params = PathCaptures::new();
    params.insert("page".into(), "10".into());

    let query = Query::from_query_path(&profile(), &url, &params, true);
    assert!(query.is_err());
}

#[test]
fn many_fields_ok() {
    let url = url::Url::parse("http://127.0.0.1:8787/profile?age=20&date=randomdate&first_name=Foo&gender=male&last_name=Bar&email=elon_musk@gmail.com").unwrap();
    let age = 20;
    let date = "randomdate";
    let email = "elon_musk@gmail.com";
    let first_name = "Foo";
    let gender = "male";
    let last_name = "Bar";
    let params = PathCaptures::new();
    let query = Query::from_query_path(&many_fields(), &url, &params, false).unwrap();

    let fields = query.into_inner();
    assert_eq!(fields.int_value("age"), Some(age));
    assert_eq!(fields.text_value("date").unwrap(), date);
    assert_eq!(fields.text_value("email").unwrap(), email);
    assert_eq!(fields.text_value("first_name").unwrap(), first_name);
    assert_eq!(fields.text_value("gender").unwrap(), gender);
    assert_eq!(fields.text_value("last_name").unwrap(), last_name);
}

#[test]
fn many_fields_err() {
    let url = url::Url::parse("http://127.0.0.1:8787/profile?age=20&first_name=Foo&gender=male&last_name=Bar&email=elon_musk@gmail.com").unwrap();
    let params = PathCaptures::new();
    let query = Query::from_query_path(&many_fields(), &url, &params, true);

    assert!(query.is_err());
}

#[test]
fn path_with_query() {
    let url = url::Url::parse("http://127.0.0.1:8787/profile?age=20&date=randomdate&gender=male&last_name=Bar&email=elon_musk@gmail.com").unwrap();
    let mut params = PathCaptures::new();
    params.insert("first_name".into(), "Foo".into());

    let age = 20;
    let date = "randomdate";
    let email = "elon_musk@gmail.com";
    let first_name = "Foo";
    let gender = "male";
    let last_name = "Bar";
    let query = Query::from_query_path(&many_fields(), &url, &params, false).unwrap();
    let fields = query.into_inner();

    assert_eq!(fields.int_value("age"), Some(age));
    assert_eq!(fields.text_value("date").unwrap(), date);
    assert_eq!(fields.text_value("email").unwrap(), email);
    assert_eq!(fields.text_value("first_name").unwrap(), first_name);
    assert_eq!(fields.text_value("gender").unwrap(), gender);
    assert_eq!(fields.text_value("last_name").unwrap(), last_name);
}

#[test]
fn tuple_struct_err() {
    let url = url::Url::parse("http://127.0.0.1:8787/profile").unwrap();
    let params = PathCaptures::new();
    let shape = TargetShape::NewType { name: "Tuple".to_string() };
    let query = Query::from_query_path(&shape, &url, &params, true);
    assert!(query.is_err());
}

#[test]
fn unit_struct_err_panic() {
    let url = url::Url::parse("http://127.0.0.1:8787/profile?Hello=hello").unwrap();
    let params = PathCaptures::new();
    let shape = TargetShape::Unit { name: "Unit".to_string() };
    let q = Query::from_query_path(&shape, &url, &params, true);
    assert!(q.is_err());
}

#[test]
fn enum_struct_err_panic() {
    let url = url::Url::parse("http://127.0.0.1:8787/profile?Hello=hello").unwrap();
    let params = PathCaptures::new();
    let shape = TargetShape::Enum { name: "Enum".to_string() };
    let q = Query::from_query_path(&shape, &url, &params, true);
    assert!(q.is_err());
}

#[test]
fn binding_twice_is_identical() {
    let mut params = PathCaptures::new();
    params.insert("page".into(), "10".into());
    let raw = Some("sort_by=last_name&order_by=asc");
    let first = bind(&profile(), &params, raw, true);
    let second = bind(&profile(), &params, raw, true);
    assert_eq!(first, second);

    let failing = bind(&profile(), &PathCaptures::new(), None, true);
    let failing_again = bind(&profile(), &PathCaptures::new(), None, true);
    assert_eq!(failing, failing_again);
}

#[test]
fn duplicate_field_message() {
    let r = bind(&profile(), &PathCaptures::new(), Some("page=1&page=2"), true);
    let e = r.unwrap_err();
    assert_eq!(e.message, "duplicate query parameters found: `page`");
    assert_eq!(e.status_code, 400);
    assert!(matches!(e.cause, ErrorCause::Query));
}

#[test]
fn duplicate_across_path_and_query() {
    let mut params = PathCaptures::new();
    params.insert("page".into(), "10".into());
    let r = bind(&profile(), &params, Some("page=1&sort_by=x"), true);
    let e = r.unwrap_err();
    assert_eq!(e.message, "duplicate query parameters found: `page`");
}

#[test]
fn unrecognized_field_message() {
    let r = bind(&profile(), &PathCaptures::new(), Some("page=1&foo=2"), true);
    let e = r.unwrap_err();
    assert_eq!(e.message, "unexpected query parameters found: `foo`");
    assert_eq!(e.status_code, 400);
}

#[test]
fn unexpected_field_message() {
    let r = bind(&many_fields(), &PathCaptures::new(), Some("age=20&first_name=Foo&gender=male&last_name=Bar&email=a@b.c"), true);
    let e = r.unwrap_err();
    assert_eq!(e.message, "expected `date`, found `first_name`");
    assert_eq!(e.status_code, 400);
}

#[test]
fn missing_field_message() {
    let r = bind(&profile(), &PathCaptures::new(), None, true);
    let e = r.unwrap_err();
    assert_eq!(e.message, "missing field `page`");
    assert_eq!(e.status_code, 400);
}

#[test]
fn invalid_int_message() {
    let r = bind(&profile(), &PathCaptures::new(), Some("page=abc"), true);
    let e = r.unwrap_err();
    assert_eq!(e.message, "invalid integer value in field `page`");
    assert_eq!(e.status_code, 400);
}

#[test]
fn unsupported_shape_messages() {
    let params = PathCaptures::new();
    let tuple = bind(
        &TargetShape::Tuple { name: "Foo".to_string() },
        &params,
        Some("page=1"),
        true,
    )
    .unwrap_err();
    assert_eq!(tuple.message, "`Foo` tuple struct is not supported for `Query`");
    assert_eq!(tuple.status_code, 500);

    let unit = bind(&TargetShape::Unit { name: "Bar".to_string() }, &params, None, false)
        .unwrap_err();
    assert_eq!(unit.message, "`Bar` unit struct is not supported for `Query`");

    let tagged = bind(&TargetShape::Enum { name: "Baz".to_string() }, &params, None, true)
        .unwrap_err();
    assert_eq!(tagged.message, "`Baz` enum struct is not supported for `Query`");

    let empty = bind(
        &TargetShape::Struct { name: "Empty".to_string(), fields: vec![] },
        &params,
        None,
        true,
    )
    .unwrap_err();
    assert_eq!(empty.message, "`Empty` unit struct is not supported for `Query`");
}

#[test]
fn strict_empty_value_is_absent() {
    let r = bind(&optional_profile(), &PathCaptures::new(), Some("page="), true);
    let v = r.unwrap();
    assert_eq!(v.int_value("page"), None);
}

#[test]
fn lenient_ignores_bare_flags() {
    let r = bind(&optional_profile(), &PathCaptures::new(), Some("page"), false);
    let v = r.unwrap();
    assert_eq!(v.int_value("page"), None);
}

#[test]
fn lenient_reorders_fields() {
    let r = bind(
        &optional_profile(),
        &PathCaptures::new(),
        Some("order_by=desc&page=3"),
        false,
    );
    let v = r.unwrap();
    assert_eq!(v.int_value("page"), Some(3));
    assert_eq!(v.text_value("order_by"), Some(String::from("desc")));
}

#[test]
fn negative_and_large_integers() {
    let shape = TargetShape::Struct {
        name: "Nums".to_string(),
        fields: vec![field("age", FieldTy::Int, true)],
    };
    let v = bind(&shape, &PathCaptures::new(), Some("age=-20"), true).unwrap();
    assert_eq!(v.int_value("age"), Some(-20));

    let v = bind(&shape, &PathCaptures::new(), Some("age=9223372036854775807"), true).unwrap();
    assert_eq!(v.int_value("age"), Some(i64::MAX));

    let e = bind(&shape, &PathCaptures::new(), Some("age=9223372036854775808"), true);
    assert!(e.is_err());
}

#[test]
fn path_capture_values_are_trimmed() {
    let shape = TargetShape::Struct {
        name: "Named".to_string(),
        fields: vec![field("name", FieldTy::Text, true)],
    };
    let mut params = PathCaptures::new();
    params.insert("name".into(), " Foo ".into());
    let v = bind(&shape, &params, None, true).unwrap();
    assert_eq!(v.text_value("name"), Some(String::from("Foo")));
}

#[test]
fn later_capture_shadows_earlier() {
    let mut params = PathCaptures::new();
    params.insert("page".into(), "1".into());
    params.insert("page".into(), "2".into());
    let v = bind(&profile(), &params, None, true).unwrap();
    assert_eq!(v.int_value("page"), Some(2));
}
