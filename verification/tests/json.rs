use rhc_bot::json::{rendered, Json};
use rhc_bot::welcome::welcome_text;

fn sample() -> Json {
    Json::object()
        .with("id", Json::Int(-7))
        .with("big", Json::Number("1e3".to_owned()))
        .with("ok", Json::Bool(true))
        .with("name", Json::text("Alice"))
        .with("list", Json::array(vec![Json::Int(1), Json::Null]))
}

#[test]
fn members_are_found_by_name() {
    let v = sample();
    assert_eq!(v.field("id").as_i64(), Some(-7));
    assert_eq!(v.field("big").as_i64(), None);
    assert_eq!(v.field("id").i64_or(3), -7);
    assert_eq!(v.field("none").i64_or(3), 3);
    assert!(v.field("ok").is_true());
    assert!(!v.field("id").is_true());
    assert!(!Json::Bool(false).is_true());
    assert_eq!(v.field("name").as_str(), Some("Alice"));
    assert_eq!(v.field("ok").as_str(), None);
    assert_eq!(v.field("name").str_or_empty(), "Alice");
    assert_eq!(v.field("id").str_or_empty(), "");
    assert!(v.field("name").is_text("Alice"));
    assert!(!v.field("name").is_text("Bob"));
    assert!(!v.field("id").is_text("-7"));
    assert!(matches!(v.field("name").field("first"), Json::Null));
}

#[test]
fn items_are_counted() {
    let v = sample();
    let list = v.field("list");
    assert_eq!(list.item_count(), 2);
    assert_eq!(list.item(0).as_i64(), Some(1));
    assert_eq!(v.field("name").item_count(), 0);
    assert_eq!(v.into_field("list").into_items().len(), 2);
    assert!(Json::Null.into_items().is_empty());
    assert!(matches!(sample().into_field("none"), Json::Null));
}

#[test]
fn the_first_of_several_members_counts() {
    let v = Json::Object(vec![
        ("a".to_owned(), Json::Int(1)),
        ("a".to_owned(), Json::Int(2)),
    ]);
    assert_eq!(v.field("a").as_i64(), Some(1));
    assert_eq!(v.into_field("a").as_i64(), Some(1));
}

fn member(first: &str, last: &str, username: &str) -> Json {
    Json::object()
        .with("first_name", Json::text(first))
        .with("last_name", Json::text(last))
        .with("username", Json::text(username))
}

#[test]
fn welcome_supports_fullname_and_newlines() {
    let member = member("Alice", "Chen", "alice");
    assert_eq!(
        welcome_text("Hi !\n{fullname}\n\nWelcome", &member),
        "Hi !\nAlice Chen\n\nWelcome"
    );
}

#[test]
fn a_member_is_called_by_what_is_known() {
    assert_eq!(welcome_text("{fullname}", &member("Alice", "", "alice")), "Alice");
    assert_eq!(welcome_text("{fullname}", &member("", "Chen", "alice")), "Chen");
    assert_eq!(welcome_text("{fullname}", &member("", "", "alice")), "alice");
    assert_eq!(welcome_text("<{fullname}>", &Json::object()), "<>");
    assert_eq!(
        welcome_text("{fullname}, {fullname}!", &member("A", "B", "")),
        "A B, A B!"
    );
}

#[test]
fn a_template_without_a_name_stays() {
    assert_eq!(welcome_text("{full name}", &member("A", "B", "c")), "{full name}");
}

#[test]
fn values_are_written_as_json() {
    assert_eq!(rendered(&Json::Null), "null");
    assert_eq!(rendered(&Json::text("a\"\n中")), r#""a\"\n中""#);
    assert_eq!(
        rendered(&sample()),
        r#"{"big":1000.0,"id":-7,"list":[1,null],"name":"Alice","ok":true}"#
    );
    assert_eq!(rendered(&Json::array(vec![])), "[]");
    assert_eq!(rendered(&Json::object()), "{}");
    assert_eq!(rendered(&Json::Number("18446744073709551615".to_owned())), "18446744073709551615");
}
