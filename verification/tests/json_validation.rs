use tulip_hook::utils::json_validation::{
    json_convertible_to, json_duplicate, json_equal, json_value_type_to_string, JsonChecker,
    JsonMaybeSomething, JsonNumber, JsonValue,
};

fn text(s: &str) -> JsonValue {
    JsonValue::String(s.to_string())
}

fn number(n: u64) -> JsonValue {
    JsonValue::Number(JsonNumber::PosInt(n))
}

fn sample() -> JsonValue {
    JsonValue::Object(vec![
        ("id".to_string(), text("geode.loader")),
        ("tags".to_string(), JsonValue::Array(vec![text("a"), JsonValue::Null, number(3)])),
        ("early".to_string(), JsonValue::Bool(true)),
    ])
}

#[test]
fn type_names() {
    assert_eq!(json_value_type_to_string(&JsonValue::Null), "null");
    assert_eq!(json_value_type_to_string(&sample()), "object");
    assert_eq!(json_value_type_to_string(&JsonValue::Array(vec![])), "array");
    assert_eq!(json_value_type_to_string(&text("x")), "string");
    assert_eq!(json_value_type_to_string(&JsonValue::Bool(false)), "boolean");
    assert_eq!(json_value_type_to_string(&number(1)), "number");
}

#[test]
fn any_number_stands_for_any_number() {
    let one = number(1);
    let minus = JsonValue::Number(JsonNumber::NegInt(-7));
    let half = JsonValue::Number(JsonNumber::Float(0.5f64.to_bits()));
    assert!(json_convertible_to(&one, &minus));
    assert!(json_convertible_to(&half, &one));
    assert!(!json_convertible_to(&one, &text("1")));
    assert!(!json_convertible_to(&JsonValue::Null, &one));
    assert!(json_convertible_to(&JsonValue::Null, &JsonValue::Null));
    assert!(json_convertible_to(&sample(), &sample()));
    assert!(!json_convertible_to(&JsonValue::Bool(true), &JsonValue::Bool(false)));
}

#[test]
fn equality_goes_through_the_whole_value() {
    assert!(json_equal(&sample(), &sample()));
    // Inside a value a number is only itself.
    let a = JsonValue::Array(vec![number(1)]);
    let b = JsonValue::Array(vec![JsonValue::Number(JsonNumber::Float(1.0f64.to_bits()))]);
    assert!(!json_equal(&a, &b));
    assert!(!json_convertible_to(&a, &b));
    let shorter = JsonValue::Array(vec![]);
    assert!(!json_equal(&a, &shorter));
    let renamed = JsonValue::Object(vec![("x".to_string(), number(1))]);
    let other = JsonValue::Object(vec![("y".to_string(), number(1))]);
    assert!(!json_equal(&renamed, &other));
    let changed = JsonValue::Object(vec![("x".to_string(), number(2))]);
    assert!(!json_equal(&renamed, &changed));
    assert!(!json_equal(&text("a"), &text("b")));
    assert!(!json_equal(&JsonValue::Null, &JsonValue::Bool(false)));
}

#[test]
fn duplicate_is_equal() {
    let copy = json_duplicate(&sample());
    assert!(json_equal(&copy, &sample()));
}

#[test]
fn checks_of_the_right_type_succeed() {
    let yes = JsonValue::Bool(true);
    let maybe = JsonMaybeSomething::new(&yes, "root".to_string(), true);
    assert_eq!(maybe.as_bool().unwrap(), true);
    assert!(maybe.m_has_value);
    assert_eq!(maybe.m_hierarchy, "root");
    let name = text("geode");
    let maybe = JsonMaybeSomething::new(&name, "root.id".to_string(), true);
    assert_eq!(maybe.as_string().unwrap(), "geode");
    assert_eq!(maybe.get_error(), "geode");
    assert!(!maybe.is_error());
    assert_eq!(maybe.into_string().unwrap(), "geode");
    let seven = number(7);
    let maybe = JsonMaybeSomething::new(&seven, "n".to_string(), true);
    assert_eq!(maybe.as_number().unwrap(), JsonNumber::PosInt(7));
    assert_eq!(maybe.get_error(), "");
    let list = JsonValue::Array(vec![number(1), number(2)]);
    let maybe = JsonMaybeSomething::new(&list, "l".to_string(), true);
    assert_eq!(maybe.as_array().unwrap().len(), 2);
    let items = maybe.into_array().unwrap();
    assert!(json_equal(&JsonValue::Array(items), &list));
    let document = sample();
    let maybe = JsonMaybeSomething::new(&document, "d".to_string(), true);
    let members = maybe.into_object().unwrap();
    assert_eq!(members.len(), 3);
    assert_eq!(members[1].0, "tags");
    assert!(json_equal(&JsonValue::Object(members), &document));
}

#[test]
fn checks_of_the_wrong_type_say_what_was_found() {
    let nothing = JsonValue::Null;
    let maybe = JsonMaybeSomething::new(&nothing, "root.settings".to_string(), false);
    assert!(maybe.is_error());
    assert_eq!(
        maybe.as_bool().unwrap_err().to_string(),
        "JSON Error: root.settings: Invalid type \"null\", expected \"boolean\""
    );
    assert_eq!(
        maybe.as_number().unwrap_err().to_string(),
        "JSON Error: root.settings: Invalid type \"null\", expected \"number\""
    );
    assert_eq!(
        maybe.as_string().unwrap_err().to_string(),
        "JSON Error: root.settings: Invalid type \"null\", expected \"string\""
    );
    assert_eq!(
        maybe.as_array().unwrap_err().to_string(),
        "JSON Error: root.settings: Invalid type \"null\", expected \"array\""
    );
    let yes = JsonValue::Bool(true);
    assert_eq!(
        JsonMaybeSomething::new(&yes, "a".to_string(), true).into_array().unwrap_err().to_string(),
        "JSON Error: a: Invalid type \"boolean\", expected \"array\""
    );
    let list = JsonValue::Array(vec![]);
    assert_eq!(
        JsonMaybeSomething::new(&list, "".to_string(), true).into_object().unwrap_err().to_string(),
        "JSON Error: : Invalid type \"array\", expected \"object\""
    );
    let document = sample();
    assert_eq!(
        JsonMaybeSomething::new(&document, "x".to_string(), true)
            .into_string()
            .unwrap_err()
            .to_string(),
        "JSON Error: x: Invalid type \"object\", expected \"string\""
    );
}

#[test]
fn checker_starts_at_the_root() {
    let checker = JsonChecker::new(sample());
    let root = checker.root("mod.json");
    assert_eq!(root.m_hierarchy, "mod.json");
    assert!(root.m_has_value);
    assert!(json_equal(root.m_json, &sample()));
    assert!(json_equal(&checker.m_json, &sample()));
}
