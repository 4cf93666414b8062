use rustpl::error::TemplateError;
use rustpl::vars::{apply_assignments, parse_key_value, value_or_text};
use serde_json::Value;

fn number(n: i64) -> Value {
    Value::from(n)
}

fn string(s: &str) -> Value {
    Value::String(s.to_string())
}

#[test]
fn assignment_of_a_number_is_a_number() {
    let (key, value) = parse_key_value("key=1").unwrap();
    assert_eq!(key, "key");
    assert_eq!(value, number(1));
    assert!(value.is_number());
}

#[test]
fn assignment_of_a_word_is_a_string() {
    let (key, value) = parse_key_value("key=hello").unwrap();
    assert_eq!(key, "key");
    assert_eq!(value, string("hello"));
}

#[test]
fn assignment_of_nothing_is_the_empty_string() {
    let (key, value) = parse_key_value("key=").unwrap();
    assert_eq!(key, "key");
    assert_eq!(value, string(""));
}

#[test]
fn assignment_without_equals_sign_is_refused() {
    match parse_key_value("key") {
        Err(TemplateError::InvalidArgument(text)) => {
            assert_eq!(text, "Invalid key=value format: 'key'. Expected format: KEY=VALUE")
        }
        other => panic!("{:?}", other),
    }
    match parse_key_value("") {
        Err(TemplateError::InvalidArgument(text)) => {
            assert_eq!(text, "Invalid key=value format: ''. Expected format: KEY=VALUE")
        }
        other => panic!("{:?}", other),
    }
}

#[test]
fn assignment_without_key_is_refused() {
    for text in ["=value", "  =value", "\t\u{a0}\u{3000}=1", "="] {
        match parse_key_value(text) {
            Err(TemplateError::InvalidArgument(message)) => {
                assert_eq!(message, "Key cannot be empty in key=value pair")
            }
            other => panic!("{:?} for {:?}", other, text),
        }
    }
}

#[test]
fn assignment_key_is_trimmed_and_value_is_not() {
    let (key, value) = parse_key_value("  my key \t= padded ").unwrap();
    assert_eq!(key, "my key");
    assert_eq!(value, string(" padded "));
}

#[test]
fn assignment_is_cut_at_the_first_equals_sign() {
    let (key, value) = parse_key_value("a=b=c").unwrap();
    assert_eq!(key, "a");
    assert_eq!(value, string("b=c"));
}

#[test]
fn assignment_of_json_literals_is_structured() {
    assert_eq!(parse_key_value("k=true").unwrap().1, Value::Bool(true));
    assert_eq!(parse_key_value("k=null").unwrap().1, Value::Null);
    assert_eq!(parse_key_value("k=-7").unwrap().1, number(-7));
    assert_eq!(parse_key_value("k=\"quoted\"").unwrap().1, string("quoted"));
    assert_eq!(parse_key_value("k=[1,2]").unwrap().1, Value::Array(vec![number(1), number(2)]));
    let object = parse_key_value("k={\"a\":1}").unwrap().1;
    assert_eq!(object.get("a"), Some(&number(1)));
    assert_eq!(object.as_object().unwrap().len(), 1);
    assert_eq!(parse_key_value("k= 1 ").unwrap().1, number(1));
}

#[test]
fn assignment_of_broken_json_is_the_raw_text() {
    assert_eq!(parse_key_value("k=[1,2").unwrap().1, string("[1,2"));
    assert_eq!(parse_key_value("k={a:1}").unwrap().1, string("{a:1}"));
    assert_eq!(parse_key_value("k=1 2").unwrap().1, string("1 2"));
    assert_eq!(parse_key_value("k=True").unwrap().1, string("True"));
}

#[test]
fn parsed_value_is_kept_and_failure_falls_back_to_text() {
    let parsed: Result<Value, serde_json::Error> = serde_json::from_str("[1]");
    assert_eq!(value_or_text(parsed, "ignored"), Value::Array(vec![number(1)]));
    let failed: Result<Value, serde_json::Error> = serde_json::from_str("[1");
    assert_eq!(value_or_text(failed, "[1"), string("[1"));
}

#[test]
fn assignments_are_applied_in_order_and_later_ones_win() {
    let mut context = tera::Context::new();
    context.insert("kept", &number(0));
    let list = vec!["a=1".to_string(), "b=two".to_string(), "a=3".to_string()];
    apply_assignments(&mut context, &list).unwrap();
    assert_eq!(context.get("a"), Some(&number(3)));
    assert_eq!(context.get("b"), Some(&string("two")));
    assert_eq!(context.get("kept"), Some(&number(0)));
    assert_eq!(context.clone().into_json().as_object().unwrap().len(), 3);
}

#[test]
fn first_bad_assignment_ends_the_applying() {
    let mut context = tera::Context::new();
    let list = vec!["a=1".to_string(), "=x".to_string(), "nothing".to_string()];
    match apply_assignments(&mut context, &list) {
        Err(TemplateError::InvalidArgument(text)) => {
            assert_eq!(text, "Key cannot be empty in key=value pair")
        }
        other => panic!("{:?}", other),
    }
}

fn short_texts(alphabet: &[char], longest: usize) -> Vec<String> {
    let mut texts = vec![String::new()];
    let mut from = 0;
    for _ in 0..longest {
        let to = texts.len();
        for i in from..to {
            for c in alphabet {
                let mut longer = texts[i].clone();
                longer.push(*c);
                texts.push(longer);
            }
        }
        from = to;
    }
    texts
}

#[test]
fn every_short_assignment_is_read_by_the_rules() {
    for text in short_texts(&['k', ' ', '=', '1', '"', '['], 5) {
        let parsed = parse_key_value(&text);
        match text.split_once('=') {
            None => match parsed {
                Err(TemplateError::InvalidArgument(message)) => assert_eq!(
                    message,
                    format!("Invalid key=value format: '{}'. Expected format: KEY=VALUE", text)
                ),
                other => panic!("{:?} for {:?}", other, text),
            },
            Some((key, _)) if key.trim().is_empty() => match parsed {
                Err(TemplateError::InvalidArgument(message)) => {
                    assert_eq!(message, "Key cannot be empty in key=value pair")
                }
                other => panic!("{:?} for {:?}", other, text),
            },
            Some((key, value)) => {
                let expected: Value =
                    serde_json::from_str(value).unwrap_or_else(|_| string(value));
                let (got_key, got_value) = parsed.unwrap();
                assert_eq!(got_key, key.trim(), "{:?}", text);
                assert_eq!(got_value, expected, "{:?}", text);
            }
        }
    }
}
