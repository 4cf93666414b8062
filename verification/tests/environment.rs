use rustpl::error::TemplateError;
use rustpl::vars::{add_env_vars, build_context, EnvImport};
use serde_json::Value;

fn string(s: &str) -> Value {
    Value::String(s.to_string())
}

fn vars(pairs: &[(&str, &str)]) -> Vec<(String, String)> {
    pairs.iter().map(|(k, v)| (k.to_string(), v.to_string())).collect()
}

fn count(context: &tera::Context) -> usize {
    context.clone().into_json().as_object().unwrap().len()
}

#[test]
fn import_without_prefix_takes_every_variable() {
    let mut context = tera::Context::new();
    let env = vars(&[("HOME", "/root"), ("APP_MODE", "dev"), ("app_lower", "x"), ("N", "1")]);
    add_env_vars(&mut context, &env, None);
    assert_eq!(context.get("ENV_HOME"), Some(&string("/root")));
    assert_eq!(context.get("ENV_APP_MODE"), Some(&string("dev")));
    assert_eq!(context.get("ENV_app_lower"), Some(&string("x")));
    assert_eq!(context.get("ENV_N"), Some(&string("1")));
    assert_eq!(count(&context), 4);
}

#[test]
fn import_with_prefix_takes_only_matching_names() {
    let mut context = tera::Context::new();
    let env = vars(&[
        ("HOME", "/root"),
        ("APP_MODE", "dev"),
        ("app_lower", "x"),
        ("APP_", "bare"),
        ("MY_APP_X", "no"),
        ("APP", "short"),
    ]);
    add_env_vars(&mut context, &env, Some("APP_"));
    assert_eq!(context.get("ENV_APP_MODE"), Some(&string("dev")));
    assert_eq!(context.get("ENV_APP_"), Some(&string("bare")));
    assert_eq!(count(&context), 2);
}

#[test]
fn imported_values_are_plain_strings() {
    let mut context = tera::Context::new();
    add_env_vars(&mut context, &vars(&[("N", "1"), ("J", "{\"a\":1}"), ("E", "")]), None);
    assert_eq!(context.get("ENV_N"), Some(&string("1")));
    assert_eq!(context.get("ENV_J"), Some(&string("{\"a\":1}")));
    assert_eq!(context.get("ENV_E"), Some(&string("")));
}

#[test]
fn import_keeps_what_the_context_held() {
    let mut context = tera::Context::new();
    context.insert("HOME", &string("mine"));
    context.insert("ENV_HOME", &string("old"));
    add_env_vars(&mut context, &vars(&[("HOME", "/root")]), None);
    assert_eq!(context.get("HOME"), Some(&string("mine")));
    assert_eq!(context.get("ENV_HOME"), Some(&string("/root")));
    assert_eq!(count(&context), 2);
}

#[test]
fn later_variable_of_the_same_name_wins() {
    let mut context = tera::Context::new();
    add_env_vars(&mut context, &vars(&[("A", "1"), ("A", "2")]), None);
    assert_eq!(context.get("ENV_A"), Some(&string("2")));
}

#[test]
fn layers_are_applied_file_then_assignments_then_environment() {
    let import = EnvImport { prefix: String::new(), vars: vars(&[("KEY", "from env")]) };
    let assignments = vec!["KEY=from set".to_string(), "ENV_KEY=set too".to_string()];
    let file = "{\"KEY\": \"from file\", \"ENV_KEY\": \"file too\", \"only\": 1}";
    let context = build_context(Some(file), &assignments, Some(&import)).unwrap();
    assert_eq!(context.get("KEY"), Some(&string("from set")));
    assert_eq!(context.get("ENV_KEY"), Some(&string("from env")));
    assert_eq!(context.get("only"), Some(&Value::from(1)));
    assert_eq!(count(&context), 3);
}

#[test]
fn assignment_wins_over_the_data_file() {
    let context = build_context(Some("{\"k\": 1, \"f\": 2}"), &vec!["k=9".to_string()], None).unwrap();
    assert_eq!(context.get("k"), Some(&Value::from(9)));
    assert_eq!(context.get("f"), Some(&Value::from(2)));
}

#[test]
fn environment_stays_out_unless_asked_for() {
    let context = build_context(None, &vec!["a=1".to_string()], None).unwrap();
    assert_eq!(context.get("a"), Some(&Value::from(1)));
    assert_eq!(count(&context), 1);
}

#[test]
fn empty_prefix_imports_everything_and_a_prefix_filters() {
    let env = vars(&[("APP_A", "1"), ("OTHER", "2")]);
    let all = EnvImport { prefix: String::new(), vars: env.clone() };
    let context = build_context(None, &Vec::new(), Some(&all)).unwrap();
    assert_eq!(count(&context), 2);
    let some = EnvImport { prefix: "APP_".to_string(), vars: env };
    let context = build_context(None, &Vec::new(), Some(&some)).unwrap();
    assert_eq!(context.get("ENV_APP_A"), Some(&string("1")));
    assert_eq!(count(&context), 1);
}

#[test]
fn context_without_sources_is_empty() {
    assert_eq!(build_context(None, &Vec::new(), None).unwrap(), tera::Context::new());
}

#[test]
fn data_file_failures_come_before_assignment_failures() {
    let bad = vec!["nothing".to_string()];
    assert!(matches!(build_context(Some("{"), &bad, None), Err(TemplateError::JsonParse(_))));
    match build_context(Some("[]"), &bad, None) {
        Err(TemplateError::InvalidArgument(text)) => {
            assert_eq!(text, "JSON file must contain an object at root level")
        }
        other => panic!("{:?}", other),
    }
    match build_context(Some("{}"), &bad, None) {
        Err(TemplateError::InvalidArgument(text)) => {
            assert_eq!(text, "Invalid key=value format: 'nothing'. Expected format: KEY=VALUE")
        }
        other => panic!("{:?}", other),
    }
}
