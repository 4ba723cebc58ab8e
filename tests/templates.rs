use sdbh::template::{
    extract_variables, is_valid_variable_name, substitute_variables, Template, TemplateEngine, TemplateError,
    Variable,
};

fn engine() -> TemplateEngine {
    TemplateEngine { templates_dir: "/tmp/templates".to_string() }
}

fn vars(pairs: &[(&str, &str)]) -> Vec<(String, String)> {
    pairs.iter().map(|(k, v)| (k.to_string(), v.to_string())).collect()
}

fn sample() -> Template {
    Template {
        id: "test-template".to_string(),
        name: "Test Template".to_string(),
        description: Some("A test template".to_string()),
        command: "echo {message} from {user}".to_string(),
        category: Some("test".to_string()),
        variables: vec![
            Variable {
                name: "message".to_string(),
                description: Some("The message to echo".to_string()),
                required: true,
                default: Some("hello".to_string()),
            },
            Variable {
                name: "user".to_string(),
                description: Some("The user name".to_string()),
                required: true,
                default: None,
            },
        ],
        defaults: vec![],
    }
}

#[test]
fn test_extract_variables() {
    assert_eq!(extract_variables("git commit -m '{message}'"), vec!["message"]);
    assert_eq!(extract_variables("docker build -t {image}:{tag} ."), vec!["image", "tag"]);
    assert_eq!(extract_variables("echo {var1} {var2} {var1}"), vec!["var1", "var2"]);
    assert_eq!(extract_variables("no variables here"), Vec::<String>::new());
}

#[test]
fn test_substitute_variables() {
    let v = vars(&[("name", "world"), ("cmd", "echo")]);
    assert_eq!(substitute_variables("Hello {name}", &v).unwrap(), "Hello world");
    assert_eq!(substitute_variables("{cmd} {name}", &v).unwrap(), "echo world");
}

#[test]
fn test_substitute_variables_missing() {
    let v: Vec<(String, String)> = vec![];
    assert!(substitute_variables("Hello {name}", &v).is_err());
}

#[test]
fn test_is_valid_variable_name() {
    assert!(is_valid_variable_name("valid_name"));
    assert!(is_valid_variable_name("name123"));
    assert!(is_valid_variable_name("a"));
    assert!(!is_valid_variable_name(""));
    assert!(!is_valid_variable_name("123invalid"));
    assert!(!is_valid_variable_name("invalid-name"));
    assert!(!is_valid_variable_name("invalid name"));
}

#[test]
fn test_validate_template_valid() {
    assert!(engine().validate_template(&sample()).is_ok());
}

#[test]
fn test_validate_template_empty_id() {
    let mut t = sample();
    t.id = "".to_string();
    let result = engine().validate_template(&t);
    assert!(result.is_err());
    assert!(result.unwrap_err().message().contains("Template ID cannot be empty"));
}

#[test]
fn test_validate_template_empty_name() {
    let mut t = sample();
    t.name = "".to_string();
    let result = engine().validate_template(&t);
    assert!(result.is_err());
    assert!(result.unwrap_err().message().contains("Template name cannot be empty"));
}

#[test]
fn test_validate_template_empty_command() {
    let mut t = sample();
    t.command = "".to_string();
    let result = engine().validate_template(&t);
    assert!(result.is_err());
    assert!(result.unwrap_err().message().contains("Template command cannot be empty"));
}

#[test]
fn test_validate_template_invalid_variable_name() {
    let mut t = sample();
    t.variables[0].name = "invalid-name".to_string();
    let result = engine().validate_template(&t);
    assert!(result.is_err());
    assert!(result.unwrap_err().message().contains("Invalid variable name"));
}

#[test]
fn test_validate_template_undefined_variable() {
    let mut t = sample();
    t.command = "echo {undefined_var}".to_string();
    let result = engine().validate_template(&t);
    assert!(result.is_err());
    assert!(result.unwrap_err().message().contains("used in command but not defined"));
}

#[test]
fn validate_template_empty_variable_name() {
    let mut t = sample();
    t.variables[1].name = "".to_string();
    assert_eq!(engine().validate_template(&t), Err(TemplateError::EmptyVariableName));
}

#[test]
fn test_resolve_template_with_defaults() {
    let provided = vars(&[("user", "alice")]);
    let result = engine().resolve_template(&sample(), &provided);
    assert!(result.is_ok());
    let resolved = result.unwrap();
    assert_eq!(resolved.resolved_command, "echo hello from alice");
    let get = |k: &str| resolved.variables_used.iter().find(|p| p.0 == k).map(|p| p.1.clone());
    assert_eq!(get("message").unwrap(), "hello");
    assert_eq!(get("user").unwrap(), "alice");
}

#[test]
fn test_resolve_template_missing_required() {
    let provided: Vec<(String, String)> = vec![];
    let result = engine().resolve_template(&sample(), &provided);
    assert!(result.is_err());
    assert!(result.unwrap_err().message().contains("Required variable 'user' not provided"));
}

#[test]
fn resolve_template_provided_overrides_defaults() {
    let mut t = sample();
    t.defaults = vars(&[("user", "bob"), ("message", "hi")]);
    let resolved = engine().resolve_template(&t, &vars(&[("user", "carol")])).unwrap();
    assert_eq!(resolved.resolved_command, "echo hi from carol");
    assert_eq!(resolved.variables_used, vars(&[("user", "carol"), ("message", "hi")]));
}

#[test]
fn test_extract_variables_complex() {
    assert_eq!(extract_variables("{var} {var} {other}"), vec!["var", "other"]);
    assert_eq!(extract_variables("cmd {var1} --flag={var2}"), vec!["var1", "var2"]);
    assert_eq!(extract_variables("no braces here"), Vec::<String>::new());
    assert_eq!(extract_variables("{single}"), vec!["single"]);
}

#[test]
fn extract_variables_skips_empty_braces() {
    assert_eq!(extract_variables("{} {a{b} {c"), vec!["a{b"]);
}

#[test]
fn test_substitute_variables_edge_cases() {
    let v = vars(&[("empty", ""), ("spaces", "hello world"), ("special", "chars/with-dashes")]);
    assert_eq!(substitute_variables("{empty} test", &v).unwrap(), " test");
    assert_eq!(substitute_variables("'{spaces}'", &v).unwrap(), "'hello world'");
    assert_eq!(substitute_variables("cmd {special}", &v).unwrap(), "cmd chars/with-dashes");
}

#[test]
fn substitute_reports_first_unresolved_name() {
    let v = vars(&[("a", "1")]);
    assert_eq!(
        substitute_variables("{a} {b} {c}", &v),
        Err(TemplateError::Unresolved("b".to_string()))
    );
    assert_eq!(engine().templates_dir(), "/tmp/templates");
}

#[test]
fn values_to_prompt_lists_missing_required() {
    let mut t = sample();
    t.variables.push(Variable { name: "opt".to_string(), description: None, required: false, default: None });
    let (values, missing) = engine().values_to_prompt(&t, &vars(&[]));
    assert_eq!(values, vars(&[("message", "hello")]));
    assert_eq!(missing, vec!["user".to_string()]);
    let (_values, missing) = engine().values_to_prompt(&t, &vars(&[("user", "u")]));
    assert!(missing.is_empty());
}

#[test]
fn assignments_split_at_first_equals() {
    assert_eq!(
        sdbh::template::parse_assignment("k=a=b"),
        Some(("k".to_string(), "a=b".to_string()))
    );
    assert_eq!(sdbh::template::parse_assignment("=x"), Some((String::new(), "x".to_string())));
    assert_eq!(sdbh::template::parse_assignment("novalue"), None);
}
