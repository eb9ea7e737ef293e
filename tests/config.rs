use bmw_finder::config::{Args, Condition, Configuration, OutputMode};
use std::str::FromStr;

#[test]
fn should_use_args_to_create_configuration() {
    let args = Args {
        model: vec![String::from("My Model")],
        used: true,
        limit: Some(5),
        equipment_names: Some(vec![String::from("Pack Innovation")]),
        output: OutputMode::Text,
        text: false,
        json: false,
    };

    let config = Configuration::new(args);

    assert_eq!(config.models, vec![String::from("My Model")]);
    assert_eq!(config.condition, Condition::Used);
    assert_eq!(config.limit, Some(5));
    assert_eq!(
        config.equipment_names,
        Some(vec![String::from("Pack Innovation")])
    );
    assert_eq!(config.output, OutputMode::Text);
}

#[test]
fn parses_ui_case_insensitive() {
    assert_eq!(OutputMode::from_str("ui"), Ok(OutputMode::Ui));
    assert_eq!(OutputMode::from_str("UI"), Ok(OutputMode::Ui));
    assert_eq!(OutputMode::from_str("Ui"), Ok(OutputMode::Ui));
}

#[test]
fn parses_text_case_insensitive() {
    assert_eq!(OutputMode::from_str("text"), Ok(OutputMode::Text));
    assert_eq!(OutputMode::from_str("TEXT"), Ok(OutputMode::Text));
    assert_eq!(OutputMode::from_str("Text"), Ok(OutputMode::Text));
}

#[test]
fn parses_json_case_insensitive() {
    assert_eq!(OutputMode::from_str("json"), Ok(OutputMode::Json));
    assert_eq!(OutputMode::from_str("JSON"), Ok(OutputMode::Json));
    assert_eq!(OutputMode::from_str("Json"), Ok(OutputMode::Json));
}

#[test]
fn returns_err_on_invalid_value() {
    assert!(OutputMode::from_str("foo").is_err());
    assert!(OutputMode::from_str("").is_err());
    assert!(OutputMode::from_str("123").is_err());
}

#[test]
fn invalid_output_mode_names_the_input() {
    assert_eq!(
        OutputMode::from_str("Xml"),
        Err(String::from("Invalid output mode: Xml"))
    );
}

fn args_with_output(output: OutputMode, text: bool, json: bool) -> Args {
    Args {
        model: vec![String::from("iX2_U10E")],
        used: false,
        limit: None,
        equipment_names: None,
        output,
        text,
        json,
    }
}

#[test]
fn json_shortcut_selects_json_output() {
    let config = Configuration::new(args_with_output(OutputMode::Ui, false, true));
    assert_eq!(config.output(), OutputMode::Json);
    assert_eq!(config.condition, Condition::New);
}

#[test]
fn text_shortcut_selects_text_output() {
    let config = Configuration::new(args_with_output(OutputMode::Ui, true, false));
    assert_eq!(config.output(), OutputMode::Text);
}

#[test]
fn explicit_output_is_kept_without_shortcut() {
    let config = Configuration::new(args_with_output(OutputMode::Json, false, false));
    assert_eq!(config.output(), OutputMode::Json);
}

#[test]
fn getters_expose_models_and_equipment_names() {
    let mut args = args_with_output(OutputMode::Ui, false, false);
    args.equipment_names = Some(vec![String::from("Pack M Sport")]);
    let config = Configuration::new(args);
    assert_eq!(config.models(), &[String::from("iX2_U10E")][..]);
    assert_eq!(
        config.equipment_names(),
        Some(&[String::from("Pack M Sport")][..])
    );
    let none = Configuration::new(args_with_output(OutputMode::Ui, false, false));
    assert_eq!(none.equipment_names(), None);
}
