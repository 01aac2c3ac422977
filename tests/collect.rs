use std::collections::HashMap;

use rpcfg::collect::{
    add_new_setting, collect_user_input, execute, finished_result, framed_table, is_yes,
    needs_collection, plan_collection, show_current_config,
    update_item, Action, Phase, Session, SAVED_MESSAGE,
};
use rpcfg::models::{CollectError, Config, ConfigItem, Status};
use rpcfg::persist::{
    base_output_dir, env_file_entries, env_file_text, env_lines, env_output_uri,
    environment_variables, json_output_uri,
    json_pairs, render_outputs, rp_dir,
};
use rpcfg::test_utils::create_test_config;

const RP: &str = "/tmp/rpcfg-tests/.rpcfg";

fn lines(text: &str) -> Vec<String> {
    text.lines().map(|l| l.to_string()).collect()
}

fn values(config: &Config) -> Vec<String> {
    config.rpcfg.iter().chain(config.app.iter()).map(|i| i.value.clone()).collect()
}

fn item(key: &str, default: &str, value: &str, env: &str, required: bool) -> ConfigItem {
    ConfigItem {
        key: key.to_string(),
        description: format!("Description for {}", key),
        shellscript: String::new(),
        default: default.to_string(),
        temp_environment_variable_name: env.to_string(),
        required_as_env: required,
        value: value.to_string(),
    }
}

#[test]
fn test_non_interactive_mode() {
    let mut config = create_test_config("non_interactive");
    let initial = values(&config);
    let mut output = String::new();
    let done = collect_user_input(&mut config, RP, &lines("9\nq\n"), &mut output).unwrap();
    assert!(matches!(done.result.status, Status::Succeeded));
    assert!(done.saved.is_none());
    for (index, item) in config.rpcfg.iter().chain(config.app.iter()).enumerate() {
        if initial[index].is_empty() {
            assert_eq!(item.value, item.default, "Empty item should be set to default");
        } else {
            assert_eq!(item.value, initial[index], "Non-empty item should remain unchanged");
        }
    }
}

#[test]
fn test_invalid_input() {
    let mut config = create_test_config("invalid_input");
    let mut output = String::new();
    let done = collect_user_input(
        &mut config,
        RP,
        &lines("invalid\n99\n6\nnewvalue\ns\nq\n"),
        &mut output,
    )
    .unwrap();
    assert!(matches!(done.result.status, Status::Succeeded));
    assert!(output.contains("Invalid input. Please try again."));
    assert!(output.contains("Invalid item number. Please try again."));
    assert_eq!(config.app[0].value, "newvalue");
    assert!(output.ends_with(SAVED_MESSAGE));
}

#[test]
fn test_configuration_settings() {
    let id = "settings";
    let mut config = Config::default();
    let reserved: [(&str, &str); 5] = [
        ("stored", "local"),
        ("config_version", "1.0"),
        ("project_name", "test_project"),
        ("config_name", "test_config"),
        ("environment", "test"),
    ];
    for it in config.rpcfg.iter_mut() {
        if let Some((_, v)) = reserved.iter().find(|(k, _)| *k == it.key) {
            it.value = v.to_string();
            it.required_as_env = false;
        }
    }
    config.app.push(item(&format!("app_setting1_{}", id), "default", "value1", "APP_SETTING1", true));
    config.app.push(item(&format!("app_setting2_{}", id), "default", "value2", "APP_SETTING2", false));
    config.is_test = true;

    let mut output = String::new();
    let done = collect_user_input(&mut config, RP, &lines("s\nq\n"), &mut output).unwrap();
    assert!(matches!(done.result.status, Status::Succeeded));
    let saved = done.saved.expect("saving produces both files");

    let json_map: HashMap<String, String> = serde_json::from_str(&saved.json).unwrap();
    for (k, v) in reserved.iter() {
        assert_eq!(&json_map[*k], v, "JSON value mismatch for key: {}", k);
    }
    assert_eq!(json_map[&format!("app_setting1_{}", id)], "value1");
    assert_eq!(json_map[&format!("app_setting2_{}", id)], "value2");

    assert!(saved.env.contains(&format!("APP_SETTING1_{}=value1", id.to_uppercase())));
    assert!(!saved.env.contains(&format!("APP_SETTING2_{}=value2", id.to_uppercase())));
    assert!(!saved.env.contains("STORED=local"));
}

#[test]
fn test_add_new_setting() {
    let mut config = create_test_config("add_new_setting");
    let mut output = String::new();
    let done = collect_user_input(
        &mut config,
        RP,
        &lines("n\nnew_key\nNew description\ndefault_value\nNEW_ENV_VAR\ny\ns\nq\n"),
        &mut output,
    )
    .unwrap();
    assert!(matches!(done.result.status, Status::Succeeded));
    let new_item = config.app.iter().find(|i| i.key == "new_key").expect("new setting present");
    assert_eq!(new_item.description, "New description");
    assert_eq!(new_item.default, "default_value");
    assert_eq!(new_item.value, "default_value");
    assert_eq!(new_item.temp_environment_variable_name, "NEW_ENV_VAR");
    assert!(new_item.required_as_env);
    assert!(done.save_input, "a new setting asks for the input file to be saved");
    assert!(output.contains("New setting added successfully."));
}

#[test]
fn test_storage_type_update() {
    for input in ["1\ninvalid_storage\ns\nq\n", "1\n\ns\nq\n", "1\nlocal\ns\nq\n"] {
        let mut config = create_test_config("storage");
        let mut output = String::new();
        let done = collect_user_input(&mut config, RP, &lines(input), &mut output).unwrap();
        assert!(matches!(done.result.status, Status::Succeeded));
        let stored = config.rpcfg.iter().find(|i| i.key == "stored").unwrap();
        assert_eq!(stored.value, "local", "input {:?}", input);
    }
}

#[test]
fn test_ignore_timestamps_flag() {
    let mut config = create_test_config("timestamps");

    let mut output = String::new();
    let first = execute(&mut config, RP, false, None, &lines("6\nnew_value\ns\nq\n"), &mut output)
        .unwrap();
    assert!(!output.is_empty(), "First output buffer should not be empty");
    assert!(first.saved.is_some());

    let mut output = String::new();
    let second = execute(&mut config, RP, false, Some((100, 200)), &Vec::new(), &mut output).unwrap();
    assert_eq!(output.len(), 0, "Second output buffer should be empty");
    assert_eq!(second.result.message, "Configuration is up to date.");
    assert!(second.saved.is_none());

    let mut output = String::new();
    let third = execute(&mut config, RP, true, Some((100, 200)), &lines("s\nq\n"), &mut output)
        .unwrap();
    assert!(!output.is_empty(), "Third output buffer should not be empty");
    assert!(third.saved.is_some());
}

#[test]
fn needs_collection_compares_times() {
    assert!(needs_collection(true, Some((1, 2))));
    assert!(needs_collection(false, None));
    assert!(needs_collection(false, Some((2, 1))));
    assert!(!needs_collection(false, Some((2, 2))));
    assert!(!needs_collection(false, Some((1, 2))));
}

#[test]
fn execute_without_local_storage_fails() {
    let mut config = create_test_config("keyvault");
    config.rpcfg[0].value = "keyvault".to_string();
    let mut output = String::new();
    let r = execute(&mut config, RP, true, None, &lines("s\n"), &mut output);
    assert!(matches!(r, Err(CollectError::NoOutputPath)));
    assert!(output.is_empty());
}

#[test]
fn input_that_ends_early_is_an_error() {
    let mut config = create_test_config("eof");
    let mut output = String::new();
    let r = collect_user_input(&mut config, RP, &lines("2\n"), &mut output);
    assert!(matches!(r, Err(CollectError::EndOfInput)));
    assert!(output.contains("Enter new value for Version of the configuration (current: 1.0): "));
}

#[test]
fn update_item_sets_trimmed_value() {
    let mut config = Config::default();
    config.app.push(item("app_item1", "default1", "old_value", "APP_TEST_ITEM_1", true));
    update_item(&mut config, 5, "  new_value \n").unwrap();
    assert_eq!(config.app[0].value, "new_value");
    update_item(&mut config, 1, "2.0").unwrap();
    assert_eq!(config.rpcfg[1].value, "2.0");
}

#[test]
fn update_item_out_of_range() {
    let mut config = Config::default();
    let before = values(&config);
    assert!(matches!(update_item(&mut config, 5, "x"), Err(CollectError::ItemNotFound)));
    assert_eq!(values(&config), before);
}

#[test]
fn add_new_setting_appends_one_item() {
    let mut config = Config::default();
    add_new_setting(
        &mut config,
        "new_key".to_string(),
        "New description".to_string(),
        "default_value".to_string(),
        "NEW_ENV_VAR".to_string(),
        true,
    );
    assert_eq!(config.app.len(), 1);
    assert_eq!(config.rpcfg.len(), 5);
    let last = config.app.last().unwrap();
    assert_eq!(last.key, "new_key");
    assert_eq!(last.description, "New description");
    assert_eq!(last.value, "default_value");
}

#[test]
fn yes_answer() {
    assert!(is_yes("y"));
    assert!(!is_yes("yes"));
    assert!(!is_yes("n"));
    assert!(!is_yes(""));
}

#[test]
fn out_of_range_index_changes_nothing() {
    let mut session = Session::new(create_test_config("range"));
    session.prompt();
    let before = values(&session.config);
    for line in ["8", "0", "99"] {
        let reply = session.handle(line);
        assert_eq!(reply.action, Action::Continue);
        assert_eq!(reply.text, "Invalid item number. Please try again.\n");
        assert_eq!(session.phase, Phase::Command);
        assert_eq!(values(&session.config), before);
    }
}

#[test]
fn non_numeric_input_changes_nothing() {
    let mut session = Session::new(create_test_config("nonnumeric"));
    session.prompt();
    let before = values(&session.config);
    for line in ["invalid", "-1", "x1", "", "18446744073709551616"] {
        let reply = session.handle(line);
        assert_eq!(reply.action, Action::Continue);
        assert_eq!(reply.text, "Invalid input. Please try again.\n");
        assert_eq!(session.phase, Phase::Command);
        assert_eq!(values(&session.config), before);
    }
}

#[test]
fn command_letters_are_trimmed() {
    let mut session = Session::new(create_test_config("letters"));
    session.prompt();
    assert_eq!(session.handle("  S \n").action, Action::Save);
    assert_eq!(session.handle("q").action, Action::Quit);
    assert_eq!(session.handle("+7").action, Action::Continue);
    assert_eq!(session.phase, Phase::NewValue(6));
}

#[test]
fn entered_value_reaches_json_and_cleared_value_shows_default() {
    let mut config = create_test_config("entered");
    let mut output = String::new();
    let done =
        collect_user_input(&mut config, RP, &lines("7\nfresh\ns\n"), &mut output).unwrap();
    let json: HashMap<String, String> = serde_json::from_str(&done.saved.unwrap().json).unwrap();
    assert_eq!(json["item2_entered"], "fresh");

    let mut session = Session::new(create_test_config("cleared"));
    session.prompt();
    session.handle("6");
    session.prompt();
    session.handle("");
    assert_eq!(session.config.app[0].value, "");
    let table = session.prompt();
    let row = table.lines().find(|l| l.starts_with("6 ")).unwrap();
    assert!(row.ends_with("default1"), "row {:?}", row);
}

#[test]
fn added_setting_appears_in_next_table() {
    let mut session = Session::new(create_test_config("added"));
    session.prompt();
    session.handle("N");
    assert_eq!(session.prompt(), "Adding a new setting:\nEnter key: ");
    session.handle("brand_new");
    assert_eq!(session.prompt(), "Enter description: ");
    session.handle("Brand new item");
    assert_eq!(session.prompt(), "Enter default value: ");
    session.handle("fallback");
    assert_eq!(session.prompt(), "Enter environment variable name (or leave empty): ");
    session.handle("BRAND_NEW");
    assert_eq!(session.prompt(), "Is this required as an environment variable? (y/n): ");
    let reply = session.handle("Y");
    assert_eq!(reply.text, "New setting added successfully.\n");
    assert!(session.new_setting_added);
    assert_eq!(session.config.app.len(), 3);
    let last = session.config.app.last().unwrap();
    assert_eq!(last.key, "brand_new");
    assert_eq!(last.temp_environment_variable_name, "BRAND_NEW");
    assert!(last.required_as_env, "an upper-case Y means yes");
    let table = session.prompt();
    let row = table.lines().find(|l| l.starts_with("8 ")).unwrap();
    assert!(row.contains("Brand new item") && row.ends_with("fallback"));
}

#[test]
fn env_file_matches_json_values() {
    let mut config = create_test_config("roundtrip");
    config.app.push(item("extra", "d", "v e", "", true));
    let mut output = String::new();
    let done = collect_user_input(&mut config, RP, &lines("s\n"), &mut output).unwrap();
    let saved = done.saved.unwrap();
    let json: HashMap<String, String> = serde_json::from_str(&saved.json).unwrap();
    let mut required = 0;
    for it in config.rpcfg.iter().chain(config.app.iter()) {
        let line = format!("{}={}", it.key.to_uppercase(), json[&it.key.to_lowercase()]);
        if it.required_as_env {
            required += 1;
            assert!(saved.env.lines().any(|l| l == line), "missing {}", line);
        } else {
            assert!(!saved.env.lines().any(|l| l.starts_with(&format!("{}=", it.key.to_uppercase()))));
        }
    }
    assert_eq!(saved.env.lines().count(), required);
}

#[test]
fn second_run_writes_identical_files() {
    let mut config = create_test_config("twice");
    let mut output = String::new();
    let first = collect_user_input(&mut config, RP, &lines("s\nq\n"), &mut output).unwrap();
    let mut output = String::new();
    let second = collect_user_input(&mut config, RP, &lines("s\nq\n"), &mut output).unwrap();
    let (a, b) = (first.saved.unwrap(), second.saved.unwrap());
    assert_eq!(a.json, b.json);
    assert_eq!(a.env, b.env);
}

#[test]
fn json_and_env_text_exact() {
    let mut config = Config::default();
    config.rpcfg.truncate(1);
    config.app.push(item("is_test", "", "true", "", false));
    config.app.push(item("api_key", "", "abc", "API", true));
    let saved = render_outputs(&config);
    assert_eq!(saved.json, "{\n  \"api_key\": \"abc\",\n  \"stored\": \"local\"\n}");
    assert_eq!(saved.env, "API_KEY=abc\n");
    assert_eq!(
        json_pairs(&config),
        vec![("stored".to_string(), "local".to_string()), ("api_key".to_string(), "abc".to_string())]
    );
}

#[test]
fn later_item_of_same_key_wins_in_json() {
    let mut config = Config::default();
    config.rpcfg.truncate(1);
    config.app.push(item("k", "", "first", "", false));
    config.app.push(item("other", "", "x", "", false));
    config.app.push(item("k", "", "second", "", false));
    let pairs = json_pairs(&config);
    assert_eq!(pairs.len(), 3);
    assert_eq!(pairs[1], ("k".to_string(), "second".to_string()));
}

#[test]
fn env_file_text_upper_cases_keys_only() {
    let mut config = create_test_config("abc");
    config.app[1].required_as_env = true;
    config.app[1].value = "Mixed Case".to_string();
    assert_eq!(
        env_file_text(&config),
        "ITEM1_ABC=initial_value1\nITEM2_ABC=Mixed Case\n"
    );
}

#[test]
fn environment_variables_need_a_name() {
    let config = create_test_config("vars");
    assert_eq!(
        environment_variables(&config),
        vec![("TEST_ITEM_1_vars".to_string(), "initial_value1".to_string())]
    );
}

#[test]
fn output_paths() {
    let config = create_test_config("p");
    assert_eq!(base_output_dir(&config, RP), Some(format!("{}/project_p/config_p-env_p", RP)));
    assert_eq!(json_output_uri(&config, RP), Some(format!("{}/project_p/config_p-env_p.json", RP)));
    assert_eq!(env_output_uri(&config, RP), Some(format!("{}/project_p/config_p-env_p.env", RP)));
    let mut remote = create_test_config("p");
    remote.rpcfg[0].value = "keyvault".to_string();
    assert_eq!(base_output_dir(&remote, RP), None);
    let mut bare = Config::default();
    bare.rpcfg.clear();
    assert_eq!(
        base_output_dir(&bare, "/r"),
        Some("/r/default_project/default_config-default_env".to_string())
    );
}

#[test]
fn rp_dir_choice() {
    let config = create_test_config("dir");
    assert_eq!(rp_dir(&config, &Some("/home/u".to_string()), "/tmp"), "/tmp/.rpcfg");
    let mut live = Config::default();
    live.is_test = false;
    assert_eq!(rp_dir(&live, &Some("/home/u".to_string()), "/tmp"), "/home/u/.rpcfg");
    assert_eq!(rp_dir(&live, &None, "/tmp"), "/tmp/.rpcfg");
}

#[test]
fn table_is_aligned() {
    let config = create_test_config("t");
    let text = show_current_config(&config);
    assert!(text.starts_with("(Test mode)\n\n"));
    assert!(text.contains("Index  Description"));
    assert!(text.contains("-----  -----------"));
    assert!(text.contains("7      Test item 2"));
    assert!(text.ends_with("default2\n\n"));
    let mut live = config;
    live.is_test = false;
    assert!(show_current_config(&live).starts_with("\nIndex"));
}

#[test]
fn env_lines_exact() {
    let entries = vec![("A".to_string(), "1".to_string()), ("B_C".to_string(), "x y".to_string())];
    assert_eq!(env_lines(&entries), "A=1\nB_C=x y\n");
    assert_eq!(env_lines(&Vec::new()), "");
}

#[test]
fn env_entries_upper_case_required_keys() {
    let config = create_test_config("Mix");
    assert_eq!(
        env_file_entries(&config),
        vec![("ITEM1_MIX".to_string(), "initial_value1".to_string())]
    );
}

#[test]
fn framed_table_exact() {
    assert_eq!(framed_table(true, "T"), "(Test mode)\n\nT\n");
    assert_eq!(framed_table(false, "T"), "\nT\n");
}

#[test]
fn handle_trimmed_takes_text_as_given() {
    let mut session = Session::new(create_test_config("trimmed"));
    session.prompt();
    assert_eq!(session.handle_trimmed(" s").action, Action::Continue);
    assert_eq!(session.handle_trimmed("s").action, Action::Save);
    assert_eq!(session.handle_trimmed("2").action, Action::Continue);
    session.handle_trimmed(" spaced ");
    assert_eq!(session.config.rpcfg[1].value, " spaced ");
}

#[test]
fn json_keys_are_lower_cased() {
    let mut config = Config::default();
    config.rpcfg.truncate(1);
    config.app.push(item("Api_Key", "", "abc", "", true));
    let saved = render_outputs(&config);
    assert_eq!(saved.json, "{\n  \"api_key\": \"abc\",\n  \"stored\": \"local\"\n}");
    assert_eq!(saved.env, "API_KEY=abc\n");
    assert_eq!(json_pairs(&config)[1], ("api_key".to_string(), "abc".to_string()));
}

#[test]
fn plan_collection_decides() {
    let config = create_test_config("plan");
    assert!(matches!(plan_collection(&config, RP, false, None), Ok(None)));
    assert!(matches!(plan_collection(&config, RP, true, Some((1, 2))), Ok(None)));
    match plan_collection(&config, RP, false, Some((1, 2))) {
        Ok(Some(r)) => {
            assert_eq!(r.message, "Configuration is up to date.");
            assert_eq!(r.json_file, json_output_uri(&config, RP));
        }
        _ => panic!("expected an up-to-date result"),
    }
    let mut remote = create_test_config("plan");
    remote.rpcfg[0].value = "keyvault".to_string();
    assert!(matches!(plan_collection(&remote, RP, true, None), Err(CollectError::NoOutputPath)));
}

#[test]
fn finished_result_names_both_files() {
    let config = create_test_config("fin");
    let r = finished_result(&config, RP);
    assert!(matches!(r.status, Status::Succeeded));
    assert_eq!(r.message, "Configuration collected successfully.");
    assert_eq!(r.env_file, Some(format!("{}/project_fin/config_fin-env_fin.env", RP)));
}
