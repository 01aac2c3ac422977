//! A ready-made configuration for exercising the collector.

use vstd::prelude::*;

use crate::models::{Config, ConfigItem, ConfigView, ItemView, literal_item, stored_item};

verus! {

fn glued(a: &str, b: &str) -> (r: String)
    ensures
        r@ == a@ + b@,
{
    let mut r = String::from_str(a);
    r.append(b);
    r
}

/// The configuration that `create_test_config` builds for `id`.
pub open spec fn test_config(id: Seq<char>) -> ConfigView {
    ConfigView {
        rpcfg: seq![
            stored_item(),
            literal_item("config_version"@, "Version of the configuration"@, "1.0"@, "1.0"@),
            literal_item(
                "project_name"@,
                "Name of the project"@,
                "project_"@ + id,
                "project_"@ + id,
            ),
            literal_item(
                "config_name"@,
                "Name of the configuration"@,
                "config_"@ + id,
                "config_"@ + id,
            ),
            literal_item(
                "environment"@,
                "Environment for the configuration"@,
                "env_"@ + id,
                "env_"@ + id,
            ),
        ],
        app: seq![
            ItemView {
                key: "item1_"@ + id,
                description: "Test item 1"@,
                shellscript: Seq::empty(),
                default: "default1"@,
                env_name: "TEST_ITEM_1_"@ + id,
                required_as_env: true,
                value: "initial_value1"@,
            },
            ItemView {
                key: "item2_"@ + id,
                description: "Test item 2"@,
                shellscript: Seq::empty(),
                default: "default2"@,
                env_name: Seq::empty(),
                required_as_env: false,
                value: Seq::empty(),
            },
        ],
        is_test: true,
        input_file: "test_input_"@ + id + ".json"@,
    }
}

/// A configuration in test mode whose names carry `test_id`: the five
/// reserved items, one required application item with a value, and one
/// optional application item without.
pub fn create_test_config(test_id: &str) -> (r: Config)
    ensures
        r@ == test_config(test_id@),
{
    let project = glued("project_", test_id);
    let config_name = glued("config_", test_id);
    let env = glued("env_", test_id);
    let mut input_file = glued("test_input_", test_id);
    input_file.append(".json");
    let r = Config {
        is_test: true,
        input_file,
        rpcfg: vec![
            ConfigItem::literal("stored", "Storage type for configuration", "local", "local"),
            ConfigItem::literal("config_version", "Version of the configuration", "1.0", "1.0"),
            ConfigItem::literal("project_name", "Name of the project", project.as_str(), project.as_str()),
            ConfigItem::literal("config_name", "Name of the configuration", config_name.as_str(), config_name.as_str()),
            ConfigItem::literal("environment", "Environment for the configuration", env.as_str(), env.as_str()),
        ],
        app: vec![
            ConfigItem {
                key: glued("item1_", test_id),
                description: String::from_str("Test item 1"),
                shellscript: String::new(),
                default: String::from_str("default1"),
                temp_environment_variable_name: glued("TEST_ITEM_1_", test_id),
                required_as_env: true,
                value: String::from_str("initial_value1"),
            },
            ConfigItem {
                key: glued("item2_", test_id),
                description: String::from_str("Test item 2"),
                shellscript: String::new(),
                default: String::from_str("default2"),
                temp_environment_variable_name: String::new(),
                required_as_env: false,
                value: String::new(),
            },
        ],
    };
    assert(r@.rpcfg =~= test_config(test_id@).rpcfg);
    assert(r@.app =~= test_config(test_id@).app);
    r
}

} // verus!
