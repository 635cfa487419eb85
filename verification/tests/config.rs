//! Tests for the workspace subset configuration data.

use safety_rules::core_config::{SubsetConfig, XCoreConfig};

#[test]
fn subset_config_keeps_its_root_members() {
    let config = SubsetConfig {
        root_members: vec![String::from("core"), String::from("tools")],
    };
    assert_eq!(config.root_members.len(), 2);
    assert_eq!(config.root_members[0], "core");
    let copy = config.clone();
    assert_eq!(copy, config);
}

#[test]
fn xcore_config_holds_named_subsets() {
    let config = XCoreConfig {
        subsets: vec![
            (
                String::from("default"),
                SubsetConfig { root_members: vec![String::from("core")] },
            ),
            (
                String::from("tools"),
                SubsetConfig { root_members: vec![String::from("xtool")] },
            ),
        ],
    };
    assert_eq!(config.subsets.len(), 2);
    assert_eq!(config.subsets[1].0, "tools");
    assert_eq!(config.clone(), config);
}
