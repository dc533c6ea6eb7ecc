//! Configuration merging and path-text helpers.

use pocsuite_rs::poc_core::config::{Args, ConfigManager, PocConfig, YamlConfig};
use pocsuite_rs::utils::get_extension;

fn no_args() -> Args {
    Args {
        target: None,
        timeout: 0,
        verify: false,
        exploit: false,
        poc: None,
        config: None,
        verbose: false,
    }
}

#[test]
fn defaults_are_all_unset() {
    let c = PocConfig::default();
    assert_eq!(c.target, None);
    assert_eq!(c.timeout, 0);
    assert!(c.headers.is_empty());
    assert!(!c.verify && !c.exploit);
    assert_eq!(c.poc_name, None);
    assert!(c.plugins.is_empty());
}

#[test]
fn given_arguments_override_the_configuration() {
    let mut c = PocConfig::default();
    c.timeout = 10;
    c.verify = true;
    let args = Args {
        target: Some("http://t".to_string()),
        timeout: 60,
        verify: false,
        exploit: true,
        poc: Some("redis".to_string()),
        config: None,
        verbose: true,
    };
    c.merge_with_args(&args);
    assert_eq!(c.target, Some("http://t".to_string()));
    assert_eq!(c.timeout, 60);
    assert!(c.verify, "a set flag is never cleared by merging");
    assert!(c.exploit);
    assert_eq!(c.poc_name, Some("redis".to_string()));
}

#[test]
fn absent_arguments_leave_the_configuration_alone() {
    let mut c = PocConfig::default();
    c.target = Some("kept".to_string());
    c.timeout = 45;
    c.poc_name = Some("kept_poc".to_string());
    c.merge_with_args(&no_args());
    assert_eq!(c.target, Some("kept".to_string()));
    assert_eq!(c.timeout, 45);
    assert_eq!(c.poc_name, Some("kept_poc".to_string()));
}

#[test]
fn yaml_fields_fall_back_to_the_documented_defaults() {
    let y = YamlConfig {
        target: None,
        timeout: None,
        headers: None,
        verify: None,
        exploit: None,
        poc_name: Some("example".to_string()),
        plugins: None,
    };
    let c = ConfigManager::from_yaml(y);
    assert_eq!(c.timeout, 30);
    assert!(c.headers.is_empty());
    assert!(!c.verify && !c.exploit);
    assert_eq!(c.poc_name, Some("example".to_string()));
}

#[test]
fn a_plugin_list_clears_the_single_plugin_name() {
    let y = YamlConfig {
        target: Some("http://t".to_string()),
        timeout: Some(5),
        headers: None,
        verify: Some(true),
        exploit: None,
        poc_name: Some("example".to_string()),
        plugins: Some(vec!["a".to_string(), "b".to_string()]),
    };
    let c = ConfigManager::from_yaml(y);
    assert_eq!(c.poc_name, None);
    assert_eq!(c.plugins, vec!["a".to_string(), "b".to_string()]);
    assert!(c.verify);
    assert_eq!(c.timeout, 5);
}

#[test]
fn extensions_follow_the_last_dot_of_the_final_component() {
    assert_eq!(get_extension("scan.json"), Some("json".to_string()));
    assert_eq!(get_extension("out/results.tar.gz"), Some("gz".to_string()));
    assert_eq!(get_extension("dir.d/plain"), None);
    assert_eq!(get_extension(".hidden"), None);
    assert_eq!(get_extension(".hidden.bak"), Some("bak".to_string()));
    assert_eq!(get_extension("trailing."), Some("".to_string()));
    assert_eq!(get_extension(""), None);
}
