use relay::diagnostics::Platform;
use relay::paths::{config_dir_under, expand_home, replace_home_var};

#[test]
fn tilde_expands_to_home() {
    assert_eq!(expand_home("~/x/y", Some("/home/u".to_string())), Ok("/home/u/x/y".to_string()));
    assert_eq!(expand_home("~", Some("/h".to_string())), Ok("/h".to_string()));
    assert_eq!(expand_home("~/x", None), Err("Could not determine home directory".to_string()));
}

#[test]
fn home_variable_expands_everywhere() {
    assert_eq!(expand_home("$HOME/a:$HOME/b", Some("/h".to_string())), Ok("/h/a:/h/b".to_string()));
    assert_eq!(replace_home_var("$HOM$HOME", "/h"), "$HOM/h");
    assert_eq!(expand_home("/etc/x", None), Ok("/etc/x".to_string()));
}

#[test]
fn configuration_directories() {
    assert_eq!(config_dir_under("/home/u", Platform::Linux), "/home/u/.config");
    assert_eq!(config_dir_under("/Users/u", Platform::MacOs), "/Users/u/Library/Application Support");
    assert_eq!(config_dir_under("C:/Users/u", Platform::Windows), "C:/Users/u/AppData/Roaming");
}
