use nestvim::nix::NixConfig;

#[test]
fn nix_config_fields() {
    let code = "{\n  name = \"demo\"\n  version = '1.0'\n  description = \"A demo plugin\"\n}\n";
    let c = NixConfig::from_nix(code).expect("a name");
    assert_eq!(c.name, "demo");
    assert_eq!(c.version, Some("1.0".to_string()));
    assert_eq!(c.description, Some("A demo plugin".to_string()));
    assert_eq!(c.repo_url, None);
}

#[test]
fn nix_config_needs_a_name() {
    assert!(NixConfig::from_nix("version = \"2\"\n").is_none());
    assert!(NixConfig::from_nix("name \"x\"\n").is_none());
    assert!(NixConfig::from_nix("").is_none());
}

#[test]
fn nix_config_keeps_quirks_of_the_format() {
    let c = NixConfig::from_nix("name = \"demo\";\r\n").unwrap();
    assert_eq!(c.name, "demo\";");
    let later = NixConfig::from_nix("name = a\nname = b = c\n").unwrap();
    assert_eq!(later.name, "b");
    let prefixed = NixConfig::from_nix("  namespace = \"ns\"  \n").unwrap();
    assert_eq!(prefixed.name, "ns");
    let quotes = NixConfig::from_nix("name = \"'q'\"\n").unwrap();
    assert_eq!(quotes.name, "q");
    assert_eq!(quotes.version, None);
}

#[test]
fn github_config() {
    let c = NixConfig::_from_github("user/repo").unwrap();
    assert_eq!(c.name, "user/repo");
    assert_eq!(c.repo_url, Some("https://github.com/user/repo".to_string()));
    assert_eq!(c.version, None);
    assert_eq!(c.description, None);
}

#[test]
fn github_config_needs_one_slash() {
    assert_eq!(NixConfig::_from_github("bad").unwrap_err(), "Invalid format. Expected user/repo");
    assert_eq!(NixConfig::_from_github("a/b/c").unwrap_err(), "Invalid format. Expected user/repo");
    assert!(NixConfig::_from_github("/").is_ok());
}
