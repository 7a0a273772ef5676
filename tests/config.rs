use dup_deps::config::{ArgError, Config};

fn path_of(args: &[&str]) -> Result<Option<String>, ArgError> {
    let v: Vec<String> = args.iter().map(|a| a.to_string()).collect();
    Config::from_args(&v).map(|c| c.manifest_path)
}

#[test]
fn no_flag_no_override() {
    assert_eq!(path_of(&["prog", "--verbose"]), Ok(None));
    assert_eq!(path_of(&[]), Ok(None));
}

#[test]
fn flag_with_separate_value() {
    assert_eq!(
        path_of(&["prog", "--manifest-path", "a/Cargo.toml", "x"]),
        Ok(Some("a/Cargo.toml".to_string()))
    );
}

#[test]
fn flag_joined_with_value() {
    assert_eq!(
        path_of(&["prog", "--manifest-path=b/Cargo.toml"]),
        Ok(Some("b/Cargo.toml".to_string()))
    );
    assert_eq!(path_of(&["--manifest-path="]), Ok(Some(String::new())));
}

#[test]
fn first_flag_decides() {
    assert_eq!(
        path_of(&["--manifest-path=one", "--manifest-path", "two"]),
        Ok(Some("one".to_string()))
    );
}

#[test]
fn flag_without_value_is_an_error() {
    assert_eq!(
        path_of(&["prog", "--manifest-path"]),
        Err(ArgError::MissingManifestPath)
    );
}

#[test]
fn other_argument_with_flag_prefix_taken_whole() {
    assert_eq!(
        path_of(&["--manifest-pathX"]),
        Ok(Some("--manifest-pathX".to_string()))
    );
}
