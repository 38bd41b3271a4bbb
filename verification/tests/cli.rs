use http_server::get_cli_arg_by_name;

fn args(list: &[&str]) -> Vec<String> {
    list.iter().map(|s| s.to_string()).collect()
}

#[test]
fn flag_value_is_found() {
    let args = args(&["server", "--directory", "/tmp/files", "--verbose"]);
    assert_eq!(
        get_cli_arg_by_name(&args, "--directory"),
        Some("/tmp/files".to_string())
    );
}

#[test]
fn missing_flag_yields_nothing() {
    let args = args(&["server", "--verbose"]);
    assert_eq!(get_cli_arg_by_name(&args, "--directory"), None);
}

#[test]
fn flag_in_last_position_yields_nothing() {
    let args = args(&["server", "--directory"]);
    assert_eq!(get_cli_arg_by_name(&args, "--directory"), None);
}

#[test]
fn first_occurrence_wins() {
    let args = args(&["--directory", "/a", "--directory", "/b"]);
    assert_eq!(
        get_cli_arg_by_name(&args, "--directory"),
        Some("/a".to_string())
    );
}
