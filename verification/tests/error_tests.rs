use flocker::error::FlockerError;

#[test]
fn test_error_display() {
    let docker_err = FlockerError::Docker("connection failed".to_string());
    assert_eq!(docker_err.message(), "Docker error: connection failed");

    let config_err = FlockerError::Config("invalid port".to_string());
    assert_eq!(config_err.message(), "Configuration error: invalid port");
}

#[test]
fn test_io_error_conversion() {
    let io_err = std::io::Error::new(std::io::ErrorKind::NotFound, "file not found");
    let flocker_err: FlockerError = io_err.into();
    match flocker_err {
        FlockerError::Io(_) => (),
        _ => panic!("Expected Io variant"),
    }
}

#[test]
fn test_io_error_message_prefix() {
    let io_err = std::io::Error::new(std::io::ErrorKind::NotFound, "file not found");
    let flocker_err: FlockerError = io_err.into();
    assert!(flocker_err.message().starts_with("IO error: "));
}

#[test]
fn test_config_file_error_message() {
    let err = FlockerError::ConfigFile {
        message: "Failed to parse config file".to_string(),
        path: "/home/u/.config/config.json".to_string(),
        source: "expected value".to_string(),
    };
    assert_eq!(
        err.message(),
        "Failed to parse config file (configuration file path: /home/u/.config/config.json): expected value"
    );
}

#[test]
fn test_user_input_error_message() {
    let err = FlockerError::UserInput("bad answer".to_string());
    assert_eq!(err.message(), "User input error: bad answer");
}
