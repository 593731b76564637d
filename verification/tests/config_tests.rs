use flocker::config::{ConfigProbes, FlureeConfig, PathProbe};
use flocker::docker::ContainerConfig;

fn ok_probe() -> PathProbe {
    PathProbe {
        exists: true,
        is_dir: true,
        resolve_error: None,
    }
}

fn ok_probes() -> ConfigProbes {
    ConfigProbes {
        data_mount: ok_probe(),
        config_mount: ok_probe(),
        config_file_exists: true,
    }
}

#[test]
fn test_config_file_without_mount() {
    let config = FlureeConfig::new(8090, None, None, Some("config.edn".to_string()));
    assert!(config.validate(&ok_probes()).is_err());
}

#[test]
fn test_config_mount_without_file() {
    let config = FlureeConfig::new(8090, None, Some("cfg".to_string()), None);
    assert!(config.validate(&ok_probes()).is_err());
}

#[test]
fn test_valid_config_mount_and_file() {
    let config = FlureeConfig::new(
        8090,
        None,
        Some("cfg".to_string()),
        Some("config.edn".to_string()),
    );
    assert!(config.validate(&ok_probes()).is_ok());
}

#[test]
fn test_invalid_config_file() {
    let config = FlureeConfig::new(
        8090,
        None,
        Some("cfg".to_string()),
        Some("nonexistent.edn".to_string()),
    );
    let mut probes = ok_probes();
    probes.config_file_exists = false;
    let err = config.validate(&probes).unwrap_err();
    assert_eq!(
        err.message(),
        "Configuration error: Config file does not exist: cfg/nonexistent.edn"
    );
}

#[test]
fn test_default_config() {
    let config = FlureeConfig::default();
    assert_eq!(config.host_port, 8090);
    assert!(config.data_mount.is_none());
    assert!(config.config_mount.is_none());
    assert!(config.config_file.is_none());
}

#[test]
fn test_custom_config() {
    let config = FlureeConfig::new(9090, None, None, None);
    assert_eq!(config.host_port, 9090);
    assert!(config.data_mount.is_none());
    assert!(config.config_mount.is_none());
    assert!(config.config_file.is_none());
}

#[test]
fn test_invalid_port() {
    let config = FlureeConfig::new(80, None, None, None);
    let err = config.validate(&ok_probes()).unwrap_err();
    assert_eq!(
        err.message(),
        "Configuration error: Host port must be greater than 1023"
    );
}

#[test]
fn test_invalid_data_mount() {
    let config = FlureeConfig::new(8090, Some("/nonexistent/path".to_string()), None, None);
    let mut probes = ok_probes();
    probes.data_mount.exists = false;
    let err = config.validate(&probes).unwrap_err();
    assert_eq!(
        err.message(),
        "Configuration error: Data mount path does not exist: /nonexistent/path"
    );
}

#[test]
fn test_valid_data_mount() {
    let config = FlureeConfig::new(8090, Some("data".to_string()), None, None);
    assert!(config.validate(&ok_probes()).is_ok());
}

#[test]
fn test_relative_data_mount() {
    let config = FlureeConfig::new(8090, Some("data".to_string()), None, None);
    assert!(config.validate(&ok_probes()).is_ok());
}

#[test]
fn test_data_mount_not_a_directory() {
    let config = FlureeConfig::new(8090, Some("somefile".to_string()), None, None);
    let mut probes = ok_probes();
    probes.data_mount.is_dir = false;
    let err = config.validate(&probes).unwrap_err();
    assert_eq!(
        err.message(),
        "Configuration error: Data mount path is not a directory: somefile"
    );
}

#[test]
fn test_data_mount_unresolvable() {
    let config = FlureeConfig::new(8090, Some("loop".to_string()), None, None);
    let mut probes = ok_probes();
    probes.data_mount.resolve_error = Some("too many levels of symbolic links".to_string());
    let err = config.validate(&probes).unwrap_err();
    assert_eq!(
        err.message(),
        "Failed to resolve Data mount path (configuration file path: loop): too many levels of symbolic links"
    );
}

#[test]
fn test_container_config_default() {
    let config = ContainerConfig::default();
    assert_eq!(config.host_port, 8090);
    assert_eq!(config.container_port, 8090);
    assert!(config.data_mount_path.is_none());
}

#[test]
fn test_into_docker_config() {
    let config = FlureeConfig::new(9090, Some("C:\\data\\".to_string()), None, None);
    let docker = config.into_docker_config();
    assert_eq!(docker.host_port, 9090);
    assert_eq!(docker.container_port, 8090);
    assert_eq!(docker.data_mount_path, Some("C:/data".to_string()));
}

#[test]
fn test_path_to_mount_string() {
    assert_eq!(
        ContainerConfig::path_to_mount_string("C:\\data\\"),
        "C:/data"
    );
    assert_eq!(ContainerConfig::path_to_mount_string("/a/b/"), "/a/b");
    assert_eq!(ContainerConfig::path_to_mount_string("/a/b"), "/a/b");
}
