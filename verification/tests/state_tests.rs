use flocker::state::{ContainerInfo, DataDirConfig, State};

fn record(id: &str, name: &str, port: u16) -> ContainerInfo {
    ContainerInfo::new(
        id.to_string(),
        name.to_string(),
        port,
        None,
        "latest".to_string(),
    )
}

#[test]
fn test_state_default() {
    let state = State::default();
    assert!(state.containers().is_empty());
}

#[test]
fn test_container_management() {
    let mut state = State::default();

    // Add container
    let container = record("test1", "test-1", 8090);
    state.add_container(container).unwrap();
    assert_eq!(state.containers().len(), 1);

    // Get container
    let container = state.get_container("test1").unwrap();
    assert_eq!(container.name, "test-1");

    // Update status
    state
        .update_container_status("test1", true, Some("2024-01-01T00:00:00Z".to_string()))
        .unwrap();
    let container = state.get_container("test1").unwrap();
    assert_eq!(
        container.last_start,
        Some("2024-01-01T00:00:00Z".to_string())
    );

    // Remove container
    state.remove_container("test1").unwrap();
    assert!(state.containers().is_empty());

    // Test removing non-existent container
    assert!(state.remove_container("test1").is_err());
}

#[test]
fn test_container_name_uniqueness() {
    let mut state = State::default();

    // Add first container
    let container1 = record("test1", "test", 8090);
    state.add_container(container1).unwrap();

    // Try to add second container with same name
    let container2 = record("test2", "test", 8091);
    assert!(state.add_container(container2).is_err());
}

#[test]
fn test_find_containers() {
    let mut state = State::default();

    let container1 = record("test1", "test-1", 8090);
    state.add_container(container1).unwrap();

    let mut container2 = record("test2", "test-2", 8091);
    container2.last_start = Some("2024-01-01T00:00:00Z".to_string());
    state.add_container(container2).unwrap();

    let found = state.find_containers_by_name("test-1");
    assert_eq!(found.len(), 1);
    assert_eq!(found[0].id, "test1");
}

#[test]
fn test_name_conflict_message() {
    let mut state = State::default();
    state.add_container(record("a", "n", 8090)).unwrap();
    let err = state.add_container(record("b", "n", 8091)).unwrap_err();
    assert_eq!(
        err.message(),
        "Configuration error: Container name 'n' is already in use by container a"
    );
    // The registry still holds only the first record.
    let all = state.get_containers();
    assert_eq!(all.len(), 1);
    assert_eq!(all[0].id, "a");
}

#[test]
fn test_remove_nonexistent_leaves_registry() {
    let mut state = State::default();
    state.add_container(record("a", "n", 8090)).unwrap();
    let err = state.remove_container("b").unwrap_err();
    assert_eq!(
        err.message(),
        "Configuration error: Container b not found in state"
    );
    assert_eq!(state.containers().len(), 1);
    // Removing the same id twice fails the second time.
    state.remove_container("a").unwrap();
    assert!(state.remove_container("a").is_err());
}

#[test]
fn test_update_start_time() {
    let mut state = State::default();
    state.add_container(record("a", "n", 8090)).unwrap();
    state
        .update_container_start_time("a", "2024-02-03T04:05:06Z".to_string())
        .unwrap();
    assert_eq!(
        state.get_container("a").unwrap().last_start,
        Some("2024-02-03T04:05:06Z".to_string())
    );
    assert!(state
        .update_container_start_time("missing", "2024-02-03T04:05:06Z".to_string())
        .is_err());
}

#[test]
fn test_list_containers_order() {
    let mut state = State::default();
    let mut c1 = record("one", "first", 8090);
    c1.last_start = Some("2024-01-01T00:00:00Z".to_string());
    let mut c2 = record("two", "second", 8091);
    c2.last_start = Some("2024-01-02T00:00:00Z".to_string());
    let mut c3 = record("three", "third", 8092);
    c3.last_start = None;
    state.add_container(c1).unwrap();
    state.add_container(c2).unwrap();
    state.add_container(c3).unwrap();

    let listed = state.get_containers();
    assert_eq!(listed.len(), 3);
    assert_eq!(listed[0].id, "two");
    assert_eq!(listed[1].id, "one");
    assert_eq!(listed[2].id, "three");
}

#[test]
fn test_default_settings_empty() {
    let state = State::default();
    let (port, mount) = state.get_default_settings();
    assert_eq!(port, 8090);
    assert!(mount.is_none());
}

#[test]
fn test_default_settings_most_recent() {
    let mut state = State::default();
    let mut c1 = record("one", "first", 9001);
    c1.last_start = Some("2024-01-01T00:00:00Z".to_string());
    c1.data_dir = Some(DataDirConfig::new("/data/one".to_string(), None));
    let mut c2 = record("two", "second", 9002);
    c2.last_start = Some("2024-01-02T00:00:00Z".to_string());
    c2.data_dir = Some(DataDirConfig::new(
        "/data/two".to_string(),
        Some("two".to_string()),
    ));
    state.add_container(c1).unwrap();
    state.add_container(c2).unwrap();

    let (port, mount) = state.get_default_settings();
    assert_eq!(port, 9002);
    assert_eq!(mount.unwrap().absolute_path, "/data/two");
}

#[test]
fn test_data_dir_display() {
    let with_rel = DataDirConfig::new("/a/b".to_string(), Some("b".to_string()));
    assert_eq!(with_rel.display_relative_path(), "b");
    let without_rel = DataDirConfig::new("/a/b".to_string(), None);
    assert_eq!(without_rel.display_relative_path(), "/a/b");
}

#[test]
fn test_data_dir_from_path() {
    let inside = DataDirConfig::from_path_str("/base/data", "/base");
    assert_eq!(inside.absolute_path, "/base/data");
    assert_eq!(inside.relative_path, Some("data".to_string()));

    let outside = DataDirConfig::from_path_str("/elsewhere/data", "/base");
    assert_eq!(outside.absolute_path, "/elsewhere/data");
    assert_eq!(outside.relative_path, None);
}

#[test]
fn test_data_dir_from_current_dir() {
    let d = DataDirConfig::from_current_dir("/home/user");
    assert_eq!(d.absolute_path, "/home/user/data");
    assert_eq!(d.relative_path, Some("./data".to_string()));
    assert_eq!(d.display_relative_path(), "./data");
}
