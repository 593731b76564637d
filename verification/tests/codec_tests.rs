use flocker::codec::{from_json, load_from, to_json};
use flocker::state::{ContainerInfo, DataDirConfig, State};

fn record(id: &str, name: &str, port: u16) -> ContainerInfo {
    ContainerInfo::new(
        id.to_string(),
        name.to_string(),
        port,
        None,
        "latest".to_string(),
    )
}

#[test]
fn test_state_save_load() {
    let mut state = State::default();
    let container = record("test1", "test", 8090);
    state.add_container(container).unwrap();

    let content = to_json(&state);

    let loaded = from_json(&content).unwrap();
    assert_eq!(loaded.containers().len(), 1);
    let loaded_container = loaded.get_container("test1").unwrap();
    assert_eq!(loaded_container.port, 8090);
    assert_eq!(loaded_container.name, "test");
}

#[test]
fn test_round_trip_full_record() {
    let mut state = State::default();
    let mut container = record("test1", "test", 9090);
    container.data_dir = Some(DataDirConfig::new(
        "/home/u/data".to_string(),
        Some("./data".to_string()),
    ));
    container.last_start = Some("2024-01-01T00:00:00Z".to_string());
    state.add_container(container).unwrap();
    state.add_container(record("test2", "other", 8091)).unwrap();

    let loaded = from_json(&to_json(&state)).unwrap();
    assert_eq!(loaded.containers().len(), 2);
    let c = loaded.get_container("test1").unwrap();
    assert_eq!(c.port, 9090);
    assert_eq!(c.name, "test");
    assert_eq!(c.image_tag, "latest");
    assert_eq!(c.last_start, Some("2024-01-01T00:00:00Z".to_string()));
    let d = c.data_dir.as_ref().unwrap();
    assert_eq!(d.absolute_path, "/home/u/data");
    assert_eq!(d.relative_path, Some("./data".to_string()));
}

#[test]
fn test_to_json_exact() {
    let mut state = State::default();
    let mut container = record("a", "n", 8090);
    container.last_start = Some("2024-01-01T00:00:00Z".to_string());
    state.add_container(container).unwrap();
    assert_eq!(
        to_json(&state),
        "{\"containers\":{\"a\":{\"id\":\"a\",\"name\":\"n\",\"port\":8090,\
         \"data_dir\":null,\"image_tag\":\"latest\",\
         \"last_start\":\"2024-01-01T00:00:00Z\"}}}"
    );
}

#[test]
fn test_round_trip_escaped_name() {
    let mut state = State::default();
    let mut container = record("q", "a\"b\\c", 8090);
    container.last_start = None;
    state.add_container(container).unwrap();
    let text = to_json(&state);
    let loaded = from_json(&text).unwrap();
    assert_eq!(loaded.get_container("q").unwrap().name, "a\"b\\c");
}

#[test]
fn test_load_twice_identical() {
    let mut state = State::default();
    state.add_container(record("a", "n", 8090)).unwrap();
    let text = to_json(&state);
    let first = from_json(&text).unwrap();
    let second = from_json(&text).unwrap();
    assert_eq!(first.containers().len(), second.containers().len());
    assert_eq!(
        first.get_container("a").unwrap().port,
        second.get_container("a").unwrap().port
    );
    assert_eq!(
        first.get_container("a").unwrap().name,
        second.get_container("a").unwrap().name
    );
}

#[test]
fn test_from_json_empty_object() {
    let loaded = from_json("{\"containers\":{}}").unwrap();
    assert!(loaded.containers().is_empty());
}

#[test]
fn test_from_json_rejects_garbage() {
    assert!(from_json("").is_none());
    assert!(from_json("not json").is_none());
    assert!(from_json("{\"containers\":").is_none());
    assert!(from_json("{\"containers\":{},").is_none());
}

#[test]
fn test_from_json_rejects_duplicate_names() {
    let text = "{\"containers\":{\
        \"a\":{\"id\":\"a\",\"name\":\"n\",\"port\":8090,\"data_dir\":null,\
        \"image_tag\":\"latest\",\"last_start\":null},\
        \"b\":{\"id\":\"b\",\"name\":\"n\",\"port\":8091,\"data_dir\":null,\
        \"image_tag\":\"latest\",\"last_start\":null}}}";
    assert!(from_json(text).is_none());
}

#[test]
fn test_load_from_missing_file_is_empty() {
    let loaded = load_from(None, "/cfg/config.json").unwrap();
    assert!(loaded.containers().is_empty());
}

#[test]
fn test_load_from_reports_bad_file() {
    let err = load_from(Some("not a registry"), "/cfg/config.json").unwrap_err();
    assert_eq!(
        err.message(),
        "Failed to parse config file (configuration file path: /cfg/config.json): \
         the file is not a registry this tool wrote"
    );
}

#[test]
fn test_from_json_rejects_mismatched_key() {
    let text = "{\"containers\":{\
        \"x\":{\"id\":\"a\",\"name\":\"n\",\"port\":8090,\"data_dir\":null,\
        \"image_tag\":\"latest\",\"last_start\":null}}}";
    assert!(from_json(text).is_none());
}
