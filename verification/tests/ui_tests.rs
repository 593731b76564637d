use flocker::error::FlockerError;
use flocker::state::{ContainerInfo, State};
use flocker::ui::{parse_port, ContainerUI, UserInterface};
use flocker::ContainerStatus;

// In-memory UserInterface implementation for testing
struct MockUserInterface;

impl UserInterface for MockUserInterface {
    fn get_string_input(&self, _prompt: &str) -> Result<String, FlockerError> {
        Ok("test".to_string())
    }

    fn get_string_input_with_default(
        &self,
        _prompt: &str,
        default: &str,
    ) -> Result<String, FlockerError> {
        Ok(default.to_string())
    }

    fn get_bool_input(&self, _prompt: &str, default: bool) -> Result<bool, FlockerError> {
        Ok(default)
    }

    fn get_selection(&self, _prompt: &str, items: &Vec<String>) -> Result<usize, FlockerError> {
        if items.is_empty() {
            Err(FlockerError::UserInput("nothing to select".to_string()))
        } else {
            Ok(0)
        }
    }

    fn display_success(&self, _message: &str) {}

    fn display_warning(&self, _message: &str) {}
}

fn create_test_container(id: &str, name: &str, port: u16) -> ContainerInfo {
    ContainerInfo::new(
        id.to_string(),
        name.to_string(),
        port,
        None,
        "latest".to_string(),
    )
}

#[test]
fn test_add_container() {
    let state = State::default();
    let mut ui = ContainerUI::with_ui(state, MockUserInterface);
    let container = create_test_container("test1", "test-container", 8090);

    assert!(ui.add_container(container).is_ok());
}

#[test]
fn test_remove_container_via_ui() {
    let state = State::default();
    let mut ui = ContainerUI::with_ui(state, MockUserInterface);
    ui.add_container(create_test_container("test1", "test-container", 8090))
        .unwrap();
    assert!(ui.remove_container("test1").is_ok());
    assert!(ui.remove_container("test1").is_err());
}

#[test]
fn test_get_port_config_uses_default() {
    let ui = ContainerUI::with_ui(State::default(), MockUserInterface);
    assert_eq!(ui.get_port_config(8090).unwrap(), 8090);
}

#[test]
fn test_get_container_name_and_detach() {
    let ui = ContainerUI::with_ui(State::default(), MockUserInterface);
    assert_eq!(ui.get_container_name().unwrap(), "test");
    assert!(ui.get_detach_config(true).unwrap());
    assert!(!ui.get_detach_config(false).unwrap());
}

#[test]
fn test_display_action_menu_bounds() {
    let ui = ContainerUI::with_ui(State::default(), MockUserInterface);
    let running = ui.display_action_menu(true).unwrap();
    assert!(running < 6);
    let stopped = ui.display_action_menu(false).unwrap();
    assert!(stopped < 2);
}

#[test]
fn test_parse_port() {
    assert_eq!(parse_port("8090").unwrap(), 8090);
    assert_eq!(parse_port("65535").unwrap(), 65535);
    let bad = parse_port("abc").unwrap_err();
    assert_eq!(bad.message(), "User input error: Port must be a valid number");
    let low = parse_port("80").unwrap_err();
    assert_eq!(low.message(), "User input error: Port must be >= 1024");
    let big = parse_port("70000").unwrap_err();
    assert_eq!(big.message(), "User input error: Port must be a valid number");
    assert!(parse_port("").is_err());
}

#[test]
fn test_container_status_style() {
    let running = ContainerStatus::Running {
        id: "test1".to_string(),
        name: "test-container".to_string(),
        port: 8090,
        data_dir: None,
        started_at: Some("2024-01-01T00:00:00Z".to_string()),
    };
    assert_eq!(running.style(), "running");
    let stopped = ContainerStatus::Stopped {
        id: "test1".to_string(),
        name: "test-container".to_string(),
        last_start: None,
    };
    assert_eq!(stopped.style(), "stopped");
    assert_eq!(ContainerStatus::NotFound.style(), "not found");
}
