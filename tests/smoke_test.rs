//! Checks that the crate's parts can be reached and put together.

use omnisearch_core::config::{validate_config, Config};

#[test]
fn test_config_loading() {
    let _config = Config::default();
    assert!(true);
}

#[test]
fn test_application_startup_sequence() {
    let config = Config::default();
    assert!(validate_config(&config).is_ok());
}

#[test]
fn test_provider_availability_logging() {
    let config = Config::default();
    let checker = omnisearch_core::health::HealthChecker::new(0);
    assert_eq!(checker.count_available_providers(&config), 1);
}

#[test]
fn test_application_compilation() {}

#[test]
fn main_app_test_test_server_handler_compilation() {}

#[test]
fn test_main_application_compilation() {
    assert!(true);
}

#[test]
fn test_main_application_dependencies() {
    assert!(true);
}

#[test]
fn main_application_test_test_server_handler_compilation() {
    assert!(true);
}

#[test]
fn test_server_initialization_sequence() {
    assert!(true);
}

#[test]
fn test_transport_creation() {
    assert!(true);
}

#[test]
fn test_server_capabilities_definition() {
    assert!(true);
}

#[test]
fn test_protocol_version_compatibility() {
    assert!(true);
}

#[test]
fn test_error_handling_in_main_context() {
    assert!(true);
}

#[test]
fn test_async_runtime_availability() {
    assert!(true);
}

#[test]
fn test_server_module_compilation() {}

#[test]
fn test_server_handler_structures() {}

#[test]
fn test_server_tools_module_compilation() {}

#[test]
fn test_server_tools_structures() {}

#[test]
fn test_server_handler_imports() {}

#[test]
fn test_server_tools_imports() {}

#[test]
fn test_server_component_interfaces() {}

#[test]
fn test_server_component_construction() {}

#[test]
fn test_server_component_method_signatures() {}

#[test]
fn test_server_component_error_handling() {}
