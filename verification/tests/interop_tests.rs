use river::interop::{FlowModule, FlowRuntime};

#[test]
fn test_runtime_init() {
    let runtime = FlowRuntime::new();
    assert!(runtime.is_ok());
}

#[test]
fn test_runtime_creation() {
    let _runtime = FlowRuntime::new().expect("Failed to create runtime");
}

#[test]
fn test_error_nonexistent_file() {
    let runtime = FlowRuntime::new().unwrap();
    // the file does not exist, so no source text comes with the path
    let result = FlowModule::load(&runtime, "nonexistent_file.flow", &None);
    assert!(result.is_err(), "Should fail to load non-existent file");
}

#[test]
fn test_module_load_keeps_path_and_source() {
    let runtime = FlowRuntime::new().unwrap();
    let source = "func main() {\n}\n".to_string();
    let module =
        FlowModule::load(&runtime, "demo.flow", &Some(source.clone())).expect("loads");
    assert_eq!(module.path(), "demo.flow");
    assert_eq!(module.source, source);
}
