use capsule::dxgi;
use capsule::hooks::{self, is_test_probe, is_using_opengl, Hook, HookState, TEST_SENTINEL};
use capsule::hotkey;
use capsule::runner::OS;
use capsule::safe_env;
use capsule::settings::{in_test, parse_port, supervisor_port, SettingsError, PORT_VARIABLE, TEST_VARIABLE};
use capsule::wincap::{get_module_if_loaded, position_of};

fn names(list: &[&str]) -> Vec<String> {
    list.iter().map(|s| s.to_string()).collect()
}

#[test]
fn modules_are_found_without_regard_to_case() {
    let modules = names(&["ntdll.dll", "KERNEL32.DLL", "OpenGL32.dll", "opengl32.dll"]);
    assert_eq!(get_module_if_loaded(&modules, "opengl32.dll"), Some(2));
    assert_eq!(get_module_if_loaded(&modules, "OPENGL32.DLL"), Some(2));
    assert_eq!(get_module_if_loaded(&modules, "kernel32.dll"), Some(1));
    assert_eq!(get_module_if_loaded(&modules, "d3d11.dll"), None);
    assert_eq!(get_module_if_loaded(&vec![], "d3d11.dll"), None);
}

#[test]
fn exact_names_are_found_exactly() {
    let modules = names(&["a", "B", "b"]);
    assert_eq!(position_of(&modules, "b"), Some(2));
    assert_eq!(position_of(&modules, "B"), Some(1));
    assert_eq!(position_of(&modules, "c"), None);
}

#[test]
fn the_graphics_library_is_recognised() {
    assert!(is_using_opengl(&names(&["ntdll.dll", "OPENGL32.DLL"])));
    assert!(!is_using_opengl(&names(&["ntdll.dll", "opengl32.dll.bak"])));
    assert!(!is_using_opengl(&vec![]));
}

#[test]
fn the_presentation_call_is_hooked_once() {
    let mut state = HookState::new();
    assert!(!state.swap_buffers);
    assert!(!state.hook_if_needed(false));
    assert!(!state.swap_buffers);
    assert!(state.hook_if_needed(true));
    assert!(state.swap_buffers);
    assert!(!state.hook_if_needed(true));
    assert!(!state.hook_if_needed(false));
    assert!(state.swap_buffers);
}

#[test]
fn the_hooks_at_start_up() {
    let mut state = HookState::new();
    assert_eq!(
        hooks::initialize(&mut state, OS::Windows, false),
        vec![Hook::LoadLibraryA, Hook::LoadLibraryW]
    );
    assert!(!state.swap_buffers);
    assert_eq!(
        hooks::initialize(&mut state, OS::Windows, true),
        vec![Hook::LoadLibraryA, Hook::LoadLibraryW, Hook::SwapBuffers]
    );
    assert!(state.swap_buffers);
    let mut state = HookState::new();
    assert_eq!(hooks::initialize(&mut state, OS::Linux, true), vec![Hook::SwapBuffers]);
    assert_eq!(hooks::initialize(&mut state, OS::Linux, true), vec![]);
    let mut state = HookState::new();
    assert_eq!(hooks::initialize(&mut state, OS::MacOS, false), vec![Hook::Dlopen]);
    assert_eq!(hooks::initialize(&mut state, OS::MacOS, true), vec![Hook::Dlopen, Hook::SwapBuffers]);
}

#[test]
fn the_test_harness_is_recognised() {
    assert_eq!(TEST_SENTINEL, 3735928559);
    assert!(is_test_probe(true, 0xDEADBEEF));
    assert!(!is_test_probe(false, 0xDEADBEEF));
    assert!(!is_test_probe(true, 0xDEADBEEE));
}

#[test]
fn the_factory_hooks() {
    assert_eq!(dxgi::initialize(OS::Windows), Some(Hook::CreateDxgiFactory));
    assert_eq!(dxgi::initialize(OS::Linux), None);
    assert_eq!(dxgi::initialize(OS::MacOS), None);
    assert!(dxgi::succeeded(0));
    assert!(dxgi::succeeded(1));
    assert!(!dxgi::succeeded(-1));
    assert_eq!(dxgi::on_factory_created(0), Some(Hook::CreateSwapChainForHwnd));
    assert_eq!(dxgi::on_factory_created(-2147467259), None);
}

#[test]
fn the_hotkey_listener() {
    assert!(hotkey::initialize(OS::Windows));
    assert!(!hotkey::initialize(OS::Linux));
    assert!(!hotkey::initialize(OS::MacOS));
    assert!(hotkey::poll(1));
    assert!(!hotkey::poll(0));
    assert_eq!(hotkey::HOTKEY_ID, 1);
    assert_eq!(hotkey::VK_F9, 120);
    assert_eq!(hotkey::MOD_NOREPEAT, 16384);
}

#[test]
fn the_first_variable_of_a_name_wins() {
    let vars = vec![
        (String::from("RUST_LOG"), String::from("info")),
        (String::from("CAPSULE_PORT"), String::from("4321")),
        (String::from("CAPSULE_PORT"), String::from("1")),
    ];
    assert_eq!(safe_env::get(&vars, "CAPSULE_PORT"), Some(String::from("4321")));
    assert_eq!(safe_env::get(&vars, "RUST_LOG"), Some(String::from("info")));
    assert_eq!(safe_env::get(&vars, "capsule_port"), None);
    assert_eq!(safe_env::get(&vars, "CAPSULE"), None);
    assert_eq!(safe_env::get(&vec![], "CAPSULE_PORT"), None);
}

#[test]
fn the_port_is_read_from_the_environment() {
    assert_eq!(PORT_VARIABLE, "CAPSULE_PORT");
    assert_eq!(supervisor_port(Some("4321")), Ok(4321));
    assert_eq!(supervisor_port(Some("0")), Ok(0));
    assert_eq!(supervisor_port(Some("65535")), Ok(65535));
    assert_eq!(supervisor_port(Some("65536")), Err(SettingsError::PortUnparsable));
    assert_eq!(supervisor_port(Some("")), Err(SettingsError::PortUnparsable));
    assert_eq!(supervisor_port(Some("http")), Err(SettingsError::PortUnparsable));
    assert_eq!(supervisor_port(Some(" 80")), Err(SettingsError::PortUnparsable));
    assert_eq!(supervisor_port(None), Err(SettingsError::PortMissing));
}

#[test]
fn port_numbers() {
    assert_eq!(parse_port("80"), Some(80));
    assert_eq!(parse_port("+80"), Some(80));
    assert_eq!(parse_port("007"), Some(7));
    assert_eq!(parse_port("0000065535"), Some(65535));
    assert_eq!(parse_port("65536"), None);
    assert_eq!(parse_port("99999999999999999999"), None);
    assert_eq!(parse_port("+"), None);
    assert_eq!(parse_port("++1"), None);
    assert_eq!(parse_port("-1"), None);
    assert_eq!(parse_port("-0"), None);
    assert_eq!(parse_port("8o"), None);
    assert_eq!(parse_port("80 "), None);
    assert_eq!(parse_port("8_0"), None);
    assert_eq!(parse_port("\u{663}"), None);
    assert_eq!(parse_port(""), None);
    for port in [0u16, 1, 9, 10, 4321, 65534, 65535] {
        assert_eq!(parse_port(&port.to_string()), Some(port));
    }
    // The standard reading of a number agrees.
    for text in ["", "+", "+5", "-5", "65535", "65536", "1e3", "0x10", " 1", "\u{661}"] {
        assert_eq!(parse_port(text), text.parse::<u16>().ok());
    }
}

#[test]
fn the_test_flag() {
    assert_eq!(TEST_VARIABLE, "CAPSULE_TEST");
    assert!(in_test(Some("1")));
    assert!(!in_test(Some("0")));
    assert!(!in_test(Some("")));
    assert!(!in_test(Some("11")));
    assert!(!in_test(Some("true")));
    assert!(!in_test(None));
}
