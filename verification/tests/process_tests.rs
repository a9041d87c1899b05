use cleanmeter::process::ProcessManager;

#[test]
fn builds_the_autostart_value() {
    assert_eq!(
        ProcessManager::autostart_command("C:\\Apps\\cleanmeter.exe"),
        "\"C:\\Apps\\cleanmeter.exe\" --autostart"
    );
}

#[test]
fn finds_the_run_value_in_query_output() {
    let out = b"\r\nHKEY_CURRENT_USER\\Software\\Microsoft\\Windows\\CurrentVersion\\Run\r\n    cleanmeter    REG_SZ    \"C:\\x.exe\" --autostart\r\n";
    assert!(ProcessManager::autostart_listed(out));
    assert!(!ProcessManager::autostart_listed(b"ERROR: The system was unable to find"));
    assert!(!ProcessManager::autostart_listed(b""));
}

#[test]
fn judges_registry_writes() {
    assert_eq!(ProcessManager::registry_write_result(true, b"ignored"), Ok(()));
    assert_eq!(
        ProcessManager::registry_write_result(false, b"ERROR: Access is denied."),
        Err("Registry write failed: ERROR: Access is denied.".to_string())
    );
}

#[test]
fn judges_registry_deletes() {
    assert_eq!(ProcessManager::registry_delete_result(true, b""), Ok(()));
    assert_eq!(
        ProcessManager::registry_delete_result(
            false,
            b"ERROR: The system was unable to find the specified registry key or value.\r\n"
        ),
        Ok(())
    );
    assert_eq!(
        ProcessManager::registry_delete_result(false, b"ERROR: Access is denied."),
        Err("Registry delete failed: ERROR: Access is denied.".to_string())
    );
}

#[test]
fn service_changes_need_elevation() {
    assert_eq!(ProcessManager::install_service_permission(true), Ok(()));
    assert_eq!(
        ProcessManager::install_service_permission(false),
        Err("Administrator privileges are required to install Windows Service.".to_string())
    );
    assert_eq!(ProcessManager::uninstall_service_permission(true), Ok(()));
    assert_eq!(
        ProcessManager::uninstall_service_permission(false),
        Err("Administrator privileges are required to uninstall Windows Service.".to_string())
    );
}

#[test]
fn picks_the_service_binary() {
    assert_eq!(ProcessManager::service_binary_name(true), "HardwareMonitor-x86_64-pc-windows-msvc.exe");
    assert_eq!(ProcessManager::service_binary_name(false), "HardwareMonitor-x86_64-pc-windows-gnu.exe");
}

#[test]
fn judges_service_commands() {
    assert_eq!(ProcessManager::service_create_result(true, b""), Ok(()));
    assert_eq!(
        ProcessManager::service_create_result(false, b"[SC] CreateService FAILED 1073:\r\n"),
        Err("Service creation failed: [SC] CreateService FAILED 1073:\r\n".to_string())
    );
    assert_eq!(
        ProcessManager::service_delete_result(false, b"[SC] OpenService FAILED 1060:\r\n\r\nThe specified service does not exist as an installed service.\r\n"),
        Ok(())
    );
    assert_eq!(
        ProcessManager::service_delete_result(false, b"[SC] DeleteService FAILED 5:\r\n"),
        Err("Service delete failed: [SC] DeleteService FAILED 5:\r\n".to_string())
    );
    assert_eq!(ProcessManager::service_delete_result(true, b""), Ok(()));
}

#[test]
fn error_output_is_read_lossily() {
    assert_eq!(
        ProcessManager::service_create_result(false, &[b'x', 0xff]),
        Err("Service creation failed: x\u{fffd}".to_string())
    );
}
