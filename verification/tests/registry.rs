use nixos_needsreboot::modules::ErrorKind;
use nixos_needsreboot::modules::LinkTarget;
use nixos_needsreboot::modules::ModuleType;
use nixos_needsreboot::modules::SystemRoot;
use nixos_needsreboot::registry::upgrades_available;

fn resolved(s: &str) -> LinkTarget {
    LinkTarget::Resolved(String::from(s))
}

#[test]
fn kernel_upgrade_yields_one_reason() {
    let reasons = upgrades_available(
        &resolved("/nix/store/aaa-linux-6.6.1/bin/vmlinuz"),
        &resolved("/nix/store/bbb-linux-6.6.2/bin/vmlinuz"),
        &resolved("/nix/store/ccc-systemd-255.2"),
        &resolved("/nix/store/ddd-systemd-255.2"),
    )
    .unwrap();
    assert_eq!(reasons, vec![String::from("Linux Kernel (6.6.1 -> 6.6.2)\n")]);
}

#[test]
fn no_version_change_yields_no_reasons() {
    let reasons = upgrades_available(
        &resolved("/nix/store/aaa-linux-6.6.1/bin/vmlinuz"),
        &resolved("/nix/store/bbb-linux-6.6.1/bin/vmlinuz"),
        &resolved("/nix/store/ccc-systemd-255.2"),
        &resolved("/nix/store/ddd-systemd-255.2"),
    )
    .unwrap();
    assert!(reasons.is_empty());
}

#[test]
fn kernel_reasons_precede_systemd_reasons() {
    let reasons = upgrades_available(
        &resolved("/nix/store/aaa-linux-6.6.1/bin/vmlinuz"),
        &resolved("/nix/store/bbb-linux-6.6.2/bin/vmlinuz"),
        &resolved("/nix/store/ccc-systemd-255.2"),
        &resolved("/nix/store/ddd-systemd-255.4"),
    )
    .unwrap();
    assert_eq!(
        reasons,
        vec![
            String::from("Linux Kernel (6.6.1 -> 6.6.2)\n"),
            String::from("Systemd (255.2 -> 255.4)\n"),
        ]
    );
}

#[test]
fn reasons_use_normalized_versions() {
    let reasons = upgrades_available(
        &resolved("/nix/store/aaa-linux-6.6.1/bin/vmlinuz"),
        &resolved("/nix/store/bbb-linux-6.6.1-rc2/bin/vmlinuz"),
        &resolved("/nix/store/ccc-systemd-255.2"),
        &resolved("/nix/store/ddd-systemd-255.2"),
    )
    .unwrap();
    assert_eq!(
        reasons,
        vec![String::from("Linux Kernel (6.6.1.0 -> 6.6.1.2)\n")]
    );
}

#[test]
fn each_triggering_segment_reports_its_own_reason() {
    let reasons = upgrades_available(
        &resolved("/nix/store/aaa-linux-5.5.5/bin/vmlinuz"),
        &resolved("/nix/store/bbb-linux-6.6.6/bin/vmlinuz"),
        &resolved("/nix/store/ccc-systemd-255.2"),
        &resolved("/nix/store/ddd-systemd-255.2"),
    )
    .unwrap();
    assert_eq!(
        reasons,
        vec![
            String::from("Linux Kernel (5.5.5 -> 6.6.6)\n"),
            String::from("Linux Kernel (5.5.5 -> 6.6.6)\n"),
            String::from("Linux Kernel (5.5.5 -> 6.6.6)\n"),
        ]
    );
}

#[test]
fn identical_inputs_give_identical_ordered_output() {
    let run = || {
        upgrades_available(
            &resolved("/nix/store/aaa-linux-6.6.1/bin/vmlinuz"),
            &resolved("/nix/store/bbb-linux-6.6.2/bin/vmlinuz"),
            &resolved("/nix/store/ccc-systemd-255.2"),
            &resolved("/nix/store/ddd-systemd-255.4"),
        )
        .unwrap()
    };
    assert_eq!(run(), run());
}

#[test]
fn broken_symlink_aborts_whole_check() {
    // Even though both modules' other targets would produce reasons, a
    // resolver failure yields an error and no partial reason list.
    let err = upgrades_available(
        &LinkTarget::ReadFailed(String::from("no such file or directory")),
        &resolved("/nix/store/bbb-linux-6.6.2/bin/vmlinuz"),
        &resolved("/nix/store/ccc-systemd-255.2"),
        &resolved("/nix/store/ddd-systemd-255.4"),
    )
    .unwrap_err();
    assert!(matches!(err.module, ModuleType::LinuxKernel));
    assert!(matches!(err.root, SystemRoot::Booted));
    assert!(
        matches!(err.kind, ErrorKind::SymlinkRead { detail } if detail == "no such file or directory")
    );
}

#[test]
fn unreadable_text_reports_encoding_error() {
    let err = upgrades_available(
        &resolved("/nix/store/aaa-linux-6.6.1/bin/vmlinuz"),
        &LinkTarget::NotText,
        &resolved("/nix/store/ccc-systemd-255.2"),
        &resolved("/nix/store/ddd-systemd-255.2"),
    )
    .unwrap_err();
    assert!(matches!(err.module, ModuleType::LinuxKernel));
    assert!(matches!(err.root, SystemRoot::Pending));
    assert!(matches!(err.kind, ErrorKind::Encoding));
}

#[test]
fn short_kernel_target_reports_path_shape_error() {
    let err = upgrades_available(
        &resolved("vmlinuz"),
        &resolved("/nix/store/bbb-linux-6.6.2/bin/vmlinuz"),
        &resolved("/nix/store/ccc-systemd-255.2"),
        &resolved("/nix/store/ddd-systemd-255.2"),
    )
    .unwrap_err();
    assert!(matches!(err.module, ModuleType::LinuxKernel));
    assert!(matches!(err.root, SystemRoot::Booted));
    assert!(matches!(err.kind, ErrorKind::PathShape { target } if target == "vmlinuz"));
}

#[test]
fn missing_marker_reports_version_not_found() {
    let err = upgrades_available(
        &resolved("/nix/store/aaa-linux-6.6.1/bin/vmlinuz"),
        &resolved("/nix/store/bbb-linux-6.6.2/bin/vmlinuz"),
        &resolved("/nix/store/ccc-sysd-255.2"),
        &resolved("/nix/store/ddd-systemd-255.2"),
    )
    .unwrap_err();
    assert!(matches!(err.module, ModuleType::Systemd));
    assert!(matches!(err.root, SystemRoot::Booted));
    assert!(
        matches!(err.kind, ErrorKind::VersionNotFound { store_path } if store_path == "/nix/store/ccc-sysd-255.2")
    );
}

#[test]
fn systemd_failure_still_aborts_after_kernel_reasons() {
    // The kernel was already compared and had reasons, yet a systemd
    // failure discards them: the check is all-or-nothing.
    let result = upgrades_available(
        &resolved("/nix/store/aaa-linux-6.6.1/bin/vmlinuz"),
        &resolved("/nix/store/bbb-linux-6.6.2/bin/vmlinuz"),
        &LinkTarget::ReadFailed(String::from("permission denied")),
        &resolved("/nix/store/ddd-systemd-255.2"),
    );
    let err = result.unwrap_err();
    assert!(matches!(err.module, ModuleType::Systemd));
    assert!(matches!(err.root, SystemRoot::Booted));
}
