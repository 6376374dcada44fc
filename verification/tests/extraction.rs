use nixos_needsreboot::modules::file_name;
use nixos_needsreboot::modules::truncate_store_path;
use nixos_needsreboot::modules::ModuleType;
use nixos_needsreboot::modules::SystemRoot;

#[test]
fn kernel_version_follows_linux_marker() {
    assert_eq!(
        ModuleType::extract_kernel_version("abcdef-linux-6.6.1"),
        Some(String::from("6.6.1"))
    );
}

#[test]
fn kernel_version_uses_final_path_segment() {
    assert_eq!(
        ModuleType::extract_kernel_version("/nix/store/abcdef-linux-6.6.1"),
        Some(String::from("6.6.1"))
    );
}

#[test]
fn systemd_version_follows_systemd_marker() {
    assert_eq!(
        ModuleType::extract_systemd_version("abcdef-systemd-255.2"),
        Some(String::from("255.2"))
    );
    assert_eq!(
        ModuleType::extract_systemd_version("/nix/store/abcdef-systemd-255.2"),
        Some(String::from("255.2"))
    );
}

#[test]
fn missing_marker_yields_not_found() {
    assert_eq!(ModuleType::extract_kernel_version("abcdef-6.6.1"), None);
    assert_eq!(ModuleType::extract_systemd_version("abcdef-255.2"), None);
    assert_eq!(ModuleType::extract_kernel_version(""), None);
}

#[test]
fn repeated_kernel_marker_yields_not_found() {
    // Splitting on "-linux-" must give exactly two parts for the kernel.
    assert_eq!(
        ModuleType::extract_kernel_version("a-linux-b-linux-6.6.1"),
        None
    );
}

#[test]
fn repeated_systemd_marker_takes_first_occurrence() {
    // The systemd split stops after the first marker: the remainder is the
    // version, further occurrences included.
    assert_eq!(
        ModuleType::extract_systemd_version("a-systemd-b-systemd-c"),
        Some(String::from("b-systemd-c"))
    );
}

#[test]
fn truncation_keeps_store_package_directory() {
    assert_eq!(
        truncate_store_path("/nix/store/HASH-linux-6.6.1/bin/vmlinuz"),
        Some(String::from("/nix/store/HASH-linux-6.6.1"))
    );
}

#[test]
fn truncation_of_exact_package_directory_is_identity() {
    assert_eq!(
        truncate_store_path("/nix/store/HASH-linux-6.6.1"),
        Some(String::from("/nix/store/HASH-linux-6.6.1"))
    );
}

#[test]
fn truncation_fails_on_too_few_segments() {
    assert_eq!(truncate_store_path("/nix/store"), None);
    assert_eq!(truncate_store_path(""), None);
    assert_eq!(truncate_store_path("no-slashes"), None);
}

#[test]
fn file_name_is_final_segment() {
    assert_eq!(file_name("/nix/store/abc-systemd-255.2"), "abc-systemd-255.2");
    assert_eq!(file_name("bare-name"), "bare-name");
    assert_eq!(file_name("/"), "");
}

#[test]
fn link_locations_join_root_and_link_name() {
    assert_eq!(
        ModuleType::LinuxKernel.link_location(SystemRoot::Booted),
        "/run/booted-system/kernel"
    );
    assert_eq!(
        ModuleType::Systemd.link_location(SystemRoot::Pending),
        "/nix/var/nix/profiles/system/systemd"
    );
}

#[test]
fn truncation_applies_only_to_the_kernel() {
    assert!(ModuleType::LinuxKernel.requires_truncation());
    assert!(!ModuleType::Systemd.requires_truncation());
}

#[test]
fn display_names_match_reported_reasons() {
    assert_eq!(ModuleType::LinuxKernel.display_name(), "Linux Kernel");
    assert_eq!(ModuleType::Systemd.display_name(), "Systemd");
}
