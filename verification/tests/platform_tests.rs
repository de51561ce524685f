use bum::platform::get_architecture;

#[test]
fn macos_x86_64_maps_to_darwin_x64() {
    assert_eq!(get_architecture("macos", "x86_64"), "darwin-x64");
}

#[test]
fn linux_arm_maps_to_linux_aarch64() {
    assert_eq!(get_architecture("linux", "arm"), "linux-aarch64");
}

#[test]
fn unknown_values_pass_through() {
    assert_eq!(get_architecture("freebsd", "riscv64"), "freebsd-riscv64");
    assert_eq!(get_architecture("linux", "aarch64"), "linux-aarch64");
    assert_eq!(get_architecture("windows", "x86_64"), "windows-x64");
}
