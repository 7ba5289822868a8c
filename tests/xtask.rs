use microdragon::xtask::{
    default_modules, join_strings, Bootloader, BuildArguments, Firmware, IsoArguments, ModuleInfo,
    ResolvedDependency, RunArguments, Target,
};

fn build(target: Target, bootloader: Bootloader) -> BuildArguments {
    BuildArguments { target, bootloader, release: false, modules: default_modules() }
}

#[test]
fn target_names() {
    assert_eq!(Target::X86_64.as_rust_target(), "x86_64-unknown-none");
    assert_eq!(Target::AArch64.as_rust_target(), "aarch64-unknown-none-softfloat");
    assert_eq!(Target::RiscV64.as_rust_target(), "riscv64imac-unknown-none-elf");
    assert_eq!(Target::default(), Target::X86_64);
    assert_eq!(Firmware::Uefi.name(), "uefi");
    assert_eq!(Firmware::default(), Firmware::Bios);
}

#[test]
fn bootloaders() {
    assert_eq!(Bootloader::Limine.as_bootloader_package(), "microdragon-limine");
    assert_eq!(Bootloader::Rust.as_bootloader_package(), "microdragon-rust");
    assert!(Bootloader::Limine.supports_target(Target::RiscV64));
    assert!(Bootloader::Rust.supports_target(Target::X86_64));
    assert!(!Bootloader::Rust.supports_target(Target::AArch64));
}

#[test]
fn module_selection_text() {
    let plain = ModuleInfo::parse("logging");
    assert_eq!(plain.name, "logging");
    assert!(plain.features.is_empty() && plain.default_features);
    assert_eq!(plain.to_text(), "logging");

    let extra = ModuleInfo::parse("logging=terminal,,serial");
    assert_eq!(extra.name, "logging");
    assert_eq!(extra.features, vec!["terminal".to_string(), "serial".to_string()]);
    assert!(extra.default_features);
    assert_eq!(extra.to_text(), "logging=terminal,serial");

    let only = ModuleInfo::parse("logging==serial");
    assert_eq!(only.features, vec!["serial".to_string()]);
    assert!(!only.default_features);
    assert_eq!(only.to_text(), "logging==serial");

    let none = ModuleInfo::parse("acpi==");
    assert!(none.features.is_empty() && !none.default_features);
    assert_eq!(none.to_text(), "acpi==");
}

#[test]
fn default_module_list() {
    let modules = default_modules();
    assert_eq!(modules.len(), 2);
    assert_eq!(modules[0].name, "acpi");
    assert_eq!(modules[1].name, "logging");
    assert_eq!(ModuleInfo::new("kmm").to_text(), "kmm");
}

#[test]
fn build_checks_and_arguments() {
    assert!(build(Target::X86_64, Bootloader::Rust).check_target().is_ok());
    assert_eq!(
        build(Target::AArch64, Bootloader::Rust).check_target().unwrap_err(),
        "The selected bootloader (Rust Bootloader) does not support the selected target (aarch64)"
    );
    let mut args = build(Target::X86_64, Bootloader::Limine);
    assert_eq!(args.output_directory("/ws/target"), "/ws/target/x86_64-unknown-none/debug");
    args.release = true;
    assert_eq!(args.output_directory("/ws/target"), "/ws/target/x86_64-unknown-none/release");
    let module = ModuleInfo::parse("logging==serial,terminal");
    assert_eq!(
        args.module_build_args(&module),
        vec![
            "build", "--target", "x86_64-unknown-none", "--package", "logging",
            "--no-default-features", "--features", "serial,terminal",
        ]
    );
    assert_eq!(
        args.module_build_args(&ModuleInfo::new("acpi")),
        vec!["build", "--target", "x86_64-unknown-none", "--package", "acpi"]
    );
    assert_eq!(
        BuildArguments::module_extern_args("acpi", "/out"),
        vec!["--extern", "acpi=/out/libacpi.rlib"]
    );
    assert_eq!(join_strings(&vec!["a".to_string(), "b".to_string()], ", "), "a, b");
}

#[test]
fn iso_and_run_checks() {
    let iso = IsoArguments { build: build(Target::X86_64, Bootloader::Rust) };
    assert_eq!(iso.check_bootloader().unwrap_err(), "Rust Bootloader does not support booting from disk.");
    let run = RunArguments {
        build: build(Target::X86_64, Bootloader::Rust),
        firmware: Firmware::Bios,
        no_debug: true,
        args: Vec::new(),
    };
    assert_eq!(run.check_firmware().unwrap_err(), "Cannot PXE boot the rust bootloader using bios firmware.");
    let (bin, args) = run.qemu_command().unwrap();
    assert_eq!(bin, "qemu-system-x86_64");
    assert_eq!(args, vec!["-cpu", "qemu64"]);
    let debug = RunArguments {
        build: build(Target::AArch64, Bootloader::Limine),
        firmware: Firmware::Uefi,
        no_debug: false,
        args: Vec::new(),
    };
    assert!(debug.check_firmware().is_ok());
    let (bin, args) = debug.qemu_command().unwrap();
    assert_eq!(bin, "qemu-system-aarch64");
    assert_eq!(args, vec!["-M", "virt", "-gdb", "tcp:localhost:1234", "-S"]);
    let riscv = RunArguments { build: build(Target::RiscV64, Bootloader::Limine), ..debug };
    assert!(riscv.qemu_command().is_none());
}

#[test]
fn dependency_paths() {
    let dep = ResolvedDependency::new("/deps/limine".to_string());
    assert_eq!(dep.path(), "/deps/limine");
    assert_eq!(dep.at(&vec!["bin".to_string(), "limine".to_string()]), "/deps/limine/bin/limine");
    assert_eq!(dep.at(&vec!["/abs".to_string(), "x".to_string()]), "/abs/x");
    let trailing = ResolvedDependency::new("/deps/".to_string());
    assert_eq!(trailing.at(&vec!["ovmf".to_string()]), "/deps/ovmf");
}
