//! Decisions of the build tool that drives kernel builds: targets,
//! bootloaders, firmware, built-in module selection, and the arguments handed
//! to cargo and QEMU.
use vstd::prelude::*;
use vstd::string::{StrSliceExecFns, StringExecFns};

verus! {

/// The CPU architecture to build for.
#[derive(Clone, Copy, Debug, PartialEq, Eq, Structural)]
pub enum Target {
    X86_64,
    AArch64,
    RiscV64,
}

impl Target {
    /// The rustc target triple.
    pub open spec fn spec_rust_target(self) -> Seq<char> {
        match self {
            Target::X86_64 => "x86_64-unknown-none"@,
            Target::AArch64 => "aarch64-unknown-none-softfloat"@,
            Target::RiscV64 => "riscv64imac-unknown-none-elf"@,
        }
    }

    /// The rustc target triple.
    pub fn as_rust_target(self) -> (r: &'static str)
        ensures
            r@ == self.spec_rust_target(),
    {
        match self {
            Target::X86_64 => "x86_64-unknown-none",
            Target::AArch64 => "aarch64-unknown-none-softfloat",
            Target::RiscV64 => "riscv64imac-unknown-none-elf",
        }
    }

    /// The name shown to users.
    pub fn name(self) -> (r: &'static str)
        ensures
            r@ == match self {
                Target::X86_64 => "x86_64"@,
                Target::AArch64 => "aarch64"@,
                Target::RiscV64 => "riscv64"@,
            },
    {
        match self {
            Target::X86_64 => "x86_64",
            Target::AArch64 => "aarch64",
            Target::RiscV64 => "riscv64",
        }
    }
}

impl Default for Target {
    fn default() -> (r: Target)
        ensures
            r == Target::X86_64,
    {
        Target::X86_64
    }
}

/// The bootloader to build for.
#[derive(Clone, Copy, Debug, PartialEq, Eq, Structural)]
pub enum Bootloader {
    Limine,
    Rust,
}

impl Bootloader {
    /// Whether the bootloader can boot the target.
    pub open spec fn spec_supports(self, target: Target) -> bool {
        match self {
            Bootloader::Limine => true,
            Bootloader::Rust => target == Target::X86_64,
        }
    }

    /// The package that holds the kernel's entry point for this bootloader.
    pub fn as_bootloader_package(self) -> (r: &'static str)
        ensures
            r@ == match self {
                Bootloader::Limine => "microdragon-limine"@,
                Bootloader::Rust => "microdragon-rust"@,
            },
    {
        match self {
            Bootloader::Limine => "microdragon-limine",
            Bootloader::Rust => "microdragon-rust",
        }
    }

    /// Whether the bootloader can boot the target: Limine boots every target,
    /// the Rust bootloader only x86_64.
    pub fn supports_target(self, target: Target) -> (r: bool)
        ensures
            r == self.spec_supports(target),
    {
        match self {
            Bootloader::Limine => true,
            Bootloader::Rust => target == Target::X86_64,
        }
    }

    /// The name shown to users.
    pub fn name(self) -> (r: &'static str)
        ensures
            r@ == match self {
                Bootloader::Limine => "Limine"@,
                Bootloader::Rust => "Rust Bootloader"@,
            },
    {
        match self {
            Bootloader::Limine => "Limine",
            Bootloader::Rust => "Rust Bootloader",
        }
    }
}

impl Default for Bootloader {
    fn default() -> (r: Bootloader)
        ensures
            r == Bootloader::Limine,
    {
        Bootloader::Limine
    }
}

/// The firmware QEMU runs.
#[derive(Clone, Copy, Debug, PartialEq, Eq, Structural)]
pub enum Firmware {
    Bios,
    Uefi,
}

impl Firmware {
    /// The name shown to users.
    pub fn name(self) -> (r: &'static str)
        ensures
            r@ == match self {
                Firmware::Bios => "bios"@,
                Firmware::Uefi => "uefi"@,
            },
    {
        match self {
            Firmware::Bios => "bios",
            Firmware::Uefi => "uefi",
        }
    }
}

impl Default for Firmware {
    fn default() -> (r: Firmware)
        ensures
            r == Firmware::Bios,
    {
        Firmware::Bios
    }
}

/// The views of a sequence of strings.
pub open spec fn string_views(s: Seq<String>) -> Seq<Seq<char>> {
    s.map_values(|x: String| x@)
}

/// The parts joined with `sep` between each two.
pub open spec fn join(parts: Seq<Seq<char>>, sep: Seq<char>) -> Seq<char>
    decreases parts.len(),
{
    if parts.len() == 0 {
        Seq::empty()
    } else if parts.len() == 1 {
        parts[0]
    } else {
        join(parts.drop_last(), sep) + sep + parts.last()
    }
}

/// The non-empty pieces of `s` between commas, in order.
pub open spec fn comma_pieces(s: Seq<char>) -> Seq<Seq<char>>
    decreases s.len(),
{
    if s.len() == 0 {
        Seq::empty()
    } else {
        let rest = comma_pieces(s.drop_last());
        if s.last() == ',' {
            rest
        } else {
            let start = last_comma_end(s.drop_last());
            if start == s.len() - 1 {
                rest.push(seq![s.last()])
            } else {
                rest.drop_last().push(s.subrange(start, s.len() as int))
            }
        }
    }
}

/// The position just after the last comma of `s`, or `0` without one.
pub open spec fn last_comma_end(s: Seq<char>) -> int
    decreases s.len(),
{
    if s.len() == 0 {
        0
    } else if s.last() == ',' {
        s.len() as int
    } else {
        last_comma_end(s.drop_last())
    }
}

/// The position of the first `=` of `s`.
pub open spec fn first_equals(s: Seq<char>) -> Option<int>
    decreases s.len(),
{
    if s.len() == 0 {
        None
    } else {
        match first_equals(s.drop_last()) {
            Some(i) => Some(i),
            None => if s.last() == '=' {
                Some(s.len() - 1)
            } else {
                None
            },
        }
    }
}

/// A built-in module to include: its package name, extra features, and
/// whether its default features stay on.
#[derive(Debug, Clone)]
pub struct ModuleInfo {
    pub name: String,
    pub features: Vec<String>,
    pub default_features: bool,
}

/// A module selection as plain values.
pub struct ModuleView {
    pub name: Seq<char>,
    pub features: Seq<Seq<char>>,
    pub default_features: bool,
}

impl View for ModuleInfo {
    type V = ModuleView;

    open spec fn view(&self) -> ModuleView {
        ModuleView {
            name: self.name@,
            features: string_views(self.features@),
            default_features: self.default_features,
        }
    }
}

/// The module selection that text of the form `name`, `name=f1,f2` or
/// `name==f1,f2` describes; `==` turns the default features off.
pub open spec fn spec_parse_module(s: Seq<char>) -> ModuleView {
    match first_equals(s) {
        None => ModuleView { name: s, features: Seq::empty(), default_features: true },
        Some(i) => {
            let default_features = !(i + 1 < s.len() && s[i + 1] == '=');
            let start = if default_features {
                i + 1
            } else {
                i + 2
            };
            ModuleView {
                name: s.subrange(0, i),
                features: comma_pieces(s.subrange(start, s.len() as int)),
                default_features,
            }
        },
    }
}

/// The text form of a module selection.
pub open spec fn spec_module_text(m: ModuleView) -> Seq<char> {
    if m.features.len() == 0 && m.default_features {
        m.name
    } else {
        m.name + (if m.default_features {
            "="@
        } else {
            "=="@
        }) + join(m.features, ","@)
    }
}

/// The position of the first `=` of `s`.
fn find_equals(s: &str, n: usize) -> (r: Option<usize>)
    requires
        n == s@.len(),
    ensures
        first_equals(s@) == match r {
            Some(i) => Some(i as int),
            None => None,
        },
        r matches Some(i) ==> i < n,
{
    let mut i: usize = 0;
    while i < n
        invariant
            n == s@.len(),
            i <= n,
            first_equals(s@.take(i as int)) is None,
        decreases n - i,
    {
        proof {
            assert(s@.take(i + 1).drop_last() =~= s@.take(i as int));
        }
        if s.get_char(i) == '=' {
            proof {
                lemma_first_equals_prefix(s@, i as int);
            }
            return Some(i);
        }
        i = i + 1;
    }
    proof {
        assert(s@.take(n as int) =~= s@);
    }
    None
}

/// The first `=` of a sequence is that of any prefix that holds it.
proof fn lemma_first_equals_prefix(s: Seq<char>, i: int)
    requires
        0 <= i < s.len(),
        s[i] == '=',
        first_equals(s.take(i)) is None,
    ensures
        first_equals(s) == Some(i),
    decreases s.len(),
{
    assert(s.take(i + 1).drop_last() =~= s.take(i));
    if s.len() > i + 1 {
        assert(s.drop_last().take(i) =~= s.take(i));
        lemma_first_equals_prefix(s.drop_last(), i);
    } else {
        assert(s.take(i + 1) =~= s);
    }
}

/// Splits `s` at commas into its non-empty pieces.
fn split_features(s: &str) -> (r: Vec<String>)
    ensures
        string_views(r@) == comma_pieces(s@),
{
    let n = s.unicode_len();
    let mut out: Vec<String> = Vec::new();
    let mut start: usize = 0;
    let mut i: usize = 0;
    while i < n
        invariant
            n == s@.len(),
            start <= i <= n,
            start == last_comma_end(s@.take(i as int)),
            start < i ==> string_views(out@) + seq![s@.subrange(start as int, i as int)] == comma_pieces(
                s@.take(i as int),
            ),
            start == i ==> string_views(out@) == comma_pieces(s@.take(i as int)),
        decreases n - i,
    {
        let c = s.get_char(i);
        let ghost t = s@.take(i + 1);
        proof {
            assert(t.drop_last() =~= s@.take(i as int));
            assert(t.last() == c);
        }
        if c == ',' {
            if start < i {
                let piece = String::from_str(s.substring_char(start, i));
                out.push(piece);
                proof {
                    assert(string_views(out@) =~= string_views(out@.drop_last()).push(piece@));
                }
            }
            start = i + 1;
            proof {
                assert(string_views(out@) =~= comma_pieces(t));
            }
        } else {
            proof {
                if start < i {
                    assert(t.subrange(start as int, i + 1) =~= s@.subrange(start as int, i as int).push(c));
                    assert(s@.subrange(start as int, i + 1) =~= t.subrange(start as int, i + 1));
                    assert(string_views(out@) + seq![s@.subrange(start as int, i + 1)] =~= comma_pieces(t));
                } else {
                    assert(s@.subrange(start as int, i + 1) =~= seq![c]);
                    assert(string_views(out@) + seq![s@.subrange(start as int, i + 1)] =~= comma_pieces(t));
                }
            }
        }
        i = i + 1;
    }
    if start < n {
        let piece = String::from_str(s.substring_char(start, n));
        out.push(piece);
        proof {
            assert(string_views(out@) =~= string_views(out@.drop_last()).push(piece@));
        }
    }
    proof {
        assert(s@.take(n as int) =~= s@);
    }
    out
}

impl ModuleInfo {
    /// Selects a module by name with its default features and no others.
    pub fn new(name: &str) -> (r: ModuleInfo)
        ensures
            r@ == (ModuleView { name: name@, features: Seq::empty(), default_features: true }),
    {
        let r = ModuleInfo { name: String::from_str(name), features: Vec::new(), default_features: true };
        assert(r@.features =~= Seq::<Seq<char>>::empty());
        r
    }

    /// Reads a module selection written as `name`, `name=f1,f2` (default
    /// features kept) or `name==f1,f2` (default features off). Empty feature
    /// names are skipped.
    pub fn parse(s: &str) -> (r: ModuleInfo)
        ensures
            r@ == spec_parse_module(s@),
    {
        let n = s.unicode_len();
        match find_equals(s, n) {
            None => {
                let r = ModuleInfo { name: String::from_str(s), features: Vec::new(), default_features: true };
                assert(r@.features =~= Seq::<Seq<char>>::empty());
                r
            },
            Some(i) => {
                let default_features = !(i + 1 < n && s.get_char(i + 1) == '=');
                let start = if default_features {
                    i + 1
                } else {
                    i + 2
                };
                let name = String::from_str(s.substring_char(0, i));
                let features = split_features(s.substring_char(start, n));
                ModuleInfo { name, features, default_features }
            },
        }
    }

    /// The text form: the name, then `=` (or `==` without default features)
    /// and the features separated by commas, unless there is nothing to add.
    pub fn to_text(&self) -> (r: String)
        ensures
            r@ == spec_module_text(self@),
    {
        let mut text = self.name.clone();
        if self.features.len() == 0 && self.default_features {
            return text;
        }
        if self.default_features {
            text.append("=");
        } else {
            text.append("==");
        }
        let joined = join_strings(&self.features, ",");
        text.append(joined.as_str());
        text
    }
}

/// Joins strings with a separator between each two.
pub fn join_strings(parts: &Vec<String>, sep: &str) -> (r: String)
    ensures
        r@ == join(string_views(parts@), sep@),
{
    let mut text = String::new();
    let mut k: usize = 0;
    while k < parts.len()
        invariant
            k <= parts@.len(),
            text@ == join(string_views(parts@).take(k as int), sep@),
        decreases parts@.len() - k,
    {
        proof {
            assert(string_views(parts@).take(k + 1).drop_last() =~= string_views(parts@).take(k as int));
        }
        if k > 0 {
            text.append(sep);
        } else {
            assert(string_views(parts@).take(0) =~= Seq::<Seq<char>>::empty());
        }
        text.append(parts[k].as_str());
        k = k + 1;
    }
    proof {
        assert(string_views(parts@).take(k as int) =~= string_views(parts@));
    }
    text
}

/// The modules built in when none are named: `acpi` and `logging`.
pub fn default_modules() -> (r: Vec<ModuleInfo>)
    ensures
        r@.len() == 2,
        r@[0]@ == (ModuleView { name: "acpi"@, features: Seq::empty(), default_features: true }),
        r@[1]@ == (ModuleView { name: "logging"@, features: Seq::empty(), default_features: true }),
{
    let mut r: Vec<ModuleInfo> = Vec::new();
    r.push(ModuleInfo::new("acpi"));
    r.push(ModuleInfo::new("logging"));
    r
}

/// Arguments of the build command.
#[derive(Debug, Clone)]
pub struct BuildArguments {
    pub target: Target,
    pub bootloader: Bootloader,
    pub release: bool,
    pub modules: Vec<ModuleInfo>,
}

/// Appends a string literal as a new argument.
fn push_arg(args: &mut Vec<String>, a: &str)
    ensures
        string_views(final(args)@) == string_views(old(args)@).push(a@),
{
    args.push(String::from_str(a));
    assert(string_views(args@) =~= string_views(old(args)@).push(a@));
}

/// Appends a string as a new argument.
fn push_string(args: &mut Vec<String>, a: String)
    ensures
        string_views(final(args)@) == string_views(old(args)@).push(a@),
{
    args.push(a);
    assert(string_views(args@) =~= string_views(old(args)@).push(a@));
}

/// The cargo arguments that build one module for a target.
pub open spec fn spec_module_build_args(target: Target, m: ModuleView) -> Seq<Seq<char>> {
    seq!["build"@, "--target"@, target.spec_rust_target(), "--package"@, m.name] + (if m.default_features {
        Seq::empty()
    } else {
        seq!["--no-default-features"@]
    }) + (if m.features.len() == 0 {
        Seq::empty()
    } else {
        seq!["--features"@, join(m.features, ","@)]
    })
}

impl BuildArguments {
    /// Refuses a bootloader that cannot boot the target, naming both.
    pub fn check_target(&self) -> (r: Result<(), String>)
        ensures
            r is Ok <==> self.bootloader.spec_supports(self.target),
            r matches Err(msg) ==> msg@ == "The selected bootloader ("@ + match self.bootloader {
                Bootloader::Limine => "Limine"@,
                Bootloader::Rust => "Rust Bootloader"@,
            } + ") does not support the selected target ("@ + match self.target {
                Target::X86_64 => "x86_64"@,
                Target::AArch64 => "aarch64"@,
                Target::RiscV64 => "riscv64"@,
            } + ")"@,
    {
        if self.bootloader.supports_target(self.target) {
            return Ok(());
        }
        let mut msg = String::from_str("The selected bootloader (");
        msg.append(self.bootloader.name());
        msg.append(") does not support the selected target (");
        msg.append(self.target.name());
        msg.append(")");
        Err(msg)
    }

    /// The directory cargo writes this build's artifacts to, under the
    /// workspace's target directory.
    pub fn output_directory(&self, target_directory: &str) -> (r: String)
        ensures
            r@ == target_directory@ + "/"@ + self.target.spec_rust_target() + "/"@ + (if self.release {
                "release"@
            } else {
                "debug"@
            }),
    {
        let mut dir = String::from_str(target_directory);
        dir.append("/");
        dir.append(self.target.as_rust_target());
        dir.append("/");
        dir.append(if self.release {
            "release"
        } else {
            "debug"
        });
        dir
    }

    /// The cargo arguments that build one module for this build's target.
    pub fn module_build_args(&self, info: &ModuleInfo) -> (r: Vec<String>)
        ensures
            string_views(r@) == spec_module_build_args(self.target, info@),
    {
        let mut args: Vec<String> = Vec::new();
        push_arg(&mut args, "build");
        push_arg(&mut args, "--target");
        push_arg(&mut args, self.target.as_rust_target());
        push_arg(&mut args, "--package");
        push_string(&mut args, info.name.clone());
        let ghost base = seq!["build"@, "--target"@, self.target.spec_rust_target(), "--package"@, info.name@];
        assert(string_views(args@) =~= base);
        if !info.default_features {
            push_arg(&mut args, "--no-default-features");
        }
        let ghost mid = string_views(args@);
        if info.features.len() > 0 {
            push_arg(&mut args, "--features");
            let joined = join_strings(&info.features, ",");
            push_string(&mut args, joined);
            assert(string_views(args@) =~= mid + seq!["--features"@, join(info@.features, ","@)]);
        }
        assert(string_views(args@) =~= spec_module_build_args(self.target, info@));
        args
    }

    /// The compiler arguments that link one built module: `--extern` and
    /// `name=<dir>/lib<name>.rlib`.
    pub fn module_extern_args(name: &str, output_directory: &str) -> (r: Vec<String>)
        ensures
            string_views(r@) == seq!["--extern"@, name@ + "="@ + output_directory@ + "/lib"@ + name@ + ".rlib"@],
    {
        let mut args: Vec<String> = Vec::new();
        push_arg(&mut args, "--extern");
        let mut spec = String::from_str(name);
        spec.append("=");
        spec.append(output_directory);
        spec.append("/lib");
        spec.append(name);
        spec.append(".rlib");
        push_string(&mut args, spec);
        assert(string_views(args@) =~= seq!["--extern"@, name@ + "="@ + output_directory@ + "/lib"@ + name@ + ".rlib"@]);
        args
    }
}

/// Arguments of the iso command.
#[derive(Debug, Clone)]
pub struct IsoArguments {
    pub build: BuildArguments,
}

impl IsoArguments {
    /// Only Limine can boot the kernel from disk.
    pub fn check_bootloader(&self) -> (r: Result<(), String>)
        ensures
            r is Ok <==> self.build.bootloader == Bootloader::Limine,
            r matches Err(msg) ==> msg@ == "Rust Bootloader does not support booting from disk."@,
    {
        match self.build.bootloader {
            Bootloader::Limine => Ok(()),
            Bootloader::Rust => Err(String::from_str("Rust Bootloader does not support booting from disk.")),
        }
    }
}

/// Arguments of the run command.
#[derive(Debug, Clone)]
pub struct RunArguments {
    pub build: BuildArguments,
    pub firmware: Firmware,
    pub no_debug: bool,
    pub args: Vec<String>,
}

impl RunArguments {
    /// The Rust bootloader cannot be network-booted with BIOS firmware.
    pub fn check_firmware(&self) -> (r: Result<(), String>)
        ensures
            r is Ok <==> !(self.build.bootloader == Bootloader::Rust && self.firmware == Firmware::Bios),
            r matches Err(msg) ==> msg@ == "Cannot PXE boot the rust bootloader using bios firmware."@,
    {
        if self.build.bootloader == Bootloader::Rust && self.firmware == Firmware::Bios {
            Err(String::from_str("Cannot PXE boot the rust bootloader using bios firmware."))
        } else {
            Ok(())
        }
    }

    /// The QEMU binary and its leading arguments for the target, with the
    /// debugger stub unless debugging is off. `None` for targets QEMU is not
    /// set up for.
    pub fn qemu_command(&self) -> (r: Option<(String, Vec<String>)>)
        ensures
            self.build.target == Target::RiscV64 <==> r is None,
            r matches Some((bin, args)) ==> {
                &&& bin@ == match self.build.target {
                    Target::X86_64 => "qemu-system-x86_64"@,
                    _ => "qemu-system-aarch64"@,
                }
                &&& string_views(args@) == match self.build.target {
                    Target::X86_64 => seq!["-cpu"@, "qemu64"@],
                    _ => seq!["-M"@, "virt"@],
                } + if self.no_debug {
                    Seq::empty()
                } else {
                    seq!["-gdb"@, "tcp:localhost:1234"@, "-S"@]
                }
            },
    {
        let mut args: Vec<String> = Vec::new();
        let bin = match self.build.target {
            Target::X86_64 => {
                push_arg(&mut args, "-cpu");
                push_arg(&mut args, "qemu64");
                String::from_str("qemu-system-x86_64")
            },
            Target::AArch64 => {
                push_arg(&mut args, "-M");
                push_arg(&mut args, "virt");
                String::from_str("qemu-system-aarch64")
            },
            Target::RiscV64 => {
                return None;
            },
        };
        let ghost base = string_views(args@);
        if !self.no_debug {
            push_arg(&mut args, "-gdb");
            push_arg(&mut args, "tcp:localhost:1234");
            push_arg(&mut args, "-S");
            assert(string_views(args@) =~= base + seq!["-gdb"@, "tcp:localhost:1234"@, "-S"@]);
        } else {
            assert(string_views(args@) =~= base + Seq::<Seq<char>>::empty());
        }
        Some((bin, args))
    }
}

/// The commands of the build tool.
#[derive(Debug, Clone)]
pub enum ProgramArguments {
    Build(BuildArguments),
    Run(RunArguments),
    Iso(IsoArguments),
    /// Updates the license header in source files.
    License,
}

/// A path joined with one more segment: an absolute segment replaces the
/// path; otherwise a `/` separates the two unless the path is empty or ends
/// with one.
pub open spec fn spec_join_path(path: Seq<char>, seg: Seq<char>) -> Seq<char> {
    if seg.len() > 0 && seg[0] == '/' {
        seg
    } else if path.len() == 0 || path.last() == '/' {
        path + seg
    } else {
        path + "/"@ + seg
    }
}

/// A path joined with each segment in turn.
pub open spec fn spec_join_all(path: Seq<char>, segs: Seq<Seq<char>>) -> Seq<char>
    decreases segs.len(),
{
    if segs.len() == 0 {
        path
    } else {
        spec_join_path(spec_join_all(path, segs.drop_last()), segs.last())
    }
}

/// A dependency that has been downloaded, by the directory it lives in.
#[derive(Debug, Clone)]
pub struct ResolvedDependency {
    path: String,
}

impl ResolvedDependency {
    /// The dependency's directory.
    pub closed spec fn spec_path(&self) -> Seq<char> {
        self.path@
    }

    /// A dependency living in `path`.
    pub fn new(path: String) -> (r: ResolvedDependency)
        ensures
            r.spec_path() == path@,
    {
        ResolvedDependency { path }
    }

    /// The dependency's directory.
    pub fn path(&self) -> (r: &str)
        ensures
            r@ == self.spec_path(),
    {
        self.path.as_str()
    }

    /// A path inside the dependency's directory.
    pub fn at(&self, segments: &Vec<String>) -> (r: String)
        ensures
            r@ == spec_join_all(self.spec_path(), string_views(segments@)),
    {
        let mut result = self.path.clone();
        let mut k: usize = 0;
        while k < segments.len()
            invariant
                k <= segments@.len(),
                result@ == spec_join_all(self.spec_path(), string_views(segments@).take(k as int)),
            decreases segments@.len() - k,
        {
            proof {
                assert(string_views(segments@).take(k + 1).drop_last() =~= string_views(segments@).take(k as int));
            }
            let seg = segments[k].as_str();
            let n = seg.unicode_len();
            if n > 0 && seg.get_char(0) == '/' {
                result = String::from_str(seg);
            } else {
                let m = result.as_str().unicode_len();
                if !(m == 0 || result.as_str().get_char(m - 1) == '/') {
                    result.append("/");
                }
                result.append(seg);
            }
            k = k + 1;
        }
        proof {
            assert(string_views(segments@).take(k as int) =~= string_views(segments@));
        }
        result
    }
}

} // verus!
