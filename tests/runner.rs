use microdragon::runner::{
    init_fn_section, init_static_section, BootState, ConstructorRunner, InitAttrError,
};
use microdragon::runner::{
    collect_constructors, generate_runner, order_constructors, phase_named, runner_source,
    sort_by_order, ConstructorInfo, ManifestEntry, PackageManifest, Phase, StaticSection,
};

fn info(function: &str, order: u64, phase: Phase) -> ConstructorInfo {
    ConstructorInfo { function: function.to_string(), order, cfg: None, phase }
}

fn entry(path: Option<&str>, order: Option<u64>, cfg: Option<&str>, phase: Phase) -> ManifestEntry {
    ManifestEntry {
        path: path.map(|p| p.to_string()),
        order,
        cfg: cfg.map(|c| c.to_string()),
        phase,
    }
}

fn orders(plan: &[ConstructorInfo]) -> Vec<u64> {
    plan.iter().map(|c| c.order).collect()
}

fn names(plan: &[ConstructorInfo]) -> Vec<&str> {
    plan.iter().map(|c| c.function.as_str()).collect()
}

#[test]
fn constructors_run_in_ascending_order() {
    let plan = sort_by_order(vec![
        info("::a::init", 30, Phase::Init),
        info("::b::init", 10, Phase::Init),
        info("::c::init", 20, Phase::Init),
    ]);
    assert_eq!(orders(&plan), vec![10, 20, 30]);
    assert_eq!(names(&plan), vec!["::b::init", "::c::init", "::a::init"]);
}

#[test]
fn equal_orders_keep_discovery_order() {
    let plan = sort_by_order(vec![
        info("first", 5, Phase::Init),
        info("second", 1, Phase::Init),
        info("third", 5, Phase::Init),
        info("fourth", 1, Phase::Init),
    ]);
    assert_eq!(names(&plan), vec!["second", "fourth", "first", "third"]);
}

#[test]
fn rewire_phase_runs_after_every_init_entry() {
    let plan = order_constructors(vec![
        info("::logging::rewire", 1, Phase::Rewire),
        info("::kmm::init", 10, Phase::Init),
        info("::logging::init", 5, Phase::Init),
        info("::acpi::rewire", 0, Phase::Rewire),
    ]);
    assert_eq!(
        names(&plan),
        vec!["::logging::init", "::kmm::init", "::acpi::rewire", "::logging::rewire"]
    );
}

#[test]
fn phase_names() {
    assert_eq!(phase_named(Some("rewire".to_string())), Phase::Rewire);
    assert_eq!(phase_named(Some("init".to_string())), Phase::Init);
    assert_eq!(phase_named(None), Phase::Init);
}

fn packages() -> Vec<PackageManifest> {
    vec![
        PackageManifest {
            name: "logging".to_string(),
            constructors: vec![
                entry(Some("init"), Some(30), None, Phase::Init),
                entry(Some("rewire"), Some(0), Some("feature = \"terminal\""), Phase::Rewire),
                entry(None, Some(1), None, Phase::Init),
            ],
        },
        PackageManifest {
            name: "kmm".to_string(),
            constructors: vec![entry(Some("init"), Some(10), None, Phase::Init)],
        },
        PackageManifest {
            name: "unused".to_string(),
            constructors: vec![entry(Some("init"), Some(0), None, Phase::Init)],
        },
        PackageManifest {
            name: "acpi".to_string(),
            constructors: vec![
                entry(Some("init"), None, None, Phase::Init),
                entry(Some("setup::init"), Some(20), None, Phase::Init),
            ],
        },
    ]
}

fn modules() -> Vec<String> {
    vec!["acpi".to_string(), "logging".to_string(), "kmm".to_string()]
}

#[test]
fn collect_skips_unselected_packages_and_incomplete_entries() {
    let infos = collect_constructors(packages(), &modules());
    assert_eq!(
        names(&infos),
        vec!["::logging::init", "::logging::rewire", "::kmm::init", "::acpi::setup::init"]
    );
    assert_eq!(infos[1].cfg.as_deref(), Some("feature = \"terminal\""));
}

#[test]
fn runner_source_text() {
    let plan = vec![
        info("::kmm::init", 10, Phase::Init),
        ConstructorInfo {
            function: "::logging::rewire".to_string(),
            order: 0,
            cfg: Some("feature = \"terminal\"".to_string()),
            phase: Phase::Rewire,
        },
    ];
    assert_eq!(
        runner_source(&plan),
        "// This Source Code Form is subject to the terms of the Mozilla Public\n// License, v. 2.0. If a copy of the MPL was not distributed with this\n// file, You can obtain one at http://mozilla.org/MPL/2.0/.\n\nfn run_modules(interface: &ModuleInterface) {\n    ::kmm::init(interface);\n#[cfg(feature = \"terminal\")]\n    ::logging::rewire(interface);\n}\n"
    );
}

#[test]
fn generated_runner_for_the_selected_modules() {
    let text = generate_runner(packages(), &modules());
    assert_eq!(
        text,
        "// This Source Code Form is subject to the terms of the Mozilla Public\n// License, v. 2.0. If a copy of the MPL was not distributed with this\n// file, You can obtain one at http://mozilla.org/MPL/2.0/.\n\nfn run_modules(interface: &ModuleInterface) {\n    ::kmm::init(interface);\n    ::acpi::setup::init(interface);\n    ::logging::init(interface);\n#[cfg(feature = \"terminal\")]\n    ::logging::rewire(interface);\n}\n"
    );
}

#[test]
fn empty_runner() {
    assert_eq!(generate_runner(Vec::new(), &Vec::new()), "// This Source Code Form is subject to the terms of the Mozilla Public\n// License, v. 2.0. If a copy of the MPL was not distributed with this\n// file, You can obtain one at http://mozilla.org/MPL/2.0/.\n\nfn run_modules(interface: &ModuleInterface) {\n}\n");
}

#[test]
fn static_sections() {
    assert_eq!(StaticSection::Immutable.section_name(), ".init.rodata");
    assert_eq!(StaticSection::Mutable.section_name(), ".init.data");
    assert_eq!(StaticSection::Cell.section_name(), ".init.cell");
    assert_eq!(StaticSection::for_static(Some("InitCell"), true), StaticSection::Cell);
    assert_eq!(StaticSection::for_static(Some("u64"), true), StaticSection::Mutable);
    assert_eq!(StaticSection::for_static(None, false), StaticSection::Immutable);
    assert_eq!(StaticSection::from_keyword("cell"), Some(StaticSection::Cell));
    assert_eq!(StaticSection::from_keyword("mutable"), Some(StaticSection::Mutable));
    assert_eq!(StaticSection::from_keyword("immutable"), Some(StaticSection::Immutable));
    assert_eq!(StaticSection::from_keyword("static"), None);
}

#[test]
fn runner_hands_out_init_calls_before_rewire_calls() {
    let mut runner = ConstructorRunner::new(vec![
        info("::logging::rewire", 1, Phase::Rewire),
        info("::kmm::init", 10, Phase::Init),
        info("::logging::init", 5, Phase::Init),
    ]);
    let mut seen = Vec::new();
    loop {
        let state = runner.state();
        match runner.next_call() {
            Some(c) => seen.push((state, c.function.clone(), c.phase)),
            None => break,
        }
    }
    assert_eq!(runner.state(), BootState::Ready);
    assert_eq!(
        seen,
        vec![
            (BootState::Uninitialized, "::logging::init".to_string(), Phase::Init),
            (BootState::Uninitialized, "::kmm::init".to_string(), Phase::Init),
            (BootState::MappingEstablished, "::logging::rewire".to_string(), Phase::Rewire),
        ]
    );
    assert!(runner.next_call().is_none());
}

#[test]
fn constructor_attribute_sections() {
    assert_eq!(init_fn_section(false, false), Ok(".init.text"));
    assert_eq!(init_fn_section(true, true), Err(InitAttrError::Arguments));
    assert_eq!(init_fn_section(false, true), Err(InitAttrError::LinkSectionPresent));
    assert_eq!(init_static_section(None, Some("InitCell"), false, false), Ok(StaticSection::Cell));
    assert_eq!(init_static_section(Some("mutable"), Some("InitCell"), false, false), Ok(StaticSection::Mutable));
    assert_eq!(init_static_section(None, None, true, false), Ok(StaticSection::Mutable));
    assert_eq!(init_static_section(Some("heap"), None, false, true), Err(InitAttrError::UnknownSection));
    assert_eq!(init_static_section(Some("cell"), None, false, true), Err(InitAttrError::LinkSectionPresent));
}
