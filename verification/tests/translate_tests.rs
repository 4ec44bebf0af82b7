//! Tests of the six pairwise translations and the file-kind dispatch.
use babelone::specs::{BuildSystem, Entrypoints, Project, PyProject, Requirements, Setup};
use babelone::tables::{RequiresTable, ScriptsTable};
use babelone::{conversion_supported, get_spec_type, PyBuildSpec, SpecError};

fn s(text: &str) -> String {
    text.to_string()
}

fn svec(items: &[&str]) -> Vec<String> {
    items.iter().map(|i| s(i)).collect()
}

fn empty_setup() -> Setup {
    Setup {
        package_name: None,
        version: None,
        extra_requires: None,
        install_requires: None,
        setup_requires: None,
        entry_points: None,
    }
}

fn empty_project() -> Project {
    Project {
        name: None,
        version: None,
        dependencies: None,
        optional_dependencies: None,
        project_scripts: None,
        project_gui_scripts: None,
    }
}

#[test]
fn setup_to_requirements() {
    let mut extras = RequiresTable::new();
    extras.insert(s("dev"), svec(&["pytest", "hypothesis>=6.95.x"]));
    extras.insert(s("PDF"), svec(&["ReportLab>=1.2", "RXP"]));
    let setup = Setup {
        install_requires: Some(svec(&["pydantic==2.6.2", "fastapi"])),
        setup_requires: None,
        extra_requires: Some(extras),
        ..empty_setup()
    };
    let r = Requirements::from_setup(setup);
    // extras flatten after the install requirements, groups in lexicographic
    // key order ("PDF" sorts before "dev" in scalar-value order)
    assert_eq!(
        r.reqs,
        svec(&[
            "pydantic==2.6.2",
            "fastapi",
            "ReportLab>=1.2",
            "RXP",
            "pytest",
            "hypothesis>=6.95.x",
        ])
    );
}

#[test]
fn flatten_includes_setup_requires_between() {
    let mut extras = RequiresTable::new();
    extras.insert(s("dev"), svec(&["pytest"]));
    let setup = Setup {
        install_requires: Some(svec(&["flask"])),
        setup_requires: Some(svec(&["hatchling"])),
        extra_requires: Some(extras),
        ..empty_setup()
    };
    let r = Requirements::from_setup(setup);
    assert_eq!(r.reqs, svec(&["flask", "hatchling", "pytest"]));
}

#[test]
fn extras_only_flatten_in_key_order() {
    // only extras: the flat list is the groups' lists in lexicographic key
    // order; ASCII order puts "PDF" before "dev"
    let mut extras = RequiresTable::new();
    extras.insert(s("dev"), svec(&["pytest"]));
    extras.insert(s("PDF"), svec(&["RXP"]));
    let setup = Setup { extra_requires: Some(extras), ..empty_setup() };
    let r = Requirements::from_setup(setup);
    assert_eq!(r.reqs, svec(&["RXP", "pytest"]));
}

#[test]
fn pyproject_to_requirements() {
    let pyproject = PyProject {
        project: Some(Project {
            dependencies: Some(svec(&[
                "httpx",
                "gidgethub[httpx]>4.0.0",
                "django>2.1; os_name != 'nt'",
                "django>2.0; os_name == 'nt'",
            ])),
            ..empty_project()
        }),
        build_system: Some(BuildSystem { build_backend: Some(s("hatchling.build")), reqs: Some(svec(&["hatchling"])) }),
    };
    let r = Requirements::from_pyproject(pyproject);
    assert_eq!(
        r.reqs,
        svec(&[
            "httpx",
            "gidgethub[httpx]>4.0.0",
            "django>2.1; os_name != 'nt'",
            "django>2.0; os_name == 'nt'",
            "hatchling",
        ])
    );
}

#[test]
fn pyproject_to_requirements_drops_optional_dependencies() {
    // unlike the script-specification flattening, optional dependencies are
    // not included
    let mut optional = RequiresTable::new();
    optional.insert(s("dev"), svec(&["pytest"]));
    let pyproject = PyProject {
        project: Some(Project {
            dependencies: Some(svec(&["flask"])),
            optional_dependencies: Some(optional),
            ..empty_project()
        }),
        build_system: None,
    };
    let r = Requirements::from_pyproject(pyproject);
    assert_eq!(r.reqs, svec(&["flask"]));
}

#[test]
fn requirements_to_setup() {
    let requirements = Requirements { reqs: svec(&["flask", "pydantic==2.x"]) };
    let setup = Setup::from_requirements(requirements);
    assert_eq!(setup.install_requires, Some(svec(&["flask", "pydantic==2.x"])));
    assert_eq!(setup.package_name, None);
    assert_eq!(setup.version, None);
    assert_eq!(setup.setup_requires, None);
    assert!(setup.extra_requires.is_none());
    assert!(setup.entry_points.is_none());
}

#[test]
fn flat_list_survives_the_setup_round_trip() {
    let list = svec(&["flask", "pydantic==2.x", "flask"]);
    let requirements = Requirements { reqs: list.clone() };
    let back = Requirements::from_setup(Setup::from_requirements(requirements));
    assert_eq!(back.reqs, list);
}

#[test]
fn pyproject_to_setup() {
    let mut scripts = ScriptsTable::new();
    scripts.insert(s("hello-world"), s("timmins:hello_world"));
    let pyproject = PyProject {
        project: Some(Project {
            name: Some(s("spam-eggs")),
            version: Some(s("2020.0.0")),
            dependencies: Some(svec(&["httpx"])),
            project_scripts: Some(scripts),
            ..empty_project()
        }),
        build_system: Some(BuildSystem { build_backend: Some(s("hatchling.build")), reqs: Some(svec(&["hatchling"])) }),
    };
    let setup = Setup::from_pyproject(pyproject);
    assert_eq!(setup.package_name, Some(s("spam-eggs")));
    assert_eq!(setup.version, Some(s("2020.0.0")));
    assert_eq!(setup.install_requires, Some(svec(&["httpx"])));
    // the build backend is discarded; the requirements carry over
    assert_eq!(setup.setup_requires, Some(svec(&["hatchling"])));
    let ep = setup.entry_points.unwrap();
    assert_eq!(ep.console_scripts, Some(svec(&["hello-world = timmins:hello_world"])));
    assert_eq!(ep.gui_scripts, None);
}

#[test]
fn pyproject_to_setup_renders_scripts_in_key_order() {
    let mut scripts = ScriptsTable::new();
    scripts.insert(s("zeta"), s("pkg:z"));
    scripts.insert(s("alpha"), s("pkg:a"));
    let pyproject = PyProject {
        project: Some(Project { project_scripts: Some(scripts), ..empty_project() }),
        build_system: None,
    };
    let setup = Setup::from_pyproject(pyproject);
    let ep = setup.entry_points.unwrap();
    assert_eq!(ep.console_scripts, Some(svec(&["alpha = pkg:a", "zeta = pkg:z"])));
}

#[test]
fn pyproject_to_setup_ignores_empty_script_tables() {
    let pyproject = PyProject {
        project: Some(Project {
            project_scripts: Some(ScriptsTable::new()),
            project_gui_scripts: Some(ScriptsTable::new()),
            ..empty_project()
        }),
        build_system: None,
    };
    let setup = Setup::from_pyproject(pyproject);
    assert!(setup.entry_points.is_none());
}

#[test]
fn requirements_to_pyproject() {
    let requirements = Requirements { reqs: svec(&["flask", "pydantic==2.x"]) };
    let pyproject = PyProject::from_requirements(requirements);
    let project = pyproject.project.unwrap();
    assert_eq!(project.dependencies, Some(svec(&["flask", "pydantic==2.x"])));
    assert_eq!(project.name, None);
    assert!(pyproject.build_system.is_none());
}

#[test]
fn setup_to_pyproject() {
    let mut extras = RequiresTable::new();
    extras.insert(s("dev"), svec(&["pytest"]));
    let setup = Setup {
        package_name: Some(s("babelone-test")),
        version: Some(s("2.0")),
        install_requires: Some(svec(&["pydantic==2.6.2", "fastapi"])),
        setup_requires: Some(svec(&["setuptools"])),
        extra_requires: Some(extras.clone()),
        entry_points: Some(Entrypoints {
            console_scripts: Some(svec(&["hello-world = pkg:main"])),
            gui_scripts: None,
        }),
    };
    let pyproject = PyProject::from_setup(setup).unwrap();
    let project = pyproject.project.unwrap();
    assert_eq!(project.name, Some(s("babelone-test")));
    assert_eq!(project.version, Some(s("2.0")));
    assert_eq!(project.dependencies, Some(svec(&["pydantic==2.6.2", "fastapi"])));
    assert_eq!(project.optional_dependencies, Some(extras));
    let mut expected_scripts = ScriptsTable::new();
    expected_scripts.insert(s("hello-world"), s("pkg:main"));
    assert_eq!(project.project_scripts, Some(expected_scripts));
    assert_eq!(project.project_gui_scripts, None);
    let build_system = pyproject.build_system.unwrap();
    assert_eq!(build_system.reqs, Some(svec(&["setuptools"])));
    assert_eq!(build_system.build_backend, None);
}

#[test]
fn entry_point_table_round_trip() {
    // an entry-point list survives the pass through the script table
    let setup = Setup {
        entry_points: Some(Entrypoints {
            console_scripts: Some(svec(&["hello-world = pkg:main"])),
            gui_scripts: None,
        }),
        ..empty_setup()
    };
    let pyproject = PyProject::from_setup(setup).unwrap();
    let back = Setup::from_pyproject(pyproject);
    let ep = back.entry_points.unwrap();
    assert_eq!(ep.console_scripts, Some(svec(&["hello-world = pkg:main"])));
}

#[test]
fn malformed_entry_point_is_a_resolution_error() {
    let setup = Setup {
        entry_points: Some(Entrypoints {
            console_scripts: Some(svec(&["no-separator-here"])),
            gui_scripts: None,
        }),
        ..empty_setup()
    };
    let r = PyProject::from_setup(setup);
    assert!(matches!(r, Err(SpecError::Resolution(_))));
}

#[test]
fn entry_point_splits_on_first_separator() {
    let setup = Setup {
        entry_points: Some(Entrypoints {
            console_scripts: Some(svec(&["tool = pkg:main --flag=1"])),
            gui_scripts: None,
        }),
        ..empty_setup()
    };
    let pyproject = PyProject::from_setup(setup).unwrap();
    let project = pyproject.project.unwrap();
    let mut expected = ScriptsTable::new();
    expected.insert(s("tool"), s("pkg:main --flag=1"));
    assert_eq!(project.project_scripts, Some(expected));
}

#[test]
fn build_system_present_even_for_empty_setup_requires() {
    let setup = Setup { setup_requires: Some(vec![]), ..empty_setup() };
    let pyproject = PyProject::from_setup(setup).unwrap();
    let build_system = pyproject.build_system.unwrap();
    assert_eq!(build_system.reqs, Some(Vec::<String>::new()));
    assert_eq!(build_system.build_backend, None);
}

#[test]
fn build_system_absent_without_setup_requires() {
    let setup = Setup { setup_requires: None, ..empty_setup() };
    let pyproject = PyProject::from_setup(setup).unwrap();
    assert!(pyproject.build_system.is_none());
}

#[test]
fn file_names_select_the_spec_kind() {
    assert_eq!(get_spec_type("requirements.txt"), Ok(PyBuildSpec::Requirements));
    assert_eq!(get_spec_type("setup.py"), Ok(PyBuildSpec::Setup));
    assert_eq!(get_spec_type("pyproject.toml"), Ok(PyBuildSpec::PyProject));
    assert_eq!(get_spec_type("Cargo.toml"), Err(SpecError::UnrecognizedFileName));
    assert_eq!(get_spec_type(""), Err(SpecError::UnrecognizedFileName));
}

#[test]
fn only_distinct_kinds_convert() {
    let kinds = [PyBuildSpec::Requirements, PyBuildSpec::Setup, PyBuildSpec::PyProject];
    for a in kinds.iter() {
        for b in kinds.iter() {
            assert_eq!(conversion_supported(a, b), a != b);
        }
    }
}

#[test]
fn error_messages_name_the_failure() {
    assert_eq!(
        SpecError::UnrecognizedFileName.message(),
        s("failed to recognize the file name: expected requirements.txt, setup.py or pyproject.toml")
    );
    assert_eq!(
        SpecError::Resolution(s("the keyword `name` did not resolve: detail")).message(),
        s("failed to resolve an expression: the keyword `name` did not resolve: detail")
    );
    assert_eq!(
        SpecError::MalformedSource(s("bad toml")).message(),
        s("failed to parse the source: bad toml")
    );
}

#[test]
fn defaults_scaffold_every_field() {
    let setup = Setup::default();
    assert_eq!(setup.package_name, Some(s("")));
    assert_eq!(setup.version, Some(s("")));
    assert_eq!(setup.install_requires, Some(vec![]));
    assert_eq!(setup.setup_requires, Some(vec![]));
    assert_eq!(setup.extra_requires, Some(RequiresTable::new()));
    let ep = setup.entry_points.unwrap();
    assert_eq!(ep.console_scripts, Some(vec![]));
    assert_eq!(ep.gui_scripts, Some(vec![]));
    let pyproject = PyProject::default();
    let project = pyproject.project.unwrap();
    assert_eq!(project.name, Some(s("")));
    assert_eq!(project.dependencies, Some(vec![]));
    assert_eq!(project.project_scripts, Some(ScriptsTable::new()));
    let build_system = pyproject.build_system.unwrap();
    assert_eq!(build_system.build_backend, Some(s("")));
    assert_eq!(build_system.reqs, Some(vec![]));
    assert_eq!(Requirements::default().reqs, Vec::<String>::new());
}
