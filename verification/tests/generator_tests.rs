//! Tests of the textual renderers.
use babelone::generators::{RequirementsGenerator, SetupGenerator};
use babelone::specs::{Entrypoints, Requirements, Setup};
use babelone::tables::RequiresTable;

fn s(text: &str) -> String {
    text.to_string()
}

fn svec(items: &[&str]) -> Vec<String> {
    items.iter().map(|i| s(i)).collect()
}

#[test]
fn generate_requirements() {
    let spec = Requirements { reqs: svec(&["flask", "pydantic==2.6.1"]) };
    let text = RequirementsGenerator::render(&spec);
    assert_eq!(text, s("flask\npydantic==2.6.1\n"));
}

#[test]
fn generate_empty_requirements() {
    let spec = Requirements { reqs: vec![] };
    assert_eq!(RequirementsGenerator::render(&spec), s(""));
}

#[test]
fn generate_setup() {
    let mut extras = RequiresTable::new();
    extras.insert(s("dev"), svec(&["pytest", "hypothesis>=6.98.1"]));
    let spec = Setup {
        package_name: Some(s("babelone-test")),
        version: Some(s("v0.1.1")),
        extra_requires: Some(extras),
        install_requires: Some(svec(&["flask", "pydantic==2.6.1"])),
        setup_requires: None,
        entry_points: Some(Entrypoints {
            console_scripts: Some(svec(&["hello-world = timmins:hello_world"])),
            gui_scripts: None,
        }),
    };
    let text = SetupGenerator::render(&spec);
    let expected = "\"\"\"Installation configuration and package metadata for babelone-test.\"\"\"\nfrom setuptools import setup\n\n\nif __name__ == \"__main__\":\n    setup(\n        package_name=\"babelone-test\",\n        version=\"v0.1.1\",\n        install_requires=[\"flask\", \"pydantic==2.6.1\"],\n        extra_requires={\"dev\": [\"pytest\", \"hypothesis>=6.98.1\"]},\n        entry_points={\"console_scripts\": [\"hello-world = timmins:hello_world\"], \"gui_scripts\": []},\n    )";
    assert_eq!(text, s(expected));
}

#[test]
fn generate_setup_with_no_fields() {
    let spec = Setup {
        package_name: None,
        version: None,
        extra_requires: None,
        install_requires: None,
        setup_requires: None,
        entry_points: None,
    };
    let text = SetupGenerator::render(&spec);
    let expected = "\"\"\"Installation configuration and package metadata.\"\"\"\nfrom setuptools import setup\n\n\nif __name__ == \"__main__\":\n    setup(\n    )";
    assert_eq!(text, s(expected));
}

#[test]
fn generate_setup_quotes_special_characters() {
    let spec = Setup {
        package_name: Some(s("has\"quote\\slash")),
        version: None,
        extra_requires: None,
        install_requires: None,
        setup_requires: None,
        entry_points: None,
    };
    let text = SetupGenerator::render(&spec);
    assert!(text.contains("package_name=\"has\\\"quote\\\\slash\""));
}

#[test]
fn generate_setup_omits_docstring_name_when_empty() {
    let spec = Setup {
        package_name: Some(s("")),
        version: None,
        extra_requires: None,
        install_requires: None,
        setup_requires: None,
        entry_points: None,
    };
    let text = SetupGenerator::render(&spec);
    assert!(text.starts_with("\"\"\"Installation configuration and package metadata.\"\"\"\n"));
    assert!(text.contains("package_name=\"\""));
}
