//! Tests of the flat-list reader and the script resolver.
use babelone::ast::{PyAssign, PyCall, PyDictEntry, PyExpr, PyKeyword, PyStmt};
use babelone::parsers::{RequirementsParser, SetupParser};
use babelone::specs::Entrypoints;
use babelone::symbols::SymbolTable;
use babelone::tables::RequiresTable;
use babelone::SpecError;

fn s(text: &str) -> String {
    text.to_string()
}

fn str_const(text: &str) -> PyExpr {
    PyExpr::StrConst(s(text))
}

fn name(ident: &str) -> PyExpr {
    PyExpr::Name(s(ident))
}

fn str_list(items: &[&str]) -> PyExpr {
    PyExpr::ListLit(items.iter().map(|i| str_const(i)).collect())
}

fn assign(target: &str, value: PyExpr) -> PyStmt {
    PyStmt::Assign(PyAssign { targets: vec![name(target)], value })
}

fn keyword(arg: &str, value: PyExpr) -> PyKeyword {
    PyKeyword { arg: Some(s(arg)), value }
}

fn setup_call(keywords: Vec<PyKeyword>) -> PyStmt {
    PyStmt::ExprStmt(PyExpr::Call(Box::new(PyCall { func: name("setup"), keywords })))
}

fn dict_entry(key: &str, value: PyExpr) -> PyDictEntry {
    PyDictEntry { key: Some(str_const(key)), value }
}

#[test]
fn make_requirments() {
    let r = RequirementsParser::from_text("flask\npydantic==2.x");
    assert_eq!(r.reqs, vec![s("flask"), s("pydantic==2.x")]);
}

#[test]
fn from_text_trims_and_skips_blank_lines() {
    let r = RequirementsParser::from_text("  flask  \n\n   \t\npydantic==2.x\n");
    assert_eq!(r.reqs, vec![s("flask"), s("pydantic==2.x")]);
}

#[test]
fn from_text_of_empty_text_is_empty() {
    let r = RequirementsParser::from_text("");
    assert_eq!(r.reqs, Vec::<String>::new());
}

#[test]
fn make_setuppy() {
    // NAME = "babelone-test-app"
    // REQS = ["pydantic==2.6.2", "fastapi"]
    // EXTRAS = {"dev": [...], "PDF": [...]}
    // setup(name=NAME, version="2.0", install_requires=REQS,
    //       extra_requires=EXTRAS, entry_points={...})
    let extras = PyExpr::DictLit(vec![
        dict_entry("dev", str_list(&["pytest", "hypothesis>=6.95.x"])),
        dict_entry("PDF", str_list(&["ReportLab>=1.2", "RXP"])),
    ]);
    let entry_points = PyExpr::DictLit(vec![
        dict_entry("console_scripts", str_list(&["hello-world = timmins:hello_world"])),
        dict_entry("gui_scripts", str_list(&["hello-world = timmins:hello_world"])),
    ]);
    let statements = vec![
        assign("NAME", str_const("babelone-test-app")),
        assign("REQS", str_list(&["pydantic==2.6.2", "fastapi"])),
        assign("EXTRAS", extras),
        setup_call(vec![
            keyword("name", name("NAME")),
            keyword("version", str_const("2.0")),
            keyword("install_requires", name("REQS")),
            keyword("extra_requires", name("EXTRAS")),
            keyword("entry_points", entry_points),
        ]),
    ];
    let parsed = SetupParser::parse_ast(&statements).unwrap();
    assert_eq!(parsed.package_name, Some(s("babelone-test-app")));
    assert_eq!(parsed.version, Some(s("2.0")));
    let mut expected_extras = RequiresTable::new();
    expected_extras.insert(s("dev"), vec![s("pytest"), s("hypothesis>=6.95.x")]);
    expected_extras.insert(s("PDF"), vec![s("ReportLab>=1.2"), s("RXP")]);
    assert_eq!(parsed.extra_requires, Some(expected_extras));
    assert_eq!(parsed.setup_requires, None);
    assert_eq!(parsed.install_requires, Some(vec![s("pydantic==2.6.2"), s("fastapi")]));
    let ep = parsed.entry_points.as_ref().unwrap();
    assert_eq!(ep.console_scripts, Some(vec![s("hello-world = timmins:hello_world")]));
    assert_eq!(ep.gui_scripts, Some(vec![s("hello-world = timmins:hello_world")]));
}

#[test]
fn resolve_name_single_hop() {
    // NAME="x"; setup(name=NAME)
    let statements = vec![
        assign("NAME", str_const("x")),
        setup_call(vec![keyword("name", name("NAME"))]),
    ];
    let parsed = SetupParser::parse_ast(&statements).unwrap();
    assert_eq!(parsed.package_name, Some(s("x")));
}

#[test]
fn resolve_string_does_not_chase_alias_chains() {
    // NAME="x"; ALIAS=NAME; setup(name=ALIAS): scalar resolution follows one
    // hop only, so the alias of an alias does not resolve.
    let statements = vec![
        assign("NAME", str_const("x")),
        assign("ALIAS", name("NAME")),
        setup_call(vec![keyword("name", name("ALIAS"))]),
    ];
    let r = SetupParser::parse_ast(&statements);
    assert!(matches!(r, Err(SpecError::Resolution(_))));
}

#[test]
fn resolve_string_list_chases_alias_chains() {
    // X=["a","b"]; Y=X; setup(install_requires=Y): list resolution keeps
    // following aliases, unlike scalar resolution.
    let statements = vec![
        assign("X", str_list(&["a", "b"])),
        assign("Y", name("X")),
        setup_call(vec![keyword("install_requires", name("Y"))]),
    ];
    let parsed = SetupParser::parse_ast(&statements).unwrap();
    assert_eq!(parsed.install_requires, Some(vec![s("a"), s("b")]));
}

#[test]
fn locator_does_not_resume_after_conditional() {
    // A conditional without the call, followed by a sibling statement that
    // does hold it: the scan ends inside the conditional's body and the
    // later call is never seen.
    let statements = vec![
        PyStmt::Conditional(vec![assign("X", str_const("unused"))]),
        setup_call(vec![keyword("name", str_const("missed"))]),
    ];
    let parsed = SetupParser::parse_ast(&statements).unwrap();
    assert_eq!(parsed.package_name, None);
    assert_eq!(parsed.version, None);
    assert_eq!(parsed.install_requires, None);
    assert_eq!(parsed.setup_requires, None);
    assert!(parsed.extra_requires.is_none());
    assert!(parsed.entry_points.is_none());
}

#[test]
fn locator_finds_call_inside_conditional() {
    let statements = vec![PyStmt::Conditional(vec![
        setup_call(vec![keyword("name", str_const("inner"))]),
    ])];
    let parsed = SetupParser::parse_ast(&statements).unwrap();
    assert_eq!(parsed.package_name, Some(s("inner")));
}

#[test]
fn locator_accepts_dotted_callee() {
    // setuptools.setup(...)
    let callee = PyExpr::Attribute(Box::new(babelone::ast::PyAttribute {
        value: name("setuptools"),
        attr: s("setup"),
    }));
    let statements = vec![PyStmt::ExprStmt(PyExpr::Call(Box::new(PyCall {
        func: callee,
        keywords: vec![keyword("version", str_const("1.0"))],
    })))];
    let parsed = SetupParser::parse_ast(&statements).unwrap();
    assert_eq!(parsed.version, Some(s("1.0")));
}

#[test]
fn locator_skips_other_calls() {
    let statements = vec![
        PyStmt::ExprStmt(PyExpr::Call(Box::new(PyCall {
            func: name("print"),
            keywords: vec![],
        }))),
        setup_call(vec![keyword("name", str_const("after"))]),
    ];
    let parsed = SetupParser::parse_ast(&statements).unwrap();
    assert_eq!(parsed.package_name, Some(s("after")));
}

#[test]
fn no_invocation_yields_empty_spec() {
    let statements = vec![assign("X", str_const("x")), PyStmt::Other];
    let parsed = SetupParser::parse_ast(&statements).unwrap();
    assert_eq!(parsed.package_name, None);
    assert!(parsed.entry_points.is_none());
}

#[test]
fn joined_string_concatenates_parts() {
    // V="2"; setup(version=f"1.{V}") modelled as JoinedStr["1.", V]
    let joined = PyExpr::JoinedStr(vec![str_const("1."), name("V")]);
    let statements = vec![
        assign("V", str_const("2")),
        setup_call(vec![keyword("version", joined)]),
    ];
    let parsed = SetupParser::parse_ast(&statements).unwrap();
    assert_eq!(parsed.version, Some(s("1.2")));
}

#[test]
fn non_string_constant_is_a_resolution_error() {
    let statements = vec![setup_call(vec![keyword("version", PyExpr::OtherConst)])];
    let r = SetupParser::parse_ast(&statements);
    assert!(matches!(r, Err(SpecError::Resolution(_))));
}

#[test]
fn unrecognized_keywords_are_ignored() {
    let statements = vec![setup_call(vec![
        keyword("author", str_const("nobody")),
        keyword("name", str_const("pkg")),
    ])];
    let parsed = SetupParser::parse_ast(&statements).unwrap();
    assert_eq!(parsed.package_name, Some(s("pkg")));
}

#[test]
fn list_literal_skips_non_string_elements() {
    let list = PyExpr::ListLit(vec![str_const("a"), PyExpr::OtherConst, str_const("b")]);
    let statements = vec![setup_call(vec![keyword("install_requires", list)])];
    let parsed = SetupParser::parse_ast(&statements).unwrap();
    assert_eq!(parsed.install_requires, Some(vec![s("a"), s("b")]));
}

#[test]
fn extras_map_skips_non_string_keys() {
    let extras = PyExpr::DictLit(vec![
        PyDictEntry { key: Some(PyExpr::OtherConst), value: str_list(&["dropped"]) },
        PyDictEntry { key: None, value: str_list(&["unpacked"]) },
        dict_entry("dev", str_list(&["pytest"])),
    ]);
    let statements = vec![setup_call(vec![keyword("extra_requires", extras)])];
    let parsed = SetupParser::parse_ast(&statements).unwrap();
    let mut expected = RequiresTable::new();
    expected.insert(s("dev"), vec![s("pytest")]);
    assert_eq!(parsed.extra_requires, Some(expected));
}

#[test]
fn extras_map_value_may_be_an_alias() {
    let statements = vec![
        assign("DEV", str_list(&["pytest"])),
        setup_call(vec![keyword(
            "extra_requires",
            PyExpr::DictLit(vec![dict_entry("dev", name("DEV"))]),
        )]),
    ];
    let parsed = SetupParser::parse_ast(&statements).unwrap();
    let mut expected = RequiresTable::new();
    expected.insert(s("dev"), vec![s("pytest")]);
    assert_eq!(parsed.extra_requires, Some(expected));
}

#[test]
fn entry_points_ignore_unrecognized_keys() {
    let ep = PyExpr::DictLit(vec![
        dict_entry("plugins", str_list(&["x = y"])),
        dict_entry("console_scripts", str_list(&["a = b:c"])),
    ]);
    let statements = vec![setup_call(vec![keyword("entry_points", ep)])];
    let parsed = SetupParser::parse_ast(&statements).unwrap();
    let got = parsed.entry_points.unwrap();
    assert_eq!(got.console_scripts, Some(vec![s("a = b:c")]));
    assert_eq!(got.gui_scripts, None);
}

#[test]
fn entry_points_need_a_recognized_key() {
    let ep = PyExpr::DictLit(vec![dict_entry("plugins", str_list(&["x = y"]))]);
    let statements = vec![setup_call(vec![keyword("entry_points", ep)])];
    let r = SetupParser::parse_ast(&statements);
    assert!(matches!(r, Err(SpecError::Resolution(_))));
}

#[test]
fn annotated_assignment_without_value_binds_nothing() {
    let statements = vec![
        PyStmt::AnnAssign(babelone::ast::PyAnnAssign { target: name("NAME"), value: None }),
        setup_call(vec![keyword("name", name("NAME"))]),
    ];
    let r = SetupParser::parse_ast(&statements);
    assert!(matches!(r, Err(SpecError::Resolution(_))));
}

#[test]
fn annotated_assignment_with_value_binds() {
    let statements = vec![
        PyStmt::AnnAssign(babelone::ast::PyAnnAssign {
            target: name("NAME"),
            value: Some(str_const("pkg")),
        }),
        setup_call(vec![keyword("name", name("NAME"))]),
    ];
    let parsed = SetupParser::parse_ast(&statements).unwrap();
    assert_eq!(parsed.package_name, Some(s("pkg")));
}

#[test]
fn multiple_targets_bind_the_same_value() {
    let statements = vec![
        PyStmt::Assign(PyAssign {
            targets: vec![name("A"), name("B")],
            value: str_const("x"),
        }),
        setup_call(vec![keyword("name", name("A")), keyword("version", name("B"))]),
    ];
    let parsed = SetupParser::parse_ast(&statements).unwrap();
    assert_eq!(parsed.package_name, Some(s("x")));
    assert_eq!(parsed.version, Some(s("x")));
}

#[test]
fn malformed_assignment_target_is_a_resolution_error() {
    let statements = vec![
        PyStmt::Assign(PyAssign { targets: vec![PyExpr::Other], value: str_const("x") }),
        setup_call(vec![]),
    ];
    let r = SetupParser::parse_ast(&statements);
    assert!(matches!(r, Err(SpecError::Resolution(_))));
}

#[test]
fn later_binding_shadows_earlier() {
    let statements = vec![
        assign("NAME", str_const("old")),
        assign("NAME", str_const("new")),
        setup_call(vec![keyword("name", name("NAME"))]),
    ];
    let parsed = SetupParser::parse_ast(&statements).unwrap();
    assert_eq!(parsed.package_name, Some(s("new")));
}

#[test]
fn get_setup_call_returns_keywords_and_table() {
    let statements = vec![
        assign("NAME", str_const("pkg")),
        setup_call(vec![keyword("name", name("NAME"))]),
    ];
    let mut table = SymbolTable::new();
    let call = SetupParser::get_setup_call(&statements, &mut table).unwrap().unwrap();
    assert_eq!(call.keywords.len(), 1);
    assert_eq!(call.keywords[0].arg, Some(s("name")));
    let bound = table.get(&s("NAME"));
    assert!(matches!(bound, Some(PyExpr::StrConst(v)) if v == "pkg"));
}

#[test]
fn parse_entrypoints_resolves_through_alias() {
    let statements = vec![
        assign("EPS", PyExpr::DictLit(vec![dict_entry("gui_scripts", str_list(&["g = h"]))])),
        setup_call(vec![keyword("entry_points", name("EPS"))]),
    ];
    let parsed = SetupParser::parse_ast(&statements).unwrap();
    assert_eq!(
        parsed.entry_points,
        Some(Entrypoints { console_scripts: None, gui_scripts: Some(vec![s("g = h")]) })
    );
}
