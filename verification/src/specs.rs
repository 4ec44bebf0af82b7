//! The three build-specification entities and the pairwise translations
//! among them.
//!
//! Every entity has a mathematical model; each translation function's
//! contract states exactly which model the result has, as a function of the
//! argument's model. The translations are pure; the only one that can fail
//! is the script-to-project-table direction, on a malformed entry-point
//! string.
use vstd::prelude::*;

use crate::strutil::{find_first, lex_lt, trim_spec};
use crate::tables::{entries_model, spec_insert, table_wf, RequiresTable, ScriptsTable};
use crate::SpecError;

verus! {

/// Denotes a Python package dependency and an optional version constraint,
/// e.g. `"pydantic==2.6.1"`. Never parsed further.
pub type Requirement = String;

/// Build requirements defined by a flat requirement list (requirements.txt).
#[derive(Debug, PartialEq, Eq, Clone)]
pub struct Requirements {
    pub reqs: Vec<Requirement>,
}

/// Build specifications defined by a build script (setup.py).
#[derive(Debug, PartialEq, Eq, Clone)]
pub struct Setup {
    pub package_name: Option<String>,
    pub version: Option<String>,
    pub extra_requires: Option<RequiresTable>,
    pub install_requires: Option<Vec<Requirement>>,
    pub setup_requires: Option<Vec<Requirement>>,
    pub entry_points: Option<Entrypoints>,
}

/// The entry-points block of a build script: each entry is a
/// `"name = target"` string.
#[derive(Debug, PartialEq, Eq, Clone)]
pub struct Entrypoints {
    pub console_scripts: Option<Vec<String>>,
    pub gui_scripts: Option<Vec<String>>,
}

/// Build specifications defined by a project table (pyproject.toml).
#[derive(Debug, PartialEq, Eq, Clone)]
pub struct PyProject {
    pub project: Option<Project>,
    pub build_system: Option<BuildSystem>,
}

/// The build-system section of a project table.
#[derive(Debug, PartialEq, Eq, Clone)]
pub struct BuildSystem {
    pub build_backend: Option<String>,
    pub reqs: Option<Vec<Requirement>>,
}

/// The project section of a project table.
#[derive(Debug, PartialEq, Eq, Clone)]
pub struct Project {
    pub name: Option<String>,
    pub version: Option<String>,
    pub dependencies: Option<Vec<Requirement>>,
    pub optional_dependencies: Option<RequiresTable>,
    pub project_scripts: Option<ScriptsTable>,
    pub project_gui_scripts: Option<ScriptsTable>,
}

/// The mathematical shape of an entry-points block.
#[verifier::ext_equal]
pub ghost struct EntrypointsModel {
    pub console_scripts: Option<Seq<Seq<char>>>,
    pub gui_scripts: Option<Seq<Seq<char>>>,
}

/// The mathematical shape of a script specification.
#[verifier::ext_equal]
pub ghost struct SetupModel {
    pub package_name: Option<Seq<char>>,
    pub version: Option<Seq<char>>,
    pub extra_requires: Option<Seq<(Seq<char>, Seq<Seq<char>>)>>,
    pub install_requires: Option<Seq<Seq<char>>>,
    pub setup_requires: Option<Seq<Seq<char>>>,
    pub entry_points: Option<EntrypointsModel>,
}

/// The mathematical shape of a build-system section.
#[verifier::ext_equal]
pub ghost struct BuildSystemModel {
    pub build_backend: Option<Seq<char>>,
    pub reqs: Option<Seq<Seq<char>>>,
}

/// The mathematical shape of a project section.
#[verifier::ext_equal]
pub ghost struct ProjectModel {
    pub name: Option<Seq<char>>,
    pub version: Option<Seq<char>>,
    pub dependencies: Option<Seq<Seq<char>>>,
    pub optional_dependencies: Option<Seq<(Seq<char>, Seq<Seq<char>>)>>,
    pub project_scripts: Option<Seq<(Seq<char>, Seq<char>)>>,
    pub project_gui_scripts: Option<Seq<(Seq<char>, Seq<char>)>>,
}

/// The mathematical shape of a project table.
#[verifier::ext_equal]
pub ghost struct PyProjectModel {
    pub project: Option<ProjectModel>,
    pub build_system: Option<BuildSystemModel>,
}

impl View for Requirements {
    type V = Seq<Seq<char>>;

    open spec fn view(&self) -> Seq<Seq<char>> {
        self.reqs.deep_view()
    }
}

impl View for Entrypoints {
    type V = EntrypointsModel;

    open spec fn view(&self) -> EntrypointsModel {
        EntrypointsModel {
            console_scripts: self.console_scripts.deep_view(),
            gui_scripts: self.gui_scripts.deep_view(),
        }
    }
}

impl View for Setup {
    type V = SetupModel;

    open spec fn view(&self) -> SetupModel {
        SetupModel {
            package_name: self.package_name.deep_view(),
            version: self.version.deep_view(),
            extra_requires: self.extra_requires.deep_view(),
            install_requires: self.install_requires.deep_view(),
            setup_requires: self.setup_requires.deep_view(),
            entry_points: match self.entry_points {
                Some(ep) => Some(ep@),
                None => None,
            },
        }
    }
}

impl View for BuildSystem {
    type V = BuildSystemModel;

    open spec fn view(&self) -> BuildSystemModel {
        BuildSystemModel {
            build_backend: self.build_backend.deep_view(),
            reqs: self.reqs.deep_view(),
        }
    }
}

impl View for Project {
    type V = ProjectModel;

    open spec fn view(&self) -> ProjectModel {
        ProjectModel {
            name: self.name.deep_view(),
            version: self.version.deep_view(),
            dependencies: self.dependencies.deep_view(),
            optional_dependencies: self.optional_dependencies.deep_view(),
            project_scripts: self.project_scripts.deep_view(),
            project_gui_scripts: self.project_gui_scripts.deep_view(),
        }
    }
}

impl View for PyProject {
    type V = PyProjectModel;

    open spec fn view(&self) -> PyProjectModel {
        PyProjectModel {
            project: match self.project {
                Some(p) => Some(p@),
                None => None,
            },
            build_system: match self.build_system {
                Some(b) => Some(b@),
                None => None,
            },
        }
    }
}

impl Setup {
    /// Validity: the extras table, if present, is sorted with unique keys.
    pub open spec fn wf(&self) -> bool {
        match self.extra_requires {
            Some(t) => t.wf(),
            None => true,
        }
    }
}

impl Project {
    /// Validity: every map-shaped field, if present, is sorted with unique
    /// keys.
    pub open spec fn wf(&self) -> bool {
        &&& match self.optional_dependencies {
            Some(t) => t.wf(),
            None => true,
        }
        &&& match self.project_scripts {
            Some(t) => t.wf(),
            None => true,
        }
        &&& match self.project_gui_scripts {
            Some(t) => t.wf(),
            None => true,
        }
    }
}

impl PyProject {
    /// Validity: the project section, if present, is well formed.
    pub open spec fn wf(&self) -> bool {
        match self.project {
            Some(p) => p.wf(),
            None => true,
        }
    }
}

/// An absent optional list reads as the empty list.
pub open spec fn opt_list(o: Option<Seq<Seq<char>>>) -> Seq<Seq<char>> {
    match o {
        Some(l) => l,
        None => Seq::empty(),
    }
}

/// The values of a table's groups, concatenated in entry (key) order.
pub open spec fn flatten_values(s: Seq<(Seq<char>, Seq<Seq<char>>)>) -> Seq<Seq<char>>
    decreases s.len(),
{
    if s.len() == 0 {
        Seq::empty()
    } else {
        s[0].1 + flatten_values(s.drop_first())
    }
}

/// Script specification flattened to a requirement list: install
/// requirements, then setup requirements, then each extras group in
/// lexicographic key order. Group identity is discarded irreversibly.
pub open spec fn flat_of_setup(s: SetupModel) -> Seq<Seq<char>> {
    opt_list(s.install_requires) + opt_list(s.setup_requires) + (match s.extra_requires {
        Some(t) => flatten_values(t),
        None => Seq::empty(),
    })
}

/// A requirement list read as a script specification: the whole list becomes
/// the install requirements; every other field is absent.
pub open spec fn setup_of_flat(l: Seq<Seq<char>>) -> SetupModel {
    SetupModel {
        package_name: None,
        version: None,
        extra_requires: None,
        install_requires: Some(l),
        setup_requires: None,
        entry_points: None,
    }
}

/// Project table flattened to a requirement list: the project dependencies,
/// then the build-system requirements. Optional dependencies are not
/// included, unlike the script-specification flattening.
pub open spec fn flat_of_pyproject(p: PyProjectModel) -> Seq<Seq<char>> {
    (match p.project {
        Some(pr) => opt_list(pr.dependencies),
        None => Seq::empty(),
    }) + (match p.build_system {
        Some(b) => opt_list(b.reqs),
        None => Seq::empty(),
    })
}

/// A requirement list read as a project table: the whole list becomes the
/// project dependencies; every other field is absent.
pub open spec fn pyproject_of_flat(l: Seq<Seq<char>>) -> PyProjectModel {
    PyProjectModel {
        project: Some(
            ProjectModel {
                name: None,
                version: None,
                dependencies: Some(l),
                optional_dependencies: None,
                project_scripts: None,
                project_gui_scripts: None,
            },
        ),
        build_system: None,
    }
}

/// The separator written between an entry point's name and its target.
pub open spec fn eq_sep() -> Seq<char> {
    seq![' ', '=', ' ']
}

/// Splits an entry-point string on its first `=`: the name before it and the
/// target after it, both trimmed of surrounding whitespace. A string without
/// `=` is malformed and yields nothing.
pub open spec fn split_entry(s: Seq<char>) -> Option<(Seq<char>, Seq<char>)> {
    match find_first(s, '=') {
        Some(i) => Some((trim_spec(s.take(i)), trim_spec(s.skip(i + 1)))),
        None => None,
    }
}

/// Splits each entry of `list` in order into `acc`, a key-sorted table where
/// a repeated name keeps its last target. Nothing, if some entry is
/// malformed.
pub open spec fn split_fold(
    list: Seq<Seq<char>>,
    acc: Seq<(Seq<char>, Seq<char>)>,
) -> Option<Seq<(Seq<char>, Seq<char>)>>
    decreases list.len(),
{
    if list.len() == 0 {
        Some(acc)
    } else {
        match split_entry(list[0]) {
            Some((k, v)) => split_fold(list.drop_first(), spec_insert(acc, k, v)),
            None => None,
        }
    }
}

/// The script table an entry-point list denotes, if every entry is well
/// formed.
pub open spec fn scripts_of_list(list: Seq<Seq<char>>) -> Option<Seq<(Seq<char>, Seq<char>)>> {
    split_fold(list, Seq::empty())
}

/// Each table entry rendered as a `"name = target"` string, in key order.
pub open spec fn render_entries(t: Seq<(Seq<char>, Seq<char>)>) -> Seq<Seq<char>> {
    Seq::new(t.len(), |i: int| t[i].0 + eq_sep() + t[i].1)
}

/// An optional entry-point list turned into an optional script table: absent
/// stays absent, an empty table reads as absent, and a malformed entry is an
/// error (the outer `None`).
pub open spec fn table_field_of_list(l: Option<Seq<Seq<char>>>) -> Option<
    Option<Seq<(Seq<char>, Seq<char>)>>,
> {
    match l {
        None => Some(None),
        Some(list) => match scripts_of_list(list) {
            None => None,
            Some(t) => if t.len() == 0 {
                Some(None)
            } else {
                Some(Some(t))
            },
        },
    }
}

/// An optional script table re-rendered as an optional entry-point list:
/// absent or empty reads as absent.
pub open spec fn list_field_of_table(t: Option<Seq<(Seq<char>, Seq<char>)>>) -> Option<
    Seq<Seq<char>>,
> {
    match t {
        None => None,
        Some(tab) => if tab.len() == 0 {
            None
        } else {
            Some(render_entries(tab))
        },
    }
}

/// A script specification read as a project table. Name, version,
/// dependencies and the extras map carry over by field; the entry-point
/// lists are split into script tables; the build-system section is present
/// exactly when setup requirements are, and its backend is never populated.
/// Nothing, if some entry-point string is malformed.
pub open spec fn pyproject_of_setup(s: SetupModel) -> Option<PyProjectModel> {
    let con = match s.entry_points {
        Some(ep) => table_field_of_list(ep.console_scripts),
        None => Some(None),
    };
    let gui = match s.entry_points {
        Some(ep) => table_field_of_list(ep.gui_scripts),
        None => Some(None),
    };
    if con is None || gui is None {
        None
    } else {
        Some(
            PyProjectModel {
                project: Some(
                    ProjectModel {
                        name: s.package_name,
                        version: s.version,
                        dependencies: s.install_requires,
                        optional_dependencies: s.extra_requires,
                        project_scripts: con->Some_0,
                        project_gui_scripts: gui->Some_0,
                    },
                ),
                build_system: match s.setup_requires {
                    Some(r) => Some(BuildSystemModel { build_backend: None, reqs: Some(r) }),
                    None => None,
                },
            },
        )
    }
}

/// A project table read as a script specification: the inverse field
/// mapping. Script tables are re-rendered as `"name = target"` lists in
/// lexicographic key order; the build backend is discarded.
pub open spec fn setup_of_pyproject(p: PyProjectModel) -> SetupModel {
    let setup_requires = match p.build_system {
        Some(b) => b.reqs,
        None => None,
    };
    match p.project {
        Some(pr) => {
            let con = list_field_of_table(pr.project_scripts);
            let gui = list_field_of_table(pr.project_gui_scripts);
            SetupModel {
                package_name: pr.name,
                version: pr.version,
                install_requires: pr.dependencies,
                extra_requires: pr.optional_dependencies,
                setup_requires,
                entry_points: if con is Some || gui is Some {
                    Some(EntrypointsModel { console_scripts: con, gui_scripts: gui })
                } else {
                    None
                },
            }
        },
        None => SetupModel {
            package_name: None,
            version: None,
            install_requires: None,
            extra_requires: None,
            setup_requires,
            entry_points: None,
        },
    }
}

/// An entry-point name that survives rendering and splitting: it holds no
/// `=` and carries no surrounding whitespace.
pub open spec fn clean_name(k: Seq<char>) -> bool {
    trim_spec(k) == k && find_first(k, '=') is None
}

/// An entry-point target that survives rendering and splitting: it carries
/// no surrounding whitespace.
pub open spec fn clean_target(v: Seq<char>) -> bool {
    trim_spec(v) == v
}

/// Law: reading a flat requirement list as a script specification and
/// flattening it back reproduces the list exactly — the round trip passes
/// through the install requirements alone.
pub proof fn lemma_flat_setup_roundtrip(l: Seq<Seq<char>>)
    ensures
        flat_of_setup(setup_of_flat(l)) == l,
{
    assert(flat_of_setup(setup_of_flat(l)) =~= l);
}

/// Law: a script specification carrying only extras flattens to exactly the
/// extras groups' lists, concatenated in the table's entry order — which a
/// well-formed table keeps lexicographic by key.
pub proof fn lemma_flat_of_extras_only(s: SetupModel)
    requires
        s.install_requires is None,
        s.setup_requires is None,
        s.extra_requires is Some,
    ensures
        flat_of_setup(s) == flatten_values(s.extra_requires->Some_0),
{
    assert(flat_of_setup(s) =~= flatten_values(s.extra_requires->Some_0));
}

/// Law: the flat list of a project table does not depend on its optional
/// dependencies — they are dropped, unlike in the script-specification
/// flattening, which keeps extras.
pub proof fn lemma_flat_of_pyproject_drops_extras(
    p: PyProjectModel,
    od: Option<Seq<(Seq<char>, Seq<Seq<char>>)>>,
)
    requires
        p.project is Some,
    ensures
        flat_of_pyproject(
            PyProjectModel {
                project: Some(ProjectModel { optional_dependencies: od, ..p.project->Some_0 }),
                ..p
            },
        ) == flat_of_pyproject(p),
{
}

/// Rendering one table entry and splitting it returns the entry: the first
/// `=` of the rendered string is the separator, and trimming undoes the
/// padding around it.
proof fn lemma_split_rendered(k: Seq<char>, v: Seq<char>)
    requires
        clean_name(k),
        clean_target(v),
    ensures
        split_entry(k + eq_sep() + v) == Some((k, v)),
{
    let s = k + eq_sep() + v;
    let kl = k.len() as int;
    assert(s[kl + 1] == '=');
    crate::strutil::lemma_find_first(k, '=');
    assert forall|j: int| 0 <= j < kl + 1 implies s[j] != '=' by {
        if j < kl {
            assert(s[j] == k[j]);
        } else {
            assert(s[j] == ' ');
        }
    }
    crate::strutil::lemma_find_first_witness(s, '=', kl + 1);
    assert(s.take(kl + 1) =~= k + seq![' ']);
    crate::strutil::lemma_trim_pad_right(k);
    assert(s.skip(kl + 2) =~= seq![' '] + v);
    crate::strutil::lemma_trim_pad_left(v);
}

/// Splitting the rendering of a table whose keys all exceed those of `acc`
/// appends the table to `acc`.
proof fn lemma_split_fold_rendered(
    t: Seq<(Seq<char>, Seq<char>)>,
    acc: Seq<(Seq<char>, Seq<char>)>,
)
    requires
        table_wf(acc + t),
        forall|i: int| 0 <= i < t.len() ==> clean_name(#[trigger] t[i].0) && clean_target(t[i].1),
    ensures
        split_fold(render_entries(t), acc) == Some(acc + t),
    decreases t.len(),
{
    if t.len() == 0 {
        assert(render_entries(t).len() == 0);
        assert(acc + t =~= acc);
    } else {
        let k = t[0].0;
        let v = t[0].1;
        lemma_split_rendered(k, v);
        assert(render_entries(t)[0] == k + eq_sep() + v);
        assert forall|i: int| 0 <= i < acc.len() implies lex_lt(#[trigger] acc[i].0, k) by {
            assert((acc + t)[i] == acc[i]);
            assert((acc + t)[acc.len() as int] == t[0]);
        }
        crate::tables::lemma_insert_append(acc, k, v);
        let acc2 = acc.push((k, v));
        assert(acc2 + t.drop_first() =~= acc + t);
        assert(render_entries(t).drop_first() =~= render_entries(t.drop_first()));
        lemma_split_fold_rendered(t.drop_first(), acc2);
    }
}

/// Law: a well-formed script table, re-rendered as `"name = target"`
/// strings and split back, returns unchanged. It holds whenever each name is
/// free of `=` and each name and target is free of surrounding whitespace;
/// a name with `=` or padded fields would not parse back to the same table.
pub proof fn lemma_scripts_roundtrip(t: Seq<(Seq<char>, Seq<char>)>)
    requires
        table_wf(t),
        forall|i: int| 0 <= i < t.len() ==> clean_name(#[trigger] t[i].0) && clean_target(t[i].1),
    ensures
        scripts_of_list(render_entries(t)) == Some(t),
{
    let empty = Seq::<(Seq<char>, Seq<char>)>::empty();
    assert(empty + t =~= t);
    lemma_split_fold_rendered(t, empty);
}

impl Requirements {
    /// Flattens a script specification to a requirement list: install
    /// requirements, then setup requirements, then each extras group's list
    /// in lexicographic key order.
    pub fn from_setup(setup: Setup) -> (r: Self)
        requires
            setup.wf(),
        ensures
            r@ == flat_of_setup(setup@),
    {
        let ghost m = setup@;
        let mut reqs: Vec<Requirement> = Vec::new();
        if let Some(mut install_requires) = setup.install_requires {
            reqs.append(&mut install_requires);
        }
        proof {
            assert(reqs.deep_view() =~= opt_list(m.install_requires));
        }
        if let Some(mut setup_requires) = setup.setup_requires {
            let ghost before = reqs.deep_view();
            reqs.append(&mut setup_requires);
            proof {
                assert(reqs.deep_view() =~= before + opt_list(m.setup_requires));
            }
        }
        proof {
            assert(reqs.deep_view() =~= opt_list(m.install_requires) + opt_list(
                m.setup_requires,
            ));
        }
        let ghost flat_prefix = reqs.deep_view();
        if let Some(extra_requires) = setup.extra_requires {
            let mut entries = extra_requires.into_entries();
            while entries.len() > 0
                invariant
                    flat_prefix + flatten_values(m.extra_requires->Some_0) == reqs.deep_view()
                        + flatten_values(entries_model(entries@)),
                decreases entries.len(),
            {
                let ghost ents = entries_model(entries@);
                let mut pair = entries.remove(0);
                let ghost before = reqs.deep_view();
                reqs.append(&mut pair.1);
                proof {
                    assert(reqs.deep_view() =~= before + ents[0].1);
                    assert(entries_model(entries@) =~= ents.drop_first());
                    assert(before + ents[0].1 + flatten_values(ents.drop_first()) =~= before
                        + (ents[0].1 + flatten_values(ents.drop_first())));
                }
            }
            proof {
                assert(entries_model(entries@) =~= Seq::<(Seq<char>, Seq<Seq<char>>)>::empty());
                assert(reqs.deep_view() + flatten_values(entries_model(entries@))
                    =~= reqs.deep_view());
            }
        }
        let r = Requirements { reqs };
        proof {
            assert(r@ =~= flat_of_setup(m));
        }
        r
    }

    /// Flattens a project table to a requirement list: the project
    /// dependencies, then the build-system requirements. Optional
    /// dependencies are dropped.
    pub fn from_pyproject(pyproject: PyProject) -> (r: Self)
        ensures
            r@ == flat_of_pyproject(pyproject@),
    {
        let ghost m = pyproject@;
        let mut reqs: Vec<Requirement> = Vec::new();
        if let Some(project) = pyproject.project {
            if let Some(mut dependencies) = project.dependencies {
                reqs.append(&mut dependencies);
            }
        }
        proof {
            assert(reqs.deep_view() =~= (match m.project {
                Some(pr) => opt_list(pr.dependencies),
                None => Seq::<Seq<char>>::empty(),
            }));
        }
        let ghost before = reqs.deep_view();
        if let Some(build_system) = pyproject.build_system {
            if let Some(mut build_reqs) = build_system.reqs {
                reqs.append(&mut build_reqs);
            }
        }
        proof {
            assert(reqs.deep_view() =~= before + (match m.build_system {
                Some(b) => opt_list(b.reqs),
                None => Seq::<Seq<char>>::empty(),
            }));
        }
        let r = Requirements { reqs };
        proof {
            assert(r@ =~= flat_of_pyproject(m));
        }
        r
    }
}

impl Setup {
    /// Reads a requirement list as a script specification: the list becomes
    /// the install requirements, every other field is absent.
    pub fn from_requirements(requirements: Requirements) -> (r: Self)
        ensures
            r@ == setup_of_flat(requirements@),
            r.wf(),
    {
        let ghost l = requirements@;
        let r = Setup {
            install_requires: Some(requirements.reqs),
            setup_requires: None,
            extra_requires: None,
            entry_points: None,
            package_name: None,
            version: None,
        };
        proof {
            assert(r@ =~= setup_of_flat(l));
        }
        r
    }
}

impl PyProject {
    /// Reads a requirement list as a project table: the list becomes the
    /// project dependencies, every other field is absent.
    pub fn from_requirements(requirements: Requirements) -> (r: Self)
        ensures
            r@ == pyproject_of_flat(requirements@),
            r.wf(),
    {
        let ghost l = requirements@;
        let r = PyProject {
            project: Some(
                Project {
                    dependencies: Some(requirements.reqs),
                    name: None,
                    version: None,
                    optional_dependencies: None,
                    project_scripts: None,
                    project_gui_scripts: None,
                },
            ),
            build_system: None,
        };
        proof {
            assert(r@ =~= pyproject_of_flat(l));
        }
        r
    }
}

/// Splits one `"name = target"` entry-point string on its first `=`.
fn split_script_entry(s: &str) -> (r: Result<(String, String), SpecError>)
    ensures
        match split_entry(s@) {
            Some(kv) => r is Ok && (r->Ok_0.0@, r->Ok_0.1@) == kv,
            None => r is Err && r->Err_0 is Resolution,
        },
{
    let len = s.unicode_len();
    match crate::strutil::find_char(s, '=') {
        Some(i) => {
            proof {
                crate::strutil::lemma_find_first(s@, '=');
            }
            let key = crate::strutil::trim_str(s.substring_char(0, i));
            let value = crate::strutil::trim_str(s.substring_char(i + 1, len));
            proof {
                assert(s@.subrange(0, i as int) =~= s@.take(i as int));
                assert(s@.subrange(i + 1, s@.len() as int) =~= s@.skip(i + 1));
            }
            Ok((key, value))
        },
        None => Err(
            SpecError::Resolution(String::from_str("an entry point must contain `=`: ").concat(s)),
        ),
    }
}

/// Splits a whole entry-point list into a key-sorted script table; fails on
/// the first malformed entry.
fn scripts_table_of_list(list: Vec<String>) -> (r: Result<ScriptsTable, SpecError>)
    ensures
        match scripts_of_list(list.deep_view()) {
            Some(t) => r is Ok && r->Ok_0@ == t && r->Ok_0.wf(),
            None => r is Err && r->Err_0 is Resolution,
        },
{
    let ghost l = list.deep_view();
    let mut table = ScriptsTable::new();
    proof {
        assert(l.skip(0) =~= l);
    }
    let mut j: usize = 0;
    while j < list.len()
        invariant
            0 <= j <= list.len(),
            l == list.deep_view(),
            table.wf(),
            scripts_of_list(l) == split_fold(l.skip(j as int), table@),
        decreases list.len() - j,
    {
        let ghost before = table@;
        match split_script_entry(list[j].as_str()) {
            Ok((key, value)) => {
                table.insert(key, value);
            },
            Err(e) => {
                proof {
                    assert(l.skip(j as int)[0] == l[j as int]);
                }
                return Err(e);
            },
        }
        j = j + 1;
        proof {
            assert(l.skip(j - 1)[0] == l[j - 1]);
            assert(l.skip(j - 1).drop_first() =~= l.skip(j as int));
        }
    }
    proof {
        assert(l.skip(j as int) =~= Seq::<Seq<char>>::empty());
    }
    Ok(table)
}

/// Renders a script table as `"name = target"` strings, in key order.
fn render_script_entries(table: ScriptsTable) -> (r: Vec<String>)
    ensures
        r.deep_view() == render_entries(table@),
{
    let ghost t = table@;
    let n = table.len();
    let mut out: Vec<String> = Vec::new();
    let mut i: usize = 0;
    while i < n
        invariant
            0 <= i <= n,
            n == t.len(),
            t == table@,
            out.deep_view().len() == i,
            forall|j: int| 0 <= j < i ==> out.deep_view()[j] == render_entries(t)[j],
        decreases n - i,
    {
        let pair = table.entry_at(i);
        let mut line = String::new();
        line.append(pair.0.as_str());
        line.append(" = ");
        line.append(pair.1.as_str());
        proof {
            reveal_strlit(" = ");
            assert(" = "@ =~= eq_sep());
            assert(line@ == t[i as int].0 + eq_sep() + t[i as int].1);
        }
        out.push(line);
        i = i + 1;
    }
    proof {
        assert(out.deep_view() =~= render_entries(t));
    }
    out
}

impl PyProject {
    /// Reads a script specification as a project table. Fails, naming the
    /// entry, exactly when some entry-point string lacks `=`; the
    /// translation is otherwise total.
    pub fn from_setup(setup: Setup) -> (r: Result<Self, SpecError>)
        requires
            setup.wf(),
        ensures
            match pyproject_of_setup(setup@) {
                Some(m) => r is Ok && r->Ok_0@ == m && r->Ok_0.wf(),
                None => r is Err && r->Err_0 is Resolution,
            },
    {
        let ghost sm = setup@;
        let mut project_scripts: Option<ScriptsTable> = None;
        let mut project_gui_scripts: Option<ScriptsTable> = None;
        if let Some(entry_points) = setup.entry_points {
            if let Some(console_scripts) = entry_points.console_scripts {
                let table = match scripts_table_of_list(console_scripts) {
                    Ok(t) => t,
                    Err(e) => {
                        return Err(e);
                    },
                };
                if table.len() > 0 {
                    project_scripts = Some(table);
                }
            }
            if let Some(gui_scripts) = entry_points.gui_scripts {
                let table = match scripts_table_of_list(gui_scripts) {
                    Ok(t) => t,
                    Err(e) => {
                        return Err(e);
                    },
                };
                if table.len() > 0 {
                    project_gui_scripts = Some(table);
                }
            }
        }
        let build_system = match setup.setup_requires {
            Some(setup_requires) => Some(
                BuildSystem { reqs: Some(setup_requires), build_backend: None },
            ),
            None => None,
        };
        let r = PyProject {
            project: Some(
                Project {
                    name: setup.package_name,
                    version: setup.version,
                    dependencies: setup.install_requires,
                    optional_dependencies: setup.extra_requires,
                    project_scripts,
                    project_gui_scripts,
                },
            ),
            build_system,
        };
        proof {
            assert(r@ =~= pyproject_of_setup(sm)->Some_0);
        }
        Ok(r)
    }
}

impl Setup {
    /// Reads a project table as a script specification: the inverse field
    /// mapping, with script tables re-rendered as `"name = target"` lists in
    /// lexicographic key order and the build backend discarded.
    pub fn from_pyproject(pyproject: PyProject) -> (r: Self)
        requires
            pyproject.wf(),
        ensures
            r@ == setup_of_pyproject(pyproject@),
            r.wf(),
    {
        let ghost pm = pyproject@;
        let setup_requires = match pyproject.build_system {
            Some(build_system) => build_system.reqs,
            None => None,
        };
        let r = match pyproject.project {
            Some(project) => {
                let mut console_scripts: Option<Vec<String>> = None;
                let mut gui_scripts: Option<Vec<String>> = None;
                if let Some(project_scripts) = project.project_scripts {
                    if project_scripts.len() > 0 {
                        console_scripts = Some(render_script_entries(project_scripts));
                    }
                }
                if let Some(project_gui_scripts) = project.project_gui_scripts {
                    if project_gui_scripts.len() > 0 {
                        gui_scripts = Some(render_script_entries(project_gui_scripts));
                    }
                }
                let entry_points = if console_scripts.is_some() || gui_scripts.is_some() {
                    Some(Entrypoints { console_scripts, gui_scripts })
                } else {
                    None
                };
                Setup {
                    package_name: project.name,
                    version: project.version,
                    install_requires: project.dependencies,
                    extra_requires: project.optional_dependencies,
                    setup_requires,
                    entry_points,
                }
            },
            None => Setup {
                package_name: None,
                version: None,
                install_requires: None,
                extra_requires: None,
                setup_requires,
                entry_points: None,
            },
        };
        proof {
            assert(r@ =~= setup_of_pyproject(pm));
        }
        r
    }
}

impl Default for Requirements {
    /// The scaffold default: an empty requirement list.
    fn default() -> (r: Self)
        ensures
            r@ == Seq::<Seq<char>>::empty(),
    {
        let r = Requirements { reqs: Vec::new() };
        proof {
            assert(r@ =~= Seq::<Seq<char>>::empty());
        }
        r
    }
}

impl Default for Entrypoints {
    /// The scaffold default: both entry-point lists present and empty.
    fn default() -> (r: Self)
        ensures
            r@.console_scripts == Some(Seq::<Seq<char>>::empty()),
            r@.gui_scripts == Some(Seq::<Seq<char>>::empty()),
    {
        let r = Entrypoints { console_scripts: Some(Vec::new()), gui_scripts: Some(Vec::new()) };
        proof {
            assert(r.console_scripts->Some_0.deep_view() =~= Seq::<Seq<char>>::empty());
            assert(r.gui_scripts->Some_0.deep_view() =~= Seq::<Seq<char>>::empty());
        }
        r
    }
}

impl Default for Setup {
    /// The scaffold default: every field present and empty.
    fn default() -> (r: Self)
        ensures
            r@.package_name == Some(Seq::<char>::empty()),
            r@.version == Some(Seq::<char>::empty()),
            r@.install_requires == Some(Seq::<Seq<char>>::empty()),
            r@.setup_requires == Some(Seq::<Seq<char>>::empty()),
            r@.extra_requires == Some(Seq::<(Seq<char>, Seq<Seq<char>>)>::empty()),
            r@.entry_points == Some(
                EntrypointsModel {
                    console_scripts: Some(Seq::<Seq<char>>::empty()),
                    gui_scripts: Some(Seq::<Seq<char>>::empty()),
                },
            ),
            r.wf(),
    {
        let r = Setup {
            package_name: Some(String::new()),
            version: Some(String::new()),
            entry_points: Some(Entrypoints::default()),
            extra_requires: Some(RequiresTable::new()),
            install_requires: Some(Vec::new()),
            setup_requires: Some(Vec::new()),
        };
        proof {
            assert(r.install_requires->Some_0.deep_view() =~= Seq::<Seq<char>>::empty());
            assert(r.setup_requires->Some_0.deep_view() =~= Seq::<Seq<char>>::empty());
        }
        r
    }
}

impl Default for BuildSystem {
    /// The scaffold default: an empty backend and no requirements listed.
    fn default() -> (r: Self)
        ensures
            r@.build_backend == Some(Seq::<char>::empty()),
            r@.reqs == Some(Seq::<Seq<char>>::empty()),
    {
        let r = BuildSystem { build_backend: Some(String::new()), reqs: Some(Vec::new()) };
        proof {
            assert(r.reqs->Some_0.deep_view() =~= Seq::<Seq<char>>::empty());
        }
        r
    }
}

impl Default for Project {
    /// The scaffold default: every field present and empty.
    fn default() -> (r: Self)
        ensures
            r@.name == Some(Seq::<char>::empty()),
            r@.version == Some(Seq::<char>::empty()),
            r@.dependencies == Some(Seq::<Seq<char>>::empty()),
            r@.optional_dependencies == Some(Seq::<(Seq<char>, Seq<Seq<char>>)>::empty()),
            r@.project_scripts == Some(Seq::<(Seq<char>, Seq<char>)>::empty()),
            r@.project_gui_scripts == Some(Seq::<(Seq<char>, Seq<char>)>::empty()),
            r.wf(),
    {
        let r = Project {
            name: Some(String::new()),
            version: Some(String::new()),
            dependencies: Some(Vec::new()),
            optional_dependencies: Some(RequiresTable::new()),
            project_scripts: Some(ScriptsTable::new()),
            project_gui_scripts: Some(ScriptsTable::new()),
        };
        proof {
            assert(r.dependencies->Some_0.deep_view() =~= Seq::<Seq<char>>::empty());
        }
        r
    }
}

impl Default for PyProject {
    /// The scaffold default: both sections present, with default contents.
    fn default() -> (r: Self)
        ensures
            r@.project is Some,
            r@.project->Some_0.name == Some(Seq::<char>::empty()),
            r@.project->Some_0.version == Some(Seq::<char>::empty()),
            r@.project->Some_0.dependencies == Some(Seq::<Seq<char>>::empty()),
            r@.project->Some_0.optional_dependencies == Some(
                Seq::<(Seq<char>, Seq<Seq<char>>)>::empty(),
            ),
            r@.project->Some_0.project_scripts == Some(Seq::<(Seq<char>, Seq<char>)>::empty()),
            r@.project->Some_0.project_gui_scripts == Some(Seq::<(Seq<char>, Seq<char>)>::empty()),
            r@.build_system is Some,
            r@.build_system->Some_0.build_backend == Some(Seq::<char>::empty()),
            r@.build_system->Some_0.reqs == Some(Seq::<Seq<char>>::empty()),
            r.wf(),
    {
        PyProject { project: Some(Project::default()), build_system: Some(BuildSystem::default()) }
    }
}

} // verus!
