//! Renderers that turn build-specification entities into their textual
//! forms: the flat requirement list and the build script. The project
//! table's text is produced by the external table codec from the entity
//! itself, so no renderer for it lives here.
use vstd::prelude::*;

use crate::specs::{Requirements, Setup, SetupModel};

verus! {

/// Renders a flat requirement list.
pub struct RequirementsGenerator;

/// Renders a build script.
pub struct SetupGenerator;

/// Marks the project-table side of generation: the structured text is
/// encoded by the external table codec directly from the `PyProject` entity.
pub struct PyProjectGenerator;

/// Flat-list text: each requirement followed by a newline.
pub open spec fn render_requirements_spec(l: Seq<Seq<char>>) -> Seq<char>
    decreases l.len(),
{
    if l.len() == 0 {
        Seq::empty()
    } else {
        l[0] + seq!['\n'] + render_requirements_spec(l.drop_first())
    }
}

impl RequirementsGenerator {
    /// Renders the requirement list as flat-list text: one requirement per
    /// line.
    pub fn render(spec: &Requirements) -> (r: String)
        ensures
            r@ == render_requirements_spec(spec@),
    {
        let ghost l = spec@;
        let mut out = String::new();
        proof {
            assert(l.skip(0) =~= l);
        }
        let mut i: usize = 0;
        while i < spec.reqs.len()
            invariant
                0 <= i <= spec.reqs.len(),
                l == spec@,
                out@ + render_requirements_spec(l.skip(i as int)) == render_requirements_spec(l),
            decreases spec.reqs.len() - i,
        {
            let ghost before = out@;
            proof {
                assert(l.skip(i as int)[0] == l[i as int]);
                assert(l.skip(i as int).drop_first() =~= l.skip(i + 1));
            }
            out.append(spec.reqs[i].as_str());
            out.append("\n");
            proof {
                reveal_strlit("\n");
                assert("\n"@ =~= seq!['\n']);
                assert(out@ =~= before + (l[i as int] + seq!['\n']));
                assert(before + (l[i as int] + seq!['\n'] + render_requirements_spec(
                    l.skip(i + 1),
                )) =~= (before + (l[i as int] + seq!['\n'])) + render_requirements_spec(
                    l.skip(i + 1),
                ));
                assert(l[i as int] + seq!['\n'] + render_requirements_spec(l.skip(i + 1)) =~= (l[
                    i as int
                ] + seq!['\n']) + render_requirements_spec(l.skip(i + 1)));
            }
            i = i + 1;
        }
        proof {
            assert(l.skip(spec.reqs@.len() as int) =~= Seq::<Seq<char>>::empty());
            assert(out@ + Seq::<char>::empty() =~= out@);
        }
        out
    }
}

/// The escape of one character inside a quoted string: quotes and
/// backslashes carry a backslash, everything else stands as it is.
pub open spec fn esc_char(c: char) -> Seq<char> {
    if c == '"' {
        seq!['\\', '"']
    } else if c == '\\' {
        seq!['\\', '\\']
    } else {
        seq![c]
    }
}

/// The escape of a whole string.
pub open spec fn esc_str(s: Seq<char>) -> Seq<char>
    decreases s.len(),
{
    if s.len() == 0 {
        Seq::empty()
    } else {
        esc_char(s[0]) + esc_str(s.drop_first())
    }
}

/// A string rendered as a double-quoted literal with its contents escaped.
pub open spec fn quoted(s: Seq<char>) -> Seq<char> {
    seq!['"'] + esc_str(s) + seq!['"']
}

/// The comma-separated quoted items of a list literal.
pub open spec fn list_inner(l: Seq<Seq<char>>) -> Seq<char>
    decreases l.len(),
{
    if l.len() == 0 {
        Seq::empty()
    } else if l.len() == 1 {
        quoted(l[0])
    } else {
        quoted(l[0]) + ", "@ + list_inner(l.drop_first())
    }
}

/// A string list rendered as a bracketed literal.
pub open spec fn render_list(l: Seq<Seq<char>>) -> Seq<char> {
    "["@ + list_inner(l) + "]"@
}

/// The comma-separated entries of a map literal from groups to lists.
pub open spec fn groups_inner(t: Seq<(Seq<char>, Seq<Seq<char>>)>) -> Seq<char>
    decreases t.len(),
{
    if t.len() == 0 {
        Seq::empty()
    } else if t.len() == 1 {
        quoted(t[0].0) + ": "@ + render_list(t[0].1)
    } else {
        quoted(t[0].0) + ": "@ + render_list(t[0].1) + ", "@ + groups_inner(t.drop_first())
    }
}

/// A group table rendered as a braced map literal, in key order.
pub open spec fn render_groups(t: Seq<(Seq<char>, Seq<Seq<char>>)>) -> Seq<char> {
    "{"@ + groups_inner(t) + "}"@
}

/// An optional entry-point list reads as the empty list where absent.
pub open spec fn ep_list(o: Option<Seq<Seq<char>>>) -> Seq<Seq<char>> {
    match o {
        Some(l) => l,
        None => Seq::empty(),
    }
}

/// The entry-points block rendered as a two-key map literal; an absent list
/// renders as the empty list.
pub open spec fn render_entrypoints(
    con: Option<Seq<Seq<char>>>,
    gui: Option<Seq<Seq<char>>>,
) -> Seq<char> {
    "{"@ + quoted("console_scripts"@) + ": "@ + render_list(ep_list(con)) + ", "@ + quoted(
        "gui_scripts"@,
    ) + ": "@ + render_list(ep_list(gui)) + "}"@
}

/// One rendered keyword line of the call, or nothing for an absent field.
pub open spec fn kwarg_line(name: Seq<char>, value: Seq<char>) -> Seq<char> {
    "        "@ + name + "="@ + value + ",\n"@
}

/// The rendered keyword lines of the call, in fixed field order, absent
/// fields omitted.
pub open spec fn render_kwargs(m: SetupModel) -> Seq<char> {
    (match m.package_name {
        Some(s) => kwarg_line("package_name"@, quoted(s)),
        None => Seq::empty(),
    }) + (match m.version {
        Some(s) => kwarg_line("version"@, quoted(s)),
        None => Seq::empty(),
    }) + (match m.install_requires {
        Some(l) => kwarg_line("install_requires"@, render_list(l)),
        None => Seq::empty(),
    }) + (match m.setup_requires {
        Some(l) => kwarg_line("setup_requires"@, render_list(l)),
        None => Seq::empty(),
    }) + (match m.extra_requires {
        Some(t) => kwarg_line("extra_requires"@, render_groups(t)),
        None => Seq::empty(),
    }) + (match m.entry_points {
        Some(ep) => kwarg_line(
            "entry_points"@,
            render_entrypoints(ep.console_scripts, ep.gui_scripts),
        ),
        None => Seq::empty(),
    })
}

/// The script's docstring names the package when one is present and
/// nonempty.
pub open spec fn render_docstring(m: SetupModel) -> Seq<char> {
    "\"\"\"Installation configuration and package metadata"@ + (match m.package_name {
        Some(s) => if s.len() > 0 {
            " for "@ + s
        } else {
            Seq::empty()
        },
        None => Seq::empty(),
    }) + ".\"\"\""@
}

/// Build-script text: a docstring, the import, a main guard, and the call
/// with each present field rendered as a keyword.
pub open spec fn render_setup_spec(m: SetupModel) -> Seq<char> {
    render_docstring(m) + "\nfrom setuptools import setup\n\n\nif __name__ == \"__main__\":\n    setup(\n"@
        + render_kwargs(m) + "    )"@
}

/// Appends `s`, rendered as a double-quoted literal with quotes and
/// backslashes escaped, to `out`.
fn append_quoted(out: &mut String, s: &str)
    ensures
        final(out)@ == old(out)@ + quoted(s@),
{
    let ghost sv = s@;
    let ghost start = old(out)@;
    out.append("\"");
    proof {
        reveal_strlit("\"");
        assert("\""@ =~= seq!['"']);
        assert(sv.skip(0) =~= sv);
    }
    let len = s.unicode_len();
    let mut i: usize = 0;
    while i < len
        invariant
            0 <= i <= len,
            len == sv.len(),
            sv == s@,
            out@ + esc_str(sv.skip(i as int)) == start + seq!['"'] + esc_str(sv),
        decreases len - i,
    {
        let ghost before = out@;
        proof {
            assert(sv.skip(i as int)[0] == sv[i as int]);
            assert(sv.skip(i as int).drop_first() =~= sv.skip(i + 1));
        }
        let c = s.get_char(i);
        if c == '"' {
            out.append("\\\"");
            proof {
                reveal_strlit("\\\"");
                assert("\\\""@ =~= seq!['\\', '"']);
            }
        } else if c == '\\' {
            out.append("\\\\");
            proof {
                reveal_strlit("\\\\");
                assert("\\\\"@ =~= seq!['\\', '\\']);
            }
        } else {
            let piece = s.substring_char(i, i + 1);
            out.append(piece);
            proof {
                assert(piece@ =~= seq![sv[i as int]]);
            }
        }
        proof {
            assert(out@ =~= before + esc_char(sv[i as int]));
            assert(before + (esc_char(sv[i as int]) + esc_str(sv.skip(i + 1))) =~= (before
                + esc_char(sv[i as int])) + esc_str(sv.skip(i + 1)));
        }
        i = i + 1;
    }
    out.append("\"");
    proof {
        assert(sv.skip(len as int) =~= Seq::<char>::empty());
        assert(final(out)@ =~= start + quoted(sv));
    }
}

/// Appends a string list rendered as a bracketed literal to `out`.
fn append_list(out: &mut String, l: &Vec<String>)
    ensures
        final(out)@ == old(out)@ + render_list(l.deep_view()),
{
    let ghost lv = l.deep_view();
    let ghost start = old(out)@;
    out.append("[");
    proof {
        assert(lv.skip(0) =~= lv);
    }
    let mut i: usize = 0;
    while i < l.len()
        invariant
            0 <= i <= l.len(),
            lv == l.deep_view(),
            out@ + list_inner(lv.skip(i as int)) == start + "["@ + list_inner(lv),
        decreases l.len() - i,
    {
        let ghost before = out@;
        proof {
            assert(lv.skip(i as int)[0] == lv[i as int]);
            assert(lv.skip(i as int).drop_first() =~= lv.skip(i + 1));
        }
        append_quoted(out, l[i].as_str());
        if i + 1 < l.len() {
            out.append(", ");
            proof {
                assert(lv.skip(i as int).len() > 1);
                assert(out@ =~= before + (quoted(lv[i as int]) + ", "@));
                assert(before + (quoted(lv[i as int]) + ", "@ + list_inner(lv.skip(i + 1)))
                    =~= (before + (quoted(lv[i as int]) + ", "@)) + list_inner(lv.skip(i + 1)));
                assert(quoted(lv[i as int]) + ", "@ + list_inner(lv.skip(i + 1)) =~= (quoted(
                    lv[i as int],
                ) + ", "@) + list_inner(lv.skip(i + 1)));
            }
        } else {
            proof {
                assert(lv.skip(i as int).len() == 1);
                assert(lv.skip(i + 1) =~= Seq::<Seq<char>>::empty());
            }
        }
        i = i + 1;
    }
    out.append("]");
    proof {
        assert(lv.skip(l@.len() as int) =~= Seq::<Seq<char>>::empty());
        assert(final(out)@ =~= start + render_list(lv));
    }
}

impl SetupGenerator {
    /// Renders the script specification as build-script text: a docstring
    /// that names the package when one is present, the import, a main
    /// guard, and the call with each present field rendered as a keyword,
    /// absent fields omitted.
    pub fn render(spec: &Setup) -> (r: String)
        ensures
            r@ == render_setup_spec(spec@),
    {
        let ghost m = spec@;
        let mut out = String::new();
        proof {
            assert(Seq::<char>::empty() + render_docstring(m) =~= render_docstring(m));
        }
        Self::append_docstring(&mut out, spec);
        out.append("\nfrom setuptools import setup\n\n\nif __name__ == \"__main__\":\n    setup(\n");
        let ghost header = out@;
        let ghost a = (match m.package_name {
            Some(s) => kwarg_line("package_name"@, quoted(s)),
            None => Seq::<char>::empty(),
        });
        let ghost b = (match m.version {
            Some(s) => kwarg_line("version"@, quoted(s)),
            None => Seq::<char>::empty(),
        });
        let ghost c = (match m.install_requires {
            Some(l) => kwarg_line("install_requires"@, render_list(l)),
            None => Seq::<char>::empty(),
        });
        let ghost d = (match m.setup_requires {
            Some(l) => kwarg_line("setup_requires"@, render_list(l)),
            None => Seq::<char>::empty(),
        });
        let ghost e = (match m.extra_requires {
            Some(t) => kwarg_line("extra_requires"@, render_groups(t)),
            None => Seq::<char>::empty(),
        });
        let ghost f = (match m.entry_points {
            Some(ep) => kwarg_line(
                "entry_points"@,
                render_entrypoints(ep.console_scripts, ep.gui_scripts),
            ),
            None => Seq::<char>::empty(),
        });
        Self::append_kw_name(&mut out, spec);
        Self::append_kw_version(&mut out, spec);
        proof {
            vstd::seq_lib::lemma_concat_associative(header, a, b);
        }
        Self::append_kw_install(&mut out, spec);
        proof {
            vstd::seq_lib::lemma_concat_associative(header, a + b, c);
        }
        Self::append_kw_setup(&mut out, spec);
        proof {
            vstd::seq_lib::lemma_concat_associative(header, a + b + c, d);
        }
        Self::append_kw_extra(&mut out, spec);
        proof {
            vstd::seq_lib::lemma_concat_associative(header, a + b + c + d, e);
        }
        Self::append_kw_entry_points(&mut out, spec);
        proof {
            vstd::seq_lib::lemma_concat_associative(header, a + b + c + d + e, f);
            assert(out@ == header + render_kwargs(m));
        }
        out.append("    )");
        proof {
            assert(out@ == render_setup_spec(m));
        }
        out
    }

    /// Appends the docstring, which names the package when one is present
    /// and nonempty.
    fn append_docstring(out: &mut String, spec: &Setup)
        ensures
            final(out)@ == old(out)@ + render_docstring(spec@),
    {
        let ghost start = old(out)@;
        out.append("\"\"\"Installation configuration and package metadata");
        match &spec.package_name {
            Some(name) => {
                if name.as_str().unicode_len() > 0 {
                    out.append(" for ");
                    out.append(name.as_str());
                }
            },
            None => {},
        }
        out.append(".\"\"\"");
        proof {
            assert(final(out)@ =~= start + render_docstring(spec@));
        }
    }

    /// Appends the rendered `package_name` keyword line, if the field is
    /// present.
    fn append_kw_name(out: &mut String, spec: &Setup)
        ensures
            final(out)@ == old(out)@ + (match spec@.package_name {
                Some(s) => kwarg_line("package_name"@, quoted(s)),
                None => Seq::<char>::empty(),
            }),
    {
        let ghost start = old(out)@;
        match &spec.package_name {
            Some(name) => {
                out.append("        package_name=");
                append_quoted(out, name.as_str());
                out.append(",\n");
                proof {
                    assert("        package_name="@ =~= "        "@ + "package_name"@ + "="@) by {
                        reveal_strlit("        package_name=");
                        reveal_strlit("        ");
                        reveal_strlit("package_name");
                        reveal_strlit("=");
                    }
                    assert(final(out)@ =~= start + kwarg_line("package_name"@, quoted(name@)));
                }
            },
            None => {
                proof {
                    assert(start + Seq::<char>::empty() =~= start);
                }
            },
        }
    }

    /// Appends the rendered `version` keyword line, if the field is present.
    fn append_kw_version(out: &mut String, spec: &Setup)
        ensures
            final(out)@ == old(out)@ + (match spec@.version {
                Some(s) => kwarg_line("version"@, quoted(s)),
                None => Seq::<char>::empty(),
            }),
    {
        let ghost start = old(out)@;
        match &spec.version {
            Some(version) => {
                out.append("        version=");
                append_quoted(out, version.as_str());
                out.append(",\n");
                proof {
                    assert("        version="@ =~= "        "@ + "version"@ + "="@) by {
                        reveal_strlit("        version=");
                        reveal_strlit("        ");
                        reveal_strlit("version");
                        reveal_strlit("=");
                    }
                    assert(final(out)@ =~= start + kwarg_line("version"@, quoted(version@)));
                }
            },
            None => {
                proof {
                    assert(start + Seq::<char>::empty() =~= start);
                }
            },
        }
    }

    /// Appends the rendered `install_requires` keyword line, if the field is
    /// present.
    fn append_kw_install(out: &mut String, spec: &Setup)
        ensures
            final(out)@ == old(out)@ + (match spec@.install_requires {
                Some(l) => kwarg_line("install_requires"@, render_list(l)),
                None => Seq::<char>::empty(),
            }),
    {
        let ghost start = old(out)@;
        match &spec.install_requires {
            Some(install_requires) => {
                out.append("        install_requires=");
                append_list(out, install_requires);
                out.append(",\n");
                proof {
                    assert("        install_requires="@ =~= "        "@ + "install_requires"@
                        + "="@) by {
                        reveal_strlit("        install_requires=");
                        reveal_strlit("        ");
                        reveal_strlit("install_requires");
                        reveal_strlit("=");
                    }
                    assert(final(out)@ =~= start + kwarg_line(
                        "install_requires"@,
                        render_list(install_requires.deep_view()),
                    ));
                }
            },
            None => {
                proof {
                    assert(start + Seq::<char>::empty() =~= start);
                }
            },
        }
    }

    /// Appends the rendered `setup_requires` keyword line, if the field is
    /// present.
    fn append_kw_setup(out: &mut String, spec: &Setup)
        ensures
            final(out)@ == old(out)@ + (match spec@.setup_requires {
                Some(l) => kwarg_line("setup_requires"@, render_list(l)),
                None => Seq::<char>::empty(),
            }),
    {
        let ghost start = old(out)@;
        match &spec.setup_requires {
            Some(setup_requires) => {
                out.append("        setup_requires=");
                append_list(out, setup_requires);
                out.append(",\n");
                proof {
                    assert("        setup_requires="@ =~= "        "@ + "setup_requires"@ + "="@)
                        by {
                        reveal_strlit("        setup_requires=");
                        reveal_strlit("        ");
                        reveal_strlit("setup_requires");
                        reveal_strlit("=");
                    }
                    assert(final(out)@ =~= start + kwarg_line(
                        "setup_requires"@,
                        render_list(setup_requires.deep_view()),
                    ));
                }
            },
            None => {
                proof {
                    assert(start + Seq::<char>::empty() =~= start);
                }
            },
        }
    }

    /// Appends the rendered `extra_requires` keyword line, if the field is
    /// present.
    fn append_kw_extra(out: &mut String, spec: &Setup)
        ensures
            final(out)@ == old(out)@ + (match spec@.extra_requires {
                Some(t) => kwarg_line("extra_requires"@, render_groups(t)),
                None => Seq::<char>::empty(),
            }),
    {
        let ghost start = old(out)@;
        match &spec.extra_requires {
            Some(extra_requires) => {
                out.append("        extra_requires=");
                Self::append_groups(out, extra_requires);
                out.append(",\n");
                proof {
                    assert("        extra_requires="@ =~= "        "@ + "extra_requires"@ + "="@)
                        by {
                        reveal_strlit("        extra_requires=");
                        reveal_strlit("        ");
                        reveal_strlit("extra_requires");
                        reveal_strlit("=");
                    }
                    assert(final(out)@ =~= start + kwarg_line(
                        "extra_requires"@,
                        render_groups(extra_requires@),
                    ));
                }
            },
            None => {
                proof {
                    assert(start + Seq::<char>::empty() =~= start);
                }
            },
        }
    }

    /// Appends the rendered `entry_points` keyword line, if the field is
    /// present.
    fn append_kw_entry_points(out: &mut String, spec: &Setup)
        ensures
            final(out)@ == old(out)@ + (match spec@.entry_points {
                Some(ep) => kwarg_line(
                    "entry_points"@,
                    render_entrypoints(ep.console_scripts, ep.gui_scripts),
                ),
                None => Seq::<char>::empty(),
            }),
    {
        let ghost start = old(out)@;
        match &spec.entry_points {
            Some(entry_points) => {
                out.append("        entry_points=");
                Self::append_entrypoints(out, entry_points);
                out.append(",\n");
                proof {
                    assert("        entry_points="@ =~= "        "@ + "entry_points"@ + "="@) by {
                        reveal_strlit("        entry_points=");
                        reveal_strlit("        ");
                        reveal_strlit("entry_points");
                        reveal_strlit("=");
                    }
                    assert(final(out)@ =~= start + kwarg_line(
                        "entry_points"@,
                        render_entrypoints(
                            entry_points@.console_scripts,
                            entry_points@.gui_scripts,
                        ),
                    ));
                }
            },
            None => {
                proof {
                    assert(start + Seq::<char>::empty() =~= start);
                }
            },
        }
    }

    /// Appends a group table rendered as a braced map literal to `out`.
    fn append_groups(out: &mut String, t: &crate::tables::RequiresTable)
        ensures
            final(out)@ == old(out)@ + render_groups(t@),
    {
        let ghost tv = t@;
        let ghost start = old(out)@;
        out.append("{");
        proof {
            assert(tv.skip(0) =~= tv);
        }
        let n = t.len();
        let mut i: usize = 0;
        while i < n
            invariant
                0 <= i <= n,
                n == tv.len(),
                tv == t@,
                out@ + groups_inner(tv.skip(i as int)) == start + "{"@ + groups_inner(tv),
            decreases n - i,
        {
            let ghost before = out@;
            proof {
                assert(tv.skip(i as int)[0] == tv[i as int]);
                assert(tv.skip(i as int).drop_first() =~= tv.skip(i + 1));
            }
            let pair = t.entry_at(i);
            append_quoted(out, pair.0.as_str());
            out.append(": ");
            append_list(out, &pair.1);
            let ghost head = quoted(tv[i as int].0) + ": "@ + render_list(tv[i as int].1);
            proof {
                assert(out@ =~= before + head);
            }
            if i + 1 < n {
                out.append(", ");
                proof {
                    assert(tv.skip(i as int).len() > 1);
                    assert(out@ =~= before + (head + ", "@));
                    assert(before + (head + ", "@ + groups_inner(tv.skip(i + 1))) =~= (before + (
                    head + ", "@)) + groups_inner(tv.skip(i + 1)));
                    assert(head + ", "@ + groups_inner(tv.skip(i + 1)) =~= (head + ", "@)
                        + groups_inner(tv.skip(i + 1)));
                }
            } else {
                proof {
                    assert(tv.skip(i as int).len() == 1);
                    assert(tv.skip(i + 1) =~= Seq::<(Seq<char>, Seq<Seq<char>>)>::empty());
                }
            }
            i = i + 1;
        }
        out.append("}");
        proof {
            assert(tv.skip(n as int) =~= Seq::<(Seq<char>, Seq<Seq<char>>)>::empty());
            assert(final(out)@ =~= start + render_groups(tv));
        }
    }

    /// Appends the entry-points block rendered as a two-key map literal to
    /// `out`; an absent list renders as the empty list.
    fn append_entrypoints(out: &mut String, ep: &crate::specs::Entrypoints)
        ensures
            final(out)@ == old(out)@ + render_entrypoints(
                ep@.console_scripts,
                ep@.gui_scripts,
            ),
    {
        let ghost start = old(out)@;
        out.append("{");
        append_quoted(out, "console_scripts");
        out.append(": ");
        let empty_list: Vec<String> = Vec::new();
        match &ep.console_scripts {
            Some(l) => {
                append_list(out, l);
            },
            None => {
                append_list(out, &empty_list);
                proof {
                    assert(empty_list.deep_view() =~= Seq::<Seq<char>>::empty());
                }
            },
        }
        out.append(", ");
        append_quoted(out, "gui_scripts");
        out.append(": ");
        match &ep.gui_scripts {
            Some(l) => {
                append_list(out, l);
            },
            None => {
                append_list(out, &empty_list);
                proof {
                    assert(empty_list.deep_view() =~= Seq::<Seq<char>>::empty());
                }
            },
        }
        out.append("}");
        proof {
            assert(final(out)@ =~= start + render_entrypoints(
                ep@.console_scripts,
                ep@.gui_scripts,
            ));
        }
    }
}

} // verus!
