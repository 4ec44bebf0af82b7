//! Parsers that extract build specifications from in-memory source values:
//! the flat requirement-list text, and the restricted abstract syntax tree
//! of a build script.
//!
//! Reading files and parsing raw script text into the tree is the unverified
//! front end's task; decoding the project-table text is the external table
//! codec's. The logic that interprets what was read lives here.
use vstd::prelude::*;

use crate::ast::{
    entries_view, expr_view, exprs_view, keywords_view, stmts_view, DictEntryModel, ExprModel,
    KeywordModel, PyCall, PyExpr, PyStmt, StmtModel,
};
use crate::specs::{EntrypointsModel, Requirements, Setup};
use crate::strutil::trim_spec;
use crate::tables::{spec_insert, RequiresTable};
use crate::symbols::{spec_lookup, SymbolTable, TableModel};
use crate::SpecError;

verus! {

/// Reads flat requirement-list text.
pub struct RequirementsParser;

/// Resolves a build script's syntax tree into a script specification.
pub struct SetupParser;

/// Marks the project-table side of parsing: the structured text itself is
/// decoded by the external table codec, which hands the library a
/// `PyProject` value directly.
pub struct PyProjectParser;

/// The segments of `s` between newline characters, in order; like the
/// newline split of a text, every segment is kept, empty ones included.
pub open spec fn split_lines_spec(s: Seq<char>) -> Seq<Seq<char>>
    decreases s.len(),
{
    if s.len() == 0 {
        seq![Seq::<char>::empty()]
    } else if s[0] == '\n' {
        seq![Seq::<char>::empty()] + split_lines_spec(s.drop_first())
    } else {
        let rest = split_lines_spec(s.drop_first());
        seq![seq![s[0]] + rest[0]] + rest.drop_first()
    }
}

/// A split always has at least one segment.
pub proof fn lemma_split_lines_nonempty(s: Seq<char>)
    ensures
        split_lines_spec(s).len() >= 1,
    decreases s.len(),
{
    if s.len() > 0 {
        lemma_split_lines_nonempty(s.drop_first());
    }
}

/// Splitting at the first newline: the text before it is the first segment,
/// and the rest splits on its own.
pub proof fn lemma_split_lines_first_nl(s: Seq<char>, m: int)
    requires
        0 <= m < s.len(),
        s[m] == '\n',
        forall|j: int| 0 <= j < m ==> s[j] != '\n',
    ensures
        split_lines_spec(s) == seq![s.take(m)] + split_lines_spec(s.skip(m + 1)),
    decreases m,
{
    if m == 0 {
        assert(s.take(0) =~= Seq::<char>::empty());
        assert(s.skip(1) =~= s.drop_first());
        assert(split_lines_spec(s) =~= seq![s.take(0)] + split_lines_spec(s.skip(1)));
    } else {
        let d = s.drop_first();
        assert(d[m - 1] == '\n');
        assert(forall|j: int| 0 <= j < m - 1 ==> d[j] == s[j + 1] && d[j] != '\n');
        lemma_split_lines_first_nl(d, m - 1);
        lemma_split_lines_nonempty(d.skip(m));
        assert(seq![s[0]] + d.take(m - 1) =~= s.take(m));
        assert(d.skip(m) =~= s.skip(m + 1));
        assert((seq![d.take(m - 1)] + split_lines_spec(d.skip(m))).drop_first()
            =~= split_lines_spec(d.skip(m)));
        assert(split_lines_spec(s) =~= seq![s.take(m)] + split_lines_spec(s.skip(m + 1)));
    }
}

/// A text without newlines is one segment.
pub proof fn lemma_split_lines_no_nl(s: Seq<char>)
    requires
        forall|j: int| 0 <= j < s.len() ==> s[j] != '\n',
    ensures
        split_lines_spec(s) == seq![s],
    decreases s.len(),
{
    if s.len() == 0 {
        assert(s =~= Seq::<char>::empty());
        assert(split_lines_spec(s) =~= seq![s]);
    } else {
        let d = s.drop_first();
        assert(forall|j: int| 0 <= j < d.len() ==> d[j] == s[j + 1] && d[j] != '\n');
        lemma_split_lines_no_nl(d);
        assert(seq![s[0]] + d =~= s);
        assert((seq![d]).drop_first() =~= Seq::<Seq<char>>::empty());
        assert(split_lines_spec(s) =~= seq![s]);
    }
}

/// Each line trimmed of surrounding whitespace, blank lines dropped.
pub open spec fn reqs_of_lines(lines: Seq<Seq<char>>) -> Seq<Seq<char>>
    decreases lines.len(),
{
    if lines.len() == 0 {
        Seq::empty()
    } else {
        let t = trim_spec(lines[0]);
        if t.len() == 0 {
            reqs_of_lines(lines.drop_first())
        } else {
            seq![t] + reqs_of_lines(lines.drop_first())
        }
    }
}

/// The requirement list a flat text denotes: its lines, trimmed, with blank
/// lines ignored.
pub open spec fn reqs_of_text(s: Seq<char>) -> Seq<Seq<char>> {
    reqs_of_lines(split_lines_spec(s))
}

impl RequirementsParser {
    /// Reads requirement-list text: one requirement per line, trimmed of
    /// surrounding whitespace; lines that are blank, or hold only
    /// whitespace, are ignored.
    pub fn from_text(text: &str) -> (r: Requirements)
        ensures
            r@ == reqs_of_text(text@),
    {
        let s = text;
        let len = s.unicode_len();
        let mut reqs: Vec<String> = Vec::new();
        let mut pos: usize = 0;
        proof {
            assert(s@.skip(0) =~= s@);
            assert(reqs.deep_view() =~= Seq::<Seq<char>>::empty());
            assert(Seq::<Seq<char>>::empty() + reqs_of_lines(split_lines_spec(s@))
                =~= reqs_of_lines(split_lines_spec(s@)));
        }
        loop
            invariant_except_break
                0 <= pos <= len,
                len == s@.len(),
                reqs_of_text(s@) == reqs.deep_view() + reqs_of_lines(
                    split_lines_spec(s@.skip(pos as int)),
                ),
            ensures
                reqs.deep_view() == reqs_of_text(s@),
            decreases len - pos,
        {
            let ghost tail = s@.skip(pos as int);
            let mut m: usize = pos;
            while m < len && s.get_char(m) != '\n'
                invariant
                    pos <= m <= len,
                    len == s@.len(),
                    forall|j: int| pos <= j < m ==> s@[j] != '\n',
                decreases len - m,
            {
                m = m + 1;
            }
            let seg = s.substring_char(pos, m);
            proof {
                assert(seg@ =~= tail.take(m - pos));
                assert forall|j: int| 0 <= j < m - pos implies tail[j] != '\n' by {
                    assert(tail[j] == s@[pos + j]);
                }
            }
            let ghost piece = tail.take(m - pos);
            let t = crate::strutil::trim_str(seg);
            let ghost before = reqs.deep_view();
            if t.as_str().unicode_len() > 0 {
                reqs.push(t);
                proof {
                    assert(reqs.deep_view() =~= before + seq![trim_spec(piece)]);
                }
            }
            if m == len {
                proof {
                    assert(piece =~= tail);
                    lemma_split_lines_no_nl(tail);
                    assert(seq![tail].drop_first() =~= Seq::<Seq<char>>::empty());
                    assert(reqs_of_lines(Seq::<Seq<char>>::empty()) =~= Seq::<Seq<char>>::empty());
                    if trim_spec(tail).len() == 0 {
                        assert(reqs.deep_view() =~= before);
                        assert(before + reqs_of_lines(seq![tail]) =~= before);
                    } else {
                        assert(reqs_of_lines(seq![tail]) =~= seq![trim_spec(tail)]);
                        assert(before + reqs_of_lines(seq![tail]) =~= before + seq![
                            trim_spec(tail),
                        ]);
                    }
                }
                break;
            }
            proof {
                assert(tail[m - pos] == '\n');
                lemma_split_lines_first_nl(tail, m - pos);
                let rest = split_lines_spec(s@.skip(m + 1));
                assert(tail.skip(m - pos + 1) =~= s@.skip(m + 1));
                assert((seq![piece] + rest).drop_first() =~= rest);
                assert((seq![piece] + rest)[0] == piece);
                if trim_spec(piece).len() == 0 {
                    assert(reqs_of_lines(seq![piece] + rest) =~= reqs_of_lines(rest));
                } else {
                    assert(reqs_of_lines(seq![piece] + rest) =~= seq![trim_spec(piece)]
                        + reqs_of_lines(rest));
                    assert(before + (seq![trim_spec(piece)] + reqs_of_lines(rest)) =~= (before
                        + seq![trim_spec(piece)]) + reqs_of_lines(rest));
                }
            }
            pos = m + 1;
        }
        let r = Requirements { reqs };
        proof {
            assert(r@ =~= reqs_of_text(s@));
        }
        r
    }
}

/// Resolution of an expression to a string. A string constant is itself. A
/// name reference is looked up once: the bound expression must itself be a
/// string constant (a single hop — scalar aliases are not chased further).
/// A joined string concatenates its parts, each resolved recursively.
/// Everything else fails.
pub open spec fn spec_resolve_string(e: ExprModel, tbl: TableModel) -> Option<Seq<char>>
    decreases e, 1int,
{
    match e {
        ExprModel::StrConst(s) => Some(s),
        ExprModel::Name(n) => match spec_lookup(tbl, n) {
            Some(ExprModel::StrConst(s)) => Some(s),
            _ => None,
        },
        ExprModel::JoinedStr(parts) => spec_resolve_parts(parts, tbl),
        _ => None,
    }
}

/// The concatenation of the resolutions of each part, if all resolve.
pub open spec fn spec_resolve_parts(parts: Seq<ExprModel>, tbl: TableModel) -> Option<Seq<char>>
    decreases parts, 0int,
{
    if parts.len() == 0 {
        Some(Seq::empty())
    } else {
        match spec_resolve_string(parts[0], tbl) {
            Some(head) => match spec_resolve_parts(parts.drop_first(), tbl) {
                Some(rest) => Some(head + rest),
                None => None,
            },
            None => None,
        }
    }
}

impl SetupParser {
    /// Resolves an expression to a string: a constant is itself, a name is
    /// looked up once (single hop), a joined string concatenates its
    /// recursively resolved parts; any other shape is a resolution error.
    pub fn parse_string(expr: &PyExpr, assignments: &SymbolTable) -> (r: Result<String, SpecError>)
        ensures
            match spec_resolve_string(expr@, assignments@) {
                Some(s) => r is Ok && r->Ok_0@ == s,
                None => r is Err && r->Err_0 is Resolution,
            },
        decreases *expr,
    {
        match expr {
            PyExpr::StrConst(s) => Ok(s.clone()),
            PyExpr::Name(n) => {
                match assignments.get(n) {
                    Some(bound) => match bound {
                        PyExpr::StrConst(s) => Ok(s.clone()),
                        _ => Err(
                            SpecError::Resolution(
                                String::from_str("a name must be bound to a string constant"),
                            ),
                        ),
                    },
                    None => Err(
                        SpecError::Resolution(String::from_str("a name is not bound")),
                    ),
                }
            },
            PyExpr::JoinedStr(parts) => {
                let ghost sv = *expr;
                let ghost pv = exprs_view(parts@);
                let ghost tbl = assignments@;
                let mut out = String::new();
                proof {
                    assert(pv.skip(0) =~= pv);
                    match spec_resolve_parts(pv, tbl) {
                        Some(rest) => {
                            assert(Seq::<char>::empty() + rest =~= rest);
                        },
                        None => {},
                    }
                }
                let mut i: usize = 0;
                while i < parts.len()
                    invariant
                        0 <= i <= parts.len(),
                        pv == exprs_view(parts@),
                        tbl == assignments@,
                        sv == *expr && *expr == PyExpr::JoinedStr(*parts),
                        spec_resolve_parts(pv, tbl) == (match spec_resolve_parts(
                            pv.skip(i as int),
                            tbl,
                        ) {
                            Some(rest) => Some(out@ + rest),
                            None => None::<Seq<char>>,
                        }),
                    decreases parts.len() - i,
                {
                    proof {
                        assert(decreases_to!(sv => sv->JoinedStr_0));
                        assert(decreases_to!(*parts => parts@[i as int]));
                        assert(pv.skip(i as int)[0] == pv[i as int]);
                        assert(pv.skip(i as int).drop_first() =~= pv.skip(i + 1));
                    }
                    match Self::parse_string(&parts[i], assignments) {
                        Ok(piece) => {
                            let ghost before = out@;
                            out.append(piece.as_str());
                            proof {
                                match spec_resolve_parts(pv.skip(i + 1), tbl) {
                                    Some(rest) => {
                                        assert(before + (piece@ + rest) =~= (before + piece@)
                                            + rest);
                                    },
                                    None => {},
                                }
                            }
                        },
                        Err(e) => {
                            return Err(e);
                        },
                    }
                    i = i + 1;
                }
                proof {
                    assert(pv.skip(parts@.len() as int) =~= Seq::<ExprModel>::empty());
                    assert(out@ + Seq::<char>::empty() =~= out@);
                }
                Ok(out)
            },
            _ => Err(
                SpecError::Resolution(
                    String::from_str("the expression does not resolve to a string"),
                ),
            ),
        }
    }
}

/// The string constants among a list's elements, in order; elements of any
/// other shape are silently skipped.
pub open spec fn spec_const_strings(es: Seq<ExprModel>) -> Seq<Seq<char>>
    decreases es.len(),
{
    if es.len() == 0 {
        Seq::empty()
    } else {
        match es[0] {
            ExprModel::StrConst(s) => seq![s] + spec_const_strings(es.drop_first()),
            _ => spec_const_strings(es.drop_first()),
        }
    }
}

/// Resolution of an expression to a string list. A list literal yields its
/// string constants. A name reference is chased through the table, hop after
/// hop (unlike scalar resolution), until a list literal is reached; `hops`
/// bounds the chase, so a cyclic chain of aliases fails rather than
/// diverging. Everything else fails.
pub open spec fn spec_resolve_list(e: ExprModel, tbl: TableModel, hops: nat) -> Option<
    Seq<Seq<char>>,
>
    decreases hops,
{
    match e {
        ExprModel::ListLit(es) => Some(spec_const_strings(es)),
        ExprModel::Name(n) => if hops == 0 {
            None
        } else {
            match spec_lookup(tbl, n) {
                Some(bound) => spec_resolve_list(bound, tbl, (hops - 1) as nat),
                None => None,
            }
        },
        _ => None,
    }
}

/// List resolution with its canonical hop budget: the number of bindings,
/// which every acyclic alias chain stays within.
pub open spec fn resolve_list_model(e: ExprModel, tbl: TableModel) -> Option<Seq<Seq<char>>> {
    spec_resolve_list(e, tbl, tbl.len())
}

/// Collects the string constants of a list literal's elements, skipping
/// elements of any other shape.
fn const_strings(es: &Vec<PyExpr>) -> (r: Vec<String>)
    ensures
        r.deep_view() == spec_const_strings(exprs_view(es@)),
{
    let ghost ev = exprs_view(es@);
    let mut out: Vec<String> = Vec::new();
    proof {
        assert(ev.skip(0) =~= ev);
        assert(out.deep_view() =~= Seq::<Seq<char>>::empty());
    }
    let mut i: usize = 0;
    while i < es.len()
        invariant
            0 <= i <= es.len(),
            ev == exprs_view(es@),
            spec_const_strings(ev) == out.deep_view() + spec_const_strings(ev.skip(i as int)),
        decreases es.len() - i,
    {
        let ghost before = out.deep_view();
        proof {
            assert(ev.skip(i as int)[0] == ev[i as int]);
            assert(ev.skip(i as int).drop_first() =~= ev.skip(i + 1));
        }
        match &es[i] {
            PyExpr::StrConst(s) => {
                out.push(s.clone());
                proof {
                    assert(out.deep_view() =~= before + seq![s@]);
                    assert(before + (seq![s@] + spec_const_strings(ev.skip(i + 1))) =~= (before
                        + seq![s@]) + spec_const_strings(ev.skip(i + 1)));
                }
            },
            _ => {},
        }
        i = i + 1;
    }
    proof {
        assert(ev.skip(es@.len() as int) =~= Seq::<ExprModel>::empty());
        assert(out.deep_view() + Seq::<Seq<char>>::empty() =~= out.deep_view());
    }
    out
}

/// List resolution with an explicit hop budget.
fn resolve_list_hops(expr: &PyExpr, assignments: &SymbolTable, hops: usize) -> (r: Result<
    Vec<String>,
    SpecError,
>)
    ensures
        match spec_resolve_list(expr@, assignments@, hops as nat) {
            Some(l) => r is Ok && r->Ok_0.deep_view() == l,
            None => r is Err && r->Err_0 is Resolution,
        },
    decreases hops,
{
    match expr {
        PyExpr::ListLit(es) => Ok(const_strings(es)),
        PyExpr::Name(n) => {
            if hops == 0 {
                Err(SpecError::Resolution(String::from_str("an alias chain is too long")))
            } else {
                match assignments.get(n) {
                    Some(bound) => resolve_list_hops(bound, assignments, hops - 1),
                    None => Err(
                        SpecError::Resolution(String::from_str("a name is not bound")),
                    ),
                }
            }
        },
        _ => Err(
            SpecError::Resolution(
                String::from_str("the expression does not resolve to a string list"),
            ),
        ),
    }
}

impl SetupParser {
    /// Resolves an expression to an ordered string list: a list literal
    /// yields its string constants (other elements are silently skipped),
    /// and a name reference is chased through the symbol table hop after hop
    /// until a list literal is reached; any other shape, an unbound name or
    /// a cyclic alias chain is a resolution error.
    pub fn parse_string_vec(expr: &PyExpr, assignments: &SymbolTable) -> (r: Result<
        Vec<String>,
        SpecError,
    >)
        ensures
            match resolve_list_model(expr@, assignments@) {
                Some(l) => r is Ok && r->Ok_0.deep_view() == l,
                None => r is Err && r->Err_0 is Resolution,
            },
    {
        let hops = assignments.len();
        resolve_list_hops(expr, assignments, hops)
    }
}

/// One pass over a mapping literal's entries: a pair whose key is not a
/// string constant is skipped (this also discards unpacking entries with no
/// literal key); otherwise the key is bound to its value, resolved as a
/// string list, replacing an earlier binding of the same key.
pub open spec fn spec_table_entries(
    entries: Seq<DictEntryModel>,
    tbl: TableModel,
    acc: Seq<(Seq<char>, Seq<Seq<char>>)>,
) -> Option<Seq<(Seq<char>, Seq<Seq<char>>)>>
    decreases entries.len(),
{
    if entries.len() == 0 {
        Some(acc)
    } else {
        match entries[0].key {
            Some(ExprModel::StrConst(k)) => match resolve_list_model(entries[0].value, tbl) {
                Some(v) => spec_table_entries(entries.drop_first(), tbl, spec_insert(acc, k, v)),
                None => None,
            },
            _ => spec_table_entries(entries.drop_first(), tbl, acc),
        }
    }
}

/// Resolution of an expression to a string-keyed table of string lists: a
/// mapping literal is read entry by entry, and a name reference is chased
/// through the symbol table hop after hop. Everything else fails.
pub open spec fn spec_resolve_table(e: ExprModel, tbl: TableModel, hops: nat) -> Option<
    Seq<(Seq<char>, Seq<Seq<char>>)>,
>
    decreases hops,
{
    match e {
        ExprModel::DictLit(entries) => spec_table_entries(entries, tbl, Seq::empty()),
        ExprModel::Name(n) => if hops == 0 {
            None
        } else {
            match spec_lookup(tbl, n) {
                Some(bound) => spec_resolve_table(bound, tbl, (hops - 1) as nat),
                None => None,
            }
        },
        _ => None,
    }
}

/// Table resolution with its canonical hop budget.
pub open spec fn resolve_table_model(e: ExprModel, tbl: TableModel) -> Option<
    Seq<(Seq<char>, Seq<Seq<char>>)>,
> {
    spec_resolve_table(e, tbl, tbl.len())
}

/// One pass over a mapping literal's entries for the entry-points block:
/// only the two recognized keys are read, each resolved as a string list;
/// every other pair is ignored.
pub open spec fn spec_ep_entries(
    entries: Seq<DictEntryModel>,
    tbl: TableModel,
    con: Option<Seq<Seq<char>>>,
    gui: Option<Seq<Seq<char>>>,
) -> Option<EntrypointsModel>
    decreases entries.len(),
{
    if entries.len() == 0 {
        Some(EntrypointsModel { console_scripts: con, gui_scripts: gui })
    } else {
        match entries[0].key {
            Some(ExprModel::StrConst(k)) => if k == "console_scripts"@ {
                match resolve_list_model(entries[0].value, tbl) {
                    Some(v) => spec_ep_entries(entries.drop_first(), tbl, Some(v), gui),
                    None => None,
                }
            } else if k == "gui_scripts"@ {
                match resolve_list_model(entries[0].value, tbl) {
                    Some(v) => spec_ep_entries(entries.drop_first(), tbl, con, Some(v)),
                    None => None,
                }
            } else {
                spec_ep_entries(entries.drop_first(), tbl, con, gui)
            },
            _ => spec_ep_entries(entries.drop_first(), tbl, con, gui),
        }
    }
}

/// Resolution of an expression to an entry-points block: a mapping literal
/// read under the two recognized keys, or a name chased through the table.
/// It succeeds only if at least one recognized key was present and resolved.
pub open spec fn spec_resolve_entrypoints(e: ExprModel, tbl: TableModel, hops: nat) -> Option<
    EntrypointsModel,
>
    decreases hops,
{
    match e {
        ExprModel::DictLit(entries) => match spec_ep_entries(entries, tbl, None, None) {
            Some(em) => if em.console_scripts is Some || em.gui_scripts is Some {
                Some(em)
            } else {
                None
            },
            None => None,
        },
        ExprModel::Name(n) => if hops == 0 {
            None
        } else {
            match spec_lookup(tbl, n) {
                Some(bound) => spec_resolve_entrypoints(bound, tbl, (hops - 1) as nat),
                None => None,
            }
        },
        _ => None,
    }
}

/// Entry-points resolution with its canonical hop budget.
pub open spec fn resolve_ep_model(e: ExprModel, tbl: TableModel) -> Option<EntrypointsModel> {
    spec_resolve_entrypoints(e, tbl, tbl.len())
}

/// Table resolution with an explicit hop budget.
fn resolve_table_hops(expr: &PyExpr, assignments: &SymbolTable, hops: usize) -> (r: Result<
    RequiresTable,
    SpecError,
>)
    ensures
        match spec_resolve_table(expr@, assignments@, hops as nat) {
            Some(t) => r is Ok && r->Ok_0@ == t && r->Ok_0.wf(),
            None => r is Err && r->Err_0 is Resolution,
        },
    decreases hops,
{
    match expr {
        PyExpr::DictLit(entries) => {
            let ghost entv = entries_view(entries@);
            let ghost tbl = assignments@;
            let mut table = RequiresTable::new();
            proof {
                assert(entv.skip(0) =~= entv);
            }
            let mut i: usize = 0;
            while i < entries.len()
                invariant
                    0 <= i <= entries.len(),
                    *expr == PyExpr::DictLit(*entries),
                    entv == entries_view(entries@),
                    tbl == assignments@,
                    table.wf(),
                    spec_table_entries(entv, tbl, Seq::empty()) == spec_table_entries(
                        entv.skip(i as int),
                        tbl,
                        table@,
                    ),
                decreases entries.len() - i,
            {
                proof {
                    assert(entv.skip(i as int)[0] == entv[i as int]);
                    assert(entv.skip(i as int).drop_first() =~= entv.skip(i + 1));
                }
                match &entries[i].key {
                    Some(key_expr) => match key_expr {
                        PyExpr::StrConst(k) => {
                            match SetupParser::parse_string_vec(&entries[i].value, assignments) {
                                Ok(v) => {
                                    table.insert(k.clone(), v);
                                },
                                Err(e) => {
                                    return Err(e);
                                },
                            }
                        },
                        _ => {},
                    },
                    None => {},
                }
                i = i + 1;
            }
            proof {
                assert(entv.skip(entries@.len() as int) =~= Seq::<DictEntryModel>::empty());
            }
            Ok(table)
        },
        PyExpr::Name(n) => {
            if hops == 0 {
                Err(SpecError::Resolution(String::from_str("an alias chain is too long")))
            } else {
                match assignments.get(n) {
                    Some(bound) => resolve_table_hops(bound, assignments, hops - 1),
                    None => Err(
                        SpecError::Resolution(String::from_str("a name is not bound")),
                    ),
                }
            }
        },
        _ => Err(
            SpecError::Resolution(
                String::from_str("the expression does not resolve to a requirement map"),
            ),
        ),
    }
}

/// Entry-points resolution with an explicit hop budget.
fn resolve_entrypoints_hops(expr: &PyExpr, assignments: &SymbolTable, hops: usize) -> (r: Result<
    crate::specs::Entrypoints,
    SpecError,
>)
    ensures
        match spec_resolve_entrypoints(expr@, assignments@, hops as nat) {
            Some(em) => r is Ok && r->Ok_0@ == em,
            None => r is Err && r->Err_0 is Resolution,
        },
    decreases hops,
{
    match expr {
        PyExpr::DictLit(entries) => {
            let ghost entv = entries_view(entries@);
            let ghost tbl = assignments@;
            let mut console_scripts: Option<Vec<String>> = None;
            let mut gui_scripts: Option<Vec<String>> = None;
            proof {
                assert(entv.skip(0) =~= entv);
            }
            let mut i: usize = 0;
            while i < entries.len()
                invariant
                    0 <= i <= entries.len(),
                    *expr == PyExpr::DictLit(*entries),
                    entv == entries_view(entries@),
                    tbl == assignments@,
                    spec_ep_entries(entv, tbl, None, None) == spec_ep_entries(
                        entv.skip(i as int),
                        tbl,
                        console_scripts.deep_view(),
                        gui_scripts.deep_view(),
                    ),
                decreases entries.len() - i,
            {
                proof {
                    assert(entv.skip(i as int)[0] == entv[i as int]);
                    assert(entv.skip(i as int).drop_first() =~= entv.skip(i + 1));
                }
                match &entries[i].key {
                    Some(key_expr) => match key_expr {
                        PyExpr::StrConst(k) => {
                            if crate::strutil::str_eq(k.as_str(), "console_scripts") {
                                match SetupParser::parse_string_vec(&entries[i].value, assignments) {
                                    Ok(v) => {
                                        console_scripts = Some(v);
                                    },
                                    Err(e) => {
                                        return Err(e);
                                    },
                                }
                            } else if crate::strutil::str_eq(k.as_str(), "gui_scripts") {
                                match SetupParser::parse_string_vec(&entries[i].value, assignments) {
                                    Ok(v) => {
                                        gui_scripts = Some(v);
                                    },
                                    Err(e) => {
                                        return Err(e);
                                    },
                                }
                            }
                        },
                        _ => {},
                    },
                    None => {},
                }
                i = i + 1;
            }
            proof {
                assert(entv.skip(entries@.len() as int) =~= Seq::<DictEntryModel>::empty());
            }
            if console_scripts.is_some() || gui_scripts.is_some() {
                Ok(crate::specs::Entrypoints { console_scripts, gui_scripts })
            } else {
                Err(
                    SpecError::Resolution(
                        String::from_str(
                            "an entry-points map must hold console_scripts or gui_scripts",
                        ),
                    ),
                )
            }
        },
        PyExpr::Name(n) => {
            if hops == 0 {
                Err(SpecError::Resolution(String::from_str("an alias chain is too long")))
            } else {
                match assignments.get(n) {
                    Some(bound) => resolve_entrypoints_hops(bound, assignments, hops - 1),
                    None => Err(
                        SpecError::Resolution(String::from_str("a name is not bound")),
                    ),
                }
            }
        },
        _ => Err(
            SpecError::Resolution(
                String::from_str("the expression does not resolve to an entry-points map"),
            ),
        ),
    }
}

impl SetupParser {
    /// Resolves an expression to the extras map: a string-keyed table whose
    /// keys are the mapping literal's string-constant keys (other keys are
    /// skipped) and whose values resolve as string lists; a name reference
    /// is chased through the symbol table. The table iterates in
    /// lexicographic key order whatever the literal's order; a repeated key
    /// keeps its last value.
    pub fn parse_requires_map(expr: &PyExpr, assignments: &SymbolTable) -> (r: Result<
        RequiresTable,
        SpecError,
    >)
        ensures
            match resolve_table_model(expr@, assignments@) {
                Some(t) => r is Ok && r->Ok_0@ == t && r->Ok_0.wf(),
                None => r is Err && r->Err_0 is Resolution,
            },
    {
        let hops = assignments.len();
        resolve_table_hops(expr, assignments, hops)
    }

    /// Resolves an expression to the entry-points block: of a mapping
    /// literal only the keys `console_scripts` and `gui_scripts` are read,
    /// each value resolved as a string list; other keys are ignored; a name
    /// reference is chased through the symbol table. It fails unless at
    /// least one recognized key was present and resolved.
    pub fn parse_entrypoints(expr: &PyExpr, assignments: &SymbolTable) -> (r: Result<
        crate::specs::Entrypoints,
        SpecError,
    >)
        ensures
            match resolve_ep_model(expr@, assignments@) {
                Some(em) => r is Ok && r->Ok_0@ == em,
                None => r is Err && r->Err_0 is Resolution,
            },
    {
        let hops = assignments.len();
        resolve_entrypoints_hops(expr, assignments, hops)
    }
}

/// Whether a callee expression denotes the reserved `setup` invocation: a
/// bare reference to the name, or a dotted reference whose final attribute
/// is the name.
pub open spec fn callee_is_setup(f: ExprModel) -> bool {
    match f {
        ExprModel::Name(n) => n == "setup"@,
        ExprModel::Attribute(_, attr) => attr == "setup"@,
        _ => false,
    }
}

/// Whether every assignment target is a bare identifier.
pub open spec fn all_names(targets: Seq<ExprModel>) -> bool {
    forall|j: int| 0 <= j < targets.len() ==> targets[j] is Name
}

/// The bindings an assignment records: each target identifier bound to the
/// assigned expression, in target order.
pub open spec fn spec_bind_targets(tbl: TableModel, targets: Seq<ExprModel>, value: ExprModel)
    -> TableModel
    decreases targets.len(),
{
    if targets.len() == 0 {
        tbl
    } else {
        spec_bind_targets(tbl.push((targets[0]->Name_0, value)), targets.drop_first(), value)
    }
}

/// What scanning a statement sequence for the reserved invocation comes to.
#[verifier::ext_equal]
pub ghost enum LocateModel {
    /// A malformed assignment target was hit.
    Fail,
    /// The sequence was exhausted; the symbol table as it then stood.
    Absent(TableModel),
    /// The invocation was found: its keyword arguments and the symbol table
    /// visible at that point.
    Found(Seq<KeywordModel>, TableModel),
}

/// The invocation locator: a sequential scan. An assignment records its
/// bindings; a conditional is scanned exclusively in its body — when the
/// call is not found there, the scan does not resume with the statements
/// after the conditional; an expression statement calling the reserved name
/// ends the scan; every other statement is skipped.
pub open spec fn spec_locate(stmts: Seq<StmtModel>, tbl: TableModel) -> LocateModel
    decreases stmts,
{
    if stmts.len() == 0 {
        LocateModel::Absent(tbl)
    } else {
        match stmts[0] {
            StmtModel::Assign(targets, value) => if all_names(targets) {
                spec_locate(stmts.drop_first(), spec_bind_targets(tbl, targets, value))
            } else {
                LocateModel::Fail
            },
            StmtModel::AnnAssign(target, value) => match value {
                Some(v) => if target is Name {
                    spec_locate(stmts.drop_first(), tbl.push((target->Name_0, v)))
                } else {
                    LocateModel::Fail
                },
                None => spec_locate(stmts.drop_first(), tbl),
            },
            StmtModel::Conditional(body) => spec_locate(body, tbl),
            StmtModel::ExprStmt(e) => match e {
                ExprModel::Call(f, kws) => if callee_is_setup(*f) {
                    LocateModel::Found(kws, tbl)
                } else {
                    spec_locate(stmts.drop_first(), tbl)
                },
                _ => spec_locate(stmts.drop_first(), tbl),
            },
            StmtModel::Other => spec_locate(stmts.drop_first(), tbl),
        }
    }
}

impl SetupParser {
    /// Scans the statements for the first call of the reserved name `setup`
    /// (bare, or the final attribute of a dotted reference), recording
    /// assignment bindings on the way. A conditional is scanned exclusively
    /// in its body: when the call is not found there, the scan ends without
    /// resuming at the statements that follow the conditional. An assignment
    /// target that is not a bare identifier is a resolution error. The
    /// symbol table is left as it stood where the scan ended.
    #[verifier::loop_isolation(false)]
    #[verifier::rlimit(50)]
    pub fn get_setup_call(statements: &Vec<PyStmt>, assignments: &mut SymbolTable) -> (r: Result<
        Option<PyCall>,
        SpecError,
    >)
        ensures
            match spec_locate(stmts_view(statements@), old(assignments)@) {
                LocateModel::Fail => r is Err && r->Err_0 is Resolution,
                LocateModel::Absent(t) => {
                    &&& r == Ok::<Option<PyCall>, SpecError>(None)
                    &&& final(assignments)@ == t
                },
                LocateModel::Found(kws, t) => {
                    &&& r is Ok
                    &&& r->Ok_0 is Some
                    &&& keywords_view(r->Ok_0->Some_0.keywords@) == kws
                    &&& callee_is_setup(expr_view(r->Ok_0->Some_0.func))
                    &&& final(assignments)@ == t
                },
            },
        decreases statements@,
    {
        let ghost sv = stmts_view(statements@);
        let ghost tbl0 = assignments@;
        proof {
            assert(sv.skip(0) =~= sv);
        }
        let n = statements.len();
        let mut i: usize = 0;
        while i < n
            invariant
                0 <= i <= n,
                n == statements@.len(),
                sv == stmts_view(statements@),
                spec_locate(sv, tbl0) == spec_locate(sv.skip(i as int), assignments@),
            decreases n - i,
        {
            proof {
                assert(sv.skip(i as int)[0] == sv[i as int]);
                assert(sv.skip(i as int).drop_first() =~= sv.skip(i + 1));
            }
            match &statements[i] {
                PyStmt::Assign(a) => {
                    let ghost tv = exprs_view(a.targets@);
                    let ghost vv = expr_view(a.value);
                    let ghost tbl_at = assignments@;
                    let mut names: Vec<String> = Vec::new();
                    let mut j: usize = 0;
                    while j < a.targets.len()
                        invariant
                            0 <= j <= a.targets.len(),
                            statements@[i as int] == PyStmt::Assign(*a),
                            tv == exprs_view(a.targets@),
                            names@.len() == j,
                            forall|k: int|
                                0 <= k < j ==> tv[k] is Name && names@[k]@ == tv[k]->Name_0,
                        decreases a.targets.len() - j,
                    {
                        match &a.targets[j] {
                            PyExpr::Name(name) => {
                                names.push(name.clone());
                            },
                            _ => {
                                proof {
                                    assert(tv[j as int] == expr_view(a.targets@[j as int]));
                                    assert(!(tv[j as int] is Name));
                                    assert(!all_names(tv));
                                    assert(sv[i as int] == StmtModel::Assign(tv, vv));
                                    assert(spec_locate(sv.skip(i as int), assignments@)
                                        == LocateModel::Fail);
                                }
                                return Err(
                                    SpecError::Resolution(
                                        String::from_str(
                                            "an assignment target must be an identifier",
                                        ),
                                    ),
                                );
                            },
                        }
                        j = j + 1;
                    }
                    proof {
                        assert(all_names(tv));
                        assert(tv.skip(0) =~= tv);
                    }
                    let mut k: usize = 0;
                    while k < names.len()
                        invariant
                            0 <= k <= names@.len(),
                            statements@[i as int] == PyStmt::Assign(*a),
                            tv == exprs_view(a.targets@),
                            names@.len() == a.targets@.len(),
                            forall|t: int|
                                0 <= t < names@.len() ==> tv[t] is Name && names@[t]@
                                    == tv[t]->Name_0,
                            spec_bind_targets(tbl_at, tv, vv) == spec_bind_targets(
                                assignments@,
                                tv.skip(k as int),
                                vv,
                            ),
                        decreases names@.len() - k,
                    {
                        proof {
                            assert(tv.skip(k as int)[0] == tv[k as int]);
                            assert(tv.skip(k as int).drop_first() =~= tv.skip(k + 1));
                        }
                        assignments.bind(names[k].clone(), a.value.clone());
                        k = k + 1;
                    }
                    proof {
                        assert(tv.skip(names@.len() as int) =~= Seq::<ExprModel>::empty());
                        assert(spec_bind_targets(tbl_at, tv, vv) == assignments@);
                        assert(sv[i as int] == StmtModel::Assign(tv, vv));
                        assert(spec_locate(sv.skip(i as int), tbl_at) == spec_locate(
                            sv.skip(i + 1),
                            assignments@,
                        ));
                    }
                },
                PyStmt::AnnAssign(a) => {
                    let ghost tbl_at = assignments@;
                    match &a.value {
                        Some(value) => {
                            match &a.target {
                                PyExpr::Name(name) => {
                                    assignments.bind(name.clone(), value.clone());
                                    proof {
                                        assert(sv[i as int] == StmtModel::AnnAssign(
                                            expr_view(a.target),
                                            Some(expr_view(*value)),
                                        ));
                                        assert(spec_locate(sv.skip(i as int), tbl_at)
                                            == spec_locate(sv.skip(i + 1), assignments@));
                                    }
                                },
                                _ => {
                                    return Err(
                                        SpecError::Resolution(
                                            String::from_str(
                                                "an assignment target must be an identifier",
                                            ),
                                        ),
                                    );
                                },
                            }
                        },
                        None => {
                            proof {
                                assert(sv[i as int] == StmtModel::AnnAssign(
                                    expr_view(a.target),
                                    None,
                                ));
                                assert(spec_locate(sv.skip(i as int), tbl_at) == spec_locate(
                                    sv.skip(i + 1),
                                    assignments@,
                                ));
                            }
                        },
                    }
                },
                PyStmt::Conditional(body) => {
                    proof {
                        let ghost st = statements@[i as int];
                        assert(decreases_to!(statements@ => st));
                        assert(decreases_to!(st => st->Conditional_0));
                        assert(decreases_to!(*body => body@));
                    }
                    return Self::get_setup_call(body, assignments);
                },
                PyStmt::ExprStmt(e) => {
                    match e {
                        PyExpr::Call(c) => {
                            let is_setup = match &c.func {
                                PyExpr::Name(n) => crate::strutil::str_eq(n.as_str(), "setup"),
                                PyExpr::Attribute(at) => crate::strutil::str_eq(
                                    at.attr.as_str(),
                                    "setup",
                                ),
                                _ => false,
                            };
                            proof {
                                assert(is_setup == callee_is_setup(expr_view(c.func)));
                            }
                            if is_setup {
                                return Ok(Some((**c).clone()));
                            }
                            proof {
                                assert(spec_locate(sv.skip(i as int), assignments@)
                                    == spec_locate(sv.skip(i + 1), assignments@));
                            }
                        },
                        _ => {
                            proof {
                                assert(spec_locate(sv.skip(i as int), assignments@)
                                    == spec_locate(sv.skip(i + 1), assignments@));
                            }
                        },
                    }
                },
                PyStmt::Other => {
                    proof {
                        assert(spec_locate(sv.skip(i as int), assignments@) == spec_locate(
                            sv.skip(i + 1),
                            assignments@,
                        ));
                    }
                },
            }
            i = i + 1;
        }
        proof {
            assert(sv.skip(n as int) =~= Seq::<StmtModel>::empty());
        }
        Ok(None)
    }
}

/// Law: scalar resolution follows one hop of indirection and no more — a
/// name resolves only when the expression bound to it is itself a string
/// constant. Chains of scalar aliases are not chased, unlike list
/// resolution; the asymmetry is deliberate and kept.
pub proof fn lemma_string_resolution_single_hop(n: Seq<char>, tbl: TableModel)
    ensures
        spec_resolve_string(ExprModel::Name(n), tbl) == (match spec_lookup(tbl, n) {
            Some(ExprModel::StrConst(s)) => Some(s),
            _ => None::<Seq<char>>,
        }),
{
}

/// Law: list resolution chases aliases hop after hop — a name bound to any
/// expression resolves by resolving that expression in turn, with one hop of
/// the budget spent. Scalar resolution does not do this.
pub proof fn lemma_list_resolution_follows_aliases(n: Seq<char>, tbl: TableModel, hops: nat)
    requires
        hops > 0,
    ensures
        spec_resolve_list(ExprModel::Name(n), tbl, hops) == (match spec_lookup(tbl, n) {
            Some(bound) => spec_resolve_list(bound, tbl, (hops - 1) as nat),
            None => None::<Seq<Seq<char>>>,
        }),
{
}

/// Law: a scan that starts at a conditional is exactly the scan of the
/// conditional's body — the statements after the conditional play no part,
/// so a call standing only there is never found. The short-circuit is
/// deliberate and kept.
pub proof fn lemma_locator_short_circuits(stmts: Seq<StmtModel>, tbl: TableModel)
    requires
        stmts.len() > 0,
        stmts[0] is Conditional,
    ensures
        spec_locate(stmts, tbl) == spec_locate(stmts[0]->Conditional_0, tbl),
{
}

/// The script specification with every field absent.
pub open spec fn empty_setup_model() -> crate::specs::SetupModel {
    crate::specs::SetupModel {
        package_name: None,
        version: None,
        extra_requires: None,
        install_requires: None,
        setup_requires: None,
        entry_points: None,
    }
}

/// Dispatch of the located call's keyword arguments, in order: each of the
/// six recognized keywords resolves its value and fills its field,
/// overwriting an earlier occurrence; unrecognized or nameless keywords are
/// ignored. A recognized keyword whose value does not resolve fails the
/// whole assembly.
pub open spec fn spec_assemble(
    kws: Seq<KeywordModel>,
    tbl: TableModel,
    acc: crate::specs::SetupModel,
) -> Option<crate::specs::SetupModel>
    decreases kws.len(),
{
    if kws.len() == 0 {
        Some(acc)
    } else {
        match kws[0].arg {
            Some(name) => if name == "name"@ {
                match spec_resolve_string(kws[0].value, tbl) {
                    Some(s) => spec_assemble(
                        kws.drop_first(),
                        tbl,
                        crate::specs::SetupModel { package_name: Some(s), ..acc },
                    ),
                    None => None,
                }
            } else if name == "version"@ {
                match spec_resolve_string(kws[0].value, tbl) {
                    Some(s) => spec_assemble(
                        kws.drop_first(),
                        tbl,
                        crate::specs::SetupModel { version: Some(s), ..acc },
                    ),
                    None => None,
                }
            } else if name == "install_requires"@ {
                match resolve_list_model(kws[0].value, tbl) {
                    Some(l) => spec_assemble(
                        kws.drop_first(),
                        tbl,
                        crate::specs::SetupModel { install_requires: Some(l), ..acc },
                    ),
                    None => None,
                }
            } else if name == "setup_requires"@ {
                match resolve_list_model(kws[0].value, tbl) {
                    Some(l) => spec_assemble(
                        kws.drop_first(),
                        tbl,
                        crate::specs::SetupModel { setup_requires: Some(l), ..acc },
                    ),
                    None => None,
                }
            } else if name == "extra_requires"@ {
                match resolve_table_model(kws[0].value, tbl) {
                    Some(t) => spec_assemble(
                        kws.drop_first(),
                        tbl,
                        crate::specs::SetupModel { extra_requires: Some(t), ..acc },
                    ),
                    None => None,
                }
            } else if name == "entry_points"@ {
                match resolve_ep_model(kws[0].value, tbl) {
                    Some(em) => spec_assemble(
                        kws.drop_first(),
                        tbl,
                        crate::specs::SetupModel { entry_points: Some(em), ..acc },
                    ),
                    None => None,
                }
            } else {
                spec_assemble(kws.drop_first(), tbl, acc)
            },
            None => spec_assemble(kws.drop_first(), tbl, acc),
        }
    }
}

/// The script specification a statement sequence denotes: locate the
/// reserved invocation (starting from an empty symbol table), then assemble
/// its keyword arguments. No invocation at all yields the all-absent
/// specification; a malformed assignment target or an unresolvable
/// recognized keyword yields nothing.
pub open spec fn setup_of_source(stmts: Seq<StmtModel>) -> Option<crate::specs::SetupModel> {
    match spec_locate(stmts, Seq::empty()) {
        LocateModel::Fail => None,
        LocateModel::Absent(_) => Some(empty_setup_model()),
        LocateModel::Found(kws, tbl) => spec_assemble(kws, tbl, empty_setup_model()),
    }
}

/// A resolution error naming the keyword whose value did not resolve.
fn keyword_error(ident: &str, e: SpecError) -> (r: SpecError)
    ensures
        r is Resolution,
{
    let detail = match e {
        SpecError::Resolution(d) => d,
        _ => String::new(),
    };
    let mut msg = String::from_str("the keyword `");
    msg.append(ident);
    msg.append("` did not resolve: ");
    msg.append(detail.as_str());
    SpecError::Resolution(msg)
}

/// The model assembled so far from the six optional fields.
spec fn acc_model(
    package_name: Option<String>,
    version: Option<String>,
    extra_requires: Option<RequiresTable>,
    install_requires: Option<Vec<String>>,
    setup_requires: Option<Vec<String>>,
    entry_points: Option<crate::specs::Entrypoints>,
) -> crate::specs::SetupModel {
    crate::specs::SetupModel {
        package_name: package_name.deep_view(),
        version: version.deep_view(),
        extra_requires: extra_requires.deep_view(),
        install_requires: install_requires.deep_view(),
        setup_requires: setup_requires.deep_view(),
        entry_points: match entry_points {
            Some(ep) => Some(ep@),
            None => None,
        },
    }
}

impl SetupParser {
    /// Resolves a statement sequence into a script specification: locates
    /// the reserved `setup` invocation, then dispatches its keyword
    /// arguments by name to the resolvers, ignoring unrecognized and
    /// nameless keywords. Finding no invocation yields the specification
    /// with every field absent; a malformed assignment target or a
    /// recognized keyword whose value does not resolve is a resolution
    /// error.
    #[verifier::loop_isolation(false)]
    pub fn parse_ast(statements: &Vec<PyStmt>) -> (r: Result<Setup, SpecError>)
        ensures
            match setup_of_source(stmts_view(statements@)) {
                Some(m) => r is Ok && r->Ok_0@ == m && r->Ok_0.wf(),
                None => r is Err && r->Err_0 is Resolution,
            },
    {
        let mut assignments = SymbolTable::new();
        let located = match Self::get_setup_call(statements, &mut assignments) {
            Ok(c) => c,
            Err(e) => {
                return Err(e);
            },
        };
        let call = match located {
            Some(c) => c,
            None => {
                let r = Setup {
                    package_name: None,
                    version: None,
                    extra_requires: None,
                    install_requires: None,
                    setup_requires: None,
                    entry_points: None,
                };
                proof {
                    assert(r@ =~= empty_setup_model());
                }
                return Ok(r);
            },
        };
        let kws = call.keywords;
        let ghost kv = keywords_view(kws@);
        let ghost tbl = assignments@;
        let mut package_name: Option<String> = None;
        let mut version: Option<String> = None;
        let mut extra_requires: Option<RequiresTable> = None;
        let mut install_requires: Option<Vec<String>> = None;
        let mut setup_requires: Option<Vec<String>> = None;
        let mut entry_points: Option<crate::specs::Entrypoints> = None;
        proof {
            assert(kv.skip(0) =~= kv);
            assert(acc_model(None, None, None, None, None, None) =~= empty_setup_model());
        }
        let mut i: usize = 0;
        while i < kws.len()
            invariant
                0 <= i <= kws.len(),
                match extra_requires {
                    Some(t) => t.wf(),
                    None => true,
                },
                spec_assemble(kv, tbl, empty_setup_model()) == spec_assemble(
                    kv.skip(i as int),
                    tbl,
                    acc_model(
                        package_name,
                        version,
                        extra_requires,
                        install_requires,
                        setup_requires,
                        entry_points,
                    ),
                ),
            decreases kws.len() - i,
        {
            let ghost acc = acc_model(
                package_name,
                version,
                extra_requires,
                install_requires,
                setup_requires,
                entry_points,
            );
            proof {
                assert(kv.skip(i as int)[0] == kv[i as int]);
                assert(kv.skip(i as int).drop_first() =~= kv.skip(i + 1));
            }
            match &kws[i].arg {
                Some(ident) => {
                    if crate::strutil::str_eq(ident.as_str(), "name") {
                        match Self::parse_string(&kws[i].value, &assignments) {
                            Ok(s) => {
                                package_name = Some(s);
                            },
                            Err(e) => {
                                return Err(keyword_error(ident.as_str(), e));
                            },
                        }
                    } else if crate::strutil::str_eq(ident.as_str(), "version") {
                        match Self::parse_string(&kws[i].value, &assignments) {
                            Ok(s) => {
                                version = Some(s);
                            },
                            Err(e) => {
                                return Err(keyword_error(ident.as_str(), e));
                            },
                        }
                    } else if crate::strutil::str_eq(ident.as_str(), "install_requires") {
                        match Self::parse_string_vec(&kws[i].value, &assignments) {
                            Ok(l) => {
                                install_requires = Some(l);
                            },
                            Err(e) => {
                                return Err(keyword_error(ident.as_str(), e));
                            },
                        }
                    } else if crate::strutil::str_eq(ident.as_str(), "setup_requires") {
                        match Self::parse_string_vec(&kws[i].value, &assignments) {
                            Ok(l) => {
                                setup_requires = Some(l);
                            },
                            Err(e) => {
                                return Err(keyword_error(ident.as_str(), e));
                            },
                        }
                    } else if crate::strutil::str_eq(ident.as_str(), "extra_requires") {
                        match Self::parse_requires_map(&kws[i].value, &assignments) {
                            Ok(t) => {
                                extra_requires = Some(t);
                            },
                            Err(e) => {
                                return Err(keyword_error(ident.as_str(), e));
                            },
                        }
                    } else if crate::strutil::str_eq(ident.as_str(), "entry_points") {
                        match Self::parse_entrypoints(&kws[i].value, &assignments) {
                            Ok(ep) => {
                                entry_points = Some(ep);
                            },
                            Err(e) => {
                                return Err(keyword_error(ident.as_str(), e));
                            },
                        }
                    }
                },
                None => {},
            }
            proof {
                assert(acc_model(
                    package_name,
                    version,
                    extra_requires,
                    install_requires,
                    setup_requires,
                    entry_points,
                ) =~= spec_assemble_step_target(kv[i as int], tbl, acc));
            }
            i = i + 1;
        }
        proof {
            assert(kv.skip(kws@.len() as int) =~= Seq::<KeywordModel>::empty());
        }
        let r = Setup {
            package_name,
            version,
            extra_requires,
            install_requires,
            setup_requires,
            entry_points,
        };
        proof {
            assert(r@ =~= acc_model(
                r.package_name,
                r.version,
                r.extra_requires,
                r.install_requires,
                r.setup_requires,
                r.entry_points,
            ));
        }
        Ok(r)
    }
}

/// The accumulator after one keyword of the dispatch, assuming its value
/// resolved.
spec fn spec_assemble_step_target(
    kw: KeywordModel,
    tbl: TableModel,
    acc: crate::specs::SetupModel,
) -> crate::specs::SetupModel {
    match kw.arg {
        Some(name) => if name == "name"@ {
            crate::specs::SetupModel {
                package_name: spec_resolve_string(kw.value, tbl),
                ..acc
            }
        } else if name == "version"@ {
            crate::specs::SetupModel { version: spec_resolve_string(kw.value, tbl), ..acc }
        } else if name == "install_requires"@ {
            crate::specs::SetupModel { install_requires: resolve_list_model(kw.value, tbl), ..acc }
        } else if name == "setup_requires"@ {
            crate::specs::SetupModel { setup_requires: resolve_list_model(kw.value, tbl), ..acc }
        } else if name == "extra_requires"@ {
            crate::specs::SetupModel { extra_requires: resolve_table_model(kw.value, tbl), ..acc }
        } else if name == "entry_points"@ {
            crate::specs::SetupModel { entry_points: resolve_ep_model(kw.value, tbl), ..acc }
        } else {
            acc
        },
        None => acc,
    }
}

} // verus!
