//! A restricted model of Python expressions and statements: exactly the
//! shapes that the literal resolver understands. Source text is turned into
//! this model by an unverified front end; the resolver and the invocation
//! locator work on it alone.
//!
//! Each executable node type has a mathematical view (`ExprModel`,
//! `StmtModel`, ...) over which every resolver contract is stated.
use vstd::prelude::*;

verus! {

/// A keyword argument of a call, `arg=value`. `arg` is `None` for a
/// `**`-unpacking argument, which carries no keyword name.
pub struct PyKeyword {
    pub arg: Option<String>,
    pub value: PyExpr,
}

/// One `key: value` pair of a mapping literal. `key` is `None` for a
/// `**`-unpacking entry, which has no literal key.
pub struct PyDictEntry {
    pub key: Option<PyExpr>,
    pub value: PyExpr,
}

/// A call expression: the callee and its keyword arguments. Positional
/// arguments play no part in resolution and are not modelled.
pub struct PyCall {
    pub func: PyExpr,
    pub keywords: Vec<PyKeyword>,
}

/// An attribute access `value.attr`.
pub struct PyAttribute {
    pub value: PyExpr,
    pub attr: String,
}

/// An expression of the restricted literal grammar. Constants other than
/// strings, and every expression shape the resolver never reads, collapse
/// into `OtherConst` and `Other`.
pub enum PyExpr {
    /// A string constant.
    StrConst(String),
    /// A constant of any non-string kind.
    OtherConst,
    /// A bare identifier reference.
    Name(String),
    /// A list literal.
    ListLit(Vec<PyExpr>),
    /// A mapping literal.
    DictLit(Vec<PyDictEntry>),
    /// A joined (formatted) string: literal segments and embedded
    /// sub-expressions, in source order.
    JoinedStr(Vec<PyExpr>),
    /// A call expression.
    Call(Box<PyCall>),
    /// An attribute access.
    Attribute(Box<PyAttribute>),
    /// Any other expression shape.
    Other,
}

/// A statement, reduced to the kinds the invocation locator distinguishes.
pub enum PyStmt {
    /// An unannotated assignment, possibly with several targets.
    Assign(PyAssign),
    /// An annotated assignment, whose right-hand side may be absent.
    AnnAssign(PyAnnAssign),
    /// A conditional statement; only its main body is modelled, since the
    /// locator scans nothing else of it.
    Conditional(Vec<PyStmt>),
    /// An expression used as a statement.
    ExprStmt(PyExpr),
    /// Any other statement kind.
    Other,
}

/// An unannotated assignment `t1 = t2 = ... = value`.
pub struct PyAssign {
    pub targets: Vec<PyExpr>,
    pub value: PyExpr,
}

/// An annotated assignment `target: T = value`, where `value` may be absent.
pub struct PyAnnAssign {
    pub target: PyExpr,
    pub value: Option<PyExpr>,
}

/// The mathematical shape of an expression.
#[verifier::ext_equal]
pub ghost enum ExprModel {
    StrConst(Seq<char>),
    OtherConst,
    Name(Seq<char>),
    ListLit(Seq<ExprModel>),
    DictLit(Seq<DictEntryModel>),
    JoinedStr(Seq<ExprModel>),
    Call(Box<ExprModel>, Seq<KeywordModel>),
    Attribute(Box<ExprModel>, Seq<char>),
    Other,
}

/// The mathematical shape of a mapping-literal entry.
#[verifier::ext_equal]
pub ghost struct DictEntryModel {
    pub key: Option<ExprModel>,
    pub value: ExprModel,
}

/// The mathematical shape of a keyword argument.
#[verifier::ext_equal]
pub ghost struct KeywordModel {
    pub arg: Option<Seq<char>>,
    pub value: ExprModel,
}

/// The mathematical shape of a statement.
#[verifier::ext_equal]
pub ghost enum StmtModel {
    Assign(Seq<ExprModel>, ExprModel),
    AnnAssign(ExprModel, Option<ExprModel>),
    Conditional(Seq<StmtModel>),
    ExprStmt(ExprModel),
    Other,
}

/// The view of an expression.
pub open spec fn expr_view(e: PyExpr) -> ExprModel
    decreases e,
{
    match e {
        PyExpr::StrConst(s) => ExprModel::StrConst(s@),
        PyExpr::OtherConst => ExprModel::OtherConst,
        PyExpr::Name(s) => ExprModel::Name(s@),
        PyExpr::ListLit(es) => ExprModel::ListLit(exprs_view(es@)),
        PyExpr::DictLit(entries) => ExprModel::DictLit(entries_view(entries@)),
        PyExpr::JoinedStr(es) => ExprModel::JoinedStr(exprs_view(es@)),
        PyExpr::Call(c) => ExprModel::Call(
            Box::new(expr_view(c.func)),
            keywords_view(c.keywords@),
        ),
        PyExpr::Attribute(a) => ExprModel::Attribute(Box::new(expr_view(a.value)), a.attr@),
        PyExpr::Other => ExprModel::Other,
    }
}

/// The views of a sequence of expressions, elementwise.
pub open spec fn exprs_view(es: Seq<PyExpr>) -> Seq<ExprModel>
    decreases es,
{
    Seq::new(
        es.len(),
        |i: int|
            if 0 <= i < es.len() {
                expr_view(es[i])
            } else {
                ExprModel::Other
            },
    )
}

/// The views of a sequence of mapping entries, elementwise.
pub open spec fn entries_view(entries: Seq<PyDictEntry>) -> Seq<DictEntryModel>
    decreases entries,
{
    Seq::new(
        entries.len(),
        |i: int|
            if 0 <= i < entries.len() {
                entry_view(entries[i])
            } else {
                DictEntryModel { key: None, value: ExprModel::Other }
            },
    )
}

/// The view of one mapping entry.
pub open spec fn entry_view(entry: PyDictEntry) -> DictEntryModel
    decreases entry,
{
    DictEntryModel {
        key: match entry.key {
            Some(k) => Some(expr_view(k)),
            None => None,
        },
        value: expr_view(entry.value),
    }
}

/// The views of a sequence of keyword arguments, elementwise.
pub open spec fn keywords_view(kws: Seq<PyKeyword>) -> Seq<KeywordModel>
    decreases kws,
{
    Seq::new(
        kws.len(),
        |i: int|
            if 0 <= i < kws.len() {
                keyword_view(kws[i])
            } else {
                KeywordModel { arg: None, value: ExprModel::Other }
            },
    )
}

/// The view of one keyword argument.
pub open spec fn keyword_view(kw: PyKeyword) -> KeywordModel
    decreases kw,
{
    KeywordModel {
        arg: match kw.arg {
            Some(a) => Some(a@),
            None => None,
        },
        value: expr_view(kw.value),
    }
}

/// The view of a statement.
pub open spec fn stmt_view(s: PyStmt) -> StmtModel
    decreases s,
{
    match s {
        PyStmt::Assign(a) => StmtModel::Assign(exprs_view(a.targets@), expr_view(a.value)),
        PyStmt::AnnAssign(a) => StmtModel::AnnAssign(
            expr_view(a.target),
            match a.value {
                Some(v) => Some(expr_view(v)),
                None => None,
            },
        ),
        PyStmt::Conditional(body) => StmtModel::Conditional(stmts_view(body@)),
        PyStmt::ExprStmt(e) => StmtModel::ExprStmt(expr_view(e)),
        PyStmt::Other => StmtModel::Other,
    }
}

/// The views of a sequence of statements, elementwise.
pub open spec fn stmts_view(stmts: Seq<PyStmt>) -> Seq<StmtModel>
    decreases stmts,
{
    Seq::new(
        stmts.len(),
        |i: int|
            if 0 <= i < stmts.len() {
                stmt_view(stmts[i])
            } else {
                StmtModel::Other
            },
    )
}

impl View for PyExpr {
    type V = ExprModel;

    open spec fn view(&self) -> ExprModel {
        expr_view(*self)
    }
}

impl DeepView for PyExpr {
    type V = ExprModel;

    open spec fn deep_view(&self) -> ExprModel {
        expr_view(*self)
    }
}

impl View for PyKeyword {
    type V = KeywordModel;

    open spec fn view(&self) -> KeywordModel {
        keyword_view(*self)
    }
}

impl DeepView for PyKeyword {
    type V = KeywordModel;

    open spec fn deep_view(&self) -> KeywordModel {
        keyword_view(*self)
    }
}

impl View for PyDictEntry {
    type V = DictEntryModel;

    open spec fn view(&self) -> DictEntryModel {
        entry_view(*self)
    }
}

impl View for PyStmt {
    type V = StmtModel;

    open spec fn view(&self) -> StmtModel {
        stmt_view(*self)
    }
}

impl DeepView for PyStmt {
    type V = StmtModel;

    open spec fn deep_view(&self) -> StmtModel {
        stmt_view(*self)
    }
}

impl Clone for PyExpr {
    /// A deep copy whose view equals the original's.
    fn clone(&self) -> (res: Self)
        ensures
            res@ == self@,
        decreases *self,
    {
        match self {
            PyExpr::StrConst(s) => PyExpr::StrConst(s.clone()),
            PyExpr::OtherConst => PyExpr::OtherConst,
            PyExpr::Name(s) => PyExpr::Name(s.clone()),
            PyExpr::ListLit(es) => {
                let ghost sv = *self;
                let mut out: Vec<PyExpr> = Vec::new();
                let mut i: usize = 0;
                while i < es.len()
                    invariant
                        0 <= i <= es.len(),
                        out@.len() == i,
                        forall|j: int| 0 <= j < i ==> out@[j]@ == es@[j]@,
                        sv == *self && *self == PyExpr::ListLit(*es),
                    decreases es.len() - i,
                {
                    proof {
                        assert(decreases_to!(sv => sv->ListLit_0));
                        assert(decreases_to!(*es => es@[i as int]));
                    }
                    out.push(es[i].clone());
                    i = i + 1;
                }
                proof {
                    assert(exprs_view(out@) =~= exprs_view(es@));
                }
                PyExpr::ListLit(out)
            },
            PyExpr::DictLit(entries) => {
                let ghost sv = *self;
                let mut out: Vec<PyDictEntry> = Vec::new();
                let mut i: usize = 0;
                while i < entries.len()
                    invariant
                        0 <= i <= entries.len(),
                        out@.len() == i,
                        forall|j: int| 0 <= j < i ==> out@[j]@ == entries@[j]@,
                        sv == *self && *self == PyExpr::DictLit(*entries),
                    decreases entries.len() - i,
                {
                    proof {
                        assert(decreases_to!(sv => sv->DictLit_0));
                        assert(decreases_to!(*entries => entries@[i as int]));
                    }
                    out.push(entries[i].clone());
                    i = i + 1;
                }
                proof {
                    assert(entries_view(out@) =~= entries_view(entries@));
                }
                PyExpr::DictLit(out)
            },
            PyExpr::JoinedStr(es) => {
                let ghost sv = *self;
                let mut out: Vec<PyExpr> = Vec::new();
                let mut i: usize = 0;
                while i < es.len()
                    invariant
                        0 <= i <= es.len(),
                        out@.len() == i,
                        forall|j: int| 0 <= j < i ==> out@[j]@ == es@[j]@,
                        sv == *self && *self == PyExpr::JoinedStr(*es),
                    decreases es.len() - i,
                {
                    proof {
                        assert(decreases_to!(sv => sv->JoinedStr_0));
                        assert(decreases_to!(*es => es@[i as int]));
                    }
                    out.push(es[i].clone());
                    i = i + 1;
                }
                proof {
                    assert(exprs_view(out@) =~= exprs_view(es@));
                }
                PyExpr::JoinedStr(out)
            },
            PyExpr::Call(c) => {
                proof {
                    let ghost sv = *self;
                    assert(decreases_to!(sv => sv->Call_0));
                }
                PyExpr::Call(Box::new((**c).clone()))
            },
            PyExpr::Attribute(a) => {
                proof {
                    let ghost sv = *self;
                    assert(decreases_to!(sv => sv->Attribute_0));
                }
                PyExpr::Attribute(Box::new((**a).clone()))
            },
            PyExpr::Other => PyExpr::Other,
        }
    }
}

impl Clone for PyDictEntry {
    /// A deep copy whose view equals the original's.
    fn clone(&self) -> (res: Self)
        ensures
            res@ == self@,
        decreases *self,
    {
        let key = match &self.key {
            Some(k) => {
                proof {
                    assert(decreases_to!(*self => self.key));
                    assert(decreases_to!(self.key => self.key->Some_0));
                }
                Some(k.clone())
            },
            None => None,
        };
        let value = self.value.clone();
        PyDictEntry { key, value }
    }
}

impl PyCall {
    /// The view of a call: its callee's view and its keyword views.
    pub open spec fn call_view(self) -> (ExprModel, Seq<KeywordModel>) {
        (expr_view(self.func), keywords_view(self.keywords@))
    }
}

impl Clone for PyCall {
    /// A deep copy whose callee and keyword views equal the original's.
    fn clone(&self) -> (res: Self)
        ensures
            res.call_view() == self.call_view(),
        decreases *self,
    {
        let func = self.func.clone();
        let mut keywords: Vec<PyKeyword> = Vec::new();
        let mut i: usize = 0;
        while i < self.keywords.len()
            invariant
                0 <= i <= self.keywords.len(),
                keywords@.len() == i,
                forall|j: int| 0 <= j < i ==> keywords@[j]@ == self.keywords@[j]@,
            decreases self.keywords.len() - i,
        {
            proof {
                assert(decreases_to!(*self => self.keywords));
                assert(decreases_to!(self.keywords => self.keywords@[i as int]));
            }
            keywords.push(self.keywords[i].clone());
            i = i + 1;
        }
        proof {
            assert(keywords_view(keywords@) =~= keywords_view(self.keywords@));
        }
        PyCall { func, keywords }
    }
}

impl Clone for PyAttribute {
    /// A deep copy whose component views equal the original's.
    fn clone(&self) -> (res: Self)
        ensures
            res.value@ == self.value@,
            res.attr@ == self.attr@,
        decreases *self,
    {
        PyAttribute { value: self.value.clone(), attr: self.attr.clone() }
    }
}

impl Clone for PyKeyword {
    /// A deep copy whose view equals the original's.
    fn clone(&self) -> (res: Self)
        ensures
            res@ == self@,
        decreases *self,
    {
        let arg = match &self.arg {
            Some(a) => Some(a.clone()),
            None => None,
        };
        let value = self.value.clone();
        PyKeyword { arg, value }
    }
}

} // verus!
