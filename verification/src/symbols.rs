//! The symbol table threaded through the invocation locator: identifier
//! bindings recorded from assignment statements, where a later binding for
//! the same identifier shadows an earlier one (last write wins).
use vstd::prelude::*;

use crate::ast::{expr_view, ExprModel, PyExpr};

verus! {

/// The mathematical shape of a symbol table: bindings in the order they were
/// recorded.
pub type TableModel = Seq<(Seq<char>, ExprModel)>;

/// The expression bound to `name`: the latest binding wins.
pub open spec fn spec_lookup(entries: TableModel, name: Seq<char>) -> Option<ExprModel>
    decreases entries.len(),
{
    if entries.len() == 0 {
        None
    } else if entries.last().0 == name {
        Some(entries.last().1)
    } else {
        spec_lookup(entries.drop_last(), name)
    }
}

/// Bindings past position `i` that do not match `name` play no part in the
/// lookup.
pub proof fn lemma_lookup_take(entries: TableModel, name: Seq<char>, i: int)
    requires
        0 <= i <= entries.len(),
        forall|j: int| i <= j < entries.len() ==> entries[j].0 != name,
    ensures
        spec_lookup(entries, name) == spec_lookup(entries.take(i), name),
    decreases entries.len() - i,
{
    if i < entries.len() {
        assert(entries.last().0 != name);
        assert(entries.drop_last().take(i) =~= entries.take(i));
        lemma_lookup_take(entries.drop_last(), name, i);
    } else {
        assert(entries.take(i) =~= entries);
    }
}

/// Identifier bindings recorded while scanning statements. A binding shadows
/// any earlier binding of the same identifier.
pub struct SymbolTable {
    entries: Vec<(String, PyExpr)>,
}

impl View for SymbolTable {
    type V = TableModel;

    closed spec fn view(&self) -> TableModel {
        Seq::new(self.entries@.len(), |i: int| (self.entries@[i].0@, expr_view(self.entries@[i].1)))
    }
}

impl SymbolTable {
    /// The empty table.
    pub fn new() -> (r: Self)
        ensures
            r@ == Seq::<(Seq<char>, ExprModel)>::empty(),
    {
        let r = SymbolTable { entries: Vec::new() };
        proof {
            assert(r@ =~= Seq::<(Seq<char>, ExprModel)>::empty());
        }
        r
    }

    /// The number of recorded bindings.
    pub fn len(&self) -> (r: usize)
        ensures
            r == self@.len(),
    {
        self.entries.len()
    }

    /// Records a binding of `name` to `value`, shadowing earlier bindings of
    /// the same name.
    pub fn bind(&mut self, name: String, value: PyExpr)
        ensures
            final(self)@ == old(self)@.push((name@, value@)),
    {
        let ghost olds = self@;
        self.entries.push((name, value));
        proof {
            assert(self@ =~= olds.push((name@, value@)));
        }
    }

    /// The expression bound to `name`, if any; the latest binding wins.
    pub fn get(&self, name: &String) -> (r: Option<&PyExpr>)
        ensures
            match r {
                Some(e) => spec_lookup(self@, name@) == Some(e@),
                None => spec_lookup(self@, name@) is None,
            },
    {
        let n = self.entries.len();
        let mut i: usize = n;
        while i > 0
            invariant
                0 <= i <= n,
                n == self@.len(),
                forall|j: int| i <= j < n ==> self@[j].0 != name@,
            decreases i,
        {
            i = i - 1;
            if crate::strutil::str_eq(self.entries[i].0.as_str(), name.as_str()) {
                proof {
                    lemma_lookup_take(self@, name@, i + 1);
                    assert(self@.take(i + 1).last() == self@[i as int]);
                    assert(self@.take(i + 1).drop_last() =~= self@.take(i as int));
                }
                return Some(&self.entries[i].1);
            }
        }
        proof {
            lemma_lookup_take(self@, name@, 0);
            assert(self@.take(0) =~= Seq::<(Seq<char>, ExprModel)>::empty());
        }
        None
    }
}

} // verus!
