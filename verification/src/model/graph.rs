//! Graphs: operators by name.
//!
//! A graph keeps no list of edges. Two operators are linked where both hold a
//! tensor of the same name, one as an output and one as an input.

use core::convert::Infallible;
use vstd::prelude::*;
use super::operator::{Operator, OperatorView};
use super::table::Table;

verus! {

/// What a graph is: its name, and its operators by name.
pub struct GraphView {
    pub name: Seq<char>,
    pub operators: Map<Seq<char>, OperatorView>,
}

impl GraphView {
    /// A graph without operators.
    pub open spec fn bare(name: Seq<char>) -> GraphView {
        GraphView { name, operators: Map::empty() }
    }

    /// This graph with `op` under its own name, in place of an operator of
    /// that name.
    pub open spec fn with_operator(self, op: OperatorView) -> GraphView {
        GraphView { operators: self.operators.insert(op.name, op), ..self }
    }

    /// Whether the operators are finitely many and each stands under its own
    /// name, so that no two of them have the same name.
    pub open spec fn well_named(self) -> bool {
        &&& self.operators.dom().finite()
        &&& forall|k: Seq<char>| #[trigger]
            self.operators.contains_key(k) ==> self.operators[k].name == k
    }
}

/// Adding an operator keeps a graph well named.
pub proof fn lemma_with_operator_well_named(g: GraphView, op: OperatorView)
    requires
        g.well_named(),
    ensures
        g.with_operator(op).well_named(),
{
}

/// What the operators of a table are.
pub open spec fn operator_views(m: Map<Seq<char>, Operator>) -> Map<Seq<char>, OperatorView> {
    m.map_values(|op: Operator| op@)
}

/// A named collection of operators, no two of the same name.
#[derive(Debug)]
pub struct Graph {
    name: String,
    operators: Table<Operator>,
}

impl View for Graph {
    type V = GraphView;

    closed spec fn view(&self) -> GraphView {
        GraphView { name: self.name@, operators: operator_views(self.operators@) }
    }
}

impl Graph {
    #[verifier::type_invariant]
    spec fn well_formed(&self) -> bool {
        forall|k: Seq<char>| #[trigger]
            self.operators@.contains_key(k) ==> self.operators@[k]@.name == k
    }

    /// A graph without operators.
    pub fn new(name: &str) -> (r: Self)
        ensures
            r@ == GraphView::bare(name@),
    {
        let r = Graph { name: String::from_str(name), operators: Table::new() };
        assert(r@.operators =~= Map::empty());
        r
    }

    /// This graph with `op` under its name: where the graph has an operator
    /// of that name, `op` takes its place.
    pub fn with_operator(self, op: Operator) -> (g: Self)
        ensures
            g@ == self@.with_operator(op@),
            g@.well_named(),
    {
        proof {
            use_type_invariant(&self);
        }
        let Graph { name, mut operators } = self;
        let key = op.name().clone();
        operators.insert(key, op);
        let g = Graph { name, operators };
        assert(g@.operators =~= self@.operators.insert(op@.name, op@));
        assert(g@.operators.dom() =~= g.operators@.dom());
        g
    }

    /// This graph with `op` under its name. It never fails: where the graph
    /// has an operator of that name, `op` takes its place.
    pub fn add_operator(self, op: Operator) -> (r: Result<Self, Infallible>)
        ensures
            r matches Ok(g) && g@ == self@.with_operator(op@) && g@.well_named(),
    {
        Ok(self.with_operator(op))
    }

    pub fn name(&self) -> (r: &String)
        ensures
            r@ == self@.name,
    {
        &self.name
    }

    /// The number of operators.
    pub fn len(&self) -> (r: usize)
        ensures
            r == self@.operators.len(),
            self@.well_named(),
    {
        proof {
            use_type_invariant(self);
        }
        let n = self.operators.len();
        assert(self@.operators.dom() =~= self.operators@.dom());
        n
    }

    /// The operators, each of them once.
    pub fn operators(&self) -> (r: Vec<&Operator>)
        ensures
            self@.well_named(),
            r@.len() == self@.operators.len(),
            forall|i: int|
                0 <= i < r@.len() ==> self@.operators.contains_key((#[trigger] r@[i])@.name)
                    && self@.operators[r@[i]@.name] == r@[i]@,
            forall|i: int, j: int|
                0 <= i < j < r@.len() ==> (#[trigger] r@[i])@.name != (#[trigger] r@[j])@.name,
    {
        proof {
            use_type_invariant(self);
        }
        let n = self.operators.len();
        let r = self.operators.values();
        proof {
            assert(self@.operators.dom() =~= self.operators@.dom());
            let keys = self.operators.keys();
            assert forall|i: int| 0 <= i < r@.len() implies self@.operators.contains_key(
                (#[trigger] r@[i])@.name,
            ) && self@.operators[r@[i]@.name] == r@[i]@ && r@[i]@.name == keys[i] by {
                let k = keys[i];
                assert(keys.contains(k));
                self.operators.lemma_keys_are_dom();
                assert(keys.to_set().contains(k));
                assert(self.operators@.contains_key(k));
            }
        }
        r
    }

    /// The operator called `name`, if there is one.
    pub fn get_operator(&self, name: &str) -> (r: Option<&Operator>)
        ensures
            r is Some == self@.operators.contains_key(name@),
            r matches Some(op) ==> op@ == self@.operators[name@] && op@.name == name@,
    {
        proof {
            use_type_invariant(self);
        }
        self.operators.get(name)
    }
}

} // verus!
