//! The HIR map: every node, type and language item of a package.
use vstd::prelude::*;

use indexmap::IndexMap;

use crate::hir::node::{
    Expression, Node, Parameter, Pattern, Statement, TypeDefinition, TypeParameter, TypeVariable,
};
use crate::hir::path::{Path, Type, TypeId};
use crate::lang::LanguageItems;
use crate::span::{NodeId, PackageId};

verus! {

/// Insertion-ordered hash map of the `indexmap` crate.
#[verifier::external_type_specification]
#[verifier::external_body]
#[verifier::reject_recursive_types(K)]
#[verifier::reject_recursive_types(V)]
#[verifier::reject_recursive_types(S)]
pub struct ExIndexMap<K, V, S>(IndexMap<K, V, S>);

/// The entries of a node map, in insertion order.
pub uninterp spec fn node_entries(m: IndexMap<NodeId, Node>) -> Seq<(NodeId, Node)>;

/// The entries of a type map, in insertion order.
pub uninterp spec fn type_entries(m: IndexMap<TypeId, Type>) -> Seq<(TypeId, Type)>;

/// The position of the first entry with key `k`, if any.
pub open spec fn key_index<K, V>(e: Seq<(K, V)>, k: K) -> Option<int>
    decreases e.len(),
{
    if e.len() == 0 {
        None
    } else if e[0].0 == k {
        Some(0)
    } else {
        match key_index(e.drop_first(), k) {
            Some(i) => Some(i + 1),
            None => None,
        }
    }
}

/// The value stored for key `k`, if any.
pub open spec fn entries_get<K, V>(e: Seq<(K, V)>, k: K) -> Option<V> {
    match key_index(e, k) {
        Some(i) => Some(e[i].1),
        None => None,
    }
}

/// The entries after inserting `v` for `k`: an existing entry keeps its
/// position and takes the new value; otherwise the entry is appended.
pub open spec fn entries_insert<K, V>(e: Seq<(K, V)>, k: K, v: V) -> Seq<(K, V)> {
    match key_index(e, k) {
        Some(i) => e.update(i, (k, v)),
        None => e.push((k, v)),
    }
}

/// The entries after inserting all entries of `added`, in order.
pub open spec fn insert_all<K, V>(start: Seq<(K, V)>, added: Seq<(K, V)>) -> Seq<(K, V)>
    decreases added.len(),
{
    if added.len() == 0 {
        start
    } else {
        let prev = insert_all(start, added.drop_last());
        entries_insert(prev, added.last().0, added.last().1)
    }
}

/// Whether no two entries share a key.
pub open spec fn distinct_keys<K, V>(e: Seq<(K, V)>) -> bool {
    forall|i: int, j: int| 0 <= i < j < e.len() ==> #[trigger] e[i].0 != #[trigger] e[j].0
}

/// Properties of the position of a key.
pub proof fn lemma_key_index<K, V>(e: Seq<(K, V)>, k: K)
    ensures
        match key_index(e, k) {
            Some(i) => 0 <= i < e.len() && e[i].0 == k && forall|j: int| 0 <= j < i ==> #[trigger] e[j].0 != k,
            None => forall|j: int| 0 <= j < e.len() ==> #[trigger] e[j].0 != k,
        },
    decreases e.len(),
{
    if e.len() > 0 {
        let rest = e.drop_first();
        lemma_key_index(rest, k);
        if e[0].0 != k {
            assert forall|j: int| 0 < j < e.len() implies #[trigger] e[j].0 == rest[j - 1].0 by {}
        }
    }
}

/// With distinct keys, an entry with key `k` is the one found.
pub proof fn lemma_key_index_unique<K, V>(e: Seq<(K, V)>, k: K, i: int)
    requires
        distinct_keys(e),
        0 <= i < e.len(),
        e[i].0 == k,
    ensures
        key_index(e, k) == Some(i),
{
    lemma_key_index(e, k);
    match key_index(e, k) {
        Some(j) => {
            if j != i {
                if j < i {
                    assert(e[j].0 != e[i].0);
                } else {
                    assert(e[i].0 != e[j].0);
                }
            }
        },
        None => {},
    }
}

/// Inserting keeps the keys distinct.
pub proof fn lemma_insert_distinct<K, V>(e: Seq<(K, V)>, k: K, v: V)
    requires
        distinct_keys(e),
    ensures
        distinct_keys(entries_insert(e, k, v)),
{
    lemma_key_index(e, k);
    let f = entries_insert(e, k, v);
    assert forall|i: int, j: int| 0 <= i < j < f.len() implies #[trigger] f[i].0 != #[trigger] f[j].0 by {
        match key_index(e, k) {
            Some(p) => {
                assert(f[i].0 == e[i].0 && f[j].0 == e[j].0);
            },
            None => {
                if j < e.len() {
                    assert(f[i] == e[i] && f[j] == e[j]);
                } else {
                    assert(f[i] == e[i]);
                }
            },
        }
    }
}

/// A new, empty node map.
#[verifier::external_body]
fn nodes_new() -> (r: IndexMap<NodeId, Node>)
    ensures
        node_entries(r) == Seq::<(NodeId, Node)>::empty(),
{
    IndexMap::new()
}

/// Inserts a node into a node map, returning the value previously stored
/// for the key.
#[verifier::external_body]
fn nodes_insert(m: &mut IndexMap<NodeId, Node>, k: NodeId, v: Node) -> (r: Option<Node>)
    ensures
        node_entries(*final(m)) == entries_insert(node_entries(*old(m)), k, v),
        r == entries_get(node_entries(*old(m)), k),
{
    m.insert(k, v)
}

/// The node stored for a key, if any.
#[verifier::external_body]
fn nodes_get<'a>(m: &'a IndexMap<NodeId, Node>, k: &NodeId) -> (r: Option<&'a Node>)
    ensures
        match r {
            Some(v) => entries_get(node_entries(*m), *k) == Some(*v),
            None => entries_get(node_entries(*m), *k) is None,
        },
{
    m.get(k)
}

/// The number of entries of a node map.
#[verifier::external_body]
fn nodes_len(m: &IndexMap<NodeId, Node>) -> (r: usize)
    ensures
        r == node_entries(*m).len(),
{
    m.len()
}

/// The entry at position `i` of a node map.
#[verifier::external_body]
fn nodes_get_index<'a>(m: &'a IndexMap<NodeId, Node>, i: usize) -> (r: Option<(&'a NodeId, &'a Node)>)
    ensures
        match r {
            Some((k, v)) => i < node_entries(*m).len() && node_entries(*m)[i as int] == (*k, *v),
            None => i >= node_entries(*m).len(),
        },
{
    m.get_index(i)
}

/// A mutable reference to the node stored for a key, if any.
#[verifier::external_body]
fn nodes_get_mut<'a>(m: &'a mut IndexMap<NodeId, Node>, k: &NodeId) -> (r: Option<&'a mut Node>)
    ensures
        match r {
            Some(v) => key_index(node_entries(*old(m)), *k) matches Some(i)
                && node_entries(*old(m))[i].1 == *v
                && node_entries(*final(m)) == node_entries(*old(m)).update(i, (*k, *final(v))),
            None => key_index(node_entries(*old(m)), *k) is None && *final(m) == *old(m),
        },
{
    m.get_mut(k)
}

/// The entries of a node map, in order, taken out of the map.
#[verifier::external_body]
fn nodes_into_entries(m: IndexMap<NodeId, Node>) -> (r: Vec<(NodeId, Node)>)
    ensures
        r@ == node_entries(m),
{
    m.into_iter().collect()
}

/// A new, empty type map.
#[verifier::external_body]
fn types_new() -> (r: IndexMap<TypeId, Type>)
    ensures
        type_entries(r) == Seq::<(TypeId, Type)>::empty(),
{
    IndexMap::new()
}

/// Inserts a type into a type map, returning the value previously stored
/// for the key.
#[verifier::external_body]
fn types_insert(m: &mut IndexMap<TypeId, Type>, k: TypeId, v: Type) -> (r: Option<Type>)
    ensures
        type_entries(*final(m)) == entries_insert(type_entries(*old(m)), k, v),
        r == entries_get(type_entries(*old(m)), k),
{
    m.insert(k, v)
}

/// The type stored for a key, if any.
#[verifier::external_body]
fn types_get<'a>(m: &'a IndexMap<TypeId, Type>, k: &TypeId) -> (r: Option<&'a Type>)
    ensures
        match r {
            Some(v) => entries_get(type_entries(*m), *k) == Some(*v),
            None => entries_get(type_entries(*m), *k) is None,
        },
{
    m.get(k)
}

/// The entries of a type map, in order, taken out of the map.
#[verifier::external_body]
fn types_into_entries(m: IndexMap<TypeId, Type>) -> (r: Vec<(TypeId, Type)>)
    ensures
        r@ == type_entries(m),
{
    m.into_iter().collect()
}

} // verus!

verus! {

/// Why a lookup in the HIR map failed.
#[derive(Debug, Clone, Copy, PartialEq, Eq)]
pub enum MapError {
    NodeNotFound(NodeId),
    TypeNotFound(TypeId),
    TypeDefinitionNotFound(NodeId),
    TypeParameterNotFound(NodeId),
    TypeVariableNotFound(NodeId),
    ParameterNotFound(NodeId),
    StatementNotFound(NodeId),
    ExpressionNotFound(NodeId),
    PatternNotFound(NodeId),
}

/// All nodes, types, language items and imports of a package.
#[derive(Debug)]
pub struct HirMap {
    /// The package which the map belongs to.
    pub package: PackageId,
    /// All nodes, in the order they were added.
    pub nodes: IndexMap<NodeId, Node>,
    /// All named types, in the order they were added.
    pub types: IndexMap<TypeId, Type>,
    /// The language items defined within the map.
    pub lang_items: LanguageItems,
    /// All imported paths.
    pub imports: Vec<Path>,
}

impl HirMap {
    /// The keys of both maps are distinct and the language items are
    /// well-formed.
    pub open spec fn well_formed(&self) -> bool {
        &&& distinct_keys(node_entries(self.nodes))
        &&& distinct_keys(type_entries(self.types))
        &&& self.lang_items.well_formed()
    }

    /// All nodes of the map, in insertion order.
    pub fn nodes(&self) -> (r: &IndexMap<NodeId, Node>)
        ensures
            *r == self.nodes,
    {
        &self.nodes
    }

    /// The number of nodes in the map.
    pub fn node_count(&self) -> (r: usize)
        ensures
            r == node_entries(self.nodes).len(),
    {
        nodes_len(&self.nodes)
    }

    /// The identifier and node at position `i` of the insertion order.
    pub fn node_entry(&self, i: usize) -> (r: Option<(NodeId, &Node)>)
        ensures
            match r {
                Some((k, v)) => i < node_entries(self.nodes).len() && node_entries(self.nodes)[i as int] == (k, *v),
                None => i >= node_entries(self.nodes).len(),
            },
    {
        match nodes_get_index(&self.nodes, i) {
            Some((k, v)) => Some((*k, v)),
            None => None,
        }
    }

    /// The node stored for `id`, if any.
    pub open spec fn spec_node(&self, id: NodeId) -> Option<Node> {
        entries_get(node_entries(self.nodes), id)
    }

    /// The type stored for `id`, if any.
    pub open spec fn spec_type(&self, id: TypeId) -> Option<Type> {
        entries_get(type_entries(self.types), id)
    }

    /// A map of the given package without any content.
    pub fn empty(package: PackageId) -> (r: HirMap)
        ensures
            r.well_formed(),
            r.package == package,
            node_entries(r.nodes) == Seq::<(NodeId, Node)>::empty(),
            type_entries(r.types) == Seq::<(TypeId, Type)>::empty(),
            r.lang_items@ == vstd::map::Map::<crate::lang::LangItem, NodeId>::empty(),
            r.imports@ == Seq::<Path>::empty(),
    {
        HirMap {
            package,
            nodes: nodes_new(),
            types: types_new(),
            lang_items: LanguageItems::new(),
            imports: Vec::new(),
        }
    }

    /// Adds a node, replacing any node stored for the same identifier.
    pub fn insert_node(&mut self, id: NodeId, node: Node) -> (r: Option<Node>)
        requires
            old(self).well_formed(),
        ensures
            final(self).well_formed(),
            node_entries(final(self).nodes) == entries_insert(node_entries(old(self).nodes), id, node),
            r == old(self).spec_node(id),
            final(self).package == old(self).package,
            final(self).types == old(self).types,
            final(self).lang_items == old(self).lang_items,
            final(self).imports == old(self).imports,
    {
        proof {
            lemma_insert_distinct(node_entries(self.nodes), id, node);
        }
        nodes_insert(&mut self.nodes, id, node)
    }

    /// Adds a type, replacing any type stored for the same identifier.
    pub fn insert_type(&mut self, id: TypeId, ty: Type) -> (r: Option<Type>)
        requires
            old(self).well_formed(),
        ensures
            final(self).well_formed(),
            type_entries(final(self).types) == entries_insert(type_entries(old(self).types), id, ty),
            r == old(self).spec_type(id),
            final(self).package == old(self).package,
            final(self).nodes == old(self).nodes,
            final(self).lang_items == old(self).lang_items,
            final(self).imports == old(self).imports,
    {
        proof {
            lemma_insert_distinct(type_entries(self.types), id, ty);
        }
        types_insert(&mut self.types, id, ty)
    }

    /// Merges the nodes, types and language items of this map into
    /// `target`, in order; entries of `self` replace those of `target`
    /// with the same identifier. Imports are not merged.
    pub fn merge_into(self, target: &mut HirMap)
        requires
            self.well_formed(),
            old(target).well_formed(),
        ensures
            final(target).well_formed(),
            node_entries(final(target).nodes) == insert_all(node_entries(old(target).nodes), node_entries(self.nodes)),
            type_entries(final(target).types) == insert_all(type_entries(old(target).types), type_entries(self.types)),
            final(target).lang_items@ == old(target).lang_items@.union_prefer_right(self.lang_items@),
            final(target).package == old(target).package,
            final(target).imports == old(target).imports,
    {
        let HirMap { package: _, nodes, types, lang_items, imports: _ } = self;
        let node_list = nodes_into_entries(nodes);
        let ghost ne = node_list@;
        let ghost start_nodes = node_entries(target.nodes);
        for e in it: node_list
            invariant
                target.well_formed(),
                it.seq() == ne,
                node_entries(target.nodes) == insert_all(start_nodes, ne.subrange(0, it.index() as int)),
                target.package == old(target).package,
                target.imports == old(target).imports,
                target.lang_items == old(target).lang_items,
                target.types == old(target).types,
        {
            let ghost k = it.index();
            let ghost prev = node_entries(target.nodes);
            proof {
                assert(e == ne[k]);
                assert(ne.subrange(0, k + 1).drop_last() =~= ne.subrange(0, k));
            }
            let (id, node) = e;
            target.insert_node(id, node);
            proof {
                assert(ne.subrange(0, k + 1).last() == ne[k]);
                assert(node_entries(target.nodes) == insert_all(start_nodes, ne.subrange(0, k + 1)));
            }
        }
        proof {
            assert(ne.subrange(0, ne.len() as int) =~= ne);
        }
        let type_list = types_into_entries(types);
        let ghost te = type_list@;
        let ghost start_types = type_entries(target.types);
        let ghost final_nodes = target.nodes;
        for e in it: type_list
            invariant
                target.well_formed(),
                it.seq() == te,
                type_entries(target.types) == insert_all(start_types, te.subrange(0, it.index() as int)),
                target.package == old(target).package,
                target.imports == old(target).imports,
                target.lang_items == old(target).lang_items,
                target.nodes == final_nodes,
        {
            let ghost k = it.index();
            let ghost prev = type_entries(target.types);
            proof {
                assert(e == te[k]);
                assert(te.subrange(0, k + 1).drop_last() =~= te.subrange(0, k));
            }
            let (id, ty) = e;
            target.insert_type(id, ty);
            proof {
                assert(te.subrange(0, k + 1).last() == te[k]);
                assert(type_entries(target.types) == insert_all(start_types, te.subrange(0, k + 1)));
            }
        }
        proof {
            assert(te.subrange(0, te.len() as int) =~= te);
        }
        lang_items.merge_into(&mut target.lang_items);
    }
}

} // verus!

verus! {

impl HirMap {
    /// The node stored for `id`, if any.
    pub fn node(&self, id: NodeId) -> (r: Option<&Node>)
        ensures
            match r {
                Some(n) => self.spec_node(id) == Some(*n),
                None => self.spec_node(id) is None,
            },
    {
        nodes_get(&self.nodes, &id)
    }

    /// The node stored for `id`.
    pub fn expect_node(&self, id: NodeId) -> (r: Result<&Node, MapError>)
        ensures
            match r {
                Ok(n) => self.spec_node(id) == Some(*n),
                Err(e) => self.spec_node(id) is None && e == MapError::NodeNotFound(id),
            },
    {
        match self.node(id) {
            Some(n) => Ok(n),
            None => Err(MapError::NodeNotFound(id)),
        }
    }

    /// The type stored for `id`, if any.
    pub fn type_(&self, id: TypeId) -> (r: Option<&Type>)
        ensures
            match r {
                Some(t) => self.spec_type(id) == Some(*t),
                None => self.spec_type(id) is None,
            },
    {
        types_get(&self.types, &id)
    }

    /// The type stored for `id`.
    pub fn expect_type(&self, id: TypeId) -> (r: Result<&Type, MapError>)
        ensures
            match r {
                Ok(t) => self.spec_type(id) == Some(*t),
                Err(e) => self.spec_type(id) is None && e == MapError::TypeNotFound(id),
            },
    {
        match self.type_(id) {
            Some(t) => Ok(t),
            None => Err(MapError::TypeNotFound(id)),
        }
    }

    /// The type definition stored for `id`, if the node is one.
    pub open spec fn spec_type_definition(&self, id: NodeId) -> Option<TypeDefinition> {
        match self.spec_node(id) {
            Some(Node::Type(def)) => Some(def),
            _ => None,
        }
    }

    /// The type definition stored for `id`, if the node is one.
    pub fn type_definition(&self, id: NodeId) -> (r: Option<&TypeDefinition>)
        ensures
            match r {
                Some(d) => self.spec_type_definition(id) == Some(*d),
                None => self.spec_type_definition(id) is None,
            },
    {
        match self.node(id) {
            Some(Node::Type(def)) => Some(def),
            _ => None,
        }
    }

    /// The type definition stored for `id`.
    pub fn expect_type_definition(&self, id: NodeId) -> (r: Result<&TypeDefinition, MapError>)
        ensures
            match r {
                Ok(d) => self.spec_type_definition(id) == Some(*d),
                Err(e) => self.spec_type_definition(id) is None && e == MapError::TypeDefinitionNotFound(id),
            },
    {
        match self.type_definition(id) {
            Some(d) => Ok(d),
            None => Err(MapError::TypeDefinitionNotFound(id)),
        }
    }

    /// The type parameter stored for `id`, if the node is one.
    pub open spec fn spec_type_parameter(&self, id: NodeId) -> Option<TypeParameter> {
        match self.spec_type_definition(id) {
            Some(TypeDefinition::TypeParameter(p)) => Some(*p),
            _ => None,
        }
    }

    /// The type parameter stored for `id`, if the node is one.
    pub fn type_parameter(&self, id: NodeId) -> (r: Option<&TypeParameter>)
        ensures
            match r {
                Some(p) => self.spec_type_parameter(id) == Some(*p),
                None => self.spec_type_parameter(id) is None,
            },
    {
        match self.type_definition(id) {
            Some(TypeDefinition::TypeParameter(p)) => Some(&**p),
            _ => None,
        }
    }

    /// The type parameter stored for `id`.
    pub fn expect_type_parameter(&self, id: NodeId) -> (r: Result<&TypeParameter, MapError>)
        ensures
            match r {
                Ok(p) => self.spec_type_parameter(id) == Some(*p),
                Err(e) => self.spec_type_parameter(id) is None && e == MapError::TypeParameterNotFound(id),
            },
    {
        match self.type_parameter(id) {
            Some(p) => Ok(p),
            None => Err(MapError::TypeParameterNotFound(id)),
        }
    }

    /// The type variable stored for `id`, if the node is one.
    pub open spec fn spec_type_variable(&self, id: NodeId) -> Option<TypeVariable> {
        match self.spec_node(id) {
            Some(Node::TypeVariable(v)) => Some(v),
            _ => None,
        }
    }

    /// The type variable stored for `id`, if the node is one.
    pub fn type_variable(&self, id: NodeId) -> (r: Option<&TypeVariable>)
        ensures
            match r {
                Some(v) => self.spec_type_variable(id) == Some(*v),
                None => self.spec_type_variable(id) is None,
            },
    {
        match self.node(id) {
            Some(Node::TypeVariable(v)) => Some(v),
            _ => None,
        }
    }

    /// The type variable stored for `id`.
    pub fn expect_type_variable(&self, id: NodeId) -> (r: Result<&TypeVariable, MapError>)
        ensures
            match r {
                Ok(v) => self.spec_type_variable(id) == Some(*v),
                Err(e) => self.spec_type_variable(id) is None && e == MapError::TypeVariableNotFound(id),
            },
    {
        match self.type_variable(id) {
            Some(v) => Ok(v),
            None => Err(MapError::TypeVariableNotFound(id)),
        }
    }

    /// The parameter stored for `id`, if the node is one.
    pub open spec fn spec_parameter(&self, id: NodeId) -> Option<Parameter> {
        match self.spec_node(id) {
            Some(Node::Parameter(p)) => Some(p),
            _ => None,
        }
    }

    /// The parameter stored for `id`, if the node is one.
    pub fn parameter(&self, id: NodeId) -> (r: Option<&Parameter>)
        ensures
            match r {
                Some(p) => self.spec_parameter(id) == Some(*p),
                None => self.spec_parameter(id) is None,
            },
    {
        match self.node(id) {
            Some(Node::Parameter(p)) => Some(p),
            _ => None,
        }
    }

    /// The parameter stored for `id`.
    pub fn expect_parameter(&self, id: NodeId) -> (r: Result<&Parameter, MapError>)
        ensures
            match r {
                Ok(p) => self.spec_parameter(id) == Some(*p),
                Err(e) => self.spec_parameter(id) is None && e == MapError::ParameterNotFound(id),
            },
    {
        match self.parameter(id) {
            Some(p) => Ok(p),
            None => Err(MapError::ParameterNotFound(id)),
        }
    }

    /// The statement stored for `id`, if the node is one.
    pub open spec fn spec_statement(&self, id: NodeId) -> Option<Statement> {
        match self.spec_node(id) {
            Some(Node::Statement(s)) => Some(s),
            _ => None,
        }
    }

    /// The statement stored for `id`, if the node is one.
    pub fn statement(&self, id: NodeId) -> (r: Option<&Statement>)
        ensures
            match r {
                Some(s) => self.spec_statement(id) == Some(*s),
                None => self.spec_statement(id) is None,
            },
    {
        match self.node(id) {
            Some(Node::Statement(s)) => Some(s),
            _ => None,
        }
    }

    /// The statement stored for `id`.
    pub fn expect_statement(&self, id: NodeId) -> (r: Result<&Statement, MapError>)
        ensures
            match r {
                Ok(s) => self.spec_statement(id) == Some(*s),
                Err(e) => self.spec_statement(id) is None && e == MapError::StatementNotFound(id),
            },
    {
        match self.statement(id) {
            Some(s) => Ok(s),
            None => Err(MapError::StatementNotFound(id)),
        }
    }

    /// The expression stored for `id`, if the node is one.
    pub open spec fn spec_expression(&self, id: NodeId) -> Option<Expression> {
        match self.spec_node(id) {
            Some(Node::Expression(e)) => Some(e),
            _ => None,
        }
    }

    /// The expression stored for `id`, if the node is one.
    pub fn expression(&self, id: NodeId) -> (r: Option<&Expression>)
        ensures
            match r {
                Some(e) => self.spec_expression(id) == Some(*e),
                None => self.spec_expression(id) is None,
            },
    {
        match self.node(id) {
            Some(Node::Expression(e)) => Some(e),
            _ => None,
        }
    }

    /// The expression stored for `id`.
    pub fn expect_expression(&self, id: NodeId) -> (r: Result<&Expression, MapError>)
        ensures
            match r {
                Ok(e) => self.spec_expression(id) == Some(*e),
                Err(e) => self.spec_expression(id) is None && e == MapError::ExpressionNotFound(id),
            },
    {
        match self.expression(id) {
            Some(e) => Ok(e),
            None => Err(MapError::ExpressionNotFound(id)),
        }
    }

    /// The expressions stored for all of `ids`, in order; fails on the
    /// first identifier which holds no expression.
    pub fn expect_expressions(&self, ids: &[NodeId]) -> (r: Result<Vec<&Expression>, MapError>)
        ensures
            match r {
                Ok(v) => v@.len() == ids@.len() && forall|i: int| 0 <= i < ids@.len() ==>
                    self.spec_expression(ids@[i]) == Some(*(#[trigger] v@[i])),
                Err(e) => exists|i: int| 0 <= i < ids@.len() && (forall|j: int| 0 <= j < i ==>
                    (#[trigger] self.spec_expression(ids@[j])) is Some) && self.spec_expression(ids@[i]) is None
                    && e == MapError::ExpressionNotFound(ids@[i]),
            },
    {
        let mut out: Vec<&Expression> = Vec::new();
        let mut i: usize = 0;
        while i < ids.len()
            invariant
                i <= ids@.len(),
                out@.len() == i,
                forall|j: int| 0 <= j < i ==> self.spec_expression(ids@[j]) == Some(*(#[trigger] out@[j])),
            decreases ids.len() - i,
        {
            match self.expect_expression(ids[i]) {
                Ok(e) => out.push(e),
                Err(err) => {
                    proof {
                        assert forall|j: int| 0 <= j < i implies (#[trigger] self.spec_expression(ids@[j])) is Some by {
                            assert(self.spec_expression(ids@[j]) == Some(*out@[j]));
                        }
                    }
                    return Err(err);
                },
            }
            i = i + 1;
        }
        Ok(out)
    }

    /// The pattern stored for `id`, if the node is one.
    pub open spec fn spec_pattern(&self, id: NodeId) -> Option<Pattern> {
        match self.spec_node(id) {
            Some(Node::Pattern(p)) => Some(p),
            _ => None,
        }
    }

    /// The pattern stored for `id`, if the node is one.
    pub fn pattern(&self, id: NodeId) -> (r: Option<&Pattern>)
        ensures
            match r {
                Some(p) => self.spec_pattern(id) == Some(*p),
                None => self.spec_pattern(id) is None,
            },
    {
        match self.node(id) {
            Some(Node::Pattern(p)) => Some(p),
            _ => None,
        }
    }

    /// The pattern stored for `id`.
    pub fn expect_pattern(&self, id: NodeId) -> (r: Result<&Pattern, MapError>)
        ensures
            match r {
                Ok(p) => self.spec_pattern(id) == Some(*p),
                Err(e) => self.spec_pattern(id) is None && e == MapError::PatternNotFound(id),
            },
    {
        match self.pattern(id) {
            Some(p) => Ok(p),
            None => Err(MapError::PatternNotFound(id)),
        }
    }

    /// All statements of the map, in insertion order.
    pub fn statements(&self) -> (r: Vec<&Statement>)
        ensures
            r@.map_values(|s: &Statement| *s) == statements_of(node_entries(self.nodes)),
    {
        let n = nodes_len(&self.nodes);
        let mut out: Vec<&Statement> = Vec::new();
        let mut i: usize = 0;
        while i < n
            invariant
                i <= n,
                n == node_entries(self.nodes).len(),
                out@.map_values(|s: &Statement| *s) == statements_of(node_entries(self.nodes).subrange(0, i as int)),
            decreases n - i,
        {
            let ghost e = node_entries(self.nodes);
            proof {
                assert(e.subrange(0, i + 1).drop_last() =~= e.subrange(0, i as int));
            }
            match nodes_get_index(&self.nodes, i) {
                Some((_, Node::Statement(s))) => {
                    let ghost before = out@;
                    out.push(s);
                    proof {
                        assert(out@.map_values(|s: &Statement| *s) =~= before.map_values(|s: &Statement| *s).push(*s));
                    }
                },
                _ => {},
            }
            i = i + 1;
        }
        proof {
            assert(node_entries(self.nodes).subrange(0, n as int) =~= node_entries(self.nodes));
        }
        out
    }

    /// All expressions of the map, in insertion order.
    pub fn expressions(&self) -> (r: Vec<&Expression>)
        ensures
            r@.map_values(|e: &Expression| *e) == expressions_of(node_entries(self.nodes)),
    {
        let n = nodes_len(&self.nodes);
        let mut out: Vec<&Expression> = Vec::new();
        let mut i: usize = 0;
        while i < n
            invariant
                i <= n,
                n == node_entries(self.nodes).len(),
                out@.map_values(|e: &Expression| *e) == expressions_of(node_entries(self.nodes).subrange(0, i as int)),
            decreases n - i,
        {
            let ghost e = node_entries(self.nodes);
            proof {
                assert(e.subrange(0, i + 1).drop_last() =~= e.subrange(0, i as int));
            }
            match nodes_get_index(&self.nodes, i) {
                Some((_, Node::Expression(x))) => {
                    let ghost before = out@;
                    out.push(x);
                    proof {
                        assert(out@.map_values(|e: &Expression| *e) =~= before.map_values(|e: &Expression| *e).push(*x));
                    }
                },
                _ => {},
            }
            i = i + 1;
        }
        proof {
            assert(node_entries(self.nodes).subrange(0, n as int) =~= node_entries(self.nodes));
        }
        out
    }

    /// The first import whose segment names match those of `name`.
    pub fn get_imported(&self, name: &Path) -> (r: Option<&Path>)
        ensures
            match r {
                Some(p) => exists|i: int| 0 <= i < self.imports@.len() && self.imports@[i] == *p
                    && p@.names_match(name@)
                    && forall|j: int| 0 <= j < i ==> !(#[trigger] self.imports@[j])@.names_match(name@),
                None => forall|j: int| 0 <= j < self.imports@.len() ==> !(#[trigger] self.imports@[j])@.names_match(name@),
            },
    {
        let mut i: usize = 0;
        while i < self.imports.len()
            invariant
                i <= self.imports@.len(),
                forall|j: int| 0 <= j < i ==> !(#[trigger] self.imports@[j])@.names_match(name@),
            decreases self.imports.len() - i,
        {
            if self.imports[i].is_name_match(name) {
                return Some(&self.imports[i]);
            }
            i = i + 1;
        }
        None
    }

    /// Whether the node belongs to the package of this map.
    pub fn is_local_node(&self, node: NodeId) -> (r: bool)
        ensures
            r == (node.package == self.package),
    {
        node.package == self.package
    }
}

/// The statements among the given entries, in order.
pub open spec fn statements_of(e: Seq<(NodeId, Node)>) -> Seq<Statement>
    decreases e.len(),
{
    if e.len() == 0 {
        Seq::empty()
    } else {
        let prev = statements_of(e.drop_last());
        match e.last().1 {
            Node::Statement(s) => prev.push(s),
            _ => prev,
        }
    }
}

/// The expressions among the given entries, in order.
pub open spec fn expressions_of(e: Seq<(NodeId, Node)>) -> Seq<Expression>
    decreases e.len(),
{
    if e.len() == 0 {
        Seq::empty()
    } else {
        let prev = expressions_of(e.drop_last());
        match e.last().1 {
            Node::Expression(x) => prev.push(x),
            _ => prev,
        }
    }
}

} // verus!

verus! {

impl HirMap {
    /// A mutable reference to the node stored for `id`, if any.
    pub fn node_mut(&mut self, id: NodeId) -> (r: Option<&mut Node>)
        requires
            old(self).well_formed(),
        ensures
            final(self).package == old(self).package,
            final(self).types == old(self).types,
            final(self).lang_items == old(self).lang_items,
            final(self).imports == old(self).imports,
            match r {
                Some(n) => key_index(node_entries(old(self).nodes), id) matches Some(i)
                    && old(self).spec_node(id) == Some(*n)
                    && node_entries(final(self).nodes) == node_entries(old(self).nodes).update(i, (id, *final(n))),
                None => old(self).spec_node(id) is None && final(self).nodes == old(self).nodes,
            },
    {
        nodes_get_mut(&mut self.nodes, &id)
    }

    /// A mutable reference to the statement stored for `id`, if the node is
    /// one.
    pub fn statement_mut(&mut self, id: NodeId) -> (r: Option<&mut Statement>)
        requires
            old(self).well_formed(),
        ensures
            final(self).package == old(self).package,
            final(self).types == old(self).types,
            final(self).lang_items == old(self).lang_items,
            final(self).imports == old(self).imports,
            match r {
                Some(s) => key_index(node_entries(old(self).nodes), id) matches Some(i)
                    && old(self).spec_statement(id) == Some(*s)
                    && node_entries(final(self).nodes) == node_entries(old(self).nodes).update(i, (id, Node::Statement(*final(s)))),
                None => old(self).spec_statement(id) is None && node_entries(final(self).nodes) == node_entries(old(self).nodes),
            },
    {
        proof {
            lemma_key_index(node_entries(self.nodes), id);
        }
        let ghost old_entries = node_entries(self.nodes);
        match self.node_mut(id) {
            Some(n) => match n {
                Node::Statement(s) => Some(s),
                _ => {
                    proof {
                        let i = key_index(old_entries, id).unwrap();
                        assert(old_entries.update(i, (id, *n)) =~= old_entries);
                    }
                    None
                },
            },
            None => None,
        }
    }

    /// A mutable reference to the expression stored for `id`, if the node is
    /// one.
    pub fn expression_mut(&mut self, id: NodeId) -> (r: Option<&mut Expression>)
        requires
            old(self).well_formed(),
        ensures
            final(self).package == old(self).package,
            final(self).types == old(self).types,
            final(self).lang_items == old(self).lang_items,
            final(self).imports == old(self).imports,
            match r {
                Some(s) => key_index(node_entries(old(self).nodes), id) matches Some(i)
                    && old(self).spec_expression(id) == Some(*s)
                    && node_entries(final(self).nodes) == node_entries(old(self).nodes).update(i, (id, Node::Expression(*final(s)))),
                None => old(self).spec_expression(id) is None && node_entries(final(self).nodes) == node_entries(old(self).nodes),
            },
    {
        proof {
            lemma_key_index(node_entries(self.nodes), id);
        }
        let ghost old_entries = node_entries(self.nodes);
        match self.node_mut(id) {
            Some(n) => match n {
                Node::Expression(s) => Some(s),
                _ => {
                    proof {
                        let i = key_index(old_entries, id).unwrap();
                        assert(old_entries.update(i, (id, *n)) =~= old_entries);
                    }
                    None
                },
            },
            None => None,
        }
    }
}

} // verus!

verus! {

/// Reading a key right after inserting it gives the inserted value.
pub proof fn law_lookup_after_insert<K, V>(e: Seq<(K, V)>, k: K, v: V)
    ensures
        entries_get(entries_insert(e, k, v), k) == Some(v),
{
    lemma_key_index(e, k);
    let f = entries_insert(e, k, v);
    match key_index(e, k) {
        Some(i) => {
            lemma_key_index(f, k);
            assert(f[i].0 == k);
            match key_index(f, k) {
                Some(j) => {
                    if j < i {
                        assert(f[j].0 == e[j].0);
                    }
                    if j > i {
                        assert(f[i].0 == k);
                    }
                },
                None => {
                    assert(f[i].0 == k);
                },
            }
        },
        None => {
            lemma_key_index(f, k);
            assert(f[e.len() as int].0 == k);
            match key_index(f, k) {
                Some(j) => {
                    if j < e.len() {
                        assert(f[j].0 == e[j].0);
                    }
                },
                None => {},
            }
        },
    }
}

/// Inserting a key leaves the values of all other keys as they were.
pub proof fn law_insert_keeps_other_keys<K, V>(e: Seq<(K, V)>, k: K, v: V, other: K)
    requires
        other != k,
    ensures
        entries_get(entries_insert(e, k, v), other) == entries_get(e, other),
{
    lemma_key_index(e, k);
    lemma_key_index(e, other);
    let f = entries_insert(e, k, v);
    lemma_key_index(f, other);
    match key_index(e, other) {
        Some(i) => {
            assert(f[i].0 == e[i].0);
            match key_index(f, other) {
                Some(j) => {
                    if j < i {
                        assert(f[j].0 == e[j].0);
                    }
                    if j > i {
                        assert(f[i].0 == other);
                    }
                    assert(f[i].1 == e[i].1);
                },
                None => {
                    assert(f[i].0 == other);
                },
            }
        },
        None => {
            match key_index(f, other) {
                Some(j) => {
                    if j < e.len() {
                        assert(f[j].0 == e[j].0);
                    } else {
                        assert(f[j].0 == k);
                    }
                },
                None => {},
            }
        },
    }
}

/// After merging, a key of the merged entries reads the merged value, and
/// every other key reads what the target held.
pub proof fn law_merge_prefers_merged<K, V>(target: Seq<(K, V)>, merged: Seq<(K, V)>, k: K)
    requires
        distinct_keys(merged),
    ensures
        entries_get(insert_all(target, merged), k) == match entries_get(merged, k) {
            Some(v) => Some(v),
            None => entries_get(target, k),
        },
    decreases merged.len(),
{
    if merged.len() > 0 {
        let rest = merged.drop_last();
        let last = merged.last();
        assert(distinct_keys(rest)) by {
            assert forall|i: int, j: int| 0 <= i < j < rest.len() implies #[trigger] rest[i].0 != #[trigger] rest[j].0 by {
                assert(rest[i] == merged[i] && rest[j] == merged[j]);
            }
        }
        law_merge_prefers_merged(target, rest, k);
        lemma_key_index(merged, k);
        lemma_key_index(rest, k);
        if last.0 == k {
            law_lookup_after_insert(insert_all(target, rest), k, last.1);
            lemma_key_index_unique(merged, k, merged.len() - 1);
        } else {
            law_insert_keeps_other_keys(insert_all(target, rest), last.0, last.1, k);
            match key_index(rest, k) {
                Some(i) => {
                    assert(merged[i] == rest[i]);
                    lemma_key_index_unique(merged, k, i);
                },
                None => {
                    match key_index(merged, k) {
                        Some(j) => {
                            if j < rest.len() {
                                assert(rest[j] == merged[j]);
                            }
                        },
                        None => {},
                    }
                },
            }
        }
    }
}

} // verus!

verus! {

/// A node inserted into the map is the node then stored for its
/// identifier, and every other identifier keeps its node.
pub proof fn law_node_after_insert_node(before: HirMap, after: HirMap, id: NodeId, node: Node, other: NodeId)
    requires
        node_entries(after.nodes) == entries_insert(node_entries(before.nodes), id, node),
    ensures
        after.spec_node(id) == Some(node),
        other != id ==> after.spec_node(other) == before.spec_node(other),
{
    law_lookup_after_insert(node_entries(before.nodes), id, node);
    if other != id {
        law_insert_keeps_other_keys(node_entries(before.nodes), id, node, other);
    }
}

/// After one map is merged into another, a node of the merged map is the
/// node stored for its identifier; every other identifier keeps the node
/// of the target.
pub proof fn law_merge_into_nodes(source: HirMap, before: HirMap, after: HirMap, id: NodeId)
    requires
        source.well_formed(),
        node_entries(after.nodes) == insert_all(node_entries(before.nodes), node_entries(source.nodes)),
    ensures
        after.spec_node(id) == match source.spec_node(id) {
            Some(n) => Some(n),
            None => before.spec_node(id),
        },
{
    law_merge_prefers_merged(node_entries(before.nodes), node_entries(source.nodes), id);
}

} // verus!
