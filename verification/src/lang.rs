//! Language items: standard library definitions which the compiler itself
//! refers to.
use vstd::prelude::*;

use crate::span::NodeId;

verus! {

/// All language items implemented in the Lume standard library.
#[derive(Debug, Clone, Copy, PartialEq, Eq, Structural, Hash)]
pub enum LangItem {
    /// The `never` language item.
    Never,
    /// The `type_of` language item.
    TypeOf,
    /// The `type_of_value` language item.
    TypeOfValue,
    /// The `lookup_method` language item.
    MethodLookup,
    /// The `array` language item.
    Array,
    /// The `array_with_capacity` language item.
    ArrayWithCapacity,
    /// The `array_push` language item.
    ArrayPush,
    /// The `string_from_ptr` language item.
    StringFromPtr,
    /// The `string_eq` language item.
    StringEq,
    /// The `iterator` language item.
    Iterator,
    /// The `next` language item.
    Next,
    /// The `add_trait` language item.
    Add,
    /// The `sub_trait` language item.
    Sub,
    /// The `mul_trait` language item.
    Mul,
    /// The `div_trait` language item.
    Div,
    /// The `and_trait` language item.
    And,
    /// The `or_trait` language item.
    Or,
    /// The `not_trait` language item.
    Not,
    /// The `negate_trait` language item.
    Negate,
    /// The `band_trait` language item.
    BinaryAnd,
    /// The `bor_trait` language item.
    BinaryOr,
    /// The `bxor_trait` language item.
    BinaryXor,
    /// The `cast_trait` language item.
    Cast,
    /// The `equal_trait` language item.
    Equal,
    /// The `cmp_trait` language item.
    Compare,
    /// The `dispose_trait` language item.
    Dispose,
}

/// The key which names each language item in attributes.
pub open spec fn spec_key(item: LangItem) -> Seq<char> {
    match item {
        LangItem::Never => "never"@,
        LangItem::TypeOf => "type_of"@,
        LangItem::TypeOfValue => "type_of_value"@,
        LangItem::MethodLookup => "lookup_method"@,
        LangItem::Array => "array"@,
        LangItem::ArrayWithCapacity => "array_with_capacity"@,
        LangItem::ArrayPush => "array_push"@,
        LangItem::StringFromPtr => "string_from_ptr"@,
        LangItem::StringEq => "string_eq"@,
        LangItem::Iterator => "iterator"@,
        LangItem::Next => "next"@,
        LangItem::Add => "add_trait"@,
        LangItem::Sub => "sub_trait"@,
        LangItem::Mul => "mul_trait"@,
        LangItem::Div => "div_trait"@,
        LangItem::And => "and_trait"@,
        LangItem::Or => "or_trait"@,
        LangItem::Not => "not_trait"@,
        LangItem::Negate => "negate_trait"@,
        LangItem::BinaryAnd => "band_trait"@,
        LangItem::BinaryOr => "bor_trait"@,
        LangItem::BinaryXor => "bxor_trait"@,
        LangItem::Cast => "cast_trait"@,
        LangItem::Equal => "equal_trait"@,
        LangItem::Compare => "cmp_trait"@,
        LangItem::Dispose => "dispose_trait"@,
    }
}

/// The language item named by the given key, if any.
pub open spec fn spec_from_name(name: Seq<char>) -> Option<LangItem> {
    if name == "never"@ {
        Some(LangItem::Never)
    } else if name == "type_of"@ {
        Some(LangItem::TypeOf)
    } else if name == "type_of_value"@ {
        Some(LangItem::TypeOfValue)
    } else if name == "lookup_method"@ {
        Some(LangItem::MethodLookup)
    } else if name == "array"@ {
        Some(LangItem::Array)
    } else if name == "array_with_capacity"@ {
        Some(LangItem::ArrayWithCapacity)
    } else if name == "array_push"@ {
        Some(LangItem::ArrayPush)
    } else if name == "string_from_ptr"@ {
        Some(LangItem::StringFromPtr)
    } else if name == "string_eq"@ {
        Some(LangItem::StringEq)
    } else if name == "iterator"@ {
        Some(LangItem::Iterator)
    } else if name == "next"@ {
        Some(LangItem::Next)
    } else if name == "add_trait"@ {
        Some(LangItem::Add)
    } else if name == "sub_trait"@ {
        Some(LangItem::Sub)
    } else if name == "mul_trait"@ {
        Some(LangItem::Mul)
    } else if name == "div_trait"@ {
        Some(LangItem::Div)
    } else if name == "and_trait"@ {
        Some(LangItem::And)
    } else if name == "or_trait"@ {
        Some(LangItem::Or)
    } else if name == "not_trait"@ {
        Some(LangItem::Not)
    } else if name == "negate_trait"@ {
        Some(LangItem::Negate)
    } else if name == "band_trait"@ {
        Some(LangItem::BinaryAnd)
    } else if name == "bor_trait"@ {
        Some(LangItem::BinaryOr)
    } else if name == "bxor_trait"@ {
        Some(LangItem::BinaryXor)
    } else if name == "cast_trait"@ {
        Some(LangItem::Cast)
    } else if name == "equal_trait"@ {
        Some(LangItem::Equal)
    } else if name == "cmp_trait"@ {
        Some(LangItem::Compare)
    } else if name == "dispose_trait"@ {
        Some(LangItem::Dispose)
    } else {
        None
    }
}

impl LangItem {
    /// The language item with the given key, if any.
    pub fn from_name(name: &str) -> (r: Option<LangItem>)
        ensures
            r == spec_from_name(name@),
    {
        if crate::hir::path::str_eq(name, "never") {
            return Some(LangItem::Never);
        }
        if crate::hir::path::str_eq(name, "type_of") {
            return Some(LangItem::TypeOf);
        }
        if crate::hir::path::str_eq(name, "type_of_value") {
            return Some(LangItem::TypeOfValue);
        }
        if crate::hir::path::str_eq(name, "lookup_method") {
            return Some(LangItem::MethodLookup);
        }
        if crate::hir::path::str_eq(name, "array") {
            return Some(LangItem::Array);
        }
        if crate::hir::path::str_eq(name, "array_with_capacity") {
            return Some(LangItem::ArrayWithCapacity);
        }
        if crate::hir::path::str_eq(name, "array_push") {
            return Some(LangItem::ArrayPush);
        }
        if crate::hir::path::str_eq(name, "string_from_ptr") {
            return Some(LangItem::StringFromPtr);
        }
        if crate::hir::path::str_eq(name, "string_eq") {
            return Some(LangItem::StringEq);
        }
        if crate::hir::path::str_eq(name, "iterator") {
            return Some(LangItem::Iterator);
        }
        if crate::hir::path::str_eq(name, "next") {
            return Some(LangItem::Next);
        }
        if crate::hir::path::str_eq(name, "add_trait") {
            return Some(LangItem::Add);
        }
        if crate::hir::path::str_eq(name, "sub_trait") {
            return Some(LangItem::Sub);
        }
        if crate::hir::path::str_eq(name, "mul_trait") {
            return Some(LangItem::Mul);
        }
        if crate::hir::path::str_eq(name, "div_trait") {
            return Some(LangItem::Div);
        }
        if crate::hir::path::str_eq(name, "and_trait") {
            return Some(LangItem::And);
        }
        if crate::hir::path::str_eq(name, "or_trait") {
            return Some(LangItem::Or);
        }
        if crate::hir::path::str_eq(name, "not_trait") {
            return Some(LangItem::Not);
        }
        if crate::hir::path::str_eq(name, "negate_trait") {
            return Some(LangItem::Negate);
        }
        if crate::hir::path::str_eq(name, "band_trait") {
            return Some(LangItem::BinaryAnd);
        }
        if crate::hir::path::str_eq(name, "bor_trait") {
            return Some(LangItem::BinaryOr);
        }
        if crate::hir::path::str_eq(name, "bxor_trait") {
            return Some(LangItem::BinaryXor);
        }
        if crate::hir::path::str_eq(name, "cast_trait") {
            return Some(LangItem::Cast);
        }
        if crate::hir::path::str_eq(name, "equal_trait") {
            return Some(LangItem::Equal);
        }
        if crate::hir::path::str_eq(name, "cmp_trait") {
            return Some(LangItem::Compare);
        }
        if crate::hir::path::str_eq(name, "dispose_trait") {
            return Some(LangItem::Dispose);
        }
        None
    }

    /// The human-readable name of the language item.
    pub fn to_string(&self) -> (r: String)
        ensures
            r@ == match *self {
                LangItem::Never => "Never"@,
                LangItem::TypeOf => "type_of"@,
                LangItem::TypeOfValue => "type_of_value"@,
                LangItem::MethodLookup => "find_method_on"@,
                LangItem::Array => "Array"@,
                LangItem::ArrayWithCapacity => "Array::with_capacity"@,
                LangItem::ArrayPush => "Array::push"@,
                LangItem::StringFromPtr => "String::from_ptr"@,
                LangItem::StringEq => "String::eq"@,
                LangItem::Iterator => "Iterator"@,
                LangItem::Next => "Iterator::next"@,
                LangItem::Add => "Add"@,
                LangItem::Sub => "Sub"@,
                LangItem::Mul => "Mul"@,
                LangItem::Div => "Div"@,
                LangItem::And => "And"@,
                LangItem::Or => "Or"@,
                LangItem::Not => "Not"@,
                LangItem::Negate => "Negate"@,
                LangItem::BinaryAnd => "BinaryAnd"@,
                LangItem::BinaryOr => "BinaryOr"@,
                LangItem::BinaryXor => "BinaryXor"@,
                LangItem::Cast => "Cast"@,
                LangItem::Equal => "Equal"@,
                LangItem::Compare => "Compare"@,
                LangItem::Dispose => "Dispose"@,
            },
    {
        match *self {
            LangItem::Never => "Never".to_string(),
            LangItem::TypeOf => "type_of".to_string(),
            LangItem::TypeOfValue => "type_of_value".to_string(),
            LangItem::MethodLookup => "find_method_on".to_string(),
            LangItem::Array => "Array".to_string(),
            LangItem::ArrayWithCapacity => "Array::with_capacity".to_string(),
            LangItem::ArrayPush => "Array::push".to_string(),
            LangItem::StringFromPtr => "String::from_ptr".to_string(),
            LangItem::StringEq => "String::eq".to_string(),
            LangItem::Iterator => "Iterator".to_string(),
            LangItem::Next => "Iterator::next".to_string(),
            LangItem::Add => "Add".to_string(),
            LangItem::Sub => "Sub".to_string(),
            LangItem::Mul => "Mul".to_string(),
            LangItem::Div => "Div".to_string(),
            LangItem::And => "And".to_string(),
            LangItem::Or => "Or".to_string(),
            LangItem::Not => "Not".to_string(),
            LangItem::Negate => "Negate".to_string(),
            LangItem::BinaryAnd => "BinaryAnd".to_string(),
            LangItem::BinaryOr => "BinaryOr".to_string(),
            LangItem::BinaryXor => "BinaryXor".to_string(),
            LangItem::Cast => "Cast".to_string(),
            LangItem::Equal => "Equal".to_string(),
            LangItem::Compare => "Compare".to_string(),
            LangItem::Dispose => "Dispose".to_string(),
        }
    }
}

/// Why a language item could not be registered.
#[derive(Debug, Clone, PartialEq, Eq)]
pub enum LangItemError {
    /// The item was already registered; it has been replaced nonetheless.
    AlreadyExists { item: LangItem, existing: NodeId, replaced_with: NodeId },
    /// No language item has the given key.
    UnknownName { name: String },
}

/// The language items defined within a HIR map.
#[derive(Debug)]
pub struct LanguageItems {
    items: Vec<(LangItem, NodeId)>,
}

/// The item defined by the first entry for `item`, if any.
pub open spec fn lookup_item(entries: Seq<(LangItem, NodeId)>, item: LangItem) -> Option<NodeId>
    decreases entries.len(),
{
    if entries.len() == 0 {
        None
    } else if entries[0].0 == item {
        Some(entries[0].1)
    } else {
        lookup_item(entries.drop_first(), item)
    }
}

/// Whether no two entries define the same item.
pub open spec fn distinct_items(entries: Seq<(LangItem, NodeId)>) -> bool {
    forall|i: int, j: int| 0 <= i < j < entries.len() ==> #[trigger] entries[i].0 != #[trigger] entries[j].0
}

/// An entry of `entries` defines `item` exactly when the lookup finds it.
proof fn lemma_lookup_item(entries: Seq<(LangItem, NodeId)>, item: LangItem)
    requires
        distinct_items(entries),
    ensures
        forall|i: int| 0 <= i < entries.len() && #[trigger] entries[i].0 == item ==> lookup_item(entries, item) == Some(entries[i].1),
        lookup_item(entries, item) is None ==> forall|i: int| 0 <= i < entries.len() ==> #[trigger] entries[i].0 != item,
        lookup_item(entries, item) is Some ==> exists|i: int| 0 <= i < entries.len() && #[trigger] entries[i].0 == item
            && lookup_item(entries, item) == Some(entries[i].1),
    decreases entries.len(),
{
    if entries.len() > 0 {
        let rest = entries.drop_first();
        assert forall|i: int, j: int| 0 <= i < j < rest.len() implies #[trigger] rest[i].0 != #[trigger] rest[j].0 by {
            assert(rest[i] == entries[i + 1] && rest[j] == entries[j + 1]);
        }
        lemma_lookup_item(rest, item);
        assert forall|i: int| 0 <= i < entries.len() && #[trigger] entries[i].0 == item implies lookup_item(entries, item) == Some(entries[i].1) by {
            if i > 0 {
                assert(rest[i - 1] == entries[i]);
                assert(entries[0].0 != entries[i].0);
            }
        }
        if lookup_item(entries, item) is None {
            assert forall|i: int| 0 <= i < entries.len() implies #[trigger] entries[i].0 != item by {
                if i > 0 {
                    assert(rest[i - 1] == entries[i]);
                }
            }
        } else if entries[0].0 == item {
            assert(entries[0].0 == item);
        } else {
            let w = choose|w: int| 0 <= w < rest.len() && #[trigger] rest[w].0 == item
                && lookup_item(rest, item) == Some(rest[w].1);
            assert(entries[w + 1] == rest[w]);
        }
    }
}

impl View for LanguageItems {
    type V = Map<LangItem, NodeId>;

    closed spec fn view(&self) -> Map<LangItem, NodeId> {
        Map::new(|k: LangItem| lookup_item(self.items@, k) is Some, |k: LangItem| lookup_item(self.items@, k).unwrap())
    }
}

impl LanguageItems {
    /// Every item is defined at most once.
    pub closed spec fn well_formed(&self) -> bool {
        distinct_items(self.items@)
    }

    /// An empty set of language items.
    pub fn new() -> (r: LanguageItems)
        ensures
            r.well_formed(),
            r@ == Map::<LangItem, NodeId>::empty(),
    {
        let r = LanguageItems { items: Vec::new() };
        proof {
            assert(r@ =~= Map::<LangItem, NodeId>::empty());
        }
        r
    }

    /// The position of the entry for `item`, if any.
    fn position(&self, item: LangItem) -> (r: Option<usize>)
        requires
            self.well_formed(),
        ensures
            match r {
                Some(i) => i < self.items@.len() && self.items@[i as int].0 == item,
                None => forall|i: int| 0 <= i < self.items@.len() ==> #[trigger] self.items@[i].0 != item,
            },
    {
        let mut i: usize = 0;
        while i < self.items.len()
            invariant
                i <= self.items@.len(),
                forall|j: int| 0 <= j < i ==> #[trigger] self.items@[j].0 != item,
            decreases self.items.len() - i,
        {
            if self.items[i].0 == item {
                return Some(i);
            }
            i = i + 1;
        }
        None
    }

    /// Defines `item` as `node`, returning the previous definition.
    fn insert(&mut self, item: LangItem, node: NodeId) -> (r: Option<NodeId>)
        requires
            old(self).well_formed(),
        ensures
            final(self).well_formed(),
            final(self)@ == old(self)@.insert(item, node),
            r == old(self)@.get(item),
    {
        proof {
            lemma_lookup_item(self.items@, item);
        }
        let ghost old_items = self.items@;
        match self.position(item) {
            Some(i) => {
                let existing = self.items[i].1;
                self.items.set(i, (item, node));
                proof {
                    let e = self.items@;
                    assert(distinct_items(e)) by {
                        assert forall|a: int, b: int| 0 <= a < b < e.len() implies #[trigger] e[a].0 != #[trigger] e[b].0 by {
                            assert(old_items[a].0 != old_items[b].0);
                        }
                    }
                    assert forall|k: LangItem| #[trigger] lookup_item(e, k) == old(self)@.insert(item, node).get(k) by {
                        lemma_lookup_item(e, k);
                        lemma_lookup_item(old_items, k);
                        if k == item {
                            assert(e[i as int].0 == k);
                        } else {
                            if lookup_item(old_items, k) is Some {
                                let w = choose|w: int| 0 <= w < old_items.len() && old_items[w].0 == k;
                                assert(e[w].0 == k);
                            }
                            if lookup_item(e, k) is Some {
                                let w = choose|w: int| 0 <= w < e.len() && e[w].0 == k;
                                assert(old_items[w].0 == k);
                            }
                        }
                    }
                    assert(self@ =~= old(self)@.insert(item, node));
                }
                Some(existing)
            },
            None => {
                self.items.push((item, node));
                proof {
                    let e = self.items@;
                    assert(distinct_items(e)) by {
                        assert forall|a: int, b: int| 0 <= a < b < e.len() implies #[trigger] e[a].0 != #[trigger] e[b].0 by {
                            if b < old_items.len() {
                                assert(old_items[a].0 != old_items[b].0);
                            }
                        }
                    }
                    assert forall|k: LangItem| #[trigger] lookup_item(e, k) == old(self)@.insert(item, node).get(k) by {
                        lemma_lookup_item(e, k);
                        lemma_lookup_item(old_items, k);
                        if k == item {
                            assert(e[e.len() - 1].0 == k);
                        } else {
                            if lookup_item(old_items, k) is Some {
                                let w = choose|w: int| 0 <= w < old_items.len() && old_items[w].0 == k;
                                assert(e[w].0 == k);
                            }
                            if lookup_item(e, k) is Some {
                                let w = choose|w: int| 0 <= w < e.len() && e[w].0 == k;
                                assert(w < old_items.len());
                                assert(old_items[w].0 == k);
                            }
                        }
                    }
                    assert(self@ =~= old(self)@.insert(item, node));
                }
                None
            },
        }
    }

    /// Merges these language items into `target`; definitions in `self`
    /// replace those of `target`.
    pub fn merge_into(self, target: &mut LanguageItems)
        requires
            self.well_formed(),
            old(target).well_formed(),
        ensures
            final(target).well_formed(),
            final(target)@ == old(target)@.union_prefer_right(self@),
    {
        let mut i: usize = 0;
        while i < self.items.len()
            invariant
                i <= self.items@.len(),
                self.well_formed(),
                target.well_formed(),
                target@ == old(target)@.union_prefer_right(
                    Map::new(
                        |k: LangItem| lookup_item(self.items@.subrange(0, i as int), k) is Some,
                        |k: LangItem| lookup_item(self.items@.subrange(0, i as int), k).unwrap(),
                    ),
                ),
            decreases self.items.len() - i,
        {
            let (item, node) = self.items[i];
            let ghost before = target@;
            target.insert(item, node);
            proof {
                let e = self.items@;
                let p = e.subrange(0, i as int);
                let q = e.subrange(0, i + 1);
                assert(distinct_items(q)) by {
                    assert forall|a: int, b: int| 0 <= a < b < q.len() implies #[trigger] q[a].0 != #[trigger] q[b].0 by {
                        assert(q[a] == e[a] && q[b] == e[b]);
                    }
                }
                assert(distinct_items(p)) by {
                    assert forall|a: int, b: int| 0 <= a < b < p.len() implies #[trigger] p[a].0 != #[trigger] p[b].0 by {
                        assert(p[a] == e[a] && p[b] == e[b]);
                    }
                }
                assert forall|k: LangItem| #[trigger] lookup_item(q, k) == (if k == item { Some(node) } else { lookup_item(p, k) }) by {
                    lemma_lookup_item(q, k);
                    lemma_lookup_item(p, k);
                    if k == item {
                        assert(q[i as int].0 == k);
                    } else {
                        if lookup_item(p, k) is Some {
                            let w = choose|w: int| 0 <= w < p.len() && p[w].0 == k;
                            assert(q[w] == p[w]);
                        }
                        if lookup_item(q, k) is Some {
                            let w = choose|w: int| 0 <= w < q.len() && q[w].0 == k;
                            assert(w < p.len());
                            assert(q[w] == p[w]);
                        }
                    }
                }
                assert(target@ =~= old(target)@.union_prefer_right(
                    Map::new(
                        |k: LangItem| lookup_item(q, k) is Some,
                        |k: LangItem| lookup_item(q, k).unwrap(),
                    ),
                ));
            }
            i = i + 1;
        }
        proof {
            assert(self.items@.subrange(0, self.items@.len() as int) =~= self.items@);
            assert(Map::new(
                |k: LangItem| lookup_item(self.items@, k) is Some,
                |k: LangItem| lookup_item(self.items@, k).unwrap(),
            ) =~= self@);
        }
    }

    /// Defines `item` as `node`. The definition is recorded in either case;
    /// when the item was already defined, the previous definition is
    /// replaced and an error reports both.
    pub fn add(&mut self, item: LangItem, node: NodeId) -> (r: Result<(), LangItemError>)
        requires
            old(self).well_formed(),
        ensures
            final(self).well_formed(),
            final(self)@ == old(self)@.insert(item, node),
            match r {
                Ok(()) => !old(self)@.contains_key(item),
                Err(e) => old(self)@.contains_key(item) && e == (LangItemError::AlreadyExists {
                    item,
                    existing: old(self)@[item],
                    replaced_with: node,
                }),
            },
    {
        match self.insert(item, node) {
            Some(existing) => Err(LangItemError::AlreadyExists { item, existing, replaced_with: node }),
            None => Ok(()),
        }
    }

    /// Defines the language item with the given key as `node`; unknown keys
    /// leave the items unchanged.
    pub fn add_name(&mut self, name: &str, node: NodeId) -> (r: Result<(), LangItemError>)
        requires
            old(self).well_formed(),
        ensures
            final(self).well_formed(),
            match spec_from_name(name@) {
                None => final(self)@ == old(self)@ && (r matches Err(LangItemError::UnknownName { name: n }) && n@ == name@),
                Some(item) => final(self)@ == old(self)@.insert(item, node) && match r {
                    Ok(()) => !old(self)@.contains_key(item),
                    Err(e) => old(self)@.contains_key(item) && e == (LangItemError::AlreadyExists {
                        item,
                        existing: old(self)@[item],
                        replaced_with: node,
                    }),
                },
            },
    {
        match LangItem::from_name(name) {
            Some(item) => self.add(item, node),
            None => Err(LangItemError::UnknownName { name: name.to_string() }),
        }
    }

    /// The node which defines `item`, if any.
    pub fn get(&self, item: LangItem) -> (r: Option<NodeId>)
        requires
            self.well_formed(),
        ensures
            r == self@.get(item),
    {
        proof {
            lemma_lookup_item(self.items@, item);
        }
        match self.position(item) {
            Some(i) => {
                proof {
                    assert(self@.contains_key(item));
                }
                Some(self.items[i].1)
            },
            None => {
                proof {
                    assert(!self@.contains_key(item));
                }
                None
            },
        }
    }
}

} // verus!

verus! {

/// Reading a language item's own key gives the item back.
#[verifier::spinoff_prover]
#[verifier::rlimit(100)]
pub proof fn law_key_names_item(item: LangItem)
    ensures
        spec_from_name(spec_key(item)) == Some(item),
{
    match item {
        LangItem::Never => {
            reveal_strlit("never");
            assert(spec_from_name("never"@) == Some(LangItem::Never));
        },
        LangItem::TypeOf => {
            reveal_strlit("type_of");
            reveal_strlit("never");
            assert("type_of"@.len() != "never"@.len());
            assert(spec_from_name("type_of"@) == Some(LangItem::TypeOf));
        },
        LangItem::TypeOfValue => {
            reveal_strlit("type_of_value");
            reveal_strlit("never");
            assert("type_of_value"@.len() != "never"@.len());
            reveal_strlit("type_of");
            assert("type_of_value"@.len() != "type_of"@.len());
            assert(spec_from_name("type_of_value"@) == Some(LangItem::TypeOfValue));
        },
        LangItem::MethodLookup => {
            reveal_strlit("lookup_method");
            reveal_strlit("never");
            assert("lookup_method"@.len() != "never"@.len());
            reveal_strlit("type_of");
            assert("lookup_method"@.len() != "type_of"@.len());
            reveal_strlit("type_of_value");
            assert("lookup_method"@[0] != "type_of_value"@[0]);
            assert(spec_from_name("lookup_method"@) == Some(LangItem::MethodLookup));
        },
        LangItem::Array => {
            reveal_strlit("array");
            reveal_strlit("never");
            assert("array"@[0] != "never"@[0]);
            reveal_strlit("type_of");
            assert("array"@.len() != "type_of"@.len());
            reveal_strlit("type_of_value");
            assert("array"@.len() != "type_of_value"@.len());
            reveal_strlit("lookup_method");
            assert("array"@.len() != "lookup_method"@.len());
            assert(spec_from_name("array"@) == Some(LangItem::Array));
        },
        LangItem::ArrayWithCapacity => {
            reveal_strlit("array_with_capacity");
            reveal_strlit("never");
            assert("array_with_capacity"@.len() != "never"@.len());
            reveal_strlit("type_of");
            assert("array_with_capacity"@.len() != "type_of"@.len());
            reveal_strlit("type_of_value");
            assert("array_with_capacity"@.len() != "type_of_value"@.len());
            reveal_strlit("lookup_method");
            assert("array_with_capacity"@.len() != "lookup_method"@.len());
            reveal_strlit("array");
            assert("array_with_capacity"@.len() != "array"@.len());
            assert(spec_from_name("array_with_capacity"@) == Some(LangItem::ArrayWithCapacity));
        },
        LangItem::ArrayPush => {
            reveal_strlit("array_push");
            reveal_strlit("never");
            assert("array_push"@.len() != "never"@.len());
            reveal_strlit("type_of");
            assert("array_push"@.len() != "type_of"@.len());
            reveal_strlit("type_of_value");
            assert("array_push"@.len() != "type_of_value"@.len());
            reveal_strlit("lookup_method");
            assert("array_push"@.len() != "lookup_method"@.len());
            reveal_strlit("array");
            assert("array_push"@.len() != "array"@.len());
            reveal_strlit("array_with_capacity");
            assert("array_push"@.len() != "array_with_capacity"@.len());
            assert(spec_from_name("array_push"@) == Some(LangItem::ArrayPush));
        },
        LangItem::StringFromPtr => {
            reveal_strlit("string_from_ptr");
            reveal_strlit("never");
            assert("string_from_ptr"@.len() != "never"@.len());
            reveal_strlit("type_of");
            assert("string_from_ptr"@.len() != "type_of"@.len());
            reveal_strlit("type_of_value");
            assert("string_from_ptr"@.len() != "type_of_value"@.len());
            reveal_strlit("lookup_method");
            assert("string_from_ptr"@.len() != "lookup_method"@.len());
            reveal_strlit("array");
            assert("string_from_ptr"@.len() != "array"@.len());
            reveal_strlit("array_with_capacity");
            assert("string_from_ptr"@.len() != "array_with_capacity"@.len());
            reveal_strlit("array_push");
            assert("string_from_ptr"@.len() != "array_push"@.len());
            assert(spec_from_name("string_from_ptr"@) == Some(LangItem::StringFromPtr));
        },
        LangItem::StringEq => {
            reveal_strlit("string_eq");
            reveal_strlit("never");
            assert("string_eq"@.len() != "never"@.len());
            reveal_strlit("type_of");
            assert("string_eq"@.len() != "type_of"@.len());
            reveal_strlit("type_of_value");
            assert("string_eq"@.len() != "type_of_value"@.len());
            reveal_strlit("lookup_method");
            assert("string_eq"@.len() != "lookup_method"@.len());
            reveal_strlit("array");
            assert("string_eq"@.len() != "array"@.len());
            reveal_strlit("array_with_capacity");
            assert("string_eq"@.len() != "array_with_capacity"@.len());
            reveal_strlit("array_push");
            assert("string_eq"@.len() != "array_push"@.len());
            reveal_strlit("string_from_ptr");
            assert("string_eq"@.len() != "string_from_ptr"@.len());
            assert(spec_from_name("string_eq"@) == Some(LangItem::StringEq));
        },
        LangItem::Iterator => {
            reveal_strlit("iterator");
            reveal_strlit("never");
            assert("iterator"@.len() != "never"@.len());
            reveal_strlit("type_of");
            assert("iterator"@.len() != "type_of"@.len());
            reveal_strlit("type_of_value");
            assert("iterator"@.len() != "type_of_value"@.len());
            reveal_strlit("lookup_method");
            assert("iterator"@.len() != "lookup_method"@.len());
            reveal_strlit("array");
            assert("iterator"@.len() != "array"@.len());
            reveal_strlit("array_with_capacity");
            assert("iterator"@.len() != "array_with_capacity"@.len());
            reveal_strlit("array_push");
            assert("iterator"@.len() != "array_push"@.len());
            reveal_strlit("string_from_ptr");
            assert("iterator"@.len() != "string_from_ptr"@.len());
            reveal_strlit("string_eq");
            assert("iterator"@.len() != "string_eq"@.len());
            assert(spec_from_name("iterator"@) == Some(LangItem::Iterator));
        },
        LangItem::Next => {
            reveal_strlit("next");
            reveal_strlit("never");
            assert("next"@.len() != "never"@.len());
            reveal_strlit("type_of");
            assert("next"@.len() != "type_of"@.len());
            reveal_strlit("type_of_value");
            assert("next"@.len() != "type_of_value"@.len());
            reveal_strlit("lookup_method");
            assert("next"@.len() != "lookup_method"@.len());
            reveal_strlit("array");
            assert("next"@.len() != "array"@.len());
            reveal_strlit("array_with_capacity");
            assert("next"@.len() != "array_with_capacity"@.len());
            reveal_strlit("array_push");
            assert("next"@.len() != "array_push"@.len());
            reveal_strlit("string_from_ptr");
            assert("next"@.len() != "string_from_ptr"@.len());
            reveal_strlit("string_eq");
            assert("next"@.len() != "string_eq"@.len());
            reveal_strlit("iterator");
            assert("next"@.len() != "iterator"@.len());
            assert(spec_from_name("next"@) == Some(LangItem::Next));
        },
        LangItem::Add => {
            reveal_strlit("add_trait");
            reveal_strlit("never");
            assert("add_trait"@.len() != "never"@.len());
            reveal_strlit("type_of");
            assert("add_trait"@.len() != "type_of"@.len());
            reveal_strlit("type_of_value");
            assert("add_trait"@.len() != "type_of_value"@.len());
            reveal_strlit("lookup_method");
            assert("add_trait"@.len() != "lookup_method"@.len());
            reveal_strlit("array");
            assert("add_trait"@.len() != "array"@.len());
            reveal_strlit("array_with_capacity");
            assert("add_trait"@.len() != "array_with_capacity"@.len());
            reveal_strlit("array_push");
            assert("add_trait"@.len() != "array_push"@.len());
            reveal_strlit("string_from_ptr");
            assert("add_trait"@.len() != "string_from_ptr"@.len());
            reveal_strlit("string_eq");
            assert("add_trait"@[0] != "string_eq"@[0]);
            reveal_strlit("iterator");
            assert("add_trait"@.len() != "iterator"@.len());
            reveal_strlit("next");
            assert("add_trait"@.len() != "next"@.len());
            assert(spec_from_name("add_trait"@) == Some(LangItem::Add));
        },
        LangItem::Sub => {
            reveal_strlit("sub_trait");
            reveal_strlit("never");
            assert("sub_trait"@.len() != "never"@.len());
            reveal_strlit("type_of");
            assert("sub_trait"@.len() != "type_of"@.len());
            reveal_strlit("type_of_value");
            assert("sub_trait"@.len() != "type_of_value"@.len());
            reveal_strlit("lookup_method");
            assert("sub_trait"@.len() != "lookup_method"@.len());
            reveal_strlit("array");
            assert("sub_trait"@.len() != "array"@.len());
            reveal_strlit("array_with_capacity");
            assert("sub_trait"@.len() != "array_with_capacity"@.len());
            reveal_strlit("array_push");
            assert("sub_trait"@.len() != "array_push"@.len());
            reveal_strlit("string_from_ptr");
            assert("sub_trait"@.len() != "string_from_ptr"@.len());
            reveal_strlit("string_eq");
            assert("sub_trait"@[1] != "string_eq"@[1]);
            reveal_strlit("iterator");
            assert("sub_trait"@.len() != "iterator"@.len());
            reveal_strlit("next");
            assert("sub_trait"@.len() != "next"@.len());
            reveal_strlit("add_trait");
            assert("sub_trait"@[0] != "add_trait"@[0]);
            assert(spec_from_name("sub_trait"@) == Some(LangItem::Sub));
        },
        LangItem::Mul => {
            reveal_strlit("mul_trait");
            reveal_strlit("never");
            assert("mul_trait"@.len() != "never"@.len());
            reveal_strlit("type_of");
            assert("mul_trait"@.len() != "type_of"@.len());
            reveal_strlit("type_of_value");
            assert("mul_trait"@.len() != "type_of_value"@.len());
            reveal_strlit("lookup_method");
            assert("mul_trait"@.len() != "lookup_method"@.len());
            reveal_strlit("array");
            assert("mul_trait"@.len() != "array"@.len());
            reveal_strlit("array_with_capacity");
            assert("mul_trait"@.len() != "array_with_capacity"@.len());
            reveal_strlit("array_push");
            assert("mul_trait"@.len() != "array_push"@.len());
            reveal_strlit("string_from_ptr");
            assert("mul_trait"@.len() != "string_from_ptr"@.len());
            reveal_strlit("string_eq");
            assert("mul_trait"@[0] != "string_eq"@[0]);
            reveal_strlit("iterator");
            assert("mul_trait"@.len() != "iterator"@.len());
            reveal_strlit("next");
            assert("mul_trait"@.len() != "next"@.len());
            reveal_strlit("add_trait");
            assert("mul_trait"@[0] != "add_trait"@[0]);
            reveal_strlit("sub_trait");
            assert("mul_trait"@[0] != "sub_trait"@[0]);
            assert(spec_from_name("mul_trait"@) == Some(LangItem::Mul));
        },
        LangItem::Div => {
            reveal_strlit("div_trait");
            reveal_strlit("never");
            assert("div_trait"@.len() != "never"@.len());
            reveal_strlit("type_of");
            assert("div_trait"@.len() != "type_of"@.len());
            reveal_strlit("type_of_value");
            assert("div_trait"@.len() != "type_of_value"@.len());
            reveal_strlit("lookup_method");
            assert("div_trait"@.len() != "lookup_method"@.len());
            reveal_strlit("array");
            assert("div_trait"@.len() != "array"@.len());
            reveal_strlit("array_with_capacity");
            assert("div_trait"@.len() != "array_with_capacity"@.len());
            reveal_strlit("array_push");
            assert("div_trait"@.len() != "array_push"@.len());
            reveal_strlit("string_from_ptr");
            assert("div_trait"@.len() != "string_from_ptr"@.len());
            reveal_strlit("string_eq");
            assert("div_trait"@[0] != "string_eq"@[0]);
            reveal_strlit("iterator");
            assert("div_trait"@.len() != "iterator"@.len());
            reveal_strlit("next");
            assert("div_trait"@.len() != "next"@.len());
            reveal_strlit("add_trait");
            assert("div_trait"@[0] != "add_trait"@[0]);
            reveal_strlit("sub_trait");
            assert("div_trait"@[0] != "sub_trait"@[0]);
            reveal_strlit("mul_trait");
            assert("div_trait"@[0] != "mul_trait"@[0]);
            assert(spec_from_name("div_trait"@) == Some(LangItem::Div));
        },
        LangItem::And => {
            reveal_strlit("and_trait");
            reveal_strlit("never");
            assert("and_trait"@.len() != "never"@.len());
            reveal_strlit("type_of");
            assert("and_trait"@.len() != "type_of"@.len());
            reveal_strlit("type_of_value");
            assert("and_trait"@.len() != "type_of_value"@.len());
            reveal_strlit("lookup_method");
            assert("and_trait"@.len() != "lookup_method"@.len());
            reveal_strlit("array");
            assert("and_trait"@.len() != "array"@.len());
            reveal_strlit("array_with_capacity");
            assert("and_trait"@.len() != "array_with_capacity"@.len());
            reveal_strlit("array_push");
            assert("and_trait"@.len() != "array_push"@.len());
            reveal_strlit("string_from_ptr");
            assert("and_trait"@.len() != "string_from_ptr"@.len());
            reveal_strlit("string_eq");
            assert("and_trait"@[0] != "string_eq"@[0]);
            reveal_strlit("iterator");
            assert("and_trait"@.len() != "iterator"@.len());
            reveal_strlit("next");
            assert("and_trait"@.len() != "next"@.len());
            reveal_strlit("add_trait");
            assert("and_trait"@[1] != "add_trait"@[1]);
            reveal_strlit("sub_trait");
            assert("and_trait"@[0] != "sub_trait"@[0]);
            reveal_strlit("mul_trait");
            assert("and_trait"@[0] != "mul_trait"@[0]);
            reveal_strlit("div_trait");
            assert("and_trait"@[0] != "div_trait"@[0]);
            assert(spec_from_name("and_trait"@) == Some(LangItem::And));
        },
        LangItem::Or => {
            reveal_strlit("or_trait");
            reveal_strlit("never");
            assert("or_trait"@.len() != "never"@.len());
            reveal_strlit("type_of");
            assert("or_trait"@.len() != "type_of"@.len());
            reveal_strlit("type_of_value");
            assert("or_trait"@.len() != "type_of_value"@.len());
            reveal_strlit("lookup_method");
            assert("or_trait"@.len() != "lookup_method"@.len());
            reveal_strlit("array");
            assert("or_trait"@.len() != "array"@.len());
            reveal_strlit("array_with_capacity");
            assert("or_trait"@.len() != "array_with_capacity"@.len());
            reveal_strlit("array_push");
            assert("or_trait"@.len() != "array_push"@.len());
            reveal_strlit("string_from_ptr");
            assert("or_trait"@.len() != "string_from_ptr"@.len());
            reveal_strlit("string_eq");
            assert("or_trait"@.len() != "string_eq"@.len());
            reveal_strlit("iterator");
            assert("or_trait"@[0] != "iterator"@[0]);
            reveal_strlit("next");
            assert("or_trait"@.len() != "next"@.len());
            reveal_strlit("add_trait");
            assert("or_trait"@.len() != "add_trait"@.len());
            reveal_strlit("sub_trait");
            assert("or_trait"@.len() != "sub_trait"@.len());
            reveal_strlit("mul_trait");
            assert("or_trait"@.len() != "mul_trait"@.len());
            reveal_strlit("div_trait");
            assert("or_trait"@.len() != "div_trait"@.len());
            reveal_strlit("and_trait");
            assert("or_trait"@.len() != "and_trait"@.len());
            assert(spec_from_name("or_trait"@) == Some(LangItem::Or));
        },
        LangItem::Not => {
            reveal_strlit("not_trait");
            reveal_strlit("never");
            assert("not_trait"@.len() != "never"@.len());
            reveal_strlit("type_of");
            assert("not_trait"@.len() != "type_of"@.len());
            reveal_strlit("type_of_value");
            assert("not_trait"@.len() != "type_of_value"@.len());
            reveal_strlit("lookup_method");
            assert("not_trait"@.len() != "lookup_method"@.len());
            reveal_strlit("array");
            assert("not_trait"@.len() != "array"@.len());
            reveal_strlit("array_with_capacity");
            assert("not_trait"@.len() != "array_with_capacity"@.len());
            reveal_strlit("array_push");
            assert("not_trait"@.len() != "array_push"@.len());
            reveal_strlit("string_from_ptr");
            assert("not_trait"@.len() != "string_from_ptr"@.len());
            reveal_strlit("string_eq");
            assert("not_trait"@[0] != "string_eq"@[0]);
            reveal_strlit("iterator");
            assert("not_trait"@.len() != "iterator"@.len());
            reveal_strlit("next");
            assert("not_trait"@.len() != "next"@.len());
            reveal_strlit("add_trait");
            assert("not_trait"@[0] != "add_trait"@[0]);
            reveal_strlit("sub_trait");
            assert("not_trait"@[0] != "sub_trait"@[0]);
            reveal_strlit("mul_trait");
            assert("not_trait"@[0] != "mul_trait"@[0]);
            reveal_strlit("div_trait");
            assert("not_trait"@[0] != "div_trait"@[0]);
            reveal_strlit("and_trait");
            assert("not_trait"@[0] != "and_trait"@[0]);
            reveal_strlit("or_trait");
            assert("not_trait"@.len() != "or_trait"@.len());
            assert(spec_from_name("not_trait"@) == Some(LangItem::Not));
        },
        LangItem::Negate => {
            reveal_strlit("negate_trait");
            reveal_strlit("never");
            assert("negate_trait"@.len() != "never"@.len());
            reveal_strlit("type_of");
            assert("negate_trait"@.len() != "type_of"@.len());
            reveal_strlit("type_of_value");
            assert("negate_trait"@.len() != "type_of_value"@.len());
            reveal_strlit("lookup_method");
            assert("negate_trait"@.len() != "lookup_method"@.len());
            reveal_strlit("array");
            assert("negate_trait"@.len() != "array"@.len());
            reveal_strlit("array_with_capacity");
            assert("negate_trait"@.len() != "array_with_capacity"@.len());
            reveal_strlit("array_push");
            assert("negate_trait"@.len() != "array_push"@.len());
            reveal_strlit("string_from_ptr");
            assert("negate_trait"@.len() != "string_from_ptr"@.len());
            reveal_strlit("string_eq");
            assert("negate_trait"@.len() != "string_eq"@.len());
            reveal_strlit("iterator");
            assert("negate_trait"@.len() != "iterator"@.len());
            reveal_strlit("next");
            assert("negate_trait"@.len() != "next"@.len());
            reveal_strlit("add_trait");
            assert("negate_trait"@.len() != "add_trait"@.len());
            reveal_strlit("sub_trait");
            assert("negate_trait"@.len() != "sub_trait"@.len());
            reveal_strlit("mul_trait");
            assert("negate_trait"@.len() != "mul_trait"@.len());
            reveal_strlit("div_trait");
            assert("negate_trait"@.len() != "div_trait"@.len());
            reveal_strlit("and_trait");
            assert("negate_trait"@.len() != "and_trait"@.len());
            reveal_strlit("or_trait");
            assert("negate_trait"@.len() != "or_trait"@.len());
            reveal_strlit("not_trait");
            assert("negate_trait"@.len() != "not_trait"@.len());
            assert(spec_from_name("negate_trait"@) == Some(LangItem::Negate));
        },
        LangItem::BinaryAnd => {
            reveal_strlit("band_trait");
            reveal_strlit("never");
            assert("band_trait"@.len() != "never"@.len());
            reveal_strlit("type_of");
            assert("band_trait"@.len() != "type_of"@.len());
            reveal_strlit("type_of_value");
            assert("band_trait"@.len() != "type_of_value"@.len());
            reveal_strlit("lookup_method");
            assert("band_trait"@.len() != "lookup_method"@.len());
            reveal_strlit("array");
            assert("band_trait"@.len() != "array"@.len());
            reveal_strlit("array_with_capacity");
            assert("band_trait"@.len() != "array_with_capacity"@.len());
            reveal_strlit("array_push");
            assert("band_trait"@[0] != "array_push"@[0]);
            reveal_strlit("string_from_ptr");
            assert("band_trait"@.len() != "string_from_ptr"@.len());
            reveal_strlit("string_eq");
            assert("band_trait"@.len() != "string_eq"@.len());
            reveal_strlit("iterator");
            assert("band_trait"@.len() != "iterator"@.len());
            reveal_strlit("next");
            assert("band_trait"@.len() != "next"@.len());
            reveal_strlit("add_trait");
            assert("band_trait"@.len() != "add_trait"@.len());
            reveal_strlit("sub_trait");
            assert("band_trait"@.len() != "sub_trait"@.len());
            reveal_strlit("mul_trait");
            assert("band_trait"@.len() != "mul_trait"@.len());
            reveal_strlit("div_trait");
            assert("band_trait"@.len() != "div_trait"@.len());
            reveal_strlit("and_trait");
            assert("band_trait"@.len() != "and_trait"@.len());
            reveal_strlit("or_trait");
            assert("band_trait"@.len() != "or_trait"@.len());
            reveal_strlit("not_trait");
            assert("band_trait"@.len() != "not_trait"@.len());
            reveal_strlit("negate_trait");
            assert("band_trait"@.len() != "negate_trait"@.len());
            assert(spec_from_name("band_trait"@) == Some(LangItem::BinaryAnd));
        },
        LangItem::BinaryOr => {
            reveal_strlit("bor_trait");
            reveal_strlit("never");
            assert("bor_trait"@.len() != "never"@.len());
            reveal_strlit("type_of");
            assert("bor_trait"@.len() != "type_of"@.len());
            reveal_strlit("type_of_value");
            assert("bor_trait"@.len() != "type_of_value"@.len());
            reveal_strlit("lookup_method");
            assert("bor_trait"@.len() != "lookup_method"@.len());
            reveal_strlit("array");
            assert("bor_trait"@.len() != "array"@.len());
            reveal_strlit("array_with_capacity");
            assert("bor_trait"@.len() != "array_with_capacity"@.len());
            reveal_strlit("array_push");
            assert("bor_trait"@.len() != "array_push"@.len());
            reveal_strlit("string_from_ptr");
            assert("bor_trait"@.len() != "string_from_ptr"@.len());
            reveal_strlit("string_eq");
            assert("bor_trait"@[0] != "string_eq"@[0]);
            reveal_strlit("iterator");
            assert("bor_trait"@.len() != "iterator"@.len());
            reveal_strlit("next");
            assert("bor_trait"@.len() != "next"@.len());
            reveal_strlit("add_trait");
            assert("bor_trait"@[0] != "add_trait"@[0]);
            reveal_strlit("sub_trait");
            assert("bor_trait"@[0] != "sub_trait"@[0]);
            reveal_strlit("mul_trait");
            assert("bor_trait"@[0] != "mul_trait"@[0]);
            reveal_strlit("div_trait");
            assert("bor_trait"@[0] != "div_trait"@[0]);
            reveal_strlit("and_trait");
            assert("bor_trait"@[0] != "and_trait"@[0]);
            reveal_strlit("or_trait");
            assert("bor_trait"@.len() != "or_trait"@.len());
            reveal_strlit("not_trait");
            assert("bor_trait"@[0] != "not_trait"@[0]);
            reveal_strlit("negate_trait");
            assert("bor_trait"@.len() != "negate_trait"@.len());
            reveal_strlit("band_trait");
            assert("bor_trait"@.len() != "band_trait"@.len());
            assert(spec_from_name("bor_trait"@) == Some(LangItem::BinaryOr));
        },
        LangItem::BinaryXor => {
            reveal_strlit("bxor_trait");
            reveal_strlit("never");
            assert("bxor_trait"@.len() != "never"@.len());
            reveal_strlit("type_of");
            assert("bxor_trait"@.len() != "type_of"@.len());
            reveal_strlit("type_of_value");
            assert("bxor_trait"@.len() != "type_of_value"@.len());
            reveal_strlit("lookup_method");
            assert("bxor_trait"@.len() != "lookup_method"@.len());
            reveal_strlit("array");
            assert("bxor_trait"@.len() != "array"@.len());
            reveal_strlit("array_with_capacity");
            assert("bxor_trait"@.len() != "array_with_capacity"@.len());
            reveal_strlit("array_push");
            assert("bxor_trait"@[0] != "array_push"@[0]);
            reveal_strlit("string_from_ptr");
            assert("bxor_trait"@.len() != "string_from_ptr"@.len());
            reveal_strlit("string_eq");
            assert("bxor_trait"@.len() != "string_eq"@.len());
            reveal_strlit("iterator");
            assert("bxor_trait"@.len() != "iterator"@.len());
            reveal_strlit("next");
            assert("bxor_trait"@.len() != "next"@.len());
            reveal_strlit("add_trait");
            assert("bxor_trait"@.len() != "add_trait"@.len());
            reveal_strlit("sub_trait");
            assert("bxor_trait"@.len() != "sub_trait"@.len());
            reveal_strlit("mul_trait");
            assert("bxor_trait"@.len() != "mul_trait"@.len());
            reveal_strlit("div_trait");
            assert("bxor_trait"@.len() != "div_trait"@.len());
            reveal_strlit("and_trait");
            assert("bxor_trait"@.len() != "and_trait"@.len());
            reveal_strlit("or_trait");
            assert("bxor_trait"@.len() != "or_trait"@.len());
            reveal_strlit("not_trait");
            assert("bxor_trait"@.len() != "not_trait"@.len());
            reveal_strlit("negate_trait");
            assert("bxor_trait"@.len() != "negate_trait"@.len());
            reveal_strlit("band_trait");
            assert("bxor_trait"@[1] != "band_trait"@[1]);
            reveal_strlit("bor_trait");
            assert("bxor_trait"@.len() != "bor_trait"@.len());
            assert(spec_from_name("bxor_trait"@) == Some(LangItem::BinaryXor));
        },
        LangItem::Cast => {
            reveal_strlit("cast_trait");
            reveal_strlit("never");
            assert("cast_trait"@.len() != "never"@.len());
            reveal_strlit("type_of");
            assert("cast_trait"@.len() != "type_of"@.len());
            reveal_strlit("type_of_value");
            assert("cast_trait"@.len() != "type_of_value"@.len());
            reveal_strlit("lookup_method");
            assert("cast_trait"@.len() != "lookup_method"@.len());
            reveal_strlit("array");
            assert("cast_trait"@.len() != "array"@.len());
            reveal_strlit("array_with_capacity");
            assert("cast_trait"@.len() != "array_with_capacity"@.len());
            reveal_strlit("array_push");
            assert("cast_trait"@[0] != "array_push"@[0]);
            reveal_strlit("string_from_ptr");
            assert("cast_trait"@.len() != "string_from_ptr"@.len());
            reveal_strlit("string_eq");
            assert("cast_trait"@.len() != "string_eq"@.len());
            reveal_strlit("iterator");
            assert("cast_trait"@.len() != "iterator"@.len());
            reveal_strlit("next");
            assert("cast_trait"@.len() != "next"@.len());
            reveal_strlit("add_trait");
            assert("cast_trait"@.len() != "add_trait"@.len());
            reveal_strlit("sub_trait");
            assert("cast_trait"@.len() != "sub_trait"@.len());
            reveal_strlit("mul_trait");
            assert("cast_trait"@.len() != "mul_trait"@.len());
            reveal_strlit("div_trait");
            assert("cast_trait"@.len() != "div_trait"@.len());
            reveal_strlit("and_trait");
            assert("cast_trait"@.len() != "and_trait"@.len());
            reveal_strlit("or_trait");
            assert("cast_trait"@.len() != "or_trait"@.len());
            reveal_strlit("not_trait");
            assert("cast_trait"@.len() != "not_trait"@.len());
            reveal_strlit("negate_trait");
            assert("cast_trait"@.len() != "negate_trait"@.len());
            reveal_strlit("band_trait");
            assert("cast_trait"@[0] != "band_trait"@[0]);
            reveal_strlit("bor_trait");
            assert("cast_trait"@.len() != "bor_trait"@.len());
            reveal_strlit("bxor_trait");
            assert("cast_trait"@[0] != "bxor_trait"@[0]);
            assert(spec_from_name("cast_trait"@) == Some(LangItem::Cast));
        },
        LangItem::Equal => {
            reveal_strlit("equal_trait");
            reveal_strlit("never");
            assert("equal_trait"@.len() != "never"@.len());
            reveal_strlit("type_of");
            assert("equal_trait"@.len() != "type_of"@.len());
            reveal_strlit("type_of_value");
            assert("equal_trait"@.len() != "type_of_value"@.len());
            reveal_strlit("lookup_method");
            assert("equal_trait"@.len() != "lookup_method"@.len());
            reveal_strlit("array");
            assert("equal_trait"@.len() != "array"@.len());
            reveal_strlit("array_with_capacity");
            assert("equal_trait"@.len() != "array_with_capacity"@.len());
            reveal_strlit("array_push");
            assert("equal_trait"@.len() != "array_push"@.len());
            reveal_strlit("string_from_ptr");
            assert("equal_trait"@.len() != "string_from_ptr"@.len());
            reveal_strlit("string_eq");
            assert("equal_trait"@.len() != "string_eq"@.len());
            reveal_strlit("iterator");
            assert("equal_trait"@.len() != "iterator"@.len());
            reveal_strlit("next");
            assert("equal_trait"@.len() != "next"@.len());
            reveal_strlit("add_trait");
            assert("equal_trait"@.len() != "add_trait"@.len());
            reveal_strlit("sub_trait");
            assert("equal_trait"@.len() != "sub_trait"@.len());
            reveal_strlit("mul_trait");
            assert("equal_trait"@.len() != "mul_trait"@.len());
            reveal_strlit("div_trait");
            assert("equal_trait"@.len() != "div_trait"@.len());
            reveal_strlit("and_trait");
            assert("equal_trait"@.len() != "and_trait"@.len());
            reveal_strlit("or_trait");
            assert("equal_trait"@.len() != "or_trait"@.len());
            reveal_strlit("not_trait");
            assert("equal_trait"@.len() != "not_trait"@.len());
            reveal_strlit("negate_trait");
            assert("equal_trait"@.len() != "negate_trait"@.len());
            reveal_strlit("band_trait");
            assert("equal_trait"@.len() != "band_trait"@.len());
            reveal_strlit("bor_trait");
            assert("equal_trait"@.len() != "bor_trait"@.len());
            reveal_strlit("bxor_trait");
            assert("equal_trait"@.len() != "bxor_trait"@.len());
            reveal_strlit("cast_trait");
            assert("equal_trait"@.len() != "cast_trait"@.len());
            assert(spec_from_name("equal_trait"@) == Some(LangItem::Equal));
        },
        LangItem::Compare => {
            reveal_strlit("cmp_trait");
            reveal_strlit("never");
            assert("cmp_trait"@.len() != "never"@.len());
            reveal_strlit("type_of");
            assert("cmp_trait"@.len() != "type_of"@.len());
            reveal_strlit("type_of_value");
            assert("cmp_trait"@.len() != "type_of_value"@.len());
            reveal_strlit("lookup_method");
            assert("cmp_trait"@.len() != "lookup_method"@.len());
            reveal_strlit("array");
            assert("cmp_trait"@.len() != "array"@.len());
            reveal_strlit("array_with_capacity");
            assert("cmp_trait"@.len() != "array_with_capacity"@.len());
            reveal_strlit("array_push");
            assert("cmp_trait"@.len() != "array_push"@.len());
            reveal_strlit("string_from_ptr");
            assert("cmp_trait"@.len() != "string_from_ptr"@.len());
            reveal_strlit("string_eq");
            assert("cmp_trait"@[0] != "string_eq"@[0]);
            reveal_strlit("iterator");
            assert("cmp_trait"@.len() != "iterator"@.len());
            reveal_strlit("next");
            assert("cmp_trait"@.len() != "next"@.len());
            reveal_strlit("add_trait");
            assert("cmp_trait"@[0] != "add_trait"@[0]);
            reveal_strlit("sub_trait");
            assert("cmp_trait"@[0] != "sub_trait"@[0]);
            reveal_strlit("mul_trait");
            assert("cmp_trait"@[0] != "mul_trait"@[0]);
            reveal_strlit("div_trait");
            assert("cmp_trait"@[0] != "div_trait"@[0]);
            reveal_strlit("and_trait");
            assert("cmp_trait"@[0] != "and_trait"@[0]);
            reveal_strlit("or_trait");
            assert("cmp_trait"@.len() != "or_trait"@.len());
            reveal_strlit("not_trait");
            assert("cmp_trait"@[0] != "not_trait"@[0]);
            reveal_strlit("negate_trait");
            assert("cmp_trait"@.len() != "negate_trait"@.len());
            reveal_strlit("band_trait");
            assert("cmp_trait"@.len() != "band_trait"@.len());
            reveal_strlit("bor_trait");
            assert("cmp_trait"@[0] != "bor_trait"@[0]);
            reveal_strlit("bxor_trait");
            assert("cmp_trait"@.len() != "bxor_trait"@.len());
            reveal_strlit("cast_trait");
            assert("cmp_trait"@.len() != "cast_trait"@.len());
            reveal_strlit("equal_trait");
            assert("cmp_trait"@.len() != "equal_trait"@.len());
            assert(spec_from_name("cmp_trait"@) == Some(LangItem::Compare));
        },
        LangItem::Dispose => {
            reveal_strlit("dispose_trait");
            reveal_strlit("never");
            assert("dispose_trait"@.len() != "never"@.len());
            reveal_strlit("type_of");
            assert("dispose_trait"@.len() != "type_of"@.len());
            reveal_strlit("type_of_value");
            assert("dispose_trait"@[0] != "type_of_value"@[0]);
            reveal_strlit("lookup_method");
            assert("dispose_trait"@[0] != "lookup_method"@[0]);
            reveal_strlit("array");
            assert("dispose_trait"@.len() != "array"@.len());
            reveal_strlit("array_with_capacity");
            assert("dispose_trait"@.len() != "array_with_capacity"@.len());
            reveal_strlit("array_push");
            assert("dispose_trait"@.len() != "array_push"@.len());
            reveal_strlit("string_from_ptr");
            assert("dispose_trait"@.len() != "string_from_ptr"@.len());
            reveal_strlit("string_eq");
            assert("dispose_trait"@.len() != "string_eq"@.len());
            reveal_strlit("iterator");
            assert("dispose_trait"@.len() != "iterator"@.len());
            reveal_strlit("next");
            assert("dispose_trait"@.len() != "next"@.len());
            reveal_strlit("add_trait");
            assert("dispose_trait"@.len() != "add_trait"@.len());
            reveal_strlit("sub_trait");
            assert("dispose_trait"@.len() != "sub_trait"@.len());
            reveal_strlit("mul_trait");
            assert("dispose_trait"@.len() != "mul_trait"@.len());
            reveal_strlit("div_trait");
            assert("dispose_trait"@.len() != "div_trait"@.len());
            reveal_strlit("and_trait");
            assert("dispose_trait"@.len() != "and_trait"@.len());
            reveal_strlit("or_trait");
            assert("dispose_trait"@.len() != "or_trait"@.len());
            reveal_strlit("not_trait");
            assert("dispose_trait"@.len() != "not_trait"@.len());
            reveal_strlit("negate_trait");
            assert("dispose_trait"@.len() != "negate_trait"@.len());
            reveal_strlit("band_trait");
            assert("dispose_trait"@.len() != "band_trait"@.len());
            reveal_strlit("bor_trait");
            assert("dispose_trait"@.len() != "bor_trait"@.len());
            reveal_strlit("bxor_trait");
            assert("dispose_trait"@.len() != "bxor_trait"@.len());
            reveal_strlit("cast_trait");
            assert("dispose_trait"@.len() != "cast_trait"@.len());
            reveal_strlit("equal_trait");
            assert("dispose_trait"@.len() != "equal_trait"@.len());
            reveal_strlit("cmp_trait");
            assert("dispose_trait"@.len() != "cmp_trait"@.len());
            assert(spec_from_name("dispose_trait"@) == Some(LangItem::Dispose));
        },
    }
}

} // verus!
