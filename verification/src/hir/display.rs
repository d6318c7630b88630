//! How paths, types and signatures are written out in messages.
use vstd::prelude::*;

use crate::hir::node::{Parameter, SELF_PARAM_NAME};
use crate::hir::path::{
    clone_type, lemma_segments_view, lemma_types_view, segment_view, segments_view, type_view,
    types_view, Identifier, Path, PathSegment, SegmentView, Type, TypeView,
};
use crate::span::NodeId;

verus! {

/// The texts joined with `, ` between them.
pub open spec fn join_texts(s: Seq<Seq<char>>) -> Seq<char>
    decreases s.len(),
{
    if s.len() == 0 {
        seq![]
    } else if s.len() == 1 {
        s[0]
    } else {
        join_texts(s.drop_last()) + ", "@ + s.last()
    }
}

/// How a path segment is written: its name, with its type arguments in
/// angle brackets when it has any; a missing segment as `[missing]`.
pub open spec fn segment_text(s: SegmentView) -> Seq<char>
    decreases s,
{
    match s {
        SegmentView::Namespace { name } => name.name@,
        SegmentView::Type { name, bound_types, .. } => name.name@ + bound_text(bound_types),
        SegmentView::Callable { name, bound_types, .. } => name.name@ + bound_text(bound_types),
        SegmentView::Variant { name, .. } => name.name@,
        SegmentView::Missing => "[missing]"@,
    }
}

/// How type arguments are written: nothing when there are none, else
/// `<A, B>`.
pub open spec fn bound_text(types: Seq<TypeView>) -> Seq<char>
    decreases types, 1nat,
{
    if types.len() == 0 {
        seq![]
    } else {
        "<"@ + types_text(types) + ">"@
    }
}

/// The texts of types, joined with `, `.
pub open spec fn types_text(types: Seq<TypeView>) -> Seq<char>
    decreases types, 0nat,
{
    if types.len() == 0 {
        seq![]
    } else if types.len() == 1 {
        segment_text(types[0].name.name)
    } else {
        types_text(types.drop_last()) + ", "@ + segment_text(types.last().name.name)
    }
}

/// How a type is written: the last segment of its path.
pub open spec fn type_text(t: TypeView) -> Seq<char> {
    segment_text(t.name.name)
}

/// The root segments of a path, each followed by `::`.
pub open spec fn root_text(root: Seq<SegmentView>) -> Seq<char>
    decreases root.len(),
{
    if root.len() == 0 {
        seq![]
    } else {
        root_text(root.drop_last()) + segment_text(root.last()) + "::"@
    }
}

/// Appends the text of each of the types, joined with `, `.
fn append_types(out: &mut String, types: &Vec<Type>)
    ensures
        final(out)@ == old(out)@ + types_text(types_view(types@)),
    decreases types, 0nat,
{
    let ghost start = out@;
    let ghost tv = types_view(types@);
    proof {
        lemma_types_view(types@);
    }
    let mut i: usize = 0;
    while i < types.len()
        invariant
            i <= types@.len(),
            tv == types_view(types@),
            tv.len() == types@.len(),
            forall|j: int| 0 <= j < types@.len() ==> #[trigger] tv[j] == type_view(types@[j]),
            out@ == start + types_text(tv.subrange(0, i as int)),
        decreases types.len() - i,
    {
        let sub = Ghost(tv.subrange(0, i + 1));
        proof {
            assert(sub@.drop_last() =~= tv.subrange(0, i as int));
            assert(sub@.last() == tv[i as int]);
            assert(decreases_to!(types => types@[i as int]));
            assert(decreases_to!(types@[i as int] => types@[i as int].name));
        }
        if i > 0 {
            let sep = ", ";
            proof {
                reveal_strlit(", ");
            }
            out.append(sep);
        }
        let ghost before = out@;
        append_segment(out, &types[i].name.name);
        proof {
            if i == 0 {
                assert(sub@.len() == 1);
                assert(sub@[0] == tv[0]);
                assert(types_text(sub@) == segment_text(tv[0].name.name));
                assert(tv.subrange(0, 0) =~= Seq::<TypeView>::empty());
                assert(out@ =~= start + types_text(sub@));
            } else {
                assert(out@ =~= start + types_text(sub@));
            }
        }
        i = i + 1;
    }
    proof {
        assert(tv.subrange(0, types@.len() as int) =~= tv);
    }
}

/// Appends the text of a path segment.
fn append_segment(out: &mut String, s: &PathSegment)
    ensures
        final(out)@ == old(out)@ + segment_text(s@),
    decreases s, 1nat,
{
    match s {
        PathSegment::Namespace { name } => out.append(name.as_str()),
        PathSegment::Type { name, bound_types, .. } | PathSegment::Callable { name, bound_types, .. } => {
            let ghost before = out@;
            out.append(name.as_str());
            if bound_types.len() > 0 {
                let open = "<";
                let close = ">";
                proof {
                    reveal_strlit("<");
                    reveal_strlit(">");
                    lemma_types_view(bound_types@);
                }
                out.append(open);
                append_types(out, bound_types);
                out.append(close);
                proof {
                    assert(out@ =~= before + name.name@ + ("<"@ + types_text(types_view(bound_types@)) + ">"@));
                }
            } else {
                proof {
                    lemma_types_view(bound_types@);
                    assert(out@ =~= before + name.name@ + seq![]);
                }
            }
        },
        PathSegment::Variant { name, .. } => out.append(name.as_str()),
        PathSegment::Missing => {
            let missing = "[missing]";
            out.append(missing);
        },
    }
}

impl PathSegment {
    /// The segment as it is written in messages.
    pub fn to_string(&self) -> (r: String)
        ensures
            r@ == segment_text(self@),
    {
        let mut out = String::new();
        append_segment(&mut out, self);
        out
    }
}

impl Type {
    /// The type as it is written in messages: the last segment of its path.
    pub fn to_string(&self) -> (r: String)
        ensures
            r@ == type_text(self@),
    {
        self.name.name.to_string()
    }
}

impl Path {
    /// The path as it is written in messages: its last segment.
    pub fn to_string(&self) -> (r: String)
        ensures
            r@ == segment_text(self@.name),
    {
        self.name.to_string()
    }

    /// The path with all its segments, separated by `::`.
    pub fn to_wide_string(&self) -> (r: String)
        ensures
            r@ == root_text(self@.root) + segment_text(self@.name),
    {
        let mut out = String::new();
        let ghost rv = segments_view(self.root@);
        proof {
            lemma_segments_view(self.root@);
            assert(out@ =~= root_text(rv.subrange(0, 0)));
        }
        let mut i: usize = 0;
        while i < self.root.len()
            invariant
                i <= self.root@.len(),
                rv == segments_view(self.root@),
                rv.len() == self.root@.len(),
                forall|j: int| 0 <= j < self.root@.len() ==> #[trigger] rv[j] == segment_view(self.root@[j]),
                out@ == root_text(rv.subrange(0, i as int)),
            decreases self.root.len() - i,
        {
            append_segment(&mut out, &self.root[i]);
            let sep = "::";
            proof {
                reveal_strlit("::");
            }
            out.append(sep);
            proof {
                let sub = rv.subrange(0, i + 1);
                assert(sub.drop_last() =~= rv.subrange(0, i as int));
                assert(sub.last() == rv[i as int]);
                assert(out@ =~= root_text(sub));
            }
            i = i + 1;
        }
        proof {
            assert(rv.subrange(0, self.root@.len() as int) =~= rv);
        }
        append_segment(&mut out, &self.name);
        out
    }
}

/// The decimal digits of a number.
pub open spec fn decimal_text(n: nat) -> Seq<char>
    decreases n,
{
    if n < 10 {
        seq![(48 + n) as char]
    } else {
        decimal_text(n / 10).push((48 + n % 10) as char)
    }
}

/// The single digit `d` as text.
fn digit_str(d: u64) -> (r: &'static str)
    requires
        d < 10,
    ensures
        r@ == seq![(48 + d) as char],
{
    proof {
        reveal_strlit("0");
        reveal_strlit("1");
        reveal_strlit("2");
        reveal_strlit("3");
        reveal_strlit("4");
        reveal_strlit("5");
        reveal_strlit("6");
        reveal_strlit("7");
        reveal_strlit("8");
        reveal_strlit("9");
    }
    if d == 0 {
        "0"
    } else if d == 1 {
        "1"
    } else if d == 2 {
        "2"
    } else if d == 3 {
        "3"
    } else if d == 4 {
        "4"
    } else if d == 5 {
        "5"
    } else if d == 6 {
        "6"
    } else if d == 7 {
        "7"
    } else if d == 8 {
        "8"
    } else {
        "9"
    }
}

/// Appends the decimal digits of a number.
fn append_decimal(out: &mut String, n: u64)
    ensures
        final(out)@ == old(out)@ + decimal_text(n as nat),
    decreases n,
{
    if n < 10 {
        out.append(digit_str(n));
    } else {
        append_decimal(out, n / 10);
        out.append(digit_str(n % 10));
        proof {
            assert((n / 10) as nat == (n as nat) / 10);
        }
    }
}

/// A signature, borrowed from the item which has it.
pub struct Signature<'a> {
    pub name: &'a Identifier,
    pub type_parameters: &'a [NodeId],
    pub parameters: &'a [Parameter],
    pub return_type: &'a Type,
}

/// A signature which owns its parts.
pub struct SignatureOwned {
    pub name: Identifier,
    pub type_parameters: Vec<NodeId>,
    pub parameters: Vec<Parameter>,
    pub return_type: Type,
}

impl<'a> Signature<'a> {
    /// Whether the first parameter is the `self` receiver.
    pub fn is_instanced(&self) -> (r: bool)
        ensures
            r == (self.parameters@.len() > 0 && self.parameters@[0].name.name@ == SELF_PARAM_NAME@),
    {
        self.parameters.len() > 0 && self.parameters[0].is_self()
    }

    /// A copy of the signature which owns its parts.
    pub fn to_owned(&self) -> (r: SignatureOwned)
        ensures
            r.name == *self.name,
            r.type_parameters@ == self.type_parameters@,
            r.parameters@.len() == self.parameters@.len(),
            forall|i: int| 0 <= i < self.parameters@.len() ==> {
                &&& (#[trigger] r.parameters@[i]).id == self.parameters@[i].id
                &&& r.parameters@[i].index == self.parameters@[i].index
                &&& r.parameters@[i].name == self.parameters@[i].name
                &&& r.parameters@[i].param_type@ == self.parameters@[i].param_type@
                &&& r.parameters@[i].vararg == self.parameters@[i].vararg
                &&& r.parameters@[i].location == self.parameters@[i].location
            },
            r.return_type@ == self.return_type@,
    {
        let mut type_parameters: Vec<NodeId> = Vec::new();
        let mut i: usize = 0;
        while i < self.type_parameters.len()
            invariant
                i <= self.type_parameters@.len(),
                type_parameters@ == self.type_parameters@.subrange(0, i as int),
            decreases self.type_parameters.len() - i,
        {
            type_parameters.push(self.type_parameters[i]);
            proof {
                assert(type_parameters@ =~= self.type_parameters@.subrange(0, i + 1));
            }
            i = i + 1;
        }
        proof {
            assert(self.type_parameters@.subrange(0, self.type_parameters@.len() as int) =~= self.type_parameters@);
        }
        let mut parameters: Vec<Parameter> = Vec::new();
        let mut j: usize = 0;
        while j < self.parameters.len()
            invariant
                j <= self.parameters@.len(),
                parameters@.len() == j,
                forall|k: int| 0 <= k < j ==> {
                    &&& (#[trigger] parameters@[k]).id == self.parameters@[k].id
                    &&& parameters@[k].index == self.parameters@[k].index
                    &&& parameters@[k].name == self.parameters@[k].name
                    &&& parameters@[k].param_type@ == self.parameters@[k].param_type@
                    &&& parameters@[k].vararg == self.parameters@[k].vararg
                    &&& parameters@[k].location == self.parameters@[k].location
                },
            decreases self.parameters.len() - j,
        {
            let p = &self.parameters[j];
            parameters.push(Parameter {
                id: p.id,
                index: p.index,
                name: p.name.clone(),
                param_type: clone_type(&p.param_type),
                vararg: p.vararg,
                location: p.location,
            });
            j = j + 1;
        }
        SignatureOwned {
            name: self.name.clone(),
            type_parameters,
            parameters,
            return_type: clone_type(self.return_type),
        }
    }
}

/// The identifiers, as numbers, joined with `, `.
pub open spec fn ids_text(ids: Seq<NodeId>) -> Seq<char>
    decreases ids.len(),
{
    if ids.len() == 0 {
        seq![]
    } else if ids.len() == 1 {
        decimal_text(ids[0].index as nat)
    } else {
        ids_text(ids.drop_last()) + ", "@ + decimal_text(ids.last().index as nat)
    }
}

/// The names of the parameters, joined with `, `.
pub open spec fn params_text(ps: Seq<Parameter>) -> Seq<char>
    decreases ps.len(),
{
    if ps.len() == 0 {
        seq![]
    } else if ps.len() == 1 {
        ps[0].name.name@
    } else {
        params_text(ps.drop_last()) + ", "@ + ps.last().name.name@
    }
}

/// How a signature is written: `fn name<1, 2>(a, b) -> Type`, where the
/// type parameters are given by their numbers and are left out when there
/// are none.
pub open spec fn signature_text(name: Seq<char>, type_parameters: Seq<NodeId>, parameters: Seq<Parameter>, return_type: TypeView) -> Seq<char> {
    "fn "@ + name + (if type_parameters.len() == 0 {
        seq![]
    } else {
        "<"@ + ids_text(type_parameters) + ">"@
    }) + "("@ + params_text(parameters) + ") -> "@ + segment_text(return_type.name.name)
}

impl SignatureOwned {
    /// The signature as it is written in messages.
    pub fn to_string(&self) -> (r: String)
        ensures
            r@ == signature_text(self.name.name@, self.type_parameters@, self.parameters@, self.return_type@),
    {
        let fn_kw = "fn ";
        let open = "<";
        let close = ">";
        let sep = ", ";
        let open_params = "(";
        let arrow = ") -> ";
        proof {
            reveal_strlit("fn ");
            reveal_strlit("<");
            reveal_strlit(">");
            reveal_strlit(", ");
            reveal_strlit("(");
            reveal_strlit(") -> ");
        }
        let mut out = String::new();
        out.append(fn_kw);
        out.append(self.name.as_str());
        let ghost head = out@;
        if self.type_parameters.len() > 0 {
            out.append(open);
            let ghost mid = out@;
            let mut i: usize = 0;
            proof {
                assert(self.type_parameters@.subrange(0, 0) =~= Seq::<NodeId>::empty());
            }
            while i < self.type_parameters.len()
                invariant
                    i <= self.type_parameters@.len(),
                    sep@ == ", "@,
                    out@ == mid + ids_text(self.type_parameters@.subrange(0, i as int)),
                decreases self.type_parameters.len() - i,
            {
                let ghost sub = self.type_parameters@.subrange(0, i + 1);
                proof {
                    assert(sub.drop_last() =~= self.type_parameters@.subrange(0, i as int));
                    assert(sub.last() == self.type_parameters@[i as int]);
                }
                let ghost before = out@;
                if i > 0 {
                    out.append(sep);
                }
                append_decimal(&mut out, self.type_parameters[i].index);
                proof {
                    if i == 0 {
                        assert(sub.len() == 1);
                        assert(out@ =~= mid + ids_text(sub));
                    } else {
                        assert(out@ =~= before + ", "@ + decimal_text(sub.last().index as nat));
                        assert(ids_text(sub) == ids_text(sub.drop_last()) + ", "@ + decimal_text(
                            sub.last().index as nat,
                        ));
                        assert(out@ =~= mid + ids_text(sub));
                    }
                }
                i = i + 1;
            }
            proof {
                assert(self.type_parameters@.subrange(0, self.type_parameters@.len() as int) =~= self.type_parameters@);
            }
            out.append(close);
        }
        let ghost before_params = out@;
        proof {
            assert(before_params =~= head + (if self.type_parameters@.len() == 0 {
                seq![]
            } else {
                "<"@ + ids_text(self.type_parameters@) + ">"@
            }));
        }
        out.append(open_params);
        let ghost mid2 = out@;
        let mut j: usize = 0;
        proof {
            assert(self.parameters@.subrange(0, 0) =~= Seq::<Parameter>::empty());
        }
        while j < self.parameters.len()
            invariant
                j <= self.parameters@.len(),
                sep@ == ", "@,
                out@ == mid2 + params_text(self.parameters@.subrange(0, j as int)),
            decreases self.parameters.len() - j,
        {
            let ghost sub = self.parameters@.subrange(0, j + 1);
            proof {
                assert(sub.drop_last() =~= self.parameters@.subrange(0, j as int));
                assert(sub.last() == self.parameters@[j as int]);
            }
            let ghost before = out@;
            if j > 0 {
                out.append(sep);
            }
            out.append(self.parameters[j].name.as_str());
            proof {
                if j == 0 {
                    assert(sub.len() == 1);
                    assert(out@ =~= mid2 + params_text(sub));
                } else {
                    assert(out@ =~= before + ", "@ + sub.last().name.name@);
                    assert(params_text(sub) == params_text(sub.drop_last()) + ", "@ + sub.last().name.name@);
                    assert(out@ =~= mid2 + params_text(sub));
                }
            }
            j = j + 1;
        }
        proof {
            assert(self.parameters@.subrange(0, self.parameters@.len() as int) =~= self.parameters@);
        }
        out.append(arrow);
        append_segment(&mut out, &self.return_type.name.name);
        proof {
            assert(out@ =~= signature_text(
                self.name.name@,
                self.type_parameters@,
                self.parameters@,
                self.return_type@,
            ));
        }
        out
    }
}

} // verus!
