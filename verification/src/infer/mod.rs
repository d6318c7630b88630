//! Decisions of type inference which do not need the type database: how
//! call arguments pair up with parameters, which names to suggest for a
//! misspelt function or method, and which Lume type to suggest for a type
//! name from another language.
use vstd::prelude::*;

pub mod scope;
pub mod hir;

use crate::hir::path::{str_eq, Identifier, Path};

verus! {

/// The largest edit distance, exclusive, at which a name is suggested.
pub const MAX_LEVENSHTEIN_DISTANCE: usize = 3;

/// Whether a lookup includes blanket implementations.
#[derive(Debug, Clone, Copy, PartialEq, Eq, Structural)]
pub enum BlanketLookup {
    Include,
    Exclude,
}

/// Pairs the arguments of a call with the parameters they are passed to,
/// by position. When the last parameter is variadic it takes every
/// argument beyond the parameter list.
pub struct CallArgumentZipper {
    arguments: usize,
    parameters: usize,
    idx: usize,
    vararg: bool,
}

/// The pair at position `i`: the parameter's position, then the argument's.
pub open spec fn zipped_pair(i: int, parameters: int) -> (usize, usize) {
    if i < parameters {
        (i as usize, i as usize)
    } else {
        ((parameters - 1) as usize, i as usize)
    }
}

/// How many pairs a call yields.
pub open spec fn zipped_len(arguments: int, parameters: int, vararg: bool) -> int {
    if vararg || arguments <= parameters {
        arguments
    } else {
        parameters
    }
}

impl CallArgumentZipper {
    /// Number of arguments of the call.
    pub closed spec fn arguments(&self) -> int {
        self.arguments as int
    }

    /// Number of parameters of the callee.
    pub closed spec fn parameters(&self) -> int {
        self.parameters as int
    }

    /// Whether the last parameter is variadic.
    pub closed spec fn vararg(&self) -> bool {
        self.vararg
    }

    /// How many pairs have been handed out.
    pub closed spec fn position(&self) -> int {
        self.idx as int
    }

    /// Consistency of the fields.
    pub closed spec fn well_formed(&self) -> bool {
        &&& self.vararg ==> self.parameters > 0
        &&& self.idx <= self.arguments
    }

    /// Starts pairing `arguments` arguments with parameters whose variadic
    /// flags are given in order.
    pub fn create_from(arguments: usize, parameter_varargs: &Vec<bool>) -> (r: CallArgumentZipper)
        ensures
            r.well_formed(),
            r.arguments() == arguments,
            r.parameters() == parameter_varargs@.len(),
            r.vararg() == (parameter_varargs@.len() > 0 && parameter_varargs@.last()),
            r.position() == 0,
    {
        let n = parameter_varargs.len();
        let vararg = n > 0 && parameter_varargs[n - 1];
        CallArgumentZipper { arguments, parameters: n, idx: 0, vararg }
    }

    /// The next pair of parameter and argument positions, if any.
    pub fn next(&mut self) -> (r: Option<(usize, usize)>)
        requires
            old(self).well_formed(),
        ensures
            final(self).well_formed(),
            final(self).arguments() == old(self).arguments(),
            final(self).parameters() == old(self).parameters(),
            final(self).vararg() == old(self).vararg(),
            old(self).position() < zipped_len(old(self).arguments(), old(self).parameters(), old(self).vararg())
                ==> r == Some(zipped_pair(old(self).position(), old(self).parameters()))
                && final(self).position() == old(self).position() + 1,
            old(self).position() >= zipped_len(old(self).arguments(), old(self).parameters(), old(self).vararg())
                ==> r is None && final(self).position() == old(self).position(),
    {
        if self.idx >= self.arguments {
            return None;
        }
        let parameter = if self.idx < self.parameters {
            self.idx
        } else if self.vararg {
            self.parameters - 1
        } else {
            return None;
        };
        let argument = self.idx;
        self.idx = self.idx + 1;
        Some((parameter, argument))
    }
}

/// Pairs every argument of a call with its parameter, as the zipper hands
/// them out.
pub fn zip_call_args(arguments: usize, parameter_varargs: &Vec<bool>) -> (r: Vec<(usize, usize)>)
    ensures
        r@.len() == zipped_len(
            arguments as int,
            parameter_varargs@.len() as int,
            parameter_varargs@.len() > 0 && parameter_varargs@.last(),
        ),
        forall|i: int| 0 <= i < r@.len() ==> #[trigger] r@[i] == zipped_pair(i, parameter_varargs@.len() as int),
{
    let mut zipper = CallArgumentZipper::create_from(arguments, parameter_varargs);
    let ghost total = zipped_len(arguments as int, parameter_varargs@.len() as int, zipper.vararg());
    let mut r: Vec<(usize, usize)> = Vec::new();
    loop
        invariant
            zipper.well_formed(),
            zipper.arguments() == arguments,
            zipper.parameters() == parameter_varargs@.len(),
            total == zipped_len(zipper.arguments(), zipper.parameters(), zipper.vararg()),
            zipper.vararg() == (parameter_varargs@.len() > 0 && parameter_varargs@.last()),
            r@.len() == zipper.position(),
            zipper.position() <= total,
            forall|i: int| 0 <= i < r@.len() ==> #[trigger] r@[i] == zipped_pair(i, parameter_varargs@.len() as int),
        ensures
            r@.len() == total,
            forall|i: int| 0 <= i < r@.len() ==> #[trigger] r@[i] == zipped_pair(i, parameter_varargs@.len() as int),
        decreases total - zipper.position(),
    {
        match zipper.next() {
            Some(pair) => r.push(pair),
            None => {
                break;
            },
        }
    }
    r
}

/// The edit distance between two texts: the fewest insertions, deletions
/// and substitutions of characters that turn one into the other.
pub open spec fn edit_distance(a: Seq<char>, b: Seq<char>) -> nat
    decreases a.len() + b.len(),
{
    if a.len() == 0 {
        b.len()
    } else if b.len() == 0 {
        a.len()
    } else {
        let delete = edit_distance(a.drop_last(), b) + 1;
        let insert = edit_distance(a, b.drop_last()) + 1;
        let replace = edit_distance(a.drop_last(), b.drop_last()) + if a.last() == b.last() {
            0nat
        } else {
            1nat
        };
        if delete <= insert && delete <= replace {
            delete
        } else if insert <= replace {
            insert
        } else {
            replace
        }
    }
}

/// The Levenshtein distance of `levenshtein::levenshtein`: the edit
/// distance between the two texts, counted in characters.
#[verifier::external_body]
fn levenshtein_distance(a: &str, b: &str) -> (r: usize)
    ensures
        r == edit_distance(a@, b@),
{
    levenshtein::levenshtein(a, b)
}

/// Whether `actual` is suggested for `expected`: it is a different name,
/// fewer than [`MAX_LEVENSHTEIN_DISTANCE`] edits away.
pub open spec fn is_suggested(expected: Seq<char>, actual: Seq<char>) -> bool {
    let d = edit_distance(expected, actual);
    d != 0 && d < MAX_LEVENSHTEIN_DISTANCE
}

/// Whether `actual` is suggested for `expected`.
pub fn suggests(expected: &str, actual: &str) -> (r: bool)
    ensures
        r == is_suggested(expected@, actual@),
{
    let distance = levenshtein_distance(expected, actual);
    distance != 0 && distance < MAX_LEVENSHTEIN_DISTANCE
}

/// Whether function `f` is suggested for a call of `name`: both live in
/// the same namespace and their names are close.
pub open spec fn function_suggested(name: crate::hir::path::PathView, f: crate::hir::path::PathView) -> bool {
    name.roots_match(f) && is_suggested(name.name.name_str(), f.name.name_str())
}

/// The positions, in order, of the functions which are suggested for a
/// call of `name` that matched none.
pub fn lookup_function_suggestions(name: &Path, functions: &Vec<Path>) -> (r: Vec<usize>)
    ensures
        forall|k: int| 0 <= k < r@.len() ==> #[trigger] r@[k] < functions@.len(),
        forall|k: int, l: int| 0 <= k < l < r@.len() ==> #[trigger] r@[k] < #[trigger] r@[l],
        forall|i: int| 0 <= i < functions@.len() ==> (r@.contains(i as usize) <==> function_suggested(
            name@,
            #[trigger] functions@[i]@,
        )),
{
    let mut r: Vec<usize> = Vec::new();
    let mut i: usize = 0;
    while i < functions.len()
        invariant
            i <= functions@.len(),
            forall|k: int| 0 <= k < r@.len() ==> #[trigger] r@[k] < i,
            forall|k: int, l: int| 0 <= k < l < r@.len() ==> #[trigger] r@[k] < #[trigger] r@[l],
            forall|j: int| 0 <= j < i ==> (r@.contains(j as usize) <==> function_suggested(
                name@,
                #[trigger] functions@[j]@,
            )),
        decreases functions.len() - i,
    {
        let f = &functions[i];
        let keep = name.roots_match(f) && suggests(name.name.as_str(), f.name.as_str());
        let ghost before = r@;
        if keep {
            r.push(i);
        }
        proof {
            assert forall|j: int| 0 <= j < i + 1 implies (r@.contains(j as usize) <==> function_suggested(
                name@,
                #[trigger] functions@[j]@,
            )) by {
                if j < i {
                    if r@.contains(j as usize) && !before.contains(j as usize) {
                        assert(r@.last() == i);
                        assert(false);
                    }
                    if before.contains(j as usize) {
                        let k = choose|k: int| 0 <= k < before.len() && before[k] == j as usize;
                        assert(r@[k] == j as usize);
                    }
                } else {
                    if keep {
                        assert(r@[r@.len() - 1] == i);
                    } else {
                        if r@.contains(i) {
                            let k = choose|k: int| 0 <= k < r@.len() && r@[k] == i;
                            assert(r@[k] < i);
                        }
                    }
                }
            }
        }
        i = i + 1;
    }
    r
}

/// The positions, in order, of the methods whose names are suggested for
/// a method call of `name` that matched none.
pub fn lookup_method_suggestions(name: &Identifier, methods: &Vec<Path>) -> (r: Vec<usize>)
    ensures
        forall|k: int| 0 <= k < r@.len() ==> #[trigger] r@[k] < methods@.len(),
        forall|k: int, l: int| 0 <= k < l < r@.len() ==> #[trigger] r@[k] < #[trigger] r@[l],
        forall|i: int| 0 <= i < methods@.len() ==> (r@.contains(i as usize) <==> is_suggested(
            name.name@,
            (#[trigger] methods@[i]@).name.name_str(),
        )),
{
    let mut r: Vec<usize> = Vec::new();
    let mut i: usize = 0;
    while i < methods.len()
        invariant
            i <= methods@.len(),
            forall|k: int| 0 <= k < r@.len() ==> #[trigger] r@[k] < i,
            forall|k: int, l: int| 0 <= k < l < r@.len() ==> #[trigger] r@[k] < #[trigger] r@[l],
            forall|j: int| 0 <= j < i ==> (r@.contains(j as usize) <==> is_suggested(
                name.name@,
                (#[trigger] methods@[j]@).name.name_str(),
            )),
        decreases methods.len() - i,
    {
        let keep = suggests(name.name.as_str(), methods[i].name.as_str());
        let ghost before = r@;
        if keep {
            r.push(i);
        }
        proof {
            assert forall|j: int| 0 <= j < i + 1 implies (r@.contains(j as usize) <==> is_suggested(
                name.name@,
                (#[trigger] methods@[j]@).name.name_str(),
            )) by {
                if j < i {
                    if r@.contains(j as usize) && !before.contains(j as usize) {
                        assert(r@.last() == i);
                        assert(false);
                    }
                    if before.contains(j as usize) {
                        let k = choose|k: int| 0 <= k < before.len() && before[k] == j as usize;
                        assert(r@[k] == j as usize);
                    }
                } else {
                    if keep {
                        assert(r@[r@.len() - 1] == i);
                    } else {
                        if r@.contains(i) {
                            let k = choose|k: int| 0 <= k < r@.len() && r@[k] == i;
                            assert(r@[k] < i);
                        }
                    }
                }
            }
        }
        i = i + 1;
    }
    r
}

/// The Lume type to suggest for a type name which other languages use.
pub open spec fn newcomer_type(name: Seq<char>) -> Option<Seq<char>> {
    if name == "int"@ {
        Some("Int32"@)
    } else if name == "i8"@ {
        Some("Int8"@)
    } else if name == "u8"@ {
        Some("UInt8"@)
    } else if name == "i16"@ {
        Some("Int16"@)
    } else if name == "u16"@ {
        Some("UInt16"@)
    } else if name == "i32"@ {
        Some("Int32"@)
    } else if name == "u32"@ {
        Some("UInt32"@)
    } else if name == "i64"@ {
        Some("Int64"@)
    } else if name == "u64"@ {
        Some("UInt64"@)
    } else if name == "isize"@ {
        Some("IntPtr"@)
    } else if name == "usize"@ {
        Some("UIntPtr"@)
    } else if name == "f32"@ {
        Some("Float"@)
    } else if name == "f64"@ {
        Some("Double"@)
    } else if name == "str"@ {
        Some("String"@)
    } else if name == "string"@ {
        Some("String"@)
    } else if name == "bool"@ {
        Some("Boolean"@)
    } else if name == "boolean"@ {
        Some("Boolean"@)
    } else {
        None
    }
}

/// The Lume type to suggest for a type name which other languages use,
/// such as `Int32` for `i32`.
pub fn newcomer_type_name(name: &str) -> (r: Option<&'static str>)
    ensures
        match r {
            Some(s) => newcomer_type(name@) == Some(s@),
            None => newcomer_type(name@) is None,
        },
{
    if str_eq(name, "int") {
        Some("Int32")
    } else if str_eq(name, "i8") {
        Some("Int8")
    } else if str_eq(name, "u8") {
        Some("UInt8")
    } else if str_eq(name, "i16") {
        Some("Int16")
    } else if str_eq(name, "u16") {
        Some("UInt16")
    } else if str_eq(name, "i32") {
        Some("Int32")
    } else if str_eq(name, "u32") {
        Some("UInt32")
    } else if str_eq(name, "i64") {
        Some("Int64")
    } else if str_eq(name, "u64") {
        Some("UInt64")
    } else if str_eq(name, "isize") {
        Some("IntPtr")
    } else if str_eq(name, "usize") {
        Some("UIntPtr")
    } else if str_eq(name, "f32") {
        Some("Float")
    } else if str_eq(name, "f64") {
        Some("Double")
    } else if str_eq(name, "str") {
        Some("String")
    } else if str_eq(name, "string") {
        Some("String")
    } else if str_eq(name, "bool") {
        Some("Boolean")
    } else if str_eq(name, "boolean") {
        Some("Boolean")
    } else {
        None
    }
}

} // verus!

verus! {

/// Every argument is paired once, in order, with a parameter that exists:
/// its own position, or the variadic last parameter beyond the list.
pub proof fn law_zipped_pairs_in_range(arguments: int, parameters: int, vararg: bool, i: int)
    requires
        0 <= arguments <= usize::MAX,
        0 <= parameters <= usize::MAX,
        vararg ==> parameters > 0,
        0 <= i < zipped_len(arguments, parameters, vararg),
    ensures
        zipped_pair(i, parameters).1 == i,
        zipped_pair(i, parameters).0 < parameters,
        i < parameters ==> zipped_pair(i, parameters).0 == i,
{
}

} // verus!
