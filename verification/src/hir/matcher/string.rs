//! Matchers on strings, such as documentation comments.
use vstd::prelude::*;

use crate::hir::matcher::{Bindings, Predicate};
use crate::map::HirMap;

verus! {

/// Whether `part` occurs somewhere in `text`.
pub open spec fn contains_text(text: Seq<char>, part: Seq<char>) -> bool {
    exists|i: int| 0 <= i && i + part.len() <= text.len() && #[trigger] text.subrange(i, i + part.len()) == part
}

/// Matches strings by whether they are empty.
pub struct EmptyMatcher {
    empty: bool,
}

impl EmptyMatcher {
    /// Whether empty strings are the ones matched.
    pub closed spec fn wanted(&self) -> bool {
        self.empty
    }
}

/// Matches strings which are empty when `empty` is `true`, and strings
/// which are not when it is `false`.
pub fn str_empty(empty: bool) -> (r: EmptyMatcher)
    ensures
        r.wanted() == empty,
{
    EmptyMatcher { empty }
}

impl Predicate<String> for EmptyMatcher {
    /// Matched as the text is empty or not, as wanted; nothing is bound.
    open spec fn answers(&self, hir: HirMap, subject: String, before: Bindings, r: bool, after: Bindings) -> bool {
        r == ((subject@.len() == 0) == self.wanted()) && after == before
    }

    fn satisfies(&self, hir: &HirMap, subject: &String, bindings: &mut Bindings) -> (r: bool)
        ensures
            r == ((subject@.len() == 0) == self.wanted()),
            *final(bindings) == *old(bindings),
    {
        (subject.as_str().unicode_len() == 0) == self.empty
    }
}

/// Matches strings which contain a given substring.
pub struct ContainsMatcher {
    value: String,
}

impl ContainsMatcher {
    /// The substring which is looked for.
    pub closed spec fn wanted(&self) -> Seq<char> {
        self.value@
    }
}

/// Matches strings which contain `value`.
pub fn str_contains(value: &str) -> (r: ContainsMatcher)
    ensures
        r.wanted() == value@,
{
    ContainsMatcher { value: value.to_string() }
}

/// Whether `part` occurs in `text` at position `at`.
fn occurs_at(text: &str, part: &str, at: usize) -> (r: bool)
    requires
        at + part@.len() <= text@.len(),
    ensures
        r == (text@.subrange(at as int, at + part@.len()) == part@),
{
    let m = part.unicode_len();
    let n = text.unicode_len();
    let mut j: usize = 0;
    while j < m
        invariant
            j <= m,
            m == part@.len(),
            n == text@.len(),
            at + m <= n,
            forall|k: int| 0 <= k < j ==> text@[at + k] == part@[k],
        decreases m - j,
    {
        if text.get_char(at + j) != part.get_char(j) {
            proof {
                assert(text@.subrange(at as int, at + m)[j as int] != part@[j as int]);
            }
            return false;
        }
        j = j + 1;
    }
    proof {
        assert(text@.subrange(at as int, at + m) =~= part@);
    }
    true
}

impl Predicate<String> for ContainsMatcher {
    /// Texts which contain the wanted text are matched; nothing is bound.
    open spec fn answers(&self, hir: HirMap, subject: String, before: Bindings, r: bool, after: Bindings) -> bool {
        r == contains_text(subject@, self.wanted()) && after == before
    }

    fn satisfies(&self, hir: &HirMap, subject: &String, bindings: &mut Bindings) -> (r: bool)
        ensures
            r == contains_text(subject@, self.wanted()),
            *final(bindings) == *old(bindings),
    {
        let text = subject.as_str();
        let part = self.value.as_str();
        let n = text.unicode_len();
        let m = part.unicode_len();
        if m > n {
            proof {
                assert forall|i: int| 0 <= i && i + m <= n implies #[trigger] text@.subrange(i, i + m) != part@ by {}
            }
            return false;
        }
        let last = n - m;
        let mut at: usize = 0;
        while at < last
            invariant
                m <= n,
                last == n - m,
                text@ == subject@,
                part@ == self.wanted(),
                n == text@.len(),
                m == part@.len(),
                at <= last,
                forall|i: int| 0 <= i < at ==> #[trigger] text@.subrange(i, i + m) != part@,
            decreases last - at,
        {
            if occurs_at(text, part, at) {
                proof {
                    assert(text@.subrange(at as int, at + m) == part@);
                    assert(subject@.subrange(at as int, at as int + self.wanted().len()) == self.wanted());
                }
                return true;
            }
            at = at + 1;
        }
        if occurs_at(text, part, last) {
            proof {
                assert(text@.subrange(last as int, last + m) == part@);
                assert(subject@.subrange(last as int, last as int + self.wanted().len()) == self.wanted());
            }
            true
        } else {
            proof {
                assert forall|i: int| 0 <= i && i + m <= n implies #[trigger] text@.subrange(i, i + m) != part@ by {
                    if i == last as int {
                    } else {
                        assert(i < at);
                    }
                }
            }
            false
        }
    }
}

} // verus!
