//! Conditional rendering: an `only-if` gate compares a resolved left-hand
//! value against resolved right-hand values, or, with no operator, tests the
//! left value for non-emptiness.
use vstd::prelude::*;

use crate::strings::str_eq;
use crate::templates::bindings_map;
use crate::templates::TemplateAwareString;
use crate::templates::TemplateAwareStringView;
use crate::templates::TemplateError;

verus! {

/// A visibility condition over a data record.
#[derive(PartialEq, Eq, Debug)]
pub struct OnlyIf {
    pub left: TemplateAwareString,
    pub op: Option<OnlyIfOperator>,
    pub right: Vec<TemplateAwareString>,
}

#[derive(PartialEq, Eq, Debug, Clone, Copy, Structural)]
pub enum OnlyIfOperator {
    Equal,
    NotEqual,
    In,
    NotIn,
}

#[derive(PartialEq, Eq, Debug)]
pub enum OnlyIfError {
    InvalidOperator { given: String },
}

/// The mathematical value of a condition.
pub struct OnlyIfView {
    pub left: TemplateAwareStringView,
    pub op: Option<OnlyIfOperator>,
    pub right: Seq<TemplateAwareStringView>,
}

impl View for OnlyIf {
    type V = OnlyIfView;

    open spec fn view(&self) -> OnlyIfView {
        OnlyIfView {
            left: self.left@,
            op: self.op,
            right: self.right@.map_values(|t: TemplateAwareString| t@),
        }
    }
}

impl Clone for OnlyIf {
    fn clone(&self) -> (r: Self)
        ensures
            r@ == self@,
    {
        let mut right: Vec<TemplateAwareString> = Vec::new();
        let mut i: usize = 0;
        while i < self.right.len()
            invariant
                i <= self.right@.len(),
                right@.len() == i,
                forall|j: int| 0 <= j < i ==> (#[trigger] right@[j])@ == self.right@[j]@,
            decreases self.right@.len() - i,
        {
            right.push(self.right[i].clone());
            i += 1;
        }
        let r = OnlyIf { left: self.left.clone(), op: self.op, right };
        proof {
            assert(r@.right =~= self@.right);
        }
        r
    }
}

/// Truth of a condition once every template is resolved: `=` and `!=` compare
/// against the first right-hand value only (and are false with none), `in`
/// and `not in` test membership in the whole list, and the operator-less form
/// is true exactly when the left value is non-empty.
pub open spec fn only_if_truth(left: Seq<char>, op: Option<OnlyIfOperator>, right: Seq<Seq<char>>) -> bool {
    match op {
        Some(OnlyIfOperator::Equal) => right.len() > 0 && left == right[0],
        Some(OnlyIfOperator::NotEqual) => right.len() > 0 && left != right[0],
        Some(OnlyIfOperator::In) => right.contains(left),
        Some(OnlyIfOperator::NotIn) => !right.contains(left),
        None => left.len() > 0,
    }
}

/// `in` and `not in` are complements of each other for any fixed left value
/// and right-hand list; the operator-less form is true exactly when the left
/// value is non-empty.
pub proof fn lemma_only_if_complement(left: Seq<char>, right: Seq<Seq<char>>)
    ensures
        only_if_truth(left, Some(OnlyIfOperator::In), right) == !only_if_truth(
            left,
            Some(OnlyIfOperator::NotIn),
            right,
        ),
        only_if_truth(left, None, right) == (left.len() > 0),
{
}

/// The views of a list of resolved strings.
pub open spec fn strs_view(v: Seq<String>) -> Seq<Seq<char>> {
    v.map_values(|s: String| s@)
}

/// Decides a condition whose templates are already resolved.
pub fn evaluate_resolved(left: &String, op: &Option<OnlyIfOperator>, right: &Vec<String>) -> (r:
    bool)
    ensures
        r == only_if_truth(left@, *op, strs_view(right@)),
{
    match op {
        Some(OnlyIfOperator::Equal) => {
            if right.len() > 0 {
                str_eq(left.as_str(), right[0].as_str())
            } else {
                false
            }
        },
        Some(OnlyIfOperator::NotEqual) => {
            if right.len() > 0 {
                !str_eq(left.as_str(), right[0].as_str())
            } else {
                false
            }
        },
        Some(OnlyIfOperator::In) => contains_str(right, left),
        Some(OnlyIfOperator::NotIn) => !contains_str(right, left),
        None => left.as_str().unicode_len() > 0,
    }
}

/// True exactly when some element of `v` holds the same characters as `x`.
fn contains_str(v: &Vec<String>, x: &String) -> (r: bool)
    ensures
        r == strs_view(v@).contains(x@),
{
    let mut i: usize = 0;
    while i < v.len()
        invariant
            i <= v@.len(),
            forall|j: int| 0 <= j < i ==> strs_view(v@)[j] != x@,
        decreases v@.len() - i,
    {
        if str_eq(v[i].as_str(), x.as_str()) {
            proof {
                assert(strs_view(v@)[i as int] == x@);
            }
            return true;
        }
        i += 1;
    }
    proof {
        assert(!strs_view(v@).contains(x@)) by {
            assert(forall|j: int| 0 <= j < strs_view(v@).len() ==> strs_view(v@)[j] != x@);
        }
    }
    false
}

/// What resolving every right-hand template yields, when all succeed.
pub open spec fn resolved_right(
    right: Seq<TemplateAwareStringView>,
    bindings: Map<Seq<char>, Seq<char>>,
) -> Seq<Seq<char>> {
    right.map_values(|t: TemplateAwareStringView| t.resolved(bindings)->0)
}

/// True when every right-hand template of the condition resolves.
pub open spec fn right_all_resolve(
    right: Seq<TemplateAwareStringView>,
    bindings: Map<Seq<char>, Seq<char>>,
) -> bool {
    forall|i: int| 0 <= i < right.len() ==> (#[trigger] right[i].resolved(bindings)) is Some
}

impl OnlyIf {
    /// Evaluates the condition against a record's bindings: resolves the left
    /// and every right-hand value, then compares as `only_if_truth` says. Any
    /// unresolved template surfaces its error instead.
    pub fn evaluate(&self, bindings: &Vec<(String, String)>) -> (r: Result<bool, TemplateError>)
        ensures
            ({
                let ctx = bindings_map(bindings@);
                &&& (self@.left.resolved(ctx) is Some && right_all_resolve(self@.right, ctx))
                    ==> (r matches Ok(b) && b == only_if_truth(
                    self@.left.resolved(ctx)->0,
                    self.op,
                    resolved_right(self@.right, ctx),
                ))
                &&& (self@.left.resolved(ctx) is None || !right_all_resolve(self@.right, ctx))
                    ==> r is Err
            }),
    {
        let ghost ctx = bindings_map(bindings@);
        let left_val = match self.left.render(bindings) {
            Ok(v) => v,
            Err(e) => {
                return Err(e);
            },
        };
        let mut right_vals: Vec<String> = Vec::new();
        let mut i: usize = 0;
        while i < self.right.len()
            invariant
                i <= self.right@.len(),
                ctx == bindings_map(bindings@),
                right_vals@.len() == i,
                forall|j: int| 0 <= j < i ==> (#[trigger] self@.right[j].resolved(ctx)) is Some,
                forall|j: int| 0 <= j < i ==> (#[trigger] right_vals@[j])@ == self@.right[
                    j
                ].resolved(ctx)->0,
            decreases self.right@.len() - i,
        {
            proof {
                assert(self@.right[i as int] == self.right@[i as int]@);
            }
            match self.right[i].render(bindings) {
                Ok(v) => {
                    right_vals.push(v);
                },
                Err(e) => {
                    proof {
                        assert(self@.right[i as int].resolved(ctx) is None);
                    }
                    return Err(e);
                },
            }
            i += 1;
        }
        proof {
            assert(strs_view(right_vals@) =~= resolved_right(self@.right, ctx));
        }
        Ok(evaluate_resolved(&left_val, &self.op, &right_vals))
    }
}

/// The operator a token names, tried in the order the reader tries them.
pub open spec fn operator_keyword(s: Seq<char>) -> Option<OnlyIfOperator> {
    if s == "="@ {
        Some(OnlyIfOperator::Equal)
    } else if s == "!="@ {
        Some(OnlyIfOperator::NotEqual)
    } else if s == "in"@ {
        Some(OnlyIfOperator::In)
    } else if s == "not in"@ {
        Some(OnlyIfOperator::NotIn)
    } else {
        None
    }
}

impl OnlyIfOperator {
    /// Reads a comparison operator; anything else is rejected.
    pub fn from_str(s: &str) -> (r: Result<OnlyIfOperator, OnlyIfError>)
        ensures
            operator_keyword(s@) matches Some(o) ==> r == Ok::<_, OnlyIfError>(o),
            operator_keyword(s@) is None ==> (r matches Err(OnlyIfError::InvalidOperator { given })
                && given@ == s@),
    {
        if str_eq(s, "=") {
            Ok(OnlyIfOperator::Equal)
        } else if str_eq(s, "!=") {
            Ok(OnlyIfOperator::NotEqual)
        } else if str_eq(s, "in") {
            Ok(OnlyIfOperator::In)
        } else if str_eq(s, "not in") {
            Ok(OnlyIfOperator::NotIn)
        } else {
            Err(OnlyIfError::InvalidOperator { given: String::from_str(s) })
        }
    }
}

} // verus!
