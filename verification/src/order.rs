//! The order of issues in the report.
use crate::context::SourceContext;
use crate::issue::{context_of, position_rank, Issue};
use crate::sort::{Rank, Ranked};
use std::cmp::Ordering;
use vstd::prelude::*;

verus! {

/// How two numbers stand to each other.
pub open spec fn order_of_numbers(left: usize, right: usize) -> Ordering {
    if left < right {
        Ordering::Less
    } else if left == right {
        Ordering::Equal
    } else {
        Ordering::Greater
    }
}

/// How two places stand to each other.
///
/// No context comes before any context, and a context that names no file
/// before one that names a file; two contexts that name files are compared
/// by line, then by column. Where the left side has no context, or no file
/// name, the answer is `Less` whatever the right side holds: two such places
/// are each `Less` than the other.
pub open spec fn order_of(left: Option<SourceContext>, right: Option<SourceContext>) -> Ordering {
    match (left, right) {
        (None, _) => Ordering::Less,
        (_, None) => Ordering::Greater,
        (Some(left), Some(right)) => match (left.file_name, right.file_name) {
            (None, _) => Ordering::Less,
            (_, None) => Ordering::Greater,
            (Some(_), Some(_)) => if left.line == right.line {
                order_of_numbers(left.column, right.column)
            } else {
                order_of_numbers(left.line, right.line)
            },
        },
    }
}

/// Compares two numbers.
pub fn compare_numbers(left: usize, right: usize) -> (order: Ordering)
    ensures
        order == order_of_numbers(left, right),
{
    if left < right {
        Ordering::Less
    } else if left == right {
        Ordering::Equal
    } else {
        Ordering::Greater
    }
}

/// Compares two issues by the places where they were found.
pub fn compare_issues(left: &Issue, right: &Issue) -> (order: Ordering)
    ensures
        order == order_of(context_of(*left), context_of(*right)),
{
    match (left.get_context(), right.get_context()) {
        (None, _) => Ordering::Less,
        (_, None) => Ordering::Greater,
        (Some(left), Some(right)) => match (&left.file_name, &right.file_name) {
            (None, _) => Ordering::Less,
            (_, None) => Ordering::Greater,
            (Some(_), Some(_)) => if left.line == right.line {
                compare_numbers(left.column, right.column)
            } else {
                compare_numbers(left.line, right.line)
            },
        },
    }
}

/// `Greater` is the answer exactly where the left issue's sort key is the
/// greater one. So a sort that moves an issue only in front of those it is
/// not `Greater` than orders by that key, and leaves issues of equal key,
/// among them all that each compare `Less` to the other, in the order they
/// came.
pub proof fn lemma_greater_is_higher_rank(left: Issue, right: Issue)
    ensures
        (order_of(context_of(left), context_of(right)) is Greater) == crate::sort::rank_exceeds(
            position_rank(left),
            position_rank(right),
        ),
{
}

impl Ranked for Issue {
    open spec fn rank(&self) -> Rank {
        position_rank(*self)
    }

    fn ranks_after(&self, other: &Self) -> (after: bool) {
        proof {
            lemma_greater_is_higher_rank(*self, *other);
        }
        match compare_issues(self, other) {
            Ordering::Greater => true,
            _ => false,
        }
    }
}

} // verus!
