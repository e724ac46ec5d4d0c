//! The agreement between the definition of a procedure and its calls: one
//! definition for each name and number of arguments, and as many arguments
//! at each call as the definition takes.

use smol_str::SmolStr;
use vstd::prelude::*;

use super::error::ErrorKind;
use super::graph::NodeGraph;
use super::mutation::{args_view, argument_ids, names, Mutation, MutationView};
use super::node_id::NodeID;
use crate::ast::arg::{argument_names, Arg};
use crate::text::{smol_chars, str_eq};
use crate::usage::arg_views;

verus! {

/// Whether two records have the same name and the same number of arguments.
pub open spec fn same_signature(a: MutationView, b: MutationView) -> bool {
    a.name == b.name && a.args.len() == b.args.len()
}

/// The plain values of the records.
pub open spec fn mutation_views(records: Seq<Mutation>) -> Seq<MutationView> {
    Seq::new(records.len(), |i: int| records[i]@)
}

/// Whether two of the records, at different positions, have the same
/// signature.
pub open spec fn has_duplicate(records: Seq<MutationView>) -> bool {
    exists|i: int, j: int|
        0 <= i < j < records.len() && same_signature(#[trigger] records[i], #[trigger] records[j])
}

/// Holds a call against the definition of the procedure that it calls: the
/// call is refused where it gives another number of arguments than the
/// definition takes.
pub fn check_call(prototype: &Mutation, call: &Mutation) -> (checked: Result<(), ErrorKind>)
    ensures
        checked is Ok <==> call@.args.len() == prototype@.args.len(),
        checked is Err ==> checked == Err::<(), ErrorKind>(ErrorKind::ArityMismatch),
{
    if call.arity() == prototype.arity() {
        Ok(())
    } else {
        Err(ErrorKind::ArityMismatch)
    }
}

/// Whether two records have the same name and the same number of arguments.
pub fn has_same_signature(a: &Mutation, b: &Mutation) -> (same: bool)
    ensures
        same == same_signature(a@, b@),
{
    a.arity() == b.arity() && str_eq(a.name().as_str(), b.name().as_str())
}

/// Whether two records name the same arguments in the same order, as the
/// definition of a procedure and each of its calls must.
pub fn has_same_arguments(a: &Mutation, b: &Mutation) -> (same: bool)
    ensures
        same == (argument_ids(a@) == argument_ids(b@)),
{
    if a.arity() != b.arity() {
        assert(argument_ids(a@).len() != argument_ids(b@).len());
        return false;
    }
    let count = a.arity();
    let mut i: usize = 0;
    while i < count
        invariant
            i <= count,
            count == a@.args.len(),
            count == b@.args.len(),
            forall|k: int| 0 <= k < i ==> argument_ids(a@)[k] == argument_ids(b@)[k],
        decreases count - i,
    {
        match (a.argument_name(i), b.argument_name(i)) {
            (Some(left), Some(right)) => {
                if !str_eq(left, right) {
                    assert(argument_ids(a@)[i as int] != argument_ids(b@)[i as int]);
                    return false;
                }
            },
            _ => {},
        }
        i += 1;
    }
    assert(argument_ids(a@) =~= argument_ids(b@));
    true
}

/// Holds the definitions of a program against each other: they are refused
/// where two of them share a name and a number of arguments.
pub fn check_prototypes(prototypes: &Vec<Mutation>) -> (checked: Result<(), ErrorKind>)
    ensures
        checked is Err <==> has_duplicate(mutation_views(prototypes@)),
        checked is Err ==> checked == Err::<(), ErrorKind>(ErrorKind::DuplicateProcedureSignature),
{
    let ghost records = mutation_views(prototypes@);
    let mut j: usize = 0;
    while j < prototypes.len()
        invariant
            j <= prototypes.len(),
            records == mutation_views(prototypes@),
            forall|a: int, b: int|
                0 <= a < b < j ==> !same_signature(#[trigger] records[a], #[trigger] records[b]),
        decreases prototypes.len() - j,
    {
        let mut i: usize = 0;
        while i < j
            invariant
                i <= j < prototypes.len(),
                records == mutation_views(prototypes@),
                forall|a: int| 0 <= a < i ==> !same_signature(#[trigger] records[a], records[j as int]),
            decreases j - i,
        {
            if has_same_signature(&prototypes[i], &prototypes[j]) {
                assert(same_signature(records[i as int], records[j as int]));
                return Err(ErrorKind::DuplicateProcedureSignature);
            }
            i += 1;
        }
        j += 1;
    }
    Ok(())
}

/// Issues a node for each argument of a procedure, in declaration order,
/// and pairs the name of each argument with its node: the argument list of
/// the records of that procedure. The nodes have no payload yet, and the
/// nodes issued earlier stay as they are.
pub fn argument_nodes<T>(graph: &mut NodeGraph<T>, args: &Vec<Arg>) -> (pairs: Vec<
    (SmolStr, NodeID),
>)
    ensures
        pairs@.len() == args@.len(),
        names(args_view(pairs@)) == argument_names(arg_views(args@)),
        forall|i: int| 0 <= i < args@.len() ==> (#[trigger] pairs@[i]).1@ == old(graph)@.len() + i,
        final(graph)@ == old(graph)@ + Seq::new(args@.len(), |i: int| None::<T>),
{
    let mut pairs: Vec<(SmolStr, NodeID)> = Vec::new();
    let mut i: usize = 0;
    assert(graph@ =~= old(graph)@ + Seq::new(0, |i: int| None::<T>));
    while i < args.len()
        invariant
            i <= args.len(),
            pairs@.len() == i,
            forall|k: int| 0 <= k < i ==> smol_chars((#[trigger] pairs@[k]).0) == args@[k]@.name,
            forall|k: int| 0 <= k < i ==> (#[trigger] pairs@[k]).1@ == old(graph)@.len() + k,
            graph@ == old(graph)@ + Seq::new(i as nat, |k: int| None::<T>),
        decreases args.len() - i,
    {
        let id = graph.allocate();
        pairs.push((args[i].name.clone(), id));
        assert(graph@ =~= old(graph)@ + Seq::new((i + 1) as nat, |k: int| None::<T>));
        i += 1;
    }
    assert(names(args_view(pairs@)) =~= argument_names(arg_views(args@)));
    pairs
}

} // verus!
