//! Writing blocks: the member that carries a fragment, and the blocks of a
//! graph one after another.

use vstd::prelude::*;

use super::error::ErrorKind;
use super::graph::NodeGraph;
use super::mutation::{fragment, member_text, Member, Mutation, MutationView};
use super::node_id::NodeID;
use crate::misc::{joined, lemma_joined_push, separator, write_comma_fmt};

verus! {

/// The member of a block that carries the fragment of a record. It follows
/// other members of the block, so a separator stands before it.
pub open spec fn mutation_member(m: MutationView) -> Seq<char> {
    separator(true) + member_text(Member { key: "mutation"@, value: fragment(m) })
}

/// The texts of the blocks of a graph in which every node has a payload, in
/// the order in which the handles were issued.
pub open spec fn block_texts(slots: Seq<Option<String>>) -> Seq<Seq<char>> {
    Seq::new(slots.len(), |i: int| slots[i].unwrap()@)
}

/// Whether every node has a payload.
pub open spec fn all_materialized(slots: Seq<Option<String>>) -> bool {
    forall|i: int| 0 <= i < slots.len() ==> #[trigger] slots[i] is Some
}

/// Writes, after the members that a block already has, the member that
/// carries the fragment of the record.
pub fn write_mutation(out: &mut String, mutation: &Mutation)
    ensures
        final(out)@ == old(out)@ + mutation_member(mutation@),
{
    let mut comma = true;
    write_comma_fmt(out, &mut comma);
    out.append("\"");
    out.append("mutation");
    out.append("\":");
    let ghost keyed = out@;
    mutation.fmt(out);
    proof {
        reveal_strlit("\"");
        reveal_strlit("\":");
        assert(keyed =~= old(out)@ + separator(true) + (seq!['"'] + "mutation"@ + seq!['"'] + seq![
            ':',
        ]));
        assert(out@ =~= old(out)@ + mutation_member(mutation@));
    }
}

/// Writes the blocks of the graph, each node's payload being the text of
/// its block, in the order in which the handles were issued and with a
/// separator between each two. Where a node has no payload the graph is
/// refused and nothing is written.
pub fn write_blocks(out: &mut String, graph: &NodeGraph<String>) -> (done: Result<(), ErrorKind>)
    ensures
        match done {
            Ok(()) => all_materialized(graph@) && final(out)@ == old(out)@ + joined(
                block_texts(graph@),
            ),
            Err(kind) => !all_materialized(graph@) && kind == ErrorKind::UnmaterializedNodeAccess
                && final(out)@ == old(out)@,
        },
{
    let count = graph.len();
    let mut i: usize = 0;
    while i < count
        invariant
            i <= count,
            count == graph@.len(),
            out@ == old(out)@,
            forall|j: int| 0 <= j < i ==> #[trigger] graph@[j] is Some,
        decreases count - i,
    {
        if !graph.is_materialized(NodeID::new(i)) {
            assert(!(graph@[i as int] is Some));
            return Err(ErrorKind::UnmaterializedNodeAccess);
        }
        i += 1;
    }
    let ghost texts = block_texts(graph@);
    let mut comma = false;
    let mut i: usize = 0;
    assert(out@ =~= old(out)@ + joined(texts.take(0)));
    while i < count
        invariant
            i <= count,
            count == graph@.len(),
            all_materialized(graph@),
            texts == block_texts(graph@),
            comma == (i > 0),
            out@ == old(out)@ + joined(texts.take(i as int)),
        decreases count - i,
    {
        write_comma_fmt(out, &mut comma);
        match graph.get(NodeID::new(i)) {
            Ok(text) => {
                out.append(text.as_str());
            },
            Err(_) => {
                assert(graph@[i as int] is Some);
            },
        }
        proof {
            assert(texts.take(i + 1) =~= texts.take(i as int).push(texts[i as int]));
            lemma_joined_push(texts.take(i as int), texts[i as int]);
            assert(out@ =~= old(out)@ + joined(texts.take(i + 1)));
        }
        i += 1;
    }
    assert(texts.take(i as int) =~= texts);
    Ok(())
}

} // verus!
