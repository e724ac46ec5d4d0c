//! What every part of the crate shares. The separator discipline: a list is
//! written item by item, and before each item the writer asks for a comma;
//! the first request gives none. And the way to a shared node: a value is
//! put into the graph once, and its handle is passed around.

use vstd::prelude::*;

use crate::codegen::graph::NodeGraph;
use crate::codegen::node_id::NodeID;

verus! {

/// What a request for a separator puts out as text: a comma once something
/// has been written, nothing before.
pub open spec fn separator(comma: bool) -> Seq<char> {
    if comma {
        seq![',']
    } else {
        Seq::empty()
    }
}

/// The same as bytes.
pub open spec fn separator_bytes(comma: bool) -> Seq<u8> {
    if comma {
        seq![0x2cu8]
    } else {
        Seq::empty()
    }
}

/// The items of a list written one after another, a separator asked for
/// before each.
pub open spec fn joined(items: Seq<Seq<char>>) -> Seq<char>
    decreases items.len(),
{
    if items.len() == 0 {
        Seq::empty()
    } else {
        joined(items.drop_last()) + separator(items.len() > 1) + items.last()
    }
}

/// Writing one more item after a list asks for a separator exactly when the
/// list was not empty.
pub proof fn lemma_joined_push(items: Seq<Seq<char>>, item: Seq<char>)
    ensures
        joined(items.push(item)) == joined(items) + separator(items.len() > 0) + item,
{
    assert(items.push(item).drop_last() =~= items);
}

/// A list written from its first item on: the first item, then, where more
/// follow, a separator and the rest.
pub proof fn lemma_joined_front(first: Seq<char>, rest: Seq<Seq<char>>)
    ensures
        joined(seq![first] + rest) == first + if rest.len() > 0 {
            seq![','] + joined(rest)
        } else {
            Seq::<char>::empty()
        },
    decreases rest.len(),
{
    let all = seq![first] + rest;
    if rest.len() == 0 {
        assert(all =~= Seq::<Seq<char>>::empty().push(first));
        lemma_joined_push(Seq::<Seq<char>>::empty(), first);
        assert(joined(all) =~= first + Seq::<char>::empty());
    } else {
        let init = rest.drop_last();
        lemma_joined_front(first, init);
        assert(all =~= (seq![first] + init).push(rest.last()));
        lemma_joined_push(seq![first] + init, rest.last());
        assert(rest =~= init.push(rest.last()));
        lemma_joined_push(init, rest.last());
        if init.len() == 0 {
            assert(joined(init) =~= Seq::<char>::empty());
            assert(joined(all) =~= first + (seq![','] + joined(rest)));
        } else {
            assert(joined(all) =~= first + (seq![','] + joined(rest)));
        }
    }
}

/// The number of separators that a list of `k` items is written with.
pub open spec fn separator_count(k: nat) -> nat {
    if k == 0 {
        0
    } else {
        (k - 1) as nat
    }
}

/// The number of characters that the items hold together.
pub open spec fn total_len(items: Seq<Seq<char>>) -> nat
    decreases items.len(),
{
    if items.len() == 0 {
        0
    } else {
        total_len(items.drop_last()) + items.last().len()
    }
}

/// A list of `k` items is written with `k - 1` separators, and with none
/// where it is empty: beside the items' own characters the text holds one
/// character for each.
pub proof fn lemma_joined_separator_count(items: Seq<Seq<char>>)
    ensures
        joined(items).len() == total_len(items) + separator_count(items.len()),
    decreases items.len(),
{
    if items.len() > 0 {
        lemma_joined_separator_count(items.drop_last());
    }
}

/// No separator leads and none trails: a list that is not empty begins with
/// its first item and ends with its last.
pub proof fn lemma_joined_ends(items: Seq<Seq<char>>)
    requires
        items.len() > 0,
    ensures
        items.first().is_prefix_of(joined(items)),
        items.last().is_suffix_of(joined(items)),
    decreases items.len(),
{
    let text = joined(items);
    let last = items.last();
    assert(text.subrange(text.len() - last.len(), text.len() as int) =~= last);
    if items.len() == 1 {
        assert(items.drop_last() =~= Seq::<Seq<char>>::empty());
        assert(joined(items.drop_last()) =~= Seq::<char>::empty());
        assert(text =~= items.first());
        assert(text.subrange(0, items.first().len() as int) =~= items.first());
    } else {
        let before = items.drop_last();
        lemma_joined_ends(before);
        assert(before.first() == items.first());
        assert(joined(before).subrange(0, items.first().len() as int) =~= items.first());
        assert(text.subrange(0, items.first().len() as int) =~= items.first());
    }
}

/// The texts of the lists of up to three items: the items in order, a
/// separator between each two, none before the first or after the last.
pub proof fn lemma_joined_up_to_three(a: Seq<char>, b: Seq<char>, c: Seq<char>)
    ensures
        joined(Seq::empty()) == Seq::<char>::empty(),
        joined(seq![a]) == a,
        joined(seq![a, b]) == a + seq![','] + b,
        joined(seq![a, b, c]) == a + seq![','] + b + seq![','] + c,
{
    let none = Seq::<Seq<char>>::empty();
    lemma_joined_push(none, a);
    lemma_joined_push(seq![a], b);
    lemma_joined_push(seq![a, b], c);
    assert(none.push(a) =~= seq![a]);
    assert(seq![a].push(b) =~= seq![a, b]);
    assert(seq![a, b].push(c) =~= seq![a, b, c]);
    assert(joined(seq![a]) =~= a);
}

/// The separator as bytes is the separator as text, character by character.
pub proof fn lemma_separator_bytes(comma: bool)
    ensures
        separator_bytes(comma) == Seq::new(
            separator(comma).len(),
            |i: int| separator(comma)[i] as u8,
        ),
{
    assert(separator_bytes(comma) =~= Seq::new(
        separator(comma).len(),
        |i: int| separator(comma)[i] as u8,
    ));
}

/// Writes the separator that is due before the next item of a list of
/// bytes, and records that an item follows.
pub fn write_comma_io(file: &mut Vec<u8>, comma: &mut bool)
    ensures
        final(file)@ == old(file)@ + separator_bytes(*old(comma)),
        *final(comma),
{
    if *comma {
        file.push(0x2cu8);
    }
    *comma = true;
}

/// Writes the separator that is due before the next item of a list of
/// text, and records that an item follows.
pub fn write_comma_fmt(file: &mut String, comma: &mut bool)
    ensures
        final(file)@ == old(file)@ + separator(*old(comma)),
        *final(comma),
{
    if *comma {
        file.append(",");
        proof {
            reveal_strlit(",");
            assert(","@ =~= seq![',']);
        }
    }
    *comma = true;
}

/// Puts a value into the graph as a new node and gives the handle by which
/// every holder reads and replaces it. The handle was never issued before,
/// and the nodes issued earlier stay as they are.
pub fn rrc<T>(graph: &mut NodeGraph<T>, value: T) -> (id: NodeID)
    ensures
        !old(graph).issued(id),
        id@ == old(graph)@.len(),
        final(graph)@ == old(graph)@.push(Some(value)),
        final(graph).materialized(id),
{
    let id = graph.allocate();
    graph.set(id, value);
    assert(graph@ =~= old(graph)@.push(Some(value)));
    id
}

} // verus!
