//! Reading back what a fragment holds: the array of strings that stands,
//! quotes escaped, inside a string value.

use vstd::prelude::*;

use super::mutation::{
    argument_ids, escaped_array, escaped_string, escaped_strings, string_value, MutationView,
};
use crate::misc::{joined, lemma_joined_front, separator};

verus! {

/// Whether a character stands for itself between the quotes of a string
/// value: it is neither a quote nor a backslash nor a control character.
pub open spec fn plain_char(c: char) -> bool {
    c != '"' && c != '\\' && c as u32 >= 0x20
}

/// Whether every character of a text stands for itself between quotes.
pub open spec fn plain(text: Seq<char>) -> bool {
    forall|i: int| 0 <= i < text.len() ==> plain_char(#[trigger] text[i])
}

/// Whether every item is plain.
pub open spec fn all_plain(items: Seq<Seq<char>>) -> bool {
    forall|i: int| 0 <= i < items.len() ==> plain(#[trigger] items[i])
}

/// The text that the content of a string value stands for: a backslash and
/// the quote or backslash after it give that character, every plain
/// character gives itself. `None` where the content holds anything else.
pub open spec fn unescaped(content: Seq<char>) -> Option<Seq<char>>
    decreases content.len(),
{
    if content.len() == 0 {
        Some(Seq::empty())
    } else if content[0] == '\\' {
        if content.len() >= 2 && (content[1] == '"' || content[1] == '\\') {
            match unescaped(content.skip(2)) {
                Some(rest) => Some(seq![content[1]] + rest),
                None => None,
            }
        } else {
            None
        }
    } else if plain_char(content[0]) {
        match unescaped(content.skip(1)) {
            Some(rest) => Some(seq![content[0]] + rest),
            None => None,
        }
    } else {
        None
    }
}

/// A text split at its first quote: the plain characters before the quote,
/// and what follows it. `None` where no quote is met, or something that is
/// not plain is met before it.
pub open spec fn until_quote(text: Seq<char>) -> Option<(Seq<char>, Seq<char>)>
    decreases text.len(),
{
    if text.len() == 0 {
        None
    } else if text[0] == '"' {
        Some((Seq::empty(), text.skip(1)))
    } else if plain_char(text[0]) {
        match until_quote(text.skip(1)) {
            Some((content, rest)) => Some((seq![text[0]] + content, rest)),
            None => None,
        }
    } else {
        None
    }
}

/// The strings of an array whose opening bracket has been read: one string
/// value, then either the closing bracket and the end of the text, or a
/// comma and more strings.
pub open spec fn parsed_items(text: Seq<char>) -> Option<Seq<Seq<char>>>
    decreases text.len(),
    via parsed_items_decreases
{
    if text.len() == 0 || text[0] != '"' {
        None
    } else {
        match until_quote(text.skip(1)) {
            None => None,
            Some((content, rest)) => if rest == seq![']'] {
                Some(seq![content])
            } else if rest.len() > 0 && rest[0] == ',' {
                match parsed_items(rest.skip(1)) {
                    Some(more) => Some(seq![content] + more),
                    None => None,
                }
            } else {
                None
            },
        }
    }
}

#[via_fn]
proof fn parsed_items_decreases(text: Seq<char>) {
    if text.len() > 0 {
        lemma_until_quote_shorter(text.skip(1));
    }
}

/// The strings of an array, given its text: brackets around string values
/// that commas separate. `None` where the text is no such array.
pub open spec fn parsed_array(text: Seq<char>) -> Option<Seq<Seq<char>>> {
    if text == seq!['[', ']'] {
        Some(Seq::empty())
    } else if text.len() > 0 && text[0] == '[' {
        parsed_items(text.skip(1))
    } else {
        None
    }
}

/// The strings that the content of a string value holds as an array.
pub open spec fn decoded_array(content: Seq<char>) -> Option<Seq<Seq<char>>> {
    match unescaped(content) {
        Some(text) => parsed_array(text),
        None => None,
    }
}

/// Each item as a string value.
pub open spec fn string_values(items: Seq<Seq<char>>) -> Seq<Seq<char>> {
    Seq::new(items.len(), |i: int| string_value(items[i]))
}

/// The text of an array of strings.
pub open spec fn array_text(items: Seq<Seq<char>>) -> Seq<char> {
    seq!['['] + joined(string_values(items)) + seq![']']
}

/// What follows the first quote of a text is shorter than the text.
proof fn lemma_until_quote_shorter(text: Seq<char>)
    ensures
        until_quote(text) matches Some((content, rest)) ==> content.len() + 1 + rest.len()
            == text.len(),
    decreases text.len(),
{
    if text.len() > 0 && text[0] != '"' && plain_char(text[0]) {
        lemma_until_quote_shorter(text.skip(1));
    }
}

/// Plain characters at the head of a content come out as they are.
proof fn lemma_unescaped_plain(head: Seq<char>, rest: Seq<char>)
    requires
        plain(head),
    ensures
        unescaped(head + rest) == match unescaped(rest) {
            Some(r) => Some(head + r),
            None => None,
        },
    decreases head.len(),
{
    if head.len() == 0 {
        assert(head + rest =~= rest);
        if let Some(r) = unescaped(rest) {
            assert(head + r =~= r);
        }
    } else {
        let text = head + rest;
        assert(text[0] == head[0]);
        assert(plain_char(head[0]));
        assert(text.skip(1) =~= head.skip(1) + rest);
        lemma_unescaped_plain(head.skip(1), rest);
        if let Some(r) = unescaped(rest) {
            assert(seq![head[0]] + (head.skip(1) + r) =~= head + r);
        }
    }
}

/// An escaped quote at the head of a content comes out as a quote.
proof fn lemma_unescaped_quote(rest: Seq<char>)
    ensures
        unescaped(seq!['\\', '"'] + rest) == match unescaped(rest) {
            Some(r) => Some(seq!['"'] + r),
            None => None,
        },
{
    let text = seq!['\\', '"'] + rest;
    assert(text[0] == '\\');
    assert(text[1] == '"');
    assert(text.skip(2) =~= rest);
}

/// An escaped string at the head of a content comes out as a string value.
proof fn lemma_unescaped_string(item: Seq<char>, rest: Seq<char>)
    requires
        plain(item),
    ensures
        unescaped(escaped_string(item) + rest) == match unescaped(rest) {
            Some(r) => Some(string_value(item) + r),
            None => None,
        },
{
    let quote = seq!['\\', '"'];
    let closing = quote + rest;
    let inner = item + closing;
    assert(escaped_string(item) + rest =~= quote + inner);
    lemma_unescaped_quote(inner);
    lemma_unescaped_plain(item, closing);
    lemma_unescaped_quote(rest);
    if let Some(r) = unescaped(rest) {
        assert(seq!['"'] + (item + (seq!['"'] + r)) =~= string_value(item) + r);
    }
}

/// Escaped strings that commas separate come out as string values that
/// commas separate.
proof fn lemma_unescaped_joined(items: Seq<Seq<char>>, rest: Seq<char>, r: Seq<char>)
    requires
        all_plain(items),
        unescaped(rest) == Some(r),
    ensures
        unescaped(joined(escaped_strings(items)) + rest) == Some(
            joined(string_values(items)) + r,
        ),
    decreases items.len(),
{
    if items.len() == 0 {
        assert(joined(escaped_strings(items)) + rest =~= rest);
        assert(joined(string_values(items)) + r =~= r);
    } else {
        let init = items.drop_last();
        let last = items.last();
        let mark = separator(items.len() > 1);
        assert(escaped_strings(items).drop_last() =~= escaped_strings(init));
        assert(string_values(items).drop_last() =~= string_values(init));
        assert(plain(last));
        assert(all_plain(init)) by {
            assert forall|i: int| 0 <= i < init.len() implies plain(#[trigger] init[i]) by {
                assert(init[i] == items[i]);
            }
        }
        let tail = escaped_string(last) + rest;
        let rest1 = mark + tail;
        let r1 = mark + (string_value(last) + r);
        lemma_unescaped_string(last, rest);
        assert(plain(mark));
        lemma_unescaped_plain(mark, tail);
        lemma_unescaped_joined(init, rest1, r1);
        assert(joined(escaped_strings(items)) + rest =~= joined(escaped_strings(init)) + rest1);
        assert(joined(string_values(items)) + r =~= joined(string_values(init)) + r1);
    }
}

/// The content that an array of plain strings is written as stands for the
/// text of that array.
proof fn lemma_unescaped_array(items: Seq<Seq<char>>)
    requires
        all_plain(items),
    ensures
        unescaped(escaped_array(items)) == Some(array_text(items)),
{
    let open = seq!['['];
    let close = seq![']'];
    let none = Seq::<char>::empty();
    assert(plain(open));
    assert(plain(close));
    lemma_unescaped_plain(close, none);
    assert(close + none =~= close);
    lemma_unescaped_joined(items, close, close);
    lemma_unescaped_plain(open, joined(escaped_strings(items)) + close);
    assert(escaped_array(items) =~= open + (joined(escaped_strings(items)) + close));
    assert(array_text(items) =~= open + (joined(string_values(items)) + close));
}

/// A plain text and the quote after it are split at that quote.
proof fn lemma_until_quote_plain(item: Seq<char>, tail: Seq<char>)
    requires
        plain(item),
    ensures
        until_quote(item + seq!['"'] + tail) == Some((item, tail)),
    decreases item.len(),
{
    let text = item + seq!['"'] + tail;
    if item.len() == 0 {
        assert(text[0] == '"');
        assert(text.skip(1) =~= tail);
        assert(item =~= Seq::<char>::empty());
    } else {
        assert(text[0] == item[0]);
        assert(plain_char(item[0]));
        assert(text.skip(1) =~= item.skip(1) + seq!['"'] + tail);
        lemma_until_quote_plain(item.skip(1), tail);
        assert(seq![item[0]] + item.skip(1) =~= item);
    }
}

/// The string values of plain items, commas between them and a closing
/// bracket after them, are read back as those items.
proof fn lemma_parsed_items(items: Seq<Seq<char>>)
    requires
        items.len() > 0,
        all_plain(items),
    ensures
        parsed_items(joined(string_values(items)) + seq![']']) == Some(items),
    decreases items.len(),
{
    let first = items[0];
    let rest = items.skip(1);
    let close = seq![']'];
    let text = joined(string_values(items)) + close;
    assert(string_values(items) =~= seq![string_value(first)] + string_values(rest));
    lemma_joined_front(string_value(first), string_values(rest));
    let tail = if rest.len() > 0 {
        seq![','] + joined(string_values(rest)) + close
    } else {
        close
    };
    assert(text =~= seq!['"'] + (first + seq!['"'] + tail));
    assert(text[0] == '"');
    assert(text.skip(1) =~= first + seq!['"'] + tail);
    assert(plain(first));
    lemma_until_quote_plain(first, tail);
    if rest.len() == 0 {
        assert(seq![first] =~= items);
    } else {
        assert(tail[0] == ',');
        assert(tail.len() >= 2);
        assert(tail != close);
        assert(tail.skip(1) =~= joined(string_values(rest)) + close);
        assert(all_plain(rest)) by {
            assert forall|i: int| 0 <= i < rest.len() implies plain(#[trigger] rest[i]) by {
                assert(rest[i] == items[i + 1]);
            }
        }
        lemma_parsed_items(rest);
        assert(seq![first] + rest =~= items);
    }
}

/// The array that plain strings are written as, inside a string value, is
/// read back as those strings, in their order.
pub proof fn lemma_decode_escaped_array(items: Seq<Seq<char>>)
    requires
        all_plain(items),
    ensures
        decoded_array(escaped_array(items)) == Some(items),
{
    lemma_unescaped_array(items);
    let text = array_text(items);
    if items.len() == 0 {
        assert(items =~= Seq::<Seq<char>>::empty());
        assert(text =~= seq!['[', ']']);
    } else {
        lemma_parsed_items(items);
        assert(text[0] == '[');
        assert(text.len() >= 3) by {
            assert(text.len() == 1 + (joined(string_values(items)) + seq![']']).len());
            lemma_joined_front(string_value(items[0]), string_values(items.skip(1)));
            assert(string_values(items) =~= seq![string_value(items[0])] + string_values(
                items.skip(1),
            ));
        }
        assert(text != seq!['[', ']']);
        assert(text.skip(1) =~= joined(string_values(items)) + seq![']']);
    }
}

/// The identifiers of a record, where each of them is plain, are what its
/// array of identifiers is read back as: the same strings in the same
/// order, as many as the record has arguments.
pub proof fn lemma_argument_ids_decode(m: MutationView)
    requires
        all_plain(argument_ids(m)),
    ensures
        decoded_array(escaped_array(argument_ids(m))) == Some(argument_ids(m)),
        decoded_array(escaped_array(argument_ids(m))).unwrap().len() == m.args.len(),
        forall|i: int|
            0 <= i < m.args.len() ==> decoded_array(escaped_array(argument_ids(m))).unwrap()[i]
                == m.args[i].0,
{
    lemma_decode_escaped_array(argument_ids(m));
}

} // verus!
