//! The signature metadata of a custom procedure, as it is attached to the
//! block that defines the procedure and to every block that calls it.

use smol_str::SmolStr;
use vstd::prelude::*;

use super::node_id::NodeID;
use crate::misc::{joined, lemma_joined_push, separator, write_comma_fmt};
use crate::text::smol_chars;

verus! {

/// A mutation record as a plain value.
pub struct MutationView {
    /// The procedure's name.
    pub name: Seq<char>,
    /// The arguments in declaration order, each with the node that stands for it.
    pub args: Seq<(Seq<char>, NodeID)>,
    /// Whether the procedure runs without yielding.
    pub warp: bool,
    /// Whether the record belongs to a call site rather than to the definition.
    pub is_call: bool,
}

/// One member of an object: its key and the text of its value.
pub struct Member {
    pub key: Seq<char>,
    pub value: Seq<char>,
}

/// The plain value of an argument list.
pub open spec fn args_view(args: Seq<(SmolStr, NodeID)>) -> Seq<(Seq<char>, NodeID)> {
    Seq::new(args.len(), |i: int| (smol_chars(args[i].0), args[i].1))
}

/// The text of a boolean.
pub open spec fn bool_text(b: bool) -> Seq<char> {
    if b {
        "true"@
    } else {
        "false"@
    }
}

/// The signature string of a procedure: its name, then one placeholder for
/// each argument.
pub open spec fn proc_code(name: Seq<char>, arity: nat) -> Seq<char>
    decreases arity,
{
    if arity == 0 {
        name
    } else {
        proc_code(name, (arity - 1) as nat) + " %s"@
    }
}

/// A string value: the content between double quotes. Nothing in the content
/// is escaped.
pub open spec fn string_value(content: Seq<char>) -> Seq<char> {
    seq!['"'] + content + seq!['"']
}

/// A string value as it stands inside another string value: each of its two
/// quotes is preceded by a backslash.
pub open spec fn escaped_string(content: Seq<char>) -> Seq<char> {
    seq!['\\', '"'] + content + seq!['\\', '"']
}

/// Each item as an escaped string.
pub open spec fn escaped_strings(items: Seq<Seq<char>>) -> Seq<Seq<char>> {
    Seq::new(items.len(), |i: int| escaped_string(items[i]))
}

/// The text of an array of strings as it stands inside a string value.
pub open spec fn escaped_array(items: Seq<Seq<char>>) -> Seq<char> {
    seq!['['] + joined(escaped_strings(items)) + seq![']']
}

/// The names of an argument list, in declaration order.
pub open spec fn names(args: Seq<(Seq<char>, NodeID)>) -> Seq<Seq<char>> {
    Seq::new(args.len(), |i: int| args[i].0)
}

/// The identifiers of the arguments, in declaration order: their names.
pub open spec fn argument_ids(m: MutationView) -> Seq<Seq<char>> {
    names(m.args)
}

/// The default values of the arguments: an empty text for each.
pub open spec fn argument_defaults(m: MutationView) -> Seq<Seq<char>> {
    Seq::new(m.args.len(), |i: int| Seq::<char>::empty())
}

/// The members that every fragment has, in the order in which they are written.
pub open spec fn common_members(m: MutationView) -> Seq<Member> {
    seq![
        Member { key: "tagName"@, value: string_value("mutation"@) },
        Member { key: "children"@, value: "[]"@ },
        Member { key: "warp"@, value: string_value(bool_text(m.warp)) },
        Member { key: "proccode"@, value: string_value(proc_code(m.name, m.args.len())) },
        Member { key: "argumentids"@, value: string_value(escaped_array(argument_ids(m))) },
    ]
}

/// The members that only the fragment of a definition has.
pub open spec fn prototype_members(m: MutationView) -> Seq<Member> {
    seq![
        Member { key: "argumentnames"@, value: string_value(escaped_array(argument_ids(m))) },
        Member {
            key: "argumentdefaults"@,
            value: string_value(escaped_array(argument_defaults(m))),
        },
    ]
}

/// The members of the fragment of a record.
pub open spec fn members(m: MutationView) -> Seq<Member> {
    if m.is_call {
        common_members(m)
    } else {
        common_members(m) + prototype_members(m)
    }
}

/// The text of one member: the key as a string value, a colon, the value.
pub open spec fn member_text(member: Member) -> Seq<char> {
    string_value(member.key) + seq![':'] + member.value
}

/// The text of each member.
pub open spec fn member_texts(members: Seq<Member>) -> Seq<Seq<char>> {
    Seq::new(members.len(), |i: int| member_text(members[i]))
}

/// The text of an object with the given members.
pub open spec fn object_text(members: Seq<Member>) -> Seq<char> {
    seq!['{'] + joined(member_texts(members)) + seq!['}']
}

/// The fragment of a record: the text that is attached to a block.
pub open spec fn fragment(m: MutationView) -> Seq<char> {
    object_text(members(m))
}

/// The signature metadata of one use of a custom procedure.
pub struct Mutation<'a> {
    name: SmolStr,
    args: &'a Vec<(SmolStr, NodeID)>,
    warp: bool,
    is_call: bool,
}

impl<'a> View for Mutation<'a> {
    type V = MutationView;

    closed spec fn view(&self) -> MutationView {
        MutationView {
            name: smol_chars(self.name),
            args: args_view(self.args@),
            warp: self.warp,
            is_call: self.is_call,
        }
    }
}

impl<'a> Mutation<'a> {
    /// The record of the block that defines the procedure.
    pub fn prototype(name: SmolStr, args: &'a Vec<(SmolStr, NodeID)>, warp: bool) -> (m: Self)
        ensures
            m@ == (MutationView {
                name: smol_chars(name),
                args: args_view(args@),
                warp,
                is_call: false,
            }),
    {
        Self { name, args, warp, is_call: false }
    }

    /// The record of a block that calls the procedure.
    pub fn call(name: SmolStr, args: &'a Vec<(SmolStr, NodeID)>, warp: bool) -> (m: Self)
        ensures
            m@ == (MutationView {
                name: smol_chars(name),
                args: args_view(args@),
                warp,
                is_call: true,
            }),
    {
        Self { name, args, warp, is_call: true }
    }

    /// The procedure's name.
    pub fn name(&self) -> (name: &SmolStr)
        ensures
            smol_chars(*name) == self@.name,
    {
        &self.name
    }

    /// The number of arguments.
    pub fn arity(&self) -> (arity: usize)
        ensures
            arity == self@.args.len(),
    {
        self.args.len()
    }

    /// The name of the argument at position `i`, if the record has one there.
    pub fn argument_name(&self, i: usize) -> (name: Option<&str>)
        ensures
            match name {
                Some(name) => i < self@.args.len() && name@ == self@.args[i as int].0,
                None => i >= self@.args.len(),
            },
    {
        if i < self.args.len() {
            Some(self.args[i].0.as_str())
        } else {
            None
        }
    }

    /// Whether the procedure runs without yielding.
    pub fn warp(&self) -> (warp: bool)
        ensures
            warp == self@.warp,
    {
        self.warp
    }

    /// Whether the record belongs to a call site.
    pub fn is_call(&self) -> (is_call: bool)
        ensures
            is_call == self@.is_call,
    {
        self.is_call
    }

    /// Writes the fragment of the record after what `f` holds.
    pub fn fmt(&self, f: &mut String)
        ensures
            final(f)@ == old(f)@ + fragment(self@),
    {
        let ghost start = f@;
        let ghost all = members(self@);
        let mut comma = false;
        f.append("{");
        proof {
            reveal_strlit("{");
            assert(f@ =~= start + seq!['{'] + joined(member_texts(all.take(0))));
            assert(argument_ids(self@) =~= array_items(self.args@, true));
            assert(argument_defaults(self@) =~= array_items(self.args@, false));
        }

        let ghost before = f@;
        write_text_member(f, &mut comma, "tagName", "mutation");
        proof {
            lemma_member_appended(start, all, 0, before, f@);
        }

        let ghost before = f@;
        write_raw_member(f, &mut comma, "children", "[]");
        proof {
            lemma_member_appended(start, all, 1, before, f@);
        }

        let ghost before = f@;
        write_text_member(f, &mut comma, "warp", if self.warp { "true" } else { "false" });
        proof {
            lemma_member_appended(start, all, 2, before, f@);
        }

        let ghost before = f@;
        write_proc_code_member(f, &mut comma, "proccode", &self.name, self.args.len());
        proof {
            lemma_member_appended(start, all, 3, before, f@);
        }

        let ghost before = f@;
        write_array_member(f, &mut comma, "argumentids", self.args, true);
        proof {
            lemma_member_appended(start, all, 4, before, f@);
        }

        if !self.is_call {
            let ghost before = f@;
            write_array_member(f, &mut comma, "argumentnames", self.args, true);
            proof {
                lemma_member_appended(start, all, 5, before, f@);
            }

            let ghost before = f@;
            write_array_member(f, &mut comma, "argumentdefaults", self.args, false);
            proof {
                lemma_member_appended(start, all, 6, before, f@);
            }
        }
        f.append("}");
        proof {
            reveal_strlit("}");
            assert(all.take(all.len() as int) =~= all);
            assert(f@ =~= start + fragment(self@));
        }
    }

    /// The fragment of the record as a text of its own.
    pub fn to_string(&self) -> (text: String)
        ensures
            text@ == fragment(self@),
    {
        let mut text = String::new();
        self.fmt(&mut text);
        assert(Seq::<char>::empty() + fragment(self@) =~= fragment(self@));
        text
    }
}

/// The items of the array that is written for an argument list: the names,
/// or an empty text in place of each.
spec fn array_items(args: Seq<(SmolStr, NodeID)>, named: bool) -> Seq<Seq<char>> {
    Seq::new(
        args.len(),
        |i: int|
            if named {
                smol_chars(args[i].0)
            } else {
                Seq::<char>::empty()
            },
    )
}

/// A text that holds the first `k` members of an object, followed by the
/// separator that is due and the member at position `k`, holds the first
/// `k + 1` members.
proof fn lemma_member_appended(
    start: Seq<char>,
    all: Seq<Member>,
    k: int,
    before: Seq<char>,
    after: Seq<char>,
)
    requires
        0 <= k < all.len(),
        before == start + seq!['{'] + joined(member_texts(all.take(k))),
        after == before + separator(k > 0) + member_text(all[k]),
    ensures
        after == start + seq!['{'] + joined(member_texts(all.take(k + 1))),
{
    let done = member_texts(all.take(k));
    assert(member_texts(all.take(k + 1)) =~= done.push(member_text(all[k])));
    lemma_joined_push(done, member_text(all[k]));
    assert(after =~= start + seq!['{'] + joined(member_texts(all.take(k + 1))));
}

/// Writes a double quote.
fn write_quote(f: &mut String)
    ensures
        final(f)@ == old(f)@ + seq!['"'],
{
    f.append("\"");
    proof {
        reveal_strlit("\"");
        assert("\""@ =~= seq!['"']);
    }
}

/// Writes the separator that is due, then the key of a member and the colon
/// after it.
fn write_key(f: &mut String, comma: &mut bool, key: &str)
    ensures
        final(f)@ == old(f)@ + separator(*old(comma)) + string_value(key@) + seq![':'],
        *final(comma),
{
    write_comma_fmt(f, comma);
    write_quote(f);
    f.append(key);
    write_quote(f);
    f.append(":");
    proof {
        reveal_strlit(":");
        assert(f@ =~= old(f)@ + separator(*old(comma)) + string_value(key@) + seq![':']);
    }
}

/// Writes a member whose value is the given text as it stands.
fn write_raw_member(f: &mut String, comma: &mut bool, key: &str, value: &str)
    ensures
        final(f)@ == old(f)@ + separator(*old(comma)) + member_text(
            Member { key: key@, value: value@ },
        ),
        *final(comma),
{
    write_key(f, comma, key);
    f.append(value);
}

/// Writes a member whose value is the given text as a string value.
fn write_text_member(f: &mut String, comma: &mut bool, key: &str, content: &str)
    ensures
        final(f)@ == old(f)@ + separator(*old(comma)) + member_text(
            Member { key: key@, value: string_value(content@) },
        ),
        *final(comma),
{
    write_key(f, comma, key);
    let ghost keyed = f@;
    write_quote(f);
    f.append(content);
    write_quote(f);
    assert(f@ =~= keyed + string_value(content@));
}

/// Writes a member whose value is the signature string of a procedure.
fn write_proc_code_member(
    f: &mut String,
    comma: &mut bool,
    key: &str,
    name: &SmolStr,
    arity: usize,
)
    ensures
        final(f)@ == old(f)@ + separator(*old(comma)) + member_text(
            Member { key: key@, value: string_value(proc_code(smol_chars(*name), arity as nat)) },
        ),
        *final(comma),
{
    write_key(f, comma, key);
    let ghost keyed = f@;
    write_quote(f);
    write_proc_code(f, name, arity);
    write_quote(f);
    assert(f@ =~= keyed + string_value(proc_code(smol_chars(*name), arity as nat)));
}

/// Writes a member whose value is an array of the arguments' names, or of
/// an empty text in place of each, inside a string value.
fn write_array_member(
    f: &mut String,
    comma: &mut bool,
    key: &str,
    args: &Vec<(SmolStr, NodeID)>,
    named: bool,
)
    ensures
        final(f)@ == old(f)@ + separator(*old(comma)) + member_text(
            Member { key: key@, value: string_value(escaped_array(array_items(args@, named))) },
        ),
        *final(comma),
{
    write_key(f, comma, key);
    let ghost keyed = f@;
    write_quote(f);
    write_escaped_array(f, args, named);
    write_quote(f);
    assert(f@ =~= keyed + string_value(escaped_array(array_items(args@, named))));
}

/// Writes the signature string of a procedure of the given name and arity.
fn write_proc_code(f: &mut String, name: &SmolStr, arity: usize)
    ensures
        final(f)@ == old(f)@ + proc_code(smol_chars(*name), arity as nat),
{
    f.append(name.as_str());
    let mut i: usize = 0;
    while i < arity
        invariant
            i <= arity,
            f@ == old(f)@ + proc_code(smol_chars(*name), i as nat),
        decreases arity - i,
    {
        f.append(" %s");
        i += 1;
        assert(f@ =~= old(f)@ + proc_code(smol_chars(*name), i as nat));
    }
}

/// Writes the array of the arguments' names as it stands inside a string
/// value, or, where `named` is false, the array that holds an empty text in
/// place of each name.
fn write_escaped_array(f: &mut String, args: &Vec<(SmolStr, NodeID)>, named: bool)
    ensures
        final(f)@ == old(f)@ + escaped_array(array_items(args@, named)),
{
    let ghost items = array_items(args@, named);
    f.append("[");
    proof {
        reveal_strlit("[");
        assert(f@ =~= old(f)@ + seq!['['] + joined(escaped_strings(items.take(0))));
    }
    let mut comma = false;
    let mut i: usize = 0;
    while i < args.len()
        invariant
            i <= args.len(),
            comma == (i > 0),
            items == array_items(args@, named),
            f@ == old(f)@ + seq!['['] + joined(escaped_strings(items.take(i as int))),
        decreases args.len() - i,
    {
        let ghost before = f@;
        write_comma_fmt(f, &mut comma);
        write_escaped_quote(f);
        if named {
            f.append(args[i].0.as_str());
        }
        write_escaped_quote(f);
        proof {
            let done = escaped_strings(items.take(i as int));
            let item = escaped_string(items[i as int]);
            assert(f@ =~= before + separator(i > 0) + item);
            assert(escaped_strings(items.take(i + 1)) =~= done.push(item));
            lemma_joined_push(done, item);
            assert(f@ =~= old(f)@ + seq!['['] + joined(escaped_strings(items.take(i + 1))));
        }
        i += 1;
    }
    f.append("]");
    proof {
        reveal_strlit("]");
        assert(items.take(items.len() as int) =~= items);
        assert(f@ =~= old(f)@ + escaped_array(items));
    }
}

/// Writes a double quote as it stands inside a string value.
fn write_escaped_quote(f: &mut String)
    ensures
        final(f)@ == old(f)@ + seq!['\\', '"'],
{
    f.append("\\\"");
    proof {
        reveal_strlit("\\\"");
        assert("\\\""@ =~= seq!['\\', '"']);
    }
}

/// Whether a placeholder begins at position `i` of `s`.
pub open spec fn placeholder_at(s: Seq<char>, i: int) -> bool {
    &&& 0 <= i
    &&& i + 3 <= s.len()
    &&& s[i] == ' '
    &&& s[i + 1] == '%'
    &&& s[i + 2] == 's'
}

/// The number of placeholders that begin before position `end` of `s`.
pub open spec fn placeholders_before(s: Seq<char>, end: nat) -> nat
    decreases end,
{
    if end == 0 {
        0
    } else if placeholder_at(s, end - 1) {
        placeholders_before(s, (end - 1) as nat) + 1
    } else {
        placeholders_before(s, (end - 1) as nat)
    }
}

/// The number of placeholders in `s`.
pub open spec fn placeholder_count(s: Seq<char>) -> nat {
    placeholders_before(s, s.len())
}

/// Whether the fragment of a record has a member with the given key.
pub open spec fn has_key(m: MutationView, key: Seq<char>) -> bool {
    exists|i: int| 0 <= i < members(m).len() && #[trigger] members(m)[i].key == key
}

/// What follows a text does not change the placeholders that end inside it.
proof fn lemma_placeholders_before_prefix(s: Seq<char>, tail: Seq<char>, end: nat)
    requires
        end + 2 <= s.len() || end == 0,
    ensures
        placeholders_before(s + tail, end) == placeholders_before(s, end),
    decreases end,
{
    if end > 0 {
        lemma_placeholders_before_prefix(s, tail, (end - 1) as nat);
        assert(placeholder_at(s + tail, end - 1) == placeholder_at(s, end - 1));
    }
}

/// No placeholder begins at either of the last two positions of a text.
proof fn lemma_placeholders_before_end(s: Seq<char>, end: nat)
    requires
        end <= s.len() <= end + 2,
    ensures
        placeholders_before(s, end) == placeholder_count(s),
{
    let n = s.len();
    if end < n {
        assert(!placeholder_at(s, n - 1));
        assert(placeholders_before(s, n) == placeholders_before(s, (n - 1) as nat));
        if end + 2 == n {
            assert(!placeholder_at(s, n - 2));
            assert(placeholders_before(s, (n - 1) as nat) == placeholders_before(
                s,
                (n - 2) as nat,
            ));
        }
    }
}

/// A placeholder written after a text adds one to its placeholders: none
/// arises across the place where the two meet.
pub proof fn lemma_placeholder_appended(s: Seq<char>)
    ensures
        placeholder_count(s + " %s"@) == placeholder_count(s) + 1,
{
    reveal_strlit(" %s");
    let tail = " %s"@;
    let t = s + tail;
    let n = s.len();
    assert(placeholder_at(t, n as int));
    assert(!placeholder_at(t, n as int + 1));
    assert(!placeholder_at(t, n as int + 2));
    assert(placeholders_before(t, n + 3) == placeholders_before(t, n + 2));
    assert(placeholders_before(t, n + 2) == placeholders_before(t, n + 1));
    assert(placeholders_before(t, n + 1) == placeholders_before(t, n) + 1);
    if n >= 2 {
        assert(!placeholder_at(t, n as int - 1));
        assert(!placeholder_at(t, n as int - 2));
        assert(placeholders_before(t, n) == placeholders_before(t, (n - 1) as nat));
        assert(placeholders_before(t, (n - 1) as nat) == placeholders_before(t, (n - 2) as nat));
        lemma_placeholders_before_prefix(s, tail, (n - 2) as nat);
        lemma_placeholders_before_end(s, (n - 2) as nat);
    } else if n == 1 {
        assert(!placeholder_at(t, 0));
        assert(!placeholder_at(s, 0));
        assert(placeholders_before(t, 1) == placeholders_before(t, 0));
        assert(placeholders_before(s, 1) == placeholders_before(s, 0));
    }
}

/// The signature string of a procedure with `arity` arguments holds `arity`
/// placeholders beside those that its name holds.
pub proof fn lemma_proc_code_placeholders(name: Seq<char>, arity: nat)
    ensures
        placeholder_count(proc_code(name, arity)) == placeholder_count(name) + arity,
    decreases arity,
{
    if arity > 0 {
        lemma_proc_code_placeholders(name, (arity - 1) as nat);
        lemma_placeholder_appended(proc_code(name, (arity - 1) as nat));
    }
}

/// The fragment of a record with N arguments, whose name holds no
/// placeholder, has as many placeholders in its signature string as it has
/// items in its array of identifiers: N of each.
pub proof fn lemma_arity(m: MutationView)
    requires
        placeholder_count(m.name) == 0,
    ensures
        members(m)[3].key == "proccode"@,
        members(m)[3].value == string_value(proc_code(m.name, m.args.len())),
        placeholder_count(proc_code(m.name, m.args.len())) == m.args.len(),
        members(m)[4].key == "argumentids"@,
        members(m)[4].value == string_value(escaped_array(argument_ids(m))),
        argument_ids(m).len() == m.args.len(),
{
    lemma_proc_code_placeholders(m.name, m.args.len());
}

/// Two records of one name and one number of arguments have the same
/// signature string, whichever of them is a call and whatever their
/// arguments are called.
pub proof fn lemma_proc_code_agrees(a: MutationView, b: MutationView)
    requires
        a.name == b.name,
        a.args.len() == b.args.len(),
    ensures
        members(a)[3] == members(b)[3],
        members(a)[3].value == string_value(proc_code(a.name, a.args.len())),
{
}

/// The fragment reads nothing of the arguments but their names: two records
/// that agree in everything else and in those have the same fragment,
/// whatever nodes stand for the arguments.
pub proof fn lemma_fragment_reads_names(a: MutationView, b: MutationView)
    requires
        a.name == b.name,
        a.warp == b.warp,
        a.is_call == b.is_call,
        names(a.args) == names(b.args),
    ensures
        fragment(a) == fragment(b),
{
    assert(a.args.len() == names(a.args).len());
    assert(b.args.len() == names(b.args).len());
    assert(argument_defaults(a) =~= argument_defaults(b));
}

/// The fragment of a call has neither the names nor the defaults of the
/// arguments; the fragment of a definition has both, after the members that
/// the two share.
pub proof fn lemma_prototype_members(m: MutationView)
    ensures
        has_key(m, "argumentnames"@) <==> !m.is_call,
        has_key(m, "argumentdefaults"@) <==> !m.is_call,
        members(m).len() == if m.is_call { 5int } else { 7int },
        forall|i: int| 0 <= i < 5 ==> members(m)[i] == common_members(m)[i],
        members(MutationView { is_call: false, ..m }) == members(
            MutationView { is_call: true, ..m },
        ) + prototype_members(m),
{
    reveal_strlit("tagName");
    reveal_strlit("children");
    reveal_strlit("warp");
    reveal_strlit("proccode");
    reveal_strlit("argumentids");
    reveal_strlit("argumentnames");
    reveal_strlit("argumentdefaults");
    let all = members(m);
    if !m.is_call {
        assert(all[5].key == "argumentnames"@);
        assert(all[6].key == "argumentdefaults"@);
    } else {
        assert forall|i: int| 0 <= i < all.len() implies all[i].key != "argumentnames"@
            && all[i].key != "argumentdefaults"@ by {
            assert(all[i].key.len() < 13);
        }
    }
}

} // verus!
