//! The usage pass: it goes through what the identifiers of a procedure were
//! resolved to and marks the arguments and enum variants that are referred
//! to. What stays unmarked is reported, once each, and keeps nothing from
//! being written.

use vstd::prelude::*;

use crate::ast::arg::{argument_names, Arg, ArgView};
use crate::ast::enum_variant::{EnumVariant, EnumVariantView};

verus! {

/// What an identifier was resolved to.
#[derive(Clone, Copy, Debug, PartialEq, Eq, Structural)]
pub enum Reference {
    /// The argument at this position of the argument list.
    Argument(usize),
    /// The variant at this position of the enumeration.
    Variant(usize),
    /// Something that has no usage mark.
    Other,
}

/// The plain values of the arguments.
pub open spec fn arg_views(args: Seq<Arg>) -> Seq<ArgView> {
    Seq::new(args.len(), |i: int| args[i]@)
}

/// The plain values of the variants.
pub open spec fn variant_views(variants: Seq<EnumVariant>) -> Seq<EnumVariantView> {
    Seq::new(variants.len(), |i: int| variants[i]@)
}

/// Whether the reference is to the argument at position `i`.
pub open spec fn is_argument(reference: Reference, i: int) -> bool {
    reference matches Reference::Argument(position) && position == i
}

/// Whether the reference is to the variant at position `i`.
pub open spec fn is_variant(reference: Reference, i: int) -> bool {
    reference matches Reference::Variant(position) && position == i
}

/// Whether one of the references is to the argument at position `i`.
pub open spec fn refers_to_argument(references: Seq<Reference>, i: int) -> bool {
    exists|k: int| 0 <= k < references.len() && is_argument(#[trigger] references[k], i)
}

/// Whether one of the references is to the variant at position `i`.
pub open spec fn refers_to_variant(references: Seq<Reference>, i: int) -> bool {
    exists|k: int| 0 <= k < references.len() && is_variant(#[trigger] references[k], i)
}

/// The arguments after the pass: one that was marked, or is referred to, is
/// marked. Nothing else changes.
pub open spec fn marked_args(args: Seq<ArgView>, references: Seq<Reference>) -> Seq<ArgView> {
    Seq::new(
        args.len(),
        |i: int| ArgView { is_used: args[i].is_used || refers_to_argument(references, i), ..args[i] },
    )
}

/// The variants after the pass: one that was marked, or is referred to, is
/// marked. Nothing else changes.
pub open spec fn marked_variants(
    variants: Seq<EnumVariantView>,
    references: Seq<Reference>,
) -> Seq<EnumVariantView> {
    Seq::new(
        variants.len(),
        |i: int|
            EnumVariantView {
                is_used: variants[i].is_used || refers_to_variant(references, i),
                ..variants[i]
            },
    )
}

/// The positions of the flags that are not set, in rising order.
pub open spec fn unset_positions(flags: Seq<bool>) -> Seq<int>
    decreases flags.len(),
{
    if flags.len() == 0 {
        Seq::empty()
    } else if flags.last() {
        unset_positions(flags.drop_last())
    } else {
        unset_positions(flags.drop_last()).push(flags.len() - 1)
    }
}

/// The positions as mathematical integers.
pub open spec fn positions_view(positions: Seq<usize>) -> Seq<int> {
    Seq::new(positions.len(), |k: int| positions[k] as int)
}

/// The usage marks of the arguments.
pub open spec fn arg_flags(args: Seq<ArgView>) -> Seq<bool> {
    Seq::new(args.len(), |i: int| args[i].is_used)
}

/// The usage marks of the variants.
pub open spec fn variant_flags(variants: Seq<EnumVariantView>) -> Seq<bool> {
    Seq::new(variants.len(), |i: int| variants[i].is_used)
}

/// The positions of the arguments that are reported as unused.
pub open spec fn unused_arg_positions(args: Seq<ArgView>) -> Seq<int> {
    unset_positions(arg_flags(args))
}

/// The positions of the variants that are reported as unused.
pub open spec fn unused_variant_positions(variants: Seq<EnumVariantView>) -> Seq<int> {
    unset_positions(variant_flags(variants))
}

/// Marks every argument and every variant that one of the references is to.
/// A reference to a position that the list does not have marks nothing.
pub fn mark_used(
    args: &mut Vec<Arg>,
    variants: &mut Vec<EnumVariant>,
    references: &Vec<Reference>,
)
    ensures
        arg_views(final(args)@) == marked_args(arg_views(old(args)@), references@),
        variant_views(final(variants)@) == marked_variants(
            variant_views(old(variants)@),
            references@,
        ),
{
    let mut k: usize = 0;
    proof {
        assert(arg_views(args@) =~= marked_args(arg_views(old(args)@), references@.take(0)));
        assert(variant_views(variants@) =~= marked_variants(
            variant_views(old(variants)@),
            references@.take(0),
        ));
    }
    while k < references.len()
        invariant
            k <= references.len(),
            arg_views(args@) == marked_args(arg_views(old(args)@), references@.take(k as int)),
            variant_views(variants@) == marked_variants(
                variant_views(old(variants)@),
                references@.take(k as int),
            ),
        decreases references.len() - k,
    {
        let ghost args_before = args@;
        let ghost variants_before = variants@;
        match references[k] {
            Reference::Argument(i) => {
                if i < args.len() {
                    args[i].is_used = true;
                }
            },
            Reference::Variant(i) => {
                if i < variants.len() {
                    variants[i].is_used = true;
                }
            },
            Reference::Other => {},
        }
        proof {
            let seen = references@.take(k as int);
            let more = references@.take(k + 1);
            assert(more =~= seen.push(references@[k as int]));
            assert(arg_views(args_before).len() == arg_views(old(args)@).len());
            assert(variant_views(variants_before).len() == variant_views(old(variants)@).len());
            assert forall|i: int| 0 <= i < args@.len() implies #[trigger] arg_views(args@)[i]
                == marked_args(arg_views(old(args)@), more)[i] by {
                lemma_refers_to_argument_push(seen, references@[k as int], i);
                assert(arg_views(args_before)[i] == marked_args(arg_views(old(args)@), seen)[i]);
            }
            assert(arg_views(args@) =~= marked_args(arg_views(old(args)@), more));
            assert forall|i: int| 0 <= i < variants@.len() implies #[trigger] variant_views(
                variants@,
            )[i] == marked_variants(variant_views(old(variants)@), more)[i] by {
                lemma_refers_to_variant_push(seen, references@[k as int], i);
                assert(variant_views(variants_before)[i] == marked_variants(
                    variant_views(old(variants)@),
                    seen,
                )[i]);
            }
            assert(variant_views(variants@) =~= marked_variants(
                variant_views(old(variants)@),
                more,
            ));
        }
        k += 1;
    }
    assert(references@.take(k as int) =~= references@);
}

/// One more reference refers to an argument exactly when it is to that
/// argument or an earlier one was.
proof fn lemma_refers_to_argument_push(seen: Seq<Reference>, next: Reference, i: int)
    ensures
        refers_to_argument(seen.push(next), i) <==> refers_to_argument(seen, i) || is_argument(next, i),
{
    let more = seen.push(next);
    if refers_to_argument(seen, i) {
        let k = choose|k: int| 0 <= k < seen.len() && is_argument(#[trigger] seen[k], i);
        assert(more[k] == seen[k]);
    }
    if is_argument(next, i) {
        assert(more[seen.len() as int] == next);
    }
    if refers_to_argument(more, i) {
        let k = choose|k: int| 0 <= k < more.len() && is_argument(#[trigger] more[k], i);
        if k < seen.len() {
            assert(seen[k] == more[k]);
        }
    }
}

/// One more reference refers to a variant exactly when it is to that
/// variant or an earlier one was.
proof fn lemma_refers_to_variant_push(seen: Seq<Reference>, next: Reference, i: int)
    ensures
        refers_to_variant(seen.push(next), i) <==> refers_to_variant(seen, i) || is_variant(next, i),
{
    let more = seen.push(next);
    if refers_to_variant(seen, i) {
        let k = choose|k: int| 0 <= k < seen.len() && is_variant(#[trigger] seen[k], i);
        assert(more[k] == seen[k]);
    }
    if is_variant(next, i) {
        assert(more[seen.len() as int] == next);
    }
    if refers_to_variant(more, i) {
        let k = choose|k: int| 0 <= k < more.len() && is_variant(#[trigger] more[k], i);
        if k < seen.len() {
            assert(seen[k] == more[k]);
        }
    }
}

/// The positions of the arguments that nothing referred to, in rising
/// order: one report is due for each.
pub fn unused_args(args: &Vec<Arg>) -> (positions: Vec<usize>)
    ensures
        positions_view(positions@) == unused_arg_positions(arg_views(args@)),
{
    let mut positions: Vec<usize> = Vec::new();
    let ghost flags = arg_flags(arg_views(args@));
    let mut i: usize = 0;
    assert(flags.take(0) =~= Seq::<bool>::empty());
    while i < args.len()
        invariant
            i <= args.len(),
            flags == arg_flags(arg_views(args@)),
            positions_view(positions@) =~= unset_positions(flags.take(i as int)),
        decreases args.len() - i,
    {
        proof {
            assert(flags.take(i + 1).drop_last() =~= flags.take(i as int));
            assert(flags.take(i + 1).last() == args@[i as int].is_used);
        }
        if !args[i].is_used {
            positions.push(i);
        }
        i += 1;
    }
    assert(flags.take(i as int) =~= flags);
    positions
}

/// The positions of the variants that nothing referred to, in rising
/// order: one report is due for each.
pub fn unused_variants(variants: &Vec<EnumVariant>) -> (positions: Vec<usize>)
    ensures
        positions_view(positions@) == unused_variant_positions(variant_views(variants@)),
{
    let mut positions: Vec<usize> = Vec::new();
    let ghost flags = variant_flags(variant_views(variants@));
    let mut i: usize = 0;
    assert(flags.take(0) =~= Seq::<bool>::empty());
    while i < variants.len()
        invariant
            i <= variants.len(),
            flags == variant_flags(variant_views(variants@)),
            positions_view(positions@) =~= unset_positions(flags.take(i as int)),
        decreases variants.len() - i,
    {
        proof {
            assert(flags.take(i + 1).drop_last() =~= flags.take(i as int));
            assert(flags.take(i + 1).last() == variants@[i as int].is_used);
        }
        if !variants[i].is_used {
            positions.push(i);
        }
        i += 1;
    }
    assert(flags.take(i as int) =~= flags);
    positions
}

/// Whether the report names the position `i` at exactly one place.
pub open spec fn reported_once(report: Seq<int>, i: int) -> bool {
    exists|k: int|
        {
            &&& 0 <= k < report.len()
            &&& #[trigger] report[k] == i
            &&& forall|j: int| 0 <= j < report.len() && report[j] == i ==> j == k
        }
}

/// What holds of the positions that are reported: each is the position of a
/// flag that is not set, they rise, and no such position is left out. So
/// each flag that is not set is reported exactly once.
pub proof fn lemma_unset_positions(flags: Seq<bool>)
    ensures
        forall|k: int|
            0 <= k < unset_positions(flags).len() ==> 0 <= #[trigger] unset_positions(flags)[k]
                < flags.len() && !flags[unset_positions(flags)[k]],
        forall|j: int, k: int|
            0 <= j < k < unset_positions(flags).len() ==> unset_positions(flags)[j]
                < unset_positions(flags)[k],
        forall|i: int|
            0 <= i < flags.len() && !flags[i] ==> unset_positions(flags).contains(i),
    decreases flags.len(),
{
    if flags.len() > 0 {
        let init = flags.drop_last();
        let before = unset_positions(init);
        let all = unset_positions(flags);
        lemma_unset_positions(init);
        assert forall|i: int| 0 <= i < flags.len() && !flags[i] implies all.contains(i) by {
            if i < init.len() {
                assert(!init[i]);
                let k = choose|k: int| 0 <= k < before.len() && before[k] == i;
                assert(all[k] == i);
            } else {
                assert(all[all.len() - 1] == i);
            }
        }
        assert forall|k: int| 0 <= k < all.len() implies 0 <= #[trigger] all[k] < flags.len()
            && !flags[all[k]] by {
            if k < before.len() {
                assert(all[k] == before[k]);
                assert(!init[before[k]]);
            }
        }
        assert forall|j: int, k: int| 0 <= j < k < all.len() implies all[j] < all[k] by {
            assert(all[j] == before[j]);
            if k < before.len() {
                assert(all[k] == before[k]);
            }
        }
    }
}

/// The pass never takes a mark away, whatever it is run on, and a second
/// run on the same references changes nothing.
pub proof fn lemma_marks_stay(args: Seq<ArgView>, first: Seq<Reference>, second: Seq<Reference>)
    ensures
        forall|i: int|
            0 <= i < args.len() && args[i].is_used ==> #[trigger] marked_args(args, first)[i].is_used,
        forall|i: int|
            0 <= i < args.len() && marked_args(args, first)[i].is_used ==> #[trigger] marked_args(
                marked_args(args, first),
                second,
            )[i].is_used,
        marked_args(marked_args(args, first), first) == marked_args(args, first),
{
    assert(marked_args(marked_args(args, first), first) =~= marked_args(args, first));
}

/// The same of enum variants.
pub proof fn lemma_variant_marks_stay(
    variants: Seq<EnumVariantView>,
    first: Seq<Reference>,
    second: Seq<Reference>,
)
    ensures
        forall|i: int|
            0 <= i < variants.len() && variants[i].is_used ==> #[trigger] marked_variants(
                variants,
                first,
            )[i].is_used,
        forall|i: int|
            0 <= i < variants.len() && marked_variants(variants, first)[i].is_used
                ==> #[trigger] marked_variants(marked_variants(variants, first), second)[i].is_used,
        marked_variants(marked_variants(variants, first), first) == marked_variants(
            variants,
            first,
        ),
{
    assert(marked_variants(marked_variants(variants, first), first) =~= marked_variants(
        variants,
        first,
    ));
}

/// The pass changes no name, so whatever is written of the arguments of a
/// procedure is the same before and after it.
pub proof fn lemma_marking_keeps_names(args: Seq<ArgView>, references: Seq<Reference>)
    ensures
        argument_names(marked_args(args, references)) == argument_names(args),
{
    assert(argument_names(marked_args(args, references)) =~= argument_names(args));
}

/// An argument that was not marked and that no reference is to is not
/// marked after the pass, and is reported at exactly one place of the
/// report.
pub proof fn lemma_unreferenced_argument(args: Seq<ArgView>, references: Seq<Reference>, i: int)
    requires
        0 <= i < args.len(),
        !args[i].is_used,
        !refers_to_argument(references, i),
    ensures
        !marked_args(args, references)[i].is_used,
        reported_once(unused_arg_positions(marked_args(args, references)), i),
{
    let after = marked_args(args, references);
    let flags = arg_flags(after);
    let report = unused_arg_positions(after);
    lemma_unset_positions(flags);
    assert(!flags[i]);
    let k = choose|k: int| 0 <= k < report.len() && report[k] == i;
    assert(report[k] == i);
    assert forall|j: int| 0 <= j < report.len() && report[j] == i implies j == k by {
        if j < k {
            assert(report[j] < report[k]);
        }
        if k < j {
            assert(report[k] < report[j]);
        }
    }
    assert(reported_once(report, i));
}

/// A variant that was not marked and that no reference is to is not marked
/// after the pass, and is reported at exactly one place of the report.
pub proof fn lemma_unreferenced_variant(
    variants: Seq<EnumVariantView>,
    references: Seq<Reference>,
    i: int,
)
    requires
        0 <= i < variants.len(),
        !variants[i].is_used,
        !refers_to_variant(references, i),
    ensures
        !marked_variants(variants, references)[i].is_used,
        reported_once(unused_variant_positions(marked_variants(variants, references)), i),
{
    let after = marked_variants(variants, references);
    let flags = variant_flags(after);
    let report = unused_variant_positions(after);
    lemma_unset_positions(flags);
    assert(!flags[i]);
    let k = choose|k: int| 0 <= k < report.len() && report[k] == i;
    assert(report[k] == i);
    assert forall|j: int| 0 <= j < report.len() && report[j] == i implies j == k by {
        if j < k {
            assert(report[j] < report[k]);
        }
        if k < j {
            assert(report[k] < report[j]);
        }
    }
    assert(reported_once(report, i));
}

} // verus!
