use blockgen::ast::arg::Arg;
use blockgen::ast::enum_variant::EnumVariant;
use blockgen::ast::type_::Type;
use blockgen::ast::value::Value;
use blockgen::codegen::mutation::Mutation;
use blockgen::codegen::node_id::NodeID;
use blockgen::usage::{mark_used, unused_args, unused_variants, Reference};
use smol_str::SmolStr;

fn args(names: &[&str]) -> Vec<Arg> {
    names
        .iter()
        .enumerate()
        .map(|(i, name)| Arg::new(SmolStr::new(name), i..i + name.len(), Type::new(String::from("value"))))
        .collect()
}

fn variants(names: &[&str]) -> Vec<EnumVariant> {
    names.iter().enumerate().map(|(i, name)| EnumVariant::new(SmolStr::new(name), i..i + 1, None)).collect()
}

fn flags(args: &[Arg]) -> Vec<bool> {
    args.iter().map(|arg| arg.is_used).collect()
}

fn variant_flags(variants: &[EnumVariant]) -> Vec<bool> {
    variants.iter().map(|variant| variant.is_used).collect()
}

#[test]
fn a_new_argument_is_unused() {
    let arg = Arg::new(SmolStr::new("steps"), 4..9, Type::new(String::from("number")));
    assert_eq!(arg.name, "steps");
    assert_eq!(arg.span, 4..9);
    assert_eq!(arg.type_.as_str(), "number");
    assert_eq!(arg.type_.text, "number");
    assert!(!arg.is_used);
}

#[test]
fn a_new_variant_is_unused() {
    let variant = EnumVariant::new(SmolStr::new("Red"), 0..3, None);
    assert_eq!(variant.name, "Red");
    assert_eq!(variant.span, 0..3);
    assert!(variant.value.is_none());
    assert!(!variant.is_used);
    let variant =
        EnumVariant::new(SmolStr::new("Green"), 10..15, Some((Value::new(String::from("2")), 18..19)));
    assert_eq!(variant.name, "Green");
    assert_eq!(variant.span, 10..15);
    let (value, span) = variant.value.as_ref().unwrap();
    assert_eq!(value.as_str(), "2");
    assert_eq!(value.text, "2");
    assert_eq!(*span, 18..19);
    assert!(!variant.is_used);
}

#[test]
fn references_mark_their_targets() {
    let mut args = args(&["a", "b", "c"]);
    let mut variants = variants(&["X", "Y"]);
    let references =
        vec![Reference::Argument(2), Reference::Other, Reference::Variant(0), Reference::Argument(2)];
    mark_used(&mut args, &mut variants, &references);
    assert_eq!(flags(&args), [false, false, true]);
    assert_eq!(variant_flags(&variants), [true, false]);
    assert_eq!(args[2].name, "c");
    assert_eq!(args[2].span, 2..3);
    assert_eq!(args[2].type_.as_str(), "value");
    assert_eq!(variants[0].name, "X");
    assert_eq!(variants[0].span, 0..1);
}

#[test]
fn no_reference_marks_nothing() {
    let mut args = args(&["a", "b"]);
    let mut variants = variants(&["X"]);
    mark_used(&mut args, &mut variants, &Vec::new());
    assert_eq!(flags(&args), [false, false]);
    assert_eq!(variant_flags(&variants), [false]);
}

#[test]
fn a_reference_past_the_list_marks_nothing() {
    let mut args = args(&["a"]);
    let mut variants = variants(&["X"]);
    mark_used(&mut args, &mut variants, &vec![Reference::Argument(1), Reference::Variant(9)]);
    assert_eq!(flags(&args), [false]);
    assert_eq!(variant_flags(&variants), [false]);
}

#[test]
fn a_second_run_takes_no_mark_away() {
    let mut args = args(&["a", "b", "c"]);
    let mut variants = variants(&["X", "Y"]);
    let first = vec![Reference::Argument(0), Reference::Variant(1)];
    mark_used(&mut args, &mut variants, &first);
    assert_eq!(flags(&args), [true, false, false]);
    assert_eq!(variant_flags(&variants), [false, true]);
    mark_used(&mut args, &mut variants, &first);
    assert_eq!(flags(&args), [true, false, false]);
    assert_eq!(variant_flags(&variants), [false, true]);
    mark_used(&mut args, &mut variants, &vec![Reference::Argument(2)]);
    assert_eq!(flags(&args), [true, false, true]);
    assert_eq!(variant_flags(&variants), [false, true]);
    mark_used(&mut args, &mut variants, &Vec::new());
    assert_eq!(flags(&args), [true, false, true]);
    assert_eq!(variant_flags(&variants), [false, true]);
}

#[test]
fn each_unused_argument_is_reported_once() {
    let mut args = args(&["a", "b", "c", "d"]);
    let mut variants = variants(&["X", "Y", "Z"]);
    assert_eq!(unused_args(&args), [0, 1, 2, 3]);
    assert_eq!(unused_variants(&variants), [0, 1, 2]);
    mark_used(&mut args, &mut variants, &vec![Reference::Argument(1), Reference::Variant(2)]);
    assert_eq!(unused_args(&args), [0, 2, 3]);
    assert_eq!(unused_variants(&variants), [0, 1]);
    mark_used(
        &mut args,
        &mut variants,
        &vec![
            Reference::Argument(0),
            Reference::Argument(2),
            Reference::Argument(3),
            Reference::Variant(0),
            Reference::Variant(1),
        ],
    );
    assert!(unused_args(&args).is_empty());
    assert!(unused_variants(&variants).is_empty());
}

#[test]
fn an_unreferenced_argument_stays_unused_and_changes_no_output() {
    let mut args = args(&["n", "unused"]);
    let mut variants = variants(&[]);
    let pairs: Vec<(SmolStr, NodeID)> =
        args.iter().enumerate().map(|(i, arg)| (arg.name.clone(), NodeID::new(i))).collect();
    let before = Mutation::prototype(SmolStr::new("move"), &pairs, false).to_string();
    mark_used(&mut args, &mut variants, &vec![Reference::Argument(0), Reference::Other]);
    assert!(args[0].is_used);
    assert!(!args[1].is_used);
    assert_eq!(unused_args(&args), [1]);
    let pairs: Vec<(SmolStr, NodeID)> =
        args.iter().enumerate().map(|(i, arg)| (arg.name.clone(), NodeID::new(i))).collect();
    let after = Mutation::prototype(SmolStr::new("move"), &pairs, false).to_string();
    assert_eq!(before, after);
    assert_eq!(
        after,
        r#"{"tagName":"mutation","children":[],"warp":"false","proccode":"move %s %s","argumentids":"[\"n\",\"unused\"]","argumentnames":"[\"n\",\"unused\"]","argumentdefaults":"[\"\",\"\"]"}"#
    );
}

#[test]
fn none_unused_in_empty_lists() {
    assert!(unused_args(&Vec::new()).is_empty());
    assert!(unused_variants(&Vec::new()).is_empty());
}
