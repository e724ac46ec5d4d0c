use blockgen::ast::arg::Arg;
use blockgen::ast::type_::Type;
use blockgen::codegen::error::ErrorKind;
use blockgen::codegen::graph::NodeGraph;
use blockgen::codegen::mutation::Mutation;
use blockgen::codegen::node_id::NodeID;
use blockgen::codegen::signature::{
    argument_nodes, check_call, check_prototypes, has_same_arguments, has_same_signature,
};
use smol_str::SmolStr;

fn named(names: &[&str]) -> Vec<(SmolStr, NodeID)> {
    names.iter().enumerate().map(|(i, name)| (SmolStr::new(name), NodeID::new(i))).collect()
}

#[test]
fn a_call_with_the_arity_of_its_definition_passes() {
    let definition = named(&["x", "y"]);
    let site = named(&["x", "y"]);
    let prototype = Mutation::prototype(SmolStr::new("move"), &definition, false);
    let call = Mutation::call(SmolStr::new("move"), &site, false);
    assert_eq!(check_call(&prototype, &call), Ok(()));
}

#[test]
fn a_call_with_another_arity_is_refused() {
    let definition = named(&["x", "y"]);
    let prototype = Mutation::prototype(SmolStr::new("move"), &definition, false);
    let fewer = named(&["x"]);
    let call = Mutation::call(SmolStr::new("move"), &fewer, false);
    assert_eq!(check_call(&prototype, &call), Err(ErrorKind::ArityMismatch));
    let more = named(&["x", "y", "z"]);
    let call = Mutation::call(SmolStr::new("move"), &more, false);
    assert_eq!(check_call(&prototype, &call), Err(ErrorKind::ArityMismatch));
    let none = named(&[]);
    let call = Mutation::call(SmolStr::new("move"), &none, false);
    assert_eq!(check_call(&prototype, &call), Err(ErrorKind::ArityMismatch));
}

#[test]
fn signatures_are_told_apart_by_name_and_arity() {
    let one = named(&["x"]);
    let other = named(&["y"]);
    let two = named(&["x", "y"]);
    let a = Mutation::prototype(SmolStr::new("move"), &one, false);
    let b = Mutation::call(SmolStr::new("move"), &other, true);
    let c = Mutation::prototype(SmolStr::new("move"), &two, false);
    let d = Mutation::prototype(SmolStr::new("mov"), &one, false);
    let e = Mutation::prototype(SmolStr::new("movf"), &one, false);
    assert!(has_same_signature(&a, &b));
    assert!(has_same_signature(&a, &a));
    assert!(!has_same_signature(&a, &c));
    assert!(!has_same_signature(&a, &d));
    assert!(!has_same_signature(&a, &e));
}

#[test]
fn long_names_are_compared_whole() {
    let one = named(&["x"]);
    let a = Mutation::prototype(
        SmolStr::new("a procedure name that does not fit inline, first"),
        &one,
        false,
    );
    let b = Mutation::prototype(
        SmolStr::new("a procedure name that does not fit inline, other"),
        &one,
        false,
    );
    let c = Mutation::prototype(
        SmolStr::new(String::from("a procedure name that does not fit inline, first")),
        &one,
        false,
    );
    assert!(!has_same_signature(&a, &b));
    assert!(has_same_signature(&a, &c));
}

#[test]
fn distinct_definitions_pass() {
    let none = named(&[]);
    let one = named(&["x"]);
    let two = named(&["x", "y"]);
    let prototypes = vec![
        Mutation::prototype(SmolStr::new("move"), &one, false),
        Mutation::prototype(SmolStr::new("move"), &two, false),
        Mutation::prototype(SmolStr::new("turn"), &one, true),
        Mutation::prototype(SmolStr::new("stop"), &none, false),
    ];
    assert_eq!(check_prototypes(&prototypes), Ok(()));
    assert_eq!(check_prototypes(&Vec::new()), Ok(()));
}

#[test]
fn two_definitions_of_one_signature_are_refused() {
    let one = named(&["x"]);
    let other = named(&["y"]);
    let two = named(&["x", "y"]);
    let prototypes = vec![
        Mutation::prototype(SmolStr::new("move"), &one, false),
        Mutation::prototype(SmolStr::new("turn"), &two, false),
        Mutation::prototype(SmolStr::new("move"), &other, true),
    ];
    assert_eq!(check_prototypes(&prototypes), Err(ErrorKind::DuplicateProcedureSignature));
    let prototypes = vec![
        Mutation::prototype(SmolStr::new("turn"), &two, false),
        Mutation::prototype(SmolStr::new("turn"), &two, false),
    ];
    assert_eq!(check_prototypes(&prototypes), Err(ErrorKind::DuplicateProcedureSignature));
}

#[test]
fn arguments_are_compared_in_order() {
    let definition = named(&["x", "y"]);
    let same = named(&["x", "y"]);
    let swapped = named(&["y", "x"]);
    let shorter = named(&["x"]);
    let other = named(&["x", "z"]);
    let prototype = Mutation::prototype(SmolStr::new("move"), &definition, false);
    assert!(has_same_arguments(&prototype, &Mutation::call(SmolStr::new("move"), &same, true)));
    assert!(!has_same_arguments(&prototype, &Mutation::call(SmolStr::new("move"), &swapped, false)));
    assert!(!has_same_arguments(&prototype, &Mutation::call(SmolStr::new("move"), &shorter, false)));
    assert!(!has_same_arguments(&prototype, &Mutation::call(SmolStr::new("move"), &other, false)));
    let none = named(&[]);
    let empty = Mutation::call(SmolStr::new("stop"), &none, false);
    assert!(has_same_arguments(&empty, &empty));
}

#[test]
fn argument_names_by_position() {
    let args = named(&["x", "a name that is too long to be kept inline"]);
    let record = Mutation::call(SmolStr::new("move"), &args, false);
    assert_eq!(record.argument_name(0), Some("x"));
    assert_eq!(record.argument_name(1), Some("a name that is too long to be kept inline"));
    assert_eq!(record.argument_name(2), None);
}

#[test]
fn each_argument_gets_a_node() {
    let args: Vec<Arg> = ["x", "an argument name that is kept on the heap", "z"]
        .iter()
        .enumerate()
        .map(|(i, name)| Arg::new(SmolStr::new(name), i..i + 1, Type::new(String::from("value"))))
        .collect();
    let mut graph: NodeGraph<String> = NodeGraph::new();
    let earlier = graph.allocate();
    graph.set(earlier, String::from("earlier"));
    let pairs = argument_nodes(&mut graph, &args);
    assert_eq!(
        pairs,
        vec![
            (SmolStr::new("x"), NodeID::new(1)),
            (SmolStr::new("an argument name that is kept on the heap"), NodeID::new(2)),
            (SmolStr::new("z"), NodeID::new(3)),
        ]
    );
    assert_eq!(graph.len(), 4);
    assert_eq!(graph.get(earlier).unwrap(), "earlier");
    for (_, id) in &pairs {
        assert!(graph.contains(*id));
        assert!(!graph.is_materialized(*id));
    }
    let fragment = Mutation::call(SmolStr::new("go"), &pairs, false).to_string();
    assert_eq!(
        fragment,
        r#"{"tagName":"mutation","children":[],"warp":"false","proccode":"go %s %s %s","argumentids":"[\"x\",\"an argument name that is kept on the heap\",\"z\"]"}"#
    );
}

#[test]
fn no_argument_no_node() {
    let mut graph: NodeGraph<u8> = NodeGraph::new();
    let pairs = argument_nodes(&mut graph, &Vec::new());
    assert!(pairs.is_empty());
    assert_eq!(graph.len(), 0);
}
