use mmtk::macros::derive_input::{
    is_known_literal, is_parseable, make_readable, Attribute, AttributeArg, DeriveInput, Field,
};
use mmtk::macros::trace_object::AttributeName::{FallbackTrace, MainPolicy, Trace};
use mmtk::macros::trace_object::{
    derive_for, derive_plan_trace_object, get_first_path, AttributeName, DeriveError, Dispatch,
    MainPolicyFunction, PlanTraceObject,
};

fn mark(name: &str) -> Attribute {
    mark_with(name, "")
}

fn mark_with(name: &str, tokens: &str) -> Attribute {
    Attribute { name: Some(name.to_string()), tokens: tokens.to_string() }
}

fn field(attrs: Vec<Attribute>) -> Field {
    Field { attrs }
}

fn input(fields: Vec<Field>) -> DeriveInput {
    DeriveInput::NamedStruct { fields }
}

fn path(p: &str) -> AttributeArg {
    AttributeArg::Path(p.to_string())
}

fn arms(code: &PlanTraceObject) -> Vec<(usize, Option<String>)> {
    code.trace_object.arms.iter().map(|a| (a.field, a.copy.clone())).collect()
}

#[test]
fn code_for_a_plan() {
    let code = derive_for(&input(vec![
        field(vec![mark("fallback_trace")]),
        field(vec![
            mark("main_policy"),
            mark_with("trace", "(CopySemantics::X)"),
        ]),
        field(vec![mark("allow"), Attribute { name: None, tokens: String::new() }]),
        field(vec![mark("trace")]),
        field(vec![mark_with("trace", "()")]),
        field(vec![mark_with("trace", "(a = 1, P)")]),
    ]));
    let code = match code {
        Ok(code) => code,
        Err(e) => panic!("{:?}", e),
    };
    assert_eq!(
        arms(&code),
        vec![(1, Some("CopySemantics :: X".to_string())), (3, None), (4, None), (5, None)]
    );
    assert_eq!(code.trace_object.fallback, Some(0));
    assert_eq!(code.create_scan_work, MainPolicyFunction::Delegate(1));
    assert_eq!(code.may_move_objects, MainPolicyFunction::Delegate(1));

    // The first space that has the object traces it.
    let d = |s: &[usize]| {
        let in_space: Vec<bool> = (0..6).map(|f| s.contains(&f)).collect();
        code.trace_object.dispatch(&in_space)
    };
    assert_eq!(d(&[1]), Dispatch::Space(0));
    assert_eq!(d(&[4]), Dispatch::Space(2));
    assert_eq!(d(&[5, 3]), Dispatch::Space(1));
    assert_eq!(d(&[2]), Dispatch::Fallback(0));
}

#[test]
fn a_plan_without_marks() {
    let code = derive_for(&input(vec![field(vec![])])).ok().unwrap();
    assert!(code.trace_object.arms.is_empty());
    assert_eq!(code.trace_object.fallback, None);
    assert_eq!(code.create_scan_work, MainPolicyFunction::Unreachable);
    assert_eq!(code.may_move_objects, MainPolicyFunction::Unreachable);
    assert_eq!(code.trace_object.dispatch(&vec![true]), Dispatch::Nobody);
}

#[test]
fn wrong_marks() {
    let err = |i: &DeriveInput| derive_for(i).err().unwrap();
    let twice = |n: &str| field(vec![mark(n), mark(n)]);
    assert_eq!(err(&DeriveInput::Unsupported), DeriveError::NotANamedStruct);
    assert_eq!(err(&input(vec![twice("trace")])), DeriveError::DuplicatedAttribute(Trace));
    assert_eq!(
        err(&input(vec![field(vec![mark("main_policy")]), field(vec![mark("main_policy")])])),
        DeriveError::SeveralFields(MainPolicy)
    );
    assert_eq!(
        err(&input(vec![twice("fallback_trace")])),
        DeriveError::DuplicatedAttribute(FallbackTrace)
    );
    // The first field that is wrong decides.
    assert_eq!(
        err(&input(vec![field(vec![mark("main_policy")]), twice("main_policy")])),
        DeriveError::DuplicatedAttribute(MainPolicy)
    );
    // Marks on spaces come first, then the main policy, then the fallback, then the arguments.
    assert_eq!(
        err(&input(vec![twice("fallback_trace"), twice("main_policy")])),
        DeriveError::DuplicatedAttribute(MainPolicy)
    );
    assert_eq!(
        err(&input(vec![field(vec![mark_with("trace", "= X")]), twice("fallback_trace")])),
        DeriveError::DuplicatedAttribute(FallbackTrace)
    );
    assert_eq!(
        err(&input(vec![field(vec![mark_with("trace", "= X")])])),
        DeriveError::InvalidArguments
    );
    // A literal that the parser does not know.
    assert_eq!(
        err(&input(vec![field(vec![mark_with("trace", "(c\"x\")")])])),
        DeriveError::InvalidArguments
    );
    // No tokens at all.
    assert_eq!(
        err(&input(vec![field(vec![mark_with("trace", "('")])])),
        DeriveError::InvalidArguments
    );
    // Other marks may be followed by anything.
    assert!(derive_for(&input(vec![field(vec![mark_with("main_policy", "= X")])])).is_ok());
}

#[test]
fn code_for_the_text_of_a_plan() {
    let code = derive_plan_trace_object(
        "pub struct GenImmix<VM: VMBinding> where VM: Sized {
            /// The parent.
            #[fallback_trace]
            pub gen: Gen<VM>,
            #[main_policy]
            #[trace(CopySemantics::Mature)]
            pub immix: ImmixSpace<VM>,
            #[trace]
            los: LargeObjectSpace<VM>,
            #[trace(\"no path\", X)]
            code: ImmortalSpace<VM>,
            #[util::trace]
            other: u8,
        }",
    )
    .ok()
    .unwrap();
    assert_eq!(
        arms(&code),
        vec![(1, Some("CopySemantics :: Mature".to_string())), (2, None), (3, None)]
    );
    assert_eq!(code.trace_object.fallback, Some(0));
    assert_eq!(code.create_scan_work, MainPolicyFunction::Delegate(1));
    assert_eq!(code.may_move_objects, MainPolicyFunction::Delegate(1));
}

#[test]
fn texts_without_code() {
    let err = |text: &str| derive_plan_trace_object(text).err().unwrap();
    assert_eq!(err("struct"), DeriveError::Syntax);
    assert_eq!(err("fn f() {}"), DeriveError::Syntax);
    assert_eq!(err("enum E { A }"), DeriveError::NotANamedStruct);
    assert_eq!(err("struct S(u8);"), DeriveError::NotANamedStruct);
    assert_eq!(err("struct S;"), DeriveError::NotANamedStruct);
    assert_eq!(
        err("struct S { #[trace] #[trace(X)] a: A }"),
        DeriveError::DuplicatedAttribute(Trace)
    );
    assert_eq!(
        err("struct S { #[main_policy] a: A, #[main_policy] b: B }"),
        DeriveError::SeveralFields(MainPolicy)
    );
    assert_eq!(err("struct S { #[trace = 1] a: A }"), DeriveError::InvalidArguments);
    // A literal that the parser does not know, where it expects none.
    assert_eq!(err("struct S c\"x\""), DeriveError::Syntax);
    assert_eq!(err("struct S { #[x] c\"x\" }"), DeriveError::Syntax);
    assert_eq!(err("struct S { #[trace(X c\"x\")] a: A }"), DeriveError::InvalidArguments);
    assert_eq!(err("struct S { a: [u8; 'x] }"), DeriveError::Syntax);
    assert!(derive_plan_trace_object("struct S { #[trace()] a: A }").is_ok());
    assert!(derive_plan_trace_object("struct S {}").is_ok());
}

#[test]
fn literals_that_the_parser_knows() {
    for literal in ["c\"x\"", "cr\"x\"", "c\"\"", "(/*ERROR*/)", ""] {
        assert!(!is_known_literal(literal));
    }
    for literal in ["\"c\"", "r\"c\"", "b\"c\"", "br\"c\"", "b'c'", "'c'", "1", "0xc", "1.5e3f32"] {
        assert!(is_known_literal(literal));
        assert!(is_parseable(literal));
    }
    assert!(is_parseable("struct S { c: [C; 1] }"));
    assert!(is_parseable(""));
    assert!(!is_parseable("{ [ ( c\"x\" ) ] }"));
    assert!(!is_parseable("{"));
    let copies = |mark: &str| {
        let text = format!("struct S {{ #[trace({mark})] a: [A; 2] }}");
        derive_plan_trace_object(&text).ok().unwrap().trace_object.arms[0].copy.clone()
    };
    assert_eq!(copies("1"), None);
    assert_eq!(copies("'c'"), None);
    assert_eq!(copies("b\"c\", c"), None);
    assert_eq!(copies("c"), Some("c".to_string()));
    // A path from the root is another one.
    assert_eq!(copies("::a::B"), Some(":: a :: B".to_string()));
    assert_eq!(copies("a::B"), Some("a :: B".to_string()));
    assert_eq!(copies("a::B,"), Some("a :: B".to_string()));
}

#[test]
fn literals_that_the_parser_does_not_look_at() {
    let code = derive_plan_trace_object(
        "#[doc = c\"S\"]
        struct S<'a, T: Fn(&'a u8) -> u8 = fn(u8) -> u8> where for<'b> T: 'b {
            #[note(c\"x\", cr#\"y\"#)]
            #[main_policy]
            #[trace(a::B)]
            x: [A; { 1 << 2 | 3 }],
            #[fallback_trace]
            y: m!(c\"x\" => { [..=c\"y\"] }),
            #[note(/*ERROR*/)]
            #[trace]
            r#type: &'a mut (T, b::C<T>),
        }",
    )
    .ok()
    .unwrap();
    assert_eq!(arms(&code), vec![(0, Some("a :: B".to_string())), (2, None)]);
    assert_eq!(code.trace_object.fallback, Some(1));
    assert_eq!(code.create_scan_work, MainPolicyFunction::Delegate(0));
}

#[test]
fn what_the_parser_reads() {
    // A text that it knows is read as it is.
    for text in ["a  (\"x\")", "struct S;", "'"] {
        assert_eq!(make_readable(text), text);
    }
    let words = |text: &str| {
        let readable = make_readable(text);
        readable.split_whitespace().map(|w| w.to_string()).collect::<Vec<String>>()
    };
    assert_eq!(words("a(c\"x\", 1)"), vec!["a", "(", "0", ",", "1", ")"]);
    assert_eq!(words("{[cr\"x\"]}"), vec!["{", "[", "0", "]", "}"]);
    assert_eq!(words("&'a b..=c\"\"+-1"), vec!["&'a", "b", "..=", "0", "+-", "1"]);
    assert_eq!(words("r#fn / *(/*ERROR*/)"), vec!["r#fn", "/", "*", "0"]);
}

#[test]
fn first_arguments() {
    assert_eq!(get_first_path(&vec![]), None);
    assert_eq!(get_first_path(&vec![AttributeArg::Unrelated, path("P")]), None);
    assert_eq!(get_first_path(&vec![path("a :: B"), path("C")]), Some("a :: B".to_string()));
}

#[test]
fn names_of_marks() {
    let all: [(AttributeName, &str); 3] =
        [(Trace, "trace"), (MainPolicy, "main_policy"), (FallbackTrace, "fallback_trace")];
    for (name, text) in all {
        assert_eq!(name.as_str(), text);
        assert!(mark(text).has_name(name));
        assert!(!mark("trac").has_name(name));
        assert!(!mark("tracf").has_name(name));
    }
}
