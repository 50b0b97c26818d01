use cddlconv::ast::{
    Cddl, Group, GroupChoice, GroupEntry, GroupRule, Identifier, Occur, Occurrence, Rule, Type,
    Type1, Type2, TypeGroupnameEntry, TypeRule, ValueMemberKeyEntry,
};
use cddlconv::emit::EmitError;
use cddlconv::engines::typescript;
use cddlconv::engines::zod;

fn ident(name: &str) -> Identifier {
    Identifier { ident: name.to_string() }
}

fn text_choice(value: &str) -> Type1 {
    Type1 { type2: Type2::TextValue { value: value.to_string() }, operator: None }
}

fn typename(name: &str) -> Type1 {
    Type1 { type2: Type2::Typename { ident: ident(name), generic_args: None }, operator: None }
}

fn simple_type(t1: Type1) -> Type {
    Type { type_choices: vec![t1] }
}

fn ts_engine() -> typescript::Engine {
    typescript::Engine::with_writers(String::new(), String::new())
}

fn occurrence(occur: Occur) -> Option<Occurrence> {
    Some(Occurrence { occur })
}

#[test]
fn status_rule_renders_as_string_enum() {
    let rule = TypeRule {
        name: ident("status"),
        generic_params: None,
        value: Type { type_choices: vec![text_choice("ok"), text_choice("error")] },
    };
    let mut engine = ts_engine();
    let out = engine.visit_type_rule(&rule).unwrap();
    assert_eq!(out, "export const enum Status {Ok = \"ok\",\nError = \"error\",\n}\n");
}

#[test]
fn status_rule_renders_as_enum_schema() {
    let t = Type { type_choices: vec![text_choice("ok"), text_choice("error")] };
    let engine = zod::Engine::new();
    let out = engine.visit_maybe_enum_type(&t).unwrap();
    assert_eq!(out, "z.enum([\"ok\",\"error\",])");
}

#[test]
fn rgb_choice_renders_as_three_member_enum() {
    let rule = TypeRule {
        name: ident("color"),
        generic_params: None,
        value: Type {
            type_choices: vec![text_choice("red"), text_choice("green"), text_choice("blue")],
        },
    };
    let mut engine = ts_engine();
    let out = engine.visit_type_rule(&rule).unwrap();
    assert_eq!(
        out,
        "export const enum Color {Red = \"red\",\nGreen = \"green\",\nBlue = \"blue\",\n}\n"
    );
}

#[test]
fn non_textual_choice_never_renders_as_enum() {
    let rule = TypeRule {
        name: ident("color"),
        generic_params: None,
        value: Type {
            type_choices: vec![
                text_choice("red"),
                Type1 { type2: Type2::UintValue { value: 5 }, operator: None },
            ],
        },
    };
    let mut engine = ts_engine();
    let out = engine.visit_type_rule(&rule).unwrap();
    assert_eq!(out, "export type Color = (\"red\"| 5);\n");
}

#[test]
fn zod_enum_needs_identifier_safe_textual_choices() {
    let engine = zod::Engine::new();
    assert!(engine.visit_maybe_enum_type(&simple_type(text_choice("ok"))).is_none());
    let mixed = Type { type_choices: vec![text_choice("ok"), typename("uint")] };
    assert!(engine.visit_maybe_enum_type(&mixed).is_none());
    let unsafe_literal = Type { type_choices: vec![text_choice("a!"), text_choice("b")] };
    assert!(engine.visit_maybe_enum_type(&unsafe_literal).is_none());
}

#[test]
fn namespaced_rule_nests_namespace_wrappers() {
    let rule = TypeRule {
        name: ident("a.b.Widget"),
        generic_params: None,
        value: simple_type(typename("uint")),
    };
    let mut engine = ts_engine();
    let out = engine.visit_type_rule(&rule).unwrap();
    assert_eq!(
        out,
        "export namespace A {\nexport namespace B {\nexport type Widget = (number);\n}\n}\n"
    );
}

#[test]
fn bounded_range_expands_to_union_of_tuples() {
    let entry = ValueMemberKeyEntry {
        occur: occurrence(Occur::Exact { lower: Some(3), upper: Some(5) }),
        member_key: None,
        entry_type: simple_type(typename("uint")),
    };
    let t2 = Type2::ArrayGroup {
        group: Group {
            group_choices: vec![GroupChoice {
                group_entries: vec![GroupEntry::ValueMemberKey { ge: entry }],
            }],
        },
    };
    let mut engine = ts_engine();
    let out = engine.visit_type2(&t2, false).unwrap();
    assert_eq!(
        out,
        "[\n...([(number),(number),(number)]|[(number),(number),(number),(number)]|[(number),(number),(number),(number),(number)])]"
    );
}

#[test]
fn bounded_range_expands_to_union_of_tuple_schemas() {
    let engine = zod::Engine::new();
    let out = engine.expand_element(3, 5, "x").unwrap();
    assert_eq!(
        out,
        "z.union([z.tuple([x,x,x]),z.tuple([x,x,x,x]),z.tuple([x,x,x,x,x])])"
    );
}

#[test]
fn equal_bounds_expand_to_exact_copies() {
    let engine = zod::Engine::new();
    assert_eq!(engine.expand_element(2, 2, "x").unwrap(), "x,x");
    assert_eq!(engine.expand_element(0, 0, "x").unwrap(), "");
}

#[test]
fn wide_ranges_expand_to_array_schema_with_length_bounds() {
    let engine = zod::Engine::new();
    assert_eq!(engine.expand_element(1, usize::MAX, "x").unwrap(), "z.array(x).min(1)");
    assert_eq!(engine.expand_element(0, usize::MAX, "x").unwrap(), "z.array(x)");
    assert_eq!(engine.expand_element(2, 100, "x").unwrap(), "z.array(x).min(2).max(100)");
}

#[test]
fn inconsistent_bounds_are_rejected() {
    let engine = zod::Engine::new();
    assert_eq!(engine.expand_element(5, 2, "x").unwrap_err(), EmitError::InvalidBounds);
}

#[test]
fn zero_or_more_renders_open_ended_sequence() {
    let entry = ValueMemberKeyEntry {
        occur: occurrence(Occur::ZeroOrMore),
        member_key: None,
        entry_type: simple_type(typename("uint")),
    };
    let t2 = Type2::ArrayGroup {
        group: Group {
            group_choices: vec![GroupChoice {
                group_entries: vec![GroupEntry::ValueMemberKey { ge: entry }],
            }],
        },
    };
    let mut engine = ts_engine();
    let out = engine.visit_type2(&t2, false).unwrap();
    assert_eq!(out, "[\n...((number)[])]");
}

#[test]
fn registered_group_reference_spreads_into_array() {
    let ge = TypeGroupnameEntry { occur: None, name: ident("pt"), generic_args: None };
    let mut engine = ts_engine();
    engine.groups = vec!["pt".to_string()];
    let spread = engine.visit_type_arrayname_entry(&ge).unwrap();
    assert_eq!(spread, "...Pt");
    let mut plain_engine = ts_engine();
    let plain = plain_engine.visit_type_arrayname_entry(&ge).unwrap();
    assert_eq!(plain, "Pt");
    assert_ne!(spread, plain);
}

#[test]
fn unsupported_member_key_aborts_the_rule() {
    let mut engine = ts_engine();
    let err = engine.visit_memberkey(&cddlconv::ast::MemberKey::NonMemberKey).unwrap_err();
    assert_eq!(err, EmitError::UnsupportedMemberKey);
}

#[test]
fn dialects_differ_on_every_primitive() {
    let primitives = [
        "bool", "uint", "nint", "int", "float16", "float32", "float64", "float16-32",
        "float32-64", "float", "number", "biguint", "bignint", "bigint", "bstr", "bytes",
        "tstr", "text", "any", "nil", "null", "true", "false", "undefined", "uri", "regexp",
    ];
    let ts = ts_engine();
    let z = zod::Engine::new();
    for name in primitives {
        let a = ts.visit_identifier(&ident(name));
        let b = z.visit_identifier(&ident(name), false);
        assert!(!a.is_empty(), "{name}");
        assert!(!b.is_empty(), "{name}");
        assert_ne!(a, b, "{name}");
    }
}

#[test]
fn document_skips_failed_rule_and_keeps_the_rest() {
    let bad = TypeRule {
        name: ident("bad"),
        generic_params: None,
        value: simple_type(Type1 {
            type2: Type2::MapGroup {
                group: Group {
                    group_choices: vec![GroupChoice {
                        group_entries: vec![GroupEntry::ValueMemberKey {
                            ge: ValueMemberKeyEntry {
                                occur: None,
                                member_key: Some(cddlconv::ast::MemberKey::NonMemberKey),
                                entry_type: simple_type(typename("uint")),
                            },
                        }],
                    }],
                },
            },
            operator: None,
        }),
    };
    let good = TypeRule {
        name: ident("status"),
        generic_params: None,
        value: Type { type_choices: vec![text_choice("ok"), text_choice("error")] },
    };
    let doc = Cddl {
        rules: vec![Rule::Type { rule: bad }, Rule::Type { rule: good }],
    };
    let mut engine = ts_engine();
    let err = engine.visit_cddl(&doc).unwrap_err();
    assert_eq!(err, EmitError::UnsupportedMemberKey);
    let (stdout, stderr) = engine.into_writers();
    assert_eq!(stdout, "export const enum Status {Ok = \"ok\",\nError = \"error\",\n}\n");
    assert!(stderr.contains("Skipping rule that could not be emitted: bad"));
}

#[test]
fn group_rule_registers_and_renders_both_contexts() {
    let group = GroupRule {
        name: ident("pt"),
        generic_params: None,
        entry: GroupEntry::ValueMemberKey {
            ge: ValueMemberKeyEntry {
                occur: None,
                member_key: Some(cddlconv::ast::MemberKey::Bareword { ident: ident("x") }),
                entry_type: simple_type(typename("uint")),
            },
        },
    };
    let doc = Cddl { rules: vec![Rule::Group { rule: group }] };
    let mut engine = ts_engine();
    engine.visit_cddl(&doc).unwrap();
    assert_eq!(engine.groups, vec!["pt".to_string()]);
    let (stdout, _) = engine.into_writers();
    assert_eq!(stdout, "export type Pt = {\n\"x\":(number)};\n");
}

#[test]
fn missing_map_key_falls_back_with_diagnostic() {
    let gc = GroupChoice {
        group_entries: vec![GroupEntry::ValueMemberKey {
            ge: ValueMemberKeyEntry {
                occur: None,
                member_key: None,
                entry_type: simple_type(typename("uint")),
            },
        }],
    };
    let mut engine = ts_engine();
    let out = engine.visit_group_choice(&gc).unwrap();
    assert_eq!(out, "(number)");
    let (_, stderr) = engine.into_writers();
    assert!(stderr.contains("Expected a member key in map context"));
}

#[test]
fn status_rule_renders_as_lazy_enum_schema() {
    let rule = TypeRule {
        name: ident("status"),
        generic_params: None,
        value: Type { type_choices: vec![text_choice("ok"), text_choice("error")] },
    };
    let mut engine = zod::Engine::new();
    let out = engine.visit_type_rule(&rule).unwrap();
    assert_eq!(out, "export const StatusSchema = z.lazy(() => z.enum([\"ok\",\"error\",]));\n");
}

#[test]
fn bounded_range_in_array_expands_to_tuple_schemas() {
    let entry = ValueMemberKeyEntry {
        occur: occurrence(Occur::Exact { lower: Some(3), upper: Some(5) }),
        member_key: None,
        entry_type: simple_type(typename("uint")),
    };
    let t2 = Type2::ArrayGroup {
        group: Group {
            group_choices: vec![GroupChoice {
                group_entries: vec![GroupEntry::ValueMemberKey { ge: entry }],
            }],
        },
    };
    let mut engine = zod::Engine::new();
    let out = engine.visit_type2(&t2, zod::ValueMode::Literal).unwrap();
    let e = "z.number().int().nonnegative()";
    assert_eq!(
        out,
        format!(
            "z.union([z.tuple([{e},{e},{e}]),z.tuple([{e},{e},{e},{e}]),z.tuple([{e},{e},{e},{e},{e}])])"
        )
    );
}

#[test]
fn equality_operators_are_a_fatal_error_in_the_builder_dialect() {
    let t1 = Type1 {
        type2: Type2::Typename { ident: ident("uint"), generic_args: None },
        operator: Some(cddlconv::ast::Operator {
            operator: cddlconv::ast::RangeCtlOp::CtlOp {
                ctrl: cddlconv::ast::ControlOperator::Eq,
            },
            type2: Type2::UintValue { value: 5 },
        }),
    };
    let mut engine = zod::Engine::new();
    assert_eq!(engine.visit_type1(&t1).unwrap_err(), EmitError::UnsupportedControl);
}

#[test]
fn constraint_operators_chain_builder_calls() {
    let sized = Type1 {
        type2: Type2::Typename { ident: ident("tstr"), generic_args: None },
        operator: Some(cddlconv::ast::Operator {
            operator: cddlconv::ast::RangeCtlOp::CtlOp {
                ctrl: cddlconv::ast::ControlOperator::Size,
            },
            type2: Type2::UintValue { value: 5 },
        }),
    };
    let mut engine = zod::Engine::new();
    assert_eq!(engine.visit_type1(&sized).unwrap(), "z.string().length(5)");
    let ranged = Type1 {
        type2: Type2::Typename { ident: ident("int"), generic_args: None },
        operator: Some(cddlconv::ast::Operator {
            operator: cddlconv::ast::RangeCtlOp::RangeOp { is_inclusive: true },
            type2: Type2::UintValue { value: 9 },
        }),
    };
    assert_eq!(
        engine.visit_type1(&ranged).unwrap(),
        "z.number().int().gte(z.number().int()).lte(9)"
    );
}

#[test]
fn mixing_fixed_and_variable_arity_is_rejected() {
    let fixed = GroupEntry::ValueMemberKey {
        ge: ValueMemberKeyEntry {
            occur: None,
            member_key: None,
            entry_type: simple_type(typename("int")),
        },
    };
    let variable = GroupEntry::ValueMemberKey {
        ge: ValueMemberKeyEntry {
            occur: occurrence(Occur::ZeroOrMore),
            member_key: None,
            entry_type: simple_type(typename("int")),
        },
    };
    let gc = GroupChoice { group_entries: vec![fixed, variable] };
    let mut engine = zod::Engine::new();
    assert_eq!(engine.visit_array_choice(&gc).unwrap_err(), EmitError::MixedArity);
}

#[test]
fn group_rule_renders_as_lazy_object_schema() {
    let group = GroupRule {
        name: ident("pt"),
        generic_params: None,
        entry: GroupEntry::ValueMemberKey {
            ge: ValueMemberKeyEntry {
                occur: None,
                member_key: Some(cddlconv::ast::MemberKey::Bareword { ident: ident("x") }),
                entry_type: simple_type(typename("uint")),
            },
        },
    };
    let mut engine = zod::Engine::new();
    let out = engine.visit_group_rule(&group).unwrap();
    assert_eq!(
        out,
        "export const PtSchema = z.lazy(() =>   z.object({\n\"x\":z.number().int().nonnegative()}));\n"
    );
}

#[test]
fn zod_document_skips_failed_rule_and_keeps_the_rest() {
    let bad = TypeRule {
        name: ident("bad"),
        generic_params: None,
        value: simple_type(Type1 {
            type2: Type2::Typename { ident: ident("uint"), generic_args: None },
            operator: Some(cddlconv::ast::Operator {
                operator: cddlconv::ast::RangeCtlOp::CtlOp {
                    ctrl: cddlconv::ast::ControlOperator::Ne,
                },
                type2: Type2::UintValue { value: 0 },
            }),
        }),
    };
    let good = TypeRule {
        name: ident("status"),
        generic_params: None,
        value: Type { type_choices: vec![text_choice("ok"), text_choice("error")] },
    };
    let doc = Cddl { rules: vec![Rule::Type { rule: bad }, Rule::Type { rule: good }] };
    let mut engine = zod::Engine::new();
    let err = engine.visit_cddl(&doc).unwrap_err();
    assert_eq!(err, EmitError::UnsupportedControl);
    let (stdout, stderr) = engine.into_writers();
    assert_eq!(stdout, "export const StatusSchema = z.lazy(() => z.enum([\"ok\",\"error\",]));\n");
    assert!(stderr.contains("Skipping rule that could not be emitted: bad"));
}

#[test]
fn open_ended_prefix_keeps_every_lower_bound_copy() {
    let entry = ValueMemberKeyEntry {
        occur: occurrence(Occur::Exact { lower: Some(9), upper: None }),
        member_key: None,
        entry_type: simple_type(typename("uint")),
    };
    let t2 = Type2::ArrayGroup {
        group: Group {
            group_choices: vec![GroupChoice {
                group_entries: vec![GroupEntry::ValueMemberKey { ge: entry }],
            }],
        },
    };
    let mut engine = ts_engine();
    let out = engine.visit_type2(&t2, false).unwrap();
    assert_eq!(out, format!("[\n{}...(number)[]]", "(number),".repeat(9)));
    let zod_engine = zod::Engine::new();
    assert_eq!(
        zod_engine.expand_element(9, usize::MAX, "x").unwrap(),
        "z.array(x).min(9)"
    );
}
