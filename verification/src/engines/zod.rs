//! The validator-builder backend: renders the grammar as runtime validator
//! expressions — object schemas for maps, tuple schemas for arrays, chained
//! constraint calls for range and control operators, an enumeration
//! combinator for all-textual choices, and unions of fixed-arity tuple
//! schemas for bounded cardinalities.

use vstd::prelude::*;
use vstd::string::StringExecFns;

use crate::ast::Cddl;
use crate::ast::ControlOperator;
use crate::ast::GenericArgs;
use crate::ast::GenericParams;
use crate::ast::Group;
use crate::ast::GroupChoice;
use crate::ast::GroupEntry;
use crate::ast::GroupRule;
use crate::ast::Identifier;
use crate::ast::MemberKey;
use crate::ast::RangeCtlOp;
use crate::ast::Rule;
use crate::ast::Type;
use crate::ast::Type1;
use crate::ast::Type2;
use crate::ast::TypeGroupnameEntry;
use crate::ast::TypeRule;
use crate::ast::Value;
use crate::ast::ValueMemberKeyEntry;
use crate::emit::Emit;
use crate::emit::EmitError;
use crate::engines::typescript::ns_open_upto;
use crate::engines::typescript::skip_text;
use crate::occur::Expansion;
use crate::occur::UNBOUNDED;
use crate::occur::calculate_occurrence;
use crate::occur::expansion_plan;
use crate::occur::is_group_entry_occurence_optional;
use crate::occur::occurrence_bounds;
use crate::occur::occurrence_is_optional;
use crate::occur::spec_expansion_plan;
use crate::strnum::append_join_rep;
use crate::strnum::append_tuple_alts;
use crate::strnum::dec_digits;
use crate::strnum::i64_dec_str;
use crate::strnum::int_text;
use crate::strnum::join_rep;
use crate::strnum::str_eq;
use crate::strnum::tuple_alts;
use crate::strnum::u64_dec_str;
use crate::strnum::usize_dec_str;
use crate::util::all_alphaspace;
use crate::util::is_alphaspace;
use crate::util::namespaced_of;
use crate::util::pascal_segments;
use crate::util::split_namespaced;
use crate::util::to_namespaced;

verus! {

/// How a scalar literal is rendered: as an exact-value check, widened to its
/// primitive type, or as a raw operand of a chained constraint call.
#[derive(Clone, Copy, PartialEq, Eq, Structural, Debug)]
pub enum ValueMode {
    Literal,
    Generic,
    JavaScript,
}

/// The container context of one group-choice frame: whether an object or
/// tuple schema is open, whether the next entry is the frame's first, and
/// whether a record schema or an `.and(` chain is open.
#[derive(Clone, Copy, PartialEq, Eq, Structural, Debug)]
pub struct GroupChoiceContext {
    pub in_object: bool,
    pub is_first: bool,
    pub in_record: bool,
    pub in_and: bool,
}

/// The fresh frame a group choice starts with.
pub open spec fn init_ctx() -> GroupChoiceContext {
    GroupChoiceContext { in_object: false, is_first: true, in_record: false, in_and: false }
}

/// The rendering of a primitive or rule-reference identifier.  In raw
/// operand position the keyword values stay bare; a rule reference becomes
/// its namespaced schema constant.
pub open spec fn ident_text(s: Seq<char>, js: bool) -> Seq<char> {
    if js && (s == "null"@ || s == "true"@ || s == "false"@ || s == "undefined"@) {
        s
    } else if s == "bool"@ {
        "z.boolean()"@
    } else if s == "uint"@ {
        "z.number().int().nonnegative()"@
    } else if s == "nint"@ {
        "z.number().int().negative()"@
    } else if s == "int"@ {
        "z.number().int()"@
    } else if s == "float16"@ || s == "float32"@ || s == "float64"@ || s == "float16-32"@
        || s == "float32-64"@ || s == "float"@ || s == "number"@ {
        "z.number()"@
    } else if s == "biguint"@ {
        "z.bigint().nonnegative()"@
    } else if s == "bignint"@ {
        "z.bigint().negative()"@
    } else if s == "bigint"@ {
        "z.bigint()"@
    } else if s == "bstr"@ || s == "bytes"@ || s == "tstr"@ || s == "text"@ {
        "z.string()"@
    } else if s == "any"@ {
        "z.any()"@
    } else if s == "nil"@ || s == "null"@ {
        "z.null()"@
    } else if s == "true"@ {
        "z.literal(true)"@
    } else if s == "false"@ {
        "z.literal(false)"@
    } else if s == "undefined"@ {
        "z.undefined()"@
    } else if s == "uri"@ {
        "z.string().url()"@
    } else if s == "regexp"@ {
        "z.string()"@
    } else {
        namespaced_of(s) + "Schema"@
    }
}

/// The rendering of a scalar literal under a value mode.
pub open spec fn value_text(v: Value, mode: ValueMode) -> Seq<char> {
    match mode {
        ValueMode::Literal => match v {
            Value::Int(i) => "z.literal("@ + int_text(i as int) + ")"@,
            Value::Uint(u) => "z.literal("@ + dec_digits(u as int) + ")"@,
            Value::Float(t) => "z.literal("@ + t@ + ")"@,
            Value::Text(t) => "z.literal(\""@ + t@ + "\""@ + ")"@,
            Value::Byte(t) => "z.literal(\""@ + t@ + "\""@ + ")"@,
        },
        ValueMode::Generic => match v {
            Value::Int(_) => "z.number().int()"@,
            Value::Uint(_) => "z.number().int().nonnegative()"@,
            Value::Float(_) => "z.number()"@,
            Value::Text(_) => "z.string()"@,
            Value::Byte(_) => "z.string()"@,
        },
        ValueMode::JavaScript => match v {
            Value::Int(i) => int_text(i as int),
            Value::Uint(u) => dec_digits(u as int),
            Value::Float(t) => t@,
            Value::Text(t) => "\""@ + t@ + "\""@,
            Value::Byte(t) => "\""@ + t@ + "\""@,
        },
    }
}

/// Whether one alternative qualifies for the enumeration combinator: a text
/// literal of letters and spaces alone.
pub open spec fn choice_is_enum_string(t1: Type1) -> bool {
    match t1.type2 {
        Type2::TextValue { value } => all_alphaspace(value@),
        _ => false,
    }
}

/// Whether the enumeration combinator applies: more than one alternative,
/// all of them identifier-safe text literals.
pub open spec fn enum_applies(t: Type) -> bool {
    &&& t.type_choices@.len() > 1
    &&& forall|i: int|
        0 <= i < t.type_choices@.len() ==> choice_is_enum_string(#[trigger] t.type_choices@[i])
}

/// The members of the enumeration combinator call, each quoted and
/// comma-terminated; alternatives that are not text literals contribute
/// nothing.
pub open spec fn enum_items_upto(cs: Seq<Type1>, k: int) -> Seq<char>
    decreases k,
{
    if k <= 0 || cs.len() < k {
        Seq::empty()
    } else {
        enum_items_upto(cs, k - 1) + match cs[k - 1].type2 {
            Type2::TextValue { value } => "\""@ + value@ + "\","@,
            _ => Seq::<char>::empty(),
        }
    }
}

/// The full enumeration combinator call.
pub open spec fn enum_text(t: Type) -> Seq<char> {
    "z.enum(["@ + enum_items_upto(t.type_choices@, t.type_choices@.len() as int) + "])"@
}

/// The open-ended sequence form: an array schema with explicit minimum and
/// maximum length assertions when the bounds are finite.
pub open spec fn seq_text(lower: usize, upper: usize, e: Seq<char>) -> Seq<char> {
    "z.array("@ + e + ")"@ + (if lower > 0 {
        ".min("@ + dec_digits(lower as int) + ")"@
    } else {
        Seq::<char>::empty()
    }) + (if upper != UNBOUNDED {
        ".max("@ + dec_digits(upper as int) + ")"@
    } else {
        Seq::<char>::empty()
    })
}

/// The expansion of an element repeated between `lower` and `upper` times:
/// exactly `n` comma-separated copies for equal bounds, a union of tuple
/// schemas of every admissible arity for a narrow finite range, and an
/// array schema with length assertions otherwise.
pub open spec fn expansion_text(x: Expansion, lower: usize, upper: usize, e: Seq<char>) -> Seq<
    char,
> {
    match x {
        Expansion::Exact { count } => join_rep(e, ","@, count as int),
        Expansion::Enumerate { lower: l, upper: u } => "z.union(["@
            + tuple_alts(e, "z.tuple(["@, "])"@, ","@, l as int, u as int) + "])"@,
        Expansion::Unbounded { prefix: _ } => seq_text(lower, upper, e),
    }
}

/// Opening a tuple schema: only if no container is open in this frame.
pub open spec fn enter_tuple_spec(c: GroupChoiceContext) -> (Seq<char>, GroupChoiceContext) {
    if !c.in_object {
        ("z.tuple([\n"@, GroupChoiceContext { in_object: true, ..c })
    } else {
        (Seq::empty(), c)
    }
}

/// Opening an intersection chain: only if none is open.
pub open spec fn enter_and_spec(c: GroupChoiceContext) -> (Seq<char>, GroupChoiceContext) {
    if !c.in_and {
        (".and(\n"@, GroupChoiceContext { in_and: true, ..c })
    } else {
        (Seq::empty(), c)
    }
}

/// Closing the intersection chain, if one is open.
pub open spec fn exit_and_spec(c: GroupChoiceContext) -> (Seq<char>, GroupChoiceContext) {
    if c.in_and {
        (")\n"@, GroupChoiceContext { in_and: false, ..c })
    } else {
        (Seq::empty(), c)
    }
}

/// Closing the tuple schema if one is open, then the intersection chain.
pub open spec fn exit_tuple_spec(c: GroupChoiceContext) -> (Seq<char>, GroupChoiceContext) {
    let (t1, c1) = if c.in_object {
        ("])"@, GroupChoiceContext { in_object: false, ..c })
    } else {
        (Seq::<char>::empty(), c)
    };
    let (t2, c2) = exit_and_spec(c1);
    (t1 + t2, c2)
}

/// Opening an object schema: only if no container is open in this frame.
pub open spec fn enter_map_spec(c: GroupChoiceContext) -> (Seq<char>, GroupChoiceContext) {
    if !c.in_object {
        ("z.object({\n"@, GroupChoiceContext { in_object: true, ..c })
    } else {
        (Seq::empty(), c)
    }
}

/// Closing the object schema if one is open, then the intersection chain.
pub open spec fn exit_map_spec(c: GroupChoiceContext) -> (Seq<char>, GroupChoiceContext) {
    let (t1, c1) = if c.in_object {
        ("})"@, GroupChoiceContext { in_object: false, ..c })
    } else {
        (Seq::<char>::empty(), c)
    };
    let (t2, c2) = exit_and_spec(c1);
    (t1 + t2, c2)
}

/// Opening a record schema: only if none is open.
pub open spec fn enter_record_spec(c: GroupChoiceContext) -> (Seq<char>, GroupChoiceContext) {
    if !c.in_record {
        ("z.record(\n"@, GroupChoiceContext { in_record: true, ..c })
    } else {
        (Seq::empty(), c)
    }
}

/// Closing the record schema, if one is open.
pub open spec fn exit_record_spec(c: GroupChoiceContext) -> (Seq<char>, GroupChoiceContext) {
    if c.in_record {
        (")"@, GroupChoiceContext { in_record: false, ..c })
    } else {
        (Seq::empty(), c)
    }
}

/// The connective owed before an entry: a comma inside an open container;
/// between closed ones, the open intersection chain is closed and a new one
/// started unless this is the frame's first entry.
pub open spec fn joiner_spec(c: GroupChoiceContext) -> (Seq<char>, GroupChoiceContext) {
    if c.in_object {
        (
            if !c.is_first {
                ","@
            } else {
                Seq::<char>::empty()
            },
            c,
        )
    } else {
        let (t1, c1) = exit_and_spec(c);
        if !c.is_first {
            let (t2, c2) = enter_and_spec(c1);
            (t1 + t2, c2)
        } else {
            (t1, c1)
        }
    }
}

/// The frame relation of every renderer: output untouched, diagnostics
/// extended.
pub open spec fn frame(pre: Engine, post: Engine, m: Emit) -> bool {
    &&& post.stdout == pre.stdout
    &&& post.stderr@ == pre.stderr@ + m.err
}

/// The full contract of a renderer returning `r`: the frame above, and the
/// result carrying exactly the emitted text, or exactly the fatal error.
pub open spec fn emits(pre: Engine, post: Engine, r: Result<String, EmitError>, m: Emit) -> bool {
    &&& frame(pre, post, m)
    &&& match m.fail {
        None => r is Ok && r->Ok_0@ == m.text,
        Some(e) => r == Err::<String, EmitError>(e),
    }
}

/// The diagnostic for a member key in array position, which this dialect
/// cannot express.
pub open spec fn array_key_text() -> Seq<char> {
    "Keys are not supported for arrays; ignoring the key\n"@
}

/// The diagnostic for a map entry that arrives without a member key.
pub open spec fn missing_key_text() -> Seq<char> {
    "Expected a member key for a map entry; treating the entry as a keyless value\n"@
}

/// A referenced identifier with its generic arguments, if any.
pub open spec fn ident_args_emit(name: Seq<char>, args: Option<GenericArgs>, js: bool) -> Emit
    decreases args, 3int,
{
    Emit::of(ident_text(name, js)).and_then(
        match args {
            None => Emit::empty(),
            Some(ga) => Emit::of("<"@).and_then(args_rest(ga.args@, 0)).and_text(">"@),
        },
    )
}

/// The generic arguments from position `j` on, each comma-terminated.
pub open spec fn args_rest(cs: Seq<Type1>, j: int) -> Emit
    decreases cs, 2int, cs.len() - j,
{
    if j < 0 || j >= cs.len() {
        Emit::empty()
    } else {
        type1_emit(cs[j]).and_text(","@).and_then(args_rest(cs, j + 1))
    }
}

/// The parameter-list suffix of a declared identifier.
pub open spec fn plist_upto(ps: Seq<Identifier>, k: int) -> Seq<char>
    decreases k,
{
    if k <= 0 || ps.len() < k {
        Seq::empty()
    } else {
        plist_upto(ps, k - 1) + ident_text(ps[k - 1].ident@, false) + ","@
    }
}

/// A declared identifier with its generic parameters, if any.
pub open spec fn params_text(name: Seq<char>, ps: Option<GenericParams>) -> Seq<char> {
    ident_text(name, false) + match ps {
        None => Seq::<char>::empty(),
        Some(p) => "<"@ + plist_upto(p.params@, p.params@.len() as int) + ">"@,
    }
}

/// A type: the enumeration combinator when the heuristic applies, else its
/// alternatives as a union combinator (no wrapper for a single alternative).
pub open spec fn type_emit(t: Type) -> Emit
    decreases t, 3int,
{
    if enum_applies(t) {
        Emit::of(enum_text(t))
    } else if t.type_choices@.len() != 1 {
        Emit::of("z.union(["@).and_then(choices_rest(t.type_choices@, 0)).and_text("])"@)
    } else {
        choices_rest(t.type_choices@, 0)
    }
}

/// The type alternatives from position `j` on, comma-separated.
pub open spec fn choices_rest(cs: Seq<Type1>, j: int) -> Emit
    decreases cs, 2int, cs.len() - j,
{
    if j < 0 || j >= cs.len() {
        Emit::empty()
    } else {
        (if j > 0 {
            Emit::of(","@)
        } else {
            Emit::empty()
        }).and_then(type1_emit(cs[j])).and_then(choices_rest(cs, j + 1))
    }
}

/// One chained constraint call: the fixed lead-in, the raw operand, the
/// fixed tail.
pub open spec fn ctl_line(pre: Seq<char>, t2: Type2, post: Seq<char>) -> Emit
    decreases t2, 4int,
{
    Emit::of(pre).and_then(type2_emit(t2, ValueMode::JavaScript)).and_text(post)
}

/// The chained calls an alternative's operator appends after its widened
/// base: range bounds, a constraint call per the dialect's table, or a
/// fatal error for the equality operators the dialect cannot express.
pub open spec fn op_chain_emit(t1: Type1) -> Emit
    decreases t1, 2int,
{
    match t1.operator {
        None => Emit::empty(),
        Some(op) => match op.operator {
            RangeCtlOp::RangeOp { is_inclusive } => {
                if is_inclusive {
                    Emit::of(".gte("@).and_then(type2_emit(t1.type2, ValueMode::JavaScript))
                        .and_text(").lte("@).and_then(
                        type2_emit(op.type2, ValueMode::JavaScript),
                    ).and_text(")"@)
                } else {
                    Emit::of(".gt("@).and_then(type2_emit(t1.type2, ValueMode::JavaScript))
                        .and_text(").lt("@).and_then(
                        type2_emit(op.type2, ValueMode::JavaScript),
                    ).and_text(")"@)
                }
            },
            RangeCtlOp::CtlOp { ctrl } => match ctrl {
                ControlOperator::Default => ctl_line(".default("@, op.type2, ")"@),
                ControlOperator::Size => ctl_line(".length("@, op.type2, ")"@),
                ControlOperator::Pcre => ctl_line(".regex(/"@, op.type2, "/)"@),
                ControlOperator::Regexp => ctl_line(".regex(/"@, op.type2, "/)"@),
                ControlOperator::Lt => ctl_line(".lt("@, op.type2, ")"@),
                ControlOperator::Le => ctl_line(".lte("@, op.type2, ")"@),
                ControlOperator::Gt => ctl_line(".gt("@, op.type2, ")"@),
                ControlOperator::Ge => ctl_line(".gte("@, op.type2, ")"@),
                ControlOperator::Within => ctl_line(".and("@, op.type2, ")"@),
                ControlOperator::And => ctl_line(".and("@, op.type2, ")"@),
                _ => Emit::fatal(EmitError::UnsupportedControl),
            },
        },
    }
}

/// One alternative: its leaf as an exact-value schema when bare, or widened
/// to its primitive schema and followed by the operator's chained calls.
pub open spec fn type1_emit(t1: Type1) -> Emit
    decreases t1, 3int,
{
    match t1.operator {
        None => type2_emit(t1.type2, ValueMode::Literal),
        Some(_) => type2_emit(t1.type2, ValueMode::Generic).and_then(op_chain_emit(t1)),
    }
}

/// A leaf shape.
pub open spec fn type2_emit(t2: Type2, mode: ValueMode) -> Emit
    decreases t2, 3int,
{
    match t2 {
        Type2::Typename { ident, generic_args } => ident_args_emit(
            ident.ident@,
            generic_args,
            mode is JavaScript,
        ),
        Type2::ParenthesizedType { pt } => type_emit(pt),
        Type2::MapGroup { group } => group_emit(group),
        Type2::ArrayGroup { group } => array_emit(group),
        Type2::Any => Emit::of("z.unknown()"@),
        Type2::TextValue { value } => Emit::of(value_text(Value::Text(value), mode)),
        Type2::IntValue { value } => Emit::of(value_text(Value::Int(value), mode)),
        Type2::UintValue { value } => Emit::of(value_text(Value::Uint(value), mode)),
        Type2::FloatValue { text } => Emit::of(value_text(Value::Float(text), mode)),
        Type2::ByteValue { text } => Emit::of(value_text(Value::Byte(text), mode)),
        Type2::TaggedData { t } => type_emit(t),
    }
}

/// A group in array position: its choices as a union combinator (no wrapper
/// for a single choice).
pub open spec fn array_emit(g: Group) -> Emit
    decreases g, 3int,
{
    if g.group_choices@.len() != 1 {
        Emit::of("z.union(["@).and_then(achoices_rest(g.group_choices@, 0)).and_text("])"@)
    } else {
        achoices_rest(g.group_choices@, 0)
    }
}

/// The array-position choices from position `j` on, comma-separated.
pub open spec fn achoices_rest(gcs: Seq<GroupChoice>, j: int) -> Emit
    decreases gcs, 2int, gcs.len() - j,
{
    if j < 0 || j >= gcs.len() {
        Emit::empty()
    } else {
        (if j > 0 {
            Emit::of(","@)
        } else {
            Emit::empty()
        }).and_then(array_choice_emit(gcs[j])).and_then(achoices_rest(gcs, j + 1))
    }
}

/// Whether an entry repeats with variable cardinality (or cannot sit inside
/// a fixed tuple at all, as an inline subgroup cannot).
pub open spec fn entry_is_variable(e: GroupEntry) -> bool {
    match e {
        GroupEntry::ValueMemberKey { ge } => occur_is_variable(ge.occur),
        GroupEntry::TypeGroupname { ge } => occur_is_variable(ge.occur),
        GroupEntry::InlineGroup { occur: _, group: _ } => true,
    }
}

/// Whether an occurrence's expansion is anything but a fixed arity.
pub open spec fn occur_is_variable(o: Option<crate::ast::Occurrence>) -> bool {
    let b = occurrence_bounds(o);
    !(spec_expansion_plan(b.0, b.1) matches Ok(Expansion::Exact { .. }))
}

/// Whether a choice mixes fixed-arity and variable-cardinality elements,
/// which this dialect's combinators cannot express in one declaration.
pub open spec fn choice_mixed(es: Seq<GroupEntry>) -> bool {
    &&& exists|i: int| 0 <= i < es.len() && entry_is_variable(#[trigger] es[i])
    &&& exists|i: int| 0 <= i < es.len() && !entry_is_variable(#[trigger] es[i])
}

/// One array-position choice inside a fresh frame; mixing fixed and
/// variable elements is a hard error.
pub open spec fn array_choice_emit(gc: GroupChoice) -> Emit
    decreases gc, 3int,
{
    if gc.group_entries@.len() == 0 {
        Emit::of(enter_tuple_spec(init_ctx()).0 + exit_tuple_spec(enter_tuple_spec(init_ctx()).1).0)
    } else if choice_mixed(gc.group_entries@) {
        Emit::fatal(EmitError::MixedArity)
    } else {
        let (m, c) = aentries_rest(gc.group_entries@, 0, init_ctx());
        m.and_text(exit_tuple_spec(c).0)
    }
}

/// The array entries from position `j` on, threading the frame.
pub open spec fn aentries_rest(es: Seq<GroupEntry>, j: int, c: GroupChoiceContext) -> (
    Emit,
    GroupChoiceContext,
)
    decreases es, 2int, es.len() - j,
{
    if j < 0 || j >= es.len() {
        (Emit::empty(), c)
    } else {
        let c0 = GroupChoiceContext { is_first: j == 0, ..c };
        let (m, c1) = array_entry_emit(es[j], c0);
        let (m2, c2) = aentries_rest(es, j + 1, c1);
        (m.and_then(m2), c2)
    }
}

/// One array entry.
pub open spec fn array_entry_emit(e: GroupEntry, c: GroupChoiceContext) -> (
    Emit,
    GroupChoiceContext,
)
    decreases e, 4int,
{
    match e {
        GroupEntry::ValueMemberKey { ge } => value_array_mk_emit(ge, c),
        GroupEntry::TypeGroupname { ge } => type_arrayname_emit(ge, c),
        GroupEntry::InlineGroup { occur: _, group } => {
            let (t1, c1) = exit_tuple_spec(c);
            let (t2, c2) = joiner_spec(c1);
            (Emit::of(t1).and_text(t2).and_then(array_emit(group)), c2)
        },
    }
}

/// A value entry in array position: member keys are dropped with a
/// diagnostic; a fixed arity joins the open tuple, anything else closes it
/// and stands alone.
pub open spec fn value_array_mk_emit(ge: ValueMemberKeyEntry, c: GroupChoiceContext) -> (
    Emit,
    GroupChoiceContext,
)
    decreases ge, 3int,
{
    let d = match ge.member_key {
        Some(_) => Emit::diag(array_key_text()),
        None => Emit::empty(),
    };
    let b = occurrence_bounds(ge.occur);
    match spec_expansion_plan(b.0, b.1) {
        Err(er) => (d.and_then(Emit::fatal(er)), c),
        Ok(x) => {
            let te = type_emit(ge.entry_type);
            if x is Exact {
                let (t1, c1) = joiner_spec(c);
                let (t2, c2) = enter_tuple_spec(c1);
                (
                    d.and_text(t1).and_text(t2).and_then(
                        te.with_text(expansion_text(x, b.0, b.1, te.text)),
                    ),
                    c2,
                )
            } else {
                let (t1, c1) = exit_tuple_spec(c);
                let (t2, c2) = joiner_spec(c1);
                (
                    d.and_text(t1).and_text(t2).and_then(
                        te.with_text(expansion_text(x, b.0, b.1, te.text)),
                    ),
                    c2,
                )
            }
        },
    }
}

/// A named reference in array position, repeated per its occurrence.
pub open spec fn type_arrayname_emit(ge: TypeGroupnameEntry, c: GroupChoiceContext) -> (
    Emit,
    GroupChoiceContext,
)
    decreases ge, 3int,
{
    let b = occurrence_bounds(ge.occur);
    match spec_expansion_plan(b.0, b.1) {
        Err(er) => (Emit::fatal(er), c),
        Ok(x) => {
            let ae = ident_args_emit(ge.name.ident@, ge.generic_args, false);
            if x is Exact {
                let (t1, c1) = joiner_spec(c);
                let (t2, c2) = enter_tuple_spec(c1);
                (
                    Emit::of(t1).and_text(t2).and_then(
                        ae.with_text(expansion_text(x, b.0, b.1, ae.text)),
                    ),
                    c2,
                )
            } else {
                let (t1, c1) = exit_tuple_spec(c);
                let (t2, c2) = joiner_spec(c1);
                (
                    Emit::of(t1).and_text(t2).and_then(
                        ae.with_text(expansion_text(x, b.0, b.1, ae.text)),
                    ),
                    c2,
                )
            }
        },
    }
}

/// A group in map position: its choices as a union combinator (no wrapper
/// for a single choice).
pub open spec fn group_emit(g: Group) -> Emit
    decreases g, 3int,
{
    if g.group_choices@.len() != 1 {
        Emit::of("z.union(["@).and_then(gchoices_rest(g.group_choices@, 0)).and_text("])"@)
    } else {
        gchoices_rest(g.group_choices@, 0)
    }
}

/// The map-position choices from position `j` on, comma-separated.
pub open spec fn gchoices_rest(gcs: Seq<GroupChoice>, j: int) -> Emit
    decreases gcs, 2int, gcs.len() - j,
{
    if j < 0 || j >= gcs.len() {
        Emit::empty()
    } else {
        (if j > 0 {
            Emit::of(","@)
        } else {
            Emit::empty()
        }).and_then(group_choice_emit(gcs[j])).and_then(gchoices_rest(gcs, j + 1))
    }
}

/// One map-position choice inside a fresh frame; an empty choice is the
/// empty object schema.
pub open spec fn group_choice_emit(gc: GroupChoice) -> Emit
    decreases gc, 3int,
{
    if gc.group_entries@.len() == 0 {
        Emit::of(enter_map_spec(init_ctx()).0 + exit_map_spec(enter_map_spec(init_ctx()).1).0)
    } else {
        let (m, c) = gentries_rest(gc.group_entries@, 0, init_ctx());
        m.and_text(exit_map_spec(c).0)
    }
}

/// The map entries from position `j` on, threading the frame.
pub open spec fn gentries_rest(es: Seq<GroupEntry>, j: int, c: GroupChoiceContext) -> (
    Emit,
    GroupChoiceContext,
)
    decreases es, 2int, es.len() - j,
{
    if j < 0 || j >= es.len() {
        (Emit::empty(), c)
    } else {
        let c0 = GroupChoiceContext { is_first: j == 0, ..c };
        let (m, c1) = group_entry_emit(es[j], c0);
        let (m2, c2) = gentries_rest(es, j + 1, c1);
        (m.and_then(m2), c2)
    }
}

/// One map entry.  A named reference or inline subgroup closes the object
/// schema and joins in through the intersection chain, a reference made
/// partial when its occurrence is optional.
pub open spec fn group_entry_emit(e: GroupEntry, c: GroupChoiceContext) -> (
    Emit,
    GroupChoiceContext,
)
    decreases e, 4int,
{
    match e {
        GroupEntry::ValueMemberKey { ge } => value_member_key_entry_emit(ge, c),
        GroupEntry::TypeGroupname { ge } => {
            let (t1, c1) = exit_map_spec(c);
            let (t2, c2) = joiner_spec(c1);
            let m = Emit::of(t1).and_text(t2).and_then(
                ident_args_emit(ge.name.ident@, ge.generic_args, false),
            ).and_text(
                if occurrence_is_optional(ge.occur) {
                    ".partial()"@
                } else {
                    Seq::<char>::empty()
                },
            );
            (m, c2)
        },
        GroupEntry::InlineGroup { occur: _, group } => {
            let (t1, c1) = exit_map_spec(c);
            let (t2, c2) = joiner_spec(c1);
            (Emit::of(t1).and_text(t2).and_then(group_emit(group)), c2)
        },
    }
}

/// A member key: a computed key opens a record schema, a bareword becomes a
/// quoted property name, a literal a literal index; other forms have no
/// rendering.
pub open spec fn memberkey_emit(mk: MemberKey, c: GroupChoiceContext) -> (
    Emit,
    GroupChoiceContext,
)
    decreases mk, 3int,
{
    match mk {
        MemberKey::Type1 { t1, is_cut: _ } => {
            let (t1x, c1) = exit_map_spec(c);
            let (t2x, c2) = joiner_spec(c1);
            let (t3x, c3) = enter_record_spec(c2);
            (Emit::of(t1x).and_text(t2x).and_text(t3x).and_then(type1_emit(t1)).and_text(","@), c3)
        },
        MemberKey::Bareword { ident } => {
            let (j, c1) = joiner_spec(c);
            let (o, c2) = enter_map_spec(c1);
            (
                Emit::of(j).and_text(o).and_text("\""@).and_text(ident.ident@).and_text("\":"@),
                c2,
            )
        },
        MemberKey::Value { value } => {
            let (j, c1) = joiner_spec(c);
            let (o, c2) = enter_map_spec(c1);
            (
                Emit::of(j).and_text(o).and_text("["@).and_text(
                    value_text(value, ValueMode::JavaScript),
                ).and_text("]:"@),
                c2,
            )
        },
        MemberKey::NonMemberKey => (Emit::fatal(EmitError::UnsupportedMemberKey), c),
    }
}

/// A keyed map entry: its key, its value schema, `.optional()` when the
/// occurrence allows absence (and the key is not a non-cut computed key),
/// and the record schema closed.  An entry with no key becomes a keyless
/// composition, partial when optional, with a diagnostic.
pub open spec fn value_member_key_entry_emit(ge: ValueMemberKeyEntry, c: GroupChoiceContext) -> (
    Emit,
    GroupChoiceContext,
)
    decreases ge, 3int,
{
    match ge.member_key {
        None => {
            let (t1, c1) = exit_map_spec(c);
            let (t2, c2) = joiner_spec(c1);
            let m = Emit::diag(missing_key_text()).and_text(t1).and_text(t2).and_then(
                type_emit(ge.entry_type),
            ).and_text(
                if occurrence_is_optional(ge.occur) {
                    ".partial()"@
                } else {
                    Seq::<char>::empty()
                },
            );
            (m, c2)
        },
        Some(mk) => {
            let (km, c1) = memberkey_emit(mk, c);
            let opt = occurrence_is_optional(ge.occur) && (match mk {
                MemberKey::Type1 { t1: _, is_cut } => is_cut,
                _ => true,
            });
            let (rx, c2) = exit_record_spec(c1);
            (
                Emit::of("  "@).and_then(km).and_then(type_emit(ge.entry_type)).and_text(
                    if opt {
                        ".optional()"@
                    } else {
                        Seq::<char>::empty()
                    },
                ).and_text(rx),
                c2,
            )
        },
    }
}

/// A type rule: namespace wrappers around a lazily evaluated schema
/// constant.
#[verifier::opaque]
pub open spec fn type_rule_emit(tr: TypeRule) -> Emit
    decreases tr, 3int,
{
    let segs = pascal_segments(tr.name.ident@);
    let nss = segs.drop_last();
    let name = segs.last();
    Emit::of(ns_open_upto(nss, nss.len() as int)).and_text("export const "@).and_text(
        params_text(name, tr.generic_params),
    ).and_text(" = z.lazy(() => "@).and_then(type_emit(tr.value)).and_text(");\n"@).and_text(
        crate::strnum::rep("}\n"@, nss.len() as int),
    )
}

/// A group rule: namespace wrappers around the lazily evaluated schema of
/// its single entry in map position.
#[verifier::opaque]
pub open spec fn group_rule_emit(gr: GroupRule) -> Emit
    decreases gr, 3int,
{
    let segs = pascal_segments(gr.name.ident@);
    let nss = segs.drop_last();
    let name = segs.last();
    let (m, c) = group_entry_emit(gr.entry, init_ctx());
    Emit::of(ns_open_upto(nss, nss.len() as int)).and_text("export const "@).and_text(
        params_text(name, gr.generic_params),
    ).and_text(" = z.lazy(() => "@).and_then(m).and_text(exit_map_spec(c).0).and_text(
        ");\n"@,
    ).and_text(crate::strnum::rep("}\n"@, nss.len() as int))
}

/// The rules from position `j` on: a failed rule contributes no output,
/// only its diagnostics and a skip notice; the first failure is reported.
pub open spec fn rules_rest(rules: Seq<Rule>, j: int) -> Emit
    decreases rules, 2int, rules.len() - j,
{
    if j < 0 || j >= rules.len() {
        Emit::empty()
    } else {
        let m = match rules[j] {
            Rule::Type { rule } => type_rule_emit(rule),
            Rule::Group { rule } => group_rule_emit(rule),
        };
        let nm = match rules[j] {
            Rule::Type { rule } => rule.name.ident@,
            Rule::Group { rule } => rule.name.ident@,
        };
        let rest = rules_rest(rules, j + 1);
        match m.fail {
            None => Emit {
                text: m.text + rest.text,
                err: m.err + rest.err,
                flatten: m.flatten || rest.flatten,
                fail: rest.fail,
            },
            Some(_) => Emit {
                text: rest.text,
                err: m.err + skip_text(nm) + rest.err,
                flatten: m.flatten || rest.flatten,
                fail: m.fail,
            },
        }
    }
}

/// The validator-builder engine: its output and diagnostic sinks.
pub struct Engine {
    pub stdout: String,
    pub stderr: String,
}

impl Engine {
    /// Creates an engine with empty output and diagnostic sinks.
    pub fn new() -> (r: Engine)
        ensures
            r.stdout@ == Seq::<char>::empty(),
            r.stderr@ == Seq::<char>::empty(),
    {
        Engine { stdout: String::new(), stderr: String::new() }
    }

    /// Hands the output and diagnostic sinks back.
    pub fn into_writers(self) -> (r: (String, String))
        ensures
            r.0 == self.stdout,
            r.1 == self.stderr,
    {
        (self.stdout, self.stderr)
    }

    /// Emits the module preamble importing the validator library.
    pub fn print_preamble(&mut self)
        ensures
            final(self).stdout@ == old(self).stdout@ + "import z from 'zod';\n"@,
            final(self).stderr == old(self).stderr,
    {
        self.stdout.append("import z from 'zod';\n");
    }

    /// Emits the module postamble: this dialect needs none.
    pub fn print_postamble(&mut self)
        ensures
            final(self).stdout == old(self).stdout,
            final(self).stderr == old(self).stderr,
    {
    }

    /// Emits the connective owed before the next entry of the frame.
    pub fn print_group_joiner(&self, ctx: &mut GroupChoiceContext) -> (r: String)
        ensures
            (r@, *final(ctx)) == joiner_spec(*old(ctx)),
    {
        if ctx.in_object {
            if !ctx.is_first {
                String::from_str(",")
            } else {
                String::new()
            }
        } else {
            let mut s = self.exit_and(ctx);
            if !ctx.is_first {
                let t = self.enter_and(ctx);
                s.append(t.as_str());
            }
            s
        }
    }

    /// Opens a tuple schema if no container is open in this frame.
    pub fn enter_tuple(&self, ctx: &mut GroupChoiceContext) -> (r: String)
        ensures
            (r@, *final(ctx)) == enter_tuple_spec(*old(ctx)),
    {
        if !ctx.in_object {
            ctx.in_object = true;
            String::from_str("z.tuple([\n")
        } else {
            String::new()
        }
    }

    /// Closes the tuple schema if one is open, then the intersection chain.
    pub fn exit_tuple(&self, ctx: &mut GroupChoiceContext) -> (r: String)
        ensures
            (r@, *final(ctx)) == exit_tuple_spec(*old(ctx)),
    {
        let mut s = if ctx.in_object {
            ctx.in_object = false;
            String::from_str("])")
        } else {
            String::new()
        };
        let t = self.exit_and(ctx);
        s.append(t.as_str());
        s
    }

    /// Opens an intersection chain if none is open.
    pub fn enter_and(&self, ctx: &mut GroupChoiceContext) -> (r: String)
        ensures
            (r@, *final(ctx)) == enter_and_spec(*old(ctx)),
    {
        if !ctx.in_and {
            ctx.in_and = true;
            String::from_str(".and(\n")
        } else {
            String::new()
        }
    }

    /// Closes the intersection chain if one is open.
    pub fn exit_and(&self, ctx: &mut GroupChoiceContext) -> (r: String)
        ensures
            (r@, *final(ctx)) == exit_and_spec(*old(ctx)),
    {
        if ctx.in_and {
            ctx.in_and = false;
            String::from_str(")\n")
        } else {
            String::new()
        }
    }

    /// Opens an object schema if no container is open in this frame.
    pub fn enter_map(&self, ctx: &mut GroupChoiceContext) -> (r: String)
        ensures
            (r@, *final(ctx)) == enter_map_spec(*old(ctx)),
    {
        if !ctx.in_object {
            ctx.in_object = true;
            String::from_str("z.object({\n")
        } else {
            String::new()
        }
    }

    /// Closes the object schema if one is open, then the intersection chain.
    pub fn exit_map(&self, ctx: &mut GroupChoiceContext) -> (r: String)
        ensures
            (r@, *final(ctx)) == exit_map_spec(*old(ctx)),
    {
        let mut s = if ctx.in_object {
            ctx.in_object = false;
            String::from_str("})")
        } else {
            String::new()
        };
        let t = self.exit_and(ctx);
        s.append(t.as_str());
        s
    }

    /// Opens a record schema if none is open.
    pub fn enter_record(&self, ctx: &mut GroupChoiceContext) -> (r: String)
        ensures
            (r@, *final(ctx)) == enter_record_spec(*old(ctx)),
    {
        if !ctx.in_record {
            ctx.in_record = true;
            String::from_str("z.record(\n")
        } else {
            String::new()
        }
    }

    /// Closes the record schema if one is open.
    pub fn exit_record(&self, ctx: &mut GroupChoiceContext) -> (r: String)
        ensures
            (r@, *final(ctx)) == exit_record_spec(*old(ctx)),
    {
        if ctx.in_record {
            ctx.in_record = false;
            String::from_str(")")
        } else {
            String::new()
        }
    }

    /// Renders a primitive name to its schema constructor, or a rule
    /// reference to its namespaced schema constant.
    pub fn visit_identifier(&self, ident: &Identifier, js: bool) -> (r: String)
        ensures
            r@ == ident_text(ident.ident@, js),
    {
        let s = ident.ident.as_str();
        if js && (str_eq(s, "null") || str_eq(s, "true") || str_eq(s, "false") || str_eq(
            s,
            "undefined",
        )) {
            s.to_owned()
        } else if str_eq(s, "bool") {
            String::from_str("z.boolean()")
        } else if str_eq(s, "uint") {
            String::from_str("z.number().int().nonnegative()")
        } else if str_eq(s, "nint") {
            String::from_str("z.number().int().negative()")
        } else if str_eq(s, "int") {
            String::from_str("z.number().int()")
        } else if str_eq(s, "float16") || str_eq(s, "float32") || str_eq(s, "float64") || str_eq(
            s,
            "float16-32",
        ) || str_eq(s, "float32-64") || str_eq(s, "float") || str_eq(s, "number") {
            String::from_str("z.number()")
        } else if str_eq(s, "biguint") {
            String::from_str("z.bigint().nonnegative()")
        } else if str_eq(s, "bignint") {
            String::from_str("z.bigint().negative()")
        } else if str_eq(s, "bigint") {
            String::from_str("z.bigint()")
        } else if str_eq(s, "bstr") || str_eq(s, "bytes") || str_eq(s, "tstr") || str_eq(
            s,
            "text",
        ) {
            String::from_str("z.string()")
        } else if str_eq(s, "any") {
            String::from_str("z.any()")
        } else if str_eq(s, "nil") || str_eq(s, "null") {
            String::from_str("z.null()")
        } else if str_eq(s, "true") {
            String::from_str("z.literal(true)")
        } else if str_eq(s, "false") {
            String::from_str("z.literal(false)")
        } else if str_eq(s, "undefined") {
            String::from_str("z.undefined()")
        } else if str_eq(s, "uri") {
            String::from_str("z.string().url()")
        } else if str_eq(s, "regexp") {
            String::from_str("z.string()")
        } else {
            let mut n = to_namespaced(s);
            n.append("Schema");
            n
        }
    }

    /// Renders a scalar literal under a value mode.
    pub fn visit_value(&self, value: &Value, mode: ValueMode) -> (r: String)
        ensures
            r@ == value_text(*value, mode),
    {
        match mode {
            ValueMode::Literal => {
                let mut s = match value {
                    Value::Int(i) => {
                        let mut s = String::from_str("z.literal(");
                        let d = i64_dec_str(*i);
                        s.append(d.as_str());
                        s
                    },
                    Value::Uint(u) => {
                        let mut s = String::from_str("z.literal(");
                        let d = u64_dec_str(*u);
                        s.append(d.as_str());
                        s
                    },
                    Value::Float(t) => {
                        let mut s = String::from_str("z.literal(");
                        s.append(t.as_str());
                        s
                    },
                    Value::Text(t) => {
                        let mut s = String::from_str("z.literal(\"");
                        s.append(t.as_str());
                        s.append("\"");
                        s
                    },
                    Value::Byte(t) => {
                        let mut s = String::from_str("z.literal(\"");
                        s.append(t.as_str());
                        s.append("\"");
                        s
                    },
                };
                s.append(")");
                proof {
                    assert(s@ =~= value_text(*value, mode));
                }
                s
            },
            ValueMode::Generic => match value {
                Value::Int(_) => String::from_str("z.number().int()"),
                Value::Uint(_) => String::from_str("z.number().int().nonnegative()"),
                Value::Float(_) => String::from_str("z.number()"),
                Value::Text(_) => String::from_str("z.string()"),
                Value::Byte(_) => String::from_str("z.string()"),
            },
            ValueMode::JavaScript => match value {
                Value::Int(i) => i64_dec_str(*i),
                Value::Uint(u) => u64_dec_str(*u),
                Value::Float(t) => t.clone(),
                Value::Text(t) => {
                    let mut s = String::from_str("\"");
                    s.append(t.as_str());
                    s.append("\"");
                    proof {
                        assert(s@ =~= value_text(*value, mode));
                    }
                    s
                },
                Value::Byte(t) => {
                    let mut s = String::from_str("\"");
                    s.append(t.as_str());
                    s.append("\"");
                    proof {
                        assert(s@ =~= value_text(*value, mode));
                    }
                    s
                },
            },
        }
    }

    /// Renders an identifier-safe all-textual choice as the enumeration
    /// combinator, or reports that the heuristic does not apply.
    pub fn visit_maybe_enum_type(&self, t: &Type) -> (r: Option<String>)
        ensures
            r is Some <==> enum_applies(*t),
            r is Some ==> r->0@ == enum_text(*t),
    {
        if t.type_choices.len() <= 1 {
            return None;
        }
        let mut i: usize = 0;
        while i < t.type_choices.len()
            invariant
                i <= t.type_choices@.len(),
                forall|k: int|
                    0 <= k < i ==> choice_is_enum_string(#[trigger] t.type_choices@[k]),
            decreases t.type_choices@.len() - i,
        {
            match &t.type_choices[i].type2 {
                Type2::TextValue { value } => {
                    if !is_alphaspace(value.as_str()) {
                        proof {
                            assert(!choice_is_enum_string(t.type_choices@[i as int]));
                        }
                        return None;
                    }
                },
                _ => {
                    proof {
                        assert(!choice_is_enum_string(t.type_choices@[i as int]));
                    }
                    return None;
                },
            }
            i = i + 1;
        }
        let mut s = String::from_str("z.enum([");
        let ghost base = "z.enum(["@;
        let mut j: usize = 0;
        proof {
            assert(s@ =~= base + enum_items_upto(t.type_choices@, 0));
        }
        while j < t.type_choices.len()
            invariant
                j <= t.type_choices@.len(),
                s@ == base + enum_items_upto(t.type_choices@, j as int),
                base == "z.enum(["@,
            decreases t.type_choices@.len() - j,
        {
            match &t.type_choices[j].type2 {
                Type2::TextValue { value } => {
                    s.append("\"");
                    s.append(value.as_str());
                    s.append("\",");
                },
                _ => {},
            }
            proof {
                assert(s@ =~= base + enum_items_upto(t.type_choices@, j + 1));
            }
            j = j + 1;
        }
        s.append("])");
        proof {
            assert(s@ =~= enum_text(*t));
        }
        Some(s)
    }

    /// Appends the expansion of a repeated element to `s`.
    fn append_expansion(&self, s: &mut String, x: Expansion, lower: usize, upper: usize, e: &str)
        requires
            match x {
                Expansion::Enumerate { lower: l, upper: u } => l <= u && u < usize::MAX,
                _ => true,
            },
        ensures
            final(s)@ == old(s)@ + expansion_text(x, lower, upper, e@),
    {
        match x {
            Expansion::Exact { count } => {
                append_join_rep(s, e, ",", count);
            },
            Expansion::Enumerate { lower: l, upper: u } => {
                s.append("z.union([");
                append_tuple_alts(s, e, "z.tuple([", "])", ",", l, u);
                s.append("])");
            },
            Expansion::Unbounded { prefix: _ } => {
                s.append("z.array(");
                s.append(e);
                s.append(")");
                if lower > 0 {
                    s.append(".min(");
                    let d = usize_dec_str(lower);
                    s.append(d.as_str());
                    s.append(")");
                }
                if upper != UNBOUNDED {
                    s.append(".max(");
                    let d = usize_dec_str(upper);
                    s.append(d.as_str());
                    s.append(")");
                }
            },
        }
        proof {
            assert(s@ =~= old(s)@ + expansion_text(x, lower, upper, e@));
        }
    }

    /// Renders the expansion of an element repeated between `lower` and
    /// `upper` times; inconsistent bounds are rejected.
    pub fn expand_element(&self, lower: usize, upper: usize, e: &str) -> (r: Result<
        String,
        EmitError,
    >)
        ensures
            ({
                match spec_expansion_plan(lower, upper) {
                    Ok(x) => r is Ok && r->Ok_0@ == expansion_text(x, lower, upper, e@),
                    Err(er) => r == Err::<String, EmitError>(er),
                }
            }),
    {
        let x = match expansion_plan(lower, upper) {
            Ok(x) => x,
            Err(er) => {
                return Err(er);
            },
        };
        let mut s = String::new();
        self.append_expansion(&mut s, x, lower, upper, e);
        proof {
            assert(s@ =~= expansion_text(x, lower, upper, e@));
        }
        Ok(s)
    }

    /// Renders a declared identifier with its generic parameters.
    pub fn visit_identifier_with_params(
        &self,
        ident: &Identifier,
        params: &Option<GenericParams>,
    ) -> (r: String)
        ensures
            r@ == params_text(ident.ident@, *params),
    {
        let mut s = self.visit_identifier(ident, false);
        match params {
            None => {
                proof {
                    assert(s@ =~= params_text(ident.ident@, *params));
                }
                s
            },
            Some(p) => {
                s.append("<");
                let ghost base = ident_text(ident.ident@, false) + "<"@;
                let mut i: usize = 0;
                while i < p.params.len()
                    invariant
                        i <= p.params@.len(),
                        s@ == base + plist_upto(p.params@, i as int),
                        base == ident_text(ident.ident@, false) + "<"@,
                    decreases p.params@.len() - i,
                {
                    let pt = self.visit_identifier(&p.params[i], false);
                    s.append(pt.as_str());
                    s.append(",");
                    proof {
                        assert(s@ =~= base + plist_upto(p.params@, i + 1));
                    }
                    i = i + 1;
                }
                s.append(">");
                proof {
                    assert(s@ =~= params_text(ident.ident@, *params));
                }
                s
            },
        }
    }

    /// Renders a referenced identifier with its generic arguments.
    pub fn visit_identifier_with_args(
        &mut self,
        ident: &Identifier,
        args: &Option<GenericArgs>,
        js: bool,
    ) -> (r: Result<String, EmitError>)
        ensures
            emits(*old(self), *final(self), r, ident_args_emit(ident.ident@, *args, js)),
        decreases *args, 3int,
    {
        let ghost m = ident_args_emit(ident.ident@, *args, js);
        let mut s = self.visit_identifier(ident, js);
        match args {
            None => {
                proof {
                    assert(s@ =~= m.text);
                    assert(self.stderr@ =~= old(self).stderr@ + m.err);
                }
                Ok(s)
            },
            Some(ga) => {
                s.append("<");
                let inner = match self.visit_args_rest(&ga.args, 0) {
                    Ok(v) => v,
                    Err(e) => {
                        proof {
                            assert(self.stderr@ =~= old(self).stderr@ + m.err);
                        }
                        return Err(e);
                    },
                };
                s.append(inner.as_str());
                s.append(">");
                proof {
                    assert(s@ =~= m.text);
                    assert(self.stderr@ =~= old(self).stderr@ + m.err);
                }
                Ok(s)
            },
        }
    }

    /// Renders the generic arguments from position `j` on.
    fn visit_args_rest(&mut self, cs: &Vec<Type1>, j: usize) -> (r: Result<String, EmitError>)
        ensures
            emits(*old(self), *final(self), r, args_rest(cs@, j as int)),
        decreases cs@, 2int, cs@.len() - j,
    {
        let ghost m = args_rest(cs@, j as int);
        if j >= cs.len() {
            return Ok(String::new());
        }
        let mut s = match self.visit_type1(&cs[j]) {
            Ok(v) => v,
            Err(e) => {
                proof {
                    assert(self.stderr@ =~= old(self).stderr@ + m.err);
                }
                return Err(e);
            },
        };
        s.append(",");
        let rest = match self.visit_args_rest(cs, j + 1) {
            Ok(v) => v,
            Err(e) => {
                proof {
                    assert(self.stderr@ =~= old(self).stderr@ + m.err);
                }
                return Err(e);
            },
        };
        s.append(rest.as_str());
        proof {
            assert(s@ =~= m.text);
            assert(self.stderr@ =~= old(self).stderr@ + m.err);
        }
        Ok(s)
    }
}

impl Engine {
    /// Renders a type: the enumeration combinator when the heuristic
    /// applies, else its alternatives as a union combinator.
    pub fn visit_type(&mut self, t: &Type) -> (r: Result<String, EmitError>)
        ensures
            emits(*old(self), *final(self), r, type_emit(*t)),
        decreases *t, 3int,
    {
        let ghost m = type_emit(*t);
        match self.visit_maybe_enum_type(t) {
            Some(s) => {
                proof {
                    assert(s@ =~= m.text);
                    assert(self.stderr@ =~= old(self).stderr@ + m.err);
                }
                return Ok(s);
            },
            None => {},
        }
        if t.type_choices.len() != 1 {
            let mut s = String::from_str("z.union([");
            let inner = match self.visit_choices_rest(&t.type_choices, 0) {
                Ok(v) => v,
                Err(e) => {
                    proof {
                        assert(self.stderr@ =~= old(self).stderr@ + m.err);
                    }
                    return Err(e);
                },
            };
            s.append(inner.as_str());
            s.append("])");
            proof {
                assert(s@ =~= m.text);
                assert(self.stderr@ =~= old(self).stderr@ + m.err);
            }
            Ok(s)
        } else {
            self.visit_choices_rest(&t.type_choices, 0)
        }
    }

    /// Renders the type alternatives from position `j` on.
    fn visit_choices_rest(&mut self, cs: &Vec<Type1>, j: usize) -> (r: Result<String, EmitError>)
        ensures
            emits(*old(self), *final(self), r, choices_rest(cs@, j as int)),
        decreases cs@, 2int, cs@.len() - j,
    {
        let ghost m = choices_rest(cs@, j as int);
        if j >= cs.len() {
            return Ok(String::new());
        }
        let mut s = String::new();
        if j > 0 {
            s.append(",");
        }
        let c = match self.visit_type1(&cs[j]) {
            Ok(v) => v,
            Err(e) => {
                proof {
                    assert(self.stderr@ =~= old(self).stderr@ + m.err);
                }
                return Err(e);
            },
        };
        s.append(c.as_str());
        let rest = match self.visit_choices_rest(cs, j + 1) {
            Ok(v) => v,
            Err(e) => {
                proof {
                    assert(self.stderr@ =~= old(self).stderr@ + m.err);
                }
                return Err(e);
            },
        };
        s.append(rest.as_str());
        proof {
            assert(s@ =~= m.text);
            assert(self.stderr@ =~= old(self).stderr@ + m.err);
        }
        Ok(s)
    }

    /// Renders one alternative: its bare leaf, or its widened leaf followed
    /// by the operator's chained calls.
    pub fn visit_type1(&mut self, t1: &Type1) -> (r: Result<String, EmitError>)
        ensures
            emits(*old(self), *final(self), r, type1_emit(*t1)),
        decreases *t1, 3int,
    {
        let ghost m = type1_emit(*t1);
        match &t1.operator {
            None => self.visit_type2(&t1.type2, ValueMode::Literal),
            Some(_) => {
                let mut s = match self.visit_type2(&t1.type2, ValueMode::Generic) {
                    Ok(v) => v,
                    Err(e) => {
                        proof {
                            assert(self.stderr@ =~= old(self).stderr@ + m.err);
                        }
                        return Err(e);
                    },
                };
                let chain = match self.visit_op_chain(t1) {
                    Ok(v) => v,
                    Err(e) => {
                        proof {
                            assert(self.stderr@ =~= old(self).stderr@ + m.err);
                        }
                        return Err(e);
                    },
                };
                s.append(chain.as_str());
                proof {
                    assert(s@ =~= m.text);
                    assert(self.stderr@ =~= old(self).stderr@ + m.err);
                }
                Ok(s)
            },
        }
    }

    /// Renders one chained constraint call.
    fn visit_ctl_line(&mut self, pre: &str, t2: &Type2, post: &str) -> (r: Result<
        String,
        EmitError,
    >)
        ensures
            emits(*old(self), *final(self), r, ctl_line(pre@, *t2, post@)),
        decreases *t2, 4int,
    {
        let ghost m = ctl_line(pre@, *t2, post@);
        let mut s = String::from_str(pre);
        let a = match self.visit_type2(t2, ValueMode::JavaScript) {
            Ok(v) => v,
            Err(e) => {
                proof {
                    assert(self.stderr@ =~= old(self).stderr@ + m.err);
                }
                return Err(e);
            },
        };
        s.append(a.as_str());
        s.append(post);
        proof {
            assert(s@ =~= m.text);
            assert(self.stderr@ =~= old(self).stderr@ + m.err);
        }
        Ok(s)
    }

    /// Renders the chained calls of an alternative's operator; the equality
    /// operators are a fatal error in this dialect.
    #[verifier::rlimit(100)]
    fn visit_op_chain(&mut self, t1: &Type1) -> (r: Result<String, EmitError>)
        ensures
            emits(*old(self), *final(self), r, op_chain_emit(*t1)),
        decreases *t1, 2int,
    {
        let ghost m = op_chain_emit(*t1);
        match &t1.operator {
            None => Ok(String::new()),
            Some(op) => match &op.operator {
                RangeCtlOp::RangeOp { is_inclusive } => {
                    let mut s = if *is_inclusive {
                        String::from_str(".gte(")
                    } else {
                        String::from_str(".gt(")
                    };
                    let a = match self.visit_type2(&t1.type2, ValueMode::JavaScript) {
                        Ok(v) => v,
                        Err(e) => {
                            proof {
                                assert(self.stderr@ =~= old(self).stderr@ + m.err);
                            }
                            return Err(e);
                        },
                    };
                    s.append(a.as_str());
                    if *is_inclusive {
                        s.append(").lte(");
                    } else {
                        s.append(").lt(");
                    }
                    let b = match self.visit_type2(&op.type2, ValueMode::JavaScript) {
                        Ok(v) => v,
                        Err(e) => {
                            proof {
                                assert(self.stderr@ =~= old(self).stderr@ + m.err);
                            }
                            return Err(e);
                        },
                    };
                    s.append(b.as_str());
                    s.append(")");
                    proof {
                        assert(s@ =~= m.text);
                        assert(self.stderr@ =~= old(self).stderr@ + m.err);
                    }
                    Ok(s)
                },
                RangeCtlOp::CtlOp { ctrl } => match ctrl {
                    ControlOperator::Default => self.visit_ctl_line(".default(", &op.type2, ")"),
                    ControlOperator::Size => self.visit_ctl_line(".length(", &op.type2, ")"),
                    ControlOperator::Pcre => self.visit_ctl_line(".regex(/", &op.type2, "/)"),
                    ControlOperator::Regexp => self.visit_ctl_line(".regex(/", &op.type2, "/)"),
                    ControlOperator::Lt => self.visit_ctl_line(".lt(", &op.type2, ")"),
                    ControlOperator::Le => self.visit_ctl_line(".lte(", &op.type2, ")"),
                    ControlOperator::Gt => self.visit_ctl_line(".gt(", &op.type2, ")"),
                    ControlOperator::Ge => self.visit_ctl_line(".gte(", &op.type2, ")"),
                    ControlOperator::Within => self.visit_ctl_line(".and(", &op.type2, ")"),
                    ControlOperator::And => self.visit_ctl_line(".and(", &op.type2, ")"),
                    _ => Err(EmitError::UnsupportedControl),
                },
            },
        }
    }

    /// Renders a leaf shape.
    pub fn visit_type2(&mut self, t2: &Type2, mode: ValueMode) -> (r: Result<String, EmitError>)
        ensures
            emits(*old(self), *final(self), r, type2_emit(*t2, mode)),
        decreases *t2, 3int,
    {
        let ghost m = type2_emit(*t2, mode);
        match t2 {
            Type2::Typename { ident, generic_args } => self.visit_identifier_with_args(
                ident,
                generic_args,
                matches!(mode, ValueMode::JavaScript),
            ),
            Type2::ParenthesizedType { pt } => self.visit_type(pt),
            Type2::MapGroup { group } => self.visit_group(group),
            Type2::ArrayGroup { group } => self.visit_array(group),
            Type2::Any => Ok(String::from_str("z.unknown()")),
            Type2::TextValue { value } => Ok(self.visit_value(&Value::Text(value.clone()), mode)),
            Type2::IntValue { value } => Ok(self.visit_value(&Value::Int(*value), mode)),
            Type2::UintValue { value } => Ok(self.visit_value(&Value::Uint(*value), mode)),
            Type2::FloatValue { text } => Ok(self.visit_value(&Value::Float(text.clone()), mode)),
            Type2::ByteValue { text } => Ok(self.visit_value(&Value::Byte(text.clone()), mode)),
            Type2::TaggedData { t } => self.visit_type(t),
        }
    }

    /// Renders a group in array position.
    pub fn visit_array(&mut self, g: &Group) -> (r: Result<String, EmitError>)
        ensures
            emits(*old(self), *final(self), r, array_emit(*g)),
        decreases *g, 3int,
    {
        let ghost m = array_emit(*g);
        if g.group_choices.len() != 1 {
            let mut s = String::from_str("z.union([");
            let inner = match self.visit_achoices_rest(&g.group_choices, 0) {
                Ok(v) => v,
                Err(e) => {
                    proof {
                        assert(self.stderr@ =~= old(self).stderr@ + m.err);
                    }
                    return Err(e);
                },
            };
            s.append(inner.as_str());
            s.append("])");
            proof {
                assert(s@ =~= m.text);
                assert(self.stderr@ =~= old(self).stderr@ + m.err);
            }
            Ok(s)
        } else {
            self.visit_achoices_rest(&g.group_choices, 0)
        }
    }

    /// Renders the array-position choices from position `j` on.
    fn visit_achoices_rest(&mut self, gcs: &Vec<GroupChoice>, j: usize) -> (r: Result<
        String,
        EmitError,
    >)
        ensures
            emits(*old(self), *final(self), r, achoices_rest(gcs@, j as int)),
        decreases gcs@, 2int, gcs@.len() - j,
    {
        let ghost m = achoices_rest(gcs@, j as int);
        if j >= gcs.len() {
            return Ok(String::new());
        }
        let mut s = String::new();
        if j > 0 {
            s.append(",");
        }
        let c = match self.visit_array_choice(&gcs[j]) {
            Ok(v) => v,
            Err(e) => {
                proof {
                    assert(self.stderr@ =~= old(self).stderr@ + m.err);
                }
                return Err(e);
            },
        };
        s.append(c.as_str());
        let rest = match self.visit_achoices_rest(gcs, j + 1) {
            Ok(v) => v,
            Err(e) => {
                proof {
                    assert(self.stderr@ =~= old(self).stderr@ + m.err);
                }
                return Err(e);
            },
        };
        s.append(rest.as_str());
        proof {
            assert(s@ =~= m.text);
            assert(self.stderr@ =~= old(self).stderr@ + m.err);
        }
        Ok(s)
    }

    /// Decides whether an entry repeats with variable cardinality.
    fn entry_variable(&self, e: &GroupEntry) -> (r: bool)
        ensures
            r == entry_is_variable(*e),
    {
        match e {
            GroupEntry::ValueMemberKey { ge } => {
                let b = calculate_occurrence(&ge.occur);
                !matches!(expansion_plan(b.0, b.1), Ok(Expansion::Exact { .. }))
            },
            GroupEntry::TypeGroupname { ge } => {
                let b = calculate_occurrence(&ge.occur);
                !matches!(expansion_plan(b.0, b.1), Ok(Expansion::Exact { .. }))
            },
            GroupEntry::InlineGroup { occur: _, group: _ } => true,
        }
    }

    /// Renders one array-position choice inside a fresh frame; mixing fixed
    /// and variable elements is a hard error.
    #[verifier::rlimit(100)]
    pub fn visit_array_choice(&mut self, gc: &GroupChoice) -> (r: Result<String, EmitError>)
        ensures
            emits(*old(self), *final(self), r, array_choice_emit(*gc)),
        decreases *gc, 3int,
    {
        let ghost m = array_choice_emit(*gc);
        let mut ctx = GroupChoiceContext {
            in_object: false,
            is_first: true,
            in_record: false,
            in_and: false,
        };
        if gc.group_entries.len() == 0 {
            let mut s = self.enter_tuple(&mut ctx);
            let t = self.exit_tuple(&mut ctx);
            s.append(t.as_str());
            proof {
                assert(s@ =~= m.text);
                assert(self.stderr@ =~= old(self).stderr@ + m.err);
            }
            return Ok(s);
        }
        let mut has_var = false;
        let mut has_fix = false;
        let mut i: usize = 0;
        while i < gc.group_entries.len()
            invariant
                i <= gc.group_entries@.len(),
                has_var == exists|k: int|
                    0 <= k < i && entry_is_variable(#[trigger] gc.group_entries@[k]),
                has_fix == exists|k: int|
                    0 <= k < i && !entry_is_variable(#[trigger] gc.group_entries@[k]),
            decreases gc.group_entries@.len() - i,
        {
            let v = self.entry_variable(&gc.group_entries[i]);
            if v {
                has_var = true;
                proof {
                    assert(entry_is_variable(gc.group_entries@[i as int]));
                }
            } else {
                has_fix = true;
                proof {
                    assert(!entry_is_variable(gc.group_entries@[i as int]));
                }
            }
            i = i + 1;
        }
        if has_var && has_fix {
            proof {
                assert(choice_mixed(gc.group_entries@));
                assert(self.stderr@ =~= old(self).stderr@ + m.err);
            }
            return Err(EmitError::MixedArity);
        }
        proof {
            assert(!choice_mixed(gc.group_entries@));
        }
        let mut s = match self.visit_aentries_rest(&gc.group_entries, 0, &mut ctx) {
            Ok(v) => v,
            Err(e) => {
                proof {
                    assert(self.stderr@ =~= old(self).stderr@ + m.err);
                }
                return Err(e);
            },
        };
        let t = self.exit_tuple(&mut ctx);
        s.append(t.as_str());
        proof {
            assert(s@ =~= m.text);
            assert(self.stderr@ =~= old(self).stderr@ + m.err);
        }
        Ok(s)
    }

    /// Renders the array entries from position `j` on, threading the frame.
    #[verifier::rlimit(100)]
    fn visit_aentries_rest(
        &mut self,
        es: &Vec<GroupEntry>,
        j: usize,
        ctx: &mut GroupChoiceContext,
    ) -> (r: Result<String, EmitError>)
        ensures
            ({
                let (m, c2) = aentries_rest(es@, j as int, *old(ctx));
                &&& emits(*old(self), *final(self), r, m)
                &&& (m.fail is None ==> *final(ctx) == c2)
            }),
        decreases es@, 2int, es@.len() - j,
    {
        let ghost m = aentries_rest(es@, j as int, *ctx).0;
        if j >= es.len() {
            return Ok(String::new());
        }
        ctx.is_first = j == 0;
        let mut s = match self.visit_array_entry(&es[j], ctx) {
            Ok(v) => v,
            Err(e) => {
                proof {
                    assert(self.stderr@ =~= old(self).stderr@ + m.err);
                }
                return Err(e);
            },
        };
        let rest = match self.visit_aentries_rest(es, j + 1, ctx) {
            Ok(v) => v,
            Err(e) => {
                proof {
                    assert(self.stderr@ =~= old(self).stderr@ + m.err);
                }
                return Err(e);
            },
        };
        s.append(rest.as_str());
        proof {
            assert(s@ =~= m.text);
            assert(self.stderr@ =~= old(self).stderr@ + m.err);
        }
        Ok(s)
    }

    /// Renders one array entry.
    pub fn visit_array_entry(
        &mut self,
        entry: &GroupEntry,
        ctx: &mut GroupChoiceContext,
    ) -> (r: Result<String, EmitError>)
        ensures
            ({
                let (m, c2) = array_entry_emit(*entry, *old(ctx));
                &&& emits(*old(self), *final(self), r, m)
                &&& (m.fail is None ==> *final(ctx) == c2)
            }),
        decreases *entry, 4int,
    {
        let ghost m = array_entry_emit(*entry, *ctx).0;
        match entry {
            GroupEntry::ValueMemberKey { ge } => self.visit_value_array_member_key_entry(ge, ctx),
            GroupEntry::TypeGroupname { ge } => self.visit_type_arrayname_entry(ge, ctx),
            GroupEntry::InlineGroup { occur: _, group } => {
                let mut s = self.exit_tuple(ctx);
                let jn = self.print_group_joiner(ctx);
                s.append(jn.as_str());
                let inner = match self.visit_array(group) {
                    Ok(v) => v,
                    Err(e) => {
                        proof {
                            assert(self.stderr@ =~= old(self).stderr@ + m.err);
                        }
                        return Err(e);
                    },
                };
                s.append(inner.as_str());
                proof {
                    assert(s@ =~= m.text);
                    assert(self.stderr@ =~= old(self).stderr@ + m.err);
                }
                Ok(s)
            },
        }
    }

    /// Renders a value entry in array position: member keys are dropped with
    /// a diagnostic, and the element expands per its occurrence.
    #[verifier::rlimit(100)]
    pub fn visit_value_array_member_key_entry(
        &mut self,
        ge: &ValueMemberKeyEntry,
        ctx: &mut GroupChoiceContext,
    ) -> (r: Result<String, EmitError>)
        ensures
            ({
                let (m, c2) = value_array_mk_emit(*ge, *old(ctx));
                &&& emits(*old(self), *final(self), r, m)
                &&& (m.fail is None ==> *final(ctx) == c2)
            }),
        decreases *ge, 3int,
    {
        let ghost m = value_array_mk_emit(*ge, *ctx).0;
        match &ge.member_key {
            Some(_) => {
                self.stderr.append("Keys are not supported for arrays; ignoring the key\n");
            },
            None => {},
        }
        let b = calculate_occurrence(&ge.occur);
        let x = match expansion_plan(b.0, b.1) {
            Ok(x) => x,
            Err(e) => {
                proof {
                    assert(self.stderr@ =~= old(self).stderr@ + m.err);
                }
                return Err(e);
            },
        };
        let mut s = String::new();
        if matches!(x, Expansion::Exact { .. }) {
            let jn = self.print_group_joiner(ctx);
            s.append(jn.as_str());
            let t = self.enter_tuple(ctx);
            s.append(t.as_str());
        } else {
            let t = self.exit_tuple(ctx);
            s.append(t.as_str());
            let jn = self.print_group_joiner(ctx);
            s.append(jn.as_str());
        }
        let te = match self.visit_type(&ge.entry_type) {
            Ok(v) => v,
            Err(e) => {
                proof {
                    assert(self.stderr@ =~= old(self).stderr@ + m.err);
                }
                return Err(e);
            },
        };
        self.append_expansion(&mut s, x, b.0, b.1, te.as_str());
        proof {
            assert(s@ =~= m.text);
            assert(self.stderr@ =~= old(self).stderr@ + m.err);
        }
        Ok(s)
    }

    /// Renders a named reference in array position, repeated per its
    /// occurrence.
    #[verifier::rlimit(100)]
    pub fn visit_type_arrayname_entry(
        &mut self,
        ge: &TypeGroupnameEntry,
        ctx: &mut GroupChoiceContext,
    ) -> (r: Result<String, EmitError>)
        ensures
            ({
                let (m, c2) = type_arrayname_emit(*ge, *old(ctx));
                &&& emits(*old(self), *final(self), r, m)
                &&& (m.fail is None ==> *final(ctx) == c2)
            }),
        decreases *ge, 3int,
    {
        let ghost m = type_arrayname_emit(*ge, *ctx).0;
        let b = calculate_occurrence(&ge.occur);
        let x = match expansion_plan(b.0, b.1) {
            Ok(x) => x,
            Err(e) => {
                proof {
                    assert(self.stderr@ =~= old(self).stderr@ + m.err);
                }
                return Err(e);
            },
        };
        let mut s = String::new();
        if matches!(x, Expansion::Exact { .. }) {
            let jn = self.print_group_joiner(ctx);
            s.append(jn.as_str());
            let t = self.enter_tuple(ctx);
            s.append(t.as_str());
        } else {
            let t = self.exit_tuple(ctx);
            s.append(t.as_str());
            let jn = self.print_group_joiner(ctx);
            s.append(jn.as_str());
        }
        let ae = match self.visit_identifier_with_args(&ge.name, &ge.generic_args, false) {
            Ok(v) => v,
            Err(e) => {
                proof {
                    assert(self.stderr@ =~= old(self).stderr@ + m.err);
                }
                return Err(e);
            },
        };
        self.append_expansion(&mut s, x, b.0, b.1, ae.as_str());
        proof {
            assert(s@ =~= m.text);
            assert(self.stderr@ =~= old(self).stderr@ + m.err);
        }
        Ok(s)
    }

    /// Renders a group in map position.
    pub fn visit_group(&mut self, g: &Group) -> (r: Result<String, EmitError>)
        ensures
            emits(*old(self), *final(self), r, group_emit(*g)),
        decreases *g, 3int,
    {
        let ghost m = group_emit(*g);
        if g.group_choices.len() != 1 {
            let mut s = String::from_str("z.union([");
            let inner = match self.visit_gchoices_rest(&g.group_choices, 0) {
                Ok(v) => v,
                Err(e) => {
                    proof {
                        assert(self.stderr@ =~= old(self).stderr@ + m.err);
                    }
                    return Err(e);
                },
            };
            s.append(inner.as_str());
            s.append("])");
            proof {
                assert(s@ =~= m.text);
                assert(self.stderr@ =~= old(self).stderr@ + m.err);
            }
            Ok(s)
        } else {
            self.visit_gchoices_rest(&g.group_choices, 0)
        }
    }

    /// Renders the map-position choices from position `j` on.
    fn visit_gchoices_rest(&mut self, gcs: &Vec<GroupChoice>, j: usize) -> (r: Result<
        String,
        EmitError,
    >)
        ensures
            emits(*old(self), *final(self), r, gchoices_rest(gcs@, j as int)),
        decreases gcs@, 2int, gcs@.len() - j,
    {
        let ghost m = gchoices_rest(gcs@, j as int);
        if j >= gcs.len() {
            return Ok(String::new());
        }
        let mut s = String::new();
        if j > 0 {
            s.append(",");
        }
        let c = match self.visit_group_choice(&gcs[j]) {
            Ok(v) => v,
            Err(e) => {
                proof {
                    assert(self.stderr@ =~= old(self).stderr@ + m.err);
                }
                return Err(e);
            },
        };
        s.append(c.as_str());
        let rest = match self.visit_gchoices_rest(gcs, j + 1) {
            Ok(v) => v,
            Err(e) => {
                proof {
                    assert(self.stderr@ =~= old(self).stderr@ + m.err);
                }
                return Err(e);
            },
        };
        s.append(rest.as_str());
        proof {
            assert(s@ =~= m.text);
            assert(self.stderr@ =~= old(self).stderr@ + m.err);
        }
        Ok(s)
    }

    /// Renders one map-position choice inside a fresh frame.
    pub fn visit_group_choice(&mut self, gc: &GroupChoice) -> (r: Result<String, EmitError>)
        ensures
            emits(*old(self), *final(self), r, group_choice_emit(*gc)),
        decreases *gc, 3int,
    {
        let ghost m = group_choice_emit(*gc);
        let mut ctx = GroupChoiceContext {
            in_object: false,
            is_first: true,
            in_record: false,
            in_and: false,
        };
        if gc.group_entries.len() == 0 {
            let mut s = self.enter_map(&mut ctx);
            let t = self.exit_map(&mut ctx);
            s.append(t.as_str());
            proof {
                assert(s@ =~= m.text);
                assert(self.stderr@ =~= old(self).stderr@ + m.err);
            }
            return Ok(s);
        }
        let mut s = match self.visit_gentries_rest(&gc.group_entries, 0, &mut ctx) {
            Ok(v) => v,
            Err(e) => {
                proof {
                    assert(self.stderr@ =~= old(self).stderr@ + m.err);
                }
                return Err(e);
            },
        };
        let t = self.exit_map(&mut ctx);
        s.append(t.as_str());
        proof {
            assert(s@ =~= m.text);
            assert(self.stderr@ =~= old(self).stderr@ + m.err);
        }
        Ok(s)
    }

    /// Renders the map entries from position `j` on, threading the frame.
    #[verifier::rlimit(100)]
    fn visit_gentries_rest(
        &mut self,
        es: &Vec<GroupEntry>,
        j: usize,
        ctx: &mut GroupChoiceContext,
    ) -> (r: Result<String, EmitError>)
        ensures
            ({
                let (m, c2) = gentries_rest(es@, j as int, *old(ctx));
                &&& emits(*old(self), *final(self), r, m)
                &&& (m.fail is None ==> *final(ctx) == c2)
            }),
        decreases es@, 2int, es@.len() - j,
    {
        let ghost m = gentries_rest(es@, j as int, *ctx).0;
        if j >= es.len() {
            return Ok(String::new());
        }
        ctx.is_first = j == 0;
        let mut s = match self.visit_group_entry(&es[j], ctx) {
            Ok(v) => v,
            Err(e) => {
                proof {
                    assert(self.stderr@ =~= old(self).stderr@ + m.err);
                }
                return Err(e);
            },
        };
        let rest = match self.visit_gentries_rest(es, j + 1, ctx) {
            Ok(v) => v,
            Err(e) => {
                proof {
                    assert(self.stderr@ =~= old(self).stderr@ + m.err);
                }
                return Err(e);
            },
        };
        s.append(rest.as_str());
        proof {
            assert(s@ =~= m.text);
            assert(self.stderr@ =~= old(self).stderr@ + m.err);
        }
        Ok(s)
    }

    /// Renders one map entry.
    #[verifier::rlimit(100)]
    pub fn visit_group_entry(
        &mut self,
        entry: &GroupEntry,
        ctx: &mut GroupChoiceContext,
    ) -> (r: Result<String, EmitError>)
        ensures
            ({
                let (m, c2) = group_entry_emit(*entry, *old(ctx));
                &&& emits(*old(self), *final(self), r, m)
                &&& (m.fail is None ==> *final(ctx) == c2)
            }),
        decreases *entry, 4int,
    {
        let ghost m = group_entry_emit(*entry, *ctx).0;
        match entry {
            GroupEntry::ValueMemberKey { ge } => self.visit_value_member_key_entry(ge, ctx),
            GroupEntry::TypeGroupname { ge } => {
                let mut s = self.exit_map(ctx);
                let jn = self.print_group_joiner(ctx);
                s.append(jn.as_str());
                let inner = match self.visit_identifier_with_args(
                    &ge.name,
                    &ge.generic_args,
                    false,
                ) {
                    Ok(v) => v,
                    Err(e) => {
                        proof {
                            assert(self.stderr@ =~= old(self).stderr@ + m.err);
                        }
                        return Err(e);
                    },
                };
                s.append(inner.as_str());
                if is_group_entry_occurence_optional(&ge.occur) {
                    s.append(".partial()");
                }
                proof {
                    assert(s@ =~= m.text);
                    assert(self.stderr@ =~= old(self).stderr@ + m.err);
                }
                Ok(s)
            },
            GroupEntry::InlineGroup { occur: _, group } => {
                let mut s = self.exit_map(ctx);
                let jn = self.print_group_joiner(ctx);
                s.append(jn.as_str());
                let inner = match self.visit_group(group) {
                    Ok(v) => v,
                    Err(e) => {
                        proof {
                            assert(self.stderr@ =~= old(self).stderr@ + m.err);
                        }
                        return Err(e);
                    },
                };
                s.append(inner.as_str());
                proof {
                    assert(s@ =~= m.text);
                    assert(self.stderr@ =~= old(self).stderr@ + m.err);
                }
                Ok(s)
            },
        }
    }

    /// Renders a member key, opening the container it needs.
    #[verifier::rlimit(100)]
    pub fn visit_memberkey(
        &mut self,
        mk: &MemberKey,
        ctx: &mut GroupChoiceContext,
    ) -> (r: Result<String, EmitError>)
        ensures
            ({
                let (m, c2) = memberkey_emit(*mk, *old(ctx));
                &&& emits(*old(self), *final(self), r, m)
                &&& (m.fail is None ==> *final(ctx) == c2)
            }),
        decreases *mk, 3int,
    {
        let ghost m = memberkey_emit(*mk, *ctx).0;
        match mk {
            MemberKey::Type1 { t1, is_cut: _ } => {
                let mut s = self.exit_map(ctx);
                let jn = self.print_group_joiner(ctx);
                s.append(jn.as_str());
                let t = self.enter_record(ctx);
                s.append(t.as_str());
                let inner = match self.visit_type1(t1) {
                    Ok(v) => v,
                    Err(e) => {
                        proof {
                            assert(self.stderr@ =~= old(self).stderr@ + m.err);
                        }
                        return Err(e);
                    },
                };
                s.append(inner.as_str());
                s.append(",");
                proof {
                    assert(s@ =~= m.text);
                    assert(self.stderr@ =~= old(self).stderr@ + m.err);
                }
                Ok(s)
            },
            MemberKey::Bareword { ident } => {
                let mut s = self.print_group_joiner(ctx);
                let t = self.enter_map(ctx);
                s.append(t.as_str());
                s.append("\"");
                s.append(ident.ident.as_str());
                s.append("\":");
                proof {
                    assert(s@ =~= m.text);
                    assert(self.stderr@ =~= old(self).stderr@ + m.err);
                }
                Ok(s)
            },
            MemberKey::Value { value } => {
                let mut s = self.print_group_joiner(ctx);
                let t = self.enter_map(ctx);
                s.append(t.as_str());
                s.append("[");
                let v = self.visit_value(value, ValueMode::JavaScript);
                s.append(v.as_str());
                s.append("]:");
                proof {
                    assert(s@ =~= m.text);
                    assert(self.stderr@ =~= old(self).stderr@ + m.err);
                }
                Ok(s)
            },
            MemberKey::NonMemberKey => {
                proof {
                    assert(self.stderr@ =~= old(self).stderr@ + m.err);
                }
                Err(EmitError::UnsupportedMemberKey)
            },
        }
    }

    /// Renders a keyed map entry; one with no key becomes a keyless
    /// composition, partial when optional, with a diagnostic.
    #[verifier::rlimit(100)]
    pub fn visit_value_member_key_entry(
        &mut self,
        ge: &ValueMemberKeyEntry,
        ctx: &mut GroupChoiceContext,
    ) -> (r: Result<String, EmitError>)
        ensures
            ({
                let (m, c2) = value_member_key_entry_emit(*ge, *old(ctx));
                &&& emits(*old(self), *final(self), r, m)
                &&& (m.fail is None ==> *final(ctx) == c2)
            }),
        decreases *ge, 3int,
    {
        let ghost m = value_member_key_entry_emit(*ge, *ctx).0;
        match &ge.member_key {
            None => {
                self.stderr.append(
                    "Expected a member key for a map entry; treating the entry as a keyless value\n",
                );
                let mut s = self.exit_map(ctx);
                let jn = self.print_group_joiner(ctx);
                s.append(jn.as_str());
                let inner = match self.visit_type(&ge.entry_type) {
                    Ok(v) => v,
                    Err(e) => {
                        proof {
                            assert(self.stderr@ =~= old(self).stderr@ + m.err);
                        }
                        return Err(e);
                    },
                };
                s.append(inner.as_str());
                if is_group_entry_occurence_optional(&ge.occur) {
                    s.append(".partial()");
                }
                proof {
                    assert(s@ =~= m.text);
                    assert(self.stderr@ =~= old(self).stderr@ + m.err);
                }
                Ok(s)
            },
            Some(mk) => {
                let mut s = String::from_str("  ");
                let km = match self.visit_memberkey(mk, ctx) {
                    Ok(v) => v,
                    Err(e) => {
                        proof {
                            assert(self.stderr@ =~= old(self).stderr@ + m.err);
                        }
                        return Err(e);
                    },
                };
                s.append(km.as_str());
                let te = match self.visit_type(&ge.entry_type) {
                    Ok(v) => v,
                    Err(e) => {
                        proof {
                            assert(self.stderr@ =~= old(self).stderr@ + m.err);
                        }
                        return Err(e);
                    },
                };
                s.append(te.as_str());
                let cuttable = match mk {
                    MemberKey::Type1 { t1: _, is_cut } => *is_cut,
                    _ => true,
                };
                if is_group_entry_occurence_optional(&ge.occur) && cuttable {
                    s.append(".optional()");
                }
                let rx = self.exit_record(ctx);
                s.append(rx.as_str());
                proof {
                    assert(s@ =~= m.text);
                    assert(self.stderr@ =~= old(self).stderr@ + m.err);
                }
                Ok(s)
            },
        }
    }

    /// Renders the namespace openers for the leading dotted segments.
    fn open_namespaces(&self, namespaces: &Vec<String>) -> (r: String)
        ensures
            r@ == ns_open_upto(
                namespaces@.map_values(|x: String| x@),
                namespaces@.len() as int,
            ),
    {
        let ghost nss = namespaces@.map_values(|x: String| x@);
        let mut s = String::new();
        let mut i: usize = 0;
        proof {
            assert(Seq::<char>::empty() =~= ns_open_upto(nss, 0));
        }
        while i < namespaces.len()
            invariant
                i <= namespaces@.len(),
                nss == namespaces@.map_values(|x: String| x@),
                s@ == ns_open_upto(nss, i as int),
            decreases namespaces@.len() - i,
        {
            s.append("export namespace ");
            s.append(namespaces[i].as_str());
            s.append(" {\n");
            proof {
                assert(s@ =~= ns_open_upto(nss, i + 1));
            }
            i = i + 1;
        }
        s
    }

    /// Renders a type rule: namespace wrappers around a lazily evaluated
    /// schema constant.
    #[verifier::rlimit(100)]
    pub fn visit_type_rule(&mut self, tr: &TypeRule) -> (r: Result<String, EmitError>)
        ensures
            emits(*old(self), *final(self), r, type_rule_emit(*tr)),
        decreases *tr, 3int,
    {
        let ghost m = type_rule_emit(*tr);
        let ghost nss = pascal_segments(tr.name.ident@).drop_last();
        let (namespaces, rule_name) = split_namespaced(tr.name.ident.as_str());
        let mut s = self.open_namespaces(&namespaces);
        s.append("export const ");
        let ident = Identifier { ident: rule_name };
        let ps = self.visit_identifier_with_params(&ident, &tr.generic_params);
        s.append(ps.as_str());
        s.append(" = z.lazy(() => ");
        let inner = match self.visit_type(&tr.value) {
            Ok(v) => v,
            Err(e) => {
                proof {
                    reveal(type_rule_emit);
                    assert(m.fail == Some(e));
                    assert(self.stderr@ =~= old(self).stderr@ + m.err);
                }
                return Err(e);
            },
        };
        s.append(inner.as_str());
        s.append(");\n");
        crate::strnum::append_rep(&mut s, "}\n", namespaces.len());
        proof {
            reveal(type_rule_emit);
            assert(m.fail is None);
            assert(s@ =~= m.text);
            assert(self.stderr@ =~= old(self).stderr@ + m.err);
        }
        Ok(s)
    }

    /// Renders a group rule: namespace wrappers around the lazily evaluated
    /// schema of its single entry in map position.
    #[verifier::rlimit(100)]
    pub fn visit_group_rule(&mut self, gr: &GroupRule) -> (r: Result<String, EmitError>)
        ensures
            emits(*old(self), *final(self), r, group_rule_emit(*gr)),
        decreases *gr, 3int,
    {
        let ghost m = group_rule_emit(*gr);
        let ghost nss = pascal_segments(gr.name.ident@).drop_last();
        let (namespaces, rule_name) = split_namespaced(gr.name.ident.as_str());
        let mut s = self.open_namespaces(&namespaces);
        s.append("export const ");
        let ident = Identifier { ident: rule_name };
        let ps = self.visit_identifier_with_params(&ident, &gr.generic_params);
        s.append(ps.as_str());
        s.append(" = z.lazy(() => ");
        let mut ctx = GroupChoiceContext {
            in_object: false,
            is_first: true,
            in_record: false,
            in_and: false,
        };
        let body = match self.visit_group_entry(&gr.entry, &mut ctx) {
            Ok(v) => v,
            Err(e) => {
                proof {
                    reveal(group_rule_emit);
                    assert(m.fail == Some(e));
                    assert(self.stderr@ =~= old(self).stderr@ + m.err);
                }
                return Err(e);
            },
        };
        s.append(body.as_str());
        let ex = self.exit_map(&mut ctx);
        s.append(ex.as_str());
        s.append(");\n");
        crate::strnum::append_rep(&mut s, "}\n", namespaces.len());
        proof {
            reveal(group_rule_emit);
            assert(m.fail is None);
            assert(s@ =~= m.text);
            assert(self.stderr@ =~= old(self).stderr@ + m.err);
        }
        Ok(s)
    }

    /// Renders a whole document, one rule after another.  A rule whose
    /// emission fails contributes no output, only its diagnostics and a skip
    /// notice; the first such error is returned once every rule has been
    /// visited.
    #[verifier::rlimit(100)]
    pub fn visit_cddl(&mut self, cddl: &Cddl) -> (r: Result<(), EmitError>)
        ensures
            ({
                let m = rules_rest(cddl.rules@, 0);
                &&& final(self).stdout@ == old(self).stdout@ + m.text
                &&& final(self).stderr@ == old(self).stderr@ + m.err
                &&& match m.fail {
                    None => r is Ok,
                    Some(e) => r == Err::<(), EmitError>(e),
                }
            }),
    {
        let ghost full = rules_rest(cddl.rules@, 0);
        let mut first_err: Option<EmitError> = None;
        let mut i: usize = 0;
        while i < cddl.rules.len()
            invariant
                i <= cddl.rules@.len(),
                full == rules_rest(cddl.rules@, 0),
                old(self).stdout@ + full.text == self.stdout@ + rules_rest(
                    cddl.rules@,
                    i as int,
                ).text,
                old(self).stderr@ + full.err == self.stderr@ + rules_rest(
                    cddl.rules@,
                    i as int,
                ).err,
                match first_err {
                    Some(e) => full.fail == Some(e),
                    None => full.fail == rules_rest(cddl.rules@, i as int).fail,
                },
            decreases cddl.rules@.len() - i,
        {
            let res = match &cddl.rules[i] {
                Rule::Type { rule } => self.visit_type_rule(rule),
                Rule::Group { rule } => self.visit_group_rule(rule),
            };
            match res {
                Ok(text) => {
                    self.stdout.append(text.as_str());
                },
                Err(e) => {
                    self.stderr.append("Skipping rule that could not be emitted: ");
                    match &cddl.rules[i] {
                        Rule::Type { rule } => self.stderr.append(rule.name.ident.as_str()),
                        Rule::Group { rule } => self.stderr.append(rule.name.ident.as_str()),
                    }
                    self.stderr.append("\n");
                    if first_err.is_none() {
                        first_err = Some(e);
                    }
                },
            }
            proof {
                assert(old(self).stdout@ + full.text =~= self.stdout@ + rules_rest(
                    cddl.rules@,
                    i + 1,
                ).text);
                assert(old(self).stderr@ + full.err =~= self.stderr@ + rules_rest(
                    cddl.rules@,
                    i + 1,
                ).err);
            }
            i = i + 1;
        }
        proof {
            assert(self.stdout@ =~= old(self).stdout@ + full.text);
            assert(self.stderr@ =~= old(self).stderr@ + full.err);
        }
        match first_err {
            None => Ok(()),
            Some(e) => Err(e),
        }
    }
}

/// Whether `s` is one of the grammar's primitive names.
pub open spec fn is_primitive_name(s: Seq<char>) -> bool {
    ||| s == "bool"@
    ||| s == "uint"@
    ||| s == "nint"@
    ||| s == "int"@
    ||| s == "float16"@
    ||| s == "float32"@
    ||| s == "float64"@
    ||| s == "float16-32"@
    ||| s == "float32-64"@
    ||| s == "float"@
    ||| s == "number"@
    ||| s == "biguint"@
    ||| s == "bignint"@
    ||| s == "bigint"@
    ||| s == "bstr"@
    ||| s == "bytes"@
    ||| s == "tstr"@
    ||| s == "text"@
    ||| s == "any"@
    ||| s == "nil"@
    ||| s == "null"@
    ||| s == "true"@
    ||| s == "false"@
    ||| s == "undefined"@
    ||| s == "uri"@
    ||| s == "regexp"@
}

/// Dialect parity on primitives: each backend renders every primitive name
/// to one non-empty text, and the two renderings are never the same.
#[verifier::rlimit(100)]
pub proof fn lemma_dialect_parity(s: Seq<char>)
    requires
        is_primitive_name(s),
    ensures
        crate::engines::typescript::ident_text(s).len() > 0,
        ident_text(s, false).len() > 0,
        crate::engines::typescript::ident_text(s) != ident_text(s, false),
{
    reveal_strlit("bool");
    reveal_strlit("uint");
    reveal_strlit("nint");
    reveal_strlit("int");
    reveal_strlit("float16");
    reveal_strlit("float32");
    reveal_strlit("float64");
    reveal_strlit("float16-32");
    reveal_strlit("float32-64");
    reveal_strlit("float");
    reveal_strlit("number");
    reveal_strlit("biguint");
    reveal_strlit("bignint");
    reveal_strlit("bigint");
    reveal_strlit("bstr");
    reveal_strlit("bytes");
    reveal_strlit("tstr");
    reveal_strlit("text");
    reveal_strlit("any");
    reveal_strlit("nil");
    reveal_strlit("null");
    reveal_strlit("true");
    reveal_strlit("false");
    reveal_strlit("undefined");
    reveal_strlit("uri");
    reveal_strlit("regexp");
    reveal_strlit("boolean");
    reveal_strlit("Uint8Array");
    reveal_strlit("string");
    reveal_strlit("URL");
    reveal_strlit("RegExp");
    reveal_strlit("z.boolean()");
    reveal_strlit("z.number().int().nonnegative()");
    reveal_strlit("z.number().int().negative()");
    reveal_strlit("z.number().int()");
    reveal_strlit("z.number()");
    reveal_strlit("z.bigint().nonnegative()");
    reveal_strlit("z.bigint().negative()");
    reveal_strlit("z.bigint()");
    reveal_strlit("z.string()");
    reveal_strlit("z.any()");
    reveal_strlit("z.null()");
    reveal_strlit("z.literal(true)");
    reveal_strlit("z.literal(false)");
    reveal_strlit("z.undefined()");
    reveal_strlit("z.string().url()");
    if s == "bool"@ {
        assert(crate::engines::typescript::ident_text(s) == "boolean"@);
        assert(ident_text(s, false) == "z.boolean()"@);
        assert("boolean"@.len() != "z.boolean()"@.len());
    } else if s == "uint"@ {
        assert(crate::engines::typescript::ident_text(s) == "number"@);
        assert(ident_text(s, false) == "z.number().int().nonnegative()"@);
        assert("number"@.len() != "z.number().int().nonnegative()"@.len());
    } else if s == "nint"@ {
        assert(crate::engines::typescript::ident_text(s) == "number"@);
        assert(ident_text(s, false) == "z.number().int().negative()"@);
        assert("number"@.len() != "z.number().int().negative()"@.len());
    } else if s == "int"@ {
        assert(crate::engines::typescript::ident_text(s) == "number"@);
        assert(ident_text(s, false) == "z.number().int()"@);
        assert("number"@.len() != "z.number().int()"@.len());
    } else if s == "float16"@ {
        assert(crate::engines::typescript::ident_text(s) == "number"@);
        assert(ident_text(s, false) == "z.number()"@);
        assert("number"@.len() != "z.number()"@.len());
    } else if s == "float32"@ {
        assert(crate::engines::typescript::ident_text(s) == "number"@);
        assert(ident_text(s, false) == "z.number()"@);
        assert("number"@.len() != "z.number()"@.len());
    } else if s == "float64"@ {
        assert(crate::engines::typescript::ident_text(s) == "number"@);
        assert(ident_text(s, false) == "z.number()"@);
        assert("number"@.len() != "z.number()"@.len());
    } else if s == "float16-32"@ {
        assert(crate::engines::typescript::ident_text(s) == "number"@);
        assert(ident_text(s, false) == "z.number()"@);
        assert("number"@.len() != "z.number()"@.len());
    } else if s == "float32-64"@ {
        assert(crate::engines::typescript::ident_text(s) == "number"@);
        assert(ident_text(s, false) == "z.number()"@);
        assert("number"@.len() != "z.number()"@.len());
    } else if s == "float"@ {
        assert(crate::engines::typescript::ident_text(s) == "number"@);
        assert(ident_text(s, false) == "z.number()"@);
        assert("number"@.len() != "z.number()"@.len());
    } else if s == "number"@ {
        assert(crate::engines::typescript::ident_text(s) == "number"@);
        assert(ident_text(s, false) == "z.number()"@);
        assert("number"@.len() != "z.number()"@.len());
    } else if s == "biguint"@ {
        assert(crate::engines::typescript::ident_text(s) == "bigint"@);
        assert(ident_text(s, false) == "z.bigint().nonnegative()"@);
        assert("bigint"@.len() != "z.bigint().nonnegative()"@.len());
    } else if s == "bignint"@ {
        assert(crate::engines::typescript::ident_text(s) == "bigint"@);
        assert(ident_text(s, false) == "z.bigint().negative()"@);
        assert("bigint"@.len() != "z.bigint().negative()"@.len());
    } else if s == "bigint"@ {
        assert(crate::engines::typescript::ident_text(s) == "bigint"@);
        assert(ident_text(s, false) == "z.bigint()"@);
        assert("bigint"@.len() != "z.bigint()"@.len());
    } else if s == "bstr"@ {
        assert(crate::engines::typescript::ident_text(s) == "Uint8Array"@);
        assert(ident_text(s, false) == "z.string()"@);
        assert("Uint8Array"@[0] != "z.string()"@[0]);
    } else if s == "bytes"@ {
        assert(crate::engines::typescript::ident_text(s) == "Uint8Array"@);
        assert(ident_text(s, false) == "z.string()"@);
        assert("Uint8Array"@[0] != "z.string()"@[0]);
    } else if s == "tstr"@ {
        assert(crate::engines::typescript::ident_text(s) == "string"@);
        assert(ident_text(s, false) == "z.string()"@);
        assert("string"@.len() != "z.string()"@.len());
    } else if s == "text"@ {
        assert(crate::engines::typescript::ident_text(s) == "string"@);
        assert(ident_text(s, false) == "z.string()"@);
        assert("string"@.len() != "z.string()"@.len());
    } else if s == "any"@ {
        assert(crate::engines::typescript::ident_text(s) == "any"@);
        assert(ident_text(s, false) == "z.any()"@);
        assert("any"@.len() != "z.any()"@.len());
    } else if s == "nil"@ {
        assert(crate::engines::typescript::ident_text(s) == "null"@);
        assert(ident_text(s, false) == "z.null()"@);
        assert("null"@.len() != "z.null()"@.len());
    } else if s == "null"@ {
        assert(crate::engines::typescript::ident_text(s) == "null"@);
        assert(ident_text(s, false) == "z.null()"@);
        assert("null"@.len() != "z.null()"@.len());
    } else if s == "true"@ {
        assert(crate::engines::typescript::ident_text(s) == "true"@);
        assert(ident_text(s, false) == "z.literal(true)"@);
        assert("true"@.len() != "z.literal(true)"@.len());
    } else if s == "false"@ {
        assert(crate::engines::typescript::ident_text(s) == "false"@);
        assert(ident_text(s, false) == "z.literal(false)"@);
        assert("false"@.len() != "z.literal(false)"@.len());
    } else if s == "undefined"@ {
        assert(crate::engines::typescript::ident_text(s) == "undefined"@);
        assert(ident_text(s, false) == "z.undefined()"@);
        assert("undefined"@.len() != "z.undefined()"@.len());
    } else if s == "uri"@ {
        assert(crate::engines::typescript::ident_text(s) == "URL"@);
        assert(ident_text(s, false) == "z.string().url()"@);
        assert("URL"@.len() != "z.string().url()"@.len());
    } else if s == "regexp"@ {
        assert(crate::engines::typescript::ident_text(s) == "RegExp"@);
        assert(ident_text(s, false) == "z.string()"@);
        assert("RegExp"@.len() != "z.string()"@.len());
    }
}

} // verus!
