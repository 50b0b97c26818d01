//! The declarative-type backend: renders the grammar as type declarations —
//! object types for maps, tuple types for arrays, string-literal unions or
//! native enumerations for choices — with range and control constraints
//! carried as documentation comments.

use vstd::prelude::*;
use vstd::string::StringExecFns;

use crate::ast::ControlOperator;
use crate::ast::Cddl;
use crate::ast::GenericArgs;
use crate::ast::GenericParams;
use crate::ast::Group;
use crate::ast::GroupChoice;
use crate::ast::GroupEntry;
use crate::ast::GroupRule;
use crate::ast::Identifier;
use crate::ast::MemberKey;
use crate::ast::Operator;
use crate::ast::Occurrence;
use crate::ast::RangeCtlOp;
use crate::ast::Rule;
use crate::ast::Type;
use crate::ast::Type1;
use crate::ast::Type2;
use crate::ast::TypeGroupnameEntry;
use crate::ast::TypeRule;
use crate::ast::Value;
use crate::ast::ValueMemberKeyEntry;
use crate::emit::Emit;
use crate::emit::EmitError;
use crate::occur::Expansion;
use crate::occur::calculate_occurrence;
use crate::occur::expansion_plan;
use crate::occur::occurrence_bounds;
use crate::occur::spec_expansion_plan;
use crate::strnum::append_rep;
use crate::strnum::append_join_rep;
use crate::strnum::append_tuple_alts;
use crate::strnum::contains_str;
use crate::strnum::i64_dec_str;
use crate::strnum::join_rep;
use crate::strnum::rep;
use crate::strnum::str_eq;
use crate::strnum::tuple_alts;
use crate::strnum::u64_dec_str;
use crate::util::all_alphaspace;
use crate::util::is_alphaspace;
use crate::util::namespaced_of;
use crate::util::pascal_of;
use crate::util::pascal_segments;
use crate::util::split_namespaced;
use crate::util::to_namespaced;
use crate::util::to_pascalcase;

verus! {

/// How named groups referenced from array positions are rendered.
#[derive(Clone, Copy, PartialEq, Eq, Structural, Debug)]
pub enum GroupPolicy {
    /// Approximate the group by projecting its map form's value type.
    Projection,
    /// Emit a sibling sequence-shaped declaration per group rule and spread
    /// that, flattening nested sequences through a shared helper.
    DualEmission,
}

/// The container context of one group-choice frame: whether a container is
/// open and whether the next entry is the frame's first.
#[derive(Clone, Copy, PartialEq, Eq, Structural, Debug)]
pub struct GroupChoiceContext {
    pub in_object: bool,
    pub is_first: bool,
}

/// The configuration a traversal renders under: the registered group names
/// and the group rendering policy.
pub struct Cfg {
    pub groups: Seq<Seq<char>>,
    pub policy: GroupPolicy,
}

/// Whether `name` is a registered group name.
pub open spec fn is_group_name(cfg: Cfg, name: Seq<char>) -> bool {
    cfg.groups.contains(name)
}

/// The declarative-type engine: output and diagnostic sinks, the group-name
/// registry, and the group rendering policy.
pub struct Engine {
    pub stdout: String,
    pub stderr: String,
    pub groups: Vec<String>,
    pub policy: GroupPolicy,
    pub print_flatten: bool,
}

impl Engine {
    /// The configuration this engine renders under.
    pub open spec fn cfg(&self) -> Cfg {
        Cfg { groups: self.groups@.map_values(|s: String| s@), policy: self.policy }
    }
}

/// How a renderer relates the engine before and after: output untouched,
/// diagnostics extended, configuration kept, flatten request recorded.
pub open spec fn frame(pre: Engine, post: Engine, m: Emit) -> bool {
    &&& post.stdout == pre.stdout
    &&& post.stderr@ == pre.stderr@ + m.err
    &&& post.groups == pre.groups
    &&& post.policy == pre.policy
    &&& post.print_flatten == (pre.print_flatten || m.flatten)
}

/// The full contract of a renderer returning `r`: the frame above, and the
/// result carrying exactly the emitted text, or exactly the fatal error.
pub open spec fn emits(pre: Engine, post: Engine, r: Result<String, EmitError>, m: Emit) -> bool {
    &&& frame(pre, post, m)
    &&& match m.fail {
        None => r is Ok && r->Ok_0@ == m.text,
        Some(e) => r == Err::<String, EmitError>(e),
    }
}

/// The fresh frame a group choice starts with.
pub open spec fn init_ctx() -> GroupChoiceContext {
    GroupChoiceContext { in_object: false, is_first: true }
}

/// The separator owed before an entry: a comma inside an open container, an
/// intersection connector between closed ones, nothing before the first.
pub open spec fn joiner_text(c: GroupChoiceContext) -> Seq<char> {
    if c.in_object {
        if !c.is_first {
            ","@
        } else {
            Seq::empty()
        }
    } else {
        if !c.is_first {
            "&"@
        } else {
            Seq::empty()
        }
    }
}

/// Opening an array container: emits `[` only if none is open.
pub open spec fn enter_array_spec(c: GroupChoiceContext) -> (Seq<char>, GroupChoiceContext) {
    if !c.in_object {
        ("[\n"@, GroupChoiceContext { in_object: true, ..c })
    } else {
        (Seq::empty(), c)
    }
}

/// Closing an array container: emits `]` only if one is open.
pub open spec fn exit_array_spec(c: GroupChoiceContext) -> (Seq<char>, GroupChoiceContext) {
    if c.in_object {
        ("]"@, GroupChoiceContext { in_object: false, ..c })
    } else {
        (Seq::empty(), c)
    }
}

/// Opening a map container: emits `{` only if none is open.
pub open spec fn enter_map_spec(c: GroupChoiceContext) -> (Seq<char>, GroupChoiceContext) {
    if !c.in_object {
        ("{\n"@, GroupChoiceContext { in_object: true, ..c })
    } else {
        (Seq::empty(), c)
    }
}

/// Closing a map container: emits `}` only if one is open.
pub open spec fn exit_map_spec(c: GroupChoiceContext) -> (Seq<char>, GroupChoiceContext) {
    if c.in_object {
        ("}"@, GroupChoiceContext { in_object: false, ..c })
    } else {
        (Seq::empty(), c)
    }
}

/// The rendering of a primitive or rule-reference identifier.
pub open spec fn ident_text(s: Seq<char>) -> Seq<char> {
    if s == "bool"@ {
        "boolean"@
    } else if s == "uint"@ || s == "nint"@ || s == "int"@ || s == "float16"@ || s == "float32"@
        || s == "float64"@ || s == "float16-32"@ || s == "float32-64"@ || s == "float"@
        || s == "number"@ {
        "number"@
    } else if s == "biguint"@ || s == "bignint"@ || s == "bigint"@ {
        "bigint"@
    } else if s == "bstr"@ || s == "bytes"@ {
        "Uint8Array"@
    } else if s == "tstr"@ || s == "text"@ {
        "string"@
    } else if s == "any"@ {
        "any"@
    } else if s == "nil"@ || s == "null"@ {
        "null"@
    } else if s == "true"@ {
        "true"@
    } else if s == "uri"@ {
        "URL"@
    } else if s == "regexp"@ {
        "RegExp"@
    } else if s == "false"@ {
        "false"@
    } else if s == "undefined"@ {
        "undefined"@
    } else {
        namespaced_of(s)
    }
}

/// The rendering of a scalar literal: widened to its primitive type inside a
/// range computation, else the literal itself.
pub open spec fn value_text(v: Value, generic: bool) -> Seq<char> {
    if generic {
        match v {
            Value::Int(_) => "number"@,
            Value::Uint(_) => "number"@,
            Value::Float(_) => "number"@,
            Value::Text(_) => "string"@,
            Value::Byte(_) => "string"@,
        }
    } else {
        match v {
            Value::Int(i) => crate::strnum::int_text(i as int),
            Value::Uint(u) => crate::strnum::dec_digits(u as int),
            Value::Float(t) => t@,
            Value::Text(t) => "\""@ + t@ + "\""@,
            Value::Byte(t) => "\""@ + t@ + "\""@,
        }
    }
}

/// The expansion of a repeated array element: `e` is one rendering of the
/// element (member key included), `q` the element type alone.
pub open spec fn expansion_text(x: Expansion, e: Seq<char>, q: Seq<char>) -> Seq<char> {
    match x {
        Expansion::Exact { count } => join_rep(e, ","@, count as int),
        Expansion::Enumerate { lower, upper } => "...("@
            + tuple_alts(e, "["@, "]"@, "|"@, lower as int, upper as int) + ")"@,
        Expansion::Unbounded { prefix } => if prefix == 0 {
            "...("@ + q + ")"@
        } else {
            rep(e + ","@, prefix as int) + "..."@ + q
        },
    }
}

/// The member-key prefix of an array element, with a diagnostic for key forms
/// an array position cannot carry.
pub open spec fn array_memberkey_emit(mk: Option<MemberKey>) -> Emit {
    match mk {
        None => Emit::empty(),
        Some(MemberKey::Bareword { ident }) => Emit::of(ident.ident@ + ":"@),
        Some(_) => Emit::diag("Keys other than barewords are not allowed\n"@),
    }
}

impl Engine {
    /// Creates an engine writing to the given output and diagnostic sinks,
    /// under the legacy projection policy.
    pub fn with_writers(stdout: String, stderr: String) -> (r: Engine)
        ensures
            r.stdout == stdout,
            r.stderr == stderr,
            r.groups@.len() == 0,
            r.policy == GroupPolicy::Projection,
            !r.print_flatten,
    {
        Engine {
            stdout,
            stderr,
            groups: Vec::new(),
            policy: GroupPolicy::Projection,
            print_flatten: false,
        }
    }

    /// Creates an engine under an explicit group rendering policy.
    pub fn with_policy(stdout: String, stderr: String, policy: GroupPolicy) -> (r: Engine)
        ensures
            r.stdout == stdout,
            r.stderr == stderr,
            r.groups@.len() == 0,
            r.policy == policy,
            !r.print_flatten,
    {
        Engine { stdout, stderr, groups: Vec::new(), policy, print_flatten: false }
    }

    /// Hands the output and diagnostic sinks back.
    pub fn into_writers(self) -> (r: (String, String))
        ensures
            r.0 == self.stdout,
            r.1 == self.stderr,
    {
        (self.stdout, self.stderr)
    }

    /// Whether `name` was registered as a group rule.
    pub fn is_registered(&self, name: &str) -> (r: bool)
        ensures
            r == is_group_name(self.cfg(), name@),
    {
        contains_str(&self.groups, name)
    }

    /// Emits the separator owed before the next entry of the current frame.
    pub fn print_group_joiner(&self, ctx: &GroupChoiceContext) -> (r: String)
        ensures
            r@ == joiner_text(*ctx),
    {
        if ctx.in_object {
            if !ctx.is_first {
                String::from_str(",")
            } else {
                String::new()
            }
        } else {
            if !ctx.is_first {
                String::from_str("&")
            } else {
                String::new()
            }
        }
    }

    /// Opens an array container if none is open in this frame.
    pub fn enter_array(&self, ctx: &mut GroupChoiceContext) -> (r: String)
        ensures
            (r@, *final(ctx)) == enter_array_spec(*old(ctx)),
    {
        if !ctx.in_object {
            ctx.in_object = true;
            String::from_str("[\n")
        } else {
            String::new()
        }
    }

    /// Closes the array container if one is open in this frame.
    pub fn exit_array(&self, ctx: &mut GroupChoiceContext) -> (r: String)
        ensures
            (r@, *final(ctx)) == exit_array_spec(*old(ctx)),
    {
        if ctx.in_object {
            ctx.in_object = false;
            String::from_str("]")
        } else {
            String::new()
        }
    }

    /// Opens a map container if none is open in this frame.
    pub fn enter_map(&self, ctx: &mut GroupChoiceContext) -> (r: String)
        ensures
            (r@, *final(ctx)) == enter_map_spec(*old(ctx)),
    {
        if !ctx.in_object {
            ctx.in_object = true;
            String::from_str("{\n")
        } else {
            String::new()
        }
    }

    /// Closes the map container if one is open in this frame.
    pub fn exit_map(&self, ctx: &mut GroupChoiceContext) -> (r: String)
        ensures
            (r@, *final(ctx)) == exit_map_spec(*old(ctx)),
    {
        if ctx.in_object {
            ctx.in_object = false;
            String::from_str("}")
        } else {
            String::new()
        }
    }

    /// Renders a primitive name to its target type, or a rule reference to
    /// its namespaced name.
    pub fn visit_identifier(&self, ident: &Identifier) -> (r: String)
        ensures
            r@ == ident_text(ident.ident@),
    {
        let s = ident.ident.as_str();
        if str_eq(s, "bool") {
            String::from_str("boolean")
        } else if str_eq(s, "uint") || str_eq(s, "nint") || str_eq(s, "int") || str_eq(
            s,
            "float16",
        ) || str_eq(s, "float32") || str_eq(s, "float64") || str_eq(s, "float16-32") || str_eq(
            s,
            "float32-64",
        ) || str_eq(s, "float") || str_eq(s, "number") {
            String::from_str("number")
        } else if str_eq(s, "biguint") || str_eq(s, "bignint") || str_eq(s, "bigint") {
            String::from_str("bigint")
        } else if str_eq(s, "bstr") || str_eq(s, "bytes") {
            String::from_str("Uint8Array")
        } else if str_eq(s, "tstr") || str_eq(s, "text") {
            String::from_str("string")
        } else if str_eq(s, "any") {
            String::from_str("any")
        } else if str_eq(s, "nil") || str_eq(s, "null") {
            String::from_str("null")
        } else if str_eq(s, "true") {
            String::from_str("true")
        } else if str_eq(s, "uri") {
            String::from_str("URL")
        } else if str_eq(s, "regexp") {
            String::from_str("RegExp")
        } else if str_eq(s, "false") {
            String::from_str("false")
        } else if str_eq(s, "undefined") {
            String::from_str("undefined")
        } else {
            to_namespaced(s)
        }
    }

    /// Renders a scalar literal, widened when `generic` asks for it.
    pub fn visit_value(&self, value: &Value, generic: bool) -> (r: String)
        ensures
            r@ == value_text(*value, generic),
    {
        if generic {
            match value {
                Value::Int(_) => String::from_str("number"),
                Value::Uint(_) => String::from_str("number"),
                Value::Float(_) => String::from_str("number"),
                Value::Text(_) => String::from_str("string"),
                Value::Byte(_) => String::from_str("string"),
            }
        } else {
            match value {
                Value::Int(i) => i64_dec_str(*i),
                Value::Uint(u) => u64_dec_str(*u),
                Value::Float(t) => t.clone(),
                Value::Text(t) => {
                    let mut s = String::from_str("\"");
                    s.append(t.as_str());
                    s.append("\"");
                    s
                },
                Value::Byte(t) => {
                    let mut s = String::from_str("\"");
                    s.append(t.as_str());
                    s.append("\"");
                    s
                },
            }
        }
    }

    /// Renders the member-key prefix of an array element; key forms an array
    /// position cannot carry are dropped with a diagnostic.
    pub fn visit_array_memberkey(&mut self, mk: &Option<MemberKey>) -> (r: String)
        ensures
            frame(*old(self), *final(self), array_memberkey_emit(*mk)),
            r@ == array_memberkey_emit(*mk).text,
    {
        match mk {
            None => String::new(),
            Some(MemberKey::Bareword { ident }) => {
                let mut s = ident.ident.clone();
                s.append(":");
                s
            },
            Some(_) => {
                self.stderr.append("Keys other than barewords are not allowed\n");
                String::new()
            },
        }
    }

    /// Appends the expansion of a repeated element to `s`.
    fn append_expansion(&self, s: &mut String, x: Expansion, e: &str, q: &str)
        requires
            match x {
                Expansion::Enumerate { lower, upper } => lower <= upper && upper < usize::MAX,
                _ => true,
            },
        ensures
            final(s)@ == old(s)@ + expansion_text(x, e@, q@),
    {
        match x {
            Expansion::Exact { count } => {
                append_join_rep(s, e, ",", count);
            },
            Expansion::Enumerate { lower, upper } => {
                s.append("...(");
                append_tuple_alts(s, e, "[", "]", "|", lower, upper);
                s.append(")");
            },
            Expansion::Unbounded { prefix } => {
                if prefix == 0 {
                    s.append("...(");
                    s.append(q);
                    s.append(")");
                } else {
                    let mut ec = e.to_owned();
                    ec.append(",");
                    append_rep(s, ec.as_str(), prefix);
                    s.append("...");
                    s.append(q);
                }
            },
        }
        proof {
            assert(s@ =~= old(s)@ + expansion_text(x, e@, q@));
        }
    }
}

/// The parameter-list suffix of a declared identifier: each parameter
/// rendered and comma-terminated.
pub open spec fn plist_upto(ps: Seq<Identifier>, k: int) -> Seq<char>
    decreases k,
{
    if k <= 0 || ps.len() < k {
        Seq::empty()
    } else {
        plist_upto(ps, k - 1) + ident_text(ps[k - 1].ident@) + ","@
    }
}

/// A declared identifier with its generic parameters, if any.
pub open spec fn params_text(name: Seq<char>, ps: Option<GenericParams>) -> Seq<char> {
    ident_text(name) + match ps {
        None => Seq::<char>::empty(),
        Some(p) => "<"@ + plist_upto(p.params@, p.params@.len() as int) + ">"@,
    }
}

/// A referenced identifier with its generic arguments, if any.
pub open spec fn args_emit(cfg: Cfg, name: Seq<char>, args: Option<GenericArgs>) -> Emit
    decreases args, 3int,
{
    Emit::of(ident_text(name)).and_then(
        match args {
            None => Emit::empty(),
            Some(ga) => Emit::of("<"@).and_then(args_rest(cfg, ga.args@, 0)).and_text(">"@),
        },
    )
}

/// The generic arguments from position `j` on, each comma-terminated.
pub open spec fn args_rest(cfg: Cfg, cs: Seq<Type1>, j: int) -> Emit
    decreases cs, 2int, cs.len() - j,
{
    if j < 0 || j >= cs.len() {
        Emit::empty()
    } else {
        type1_emit(cfg, cs[j]).and_text(","@).and_then(args_rest(cfg, cs, j + 1))
    }
}

/// A type: its alternatives joined as a parenthesized union.
pub open spec fn type_emit(cfg: Cfg, t: Type) -> Emit
    decreases t, 3int,
{
    Emit::of("("@).and_then(choices_rest(cfg, t.type_choices@, 0)).and_text(")"@)
}

/// The type alternatives from position `j` on, `| `-separated.
pub open spec fn choices_rest(cfg: Cfg, cs: Seq<Type1>, j: int) -> Emit
    decreases cs, 2int, cs.len() - j,
{
    if j < 0 || j >= cs.len() {
        Emit::empty()
    } else {
        (if j > 0 {
            Emit::of("| "@)
        } else {
            Emit::empty()
        }).and_then(type1_emit(cfg, cs[j])).and_then(choices_rest(cfg, cs, j + 1))
    }
}

/// Whether a range operator puts the alternative's leaf into widened
/// rendering.
pub open spec fn type1_generic(t1: Type1) -> bool {
    match t1.operator {
        Some(op) => op.operator is RangeOp,
        None => false,
    }
}

/// One alternative: its leaf, plus the structural control operators the
/// dialect can express (`within` as a conditional type, `and` as an
/// intersection); range and the remaining controls only shape comments.
pub open spec fn type1_emit(cfg: Cfg, t1: Type1) -> Emit
    decreases t1, 3int,
{
    let base = type2_emit(cfg, t1.type2, type1_generic(t1));
    match t1.operator {
        None => base,
        Some(op) => match op.operator {
            RangeCtlOp::RangeOp { is_inclusive: _ } => base,
            RangeCtlOp::CtlOp { ctrl } => match ctrl {
                ControlOperator::Within => base.and_text(" extends \n"@).and_then(
                    type2_emit(cfg, op.type2, false),
                ).and_text(" ? \n"@).and_then(type2_emit(cfg, t1.type2, false)).and_text(
                    " : never\n"@,
                ),
                ControlOperator::And => base.and_text(" & \n"@).and_then(
                    type2_emit(cfg, op.type2, false),
                ),
                _ => base,
            },
        },
    }
}

/// A leaf shape.
pub open spec fn type2_emit(cfg: Cfg, t2: Type2, generic: bool) -> Emit
    decreases t2, 3int,
{
    match t2 {
        Type2::Typename { ident, generic_args } => args_emit(cfg, ident.ident@, generic_args),
        Type2::ParenthesizedType { pt } => type_emit(cfg, pt),
        Type2::MapGroup { group } => group_emit(cfg, group),
        Type2::ArrayGroup { group } => array_emit(cfg, group),
        Type2::Any => Emit::of("unknown"@),
        Type2::TextValue { value } => Emit::of(value_text(Value::Text(value), generic)),
        Type2::IntValue { value } => Emit::of(value_text(Value::Int(value), generic)),
        Type2::UintValue { value } => Emit::of(value_text(Value::Uint(value), generic)),
        Type2::FloatValue { text } => Emit::of(value_text(Value::Float(text), generic)),
        Type2::ByteValue { text } => Emit::of(value_text(Value::Byte(text), generic)),
        Type2::TaggedData { t } => type_emit(cfg, t),
    }
}

/// A group in array position: its choices as a `|`-union of tuple forms.
pub open spec fn array_emit(cfg: Cfg, g: Group) -> Emit
    decreases g, 3int,
{
    achoices_rest(cfg, g.group_choices@, 0)
}

/// The array-position choices from position `j` on, `|`-separated.
pub open spec fn achoices_rest(cfg: Cfg, gcs: Seq<GroupChoice>, j: int) -> Emit
    decreases gcs, 2int, gcs.len() - j,
{
    if j < 0 || j >= gcs.len() {
        Emit::empty()
    } else {
        (if j > 0 {
            Emit::of("|"@)
        } else {
            Emit::empty()
        }).and_then(array_choice_emit(cfg, gcs[j])).and_then(achoices_rest(cfg, gcs, j + 1))
    }
}

/// One array-position choice: its entries inside a fresh tuple frame.
pub open spec fn array_choice_emit(cfg: Cfg, gc: GroupChoice) -> Emit
    decreases gc, 3int,
{
    if gc.group_entries@.len() == 0 {
        Emit::of(enter_array_spec(init_ctx()).0 + exit_array_spec(enter_array_spec(init_ctx()).1).0)
    } else {
        let (m, c) = aentries_rest(cfg, gc.group_entries@, 0, init_ctx());
        m.and_text(exit_array_spec(c).0)
    }
}

/// The array entries from position `j` on, threading the tuple frame.
pub open spec fn aentries_rest(cfg: Cfg, es: Seq<GroupEntry>, j: int, c: GroupChoiceContext) -> (
    Emit,
    GroupChoiceContext,
)
    decreases es, 2int, es.len() - j,
{
    if j < 0 || j >= es.len() {
        (Emit::empty(), c)
    } else {
        let c0 = GroupChoiceContext { is_first: j == 0, ..c };
        let (m, c1) = array_entry_emit(cfg, es[j], c0);
        let (m2, c2) = aentries_rest(cfg, es, j + 1, c1);
        (m.and_then(m2), c2)
    }
}

/// One array entry: the owed separator, the tuple opened if need be, then
/// the repeated element itself.
pub open spec fn array_entry_emit(cfg: Cfg, e: GroupEntry, c: GroupChoiceContext) -> (
    Emit,
    GroupChoiceContext,
)
    decreases e, 4int,
{
    let (t_open, c1) = enter_array_spec(c);
    let inner = match e {
        GroupEntry::ValueMemberKey { ge } => value_array_mk_emit(cfg, ge),
        GroupEntry::TypeGroupname { ge } => type_arrayname_emit(cfg, ge),
        GroupEntry::InlineGroup { occur, group } => inline_array_emit(cfg, occur, group),
    };
    (Emit::of(joiner_text(c) + t_open).and_then(inner), c1)
}

/// A value entry in array position: its comment, then its expansion; member
/// keys are dropped here with a diagnostic.
pub open spec fn value_array_mk_emit(cfg: Cfg, ge: ValueMemberKeyEntry) -> Emit
    decreases ge, 3int,
{
    let cm = type_for_comment_emit(cfg, ge.entry_type);
    let ke = array_memberkey_emit(ge.member_key);
    let te = type_emit(cfg, ge.entry_type);
    let b = occurrence_bounds(ge.occur);
    match spec_expansion_plan(b.0, b.1) {
        Err(er) => cm.and_then(Emit::fatal(er)),
        Ok(x) => cm.and_then(
            ke.and_then(te).with_text(expansion_text(x, ke.text + te.text, te.text + "[]"@)),
        ),
    }
}

/// A named reference in array position: a registered group is spread into
/// the tuple (per the active policy), an unregistered name is a plain
/// element type.
pub open spec fn type_arrayname_emit(cfg: Cfg, ge: TypeGroupnameEntry) -> Emit
    decreases ge, 3int,
{
    let ae = args_emit(cfg, ge.name.ident@, ge.generic_args);
    let b = occurrence_bounds(ge.occur);
    match spec_expansion_plan(b.0, b.1) {
        Err(er) => Emit::fatal(er),
        Ok(x) => {
            if is_group_name(cfg, ge.name.ident@) {
                match cfg.policy {
                    GroupPolicy::Projection => ae.with_text(
                        expansion_text(x, "..."@ + ae.text, ae.text + "[number][]"@),
                    ),
                    GroupPolicy::DualEmission => {
                        let m = ae.with_text(
                            expansion_text(
                                x,
                                "..."@ + ae.text + "Vector"@,
                                "Flatten<"@ + ae.text + "Vector[]>"@,
                            ),
                        );
                        if x is Unbounded {
                            m.with_flatten()
                        } else {
                            m
                        }
                    },
                }
            } else {
                ae.with_text(expansion_text(x, ae.text, ae.text + "[]"@))
            }
        },
    }
}

/// An inline subgroup in array position: spread, or projected per the
/// active policy when open-ended.
pub open spec fn inline_array_emit(cfg: Cfg, occur: Option<crate::ast::Occurrence>, group: Group) -> Emit
    decreases group, 4int,
{
    let ar = array_emit(cfg, group);
    let b = occurrence_bounds(occur);
    match spec_expansion_plan(b.0, b.1) {
        Err(er) => Emit::fatal(er),
        Ok(x) => match cfg.policy {
            GroupPolicy::Projection => ar.with_text(
                expansion_text(x, "..."@ + ar.text, ar.text + "[number][]"@),
            ),
            GroupPolicy::DualEmission => {
                let m = ar.with_text(
                    expansion_text(x, "..."@ + ar.text + "Vector"@, "Flatten<"@ + ar.text + "[]>"@),
                );
                if x is Unbounded {
                    m.with_flatten()
                } else {
                    m
                }
            },
        },
    }
}

/// Opening (or continuing) a comment block.
pub open spec fn enter_comment_text(inc: bool) -> Seq<char> {
    (if !inc {
        "\n/*"@
    } else {
        " "@
    }) + "*\n"@
}

/// Closing the comment block, if one is open.
pub open spec fn exit_comment_text(inc: bool) -> Seq<char> {
    if inc {
        " */\n"@
    } else {
        Seq::empty()
    }
}

/// The documentation comment of a type: one block collecting every range
/// and control constraint among its alternatives.
pub open spec fn type_for_comment_emit(cfg: Cfg, t: Type) -> Emit
    decreases t, 3int,
{
    let (m, inc) = comment_rest(cfg, t.type_choices@, 0, false);
    m.and_text(exit_comment_text(inc))
}

/// The comment lines of the alternatives from position `j` on.
pub open spec fn comment_rest(cfg: Cfg, cs: Seq<Type1>, j: int, inc: bool) -> (Emit, bool)
    decreases cs, 2int, cs.len() - j,
{
    if j < 0 || j >= cs.len() {
        (Emit::empty(), inc)
    } else {
        let (m, inc1) = type1_for_comment_emit(cfg, cs[j], inc);
        let (m2, inc2) = comment_rest(cfg, cs, j + 1, inc1);
        (m.and_then(m2), inc2)
    }
}

/// One comment line: the block opened or continued, the fixed lead-in, the
/// operand, and the fixed tail.
pub open spec fn comment_line(cfg: Cfg, inc: bool, pre: Seq<char>, t2: Type2, post: Seq<char>) -> Emit
    decreases t2, 4int,
{
    Emit::of(enter_comment_text(inc) + pre).and_then(type2_emit(cfg, t2, false)).and_text(post)
}

/// The comment line of one alternative's operator, if it has one;
/// parenthesized types contribute their nested alternatives' lines.
pub open spec fn type1_for_comment_emit(cfg: Cfg, t1: Type1, inc: bool) -> (Emit, bool)
    decreases t1, 3int,
{
    let (m0, inc0) = match t1.type2 {
        Type2::ParenthesizedType { pt } => comment_rest(cfg, pt.type_choices@, 0, inc),
        _ => (Emit::empty(), inc),
    };
    let (m1, inc1) = op_comment_emit(cfg, t1, inc0);
    (m0.and_then(m1), inc1)
}

/// The range-constraint comment line of an alternative.
pub open spec fn range_comment_emit(cfg: Cfg, t1: Type1, inc: bool) -> Emit
    decreases t1, 1int,
{
    match t1.operator {
        Some(op) => Emit::of(enter_comment_text(inc) + " * Must be between `"@).and_then(
            type2_emit(cfg, t1.type2, false),
        ).and_text("` and `"@).and_then(type2_emit(cfg, op.type2, false)).and_text("`"@).and_text(
            match op.operator {
                RangeCtlOp::RangeOp { is_inclusive } => if is_inclusive {
                    ", inclusive"@
                } else {
                    Seq::<char>::empty()
                },
                _ => Seq::<char>::empty(),
            },
        ).and_text(".\n"@),
        None => Emit::empty(),
    }
}

/// The comment contribution of an alternative's operator alone.
pub open spec fn op_comment_emit(cfg: Cfg, t1: Type1, inc0: bool) -> (Emit, bool)
    decreases t1, 2int,
{
    match t1.operator {
        None => (Emit::empty(), inc0),
        Some(op) => match op.operator {
            RangeCtlOp::RangeOp { is_inclusive: _ } => (range_comment_emit(cfg, t1, inc0), true),
            RangeCtlOp::CtlOp { ctrl } => match ctrl {
                ControlOperator::Default => (
                    comment_line(cfg, inc0, " * @defaultValue `"@, op.type2, "`\n"@),
                    true,
                ),
                ControlOperator::Size => (
                    comment_line(cfg, inc0, " * Must be `"@, op.type2, "` units in length.\n"@),
                    true,
                ),
                ControlOperator::Pcre => (
                    comment_line(cfg, inc0, " * Must match the pattern `"@, op.type2, "`.\n"@),
                    true,
                ),
                ControlOperator::Regexp => (
                    comment_line(cfg, inc0, " * Must match the pattern `"@, op.type2, "`.\n"@),
                    true,
                ),
                ControlOperator::Lt => (
                    comment_line(cfg, inc0, " * Must be less than `"@, op.type2, "`.\n"@),
                    true,
                ),
                ControlOperator::Le => (
                    comment_line(cfg, inc0, " * Must be less than or equal to `"@, op.type2, "`.\n"@),
                    true,
                ),
                ControlOperator::Gt => (
                    comment_line(cfg, inc0, " * Must be greater than `"@, op.type2, "`.\n"@),
                    true,
                ),
                ControlOperator::Ge => (
                    comment_line(cfg, inc0, " * Must be greater than or equal to `"@, op.type2, "`.\n"@),
                    true,
                ),
                ControlOperator::Eq => (
                    comment_line(cfg, inc0, " * Must be equal to `"@, op.type2, "`.\n"@),
                    true,
                ),
                ControlOperator::Ne => (
                    comment_line(cfg, inc0, " * Must be not equal `"@, op.type2, "`.\n"@),
                    true,
                ),
                _ => (Emit::empty(), inc0),
            },
        },
    }
}

/// A group in map position: its choices as a parenthesized `| `-union.
pub open spec fn group_emit(cfg: Cfg, g: Group) -> Emit
    decreases g, 3int,
{
    Emit::of("("@).and_then(gchoices_rest(cfg, g.group_choices@, 0)).and_text(")"@)
}

/// The map-position choices from position `j` on.
pub open spec fn gchoices_rest(cfg: Cfg, gcs: Seq<GroupChoice>, j: int) -> Emit
    decreases gcs, 2int, gcs.len() - j,
{
    if j < 0 || j >= gcs.len() {
        Emit::empty()
    } else {
        (if j > 0 {
            Emit::of("| "@)
        } else {
            Emit::empty()
        }).and_then(group_choice_emit(cfg, gcs[j])).and_then(gchoices_rest(cfg, gcs, j + 1))
    }
}

/// One map-position choice: its entries inside a fresh object frame; an
/// empty choice is the empty-object type.
pub open spec fn group_choice_emit(cfg: Cfg, gc: GroupChoice) -> Emit
    decreases gc, 3int,
{
    if gc.group_entries@.len() == 0 {
        Emit::of("Record<string, never>\n"@)
    } else {
        let (m, c) = gentries_rest(cfg, gc.group_entries@, 0, init_ctx());
        m.and_text(exit_map_spec(c).0)
    }
}

/// The map entries from position `j` on, threading the object frame.
pub open spec fn gentries_rest(cfg: Cfg, es: Seq<GroupEntry>, j: int, c: GroupChoiceContext) -> (
    Emit,
    GroupChoiceContext,
)
    decreases es, 2int, es.len() - j,
{
    if j < 0 || j >= es.len() {
        (Emit::empty(), c)
    } else {
        let c0 = GroupChoiceContext { is_first: j == 0, ..c };
        let (m, c1) = group_entry_emit(cfg, es[j], c0);
        let (m2, c2) = gentries_rest(cfg, es, j + 1, c1);
        (m.and_then(m2), c2)
    }
}

/// One map entry.  A named reference closes the object and joins in as a
/// composition when registered as a group (wrapped `({} | ...)` when
/// optional), and as a plain type otherwise; an inline subgroup joins in the
/// same way.
pub open spec fn group_entry_emit(cfg: Cfg, e: GroupEntry, c: GroupChoiceContext) -> (
    Emit,
    GroupChoiceContext,
)
    decreases e, 4int,
{
    match e {
        GroupEntry::ValueMemberKey { ge } => value_member_key_entry_emit(cfg, ge, c),
        GroupEntry::TypeGroupname { ge } => {
            let (t_ex, c1) = exit_map_spec(c);
            let b = occurrence_bounds(ge.occur);
            let inner = args_emit(cfg, ge.name.ident@, ge.generic_args);
            let m = if is_group_name(cfg, ge.name.ident@) && b.0 == 0 && b.1 > 0 {
                Emit::of(t_ex + joiner_text(c1) + "({} |"@).and_then(inner).and_text(")"@)
            } else {
                Emit::of(t_ex + joiner_text(c1)).and_then(inner)
            };
            (m, c1)
        },
        GroupEntry::InlineGroup { occur, group } => {
            let (t_ex, c1) = exit_map_spec(c);
            let b = occurrence_bounds(occur);
            let inner = group_emit(cfg, group);
            let m = if b.0 == 0 && b.1 > 0 {
                Emit::of(t_ex + joiner_text(c1) + "({} |"@).and_then(inner).and_text(")"@)
            } else {
                Emit::of(t_ex + joiner_text(c1)).and_then(inner)
            };
            (m, c1)
        },
    }
}

/// A keyed map entry: separator, object opened if need be, comment, key,
/// optional marker, and the value type.  An entry with no key is rendered as
/// a keyless composition, with a diagnostic.
pub open spec fn value_member_key_entry_emit(
    cfg: Cfg,
    ge: ValueMemberKeyEntry,
    c: GroupChoiceContext,
) -> (Emit, GroupChoiceContext)
    decreases ge, 3int,
{
    match ge.member_key {
        None => {
            let (t_ex, c1) = exit_map_spec(c);
            let m = Emit::diag(missing_key_text()).and_text(t_ex + joiner_text(c1)).and_then(
                type_emit(cfg, ge.entry_type),
            );
            (m, c1)
        },
        Some(mk) => {
            let (t_open, c1) = enter_map_spec(c);
            let b = occurrence_bounds(ge.occur);
            let opt = b.0 == 0 && b.1 > 0 && (match mk {
                MemberKey::Type1 { t1: _, is_cut } => is_cut,
                _ => true,
            });
            let m = Emit::of(joiner_text(c) + t_open).and_then(
                type_for_comment_emit(cfg, ge.entry_type),
            ).and_then(memberkey_emit(cfg, mk)).and_text(
                if opt {
                    "?:"@
                } else {
                    ":"@
                },
            ).and_then(type_emit(cfg, ge.entry_type));
            (m, c1)
        },
    }
}

/// The diagnostic for a map entry that arrives without a member key.
pub open spec fn missing_key_text() -> Seq<char> {
    "Expected a member key in map context; treating the entry as a keyless value\n"@
}

/// A member key: a computed key as an index signature, a bareword as a
/// quoted property name, a literal as a literal index; other forms have no
/// rendering.
pub open spec fn memberkey_emit(cfg: Cfg, mk: MemberKey) -> Emit
    decreases mk, 3int,
{
    match mk {
        MemberKey::Type1 { t1, is_cut } => {
            if !is_cut {
                Emit::of("[key: "@).and_then(type1_emit(cfg, t1)).and_text("]"@)
            } else {
                Emit::of("["@).and_then(type1_emit(cfg, t1)).and_text("]"@)
            }
        },
        MemberKey::Bareword { ident } => Emit::of("\""@ + ident.ident@ + "\""@),
        MemberKey::Value { value } => Emit::of("["@ + value_text(value, false) + "]"@),
        MemberKey::NonMemberKey => Emit::fatal(EmitError::UnsupportedMemberKey),
    }
}

/// Whether one alternative qualifies for the enumeration heuristic: a text
/// literal of letters and spaces alone.
pub open spec fn choice_is_enum_text(t1: Type1) -> bool {
    match t1.type2 {
        Type2::TextValue { value } => all_alphaspace(value@),
        _ => false,
    }
}

/// Whether a type renders as a native enumeration: every alternative a text
/// literal of letters and spaces.
pub open spec fn enum_eligible(t: Type) -> bool {
    forall|i: int|
        0 <= i < t.type_choices@.len() ==> choice_is_enum_text(#[trigger] t.type_choices@[i])
}

/// The members of an enumeration: each text literal Pascal-cased as the
/// member name, valued as the literal itself.
pub open spec fn enum_members_upto(cs: Seq<Type1>, k: int) -> Seq<char>
    decreases k,
{
    if k <= 0 || cs.len() < k {
        Seq::empty()
    } else {
        enum_members_upto(cs, k - 1) + match cs[k - 1].type2 {
            Type2::TextValue { value } => pascal_of(value@) + " = \""@ + value@ + "\",\n"@,
            _ => Seq::<char>::empty(),
        }
    }
}

/// The namespace openers for the leading dotted segments, outer first.
pub open spec fn ns_open_upto(nss: Seq<Seq<char>>, k: int) -> Seq<char>
    decreases k,
{
    if k <= 0 || nss.len() < k {
        Seq::empty()
    } else {
        ns_open_upto(nss, k - 1) + "export namespace "@ + nss[k - 1] + " {\n"@
    }
}

/// A type rule: namespace wrappers around either a native enumeration (when
/// the heuristic applies) or a commented type alias.
/// The native-enumeration declaration of an eligible type rule.
#[verifier::opaque]
pub open spec fn enum_rule_text(name: Seq<char>, t: Type) -> Seq<char> {
    "export const enum "@ + name + " {"@ + enum_members_upto(
        t.type_choices@,
        t.type_choices@.len() as int,
    ) + "}\n"@
}

/// The commented type-alias declaration of a type rule.
#[verifier::opaque]
pub open spec fn alias_rule_emit(
    cfg: Cfg,
    name: Seq<char>,
    params: Option<GenericParams>,
    t: Type,
) -> Emit
    decreases t, 5int,
{
    type_for_comment_emit(cfg, t).and_text("export type "@).and_text(
        params_text(name, params),
    ).and_text(" = "@).and_then(type_emit(cfg, t)).and_text(";\n"@)
}

#[verifier::opaque]
pub open spec fn type_rule_emit(cfg: Cfg, tr: TypeRule) -> Emit
    decreases tr, 3int,
{
    let segs = pascal_segments(tr.name.ident@);
    let nss = segs.drop_last();
    let name = segs.last();
    let open_t = ns_open_upto(nss, nss.len() as int);
    let close_t = rep("}\n"@, nss.len() as int);
    if enum_eligible(tr.value) {
        Emit::of(open_t + enum_rule_text(name, tr.value) + close_t)
    } else {
        Emit::of(open_t).and_then(alias_rule_emit(cfg, name, tr.generic_params, tr.value)).and_text(
            close_t,
        )
    }
}

/// A group rule: namespace wrappers around its record-shaped declaration,
/// and under dual emission a sibling sequence-shaped declaration.
#[verifier::opaque]
pub open spec fn group_rule_emit(cfg: Cfg, gr: GroupRule) -> Emit
    decreases gr, 3int,
{
    let segs = pascal_segments(gr.name.ident@);
    let nss = segs.drop_last();
    let name = segs.last();
    let open_t = ns_open_upto(nss, nss.len() as int);
    let close_t = rep("}\n"@, nss.len() as int);
    let (m, c) = group_entry_emit(cfg, gr.entry, init_ctx());
    let map_decl = Emit::of(
        open_t + "export type "@ + params_text(name, gr.generic_params) + " = "@,
    ).and_then(m).and_text(exit_map_spec(c).0 + ";\n"@);
    match cfg.policy {
        GroupPolicy::Projection => map_decl.and_text(close_t),
        GroupPolicy::DualEmission => {
            let (m2, c2) = array_entry_emit(cfg, gr.entry, init_ctx());
            map_decl.and_text(
                "export type "@ + params_text(name, gr.generic_params) + "Vector"@ + " = "@,
            ).and_then(m2).and_text(exit_array_spec(c2).0 + ";\n"@ + close_t)
        },
    }
}

/// The diagnostic announcing that a rule's emission was abandoned.
pub open spec fn skip_text(name: Seq<char>) -> Seq<char> {
    "Skipping rule that could not be emitted: "@ + name + "\n"@
}

/// The rules from position `j` on: a failed rule contributes no output,
/// only its diagnostics and a skip notice; the first failure is reported.
pub open spec fn rules_rest(cfg: Cfg, rules: Seq<Rule>, j: int) -> Emit
    decreases rules, 2int, rules.len() - j,
{
    if j < 0 || j >= rules.len() {
        Emit::empty()
    } else {
        let m = match rules[j] {
            Rule::Type { rule } => type_rule_emit(cfg, rule),
            Rule::Group { rule } => group_rule_emit(cfg, rule),
        };
        let nm = match rules[j] {
            Rule::Type { rule } => rule.name.ident@,
            Rule::Group { rule } => rule.name.ident@,
        };
        let rest = rules_rest(cfg, rules, j + 1);
        match m.fail {
            None => Emit {
                text: m.text + rest.text,
                err: m.err + rest.err,
                flatten: m.flatten || rest.flatten,
                fail: rest.fail,
            },
            Some(_) => Emit {
                text: rest.text,
                err: m.err + skip_text(nm) + rest.err,
                flatten: m.flatten || rest.flatten,
                fail: m.fail,
            },
        }
    }
}

/// The flattening helper emitted once per output unit on demand.
pub open spec fn flatten_decl() -> Seq<char> {
    "export type Flatten<T extends unknown[]> = T extends (infer S)[][] ? S[] : never;"@
}

/// What the postamble emits: the flattening helper, exactly when dual
/// emission requested it.
pub open spec fn postamble_text(policy: GroupPolicy, flag: bool) -> Seq<char> {
    if policy is DualEmission && flag {
        flatten_decl()
    } else {
        Seq::empty()
    }
}



impl Engine {
    /// Renders a declared identifier with its generic parameters.
    pub fn visit_identifier_with_params(
        &self,
        ident: &Identifier,
        params: &Option<GenericParams>,
    ) -> (r: String)
        ensures
            r@ == params_text(ident.ident@, *params),
    {
        let mut s = self.visit_identifier(ident);
        match params {
            None => {
                proof {
                    assert(s@ =~= params_text(ident.ident@, *params));
                }
                s
            },
            Some(p) => {
                s.append("<");
                let ghost base = ident_text(ident.ident@) + "<"@;
                let mut i: usize = 0;
                while i < p.params.len()
                    invariant
                        i <= p.params@.len(),
                        s@ == base + plist_upto(p.params@, i as int),
                        base == ident_text(ident.ident@) + "<"@,
                    decreases p.params@.len() - i,
                {
                    let pt = self.visit_identifier(&p.params[i]);
                    s.append(pt.as_str());
                    s.append(",");
                    proof {
                        assert(s@ =~= base + plist_upto(p.params@, i + 1));
                    }
                    i = i + 1;
                }
                s.append(">");
                proof {
                    assert(s@ =~= params_text(ident.ident@, *params));
                }
                s
            },
        }
    }

    /// Renders a referenced identifier with its generic arguments.
    pub fn visit_identifier_with_args(
        &mut self,
        ident: &Identifier,
        args: &Option<GenericArgs>,
    ) -> (r: Result<String, EmitError>)
        ensures
            emits(*old(self), *final(self), r, args_emit(old(self).cfg(), ident.ident@, *args)),
        decreases *args, 3int,
    {
        let ghost m = args_emit(self.cfg(), ident.ident@, *args);
        let mut s = self.visit_identifier(ident);
        match args {
            None => {
                proof {
                    assert(s@ =~= m.text);
                }
                Ok(s)
            },
            Some(ga) => {
                s.append("<");
                let inner = match self.visit_args_rest(&ga.args, 0) {
                    Ok(v) => v,
                    Err(e) => {
                        proof {
                            assert(self.stderr@ =~= old(self).stderr@ + m.err);
                        }
                        return Err(e);
                    },
                };
                s.append(inner.as_str());
                s.append(">");
                proof {
                    assert(s@ =~= m.text);
                }
                Ok(s)
            },
        }
    }

    /// Renders the generic arguments from position `j` on.
    fn visit_args_rest(&mut self, cs: &Vec<Type1>, j: usize) -> (r: Result<String, EmitError>)
        ensures
            emits(*old(self), *final(self), r, args_rest(old(self).cfg(), cs@, j as int)),
        decreases cs@, 2int, cs@.len() - j,
    {
        let ghost m = args_rest(self.cfg(), cs@, j as int);
        if j >= cs.len() {
            return Ok(String::new());
        }
        let mut s = match self.visit_type1(&cs[j]) {
            Ok(v) => v,
            Err(e) => {
                proof {
                    assert(self.stderr@ =~= old(self).stderr@ + m.err);
                }
                return Err(e);
            },
        };
        s.append(",");
        let rest = match self.visit_args_rest(cs, j + 1) {
            Ok(v) => v,
            Err(e) => {
                proof {
                    assert(self.stderr@ =~= old(self).stderr@ + m.err);
                }
                return Err(e);
            },
        };
        s.append(rest.as_str());
        proof {
            assert(s@ =~= m.text);
            assert(self.stderr@ =~= old(self).stderr@ + m.err);
        }
        Ok(s)
    }

    /// Renders a type: its alternatives as a parenthesized union.
    pub fn visit_type(&mut self, t: &Type) -> (r: Result<String, EmitError>)
        ensures
            emits(*old(self), *final(self), r, type_emit(old(self).cfg(), *t)),
        decreases *t, 3int,
    {
        let ghost m = type_emit(self.cfg(), *t);
        let mut s = String::from_str("(");
        let inner = match self.visit_choices_rest(&t.type_choices, 0) {
            Ok(v) => v,
            Err(e) => {
                proof {
                    assert(self.stderr@ =~= old(self).stderr@ + m.err);
                }
                return Err(e);
            },
        };
        s.append(inner.as_str());
        s.append(")");
        proof {
            assert(s@ =~= m.text);
            assert(self.stderr@ =~= old(self).stderr@ + m.err);
        }
        Ok(s)
    }

    /// Renders the type alternatives from position `j` on.
    fn visit_choices_rest(&mut self, cs: &Vec<Type1>, j: usize) -> (r: Result<String, EmitError>)
        ensures
            emits(*old(self), *final(self), r, choices_rest(old(self).cfg(), cs@, j as int)),
        decreases cs@, 2int, cs@.len() - j,
    {
        let ghost m = choices_rest(self.cfg(), cs@, j as int);
        if j >= cs.len() {
            return Ok(String::new());
        }
        let mut s = String::new();
        if j > 0 {
            s.append("| ");
        }
        let c = match self.visit_type1(&cs[j]) {
            Ok(v) => v,
            Err(e) => {
                proof {
                    assert(self.stderr@ =~= old(self).stderr@ + m.err);
                }
                return Err(e);
            },
        };
        s.append(c.as_str());
        let rest = match self.visit_choices_rest(cs, j + 1) {
            Ok(v) => v,
            Err(e) => {
                proof {
                    assert(self.stderr@ =~= old(self).stderr@ + m.err);
                }
                return Err(e);
            },
        };
        s.append(rest.as_str());
        proof {
            assert(s@ =~= m.text);
            assert(self.stderr@ =~= old(self).stderr@ + m.err);
        }
        Ok(s)
    }

    /// Renders one alternative: its leaf plus any structural control
    /// operator.
    pub fn visit_type1(&mut self, t1: &Type1) -> (r: Result<String, EmitError>)
        ensures
            emits(*old(self), *final(self), r, type1_emit(old(self).cfg(), *t1)),
        decreases *t1, 3int,
    {
        let ghost m = type1_emit(self.cfg(), *t1);
        let generic = match &t1.operator {
            Some(op) => matches!(op.operator, RangeCtlOp::RangeOp { .. }),
            None => false,
        };
        let mut s = match self.visit_type2(&t1.type2, generic) {
            Ok(v) => v,
            Err(e) => {
                proof {
                    assert(self.stderr@ =~= old(self).stderr@ + m.err);
                }
                return Err(e);
            },
        };
        match &t1.operator {
            None => {},
            Some(op) => match &op.operator {
                RangeCtlOp::RangeOp { .. } => {},
                RangeCtlOp::CtlOp { ctrl } => match ctrl {
                    ControlOperator::Within => {
                        s.append(" extends \n");
                        let a = match self.visit_type2(&op.type2, false) {
                            Ok(v) => v,
                            Err(e) => {
                                proof {
                                    assert(self.stderr@ =~= old(self).stderr@ + m.err);
                                }
                                return Err(e);
                            },
                        };
                        s.append(a.as_str());
                        s.append(" ? \n");
                        let b = match self.visit_type2(&t1.type2, false) {
                            Ok(v) => v,
                            Err(e) => {
                                proof {
                                    assert(self.stderr@ =~= old(self).stderr@ + m.err);
                                }
                                return Err(e);
                            },
                        };
                        s.append(b.as_str());
                        s.append(" : never\n");
                    },
                    ControlOperator::And => {
                        s.append(" & \n");
                        let a = match self.visit_type2(&op.type2, false) {
                            Ok(v) => v,
                            Err(e) => {
                                proof {
                                    assert(self.stderr@ =~= old(self).stderr@ + m.err);
                                }
                                return Err(e);
                            },
                        };
                        s.append(a.as_str());
                    },
                    _ => {},
                },
            },
        }
        proof {
            assert(s@ =~= m.text);
            assert(self.stderr@ =~= old(self).stderr@ + m.err);
        }
        Ok(s)
    }

    /// Renders a leaf shape.
    pub fn visit_type2(&mut self, t2: &Type2, generic: bool) -> (r: Result<String, EmitError>)
        ensures
            emits(*old(self), *final(self), r, type2_emit(old(self).cfg(), *t2, generic)),
        decreases *t2, 3int,
    {
        let ghost m = type2_emit(self.cfg(), *t2, generic);
        match t2 {
            Type2::Typename { ident, generic_args } => self.visit_identifier_with_args(
                ident,
                generic_args,
            ),
            Type2::ParenthesizedType { pt } => self.visit_type(pt),
            Type2::MapGroup { group } => self.visit_group(group),
            Type2::ArrayGroup { group } => self.visit_array(group),
            Type2::Any => Ok(String::from_str("unknown")),
            Type2::TextValue { value } => {
                if generic {
                    Ok(String::from_str("string"))
                } else {
                    let mut s = String::from_str("\"");
                    s.append(value.as_str());
                    s.append("\"");
                    proof {
                        assert(s@ =~= m.text);
                    }
                    Ok(s)
                }
            },
            Type2::IntValue { value } => {
                if generic {
                    Ok(String::from_str("number"))
                } else {
                    Ok(i64_dec_str(*value))
                }
            },
            Type2::UintValue { value } => {
                if generic {
                    Ok(String::from_str("number"))
                } else {
                    Ok(u64_dec_str(*value))
                }
            },
            Type2::FloatValue { text } => {
                if generic {
                    Ok(String::from_str("number"))
                } else {
                    Ok(text.clone())
                }
            },
            Type2::ByteValue { text } => {
                if generic {
                    Ok(String::from_str("string"))
                } else {
                    let mut s = String::from_str("\"");
                    s.append(text.as_str());
                    s.append("\"");
                    proof {
                        assert(s@ =~= m.text);
                    }
                    Ok(s)
                }
            },
            Type2::TaggedData { t } => self.visit_type(t),
        }
    }

    /// Renders a group in array position.
    pub fn visit_array(&mut self, g: &Group) -> (r: Result<String, EmitError>)
        ensures
            emits(*old(self), *final(self), r, array_emit(old(self).cfg(), *g)),
        decreases *g, 3int,
    {
        self.visit_achoices_rest(&g.group_choices, 0)
    }

    /// Renders the array-position choices from position `j` on.
    fn visit_achoices_rest(&mut self, gcs: &Vec<GroupChoice>, j: usize) -> (r: Result<
        String,
        EmitError,
    >)
        ensures
            emits(*old(self), *final(self), r, achoices_rest(old(self).cfg(), gcs@, j as int)),
        decreases gcs@, 2int, gcs@.len() - j,
    {
        let ghost m = achoices_rest(self.cfg(), gcs@, j as int);
        if j >= gcs.len() {
            return Ok(String::new());
        }
        let mut s = String::new();
        if j > 0 {
            s.append("|");
        }
        let c = match self.visit_array_choice(&gcs[j]) {
            Ok(v) => v,
            Err(e) => {
                proof {
                    assert(self.stderr@ =~= old(self).stderr@ + m.err);
                }
                return Err(e);
            },
        };
        s.append(c.as_str());
        let rest = match self.visit_achoices_rest(gcs, j + 1) {
            Ok(v) => v,
            Err(e) => {
                proof {
                    assert(self.stderr@ =~= old(self).stderr@ + m.err);
                }
                return Err(e);
            },
        };
        s.append(rest.as_str());
        proof {
            assert(s@ =~= m.text);
            assert(self.stderr@ =~= old(self).stderr@ + m.err);
        }
        Ok(s)
    }

    /// Renders one array-position choice inside a fresh tuple frame.
    pub fn visit_array_choice(&mut self, gc: &GroupChoice) -> (r: Result<String, EmitError>)
        ensures
            emits(*old(self), *final(self), r, array_choice_emit(old(self).cfg(), *gc)),
        decreases *gc, 3int,
    {
        let ghost m = array_choice_emit(self.cfg(), *gc);
        let mut ctx = GroupChoiceContext { in_object: false, is_first: true };
        if gc.group_entries.len() == 0 {
            let mut s = self.enter_array(&mut ctx);
            let t = self.exit_array(&mut ctx);
            s.append(t.as_str());
            proof {
                assert(s@ =~= m.text);
            }
            return Ok(s);
        }
        let mut s = match self.visit_aentries_rest(&gc.group_entries, 0, &mut ctx) {
            Ok(v) => v,
            Err(e) => {
                proof {
                    assert(self.stderr@ =~= old(self).stderr@ + m.err);
                }
                return Err(e);
            },
        };
        let t = self.exit_array(&mut ctx);
        s.append(t.as_str());
        proof {
            assert(s@ =~= m.text);
            assert(self.stderr@ =~= old(self).stderr@ + m.err);
        }
        Ok(s)
    }

    /// Renders the array entries from position `j` on, threading the frame.
    fn visit_aentries_rest(
        &mut self,
        es: &Vec<GroupEntry>,
        j: usize,
        ctx: &mut GroupChoiceContext,
    ) -> (r: Result<String, EmitError>)
        ensures
            ({
                let (m, c2) = aentries_rest(old(self).cfg(), es@, j as int, *old(ctx));
                &&& emits(*old(self), *final(self), r, m)
                &&& (m.fail is None ==> *final(ctx) == c2)
            }),
        decreases es@, 2int, es@.len() - j,
    {
        let ghost m = aentries_rest(old(self).cfg(), es@, j as int, *ctx).0;
        if j >= es.len() {
            return Ok(String::new());
        }
        ctx.is_first = j == 0;
        let mut s = match self.visit_array_entry(&es[j], ctx) {
            Ok(v) => v,
            Err(e) => {
                proof {
                    assert(self.stderr@ =~= old(self).stderr@ + m.err);
                }
                return Err(e);
            },
        };
        let rest = match self.visit_aentries_rest(es, j + 1, ctx) {
            Ok(v) => v,
            Err(e) => {
                proof {
                    assert(self.stderr@ =~= old(self).stderr@ + m.err);
                }
                return Err(e);
            },
        };
        s.append(rest.as_str());
        proof {
            assert(s@ =~= m.text);
            assert(self.stderr@ =~= old(self).stderr@ + m.err);
        }
        Ok(s)
    }

    /// Renders one array entry: separator, tuple opened if need be, element.
    pub fn visit_array_entry(
        &mut self,
        entry: &GroupEntry,
        ctx: &mut GroupChoiceContext,
    ) -> (r: Result<String, EmitError>)
        ensures
            ({
                let (m, c2) = array_entry_emit(old(self).cfg(), *entry, *old(ctx));
                &&& emits(*old(self), *final(self), r, m)
                &&& *final(ctx) == c2
            }),
        decreases *entry, 4int,
    {
        let ghost m = array_entry_emit(old(self).cfg(), *entry, *ctx).0;
        let mut s = self.print_group_joiner(ctx);
        let t = self.enter_array(ctx);
        s.append(t.as_str());
        let inner = match entry {
            GroupEntry::ValueMemberKey { ge } => self.visit_value_array_member_key_entry(ge),
            GroupEntry::TypeGroupname { ge } => self.visit_type_arrayname_entry(ge),
            GroupEntry::InlineGroup { occur, group } => self.visit_inline_array_entry(occur, group),
        };
        let it = match inner {
            Ok(v) => v,
            Err(e) => {
                proof {
                    assert(self.stderr@ =~= old(self).stderr@ + m.err);
                }
                return Err(e);
            },
        };
        s.append(it.as_str());
        proof {
            assert(s@ =~= m.text);
            assert(self.stderr@ =~= old(self).stderr@ + m.err);
        }
        Ok(s)
    }

    /// Renders a value entry in array position: comment, then expansion.
    #[verifier::rlimit(100)]
    pub fn visit_value_array_member_key_entry(&mut self, ge: &ValueMemberKeyEntry) -> (r: Result<
        String,
        EmitError,
    >)
        ensures
            emits(*old(self), *final(self), r, value_array_mk_emit(old(self).cfg(), *ge)),
        decreases *ge, 3int,
    {
        let ghost m = value_array_mk_emit(self.cfg(), *ge);
        let mut s = match self.visit_type_for_comment(&ge.entry_type) {
            Ok(v) => v,
            Err(e) => {
                proof {
                    assert(self.stderr@ =~= old(self).stderr@ + m.err);
                }
                return Err(e);
            },
        };
        let bounds = calculate_occurrence(&ge.occur);
        let x = match expansion_plan(bounds.0, bounds.1) {
            Ok(x) => x,
            Err(e) => {
                proof {
                    assert(self.stderr@ =~= old(self).stderr@ + m.err);
                }
                return Err(e);
            },
        };
        let ke = self.visit_array_memberkey(&ge.member_key);
        let te = match self.visit_type(&ge.entry_type) {
            Ok(v) => v,
            Err(e) => {
                proof {
                    assert(self.stderr@ =~= old(self).stderr@ + m.err);
                }
                return Err(e);
            },
        };
        let mut e = ke;
        e.append(te.as_str());
        let mut q = te.clone();
        q.append("[]");
        self.append_expansion(&mut s, x, e.as_str(), q.as_str());
        proof {
            assert(s@ =~= m.text);
            assert(self.stderr@ =~= old(self).stderr@ + m.err);
        }
        Ok(s)
    }

    /// Renders a named reference in array position: a registered group is
    /// spread, an unregistered name is a plain element type.
    #[verifier::rlimit(100)]
    pub fn visit_type_arrayname_entry(&mut self, ge: &TypeGroupnameEntry) -> (r: Result<
        String,
        EmitError,
    >)
        ensures
            emits(*old(self), *final(self), r, type_arrayname_emit(old(self).cfg(), *ge)),
        decreases *ge, 3int,
    {
        let ghost m = type_arrayname_emit(self.cfg(), *ge);
        let bounds = calculate_occurrence(&ge.occur);
        let x = match expansion_plan(bounds.0, bounds.1) {
            Ok(x) => x,
            Err(e) => {
                proof {
                    assert(self.stderr@ =~= old(self).stderr@ + m.err);
                }
                return Err(e);
            },
        };
        let registered = self.is_registered(ge.name.ident.as_str());
        if registered && matches!(self.policy, GroupPolicy::DualEmission) && matches!(
            x,
            Expansion::Unbounded { .. },
        ) {
            self.print_flatten = true;
        }
        let ae = match self.visit_identifier_with_args(&ge.name, &ge.generic_args) {
            Ok(v) => v,
            Err(e) => {
                proof {
                    assert(self.stderr@ =~= old(self).stderr@ + m.err);
                }
                return Err(e);
            },
        };
        let mut s = String::new();
        if registered {
            match self.policy {
                GroupPolicy::Projection => {
                    let mut e = String::from_str("...");
                    e.append(ae.as_str());
                    let mut q = ae.clone();
                    q.append("[number][]");
                    self.append_expansion(&mut s, x, e.as_str(), q.as_str());
                },
                GroupPolicy::DualEmission => {
                    let mut e = String::from_str("...");
                    e.append(ae.as_str());
                    e.append("Vector");
                    let mut q = String::from_str("Flatten<");
                    q.append(ae.as_str());
                    q.append("Vector[]>");
                    self.append_expansion(&mut s, x, e.as_str(), q.as_str());
                },
            }
        } else {
            let mut q = ae.clone();
            q.append("[]");
            self.append_expansion(&mut s, x, ae.as_str(), q.as_str());
        }
        proof {
            assert(s@ =~= m.text);
            assert(self.stderr@ =~= old(self).stderr@ + m.err);
        }
        Ok(s)
    }

    /// Renders an inline subgroup in array position.
    #[verifier::rlimit(100)]
    pub fn visit_inline_array_entry(
        &mut self,
        occur: &Option<Occurrence>,
        group: &Group,
    ) -> (r: Result<String, EmitError>)
        ensures
            emits(*old(self), *final(self), r, inline_array_emit(old(self).cfg(), *occur, *group)),
        decreases *group, 4int,
    {
        let ghost m = inline_array_emit(self.cfg(), *occur, *group);
        let bounds = calculate_occurrence(occur);
        let x = match expansion_plan(bounds.0, bounds.1) {
            Ok(x) => x,
            Err(e) => {
                proof {
                    assert(self.stderr@ =~= old(self).stderr@ + m.err);
                }
                return Err(e);
            },
        };
        if matches!(self.policy, GroupPolicy::DualEmission) && matches!(
            x,
            Expansion::Unbounded { .. },
        ) {
            self.print_flatten = true;
        }
        let ar = match self.visit_array(group) {
            Ok(v) => v,
            Err(e) => {
                proof {
                    assert(self.stderr@ =~= old(self).stderr@ + m.err);
                }
                return Err(e);
            },
        };
        let mut s = String::new();
        match self.policy {
            GroupPolicy::Projection => {
                let mut e = String::from_str("...");
                e.append(ar.as_str());
                let mut q = ar.clone();
                q.append("[number][]");
                self.append_expansion(&mut s, x, e.as_str(), q.as_str());
            },
            GroupPolicy::DualEmission => {
                let mut e = String::from_str("...");
                e.append(ar.as_str());
                e.append("Vector");
                let mut q = String::from_str("Flatten<");
                q.append(ar.as_str());
                q.append("[]>");
                self.append_expansion(&mut s, x, e.as_str(), q.as_str());
            },
        }
        Ok(s)
    }
}


impl Engine {
    /// Opens the comment block, or continues an open one.
    pub fn enter_comment(&self, in_comment: &mut bool) -> (r: String)
        ensures
            r@ == enter_comment_text(*old(in_comment)),
            *final(in_comment) == true,
    {
        let mut s = if !*in_comment {
            *in_comment = true;
            String::from_str("\n/*")
        } else {
            String::from_str(" ")
        };
        s.append("*\n");
        s
    }

    /// Closes the comment block, if one is open.
    pub fn exit_comment(&self, in_comment: &mut bool) -> (r: String)
        ensures
            r@ == exit_comment_text(*old(in_comment)),
            *final(in_comment) == false,
    {
        if *in_comment {
            *in_comment = false;
            String::from_str(" */\n")
        } else {
            String::new()
        }
    }

    /// Renders the documentation comment of a type: one block collecting its
    /// alternatives' range and control constraints.
    pub fn visit_type_for_comment(&mut self, t: &Type) -> (r: Result<String, EmitError>)
        ensures
            emits(*old(self), *final(self), r, type_for_comment_emit(old(self).cfg(), *t)),
        decreases *t, 3int,
    {
        let ghost m = type_for_comment_emit(self.cfg(), *t);
        let mut inc = false;
        let mut s = match self.visit_comment_rest(&t.type_choices, 0, &mut inc) {
            Ok(v) => v,
            Err(e) => {
                proof {
                    assert(self.stderr@ =~= old(self).stderr@ + m.err);
                }
                return Err(e);
            },
        };
        let t2 = self.exit_comment(&mut inc);
        s.append(t2.as_str());
        proof {
            assert(s@ =~= m.text);
            assert(self.stderr@ =~= old(self).stderr@ + m.err);
        }
        Ok(s)
    }

    /// Renders the comment lines of the alternatives from position `j` on.
    fn visit_comment_rest(
        &mut self,
        cs: &Vec<Type1>,
        j: usize,
        in_comment: &mut bool,
    ) -> (r: Result<String, EmitError>)
        ensures
            ({
                let (m, inc2) = comment_rest(old(self).cfg(), cs@, j as int, *old(in_comment));
                &&& emits(*old(self), *final(self), r, m)
                &&& (m.fail is None ==> *final(in_comment) == inc2)
            }),
        decreases cs@, 2int, cs@.len() - j,
    {
        let ghost m = comment_rest(old(self).cfg(), cs@, j as int, *in_comment).0;
        if j >= cs.len() {
            return Ok(String::new());
        }
        let mut s = match self.visit_type1_for_comment(&cs[j], in_comment) {
            Ok(v) => v,
            Err(e) => {
                proof {
                    assert(self.stderr@ =~= old(self).stderr@ + m.err);
                }
                return Err(e);
            },
        };
        let rest = match self.visit_comment_rest(cs, j + 1, in_comment) {
            Ok(v) => v,
            Err(e) => {
                proof {
                    assert(self.stderr@ =~= old(self).stderr@ + m.err);
                }
                return Err(e);
            },
        };
        s.append(rest.as_str());
        proof {
            assert(s@ =~= m.text);
            assert(self.stderr@ =~= old(self).stderr@ + m.err);
        }
        Ok(s)
    }

    /// Renders one comment line: block opened or continued, lead-in, operand,
    /// tail.
    fn visit_comment_line(
        &mut self,
        pre: &str,
        t2: &Type2,
        post: &str,
        in_comment: &mut bool,
    ) -> (r: Result<String, EmitError>)
        ensures
            ({
                let m = comment_line(old(self).cfg(), *old(in_comment), pre@, *t2, post@);
                &&& emits(*old(self), *final(self), r, m)
                &&& (m.fail is None ==> *final(in_comment) == true)
            }),
        decreases *t2, 4int,
    {
        let ghost m = comment_line(self.cfg(), *in_comment, pre@, *t2, post@);
        let mut s = self.enter_comment(in_comment);
        s.append(pre);
        let a = match self.visit_type2(t2, false) {
            Ok(v) => v,
            Err(e) => {
                proof {
                    assert(self.stderr@ =~= old(self).stderr@ + m.err);
                }
                return Err(e);
            },
        };
        s.append(a.as_str());
        s.append(post);
        proof {
            assert(s@ =~= m.text);
            assert(self.stderr@ =~= old(self).stderr@ + m.err);
        }
        Ok(s)
    }

    /// Renders the comment line of one alternative's operator, if any.
    pub fn visit_type1_for_comment(
        &mut self,
        t1: &Type1,
        in_comment: &mut bool,
    ) -> (r: Result<String, EmitError>)
        ensures
            ({
                let (m, inc2) = type1_for_comment_emit(old(self).cfg(), *t1, *old(in_comment));
                &&& emits(*old(self), *final(self), r, m)
                &&& (m.fail is None ==> *final(in_comment) == inc2)
            }),
        decreases *t1, 3int,
    {
        let ghost m = type1_for_comment_emit(old(self).cfg(), *t1, *in_comment).0;
        let mut s = match &t1.type2 {
            Type2::ParenthesizedType { pt } => {
                match self.visit_comment_rest(&pt.type_choices, 0, in_comment) {
                    Ok(v) => v,
                    Err(e) => {
                        proof {
                            assert(self.stderr@ =~= old(self).stderr@ + m.err);
                        }
                        return Err(e);
                    },
                }
            },
            _ => String::new(),
        };
        let line = match self.visit_op_comment(t1, in_comment) {
            Ok(v) => v,
            Err(e) => {
                proof {
                    assert(self.stderr@ =~= old(self).stderr@ + m.err);
                }
                return Err(e);
            },
        };
        s.append(line.as_str());
        proof {
            assert(s@ =~= m.text);
            assert(self.stderr@ =~= old(self).stderr@ + m.err);
        }
        Ok(s)
    }

    /// Renders the range-constraint comment line.
    #[verifier::rlimit(100)]
    fn visit_range_comment(
        &mut self,
        t1: &Type1,
        op: &Operator,
        in_comment: &mut bool,
    ) -> (r: Result<String, EmitError>)
        requires
            t1.operator matches Some(o) && o == *op,
            op.operator matches RangeCtlOp::RangeOp { .. },
        ensures
            ({
                let m = range_comment_emit(old(self).cfg(), *t1, *old(in_comment));
                &&& emits(*old(self), *final(self), r, m)
                &&& (m.fail is None ==> *final(in_comment) == true)
            }),
        decreases *t1, 1int,
    {
        let ghost m = range_comment_emit(old(self).cfg(), *t1, *in_comment);
        let is_inclusive = match &op.operator {
            RangeCtlOp::RangeOp { is_inclusive } => *is_inclusive,
            _ => false,
        };
        let mut s = self.enter_comment(in_comment);
        s.append(" * Must be between `");
        let a = match self.visit_type2(&t1.type2, false) {
            Ok(v) => v,
            Err(e) => {
                proof {
                    assert(self.stderr@ =~= old(self).stderr@ + m.err);
                }
                return Err(e);
            },
        };
        s.append(a.as_str());
        s.append("` and `");
        let b = match self.visit_type2(&op.type2, false) {
            Ok(v) => v,
            Err(e) => {
                proof {
                    assert(self.stderr@ =~= old(self).stderr@ + m.err);
                }
                return Err(e);
            },
        };
        s.append(b.as_str());
        s.append("`");
        if is_inclusive {
            s.append(", inclusive");
        }
        s.append(".\n");
        proof {
            assert(s@ =~= m.text);
            assert(self.stderr@ =~= old(self).stderr@ + m.err);
        }
        Ok(s)
    }

    /// Renders the comment contribution of an alternative's operator alone.
    #[verifier::rlimit(100)]
    fn visit_op_comment(&mut self, t1: &Type1, in_comment: &mut bool) -> (r: Result<
        String,
        EmitError,
    >)
        ensures
            ({
                let (m, inc2) = op_comment_emit(old(self).cfg(), *t1, *old(in_comment));
                &&& emits(*old(self), *final(self), r, m)
                &&& (m.fail is None ==> *final(in_comment) == inc2)
            }),
        decreases *t1, 2int,
    {
        let ghost m = op_comment_emit(old(self).cfg(), *t1, *in_comment).0;
        let mut s = String::new();
        match &t1.operator {
            None => {},
            Some(op) => match &op.operator {
                RangeCtlOp::RangeOp { is_inclusive: _ } => {
                    let line = match self.visit_range_comment(t1, op, in_comment) {
                        Ok(v) => v,
                        Err(e) => {
                            proof {
                                assert(self.stderr@ =~= old(self).stderr@ + m.err);
                            }
                            return Err(e);
                        },
                    };
                    return Ok(line);
                },
                RangeCtlOp::CtlOp { ctrl } => match ctrl {
                    ControlOperator::Default => {
                        let line = match self.visit_comment_line(
                            " * @defaultValue `",
                            &op.type2,
                            "`\n",
                            in_comment,
                        ) {
                            Ok(v) => v,
                            Err(e) => {
                                proof {
                                    assert(self.stderr@ =~= old(self).stderr@ + m.err);
                                }
                                return Err(e);
                            },
                        };
                        return Ok(line);
                    },
                    ControlOperator::Size => {
                        let line = match self.visit_comment_line(
                            " * Must be `",
                            &op.type2,
                            "` units in length.\n",
                            in_comment,
                        ) {
                            Ok(v) => v,
                            Err(e) => {
                                proof {
                                    assert(self.stderr@ =~= old(self).stderr@ + m.err);
                                }
                                return Err(e);
                            },
                        };
                        return Ok(line);
                    },
                    ControlOperator::Pcre => {
                        let line = match self.visit_comment_line(
                            " * Must match the pattern `",
                            &op.type2,
                            "`.\n",
                            in_comment,
                        ) {
                            Ok(v) => v,
                            Err(e) => {
                                proof {
                                    assert(self.stderr@ =~= old(self).stderr@ + m.err);
                                }
                                return Err(e);
                            },
                        };
                        return Ok(line);
                    },
                    ControlOperator::Regexp => {
                        let line = match self.visit_comment_line(
                            " * Must match the pattern `",
                            &op.type2,
                            "`.\n",
                            in_comment,
                        ) {
                            Ok(v) => v,
                            Err(e) => {
                                proof {
                                    assert(self.stderr@ =~= old(self).stderr@ + m.err);
                                }
                                return Err(e);
                            },
                        };
                        return Ok(line);
                    },
                    ControlOperator::Lt => {
                        let line = match self.visit_comment_line(
                            " * Must be less than `",
                            &op.type2,
                            "`.\n",
                            in_comment,
                        ) {
                            Ok(v) => v,
                            Err(e) => {
                                proof {
                                    assert(self.stderr@ =~= old(self).stderr@ + m.err);
                                }
                                return Err(e);
                            },
                        };
                        return Ok(line);
                    },
                    ControlOperator::Le => {
                        let line = match self.visit_comment_line(
                            " * Must be less than or equal to `",
                            &op.type2,
                            "`.\n",
                            in_comment,
                        ) {
                            Ok(v) => v,
                            Err(e) => {
                                proof {
                                    assert(self.stderr@ =~= old(self).stderr@ + m.err);
                                }
                                return Err(e);
                            },
                        };
                        return Ok(line);
                    },
                    ControlOperator::Gt => {
                        let line = match self.visit_comment_line(
                            " * Must be greater than `",
                            &op.type2,
                            "`.\n",
                            in_comment,
                        ) {
                            Ok(v) => v,
                            Err(e) => {
                                proof {
                                    assert(self.stderr@ =~= old(self).stderr@ + m.err);
                                }
                                return Err(e);
                            },
                        };
                        return Ok(line);
                    },
                    ControlOperator::Ge => {
                        let line = match self.visit_comment_line(
                            " * Must be greater than or equal to `",
                            &op.type2,
                            "`.\n",
                            in_comment,
                        ) {
                            Ok(v) => v,
                            Err(e) => {
                                proof {
                                    assert(self.stderr@ =~= old(self).stderr@ + m.err);
                                }
                                return Err(e);
                            },
                        };
                        return Ok(line);
                    },
                    ControlOperator::Eq => {
                        let line = match self.visit_comment_line(
                            " * Must be equal to `",
                            &op.type2,
                            "`.\n",
                            in_comment,
                        ) {
                            Ok(v) => v,
                            Err(e) => {
                                proof {
                                    assert(self.stderr@ =~= old(self).stderr@ + m.err);
                                }
                                return Err(e);
                            },
                        };
                        return Ok(line);
                    },
                    ControlOperator::Ne => {
                        let line = match self.visit_comment_line(
                            " * Must be not equal `",
                            &op.type2,
                            "`.\n",
                            in_comment,
                        ) {
                            Ok(v) => v,
                            Err(e) => {
                                proof {
                                    assert(self.stderr@ =~= old(self).stderr@ + m.err);
                                }
                                return Err(e);
                            },
                        };
                        return Ok(line);
                    },
                    _ => {},
                },
            },
        }
        proof {
            assert(s@ =~= m.text);
            assert(self.stderr@ =~= old(self).stderr@ + m.err);
        }
        Ok(s)
    }

    /// Renders a group in map position: its choices as a parenthesized
    /// union.
    pub fn visit_group(&mut self, g: &Group) -> (r: Result<String, EmitError>)
        ensures
            emits(*old(self), *final(self), r, group_emit(old(self).cfg(), *g)),
        decreases *g, 3int,
    {
        let ghost m = group_emit(self.cfg(), *g);
        let mut s = String::from_str("(");
        let inner = match self.visit_gchoices_rest(&g.group_choices, 0) {
            Ok(v) => v,
            Err(e) => {
                proof {
                    assert(self.stderr@ =~= old(self).stderr@ + m.err);
                }
                return Err(e);
            },
        };
        s.append(inner.as_str());
        s.append(")");
        proof {
            assert(s@ =~= m.text);
            assert(self.stderr@ =~= old(self).stderr@ + m.err);
        }
        Ok(s)
    }

    /// Renders the map-position choices from position `j` on.
    fn visit_gchoices_rest(&mut self, gcs: &Vec<GroupChoice>, j: usize) -> (r: Result<
        String,
        EmitError,
    >)
        ensures
            emits(*old(self), *final(self), r, gchoices_rest(old(self).cfg(), gcs@, j as int)),
        decreases gcs@, 2int, gcs@.len() - j,
    {
        let ghost m = gchoices_rest(self.cfg(), gcs@, j as int);
        if j >= gcs.len() {
            return Ok(String::new());
        }
        let mut s = String::new();
        if j > 0 {
            s.append("| ");
        }
        let c = match self.visit_group_choice(&gcs[j]) {
            Ok(v) => v,
            Err(e) => {
                proof {
                    assert(self.stderr@ =~= old(self).stderr@ + m.err);
                }
                return Err(e);
            },
        };
        s.append(c.as_str());
        let rest = match self.visit_gchoices_rest(gcs, j + 1) {
            Ok(v) => v,
            Err(e) => {
                proof {
                    assert(self.stderr@ =~= old(self).stderr@ + m.err);
                }
                return Err(e);
            },
        };
        s.append(rest.as_str());
        proof {
            assert(s@ =~= m.text);
            assert(self.stderr@ =~= old(self).stderr@ + m.err);
        }
        Ok(s)
    }

    /// Renders one map-position choice inside a fresh object frame.
    pub fn visit_group_choice(&mut self, gc: &GroupChoice) -> (r: Result<String, EmitError>)
        ensures
            emits(*old(self), *final(self), r, group_choice_emit(old(self).cfg(), *gc)),
        decreases *gc, 3int,
    {
        let ghost m = group_choice_emit(self.cfg(), *gc);
        if gc.group_entries.len() == 0 {
            return Ok(String::from_str("Record<string, never>\n"));
        }
        let mut ctx = GroupChoiceContext { in_object: false, is_first: true };
        let mut s = match self.visit_gentries_rest(&gc.group_entries, 0, &mut ctx) {
            Ok(v) => v,
            Err(e) => {
                proof {
                    assert(self.stderr@ =~= old(self).stderr@ + m.err);
                }
                return Err(e);
            },
        };
        let t = self.exit_map(&mut ctx);
        s.append(t.as_str());
        proof {
            assert(s@ =~= m.text);
            assert(self.stderr@ =~= old(self).stderr@ + m.err);
        }
        Ok(s)
    }

    /// Renders the map entries from position `j` on, threading the frame.
    fn visit_gentries_rest(
        &mut self,
        es: &Vec<GroupEntry>,
        j: usize,
        ctx: &mut GroupChoiceContext,
    ) -> (r: Result<String, EmitError>)
        ensures
            ({
                let (m, c2) = gentries_rest(old(self).cfg(), es@, j as int, *old(ctx));
                &&& emits(*old(self), *final(self), r, m)
                &&& (m.fail is None ==> *final(ctx) == c2)
            }),
        decreases es@, 2int, es@.len() - j,
    {
        let ghost m = gentries_rest(old(self).cfg(), es@, j as int, *ctx).0;
        if j >= es.len() {
            return Ok(String::new());
        }
        ctx.is_first = j == 0;
        let mut s = match self.visit_group_entry(&es[j], ctx) {
            Ok(v) => v,
            Err(e) => {
                proof {
                    assert(self.stderr@ =~= old(self).stderr@ + m.err);
                }
                return Err(e);
            },
        };
        let rest = match self.visit_gentries_rest(es, j + 1, ctx) {
            Ok(v) => v,
            Err(e) => {
                proof {
                    assert(self.stderr@ =~= old(self).stderr@ + m.err);
                }
                return Err(e);
            },
        };
        s.append(rest.as_str());
        proof {
            assert(s@ =~= m.text);
            assert(self.stderr@ =~= old(self).stderr@ + m.err);
        }
        Ok(s)
    }

    /// Renders one map entry.
    pub fn visit_group_entry(
        &mut self,
        entry: &GroupEntry,
        ctx: &mut GroupChoiceContext,
    ) -> (r: Result<String, EmitError>)
        ensures
            ({
                let (m, c2) = group_entry_emit(old(self).cfg(), *entry, *old(ctx));
                &&& emits(*old(self), *final(self), r, m)
                &&& *final(ctx) == c2
            }),
        decreases *entry, 4int,
    {
        let ghost m = group_entry_emit(old(self).cfg(), *entry, *ctx).0;
        match entry {
            GroupEntry::ValueMemberKey { ge } => self.visit_value_member_key_entry(ge, ctx),
            GroupEntry::TypeGroupname { ge } => {
                let mut s = self.exit_map(ctx);
                let jn = self.print_group_joiner(ctx);
                s.append(jn.as_str());
                let bounds = calculate_occurrence(&ge.occur);
                let registered = self.is_registered(ge.name.ident.as_str());
                if registered && bounds.0 == 0 && bounds.1 > 0 {
                    s.append("({} |");
                    let inner = match self.visit_type_groupname_entry(ge) {
                        Ok(v) => v,
                        Err(e) => {
                            proof {
                                assert(self.stderr@ =~= old(self).stderr@ + m.err);
                            }
                            return Err(e);
                        },
                    };
                    s.append(inner.as_str());
                    s.append(")");
                } else {
                    let inner = match self.visit_type_groupname_entry(ge) {
                        Ok(v) => v,
                        Err(e) => {
                            proof {
                                assert(self.stderr@ =~= old(self).stderr@ + m.err);
                            }
                            return Err(e);
                        },
                    };
                    s.append(inner.as_str());
                }
                proof {
                    assert(s@ =~= m.text);
                    assert(self.stderr@ =~= old(self).stderr@ + m.err);
                }
                Ok(s)
            },
            GroupEntry::InlineGroup { occur, group } => {
                let mut s = self.exit_map(ctx);
                let jn = self.print_group_joiner(ctx);
                s.append(jn.as_str());
                let bounds = calculate_occurrence(occur);
                if bounds.0 == 0 && bounds.1 > 0 {
                    s.append("({} |");
                    let inner = match self.visit_group(group) {
                        Ok(v) => v,
                        Err(e) => {
                            proof {
                                assert(self.stderr@ =~= old(self).stderr@ + m.err);
                            }
                            return Err(e);
                        },
                    };
                    s.append(inner.as_str());
                    s.append(")");
                } else {
                    let inner = match self.visit_group(group) {
                        Ok(v) => v,
                        Err(e) => {
                            proof {
                                assert(self.stderr@ =~= old(self).stderr@ + m.err);
                            }
                            return Err(e);
                        },
                    };
                    s.append(inner.as_str());
                }
                proof {
                    assert(s@ =~= m.text);
                    assert(self.stderr@ =~= old(self).stderr@ + m.err);
                }
                Ok(s)
            },
        }
    }

    /// Renders a keyed map entry; one with no key becomes a keyless
    /// composition, with a diagnostic.
    #[verifier::rlimit(100)]
    pub fn visit_value_member_key_entry(
        &mut self,
        ge: &ValueMemberKeyEntry,
        ctx: &mut GroupChoiceContext,
    ) -> (r: Result<String, EmitError>)
        ensures
            ({
                let (m, c2) = value_member_key_entry_emit(old(self).cfg(), *ge, *old(ctx));
                &&& emits(*old(self), *final(self), r, m)
                &&& *final(ctx) == c2
            }),
        decreases *ge, 3int,
    {
        let ghost m = value_member_key_entry_emit(old(self).cfg(), *ge, *ctx).0;
        match &ge.member_key {
            None => {
                self.stderr.append(
                    "Expected a member key in map context; treating the entry as a keyless value\n",
                );
                let mut s = self.exit_map(ctx);
                let jn = self.print_group_joiner(ctx);
                s.append(jn.as_str());
                let inner = match self.visit_type(&ge.entry_type) {
                    Ok(v) => v,
                    Err(e) => {
                        proof {
                            assert(self.stderr@ =~= old(self).stderr@ + m.err);
                        }
                        return Err(e);
                    },
                };
                s.append(inner.as_str());
                proof {
                    assert(s@ =~= m.text);
                    assert(self.stderr@ =~= old(self).stderr@ + m.err);
                }
                Ok(s)
            },
            Some(mk) => {
                let mut s = self.print_group_joiner(ctx);
                let t = self.enter_map(ctx);
                s.append(t.as_str());
                let cm = match self.visit_type_for_comment(&ge.entry_type) {
                    Ok(v) => v,
                    Err(e) => {
                        proof {
                            assert(self.stderr@ =~= old(self).stderr@ + m.err);
                        }
                        return Err(e);
                    },
                };
                s.append(cm.as_str());
                let km = match self.visit_memberkey(mk) {
                    Ok(v) => v,
                    Err(e) => {
                        proof {
                            assert(self.stderr@ =~= old(self).stderr@ + m.err);
                        }
                        return Err(e);
                    },
                };
                s.append(km.as_str());
                let bounds = calculate_occurrence(&ge.occur);
                let cuttable = match mk {
                    MemberKey::Type1 { t1: _, is_cut } => *is_cut,
                    _ => true,
                };
                if bounds.0 == 0 && bounds.1 > 0 && cuttable {
                    s.append("?:");
                } else {
                    s.append(":");
                }
                let inner = match self.visit_type(&ge.entry_type) {
                    Ok(v) => v,
                    Err(e) => {
                        proof {
                            assert(self.stderr@ =~= old(self).stderr@ + m.err);
                        }
                        return Err(e);
                    },
                };
                s.append(inner.as_str());
                proof {
                    assert(self.stderr@ =~= old(self).stderr@ + m.err);
                }
                Ok(s)
            },
        }
    }

    /// Renders a named reference entry's own text: the name with its
    /// arguments.
    pub fn visit_type_groupname_entry(&mut self, ge: &TypeGroupnameEntry) -> (r: Result<
        String,
        EmitError,
    >)
        ensures
            emits(
                *old(self),
                *final(self),
                r,
                args_emit(old(self).cfg(), ge.name.ident@, ge.generic_args),
            ),
        decreases *ge, 4int,
    {
        self.visit_identifier_with_args(&ge.name, &ge.generic_args)
    }

    /// Renders a member key.
    pub fn visit_memberkey(&mut self, mk: &MemberKey) -> (r: Result<String, EmitError>)
        ensures
            emits(*old(self), *final(self), r, memberkey_emit(old(self).cfg(), *mk)),
        decreases *mk, 3int,
    {
        let ghost m = memberkey_emit(self.cfg(), *mk);
        match mk {
            MemberKey::Type1 { t1, is_cut } => {
                let mut s = if !*is_cut {
                    String::from_str("[key: ")
                } else {
                    String::from_str("[")
                };
                let inner = match self.visit_type1(t1) {
                    Ok(v) => v,
                    Err(e) => {
                        proof {
                            assert(self.stderr@ =~= old(self).stderr@ + m.err);
                        }
                        return Err(e);
                    },
                };
                s.append(inner.as_str());
                s.append("]");
                proof {
                    assert(s@ =~= m.text);
                }
                Ok(s)
            },
            MemberKey::Bareword { ident } => {
                let mut s = String::from_str("\"");
                s.append(ident.ident.as_str());
                s.append("\"");
                proof {
                    assert(s@ =~= m.text);
                }
                Ok(s)
            },
            MemberKey::Value { value } => {
                let mut s = String::from_str("[");
                let v = self.visit_value(value, false);
                s.append(v.as_str());
                s.append("]");
                proof {
                    assert(s@ =~= m.text);
                }
                Ok(s)
            },
            MemberKey::NonMemberKey => Err(EmitError::UnsupportedMemberKey),
        }
    }

    /// Renders the members of a native enumeration.
    pub fn visit_enum_type(&self, t: &Type) -> (r: String)
        requires
            enum_eligible(*t),
        ensures
            r@ == enum_members_upto(t.type_choices@, t.type_choices@.len() as int),
    {
        let mut s = String::new();
        let mut i: usize = 0;
        while i < t.type_choices.len()
            invariant
                i <= t.type_choices@.len(),
                s@ == enum_members_upto(t.type_choices@, i as int),
            decreases t.type_choices@.len() - i,
        {
            match &t.type_choices[i].type2 {
                Type2::TextValue { value } => {
                    let p = to_pascalcase(value.as_str());
                    s.append(p.as_str());
                    s.append(" = \"");
                    s.append(value.as_str());
                    s.append("\",\n");
                },
                _ => {},
            }
            proof {
                assert(s@ =~= enum_members_upto(t.type_choices@, i + 1));
            }
            i = i + 1;
        }
        s
    }

    /// Decides whether the enumeration heuristic applies to `t`.
    pub fn is_enum_eligible(&self, t: &Type) -> (r: bool)
        ensures
            r == enum_eligible(*t),
    {
        let mut i: usize = 0;
        while i < t.type_choices.len()
            invariant
                i <= t.type_choices@.len(),
                forall|k: int| 0 <= k < i ==> choice_is_enum_text(#[trigger] t.type_choices@[k]),
            decreases t.type_choices@.len() - i,
        {
            match &t.type_choices[i].type2 {
                Type2::TextValue { value } => {
                    if !is_alphaspace(value.as_str()) {
                        proof {
                            assert(!choice_is_enum_text(t.type_choices@[i as int]));
                        }
                        return false;
                    }
                },
                _ => {
                    proof {
                        assert(!choice_is_enum_text(t.type_choices@[i as int]));
                    }
                    return false;
                },
            }
            i = i + 1;
        }
        true
    }
}

impl Engine {
    /// Renders the namespace openers for the leading dotted segments.
    fn open_namespaces(&self, namespaces: &Vec<String>) -> (r: String)
        ensures
            r@ == ns_open_upto(
                namespaces@.map_values(|x: String| x@),
                namespaces@.len() as int,
            ),
    {
        let ghost nss = namespaces@.map_values(|x: String| x@);
        let mut s = String::new();
        let mut i: usize = 0;
        proof {
            assert(Seq::<char>::empty() =~= ns_open_upto(nss, 0));
        }
        while i < namespaces.len()
            invariant
                i <= namespaces@.len(),
                nss == namespaces@.map_values(|x: String| x@),
                s@ == ns_open_upto(nss, i as int),
            decreases namespaces@.len() - i,
        {
            s.append("export namespace ");
            s.append(namespaces[i].as_str());
            s.append(" {\n");
            proof {
                assert(s@ =~= ns_open_upto(nss, i + 1));
            }
            i = i + 1;
        }
        s
    }

    /// Renders an eligible type rule as a native enumeration declaration.
    fn render_enum_rule(&self, rule_name: &String, t: &Type) -> (r: String)
        requires
            enum_eligible(*t),
        ensures
            r@ == enum_rule_text(rule_name@, *t),
    {
        let mut s = String::from_str("export const enum ");
        s.append(rule_name.as_str());
        s.append(" {");
        let en = self.visit_enum_type(t);
        s.append(en.as_str());
        s.append("}\n");
        proof {
            reveal(enum_rule_text);
            assert(s@ =~= enum_rule_text(rule_name@, *t));
        }
        s
    }

    /// Renders a type rule's commented alias declaration.
    #[verifier::rlimit(100)]
    fn render_alias_rule(
        &mut self,
        rule_name: String,
        params: &Option<GenericParams>,
        t: &Type,
    ) -> (r: Result<String, EmitError>)
        ensures
            emits(
                *old(self),
                *final(self),
                r,
                alias_rule_emit(old(self).cfg(), rule_name@, *params, *t),
            ),
        decreases *t, 6int,
    {
        let ghost m = alias_rule_emit(old(self).cfg(), rule_name@, *params, *t);
        let mut s = match self.visit_type_for_comment(t) {
            Ok(v) => v,
            Err(e) => {
                proof {
                    reveal(alias_rule_emit);
                    assert(m.fail == Some(e));
                    assert(self.stderr@ =~= old(self).stderr@ + m.err);
                    assert(self.print_flatten == (old(self).print_flatten || m.flatten));
                }
                return Err(e);
            },
        };
        s.append("export type ");
        let ident = Identifier { ident: rule_name };
        let ps = self.visit_identifier_with_params(&ident, params);
        s.append(ps.as_str());
        s.append(" = ");
        let ty = match self.visit_type(t) {
            Ok(v) => v,
            Err(e) => {
                proof {
                    reveal(alias_rule_emit);
                    assert(m.fail == Some(e));
                    assert(self.stderr@ =~= old(self).stderr@ + m.err);
                    assert(self.print_flatten == (old(self).print_flatten || m.flatten));
                }
                return Err(e);
            },
        };
        s.append(ty.as_str());
        s.append(";\n");
        proof {
            reveal(alias_rule_emit);
            assert(m.fail is None);
            assert(s@ =~= m.text);
            assert(self.stderr@ =~= old(self).stderr@ + m.err);
            assert(self.print_flatten == (old(self).print_flatten || m.flatten));
        }
        Ok(s)
    }

    /// Renders a type rule: namespace wrappers around a native enumeration
    /// (when the heuristic applies) or a commented type alias.
    #[verifier::rlimit(100)]
    pub fn visit_type_rule(&mut self, tr: &TypeRule) -> (r: Result<String, EmitError>)
        ensures
            emits(*old(self), *final(self), r, type_rule_emit(old(self).cfg(), *tr)),
        decreases *tr, 3int,
    {
        let ghost m = type_rule_emit(old(self).cfg(), *tr);
        let ghost nss = pascal_segments(tr.name.ident@).drop_last();
        let (namespaces, rule_name) = split_namespaced(tr.name.ident.as_str());
        let mut s = self.open_namespaces(&namespaces);
        if self.is_enum_eligible(&tr.value) {
            let decl = self.render_enum_rule(&rule_name, &tr.value);
            s.append(decl.as_str());
            append_rep(&mut s, "}\n", namespaces.len());
            proof {
                reveal(type_rule_emit);
                assert(m.fail is None);
                assert(s@ =~= m.text);
                assert(self.stderr@ =~= old(self).stderr@ + m.err);
                assert(self.print_flatten == (old(self).print_flatten || m.flatten));
            }
            Ok(s)
        } else {
            let decl = match self.render_alias_rule(rule_name, &tr.generic_params, &tr.value) {
                Ok(v) => v,
                Err(e) => {
                    proof {
                        reveal(type_rule_emit);
                        assert(m.fail == Some(e));
                        assert(self.stderr@ =~= old(self).stderr@ + m.err);
                        assert(self.print_flatten == (old(self).print_flatten || m.flatten));
                    }
                    return Err(e);
                },
            };
            s.append(decl.as_str());
            append_rep(&mut s, "}\n", namespaces.len());
            proof {
                reveal(type_rule_emit);
                assert(m.fail is None);
                assert(s@ =~= m.text);
                assert(self.stderr@ =~= old(self).stderr@ + m.err);
                assert(self.print_flatten == (old(self).print_flatten || m.flatten));
            }
            Ok(s)
        }
    }

    /// Renders a group rule: its record-shaped declaration, and under dual
    /// emission a sibling sequence-shaped declaration.
    #[verifier::rlimit(100)]
    pub fn visit_group_rule(&mut self, gr: &GroupRule) -> (r: Result<String, EmitError>)
        ensures
            emits(*old(self), *final(self), r, group_rule_emit(old(self).cfg(), *gr)),
        decreases *gr, 3int,
    {
        let ghost m = group_rule_emit(old(self).cfg(), *gr);
        let ghost nss = pascal_segments(gr.name.ident@).drop_last();
        let (namespaces, rule_name) = split_namespaced(gr.name.ident.as_str());
        let mut s = self.open_namespaces(&namespaces);
        s.append("export type ");
        let ident = Identifier { ident: rule_name };
        let ps = self.visit_identifier_with_params(&ident, &gr.generic_params);
        s.append(ps.as_str());
        s.append(" = ");
        let mut ctx = GroupChoiceContext { in_object: false, is_first: true };
        let body = match self.visit_group_entry(&gr.entry, &mut ctx) {
            Ok(v) => v,
            Err(e) => {
                proof {
                    reveal(group_rule_emit);
                    assert(m.fail == Some(e));
                    assert(self.stderr@ =~= old(self).stderr@ + m.err);
                    assert(self.print_flatten == (old(self).print_flatten || m.flatten));
                }
                return Err(e);
            },
        };
        s.append(body.as_str());
        let ex = self.exit_map(&mut ctx);
        s.append(ex.as_str());
        s.append(";\n");
        if matches!(self.policy, GroupPolicy::DualEmission) {
            s.append("export type ");
            let ps2 = self.visit_identifier_with_params(&ident, &gr.generic_params);
            s.append(ps2.as_str());
            s.append("Vector");
            s.append(" = ");
            let mut ctx2 = GroupChoiceContext { in_object: false, is_first: true };
            let b2 = match self.visit_array_entry(&gr.entry, &mut ctx2) {
                Ok(v) => v,
                Err(e) => {
                    proof {
                        reveal(group_rule_emit);
                        assert(m.fail == Some(e));
                        assert(self.stderr@ =~= old(self).stderr@ + m.err);
                        assert(self.print_flatten == (old(self).print_flatten || m.flatten));
                    }
                    return Err(e);
                },
            };
            s.append(b2.as_str());
            let ex2 = self.exit_array(&mut ctx2);
            s.append(ex2.as_str());
            s.append(";\n");
        }
        append_rep(&mut s, "}\n", namespaces.len());
        proof {
            reveal(group_rule_emit);
            assert(m.fail is None);
            assert(s@ =~= m.text);
            assert(self.stderr@ =~= old(self).stderr@ + m.err);
            assert(self.print_flatten == (old(self).print_flatten || m.flatten));
        }
        Ok(s)
    }

    /// Renders a whole document: fills the group-name registry in a first
    /// pass, then emits every rule in document order.  A rule whose emission
    /// fails contributes no output, only its diagnostics and a skip notice;
    /// the first such error is returned once every rule has been visited.
    #[verifier::rlimit(100)]
    pub fn visit_cddl(&mut self, cddl: &Cddl) -> (r: Result<(), EmitError>)
        ensures
            ({
                let groups = crate::ast::group_names(cddl.rules@);
                let cfg = (Cfg { groups, policy: old(self).policy });
                let m = rules_rest(cfg, cddl.rules@, 0);
                &&& final(self).groups@.map_values(|s: String| s@) == groups
                &&& final(self).policy == old(self).policy
                &&& final(self).stdout@ == old(self).stdout@ + m.text
                &&& final(self).stderr@ == old(self).stderr@ + m.err
                &&& final(self).print_flatten == (old(self).print_flatten || m.flatten)
                &&& match m.fail {
                    None => r is Ok,
                    Some(e) => r == Err::<(), EmitError>(e),
                }
            }),
    {
        self.groups = crate::ast::collect_group_names(cddl);
        let ghost cfg = self.cfg();
        let ghost full = rules_rest(cfg, cddl.rules@, 0);
        let mut first_err: Option<EmitError> = None;
        let mut i: usize = 0;
        while i < cddl.rules.len()
            invariant
                i <= cddl.rules@.len(),
                self.cfg() == cfg,
                cfg == (Cfg {
                    groups: crate::ast::group_names(cddl.rules@),
                    policy: old(self).policy,
                }),
                self.groups@.map_values(|s: String| s@) == crate::ast::group_names(cddl.rules@),
                self.policy == old(self).policy,
                full == rules_rest(cfg, cddl.rules@, 0),
                old(self).stdout@ + full.text == self.stdout@ + rules_rest(
                    cfg,
                    cddl.rules@,
                    i as int,
                ).text,
                old(self).stderr@ + full.err == self.stderr@ + rules_rest(
                    cfg,
                    cddl.rules@,
                    i as int,
                ).err,
                (old(self).print_flatten || full.flatten) == (self.print_flatten || rules_rest(
                    cfg,
                    cddl.rules@,
                    i as int,
                ).flatten),
                match first_err {
                    Some(e) => full.fail == Some(e),
                    None => full.fail == rules_rest(cfg, cddl.rules@, i as int).fail,
                },
            decreases cddl.rules@.len() - i,
        {
            let res = match &cddl.rules[i] {
                Rule::Type { rule } => self.visit_type_rule(rule),
                Rule::Group { rule } => self.visit_group_rule(rule),
            };
            match res {
                Ok(text) => {
                    self.stdout.append(text.as_str());
                },
                Err(e) => {
                    self.stderr.append("Skipping rule that could not be emitted: ");
                    match &cddl.rules[i] {
                        Rule::Type { rule } => self.stderr.append(rule.name.ident.as_str()),
                        Rule::Group { rule } => self.stderr.append(rule.name.ident.as_str()),
                    }
                    self.stderr.append("\n");
                    if first_err.is_none() {
                        first_err = Some(e);
                    }
                },
            }
            proof {
                assert(old(self).stdout@ + full.text =~= self.stdout@ + rules_rest(
                    cfg,
                    cddl.rules@,
                    i + 1,
                ).text);
                assert(old(self).stderr@ + full.err =~= self.stderr@ + rules_rest(
                    cfg,
                    cddl.rules@,
                    i + 1,
                ).err);
            }
            i = i + 1;
        }
        proof {
            assert(self.stdout@ =~= old(self).stdout@ + full.text);
            assert(self.stderr@ =~= old(self).stderr@ + full.err);
        }
        match first_err {
            None => Ok(()),
            Some(e) => Err(e),
        }
    }

    /// Emits the flattening helper, exactly when dual emission requested it.
    pub fn print_postamble(&mut self)
        ensures
            final(self).stdout@ == old(self).stdout@ + postamble_text(
                old(self).policy,
                old(self).print_flatten,
            ),
            final(self).stderr == old(self).stderr,
            final(self).groups == old(self).groups,
            final(self).policy == old(self).policy,
            final(self).print_flatten == old(self).print_flatten,
    {
        if matches!(self.policy, GroupPolicy::DualEmission) && self.print_flatten {
            self.stdout.append(
                "export type Flatten<T extends unknown[]> = T extends (infer S)[][] ? S[] : never;",
            );
        } else {
            proof {
                assert(old(self).stdout@ + postamble_text(
                    old(self).policy,
                    old(self).print_flatten,
                ) =~= old(self).stdout@);
            }
        }
    }
}

/// A choice type with a non-textual alternative never renders as a native
/// enumeration.
pub proof fn lemma_non_textual_never_enum(t: Type, i: int)
    requires
        0 <= i < t.type_choices@.len(),
        !(t.type_choices@[i].type2 is TextValue),
    ensures
        !enum_eligible(t),
{
    assert(!choice_is_enum_text(t.type_choices@[i]));
}

/// Referencing a name from an array position renders differently depending
/// on whether the name is a registered group: a registered group is spread
/// into the tuple, an unregistered name stands as a plain element type, and
/// for a plain single-occurrence reference without arguments the two
/// renderings are never the same text.
pub proof fn lemma_group_vs_type_reference(registered: Cfg, plain: Cfg, ge: TypeGroupnameEntry)
    requires
        ge.occur is None,
        ge.generic_args is None,
        is_group_name(registered, ge.name.ident@),
        !is_group_name(plain, ge.name.ident@),
        registered.policy == GroupPolicy::Projection,
        plain.policy == GroupPolicy::Projection,
    ensures
        type_arrayname_emit(registered, ge).text == "..."@ + args_emit(
            registered,
            ge.name.ident@,
            None,
        ).text,
        type_arrayname_emit(plain, ge).text == args_emit(plain, ge.name.ident@, None).text,
        type_arrayname_emit(registered, ge).text != type_arrayname_emit(plain, ge).text,
{
    let b = occurrence_bounds(ge.occur);
    assert(b == (1usize, 1usize));
    assert(spec_expansion_plan(1, 1) == Ok::<Expansion, EmitError>(Expansion::Exact { count: 1 }));
    let ae1 = args_emit(registered, ge.name.ident@, None);
    let ae2 = args_emit(plain, ge.name.ident@, None);
    assert(ae1.text =~= ident_text(ge.name.ident@));
    assert(ae2.text =~= ident_text(ge.name.ident@));
    assert(join_rep("..."@ + ae1.text, ","@, 1) == "..."@ + ae1.text);
    assert(join_rep(ae2.text, ","@, 1) == ae2.text);
    assert(type_arrayname_emit(registered, ge).text == "..."@ + ae1.text);
    assert(type_arrayname_emit(plain, ge).text == ae2.text);
    reveal_strlit("...");
    assert(("..."@ + ae1.text).len() == ae2.text.len() + 3);
}

/// Referencing a name from a map position renders differently depending on
/// whether the name is a registered group, whenever the occurrence is
/// optional: the registered group's composition is wrapped to admit the
/// empty object, the plain type reference is not.
pub proof fn lemma_group_vs_type_reference_in_map(
    registered: Cfg,
    plain: Cfg,
    ge: TypeGroupnameEntry,
    c: GroupChoiceContext,
)
    requires
        ge.generic_args is None,
        occurrence_bounds(ge.occur).0 == 0,
        occurrence_bounds(ge.occur).1 > 0,
        is_group_name(registered, ge.name.ident@),
        !is_group_name(plain, ge.name.ident@),
    ensures
        group_entry_emit(registered, GroupEntry::TypeGroupname { ge }, c).0.text
            != group_entry_emit(plain, GroupEntry::TypeGroupname { ge }, c).0.text,
{
    let inner_r = args_emit(registered, ge.name.ident@, None);
    let inner_p = args_emit(plain, ge.name.ident@, None);
    assert(inner_r.text =~= ident_text(ge.name.ident@));
    assert(inner_p.text =~= ident_text(ge.name.ident@));
    reveal_strlit("({} |");
    reveal_strlit(")");
    let a = group_entry_emit(registered, GroupEntry::TypeGroupname { ge }, c).0.text;
    let b = group_entry_emit(plain, GroupEntry::TypeGroupname { ge }, c).0.text;
    assert(a.len() == b.len() + 6);
}

} // verus!
