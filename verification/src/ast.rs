//! The grammar's abstract syntax tree, owned as plain data.
//!
//! The tree mirrors the shape of a parsed CDDL document: a sequence of type
//! and group rules, where a type is a choice of alternatives, each alternative
//! a leaf shape with an optional range or control operator, and a group a
//! choice of entry lists.  Scalar literals are carried as plain integers or as
//! their source text, so the renderers never depend on anything but the
//! characters and numbers of the document itself.

use vstd::prelude::*;

verus! {

/// A whole grammar document: its rules, in document order.
pub struct Cddl {
    pub rules: Vec<Rule>,
}

/// One top-level rule.
pub enum Rule {
    /// A named type alias.
    Type { rule: TypeRule },
    /// A named reusable field-group.
    Group { rule: GroupRule },
}

/// A named type alias, e.g. `status = "ok" / "error"`.
pub struct TypeRule {
    /// Possibly dotted (namespaced) rule name.
    pub name: Identifier,
    pub generic_params: Option<GenericParams>,
    pub value: Type,
}

/// A named reusable field-group, e.g. `point = ( x: int, y: int )`.
pub struct GroupRule {
    /// Possibly dotted (namespaced) rule name.
    pub name: Identifier,
    pub generic_params: Option<GenericParams>,
    pub entry: GroupEntry,
}

/// Generic parameter names of a rule definition.
pub struct GenericParams {
    pub params: Vec<Identifier>,
}

/// Generic arguments of a reference to a rule.
pub struct GenericArgs {
    pub args: Vec<Type1>,
}

/// A type: an ordered choice of alternatives.
pub struct Type {
    pub type_choices: Vec<Type1>,
}

/// One alternative: a leaf shape plus an optional range or control operator.
pub struct Type1 {
    pub type2: Type2,
    pub operator: Option<Operator>,
}

/// A range or control operator together with its right-hand operand.
pub struct Operator {
    pub operator: RangeCtlOp,
    pub type2: Type2,
}

/// The operator of a `Type1`: a range (`a..b`) or a control (`.size`, ...).
pub enum RangeCtlOp {
    RangeOp { is_inclusive: bool },
    CtlOp { ctrl: ControlOperator },
}

/// The control operators the renderers understand; anything else is `Other`.
pub enum ControlOperator {
    Default,
    Size,
    Pcre,
    Regexp,
    Lt,
    Le,
    Gt,
    Ge,
    Eq,
    Ne,
    Within,
    And,
    Other,
}

/// A leaf shape.
pub enum Type2 {
    /// A reference to a named rule or primitive.
    Typename { ident: Identifier, generic_args: Option<GenericArgs> },
    /// A parenthesized type.
    ParenthesizedType { pt: Type },
    /// A map built from a group: `{ ... }`.
    MapGroup { group: Group },
    /// An array built from a group: `[ ... ]`.
    ArrayGroup { group: Group },
    /// The wildcard type `#`.
    Any,
    /// A text literal.
    TextValue { value: String },
    /// A negative integer literal.
    IntValue { value: i64 },
    /// An unsigned integer literal.
    UintValue { value: u64 },
    /// A floating-point literal, carried as its source text.
    FloatValue { text: String },
    /// A byte-string literal, carried as its source text.
    ByteValue { text: String },
    /// Tagged data `#6.n(type)`; only the inner type is rendered.
    TaggedData { t: Type },
}

/// A group: an ordered choice of entry lists.
pub struct Group {
    pub group_choices: Vec<GroupChoice>,
}

/// One group alternative: its entries, in order.
pub struct GroupChoice {
    pub group_entries: Vec<GroupEntry>,
}

/// One field or element within a group.
pub enum GroupEntry {
    /// A (possibly keyed) value entry.
    ValueMemberKey { ge: ValueMemberKeyEntry },
    /// A reference to a named rule: a group composition or a plain type,
    /// depending on whether the name is a registered group.
    TypeGroupname { ge: TypeGroupnameEntry },
    /// An inline parenthesized subgroup.
    InlineGroup { occur: Option<Occurrence>, group: Group },
}

/// A value entry: optional cardinality, optional member key, and the type.
pub struct ValueMemberKeyEntry {
    pub occur: Option<Occurrence>,
    pub member_key: Option<MemberKey>,
    pub entry_type: Type,
}

/// A reference entry: optional cardinality, the referenced name and arguments.
pub struct TypeGroupnameEntry {
    pub occur: Option<Occurrence>,
    pub name: Identifier,
    pub generic_args: Option<GenericArgs>,
}

/// The key of a map entry.
pub enum MemberKey {
    /// A computed key: `t1 => v` (non-cut) or `t1: v` (cut).
    Type1 { t1: Type1, is_cut: bool },
    /// A literal word key: `word: v`.
    Bareword { ident: Identifier },
    /// A literal value key: `1: v` or `"k": v`.
    Value { value: Value },
    /// A key form with no representable rendering.
    NonMemberKey,
}

/// A cardinality specifier attached to a group entry.
pub struct Occurrence {
    pub occur: Occur,
}

/// The cardinality itself.
pub enum Occur {
    /// `*`: zero or more.
    ZeroOrMore,
    /// `n*m`: explicit bounds, either side optional.
    Exact { lower: Option<usize>, upper: Option<usize> },
    /// `+`: one or more.
    OneOrMore,
    /// `?`: zero or one.
    Optional,
}

/// An identifier, possibly dotted.
pub struct Identifier {
    pub ident: String,
}

/// A scalar literal value.
pub enum Value {
    Int(i64),
    Uint(u64),
    /// Carried as source text so the renderers stay within plain data.
    Float(String),
    Text(String),
    Byte(String),
}

/// The names of the group rules among the first `k` rules, in order.
pub open spec fn group_names_upto(rules: Seq<Rule>, k: int) -> Seq<Seq<char>>
    decreases k,
{
    if k <= 0 || rules.len() < k {
        Seq::empty()
    } else {
        group_names_upto(rules, k - 1) + match rules[k - 1] {
            Rule::Group { rule } => seq![rule.name.ident@],
            _ => Seq::<Seq<char>>::empty(),
        }
    }
}

/// The names of all group rules, in document order.
pub open spec fn group_names(rules: Seq<Rule>) -> Seq<Seq<char>> {
    group_names_upto(rules, rules.len() as int)
}

/// Collects every group rule's name: the first pass that fills the
/// group-name registry before any rendering resolves a reference.
pub fn collect_group_names(c: &Cddl) -> (r: Vec<String>)
    ensures
        r@.map_values(|s: String| s@) == group_names(c.rules@),
{
    let mut out: Vec<String> = Vec::new();
    let mut i: usize = 0;
    while i < c.rules.len()
        invariant
            i <= c.rules@.len(),
            out@.map_values(|s: String| s@) == group_names_upto(c.rules@, i as int),
        decreases c.rules@.len() - i,
    {
        match &c.rules[i] {
            Rule::Group { rule } => {
                out.push(rule.name.ident.clone());
            },
            _ => {},
        }
        proof {
            assert(out@.map_values(|s: String| s@) =~= group_names_upto(c.rules@, i + 1));
        }
        i = i + 1;
    }
    out
}

} // verus!
