//! The intermediate representation: a closed type algebra, expressions,
//! attribute-bearing nodes, and one struct per declaration kind. Every
//! type has a mathematical view that contracts are stated over.

use vstd::prelude::*;

use indexmap::IndexMap;

use crate::ast::TypeValue;
use crate::db::RetryPolicyStrategy;
use crate::imap::{
    expr_map_entries, expr_map_get, expr_map_get_index, expr_map_len, expr_map_new,
    has_entry_key, override_map_entries, override_map_get_index, override_map_len,
    override_map_new, str_map_entries, str_map_get_index, str_map_len,
};

verus! {

/// Why a build failed; every error aborts the whole build.
#[derive(Clone, Copy, Debug, PartialEq, Eq, Structural)]
pub enum LowerError {
    /// A type position references a local name that resolves to neither
    /// class nor enum.
    UnresolvedIdentifier,
    /// A type position uses an identifier kind that can never denote a
    /// type.
    UnsupportedIdentifierInTypePosition,
    /// A function declares a named argument list as its output.
    NamedReturnTypeNotAllowed,
    /// An invalid surface identifier stands where an expression is
    /// expected.
    InvalidIdentifierLowering,
}

impl LowerError {
    /// The message surfaced verbatim to the caller.
    pub open spec fn spec_message(&self) -> Seq<char> {
        match self {
            LowerError::UnresolvedIdentifier => "Field type uses unresolvable local identifier"@,
            LowerError::UnsupportedIdentifierInTypePosition => "Field type uses unsupported identifier type"@,
            LowerError::NamedReturnTypeNotAllowed => "Functions may not return named args"@,
            LowerError::InvalidIdentifierLowering => "Cannot represent an invalid parser-AST identifier"@,
        }
    }

    pub fn message(&self) -> (r: String)
        ensures
            r@ == self.spec_message(),
    {
        match self {
            LowerError::UnresolvedIdentifier => String::from_str(
                "Field type uses unresolvable local identifier",
            ),
            LowerError::UnsupportedIdentifierInTypePosition => String::from_str(
                "Field type uses unsupported identifier type",
            ),
            LowerError::NamedReturnTypeNotAllowed => String::from_str(
                "Functions may not return named args",
            ),
            LowerError::InvalidIdentifierLowering => String::from_str(
                "Cannot represent an invalid parser-AST identifier",
            ),
        }
    }
}

/// A lowered identifier.
pub enum Identifier {
    /// An environment-variable reference.
    ENV(String),
    /// A dotted path reference.
    Ref(Vec<String>),
    /// A plain local name.
    Local(String),
    /// The name of a primitive type.
    Primitive(TypeValue),
    /// A name that contains a dash.
    String(String),
}

/// Mathematical counterpart of `Identifier`.
pub enum IdentifierV {
    ENV(Seq<char>),
    Ref(Seq<Seq<char>>),
    Local(Seq<char>),
    Primitive(TypeValue),
    String(Seq<char>),
}

impl View for Identifier {
    type V = IdentifierV;

    open spec fn view(&self) -> IdentifierV {
        match self {
            Identifier::ENV(s) => IdentifierV::ENV(s@),
            Identifier::Ref(path) => IdentifierV::Ref(path.deep_view()),
            Identifier::Local(s) => IdentifierV::Local(s@),
            Identifier::Primitive(t) => IdentifierV::Primitive(*t),
            Identifier::String(s) => IdentifierV::String(s@),
        }
    }
}

impl DeepView for Identifier {
    type V = IdentifierV;

    open spec fn deep_view(&self) -> IdentifierV {
        self.view()
    }
}

/// A lowered expression.
pub enum Expression {
    Identifier(Identifier),
    Numeric(String),
    String(String),
    RawString(String),
    List(Vec<Expression>),
    Dict(Vec<(Expression, Expression)>),
}

/// Mathematical counterpart of `Expression`.
pub enum ExpressionV {
    Identifier(IdentifierV),
    Numeric(Seq<char>),
    String(Seq<char>),
    RawString(Seq<char>),
    List(Seq<ExpressionV>),
    Dict(Seq<(ExpressionV, ExpressionV)>),
}

pub open spec fn expression_view(e: Expression) -> ExpressionV
    decreases e,
{
    match e {
        Expression::Identifier(idn) => ExpressionV::Identifier(idn@),
        Expression::Numeric(s) => ExpressionV::Numeric(s@),
        Expression::String(s) => ExpressionV::String(s@),
        Expression::RawString(s) => ExpressionV::RawString(s@),
        Expression::List(es) => ExpressionV::List(expression_views(es@)),
        Expression::Dict(kvs) => ExpressionV::Dict(expression_pair_views(kvs@)),
    }
}

pub open spec fn expression_views(es: Seq<Expression>) -> Seq<ExpressionV>
    decreases es,
{
    if es.len() == 0 {
        Seq::empty()
    } else {
        expression_views(es.subrange(0, es.len() - 1)).push(expression_view(es[es.len() - 1]))
    }
}

pub open spec fn expression_pair_views(kvs: Seq<(Expression, Expression)>) -> Seq<
    (ExpressionV, ExpressionV),
>
    decreases kvs,
{
    if kvs.len() == 0 {
        Seq::empty()
    } else {
        expression_pair_views(kvs.subrange(0, kvs.len() - 1)).push(
            (expression_view(kvs[kvs.len() - 1].0), expression_view(kvs[kvs.len() - 1].1)),
        )
    }
}

pub proof fn lemma_expression_views_index(es: Seq<Expression>)
    ensures
        expression_views(es).len() == es.len(),
        forall|i: int| 0 <= i < es.len() ==> expression_views(es)[i] == expression_view(es[i]),
    decreases es,
{
    if es.len() > 0 {
        lemma_expression_views_index(es.subrange(0, es.len() - 1));
    }
}

pub proof fn lemma_expression_pair_views_index(kvs: Seq<(Expression, Expression)>)
    ensures
        expression_pair_views(kvs).len() == kvs.len(),
        forall|i: int|
            0 <= i < kvs.len() ==> expression_pair_views(kvs)[i] == (
                expression_view(kvs[i].0),
                expression_view(kvs[i].1),
            ),
    decreases kvs,
{
    if kvs.len() > 0 {
        lemma_expression_pair_views_index(kvs.subrange(0, kvs.len() - 1));
    }
}

impl View for Expression {
    type V = ExpressionV;

    open spec fn view(&self) -> ExpressionV {
        expression_view(*self)
    }
}

impl DeepView for Expression {
    type V = ExpressionV;

    open spec fn deep_view(&self) -> ExpressionV {
        self.view()
    }
}

/// The closed algebra of lowered types for class fields and function args.
pub enum FieldType {
    Primitive(TypeValue),
    Enum(String),
    Class(String),
    List(Box<FieldType>),
    Dict(Box<FieldType>, Box<FieldType>),
    Union(Vec<FieldType>),
    Tuple(Vec<FieldType>),
    Optional(Box<FieldType>),
}

/// Mathematical counterpart of `FieldType`.
pub enum FieldTypeV {
    Primitive(TypeValue),
    Enum(Seq<char>),
    Class(Seq<char>),
    List(Box<FieldTypeV>),
    Dict(Box<FieldTypeV>, Box<FieldTypeV>),
    Union(Seq<FieldTypeV>),
    Tuple(Seq<FieldTypeV>),
    Optional(Box<FieldTypeV>),
}

pub open spec fn field_type_view(t: FieldType) -> FieldTypeV
    decreases t,
{
    match t {
        FieldType::Primitive(tv) => FieldTypeV::Primitive(tv),
        FieldType::Enum(s) => FieldTypeV::Enum(s@),
        FieldType::Class(s) => FieldTypeV::Class(s@),
        FieldType::List(inner) => FieldTypeV::List(Box::new(field_type_view(*inner))),
        FieldType::Dict(k, v) => FieldTypeV::Dict(
            Box::new(field_type_view(*k)),
            Box::new(field_type_view(*v)),
        ),
        FieldType::Union(ts) => FieldTypeV::Union(field_type_views(ts@)),
        FieldType::Tuple(ts) => FieldTypeV::Tuple(field_type_views(ts@)),
        FieldType::Optional(inner) => FieldTypeV::Optional(Box::new(field_type_view(*inner))),
    }
}

pub open spec fn field_type_views(ts: Seq<FieldType>) -> Seq<FieldTypeV>
    decreases ts,
{
    if ts.len() == 0 {
        Seq::empty()
    } else {
        field_type_views(ts.subrange(0, ts.len() - 1)).push(field_type_view(ts[ts.len() - 1]))
    }
}

pub proof fn lemma_field_type_views_index(ts: Seq<FieldType>)
    ensures
        field_type_views(ts).len() == ts.len(),
        forall|i: int| 0 <= i < ts.len() ==> field_type_views(ts)[i] == field_type_view(ts[i]),
    decreases ts,
{
    if ts.len() > 0 {
        lemma_field_type_views_index(ts.subrange(0, ts.len() - 1));
    }
}

impl View for FieldType {
    type V = FieldTypeV;

    open spec fn view(&self) -> FieldTypeV {
        field_type_view(*self)
    }
}

impl DeepView for FieldType {
    type V = FieldTypeV;

    open spec fn deep_view(&self) -> FieldTypeV {
        self.view()
    }
}

/// Entries of an attribute map, in insertion order.
pub type AttrEntriesV = Seq<(Seq<char>, ExpressionV)>;

/// Entries of an override table: (function name, implementation name)
/// keys with attribute-map values, in insertion order.
pub type OverrideEntriesV = Seq<((Seq<char>, Seq<char>), AttrEntriesV)>;

/// Attributes attached to one IR node: its own default attributes, and
/// per-(function, implementation) overrides. Both mappings preserve
/// insertion order; an implementation with no overrides contributes no
/// key.
pub struct NodeAttributes {
    pub meta: IndexMap<String, Expression>,
    pub overrides: IndexMap<(String, String), IndexMap<String, Expression>>,
}

/// Mathematical counterpart of `NodeAttributes`.
pub struct NodeAttributesV {
    pub meta: AttrEntriesV,
    pub overrides: OverrideEntriesV,
}

impl NodeAttributesV {
    pub open spec fn empty() -> NodeAttributesV {
        NodeAttributesV { meta: Seq::empty(), overrides: Seq::empty() }
    }
}

impl View for NodeAttributes {
    type V = NodeAttributesV;

    open spec fn view(&self) -> NodeAttributesV {
        NodeAttributesV {
            meta: expr_map_entries(self.meta),
            overrides: override_map_entries(self.overrides),
        }
    }
}

impl DeepView for NodeAttributes {
    type V = NodeAttributesV;

    open spec fn deep_view(&self) -> NodeAttributesV {
        self.view()
    }
}

impl Default for NodeAttributes {
    /// Attributes with no defaults and no overrides.
    fn default() -> (r: NodeAttributes)
        ensures
            r@ == NodeAttributesV::empty(),
    {
        NodeAttributes { meta: expr_map_new(), overrides: override_map_new() }
    }
}

impl NodeAttributes {
    /// The default attribute stored under `key`, if any.
    pub fn get(&self, key: &str) -> (r: Option<&Expression>)
        ensures
            match r {
                Some(v) => exists|i: int|
                    0 <= i < self@.meta.len() && self@.meta[i].0 == key@ && self@.meta[i].1 == v@,
                None => !has_entry_key(self@.meta, key@),
            },
    {
        let r = expr_map_get(&self.meta, key);
        proof {
            if r is Some {
                let v = r->Some_0;
                let i = choose|i: int|
                    0 <= i < expr_map_entries(self.meta).len() && expr_map_entries(self.meta)[i].0
                        == key@ && expr_map_entries(self.meta)[i].1 == v@;
                assert(0 <= i < self@.meta.len() && self@.meta[i].0 == key@ && self@.meta[i].1
                    == v@);
            }
        }
        r
    }

    /// How many default attributes are present.
    pub fn meta_len(&self) -> (r: usize)
        ensures
            r == self@.meta.len(),
    {
        expr_map_len(&self.meta)
    }

    /// The default attribute at a position, in insertion order.
    pub fn meta_at(&self, i: usize) -> (r: (&String, &Expression))
        requires
            i < self@.meta.len(),
        ensures
            r.0@ == self@.meta[i as int].0,
            r.1@ == self@.meta[i as int].1,
    {
        expr_map_get_index(&self.meta, i)
    }

    /// How many (function, implementation) pairs carry overrides.
    pub fn overrides_len(&self) -> (r: usize)
        ensures
            r == self@.overrides.len(),
    {
        override_map_len(&self.overrides)
    }

    /// The override key at a position, in insertion order.
    pub fn override_key_at(&self, i: usize) -> (r: &(String, String))
        requires
            i < self@.overrides.len(),
        ensures
            (r.0@, r.1@) == self@.overrides[i as int].0,
    {
        override_map_get_index(&self.overrides, i).0
    }

    /// How many attributes the override at a position carries.
    pub fn override_meta_len_at(&self, i: usize) -> (r: usize)
        requires
            i < self@.overrides.len(),
        ensures
            r == self@.overrides[i as int].1.len(),
    {
        expr_map_len(override_map_get_index(&self.overrides, i).1)
    }

    /// One attribute of the override at a position.
    pub fn override_meta_at(&self, i: usize, j: usize) -> (r: (&String, &Expression))
        requires
            i < self@.overrides.len(),
            j < self@.overrides[i as int].1.len(),
        ensures
            r.0@ == self@.overrides[i as int].1[j as int].0,
            r.1@ == self@.overrides[i as int].1[j as int].1,
    {
        expr_map_get_index(override_map_get_index(&self.overrides, i).1, j)
    }
}

/// A lowered declaration together with its attributes.
pub struct Node<T> {
    pub attributes: NodeAttributes,
    pub elem: T,
}

/// Mathematical counterpart of `Node`.
pub struct NodeV<E> {
    pub attributes: NodeAttributesV,
    pub elem: E,
}

impl<T: DeepView> View for Node<T> {
    type V = NodeV<<T as DeepView>::V>;

    open spec fn view(&self) -> NodeV<<T as DeepView>::V> {
        NodeV { attributes: self.attributes@, elem: self.elem.deep_view() }
    }
}

impl<T: DeepView> DeepView for Node<T> {
    type V = NodeV<<T as DeepView>::V>;

    open spec fn deep_view(&self) -> NodeV<<T as DeepView>::V> {
        self.view()
    }
}

/// One value of a lowered enum.
pub struct EnumValue(pub String);

pub struct EnumValueV {
    pub name: Seq<char>,
}

impl View for EnumValue {
    type V = EnumValueV;

    open spec fn view(&self) -> EnumValueV {
        EnumValueV { name: self.0@ }
    }
}

impl DeepView for EnumValue {
    type V = EnumValueV;

    open spec fn deep_view(&self) -> EnumValueV {
        self.view()
    }
}

/// A lowered enum.
pub struct Enum {
    pub name: String,
    pub values: Vec<Node<EnumValue>>,
}

pub struct EnumV {
    pub name: Seq<char>,
    pub values: Seq<NodeV<EnumValueV>>,
}

impl View for Enum {
    type V = EnumV;

    open spec fn view(&self) -> EnumV {
        EnumV { name: self.name@, values: self.values.deep_view() }
    }
}

impl DeepView for Enum {
    type V = EnumV;

    open spec fn deep_view(&self) -> EnumV {
        self.view()
    }
}

/// A lowered class field.
pub struct Field {
    pub name: String,
    pub field_type: Node<FieldType>,
}

pub struct FieldV {
    pub name: Seq<char>,
    pub field_type: NodeV<FieldTypeV>,
}

impl View for Field {
    type V = FieldV;

    open spec fn view(&self) -> FieldV {
        FieldV { name: self.name@, field_type: self.field_type@ }
    }
}

impl DeepView for Field {
    type V = FieldV;

    open spec fn deep_view(&self) -> FieldV {
        self.view()
    }
}

/// A lowered class.
pub struct Class {
    pub name: String,
    pub static_fields: Vec<Node<Field>>,
    pub dynamic_fields: Vec<Node<Field>>,
}

pub struct ClassV {
    pub name: Seq<char>,
    pub static_fields: Seq<NodeV<FieldV>>,
    pub dynamic_fields: Seq<NodeV<FieldV>>,
}

impl View for Class {
    type V = ClassV;

    open spec fn view(&self) -> ClassV {
        ClassV {
            name: self.name@,
            static_fields: self.static_fields.deep_view(),
            dynamic_fields: self.dynamic_fields.deep_view(),
        }
    }
}

impl DeepView for Class {
    type V = ClassV;

    open spec fn deep_view(&self) -> ClassV {
        self.view()
    }
}

/// The kind of oracle an implementation runs on.
#[derive(Clone, Copy, Debug, PartialEq, Eq, Structural)]
pub enum OracleType {
    LLM,
}

/// A lowered implementation variant of a function.
pub struct Implementation {
    pub oracle_type: OracleType,
    pub name: String,
    pub prompt: String,
    pub input_replacers: IndexMap<String, String>,
    pub output_replacers: IndexMap<String, String>,
    pub client: String,
}

pub struct ImplementationV {
    pub oracle_type: OracleType,
    pub name: Seq<char>,
    pub prompt: Seq<char>,
    pub input_replacers: Seq<(Seq<char>, Seq<char>)>,
    pub output_replacers: Seq<(Seq<char>, Seq<char>)>,
    pub client: Seq<char>,
}

impl View for Implementation {
    type V = ImplementationV;

    open spec fn view(&self) -> ImplementationV {
        ImplementationV {
            oracle_type: self.oracle_type,
            name: self.name@,
            prompt: self.prompt@,
            input_replacers: str_map_entries(self.input_replacers),
            output_replacers: str_map_entries(self.output_replacers),
            client: self.client@,
        }
    }
}

impl DeepView for Implementation {
    type V = ImplementationV;

    open spec fn deep_view(&self) -> ImplementationV {
        self.view()
    }
}

impl Implementation {
    /// The kind of oracle this implementation runs on.
    pub fn oracle_type(&self) -> (r: OracleType)
        ensures
            r == self@.oracle_type,
    {
        self.oracle_type
    }

    /// How many input replacers are present.
    pub fn input_replacers_len(&self) -> (r: usize)
        ensures
            r == self@.input_replacers.len(),
    {
        str_map_len(&self.input_replacers)
    }

    /// The input replacer at a position, in insertion order.
    pub fn input_replacer_at(&self, i: usize) -> (r: (&String, &String))
        requires
            i < self@.input_replacers.len(),
        ensures
            r.0@ == self@.input_replacers[i as int].0,
            r.1@ == self@.input_replacers[i as int].1,
    {
        str_map_get_index(&self.input_replacers, i)
    }

    /// How many output replacers are present.
    pub fn output_replacers_len(&self) -> (r: usize)
        ensures
            r == self@.output_replacers.len(),
    {
        str_map_len(&self.output_replacers)
    }

    /// The output replacer at a position, in insertion order.
    pub fn output_replacer_at(&self, i: usize) -> (r: (&String, &String))
        requires
            i < self@.output_replacers.len(),
        ensures
            r.0@ == self@.output_replacers[i as int].0,
            r.1@ == self@.output_replacers[i as int].1,
    {
        str_map_get_index(&self.output_replacers, i)
    }
}

/// A function's lowered inputs: one unnamed type, or a named list.
pub enum FunctionArgs {
    UnnamedArg(FieldType),
    NamedArgList(Vec<(String, FieldType)>),
}

pub enum FunctionArgsV {
    UnnamedArg(FieldTypeV),
    NamedArgList(Seq<(Seq<char>, FieldTypeV)>),
}

impl View for FunctionArgs {
    type V = FunctionArgsV;

    open spec fn view(&self) -> FunctionArgsV {
        match self {
            FunctionArgs::UnnamedArg(t) => FunctionArgsV::UnnamedArg(t@),
            FunctionArgs::NamedArgList(args) => FunctionArgsV::NamedArgList(args.deep_view()),
        }
    }
}

impl DeepView for FunctionArgs {
    type V = FunctionArgsV;

    open spec fn deep_view(&self) -> FunctionArgsV {
        self.view()
    }
}

/// A lowered function.
pub struct Function {
    pub name: String,
    pub inputs: FunctionArgs,
    pub output: Node<FieldType>,
    pub impls: Vec<Node<Implementation>>,
    pub default_impl: Option<String>,
}

pub struct FunctionV {
    pub name: Seq<char>,
    pub inputs: FunctionArgsV,
    pub output: NodeV<FieldTypeV>,
    pub impls: Seq<NodeV<ImplementationV>>,
    pub default_impl: Option<Seq<char>>,
}

impl View for Function {
    type V = FunctionV;

    open spec fn view(&self) -> FunctionV {
        FunctionV {
            name: self.name@,
            inputs: self.inputs@,
            output: self.output@,
            impls: self.impls.deep_view(),
            default_impl: self.default_impl.deep_view(),
        }
    }
}

impl DeepView for Function {
    type V = FunctionV;

    open spec fn deep_view(&self) -> FunctionV {
        self.view()
    }
}

/// A lowered client.
pub struct Client {
    pub name: String,
    pub provider: String,
    pub options: Vec<(String, Expression)>,
}

pub struct ClientV {
    pub name: Seq<char>,
    pub provider: Seq<char>,
    pub options: Seq<(Seq<char>, ExpressionV)>,
}

impl View for Client {
    type V = ClientV;

    open spec fn view(&self) -> ClientV {
        ClientV {
            name: self.name@,
            provider: self.provider@,
            options: self.options.deep_view(),
        }
    }
}

impl DeepView for Client {
    type V = ClientV;

    open spec fn deep_view(&self) -> ClientV {
        self.view()
    }
}

/// The name of a lowered retry policy.
pub struct RetryPolicyId(pub String);

impl View for RetryPolicyId {
    type V = Seq<char>;

    open spec fn view(&self) -> Seq<char> {
        self.0@
    }
}

impl DeepView for RetryPolicyId {
    type V = Seq<char>;

    open spec fn deep_view(&self) -> Seq<char> {
        self.view()
    }
}

/// A lowered retry policy. An absent options block lowers to an empty
/// list.
pub struct RetryPolicy {
    pub name: RetryPolicyId,
    pub max_retries: u32,
    pub strategy: RetryPolicyStrategy,
    pub options: Vec<(String, Expression)>,
}

pub struct RetryPolicyV {
    pub name: Seq<char>,
    pub max_retries: u32,
    pub strategy: RetryPolicyStrategy,
    pub options: Seq<(Seq<char>, ExpressionV)>,
}

impl View for RetryPolicy {
    type V = RetryPolicyV;

    open spec fn view(&self) -> RetryPolicyV {
        RetryPolicyV {
            name: self.name@,
            max_retries: self.max_retries,
            strategy: self.strategy,
            options: self.options.deep_view(),
        }
    }
}

impl DeepView for RetryPolicy {
    type V = RetryPolicyV;

    open spec fn deep_view(&self) -> RetryPolicyV {
        self.view()
    }
}

impl RetryPolicy {
    /// The policy's name.
    pub fn name(&self) -> (r: &RetryPolicyId)
        ensures
            r@ == self@.name,
    {
        &self.name
    }

    /// The maximum number of retries.
    pub fn max_retries(&self) -> (r: u32)
        ensures
            r == self@.max_retries,
    {
        self.max_retries
    }

    /// The retry strategy.
    pub fn strategy(&self) -> (r: RetryPolicyStrategy)
        ensures
            r == self@.strategy,
    {
        self.strategy
    }

    /// The policy's options, in declaration order.
    pub fn options(&self) -> (r: &Vec<(String, Expression)>)
        ensures
            r.deep_view() == self@.options,
    {
        &self.options
    }
}

} // verus!
