//! The surface model: a plain-value snapshot of the semantic database that
//! lowering consumes. Each declaration kind carries its name, its structure
//! and its declared attributes; name resolution is a lookup over the
//! declared classes and enums.

use vstd::prelude::*;

verus! {

/// Kinds of primitive types in the surface language.
#[derive(Clone, Copy, Debug, PartialEq, Eq, Structural)]
pub enum TypeValue {
    String,
    Int,
    Float,
    Bool,
    Char,
    Null,
}

/// Whether a field or argument is required or optional.
#[derive(Clone, Copy, Debug, PartialEq, Eq, Structural)]
pub enum FieldArity {
    Required,
    Optional,
}

impl FieldArity {
    pub open spec fn spec_is_optional(&self) -> bool {
        self is Optional
    }

    #[verifier::when_used_as_spec(spec_is_optional)]
    pub fn is_optional(&self) -> (r: bool)
        ensures
            r == self.spec_is_optional(),
    {
        matches!(self, FieldArity::Optional)
    }
}

/// A surface identifier, as the parser classified it.
pub enum AstIdentifier {
    /// An environment-variable reference (`env.*`).
    ENV(String),
    /// A dotted path reference.
    Ref(Vec<String>),
    /// A plain local name.
    Local(String),
    /// The name of a primitive type.
    Primitive(TypeValue),
    /// A name that contains a dash.
    String(String),
    /// A form the parser could not classify; it has no lowered form.
    Invalid,
}

/// Mathematical counterpart of `AstIdentifier`.
pub enum AstIdentifierV {
    ENV(Seq<char>),
    Ref(Seq<Seq<char>>),
    Local(Seq<char>),
    Primitive(TypeValue),
    String(Seq<char>),
    Invalid,
}

impl View for AstIdentifier {
    type V = AstIdentifierV;

    open spec fn view(&self) -> AstIdentifierV {
        match self {
            AstIdentifier::ENV(s) => AstIdentifierV::ENV(s@),
            AstIdentifier::Ref(path) => AstIdentifierV::Ref(path.deep_view()),
            AstIdentifier::Local(s) => AstIdentifierV::Local(s@),
            AstIdentifier::Primitive(t) => AstIdentifierV::Primitive(*t),
            AstIdentifier::String(s) => AstIdentifierV::String(s@),
            AstIdentifier::Invalid => AstIdentifierV::Invalid,
        }
    }
}

impl DeepView for AstIdentifier {
    type V = AstIdentifierV;

    open spec fn deep_view(&self) -> AstIdentifierV {
        self.view()
    }
}

/// A surface expression, as attribute and option values are written.
pub enum AstExpression {
    NumericValue(String),
    StringValue(String),
    RawStringValue(String),
    Identifier(AstIdentifier),
    Array(Vec<AstExpression>),
    Dict(Vec<(AstExpression, AstExpression)>),
}

/// Mathematical counterpart of `AstExpression`.
pub enum AstExpressionV {
    NumericValue(Seq<char>),
    StringValue(Seq<char>),
    RawStringValue(Seq<char>),
    Identifier(AstIdentifierV),
    Array(Seq<AstExpressionV>),
    Dict(Seq<(AstExpressionV, AstExpressionV)>),
}

pub open spec fn ast_expression_view(e: AstExpression) -> AstExpressionV
    decreases e,
{
    match e {
        AstExpression::NumericValue(s) => AstExpressionV::NumericValue(s@),
        AstExpression::StringValue(s) => AstExpressionV::StringValue(s@),
        AstExpression::RawStringValue(s) => AstExpressionV::RawStringValue(s@),
        AstExpression::Identifier(idn) => AstExpressionV::Identifier(idn@),
        AstExpression::Array(es) => AstExpressionV::Array(ast_expression_views(es@)),
        AstExpression::Dict(kvs) => AstExpressionV::Dict(ast_expression_pair_views(kvs@)),
    }
}

pub open spec fn ast_expression_views(es: Seq<AstExpression>) -> Seq<AstExpressionV>
    decreases es,
{
    if es.len() == 0 {
        Seq::empty()
    } else {
        ast_expression_views(es.subrange(0, es.len() - 1)).push(
            ast_expression_view(es[es.len() - 1]),
        )
    }
}

pub open spec fn ast_expression_pair_views(kvs: Seq<(AstExpression, AstExpression)>) -> Seq<
    (AstExpressionV, AstExpressionV),
>
    decreases kvs,
{
    if kvs.len() == 0 {
        Seq::empty()
    } else {
        ast_expression_pair_views(kvs.subrange(0, kvs.len() - 1)).push(
            (
                ast_expression_view(kvs[kvs.len() - 1].0),
                ast_expression_view(kvs[kvs.len() - 1].1),
            ),
        )
    }
}

pub proof fn lemma_ast_expression_views_index(es: Seq<AstExpression>)
    ensures
        ast_expression_views(es).len() == es.len(),
        forall|i: int|
            0 <= i < es.len() ==> ast_expression_views(es)[i] == ast_expression_view(es[i]),
    decreases es,
{
    if es.len() > 0 {
        lemma_ast_expression_views_index(es.subrange(0, es.len() - 1));
    }
}

pub proof fn lemma_ast_expression_pair_views_index(kvs: Seq<(AstExpression, AstExpression)>)
    ensures
        ast_expression_pair_views(kvs).len() == kvs.len(),
        forall|i: int|
            0 <= i < kvs.len() ==> ast_expression_pair_views(kvs)[i] == (
                ast_expression_view(kvs[i].0),
                ast_expression_view(kvs[i].1),
            ),
    decreases kvs,
{
    if kvs.len() > 0 {
        lemma_ast_expression_pair_views_index(kvs.subrange(0, kvs.len() - 1));
    }
}

impl View for AstExpression {
    type V = AstExpressionV;

    open spec fn view(&self) -> AstExpressionV {
        ast_expression_view(*self)
    }
}

impl DeepView for AstExpression {
    type V = AstExpressionV;

    open spec fn deep_view(&self) -> AstExpressionV {
        self.view()
    }
}

/// A surface type expression.
pub enum AstFieldType {
    /// A named or primitive type with its arity.
    Identifier(FieldArity, AstIdentifier),
    /// A list type with a dimensionality count.
    List(Box<AstFieldType>, u32),
    /// A key/value map type.
    Dictionary(Box<AstFieldType>, Box<AstFieldType>),
    /// A union of member types, with the union's own arity.
    Union(FieldArity, Vec<AstFieldType>),
    /// A tuple of member types, with the tuple's own arity.
    Tuple(FieldArity, Vec<AstFieldType>),
}

/// Mathematical counterpart of `AstFieldType`.
pub enum AstFieldTypeV {
    Identifier(FieldArity, AstIdentifierV),
    List(Box<AstFieldTypeV>, u32),
    Dictionary(Box<AstFieldTypeV>, Box<AstFieldTypeV>),
    Union(FieldArity, Seq<AstFieldTypeV>),
    Tuple(FieldArity, Seq<AstFieldTypeV>),
}

pub open spec fn ast_field_type_view(t: AstFieldType) -> AstFieldTypeV
    decreases t,
{
    match t {
        AstFieldType::Identifier(arity, idn) => AstFieldTypeV::Identifier(arity, idn@),
        AstFieldType::List(inner, dims) => AstFieldTypeV::List(
            Box::new(ast_field_type_view(*inner)),
            dims,
        ),
        AstFieldType::Dictionary(k, v) => AstFieldTypeV::Dictionary(
            Box::new(ast_field_type_view(*k)),
            Box::new(ast_field_type_view(*v)),
        ),
        AstFieldType::Union(arity, ts) => AstFieldTypeV::Union(arity, ast_field_type_views(ts@)),
        AstFieldType::Tuple(arity, ts) => AstFieldTypeV::Tuple(arity, ast_field_type_views(ts@)),
    }
}

pub open spec fn ast_field_type_views(ts: Seq<AstFieldType>) -> Seq<AstFieldTypeV>
    decreases ts,
{
    if ts.len() == 0 {
        Seq::empty()
    } else {
        ast_field_type_views(ts.subrange(0, ts.len() - 1)).push(
            ast_field_type_view(ts[ts.len() - 1]),
        )
    }
}

pub proof fn lemma_ast_field_type_views_index(ts: Seq<AstFieldType>)
    ensures
        ast_field_type_views(ts).len() == ts.len(),
        forall|i: int|
            0 <= i < ts.len() ==> ast_field_type_views(ts)[i] == ast_field_type_view(ts[i]),
    decreases ts,
{
    if ts.len() > 0 {
        lemma_ast_field_type_views_index(ts.subrange(0, ts.len() - 1));
    }
}

impl View for AstFieldType {
    type V = AstFieldTypeV;

    open spec fn view(&self) -> AstFieldTypeV {
        ast_field_type_view(*self)
    }
}

impl DeepView for AstFieldType {
    type V = AstFieldTypeV;

    open spec fn deep_view(&self) -> AstFieldTypeV {
        self.view()
    }
}

impl AstFieldTypeV {
    /// Whether the type's own top-level arity is optional.
    pub open spec fn spec_is_nullable(self) -> bool {
        match self {
            AstFieldTypeV::Identifier(arity, _) => arity.spec_is_optional(),
            AstFieldTypeV::List(_, _) => false,
            AstFieldTypeV::Dictionary(_, _) => false,
            AstFieldTypeV::Union(arity, _) => arity.spec_is_optional(),
            AstFieldTypeV::Tuple(arity, _) => arity.spec_is_optional(),
        }
    }
}

impl AstFieldType {
    /// Whether the type's own top-level arity is optional.
    pub fn is_nullable(&self) -> (r: bool)
        ensures
            r == self@.spec_is_nullable(),
    {
        match self {
            AstFieldType::Identifier(arity, _) => arity.is_optional(),
            AstFieldType::List(_, _) => false,
            AstFieldType::Dictionary(_, _) => false,
            AstFieldType::Union(arity, _) => arity.is_optional(),
            AstFieldType::Tuple(arity, _) => arity.is_optional(),
        }
    }
}

} // verus!
