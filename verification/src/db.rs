//! Declarations and the database snapshot: enums, classes, functions with
//! their implementation variants, clients and retry policies, together with
//! name resolution and the per-variant override lookups that attribute
//! resolution consults.

use vstd::prelude::*;

use crate::ast::{AstExpression, AstExpressionV, AstFieldType, AstFieldTypeV};
use crate::order::str_eq;

verus! {

/// Attributes declared directly on one declaration.
pub enum ToStringAttributes {
    Static(StaticStringAttributes),
    Dynamic(DynamicStringAttributes),
}

/// Static attributes: a skip marker, an alias, and arbitrary key/value
/// metadata in declaration order.
pub struct StaticStringAttributes {
    pub skip: bool,
    pub alias: Option<String>,
    pub meta: Vec<(String, String)>,
}

/// Dynamic attributes: per-language code snippets, keyed by language name.
pub struct DynamicStringAttributes {
    pub code: Vec<(String, String)>,
}

pub enum ToStringAttributesV {
    Static(StaticStringAttributesV),
    Dynamic(DynamicStringAttributesV),
}

pub struct StaticStringAttributesV {
    pub skip: bool,
    pub alias: Option<Seq<char>>,
    pub meta: Seq<(Seq<char>, Seq<char>)>,
}

pub struct DynamicStringAttributesV {
    pub code: Seq<(Seq<char>, Seq<char>)>,
}

impl View for ToStringAttributes {
    type V = ToStringAttributesV;

    open spec fn view(&self) -> ToStringAttributesV {
        match self {
            ToStringAttributes::Static(s) => ToStringAttributesV::Static(
                StaticStringAttributesV {
                    skip: s.skip,
                    alias: s.alias.deep_view(),
                    meta: s.meta.deep_view(),
                },
            ),
            ToStringAttributes::Dynamic(d) => ToStringAttributesV::Dynamic(
                DynamicStringAttributesV { code: d.code.deep_view() },
            ),
        }
    }
}

impl DeepView for ToStringAttributes {
    type V = ToStringAttributesV;

    open spec fn deep_view(&self) -> ToStringAttributesV {
        self.view()
    }
}

/// One value of a declared enum.
pub struct EnumValueDecl {
    pub name: String,
    pub attributes: Option<ToStringAttributes>,
}

pub struct EnumValueDeclV {
    pub name: Seq<char>,
    pub attributes: Option<ToStringAttributesV>,
}

impl View for EnumValueDecl {
    type V = EnumValueDeclV;

    open spec fn view(&self) -> EnumValueDeclV {
        EnumValueDeclV { name: self.name@, attributes: self.attributes.deep_view() }
    }
}

impl DeepView for EnumValueDecl {
    type V = EnumValueDeclV;

    open spec fn deep_view(&self) -> EnumValueDeclV {
        self.view()
    }
}

/// A declared enum.
pub struct EnumDecl {
    pub name: String,
    pub values: Vec<EnumValueDecl>,
    pub attributes: Option<ToStringAttributes>,
}

pub struct EnumDeclV {
    pub name: Seq<char>,
    pub values: Seq<EnumValueDeclV>,
    pub attributes: Option<ToStringAttributesV>,
}

impl View for EnumDecl {
    type V = EnumDeclV;

    open spec fn view(&self) -> EnumDeclV {
        EnumDeclV {
            name: self.name@,
            values: self.values.deep_view(),
            attributes: self.attributes.deep_view(),
        }
    }
}

impl DeepView for EnumDecl {
    type V = EnumDeclV;

    open spec fn deep_view(&self) -> EnumDeclV {
        self.view()
    }
}

/// One field of a declared class.
pub struct FieldDecl {
    pub name: String,
    pub field_type: AstFieldType,
    pub attributes: Option<ToStringAttributes>,
}

pub struct FieldDeclV {
    pub name: Seq<char>,
    pub field_type: AstFieldTypeV,
    pub attributes: Option<ToStringAttributesV>,
}

impl View for FieldDecl {
    type V = FieldDeclV;

    open spec fn view(&self) -> FieldDeclV {
        FieldDeclV {
            name: self.name@,
            field_type: self.field_type@,
            attributes: self.attributes.deep_view(),
        }
    }
}

impl DeepView for FieldDecl {
    type V = FieldDeclV;

    open spec fn deep_view(&self) -> FieldDeclV {
        self.view()
    }
}

/// A declared class.
pub struct ClassDecl {
    pub name: String,
    pub static_fields: Vec<FieldDecl>,
    pub dynamic_fields: Vec<FieldDecl>,
    pub attributes: Option<ToStringAttributes>,
}

pub struct ClassDeclV {
    pub name: Seq<char>,
    pub static_fields: Seq<FieldDeclV>,
    pub dynamic_fields: Seq<FieldDeclV>,
    pub attributes: Option<ToStringAttributesV>,
}

impl View for ClassDecl {
    type V = ClassDeclV;

    open spec fn view(&self) -> ClassDeclV {
        ClassDeclV {
            name: self.name@,
            static_fields: self.static_fields.deep_view(),
            dynamic_fields: self.dynamic_fields.deep_view(),
            attributes: self.attributes.deep_view(),
        }
    }
}

impl DeepView for ClassDecl {
    type V = ClassDeclV;

    open spec fn deep_view(&self) -> ClassDeclV {
        self.view()
    }
}

/// One implementation variant of a function, with its prompt, replacers,
/// bound client, and the overrides it declares for other declarations.
pub struct VariantDecl {
    pub name: String,
    pub prompt: String,
    pub input_replacers: Vec<(String, String)>,
    pub output_replacers: Vec<(String, String)>,
    pub client: String,
    /// Block-level overrides, keyed by the overridden declaration's name.
    pub serializer_attrs: Vec<(String, ToStringAttributes)>,
    /// Member-level overrides, keyed by (declaration name, member name).
    pub member_overrides: Vec<((String, String), ToStringAttributes)>,
}

pub struct VariantDeclV {
    pub name: Seq<char>,
    pub prompt: Seq<char>,
    pub input_replacers: Seq<(Seq<char>, Seq<char>)>,
    pub output_replacers: Seq<(Seq<char>, Seq<char>)>,
    pub client: Seq<char>,
    pub serializer_attrs: Seq<(Seq<char>, ToStringAttributesV)>,
    pub member_overrides: Seq<((Seq<char>, Seq<char>), ToStringAttributesV)>,
}

impl View for VariantDecl {
    type V = VariantDeclV;

    open spec fn view(&self) -> VariantDeclV {
        VariantDeclV {
            name: self.name@,
            prompt: self.prompt@,
            input_replacers: self.input_replacers.deep_view(),
            output_replacers: self.output_replacers.deep_view(),
            client: self.client@,
            serializer_attrs: self.serializer_attrs.deep_view(),
            member_overrides: self.member_overrides.deep_view(),
        }
    }
}

impl DeepView for VariantDecl {
    type V = VariantDeclV;

    open spec fn deep_view(&self) -> VariantDeclV {
        self.view()
    }
}

/// A function's argument surface: one unnamed type, or a named list.
pub enum AstFunctionArgs {
    Unnamed(AstFieldType),
    Named(Vec<(String, AstFieldType)>),
}

pub enum AstFunctionArgsV {
    Unnamed(AstFieldTypeV),
    Named(Seq<(Seq<char>, AstFieldTypeV)>),
}

impl View for AstFunctionArgs {
    type V = AstFunctionArgsV;

    open spec fn view(&self) -> AstFunctionArgsV {
        match self {
            AstFunctionArgs::Unnamed(t) => AstFunctionArgsV::Unnamed(t@),
            AstFunctionArgs::Named(args) => AstFunctionArgsV::Named(args.deep_view()),
        }
    }
}

impl DeepView for AstFunctionArgs {
    type V = AstFunctionArgsV;

    open spec fn deep_view(&self) -> AstFunctionArgsV {
        self.view()
    }
}

/// A declared function.
pub struct FunctionDecl {
    pub name: String,
    pub input: AstFunctionArgs,
    pub output: AstFunctionArgs,
    pub default_impl: Option<String>,
    pub variants: Vec<VariantDecl>,
}

pub struct FunctionDeclV {
    pub name: Seq<char>,
    pub input: AstFunctionArgsV,
    pub output: AstFunctionArgsV,
    pub default_impl: Option<Seq<char>>,
    pub variants: Seq<VariantDeclV>,
}

impl View for FunctionDecl {
    type V = FunctionDeclV;

    open spec fn view(&self) -> FunctionDeclV {
        FunctionDeclV {
            name: self.name@,
            input: self.input@,
            output: self.output@,
            default_impl: self.default_impl.deep_view(),
            variants: self.variants.deep_view(),
        }
    }
}

impl DeepView for FunctionDecl {
    type V = FunctionDeclV;

    open spec fn deep_view(&self) -> FunctionDeclV {
        self.view()
    }
}

/// A declared client.
pub struct ClientDecl {
    pub name: String,
    pub provider: String,
    pub options: Vec<(String, AstExpression)>,
}

pub struct ClientDeclV {
    pub name: Seq<char>,
    pub provider: Seq<char>,
    pub options: Seq<(Seq<char>, AstExpressionV)>,
}

impl View for ClientDecl {
    type V = ClientDeclV;

    open spec fn view(&self) -> ClientDeclV {
        ClientDeclV {
            name: self.name@,
            provider: self.provider@,
            options: self.options.deep_view(),
        }
    }
}

impl DeepView for ClientDecl {
    type V = ClientDeclV;

    open spec fn deep_view(&self) -> ClientDeclV {
        self.view()
    }
}

/// The strategy of a retry policy.
#[derive(Clone, Copy, Debug, PartialEq, Eq, Structural)]
pub enum RetryPolicyStrategy {
    ConstantDelay,
    ExponentialBackoff,
}

/// A declared retry policy. `options` distinguishes an absent options
/// block from an empty one; lowering collapses the two.
pub struct RetryPolicyDecl {
    pub name: String,
    pub max_retries: u32,
    pub strategy: RetryPolicyStrategy,
    pub options: Option<Vec<(String, AstExpression)>>,
}

pub struct RetryPolicyDeclV {
    pub name: Seq<char>,
    pub max_retries: u32,
    pub strategy: RetryPolicyStrategy,
    pub options: Option<Seq<(Seq<char>, AstExpressionV)>>,
}

impl View for RetryPolicyDecl {
    type V = RetryPolicyDeclV;

    open spec fn view(&self) -> RetryPolicyDeclV {
        RetryPolicyDeclV {
            name: self.name@,
            max_retries: self.max_retries,
            strategy: self.strategy,
            options: self.options.deep_view(),
        }
    }
}

impl DeepView for RetryPolicyDecl {
    type V = RetryPolicyDeclV;

    open spec fn deep_view(&self) -> RetryPolicyDeclV {
        self.view()
    }
}

/// The immutable database snapshot that one build consumes.
pub struct ParserDatabase {
    pub enums: Vec<EnumDecl>,
    pub classes: Vec<ClassDecl>,
    pub functions: Vec<FunctionDecl>,
    pub clients: Vec<ClientDecl>,
    pub retry_policies: Vec<RetryPolicyDecl>,
}

pub struct ParserDatabaseV {
    pub enums: Seq<EnumDeclV>,
    pub classes: Seq<ClassDeclV>,
    pub functions: Seq<FunctionDeclV>,
    pub clients: Seq<ClientDeclV>,
    pub retry_policies: Seq<RetryPolicyDeclV>,
}

impl View for ParserDatabase {
    type V = ParserDatabaseV;

    open spec fn view(&self) -> ParserDatabaseV {
        ParserDatabaseV {
            enums: self.enums.deep_view(),
            classes: self.classes.deep_view(),
            functions: self.functions.deep_view(),
            clients: self.clients.deep_view(),
            retry_policies: self.retry_policies.deep_view(),
        }
    }
}

/// What a local type identifier resolves to.
#[derive(Clone, Copy, Debug, PartialEq, Eq, Structural)]
pub enum ResolvedType {
    Class,
    Enum,
}

/// Whether some class in the database bears the given name.
pub open spec fn has_class(db: ParserDatabaseV, name: Seq<char>) -> bool {
    exists|i: int| 0 <= i < db.classes.len() && db.classes[i].name == name
}

/// Whether some enum in the database bears the given name.
pub open spec fn has_enum(db: ParserDatabaseV, name: Seq<char>) -> bool {
    exists|i: int| 0 <= i < db.enums.len() && db.enums[i].name == name
}

/// What name resolution answers for a local type identifier: classes are
/// consulted first, then enums.
pub open spec fn spec_find_type(db: ParserDatabaseV, name: Seq<char>) -> Option<ResolvedType> {
    if has_class(db, name) {
        Some(ResolvedType::Class)
    } else if has_enum(db, name) {
        Some(ResolvedType::Enum)
    } else {
        None
    }
}

impl ParserDatabase {
    /// Classifies a local type identifier as a class, an enum, or unresolved.
    pub fn find_type(&self, name: &str) -> (r: Option<ResolvedType>)
        ensures
            r == spec_find_type(self@, name@),
    {
        let n = self.classes.len();
        let mut i: usize = 0;
        while i < n
            invariant
                i <= n,
                n == self.classes.len(),
                forall|j: int| 0 <= j < i ==> self@.classes[j].name != name@,
            decreases n - i,
        {
            if str_eq(self.classes[i].name.as_str(), name) {
                proof {
                    assert(self@.classes[i as int].name == name@);
                }
                return Some(ResolvedType::Class);
            }
            i = i + 1;
        }
        let m = self.enums.len();
        let mut k: usize = 0;
        while k < m
            invariant
                m == self.enums.len(),
                forall|j: int| 0 <= j < self@.classes.len() ==> self@.classes[j].name != name@,
                forall|j: int| 0 <= j < k ==> self@.enums[j].name != name@,
            decreases m - k,
        {
            if str_eq(self.enums[k].name.as_str(), name) {
                proof {
                    assert(self@.enums[k as int].name == name@);
                }
                return Some(ResolvedType::Enum);
            }
            k = k + 1;
        }
        None
    }
}

/// The first value associated with `key`, if any.
pub open spec fn assoc_first<K, V0>(s: Seq<(K, V0)>, key: K) -> Option<V0>
    decreases s.len(),
{
    if s.len() == 0 {
        None
    } else if s[0].0 == key {
        Some(s[0].1)
    } else {
        assoc_first(s.subrange(1, s.len() as int), key)
    }
}

impl VariantDecl {
    /// The block-level override this variant declares for the named
    /// declaration, if any.
    pub fn find_serializer_attributes(&self, name: &str) -> (r: Option<&ToStringAttributes>)
        ensures
            r.deep_view() == assoc_first(self@.serializer_attrs, name@),
    {
        let n = self.serializer_attrs.len();
        let mut i: usize = 0;
        proof {
            assert(self@.serializer_attrs.subrange(0, n as int) =~= self@.serializer_attrs);
        }
        while i < n
            invariant
                i <= n,
                n == self.serializer_attrs.len(),
                assoc_first(self@.serializer_attrs, name@) == assoc_first(
                    self@.serializer_attrs.subrange(i as int, n as int),
                    name@,
                ),
            decreases n - i,
        {
            proof {
                let s = self@.serializer_attrs.subrange(i as int, n as int);
                assert(s.subrange(1, s.len() as int) =~= self@.serializer_attrs.subrange(
                    i + 1,
                    n as int,
                ));
            }
            if str_eq(self.serializer_attrs[i].0.as_str(), name) {
                return Some(&self.serializer_attrs[i].1);
            }
            i = i + 1;
        }
        None
    }

    /// The member-level override this variant declares for the named
    /// member of the named declaration, if any.
    pub fn find_member_override(&self, owner: &str, member: &str) -> (r: Option<
        &ToStringAttributes,
    >)
        ensures
            r.deep_view() == assoc_first(self@.member_overrides, (owner@, member@)),
    {
        let n = self.member_overrides.len();
        let mut i: usize = 0;
        proof {
            assert(self@.member_overrides.subrange(0, n as int) =~= self@.member_overrides);
        }
        while i < n
            invariant
                i <= n,
                n == self.member_overrides.len(),
                assoc_first(self@.member_overrides, (owner@, member@)) == assoc_first(
                    self@.member_overrides.subrange(i as int, n as int),
                    (owner@, member@),
                ),
            decreases n - i,
        {
            proof {
                let s = self@.member_overrides.subrange(i as int, n as int);
                assert(s.subrange(1, s.len() as int) =~= self@.member_overrides.subrange(
                    i + 1,
                    n as int,
                ));
            }
            if str_eq(self.member_overrides[i].0.0.as_str(), owner)
                && str_eq(self.member_overrides[i].0.1.as_str(), member) {
                return Some(&self.member_overrides[i].1);
            }
            i = i + 1;
        }
        None
    }
}

} // verus!
