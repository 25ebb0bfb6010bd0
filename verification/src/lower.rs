//! The type and expression resolvers: surface type expressions are lowered
//! into the closed type algebra, consulting name resolution for local
//! identifiers, and surface expressions are lowered into IR expressions.

use vstd::prelude::*;

use crate::ast::{
    ast_expression_pair_views, ast_expression_view, ast_expression_views, ast_field_type_view,
    ast_field_type_views, lemma_ast_expression_pair_views_index, lemma_ast_expression_views_index,
    lemma_ast_field_type_views_index, AstExpression, AstExpressionV, AstFieldType, AstFieldTypeV,
    AstIdentifier, AstIdentifierV, FieldArity, TypeValue,
};
use crate::db::{spec_find_type, ParserDatabase, ParserDatabaseV, ResolvedType};
use crate::fold::{lemma_lower_seq_err, lemma_lower_seq_step, lower_seq, ok_view};
use crate::ir::{Expression, ExpressionV, FieldType, FieldTypeV, Identifier, IdentifierV,
    LowerError};

verus! {

/// Folds arity into a lowered type: an optional type is wrapped in
/// `Optional`, a required one is left alone.
pub open spec fn spec_with_arity(t: FieldTypeV, arity: FieldArity) -> FieldTypeV {
    if arity.spec_is_optional() {
        FieldTypeV::Optional(Box::new(t))
    } else {
        t
    }
}

impl FieldType {
    /// Wraps `self` in `Optional` when the arity is optional.
    pub fn with_arity(self, arity: &FieldArity) -> (r: FieldType)
        ensures
            r@ == spec_with_arity(self@, *arity),
    {
        match arity {
            FieldArity::Required => self,
            FieldArity::Optional => FieldType::Optional(Box::new(self)),
        }
    }
}

/// A list type nested `dims` deep around `inner`; a dimensionality of
/// zero still yields one `List` wrapping, a knowingly kept edge case.
pub open spec fn nested_list(inner: FieldTypeV, dims: u32) -> FieldTypeV
    decreases dims,
{
    if dims <= 1 {
        FieldTypeV::List(Box::new(inner))
    } else {
        FieldTypeV::List(Box::new(nested_list(inner, (dims - 1) as u32)))
    }
}

/// What lowering a surface type yields: the closed algebra on success,
/// the leftmost resolution error otherwise.
pub open spec fn spec_lower_type(db: ParserDatabaseV, t: AstFieldTypeV) -> Result<
    FieldTypeV,
    LowerError,
>
    decreases t,
{
    match t {
        AstFieldTypeV::Identifier(arity, idn) => match idn {
            AstIdentifierV::Primitive(tv) => Ok(spec_with_arity(FieldTypeV::Primitive(tv), arity)),
            AstIdentifierV::Local(name) => match spec_find_type(db, name) {
                Some(ResolvedType::Class) => Ok(spec_with_arity(FieldTypeV::Class(name), arity)),
                Some(ResolvedType::Enum) => Ok(spec_with_arity(FieldTypeV::Enum(name), arity)),
                None => Err(LowerError::UnresolvedIdentifier),
            },
            _ => Err(LowerError::UnsupportedIdentifierInTypePosition),
        },
        AstFieldTypeV::List(inner, dims) => match spec_lower_type(db, *inner) {
            Ok(i) => Ok(nested_list(i, dims)),
            Err(e) => Err(e),
        },
        AstFieldTypeV::Dictionary(k, v) => match spec_lower_type(db, *k) {
            Err(e) => Err(e),
            Ok(kk) => match spec_lower_type(db, *v) {
                Err(e) => Err(e),
                Ok(vv) => Ok(FieldTypeV::Dict(Box::new(kk), Box::new(vv))),
            },
        },
        AstFieldTypeV::Union(arity, ts) => match spec_lower_types(db, ts) {
            Err(e) => Err(e),
            Ok(ms) => Ok(
                FieldTypeV::Union(
                    if arity.spec_is_optional() {
                        ms.push(FieldTypeV::Primitive(TypeValue::Null))
                    } else {
                        ms
                    },
                ),
            ),
        },
        AstFieldTypeV::Tuple(arity, ts) => match spec_lower_types(db, ts) {
            Err(e) => Err(e),
            Ok(ms) => Ok(spec_with_arity(FieldTypeV::Tuple(ms), arity)),
        },
    }
}

/// Lowers a member list, leftmost error first.
pub open spec fn spec_lower_types(db: ParserDatabaseV, ts: Seq<AstFieldTypeV>) -> Result<
    Seq<FieldTypeV>,
    LowerError,
>
    decreases ts,
{
    if ts.len() == 0 {
        Ok(Seq::empty())
    } else {
        match spec_lower_types(db, ts.subrange(0, ts.len() - 1)) {
            Err(e) => Err(e),
            Ok(pre) => match spec_lower_type(db, ts[ts.len() - 1]) {
                Err(e) => Err(e),
                Ok(m) => Ok(pre.push(m)),
            },
        }
    }
}

/// `spec_lower_types` is the fail-fast fold of `spec_lower_type`.
pub proof fn lemma_lower_types_is_fold(db: ParserDatabaseV, ts: Seq<AstFieldTypeV>)
    ensures
        spec_lower_types(db, ts) == lower_seq(|t: AstFieldTypeV| spec_lower_type(db, t), ts),
    decreases ts.len(),
{
    if ts.len() > 0 {
        lemma_lower_types_is_fold(db, ts.subrange(0, ts.len() - 1));
    }
}

impl AstFieldType {
    /// Lowers a surface type into the closed algebra.
    pub fn repr(&self, db: &ParserDatabase) -> (r: Result<FieldType, LowerError>)
        ensures
            ok_view(r) == spec_lower_type(db@, self@),
        decreases *self,
    {
        match self {
            AstFieldType::Identifier(arity, idn) => match idn {
                AstIdentifier::Primitive(t) => Ok(FieldType::Primitive(*t).with_arity(arity)),
                AstIdentifier::Local(name) => match db.find_type(name.as_str()) {
                    Some(ResolvedType::Class) => Ok(
                        FieldType::Class(name.clone()).with_arity(arity),
                    ),
                    Some(ResolvedType::Enum) => Ok(FieldType::Enum(name.clone()).with_arity(arity)),
                    None => Err(LowerError::UnresolvedIdentifier),
                },
                _ => Err(LowerError::UnsupportedIdentifierInTypePosition),
            },
            AstFieldType::List(inner, dims) => match inner.repr(db) {
                Err(e) => Err(e),
                Ok(first) => {
                    let ghost fv = first@;
                    let mut out = FieldType::List(Box::new(first));
                    let mut c: u32 = 1;
                    while c < *dims
                        invariant
                            1 <= c,
                            c <= *dims || c == 1,
                            out@ == nested_list(fv, c),
                        decreases *dims - c,
                    {
                        out = FieldType::List(Box::new(out));
                        c = c + 1;
                    }
                    proof {
                        if *dims <= 1 {
                            assert(nested_list(fv, 1) == nested_list(fv, *dims));
                        }
                    }
                    Ok(out)
                },
            },
            AstFieldType::Dictionary(k, v) => match k.repr(db) {
                Err(e) => Err(e),
                Ok(kk) => match v.repr(db) {
                    Err(e) => Err(e),
                    Ok(vv) => Ok(FieldType::Dict(Box::new(kk), Box::new(vv))),
                },
            },
            AstFieldType::Union(arity, ts) => match lower_type_list(db, ts) {
                Err(e) => Err(e),
                Ok(mut members) => {
                    let ghost ms = members.deep_view();
                    if arity.is_optional() {
                        members.push(FieldType::Primitive(TypeValue::Null));
                        proof {
                            assert(members.deep_view() =~= ms.push(
                                FieldTypeV::Primitive(TypeValue::Null),
                            ));
                        }
                    }
                    proof {
                        crate::ir::lemma_field_type_views_index(members@);
                        assert(crate::ir::field_type_views(members@) =~= members.deep_view());
                    }
                    Ok(FieldType::Union(members))
                },
            },
            AstFieldType::Tuple(arity, ts) => match lower_type_list(db, ts) {
                Err(e) => Err(e),
                Ok(members) => Ok(FieldType::Tuple(members).with_arity(arity)),
            },
        }
    }
}

/// Lowers every member of a type list, stopping at the first error.
fn lower_type_list(db: &ParserDatabase, ts: &Vec<AstFieldType>) -> (r: Result<
    Vec<FieldType>,
    LowerError,
>)
    ensures
        match r {
            Ok(ms) => spec_lower_types(db@, ast_field_type_views(ts@)) == Ok::<Seq<FieldTypeV>, LowerError>(ms.deep_view())
                && field_type_views_of(ms) == ms.deep_view(),
            Err(e) => spec_lower_types(db@, ast_field_type_views(ts@)) == Err::<
                Seq<FieldTypeV>,
                LowerError,
            >(e),
        },
    decreases ts@,
{
    let ghost tsv = ast_field_type_views(ts@);
    let ghost f = |t: AstFieldTypeV| spec_lower_type(db@, t);
    proof {
        lemma_ast_field_type_views_index(ts@);
        assert(tsv.subrange(0, 0) =~= Seq::<AstFieldTypeV>::empty());
    }
    let n = ts.len();
    let mut members: Vec<FieldType> = Vec::new();
    proof {
        assert(members.deep_view() =~= Seq::<FieldTypeV>::empty());
    }
    let mut i: usize = 0;
    while i < n
        invariant
            i <= n,
            n == ts.len(),
            tsv == ast_field_type_views(ts@),
            tsv.len() == n,
            forall|j: int| 0 <= j < n ==> tsv[j] == ast_field_type_view(ts@[j]),
            f == (|t: AstFieldTypeV| spec_lower_type(db@, t)),
            lower_seq(f, tsv.subrange(0, i as int)) == Ok::<Seq<FieldTypeV>, LowerError>(members.deep_view()),
        decreases n - i,
    {
        match ts[i].repr(db) {
            Err(e) => {
                proof {
                    lemma_lower_seq_step(f, tsv, i + 1);
                    lemma_lower_seq_err(f, tsv, i + 1);
                    lemma_lower_types_is_fold(db@, tsv);
                }
                return Err(e);
            },
            Ok(m) => {
                let ghost old_members = members.deep_view();
                members.push(m);
                proof {
                    lemma_lower_seq_step(f, tsv, i + 1);
                    assert(members.deep_view() =~= old_members.push(m@));
                }
            },
        }
        i = i + 1;
    }
    proof {
        assert(tsv.subrange(0, n as int) =~= tsv);
        lemma_lower_types_is_fold(db@, tsv);
        crate::ir::lemma_field_type_views_index(members@);
        assert(field_type_views_of(members) =~= members.deep_view());
    }
    Ok(members)
}

/// The views of a vector of lowered types, element by element.
pub open spec fn field_type_views_of(ms: Vec<FieldType>) -> Seq<FieldTypeV> {
    crate::ir::field_type_views(ms@)
}

/// What lowering a surface expression yields.
pub open spec fn spec_lower_expr(e: AstExpressionV) -> Result<ExpressionV, LowerError>
    decreases e,
{
    match e {
        AstExpressionV::NumericValue(s) => Ok(ExpressionV::Numeric(s)),
        AstExpressionV::StringValue(s) => Ok(ExpressionV::String(s)),
        AstExpressionV::RawStringValue(s) => Ok(ExpressionV::RawString(s)),
        AstExpressionV::Identifier(idn) => match idn {
            AstIdentifierV::ENV(k) => Ok(ExpressionV::Identifier(IdentifierV::ENV(k))),
            AstIdentifierV::String(s) => Ok(ExpressionV::String(s)),
            AstIdentifierV::Local(l) => Ok(ExpressionV::Identifier(IdentifierV::Local(l))),
            AstIdentifierV::Ref(p) => Ok(ExpressionV::Identifier(IdentifierV::Ref(p))),
            AstIdentifierV::Primitive(p) => Ok(ExpressionV::Identifier(IdentifierV::Primitive(p))),
            AstIdentifierV::Invalid => Err(LowerError::InvalidIdentifierLowering),
        },
        AstExpressionV::Array(es) => match spec_lower_exprs(es) {
            Err(e) => Err(e),
            Ok(ls) => Ok(ExpressionV::List(ls)),
        },
        AstExpressionV::Dict(kvs) => match spec_lower_expr_pairs(kvs) {
            Err(e) => Err(e),
            Ok(ps) => Ok(ExpressionV::Dict(ps)),
        },
    }
}

/// Lowers an expression list, leftmost error first.
pub open spec fn spec_lower_exprs(es: Seq<AstExpressionV>) -> Result<Seq<ExpressionV>, LowerError>
    decreases es,
{
    if es.len() == 0 {
        Ok(Seq::empty())
    } else {
        match spec_lower_exprs(es.subrange(0, es.len() - 1)) {
            Err(e) => Err(e),
            Ok(pre) => match spec_lower_expr(es[es.len() - 1]) {
                Err(e) => Err(e),
                Ok(x) => Ok(pre.push(x)),
            },
        }
    }
}

/// Lowers a key/value pair, key first.
pub open spec fn spec_lower_expr_pair(p: (AstExpressionV, AstExpressionV)) -> Result<
    (ExpressionV, ExpressionV),
    LowerError,
>
    decreases p,
{
    match spec_lower_expr(p.0) {
        Err(e) => Err(e),
        Ok(k) => match spec_lower_expr(p.1) {
            Err(e) => Err(e),
            Ok(v) => Ok((k, v)),
        },
    }
}

/// Lowers a key/value list, leftmost error first.
pub open spec fn spec_lower_expr_pairs(kvs: Seq<(AstExpressionV, AstExpressionV)>) -> Result<
    Seq<(ExpressionV, ExpressionV)>,
    LowerError,
>
    decreases kvs,
{
    if kvs.len() == 0 {
        Ok(Seq::empty())
    } else {
        match spec_lower_expr_pairs(kvs.subrange(0, kvs.len() - 1)) {
            Err(e) => Err(e),
            Ok(pre) => match spec_lower_expr_pair(kvs[kvs.len() - 1]) {
                Err(e) => Err(e),
                Ok(p) => Ok(pre.push(p)),
            },
        }
    }
}

/// `spec_lower_exprs` is the fail-fast fold of `spec_lower_expr`.
pub proof fn lemma_lower_exprs_is_fold(es: Seq<AstExpressionV>)
    ensures
        spec_lower_exprs(es) == lower_seq(|e: AstExpressionV| spec_lower_expr(e), es),
    decreases es.len(),
{
    if es.len() > 0 {
        lemma_lower_exprs_is_fold(es.subrange(0, es.len() - 1));
    }
}

/// `spec_lower_expr_pairs` is the fail-fast fold of `spec_lower_expr_pair`.
pub proof fn lemma_lower_expr_pairs_is_fold(kvs: Seq<(AstExpressionV, AstExpressionV)>)
    ensures
        spec_lower_expr_pairs(kvs) == lower_seq(
            |p: (AstExpressionV, AstExpressionV)| spec_lower_expr_pair(p),
            kvs,
        ),
    decreases kvs.len(),
{
    if kvs.len() > 0 {
        lemma_lower_expr_pairs_is_fold(kvs.subrange(0, kvs.len() - 1));
    }
}

impl AstExpression {
    /// Lowers a surface expression into its IR form.
    pub fn repr(&self, db: &ParserDatabase) -> (r: Result<Expression, LowerError>)
        ensures
            ok_view(r) == spec_lower_expr(self@),
        decreases *self,
    {
        match self {
            AstExpression::NumericValue(s) => Ok(Expression::Numeric(s.clone())),
            AstExpression::StringValue(s) => Ok(Expression::String(s.clone())),
            AstExpression::RawStringValue(s) => Ok(Expression::RawString(s.clone())),
            AstExpression::Identifier(idn) => match idn {
                AstIdentifier::ENV(k) => Ok(Expression::Identifier(Identifier::ENV(k.clone()))),
                AstIdentifier::String(s) => Ok(Expression::String(s.clone())),
                AstIdentifier::Local(l) => Ok(Expression::Identifier(Identifier::Local(l.clone()))),
                AstIdentifier::Ref(p) => Ok(
                    Expression::Identifier(Identifier::Ref(clone_string_vec(p))),
                ),
                AstIdentifier::Primitive(t) => Ok(
                    Expression::Identifier(Identifier::Primitive(*t)),
                ),
                AstIdentifier::Invalid => Err(LowerError::InvalidIdentifierLowering),
            },
            AstExpression::Array(arr) => match lower_expr_list(db, arr) {
                Err(e) => Err(e),
                Ok(items) => Ok(Expression::List(items)),
            },
            AstExpression::Dict(kvs) => match lower_expr_pair_list(db, kvs) {
                Err(e) => Err(e),
                Ok(items) => Ok(Expression::Dict(items)),
            },
        }
    }
}


/// Clones a vector of strings, preserving every element.
fn clone_string_vec(p: &Vec<String>) -> (r: Vec<String>)
    ensures
        r.deep_view() == p.deep_view(),
{
    let m = p.len();
    let mut path: Vec<String> = Vec::new();
    let mut i: usize = 0;
    while i < m
        invariant
            i <= m,
            m == p.len(),
            path@.len() == i,
            forall|j: int| 0 <= j < i ==> path@[j] == p@[j],
        decreases m - i,
    {
        path.push(p[i].clone());
        i = i + 1;
    }
    proof {
        assert forall|j: int| 0 <= j < m implies path.deep_view()[j] == p.deep_view()[j] by {
            assert(path@[j] == p@[j]);
        }
        assert(path.deep_view() =~= p.deep_view());
    }
    path
}

/// Lowers every element of an expression list, stopping at the first
/// error.
fn lower_expr_list(db: &ParserDatabase, arr: &Vec<AstExpression>) -> (r: Result<
    Vec<Expression>,
    LowerError,
>)
    ensures
        match r {
            Ok(items) => spec_lower_exprs(ast_expression_views(arr@)) == Ok::<
                Seq<ExpressionV>,
                LowerError,
            >(items.deep_view()) && crate::ir::expression_views(items@) == items.deep_view(),
            Err(e) => spec_lower_exprs(ast_expression_views(arr@)) == Err::<
                Seq<ExpressionV>,
                LowerError,
            >(e),
        },
    decreases arr@,
{
    let ghost esv = ast_expression_views(arr@);
    let ghost f = |e: AstExpressionV| spec_lower_expr(e);
    proof {
        lemma_ast_expression_views_index(arr@);
        assert(esv.subrange(0, 0) =~= Seq::<AstExpressionV>::empty());
    }
    let n = arr.len();
    let mut items: Vec<Expression> = Vec::new();
    proof {
        assert(items.deep_view() =~= Seq::<ExpressionV>::empty());
    }
    let mut i: usize = 0;
    while i < n
        invariant
            i <= n,
            n == arr.len(),
            esv == ast_expression_views(arr@),
            esv.len() == n,
            forall|j: int| 0 <= j < n ==> esv[j] == ast_expression_view(arr@[j]),
            f == (|e: AstExpressionV| spec_lower_expr(e)),
            lower_seq(f, esv.subrange(0, i as int)) == Ok::<Seq<ExpressionV>, LowerError>(
                items.deep_view(),
            ),
        decreases n - i,
    {
        match arr[i].repr(db) {
            Err(e) => {
                proof {
                    lemma_lower_seq_step(f, esv, i + 1);
                    lemma_lower_seq_err(f, esv, i + 1);
                    lemma_lower_exprs_is_fold(esv);
                }
                return Err(e);
            },
            Ok(x) => {
                let ghost old_items = items.deep_view();
                let ghost xv = x@;
                items.push(x);
                proof {
                    lemma_lower_seq_step(f, esv, i + 1);
                    assert(items.deep_view() =~= old_items.push(xv));
                }
            },
        }
        i = i + 1;
    }
    proof {
        assert(esv.subrange(0, n as int) =~= esv);
        lemma_lower_exprs_is_fold(esv);
        crate::ir::lemma_expression_views_index(items@);
        assert(crate::ir::expression_views(items@) =~= items.deep_view());
    }
    Ok(items)
}

/// Lowers every key/value pair of an expression map, key before value,
/// stopping at the first error.
fn lower_expr_pair_list(db: &ParserDatabase, kvs: &Vec<(AstExpression, AstExpression)>) -> (r:
    Result<Vec<(Expression, Expression)>, LowerError>)
    ensures
        match r {
            Ok(items) => spec_lower_expr_pairs(ast_expression_pair_views(kvs@)) == Ok::<
                Seq<(ExpressionV, ExpressionV)>,
                LowerError,
            >(items.deep_view()) && crate::ir::expression_pair_views(items@)
                == items.deep_view(),
            Err(e) => spec_lower_expr_pairs(ast_expression_pair_views(kvs@)) == Err::<
                Seq<(ExpressionV, ExpressionV)>,
                LowerError,
            >(e),
        },
    decreases kvs@,
{
    let ghost psv = ast_expression_pair_views(kvs@);
    let ghost f = |p: (AstExpressionV, AstExpressionV)| spec_lower_expr_pair(p);
    proof {
        lemma_ast_expression_pair_views_index(kvs@);
        assert(psv.subrange(0, 0) =~= Seq::<(AstExpressionV, AstExpressionV)>::empty());
    }
    let n = kvs.len();
    let mut items: Vec<(Expression, Expression)> = Vec::new();
    proof {
        assert(items.deep_view() =~= Seq::<(ExpressionV, ExpressionV)>::empty());
    }
    let mut i: usize = 0;
    while i < n
        invariant
            i <= n,
            n == kvs.len(),
            psv == ast_expression_pair_views(kvs@),
            psv.len() == n,
            forall|j: int|
                0 <= j < n ==> psv[j] == (
                    ast_expression_view(kvs@[j].0),
                    ast_expression_view(kvs@[j].1),
                ),
            f == (|p: (AstExpressionV, AstExpressionV)| spec_lower_expr_pair(p)),
            lower_seq(f, psv.subrange(0, i as int)) == Ok::<
                Seq<(ExpressionV, ExpressionV)>,
                LowerError,
            >(items.deep_view()),
        decreases n - i,
    {
        let k_lowered = match kvs[i].0.repr(db) {
            Err(e) => {
                proof {
                    lemma_lower_seq_step(f, psv, i + 1);
                    lemma_lower_seq_err(f, psv, i + 1);
                    lemma_lower_expr_pairs_is_fold(psv);
                }
                return Err(e);
            },
            Ok(k) => k,
        };
        match kvs[i].1.repr(db) {
            Err(e) => {
                proof {
                    lemma_lower_seq_step(f, psv, i + 1);
                    lemma_lower_seq_err(f, psv, i + 1);
                    lemma_lower_expr_pairs_is_fold(psv);
                }
                return Err(e);
            },
            Ok(v) => {
                let ghost old_items = items.deep_view();
                let ghost pair_view = (k_lowered@, v@);
                items.push((k_lowered, v));
                proof {
                    lemma_lower_seq_step(f, psv, i + 1);
                    assert(items.deep_view() =~= old_items.push(pair_view));
                }
            },
        }
        i = i + 1;
    }
    proof {
        assert(psv.subrange(0, n as int) =~= psv);
        lemma_lower_expr_pairs_is_fold(psv);
        crate::ir::lemma_expression_pair_views_index(items@);
        assert(crate::ir::expression_pair_views(items@) =~= items.deep_view());
    }
    Ok(items)
}

} // verus!
