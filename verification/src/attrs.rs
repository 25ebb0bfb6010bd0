//! The attribute and override resolver: computes one declaration's default
//! attribute entries, and sweeps every (function, implementation) pair for
//! the overrides it declares against that declaration.

use vstd::prelude::*;

use indexmap::IndexMap;

use crate::db::{
    assoc_first, ParserDatabase, ParserDatabaseV, StaticStringAttributesV, ToStringAttributes,
    ToStringAttributesV, VariantDeclV,
};
use crate::imap::{
    expr_map_entries, expr_map_insert, expr_map_len, expr_map_new, insert_entry,
    override_map_entries, override_map_insert, override_map_new,
};
use crate::ir::{AttrEntriesV, Expression, ExpressionV, NodeAttributes, NodeAttributesV,
    OverrideEntriesV};

verus! {

/// Folds declared metadata into attribute entries, in declaration order.
pub open spec fn spec_insert_meta(e: AttrEntriesV, metas: Seq<(Seq<char>, Seq<char>)>) -> AttrEntriesV
    decreases metas.len(),
{
    if metas.len() == 0 {
        e
    } else {
        spec_insert_meta(
            insert_entry(e, metas[0].0, ExpressionV::String(metas[0].1)),
            metas.subrange(1, metas.len() as int),
        )
    }
}

/// Folds per-language code snippets into attribute entries, each under a
/// `get/<language>` key.
pub open spec fn spec_insert_code(e: AttrEntriesV, code: Seq<(Seq<char>, Seq<char>)>) -> AttrEntriesV
    decreases code.len(),
{
    if code.len() == 0 {
        e
    } else {
        spec_insert_code(
            insert_entry(e, "get/"@ + code[0].0, ExpressionV::String(code[0].1)),
            code.subrange(1, code.len() as int),
        )
    }
}

/// The attribute entries of a static attribute block: a skip marker, an
/// alias, then the declared metadata, in that order.
pub open spec fn spec_static_attrs(s: StaticStringAttributesV) -> AttrEntriesV {
    let e0 = Seq::<(Seq<char>, ExpressionV)>::empty();
    let e1 = if s.skip {
        insert_entry(e0, "skip"@, ExpressionV::String(Seq::empty()))
    } else {
        e0
    };
    let e2 = match s.alias {
        Some(a) => insert_entry(e1, "alias"@, ExpressionV::String(a)),
        None => e1,
    };
    spec_insert_meta(e2, s.meta)
}

/// What a declaration's own attributes lower to; absent attributes lower
/// to no entries.
pub open spec fn spec_ir_attributes(a: Option<ToStringAttributesV>) -> AttrEntriesV {
    match a {
        None => Seq::empty(),
        Some(ToStringAttributesV::Static(s)) => spec_static_attrs(s),
        Some(ToStringAttributesV::Dynamic(d)) => spec_insert_code(Seq::empty(), d.code),
    }
}

/// Lowers a declaration's own attributes into an attribute map.
pub fn to_ir_attributes(maybe_ast_attributes: Option<&ToStringAttributes>) -> (r: IndexMap<
    String,
    Expression,
>)
    ensures
        expr_map_entries(r) == spec_ir_attributes(maybe_ast_attributes.deep_view()),
{
    let mut attributes = expr_map_new();
    match maybe_ast_attributes {
        None => {},
        Some(ToStringAttributes::Static(s)) => {
            if s.skip {
                expr_map_insert(
                    &mut attributes,
                    String::from_str("skip"),
                    Expression::String(String::new()),
                );
            }
            match &s.alias {
                Some(v) => {
                    expr_map_insert(
                        &mut attributes,
                        String::from_str("alias"),
                        Expression::String(v.clone()),
                    );
                },
                None => {},
            }
            let ghost sv = match maybe_ast_attributes.deep_view() {
                Some(ToStringAttributesV::Static(sv)) => sv,
                _ => arbitrary(),
            };
            let n = s.meta.len();
            let mut i: usize = 0;
            proof {
                assert(sv.meta.subrange(0, n as int) =~= sv.meta);
            }
            while i < n
                invariant
                    i <= n,
                    n == s.meta.len(),
                    sv.meta == s.meta.deep_view(),
                    sv.meta.len() == n,
                    spec_insert_meta(
                        expr_map_entries(attributes),
                        sv.meta.subrange(i as int, n as int),
                    ) == spec_static_attrs(sv),
                decreases n - i,
            {
                proof {
                    let rest = sv.meta.subrange(i as int, n as int);
                    assert(rest.subrange(1, rest.len() as int) =~= sv.meta.subrange(
                        i + 1,
                        n as int,
                    ));
                }
                expr_map_insert(
                    &mut attributes,
                    s.meta[i].0.clone(),
                    Expression::String(s.meta[i].1.clone()),
                );
                i = i + 1;
            }
            proof {
                assert(sv.meta.subrange(n as int, n as int) =~= Seq::<
                    (Seq<char>, Seq<char>),
                >::empty());
            }
        },
        Some(ToStringAttributes::Dynamic(d)) => {
            let ghost dv = match maybe_ast_attributes.deep_view() {
                Some(ToStringAttributesV::Dynamic(dv)) => dv,
                _ => arbitrary(),
            };
            let n = d.code.len();
            let mut i: usize = 0;
            proof {
                assert(dv.code.subrange(0, n as int) =~= dv.code);
            }
            while i < n
                invariant
                    i <= n,
                    n == d.code.len(),
                    dv.code == d.code.deep_view(),
                    dv.code.len() == n,
                    spec_insert_code(
                        expr_map_entries(attributes),
                        dv.code.subrange(i as int, n as int),
                    ) == spec_insert_code(Seq::empty(), dv.code),
                decreases n - i,
            {
                proof {
                    let rest = dv.code.subrange(i as int, n as int);
                    assert(rest.subrange(1, rest.len() as int) =~= dv.code.subrange(
                        i + 1,
                        n as int,
                    ));
                }
                let mut key = String::from_str("get/");
                key.append(d.code[i].0.as_str());
                expr_map_insert(
                    &mut attributes,
                    key,
                    Expression::String(d.code[i].1.clone()),
                );
                i = i + 1;
            }
            proof {
                assert(dv.code.subrange(n as int, n as int) =~= Seq::<
                    (Seq<char>, Seq<char>),
                >::empty());
            }
        },
    }
    attributes
}

/// Which declaration an override sweep asks about: a whole enum or class
/// by name, or one member (an enum value or a class field) by owner and
/// member name.
#[derive(Clone, Copy)]
pub enum OverrideTarget<'a> {
    Serializer(&'a str),
    Member(&'a str, &'a str),
}

/// Mathematical counterpart of `OverrideTarget`.
pub enum OverrideTargetV {
    Serializer(Seq<char>),
    Member(Seq<char>, Seq<char>),
}

impl<'a> View for OverrideTarget<'a> {
    type V = OverrideTargetV;

    open spec fn view(&self) -> OverrideTargetV {
        match self {
            OverrideTarget::Serializer(name) => OverrideTargetV::Serializer(name@),
            OverrideTarget::Member(owner, member) => OverrideTargetV::Member(owner@, member@),
        }
    }
}

/// What one implementation variant declares for the target, if anything.
pub open spec fn spec_variant_lookup(v: VariantDeclV, t: OverrideTargetV) -> Option<
    ToStringAttributesV,
> {
    match t {
        OverrideTargetV::Serializer(name) => assoc_first(v.serializer_attrs, name),
        OverrideTargetV::Member(owner, member) => assoc_first(v.member_overrides, (owner, member)),
    }
}

/// Folds one function's variants into the override table: a variant
/// contributes a key only when its lowered override entries are
/// non-empty.
pub open spec fn spec_variant_overrides(
    acc: OverrideEntriesV,
    fname: Seq<char>,
    vars: Seq<VariantDeclV>,
    t: OverrideTargetV,
) -> OverrideEntriesV
    decreases vars.len(),
{
    if vars.len() == 0 {
        acc
    } else {
        let attrs = spec_ir_attributes(spec_variant_lookup(vars[0], t));
        let acc2 = if attrs.len() > 0 {
            insert_entry(acc, (fname, vars[0].name), attrs)
        } else {
            acc
        };
        spec_variant_overrides(acc2, fname, vars.subrange(1, vars.len() as int), t)
    }
}

/// Folds every function's variants into the override table, in
/// declaration order.
pub open spec fn spec_function_overrides(
    acc: OverrideEntriesV,
    fns: Seq<crate::db::FunctionDeclV>,
    t: OverrideTargetV,
) -> OverrideEntriesV
    decreases fns.len(),
{
    if fns.len() == 0 {
        acc
    } else {
        spec_function_overrides(
            spec_variant_overrides(acc, fns[0].name, fns[0].variants, t),
            fns.subrange(1, fns.len() as int),
            t,
        )
    }
}

/// The override table the sweep produces for one target.
pub open spec fn spec_overrides(db: ParserDatabaseV, t: OverrideTargetV) -> OverrideEntriesV {
    spec_function_overrides(Seq::empty(), db.functions, t)
}

/// Computes a declaration's node attributes: its own defaults, and the
/// overrides contributed by every (function, implementation) pair.
pub fn attributes_for(
    db: &ParserDatabase,
    defaults: Option<&ToStringAttributes>,
    target: OverrideTarget,
) -> (r: NodeAttributes)
    ensures
        r@ == (NodeAttributesV {
            meta: spec_ir_attributes(defaults.deep_view()),
            overrides: spec_overrides(db@, target@),
        }),
{
    let meta = to_ir_attributes(defaults);
    let mut overrides = override_map_new();
    let n = db.functions.len();
    let mut i: usize = 0;
    proof {
        assert(override_map_entries(overrides) =~= Seq::<
            ((Seq<char>, Seq<char>), AttrEntriesV),
        >::empty());
        assert(db@.functions.subrange(0, n as int) =~= db@.functions);
    }
    while i < n
        invariant
            i <= n,
            n == db.functions.len(),
            db@.functions.len() == n,
            spec_function_overrides(
                override_map_entries(overrides),
                db@.functions.subrange(i as int, n as int),
                target@,
            ) == spec_overrides(db@, target@),
        decreases n - i,
    {
        let f = &db.functions[i];
        let ghost fv = db@.functions[i as int];
        let m = f.variants.len();
        let mut j: usize = 0;
        proof {
            let rest = db@.functions.subrange(i as int, n as int);
            assert(rest.subrange(1, rest.len() as int) =~= db@.functions.subrange(
                i + 1,
                n as int,
            ));
            assert(fv.variants.subrange(0, fv.variants.len() as int) =~= fv.variants);
        }
        while j < m
            invariant
                j <= m,
                m == f.variants.len(),
                fv == db@.functions[i as int],
                fv.variants.len() == m,
                0 <= i < n,
                n == db.functions.len(),
                db@.functions.len() == n,
                f == &db.functions[i as int],
                spec_function_overrides(
                    spec_variant_overrides(
                        override_map_entries(overrides),
                        fv.name,
                        fv.variants.subrange(j as int, m as int),
                        target@,
                    ),
                    db@.functions.subrange(i + 1, n as int),
                    target@,
                ) == spec_overrides(db@, target@),
            decreases m - j,
        {
            let variant = &f.variants[j];
            let ghost vv = fv.variants[j as int];
            proof {
                let rest = fv.variants.subrange(j as int, m as int);
                assert(rest.subrange(1, rest.len() as int) =~= fv.variants.subrange(
                    j + 1,
                    m as int,
                ));
                assert(variant@ == vv);
            }
            let found = match target {
                OverrideTarget::Serializer(name) => variant.find_serializer_attributes(name),
                OverrideTarget::Member(owner, member) => variant.find_member_override(
                    owner,
                    member,
                ),
            };
            let node_attributes = to_ir_attributes(found);
            if expr_map_len(&node_attributes) > 0 {
                override_map_insert(
                    &mut overrides,
                    (f.name.clone(), variant.name.clone()),
                    node_attributes,
                );
            }
            j = j + 1;
        }
        proof {
            assert(fv.variants.subrange(m as int, m as int) =~= Seq::<VariantDeclV>::empty());
        }
        i = i + 1;
    }
    proof {
        assert(db@.functions.subrange(n as int, n as int) =~= Seq::<
            crate::db::FunctionDeclV,
        >::empty());
    }
    NodeAttributes { meta, overrides }
}

} // verus!
