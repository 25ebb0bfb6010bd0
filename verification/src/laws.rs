//! Properties of the build, stated and proved once and for all: the
//! builder is deterministic, its output is name-sorted, arity lowers
//! uniformly, overrides stay isolated to the pair that declared them, a
//! required-first argument order is kept stable, one bad declaration
//! fails the whole build, and a named return type is always rejected.

use vstd::prelude::*;

use crate::attrs::{
    spec_function_overrides, spec_ir_attributes, spec_overrides, spec_variant_lookup,
    spec_variant_overrides, OverrideTargetV,
};
use crate::builder::{
    class_node_of, client_node_of, function_node_of, retry_policy_node_of, spec_build,
    IntermediateReprV,
};
use crate::db::{FunctionDeclV, ParserDatabaseV, VariantDeclV};
use crate::fold::{lemma_lower_seq_ok, lower_seq};
use crate::imap::{has_entry_key, insert_entry};
use crate::ir::{AttrEntriesV, FieldTypeV, FunctionV, LowerError, NodeV};
use crate::ast::{AstFieldTypeV, AstIdentifierV, FieldArity, TypeValue};
use crate::lower::{spec_lower_type, spec_lower_types};
use crate::nodes::{
    spec_args_with_optionality, spec_function_inputs, spec_function_node, spec_sorted_args,
    NamedArgV,
};
use crate::order::{lemma_lex_le_total, lex_le};
use crate::sort::{node_name, spec_insert_sorted, spec_sort_nodes, Named};

verus! {

/// Determinism: one database value yields one build result; any two
/// results of building the same snapshot are equal, so any serialization
/// of them is byte-identical.
pub proof fn lemma_build_deterministic(
    db: ParserDatabaseV,
    r1: Result<IntermediateReprV, LowerError>,
    r2: Result<IntermediateReprV, LowerError>,
)
    requires
        r1 == spec_build(db),
        r2 == spec_build(db),
    ensures
        r1 == r2,
{
}

/// Whether a node sequence is sorted by name, adjacent pair by adjacent
/// pair.
pub open spec fn sorted_by_name<T: Named>(s: Seq<NodeV<<T as DeepView>::V>>) -> bool {
    forall|i: int|
        0 <= i < s.len() - 1 ==> lex_le(
            node_name::<T>(#[trigger] s[i]),
            node_name::<T>(s[i + 1]),
        )
}

/// Inserting into a sorted sequence keeps it sorted.
pub proof fn lemma_insert_sorted_stays_sorted<T: Named>(
    x: NodeV<<T as DeepView>::V>,
    s: Seq<NodeV<<T as DeepView>::V>>,
)
    requires
        sorted_by_name::<T>(s),
    ensures
        sorted_by_name::<T>(spec_insert_sorted::<T>(x, s)),
    decreases s.len(),
{
    if s.len() == 0 {
    } else if lex_le(node_name::<T>(x), node_name::<T>(s[0])) {
        let r = seq![x] + s;
        assert forall|i: int|
            0 <= i < r.len() - 1 implies lex_le(
            node_name::<T>(#[trigger] r[i]),
            node_name::<T>(r[i + 1]),
        ) by {
            if i > 0 {
                assert(r[i] == s[i - 1]);
                assert(r[i + 1] == s[i]);
            }
        }
    } else {
        let rest = s.subrange(1, s.len() as int);
        assert(sorted_by_name::<T>(rest)) by {
            assert forall|i: int|
                0 <= i < rest.len() - 1 implies lex_le(
                node_name::<T>(#[trigger] rest[i]),
                node_name::<T>(rest[i + 1]),
            ) by {
                assert(rest[i] == s[i + 1]);
                assert(rest[i + 1] == s[i + 2]);
            }
        }
        lemma_insert_sorted_stays_sorted::<T>(x, rest);
        let inner = spec_insert_sorted::<T>(x, rest);
        let r = seq![s[0]] + inner;
        lemma_lex_le_total(node_name::<T>(x), node_name::<T>(s[0]));
        assert forall|i: int|
            0 <= i < r.len() - 1 implies lex_le(
            node_name::<T>(#[trigger] r[i]),
            node_name::<T>(r[i + 1]),
        ) by {
            if i == 0 {
                // The head of the inserted tail is either x, ordered
                // after s[0], or the old second element.
                if rest.len() == 0 || lex_le(node_name::<T>(x), node_name::<T>(rest[0])) {
                    assert(inner[0] == x);
                } else {
                    assert(inner[0] == rest[0]);
                    assert(rest[0] == s[1]);
                }
                assert(r[1] == inner[0]);
            } else {
                assert(r[i] == inner[i - 1]);
                assert(r[i + 1] == inner[i]);
            }
        }
    }
}

/// The insertion sort sorts.
pub proof fn lemma_sort_sorted<T: Named>(s: Seq<NodeV<<T as DeepView>::V>>)
    ensures
        sorted_by_name::<T>(spec_sort_nodes::<T>(s)),
    decreases s.len(),
{
    if s.len() > 0 {
        lemma_sort_sorted::<T>(s.subrange(1, s.len() as int));
        lemma_insert_sorted_stays_sorted::<T>(
            s[0],
            spec_sort_nodes::<T>(s.subrange(1, s.len() as int)),
        );
    }
}

/// Sort invariant: after a successful build, every declaration sequence
/// is sorted by name, adjacent pair by adjacent pair.
pub proof fn lemma_build_sorted(db: ParserDatabaseV)
    requires
        spec_build(db) is Ok,
    ensures
        sorted_by_name::<crate::ir::Enum>(spec_build(db)->Ok_0.enums),
        sorted_by_name::<crate::ir::Class>(spec_build(db)->Ok_0.classes),
        sorted_by_name::<crate::ir::Function>(spec_build(db)->Ok_0.functions),
        sorted_by_name::<crate::ir::Client>(spec_build(db)->Ok_0.clients),
        sorted_by_name::<crate::ir::RetryPolicy>(spec_build(db)->Ok_0.retry_policies),
{
    lemma_sort_sorted::<crate::ir::Enum>(
        crate::fold::map_seq(crate::builder::enum_node_of(db), db.enums),
    );
    lemma_sort_sorted::<crate::ir::Class>(lower_seq(class_node_of(db), db.classes)->Ok_0);
    lemma_sort_sorted::<crate::ir::Function>(lower_seq(function_node_of(db), db.functions)->Ok_0);
    lemma_sort_sorted::<crate::ir::Client>(lower_seq(client_node_of(db), db.clients)->Ok_0);
    lemma_sort_sorted::<crate::ir::RetryPolicy>(
        lower_seq(retry_policy_node_of(db), db.retry_policies)->Ok_0,
    );
}

/// Arity law, scalar case: an optional scalar lowers to `Optional`
/// around exactly what the required form lowers to.
pub proof fn lemma_optional_scalar(db: ParserDatabaseV, idn: AstIdentifierV)
    ensures
        spec_lower_type(db, AstFieldTypeV::Identifier(FieldArity::Optional, idn)) == (
        match spec_lower_type(db, AstFieldTypeV::Identifier(FieldArity::Required, idn)) {
            Ok(base) => Ok::<FieldTypeV, LowerError>(FieldTypeV::Optional(Box::new(base))),
            Err(e) => Err(e),
        }),
{
}

/// Arity law, tuple case: an optional tuple lowers to `Optional` around
/// exactly what the required form lowers to.
pub proof fn lemma_optional_tuple(db: ParserDatabaseV, ts: Seq<AstFieldTypeV>)
    ensures
        spec_lower_type(db, AstFieldTypeV::Tuple(FieldArity::Optional, ts)) == (
        match spec_lower_type(db, AstFieldTypeV::Tuple(FieldArity::Required, ts)) {
            Ok(base) => Ok::<FieldTypeV, LowerError>(FieldTypeV::Optional(Box::new(base))),
            Err(e) => Err(e),
        }),
{
}

/// Arity law, union case: an optional union gains an explicit null
/// member instead of an `Optional` wrapping.
pub proof fn lemma_optional_union(db: ParserDatabaseV, ts: Seq<AstFieldTypeV>)
    ensures
        spec_lower_types(db, ts) is Ok ==> spec_lower_type(
            db,
            AstFieldTypeV::Union(FieldArity::Optional, ts),
        ) == Ok::<FieldTypeV, LowerError>(
            FieldTypeV::Union(
                spec_lower_types(db, ts)->Ok_0.push(FieldTypeV::Primitive(TypeValue::Null)),
            ),
        ),
        spec_lower_types(db, ts) is Ok ==> spec_lower_type(
            db,
            AstFieldTypeV::Union(FieldArity::Required, ts),
        ) == Ok::<FieldTypeV, LowerError>(FieldTypeV::Union(spec_lower_types(db, ts)->Ok_0)),
{
}

/// Inserting adds exactly one key.
pub proof fn lemma_insert_entry_keys<K, V0>(s: Seq<(K, V0)>, k: K, v: V0, probe: K)
    ensures
        has_entry_key(insert_entry(s, k, v), probe) <==> (has_entry_key(s, probe) || probe == k),
    decreases s.len(),
{
    let r = insert_entry(s, k, v);
    if s.len() == 0 {
        assert(r[0] == (k, v));
        assert(has_entry_key(r, probe) <==> probe == k) by {
            if probe == k {
                assert(r[0].0 == probe);
            }
            if has_entry_key(r, probe) {
                let i = choose|i: int| 0 <= i < r.len() && r[i].0 == probe;
                assert(i == 0);
            }
        }
        assert(!has_entry_key(s, probe)) by {
            if has_entry_key(s, probe) {
                let i = choose|i: int| 0 <= i < s.len() && s[i].0 == probe;
                assert(false);
            }
        }
    } else if s[0].0 == k {
        assert forall|i: int| 0 <= i < r.len() implies #[trigger] r[i].0 == s[i].0 by {
            if i == 0 {
            } else {
                assert(r[i] == s.subrange(1, s.len() as int)[i - 1]);
            }
        }
        assert(has_entry_key(r, probe) <==> has_entry_key(s, probe) || probe == k) by {
            if has_entry_key(r, probe) {
                let i = choose|i: int| 0 <= i < r.len() && r[i].0 == probe;
                assert(s[i].0 == probe);
            }
            if has_entry_key(s, probe) {
                let i = choose|i: int| 0 <= i < s.len() && s[i].0 == probe;
                assert(r[i].0 == probe);
            }
            if probe == k {
                assert(r[0].0 == k);
            }
        }
    } else {
        let rest = s.subrange(1, s.len() as int);
        lemma_insert_entry_keys(rest, k, v, probe);
        let inner = insert_entry(rest, k, v);
        assert(r == seq![s[0]] + inner);
        assert(has_entry_key(r, probe) <==> (probe == s[0].0 || has_entry_key(inner, probe))) by {
            if has_entry_key(r, probe) {
                let i = choose|i: int| 0 <= i < r.len() && r[i].0 == probe;
                if i > 0 {
                    assert(r[i] == inner[i - 1]);
                    assert(inner[i - 1].0 == probe);
                }
            }
            if has_entry_key(inner, probe) {
                let i = choose|i: int| 0 <= i < inner.len() && inner[i].0 == probe;
                assert(r[i + 1].0 == probe);
            }
            if probe == s[0].0 {
                assert(r[0].0 == probe);
            }
        }
        assert(has_entry_key(s, probe) <==> (probe == s[0].0 || has_entry_key(rest, probe))) by {
            if has_entry_key(s, probe) {
                let i = choose|i: int| 0 <= i < s.len() && s[i].0 == probe;
                if i > 0 {
                    assert(rest[i - 1].0 == probe);
                }
            }
            if has_entry_key(rest, probe) {
                let i = choose|i: int| 0 <= i < rest.len() && rest[i].0 == probe;
                assert(s[i + 1].0 == probe);
            }
            if probe == s[0].0 {
                assert(s[0].0 == probe);
            }
        }
    }
}

/// Which keys one function's variant fold contributes.
pub proof fn lemma_variant_overrides_keys(
    acc: crate::ir::OverrideEntriesV,
    fname: Seq<char>,
    vars: Seq<VariantDeclV>,
    t: OverrideTargetV,
    probe: (Seq<char>, Seq<char>),
)
    ensures
        has_entry_key(spec_variant_overrides(acc, fname, vars, t), probe) <==> (has_entry_key(
            acc,
            probe,
        ) || exists|vi: int|
            0 <= vi < vars.len() && probe == (fname, (#[trigger] vars[vi]).name)
                && spec_ir_attributes(spec_variant_lookup(vars[vi], t)).len() > 0),
    decreases vars.len(),
{
    if vars.len() == 0 {
    } else {
        let attrs = spec_ir_attributes(spec_variant_lookup(vars[0], t));
        let acc2 = if attrs.len() > 0 {
            insert_entry(acc, (fname, vars[0].name), attrs)
        } else {
            acc
        };
        let rest = vars.subrange(1, vars.len() as int);
        if attrs.len() > 0 {
            lemma_insert_entry_keys(acc, (fname, vars[0].name), attrs, probe);
        }
        lemma_variant_overrides_keys(acc2, fname, rest, t, probe);
        assert forall|vi: int| 0 <= vi < rest.len() implies #[trigger] rest[vi] == vars[vi + 1] by {}
        if has_entry_key(spec_variant_overrides(acc, fname, vars, t), probe) && !has_entry_key(
            acc,
            probe,
        ) {
            if exists|vi: int|
                0 <= vi < rest.len() && probe == (fname, (#[trigger] rest[vi]).name)
                    && spec_ir_attributes(spec_variant_lookup(rest[vi], t)).len() > 0 {
                let vi = choose|vi: int|
                    0 <= vi < rest.len() && probe == (fname, (#[trigger] rest[vi]).name)
                        && spec_ir_attributes(spec_variant_lookup(rest[vi], t)).len() > 0;
                assert(probe == (fname, vars[vi + 1].name));
            } else {
                assert(probe == (fname, vars[0].name) && attrs.len() > 0);
            }
        }
        if exists|vi: int|
            0 <= vi < vars.len() && probe == (fname, (#[trigger] vars[vi]).name)
                && spec_ir_attributes(spec_variant_lookup(vars[vi], t)).len() > 0 {
            let vi = choose|vi: int|
                0 <= vi < vars.len() && probe == (fname, (#[trigger] vars[vi]).name)
                    && spec_ir_attributes(spec_variant_lookup(vars[vi], t)).len() > 0;
            if vi == 0 {
            } else {
                assert(rest[vi - 1] == vars[vi]);
            }
        }
    }
}

/// Which keys the whole sweep contributes.
pub proof fn lemma_function_overrides_keys(
    acc: crate::ir::OverrideEntriesV,
    fns: Seq<FunctionDeclV>,
    t: OverrideTargetV,
    probe: (Seq<char>, Seq<char>),
)
    ensures
        has_entry_key(spec_function_overrides(acc, fns, t), probe) <==> (has_entry_key(acc, probe)
            || exists|fi: int, vi: int|
            0 <= fi < fns.len() && 0 <= vi < (#[trigger] fns[fi]).variants.len() && probe == (
                fns[fi].name,
                (#[trigger] fns[fi].variants[vi]).name,
            ) && spec_ir_attributes(spec_variant_lookup(fns[fi].variants[vi], t)).len() > 0),
    decreases fns.len(),
{
    if fns.len() == 0 {
    } else {
        let acc2 = spec_variant_overrides(acc, fns[0].name, fns[0].variants, t);
        let rest = fns.subrange(1, fns.len() as int);
        lemma_variant_overrides_keys(acc, fns[0].name, fns[0].variants, t, probe);
        lemma_function_overrides_keys(acc2, rest, t, probe);
        assert forall|fi: int| 0 <= fi < rest.len() implies #[trigger] rest[fi] == fns[fi + 1] by {}
        if has_entry_key(spec_function_overrides(acc, fns, t), probe) && !has_entry_key(
            acc,
            probe,
        ) {
            if exists|fi: int, vi: int|
                0 <= fi < rest.len() && 0 <= vi < (#[trigger] rest[fi]).variants.len() && probe
                    == (rest[fi].name, (#[trigger] rest[fi].variants[vi]).name)
                    && spec_ir_attributes(spec_variant_lookup(rest[fi].variants[vi], t)).len()
                    > 0 {
                let (fi, vi): (int, int) = choose|fi: int, vi: int|
                    0 <= fi < rest.len() && 0 <= vi < (#[trigger] rest[fi]).variants.len() && probe
                        == (rest[fi].name, (#[trigger] rest[fi].variants[vi]).name)
                        && spec_ir_attributes(spec_variant_lookup(rest[fi].variants[vi], t)).len()
                        > 0;
                assert(rest[fi] == fns[fi + 1]);
            } else {
                let vi = choose|vi: int|
                    0 <= vi < fns[0].variants.len() && probe == (
                        fns[0].name,
                        (#[trigger] fns[0].variants[vi]).name,
                    ) && spec_ir_attributes(spec_variant_lookup(fns[0].variants[vi], t)).len() > 0;
                assert(0 <= 0 < fns.len() && 0 <= vi < fns[0].variants.len());
            }
        }
        if exists|fi: int, vi: int|
            0 <= fi < fns.len() && 0 <= vi < (#[trigger] fns[fi]).variants.len() && probe == (
                fns[fi].name,
                (#[trigger] fns[fi].variants[vi]).name,
            ) && spec_ir_attributes(spec_variant_lookup(fns[fi].variants[vi], t)).len() > 0 {
            let (fi, vi): (int, int) = choose|fi: int, vi: int|
                0 <= fi < fns.len() && 0 <= vi < (#[trigger] fns[fi]).variants.len() && probe == (
                    fns[fi].name,
                    (#[trigger] fns[fi].variants[vi]).name,
                ) && spec_ir_attributes(spec_variant_lookup(fns[fi].variants[vi], t)).len() > 0;
            if fi > 0 {
                assert(rest[fi - 1] == fns[fi]);
            }
        }
    }
}

/// Override isolation: the sweep's table carries a key (F, A) exactly
/// when some function named F has an implementation named A that
/// declares a non-empty override for the target; an implementation with
/// no overrides contributes no key at all.
pub proof fn lemma_override_isolation(
    db: ParserDatabaseV,
    t: OverrideTargetV,
    fname: Seq<char>,
    iname: Seq<char>,
)
    ensures
        has_entry_key(spec_overrides(db, t), (fname, iname)) <==> exists|fi: int, vi: int|
            0 <= fi < db.functions.len() && 0 <= vi < (#[trigger] db.functions[fi]).variants.len()
                && fname == db.functions[fi].name && iname == (#[trigger] db.functions[fi].variants[vi]).name
                && spec_ir_attributes(spec_variant_lookup(db.functions[fi].variants[vi], t)).len()
                > 0,
{
    lemma_function_overrides_keys(Seq::empty(), db.functions, t, (fname, iname));
    assert(!has_entry_key(Seq::<((Seq<char>, Seq<char>), AttrEntriesV)>::empty(), (fname, iname)))
        by {
        if has_entry_key(Seq::<((Seq<char>, Seq<char>), AttrEntriesV)>::empty(), (fname, iname)) {
            let i = choose|i: int|
                0 <= i < Seq::<((Seq<char>, Seq<char>), AttrEntriesV)>::empty().len() && Seq::<
                    ((Seq<char>, Seq<char>), AttrEntriesV),
                >::empty()[i].0 == (fname, iname);
            assert(false);
        }
    }
}

/// Every element the partition keeps has the optionality it was kept
/// for.
pub proof fn lemma_partition_optionality(args: Seq<NamedArgV>, want: bool)
    ensures
        forall|i: int|
            0 <= i < spec_args_with_optionality(args, want).len() ==> (
            #[trigger] spec_args_with_optionality(args, want)[i]).1.spec_is_nullable() == want,
    decreases args.len(),
{
    if args.len() > 0 {
        let pre = args.subrange(0, args.len() - 1);
        lemma_partition_optionality(pre, want);
        let kept = spec_args_with_optionality(args, want);
        let kept_pre = spec_args_with_optionality(pre, want);
        assert forall|i: int| 0 <= i < kept.len() implies (#[trigger] kept[i]).1.spec_is_nullable()
            == want by {
            if args[args.len() - 1].1.spec_is_nullable() == want {
                assert(kept == kept_pre.push(args[args.len() - 1]));
                if i < kept_pre.len() {
                    assert(kept[i] == kept_pre[i]);
                }
            } else {
                assert(kept == kept_pre);
                assert(kept[i] == kept_pre[i]);
            }
        }
    }
}

/// Sort stability for function arguments: in the lowered order, no
/// optional argument ever precedes a required one, and source order is
/// kept within each group.
pub proof fn lemma_args_required_first(args: Seq<NamedArgV>)
    ensures
        forall|i: int, j: int|
            0 <= i < j < spec_sorted_args(args).len() && (
            #[trigger] spec_sorted_args(args)[i]).1.spec_is_nullable() ==> (
            #[trigger] spec_sorted_args(args)[j]).1.spec_is_nullable(),
{
    let req = spec_args_with_optionality(args, false);
    let opt = spec_args_with_optionality(args, true);
    lemma_partition_optionality(args, false);
    lemma_partition_optionality(args, true);
    assert forall|i: int, j: int|
        0 <= i < j < spec_sorted_args(args).len() && (
        #[trigger] spec_sorted_args(args)[i]).1.spec_is_nullable() implies (
    #[trigger] spec_sorted_args(args)[j]).1.spec_is_nullable() by {
        if i < req.len() {
            assert(spec_sorted_args(args)[i] == req[i]);
        } else {
            assert(spec_sorted_args(args)[j] == opt[j - req.len()]);
        }
    }
}

/// Fail-fast: the build succeeds exactly when every declaration of every
/// kind lowers; in particular one failing class aborts the whole build,
/// and no partial representation exists.
pub proof fn lemma_fail_fast_class(db: ParserDatabaseV, i: int)
    requires
        0 <= i < db.classes.len(),
        crate::nodes::spec_class_node(db, db.classes[i]) is Err,
    ensures
        spec_build(db) is Err,
{
    if lower_seq(class_node_of(db), db.classes) is Ok {
        lemma_lower_seq_ok(class_node_of(db), db.classes);
        assert(class_node_of(db)(db.classes[i]) is Ok);
        assert(false);
    }
}

/// Named returns rejected: a function whose output is a named argument
/// list fails with exactly `NamedReturnTypeNotAllowed`, however many
/// implementations it has, as long as its inputs lower.
pub proof fn lemma_named_output_rejected(db: ParserDatabaseV, f: FunctionDeclV)
    requires
        f.output is Named,
        spec_function_inputs(db, f.input) is Ok,
    ensures
        spec_function_node(db, f) == Err::<NodeV<FunctionV>, LowerError>(
            LowerError::NamedReturnTypeNotAllowed,
        ),
{
}

} // verus!
