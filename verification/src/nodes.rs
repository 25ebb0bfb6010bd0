//! The node lowerer: one lowering per declaration kind, each combining a
//! structural lowering with the declaration's resolved attributes into a
//! `Node`.

use vstd::prelude::*;

use crate::ast::{AstFieldType, AstFieldTypeV};
use crate::attrs::{
    attributes_for, spec_ir_attributes, spec_overrides, OverrideTarget,
    OverrideTargetV,
};
use crate::db::{
    ClassDecl, ClassDeclV, ClientDecl, ClientDeclV, EnumDecl, EnumDeclV, EnumValueDecl,
    EnumValueDeclV, FieldDecl, FieldDeclV, FunctionDecl, FunctionDeclV, ParserDatabase,
    ParserDatabaseV, RetryPolicyDecl, RetryPolicyDeclV, VariantDecl, VariantDeclV,
    AstFunctionArgs, AstFunctionArgsV,
};
use crate::fold::{
    lemma_lower_seq_err, lemma_lower_seq_step, lower_seq, map_seq, ok_view,
};
use crate::imap::{insert_entry, str_map_entries, str_map_insert, str_map_new};
use crate::ir::{
    Class, ClassV, Client, ClientV, Enum, EnumV, EnumValue, EnumValueV, Expression, ExpressionV,
    Field, FieldType, FieldTypeV, FieldV, Function, FunctionArgs, FunctionArgsV, FunctionV,
    Implementation, ImplementationV, LowerError, Node, NodeAttributes, NodeAttributesV, NodeV,
    OracleType, RetryPolicy, RetryPolicyId, RetryPolicyV,
};
use crate::lower::{spec_lower_expr, spec_lower_type};

verus! {

/// A lowered type wrapped in a node; a type's own attributes are empty.
pub open spec fn spec_type_node(db: ParserDatabaseV, t: AstFieldTypeV) -> Result<
    NodeV<FieldTypeV>,
    LowerError,
> {
    match spec_lower_type(db, t) {
        Err(e) => Err(e),
        Ok(ft) => Ok(NodeV { attributes: NodeAttributesV::empty(), elem: ft }),
    }
}

/// Lowers one type into an attribute-free node.
pub fn type_node(db: &ParserDatabase, t: &AstFieldType) -> (r: Result<Node<FieldType>, LowerError>)
    ensures
        ok_view(r) == spec_type_node(db@, t@),
{
    match t.repr(db) {
        Err(e) => Err(e),
        Ok(ft) => Ok(Node { attributes: NodeAttributes::default(), elem: ft }),
    }
}

/// What one enum value lowers to, with its own and overridden attributes.
pub open spec fn spec_enum_value_node(
    db: ParserDatabaseV,
    owner: Seq<char>,
    v: EnumValueDeclV,
) -> NodeV<EnumValueV> {
    NodeV {
        attributes: NodeAttributesV {
            meta: spec_ir_attributes(v.attributes),
            overrides: spec_overrides(db, OverrideTargetV::Member(owner, v.name)),
        },
        elem: EnumValueV { name: v.name },
    }
}

impl EnumValueDecl {
    /// Lowers one enum value; `owner` is the enum's name.
    pub fn node(&self, db: &ParserDatabase, owner: &str) -> (r: Node<EnumValue>)
        ensures
            r@ == spec_enum_value_node(db@, owner@, self@),
    {
        Node {
            attributes: attributes_for(
                db,
                self.attributes.as_ref(),
                OverrideTarget::Member(owner, self.name.as_str()),
            ),
            elem: EnumValue(self.name.clone()),
        }
    }
}

/// What one enum lowers to.
pub open spec fn spec_enum_node(db: ParserDatabaseV, e: EnumDeclV) -> NodeV<EnumV> {
    NodeV {
        attributes: NodeAttributesV {
            meta: spec_ir_attributes(e.attributes),
            overrides: spec_overrides(db, OverrideTargetV::Serializer(e.name)),
        },
        elem: EnumV {
            name: e.name,
            values: map_seq(|v: EnumValueDeclV| spec_enum_value_node(db, e.name, v), e.values),
        },
    }
}

impl EnumDecl {
    /// Lowers one enum; enum lowering itself cannot fail.
    pub fn node(&self, db: &ParserDatabase) -> (r: Result<Node<Enum>, LowerError>)
        ensures
            r is Ok,
            ok_view(r) == Ok::<NodeV<EnumV>, LowerError>(spec_enum_node(db@, self@)),
    {
        let ghost vsv = self@.values;
        let ghost g = |v: EnumValueDeclV| spec_enum_value_node(db@, self@.name, v);
        let n = self.values.len();
        let mut values: Vec<Node<EnumValue>> = Vec::new();
        proof {
            assert(values.deep_view() =~= map_seq(g, vsv.subrange(0, 0)));
        }
        let mut i: usize = 0;
        while i < n
            invariant
                i <= n,
                n == self.values.len(),
                vsv == self@.values,
                vsv.len() == n,
                g == (|v: EnumValueDeclV| spec_enum_value_node(db@, self@.name, v)),
                values.deep_view() == map_seq(g, vsv.subrange(0, i as int)),
            decreases n - i,
        {
            let ghost old_values = values.deep_view();
            let node = self.values[i].node(db, self.name.as_str());
            let ghost nv = node@;
            values.push(node);
            proof {
                let p = vsv.subrange(0, i + 1);
                assert(p.subrange(0, p.len() - 1) =~= vsv.subrange(0, i as int));
                assert(p[p.len() - 1] == vsv[i as int]);
                assert(values.deep_view() =~= old_values.push(nv));
            }
            i = i + 1;
        }
        proof {
            assert(vsv.subrange(0, n as int) =~= vsv);
        }
        Ok(
            Node {
                attributes: attributes_for(
                    db,
                    self.attributes.as_ref(),
                    OverrideTarget::Serializer(self.name.as_str()),
                ),
                elem: Enum { name: self.name.clone(), values },
            },
        )
    }
}

/// What one class field lowers to.
pub open spec fn spec_field_node(db: ParserDatabaseV, owner: Seq<char>, f: FieldDeclV) -> Result<
    NodeV<FieldV>,
    LowerError,
> {
    match spec_type_node(db, f.field_type) {
        Err(e) => Err(e),
        Ok(tn) => Ok(
            NodeV {
                attributes: NodeAttributesV {
                    meta: spec_ir_attributes(f.attributes),
                    overrides: spec_overrides(db, OverrideTargetV::Member(owner, f.name)),
                },
                elem: FieldV { name: f.name, field_type: tn },
            },
        ),
    }
}

impl FieldDecl {
    /// Lowers one class field; `owner` is the class's name.
    pub fn node(&self, db: &ParserDatabase, owner: &str) -> (r: Result<Node<Field>, LowerError>)
        ensures
            ok_view(r) == spec_field_node(db@, owner@, self@),
    {
        match type_node(db, &self.field_type) {
            Err(e) => Err(e),
            Ok(tn) => Ok(
                Node {
                    attributes: attributes_for(
                        db,
                        self.attributes.as_ref(),
                        OverrideTarget::Member(owner, self.name.as_str()),
                    ),
                    elem: Field { name: self.name.clone(), field_type: tn },
                },
            ),
        }
    }
}

/// Lowers one class's field list, stopping at the first error.
fn lower_fields(db: &ParserDatabase, owner: &str, fields: &Vec<FieldDecl>) -> (r: Result<
    Vec<Node<Field>>,
    LowerError,
>)
    ensures
        ({
            let f = |fd: FieldDeclV| spec_field_node(db@, owner@, fd);
            match r {
                Ok(ns) => lower_seq(f, fields.deep_view()) == Ok::<Seq<NodeV<FieldV>>, LowerError>(
                    ns.deep_view(),
                ),
                Err(e) => lower_seq(f, fields.deep_view()) == Err::<
                    Seq<NodeV<FieldV>>,
                    LowerError,
                >(e),
            }
        }),
{
    let ghost fsv = fields.deep_view();
    let ghost f = |fd: FieldDeclV| spec_field_node(db@, owner@, fd);
    let n = fields.len();
    let mut nodes: Vec<Node<Field>> = Vec::new();
    proof {
        assert(fsv.subrange(0, 0) =~= Seq::<FieldDeclV>::empty());
        assert(nodes.deep_view() =~= Seq::<NodeV<FieldV>>::empty());
    }
    let mut i: usize = 0;
    while i < n
        invariant
            i <= n,
            n == fields.len(),
            fsv == fields.deep_view(),
            fsv.len() == n,
            f == (|fd: FieldDeclV| spec_field_node(db@, owner@, fd)),
            lower_seq(f, fsv.subrange(0, i as int)) == Ok::<Seq<NodeV<FieldV>>, LowerError>(
                nodes.deep_view(),
            ),
        decreases n - i,
    {
        match fields[i].node(db, owner) {
            Err(e) => {
                proof {
                    lemma_lower_seq_step(f, fsv, i + 1);
                    lemma_lower_seq_err(f, fsv, i + 1);
                }
                return Err(e);
            },
            Ok(node) => {
                let ghost old_nodes = nodes.deep_view();
                let ghost nv = node@;
                nodes.push(node);
                proof {
                    lemma_lower_seq_step(f, fsv, i + 1);
                    assert(nodes.deep_view() =~= old_nodes.push(nv));
                }
            },
        }
        i = i + 1;
    }
    proof {
        assert(fsv.subrange(0, n as int) =~= fsv);
    }
    Ok(nodes)
}

/// What one class lowers to: static fields first, then dynamic ones,
/// each list stopping the build at its first error.
pub open spec fn spec_class_node(db: ParserDatabaseV, c: ClassDeclV) -> Result<
    NodeV<ClassV>,
    LowerError,
> {
    let f = |fd: FieldDeclV| spec_field_node(db, c.name, fd);
    match lower_seq(f, c.static_fields) {
        Err(e) => Err(e),
        Ok(st) => match lower_seq(f, c.dynamic_fields) {
            Err(e) => Err(e),
            Ok(dy) => Ok(
                NodeV {
                    attributes: NodeAttributesV {
                        meta: spec_ir_attributes(c.attributes),
                        overrides: spec_overrides(db, OverrideTargetV::Serializer(c.name)),
                    },
                    elem: ClassV { name: c.name, static_fields: st, dynamic_fields: dy },
                },
            ),
        },
    }
}

impl ClassDecl {
    /// Lowers one class.
    pub fn node(&self, db: &ParserDatabase) -> (r: Result<Node<Class>, LowerError>)
        ensures
            ok_view(r) == spec_class_node(db@, self@),
    {
        let st = match lower_fields(db, self.name.as_str(), &self.static_fields) {
            Err(e) => {
                return Err(e);
            },
            Ok(st) => st,
        };
        let dy = match lower_fields(db, self.name.as_str(), &self.dynamic_fields) {
            Err(e) => {
                return Err(e);
            },
            Ok(dy) => dy,
        };
        Ok(
            Node {
                attributes: attributes_for(
                    db,
                    self.attributes.as_ref(),
                    OverrideTarget::Serializer(self.name.as_str()),
                ),
                elem: Class {
                    name: self.name.clone(),
                    static_fields: st,
                    dynamic_fields: dy,
                },
            },
        )
    }
}

/// Folds replacer pairs into an insertion-ordered table.
pub open spec fn spec_insert_replacers(
    e: Seq<(Seq<char>, Seq<char>)>,
    pairs: Seq<(Seq<char>, Seq<char>)>,
) -> Seq<(Seq<char>, Seq<char>)>
    decreases pairs.len(),
{
    if pairs.len() == 0 {
        e
    } else {
        spec_insert_replacers(
            insert_entry(e, pairs[0].0, pairs[0].1),
            pairs.subrange(1, pairs.len() as int),
        )
    }
}

/// Builds a replacer table from declared pairs.
fn build_replacers(pairs: &Vec<(String, String)>) -> (r: indexmap::IndexMap<String, String>)
    ensures
        str_map_entries(r) == spec_insert_replacers(
            Seq::<(Seq<char>, Seq<char>)>::empty(),
            pairs.deep_view(),
        ),
{
    let ghost pv = pairs.deep_view();
    let mut m = str_map_new();
    let n = pairs.len();
    let mut i: usize = 0;
    proof {
        assert(pv.subrange(0, n as int) =~= pv);
    }
    while i < n
        invariant
            i <= n,
            n == pairs.len(),
            pv == pairs.deep_view(),
            pv.len() == n,
            spec_insert_replacers(str_map_entries(m), pv.subrange(i as int, n as int))
                == spec_insert_replacers(Seq::<(Seq<char>, Seq<char>)>::empty(), pv),
        decreases n - i,
    {
        proof {
            let rest = pv.subrange(i as int, n as int);
            assert(rest.subrange(1, rest.len() as int) =~= pv.subrange(i + 1, n as int));
        }
        str_map_insert(&mut m, pairs[i].0.clone(), pairs[i].1.clone());
        i = i + 1;
    }
    proof {
        assert(pv.subrange(n as int, n as int) =~= Seq::<(Seq<char>, Seq<char>)>::empty());
    }
    m
}

/// What one implementation variant lowers to; a variant's node carries no
/// attributes of its own.
pub open spec fn spec_variant_node(db: ParserDatabaseV, v: VariantDeclV) -> NodeV<ImplementationV> {
    NodeV {
        attributes: NodeAttributesV::empty(),
        elem: ImplementationV {
            oracle_type: OracleType::LLM,
            name: v.name,
            prompt: v.prompt,
            input_replacers: spec_insert_replacers(
                Seq::<(Seq<char>, Seq<char>)>::empty(),
                v.input_replacers,
            ),
            output_replacers: spec_insert_replacers(
                Seq::<(Seq<char>, Seq<char>)>::empty(),
                v.output_replacers,
            ),
            client: v.client,
        },
    }
}

impl VariantDecl {
    /// Lowers one implementation variant.
    pub fn node(&self, db: &ParserDatabase) -> (r: Node<Implementation>)
        ensures
            r@ == spec_variant_node(db@, self@),
    {
        Node {
            attributes: NodeAttributes::default(),
            elem: Implementation {
                oracle_type: OracleType::LLM,
                name: self.name.clone(),
                prompt: self.prompt.clone(),
                input_replacers: build_replacers(&self.input_replacers),
                output_replacers: build_replacers(&self.output_replacers),
                client: self.client.clone(),
            },
        }
    }
}

/// A named argument with its surface type.
pub type NamedArgV = (Seq<char>, AstFieldTypeV);

/// The named arguments whose optionality matches `want`, in source order.
pub open spec fn spec_args_with_optionality(args: Seq<NamedArgV>, want: bool) -> Seq<NamedArgV>
    decreases args.len(),
{
    if args.len() == 0 {
        Seq::empty()
    } else {
        let pre = spec_args_with_optionality(args.subrange(0, args.len() - 1), want);
        if args[args.len() - 1].1.spec_is_nullable() == want {
            pre.push(args[args.len() - 1])
        } else {
            pre
        }
    }
}

/// Splitting a list splits its partition.
pub proof fn lemma_args_concat(a: Seq<NamedArgV>, b: Seq<NamedArgV>, want: bool)
    ensures
        spec_args_with_optionality(a + b, want) == spec_args_with_optionality(a, want)
            + spec_args_with_optionality(b, want),
    decreases b.len(),
{
    if b.len() == 0 {
        assert(a + b =~= a);
        assert(spec_args_with_optionality(a, want) + spec_args_with_optionality(b, want)
            =~= spec_args_with_optionality(a, want));
    } else {
        let b0 = b.subrange(0, b.len() - 1);
        lemma_args_concat(a, b0, want);
        let ab = a + b;
        assert(ab.subrange(0, ab.len() - 1) =~= a + b0);
        assert(ab[ab.len() - 1] == b[b.len() - 1]);
        if b[b.len() - 1].1.spec_is_nullable() == want {
            assert(spec_args_with_optionality(a, want) + spec_args_with_optionality(b, want)
                =~= (spec_args_with_optionality(a, want) + spec_args_with_optionality(b0, want))
                .push(b[b.len() - 1]));
        }
    }
}

/// The stable required-first ordering of named arguments.
pub open spec fn spec_sorted_args(args: Seq<NamedArgV>) -> Seq<NamedArgV> {
    spec_args_with_optionality(args, false) + spec_args_with_optionality(args, true)
}

/// Lowers one named argument, keeping its name.
pub open spec fn spec_lower_named_arg(db: ParserDatabaseV, a: NamedArgV) -> Result<
    (Seq<char>, FieldTypeV),
    LowerError,
> {
    match spec_lower_type(db, a.1) {
        Err(e) => Err(e),
        Ok(t) => Ok((a.0, t)),
    }
}

/// What a function's inputs lower to: an unnamed type directly, a named
/// list sorted required-first and lowered in that order.
pub open spec fn spec_function_inputs(db: ParserDatabaseV, input: AstFunctionArgsV) -> Result<
    FunctionArgsV,
    LowerError,
> {
    match input {
        AstFunctionArgsV::Unnamed(t) => match spec_lower_type(db, t) {
            Err(e) => Err(e),
            Ok(ft) => Ok(FunctionArgsV::UnnamedArg(ft)),
        },
        AstFunctionArgsV::Named(args) => match lower_seq(
            |a: NamedArgV| spec_lower_named_arg(db, a),
            spec_sorted_args(args),
        ) {
            Err(e) => Err(e),
            Ok(ps) => Ok(FunctionArgsV::NamedArgList(ps)),
        },
    }
}

/// Lowers a named argument list in stable required-first order.
fn lower_named_args(db: &ParserDatabase, args: &Vec<(String, AstFieldType)>) -> (r: Result<
    Vec<(String, FieldType)>,
    LowerError,
>)
    ensures
        ({
            let f = |a: NamedArgV| spec_lower_named_arg(db@, a);
            let sorted = spec_sorted_args(args.deep_view());
            match r {
                Ok(ps) => lower_seq(f, sorted) == Ok::<Seq<(Seq<char>, FieldTypeV)>, LowerError>(
                    ps.deep_view(),
                ),
                Err(e) => lower_seq(f, sorted) == Err::<Seq<(Seq<char>, FieldTypeV)>, LowerError>(
                    e,
                ),
            }
        }),
{
    let ghost av = args.deep_view();
    let ghost f = |a: NamedArgV| spec_lower_named_arg(db@, a);
    let ghost sorted = spec_sorted_args(av);
    let ghost req_all = spec_args_with_optionality(av, false);
    let ghost opt_all = spec_args_with_optionality(av, true);
    let n = args.len();
    let mut out: Vec<(String, FieldType)> = Vec::new();
    proof {
        assert(av.subrange(0, 0) =~= Seq::<NamedArgV>::empty());
        assert(out.deep_view() =~= Seq::<(Seq<char>, FieldTypeV)>::empty());
    }
    // Required arguments first, in source order.
    let mut i: usize = 0;
    while i < n
        invariant
            i <= n,
            n == args.len(),
            av == args.deep_view(),
            av.len() == n,
            f == (|a: NamedArgV| spec_lower_named_arg(db@, a)),
            sorted == spec_sorted_args(av),
            req_all == spec_args_with_optionality(av, false),
            opt_all == spec_args_with_optionality(av, true),
            lower_seq(f, spec_args_with_optionality(av.subrange(0, i as int), false)) == Ok::<
                Seq<(Seq<char>, FieldTypeV)>,
                LowerError,
            >(out.deep_view()),
        decreases n - i,
    {
        let ghost pre = spec_args_with_optionality(av.subrange(0, i as int), false);
        proof {
            assert(av.subrange(0, i + 1) =~= av.subrange(0, i as int) + seq![av[i as int]]);
            lemma_args_concat(av.subrange(0, i as int), seq![av[i as int]], false);
            assert(seq![av[i as int]].subrange(0, 0) =~= Seq::<NamedArgV>::empty());
            assert(av[i as int].1 == args@[i as int].1@);
            reveal_with_fuel(spec_args_with_optionality, 2);
        }
        if !args[i].1.is_nullable() {
            proof {
                assert(!av[i as int].1.spec_is_nullable());
                assert(spec_args_with_optionality(seq![av[i as int]], false) =~= Seq::<
                    NamedArgV,
                >::empty().push(av[i as int]));
                assert(spec_args_with_optionality(av.subrange(0, i + 1), false) =~= pre.push(
                    av[i as int],
                ));
                // The failing or succeeding element stands at position
                // pre.len() of the full sorted list.
                assert(av =~= av.subrange(0, i + 1) + av.subrange(i + 1, n as int));
                lemma_args_concat(av.subrange(0, i + 1), av.subrange(i + 1, n as int), false);
                assert(sorted.subrange(0, pre.len() as int + 1) =~= pre.push(av[i as int]));
                assert(sorted.subrange(0, pre.len() as int) =~= pre);
            }
            match args[i].1.repr(db) {
                Err(e) => {
                    proof {
                        lemma_lower_seq_step(f, sorted, pre.len() as int + 1);
                        lemma_lower_seq_err(f, sorted, pre.len() as int + 1);
                    }
                    return Err(e);
                },
                Ok(t) => {
                    let ghost old_out = out.deep_view();
                    let ghost tv = t@;
                    out.push((args[i].0.clone(), t));
                    proof {
                        lemma_lower_seq_step(f, sorted, pre.len() as int + 1);
                        assert(out.deep_view() =~= old_out.push((av[i as int].0, tv)));
                        assert(lower_seq(f, pre.push(av[i as int])) == Ok::<
                            Seq<(Seq<char>, FieldTypeV)>,
                            LowerError,
                        >(out.deep_view()));
                    }
                },
            }
        } else {
            proof {
                assert(av[i as int].1.spec_is_nullable());
                assert(spec_args_with_optionality(seq![av[i as int]], false) =~= Seq::<
                    NamedArgV,
                >::empty());
                assert(spec_args_with_optionality(av.subrange(0, i + 1), false) =~= pre);
            }
        }
        i = i + 1;
    }
    proof {
        assert(av.subrange(0, n as int) =~= av);
    }
    // Optional arguments second, in source order.
    let mut k: usize = 0;
    while k < n
        invariant
            k <= n,
            n == args.len(),
            av == args.deep_view(),
            av.len() == n,
            f == (|a: NamedArgV| spec_lower_named_arg(db@, a)),
            sorted == spec_sorted_args(av),
            req_all == spec_args_with_optionality(av, false),
            opt_all == spec_args_with_optionality(av, true),
            lower_seq(
                f,
                req_all + spec_args_with_optionality(av.subrange(0, k as int), true),
            ) == Ok::<Seq<(Seq<char>, FieldTypeV)>, LowerError>(out.deep_view()),
        decreases n - k,
    {
        let ghost opt_pre = spec_args_with_optionality(av.subrange(0, k as int), true);
        let ghost pre = req_all + opt_pre;
        proof {
            assert(av.subrange(0, k + 1) =~= av.subrange(0, k as int) + seq![av[k as int]]);
            lemma_args_concat(av.subrange(0, k as int), seq![av[k as int]], true);
            assert(seq![av[k as int]].subrange(0, 0) =~= Seq::<NamedArgV>::empty());
            assert(av[k as int].1 == args@[k as int].1@);
            reveal_with_fuel(spec_args_with_optionality, 2);
        }
        if args[k].1.is_nullable() {
            proof {
                assert(av[k as int].1.spec_is_nullable());
                assert(spec_args_with_optionality(seq![av[k as int]], true) =~= Seq::<
                    NamedArgV,
                >::empty().push(av[k as int]));
                assert(spec_args_with_optionality(av.subrange(0, k + 1), true) =~= opt_pre.push(
                    av[k as int],
                ));
                assert(av =~= av.subrange(0, k + 1) + av.subrange(k + 1, n as int));
                lemma_args_concat(av.subrange(0, k + 1), av.subrange(k + 1, n as int), true);
                assert(sorted.subrange(0, pre.len() as int + 1) =~= pre.push(av[k as int]));
                assert(sorted.subrange(0, pre.len() as int) =~= pre);
            }
            match args[k].1.repr(db) {
                Err(e) => {
                    proof {
                        lemma_lower_seq_step(f, sorted, pre.len() as int + 1);
                        lemma_lower_seq_err(f, sorted, pre.len() as int + 1);
                    }
                    return Err(e);
                },
                Ok(t) => {
                    let ghost old_out = out.deep_view();
                    let ghost tv = t@;
                    out.push((args[k].0.clone(), t));
                    proof {
                        lemma_lower_seq_step(f, sorted, pre.len() as int + 1);
                        assert(out.deep_view() =~= old_out.push((av[k as int].0, tv)));
                        assert(lower_seq(f, pre.push(av[k as int])) == Ok::<
                            Seq<(Seq<char>, FieldTypeV)>,
                            LowerError,
                        >(out.deep_view()));
                    }
                },
            }
        } else {
            proof {
                assert(!av[k as int].1.spec_is_nullable());
                assert(spec_args_with_optionality(seq![av[k as int]], true) =~= Seq::<
                    NamedArgV,
                >::empty());
                assert(spec_args_with_optionality(av.subrange(0, k + 1), true) =~= opt_pre);
            }
        }
        k = k + 1;
    }
    proof {
        assert(av.subrange(0, n as int) =~= av);
        assert(sorted == req_all + opt_all);
    }
    Ok(out)
}

/// What one function lowers to: inputs first, then the output, which must
/// be a single unnamed type; implementations lower in declaration order.
pub open spec fn spec_function_node(db: ParserDatabaseV, f: FunctionDeclV) -> Result<
    NodeV<FunctionV>,
    LowerError,
> {
    match spec_function_inputs(db, f.input) {
        Err(e) => Err(e),
        Ok(inputs) => match f.output {
            AstFunctionArgsV::Named(_) => Err(LowerError::NamedReturnTypeNotAllowed),
            AstFunctionArgsV::Unnamed(t) => match spec_type_node(db, t) {
                Err(e) => Err(e),
                Ok(out) => Ok(
                    NodeV {
                        attributes: NodeAttributesV::empty(),
                        elem: FunctionV {
                            name: f.name,
                            inputs,
                            output: out,
                            impls: map_seq(|v: VariantDeclV| spec_variant_node(db, v), f.variants),
                            default_impl: f.default_impl,
                        },
                    },
                ),
            },
        },
    }
}

impl FunctionDecl {
    /// Lowers one function.
    pub fn node(&self, db: &ParserDatabase) -> (r: Result<Node<Function>, LowerError>)
        ensures
            ok_view(r) == spec_function_node(db@, self@),
    {
        let inputs = match &self.input {
            AstFunctionArgs::Unnamed(t) => match t.repr(db) {
                Err(e) => {
                    return Err(e);
                },
                Ok(ft) => FunctionArgs::UnnamedArg(ft),
            },
            AstFunctionArgs::Named(args) => match lower_named_args(db, args) {
                Err(e) => {
                    return Err(e);
                },
                Ok(ps) => FunctionArgs::NamedArgList(ps),
            },
        };
        let output = match &self.output {
            AstFunctionArgs::Named(_) => {
                return Err(LowerError::NamedReturnTypeNotAllowed);
            },
            AstFunctionArgs::Unnamed(t) => match type_node(db, t) {
                Err(e) => {
                    return Err(e);
                },
                Ok(out) => out,
            },
        };
        let ghost vsv = self@.variants;
        let ghost g = |v: VariantDeclV| spec_variant_node(db@, v);
        let m = self.variants.len();
        let mut impls: Vec<Node<Implementation>> = Vec::new();
        proof {
            assert(impls.deep_view() =~= map_seq(g, vsv.subrange(0, 0)));
        }
        let mut j: usize = 0;
        while j < m
            invariant
                j <= m,
                m == self.variants.len(),
                vsv == self@.variants,
                vsv.len() == m,
                g == (|v: VariantDeclV| spec_variant_node(db@, v)),
                impls.deep_view() == map_seq(g, vsv.subrange(0, j as int)),
            decreases m - j,
        {
            let ghost old_impls = impls.deep_view();
            let node = self.variants[j].node(db);
            let ghost nv = node@;
            impls.push(node);
            proof {
                let p = vsv.subrange(0, j + 1);
                assert(p.subrange(0, p.len() - 1) =~= vsv.subrange(0, j as int));
                assert(p[p.len() - 1] == vsv[j as int]);
                assert(impls.deep_view() =~= old_impls.push(nv));
            }
            j = j + 1;
        }
        proof {
            assert(vsv.subrange(0, m as int) =~= vsv);
        }
        let default_impl = match &self.default_impl {
            Some(s) => Some(s.clone()),
            None => None,
        };
        Ok(
            Node {
                attributes: NodeAttributes::default(),
                elem: Function {
                    name: self.name.clone(),
                    inputs,
                    output,
                    impls,
                    default_impl,
                },
            },
        )
    }
}

/// Lowers one option's value, keeping its key.
pub open spec fn spec_lower_option(o: (Seq<char>, crate::ast::AstExpressionV)) -> Result<
    (Seq<char>, ExpressionV),
    LowerError,
> {
    match spec_lower_expr(o.1) {
        Err(e) => Err(e),
        Ok(v) => Ok((o.0, v)),
    }
}

/// Lowers an option list, stopping at the first error.
fn lower_options(db: &ParserDatabase, options: &Vec<(String, crate::ast::AstExpression)>) -> (r:
    Result<Vec<(String, Expression)>, LowerError>)
    ensures
        ({
            let f = |o: (Seq<char>, crate::ast::AstExpressionV)| spec_lower_option(o);
            match r {
                Ok(os) => lower_seq(f, options.deep_view()) == Ok::<
                    Seq<(Seq<char>, ExpressionV)>,
                    LowerError,
                >(os.deep_view()),
                Err(e) => lower_seq(f, options.deep_view()) == Err::<
                    Seq<(Seq<char>, ExpressionV)>,
                    LowerError,
                >(e),
            }
        }),
{
    let ghost ov = options.deep_view();
    let ghost f = |o: (Seq<char>, crate::ast::AstExpressionV)| spec_lower_option(o);
    let n = options.len();
    let mut out: Vec<(String, Expression)> = Vec::new();
    proof {
        assert(ov.subrange(0, 0) =~= Seq::<(Seq<char>, crate::ast::AstExpressionV)>::empty());
        assert(out.deep_view() =~= Seq::<(Seq<char>, ExpressionV)>::empty());
    }
    let mut i: usize = 0;
    while i < n
        invariant
            i <= n,
            n == options.len(),
            ov == options.deep_view(),
            ov.len() == n,
            f == (|o: (Seq<char>, crate::ast::AstExpressionV)| spec_lower_option(o)),
            lower_seq(f, ov.subrange(0, i as int)) == Ok::<
                Seq<(Seq<char>, ExpressionV)>,
                LowerError,
            >(out.deep_view()),
        decreases n - i,
    {
        match options[i].1.repr(db) {
            Err(e) => {
                proof {
                    lemma_lower_seq_step(f, ov, i + 1);
                    lemma_lower_seq_err(f, ov, i + 1);
                }
                return Err(e);
            },
            Ok(v) => {
                let ghost old_out = out.deep_view();
                let ghost vv = v@;
                out.push((options[i].0.clone(), v));
                proof {
                    lemma_lower_seq_step(f, ov, i + 1);
                    assert(out.deep_view() =~= old_out.push((ov[i as int].0, vv)));
                }
            },
        }
        i = i + 1;
    }
    proof {
        assert(ov.subrange(0, n as int) =~= ov);
    }
    Ok(out)
}

/// What one client lowers to.
pub open spec fn spec_client_node(db: ParserDatabaseV, c: ClientDeclV) -> Result<
    NodeV<ClientV>,
    LowerError,
> {
    match lower_seq(
        |o: (Seq<char>, crate::ast::AstExpressionV)| spec_lower_option(o),
        c.options,
    ) {
        Err(e) => Err(e),
        Ok(os) => Ok(
            NodeV {
                attributes: NodeAttributesV::empty(),
                elem: ClientV { name: c.name, provider: c.provider, options: os },
            },
        ),
    }
}

impl ClientDecl {
    /// Lowers one client.
    pub fn node(&self, db: &ParserDatabase) -> (r: Result<Node<Client>, LowerError>)
        ensures
            ok_view(r) == spec_client_node(db@, self@),
    {
        match lower_options(db, &self.options) {
            Err(e) => Err(e),
            Ok(os) => Ok(
                Node {
                    attributes: NodeAttributes::default(),
                    elem: Client {
                        name: self.name.clone(),
                        provider: self.provider.clone(),
                        options: os,
                    },
                },
            ),
        }
    }
}

/// What one retry policy lowers to; an absent options block lowers to an
/// empty list.
pub open spec fn spec_retry_policy_node(db: ParserDatabaseV, p: RetryPolicyDeclV) -> Result<
    NodeV<RetryPolicyV>,
    LowerError,
> {
    let options = match p.options {
        Some(os) => lower_seq(
            |o: (Seq<char>, crate::ast::AstExpressionV)| spec_lower_option(o),
            os,
        ),
        None => Ok(Seq::empty()),
    };
    match options {
        Err(e) => Err(e),
        Ok(os) => Ok(
            NodeV {
                attributes: NodeAttributesV::empty(),
                elem: RetryPolicyV {
                    name: p.name,
                    max_retries: p.max_retries,
                    strategy: p.strategy,
                    options: os,
                },
            },
        ),
    }
}

impl RetryPolicyDecl {
    /// Lowers one retry policy.
    pub fn node(&self, db: &ParserDatabase) -> (r: Result<Node<RetryPolicy>, LowerError>)
        ensures
            ok_view(r) == spec_retry_policy_node(db@, self@),
    {
        let options = match &self.options {
            Some(os) => match lower_options(db, os) {
                Err(e) => {
                    return Err(e);
                },
                Ok(os) => os,
            },
            None => {
                let empty: Vec<(String, Expression)> = Vec::new();
                proof {
                    assert(empty.deep_view() =~= Seq::<(Seq<char>, ExpressionV)>::empty());
                }
                empty
            },
        };
        Ok(
            Node {
                attributes: NodeAttributes::default(),
                elem: RetryPolicy {
                    name: RetryPolicyId(self.name.clone()),
                    max_retries: self.max_retries,
                    strategy: self.strategy,
                    options,
                },
            },
        )
    }
}

} // verus!
