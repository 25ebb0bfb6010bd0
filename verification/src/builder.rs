//! The builder: one pass over the database lowers every declaration of
//! every kind, fail-fast, and sorts each resulting sequence by name. The
//! finished representation is navigated through a small walker layer.

use vstd::prelude::*;

use crate::db::{
    ClassDeclV, ClientDeclV, EnumDeclV, FunctionDeclV, ParserDatabase, ParserDatabaseV,
    RetryPolicyDeclV,
};
use crate::fold::{lemma_lower_seq_err, lemma_lower_seq_step, lower_seq, map_seq, ok_view};
use crate::ir::{
    Class, ClassV, Client, ClientV, Enum, EnumV, Function, FunctionV, LowerError, Node, NodeV,
    RetryPolicy, RetryPolicyV,
};
use crate::nodes::{
    spec_class_node, spec_client_node, spec_enum_node, spec_function_node, spec_retry_policy_node,
};
use crate::sort::{sort_nodes, spec_sort_nodes, Named};

verus! {

impl Named for Enum {
    open spec fn view_name(v: EnumV) -> Seq<char> {
        v.name
    }

    fn name_ref(&self) -> (r: &String)
        ensures
            r@ == Self::view_name(self.deep_view()),
    {
        &self.name
    }
}

impl Named for Class {
    open spec fn view_name(v: ClassV) -> Seq<char> {
        v.name
    }

    fn name_ref(&self) -> (r: &String)
        ensures
            r@ == Self::view_name(self.deep_view()),
    {
        &self.name
    }
}

impl Named for Function {
    open spec fn view_name(v: FunctionV) -> Seq<char> {
        v.name
    }

    fn name_ref(&self) -> (r: &String)
        ensures
            r@ == Self::view_name(self.deep_view()),
    {
        &self.name
    }
}

impl Named for Client {
    open spec fn view_name(v: ClientV) -> Seq<char> {
        v.name
    }

    fn name_ref(&self) -> (r: &String)
        ensures
            r@ == Self::view_name(self.deep_view()),
    {
        &self.name
    }
}

impl Named for RetryPolicy {
    open spec fn view_name(v: RetryPolicyV) -> Seq<char> {
        v.name
    }

    fn name_ref(&self) -> (r: &String)
        ensures
            r@ == Self::view_name(self.deep_view()),
    {
        &self.name.0
    }
}

/// The build's single output: five sequences of lowered declarations,
/// each sorted by name after a successful build.
pub struct IntermediateRepr {
    pub enums: Vec<Node<Enum>>,
    pub classes: Vec<Node<Class>>,
    pub functions: Vec<Node<Function>>,
    pub clients: Vec<Node<Client>>,
    pub retry_policies: Vec<Node<RetryPolicy>>,
}

/// Mathematical counterpart of `IntermediateRepr`.
pub struct IntermediateReprV {
    pub enums: Seq<NodeV<EnumV>>,
    pub classes: Seq<NodeV<ClassV>>,
    pub functions: Seq<NodeV<FunctionV>>,
    pub clients: Seq<NodeV<ClientV>>,
    pub retry_policies: Seq<NodeV<RetryPolicyV>>,
}

impl View for IntermediateRepr {
    type V = IntermediateReprV;

    open spec fn view(&self) -> IntermediateReprV {
        IntermediateReprV {
            enums: self.enums.deep_view(),
            classes: self.classes.deep_view(),
            functions: self.functions.deep_view(),
            clients: self.clients.deep_view(),
            retry_policies: self.retry_policies.deep_view(),
        }
    }
}

impl DeepView for IntermediateRepr {
    type V = IntermediateReprV;

    open spec fn deep_view(&self) -> IntermediateReprV {
        self.view()
    }
}

/// A generic walker: a reference to the whole representation paired with
/// one focused element.
#[derive(Clone, Copy)]
pub struct Walker<'db, I> {
    /// The representation being traversed.
    pub db: &'db IntermediateRepr,
    /// The focused element.
    pub item: I,
}

/// The per-kind lowering functions, named so that the builder's loops and
/// `spec_build` speak of one and the same function value.
pub open spec fn enum_node_of(db: ParserDatabaseV) -> spec_fn(EnumDeclV) -> NodeV<EnumV> {
    |e: EnumDeclV| spec_enum_node(db, e)
}

pub open spec fn class_node_of(db: ParserDatabaseV) -> spec_fn(ClassDeclV) -> Result<
    NodeV<ClassV>,
    LowerError,
> {
    |c: ClassDeclV| spec_class_node(db, c)
}

pub open spec fn function_node_of(db: ParserDatabaseV) -> spec_fn(FunctionDeclV) -> Result<
    NodeV<FunctionV>,
    LowerError,
> {
    |f: FunctionDeclV| spec_function_node(db, f)
}

pub open spec fn client_node_of(db: ParserDatabaseV) -> spec_fn(ClientDeclV) -> Result<
    NodeV<ClientV>,
    LowerError,
> {
    |c: ClientDeclV| spec_client_node(db, c)
}

pub open spec fn retry_policy_node_of(db: ParserDatabaseV) -> spec_fn(RetryPolicyDeclV) -> Result<
    NodeV<RetryPolicyV>,
    LowerError,
> {
    |p: RetryPolicyDeclV| spec_retry_policy_node(db, p)
}

/// What a full build yields: every declaration of every kind lowered, in
/// the order enums, classes, functions, clients, retry policies, the
/// first error anywhere aborting the whole build; on success each
/// sequence is sorted by name.
pub open spec fn spec_build(db: ParserDatabaseV) -> Result<IntermediateReprV, LowerError> {
    let enums = map_seq(enum_node_of(db), db.enums);
    match lower_seq(class_node_of(db), db.classes) {
        Err(e) => Err(e),
        Ok(classes) => match lower_seq(function_node_of(db), db.functions) {
            Err(e) => Err(e),
            Ok(functions) => match lower_seq(client_node_of(db), db.clients) {
                Err(e) => Err(e),
                Ok(clients) => match lower_seq(retry_policy_node_of(db), db.retry_policies) {
                    Err(e) => Err(e),
                    Ok(policies) => Ok(
                        IntermediateReprV {
                            enums: spec_sort_nodes::<Enum>(enums),
                            classes: spec_sort_nodes::<Class>(classes),
                            functions: spec_sort_nodes::<Function>(functions),
                            clients: spec_sort_nodes::<Client>(clients),
                            retry_policies: spec_sort_nodes::<RetryPolicy>(policies),
                        },
                    ),
                },
            },
        },
    }
}

impl IntermediateRepr {
    /// Walks the lowered enums, in sorted order.
    pub fn walk_enums<'a>(&'a self) -> (r: Vec<Walker<'a, &'a Node<Enum>>>)
        ensures
            r@.len() == self@.enums.len(),
            forall|i: int|
                0 <= i < r@.len() ==> (#[trigger] r@[i]).item@ == self@.enums[i] && r@[i].db == self,
    {
        let n = self.enums.len();
        let mut out: Vec<Walker<'a, &'a Node<Enum>>> = Vec::new();
        let mut i: usize = 0;
        while i < n
            invariant
                i <= n,
                n == self.enums.len(),
                out@.len() == i,
                forall|j: int|
                    0 <= j < i ==> (#[trigger] out@[j]).item@ == self@.enums[j] && out@[j].db
                        == self,
            decreases n - i,
        {
            out.push(Walker { db: self, item: &self.enums[i] });
            i = i + 1;
        }
        out
    }

    /// Walks the lowered classes, in sorted order.
    pub fn walk_classes<'a>(&'a self) -> (r: Vec<Walker<'a, &'a Node<Class>>>)
        ensures
            r@.len() == self@.classes.len(),
            forall|i: int|
                0 <= i < r@.len() ==> (#[trigger] r@[i]).item@ == self@.classes[i] && r@[i].db
                    == self,
    {
        let n = self.classes.len();
        let mut out: Vec<Walker<'a, &'a Node<Class>>> = Vec::new();
        let mut i: usize = 0;
        while i < n
            invariant
                i <= n,
                n == self.classes.len(),
                out@.len() == i,
                forall|j: int|
                    0 <= j < i ==> (#[trigger] out@[j]).item@ == self@.classes[j] && out@[j].db
                        == self,
            decreases n - i,
        {
            out.push(Walker { db: self, item: &self.classes[i] });
            i = i + 1;
        }
        out
    }

    /// Walks the lowered functions, in sorted order.
    pub fn walk_functions<'a>(&'a self) -> (r: Vec<Walker<'a, &'a Node<Function>>>)
        ensures
            r@.len() == self@.functions.len(),
            forall|i: int|
                0 <= i < r@.len() ==> (#[trigger] r@[i]).item@ == self@.functions[i] && r@[i].db
                    == self,
    {
        let n = self.functions.len();
        let mut out: Vec<Walker<'a, &'a Node<Function>>> = Vec::new();
        let mut i: usize = 0;
        while i < n
            invariant
                i <= n,
                n == self.functions.len(),
                out@.len() == i,
                forall|j: int|
                    0 <= j < i ==> (#[trigger] out@[j]).item@ == self@.functions[j] && out@[j].db
                        == self,
            decreases n - i,
        {
            out.push(Walker { db: self, item: &self.functions[i] });
            i = i + 1;
        }
        out
    }

    /// Walks the lowered clients, in sorted order.
    pub fn walk_clients<'a>(&'a self) -> (r: Vec<Walker<'a, &'a Node<Client>>>)
        ensures
            r@.len() == self@.clients.len(),
            forall|i: int|
                0 <= i < r@.len() ==> (#[trigger] r@[i]).item@ == self@.clients[i] && r@[i].db
                    == self,
    {
        let n = self.clients.len();
        let mut out: Vec<Walker<'a, &'a Node<Client>>> = Vec::new();
        let mut i: usize = 0;
        while i < n
            invariant
                i <= n,
                n == self.clients.len(),
                out@.len() == i,
                forall|j: int|
                    0 <= j < i ==> (#[trigger] out@[j]).item@ == self@.clients[j] && out@[j].db
                        == self,
            decreases n - i,
        {
            out.push(Walker { db: self, item: &self.clients[i] });
            i = i + 1;
        }
        out
    }

    /// Walks the lowered retry policies, in sorted order.
    pub fn walk_retry_policies<'a>(&'a self) -> (r: Vec<Walker<'a, &'a Node<RetryPolicy>>>)
        ensures
            r@.len() == self@.retry_policies.len(),
            forall|i: int|
                0 <= i < r@.len() ==> (#[trigger] r@[i]).item@ == self@.retry_policies[i]
                    && r@[i].db == self,
    {
        let n = self.retry_policies.len();
        let mut out: Vec<Walker<'a, &'a Node<RetryPolicy>>> = Vec::new();
        let mut i: usize = 0;
        while i < n
            invariant
                i <= n,
                n == self.retry_policies.len(),
                out@.len() == i,
                forall|j: int|
                    0 <= j < i ==> (#[trigger] out@[j]).item@ == self@.retry_policies[j]
                        && out@[j].db == self,
            decreases n - i,
        {
            out.push(Walker { db: self, item: &self.retry_policies[i] });
            i = i + 1;
        }
        out
    }

    /// Builds the whole representation from a database snapshot.
    #[verifier::loop_isolation(false)]
    pub fn from_parser_database(db: &ParserDatabase) -> (r: Result<IntermediateRepr, LowerError>)
        ensures
            ok_view(r) == spec_build(db@),
    {
        // Enums: lowering one can never fail.
        let ghost ge = enum_node_of(db@);
        let ghost esv = db@.enums;
        let n_e = db.enums.len();
        let mut enums: Vec<Node<Enum>> = Vec::new();
        proof {
            assert(enums.deep_view() =~= map_seq(ge, esv.subrange(0, 0)));
        }
        let mut i: usize = 0;
        while i < n_e
            invariant
                i <= n_e,
                n_e == db.enums.len(),
                esv == db@.enums,
                esv.len() == n_e,
                ge == enum_node_of(db@),
                enums.deep_view() == map_seq(ge, esv.subrange(0, i as int)),
            decreases n_e - i,
        {
            let ghost old_enums = enums.deep_view();
            match db.enums[i].node(db) {
                Ok(node) => {
                    let ghost nv = node@;
                    enums.push(node);
                    proof {
                        let p = esv.subrange(0, i + 1);
                        assert(p.subrange(0, p.len() - 1) =~= esv.subrange(0, i as int));
                        assert(p[p.len() - 1] == esv[i as int]);
                        assert(enums.deep_view() =~= old_enums.push(nv));
                    }
                },
                Err(_) => {
                    proof {
                        assert(false);
                    }
                    unreached()
                },
            }
            i = i + 1;
        }
        proof {
            assert(esv.subrange(0, n_e as int) =~= esv);
        }
        // Classes.
        let ghost gc = class_node_of(db@);
        let ghost csv = db@.classes;
        let n_c = db.classes.len();
        let mut classes: Vec<Node<Class>> = Vec::new();
        proof {
            assert(csv.subrange(0, 0) =~= Seq::<ClassDeclV>::empty());
            assert(classes.deep_view() =~= Seq::<NodeV<ClassV>>::empty());
        }
        let mut i: usize = 0;
        while i < n_c
            invariant
                i <= n_c,
                n_c == db.classes.len(),
                csv == db@.classes,
                csv.len() == n_c,
                gc == class_node_of(db@),
                lower_seq(gc, csv.subrange(0, i as int)) == Ok::<Seq<NodeV<ClassV>>, LowerError>(
                    classes.deep_view(),
                ),
            decreases n_c - i,
        {
            match db.classes[i].node(db) {
                Err(e) => {
                    proof {
                        lemma_lower_seq_step(gc, csv, i + 1);
                        lemma_lower_seq_err(gc, csv, i + 1);
                    }
                    return Err(e);
                },
                Ok(node) => {
                    let ghost old_nodes = classes.deep_view();
                    let ghost nv = node@;
                    classes.push(node);
                    proof {
                        lemma_lower_seq_step(gc, csv, i + 1);
                        assert(classes.deep_view() =~= old_nodes.push(nv));
                    }
                },
            }
            i = i + 1;
        }
        proof {
            assert(csv.subrange(0, n_c as int) =~= csv);
        }
        // Functions.
        let ghost gf = function_node_of(db@);
        let ghost fsv = db@.functions;
        let n_f = db.functions.len();
        let mut functions: Vec<Node<Function>> = Vec::new();
        proof {
            assert(fsv.subrange(0, 0) =~= Seq::<FunctionDeclV>::empty());
            assert(functions.deep_view() =~= Seq::<NodeV<FunctionV>>::empty());
        }
        let mut i: usize = 0;
        while i < n_f
            invariant
                i <= n_f,
                n_f == db.functions.len(),
                fsv == db@.functions,
                fsv.len() == n_f,
                gf == function_node_of(db@),
                lower_seq(gf, fsv.subrange(0, i as int)) == Ok::<Seq<NodeV<FunctionV>>, LowerError>(
                    functions.deep_view(),
                ),
            decreases n_f - i,
        {
            match db.functions[i].node(db) {
                Err(e) => {
                    proof {
                        lemma_lower_seq_step(gf, fsv, i + 1);
                        lemma_lower_seq_err(gf, fsv, i + 1);
                    }
                    return Err(e);
                },
                Ok(node) => {
                    let ghost old_nodes = functions.deep_view();
                    let ghost nv = node@;
                    functions.push(node);
                    proof {
                        lemma_lower_seq_step(gf, fsv, i + 1);
                        assert(functions.deep_view() =~= old_nodes.push(nv));
                    }
                },
            }
            i = i + 1;
        }
        proof {
            assert(fsv.subrange(0, n_f as int) =~= fsv);
        }
        // Clients.
        let ghost gl = client_node_of(db@);
        let ghost lsv = db@.clients;
        let n_l = db.clients.len();
        let mut clients: Vec<Node<Client>> = Vec::new();
        proof {
            assert(lsv.subrange(0, 0) =~= Seq::<ClientDeclV>::empty());
            assert(clients.deep_view() =~= Seq::<NodeV<ClientV>>::empty());
        }
        let mut i: usize = 0;
        while i < n_l
            invariant
                i <= n_l,
                n_l == db.clients.len(),
                lsv == db@.clients,
                lsv.len() == n_l,
                gl == client_node_of(db@),
                lower_seq(gl, lsv.subrange(0, i as int)) == Ok::<Seq<NodeV<ClientV>>, LowerError>(
                    clients.deep_view(),
                ),
            decreases n_l - i,
        {
            match db.clients[i].node(db) {
                Err(e) => {
                    proof {
                        lemma_lower_seq_step(gl, lsv, i + 1);
                        lemma_lower_seq_err(gl, lsv, i + 1);
                    }
                    return Err(e);
                },
                Ok(node) => {
                    let ghost old_nodes = clients.deep_view();
                    let ghost nv = node@;
                    clients.push(node);
                    proof {
                        lemma_lower_seq_step(gl, lsv, i + 1);
                        assert(clients.deep_view() =~= old_nodes.push(nv));
                    }
                },
            }
            i = i + 1;
        }
        proof {
            assert(lsv.subrange(0, n_l as int) =~= lsv);
        }
        // Retry policies.
        let ghost gp = retry_policy_node_of(db@);
        let ghost psv = db@.retry_policies;
        let n_p = db.retry_policies.len();
        let mut policies: Vec<Node<RetryPolicy>> = Vec::new();
        proof {
            assert(psv.subrange(0, 0) =~= Seq::<RetryPolicyDeclV>::empty());
            assert(policies.deep_view() =~= Seq::<NodeV<RetryPolicyV>>::empty());
        }
        let mut i: usize = 0;
        while i < n_p
            invariant
                i <= n_p,
                n_p == db.retry_policies.len(),
                psv == db@.retry_policies,
                psv.len() == n_p,
                gp == retry_policy_node_of(db@),
                lower_seq(gp, psv.subrange(0, i as int)) == Ok::<
                    Seq<NodeV<RetryPolicyV>>,
                    LowerError,
                >(policies.deep_view()),
            decreases n_p - i,
        {
            match db.retry_policies[i].node(db) {
                Err(e) => {
                    proof {
                        lemma_lower_seq_step(gp, psv, i + 1);
                        lemma_lower_seq_err(gp, psv, i + 1);
                    }
                    return Err(e);
                },
                Ok(node) => {
                    let ghost old_nodes = policies.deep_view();
                    let ghost nv = node@;
                    policies.push(node);
                    proof {
                        lemma_lower_seq_step(gp, psv, i + 1);
                        assert(policies.deep_view() =~= old_nodes.push(nv));
                    }
                },
            }
            i = i + 1;
        }
        proof {
            assert(psv.subrange(0, n_p as int) =~= psv);
        }
        // Sort each sequence by name.
        Ok(
            IntermediateRepr {
                enums: sort_nodes(enums),
                classes: sort_nodes(classes),
                functions: sort_nodes(functions),
                clients: sort_nodes(clients),
                retry_policies: sort_nodes(policies),
            },
        )
    }
}

} // verus!
