//! The portable form of a plan: a self-contained tree of plain values that
//! carries relation names, column names and types, and can be read back into a
//! plan given a catalog.
use vstd::prelude::*;
use crate::types::{
    BinOp, Builtin, Field, TypeTag, builtin_name, copy_schema, lemma_builtin_name_lookup,
    lookup_builtin, same_text, schema_view,
};
use crate::expr::{Expression, args_wf, expr_wf};
use crate::plan::{
    Catalog, PlanNode, Relation, catalog_lookup, derived_schema, names_distinct, plan_schema,
    plan_wf,
};

verus! {

/// The portable counterpart of an expression.
#[derive(Debug)]
pub enum PortableExpr {
    Literal { text: String, tag: TypeTag },
    /// A column, by its position in the input and by its name.
    FieldRef { index: usize, name: String, tag: TypeTag },
    Arith { op: BinOp, left: Box<PortableExpr>, right: Box<PortableExpr>, result_type: TypeTag },
    ScalarFunction { name: String, args: Vec<PortableExpr>, result_type: TypeTag },
    Named { inner: Box<PortableExpr>, name: String },
}

/// The portable counterpart of a plan node.
#[derive(Debug)]
pub enum PortableNode {
    Read { table: String, fields: Vec<Field> },
    Project { input: Box<PortableNode>, exprs: Vec<PortableExpr>, fields: Vec<Field> },
}

/// Why a portable plan could not be read back.
#[derive(Debug)]
pub enum TranslationError {
    UnknownRelation(String),
    /// The catalog's columns for the relation differ from those carried.
    SchemaMismatch(String),
    /// A field reference is out of range or disagrees with its input's column.
    InvalidFieldRef(usize),
    UnknownFunction(String),
    /// A projection's columns do not match its expressions in number, or repeat a name.
    MalformedProjection,
}

/// `x` is the portable form of `e`.
pub open spec fn mirrors_expr(e: Expression, x: PortableExpr) -> bool
    decreases e,
{
    match (e, x) {
        (Expression::Literal { text, tag }, PortableExpr::Literal { text: t2, tag: g2 }) => t2@
            == text@ && g2 == tag,
        (
            Expression::ColumnRef { name, index, tag },
            PortableExpr::FieldRef { index: i2, name: n2, tag: g2 },
        ) => n2@ == name@ && i2 == index && g2 == tag,
        (
            Expression::BinaryOp { op, left, right, result_type },
            PortableExpr::Arith { op: o2, left: l2, right: r2, result_type: t2 },
        ) => o2 == op && t2 == result_type && mirrors_expr(*left, *l2) && mirrors_expr(*right, *r2),
        (
            Expression::FunctionCall { func, args, result_type },
            PortableExpr::ScalarFunction { name, args: a2, result_type: t2 },
        ) => name@ == builtin_name(func) && t2 == result_type && mirrors_args(args@, a2@),
        (
            Expression::Alias { inner, output_name },
            PortableExpr::Named { inner: i2, name },
        ) => name@ == output_name@ && mirrors_expr(*inner, *i2),
        _ => false,
    }
}

pub open spec fn mirrors_args(es: Seq<Expression>, xs: Seq<PortableExpr>) -> bool
    decreases es,
{
    &&& es.len() == xs.len()
    &&& es.len() > 0 ==> mirrors_args(es.drop_last(), xs.drop_last()) && mirrors_expr(
        es.last(),
        xs.last(),
    )
}

/// `x` is the portable form of `p`.
pub open spec fn mirrors_plan(p: PlanNode, x: PortableNode) -> bool
    decreases p,
{
    match (p, x) {
        (PlanNode::Scan { relation_name, schema }, PortableNode::Read { table, fields }) => {
            table@ == relation_name@ && schema_view(fields@) == schema_view(schema@)
        },
        (
            PlanNode::Projection { input, exprs, output_schema },
            PortableNode::Project { input: i2, exprs: e2, fields },
        ) => {
            &&& mirrors_plan(*input, *i2)
            &&& exprs.len() == e2.len()
            &&& forall|i: int| 0 <= i < exprs.len() ==> #[trigger] mirrors_expr(exprs@[i], e2@[i])
            &&& schema_view(fields@) == schema_view(output_schema@)
        },
        _ => false,
    }
}

/// The columns a portable node carries.
pub open spec fn portable_schema(x: PortableNode) -> Seq<Field> {
    match x {
        PortableNode::Read { fields, .. } => fields@,
        PortableNode::Project { fields, .. } => fields@,
    }
}

/// `x` can be read back against input columns `sv`.
pub open spec fn expr_valid(x: PortableExpr, sv: Seq<(Seq<char>, TypeTag)>) -> bool
    decreases x,
{
    match x {
        PortableExpr::Literal { .. } => true,
        PortableExpr::FieldRef { index, name, tag } => index < sv.len() && sv[index as int] == (
        name@, tag),
        PortableExpr::Arith { left, right, .. } => expr_valid(*left, sv) && expr_valid(*right, sv),
        PortableExpr::ScalarFunction { name, args, .. } => (lookup_builtin(name@) matches Some(f)
            && name@ == builtin_name(f)) && args_valid(args@, sv),
        PortableExpr::Named { inner, .. } => expr_valid(*inner, sv),
    }
}

pub open spec fn args_valid(xs: Seq<PortableExpr>, sv: Seq<(Seq<char>, TypeTag)>) -> bool
    decreases xs,
{
    xs.len() > 0 ==> args_valid(xs.drop_last(), sv) && expr_valid(xs.last(), sv)
}

/// `x` can be read back against the catalog's relations `rels`.
pub open spec fn portable_valid(x: PortableNode, rels: Seq<Relation>) -> bool
    decreases x,
{
    match x {
        PortableNode::Read { table, fields } => match catalog_lookup(rels, table@) {
            Some(k) => schema_view(rels[k].schema@) == schema_view(fields@),
            None => false,
        },
        PortableNode::Project { input, exprs, fields } => {
            &&& portable_valid(*input, rels)
            &&& forall|i: int|
                0 <= i < exprs.len() ==> #[trigger] expr_valid(
                    exprs@[i],
                    schema_view(portable_schema(*input)),
                )
            &&& exprs.len() == fields.len()
            &&& names_distinct(fields@)
        },
    }
}

/// The portable form of an expression.
pub fn expr_to_portable(e: &Expression) -> (x: PortableExpr)
    ensures
        mirrors_expr(*e, x),
    decreases e,
{
    match e {
        Expression::Literal { text, tag } => PortableExpr::Literal { text: text.clone(), tag: *tag },
        Expression::ColumnRef { name, index, tag } => PortableExpr::FieldRef {
            index: *index,
            name: name.clone(),
            tag: *tag,
        },
        Expression::BinaryOp { op, left, right, result_type } => {
            let l = expr_to_portable(left);
            let r = expr_to_portable(right);
            PortableExpr::Arith { op: *op, left: Box::new(l), right: Box::new(r), result_type: *result_type }
        },
        Expression::FunctionCall { func, args, result_type } => {
            let mut out: Vec<PortableExpr> = Vec::new();
            let mut i: usize = 0;
            while i < args.len()
                invariant
                    *e == (Expression::FunctionCall { func: *func, args: *args, result_type: *result_type }),
                    i <= args@.len(),
                    mirrors_args(args@.subrange(0, i as int), out@),
                decreases args@.len() - i,
            {
                proof {
                    broadcast use vstd::std_specs::vec::axiom_vec_index_decreases;
                    assert(e->FunctionCall_args == *args);
                    assert(decreases_to!(*e => e->FunctionCall_args));
                    assert(args@.subrange(0, i + 1).drop_last() =~= args@.subrange(0, i as int));
                }
                let x = expr_to_portable(&args[i]);
                let ghost prev = out@;
                out.push(x);
                proof {
                    assert(out@.drop_last() =~= prev);
                }
                i = i + 1;
            }
            proof {
                assert(args@.subrange(0, args@.len() as int) =~= args@);
            }
            PortableExpr::ScalarFunction {
                name: String::from_str(func.name()),
                args: out,
                result_type: *result_type,
            }
        },
        Expression::Alias { inner, output_name } => {
            let x = expr_to_portable(inner);
            PortableExpr::Named { inner: Box::new(x), name: output_name.clone() }
        },
    }
}

/// Translates a plan to its portable form, children first. Every node and
/// expression has a portable counterpart, so the translation always succeeds.
pub fn to_portable(p: &PlanNode) -> (r: Result<PortableNode, TranslationError>)
    ensures
        r matches Ok(x) && mirrors_plan(*p, x),
    decreases p,
{
    match p {
        PlanNode::Scan { relation_name, schema } => Ok(
            PortableNode::Read { table: relation_name.clone(), fields: copy_schema(schema) },
        ),
        PlanNode::Projection { input, exprs, output_schema } => {
            let child = match to_portable(input) {
                Ok(c) => c,
                Err(err) => {
                    return Err(err);
                },
            };
            let mut out: Vec<PortableExpr> = Vec::new();
            let mut i: usize = 0;
            while i < exprs.len()
                invariant
                    i <= exprs@.len(),
                    out@.len() == i,
                    forall|j: int| 0 <= j < i ==> #[trigger] mirrors_expr(exprs@[j], out@[j]),
                decreases exprs@.len() - i,
            {
                out.push(expr_to_portable(&exprs[i]));
                i = i + 1;
            }
            Ok(
                PortableNode::Project {
                    input: Box::new(child),
                    exprs: out,
                    fields: copy_schema(output_schema),
                },
            )
        },
    }
}

/// Reads a portable expression back against the input columns `s`.
pub fn expr_from_portable(x: &PortableExpr, s: &Vec<Field>) -> (r: Result<Expression, TranslationError>)
    ensures
        r is Ok <==> expr_valid(*x, schema_view(s@)),
        r matches Ok(e) ==> mirrors_expr(e, *x) && expr_wf(e, s@),
    decreases x,
{
    match x {
        PortableExpr::Literal { text, tag } => Ok(Expression::Literal { text: text.clone(), tag: *tag }),
        PortableExpr::FieldRef { index, name, tag } => {
            if *index < s.len() && same_text(&s[*index].name, name) && s[*index].tag == *tag {
                Ok(Expression::ColumnRef { name: name.clone(), index: *index, tag: *tag })
            } else {
                Err(TranslationError::InvalidFieldRef(*index))
            }
        },
        PortableExpr::Arith { op, left, right, result_type } => {
            let l = match expr_from_portable(left, s) {
                Ok(e) => e,
                Err(err) => {
                    return Err(err);
                },
            };
            let r = match expr_from_portable(right, s) {
                Ok(e) => e,
                Err(err) => {
                    return Err(err);
                },
            };
            Ok(Expression::BinaryOp { op: *op, left: Box::new(l), right: Box::new(r), result_type: *result_type })
        },
        PortableExpr::ScalarFunction { name, args, result_type } => {
            let f = match Builtin::lookup(name.as_str()) {
                Some(f) => f,
                None => {
                    return Err(TranslationError::UnknownFunction(name.clone()));
                },
            };
            let canonical = String::from_str(f.name());
            if !same_text(name, &canonical) {
                return Err(TranslationError::UnknownFunction(name.clone()));
            }
            let mut out: Vec<Expression> = Vec::new();
            let mut i: usize = 0;
            while i < args.len()
                invariant
                    *x == (PortableExpr::ScalarFunction { name: *name, args: *args, result_type: *result_type }),
                    name@ == builtin_name(f),
                    i <= args@.len(),
                    args_valid(args@.subrange(0, i as int), schema_view(s@)),
                    mirrors_args(out@, args@.subrange(0, i as int)),
                    args_wf(out@, s@),
                decreases args@.len() - i,
            {
                proof {
                    broadcast use vstd::std_specs::vec::axiom_vec_index_decreases;
                    assert(x->ScalarFunction_args == *args);
                    assert(decreases_to!(*x => x->ScalarFunction_args));
                    assert(args@.subrange(0, i + 1).drop_last() =~= args@.subrange(0, i as int));
                }
                match expr_from_portable(&args[i], s) {
                    Ok(e) => {
                        let ghost prev = out@;
                        out.push(e);
                        proof {
                            assert(out@.drop_last() =~= prev);
                        }
                    },
                    Err(err) => {
                        proof {
                            lemma_args_valid_prefix(args@, schema_view(s@), i as int);
                        }
                        return Err(err);
                    },
                }
                i = i + 1;
            }
            proof {
                assert(args@.subrange(0, args@.len() as int) =~= args@);
            }
            Ok(Expression::FunctionCall { func: f, args: out, result_type: *result_type })
        },
        PortableExpr::Named { inner, name } => {
            let e = match expr_from_portable(inner, s) {
                Ok(e) => e,
                Err(err) => {
                    return Err(err);
                },
            };
            Ok(Expression::Alias { inner: Box::new(e), output_name: name.clone() })
        },
    }
}

/// A list whose element at `k` is not valid is not valid.
proof fn lemma_args_valid_prefix(xs: Seq<PortableExpr>, sv: Seq<(Seq<char>, TypeTag)>, k: int)
    requires
        0 <= k < xs.len(),
        !expr_valid(xs[k], sv),
    ensures
        !args_valid(xs, sv),
    decreases xs.len(),
{
    if k < xs.len() - 1 {
        lemma_args_valid_prefix(xs.drop_last(), sv, k);
    }
}

/// Whether two lists of columns agree in names and types, position by position.
fn same_schema(a: &Vec<Field>, b: &Vec<Field>) -> (r: bool)
    ensures
        r == (schema_view(a@) == schema_view(b@)),
{
    if a.len() != b.len() {
        assert(schema_view(a@).len() != schema_view(b@).len());
        return false;
    }
    let mut i: usize = 0;
    while i < a.len()
        invariant
            a@.len() == b@.len(),
            i <= a@.len(),
            forall|j: int| 0 <= j < i ==> #[trigger] schema_view(a@)[j] == schema_view(b@)[j],
        decreases a@.len() - i,
    {
        if !same_text(&a[i].name, &b[i].name) || a[i].tag != b[i].tag {
            assert(schema_view(a@)[i as int] != schema_view(b@)[i as int]);
            return false;
        }
        i = i + 1;
    }
    assert(schema_view(a@) =~= schema_view(b@));
    true
}

/// Whether no name occurs twice among the columns `s`.
fn distinct_names(s: &Vec<Field>) -> (r: bool)
    ensures
        r == names_distinct(s@),
{
    let mut k: usize = 0;
    while k < s.len()
        invariant
            k <= s@.len(),
            forall|i: int, j: int| 0 <= i < j < k ==> s@[i].name@ != s@[j].name@,
        decreases s@.len() - k,
    {
        let mut j: usize = 0;
        while j < k
            invariant
                j <= k < s@.len(),
                forall|i: int, j2: int| 0 <= i < j2 < k ==> s@[i].name@ != s@[j2].name@,
                forall|i: int| 0 <= i < j ==> s@[i].name@ != s@[k as int].name@,
            decreases k - j,
        {
            if same_text(&s[j].name, &s[k].name) {
                return false;
            }
            j = j + 1;
        }
        k = k + 1;
    }
    true
}

/// Reads a portable plan back into a plan, re-resolving each relation name in
/// `catalog`. Succeeds exactly when the portable plan is valid against it.
pub fn from_portable(x: &PortableNode, catalog: &Catalog) -> (r: Result<PlanNode, TranslationError>)
    ensures
        r is Ok <==> portable_valid(*x, catalog.relations@),
        r matches Ok(p) ==> mirrors_plan(p, *x) && schema_view(plan_schema(p)) == schema_view(
            portable_schema(*x),
        ),
        *x matches PortableNode::Read { table, fields } ==> match catalog_lookup(
            catalog.relations@,
            table@,
        ) {
            None => r matches Err(TranslationError::UnknownRelation(t)) && t@ == table@,
            Some(k) => schema_view(catalog.relations@[k].schema@) != schema_view(fields@) ==> (
            r matches Err(TranslationError::SchemaMismatch(t)) && t@ == table@),
        },
    decreases x,
{
    match x {
        PortableNode::Read { table, fields } => match catalog.lookup(table) {
            Some(k) => {
                if same_schema(&catalog.relations[k].schema, fields) {
                    Ok(
                        PlanNode::Scan {
                            relation_name: table.clone(),
                            schema: copy_schema(&catalog.relations[k].schema),
                        },
                    )
                } else {
                    Err(TranslationError::SchemaMismatch(table.clone()))
                }
            },
            None => Err(TranslationError::UnknownRelation(table.clone())),
        },
        PortableNode::Project { input, exprs, fields } => {
            let q = match from_portable(input, catalog) {
                Ok(q) => q,
                Err(err) => {
                    return Err(err);
                },
            };
            let mut out: Vec<Expression> = Vec::new();
            {
                let s = q.schema();
                let mut i: usize = 0;
                while i < exprs.len()
                    invariant
                        schema_view(s@) == schema_view(portable_schema(**input)),
                        *x == (PortableNode::Project { input: *input, exprs: *exprs, fields: *fields }),
                        i <= exprs@.len(),
                        out@.len() == i,
                        forall|j: int| 0 <= j < i ==> #[trigger] mirrors_expr(out@[j], exprs@[j]),
                        forall|j: int|
                            0 <= j < i ==> #[trigger] expr_valid(
                                exprs@[j],
                                schema_view(portable_schema(**input)),
                            ),
                    decreases exprs@.len() - i,
                {
                    match expr_from_portable(&exprs[i], s) {
                        Ok(e) => {
                            out.push(e);
                        },
                        Err(err) => {
                            assert(!expr_valid(exprs@[i as int], schema_view(portable_schema(**input))));
                            return Err(err);
                        },
                    }
                    i = i + 1;
                }
            }
            if exprs.len() != fields.len() || !distinct_names(fields) {
                return Err(TranslationError::MalformedProjection);
            }
            Ok(PlanNode::Projection { input: Box::new(q), exprs: out, output_schema: copy_schema(fields) })
        },
    }
}

/// Structural equality of expressions: same shape, types, names and positions.
pub open spec fn same_expr(a: Expression, b: Expression) -> bool
    decreases a,
{
    match (a, b) {
        (Expression::Literal { text, tag }, Expression::Literal { text: t2, tag: g2 }) => text@
            == t2@ && tag == g2,
        (
            Expression::ColumnRef { name, index, tag },
            Expression::ColumnRef { name: n2, index: i2, tag: g2 },
        ) => name@ == n2@ && index == i2 && tag == g2,
        (
            Expression::BinaryOp { op, left, right, result_type },
            Expression::BinaryOp { op: o2, left: l2, right: r2, result_type: t2 },
        ) => op == o2 && result_type == t2 && same_expr(*left, *l2) && same_expr(*right, *r2),
        (
            Expression::FunctionCall { func, args, result_type },
            Expression::FunctionCall { func: f2, args: a2, result_type: t2 },
        ) => func == f2 && result_type == t2 && same_args(args@, a2@),
        (
            Expression::Alias { inner, output_name },
            Expression::Alias { inner: i2, output_name: n2 },
        ) => output_name@ == n2@ && same_expr(*inner, *i2),
        _ => false,
    }
}

pub open spec fn same_args(a: Seq<Expression>, b: Seq<Expression>) -> bool
    decreases a,
{
    &&& a.len() == b.len()
    &&& a.len() > 0 ==> same_args(a.drop_last(), b.drop_last()) && same_expr(a.last(), b.last())
}

/// Structural equality of plans: same shape, relation names, expressions and schemas.
pub open spec fn same_plan(p: PlanNode, q: PlanNode) -> bool
    decreases p,
{
    match (p, q) {
        (
            PlanNode::Scan { relation_name, schema },
            PlanNode::Scan { relation_name: n2, schema: s2 },
        ) => relation_name@ == n2@ && schema_view(schema@) == schema_view(s2@),
        (
            PlanNode::Projection { input, exprs, output_schema },
            PlanNode::Projection { input: i2, exprs: e2, output_schema: o2 },
        ) => {
            &&& same_plan(*input, *i2)
            &&& exprs.len() == e2.len()
            &&& forall|i: int| 0 <= i < exprs.len() ==> #[trigger] same_expr(exprs@[i], e2@[i])
            &&& schema_view(output_schema@) == schema_view(o2@)
        },
        _ => false,
    }
}

/// Structural equality of portable expressions.
pub open spec fn same_portable_expr(x: PortableExpr, y: PortableExpr) -> bool
    decreases x,
{
    match (x, y) {
        (PortableExpr::Literal { text, tag }, PortableExpr::Literal { text: t2, tag: g2 }) => text@
            == t2@ && tag == g2,
        (
            PortableExpr::FieldRef { index, name, tag },
            PortableExpr::FieldRef { index: i2, name: n2, tag: g2 },
        ) => name@ == n2@ && index == i2 && tag == g2,
        (
            PortableExpr::Arith { op, left, right, result_type },
            PortableExpr::Arith { op: o2, left: l2, right: r2, result_type: t2 },
        ) => op == o2 && result_type == t2 && same_portable_expr(*left, *l2) && same_portable_expr(
            *right,
            *r2,
        ),
        (
            PortableExpr::ScalarFunction { name, args, result_type },
            PortableExpr::ScalarFunction { name: n2, args: a2, result_type: t2 },
        ) => name@ == n2@ && result_type == t2 && same_portable_args(args@, a2@),
        (PortableExpr::Named { inner, name }, PortableExpr::Named { inner: i2, name: n2 }) => name@
            == n2@ && same_portable_expr(*inner, *i2),
        _ => false,
    }
}

pub open spec fn same_portable_args(a: Seq<PortableExpr>, b: Seq<PortableExpr>) -> bool
    decreases a,
{
    &&& a.len() == b.len()
    &&& a.len() > 0 ==> same_portable_args(a.drop_last(), b.drop_last()) && same_portable_expr(
        a.last(),
        b.last(),
    )
}

/// Structural equality of portable plans.
pub open spec fn same_portable(x: PortableNode, y: PortableNode) -> bool
    decreases x,
{
    match (x, y) {
        (PortableNode::Read { table, fields }, PortableNode::Read { table: t2, fields: f2 }) => table@
            == t2@ && schema_view(fields@) == schema_view(f2@),
        (
            PortableNode::Project { input, exprs, fields },
            PortableNode::Project { input: i2, exprs: e2, fields: f2 },
        ) => {
            &&& same_portable(*input, *i2)
            &&& exprs.len() == e2.len()
            &&& forall|i: int|
                0 <= i < exprs.len() ==> #[trigger] same_portable_expr(exprs@[i], e2@[i])
            &&& schema_view(fields@) == schema_view(f2@)
        },
        _ => false,
    }
}

/// The catalog `rels` holds, for each relation that `p` scans, the columns of that scan.
pub open spec fn catalog_agrees(p: PlanNode, rels: Seq<Relation>) -> bool
    decreases p,
{
    match p {
        PlanNode::Scan { relation_name, schema } => match catalog_lookup(rels, relation_name@) {
            Some(k) => schema_view(rels[k].schema@) == schema_view(schema@),
            None => false,
        },
        PlanNode::Projection { input, .. } => catalog_agrees(*input, rels),
    }
}

proof fn lemma_mirror_injective_expr(a: Expression, b: Expression, x: PortableExpr)
    requires
        mirrors_expr(a, x),
        mirrors_expr(b, x),
    ensures
        same_expr(a, b),
    decreases a,
{
    match (a, b, x) {
        (
            Expression::BinaryOp { left, right, .. },
            Expression::BinaryOp { left: l2, right: r2, .. },
            PortableExpr::Arith { left: xl, right: xr, .. },
        ) => {
            lemma_mirror_injective_expr(*left, *l2, *xl);
            lemma_mirror_injective_expr(*right, *r2, *xr);
        },
        (
            Expression::FunctionCall { func, args, .. },
            Expression::FunctionCall { func: f2, args: a2, .. },
            PortableExpr::ScalarFunction { args: xa, .. },
        ) => {
            lemma_builtin_name_lookup(func);
            lemma_builtin_name_lookup(f2);
            lemma_mirror_injective_args(args@, a2@, xa@);
        },
        (
            Expression::Alias { inner, .. },
            Expression::Alias { inner: i2, .. },
            PortableExpr::Named { inner: xi, .. },
        ) => {
            lemma_mirror_injective_expr(*inner, *i2, *xi);
        },
        _ => {},
    }
}

proof fn lemma_mirror_injective_args(a: Seq<Expression>, b: Seq<Expression>, x: Seq<PortableExpr>)
    requires
        mirrors_args(a, x),
        mirrors_args(b, x),
    ensures
        same_args(a, b),
    decreases a,
{
    if a.len() > 0 {
        lemma_mirror_injective_args(a.drop_last(), b.drop_last(), x.drop_last());
        lemma_mirror_injective_expr(a.last(), b.last(), x.last());
    }
}

proof fn lemma_mirror_functional_expr(e: Expression, x: PortableExpr, y: PortableExpr)
    requires
        mirrors_expr(e, x),
        mirrors_expr(e, y),
    ensures
        same_portable_expr(x, y),
    decreases e,
{
    match (e, x, y) {
        (
            Expression::BinaryOp { left, right, .. },
            PortableExpr::Arith { left: xl, right: xr, .. },
            PortableExpr::Arith { left: yl, right: yr, .. },
        ) => {
            lemma_mirror_functional_expr(*left, *xl, *yl);
            lemma_mirror_functional_expr(*right, *xr, *yr);
        },
        (
            Expression::FunctionCall { args, .. },
            PortableExpr::ScalarFunction { args: xa, .. },
            PortableExpr::ScalarFunction { args: ya, .. },
        ) => {
            lemma_mirror_functional_args(args@, xa@, ya@);
        },
        (
            Expression::Alias { inner, .. },
            PortableExpr::Named { inner: xi, .. },
            PortableExpr::Named { inner: yi, .. },
        ) => {
            lemma_mirror_functional_expr(*inner, *xi, *yi);
        },
        _ => {},
    }
}

proof fn lemma_mirror_functional_args(e: Seq<Expression>, x: Seq<PortableExpr>, y: Seq<PortableExpr>)
    requires
        mirrors_args(e, x),
        mirrors_args(e, y),
    ensures
        same_portable_args(x, y),
    decreases e,
{
    if e.len() > 0 {
        lemma_mirror_functional_args(e.drop_last(), x.drop_last(), y.drop_last());
        lemma_mirror_functional_expr(e.last(), x.last(), y.last());
    }
}

proof fn lemma_mirror_valid_expr(e: Expression, s: Seq<Field>, x: PortableExpr)
    requires
        expr_wf(e, s),
        mirrors_expr(e, x),
    ensures
        expr_valid(x, schema_view(s)),
    decreases e,
{
    match (e, x) {
        (
            Expression::BinaryOp { left, right, .. },
            PortableExpr::Arith { left: xl, right: xr, .. },
        ) => {
            lemma_mirror_valid_expr(*left, s, *xl);
            lemma_mirror_valid_expr(*right, s, *xr);
        },
        (
            Expression::FunctionCall { func, args, .. },
            PortableExpr::ScalarFunction { args: xa, .. },
        ) => {
            lemma_builtin_name_lookup(func);
            lemma_mirror_valid_args(args@, s, xa@);
        },
        (Expression::Alias { inner, .. }, PortableExpr::Named { inner: xi, .. }) => {
            lemma_mirror_valid_expr(*inner, s, *xi);
        },
        _ => {},
    }
}

proof fn lemma_mirror_valid_args(e: Seq<Expression>, s: Seq<Field>, x: Seq<PortableExpr>)
    requires
        args_wf(e, s),
        mirrors_args(e, x),
    ensures
        args_valid(x, schema_view(s)),
    decreases e,
{
    if e.len() > 0 {
        lemma_mirror_valid_args(e.drop_last(), s, x.drop_last());
        lemma_mirror_valid_expr(e.last(), s, x.last());
    }
}

proof fn lemma_mirror_schema(p: PlanNode, x: PortableNode)
    requires
        mirrors_plan(p, x),
    ensures
        schema_view(plan_schema(p)) == schema_view(portable_schema(x)),
{
}

proof fn lemma_round_trip_node(p: PlanNode, rels: Seq<Relation>, x: PortableNode, q: PlanNode)
    requires
        plan_wf(p),
        catalog_agrees(p, rels),
        mirrors_plan(p, x),
    ensures
        portable_valid(x, rels),
        mirrors_plan(q, x) ==> same_plan(p, q),
    decreases p,
{
    match (p, x) {
        (
            PlanNode::Projection { input, exprs, output_schema },
            PortableNode::Project { input: xi, exprs: xe, fields },
        ) => {
            let qi = match q {
                PlanNode::Projection { input: qi, .. } => *qi,
                _ => *input,
            };
            lemma_round_trip_node(*input, rels, *xi, qi);
            lemma_mirror_schema(*input, *xi);
            assert forall|i: int| 0 <= i < xe.len() implies #[trigger] expr_valid(
                xe@[i],
                schema_view(portable_schema(*xi)),
            ) by {
                assert(mirrors_expr(exprs@[i], xe@[i]));
                lemma_mirror_valid_expr(exprs@[i], plan_schema(*input), xe@[i]);
            }
            assert(schema_view(fields@).len() == fields@.len());
            assert(derived_schema(exprs@).len() == exprs@.len());
            assert forall|i: int, j: int| 0 <= i < j < fields@.len() implies fields@[i].name@
                != fields@[j].name@ by {
                assert(schema_view(fields@)[i] == schema_view(output_schema@)[i]);
                assert(schema_view(fields@)[j] == schema_view(output_schema@)[j]);
            }
            if mirrors_plan(q, x) {
                match q {
                    PlanNode::Projection { exprs: qe, .. } => {
                        assert forall|i: int| 0 <= i < exprs.len() implies #[trigger] same_expr(
                            exprs@[i],
                            qe@[i],
                        ) by {
                            assert(mirrors_expr(exprs@[i], xe@[i]));
                            assert(mirrors_expr(qe@[i], xe@[i]));
                            lemma_mirror_injective_expr(exprs@[i], qe@[i], xe@[i]);
                        }
                    },
                    _ => {},
                }
            }
        },
        _ => {},
    }
}

/// Round trip: the portable form of a well-formed plan reads back, against a
/// catalog that holds the columns its scans were built with, and what is read
/// back is structurally the plan itself.
pub proof fn lemma_round_trip(p: PlanNode, rels: Seq<Relation>)
    requires
        plan_wf(p),
        catalog_agrees(p, rels),
    ensures
        forall|x: PortableNode| #[trigger]
            mirrors_plan(p, x) ==> portable_valid(x, rels) && forall|q: PlanNode|
                #[trigger] mirrors_plan(q, x) ==> same_plan(p, q),
{
    assert forall|x: PortableNode| #[trigger] mirrors_plan(p, x) implies portable_valid(x, rels)
        && forall|q: PlanNode| #[trigger] mirrors_plan(q, x) ==> same_plan(p, q) by {
        lemma_round_trip_node(p, rels, x, p);
        assert forall|q: PlanNode| #[trigger] mirrors_plan(q, x) implies same_plan(p, q) by {
            lemma_round_trip_node(p, rels, x, q);
        }
    }
}

proof fn lemma_deterministic_node(p: PlanNode, x: PortableNode, y: PortableNode)
    requires
        mirrors_plan(p, x),
        mirrors_plan(p, y),
    ensures
        same_portable(x, y),
    decreases p,
{
    match (p, x, y) {
        (
            PlanNode::Projection { input, exprs, .. },
            PortableNode::Project { input: xi, exprs: xe, .. },
            PortableNode::Project { input: yi, exprs: ye, .. },
        ) => {
            lemma_deterministic_node(*input, *xi, *yi);
            assert forall|i: int| 0 <= i < xe.len() implies #[trigger] same_portable_expr(
                xe@[i],
                ye@[i],
            ) by {
                assert(mirrors_expr(exprs@[i], xe@[i]));
                assert(mirrors_expr(exprs@[i], ye@[i]));
                lemma_mirror_functional_expr(exprs@[i], xe@[i], ye@[i]);
            }
        },
        _ => {},
    }
}

/// Determinism: any two results of translating the same plan are structurally equal.
pub proof fn lemma_translation_deterministic(p: PlanNode)
    ensures
        forall|x: PortableNode, y: PortableNode|
            #[trigger] mirrors_plan(p, x) && #[trigger] mirrors_plan(p, y) ==> same_portable(x, y),
{
    assert forall|x: PortableNode, y: PortableNode|
        #[trigger] mirrors_plan(p, x) && #[trigger] mirrors_plan(p, y) implies same_portable(x, y) by {
        lemma_deterministic_node(p, x, y);
    }
}

} // verus!
