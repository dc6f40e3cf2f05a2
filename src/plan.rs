//! Logical plan nodes, the schema catalog, and the projection builder.
use vstd::prelude::*;
use crate::types::{Field, TypeTag, copy_schema, same_text, schema_view};
use crate::expr::{
    Expression, ResolutionError, UnresolvedExpr, base_display, display_name, expr_wf, outcome,
    output_name,
    resolve, resolves_to, type_of,
};

verus! {

/// A named relation and its columns.
#[derive(Debug)]
pub struct Relation {
    pub name: String,
    pub schema: Vec<Field>,
}

/// The relations a query may read.
#[derive(Debug)]
pub struct Catalog {
    pub relations: Vec<Relation>,
}

/// Position of the first relation named `name`, if any.
pub open spec fn catalog_lookup(rels: Seq<Relation>, name: Seq<char>) -> Option<int>
    decreases rels.len(),
{
    if rels.len() == 0 {
        None
    } else {
        match catalog_lookup(rels.drop_last(), name) {
            Some(k) => Some(k),
            None => if rels.last().name@ == name {
                Some(rels.len() - 1)
            } else {
                None
            },
        }
    }
}

impl Catalog {
    pub fn new(relations: Vec<Relation>) -> (c: Catalog)
        ensures
            c.relations == relations,
    {
        Catalog { relations }
    }

    /// Position of the first relation named `name`.
    pub fn lookup(&self, name: &String) -> (r: Option<usize>)
        ensures
            r matches Some(k) ==> catalog_lookup(self.relations@, name@) == Some(k as int) && k
                < self.relations@.len(),
            r is None ==> catalog_lookup(self.relations@, name@) is None,
    {
        let mut i: usize = 0;
        while i < self.relations.len()
            invariant
                i <= self.relations@.len(),
                catalog_lookup(self.relations@.subrange(0, i as int), name@) is None,
            decreases self.relations@.len() - i,
        {
            proof {
                assert(self.relations@.subrange(0, i + 1).drop_last() =~= self.relations@.subrange(
                    0,
                    i as int,
                ));
            }
            if same_text(&self.relations[i].name, name) {
                proof {
                    lemma_lookup_prefix(self.relations@, i as int + 1);
                }
                return Some(i);
            }
            i = i + 1;
        }
        assert(self.relations@.subrange(0, i as int) =~= self.relations@);
        None
    }
}

/// A relation found in a prefix of the catalog is the one found in the whole.
proof fn lemma_lookup_prefix(rels: Seq<Relation>, k: int)
    requires
        0 <= k <= rels.len(),
        catalog_lookup(rels.subrange(0, k), rels[k - 1].name@) is Some || k == 0,
    ensures
        k > 0 ==> catalog_lookup(rels, rels[k - 1].name@) == catalog_lookup(
            rels.subrange(0, k),
            rels[k - 1].name@,
        ),
    decreases rels.len(),
{
    if k > 0 && rels.len() > k {
        assert(rels.drop_last().subrange(0, k) =~= rels.subrange(0, k));
        assert(rels.drop_last()[k - 1] == rels[k - 1]);
        lemma_lookup_prefix(rels.drop_last(), k);
    } else if k > 0 {
        assert(rels.subrange(0, k) =~= rels);
    }
}

/// A node of a logical plan.
#[derive(Debug)]
pub enum PlanNode {
    /// Reads a relation; `schema` is a snapshot of the catalog's columns.
    Scan { relation_name: String, schema: Vec<Field> },
    /// Computes `exprs` from each row of `input`.
    Projection { input: Box<PlanNode>, exprs: Vec<Expression>, output_schema: Vec<Field> },
}

/// Why a plan could not be built.
#[derive(Debug)]
pub enum PlanError {
    UnknownRelation(String),
    /// The expression at `position` of the projection list failed to resolve.
    Resolution { position: usize, error: ResolutionError },
    /// The expression at `position` has the same output name as an earlier one.
    DuplicateOutputName { position: usize, name: String },
}

/// The columns a plan node produces.
pub open spec fn plan_schema(p: PlanNode) -> Seq<Field> {
    match p {
        PlanNode::Scan { schema, .. } => schema@,
        PlanNode::Projection { output_schema, .. } => output_schema@,
    }
}

/// The output column of each expression of `es`: its name and type.
pub open spec fn derived_schema(es: Seq<Expression>) -> Seq<(Seq<char>, TypeTag)> {
    es.map_values(|e: Expression| (output_name(e), type_of(e)))
}

/// No name occurs twice among the columns `s`.
pub open spec fn names_distinct(s: Seq<Field>) -> bool {
    forall|i: int, j: int| 0 <= i < j < s.len() ==> s[i].name@ != s[j].name@
}

/// A plan in which every column reference matches its input's schema, and each
/// projection's output schema is derived from its expressions, with distinct names.
pub open spec fn plan_wf(p: PlanNode) -> bool
    decreases p,
{
    match p {
        PlanNode::Scan { .. } => true,
        PlanNode::Projection { input, exprs, output_schema } => {
            &&& plan_wf(*input)
            &&& forall|i: int|
                0 <= i < exprs.len() ==> #[trigger] expr_wf(exprs@[i], plan_schema(*input))
            &&& schema_view(output_schema@) == derived_schema(exprs@)
            &&& names_distinct(output_schema@)
        },
    }
}

impl PlanNode {
    /// The columns this node produces.
    pub fn schema(&self) -> (r: &Vec<Field>)
        ensures
            r@ == plan_schema(*self),
    {
        match self {
            PlanNode::Scan { schema, .. } => schema,
            PlanNode::Projection { output_schema, .. } => output_schema,
        }
    }
}

/// A scan of the relation `name`, with a snapshot of its columns.
pub fn scan(catalog: &Catalog, name: &String) -> (r: Result<PlanNode, PlanError>)
    ensures
        match r {
            Ok(p) => {
                &&& catalog_lookup(catalog.relations@, name@) matches Some(k)
                &&& p matches PlanNode::Scan { relation_name, schema } && relation_name@ == name@
                    && schema@ == catalog.relations@[k].schema@
            },
            Err(e) => catalog_lookup(catalog.relations@, name@) is None && e
                == PlanError::UnknownRelation(*name),
        },
{
    match catalog.lookup(name) {
        Some(k) => Ok(
            PlanNode::Scan {
                relation_name: name.clone(),
                schema: copy_schema(&catalog.relations[k].schema),
            },
        ),
        None => Err(PlanError::UnknownRelation(name.clone())),
    }
}

/// Every expression of `us` resolves against the columns `s`.
pub open spec fn all_resolve(us: Seq<UnresolvedExpr>, s: Seq<Field>) -> bool {
    forall|i: int| 0 <= i < us.len() ==> #[trigger] outcome(us[i], s) is Ok
}

/// The output names that the expressions `us` will have.
pub open spec fn display_names(us: Seq<UnresolvedExpr>) -> Seq<Seq<char>> {
    us.map_values(|u: UnresolvedExpr| display_name(u))
}

/// Two entries of a projection list clash when their output names are equal,
/// or when they select the same thing and at least one of them has no alias.
pub open spec fn clash(a: UnresolvedExpr, b: UnresolvedExpr) -> bool {
    display_name(a) == display_name(b) || (base_display(a) == base_display(b) && (!(a is Alias)
        || !(b is Alias)))
}

/// The entry at position `k` of `us` clashes with an earlier one.
pub open spec fn repeats_earlier(us: Seq<UnresolvedExpr>, k: int) -> bool {
    exists|j: int| 0 <= j < k && #[trigger] clash(us[j], us[k])
}

/// What building a projection computing `us` over input columns `s` gives:
/// the first expression that does not resolve; else the first expression whose
/// output name repeats an earlier one; else a projection of the resolved
/// expressions whose output columns carry their names and types.
pub open spec fn projection_outcome(
    s: Seq<Field>,
    us: Seq<UnresolvedExpr>,
    r: Result<PlanNode, PlanError>,
) -> bool {
    let ns = display_names(us);
    match r {
        Err(PlanError::Resolution { position, error }) => {
            &&& position < us.len()
            &&& outcome(us[position as int], s) == Err::<TypeTag, ResolutionError>(error)
            &&& forall|j: int| 0 <= j < position ==> #[trigger] outcome(us[j], s) is Ok
        },
        Err(PlanError::DuplicateOutputName { position, name }) => {
            &&& all_resolve(us, s)
            &&& position < us.len()
            &&& name@ == ns[position as int]
            &&& repeats_earlier(us, position as int)
            &&& forall|k: int| 0 <= k < position ==> !#[trigger] repeats_earlier(us, k)
        },
        Err(PlanError::UnknownRelation(_)) => false,
        Ok(p) => {
            &&& all_resolve(us, s)
            &&& forall|i: int, j: int| 0 <= i < j < us.len() ==> !clash(us[i], us[j])
            &&& p matches PlanNode::Projection { input, exprs, output_schema } && {
                &&& plan_schema(*input) == s
                &&& exprs@.len() == us.len()
                &&& forall|i: int|
                    0 <= i < us.len() ==> #[trigger] resolves_to(us[i], s, exprs@[i]) && outcome(
                        us[i],
                        s,
                    ) == Ok::<TypeTag, ResolutionError>(type_of(exprs@[i]))
                &&& schema_view(output_schema@) == ns.zip_with(
                    exprs@.map_values(|e: Expression| type_of(e)),
                )
            }
        },
    }
}

/// Builds a projection of `input` computing `us`, resolved left to right
/// against the columns of `input`; nothing is returned but the whole
/// projection or the first error.
pub fn build_projection(input: PlanNode, us: &Vec<UnresolvedExpr>) -> (r: Result<PlanNode, PlanError>)
    ensures
        projection_outcome(plan_schema(input), us@, r),
        r matches Ok(p) ==> p matches PlanNode::Projection { input: pi, .. } && *pi == input,
        r matches Ok(p) ==> (plan_wf(input) ==> plan_wf(p)),
{
    let ghost s0 = plan_schema(input);
    let ghost ns = display_names(us@);
    let mut exprs: Vec<Expression> = Vec::new();
    let mut out: Vec<Field> = Vec::new();
    let mut bases: Vec<String> = Vec::new();
    let mut aliased: Vec<bool> = Vec::new();
    {
        let s = input.schema();
        let mut i: usize = 0;
        while i < us.len()
            invariant
                s@ == s0,
                s0 == plan_schema(input),
                ns == display_names(us@),
                i <= us@.len(),
                exprs@.len() == i,
                out@.len() == i,
                forall|j: int| 0 <= j < i ==> #[trigger] resolves_to(us@[j], s0, exprs@[j]),
                forall|j: int|
                    0 <= j < i ==> #[trigger] outcome(us@[j], s0) == Ok::<TypeTag, ResolutionError>(
                        type_of(exprs@[j]),
                    ),
                forall|j: int| 0 <= j < i ==> #[trigger] expr_wf(exprs@[j], s0),
                forall|j: int| 0 <= j < i ==> #[trigger] output_name(exprs@[j]) == ns[j],
                schema_view(out@) == derived_schema(exprs@),
                bases@.len() == i,
                aliased@.len() == i,
                forall|j: int| 0 <= j < i ==> #[trigger] bases@[j]@ == base_display(us@[j]),
                forall|j: int| 0 <= j < i ==> #[trigger] aliased@[j] == (us@[j] is Alias),
            decreases us@.len() - i,
        {
            let res = resolve(&us[i], s);
            assert(us[i as int] == us@[i as int]);
            match res {
                Ok(e) => {
                    let f = Field { name: e.output_name(), tag: e.type_tag() };
                    bases.push(e.base_name());
                    aliased.push(e.is_alias());
                    let ghost pe = exprs@;
                    let ghost po = out@;
                    exprs.push(e);
                    out.push(f);
                    proof {
                        assert(schema_view(out@) =~= schema_view(po).push((f.name@, f.tag)));
                        assert(derived_schema(exprs@) =~= derived_schema(pe).push(
                            (output_name(e), type_of(e)),
                        ));
                    }
                },
                Err(error) => {
                    assert(outcome(us@[i as int], s0) == Err::<TypeTag, ResolutionError>(error));
                    return Err(PlanError::Resolution { position: i, error });
                },
            }
            i = i + 1;
        }
    }
    assert forall|j: int| 0 <= j < out@.len() implies #[trigger] out@[j].name@ == ns[j] by {
        assert(schema_view(out@)[j] == derived_schema(exprs@)[j]);
    }
    assert(all_resolve(us@, s0)) by {
        assert forall|j: int| 0 <= j < us@.len() implies #[trigger] outcome(us@[j], s0) is Ok by {
            assert(outcome(us@[j], s0) == Ok::<TypeTag, ResolutionError>(type_of(exprs@[j])));
        }
    }
    let mut k: usize = 0;
    while k < out.len()
        invariant
            k <= out@.len(),
            out@.len() == us@.len(),
            s0 == plan_schema(input),
            exprs@.len() == us@.len(),
            forall|j: int| 0 <= j < us@.len() ==> #[trigger] resolves_to(us@[j], s0, exprs@[j]),
            forall|j: int|
                0 <= j < us@.len() ==> #[trigger] outcome(us@[j], s0) == Ok::<TypeTag, ResolutionError>(
                    type_of(exprs@[j]),
                ),
            forall|j: int| 0 <= j < us@.len() ==> #[trigger] expr_wf(exprs@[j], s0),
            schema_view(out@) == derived_schema(exprs@),
            ns == display_names(us@),
            all_resolve(us@, s0),
            forall|j: int| 0 <= j < out@.len() ==> #[trigger] out@[j].name@ == ns[j],
            bases@.len() == us@.len(),
            aliased@.len() == us@.len(),
            forall|j: int| 0 <= j < us@.len() ==> #[trigger] bases@[j]@ == base_display(us@[j]),
            forall|j: int| 0 <= j < us@.len() ==> #[trigger] aliased@[j] == (us@[j] is Alias),
            forall|k2: int| 0 <= k2 < k ==> !#[trigger] repeats_earlier(us@, k2),
        decreases out@.len() - k,
    {
        let mut j: usize = 0;
        while j < k
            invariant
                j <= k < out@.len(),
                out@.len() == us@.len(),
                ns == display_names(us@),
                forall|j2: int| 0 <= j2 < out@.len() ==> #[trigger] out@[j2].name@ == ns[j2],
                bases@.len() == us@.len(),
                aliased@.len() == us@.len(),
                forall|j2: int| 0 <= j2 < us@.len() ==> #[trigger] bases@[j2]@ == base_display(us@[j2]),
                forall|j2: int| 0 <= j2 < us@.len() ==> #[trigger] aliased@[j2] == (us@[j2] is Alias),
                forall|j2: int| 0 <= j2 < j ==> !clash(us@[j2], us@[k as int]),
                s0 == plan_schema(input),
                all_resolve(us@, s0),
                forall|k2: int| 0 <= k2 < k ==> !#[trigger] repeats_earlier(us@, k2),
            decreases k - j,
        {
            let same_out = same_text(&out[j].name, &out[k].name);
            let same_base = same_text(&bases[j], &bases[k]);
            if same_out || (same_base && (!aliased[j] || !aliased[k])) {
                assert(clash(us@[j as int], us@[k as int]));
                return Err(PlanError::DuplicateOutputName { position: k, name: out[k].name.clone() });
            }
            j = j + 1;
        }
        assert(!repeats_earlier(us@, k as int));
        k = k + 1;
    }
    assert forall|i: int, j: int| 0 <= i < j < us@.len() implies !clash(us@[i], us@[j]) by {
        assert(!repeats_earlier(us@, j));
    }
    let ghost types = exprs@.map_values(|e: Expression| type_of(e));
    proof {
        assert forall|j: int| 0 <= j < out@.len() implies #[trigger] schema_view(out@)[j] == ns.zip_with(types)[j] by {
            assert(schema_view(out@)[j] == derived_schema(exprs@)[j]);
        }
        assert(schema_view(out@) =~= ns.zip_with(types));
        assert forall|a: int, b: int| 0 <= a < b < out@.len() implies out@[a].name@ != out@[b].name@ by {
            assert(!clash(us@[a], us@[b]));
        }
    }
    Ok(PlanNode::Projection { input: Box::new(input), exprs, output_schema: out })
}

} // verus!
