//! The whole compilation of one projection query: scan, projection, portable form.
use vstd::prelude::*;
use crate::expr::UnresolvedExpr;
use crate::plan::{
    Catalog, PlanError, PlanNode, build_projection, catalog_lookup, plan_wf, projection_outcome,
    scan,
};
use crate::portable::{PortableNode, TranslationError, mirrors_plan, to_portable};

verus! {

/// Why a query could not be compiled.
#[derive(Debug)]
pub enum CompileError {
    Plan(PlanError),
    Translation(TranslationError),
}

/// Compiles the projection of `exprs` over the relation `relation` of
/// `catalog`: the resolved plan, and its portable form.
pub fn basic_project(catalog: &Catalog, relation: &String, exprs: &Vec<UnresolvedExpr>) -> (r: Result<
    (PlanNode, PortableNode),
    CompileError,
>)
    ensures
        match catalog_lookup(catalog.relations@, relation@) {
            None => r matches Err(e) && e == CompileError::Plan(PlanError::UnknownRelation(*relation)),
            Some(k) => {
                &&& r matches Ok((p, _)) ==> projection_outcome(
                    catalog.relations@[k].schema@,
                    exprs@,
                    Ok(p),
                )
                &&& r matches Err(CompileError::Plan(e)) ==> projection_outcome(
                    catalog.relations@[k].schema@,
                    exprs@,
                    Err(e),
                )
            },
        },
        !(r matches Err(CompileError::Translation(_))),
        r matches Ok((p, x)) ==> {
            &&& plan_wf(p)
            &&& mirrors_plan(p, x)
            &&& p matches PlanNode::Projection { input, .. } && *input matches PlanNode::Scan {
                relation_name,
                ..
            } && relation_name@ == relation@
        },
{
    let input = match scan(catalog, relation) {
        Ok(p) => p,
        Err(e) => {
            return Err(CompileError::Plan(e));
        },
    };
    let p = match build_projection(input, exprs) {
        Ok(p) => p,
        Err(e) => {
            return Err(CompileError::Plan(e));
        },
    };
    match to_portable(&p) {
        Ok(x) => Ok((p, x)),
        Err(e) => Err(CompileError::Translation(e)),
    }
}

} // verus!
