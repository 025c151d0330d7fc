//! `#[derive(Env)]` on an enum of environments.

use vstd::prelude::*;

use crate::env_attr::{env_of_path, SegmentView};
use crate::naming::{macro_name, macro_name_nonp, macro_name_nonp_text, macro_name_text, snake_case};

verus! {

/// The default of `#[env(prod)]` on a variant: not the production environment.
pub fn no() -> (res: bool)
    ensures
        !res,
{
    false
}

/// A variant of the enum: its name, and whether it is marked `#[env(prod)]`.
pub struct Field {
    pub ident: String,
    pub prod: bool,
}

/// The enum under `#[derive(Env)]`: its name and its variants.
pub struct Envs {
    pub ident: String,
    pub data: Vec<Field>,
}

/// What a variant expands to: a unit struct of its name with `From` into the enum,
/// an arm of the dispatch macro, and its two macros. The production variant's own
/// macro keeps its item and its other macro drops it; every other variant's own macro
/// drops its item and its other macro keeps it.
pub struct VariantPlan {
    pub name: String,
    pub macro_name: String,
    pub nonp_macro_name: String,
    pub prod: bool,
}

/// What the enum expands to: a plan per variant, and, for the production variant,
/// the thread-local current environment and the `Env` impl that starts from it.
pub struct DerivePlan {
    pub env: String,
    pub prod_variant: String,
    pub variants: Vec<VariantPlan>,
}

/// The enum does not mark exactly one variant `#[env(prod)]`.
pub struct ProdCountError;

impl ProdCountError {
    /// The text of the error.
    pub fn message(&self) -> (res: String)
        ensures
            res@ == "exactly one prod environment must be specified. this is used as the source of origin for type signatures for compatibility."@,
    {
        "exactly one prod environment must be specified. this is used as the source of origin for type signatures for compatibility.".to_owned()
    }
}

/// The number of variants marked `#[env(prod)]`.
pub open spec fn prod_count(fields: Seq<Field>) -> nat
    decreases fields.len(),
{
    if fields.len() == 0 {
        0
    } else {
        prod_count(fields.drop_last()) + if fields.last().prod { 1nat } else { 0nat }
    }
}

/// `p` is the plan of the variant `f`.
pub open spec fn is_variant_plan_of(f: Field, p: VariantPlan) -> bool {
    &&& p.name@ == f.ident@
    &&& p.macro_name@ == snake_case(macro_name_text(f.ident@))
    &&& p.nonp_macro_name@ == snake_case(macro_name_nonp_text(f.ident@))
    &&& p.prod == f.prod
}

/// `p` is the expansion of `envs`.
pub open spec fn is_derive_plan_of(envs: Envs, p: DerivePlan) -> bool {
    &&& p.env@ == envs.ident@
    &&& p.variants@.len() == envs.data@.len()
    &&& forall|i: int| 0 <= i < envs.data@.len() ==> #[trigger] is_variant_plan_of(envs.data@[i], p.variants@[i])
    &&& exists|i: int| 0 <= i < envs.data@.len() && (#[trigger] envs.data@[i]).prod && p.prod_variant@ == envs.data@[i].ident@
}

proof fn lemma_prod_count_step(fields: Seq<Field>, n: int)
    requires
        0 <= n < fields.len(),
    ensures
        prod_count(fields.take(n + 1)) == prod_count(fields.take(n)) + if fields[n].prod { 1nat } else { 0nat },
{
    assert(fields.take(n + 1).drop_last() =~= fields.take(n));
}

impl Envs {
    /// What the enum expands to; an error unless exactly one variant is marked
    /// `#[env(prod)]`.
    pub fn derive_env(&self) -> (res: Result<DerivePlan, ProdCountError>)
        ensures
            res is Err <==> prod_count(self.data@) != 1,
            res matches Ok(p) ==> is_derive_plan_of(*self, p),
    {
        let mut count: usize = 0;
        let mut prod_index: usize = 0;
        let mut i: usize = 0;
        while i < self.data.len()
            invariant
                0 <= i <= self.data@.len(),
                count == prod_count(self.data@.take(i as int)),
                count <= i,
                count > 0 ==> prod_index < i && self.data@[prod_index as int].prod,
            decreases self.data.len() - i,
        {
            proof {
                lemma_prod_count_step(self.data@, i as int);
            }
            if self.data[i].prod {
                count += 1;
                prod_index = i;
            }
            i += 1;
        }
        assert(self.data@.take(self.data@.len() as int) =~= self.data@);
        if count != 1 {
            return Err(ProdCountError);
        }
        let mut variants: Vec<VariantPlan> = Vec::new();
        let mut j: usize = 0;
        while j < self.data.len()
            invariant
                0 <= j <= self.data@.len(),
                variants@.len() == j,
                forall|k: int| 0 <= k < j ==> #[trigger] is_variant_plan_of(self.data@[k], variants@[k]),
            decreases self.data.len() - j,
        {
            let f = &self.data[j];
            variants.push(VariantPlan {
                name: f.ident.clone(),
                macro_name: macro_name(&f.ident),
                nonp_macro_name: macro_name_nonp(&f.ident),
                prod: f.prod,
            });
            j += 1;
        }
        let plan = DerivePlan {
            env: self.ident.clone(),
            prod_variant: self.data[prod_index].ident.clone(),
            variants,
        };
        assert(self.data@[prod_index as int].prod);
        Ok(plan)
    }
}

proof fn lemma_prod_count_zero(fields: Seq<Field>)
    requires
        prod_count(fields) == 0,
    ensures
        forall|i: int| 0 <= i < fields.len() ==> !(#[trigger] fields[i]).prod,
    decreases fields.len(),
{
    if fields.len() > 0 {
        lemma_prod_count_zero(fields.drop_last());
        assert forall|i: int| 0 <= i < fields.len() implies !(#[trigger] fields[i]).prod by {
            if i < fields.len() - 1 {
                assert(fields.drop_last()[i] == fields[i]);
            }
        }
    }
}

proof fn lemma_prod_count_one(fields: Seq<Field>)
    requires
        prod_count(fields) == 1,
    ensures
        forall|i: int, j: int| 0 <= i < fields.len() && 0 <= j < fields.len() && (#[trigger] fields[i]).prod
            && (#[trigger] fields[j]).prod ==> i == j,
    decreases fields.len(),
{
    if fields.len() > 0 {
        let init = fields.drop_last();
        if fields.last().prod {
            lemma_prod_count_zero(init);
            assert forall|i: int, j: int| 0 <= i < fields.len() && 0 <= j < fields.len() && (#[trigger] fields[i]).prod
                && (#[trigger] fields[j]).prod implies i == j by {
                if i < fields.len() - 1 {
                    assert(init[i] == fields[i]);
                }
                if j < fields.len() - 1 {
                    assert(init[j] == fields[j]);
                }
            }
        } else {
            lemma_prod_count_one(init);
            assert forall|i: int, j: int| 0 <= i < fields.len() && 0 <= j < fields.len() && (#[trigger] fields[i]).prod
                && (#[trigger] fields[j]).prod implies i == j by {
                assert(init[i] == fields[i]);
                assert(init[j] == fields[j]);
            }
        }
    }
}

/// In an expansion exactly one variant is the production one, and it is the variant
/// that the thread-local environment starts from.
pub proof fn derive_plan_has_one_production_variant(envs: Envs, p: DerivePlan)
    requires
        prod_count(envs.data@) == 1,
        is_derive_plan_of(envs, p),
    ensures
        exists|i: int| 0 <= i < p.variants@.len() && (#[trigger] p.variants@[i]).prod
            && p.variants@[i].name@ == p.prod_variant@,
        forall|i: int, j: int| 0 <= i < p.variants@.len() && 0 <= j < p.variants@.len()
            && (#[trigger] p.variants@[i]).prod && (#[trigger] p.variants@[j]).prod ==> i == j,
{
    let k = choose|k: int| 0 <= k < envs.data@.len() && (#[trigger] envs.data@[k]).prod && p.prod_variant@ == envs.data@[k].ident@;
    assert(is_variant_plan_of(envs.data@[k], p.variants@[k]));
    lemma_prod_count_one(envs.data@);
    assert forall|i: int, j: int| 0 <= i < p.variants@.len() && 0 <= j < p.variants@.len()
        && (#[trigger] p.variants@[i]).prod && (#[trigger] p.variants@[j]).prod implies i == j by {
        assert(is_variant_plan_of(envs.data@[i], p.variants@[i]));
        assert(is_variant_plan_of(envs.data@[j], p.variants@[j]));
        assert(envs.data@[i].prod && envs.data@[j].prod);
    }
}

/// An `env` attribute that names a variant by a path ending in it and `#[derive(Env)]`
/// on the enum agree: the attribute's macros and unit struct are the ones that the
/// derive defines for that variant, under the path's root.
pub proof fn attribute_and_derive_agree_on_names(path: Seq<SegmentView>, f: Field, p: VariantPlan)
    requires
        path.len() >= 1,
        path.last().0 == f.ident@,
        is_variant_plan_of(f, p),
    ensures
        env_of_path(path).macro_name.last().0 == p.macro_name@,
        env_of_path(path).nonp_macro_name.last().0 == p.nonp_macro_name@,
        env_of_path(path).env_as_holder.last().0 == p.name@,
        env_of_path(path).name == p.name@,
{
}

} // verus!
