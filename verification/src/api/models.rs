//! The model list endpoint.
use vstd::prelude::*;

use crate::config::{distinct_models, ModelRoute, RoutingTable};

verus! {

/// One entry of the model list.
#[derive(Debug)]
pub struct ModelItem {
    pub id: String,
    pub object: String,
    pub owned_by: String,
}

pub const MODEL_OBJECT: &'static str = "model";

/// The entries of the model list: each configured model, owned by its
/// provider, in the order of the configuration.
pub open spec fn model_items_view(models: Seq<(Seq<char>, Seq<char>)>) -> Seq<
    (Seq<char>, Seq<char>, Seq<char>),
> {
    models.map_values(|m: (Seq<char>, Seq<char>)| (m.0, MODEL_OBJECT@, m.1))
}

/// The model list: each configured model once.
pub fn list_models(table: &RoutingTable) -> (r: Vec<ModelItem>)
    requires
        distinct_models(table@.models),
    ensures
        r@.map_values(|i: ModelItem| (i.id@, i.object@, i.owned_by@)) == model_items_view(
            table@.models,
        ),
        forall|i: int, j: int| 0 <= i < j < r@.len() ==> r@[i].id@ != r@[j].id@,
{
    let mut r: Vec<ModelItem> = Vec::new();
    let mut k: usize = 0;
    while k < table.models.len()
        invariant
            k <= table@.models.len(),
            r@.map_values(|i: ModelItem| (i.id@, i.object@, i.owned_by@)) == model_items_view(
                table@.models,
            ).take(k as int),
        decreases table@.models.len() - k,
    {
        let m: &ModelRoute = &table.models[k];
        let ghost before = r@.map_values(|i: ModelItem| (i.id@, i.object@, i.owned_by@));
        r.push(
            ModelItem {
                id: m.model.clone(),
                object: String::from_str(MODEL_OBJECT),
                owned_by: m.provider.clone(),
            },
        );
        assert(r@.map_values(|i: ModelItem| (i.id@, i.object@, i.owned_by@)) =~= before.push(
            (m.model@, MODEL_OBJECT@, m.provider@),
        ));
        assert(model_items_view(table@.models).take(k + 1) =~= before.push(
            (m.model@, MODEL_OBJECT@, m.provider@),
        ));
        k = k + 1;
    }
    assert(model_items_view(table@.models).take(k as int) =~= model_items_view(table@.models));
    proof {
        let ids = r@.map_values(|i: ModelItem| (i.id@, i.object@, i.owned_by@));
        assert forall|i: int, j: int| 0 <= i < j < r@.len() implies r@[i].id@ != r@[j].id@ by {
            assert(ids[i] == model_items_view(table@.models)[i]);
            assert(ids[j] == model_items_view(table@.models)[j]);
        }
    }
    r
}

} // verus!
