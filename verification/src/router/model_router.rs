//! Model routing: which (model, provider) pairs a chat request is tried on,
//! in which order, and what it is answered when every attempt fails.
use vstd::prelude::*;

use crate::config::{model_provider, ModelRoute, RoutingTable, RoutingView};
use crate::providers::ProviderError;

verus! {

/// The routable (model, provider) pairs among `names`, in order: a name is
/// kept when it is a configured model whose provider could be set up.
pub open spec fn routes_for(t: RoutingView, names: Seq<Seq<char>>) -> Seq<(Seq<char>, Seq<char>)>
    decreases names.len(),
{
    if names.len() == 0 {
        seq![]
    } else {
        let rest = routes_for(t, names.drop_first());
        match model_provider(t.models, names[0]) {
            Some(p) => if t.providers.contains(p) {
                seq![(names[0], p)] + rest
            } else {
                rest
            },
            None => rest,
        }
    }
}

/// The attempts of a chat request for `requested`: the requested model, then
/// each fallback model, skipping those that cannot be routed.
pub open spec fn candidate_routes(t: RoutingView, requested: Seq<char>) -> Seq<(Seq<char>, Seq<char>)> {
    routes_for(t, seq![requested] + t.fallback_models)
}

/// Every attempt is routable: its model is configured with that provider,
/// the provider could be set up, and the model was one of the names tried.
pub proof fn lemma_routes_are_routable(t: RoutingView, names: Seq<Seq<char>>)
    ensures
        forall|i: int|
            0 <= i < routes_for(t, names).len() ==> {
                let r = #[trigger] routes_for(t, names)[i];
                &&& model_provider(t.models, r.0) == Some(r.1)
                &&& t.providers.contains(r.1)
                &&& names.contains(r.0)
            },
    decreases names.len(),
{
    if names.len() > 0 {
        lemma_routes_are_routable(t, names.drop_first());
        let rest = routes_for(t, names.drop_first());
        let all = routes_for(t, names);
        assert forall|i: int| 0 <= i < all.len() implies {
            let r = #[trigger] all[i];
            &&& model_provider(t.models, r.0) == Some(r.1)
            &&& t.providers.contains(r.1)
            &&& names.contains(r.0)
        } by {
            if all.len() > rest.len() && i == 0 {
                assert(names.contains(names[0]));
            } else {
                let j = if all.len() > rest.len() { i - 1 } else { i };
                assert(all[i] == rest[j]);
                let m = rest[j].0;
                assert(names.drop_first().contains(m));
                let k = choose|k: int| 0 <= k < names.drop_first().len() && names.drop_first()[k] == m;
                assert(names[k + 1] == m);
            }
        }
    }
}

/// The requested model is tried first whenever it can be routed.
pub proof fn lemma_requested_first(t: RoutingView, requested: Seq<char>, p: Seq<char>)
    requires
        model_provider(t.models, requested) == Some(p),
        t.providers.contains(p),
    ensures
        candidate_routes(t, requested).len() > 0,
        candidate_routes(t, requested)[0] == (requested, p),
{
    let names = seq![requested] + t.fallback_models;
    assert(names[0] == requested);
    assert(names.drop_first() =~= t.fallback_models);
}

/// A requested model that cannot be routed is skipped: only the fallback
/// models are tried.
pub proof fn lemma_unroutable_request_falls_back(t: RoutingView, requested: Seq<char>)
    requires
        !(model_provider(t.models, requested) matches Some(p) && t.providers.contains(p)),
    ensures
        candidate_routes(t, requested) == routes_for(t, t.fallback_models),
{
    let names = seq![requested] + t.fallback_models;
    assert(names[0] == requested);
    assert(names.drop_first() =~= t.fallback_models);
}

/// Whether `e` is a configuration error with detail `text`.
pub open spec fn is_config_error(e: ProviderError, text: Seq<char>) -> bool {
    match e {
        ProviderError::Config(m) => m@ == text,
        _ => false,
    }
}

/// What the router does next.
#[derive(Debug)]
pub enum RouteStep {
    /// Send the request to this provider, with this model.
    Call(ModelRoute),
    /// Every attempt failed (or there was none): answer with this error.
    Finish(ProviderError),
}

/// The progress of one chat request through its candidate routes.
pub struct ChatRouting {
    candidates: Vec<ModelRoute>,
    next: usize,
    last_error: Option<ProviderError>,
}

impl ChatRouting {
    #[verifier::type_invariant]
    spec fn inv(self) -> bool {
        self.next <= self.candidates@.len() <= usize::MAX
    }

    /// The candidate routes, in the order they are tried.
    pub closed spec fn routes(self) -> Seq<(Seq<char>, Seq<char>)> {
        self.candidates@.map_values(|m: ModelRoute| (m.model@, m.provider@))
    }

    /// How many candidates have been tried and failed.
    pub closed spec fn attempted(self) -> nat {
        self.next as nat
    }

    /// The failure of the latest attempt, if any attempt was made.
    pub closed spec fn last_failure(self) -> Option<ProviderError> {
        self.last_error
    }

    /// Starts routing a request for `requested` through `table`.
    pub fn new(table: &RoutingTable, requested: &String) -> (r: ChatRouting)
        ensures
            r.routes() == candidate_routes(table@, requested@),
            r.attempted() == 0,
            r.last_failure() is None,
    {
        let mut names: Vec<String> = Vec::new();
        names.push(requested.clone());
        let mut k: usize = 0;
        while k < table.fallback_models.len()
            invariant
                k <= table.fallback_models@.len(),
                names@.map_values(|m: String| m@) =~= seq![requested@] + table@.fallback_models.take(
                    k as int,
                ),
            decreases table.fallback_models@.len() - k,
        {
            let ghost before = names@.map_values(|m: String| m@);
            names.push(table.fallback_models[k].clone());
            assert(names@.map_values(|m: String| m@) =~= before.push(table@.fallback_models[k as int]));
            assert(table@.fallback_models.take(k + 1) =~= table@.fallback_models.take(k as int).push(
                table@.fallback_models[k as int],
            ));
            k = k + 1;
        }
        assert(table@.fallback_models.take(k as int) =~= table@.fallback_models);
        let ghost all = names@.map_values(|m: String| m@);
        let mut candidates: Vec<ModelRoute> = Vec::new();
        let mut i: usize = 0;
        assert(all.skip(0) =~= all);
        while i < names.len()
            invariant
                i <= names@.len(),
                candidates@.len() <= i,
                all == names@.map_values(|m: String| m@),
                candidates@.map_values(|m: ModelRoute| (m.model@, m.provider@)) + routes_for(
                    table@,
                    all.skip(i as int),
                ) == routes_for(table@, all),
            decreases names@.len() - i,
        {
            let name = &names[i];
            let ghost before = candidates@.map_values(|m: ModelRoute| (m.model@, m.provider@));
            assert(all.skip(i as int)[0] == name@);
            assert(all.skip(i as int).drop_first() =~= all.skip(i + 1));
            match table.provider_of(name) {
                Some(p) => {
                    if table.has_provider(&p) {
                        let route = ModelRoute { model: name.clone(), provider: p };
                        candidates.push(route);
                        assert(candidates@.map_values(|m: ModelRoute| (m.model@, m.provider@))
                            =~= before.push((name@, p@)));
                        assert(before + routes_for(table@, all.skip(i as int)) =~= before.push(
                            (name@, p@),
                        ) + routes_for(table@, all.skip(i + 1)));
                    }
                },
                None => {},
            }
            i = i + 1;
        }
        assert(all.skip(i as int) =~= Seq::<Seq<char>>::empty());
        assert(candidates@.map_values(|m: ModelRoute| (m.model@, m.provider@)) + Seq::empty()
            =~= candidates@.map_values(|m: ModelRoute| (m.model@, m.provider@)));
        ChatRouting { candidates, next: 0, last_error: None }
    }

    /// What to do next: try the next candidate, or finish with the latest
    /// failure (or with "no route found" when nothing could be tried).
    pub fn next_step(&self) -> (r: RouteStep)
        ensures
            self.attempted() < self.routes().len() ==> (r matches RouteStep::Call(route) && (
            route.model@, route.provider@) == self.routes()[self.attempted() as int]),
            self.attempted() >= self.routes().len() ==> match r {
                RouteStep::Finish(e) => match self.last_failure() {
                    Some(l) => e == l,
                    None => is_config_error(e, "no route found"@),
                },
                RouteStep::Call(_) => false,
            },
    {
        proof {
            use_type_invariant(self);
        }
        if self.next < self.candidates.len() {
            let c = &self.candidates[self.next];
            RouteStep::Call(ModelRoute { model: c.model.clone(), provider: c.provider.clone() })
        } else {
            match &self.last_error {
                Some(e) => RouteStep::Finish(copy_error(e)),
                None => RouteStep::Finish(ProviderError::Config(String::from_str("no route found"))),
            }
        }
    }

    /// Records that the current candidate failed with `err`.
    pub fn record_failure(&mut self, err: ProviderError)
        requires
            old(self).attempted() < old(self).routes().len(),
        ensures
            final(self).routes() == old(self).routes(),
            final(self).attempted() == old(self).attempted() + 1,
            final(self).last_failure() == Some(err),
    {
        proof {
            use_type_invariant(&*self);
            assert(self.routes().len() == self.candidates@.len());
        }
        self.next = self.next + 1;
        self.last_error = Some(err);
    }
}

/// An exact copy of an error.
pub fn copy_error(e: &ProviderError) -> (r: ProviderError)
    ensures
        r == *e,
{
    match e {
        ProviderError::Http(m) => ProviderError::Http(m.clone()),
        ProviderError::Cli(m) => ProviderError::Cli(m.clone()),
        ProviderError::Parse(m) => ProviderError::Parse(m.clone()),
        ProviderError::Config(m) => ProviderError::Config(m.clone()),
    }
}

/// The provider that serves a streaming request for `model`: streaming does
/// not fall back, so an unknown model or a provider that could not be set
/// up is a configuration error.
pub fn stream_provider(table: &RoutingTable, model: &String) -> (r: Result<String, ProviderError>)
    ensures
        model_provider(table@.models, model@) is None ==> (r matches Err(e) && is_config_error(
            e,
            "model not found"@,
        )),
        model_provider(table@.models, model@) matches Some(p) ==> (if table@.providers.contains(p) {
            r matches Ok(q) && q@ == p
        } else {
            r matches Err(e) && is_config_error(e, "provider not found"@)
        }),
{
    match table.provider_of(model) {
        None => Err(ProviderError::Config(String::from_str("model not found"))),
        Some(p) => {
            if table.has_provider(&p) {
                Ok(p)
            } else {
                Err(ProviderError::Config(String::from_str("provider not found")))
            }
        },
    }
}

} // verus!
