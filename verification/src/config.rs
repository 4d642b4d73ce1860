//! The router's configuration, as plain values: where the server listens,
//! how each provider is reached, which provider serves each model, and the
//! models to fall back on.
use vstd::prelude::*;

use crate::logging::db::opt_text;
use crate::text::push_decimal;
use crate::text::decimal_digits;

verus! {

/// Where the HTTP server listens.
#[derive(Debug, Clone)]
pub struct ServerConfig {
    pub bind: String,
    pub port: u16,
}

/// How one provider is reached.
#[derive(Debug, Clone)]
pub struct ProviderConfig {
    /// `openai_http`, `gemini_http` or `cli`.
    pub kind: String,
    pub base_url: Option<String>,
    /// The environment variable that holds the API key.
    pub api_key_env: Option<String>,
    pub command: Option<String>,
    pub args: Vec<String>,
}

/// A model name and the id of the provider that serves it.
#[derive(Debug, Clone)]
pub struct ModelRoute {
    pub model: String,
    pub provider: String,
}

/// What routing reads of the configuration: the configured models with
/// their providers, the ids of the providers that could be set up, and the
/// fallback models in the order they are tried.
#[derive(Debug, Clone)]
pub struct RoutingTable {
    pub models: Vec<ModelRoute>,
    pub providers: Vec<String>,
    pub fallback_models: Vec<String>,
}

/// The abstract routing table: model entries as (model, provider) texts.
pub struct RoutingView {
    pub models: Seq<(Seq<char>, Seq<char>)>,
    pub providers: Seq<Seq<char>>,
    pub fallback_models: Seq<Seq<char>>,
}

impl View for RoutingTable {
    type V = RoutingView;

    open spec fn view(&self) -> RoutingView {
        RoutingView {
            models: self.models@.map_values(|m: ModelRoute| (m.model@, m.provider@)),
            providers: self.providers@.map_values(|p: String| p@),
            fallback_models: self.fallback_models@.map_values(|m: String| m@),
        }
    }
}

/// The provider of the first entry for `name`, if any (model names are
/// keys of a map in the configuration file, so there is at most one).
pub open spec fn model_provider(models: Seq<(Seq<char>, Seq<char>)>, name: Seq<char>) -> Option<
    Seq<char>,
>
    decreases models.len(),
{
    if models.len() == 0 {
        None
    } else if models[0].0 == name {
        Some(models[0].1)
    } else {
        model_provider(models.drop_first(), name)
    }
}

/// Whether no model name is configured twice (model names are the keys of
/// a map in the configuration file).
pub open spec fn distinct_models(models: Seq<(Seq<char>, Seq<char>)>) -> bool {
    forall|i: int, j: int| 0 <= i < j < models.len() ==> models[i].0 != models[j].0
}

/// The address the server binds: `bind:port`.
pub open spec fn bind_address_text(bind: Seq<char>, port: nat) -> Seq<char> {
    bind + seq![':'] + decimal_digits(port)
}

impl ServerConfig {
    /// The `host:port` address to listen on.
    pub fn bind_address(&self) -> (r: String)
        ensures
            r@ == bind_address_text(self.bind@, self.port as nat),
    {
        let mut r = self.bind.clone();
        crate::text::push_char(&mut r, ':');
        push_decimal(&mut r, self.port as u64);
        assert(r@ =~= bind_address_text(self.bind@, self.port as nat));
        r
    }
}

impl RoutingTable {
    /// The provider configured for `model`, if the model is configured.
    pub fn provider_of(&self, model: &String) -> (r: Option<String>)
        ensures
            r matches Some(p) ==> model_provider(self@.models, model@) == Some(p@),
            r is None ==> model_provider(self@.models, model@) is None,
    {
        let mut i: usize = 0;
        assert(self@.models.skip(0) =~= self@.models);
        while i < self.models.len()
            invariant
                0 <= i <= self.models@.len(),
                model_provider(self@.models, model@) == model_provider(
                    self@.models.skip(i as int),
                    model@,
                ),
            decreases self.models@.len() - i,
        {
            let entry = &self.models[i];
            proof {
                assert(self@.models.skip(i as int)[0] == (entry.model@, entry.provider@));
            }
            if entry.model == *model {
                return Some(entry.provider.clone());
            }
            assert(self@.models.skip(i as int).drop_first() =~= self@.models.skip(i + 1));
            i = i + 1;
        }
        None
    }

    /// Whether `model` is configured.
    pub fn has_model(&self, model: &String) -> (r: bool)
        ensures
            r == (model_provider(self@.models, model@) is Some),
    {
        self.provider_of(model).is_some()
    }

    /// Whether no model name is configured twice.
    pub fn has_distinct_models(&self) -> (r: bool)
        ensures
            r == distinct_models(self@.models),
    {
        let n = self.models.len();
        let mut a: usize = 0;
        while a < n
            invariant
                n == self.models@.len(),
                a <= n,
                forall|i: int, j: int|
                    0 <= i < a && i < j < n ==> self@.models[i].0 != self@.models[j].0,
            decreases n - a,
        {
            let mut b: usize = a + 1;
            while b < n
                invariant
                    n == self.models@.len(),
                    a < n,
                    a + 1 <= b <= n,
                    forall|i: int, j: int|
                        0 <= i < a && i < j < n ==> self@.models[i].0 != self@.models[j].0,
                    forall|j: int| a < j < b ==> self@.models[a as int].0 != self@.models[j].0,
                decreases n - b,
            {
                if self.models[a].model == self.models[b].model {
                    assert(self@.models[a as int].0 == self@.models[b as int].0);
                    return false;
                }
                b = b + 1;
            }
            a = a + 1;
        }
        true
    }

    /// Whether a provider with id `id` could be set up.
    pub fn has_provider(&self, id: &String) -> (r: bool)
        ensures
            r == self@.providers.contains(id@),
    {
        let mut i: usize = 0;
        while i < self.providers.len()
            invariant
                0 <= i <= self.providers@.len(),
                forall|k: int| 0 <= k < i ==> self@.providers[k] != id@,
            decreases self.providers@.len() - i,
        {
            if self.providers[i] == *id {
                assert(self@.providers[i as int] == id@);
                return true;
            }
            i = i + 1;
        }
        false
    }
}


pub const OPENAI_HTTP_KIND: &'static str = "openai_http";

pub const GEMINI_HTTP_KIND: &'static str = "gemini_http";

pub const CLI_KIND: &'static str = "cli";

/// The kinds of provider that are reached over HTTP with an API key.
pub open spec fn is_http_kind(kind: Seq<char>) -> bool {
    kind == OPENAI_HTTP_KIND@ || kind == GEMINI_HTTP_KIND@
}

/// Why a provider cannot be set up.
#[derive(Debug, Clone, Copy, PartialEq, Eq)]
pub enum SetupError {
    ApiKeyEnvMissing,
    BaseUrlMissing,
    CommandMissing,
    UnsupportedKind,
}

/// The message of a setup error.
pub open spec fn setup_error_text(e: SetupError) -> Seq<char> {
    match e {
        SetupError::ApiKeyEnvMissing => "api_key_env missing"@,
        SetupError::BaseUrlMissing => "base_url missing"@,
        SetupError::CommandMissing => "command missing"@,
        SetupError::UnsupportedKind => "unsupported provider kind"@,
    }
}

impl SetupError {
    /// The message of the error.
    pub fn message(&self) -> (r: &'static str)
        ensures
            r@ == setup_error_text(*self),
    {
        match self {
            SetupError::ApiKeyEnvMissing => "api_key_env missing",
            SetupError::BaseUrlMissing => "base_url missing",
            SetupError::CommandMissing => "command missing",
            SetupError::UnsupportedKind => "unsupported provider kind",
        }
    }
}

/// The environment variable that holds a provider's API key: required by
/// the HTTP kinds, not used by `cli`; an unknown kind is refused.
pub open spec fn key_env_text(kind: Seq<char>, api_key_env: Option<Seq<char>>) -> Result<
    Option<Seq<char>>,
    SetupError,
> {
    if is_http_kind(kind) {
        match api_key_env {
            Some(e) => Ok(Some(e)),
            None => Err(SetupError::ApiKeyEnvMissing),
        }
    } else if kind == CLI_KIND@ {
        Ok(None)
    } else {
        Err(SetupError::UnsupportedKind)
    }
}

/// The environment variable that holds a provider's API key, if it needs
/// one.
pub fn key_env_of(p: &ProviderConfig) -> (r: Result<Option<String>, SetupError>)
    ensures
        match r {
            Ok(Some(e)) => key_env_text(p.kind@, opt_text(p.api_key_env)) == Ok::<
                Option<Seq<char>>,
                SetupError,
            >(Some(e@)),
            Ok(None) => key_env_text(p.kind@, opt_text(p.api_key_env)) == Ok::<
                Option<Seq<char>>,
                SetupError,
            >(None),
            Err(err) => key_env_text(p.kind@, opt_text(p.api_key_env)) == Err::<
                Option<Seq<char>>,
                SetupError,
            >(err),
        },
{
    if kind_is(&p.kind, OPENAI_HTTP_KIND) || kind_is(&p.kind, GEMINI_HTTP_KIND) {
        match &p.api_key_env {
            Some(e) => Ok(Some(e.clone())),
            None => Err(SetupError::ApiKeyEnvMissing),
        }
    } else if kind_is(&p.kind, CLI_KIND) {
        Ok(None)
    } else {
        Err(SetupError::UnsupportedKind)
    }
}

fn kind_is(kind: &String, name: &str) -> (r: bool)
    ensures
        r == (kind@ == name@),
{
    *kind == String::from_str(name)
}

/// How a provider is reached, once its configuration is checked.
#[derive(Debug)]
pub enum ProviderSetup {
    OpenAiHttp { base_url: String, api_key: String },
    GeminiHttp { base_url: String, api_key: String },
    Cli { command: String, args: Vec<String> },
}

/// Whether `r` sets up an HTTP provider of the given kind with this base URL
/// and key.
pub open spec fn sets_up_http(r: ProviderSetup, kind: Seq<char>, base_url: Seq<char>, api_key: Seq<char>) -> bool {
    match r {
        ProviderSetup::OpenAiHttp { base_url: b, api_key: k } => kind == OPENAI_HTTP_KIND@ && b@
            == base_url && k@ == api_key,
        ProviderSetup::GeminiHttp { base_url: b, api_key: k } => kind == GEMINI_HTTP_KIND@ && b@
            == base_url && k@ == api_key,
        ProviderSetup::Cli { .. } => false,
    }
}

/// A provider's setup, given its configuration and the API key read from
/// its environment variable (for the HTTP kinds): the HTTP kinds need a key
/// and a base URL, `cli` needs a command; other kinds are refused.
pub fn provider_setup(p: &ProviderConfig, api_key: Option<String>) -> (r: Result<ProviderSetup, SetupError>)
    ensures
        is_http_kind(p.kind@) ==> match (api_key, p.base_url) {
            (None, _) => r == Err::<ProviderSetup, SetupError>(SetupError::ApiKeyEnvMissing),
            (Some(_), None) => r == Err::<ProviderSetup, SetupError>(SetupError::BaseUrlMissing),
            (Some(k), Some(b)) => r matches Ok(setup) && sets_up_http(setup, p.kind@, b@, k@),
        },
        p.kind@ == CLI_KIND@ ==> match p.command {
            None => r == Err::<ProviderSetup, SetupError>(SetupError::CommandMissing),
            Some(c) => r matches Ok(ProviderSetup::Cli { command, args }) && command@ == c@
                && args@.map_values(|a: String| a@) == p.args@.map_values(|a: String| a@),
        },
        !is_http_kind(p.kind@) && p.kind@ != CLI_KIND@ ==> r == Err::<ProviderSetup, SetupError>(
            SetupError::UnsupportedKind,
        ),
{
    proof {
        reveal_strlit("openai_http");
        reveal_strlit("gemini_http");
        reveal_strlit("cli");
        assert(CLI_KIND@.len() != OPENAI_HTTP_KIND@.len());
        assert(CLI_KIND@.len() != GEMINI_HTTP_KIND@.len());
    }
    let openai = kind_is(&p.kind, OPENAI_HTTP_KIND);
    let gemini = kind_is(&p.kind, GEMINI_HTTP_KIND);
    if openai || gemini {
        let key = match api_key {
            Some(k) => k,
            None => return Err(SetupError::ApiKeyEnvMissing),
        };
        let base_url = match &p.base_url {
            Some(b) => b.clone(),
            None => return Err(SetupError::BaseUrlMissing),
        };
        if openai {
            Ok(ProviderSetup::OpenAiHttp { base_url, api_key: key })
        } else {
            Ok(ProviderSetup::GeminiHttp { base_url, api_key: key })
        }
    } else if kind_is(&p.kind, CLI_KIND) {
        match &p.command {
            Some(c) => Ok(ProviderSetup::Cli { command: c.clone(), args: copy_strings(&p.args) }),
            None => Err(SetupError::CommandMissing),
        }
    } else {
        Err(SetupError::UnsupportedKind)
    }
}

/// An exact copy of a list of strings.
pub fn copy_strings(v: &Vec<String>) -> (r: Vec<String>)
    ensures
        r@.map_values(|a: String| a@) == v@.map_values(|a: String| a@),
{
    let mut r: Vec<String> = Vec::new();
    let mut i: usize = 0;
    while i < v.len()
        invariant
            i <= v@.len(),
            r@.map_values(|a: String| a@) == v@.map_values(|a: String| a@).take(i as int),
        decreases v@.len() - i,
    {
        let ghost before = r@.map_values(|a: String| a@);
        r.push(v[i].clone());
        assert(r@.map_values(|a: String| a@) =~= before.push(v@[i as int]@));
        assert(v@.map_values(|a: String| a@).take(i + 1) =~= before.push(v@[i as int]@));
        i = i + 1;
    }
    assert(v@.map_values(|a: String| a@).take(i as int) =~= v@.map_values(|a: String| a@));
    r
}

} // verus!
