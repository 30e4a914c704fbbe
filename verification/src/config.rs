//! Configuration: the settings types, the layered loading rules
//! (defaults, then the user file, then the repo file, then the
//! environment) and the tier-dependent model defaults.
use vstd::prelude::*;
use crate::models::{ollama_identity, OllamaEmbedder, OllamaReranker, OllamaSynthesizer};
use crate::text::{
    chars_of, first_token, first_token_spec, lines_spec, parse_u64, parse_u64_spec, split_lines,
    str_eq, string_of,
};

verus! {

/// Hardware tier, which selects the default models.
#[derive(Debug, Clone, Copy, PartialEq, Eq, Structural)]
pub enum Tier {
    Minimal,
    Balanced,
    Max,
}

/// Model selection settings.
#[derive(Debug, Clone, Copy, PartialEq, Eq, Structural)]
pub struct ModelsConfig {
    pub tier: Option<Tier>,
}

impl Default for ModelsConfig {
    fn default() -> (r: ModelsConfig)
        ensures
            r.tier is None,
    {
        ModelsConfig { tier: None }
    }
}

/// Where the graph database lives.
#[derive(Debug, PartialEq, Eq)]
pub struct StorageConfig {
    pub falkordb_url: String,
}

impl Default for StorageConfig {
    fn default() -> (r: StorageConfig)
        ensures
            r.falkordb_url@ == "redis://localhost:6379"@,
    {
        StorageConfig { falkordb_url: string_of("redis://localhost:6379") }
    }
}

/// A model provider.
#[derive(Debug, PartialEq, Eq)]
pub enum ProviderConfig {
    Ollama { endpoint: String, model: Option<String>, dimension: Option<u32> },
}

fn copy_opt_string(s: &Option<String>) -> (r: Option<String>)
    ensures
        r == *s,
{
    match s {
        Some(v) => Some(v.clone()),
        None => None,
    }
}

impl ProviderConfig {
    /// A local Ollama at its default port, with no model or dimension pinned.
    pub fn default_ollama() -> (p: ProviderConfig)
        ensures
            p->Ollama_endpoint@ == "http://localhost:11434"@,
            p->Ollama_model is None,
            p->Ollama_dimension is None,
    {
        ProviderConfig::Ollama {
            endpoint: string_of("http://localhost:11434"),
            model: None,
            dimension: None,
        }
    }

    /// An independent copy.
    pub fn duplicate(&self) -> (p: ProviderConfig)
        ensures
            p == *self,
    {
        match self {
            ProviderConfig::Ollama { endpoint, model, dimension } => ProviderConfig::Ollama {
                endpoint: endpoint.clone(),
                model: copy_opt_string(model),
                dimension: *dimension,
            },
        }
    }
}

fn copy_opt_provider(p: &Option<ProviderConfig>) -> (r: Option<ProviderConfig>)
    ensures
        r == *p,
{
    match p {
        Some(v) => Some(v.duplicate()),
        None => None,
    }
}

/// The configured providers of each role.
#[derive(Debug, PartialEq, Eq)]
pub struct ProvidersConfig {
    pub embedder: Option<ProviderConfig>,
    pub synthesizer: Option<ProviderConfig>,
    pub reranker: Option<ProviderConfig>,
}

/// Settings of the language-server bridge.
#[derive(Debug, PartialEq, Eq)]
pub struct LspConfig {
    pub multilspy_path: String,
    pub languages: Vec<String>,
}

impl Default for LspConfig {
    fn default() -> (r: LspConfig)
        ensures
            r.multilspy_path@ == "python3 scripts/multilspy_bridge.py"@,
            r.languages@.len() == 2,
            r.languages@[0]@ == "typescript"@,
            r.languages@[1]@ == "rust"@,
    {
        let mut languages: Vec<String> = Vec::new();
        languages.push(string_of("typescript"));
        languages.push(string_of("rust"));
        LspConfig { multilspy_path: string_of("python3 scripts/multilspy_bridge.py"), languages }
    }
}

/// The storage part of one configuration layer.
#[derive(Debug, PartialEq, Eq)]
pub struct StorageOverlay {
    pub falkordb_url: Option<String>,
}

/// The providers part of one configuration layer.
#[derive(Debug, PartialEq, Eq)]
pub struct ProvidersOverlay {
    pub embedder: Option<ProviderConfig>,
    pub synthesizer: Option<ProviderConfig>,
    pub reranker: Option<ProviderConfig>,
}

/// One configuration layer; absent values leave earlier layers in force.
#[derive(Debug, PartialEq, Eq)]
pub struct ConfigLayer {
    pub models: Option<ModelsConfig>,
    pub storage: Option<StorageOverlay>,
    pub providers: Option<ProvidersOverlay>,
    pub lsp: Option<LspConfig>,
}

impl Default for ConfigLayer {
    fn default() -> (r: ConfigLayer)
        ensures
            r == empty_layer(),
    {
        ConfigLayer { models: None, storage: None, providers: None, lsp: None }
    }
}

/// The layer that sets nothing.
pub open spec fn empty_layer() -> ConfigLayer {
    ConfigLayer { models: None, storage: None, providers: None, lsp: None }
}

/// The fully resolved configuration.
#[derive(Debug, PartialEq, Eq)]
pub struct Config {
    pub models: ModelsConfig,
    pub storage: StorageConfig,
    pub providers: ProvidersConfig,
    pub lsp: LspConfig,
}

/// A later value if present, else the earlier one.
pub open spec fn later<T>(earlier: Option<T>, later: Option<T>) -> Option<T> {
    if later is Some {
        later
    } else {
        earlier
    }
}

/// `into` overlaid with `from`: every value that `from` sets wins; a
/// storage or providers section in `from` is created in `into` even when
/// it sets nothing.
pub open spec fn merge_spec(into: ConfigLayer, from: ConfigLayer) -> ConfigLayer {
    ConfigLayer {
        models: later(into.models, from.models),
        storage: match from.storage {
            Some(s) => Some(
                StorageOverlay {
                    falkordb_url: later(
                        match into.storage {
                            Some(t) => t.falkordb_url,
                            None => None,
                        },
                        s.falkordb_url,
                    ),
                },
            ),
            None => into.storage,
        },
        providers: match from.providers {
            Some(p) => Some(
                match into.providers {
                    Some(t) => ProvidersOverlay {
                        embedder: later(t.embedder, p.embedder),
                        synthesizer: later(t.synthesizer, p.synthesizer),
                        reranker: later(t.reranker, p.reranker),
                    },
                    None => p,
                },
            ),
            None => into.providers,
        },
        lsp: later(into.lsp, from.lsp),
    }
}

/// Overlays the layer `from` on `into`.
pub fn merge(into: &mut ConfigLayer, from: ConfigLayer)
    ensures
        *final(into) == merge_spec(*old(into), from),
{
    let ghost before = *into;
    let ghost from_v = from;
    let ConfigLayer { models, storage, providers, lsp } = from;
    if models.is_some() {
        into.models = models;
    }
    match storage {
        Some(s) => {
            let current = match into.storage.take() {
                Some(t) => t.falkordb_url,
                None => None,
            };
            let url = match s.falkordb_url {
                Some(u) => Some(u),
                None => current,
            };
            into.storage = Some(StorageOverlay { falkordb_url: url });
        },
        None => {},
    }
    match providers {
        Some(p) => {
            let merged = match into.providers.take() {
                Some(t) => {
                    let ProvidersOverlay { embedder, synthesizer, reranker } = t;
                    ProvidersOverlay {
                        embedder: if p.embedder.is_some() {
                            p.embedder
                        } else {
                            embedder
                        },
                        synthesizer: if p.synthesizer.is_some() {
                            p.synthesizer
                        } else {
                            synthesizer
                        },
                        reranker: if p.reranker.is_some() {
                            p.reranker
                        } else {
                            reranker
                        },
                    }
                },
                None => p,
            };
            into.providers = Some(merged);
        },
        None => {},
    }
    if lsp.is_some() {
        into.lsp = lsp;
    }
    assert(*into == merge_spec(before, from_v));
}

/// Law: in an overlay the later layer wins. Every value that `from` sets
/// replaces the one in `into`; every value it leaves unset keeps the one in
/// `into`.
pub proof fn overlay_values_win(into: ConfigLayer, from: ConfigLayer)
    ensures
        from.models is Some ==> merge_spec(into, from).models == from.models,
        from.models is None ==> merge_spec(into, from).models == into.models,
        from.lsp is Some ==> merge_spec(into, from).lsp == from.lsp,
        from.lsp is None ==> merge_spec(into, from).lsp == into.lsp,
        from.storage is None ==> merge_spec(into, from).storage == into.storage,
        from.storage is Some && from.storage->Some_0.falkordb_url is Some ==> merge_spec(into, from).storage
            == from.storage,
        from.storage is Some && from.storage->Some_0.falkordb_url is None ==> merge_spec(into, from).storage is Some
            && merge_spec(into, from).storage->Some_0.falkordb_url == (match into.storage {
            Some(t) => t.falkordb_url,
            None => None,
        }),
        from.providers is None ==> merge_spec(into, from).providers == into.providers,
        from.providers matches Some(p) ==> {
            let m = merge_spec(into, from).providers->Some_0;
            &&& merge_spec(into, from).providers is Some
            &&& p.embedder is Some ==> m.embedder == p.embedder
            &&& p.synthesizer is Some ==> m.synthesizer == p.synthesizer
            &&& p.reranker is Some ==> m.reranker == p.reranker
            &&& (into.providers is Some && p.embedder is None ==> m.embedder == into.providers->Some_0.embedder)
            &&& (into.providers is Some && p.synthesizer is None ==> m.synthesizer == into.providers->Some_0.synthesizer)
            &&& (into.providers is Some && p.reranker is None ==> m.reranker == into.providers->Some_0.reranker)
        },
{
}

/// Law: overlaying a layer that sets nothing changes nothing.
pub proof fn merge_empty_is_identity(l: ConfigLayer)
    ensures
        merge_spec(l, empty_layer()) == l,
{
}

/// Law: overlaying a layer on the empty layer gives that layer.
pub proof fn merge_into_empty(l: ConfigLayer)
    ensures
        merge_spec(empty_layer(), l).models == l.models,
        merge_spec(empty_layer(), l).lsp == l.lsp,
        merge_spec(empty_layer(), l).providers == l.providers,
        l.storage is Some ==> merge_spec(empty_layer(), l).storage == l.storage,
{
}

/// Law: merging is associative, so the layers may be folded in any grouping.
pub proof fn merge_associative(a: ConfigLayer, b: ConfigLayer, c: ConfigLayer)
    ensures
        merge_spec(merge_spec(a, b), c) == merge_spec(a, merge_spec(b, c)),
{
}

/// The layers folded in order: user, then repo.
pub open spec fn layered_spec(user: Option<ConfigLayer>, repo: Option<ConfigLayer>) -> ConfigLayer {
    let u = match user {
        Some(l) => merge_spec(empty_layer(), l),
        None => empty_layer(),
    };
    match repo {
        Some(l) => merge_spec(u, l),
        None => u,
    }
}

/// Law: the repository layer overrides the user layer: a value the repo
/// layer sets is the one in force; one it leaves unset comes from the user
/// layer.
pub proof fn repo_layer_overrides_user(user: ConfigLayer, repo: ConfigLayer)
    ensures
        repo.models is Some ==> layered_spec(Some(user), Some(repo)).models == repo.models,
        repo.models is None ==> layered_spec(Some(user), Some(repo)).models == user.models,
        repo.lsp is Some ==> layered_spec(Some(user), Some(repo)).lsp == repo.lsp,
        repo.lsp is None ==> layered_spec(Some(user), Some(repo)).lsp == user.lsp,
        repo.storage is Some && repo.storage->Some_0.falkordb_url is Some ==> layered_spec(
            Some(user),
            Some(repo),
        ).storage == repo.storage,
{
    merge_into_empty(user);
    overlay_values_win(merge_spec(empty_layer(), user), repo);
}

/// The database URL the layers and the environment select: the
/// environment's, else the last layer that sets one, else the default.
pub open spec fn resolved_url(layers: ConfigLayer, env_url: Option<Seq<char>>) -> Seq<char> {
    match env_url {
        Some(u) => u,
        None => match layers.storage {
            Some(s) => match s.falkordb_url {
                Some(u) => u@,
                None => "redis://localhost:6379"@,
            },
            None => "redis://localhost:6379"@,
        },
    }
}

/// Resolves the configuration from the user layer (`~/.config/mycel/config.toml`),
/// the repo layer (`<repo>/.mycel.toml`) and the `MYCEL_FALKORDB_URL`
/// environment value, each when present. Later sources win; defaults fill
/// what none sets.
pub fn resolve_config(
    user: Option<ConfigLayer>,
    repo: Option<ConfigLayer>,
    env_falkordb_url: Option<String>,
) -> (cfg: Config)
    ensures
        ({
            let l = layered_spec(user, repo);
            &&& cfg.models == (match l.models {
                Some(m) => m,
                None => ModelsConfig { tier: None },
            })
            &&& cfg.storage.falkordb_url@ == resolved_url(
                l,
                match env_falkordb_url {
                    Some(u) => Some(u@),
                    None => None,
                },
            )
            &&& cfg.providers.embedder == (match l.providers {
                Some(p) => p.embedder,
                None => None,
            })
            &&& cfg.providers.synthesizer == (match l.providers {
                Some(p) => p.synthesizer,
                None => None,
            })
            &&& cfg.providers.reranker == (match l.providers {
                Some(p) => p.reranker,
                None => None,
            })
            &&& (l.lsp is Some ==> cfg.lsp == l.lsp->0)
            &&& (l.lsp is None ==> cfg.lsp.multilspy_path@ == "python3 scripts/multilspy_bridge.py"@
                && cfg.lsp.languages@.len() == 2 && cfg.lsp.languages@[0]@ == "typescript"@
                && cfg.lsp.languages@[1]@ == "rust"@)
        }),
{
    let mut layered = ConfigLayer::default();
    match user {
        Some(l) => merge(&mut layered, l),
        None => {},
    }
    match repo {
        Some(l) => merge(&mut layered, l),
        None => {},
    }
    let ghost l = layered;
    let ConfigLayer { models, storage, providers, lsp } = layered;
    let url = match env_falkordb_url {
        Some(u) => u,
        None => match storage {
            Some(s) => match s.falkordb_url {
                Some(u) => u,
                None => string_of("redis://localhost:6379"),
            },
            None => string_of("redis://localhost:6379"),
        },
    };
    let providers = match providers {
        Some(p) => ProvidersConfig {
            embedder: p.embedder,
            synthesizer: p.synthesizer,
            reranker: p.reranker,
        },
        None => ProvidersConfig { embedder: None, synthesizer: None, reranker: None },
    };
    Config {
        models: match models {
            Some(m) => m,
            None => ModelsConfig::default(),
        },
        storage: StorageConfig { falkordb_url: url },
        providers,
        lsp: match lsp {
            Some(l) => l,
            None => LspConfig::default(),
        },
    }
}

/// The tier for a machine with `gb` GiB of memory: under 12 minimal, under
/// 24 balanced, otherwise max.
pub open spec fn tier_for_memory_spec(gb: nat) -> Tier {
    if gb < 12 {
        Tier::Minimal
    } else if gb < 24 {
        Tier::Balanced
    } else {
        Tier::Max
    }
}

/// The tier a `MemTotal:` line announces, if its first word is a number
/// of kilobytes.
pub open spec fn meminfo_line_tier(line: Seq<char>) -> Option<Tier> {
    let p = "MemTotal:"@;
    if p.is_prefix_of(line) {
        match first_token_spec(line.skip(p.len() as int)) {
            Some(t) => match parse_u64_spec(t) {
                Some(kb) => Some(tier_for_memory_spec((kb / 1024 / 1024) as nat)),
                None => None,
            },
            None => None,
        }
    } else {
        None
    }
}

/// The tier the first usable `MemTotal:` line announces, else balanced.
pub open spec fn meminfo_tier_spec(lines: Seq<Seq<char>>) -> Tier
    decreases lines.len(),
{
    if lines.len() == 0 {
        Tier::Balanced
    } else {
        match meminfo_line_tier(lines[0]) {
            Some(t) => t,
            None => meminfo_tier_spec(lines.skip(1)),
        }
    }
}

/// The tier detected from the text of `/proc/meminfo` (balanced when the
/// file could not be read or announces no usable total).
pub open spec fn detect_tier_spec(meminfo: Option<Seq<char>>) -> Tier {
    match meminfo {
        Some(text) => meminfo_tier_spec(lines_spec(text)),
        None => Tier::Balanced,
    }
}

fn line_tier(line: &str) -> (r: Option<Tier>)
    ensures
        r == meminfo_line_tier(line@),
{
    let cs = chars_of(line);
    let p = chars_of("MemTotal:");
    if cs.len() < p.len() {
        assert(!p@.is_prefix_of(line@));
        return None;
    }
    let mut i: usize = 0;
    while i < p.len()
        invariant
            i <= p@.len() <= cs@.len(),
            p@ == "MemTotal:"@,
            cs@ == line@,
            forall|j: int| 0 <= j < i ==> p@[j] == cs@[j],
        decreases p@.len() - i,
    {
        if p[i] != cs[i] {
            assert(!p@.is_prefix_of(line@)) by {
                assert(p@[i as int] != cs@.subrange(0, p@.len() as int)[i as int]);
            }
            return None;
        }
        i = i + 1;
    }
    assert(p@ =~= cs@.subrange(0, p@.len() as int));
    let mut rest: Vec<char> = Vec::new();
    let mut k = p.len();
    while k < cs.len()
        invariant
            p@.len() <= k <= cs@.len(),
            rest@ == cs@.subrange(p@.len() as int, k as int),
        decreases cs@.len() - k,
    {
        rest.push(cs[k]);
        assert(cs@.subrange(p@.len() as int, k + 1) =~= cs@.subrange(p@.len() as int, k as int).push(
            cs@[k as int],
        ));
        k = k + 1;
    }
    assert(rest@ =~= line@.skip(p@.len() as int));
    match first_token(&rest) {
        Some(t) => match parse_u64(t.as_str()) {
            Some(kb) => {
                let gb = kb / 1024 / 1024;
                Some(
                    if gb < 12 {
                        Tier::Minimal
                    } else if gb < 24 {
                        Tier::Balanced
                    } else {
                        Tier::Max
                    },
                )
            },
            None => None,
        },
        None => None,
    }
}

/// Detects the hardware tier from the text of `/proc/meminfo`, or
/// balanced where that text is not available.
pub fn detect_tier(meminfo: Option<&str>) -> (t: Tier)
    ensures
        t == detect_tier_spec(
            match meminfo {
                Some(s) => Some(s@),
                None => None,
            },
        ),
{
    let text = match meminfo {
        Some(s) => s,
        None => return Tier::Balanced,
    };
    let lines = split_lines(text);
    let ghost ls = lines_spec(text@);
    let mut i: usize = 0;
    assert(ls.skip(0) =~= ls);
    while i < lines.len()
        invariant
            i <= lines@.len(),
            lines@.len() == ls.len(),
            forall|j: int| 0 <= j < lines@.len() ==> (#[trigger] lines@[j])@ == ls[j],
            meminfo_tier_spec(ls) == meminfo_tier_spec(ls.skip(i as int)),
            detect_tier_spec(
                match meminfo {
                    Some(s) => Some(s@),
                    None => None,
                },
            ) == meminfo_tier_spec(ls),
        decreases lines@.len() - i,
    {
        assert(ls.skip(i as int)[0] == ls[i as int]);
        assert(ls.skip(i as int).skip(1) =~= ls.skip(i + 1));
        match line_tier(lines[i].as_str()) {
            Some(t) => {
                assert(meminfo_tier_spec(ls.skip(i as int)) == t);
                return t;
            },
            None => {},
        }
        i = i + 1;
    }
    t_balanced()
}

fn t_balanced() -> (t: Tier)
    ensures
        t == Tier::Balanced,
{
    Tier::Balanced
}

/// The default description model of a tier.
pub open spec fn synthesizer_model_spec(tier: Tier) -> Seq<char> {
    match tier {
        Tier::Minimal => "gemma4:e2b"@,
        Tier::Balanced => "gemma4:e4b"@,
        Tier::Max => "qwen3.6:35b-a3b"@,
    }
}

/// The default reranking model of a tier.
pub open spec fn reranker_model_spec(tier: Tier) -> Seq<char> {
    match tier {
        Tier::Minimal | Tier::Balanced => "qwen3-reranker:0.6b"@,
        Tier::Max => "qwen3-reranker:4b"@,
    }
}

/// The configured tier, else the detected one.
pub open spec fn effective_tier(tier: Option<Tier>, detected: Tier) -> Tier {
    match tier {
        Some(t) => t,
        None => detected,
    }
}

/// The order of tiers, smallest first.
pub open spec fn tier_rank(t: Tier) -> int {
    match t {
        Tier::Minimal => 0,
        Tier::Balanced => 1,
        Tier::Max => 2,
    }
}

/// Law: more memory never gives a smaller tier, every tier is reached, and
/// a configured tier overrides the detected one.
pub proof fn tier_laws(a: nat, b: nat, configured: Option<Tier>, detected: Tier)
    ensures
        a <= b ==> tier_rank(tier_for_memory_spec(a)) <= tier_rank(tier_for_memory_spec(b)),
        tier_for_memory_spec(a) == Tier::Minimal <==> a < 12,
        tier_for_memory_spec(a) == Tier::Max <==> a >= 24,
        configured is Some ==> effective_tier(configured, detected) == configured->Some_0,
        configured is None ==> effective_tier(configured, detected) == detected,
{
}

/// The default description model for a tier; `detected` stands in when no
/// tier is configured.
pub fn default_synthesizer_model(tier: Option<Tier>, detected: Tier) -> (m: String)
    ensures
        m@ == synthesizer_model_spec(effective_tier(tier, detected)),
{
    let t = match tier {
        Some(t) => t,
        None => detected,
    };
    match t {
        Tier::Minimal => string_of("gemma4:e2b"),
        Tier::Balanced => string_of("gemma4:e4b"),
        Tier::Max => string_of("qwen3.6:35b-a3b"),
    }
}

/// The default reranking model for a tier; `detected` stands in when no
/// tier is configured.
pub fn default_reranker_model(tier: Option<Tier>, detected: Tier) -> (m: String)
    ensures
        m@ == reranker_model_spec(effective_tier(tier, detected)),
{
    let t = match tier {
        Some(t) => t,
        None => detected,
    };
    match t {
        Tier::Minimal | Tier::Balanced => string_of("qwen3-reranker:0.6b"),
        Tier::Max => string_of("qwen3-reranker:4b"),
    }
}

/// The provider a role uses: the configured one, else a default local Ollama.
pub open spec fn provider_endpoint(p: Option<ProviderConfig>) -> Seq<char> {
    match p {
        Some(ProviderConfig::Ollama { endpoint, .. }) => endpoint@,
        None => "http://localhost:11434"@,
    }
}

/// The model a provider pins, if any.
pub open spec fn provider_model(p: Option<ProviderConfig>) -> Option<Seq<char>> {
    match p {
        Some(ProviderConfig::Ollama { model: Some(m), .. }) => Some(m@),
        _ => None,
    }
}

fn provider_or_default(p: &Option<ProviderConfig>) -> (r: ProviderConfig)
    ensures
        provider_endpoint(Some(r)) == provider_endpoint(*p),
        provider_model(Some(r)) == provider_model(*p),
{
    match p {
        Some(v) => v.duplicate(),
        None => ProviderConfig::default_ollama(),
    }
}

/// The embedder the configuration selects: the configured provider (else a
/// local Ollama) with its pinned model, else `embeddinggemma`.
pub fn embedder_from_cfg(cfg: &Config) -> (e: OllamaEmbedder)
    ensures
        e.endpoint@ == provider_endpoint(cfg.providers.embedder),
        e.model@ == (match provider_model(cfg.providers.embedder) {
            Some(m) => m,
            None => "embeddinggemma"@,
        }),
        e.identity@ == ollama_identity(e.model@),
        e.dimension == 768,
{
    let provider = provider_or_default(&cfg.providers.embedder);
    match provider {
        ProviderConfig::Ollama { endpoint, model, .. } => {
            let model = match model {
                Some(m) => m,
                None => string_of("embeddinggemma"),
            };
            OllamaEmbedder::new(endpoint, model)
        },
    }
}

/// Whether an environment switch value turns a role off.
pub open spec fn switched_off(switch: Option<Seq<char>>) -> bool {
    switch == Some("off"@)
}

fn is_off(switch: Option<&str>) -> (r: bool)
    ensures
        r == switched_off(
            match switch {
                Some(s) => Some(s@),
                None => None,
            },
        ),
{
    match switch {
        Some(s) => str_eq(s, "off"),
        None => false,
    }
}

/// The synthesizer the configuration selects, or `None` when the
/// `MYCEL_SYNTHESIZER` switch is `off`. The model is the
/// `MYCEL_SYNTHESIZER_MODEL` override, else the pinned one, else the tier
/// default (`detected` standing in for an unset tier).
pub fn synthesizer_from_cfg(
    cfg: &Config,
    switch: Option<&str>,
    model_override: Option<String>,
    detected: Tier,
) -> (s: Option<OllamaSynthesizer>)
    ensures
        s is None <==> switched_off(
            match switch {
                Some(x) => Some(x@),
                None => None,
            },
        ),
        s matches Some(s) ==> {
            &&& s.endpoint@ == provider_endpoint(cfg.providers.synthesizer)
            &&& s.model@ == (match model_override {
                Some(m) => m@,
                None => match provider_model(cfg.providers.synthesizer) {
                    Some(m) => m,
                    None => synthesizer_model_spec(effective_tier(cfg.models.tier, detected)),
                },
            })
            &&& s.identity@ == ollama_identity(s.model@)
        },
{
    if is_off(switch) {
        return None;
    }
    let provider = provider_or_default(&cfg.providers.synthesizer);
    match provider {
        ProviderConfig::Ollama { endpoint, model, .. } => {
            let model = match model_override {
                Some(m) => m,
                None => match model {
                    Some(m) => m,
                    None => default_synthesizer_model(cfg.models.tier, detected),
                },
            };
            Some(OllamaSynthesizer::new(endpoint, model))
        },
    }
}

/// Rerank requests in flight for a tier: 8 on max, else 4.
pub open spec fn reranker_concurrency_spec(tier: Tier) -> usize {
    match tier {
        Tier::Max => 8,
        _ => 4,
    }
}

/// The reranker the configuration selects, or `None` when the
/// `MYCEL_RERANKER` switch is `off`. The model is the
/// `MYCEL_RERANKER_MODEL` override, else the pinned one, else the tier
/// default; concurrency follows the tier.
pub fn reranker_from_cfg(
    cfg: &Config,
    switch: Option<&str>,
    model_override: Option<String>,
    detected: Tier,
) -> (r: Option<OllamaReranker>)
    ensures
        r is None <==> switched_off(
            match switch {
                Some(x) => Some(x@),
                None => None,
            },
        ),
        r matches Some(r) ==> {
            &&& r.endpoint@ == provider_endpoint(cfg.providers.reranker)
            &&& r.model@ == (match model_override {
                Some(m) => m@,
                None => match provider_model(cfg.providers.reranker) {
                    Some(m) => m,
                    None => reranker_model_spec(effective_tier(cfg.models.tier, detected)),
                },
            })
            &&& r.identity@ == ollama_identity(r.model@)
            &&& r.concurrency == reranker_concurrency_spec(effective_tier(cfg.models.tier, detected))
        },
{
    if is_off(switch) {
        return None;
    }
    let provider = provider_or_default(&cfg.providers.reranker);
    let tier = match cfg.models.tier {
        Some(t) => t,
        None => detected,
    };
    let concurrency: usize = match tier {
        Tier::Max => 8,
        _ => 4,
    };
    match provider {
        ProviderConfig::Ollama { endpoint, model, .. } => {
            let model = match model_override {
                Some(m) => m,
                None => match model {
                    Some(m) => m,
                    None => default_reranker_model(cfg.models.tier, detected),
                },
            };
            Some(OllamaReranker::new(endpoint, model, concurrency))
        },
    }
}

} // verus!
