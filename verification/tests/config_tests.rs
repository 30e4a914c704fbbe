use mycel::config::{
    default_reranker_model, default_synthesizer_model, detect_tier, embedder_from_cfg, merge, reranker_from_cfg,
    resolve_config, synthesizer_from_cfg, ConfigLayer, ModelsConfig, ProviderConfig, ProvidersOverlay,
    StorageOverlay, Tier,
};

#[test]
fn reranker_default_per_tier() {
    assert_eq!(default_reranker_model(Some(Tier::Minimal), Tier::Balanced), "qwen3-reranker:0.6b");
    assert_eq!(default_reranker_model(Some(Tier::Balanced), Tier::Balanced), "qwen3-reranker:0.6b");
    assert_eq!(default_reranker_model(Some(Tier::Max), Tier::Balanced), "qwen3-reranker:4b");
}

#[test]
fn synthesizer_default_per_tier() {
    assert_eq!(default_synthesizer_model(Some(Tier::Minimal), Tier::Max), "gemma4:e2b");
    assert_eq!(default_synthesizer_model(Some(Tier::Balanced), Tier::Max), "gemma4:e4b");
    assert_eq!(default_synthesizer_model(Some(Tier::Max), Tier::Minimal), "qwen3.6:35b-a3b");
    assert_eq!(default_synthesizer_model(None, Tier::Minimal), "gemma4:e2b");
}

#[test]
fn tier_follows_total_memory() {
    assert_eq!(detect_tier(Some("MemTotal:        8000000 kB\nMemFree: 1 kB\n")), Tier::Minimal);
    assert_eq!(detect_tier(Some("MemFree: 1 kB\nMemTotal:       16777216 kB\n")), Tier::Balanced);
    assert_eq!(detect_tier(Some("MemTotal:       33554432 kB\n")), Tier::Max);
    assert_eq!(detect_tier(Some("MemTotal: lots\n")), Tier::Balanced);
    assert_eq!(detect_tier(None), Tier::Balanced);
}

fn layer_with_url(url: &str) -> ConfigLayer {
    ConfigLayer {
        models: None,
        storage: Some(StorageOverlay { falkordb_url: Some(url.to_string()) }),
        providers: None,
        lsp: None,
    }
}

#[test]
fn later_layers_win() {
    let mut base = layer_with_url("redis://a:1");
    merge(&mut base, layer_with_url("redis://b:2"));
    assert_eq!(base.storage.unwrap().falkordb_url, Some("redis://b:2".to_string()));

    let mut base = layer_with_url("redis://a:1");
    merge(&mut base, ConfigLayer::default());
    assert_eq!(base.storage.unwrap().falkordb_url, Some("redis://a:1".to_string()));
}

#[test]
fn environment_url_overrides_layers() {
    let cfg = resolve_config(Some(layer_with_url("redis://user:1")), Some(layer_with_url("redis://repo:2")), None);
    assert_eq!(cfg.storage.falkordb_url, "redis://repo:2");
    let cfg = resolve_config(Some(layer_with_url("redis://user:1")), None, Some("redis://env:3".to_string()));
    assert_eq!(cfg.storage.falkordb_url, "redis://env:3");
    let cfg = resolve_config(None, None, None);
    assert_eq!(cfg.storage.falkordb_url, "redis://localhost:6379");
    assert_eq!(cfg.lsp.multilspy_path, "python3 scripts/multilspy_bridge.py");
}

#[test]
fn providers_follow_configuration_and_switches() {
    let mut user = ConfigLayer::default();
    user.models = Some(ModelsConfig { tier: Some(Tier::Max) });
    user.providers = Some(ProvidersOverlay {
        embedder: Some(ProviderConfig::Ollama {
            endpoint: "http://gpu:11434".into(),
            model: Some("nomic".into()),
            dimension: None,
        }),
        synthesizer: None,
        reranker: None,
    });
    let cfg = resolve_config(Some(user), None, None);
    let e = embedder_from_cfg(&cfg);
    assert_eq!(e.endpoint, "http://gpu:11434");
    assert_eq!(e.model, "nomic");
    assert!(synthesizer_from_cfg(&cfg, Some("off"), None, Tier::Balanced).is_none());
    let s = synthesizer_from_cfg(&cfg, None, None, Tier::Balanced).unwrap();
    assert_eq!(s.model, "qwen3.6:35b-a3b");
    let s = synthesizer_from_cfg(&cfg, None, Some("mine".into()), Tier::Balanced).unwrap();
    assert_eq!(s.model, "mine");
    let r = reranker_from_cfg(&cfg, None, None, Tier::Minimal).unwrap();
    assert_eq!(r.model, "qwen3-reranker:4b");
    assert_eq!(r.concurrency, 8);
    assert!(reranker_from_cfg(&cfg, Some("off"), None, Tier::Minimal).is_none());
}

#[test]
fn merging_is_associative_on_an_example() {
    let a = || layer_with_url("redis://a:1");
    let b = || ConfigLayer {
        models: Some(ModelsConfig { tier: Some(Tier::Minimal) }),
        storage: Some(StorageOverlay { falkordb_url: None }),
        providers: None,
        lsp: None,
    };
    let c = || layer_with_url("redis://c:3");
    let mut left = a();
    merge(&mut left, b());
    merge(&mut left, c());
    let mut bc = b();
    merge(&mut bc, c());
    let mut right = a();
    merge(&mut right, bc);
    assert_eq!(left, right);
    assert_eq!(left.storage.unwrap().falkordb_url, Some("redis://c:3".to_string()));
    assert_eq!(left.models, Some(ModelsConfig { tier: Some(Tier::Minimal) }));
}
