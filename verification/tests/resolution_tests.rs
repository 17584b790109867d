use ggcode::action::{find_action_by_full_name, find_action_by_name, list_actions};
use ggcode::chain::{list_chains, ChainSource};
use ggcode::config::{
    resolve_package, setup_scrolls, ActionEntry, ConfigBuilder, PackageConfig,
    RepositoryEntry, ScrollEntry,
};
use ggcode::scroll::{find_scroll_by_full_name, find_scroll_by_name, list_scrolls};
use ggcode::Context;

fn scroll(name: &str, path: &str) -> ScrollEntry {
    ScrollEntry {
        name: name.to_string(),
        path: path.to_string(),
        about: None,
    }
}

fn action(name: &str, path: &str) -> ActionEntry {
    ActionEntry {
        name: name.to_string(),
        path: path.to_string(),
        about: None,
        args: vec![],
    }
}

fn package(name: &str, scrolls: Vec<ScrollEntry>, actions: Vec<ActionEntry>) -> PackageConfig {
    PackageConfig {
        name: name.to_string(),
        actions,
        scrolls,
        repositories: vec![],
        targets: vec![],
    }
}

fn context_with(config: PackageConfig) -> ggcode::ResolvedContext {
    ggcode::ResolvedContext {
        config_path: "ggcode-info.yaml".to_string(),
        directory_path: "/work".to_string(),
        directory_name: "work".to_string(),
        current_config: config,
    }
}

#[test]
fn context_resolve_test() {
    let ctx = Context {
        config_path: "ggcode-info.yaml".to_string(),
        directory_path: "/work".to_string(),
        directory_name: "work".to_string(),
        current_config: Some(package("demo", vec![], vec![])),
    };
    let resolved = ctx.resolve().unwrap();
    assert_eq!(resolved.current_config.name, "demo");

    let bare = Context {
        config_path: "ggcode-info.yaml".to_string(),
        directory_path: "/work".to_string(),
        directory_name: "work".to_string(),
        current_config: None,
    };
    assert!(bare.resolve().is_err());
}

#[test]
fn list_scrolls_qualified_names_test() {
    let mut cfg = package("app", vec![scroll("web", "scrolls/web")], vec![]);
    cfg.repositories.push(RepositoryEntry {
        name: "base".to_string(),
        uri: "https://example.test/base.git".to_string(),
    });
    let ctx = context_with(cfg);
    let dep = package("base-pkg", vec![scroll("svc", "scrolls/svc")], vec![]);
    let refs = list_scrolls(&ctx, &vec![Some(dep)]);
    let names: Vec<String> = refs.iter().map(|r| r.full_name.clone()).collect();
    assert_eq!(names, vec!["base/svc".to_string(), "@/web".to_string()]);
    assert_eq!(refs[0].dependency_name, Some("base".to_string()));
    assert_eq!(refs[1].dependency_name, None);
}

#[test]
fn list_scrolls_missing_dependency_test() {
    let mut cfg = package("app", vec![scroll("web", "scrolls/web")], vec![]);
    cfg.repositories.push(RepositoryEntry {
        name: "gone".to_string(),
        uri: "https://example.test/gone.git".to_string(),
    });
    let ctx = context_with(cfg);
    let refs = list_scrolls(&ctx, &vec![None]);
    assert_eq!(refs.len(), 1);
    assert_eq!(refs[0].full_name, "@/web");
}

#[test]
fn find_scroll_by_full_name_test() {
    let mut cfg = package("app", vec![scroll("web", "scrolls/web")], vec![]);
    cfg.repositories.push(RepositoryEntry {
        name: "base".to_string(),
        uri: "uri".to_string(),
    });
    let ctx = context_with(cfg);
    let dep = package("base-pkg", vec![scroll("svc", "scrolls/svc")], vec![]);

    let local = find_scroll_by_full_name(&ctx, &"@/web".to_string(), &vec![Some(dep)]).unwrap();
    assert_eq!(local.full_name, "@/web");
    assert_eq!(local.scroll.path, "scrolls/web");

    let dep2 = package("base-pkg", vec![scroll("svc", "scrolls/svc")], vec![]);
    let remote =
        find_scroll_by_full_name(&ctx, &"base/svc".to_string(), &vec![Some(dep2)]).unwrap();
    assert_eq!(remote.full_name, "base/svc");
    assert_eq!(remote.dependency_name, Some("base".to_string()));
    assert_eq!(remote.package.name, "base-pkg");

    let dep3 = package("base-pkg", vec![scroll("svc", "scrolls/svc")], vec![]);
    let missing = find_scroll_by_full_name(&ctx, &"base/zzz".to_string(), &vec![Some(dep3)]);
    assert_eq!(missing.unwrap_err(), "No scroll with name: base/zzz");
}

#[test]
fn find_scroll_by_name_test() {
    let cfg = package("app", vec![scroll("web", "scrolls/web")], vec![]);
    let ctx = context_with(package("other", vec![], vec![]));
    let found = find_scroll_by_name(&ctx, &cfg, &"web".to_string()).unwrap();
    assert_eq!(found.path, "scrolls/web");
    assert!(find_scroll_by_name(&ctx, &cfg, &"zzz".to_string()).is_none());
}

#[test]
fn list_actions_test() {
    let cfg = package("app", vec![], vec![action("fmt", "actions/fmt")]);
    let ctx = context_with(cfg);
    let refs = list_actions(&ctx, &vec![]);
    assert_eq!(refs.len(), 1);
    assert_eq!(refs[0].full_name, "@/fmt");
}

#[test]
fn list_actions_with_dependency_test() {
    let mut cfg = package("app", vec![], vec![action("fmt", "actions/fmt")]);
    cfg.repositories.push(RepositoryEntry {
        name: "base".to_string(),
        uri: "uri".to_string(),
    });
    let ctx = context_with(cfg);
    let dep = package("base-pkg", vec![], vec![action("lint", "actions/lint")]);
    let refs = list_actions(&ctx, &vec![Some(dep)]);
    let names: Vec<String> = refs.iter().map(|r| r.full_name.clone()).collect();
    assert_eq!(names, vec!["base/lint".to_string(), "@/fmt".to_string()]);
    assert_eq!(refs[0].package.name, "base-pkg");
    assert_eq!(refs[1].package.name, "app");
}

#[test]
fn find_action_test() {
    let cfg = package("app", vec![], vec![action("fmt", "actions/fmt")]);
    let ctx = context_with(cfg);
    let found = find_action_by_full_name(&ctx, &"@/fmt".to_string(), &vec![]).unwrap();
    assert_eq!(found.action.path, "actions/fmt");
    let missing = find_action_by_full_name(&ctx, &"@/zzz".to_string(), &vec![]);
    assert_eq!(missing.unwrap_err(), "No action with name: @/zzz");

    let entry = find_action_by_name(&ctx, &ctx.current_config, &"fmt".to_string()).unwrap();
    assert_eq!(entry.name, "fmt");
}

#[test]
fn find_action_in_dependency_test() {
    let mut cfg = package("app", vec![], vec![]);
    cfg.repositories.push(RepositoryEntry {
        name: "base".to_string(),
        uri: "uri".to_string(),
    });
    let ctx = context_with(cfg);
    let dep = package("base-pkg", vec![], vec![action("lint", "actions/lint")]);
    let found = find_action_by_full_name(&ctx, &"base/lint".to_string(), &vec![Some(dep)])
        .unwrap();
    assert_eq!(found.full_name, "base/lint");
    assert_eq!(found.package.name, "base-pkg");
}

#[test]
fn resolve_package_test() {
    let mut cfg = package("app", vec![], vec![]);
    cfg.repositories.push(RepositoryEntry {
        name: "base".to_string(),
        uri: "uri".to_string(),
    });
    cfg.repositories.push(RepositoryEntry {
        name: "gone".to_string(),
        uri: "uri2".to_string(),
    });
    let dep = package("base-pkg", vec![], vec![]);
    let data = resolve_package(&cfg, vec![Some(dep), None]);
    assert_eq!(data.config.name, "app");
    assert_eq!(data.dependencies.len(), 1);
    assert_eq!(data.dependencies[0].0, "base");
    assert_eq!(data.dependencies[0].1.name, "base-pkg");
}

#[test]
fn setup_scrolls_test() {
    assert!(setup_scrolls(&None).is_empty());
    let cfg = package("app", vec![scroll("web", "scrolls/web")], vec![]);
    let kept = setup_scrolls(&Some(cfg));
    assert_eq!(kept.len(), 1);
    assert_eq!(kept[0].name, "web");
}

#[test]
fn config_builder_test() {
    let builder = ConfigBuilder::new()
        .with_raw_config("a".to_string(), "x: 1".to_string())
        .with_raw_config("a".to_string(), "x: 2".to_string())
        .with_file_config("b".to_string(), "path/b.yaml".to_string());
    assert_eq!(builder.raw_configs.len(), 1);
    assert_eq!(builder.raw_configs[0].1, "x: 2");
    assert_eq!(builder.file_configs.len(), 1);
}

#[test]
fn list_chains_test() {
    let ctx = context_with(package("app", vec![], vec![]));
    let deps = vec![(
        "base".to_string(),
        vec![ChainSource {
            path: "chains/build".to_string(),
            chain: None,
        }],
    )];
    let locals = vec![ChainSource {
        path: "chains/dev".to_string(),
        chain: None,
    }];
    let chains = list_chains(&ctx, deps, locals);
    let keys: Vec<String> = chains.iter().map(|c| c.0.clone()).collect();
    assert_eq!(
        keys,
        vec!["base/chains/build".to_string(), "@/chains/dev".to_string()]
    );
    assert_eq!(chains[1].1.chain_path, "chains/dev");
}
