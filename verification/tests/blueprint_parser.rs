use knowloop::blueprint::models::{BlueprintCategory, BlueprintDifficulty, BlueprintScope};
use knowloop::blueprint::parser::{
    extract_references, infer_category, infer_scope, parse_blueprint, parse_yaml_list,
    slug_from_path, strip_metadata_comment,
};
use knowloop::digest::compute_sha256;

const SAMPLE_BLUEPRINT: &str = r#"# Blueprint: Service Layer Pattern

<!-- METADATA — structured for agents, useful for humans
tags:        [service, flutter, dart, testing, cache, offline, architecture]
category:    patterns
difficulty:  intermediate
time:        45 min
stack:       [flutter, dart]
-->

> Structure services with interface-based dependencies, cache+fallback chains, and mock-friendly testing.

## TL;DR

Every service that touches external I/O depends on abstract interfaces. Services are testable via hand-written mocks. Cache logic follows a cache → API → stale cache → error fallback chain.

## When to Use

- Adding a service that calls a REST API
- When you need offline support

## Steps

### 1. Define the interface

```dart
abstract class ExchangeRateProvider {
  Future<double> getRate(String from, String to);
}
```

## Gotchas

> **UnimplementedError stubs for deferred features**: When a feature is planned but not yet built, stub it with `throw UnimplementedError`.

> **Manual override preservation on clearAll()**: When the user manually sets a value, `clearAll()` should NOT delete it.

> **HTTP client injection**: Always inject `http.Client` into providers.

## Checklist

- [ ] Every external dependency is behind an abstract interface
- [ ] Cache follows the 4-step fallback
- [ ] Tests use hand-written mocks with `shouldFail` + `callCount`

## References

- [ViewModel Pure Functions](viewmodel-pure-functions.md) — how VMs consume service data
- [Error Handling & Logging](error-handling-logging.md) — Result types
- [Offline-First Architecture](../architecture/offline-first-architecture.md) — full offline sync
"#;

#[test]
fn test_parse_blueprint_basic() {
    let result = parse_blueprint(SAMPLE_BLUEPRINT, "patterns/service-layer-pattern.md").unwrap();

    assert_eq!(result.name, "Service Layer Pattern");
    assert_eq!(result.slug, "service-layer-pattern");
    assert_eq!(result.source_file, "patterns/service-layer-pattern.md");
    assert!(!result.content_hash.is_empty());
    assert_eq!(result.content_hash.len(), 64); // SHA-256 hex
}

#[test]
fn test_parse_metadata() {
    let result = parse_blueprint(SAMPLE_BLUEPRINT, "patterns/service-layer-pattern.md").unwrap();

    assert_eq!(result.category, BlueprintCategory::Patterns);
    assert_eq!(result.difficulty, BlueprintDifficulty::Intermediate);
    assert_eq!(result.estimated_time, "45 min");
    assert_eq!(result.stack, vec!["flutter", "dart"]);
    assert!(result.tags.contains(&"service".to_string()));
    assert!(result.tags.contains(&"cache".to_string()));
}

#[test]
fn test_parse_scope_inference() {
    let result = parse_blueprint(SAMPLE_BLUEPRINT, "patterns/service-layer-pattern.md").unwrap();
    assert_eq!(result.scope, BlueprintScope::Pattern);

    // Architecture with no feature tags: scaffolding
    let arch = parse_blueprint(
        "# Blueprint: Dual DB\n\n<!-- METADATA\ncategory: architecture\n-->\n\n> desc\n\n## TL;DR\nstuff",
        "architecture/dual-db.md",
    )
    .unwrap();
    assert_eq!(arch.scope, BlueprintScope::Scaffolding);

    // Architecture with an oauth tag: feature
    let oauth = parse_blueprint(
        "# Blueprint: OAuth\n\n<!-- METADATA\ncategory: architecture\ntags: [oauth, auth]\n-->\n\n> desc\n\n## TL;DR\nstuff",
        "architecture/oauth.md",
    )
    .unwrap();
    assert_eq!(oauth.scope, BlueprintScope::Feature);
}

#[test]
fn test_parse_description() {
    let result = parse_blueprint(SAMPLE_BLUEPRINT, "patterns/service-layer-pattern.md").unwrap();

    assert_eq!(
        result.description,
        "Structure services with interface-based dependencies, cache+fallback chains, and mock-friendly testing."
    );
}

#[test]
fn test_parse_tier1() {
    let result = parse_blueprint(SAMPLE_BLUEPRINT, "patterns/service-layer-pattern.md").unwrap();

    assert!(result.tier1.contains("Service Layer Pattern"));
    assert!(result.tier1.contains("interface-based"));
}

#[test]
fn test_parse_tier2_contains_tldr_and_gotchas() {
    let result = parse_blueprint(SAMPLE_BLUEPRINT, "patterns/service-layer-pattern.md").unwrap();

    assert!(result.tier2.contains("abstract interfaces"));
    assert!(result.tier2.contains("Gotchas"));
    assert!(result.tier2.contains("UnimplementedError"));
    assert!(result.tier2.contains("Checklist"));
    assert!(result.tier2.contains("abstract interface"));
}

#[test]
fn test_parse_tier3_is_full_content() {
    let result = parse_blueprint(SAMPLE_BLUEPRINT, "patterns/service-layer-pattern.md").unwrap();

    assert!(result
        .tier3_content
        .contains("abstract class ExchangeRateProvider"));
    assert!(result.tier3_content.contains("## Steps"));
}

#[test]
fn test_extract_references() {
    let refs = extract_references(SAMPLE_BLUEPRINT);

    assert_eq!(refs.len(), 3);
    assert!(refs.contains(&"viewmodel-pure-functions".to_string()));
    assert!(refs.contains(&"error-handling-logging".to_string()));
    assert!(refs.contains(&"offline-first-architecture".to_string()));
}

#[test]
fn test_slug_from_path() {
    assert_eq!(
        slug_from_path("patterns/service-layer-pattern.md"),
        "service-layer-pattern"
    );
    assert_eq!(
        slug_from_path("architecture/oauth-auth-flow.md"),
        "oauth-auth-flow"
    );
    assert_eq!(
        slug_from_path("ci-cd/github-actions-flutter.md"),
        "github-actions-flutter"
    );
}

#[test]
fn test_parse_yaml_list() {
    assert_eq!(
        parse_yaml_list("[flutter, dart, riverpod]"),
        vec!["flutter", "dart", "riverpod"]
    );
    assert_eq!(parse_yaml_list("  [a, b]  "), vec!["a", "b"]);
    assert_eq!(parse_yaml_list("[]"), Vec::<String>::new());
}

#[test]
fn test_content_hash_deterministic() {
    let r1 = parse_blueprint(SAMPLE_BLUEPRINT, "test.md").unwrap();
    let r2 = parse_blueprint(SAMPLE_BLUEPRINT, "test.md").unwrap();
    assert_eq!(r1.content_hash, r2.content_hash);

    let r3 = parse_blueprint("# Different\n> desc\n## TL;DR\nstuff", "test.md").unwrap();
    assert_ne!(r1.content_hash, r3.content_hash);
}

#[test]
fn content_hash_of_known_text() {
    assert_eq!(
        compute_sha256("abc"),
        "ba7816bf8f01cfea414140de5dae2223b00361a396177a9cb410ff61f20015ad"
    );
    assert_eq!(
        compute_sha256(""),
        "e3b0c44298fc1c149afbf4c8996fb92427ae41e4649b934ca495991b7852b855"
    );
}

#[test]
fn slug_without_stem_is_unknown() {
    assert_eq!(slug_from_path(""), "unknown");
}

#[test]
fn category_inferred_from_path() {
    assert_eq!(infer_category("ci-cd/pipeline.md"), BlueprintCategory::CiCd);
    assert_eq!(infer_category("Testing/x.md"), BlueprintCategory::Testing);
    assert_eq!(infer_category("somewhere/else.md"), BlueprintCategory::Patterns);
}

#[test]
fn scope_inferred_from_category_and_tags() {
    let none: Vec<String> = Vec::new();
    assert_eq!(infer_scope(BlueprintCategory::Workflow, &none), BlueprintScope::Process);
    assert_eq!(infer_scope(BlueprintCategory::CiCd, &none), BlueprintScope::Process);
    assert_eq!(infer_scope(BlueprintCategory::ProjectSetup, &none), BlueprintScope::Scaffolding);
    let auth = vec!["auth".to_string()];
    assert_eq!(infer_scope(BlueprintCategory::Architecture, &auth), BlueprintScope::Feature);
    assert_eq!(infer_scope(BlueprintCategory::Patterns, &auth), BlueprintScope::Pattern);
}

#[test]
fn title_without_blueprint_prefix_and_missing_metadata() {
    let b = parse_blueprint("# Plain Title\n\nno quote here", "x/plain.md").unwrap();
    assert_eq!(b.name, "Plain Title");
    assert_eq!(b.description, "");
    assert_eq!(b.estimated_time, "");
    assert!(b.stack.is_empty());
    assert_eq!(b.difficulty, BlueprintDifficulty::Intermediate);
}

#[test]
fn slug_follows_the_file_stem_rules() {
    assert_eq!(slug_from_path("a//b/x.tar.gz"), "x.tar");
    assert_eq!(slug_from_path("dir/.hidden"), ".hidden");
    assert_eq!(slug_from_path("dir/name."), "name");
    assert_eq!(slug_from_path("dir/sub/"), "sub");
    assert_eq!(slug_from_path("dir/sub/."), "sub");
    assert_eq!(slug_from_path("dir/.."), "unknown");
    assert_eq!(slug_from_path("/"), "unknown");
    assert_eq!(slug_from_path("plain"), "plain");
}

#[test]
fn metadata_comment_is_stripped() {
    assert_eq!(strip_metadata_comment("# T\n<!-- a: b -->\nbody"), "# T\n\nbody");
    assert_eq!(strip_metadata_comment("no comment"), "no comment");
    assert_eq!(strip_metadata_comment("<!-- open only"), "<!-- open only");
    let result = parse_blueprint(SAMPLE_BLUEPRINT, "patterns/service-layer-pattern.md").unwrap();
    assert!(!result.tier3_content.contains("<!--"));
    assert!(result.tier3_content.starts_with("# Blueprint: Service Layer Pattern"));
}
