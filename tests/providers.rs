use tf_ncl::providers::{IntoWithProviders, ProviderConfig, ProviderError, Providers};

fn config(source: &str, version: &str) -> ProviderConfig {
    ProviderConfig { source: source.to_string(), version: version.to_string() }
}

#[test]
fn distinct_sources_are_accepted() {
    let p = Providers(vec![
        ("aws".to_string(), config("hashicorp/aws", "~> 4.0")),
        ("google".to_string(), config("hashicorp/google", "4.1")),
    ]);
    assert!(p.check_sources().is_ok());
}

#[test]
fn duplicate_source_is_rejected() {
    let p = Providers(vec![
        ("aws".to_string(), config("hashicorp/aws", "1")),
        ("other".to_string(), config("hashicorp/aws", "2")),
    ]);
    match p.check_sources() {
        Err(ProviderError::DuplicateSource { source, first, second }) => {
            assert_eq!(source, "hashicorp/aws");
            assert_eq!(first, "aws");
            assert_eq!(second, "other");
        }
        other => panic!("unexpected result {:?}", other),
    }
}

#[test]
fn duplicate_alias_is_rejected() {
    let p = Providers(vec![
        ("aws".to_string(), config("hashicorp/aws", "1")),
        ("aws".to_string(), config("other/aws", "2")),
    ]);
    assert!(matches!(p.check_sources(), Err(ProviderError::DuplicateAlias { alias }) if alias == "aws"));
}

#[test]
fn value_is_paired_with_providers() {
    let p = Providers(vec![("aws".to_string(), config("hashicorp/aws", "1"))]);
    let w = 7u32.with_providers(p);
    assert_eq!(w.data, 7);
    assert_eq!(w.providers.0.len(), 1);
    assert_eq!(w.providers.0[0].1.source, "hashicorp/aws");
}

#[test]
fn first_clash_in_order_is_reported() {
    let p = Providers(vec![
        ("a".to_string(), config("x/one", "1")),
        ("b".to_string(), config("x/two", "1")),
        ("c".to_string(), config("x/two", "1")),
        ("a".to_string(), config("x/three", "1")),
    ]);
    match p.check_sources() {
        Err(ProviderError::DuplicateSource { source, first, second }) => {
            assert_eq!((source.as_str(), first.as_str(), second.as_str()), ("x/two", "b", "c"));
        }
        other => panic!("unexpected result {:?}", other),
    }
}

#[test]
fn alias_lookup_takes_the_entry_for_it() {
    let p = Providers(vec![
        ("aws".to_string(), config("hashicorp/aws", "1")),
        ("google".to_string(), config("hashicorp/google", "2")),
    ]);
    assert_eq!(p.config(&"google".to_string()).map(|c| c.version.as_str()), Some("2"));
    assert!(p.config(&"azure".to_string()).is_none());
}
