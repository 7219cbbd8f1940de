use cpi_sync::catalog::{build_catalog, CatalogEntry};
use cpi_sync::config::{OperationEnum, PackageRegex, PackageRuleEnum, PackageSingle};
use cpi_sync::errors::SyncError;
use cpi_sync::idset::IdSet;

fn entry(id: &str, name: &str) -> CatalogEntry {
    CatalogEntry { id: id.to_string(), name: name.to_string(), mode: None }
}

fn regex_rule(pattern: &str, operation: OperationEnum) -> PackageRuleEnum {
    PackageRuleEnum::Regex(PackageRegex { operation, pattern: pattern.to_string() })
}

fn single_rule(id: &str, operation: OperationEnum) -> PackageRuleEnum {
    PackageRuleEnum::Single(PackageSingle { id: id.to_string(), operation })
}

fn resolve_ids(entries: Vec<CatalogEntry>, rules: Vec<PackageRuleEnum>) -> Result<IdSet, SyncError> {
    let catalog = build_catalog(&entries);
    cpi_sync::resolve::resolve(&catalog.ids, &catalog.names, &rules)
}

fn as_sorted(ids: &IdSet) -> Vec<String> {
    let mut v: Vec<String> = ids.as_vec().clone();
    v.sort();
    v
}

#[test]
fn resolve_scenario_regex_include_single_exclude() {
    let entries = vec![entry("PKG1", "One"), entry("PKG2", "Two"), entry("Other", "Three")];
    let rules = vec![
        regex_rule("^PKG", OperationEnum::Include),
        single_rule("PKG2", OperationEnum::Exclude),
    ];
    let r = resolve_ids(entries, rules).unwrap();
    assert_eq!(as_sorted(&r), vec!["PKG1".to_string()]);
}

#[test]
fn resolve_is_deterministic() {
    let make = || {
        resolve_ids(
            vec![entry("PKG1", "One"), entry("PKG2", "Two"), entry("Other", "Three")],
            vec![
                regex_rule("^PKG", OperationEnum::Include),
                regex_rule("2$", OperationEnum::Exclude),
                single_rule("Other", OperationEnum::Include),
            ],
        )
    };
    let a = make().unwrap();
    let b = make().unwrap();
    assert_eq!(as_sorted(&a), as_sorted(&b));
}

#[test]
fn rule_order_matters() {
    let entries = || vec![entry("a", "A"), entry("b", "B")];
    let exclude_first = resolve_ids(
        entries(),
        vec![single_rule("a", OperationEnum::Exclude), regex_rule(".*", OperationEnum::Include)],
    )
    .unwrap();
    assert!(exclude_first.contains(&"a".to_string()));

    let exclude_last = resolve_ids(
        entries(),
        vec![regex_rule(".*", OperationEnum::Include), single_rule("a", OperationEnum::Exclude)],
    )
    .unwrap();
    assert!(!exclude_last.contains(&"a".to_string()));
    assert!(exclude_last.contains(&"b".to_string()));
}

#[test]
fn single_include_of_unknown_id_fails() {
    let r = resolve_ids(
        vec![entry("PKG1", "One")],
        vec![single_rule("Nope", OperationEnum::Include)],
    );
    match r {
        Err(SyncError::UnknownPackageId { id, suggestion }) => {
            assert_eq!(id, "Nope");
            assert!(suggestion.is_none());
        }
        other => panic!("expected UnknownPackageId, got {:?}", other.is_ok()),
    }
}

#[test]
fn single_exclude_of_unknown_id_fails_too() {
    let r = resolve_ids(
        vec![entry("PKG1", "One")],
        vec![single_rule("Nope", OperationEnum::Exclude)],
    );
    assert!(matches!(r, Err(SyncError::UnknownPackageId { .. })));
}

#[test]
fn unknown_id_that_is_a_display_name_gets_a_suggestion() {
    let r = resolve_ids(
        vec![entry("PKG1", "My Package")],
        vec![single_rule("My Package", OperationEnum::Include)],
    );
    match r {
        Err(SyncError::UnknownPackageId { id, suggestion }) => {
            assert_eq!(id, "My Package");
            assert_eq!(suggestion, Some("PKG1".to_string()));
        }
        other => panic!("expected UnknownPackageId, got {:?}", other.is_ok()),
    }
}

#[test]
fn duplicate_display_names_join_identifiers_with_commas() {
    let r = resolve_ids(
        vec![entry("PKG1", "Same"), entry("PKG2", "Same")],
        vec![single_rule("Same", OperationEnum::Include)],
    );
    match r {
        Err(SyncError::UnknownPackageId { suggestion, .. }) => {
            assert_eq!(suggestion, Some("PKG1,PKG2".to_string()));
        }
        other => panic!("expected UnknownPackageId, got {:?}", other.is_ok()),
    }
}

#[test]
fn single_exclude_absent_from_working_set_is_noop() {
    let r = resolve_ids(
        vec![entry("a", "A"), entry("b", "B")],
        vec![single_rule("a", OperationEnum::Include), single_rule("b", OperationEnum::Exclude)],
    )
    .unwrap();
    assert_eq!(as_sorted(&r), vec!["a".to_string()]);
}

#[test]
fn regex_rules_never_introduce_identifiers_outside_the_catalog() {
    let r = resolve_ids(
        vec![entry("PKG1", "One"), entry("PKG2", "Two")],
        vec![regex_rule(".*", OperationEnum::Include)],
    )
    .unwrap();
    assert_eq!(as_sorted(&r), vec!["PKG1".to_string(), "PKG2".to_string()]);
}

#[test]
fn regex_exclude_removes_only_its_matches() {
    let r = resolve_ids(
        vec![entry("PKG1", "One"), entry("PKG2", "Two"), entry("Other", "Three")],
        vec![regex_rule(".*", OperationEnum::Include), regex_rule("^PKG", OperationEnum::Exclude)],
    )
    .unwrap();
    assert_eq!(as_sorted(&r), vec!["Other".to_string()]);
}

#[test]
fn empty_rule_list_selects_nothing() {
    let r = resolve_ids(vec![entry("PKG1", "One")], vec![]).unwrap();
    assert_eq!(r.len(), 0);
}

#[test]
fn empty_catalog_regex_include_selects_nothing() {
    let r = resolve_ids(vec![], vec![regex_rule(".*", OperationEnum::Include)]).unwrap();
    assert_eq!(r.len(), 0);
}

#[test]
fn malformed_pattern_fails_with_invalid_pattern() {
    let r = resolve_ids(vec![entry("PKG1", "One")], vec![regex_rule("[", OperationEnum::Include)]);
    match r {
        Err(SyncError::InvalidPattern { pattern }) => assert_eq!(pattern, "["),
        other => panic!("expected InvalidPattern, got {:?}", other.is_ok()),
    }
}

#[test]
fn duplicate_catalog_identifiers_collapse_into_the_set() {
    let r = resolve_ids(
        vec![entry("PKG1", "One"), entry("PKG1", "One again")],
        vec![regex_rule(".*", OperationEnum::Include)],
    )
    .unwrap();
    assert_eq!(r.len(), 1);
}

#[test]
fn name_index_lookup_finds_joined_ids() {
    let catalog = build_catalog(&vec![entry("A", "N"), entry("B", "N"), entry("C", "M")]);
    assert_eq!(catalog.names.lookup(&"N".to_string()), Some(&"A,B".to_string()));
    assert_eq!(catalog.names.lookup(&"M".to_string()), Some(&"C".to_string()));
    assert_eq!(catalog.names.lookup(&"A".to_string()), None);
}

#[test]
fn unknown_package_error_message_names_the_id_and_suggestion() {
    let e = SyncError::UnknownPackageId {
        id: "My Package".to_string(),
        suggestion: Some("PKG1".to_string()),
    };
    let m = e.message();
    assert!(m.contains("My Package"));
    assert!(m.contains("PKG1"));
}
