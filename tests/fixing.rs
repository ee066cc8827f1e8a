use ws_dep_lint::document::{keeps_item, Document};
use ws_dep_lint::fix::{
    apply_fixes, exit_code, fix_package, fix_workspace, read_default_features_flags, should_persist,
};
use ws_dep_lint::model::{
    DeclaredDependency, DependencySpec, Finding, FindingKind, InheritedEntry, PackageManifest,
    SharedDependency, TableKind,
};
use ws_dep_lint::report::{changed_lines, diff_report, tidy_manifest_text, DiffLine};

fn strings(v: &[&str]) -> Vec<String> {
    v.iter().map(|s| s.to_string()).collect()
}

fn shared(name: &str, features: &[&str]) -> SharedDependency {
    SharedDependency { name: name.to_string(), features: strings(features) }
}

fn inherited(name: &str, features: &[&str], flag: bool) -> DeclaredDependency {
    DeclaredDependency {
        name: name.to_string(),
        spec: DependencySpec::Inherited(InheritedEntry {
            workspace: true,
            features: strings(features),
            default_features_set: flag,
        }),
    }
}

fn normal_only(deps: Vec<DeclaredDependency>) -> PackageManifest {
    PackageManifest { dependencies: deps, dev_dependencies: vec![], build_dependencies: vec![] }
}

fn features_of(text: &str, table: &str, dep: &str) -> Option<Vec<String>> {
    let doc: toml_edit::DocumentMut = text.parse().unwrap();
    let arr = doc.get(table)?.get(dep)?.get("features")?.as_array()?;
    Some(arr.iter().map(|v| v.as_str().unwrap().to_string()).collect())
}

const MEMBER_FEATURES: &str = "[package]\nname = \"p\"\n\n# kept comment\n[dependencies]\nfoo = { workspace = true, features = [\"a\", \"c\"] }\nbaz = \"1\"   # trailing\n";

#[test]
fn parse_then_render_is_identity() {
    let d = Document::parse(MEMBER_FEATURES.to_string()).unwrap();
    assert!(!d.is_edited());
    assert_eq!(d.render(), MEMBER_FEATURES);
    assert_eq!(d.source_text(), MEMBER_FEATURES);
}

#[test]
fn parse_rejects_malformed_text() {
    assert!(Document::parse("[dependencies\nfoo = ".to_string()).is_err());
}

#[test]
fn scenario_fix_removes_redundant_feature() {
    let s = vec![shared("foo", &["a", "b"])];
    let p = normal_only(vec![inherited("foo", &["a", "c"], false)]);
    let mut doc = Document::parse(MEMBER_FEATURES.to_string()).unwrap();
    let r = fix_package(&s, &p, &mut doc, true).unwrap();
    assert_eq!(r.findings.len(), 1);
    let text = r.fixed_text.unwrap();
    assert_eq!(features_of(&text, "dependencies", "foo"), Some(strings(&["c"])));
    assert!(text.contains("# kept comment"));
    assert!(text.contains("baz = \"1\"   # trailing"));
    assert!(!r.diff.is_empty());
    assert!(r.diff.iter().all(|l| !matches!(l, DiffLine::Unchanged(_))));
}

#[test]
fn fix_drops_emptied_feature_list() {
    let text = "[dependencies]\nfoo = { workspace = true, features = [\"a\"] }\n";
    let s = vec![shared("foo", &["a"])];
    let p = normal_only(vec![inherited("foo", &["a"], false)]);
    let mut doc = Document::parse(text.to_string()).unwrap();
    let r = fix_package(&s, &p, &mut doc, true).unwrap();
    let fixed = r.fixed_text.unwrap();
    assert_eq!(features_of(&fixed, "dependencies", "foo"), None);
    assert!(!fixed.contains("features"));
}

#[test]
fn scenario_fix_removes_default_features_flag() {
    let text = "[dependencies]\nfoo = { workspace = true, default-features = false }\n";
    let s = vec![shared("foo", &[])];
    let p = normal_only(vec![inherited("foo", &[], true)]);
    let mut doc = Document::parse(text.to_string()).unwrap();
    let r = fix_package(&s, &p, &mut doc, true).unwrap();
    assert_eq!(r.findings.len(), 1);
    assert!(matches!(r.findings[0].kind, FindingKind::RedundantDefaultFeaturesFlag));
    let fixed = r.fixed_text.unwrap();
    assert!(!fixed.contains("default"));
    assert!(fixed.contains("foo = { workspace = true }"), "{fixed}");
}

#[test]
fn fix_removes_underscore_spelling_in_dev_table() {
    let text = "[dev-dependencies]\nfoo = { workspace = true, default_features = true, features = [\"x\"] }\n";
    let s = vec![shared("foo", &[])];
    let p = PackageManifest {
        dependencies: vec![],
        dev_dependencies: vec![inherited("foo", &["x"], true)],
        build_dependencies: vec![],
    };
    let mut doc = Document::parse(text.to_string()).unwrap();
    let r = fix_package(&s, &p, &mut doc, true).unwrap();
    let fixed = r.fixed_text.unwrap();
    assert!(!fixed.contains("default"));
    assert_eq!(features_of(&fixed, "dev-dependencies", "foo"), Some(strings(&["x"])));
}

#[test]
fn idempotent_second_pass_finds_nothing() {
    let s = vec![shared("foo", &["a", "b"])];
    let fixed_model = normal_only(vec![inherited("foo", &["c"], false)]);
    let text = "[dependencies]\nfoo = { workspace = true, features = [\"c\"] }\n";
    let mut doc = Document::parse(text.to_string()).unwrap();
    let r = fix_package(&s, &fixed_model, &mut doc, true).unwrap();
    assert!(r.findings.is_empty());
    assert!(r.fixed_text.is_none());
    assert!(r.diff.is_empty());
    assert!(!doc.is_edited());
}

#[test]
fn no_fix_requested_leaves_document() {
    let s = vec![shared("foo", &["a", "b"])];
    let p = normal_only(vec![inherited("foo", &["a", "c"], false)]);
    let mut doc = Document::parse(MEMBER_FEATURES.to_string()).unwrap();
    let r = fix_package(&s, &p, &mut doc, false).unwrap();
    assert_eq!(r.findings.len(), 1);
    assert!(r.fixed_text.is_none());
    assert!(r.diff.is_empty());
    assert_eq!(doc.render(), MEMBER_FEATURES);
}

#[test]
fn scenario_fix_removes_unused_shared_dependency() {
    let root = "[workspace]\nmembers = [\"p\"]\n\n[workspace.dependencies]\nfoo = \"1\"\nbar = { version = \"2\" } # unused\n";
    let s = vec![shared("foo", &[]), shared("bar", &[])];
    let ps = vec![normal_only(vec![inherited("foo", &[], false)])];
    let mut doc = Document::parse(root.to_string()).unwrap();
    let r = fix_workspace(&s, &ps, &mut doc, true);
    assert_eq!(r.findings.len(), 1);
    assert_eq!(r.findings[0].name, "bar");
    assert!(r.findings[0].table.is_none());
    let fixed = r.fixed_text.unwrap();
    let parsed: toml_edit::DocumentMut = fixed.parse().unwrap();
    assert!(parsed["workspace"]["dependencies"].get("bar").is_none());
    assert!(parsed["workspace"]["dependencies"].get("foo").is_some());
    assert_eq!(r.diff.len(), 1);
    assert!(matches!(&r.diff[0], DiffLine::Removed(l) if l.starts_with("bar")));
}

#[test]
fn scenario_clean_workspace_exits_zero() {
    let root = "[workspace.dependencies]\nfoo = \"1\"\n";
    let member = "[dependencies]\nfoo = { workspace = true }\n";
    let s = vec![shared("foo", &["a"])];
    let p = normal_only(vec![inherited("foo", &[], false)]);
    let mut mdoc = Document::parse(member.to_string()).unwrap();
    let pr = fix_package(&s, &p, &mut mdoc, false).unwrap();
    let mut rdoc = Document::parse(root.to_string()).unwrap();
    let wr = fix_workspace(&s, &vec![p], &mut rdoc, false);
    let something = !pr.findings.is_empty() || !wr.findings.is_empty();
    assert!(!something);
    assert!(pr.diff.is_empty() && wr.diff.is_empty());
    assert_eq!(exit_code(false, something), 0);
}

#[test]
fn exit_code_cases() {
    assert_eq!(exit_code(false, true), 1);
    assert_eq!(exit_code(true, true), 0);
    assert_eq!(exit_code(false, false), 0);
    assert_eq!(exit_code(true, false), 0);
}

#[test]
fn persistence_only_when_fixing_for_real() {
    assert!(should_persist(true, false, true));
    assert!(!should_persist(true, true, true));
    assert!(!should_persist(false, false, true));
    assert!(!should_persist(true, false, false));
}

#[test]
fn apply_fixes_reports_whether_anything_applied() {
    let mut doc = Document::parse("[dependencies]\nfoo = \"1\"\n".to_string()).unwrap();
    assert_eq!(apply_fixes(&mut doc, &vec![]).unwrap(), false);
    assert!(!doc.is_edited());
    let f = Finding {
        name: "foo".to_string(),
        table: Some(TableKind::Normal),
        kind: FindingKind::RedundantDefaultFeaturesFlag,
    };
    assert_eq!(apply_fixes(&mut doc, &vec![f]).unwrap(), true);
}

#[test]
fn remove_key_reports_presence() {
    let mut doc = Document::parse("[dependencies]\nfoo = { workspace = true, optional = true }\n".to_string()).unwrap();
    assert!(!doc.remove_key("dependencies", "foo", "default-features"));
    assert!(!doc.is_edited());
    assert!(doc.remove_key("dependencies", "foo", "optional"));
    assert!(doc.is_edited());
    assert!(!doc.render().contains("optional"));
}

#[test]
fn remove_sequence_items_counts_what_is_left() {
    let mut doc = Document::parse("[dependencies]\nfoo = { features = [\"a\", \"b\", \"a\"] }\n".to_string()).unwrap();
    assert_eq!(doc.remove_sequence_items("dependencies", "foo", "features", &strings(&["a"])), Some(2));
    assert_eq!(features_of(&doc.render(), "dependencies", "foo"), Some(strings(&["b"])));
    assert_eq!(doc.remove_sequence_items("dependencies", "nope", "features", &strings(&["a"])), None);
}

#[test]
fn keeps_item_cases() {
    let dropped = strings(&["a"]);
    assert!(!keeps_item(Some("a"), &dropped));
    assert!(keeps_item(Some("b"), &dropped));
    assert!(keeps_item(None, &dropped));
}

#[test]
fn tidy_restores_space_and_dotted_form() {
    assert_eq!(tidy_manifest_text("foo = { workspace = true}\n"), "foo = { workspace = true }\n");
    assert_eq!(tidy_manifest_text("bar = { workspace = true }\n"), "bar = { workspace = true }\n");
    assert_eq!(tidy_manifest_text("x = { a = 1, workspace = true}\n"), "x = { a = 1, workspace = true }\n");
    assert_eq!(tidy_manifest_text("unchanged = 1\n"), "unchanged = 1\n");
}

#[test]
fn diff_report_shows_changes_only() {
    let r = diff_report("a\nb\nc\n", "a\nc\nd\n");
    let shown: Vec<String> = r
        .iter()
        .map(|l| match l {
            DiffLine::Removed(s) => format!("-{s}"),
            DiffLine::Added(s) => format!("+{s}"),
            DiffLine::Unchanged(s) => format!(" {s}"),
        })
        .collect();
    assert_eq!(shown, vec!["-b".to_string(), "+d".to_string()]);
    assert!(diff_report("same\n", "same\n").is_empty());
}

#[test]
fn changed_lines_filters_unchanged() {
    let v = vec![
        DiffLine::Unchanged("x".to_string()),
        DiffLine::Added("y".to_string()),
        DiffLine::Removed("z".to_string()),
    ];
    let r = changed_lines(&v);
    assert_eq!(r.len(), 2);
    assert!(matches!(&r[0], DiffLine::Added(s) if s == "y"));
    assert!(matches!(&r[1], DiffLine::Removed(s) if s == "z"));
}

#[test]
fn default_features_flags_come_from_document() {
    let text = "[dependencies]\nfoo = { workspace = true, default-features = false }\nbar = { workspace = true, default_features = true }\nbaz = { workspace = true }\nqux = \"1\"\n";
    let doc = Document::parse(text.to_string()).unwrap();
    let t = vec![
        inherited("foo", &["x"], false),
        inherited("bar", &[], false),
        inherited("baz", &[], true),
        DeclaredDependency { name: "qux".to_string(), spec: DependencySpec::Explicit },
    ];
    let r = read_default_features_flags(&t, TableKind::Normal, &doc);
    let flags: Vec<Option<bool>> = r
        .iter()
        .map(|d| match &d.spec {
            DependencySpec::Inherited(e) => Some(e.default_features_set),
            DependencySpec::Explicit => None,
        })
        .collect();
    assert_eq!(flags, vec![Some(true), Some(true), Some(false), None]);
    match &r[0].spec {
        DependencySpec::Inherited(e) => assert_eq!(e.features, strings(&["x"])),
        _ => panic!("entry changed kind"),
    }
    let none = read_default_features_flags(&t, TableKind::Dev, &doc);
    assert!(none.iter().all(|d| !matches!(&d.spec, DependencySpec::Inherited(e) if e.default_features_set)));
}

#[test]
fn missing_feature_list_stops_the_fix() {
    let text = "[dependencies]\nfoo = { workspace = true }\n";
    let s = vec![shared("foo", &["a"])];
    let p = normal_only(vec![inherited("foo", &["a"], false)]);
    let mut doc = Document::parse(text.to_string()).unwrap();
    let e = fix_package(&s, &p, &mut doc, true).err().unwrap();
    assert_eq!(e.name, "foo");
    assert_eq!(e.table, TableKind::Normal);
    let mut doc = Document::parse(text.to_string()).unwrap();
    assert!(fix_package(&s, &p, &mut doc, false).is_ok());
}

#[test]
fn untouched_shorthand_entries_stay_as_written() {
    let text = "[dependencies]\nfoo = { workspace = true, default-features = false }\nbar = { workspace = true }\n";
    let s = vec![shared("foo", &[]), shared("bar", &[])];
    let p = normal_only(vec![inherited("foo", &[], true), inherited("bar", &[], false)]);
    let mut doc = Document::parse(text.to_string()).unwrap();
    let r = fix_package(&s, &p, &mut doc, true).unwrap();
    let fixed = r.fixed_text.unwrap();
    assert!(fixed.contains("\nbar = { workspace = true }\n"), "{fixed}");
    assert_eq!(r.diff.len(), 2);
}

#[test]
fn has_key_reads_table_keys() {
    let doc = Document::parse("[dependencies]\nfoo = { workspace = true }\nbar = \"1\"\n".to_string()).unwrap();
    assert!(doc.has_key("dependencies", "foo", "workspace"));
    assert!(!doc.has_key("dependencies", "foo", "features"));
    assert!(!doc.has_key("dependencies", "bar", "workspace"));
    assert!(!doc.has_key("dev-dependencies", "foo", "workspace"));
}

#[test]
fn features_keep_their_order_after_fix() {
    let text = "[dependencies]\nfoo = { workspace = true, features = [\"c\", \"b\", \"a\", \"d\"] }\n";
    let s = vec![shared("foo", &["a", "b"])];
    let p = normal_only(vec![inherited("foo", &["c", "b", "a", "d"], false)]);
    let mut doc = Document::parse(text.to_string()).unwrap();
    let r = fix_package(&s, &p, &mut doc, true).unwrap();
    match &r.findings[0].kind {
        FindingKind::RedundantFeatures(v) => assert_eq!(v, &strings(&["b", "a"])),
        k => panic!("unexpected finding {k:?}"),
    }
    assert_eq!(features_of(&r.fixed_text.unwrap(), "dependencies", "foo"), Some(strings(&["c", "d"])));
}
