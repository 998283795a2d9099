use std::collections::BTreeMap;

use stargazer::{
    get_matching_import_pref, match_shape, pref_name, save_import_template, sort_entries, stargazer_dir,
    root_entry, template_name, Action, DirEntry, Stamp, StoreError, TemplateFile,
};

#[derive(Default)]
struct Dir {
    templates: BTreeMap<String, String>,
    prefs: BTreeMap<String, String>,
}

impl Dir {
    fn apply(&mut self, actions: Vec<Action>) {
        for a in actions {
            if let Action::WriteFile(p, c) = a {
                let name = p.last().unwrap().clone();
                match p[p.len() - 2].as_str() {
                    "temp" => self.templates.insert(name, c),
                    "pref" => self.prefs.insert(name, c),
                    other => panic!("unexpected directory {}", other),
                };
            }
        }
    }

    fn save(&mut self, s: Stamp, header: &str, pref: &str) -> String {
        let root = stargazer_dir(Some("/base".to_string())).unwrap();
        let (actions, key) = save_import_template(&root, &s, header.to_string(), pref.to_string());
        self.apply(actions);
        key
    }

    fn query(&self, header: &str) -> Result<Option<String>, StoreError> {
        let ts: Vec<TemplateFile> = self
            .templates
            .iter()
            .map(|(n, c)| TemplateFile { name: n.clone(), content: Some(c.clone()) })
            .collect();
        let prefs: Vec<String> = self.prefs.keys().cloned().collect();
        let found = get_matching_import_pref(header, &Some(ts), &prefs)?;
        Ok(found.map(|n| self.prefs.get(&n).unwrap().clone()))
    }
}

fn at(second: u32) -> Stamp {
    Stamp { year: 2025, month: 6, day: 1, hour: 12, minute: 0, second }
}

fn entry(name: &str, is_dir: bool) -> DirEntry {
    DirEntry {
        name: name.to_string(),
        path: name.to_string(),
        is_dir,
        children: if is_dir { Some(vec![]) } else { None },
    }
}

fn names(v: &[DirEntry]) -> Vec<String> {
    v.iter().map(|e| e.name.clone()).collect()
}

#[test]
fn save_writes_paired_files_under_one_key() {
    let mut d = Dir::default();
    let key = d.save(at(7), "[\"Name\",\"Age\"]", "{\"p\":1}");
    assert_eq!(key, "20250601_120007");
    assert_eq!(d.templates.get("template_20250601_120007.json").unwrap(), "[\"Name\",\"Age\"]");
    assert_eq!(d.prefs.get("pref_20250601_120007.json").unwrap(), "{\"p\":1}");
}

#[test]
fn header_match_is_order_sensitive() {
    let mut d = Dir::default();
    d.save(at(1), "[\"Name\",\"Age\"]", "first-pref");
    assert_eq!(d.query("[\"Age\",\"Name\"]").unwrap(), None);
    assert_eq!(d.query("[\"Name\",\"Age\"]").unwrap(), Some("first-pref".to_string()));
    assert_eq!(d.query("[\"  Name\",\"Age \\t\"]").unwrap(), Some("first-pref".to_string()));
    assert_eq!(d.query("[\"Name\"]").unwrap(), None);
    assert_eq!(d.query("[\"name\",\"age\"]").unwrap(), None);
}

#[test]
fn most_recent_template_wins() {
    let mut d = Dir::default();
    d.save(at(1), "[\"Name\",\"Age\"]", "first-pref");
    d.save(at(2), "[\" Name\",\"Age\"]", "second-pref");
    assert_eq!(d.query("[\"Name\",\"Age\"]").unwrap(), Some("second-pref".to_string()));
}

#[test]
fn orphan_and_unreadable_templates_are_skipped() {
    let mut d = Dir::default();
    d.save(at(1), "[\"A\"]", "old");
    d.templates.insert("template_20250601_120009.json".to_string(), "[\"A\"]".to_string());
    d.templates.insert("template_20250601_120008.json".to_string(), "{not json".to_string());
    d.prefs.insert("pref_20250601_120008.json".to_string(), "broken".to_string());
    d.templates.insert("template_20250601_120010.txt".to_string(), "[\"A\"]".to_string());
    d.prefs.insert("pref_20250601_120010.json".to_string(), "wrong ext".to_string());
    assert_eq!(d.query("[\"A\"]").unwrap(), Some("old".to_string()));
}

#[test]
fn template_without_prefix_uses_its_stem() {
    let ts = vec![TemplateFile { name: "custom.json".to_string(), content: Some("[\"X\"]".to_string()) }];
    let prefs = vec!["pref_custom.json".to_string()];
    let r = get_matching_import_pref("[\"X\"]", &Some(ts), &prefs).unwrap();
    assert_eq!(r, Some("pref_custom.json".to_string()));
}

#[test]
fn hidden_json_name_is_not_a_template() {
    let ts = vec![TemplateFile { name: ".json".to_string(), content: Some("[\"X\"]".to_string()) }];
    let prefs = vec!["pref_.json".to_string()];
    assert_eq!(get_matching_import_pref("[\"X\"]", &Some(ts), &prefs).unwrap(), None);
}

#[test]
fn malformed_query_is_parse_error() {
    let mut d = Dir::default();
    d.save(at(1), "[\"A\"]", "p");
    assert!(matches!(d.query("[\"A\""), Err(StoreError::Parse(_))));
    assert!(matches!(d.query("{\"a\":1}"), Err(StoreError::Parse(_))));
}

#[test]
fn missing_template_dir_is_no_match() {
    let r = get_matching_import_pref("not even json", &None, &vec![]).unwrap();
    assert_eq!(r, None);
}

#[test]
fn file_names_for_a_key() {
    assert_eq!(template_name("k1"), "template_k1.json");
    assert_eq!(pref_name("k1"), "pref_k1.json");
}

#[test]
fn listing_puts_directories_first_then_names_ignoring_case() {
    let sorted = sort_entries(vec![entry("b.txt", false), entry("A", true), entry("a.txt", false)]);
    assert_eq!(names(&sorted), vec!["A", "a.txt", "b.txt"]);
}

#[test]
fn listing_orders_case_insensitively() {
    let sorted = sort_entries(vec![
        entry("Zeta", false),
        entry("beta", true),
        entry("Alpha", true),
        entry("b.txt", false),
        entry("B.tsv", false),
    ]);
    assert_eq!(names(&sorted), vec!["Alpha", "beta", "B.tsv", "b.txt", "Zeta"]);
}

#[test]
fn listing_of_names_equal_but_for_case() {
    let sorted = sort_entries(vec![entry("x", false), entry("X", false), entry("y", true)]);
    assert_eq!(sorted.len(), 3);
    assert_eq!(sorted[0].name, "y");
    let mut rest = names(&sorted[1..]);
    rest.sort();
    assert_eq!(rest, vec!["X", "x"]);
    assert!(sort_entries(vec![]).is_empty());
}

#[test]
fn missing_root_listing_is_empty_directory() {
    let node = root_entry("Stargazer".to_string(), "/base/Stargazer".to_string(), None);
    assert!(node.is_dir);
    assert_eq!(node.name, "Stargazer");
    assert_eq!(node.children.unwrap().len(), 0);
}

#[test]
fn present_root_listing_holds_children() {
    let node = root_entry("S".to_string(), "/s".to_string(), Some(vec![entry("a", false)]));
    assert_eq!(names(&node.children.unwrap()), vec!["a"]);
}

fn labels(v: &[&str]) -> Vec<String> {
    v.iter().map(|s| s.to_string()).collect()
}

fn file(name: &str, content: Option<&str>) -> TemplateFile {
    TemplateFile { name: name.to_string(), content: content.map(|c| c.to_string()) }
}

#[test]
fn unreadable_template_is_skipped() {
    let ts = vec![
        file("template_20250601_120001.json", Some("[\"A\",\"B\"]")),
        file("template_20250601_120002.json", None),
    ];
    let prefs = labels(&["pref_20250601_120001.json", "pref_20250601_120002.json"]);
    let r = get_matching_import_pref("[\"A\",\"B\"]", &Some(ts), &prefs).unwrap();
    assert_eq!(r, Some("pref_20250601_120001.json".to_string()));
}

#[test]
fn match_shape_on_given_labels() {
    let ts = vec![
        file("template_20250601_120001.json", Some("[\" Name\",\"Age\"]")),
        file("template_20250601_120003.json", Some("[\"Age\",\"Name\"]")),
        file("template_20250601_120002.json", Some("[\"Name\",\" Age \"]")),
    ];
    let prefs = labels(&[
        "pref_20250601_120001.json",
        "pref_20250601_120002.json",
        "pref_20250601_120003.json",
    ]);
    let r = match_shape(&labels(&["Name", "Age"]), &ts, &prefs);
    assert_eq!(r, Some("pref_20250601_120002.json".to_string()));
    let r = match_shape(&labels(&["Age", "Name"]), &ts, &prefs);
    assert_eq!(r, Some("pref_20250601_120003.json".to_string()));
    assert_eq!(match_shape(&labels(&["Age"]), &ts, &prefs), None);
    assert_eq!(match_shape(&labels(&["Name", "Age"]), &ts, &vec![]), None);
}
