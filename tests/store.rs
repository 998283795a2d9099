use std::collections::{BTreeMap, BTreeSet};

use stargazer::{
    cast_db_path, check_app_dirs_exist, ensure_app_dirs, read_cast_db_json, required_paths,
    stargazer_dir, write_backup_lottery_tsv, write_backup_matching_tsv, write_cast_db_json,
    Action, Stamp, StoreError,
};

#[derive(Default)]
struct Disk {
    dirs: BTreeSet<Vec<String>>,
    files: BTreeMap<Vec<String>, String>,
}

impl Disk {
    fn apply(&mut self, actions: Vec<Action>) {
        for a in actions {
            match a {
                Action::CreateDirAll(p) => {
                    for n in 1..=p.len() {
                        self.dirs.insert(p[..n].to_vec());
                    }
                }
                Action::WriteFile(p, c) => {
                    self.files.insert(p, c);
                }
            }
        }
    }

    fn cast_db(&self, root: &Vec<String>) -> String {
        read_cast_db_json(self.files.get(&cast_db_path(root)).cloned())
    }
}

fn root() -> Vec<String> {
    stargazer_dir(Some("/home/u/.local".to_string())).unwrap()
}

fn segs(v: &[&str]) -> Vec<String> {
    v.iter().map(|s| s.to_string()).collect()
}

fn stamp(year: i32, month: u32, day: u32, hour: u32, minute: u32, second: u32) -> Stamp {
    Stamp { year, month, day, hour, minute, second }
}

#[test]
fn root_is_base_with_namespace() {
    assert_eq!(root(), segs(&["/home/u/.local", "CosmoArtsStore", "Stargazer"]));
}

#[test]
fn root_missing_or_empty_base_is_config_missing() {
    assert!(matches!(stargazer_dir(None), Err(StoreError::ConfigMissing)));
    assert!(matches!(stargazer_dir(Some(String::new())), Err(StoreError::ConfigMissing)));
}

#[test]
fn cast_db_lives_under_cast() {
    let mut want = root();
    want.push("cast".to_string());
    want.push("cast.json".to_string());
    assert_eq!(cast_db_path(&root()), want);
}

#[test]
fn provisioning_creates_required_tree_and_empty_db() {
    let r = root();
    let mut disk = Disk::default();
    let exists = disk.files.contains_key(&cast_db_path(&r));
    let actions = ensure_app_dirs(&r, exists);
    assert_eq!(actions.len(), 7);
    disk.apply(actions);
    for d in required_paths(&r) {
        assert!(disk.dirs.contains(&d));
    }
    assert!(disk.dirs.contains(&r));
    assert_eq!(disk.files.get(&cast_db_path(&r)).unwrap(), "{\"casts\":[]}");
    let mut template = r.clone();
    template.push("template".to_string());
    template.push("temp".to_string());
    assert!(disk.dirs.contains(&template));
}

#[test]
fn provisioning_twice_is_idempotent_and_keeps_db() {
    let r = root();
    let mut disk = Disk::default();
    disk.apply(write_cast_db_json(&r, "{\"casts\":[{\"id\":1}]}".to_string()));
    let exists = disk.files.contains_key(&cast_db_path(&r));
    disk.apply(ensure_app_dirs(&r, exists));
    let dirs_once = disk.dirs.clone();
    let files_once = disk.files.clone();
    let exists = disk.files.contains_key(&cast_db_path(&r));
    let again = ensure_app_dirs(&r, exists);
    assert_eq!(again.len(), 6);
    disk.apply(again);
    assert_eq!(disk.dirs, dirs_once);
    assert_eq!(disk.files, files_once);
    assert_eq!(disk.cast_db(&r), "{\"casts\":[{\"id\":1}]}");
}

#[test]
fn fresh_root_reads_empty_roster() {
    let r = root();
    let mut disk = Disk::default();
    assert_eq!(disk.cast_db(&r), "{\"casts\":[]}");
    disk.apply(ensure_app_dirs(&r, false));
    assert_eq!(disk.cast_db(&r), "{\"casts\":[]}");
}

#[test]
fn cast_db_round_trip() {
    let r = root();
    let mut disk = Disk::default();
    let x = "{\"casts\":[{\"name\":\"星\"}]}\n".to_string();
    disk.apply(write_cast_db_json(&r, x.clone()));
    assert_eq!(disk.cast_db(&r), x);
    disk.apply(write_cast_db_json(&r, "{}".to_string()));
    assert_eq!(disk.cast_db(&r), "{}");
}

#[test]
fn read_cast_db_passes_text_through() {
    assert_eq!(read_cast_db_json(Some("not json".to_string())), "not json");
    assert_eq!(read_cast_db_json(None), "{\"casts\":[]}");
}

#[test]
fn presence_needs_every_directory() {
    assert!(check_app_dirs_exist(&vec![true; 7]));
    let mut flags = vec![true; 7];
    flags[3] = false;
    assert!(!check_app_dirs_exist(&flags));
    assert!(!check_app_dirs_exist(&vec![false, true, true, true, true, true, true]));
}

#[test]
fn stamp_text_is_fixed_width() {
    assert_eq!(stamp(2024, 3, 5, 7, 8, 9).text(), "20240305_070809");
    assert_eq!(stamp(987, 12, 31, 23, 59, 59).text(), "09871231_235959");
}

#[test]
fn now_stamp_is_well_formed() {
    let s = stargazer::now_stamp().unwrap();
    assert!((1..=12).contains(&s.month));
    assert!((1..=31).contains(&s.day));
    assert_eq!(s.text().len(), 15);
}

#[test]
fn backup_snapshot_name_and_payload() {
    let r = root();
    let (actions, path) = write_backup_lottery_tsv(&r, &stamp(2025, 1, 2, 3, 4, 5), "a\tb\n".to_string());
    let mut want = r.clone();
    want.extend(segs(&["backup", "lottery", "lottery_20250102_030405.tsv"]));
    assert_eq!(path, want);
    let mut disk = Disk::default();
    disk.apply(actions);
    assert_eq!(disk.files.get(&want).unwrap(), "a\tb\n");
}

#[test]
fn backups_at_different_seconds_are_distinct() {
    let r = root();
    let mut disk = Disk::default();
    let (first, first_path) = write_backup_matching_tsv(&r, &stamp(2025, 1, 2, 3, 4, 5), "one".to_string());
    let (second, second_path) = write_backup_matching_tsv(&r, &stamp(2025, 1, 2, 3, 4, 6), "two".to_string());
    assert_ne!(first_path, second_path);
    assert_eq!(first_path.last().unwrap(), "matching_20250102_030405.tsv");
    disk.apply(first);
    disk.apply(second);
    assert_eq!(disk.files.get(&first_path).unwrap(), "one");
    assert_eq!(disk.files.get(&second_path).unwrap(), "two");
}

#[test]
fn four_digit_year_bounds() {
    let s = stamp(9999, 1, 1, 0, 0, 0);
    assert_eq!(stargazer::four_digit_year(s), Some(s));
    assert_eq!(stargazer::four_digit_year(stamp(0, 1, 1, 0, 0, 0)), Some(stamp(0, 1, 1, 0, 0, 0)));
    assert_eq!(stargazer::four_digit_year(stamp(10000, 1, 1, 0, 0, 0)), None);
    assert_eq!(stargazer::four_digit_year(stamp(-1, 1, 1, 0, 0, 0)), None);
}
