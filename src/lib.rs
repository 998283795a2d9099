//! Local persistence for a cast roster and its import templates: the storage
//! layout, the cast database, backup snapshots, header-template matching and a
//! sorted listing of the storage tree.
//!
//! The library decides; the host performs the file system work. Paths are
//! sequences of segments whose first segment is the host's base directory.


mod error;
mod listing;
mod matching_laws;
mod paths;
mod stamp;
mod store;
mod store_laws;
mod template;
mod text;

pub use error::StoreError;
pub use paths::{cast_db_file, cast_db_path, stargazer_dir, storage_root};
pub use text::{has_prefix, has_suffix, is_text_less, text_less, texts};
pub use template::{
    best_match, candidate, content_view, get_matching_import_pref, is_white_space, json_stem,
    json_string_list, match_shape, normalize_labels, normalized, pref_file_name, pref_name,
    stem_key, template_file_name, template_matches, template_name, trim_end, trim_start, trimmed,
    TemplateFile,
};
pub use stamp::{
    digit, four_digit_year, lemma_stamp_text_injective, now_stamp, stamp_before, stamp_text,
    two_digits, Stamp,
};
pub use store::{
    ancestors, apply_op, apply_ops, apply_prefix, backup_dir, backup_file, backup_file_name,
    backup_ops, backup_plan, cast_read, cast_write_ops, category_name, check_app_dirs_exist,
    dirs_present, empty_cast_db, empty_cast_db_text, ensure_app_dirs, ops, pref_dir, provision_ops,
    read_cast_db_json, required_dirs, required_paths, save_import_template, template_dir,
    template_save_ops, write_backup_lottery_tsv, write_backup_matching_tsv, write_cast_db_json,
    Action, Category, FsModel, Op, PathView,
};
pub use store_laws::{
    lemma_backups_distinct, lemma_cast_round_trip, lemma_fresh_cast_db_is_empty,
    lemma_provision_idempotent, provisioned_dirs,
};
pub use listing::{entry_key, key_less, listing_sorted, lower_of, root_entry, sort_entries, DirEntry};
pub use matching_laws::{
    lemma_match_is_exact, lemma_most_recent_wins, lemma_padded_label_trims,
    lemma_stamp_text_ordered, lemma_unusable_template_ignored,
};
