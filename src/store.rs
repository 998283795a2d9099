use vstd::prelude::*;

use crate::paths::{cast_db_file, cast_db_path, child};
use crate::stamp::{stamp_text, Stamp};
use crate::template::{pref_file_name, pref_name, template_file_name, template_name};
use crate::text::texts;

verus! {

/// A file system path as segments of text.
pub type PathView = Seq<Seq<char>>;

/// A file system change that the host carries out, in order.
pub enum Action {
    /// Create a directory and every missing ancestor; an existing one is fine.
    CreateDirAll(Vec<String>),
    /// Replace the whole content of a file, creating it where absent.
    WriteFile(Vec<String>, String),
}

/// What an action does, on views.
pub enum Op {
    MakeDirs(PathView),
    Write(PathView, Seq<char>),
}

impl Action {
    pub open spec fn op(&self) -> Op {
        match self {
            Action::CreateDirAll(p) => Op::MakeDirs(texts(p@)),
            Action::WriteFile(p, c) => Op::Write(texts(p@), c@),
        }
    }
}

/// The views of a list of actions.
pub open spec fn ops(a: Seq<Action>) -> Seq<Op> {
    a.map_values(|x: Action| x.op())
}

/// The directories and files of a file system.
pub struct FsModel {
    pub dirs: Set<PathView>,
    pub files: Map<PathView, Seq<char>>,
}

/// A path and all its ancestors that have at least one segment.
pub open spec fn ancestors(p: PathView) -> Set<PathView> {
    Set::new(|q: PathView| 1 <= q.len() <= p.len() && q == p.subrange(0, q.len() as int))
}

pub open spec fn apply_op(fs: FsModel, op: Op) -> FsModel {
    match op {
        Op::MakeDirs(p) => FsModel { dirs: fs.dirs.union(ancestors(p)), files: fs.files },
        Op::Write(p, c) => FsModel { dirs: fs.dirs, files: fs.files.insert(p, c) },
    }
}

/// The file system after the first `n` operations of `os`.
pub open spec fn apply_prefix(fs: FsModel, os: Seq<Op>, n: nat) -> FsModel
    decreases n,
{
    if n == 0 {
        fs
    } else {
        apply_op(apply_prefix(fs, os, (n - 1) as nat), os[n - 1])
    }
}

/// The file system after all of `os`.
pub open spec fn apply_ops(fs: FsModel, os: Seq<Op>) -> FsModel {
    apply_prefix(fs, os, os.len())
}

/// The text of an empty cast database.
pub open spec fn empty_cast_db() -> Seq<char> {
    "{\"casts\":[]}"@
}

/// What reading the cast database yields: the file's text, or the empty
/// database where there is no file.
pub open spec fn cast_read(fs: FsModel, root: PathView) -> Seq<char> {
    if fs.files.contains_key(cast_db_file(root)) {
        fs.files[cast_db_file(root)]
    } else {
        empty_cast_db()
    }
}

/// The directories that the store needs under `root`.
pub open spec fn required_dirs(root: PathView) -> Seq<PathView> {
    seq![
        root.push("src"@),
        root.push("backup"@).push("lottery"@),
        root.push("backup"@).push("matching"@),
        root.push("template"@).push("temp"@),
        root.push("template"@).push("pref"@),
        root.push("cast"@),
    ]
}

/// Provisioning: every required directory, then the empty cast database
/// unless one exists.
pub open spec fn provision_ops(root: PathView, cast_db_exists: bool) -> Seq<Op> {
    let dirs = required_dirs(root).map_values(|d: PathView| Op::MakeDirs(d));
    if cast_db_exists {
        dirs
    } else {
        dirs.push(Op::Write(cast_db_file(root), empty_cast_db()))
    }
}

/// Whether the root and every required directory are present.
pub open spec fn dirs_present(fs: FsModel, root: PathView) -> bool {
    fs.dirs.contains(root) && forall|i: int|
        0 <= i < 6 ==> fs.dirs.contains(#[trigger] required_dirs(root)[i])
}

/// The empty cast database text.
pub fn empty_cast_db_text() -> (r: String)
    ensures
        r@ == empty_cast_db(),
{
    String::from_str("{\"casts\":[]}")
}

/// The required directories under `root`, in provisioning order.
pub fn required_paths(root: &Vec<String>) -> (r: Vec<Vec<String>>)
    ensures
        r@.len() == 6,
        forall|i: int| 0 <= i < 6 ==> texts(#[trigger] r@[i]@) == required_dirs(texts(root@))[i],
{
    let mut r: Vec<Vec<String>> = Vec::new();
    r.push(child(root, "src"));
    let b = child(root, "backup");
    r.push(child(&b, "lottery"));
    r.push(child(&b, "matching"));
    let t = child(root, "template");
    r.push(child(&t, "temp"));
    r.push(child(&t, "pref"));
    r.push(child(root, "cast"));
    r
}

/// The actions that provision the store under `root`, given whether the cast
/// database file exists already.
pub fn ensure_app_dirs(root: &Vec<String>, cast_db_exists: bool) -> (r: Vec<Action>)
    ensures
        ops(r@) == provision_ops(texts(root@), cast_db_exists),
{
    let dirs = required_paths(root);
    let ghost want = provision_ops(texts(root@), cast_db_exists);
    let mut r: Vec<Action> = Vec::new();
    let mut i: usize = 0;
    while i < dirs.len()
        invariant
            dirs@.len() == 6,
            forall|k: int|
                0 <= k < 6 ==> texts(#[trigger] dirs@[k]@) == required_dirs(texts(root@))[k],
            i <= 6,
            ops(r@) == required_dirs(texts(root@)).map_values(|d: PathView| Op::MakeDirs(d)).subrange(
                0,
                i as int,
            ),
        decreases 6 - i,
    {
        let ghost before = r@;
        r.push(Action::CreateDirAll(dirs[i].clone()));
        assert(ops(r@) =~= ops(before).push(Op::MakeDirs(texts(dirs@[i as int]@))));
        i = i + 1;
        assert(ops(r@) =~= required_dirs(texts(root@)).map_values(
            |d: PathView| Op::MakeDirs(d),
        ).subrange(0, i as int));
    }
    assert(ops(r@) =~= required_dirs(texts(root@)).map_values(|d: PathView| Op::MakeDirs(d)));
    if !cast_db_exists {
        let ghost before = r@;
        r.push(Action::WriteFile(cast_db_path(root), empty_cast_db_text()));
        assert(ops(r@) =~= ops(before).push(
            Op::Write(cast_db_file(texts(root@)), empty_cast_db()),
        ));
    }
    r
}

/// Whether the store is present, given for the root and then for each of
/// `required_paths` whether that directory exists.
pub fn check_app_dirs_exist(present: &Vec<bool>) -> (r: bool)
    ensures
        r == forall|i: int| 0 <= i < present@.len() ==> #[trigger] present@[i],
{
    let mut i: usize = 0;
    while i < present.len()
        invariant
            i <= present@.len(),
            forall|k: int| 0 <= k < i ==> #[trigger] present@[k],
        decreases present@.len() - i,
    {
        if !present[i] {
            return false;
        }
        i = i + 1;
    }
    true
}

/// The cast database text, given the stored file's text or `None` where
/// there is no file.
pub fn read_cast_db_json(stored: Option<String>) -> (r: String)
    ensures
        r@ == match stored {
            Some(s) => s@,
            None => empty_cast_db(),
        },
{
    match stored {
        Some(s) => s,
        None => empty_cast_db_text(),
    }
}

/// Replacing the cast database: its directory, then the whole file.
pub open spec fn cast_write_ops(root: PathView, content: Seq<char>) -> Seq<Op> {
    seq![Op::MakeDirs(root.push("cast"@)), Op::Write(cast_db_file(root), content)]
}

/// The actions that replace the cast database under `root` with `content`.
pub fn write_cast_db_json(root: &Vec<String>, content: String) -> (r: Vec<Action>)
    ensures
        ops(r@) == cast_write_ops(texts(root@), content@),
{
    let mut r: Vec<Action> = Vec::new();
    r.push(Action::CreateDirAll(child(root, "cast")));
    r.push(Action::WriteFile(cast_db_path(root), content));
    assert(ops(r@) =~= cast_write_ops(texts(root@), content@));
    r
}

/// A kind of result that is backed up.
#[derive(Debug, Clone, Copy, PartialEq, Eq)]
pub enum Category {
    Lottery,
    Matching,
}

/// The name of a category, as used in directory and file names.
pub open spec fn category_name(c: Category) -> Seq<char> {
    match c {
        Category::Lottery => "lottery"@,
        Category::Matching => "matching"@,
    }
}

/// The backup directory of a category.
pub open spec fn backup_dir(root: PathView, c: Category) -> PathView {
    root.push("backup"@).push(category_name(c))
}

/// The name of the snapshot of a category taken at `s`.
pub open spec fn backup_file_name(c: Category, s: Stamp) -> Seq<char> {
    category_name(c) + "_"@ + stamp_text(s) + ".tsv"@
}

/// The snapshot file of a category taken at `s`.
pub open spec fn backup_file(root: PathView, c: Category, s: Stamp) -> PathView {
    backup_dir(root, c).push(backup_file_name(c, s))
}

/// Writing a snapshot: its directory, then the file.
pub open spec fn backup_ops(root: PathView, c: Category, s: Stamp, payload: Seq<char>) -> Seq<
    Op,
> {
    seq![Op::MakeDirs(backup_dir(root, c)), Op::Write(backup_file(root, c, s), payload)]
}

fn category_text(c: Category) -> (r: &'static str)
    ensures
        r@ == category_name(c),
{
    match c {
        Category::Lottery => "lottery",
        Category::Matching => "matching",
    }
}

/// The actions that write a snapshot of `payload` for category `c` taken at
/// `s`, and the path of the snapshot file.
pub fn backup_plan(root: &Vec<String>, c: Category, s: &Stamp, payload: String) -> (r: (
    Vec<Action>,
    Vec<String>,
))
    requires
        s.wf(),
    ensures
        ops(r.0@) == backup_ops(texts(root@), c, *s, payload@),
        texts(r.1@) == backup_file(texts(root@), c, *s),
{
    let b = child(root, "backup");
    let dir = child(&b, category_text(c));
    let name = String::from_str(category_text(c)).concat("_").concat(s.text().as_str()).concat(
        ".tsv",
    );
    let file = child(&dir, name.as_str());
    let mut r: Vec<Action> = Vec::new();
    r.push(Action::CreateDirAll(dir));
    r.push(Action::WriteFile(file.clone(), payload));
    assert(ops(r@) =~= backup_ops(texts(root@), c, *s, payload@));
    (r, file)
}

/// A snapshot of lottery results; see `backup_plan`.
pub fn write_backup_lottery_tsv(root: &Vec<String>, s: &Stamp, payload: String) -> (r: (
    Vec<Action>,
    Vec<String>,
))
    requires
        s.wf(),
    ensures
        ops(r.0@) == backup_ops(texts(root@), Category::Lottery, *s, payload@),
        texts(r.1@) == backup_file(texts(root@), Category::Lottery, *s),
{
    backup_plan(root, Category::Lottery, s, payload)
}

/// A snapshot of matching results; see `backup_plan`.
pub fn write_backup_matching_tsv(root: &Vec<String>, s: &Stamp, payload: String) -> (r: (
    Vec<Action>,
    Vec<String>,
))
    requires
        s.wf(),
    ensures
        ops(r.0@) == backup_ops(texts(root@), Category::Matching, *s, payload@),
        texts(r.1@) == backup_file(texts(root@), Category::Matching, *s),
{
    backup_plan(root, Category::Matching, s, payload)
}

/// The template directory under `root`.
pub open spec fn template_dir(root: PathView) -> PathView {
    root.push("template"@).push("temp"@)
}

/// The preference directory under `root`.
pub open spec fn pref_dir(root: PathView) -> PathView {
    root.push("template"@).push("pref"@)
}

/// Saving a header shape and its preference under one key: both
/// directories, the template file, then the preference file.
pub open spec fn template_save_ops(
    root: PathView,
    key: Seq<char>,
    header: Seq<char>,
    pref: Seq<char>,
) -> Seq<Op> {
    seq![
        Op::MakeDirs(template_dir(root)),
        Op::MakeDirs(pref_dir(root)),
        Op::Write(template_dir(root).push(template_file_name(key)), header),
        Op::Write(pref_dir(root).push(pref_file_name(key)), pref),
    ]
}

/// The actions that save the header shape `header_json` and the preference
/// `pref_json` under the key of `s`, and that key.
pub fn save_import_template(
    root: &Vec<String>,
    s: &Stamp,
    header_json: String,
    pref_json: String,
) -> (r: (Vec<Action>, String))
    requires
        s.wf(),
    ensures
        r.1@ == stamp_text(*s),
        ops(r.0@) == template_save_ops(texts(root@), r.1@, header_json@, pref_json@),
{
    let key = s.text();
    let t = child(root, "template");
    let temp = child(&t, "temp");
    let pref = child(&t, "pref");
    let tfile = child(&temp, template_name(key.as_str()).as_str());
    let pfile = child(&pref, pref_name(key.as_str()).as_str());
    let mut r: Vec<Action> = Vec::new();
    r.push(Action::CreateDirAll(temp));
    r.push(Action::CreateDirAll(pref));
    r.push(Action::WriteFile(tfile, header_json));
    r.push(Action::WriteFile(pfile, pref_json));
    assert(ops(r@) =~= template_save_ops(texts(root@), key@, header_json@, pref_json@));
    (r, key)
}

} // verus!
