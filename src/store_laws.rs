use vstd::prelude::*;

use crate::paths::cast_db_file;
use crate::stamp::{lemma_stamp_text_injective, stamp_text, Stamp};
use crate::store::{
    ancestors, apply_ops, apply_prefix, backup_file, backup_file_name, backup_ops, cast_read,
    cast_write_ops, category_name, dirs_present, empty_cast_db, provision_ops, required_dirs,
    Category, FsModel, PathView,
};

verus! {

/// Every directory that provisioning creates, ancestors included.
pub open spec fn provisioned_dirs(root: PathView) -> Set<PathView> {
    let d = required_dirs(root);
    ancestors(d[0]).union(ancestors(d[1])).union(ancestors(d[2])).union(ancestors(d[3])).union(
        ancestors(d[4]),
    ).union(ancestors(d[5]))
}

proof fn lemma_provision_effect(fs: FsModel, root: PathView, cast_db_exists: bool)
    ensures
        apply_ops(fs, provision_ops(root, cast_db_exists)).dirs == fs.dirs.union(
            provisioned_dirs(root),
        ),
        apply_ops(fs, provision_ops(root, cast_db_exists)).files == if cast_db_exists {
            fs.files
        } else {
            fs.files.insert(cast_db_file(root), empty_cast_db())
        },
{
    reveal_with_fuel(apply_prefix, 8);
    let os = provision_ops(root, cast_db_exists);
    assert(os.len() == if cast_db_exists { 6int } else { 7int });
    assert(apply_ops(fs, os).dirs =~= fs.dirs.union(provisioned_dirs(root)));
}

/// Provisioning twice leaves the directories and files as provisioning once
/// left them, and keeps an existing cast database as it was; afterwards every
/// required directory is present.
pub proof fn lemma_provision_idempotent(fs: FsModel, root: PathView)
    requires
        root.len() >= 1,
    ensures
        ({
            let c = cast_db_file(root);
            let fs1 = apply_ops(fs, provision_ops(root, fs.files.contains_key(c)));
            let fs2 = apply_ops(fs1, provision_ops(root, fs1.files.contains_key(c)));
            &&& fs2.dirs == fs1.dirs
            &&& fs2.files == fs1.files
            &&& fs.files.contains_key(c) ==> fs1.files[c] == fs.files[c]
            &&& dirs_present(fs1, root)
        }),
{
    let c = cast_db_file(root);
    let fs1 = apply_ops(fs, provision_ops(root, fs.files.contains_key(c)));
    lemma_provision_effect(fs, root, fs.files.contains_key(c));
    lemma_provision_effect(fs1, root, fs1.files.contains_key(c));
    let fs2 = apply_ops(fs1, provision_ops(root, fs1.files.contains_key(c)));
    assert(fs1.files.contains_key(c));
    assert(fs2.dirs =~= fs1.dirs);
    let d = required_dirs(root);
    assert(root =~= d[0].subrange(0, root.len() as int));
    assert(ancestors(d[0]).contains(root));
    assert forall|i: int| 0 <= i < 6 implies fs1.dirs.contains(#[trigger] required_dirs(root)[i]) by {
        assert(d[i].subrange(0, d[i].len() as int) =~= d[i]);
        assert(ancestors(d[i]).contains(d[i]));
    }
}

/// Right after provisioning a root that had no cast database, reading it
/// yields the empty database.
pub proof fn lemma_fresh_cast_db_is_empty(fs: FsModel, root: PathView)
    requires
        !fs.files.contains_key(cast_db_file(root)),
    ensures
        cast_read(apply_ops(fs, provision_ops(root, false)), root) == empty_cast_db(),
{
    lemma_provision_effect(fs, root, false);
}

/// Reading the cast database after writing `content` yields `content`.
pub proof fn lemma_cast_round_trip(fs: FsModel, root: PathView, content: Seq<char>)
    ensures
        cast_read(apply_ops(fs, cast_write_ops(root, content)), root) == content,
{
    reveal_with_fuel(apply_prefix, 3);
    assert(cast_write_ops(root, content).len() == 2);
}

proof fn lemma_middle_equal(x: Seq<char>, y: Seq<char>, w: Seq<char>, z: Seq<char>)
    requires
        y.len() == w.len(),
        x + y + z == x + w + z,
    ensures
        y == w,
{
    assert((x + y + z).subrange(x.len() as int, (x.len() + y.len()) as int) =~= y);
    assert((x + w + z).subrange(x.len() as int, (x.len() + w.len()) as int) =~= w);
}

proof fn lemma_backup_names_differ(c: Category, a: Stamp, b: Stamp)
    requires
        a.wf(),
        b.wf(),
        a != b,
    ensures
        backup_file_name(c, a) != backup_file_name(c, b),
{
    if backup_file_name(c, a) == backup_file_name(c, b) {
        assert(stamp_text(a).len() == 15);
        assert(stamp_text(b).len() == 15);
        lemma_middle_equal(category_name(c) + "_"@, stamp_text(a), stamp_text(b), ".tsv"@);
        lemma_stamp_text_injective(a, b);
    }
}

/// Two snapshots of one category taken at different seconds are two files,
/// each holding its own payload.
pub proof fn lemma_backups_distinct(
    fs: FsModel,
    root: PathView,
    c: Category,
    a: Stamp,
    pa: Seq<char>,
    b: Stamp,
    pb: Seq<char>,
)
    requires
        a.wf(),
        b.wf(),
        a != b,
    ensures
        ({
            let fs1 = apply_ops(fs, backup_ops(root, c, a, pa));
            let fs2 = apply_ops(fs1, backup_ops(root, c, b, pb));
            &&& backup_file(root, c, a) != backup_file(root, c, b)
            &&& fs2.files[backup_file(root, c, a)] == pa
            &&& fs2.files[backup_file(root, c, b)] == pb
        }),
{
    reveal_with_fuel(apply_prefix, 3);
    assert(backup_ops(root, c, a, pa).len() == 2);
    assert(backup_ops(root, c, b, pb).len() == 2);
    lemma_backup_names_differ(c, a, b);
    assert(backup_file(root, c, a).last() == backup_file_name(c, a));
    assert(backup_file(root, c, b).last() == backup_file_name(c, b));
}

} // verus!
