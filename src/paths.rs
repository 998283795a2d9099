use vstd::prelude::*;

use crate::error::StoreError;
use crate::text::texts;

verus! {

/// The storage root under the host's base directory.
pub open spec fn storage_root(base: Seq<char>) -> Seq<Seq<char>> {
    seq![base, "CosmoArtsStore"@, "Stargazer"@]
}

/// `p` extended by one segment.
pub(crate) fn child(p: &Vec<String>, name: &str) -> (r: Vec<String>)
    ensures
        texts(r@) == texts(p@).push(name@),
{
    let mut r: Vec<String> = Vec::new();
    let mut i: usize = 0;
    while i < p.len()
        invariant
            i <= p@.len(),
            r@ == p@.subrange(0, i as int),
        decreases p@.len() - i,
    {
        r.push(p[i].clone());
        i = i + 1;
        assert(r@ =~= p@.subrange(0, i as int));
    }
    assert(r@ =~= p@);
    r.push(String::from_str(name));
    assert(texts(r@) =~= texts(p@).push(name@));
    r
}

/// Resolves the storage root from the host's base directory value, which is
/// `None` when the host has none. An empty value counts as none.
pub fn stargazer_dir(base: Option<String>) -> (r: Result<Vec<String>, StoreError>)
    ensures
        match base {
            Some(b) if b@.len() > 0 => r is Ok && texts(r->Ok_0@) == storage_root(b@),
            _ => r == Err::<Vec<String>, StoreError>(StoreError::ConfigMissing),
        },
{
    match base {
        Some(b) => {
            if b.unicode_len() == 0 {
                return Err(StoreError::ConfigMissing);
            }
            let mut r: Vec<String> = Vec::new();
            r.push(b);
            let r = child(&r, "CosmoArtsStore");
            let r = child(&r, "Stargazer");
            assert(texts(r@) =~= storage_root(base->Some_0@));
            Ok(r)
        },
        None => Err(StoreError::ConfigMissing),
    }
}

/// The cast database file under the storage root.
pub open spec fn cast_db_file(root: Seq<Seq<char>>) -> Seq<Seq<char>> {
    root.push("cast"@).push("cast.json"@)
}

/// The path of the cast database under `root`.
pub fn cast_db_path(root: &Vec<String>) -> (r: Vec<String>)
    ensures
        texts(r@) == cast_db_file(texts(root@)),
{
    let d = child(root, "cast");
    child(&d, "cast.json")
}

} // verus!
