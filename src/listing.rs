use vstd::prelude::*;

use crate::text::{is_text_less, lemma_text_less_irreflexive, lemma_text_less_transitive, text_less};

verus! {

broadcast use vstd::seq_lib::group_to_multiset_ensures, vstd::multiset::group_multiset_axioms;

/// A name in lower case.
pub uninterp spec fn lower_of(name: Seq<char>) -> Seq<char>;

/// Relies on `str::to_lowercase`: the lower-case form of the name.
#[verifier::external_body]
fn lowercase(name: &str) -> (r: String)
    ensures
        r@ == lower_of(name@),
{
    name.to_lowercase()
}

/// One node of a listing of the storage tree: its name, its path relative to
/// the listed root, whether it is a directory, and for a directory its
/// children.
pub struct DirEntry {
    pub name: String,
    pub path: String,
    pub is_dir: bool,
    pub children: Option<Vec<DirEntry>>,
}

/// What a listing sorts by: directories first, then the lower-case name.
pub open spec fn entry_key(e: DirEntry) -> (bool, Seq<char>) {
    (e.is_dir, lower_of(e.name@))
}

/// Whether key `a` orders strictly before key `b`.
pub open spec fn key_less(a: (bool, Seq<char>), b: (bool, Seq<char>)) -> bool {
    (a.0 && !b.0) || (a.0 == b.0 && text_less(a.1, b.1))
}

/// Whether no entry of `s` orders strictly before an earlier one.
pub open spec fn listing_sorted(s: Seq<DirEntry>) -> bool {
    forall|i: int, j: int|
        0 <= i < j < s.len() ==> !key_less(entry_key(#[trigger] s[j]), entry_key(#[trigger] s[i]))
}

proof fn lemma_key_less_transitive(a: (bool, Seq<char>), b: (bool, Seq<char>), c: (bool, Seq<char>))
    requires
        key_less(a, b),
        key_less(b, c),
    ensures
        key_less(a, c),
{
    if a.0 == b.0 && b.0 == c.0 {
        lemma_text_less_transitive(a.1, b.1, c.1);
    }
}

proof fn lemma_key_less_irreflexive(a: (bool, Seq<char>))
    ensures
        !key_less(a, a),
{
    lemma_text_less_irreflexive(a.1);
}

fn is_key_less(ad: bool, a: &String, bd: bool, b: &String) -> (r: bool)
    ensures
        r == key_less((ad, a@), (bd, b@)),
{
    if ad != bd {
        ad
    } else {
        is_text_less(a.as_str(), b.as_str())
    }
}

/// Sorts the entries of one directory: directories before files, each group
/// by lower-case name.
pub fn sort_entries(entries: Vec<DirEntry>) -> (r: Vec<DirEntry>)
    ensures
        listing_sorted(r@),
        r@.to_multiset() == entries@.to_multiset(),
{
    let ghost orig = entries@;
    let mut rest = entries;
    let mut out: Vec<DirEntry> = Vec::new();
    let mut keys: Vec<String> = Vec::new();
    while rest.len() > 0
        invariant
            out@.len() == keys@.len(),
            forall|k: int| 0 <= k < out@.len() ==> #[trigger] keys@[k]@ == lower_of(out@[k].name@),
            listing_sorted(out@),
            out@.to_multiset().add(rest@.to_multiset()) == orig.to_multiset(),
        decreases rest@.len(),
    {
        let e = rest.remove(0);
        let key = lowercase(e.name.as_str());
        let mut pos: usize = 0;
        let mut found = false;
        while !found && pos < out.len()
            invariant
                key@ == lower_of(e.name@),
                found ==> pos < out@.len() && key_less(entry_key(e), entry_key(out@[pos as int])),
                out@.len() == keys@.len(),
                forall|k: int|
                    0 <= k < out@.len() ==> #[trigger] keys@[k]@ == lower_of(out@[k].name@),
                pos <= out@.len(),
                forall|k: int|
                    0 <= k < pos ==> !key_less(entry_key(e), entry_key(#[trigger] out@[k])),
            decreases out@.len() - pos + (if found { 0int } else { 1int }),
        {
            if is_key_less(e.is_dir, &key, out[pos].is_dir, &keys[pos]) {
                found = true;
            } else {
                pos = pos + 1;
            }
        }
        let ghost old_out = out@;
        let ghost ke = entry_key(e);
        proof {
            assert forall|i: int, j: int|
                0 <= i < j < old_out.len() + 1 implies !key_less(
                entry_key(#[trigger] old_out.insert(pos as int, e)[j]),
                entry_key(#[trigger] old_out.insert(pos as int, e)[i]),
            ) by {
                let s = old_out.insert(pos as int, e);
                if j == pos {
                    // i < pos: e does not order before old_out[i]
                } else if i == pos {
                    // j > pos: e orders before old_out[pos], which does not
                    // order after old_out[j - 1]
                    if key_less(entry_key(s[j]), ke) {
                        lemma_key_less_transitive(entry_key(s[j]), ke, entry_key(old_out[pos as int]));
                        if j - 1 > pos {
                            assert(!key_less(entry_key(old_out[j - 1]), entry_key(old_out[pos as int])));
                        } else {
                            lemma_key_less_irreflexive(entry_key(old_out[pos as int]));
                        }
                    }
                } else if i < pos && j < pos {
                    assert(s[i] == old_out[i] && s[j] == old_out[j]);
                } else if i < pos {
                    assert(s[i] == old_out[i] && s[j] == old_out[j - 1]);
                } else {
                    assert(s[i] == old_out[i - 1] && s[j] == old_out[j - 1]);
                }
            }
        }
        out.insert(pos, e);
        keys.insert(pos, key);
        assert(out@ == old_out.insert(pos as int, e));
        assert(listing_sorted(out@));
        assert(out@.to_multiset().add(rest@.to_multiset()) =~= orig.to_multiset());
    }
    assert(rest@ =~= Seq::<DirEntry>::empty());
    assert(out@.to_multiset().add(rest@.to_multiset()) =~= out@.to_multiset());
    out
}

/// The node for the storage root named `name` at `path`: a directory whose
/// children are `listing`, or none where the root does not exist.
pub fn root_entry(name: String, path: String, listing: Option<Vec<DirEntry>>) -> (r: DirEntry)
    ensures
        r.name == name,
        r.path == path,
        r.is_dir,
        match listing {
            Some(l) => r.children == Some(l),
            None => r.children is Some && r.children->Some_0@.len() == 0,
        },
{
    let children = match listing {
        Some(l) => l,
        None => Vec::new(),
    };
    DirEntry { name, path, is_dir: true, children: Some(children) }
}

} // verus!
