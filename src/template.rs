use vstd::prelude::*;

use crate::error::StoreError;
use crate::text::{
    contains_text, has_prefix, has_suffix, is_text_less, lemma_text_less_irreflexive,
    lemma_text_less_transitive, same_texts, text_less, texts,
};

verus! {

/// The list of strings that a JSON text denotes, or `None` where the text is
/// not a JSON array of strings.
pub uninterp spec fn json_string_list(text: Seq<char>) -> Option<Seq<Seq<char>>>;

/// Whether `c` has the Unicode White_Space property.
pub open spec fn is_white_space(c: char) -> bool {
    let u = c as u32;
    ||| 0x09 <= u <= 0x0d
    ||| u == 0x20
    ||| u == 0x85
    ||| u == 0xa0
    ||| u == 0x1680
    ||| 0x2000 <= u <= 0x200a
    ||| u == 0x2028
    ||| u == 0x2029
    ||| u == 0x202f
    ||| u == 0x205f
    ||| u == 0x3000
}

/// A label without its leading white space.
pub open spec fn trim_start(s: Seq<char>) -> Seq<char>
    decreases s.len(),
{
    if s.len() > 0 && is_white_space(s[0]) {
        trim_start(s.drop_first())
    } else {
        s
    }
}

/// A label without its trailing white space.
pub open spec fn trim_end(s: Seq<char>) -> Seq<char>
    decreases s.len(),
{
    if s.len() > 0 && is_white_space(s.last()) {
        trim_end(s.drop_last())
    } else {
        s
    }
}

/// A label with leading and trailing white space removed.
pub open spec fn trimmed(label: Seq<char>) -> Seq<char> {
    trim_end(trim_start(label))
}

/// Relies on `serde_json::from_str::<Vec<String>>`: it succeeds exactly on a
/// JSON array of strings and then yields those strings in order; on failure
/// the error's message is returned.
#[verifier::external_body]
fn parse_string_list(text: &str) -> (r: Result<Vec<String>, String>)
    ensures
        r is Ok <==> json_string_list(text@) is Some,
        r is Ok ==> texts(r->Ok_0@) == json_string_list(text@)->Some_0,
{
    match serde_json::from_str::<Vec<String>>(text) {
        Ok(v) => Ok(v),
        Err(e) => Err(e.to_string()),
    }
}

/// Relies on `str::trim`: the label without leading and trailing characters
/// of the Unicode White_Space property.
#[verifier::external_body]
fn trim_label(label: &str) -> (r: String)
    ensures
        r@ == trimmed(label@),
{
    label.trim().to_string()
}

/// A header shape as it is compared: every label trimmed, order and count kept.
pub open spec fn normalized(labels: Seq<Seq<char>>) -> Seq<Seq<char>> {
    labels.map_values(|l: Seq<char>| trimmed(l))
}

/// Trims every label of a header shape.
pub fn normalize_labels(labels: &Vec<String>) -> (r: Vec<String>)
    ensures
        texts(r@) == normalized(texts(labels@)),
{
    let mut r: Vec<String> = Vec::new();
    let mut i: usize = 0;
    while i < labels.len()
        invariant
            i <= labels@.len(),
            texts(r@) == normalized(texts(labels@)).subrange(0, i as int),
        decreases labels@.len() - i,
    {
        let t = trim_label(labels[i].as_str());
        assert(texts(labels@)[i as int] == labels@[i as int]@);
        assert(t@ == normalized(texts(labels@))[i as int]);
        let ghost before = r@;
        r.push(t);
        assert(texts(r@) =~= texts(before).push(t@));
        i = i + 1;
        assert(texts(r@) =~= normalized(texts(labels@)).subrange(0, i as int));
    }
    assert(normalized(texts(labels@)).subrange(0, i as int) =~= normalized(texts(labels@)));
    r
}

/// The stem of a file name with the `json` extension: the name without its
/// final `.json`, which must leave something before it.
pub open spec fn json_stem(name: Seq<char>) -> Option<Seq<char>> {
    if name.len() > 5 && name.subrange(name.len() - 5, name.len() as int) == ".json"@ {
        Some(name.subrange(0, name.len() - 5))
    } else {
        None
    }
}

/// The timestamp key of a template stem: the stem without a leading
/// `template_`, or the whole stem where it has none.
pub open spec fn stem_key(stem: Seq<char>) -> Seq<char> {
    let p = "template_"@;
    if p.len() <= stem.len() && stem.subrange(0, p.len() as int) == p {
        stem.subrange(p.len() as int, stem.len() as int)
    } else {
        stem
    }
}

/// The name of the template file saved under `key`.
pub open spec fn template_file_name(key: Seq<char>) -> Seq<char> {
    "template_"@ + key + ".json"@
}

/// The name of the preference file saved under `key`.
pub open spec fn pref_file_name(key: Seq<char>) -> Seq<char> {
    "pref_"@ + key + ".json"@
}

/// Whether the template file `name` with text `content` matches the
/// normalized query `shape`, and its paired preference file is among `prefs`.
/// A file that could not be read (`content` is `None`) never matches.
pub open spec fn template_matches(
    name: Seq<char>,
    content: Option<Seq<char>>,
    shape: Seq<Seq<char>>,
    prefs: Seq<Seq<char>>,
) -> bool {
    &&& json_stem(name) is Some
    &&& content is Some
    &&& json_string_list(content->Some_0) is Some
    &&& normalized(json_string_list(content->Some_0)->Some_0) == shape
    &&& prefs.contains(pref_file_name(stem_key(json_stem(name)->Some_0)))
}

/// A file of the template directory: its name and its text, or `None` where
/// the file could not be read.
pub struct TemplateFile {
    pub name: String,
    pub content: Option<String>,
}

/// The text of a template file, where it was read.
pub open spec fn content_view(t: TemplateFile) -> Option<Seq<char>> {
    match t.content {
        Some(c) => Some(c@),
        None => None,
    }
}

/// The preference file paired with template `i` of `ts`, if that template
/// matches.
pub open spec fn candidate(
    ts: Seq<TemplateFile>,
    i: int,
    shape: Seq<Seq<char>>,
    prefs: Seq<Seq<char>>,
) -> bool {
    template_matches(ts[i].name@, content_view(ts[i]), shape, prefs)
}

/// The answer to a query for `shape` over the templates `ts`: the preference
/// file name of the matching template whose name is greatest, or `None`.
pub open spec fn best_match(
    ts: Seq<TemplateFile>,
    shape: Seq<Seq<char>>,
    prefs: Seq<Seq<char>>,
    r: Option<Seq<char>>,
) -> bool {
    match r {
        None => forall|i: int| 0 <= i < ts.len() ==> !#[trigger] candidate(ts, i, shape, prefs),
        Some(p) => exists|i: int|
            0 <= i < ts.len() && #[trigger] candidate(ts, i, shape, prefs) && p
                == pref_file_name(stem_key(json_stem(ts[i].name@)->Some_0)) && forall|j: int|
                0 <= j < ts.len() && #[trigger] candidate(ts, j, shape, prefs) ==> !text_less(
                    ts[i].name@,
                    ts[j].name@,
                ),
    }
}

/// The key of a template file name with the `json` extension.
fn key_of(name: &str) -> (r: Option<String>)
    ensures
        match json_stem(name@) {
            Some(stem) => r is Some && r->Some_0@ == stem_key(stem),
            None => r is None,
        },
{
    proof {
        reveal_strlit(".json");
        reveal_strlit("template_");
    }
    if !has_suffix(name, ".json") {
        return None;
    }
    let n = name.unicode_len();
    if n <= 5 {
        return None;
    }
    let stem = name.substring_char(0, n - 5);
    if has_prefix(stem, "template_") {
        let m = stem.unicode_len();
        Some(String::from_str(stem.substring_char(9, m)))
    } else {
        Some(String::from_str(stem))
    }
}

/// The preference file name for `key`.
pub fn pref_name(key: &str) -> (r: String)
    ensures
        r@ == pref_file_name(key@),
{
    String::from_str("pref_").concat(key).concat(".json")
}

/// The template file name for `key`.
pub fn template_name(key: &str) -> (r: String)
    ensures
        r@ == template_file_name(key@),
{
    String::from_str("template_").concat(key).concat(".json")
}

/// Finds the stored preference for the header shape given as the JSON text
/// `header_json`. `templates` holds the files of the template directory, or is
/// `None` where that directory does not exist; `prefs` holds the names of the
/// files of the preference directory. Returns the name of the preference file
/// to load: the one paired with the most recent matching template.
pub fn get_matching_import_pref(
    header_json: &str,
    templates: &Option<Vec<TemplateFile>>,
    prefs: &Vec<String>,
) -> (r: Result<Option<String>, StoreError>)
    ensures
        match templates {
            None => r == Ok::<Option<String>, StoreError>(None),
            Some(ts) => match json_string_list(header_json@) {
                None => r matches Err(StoreError::Parse(_)),
                Some(q) => r is Ok && best_match(
                    ts@,
                    normalized(q),
                    texts(prefs@),
                    match r->Ok_0 {
                        Some(p) => Some(p@),
                        None => None,
                    },
                ),
            },
        },
{
    let ts = match templates {
        None => return Ok(None),
        Some(ts) => ts,
    };
    match parse_string_list(header_json) {
        Ok(query) => Ok(match_shape(&query, ts, prefs)),
        Err(msg) => Err(StoreError::Parse(msg)),
    }
}

/// Finds, for the header labels `query`, the preference file paired with the
/// most recent template whose trimmed labels equal the trimmed query labels,
/// in order. Templates that cannot be read or parsed, that lack the `json`
/// extension, or whose preference file is not among `prefs` are skipped.
pub fn match_shape(query: &Vec<String>, ts: &Vec<TemplateFile>, prefs: &Vec<String>) -> (r:
    Option<String>)
    ensures
        best_match(
            ts@,
            normalized(texts(query@)),
            texts(prefs@),
            match r {
                Some(p) => Some(p@),
                None => None,
            },
        ),
{
    let shape = normalize_labels(&query);
    let ghost gshape = texts(shape@);
    let ghost gprefs = texts(prefs@);
    let mut best: Option<(usize, String)> = None;
    let mut i: usize = 0;
    while i < ts.len()
        invariant
            i <= ts@.len(),
            gshape == texts(shape@),
            gprefs == texts(prefs@),
            match best {
                None => forall|j: int| 0 <= j < i ==> !#[trigger] candidate(ts@, j, gshape, gprefs),
                Some((b, p)) => {
                    &&& b < i
                    &&& candidate(ts@, b as int, gshape, gprefs)
                    &&& p@ == pref_file_name(stem_key(json_stem(ts@[b as int].name@)->Some_0))
                    &&& forall|j: int|
                        0 <= j < i && #[trigger] candidate(ts@, j, gshape, gprefs) ==> !text_less(
                            ts@[b as int].name@,
                            ts@[j].name@,
                        )
                },
            },
        decreases ts@.len() - i,
    {
        let t = &ts[i];
        let key = key_of(t.name.as_str());
        if let (Some(key), Some(content)) = (key, &t.content) {
            if let Ok(saved) = parse_string_list(content.as_str()) {
                let saved_shape = normalize_labels(&saved);
                let p = pref_name(key.as_str());
                if same_texts(&saved_shape, &shape) && contains_text(prefs, &p) {
                    assert(candidate(ts@, i as int, gshape, gprefs));
                    let better = match &best {
                        None => true,
                        Some((b, _)) => is_text_less(ts[*b].name.as_str(), t.name.as_str()),
                    };
                    if better {
                        proof {
                            lemma_text_less_irreflexive(t.name@);
                            if let Some((b, _)) = best {
                                assert forall|j: int|
                                    0 <= j < i + 1 && #[trigger] candidate(
                                        ts@,
                                        j,
                                        gshape,
                                        gprefs,
                                    ) implies !text_less(ts@[i as int].name@, ts@[j].name@) by {
                                    if j < i && text_less(ts@[i as int].name@, ts@[j].name@) {
                                        lemma_text_less_transitive(
                                            ts@[b as int].name@,
                                            ts@[i as int].name@,
                                            ts@[j].name@,
                                        );
                                    }
                                }
                            }
                        }
                        best = Some((i, p));
                    }
                }
            }
        }
        i = i + 1;
    }
    match best {
        None => None,
        Some((_, p)) => Some(p),
    }
}

} // verus!
