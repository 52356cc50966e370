//! Rules about model files: which sizes are believed to be a model, which
//! file of a directory stands for a name that was not found as written, and
//! how the models that were found are listed.

use crate::text::{
    comes_before, lemma_text_before_is_strict, lemma_text_before_is_total, text_before, to_chars,
};
use vstd::prelude::*;

verus! {

/// A model file smaller than this is not loaded: it is taken for a partial
/// download.
pub const MIN_LOADABLE_BYTES: u64 = 1_500_000_000;

/// A `.gguf` file smaller than this is not listed among the models found.
pub const MIN_LISTED_BYTES: u64 = 1_000_000_000;

/// A downloaded default model smaller than this (one gibibyte) is passed
/// over.
pub const MIN_BUNDLED_BYTES: u64 = 1_073_741_824;

/// Whether a model file of `bytes` bytes is large enough to be loaded.
pub fn is_loadable_size(bytes: u64) -> (ok: bool)
    ensures
        ok == (bytes >= MIN_LOADABLE_BYTES),
{
    bytes >= MIN_LOADABLE_BYTES
}

/// Whether a file with the extension `extension` and `bytes` bytes is listed
/// as a model: only a `gguf` file of a believable size.
pub fn is_listed_model(extension: &str, bytes: u64) -> (ok: bool)
    ensures
        ok == (extension@ == "gguf"@ && bytes >= MIN_LISTED_BYTES),
{
    crate::text::same_text(extension, "gguf") && bytes >= MIN_LISTED_BYTES
}

/// Whether a downloaded default model of `bytes` bytes is complete enough to
/// be used.
pub fn is_bundled_size(bytes: u64) -> (ok: bool)
    ensures
        ok == (bytes >= MIN_BUNDLED_BYTES),
{
    bytes >= MIN_BUNDLED_BYTES
}

/// What `str::to_lowercase` makes of a text.
pub uninterp spec fn lowercase(text: Seq<char>) -> Seq<char>;

/// Calls `str::to_lowercase`. Claimed of it: the result depends on the text
/// alone.
#[verifier::external_body]
fn to_lowercase(text: &str) -> (lower: String)
    ensures
        lower@ == lowercase(text@),
{
    text.to_lowercase()
}

/// Index of the first of `names` that equals `expected` when both are put in
/// lower case.
pub open spec fn alternative_for(names: Seq<Seq<char>>, expected: Seq<char>) -> Option<int>
    decreases names.len(),
{
    if names.len() == 0 {
        None
    } else if lowercase(names[0]) == lowercase(expected) {
        Some(0)
    } else {
        match alternative_for(names.drop_first(), expected) {
            Some(i) => Some(i + 1),
            None => None,
        }
    }
}

pub open spec fn names_view(names: Seq<String>) -> Seq<Seq<char>> {
    names.map_values(|name: String| name@)
}

/// The file of a directory to load in place of `expected`, which does not
/// exist as written: the first of `names` that differs from it only in case.
pub fn find_alternative(names: &Vec<String>, expected: &str) -> (found: Option<usize>)
    ensures
        match found {
            Some(i) => i < names.len() && alternative_for(names_view(names@), expected@) == Some(
                i as int,
            ),
            None => alternative_for(names_view(names@), expected@) is None,
        },
{
    let wanted = to_lowercase(expected);
    let ghost all = names_view(names@);
    let mut i: usize = 0;
    assert(all.skip(0) =~= all);
    while i < names.len()
        invariant
            i <= names.len(),
            wanted@ == lowercase(expected@),
            all == names_view(names@),
            alternative_for(all, expected@) == match alternative_for(
                all.skip(i as int),
                expected@,
            ) {
                Some(k) => Some(k + i),
                None => None,
            },
        decreases names.len() - i,
    {
        assert(all.skip(i as int)[0] == names[i as int]@);
        if to_lowercase(names[i].as_str()) == wanted {
            return Some(i);
        }
        assert(all.skip(i as int).drop_first() =~= all.skip(i + 1));
        i += 1;
    }
    None
}

/// Whether the texts of `names` stand in ascending order, none twice.
pub open spec fn ascending(names: Seq<Seq<char>>) -> bool {
    forall|i: int, j: int|
        0 <= i < j < names.len() ==> text_before(#[trigger] names[i], #[trigger] names[j])
}

/// Where `path` belongs among `listed`: behind everything that comes before
/// it.
pub fn insertion_point(listed: &Vec<String>, path: &str) -> (at: usize)
    ensures
        at <= listed.len(),
        forall|j: int| 0 <= j < at ==> text_before((#[trigger] listed[j])@, path@),
        at < listed.len() ==> !text_before(listed[at as int]@, path@),
{
    let item = to_chars(path);
    let mut i: usize = 0;
    while i < listed.len()
        invariant
            i <= listed.len(),
            item@ == path@,
            forall|j: int| 0 <= j < i ==> text_before((#[trigger] listed[j])@, path@),
        decreases listed.len() - i,
    {
        let here = to_chars(listed[i].as_str());
        if !comes_before(&here, &item) {
            return i;
        }
        i += 1;
    }
    i
}

/// Puts `path` in its place among `listed`, unless it is there already.
pub fn insert_model(listed: &mut Vec<String>, path: String)
    requires
        ascending(names_view(old(listed)@)),
    ensures
        ascending(names_view(final(listed)@)),
        forall|p: Seq<char>|
            names_view(final(listed)@).contains(p) <==> (names_view(old(listed)@).contains(p) || p
                == path@),
{
    let at = insertion_point(listed, path.as_str());
    let ghost before = names_view(listed@);
    let ghost item = path@;
    if at < listed.len() && listed[at] == path {
        assert(before[at as int] == item);
        return ;
    }
    assert forall|j: int| 0 <= j < at implies text_before(#[trigger] before[j], item) by {
        assert(before[j] == listed[j]@);
    }
    listed.insert(at, path);
    proof {
        let after = names_view(listed@);
        assert(after =~= before.insert(at as int, item));
        assert(after.len() == before.len() + 1);
        assert(after[at as int] == item);
        assert forall|k: int| 0 <= k < at implies after[k] == before[k] by {}
        assert forall|k: int| at < k < after.len() implies after[k] == before[k - 1] by {}
        if at < before.len() {
            lemma_text_before_is_total(item, before[at as int]);
            assert(text_before(item, before[at as int]));
        }
        assert forall|i: int, j: int| 0 <= i < j < after.len() implies text_before(
            #[trigger] after[i],
            #[trigger] after[j],
        ) by {
            if j < at {
                assert(text_before(before[i], before[j]));
            } else if j == at {
                assert(text_before(before[i], item));
            } else if i < at {
                assert(text_before(before[i], before[j - 1]));
            } else if i == at {
                if j - 1 > at {
                    assert(text_before(before[at as int], before[j - 1]));
                    lemma_text_before_is_strict(item, before[at as int], before[j - 1]);
                }
            } else {
                assert(text_before(before[i - 1], before[j - 1]));
            }
        }
        assert forall|p: Seq<char>| after.contains(p) <==> (before.contains(p) || p == item) by {
            if after.contains(p) {
                let k = choose|k: int| 0 <= k < after.len() && after[k] == p;
                if k < at {
                    assert(before[k] == p);
                } else if k > at {
                    assert(before[k - 1] == p);
                }
            }
            if before.contains(p) {
                let k = choose|k: int| 0 <= k < before.len() && before[k] == p;
                if k < at {
                    assert(after[k] == p);
                } else {
                    assert(after[k + 1] == p);
                }
            }
            if p == item {
                assert(after[at as int] == p);
            }
        }
    }
}

/// The models found, each once, in ascending order of their paths.
pub fn list_models(found: Vec<String>) -> (listed: Vec<String>)
    ensures
        forall|i: int, j: int| 0 <= i < j < listed.len() ==> text_before(listed[i]@, listed[j]@),
        forall|p: Seq<char>| names_view(listed@).contains(p) <==> names_view(found@).contains(p),
{
    let ghost all = names_view(found@);
    let mut listed: Vec<String> = Vec::new();
    let mut k: usize = 0;
    assert(all.take(0) =~= Seq::<Seq<char>>::empty());
    while k < found.len()
        invariant
            k <= found.len(),
            all == names_view(found@),
            ascending(names_view(listed@)),
            forall|p: Seq<char>| names_view(listed@).contains(p) <==> all.take(k as int).contains(p),
        decreases found.len() - k,
    {
        let ghost before = names_view(listed@);
        let path = found[k].clone();
        insert_model(&mut listed, path);
        proof {
            let shorter = all.take(k as int);
            let longer = all.take(k + 1);
            assert(longer =~= shorter.push(found[k as int]@));
            assert forall|p: Seq<char>| names_view(listed@).contains(p) <==> longer.contains(
                p,
            ) by {
                if longer.contains(p) {
                    let i = choose|i: int| 0 <= i < longer.len() && longer[i] == p;
                    if i < k {
                        assert(shorter[i] == p);
                    }
                }
                if shorter.contains(p) {
                    let i = choose|i: int| 0 <= i < shorter.len() && shorter[i] == p;
                    assert(longer[i] == p);
                }
                if p == found[k as int]@ {
                    assert(longer[k as int] == p);
                }
            }
        }
        k += 1;
    }
    proof {
        assert(all.take(found.len() as int) =~= all);
        let names = names_view(listed@);
        assert forall|i: int, j: int| 0 <= i < j < listed.len() implies text_before(
            listed[i]@,
            listed[j]@,
        ) by {
            assert(text_before(names[i], names[j]));
        }
    }
    listed
}

} // verus!
