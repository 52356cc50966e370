//! Where the cached responses of a language are kept.

use vstd::prelude::*;

verus! {

/// The separator that joins a directory and a file name: none after an empty
/// directory or one that already ends in a slash.
pub open spec fn separator_after(dir: Seq<char>) -> Seq<char> {
    if dir.len() == 0 || dir.last() == '/' {
        Seq::empty()
    } else {
        seq!['/']
    }
}

/// The name of the cache file of `language`.
pub open spec fn cache_file_name(language: Seq<char>) -> Seq<char> {
    "responses_"@ + language + ".json"@
}

/// The path of the cache file of `language` below `cache_dir`.
pub open spec fn cache_file_path(cache_dir: Seq<char>, language: Seq<char>) -> Seq<char> {
    cache_dir + separator_after(cache_dir) + cache_file_name(language)
}

/// The path of the cache file of `language` below `cache_dir`.
pub fn get_cache_file_path(cache_dir: &str, language: &str) -> (path: String)
    ensures
        path@ == cache_file_path(cache_dir@, language@),
{
    let mut path = String::from_str(cache_dir);
    let chars = crate::text::to_chars(cache_dir);
    if chars.len() > 0 && chars[chars.len() - 1] != '/' {
        proof {
            reveal_strlit("/");
        }
        path.append("/");
        assert("/"@ =~= seq!['/']);
    }
    path.append("responses_");
    path.append(language);
    path.append(".json");
    assert(path@ =~= cache_file_path(cache_dir@, language@));
    path
}

} // verus!
