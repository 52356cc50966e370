use confidant::cache::get_cache_file_path;
use std::path::Path;

#[test]
fn cache_file_is_named_after_the_language() {
    assert_eq!(get_cache_file_path("/app/data/cache", "en"), "/app/data/cache/responses_en.json");
    assert_eq!(get_cache_file_path("/app/data/cache/", "fr"), "/app/data/cache/responses_fr.json");
    assert_eq!(get_cache_file_path("", "de"), "responses_de.json");
    assert_eq!(get_cache_file_path("/", ""), "/responses_.json");
}

#[test]
fn cache_file_path_is_what_joining_gives() {
    for dir in ["/app/data/cache", "/app/data/cache/", "relative/dir", "", "/", "."] {
        for language in ["en", "pt-BR", "", "a/b"] {
            let joined = Path::new(dir).join(format!("responses_{}.json", language));
            assert_eq!(
                Path::new(&get_cache_file_path(dir, language)),
                joined.as_path(),
                "{:?} {:?}",
                dir,
                language
            );
        }
    }
}
