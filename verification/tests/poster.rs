use imdb_indexer::poster::size::{
    choose_size, named_size, normalize_poster_size, POSTER_SIZE_LG, POSTER_SIZE_MD,
    POSTER_SIZE_ORIG, POSTER_SIZE_SM, POSTER_SIZE_XL, POSTER_SIZE_XS,
};

#[test]
fn test_poster_size_normalization() {
    assert_eq!(normalize_poster_size(Some("xs"), "w185"), POSTER_SIZE_XS);
    assert_eq!(normalize_poster_size(Some("w92"), "w185"), POSTER_SIZE_XS);
    assert_eq!(normalize_poster_size(Some("sm"), "w185"), POSTER_SIZE_SM);
    assert_eq!(normalize_poster_size(Some("w154"), "w185"), POSTER_SIZE_SM);
    assert_eq!(normalize_poster_size(Some("md"), "w185"), POSTER_SIZE_MD);
    assert_eq!(normalize_poster_size(Some("w185"), "w185"), POSTER_SIZE_MD);
    assert_eq!(normalize_poster_size(Some("lg"), "w185"), POSTER_SIZE_LG);
    assert_eq!(normalize_poster_size(Some("w342"), "w185"), POSTER_SIZE_LG);
    assert_eq!(normalize_poster_size(Some("xl"), "w185"), POSTER_SIZE_XL);
    assert_eq!(normalize_poster_size(Some("w500"), "w185"), POSTER_SIZE_XL);
    assert_eq!(normalize_poster_size(Some("original"), "w185"), POSTER_SIZE_ORIG);
    assert_eq!(normalize_poster_size(None, "w185"), POSTER_SIZE_MD);
}

#[test]
fn sizes_are_chosen_once() {
    let names = [
        None,
        Some("xs"),
        Some(" Orig\t"),
        Some("W500"),
        Some("w999"),
        Some("ЛГ"),
        Some("\u{a0}XL\u{3000}"),
        Some("ＸＬ"),
        Some(" Ὀ Σ "),
        Some("İ"),
    ];
    for asked in names {
        for default_size in ["sm", "w342", "original", "nonsense"] {
            let size = normalize_poster_size(asked, default_size);
            assert_eq!(normalize_poster_size(Some(size), "xs"), size);
            assert_eq!(normalize_poster_size(None, size), size);
            if let Some(name) = asked {
                let clean = name.trim().to_lowercase();
                assert_eq!(normalize_poster_size(Some(&clean), default_size), size);
                assert_eq!(choose_size(Some(&clean), default_size), size);
            }
        }
    }
    assert_eq!(normalize_poster_size(Some(" Orig\t"), "sm"), POSTER_SIZE_ORIG);
    assert_eq!(normalize_poster_size(Some("\u{a0}XL\u{3000}"), "sm"), POSTER_SIZE_XL);
    assert_eq!(normalize_poster_size(Some("ＸＬ"), "sm"), POSTER_SIZE_SM);
}

#[test]
fn sizes_have_names() {
    assert_eq!(named_size("xs"), Some(POSTER_SIZE_XS));
    assert_eq!(named_size("w154"), Some(POSTER_SIZE_SM));
    assert_eq!(named_size("original"), Some(POSTER_SIZE_ORIG));
    assert_eq!(named_size("orig"), None);
    assert_eq!(named_size("XS"), None);
    assert_eq!(choose_size(Some("orig"), "md"), POSTER_SIZE_ORIG);
    assert_eq!(choose_size(Some("nonsense"), "lg"), POSTER_SIZE_LG);
    assert_eq!(choose_size(None, "nonsense"), POSTER_SIZE_MD);
}

#[test]
fn sizes_are_taken_in_any_case() {
    assert_eq!(normalize_poster_size(Some(" XL "), "w185"), POSTER_SIZE_XL);
    assert_eq!(normalize_poster_size(Some("orig"), "w185"), POSTER_SIZE_ORIG);
    assert_eq!(normalize_poster_size(Some("w999"), "lg"), POSTER_SIZE_LG);
    assert_eq!(normalize_poster_size(Some("w999"), "orig"), POSTER_SIZE_MD);
    assert_eq!(normalize_poster_size(None, "original"), POSTER_SIZE_ORIG);
    assert_eq!(normalize_poster_size(None, "LG"), POSTER_SIZE_MD);
    assert_eq!(normalize_poster_size(None, "nonsense"), POSTER_SIZE_MD);
}
