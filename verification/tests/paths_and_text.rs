use mascot_render::path_text::{
    file_name, join, path_key_text, strip_prefix, to_forward_slashes, with_extension,
};
use mascot_render::text::{decimal_string, parse_u64, str_equal, trim};
use mascot_render::variation::{
    hash_psd_path, sanitize_file_name, saved_variation_matches, trim_psd_suffixes,
    variation_dir, variation_hash, variation_png_path, variation_render_meta_path,
    variation_spec_path, SAVED_VARIATION_VERSION,
};

#[test]
fn decimal_and_parsing() {
    assert_eq!(decimal_string(0), "0");
    assert_eq!(decimal_string(1234567890123), "1234567890123");
    assert_eq!(parse_u64("42"), Some(42));
    assert_eq!(parse_u64("18446744073709551615"), Some(u64::MAX));
    assert_eq!(parse_u64("18446744073709551616"), None);
    assert_eq!(parse_u64(""), None);
    assert_eq!(parse_u64("12a"), None);
    assert_eq!(parse_u64("+7"), Some(7));
    assert_eq!(parse_u64("-7"), None);
}

#[test]
fn trimming_and_equality() {
    assert_eq!(trim("  a b \n"), "a b");
    assert_eq!(trim("\u{3000}x\u{3000}"), "x");
    assert_eq!(trim("   "), "");
    assert!(str_equal("abc", "abc"));
    assert!(!str_equal("abc", "abd"));
}

#[test]
fn path_joining_and_names() {
    assert_eq!(join("root", "cache"), "root/cache");
    assert_eq!(join("root/", "cache"), "root/cache");
    assert_eq!(join("root", "/abs/x"), "/abs/x");
    assert_eq!(join("", "x"), "x");
    assert_eq!(file_name("a/b/c.png"), Some("c.png".to_string()));
    assert_eq!(file_name("a/b/.."), None);
    assert_eq!(file_name("c.png"), Some("c.png".to_string()));
    assert_eq!(with_extension("dir/x.png", "json"), "dir/x.json");
    assert_eq!(with_extension("dir/x", "json"), "dir/x.json");
    assert_eq!(to_forward_slashes("a\\b\\c"), "a/b/c");
    assert_eq!(strip_prefix("/ws/cache/x.png", "/ws"), Some("cache/x.png".to_string()));
    assert_eq!(strip_prefix("/other/x.png", "/ws"), None);
    assert_eq!(strip_prefix("/wsx/a", "/ws"), None);
}

#[test]
fn short_hashes_are_sha256_prefixes() {
    assert_eq!(variation_hash(b""), "e3b0c44298fc1c14");
    assert_eq!(variation_hash(b"abc"), "ba7816bf8f01cfea");
    assert_eq!(hash_psd_path("abc"), "ba7816bf8f01cfea");
    assert_ne!(variation_hash(b"{}"), variation_hash(b"[]"));
}

#[test]
fn file_names_are_sanitized() {
    assert_eq!(sanitize_file_name("a<b>c:d\"e/f\\g|h?i*j"), "a_b_c_d_e_f_g_h_i_j");
    assert_eq!(sanitize_file_name(" .name. "), "name");
    assert_eq!(sanitize_file_name(" . "), "variation");
    assert_eq!(sanitize_file_name(""), "variation");
    assert_eq!(trim_psd_suffixes("body.psd.psd"), "body");
    assert_eq!(trim_psd_suffixes("body.PSD"), "body.PSD");
}

#[test]
fn variation_paths() {
    let dir = variation_dir("cache/zip", "abc", "Body.psd");
    assert_eq!(dir, "cache/zip/variations/Body__ba7816bf8f01cfea");
    let png = variation_png_path("cache/zip", "abc", "Body.psd", b"abc");
    assert_eq!(png, "cache/zip/variations/Body__ba7816bf8f01cfea/ba7816bf8f01cfea.png");
    assert_eq!(variation_spec_path(&png), png.replace(".png", ".json"));
    assert_eq!(variation_render_meta_path("a/b.png"), "a/b.render.json");
}

#[test]
fn saved_variations_must_match_version_and_source() {
    let zip = "a.zip".to_string();
    let psd = "b.psd".to_string();
    assert!(saved_variation_matches(SAVED_VARIATION_VERSION, &zip, &psd, &zip, &psd));
    assert!(!saved_variation_matches(SAVED_VARIATION_VERSION + 1, &zip, &psd, &zip, &psd));
    assert!(!saved_variation_matches(SAVED_VARIATION_VERSION, &zip, &psd, &zip, &"c.psd".to_string()));
}

#[test]
fn backslash_separates_components() {
    assert_eq!(file_name("C:\\w\\a.psd"), Some("a.psd".to_string()));
    assert_eq!(with_extension("C:\\w\\a.psd", "png"), "C:\\w\\a.png");
    assert_eq!(strip_prefix("C:\\w\\cache", "C:\\w"), Some("cache".to_string()));
    assert_eq!(join("C:\\w", "D:/x"), "D:/x");
}

#[test]
fn sanitized_file_name_is_clean_and_stable() {
    for name in ["a<b>:c", " ..x. ", " . ", "", "ok.name", "..:..", "q?*"] {
        let once = sanitize_file_name(name);
        assert!(!once.is_empty());
        assert!(!once.contains(['<', '>', ':', '"', '/', '\\', '|', '?', '*']));
        assert!(!once.starts_with([' ', '.']) && !once.ends_with([' ', '.']));
        assert_eq!(sanitize_file_name(&once), once);
    }
    assert_eq!(sanitize_file_name("a<b>:c"), "a_b__c");
    assert_eq!(sanitize_file_name(" ..x. "), "x");
}

#[test]
fn trim_follows_unicode_white_space() {
    assert_eq!(trim("\u{3000}x\u{a0}\u{85}"), "x");
    assert_eq!(trim("\u{2000}\u{200a}x\u{202f}"), "x");
    assert_eq!(trim("\u{200b}x"), "\u{200b}x");
    assert_eq!(trim("\u{180e}x"), "\u{180e}x");
}

#[test]
fn strip_prefix_compares_components() {
    assert_eq!(strip_prefix("/ws//a", "/ws"), Some("a".to_string()));
    assert_eq!(strip_prefix("/ws/a/", "/ws"), Some("a".to_string()));
    assert_eq!(strip_prefix("/ws/./a/.", "/ws/"), Some("a".to_string()));
    assert_eq!(strip_prefix("/ws/a//b", "/ws"), Some("a//b".to_string()));
    assert_eq!(strip_prefix("/ws", "/ws/"), Some(String::new()));
    assert_eq!(strip_prefix("/ws/a", "/ws//."), Some("a".to_string()));
    assert_eq!(strip_prefix("a//b/", ""), Some("a//b".to_string()));
    assert_eq!(strip_prefix("/", ""), Some("/".to_string()));
    assert_eq!(strip_prefix("./a", "."), Some("a".to_string()));
    assert_eq!(strip_prefix("./a", "a"), None);
    assert_eq!(strip_prefix("/a", "a"), None);
    assert_eq!(strip_prefix("a/b", "a/c"), None);
    assert_eq!(strip_prefix("C:\\w\\a", "c:\\w"), Some("a".to_string()));
}

#[test]
fn path_keys_follow_components() {
    assert_eq!(path_key_text("a/b"), path_key_text("a/b/"));
    assert_eq!(path_key_text("/a//b"), path_key_text("/a/./b"));
    assert_ne!(path_key_text("/a/b"), path_key_text("a/b"));
    assert_ne!(path_key_text("./a"), path_key_text(".a"));
    assert_eq!(path_key_text("/a/b"), "//a/b/");
}
