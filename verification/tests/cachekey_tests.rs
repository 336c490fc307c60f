use fetch_cache::cachekey::cache_file_for;
use fetch_cache::cachekey::cache_key_for;
use fetch_cache::cachekey::fnv_hash;

#[test]
fn fnv_known_values() {
    assert_eq!(fnv_hash(b""), 0);
    assert_eq!(fnv_hash(b"hello"), 4587037595119977416);
}

#[test]
fn file_name_for_url() {
    assert_eq!(
        cache_file_for("https://example.com/data/file.tsv.gz"),
        "2320ABCB0090DE47_file.tsv.gz"
    );
}

#[test]
fn scheme_and_host_prefixes_are_stripped() {
    // the scheme, a www. prefix, surrounding whitespace and trailing
    // slashes do not change the key
    assert_eq!(
        cache_file_for("http://www.example.com/data/file.tsv.gz"),
        "2320ABCB0090DE47_file.tsv.gz"
    );
    assert_eq!(
        cache_file_for(" https://example.com/data/file.tsv.gz/ "),
        "2320ABCB0090DE47_file.tsv.gz"
    );
}

#[test]
fn name_without_path_separator() {
    assert_eq!(cache_file_for("plain"), "4F2AE4A55450749C_plain");
}

#[test]
fn long_segment_is_truncated_from_the_front() {
    let url = format!("https://host/{}", "a".repeat(200));
    let name = cache_file_for(&url);
    let expected_tail = "a".repeat(128);
    assert_eq!(name, format!("88EB6341DF091335_{}", expected_tail));
}

#[test]
fn key_bytes_match_file_name() {
    let url = "https://example.com/data/file.tsv.gz";
    assert_eq!(cache_key_for(url), cache_file_for(url).into_bytes());
}
