use leftysay::cache::{cache_file_name, cache_key};
use leftysay::evict::{eviction_order, plan_eviction, CacheFile, EvictionPass};
use leftysay::render::{ChafaColors, ChafaFormat};

fn key(cols: usize, rows: usize, f: ChafaFormat, c: ChafaColors, a: bool) -> String {
    cache_key("image.png", 1_700_000_000, cols, rows, f, c, a)
}

#[test]
fn cache_key_changes_with_size() {
    let key_small = cache_key("image.png", 0, 40, 10, ChafaFormat::Auto, ChafaColors::Auto, false);
    let key_large = cache_key("image.png", 0, 80, 10, ChafaFormat::Auto, ChafaColors::Auto, false);
    assert_ne!(key_small, key_large);
}

#[test]
fn cache_key_is_deterministic() {
    let a = key(40, 10, ChafaFormat::Auto, ChafaColors::Auto, false);
    let b = key(40, 10, ChafaFormat::Auto, ChafaColors::Auto, false);
    assert_eq!(a, b);
    assert_eq!(a.len(), 64);
    assert!(a.chars().all(|c| c.is_ascii_hexdigit() && !c.is_ascii_uppercase()));
}

#[test]
fn cache_key_sensitive_to_each_field() {
    let base = key(40, 10, ChafaFormat::Auto, ChafaColors::Auto, false);
    assert_ne!(base, key(40, 11, ChafaFormat::Auto, ChafaColors::Auto, false));
    assert_ne!(base, key(40, 10, ChafaFormat::Kitty, ChafaColors::Auto, false));
    assert_ne!(base, key(40, 10, ChafaFormat::Auto, ChafaColors::C16, false));
    assert_ne!(base, key(40, 10, ChafaFormat::Auto, ChafaColors::Auto, true));
    assert_ne!(base, cache_key("image.png", 1_700_000_001, 40, 10, ChafaFormat::Auto, ChafaColors::Auto, false));
    assert_ne!(base, cache_key("other.png", 1_700_000_000, 40, 10, ChafaFormat::Auto, ChafaColors::Auto, false));
}

#[test]
fn cache_key_hashes_request_bytes() {
    let mut hasher = blake3::Hasher::new();
    hasher.update("image.png".as_bytes());
    hasher.update(&7u64.to_le_bytes());
    hasher.update(&40u64.to_le_bytes());
    hasher.update(&10u64.to_le_bytes());
    hasher.update(b"symbols");
    hasher.update(b"full");
    hasher.update(&[1u8]);
    let expected = hasher.finalize().to_hex().to_string();
    assert_eq!(cache_key("image.png", 7, 40, 10, ChafaFormat::Unicode, ChafaColors::Truecolor, true), expected);
}

#[test]
fn cache_file_name_has_extension() {
    assert_eq!(cache_file_name("abc123"), "abc123.txt");
}

fn file(size: u64, modified: u64) -> CacheFile {
    CacheFile { size: Some(size), modified: Some(modified) }
}

#[test]
fn eviction_order_oldest_first_ties_by_position() {
    let files = vec![
        file(10, 30),
        file(10, 10),
        CacheFile { size: Some(5), modified: None },
        file(10, 10),
        file(10, 20),
    ];
    assert_eq!(eviction_order(&files), vec![2, 1, 3, 4, 0]);
    assert!(eviction_order(&Vec::new()).is_empty());
}

#[test]
fn eviction_removes_oldest_until_within_budget() {
    let files = vec![file(100, 3), file(100, 1), file(100, 2), file(100, 4)];
    let (order, k) = plan_eviction(&files, 250);
    assert_eq!(order, vec![1, 2, 0, 3]);
    assert_eq!(k, 2);
    let survivors: u64 = order[k..].iter().map(|&i| files[i].size.unwrap()).sum();
    assert!(survivors <= 250);
}

#[test]
fn eviction_within_budget_is_noop() {
    let files = vec![file(100, 3), file(100, 1)];
    let (_, k) = plan_eviction(&files, 200);
    assert_eq!(k, 0);
    let pass = EvictionPass::new(&files, 200);
    assert_eq!(pass.total, 200);
    assert_eq!(pass.next_victim(), None);
}

#[test]
fn eviction_oversized_entry_empties_cache() {
    let files = vec![file(10, 1), file(1000, 2)];
    let (order, k) = plan_eviction(&files, 100);
    assert_eq!(order, vec![0, 1]);
    assert_eq!(k, 2);
    let (_, k) = plan_eviction(&files, 0);
    assert_eq!(k, 2);
}

#[test]
fn eviction_pass_skips_failed_delete() {
    let files = vec![file(100, 1), file(100, 2), file(100, 3)];
    let mut pass = EvictionPass::new(&files, 150);
    assert_eq!(pass.next_victim(), Some(0));
    pass.record(false);
    assert_eq!(pass.total, 300);
    assert_eq!(pass.next_victim(), Some(1));
    pass.record(true);
    assert_eq!(pass.total, 200);
    assert_eq!(pass.next_victim(), Some(2));
    pass.record(true);
    assert_eq!(pass.total, 100);
    assert_eq!(pass.next_victim(), None);
}

#[test]
fn eviction_unknown_size_counts_nothing() {
    let files = vec![CacheFile { size: None, modified: Some(1) }, file(300, 2)];
    let pass = EvictionPass::new(&files, 100);
    assert_eq!(pass.total, 300);
    let (_, k) = plan_eviction(&files, 100);
    assert_eq!(k, 2);
}
