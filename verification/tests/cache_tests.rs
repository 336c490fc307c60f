use fetch_cache::cache::CacheInitError;
use fetch_cache::cache::CacheInnerData;
use fetch_cache::cache::EvictStep;
use fetch_cache::cache::LookupOutcome;
use fetch_cache::cache::ScanRecord;
use fetch_cache::cache::StatOutcome;
use fetch_cache::cachekey::cache_key_for;
use fetch_cache::token::UsageToken;

/// A simulated cache directory: file name, size, and access time.
type SimDir = Vec<(Vec<u8>, u64, u64)>;

fn dir_find(dir: &SimDir, name: &[u8]) -> Option<(u64, u64)> {
    dir.iter().find(|e| e.0 == name).map(|e| (e.1, e.2))
}

fn dir_remove(dir: &mut SimDir, name: &[u8]) {
    dir.retain(|e| e.0 != name);
}

/// Drives one eviction walk against the simulated directory, performing
/// the file-system work each step asks for.
fn run_evict(idx: &mut CacheInnerData, dir: &mut SimDir, required: u64) -> bool {
    let (mut scan, mut step) = idx.evict_begin(required);
    loop {
        match step {
            EvictStep::Done { ok } => return ok,
            EvictStep::CheckBusy => {
                let busy = idx.probe_busy(&scan);
                step = idx.evict_on_busy(&mut scan, busy);
            }
            EvictStep::Stat { path } => {
                let outcome = match dir_find(dir, &path) {
                    Some((_, atime)) => StatOutcome::Accessed { atime },
                    None => StatOutcome::Missing,
                };
                step = idx.evict_on_stat(&mut scan, outcome);
            }
            EvictStep::Remove { path } => {
                dir_remove(dir, &path);
                step = idx.evict_on_removed(&mut scan);
            }
        }
    }
}

/// Simulates one `get`: single-flight lookup, reservation, download into a
/// temporary file, and atomic publish.  Returns the handle's token when
/// the content was cached, and `None` for an uncached pass-through.
fn do_get(
    idx: &mut CacheInnerData,
    dir: &mut SimDir,
    url: &str,
    size: u64,
    now: u64,
) -> Option<UsageToken> {
    let name = cache_key_for(url);
    match idx.lookup_or_reserve(&name, now) {
        LookupOutcome::Ready { token } => Some(token),
        LookupOutcome::Pending { token: _ } => panic!("no concurrent fetches in this driver"),
        LookupOutcome::Owner { token } => {
            let ok = run_evict(idx, dir, size);
            if !idx.set_stub_length(&name, size, ok) {
                // degrade gracefully: the caller gets the live stream
                return None;
            }
            // stream into the temporary file, then publish by rename
            let mut bak = name.clone();
            bak.extend_from_slice(b".bak");
            dir.push((bak.clone(), size, now));
            dir_remove(dir, &bak);
            dir.push((name.clone(), size, now));
            idx.complete_entry_stub(&name);
            Some(token)
        }
    }
}

#[test]
fn reservation_is_single_flight() {
    let mut idx = CacheInnerData::new(4096);
    let name = cache_key_for("https://example.com/a");
    let first = idx.lookup_or_reserve(&name, 1);
    assert!(matches!(first, LookupOutcome::Owner { .. }));
    // while the stub is pending, a second caller must wait, never fetch
    let second = idx.lookup_or_reserve(&name, 2);
    assert!(matches!(second, LookupOutcome::Pending { .. }));
    idx.complete_entry_stub(&name);
    let third = idx.lookup_or_reserve(&name, 3);
    assert!(matches!(third, LookupOutcome::Ready { .. }));
}

#[test]
fn oversized_request_fails_without_mutation() {
    let mut idx = CacheInnerData::new(1024);
    let mut dir: SimDir = Vec::new();
    let a = do_get(&mut idx, &mut dir, "https://example.com/small", 600, 1);
    assert!(a.is_some());
    drop(a);
    assert_eq!(idx.cache_space(), (600, 1024));
    // more than the whole limit can never fit, and nothing may change
    let ok = run_evict(&mut idx, &mut dir, 2048);
    assert!(!ok);
    assert_eq!(idx.cache_space(), (600, 1024));
    assert_eq!(dir.len(), 1);
}

#[test]
fn successful_get_leaves_one_file_and_no_temp() {
    let mut idx = CacheInnerData::new(4096);
    let mut dir: SimDir = Vec::new();
    let url = "https://example.com/data/file.tsv.gz";
    let handle = do_get(&mut idx, &mut dir, url, 700, 1);
    assert!(handle.is_some());
    let name = cache_key_for(url);
    let matching = dir.iter().filter(|e| e.0 == name).count();
    assert_eq!(matching, 1);
    let temps = dir.iter().filter(|e| e.0.ends_with(b".bak")).count();
    assert_eq!(temps, 0);
    assert_eq!(idx.cache_space(), (700, 4096));
    assert_eq!(idx.is_entry_ready(&name), Some(true));
}

#[test]
fn failed_copy_rolls_the_entry_back() {
    let mut idx = CacheInnerData::new(4096);
    let mut dir: SimDir = Vec::new();
    let url = "https://example.com/broken";
    let name = cache_key_for(url);
    match idx.lookup_or_reserve(&name, 1) {
        LookupOutcome::Owner { token: _token } => {
            let ok = run_evict(&mut idx, &mut dir, 900);
            assert!(idx.set_stub_length(&name, 900, ok));
            let mut bak = name.clone();
            bak.extend_from_slice(b".bak");
            dir.push((bak.clone(), 450, 1));
            // the copy fails half-way: delete the temp file, drop the stub
            dir_remove(&mut dir, &bak);
            idx.remove_entry_stub(&name);
        }
        _ => panic!("fresh key must be owned"),
    }
    assert_eq!(idx.is_entry_ready(&name), None);
    assert_eq!(idx.cache_space(), (0, 4096));
    assert_eq!(dir.len(), 0);
}

#[test]
fn eviction_frees_the_oldest_idle_entry() {
    // capacity 1KB; A (600 bytes, not read afterward) then B (600 bytes)
    let mut idx = CacheInnerData::new(1024);
    let mut dir: SimDir = Vec::new();
    let a = do_get(&mut idx, &mut dir, "https://example.com/a", 600, 1);
    drop(a);
    let b = do_get(&mut idx, &mut dir, "https://example.com/b", 600, 2);
    assert!(b.is_some());
    let (used, limit) = idx.cache_space();
    assert!(used <= 1024, "final usage {} exceeds the limit", used);
    assert_eq!(limit, 1024);
    let a_name = cache_key_for("https://example.com/a");
    let b_name = cache_key_for("https://example.com/b");
    assert!(dir_find(&dir, &a_name).is_none(), "the idle entry must be evicted");
    assert!(dir_find(&dir, &b_name).is_some());
    assert_eq!(idx.is_entry_ready(&a_name), None);
    assert_eq!(idx.is_entry_ready(&b_name), Some(true));
}

#[test]
fn busy_entry_survives_and_the_newcomer_bypasses() {
    // capacity 1KB; A's handle stays open, so B cannot make room
    let mut idx = CacheInnerData::new(1024);
    let mut dir: SimDir = Vec::new();
    let a = do_get(&mut idx, &mut dir, "https://example.com/a", 600, 1);
    assert!(a.is_some());
    // a stays alive here: the entry is busy
    let b = do_get(&mut idx, &mut dir, "https://example.com/b", 600, 2);
    assert!(b.is_none(), "the second fetch must fall back to an uncached stream");
    let a_name = cache_key_for("https://example.com/a");
    let b_name = cache_key_for("https://example.com/b");
    assert!(dir_find(&dir, &a_name).is_some(), "a busy entry is never evicted");
    assert_eq!(idx.is_entry_ready(&a_name), Some(true));
    assert_eq!(idx.is_entry_ready(&b_name), None);
    assert_eq!(idx.cache_space(), (600, 1024));
    drop(a);
}

#[test]
fn usage_tracks_the_sum_of_entry_sizes() {
    let mut idx = CacheInnerData::new(1u64 << 30);
    let mut dir: SimDir = Vec::new();
    let sizes = [100u64, 250, 4096, 1];
    let mut total = 0u64;
    for (i, size) in sizes.iter().enumerate() {
        let url = format!("https://example.com/file{}", i);
        let got = do_get(&mut idx, &mut dir, &url, *size, i as u64);
        assert!(got.is_some());
        total += size;
        assert_eq!(idx.cache_space().0, total);
    }
    // removing one gives exactly its size back
    let name = cache_key_for("https://example.com/file2");
    idx.remove_entry_stub(&name);
    assert_eq!(idx.cache_space().0, total - 4096);
}

#[test]
fn vanished_files_are_dropped_from_accounting() {
    let mut idx = CacheInnerData::new(1024);
    let mut dir: SimDir = Vec::new();
    let a = do_get(&mut idx, &mut dir, "https://example.com/a", 600, 1);
    drop(a);
    // someone deletes the file behind the cache's back
    let a_name = cache_key_for("https://example.com/a");
    dir_remove(&mut dir, &a_name);
    // the next reservation finds the file gone and reclaims the space
    let b = do_get(&mut idx, &mut dir, "https://example.com/b", 600, 2);
    assert!(b.is_some());
    assert_eq!(idx.is_entry_ready(&a_name), None);
    assert_eq!(idx.cache_space(), (600, 1024));
}

#[test]
fn startup_scan_restores_the_index() {
    let records = vec![
        ScanRecord { path: b"one".to_vec(), size: 10, last_accessed: 5, is_file: true },
        ScanRecord { path: b"two".to_vec(), size: 20, last_accessed: 6, is_file: true },
        ScanRecord { path: b"old.bak".to_vec(), size: 7, last_accessed: 1, is_file: true },
    ];
    let idx = CacheInnerData::from_scan(1024, records).unwrap();
    assert_eq!(idx.cache_space(), (37, 1024));
    assert_eq!(idx.is_entry_ready(b"one"), Some(true));
    // leftovers of a crashed run are found for the startup purge
    let baks = idx.bak_paths();
    assert_eq!(baks, vec![b"old.bak".to_vec()]);
}

#[test]
fn startup_scan_rejects_non_files() {
    let records = vec![
        ScanRecord { path: b"one".to_vec(), size: 10, last_accessed: 5, is_file: true },
        ScanRecord { path: b"subdir".to_vec(), size: 0, last_accessed: 0, is_file: false },
    ];
    let res = CacheInnerData::from_scan(1024, records);
    assert_eq!(res.err(), Some(CacheInitError::NonFileEntry));
}

#[test]
fn startup_scan_rejects_duplicates() {
    let records = vec![
        ScanRecord { path: b"one".to_vec(), size: 10, last_accessed: 5, is_file: true },
        ScanRecord { path: b"one".to_vec(), size: 11, last_accessed: 6, is_file: true },
    ];
    let res = CacheInnerData::from_scan(1024, records);
    assert_eq!(res.err(), Some(CacheInitError::DuplicatePath));
}

#[test]
fn startup_scan_rejects_unaccountable_sizes() {
    let records = vec![
        ScanRecord { path: b"one".to_vec(), size: u64::MAX, last_accessed: 5, is_file: true },
        ScanRecord { path: b"two".to_vec(), size: 1, last_accessed: 6, is_file: true },
    ];
    let res = CacheInnerData::from_scan(u64::MAX, records);
    assert_eq!(res.err(), Some(CacheInitError::UsageOverflow));
}

#[test]
fn bak_purge_reconciles_usage() {
    let records = vec![
        ScanRecord { path: b"keep".to_vec(), size: 10, last_accessed: 5, is_file: true },
        ScanRecord { path: b"gone.bak".to_vec(), size: 90, last_accessed: 1, is_file: true },
    ];
    let mut idx = CacheInnerData::from_scan(1024, records).unwrap();
    assert_eq!(idx.cache_space().0, 100);
    for bak in idx.bak_paths() {
        // the driver deletes the file, then drops the entry
        idx.remove_entry_stub(&bak);
    }
    assert_eq!(idx.cache_space(), (10, 1024));
    assert_eq!(idx.is_entry_ready(b"gone.bak"), None);
}

#[test]
fn tokens_report_sharing() {
    let token = UsageToken::new();
    assert!(!token.is_shared());
    let clone = token.duplicate();
    assert!(token.is_shared());
    assert!(clone.is_shared());
    drop(clone);
    assert!(!token.is_shared());
}
