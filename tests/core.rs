use dogky::cache::{freshness, CacheEntry, CachePolicy, CacheStep, Freshness, TtlCache};
use dogky::network::{resolve_network, AddressEntry, InterfaceCounters, NetworkState, PublicAddress};
use dogky::processes::{rank_processes, summarize_processes, ProcessRow, ProcessSnapshot};
use dogky::ranking::{top_k_indices, TopKRanker};
use dogky::ring::RingBuffer;
use dogky::schedule::TickSchedule;
use dogky::sampler::{cpu_usage_track, normalized_ratio, percentage, transfer_rate, MetricTrack, RateTracker};

#[test]
fn ring_buffer_keeps_last_values_most_recent_first() {
    let mut ring = RingBuffer::new(3);
    assert_eq!(ring.len(), 0);
    assert!(ring.iter_most_recent_first().is_empty());
    for v in [1u64, 2, 3, 4, 5] {
        ring.push(v);
    }
    assert_eq!(ring.len(), 3);
    assert_eq!(ring.iter_most_recent_first(), vec![5, 4, 3]);
    // A fresh copy on each call.
    assert_eq!(ring.iter_most_recent_first(), vec![5, 4, 3]);
}

#[test]
fn ring_buffer_len_is_min_of_pushes_and_capacity() {
    for capacity in 1usize..6 {
        for n in 0u64..10 {
            let mut ring = RingBuffer::new(capacity);
            let values: Vec<u64> = (0..n).collect();
            ring.push_all(&values);
            assert_eq!(ring.len(), std::cmp::min(n as usize, capacity));
            let expected: Vec<u64> = values.iter().rev().take(capacity).copied().collect();
            assert_eq!(ring.iter_most_recent_first(), expected);
        }
    }
}

#[test]
fn cpu_track_end_to_end() {
    let mut track = cpu_usage_track(3);
    for usage in [10u64, 20, 90, 5] {
        track.record(usage);
    }
    assert_eq!(track.values(), vec![5, 90, 20]);
    assert_eq!(track.ratios(), vec![50_000, 900_000, 200_000]);
}

#[test]
fn memory_track_ratios() {
    let mut track = MetricTrack::new(2, 8);
    track.record(2);
    track.record(8);
    assert_eq!(track.ratios(), vec![1_000_000, 250_000]);
    let zero = MetricTrack::new(2, 0);
    assert!(zero.ratios().is_empty());
}

#[test]
fn ratio_and_percentage_guard_zero_totals() {
    assert_eq!(normalized_ratio(5, 0), 0);
    assert_eq!(normalized_ratio(1, 3), 333_333);
    assert_eq!(normalized_ratio(u64::MAX, 1), u64::MAX);
    assert_eq!(percentage(7, 0), 0);
    assert_eq!(percentage(1, 2), 50);
    assert_eq!(percentage(1, 3), 33);
    assert_eq!(percentage(2, 3), 67);
    assert_eq!(percentage(3, 3), 100);
}

#[test]
fn rate_with_zero_elapsed_is_zero() {
    assert_eq!(transfer_rate(1000, 0), 0);
    assert_eq!(transfer_rate(1000, 4), 250);
    assert_eq!(transfer_rate(0, 0), 0);
}

#[test]
fn rate_tracker_uses_counter_deltas() {
    let mut tracker = RateTracker::new();
    let first = tracker.update(1000, 500, 2);
    assert_eq!((first.download, first.upload), (0, 0));
    let second = tracker.update(3000, 900, 2);
    assert_eq!((second.download, second.upload), (1000, 200));
    let stalled = tracker.update(5000, 1000, 0);
    assert_eq!((stalled.download, stalled.upload), (0, 0));
    let reset = tracker.update(100, 10, 1);
    assert_eq!((reset.download, reset.upload), (100, 10));
}

fn sorted_reference(keys: &[u64]) -> Vec<usize> {
    let mut idx: Vec<usize> = (0..keys.len()).collect();
    idx.sort_by(|a, b| keys[*b].cmp(&keys[*a]));
    idx
}

#[test]
fn top_k_matches_full_sort() {
    let mut seed: u64 = 0x2545F4914F6CDD1D;
    for m in [0usize, 1, 2, 5, 17, 100, 1000] {
        let keys: Vec<u64> = (0..m)
            .map(|_| {
                seed ^= seed << 13;
                seed ^= seed >> 7;
                seed ^= seed << 17;
                seed % 50
            })
            .collect();
        for k in [0usize, 1, 3, 10, m] {
            let got = top_k_indices(&keys, k);
            let reference: Vec<usize> = sorted_reference(&keys).into_iter().take(k).collect();
            assert_eq!(got, reference, "m={} k={}", m, k);
        }
    }
}

#[test]
fn top_k_heap_stays_bounded() {
    let mut ranker = TopKRanker::new(10);
    for i in 0..10_000u64 {
        ranker.offer((i * 7919) % 10_007);
        assert!(ranker.held_count() <= 10);
    }
    let ranked = ranker.into_ranked();
    assert_eq!(ranked.len(), 10);
}

#[test]
fn top_k_ties_keep_encounter_order() {
    assert_eq!(top_k_indices(&vec![5, 7, 5, 7, 5], 3), vec![1, 3, 0]);
    assert_eq!(top_k_indices(&vec![1, 2], 5), vec![1, 0]);
}

fn snap(pid: u32, cmd: &str, cpu: u64, mem: u64) -> ProcessSnapshot {
    ProcessSnapshot { pid, command: cmd.to_string(), cpu_usage: cpu, memory_usage: mem }
}

#[test]
fn rank_processes_by_both_keys() {
    let procs = vec![snap(1, "a", 10, 300), snap(2, "b", 50, 100), snap(3, "c", 30, 200)];
    let ranked = rank_processes(&procs, 2);
    let cpu: Vec<u32> = ranked.by_cpu.iter().map(|p| p.pid).collect();
    let mem: Vec<u32> = ranked.by_memory.iter().map(|p| p.pid).collect();
    assert_eq!(cpu, vec![2, 3]);
    assert_eq!(mem, vec![1, 3]);
    assert_eq!(ranked.by_cpu[0].command, "b");
}

#[test]
fn summarize_skips_tasks_and_vanished_processes() {
    let rows = vec![
        ProcessRow { pid: 1, running: true, snapshot: Some(snap(1, "init", 5, 10)) },
        ProcessRow { pid: 2, running: true, snapshot: Some(snap(2, "thread", 90, 10)) },
        ProcessRow { pid: 3, running: true, snapshot: None },
        ProcessRow { pid: 4, running: false, snapshot: Some(snap(4, "idle", 1, 999)) },
    ];
    let data = summarize_processes(&rows, &vec![2], 5);
    assert_eq!(data.num_running, 2);
    assert_eq!(data.num_total, 2);
    let cpu: Vec<u32> = data.top_cpu.iter().map(|p| p.pid).collect();
    let mem: Vec<u32> = data.top_memory.iter().map(|p| p.pid).collect();
    assert_eq!(cpu, vec![1, 4]);
    assert_eq!(mem, vec![4, 1]);
}

fn iface(name: &str, received: u64, transmitted: u64) -> InterfaceCounters {
    InterfaceCounters {
        name: name.to_string(),
        total_received: 10_000,
        total_transmitted: 20_000,
        received,
        transmitted,
    }
}

#[test]
fn network_without_matching_interface_is_disconnected() {
    let interfaces = vec![iface("lo", 0, 0), iface("eth0", 10, 10)];
    let addresses = vec![AddressEntry { interface: "eth0".to_string(), address: 0x0A000001 }];
    match resolve_network("^wl", &interfaces, &addresses, 2) {
        Ok(state) => {
            assert!(matches!(state, NetworkState::Disconnected));
            assert!(state.local_addresses().is_empty());
            assert!(!state.is_connected());
        }
        Err(_) => panic!("valid pattern refused"),
    }
}

#[test]
fn network_match_without_address_is_disconnected() {
    let interfaces = vec![iface("wlan0", 10, 10)];
    let addresses = vec![AddressEntry { interface: "eth0".to_string(), address: 1 }];
    let state = resolve_network("^wl", &interfaces, &addresses, 2).ok().unwrap();
    assert!(matches!(state, NetworkState::Disconnected));
}

#[test]
fn network_first_match_with_addresses() {
    let interfaces = vec![iface("lo", 0, 0), iface("wlan0", 3000, 1000), iface("wlan1", 1, 1)];
    let addresses = vec![
        AddressEntry { interface: "wlan0".to_string(), address: 0xC0A80002 },
        AddressEntry { interface: "lo".to_string(), address: 0x7F000001 },
        AddressEntry { interface: "wlan0".to_string(), address: 0xC0A80003 },
    ];
    let state = resolve_network("^wl", &interfaces, &addresses, 2).ok().unwrap();
    match state {
        NetworkState::Connected(id) => {
            assert_eq!(id.interface_name, "wlan0");
            assert_eq!(id.local_addresses, vec![0xC0A80002, 0xC0A80003]);
            assert_eq!(id.download_rate, 1500);
            assert_eq!(id.upload_rate, 500);
            assert_eq!(id.total_received, 10_000);
        }
        _ => panic!("expected a connected state"),
    }
}

#[test]
fn network_invalid_pattern_is_an_error() {
    let interfaces = vec![iface("lo", 0, 0)];
    assert!(resolve_network("(", &interfaces, &vec![], 1).is_err());
    assert!(resolve_network("(", &vec![], &vec![], 1).is_err());
}

fn policy() -> CachePolicy {
    CachePolicy { ttl: 600, update_interval: 600, retry_timeout: 30 }
}

#[test]
fn cache_ttl_boundary() {
    let now = 10_000u64;
    assert!(matches!(freshness(Some(now - 601), now, 600), Freshness::Stale));
    assert!(matches!(freshness(Some(now - 599), now, 600), Freshness::Fresh));
    assert!(matches!(freshness(Some(now - 600), now, 600), Freshness::Stale));
    assert!(matches!(freshness(None, now, 600), Freshness::Stale));

    let stale = TtlCache::new(policy(), Some(CacheEntry { value: "old".to_string(), fetched_at: now - 601 }));
    assert!(matches!(stale.step(now), CacheStep::Fetch));
    let mut fresh = TtlCache::new(policy(), Some(CacheEntry { value: "cached".to_string(), fetched_at: now - 599 }));
    assert!(matches!(fresh.step(now), CacheStep::ServeCached));
    assert_eq!(fresh.serve_cached(), 600);
    assert_eq!(fresh.entry.as_ref().unwrap().value, "cached");
}

#[test]
fn cache_failure_keeps_entry_and_retries_sooner() {
    let now = 5_000u64;
    let mut cache = TtlCache::new(policy(), Some(CacheEntry { value: vec![1u8, 2, 3], fetched_at: 1 }));
    let report = cache.complete_refresh(Err("timed out".to_string()), now);
    assert!(!report.persist);
    assert_eq!(report.next_poll, 30);
    assert_eq!(cache.entry.as_ref().unwrap().value, vec![1u8, 2, 3]);
    assert_eq!(cache.entry.as_ref().unwrap().fetched_at, 1);
    assert_eq!(cache.error.as_deref(), Some("timed out"));

    let report = cache.complete_refresh(Ok(vec![9u8]), now);
    assert!(report.persist);
    assert_eq!(report.next_poll, 600);
    assert_eq!(cache.entry.as_ref().unwrap().value, vec![9u8]);
    assert_eq!(cache.entry.as_ref().unwrap().fetched_at, now);
    assert!(cache.error.is_none());
}

#[test]
fn ticks_run_one_at_a_time() {
    let mut s = TickSchedule::new(100);
    assert!(!s.try_start(99));
    assert!(s.try_start(100));
    assert!(!s.try_start(1_000));
    s.finish(105, 30);
    assert_eq!(s.next_due, 135);
    assert_eq!(s.wait(120), 15);
    assert!(!s.try_start(134));
    assert!(s.try_start(135));
    s.finish(u64::MAX - 1, 10);
    assert_eq!(s.next_due, u64::MAX);
    assert_eq!(s.wait(u64::MAX), 0);
}

#[test]
fn public_address_survives_failed_lookups() {
    let mut public = PublicAddress::new();
    assert!(public.shown.is_none());
    public.record(None);
    assert!(public.shown.is_none());
    public.record(Some("2001:db8::1".to_string()));
    public.record(None);
    assert_eq!(public.shown.as_deref(), Some("2001:db8::1"));
    public.record(Some("2001:db8::2".to_string()));
    assert_eq!(public.shown.as_deref(), Some("2001:db8::2"));
}
