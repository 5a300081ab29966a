use concurrency::counters::CounterTable;
use concurrency::metrics::rwmap::RwMetrics;
use concurrency::metrics::Metrics;
use concurrency::metrics2::Metrics2;

#[test]
fn table_counts_each_key() {
    let mut t = CounterTable::new();
    assert_eq!(t.get("a"), None);
    t.increment("a").unwrap();
    t.increment("b").unwrap();
    t.increment("a").unwrap();
    assert_eq!(t.get("a"), Some(2));
    assert_eq!(t.get("b"), Some(1));
    assert_eq!(t.len(), 2);
    assert_eq!(t.listing(), "a: 2\nb: 1\n");
    let c = t.copy();
    t.increment("c").unwrap();
    assert_eq!(c.get("c"), None);
    assert_eq!(c.len(), 2);
}

#[test]
fn metrics_snapshot_sees_increments() {
    let m = Metrics::new();
    m.inc("req.page.1").unwrap();
    m.inc("req.page.1").unwrap();
    m.inc("call.thread.worker.0").unwrap();
    let shared = m.clone();
    shared.inc("req.page.1").unwrap();
    let s = m.snapshot().unwrap();
    assert_eq!(s.get("req.page.1"), Some(3));
    assert_eq!(s.get("call.thread.worker.0"), Some(1));
    assert_eq!(s.get("missing"), None);
}

#[test]
fn rw_metrics_listing() {
    let m = RwMetrics::new();
    m.inc("x").unwrap();
    m.inc("y").unwrap();
    m.inc("x").unwrap();
    assert_eq!(m.listing(), "x: 2\ny: 1\n");
    assert_eq!(m.snapshot().unwrap().get("x"), Some(2));
}

#[test]
fn dashmap_metrics_count() {
    let m = Metrics2::new();
    m.inc("k").unwrap();
    m.inc("k").unwrap();
    m.clone().inc("k").unwrap();
    assert_eq!(m.listing(), "k: 3\n");
    let e = Metrics2::new();
    assert_eq!(e.listing(), "");
}
