use relayer::ports::{PortPool, PORT_LIMIT};

#[test]
fn fresh_pool_holds_every_port() {
    let pool = PortPool::new();
    assert_eq!(pool.len(), 60000);
    assert_eq!(PORT_LIMIT, 60000);
    assert!(pool.contains(0));
    assert!(pool.contains(59999));
    assert!(!pool.contains(60000));
    assert!(!pool.contains(u16::MAX));
}

#[test]
fn lowest_ports_come_in_rising_order() {
    let mut pool = PortPool::new();
    assert_eq!(pool.take_lowest(), Some(0));
    assert_eq!(pool.take_lowest(), Some(1));
    assert_eq!(pool.take_lowest(), Some(2));
    assert_eq!(pool.len(), 59997);
}

#[test]
fn taken_port_is_skipped_by_lowest() {
    let mut pool = PortPool::new();
    pool.take(1);
    assert!(!pool.contains(1));
    assert_eq!(pool.take_lowest(), Some(0));
    assert_eq!(pool.take_lowest(), Some(2));
    assert_eq!(pool.len(), 59997);
}

#[test]
fn take_last_port() {
    let mut pool = PortPool::new();
    pool.take(59999);
    assert!(!pool.contains(59999));
    assert!(pool.contains(59998));
    assert_eq!(pool.len(), 59999);
}

#[test]
fn released_port_is_lowest_again() {
    let mut pool = PortPool::new();
    assert_eq!(pool.take_lowest(), Some(0));
    assert_eq!(pool.take_lowest(), Some(1));
    pool.take(5000);
    pool.release(0);
    assert!(pool.contains(0));
    assert_eq!(pool.take_lowest(), Some(0));
    assert_eq!(pool.take_lowest(), Some(2));
}

#[test]
fn release_in_the_middle_keeps_order() {
    let mut pool = PortPool::new();
    pool.take(10);
    pool.take(20);
    pool.release(20);
    assert!(pool.contains(20));
    assert!(!pool.contains(10));
    assert_eq!(pool.len(), 59999);
    for expected in 0..10u16 {
        assert_eq!(pool.take_lowest(), Some(expected));
    }
    assert_eq!(pool.take_lowest(), Some(11));
}

#[test]
fn release_of_a_free_port_changes_nothing() {
    let mut pool = PortPool::new();
    pool.release(7);
    assert_eq!(pool.len(), 60000);
    assert!(pool.contains(7));
}

#[test]
fn release_of_the_highest_port() {
    let mut pool = PortPool::new();
    pool.take(59999);
    pool.release(59999);
    assert_eq!(pool.len(), 60000);
    assert!(pool.contains(59999));
}

#[test]
fn exhausted_pool_gives_nothing() {
    let mut pool = PortPool::new();
    let mut previous: Option<u16> = None;
    for _ in 0..60000u32 {
        let port = pool.take_lowest();
        assert!(port.is_some());
        if let Some(before) = previous {
            assert!(before < port.unwrap());
        }
        previous = port;
    }
    assert_eq!(previous, Some(59999));
    assert_eq!(pool.len(), 0);
    assert_eq!(pool.take_lowest(), None);
    assert_eq!(pool.len(), 0);
    pool.release(42);
    assert_eq!(pool.take_lowest(), Some(42));
}
