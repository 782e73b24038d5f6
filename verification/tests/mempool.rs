use rte::error::{Error, ENOENT};
use rte::lcore::SOCKET_ID_ANY;
use rte::mbuf::{Allocator, GlobalAllocator, MBuf};
use rte::mempool::MemoryPool;

#[test]
fn exhaustion_and_recycling() {
    // a pool with a single slot: allocate, exhaust, release, allocate again
    let mut pool = MemoryPool::new(b"p1".to_vec(), 1, 0, 0, 64, SOCKET_ID_ANY).unwrap();

    let first = pool.allocate_buffer().unwrap();
    assert_eq!(pool.get_available_count(), 0);

    let err = pool.allocate_buffer().unwrap_err();
    assert_eq!(err, Error(ENOENT));

    pool.free_buffer(first);
    assert_eq!(pool.get_available_count(), 1);

    let again = pool.allocate_buffer().unwrap();
    assert_eq!(again.capacity(), 64);
    pool.free_buffer(again);
}

#[test]
fn counts_partition_the_capacity() {
    let mut pool = MemoryPool::new(b"p2".to_vec(), 4, 0, 0, 32, SOCKET_ID_ANY).unwrap();
    assert_eq!(pool.get_available_count(), 4);
    assert_eq!(pool.get_in_use_count(), 0);

    let a = pool.allocate_buffer().unwrap();
    let b = pool.allocate_buffer().unwrap();
    assert_eq!(pool.get_available_count(), 2);
    assert_eq!(pool.get_in_use_count(), 2);
    assert_eq!(pool.get_available_count() + pool.get_in_use_count(), pool.size());

    pool.free_buffer(b);
    pool.free_buffer(a);
    assert_eq!(pool.get_available_count(), 4);
    assert_eq!(pool.get_in_use_count(), 0);
}

#[test]
fn construction_parameters_are_kept() {
    let pool = MemoryPool::new(b"mbuf_pool".to_vec(), 8, 2, 16, 2048, 1).unwrap();
    assert_eq!(pool.name(), b"mbuf_pool");
    assert_eq!(pool.size(), 8);
    assert_eq!(pool.cache_size(), 2);
    assert_eq!(pool.private_data_size(), 16);
    assert_eq!(pool.data_room_size(), 2048);
    assert_eq!(pool.socket_id(), 1);
}

#[test]
fn buffers_recycle_their_slots() {
    let mut pool = MemoryPool::new(b"p3".to_vec(), 2, 0, 0, 16, SOCKET_ID_ANY).unwrap();
    let mut m = pool.allocate_buffer().unwrap();
    m.extend_from_slice(b"stale data!").unwrap();
    pool.free_buffer(m);

    // the recycled slot comes back as an empty buffer
    let m = pool.allocate_buffer().unwrap();
    assert_eq!(m.len(), 0);
    assert_eq!(m.capacity(), 16);
    pool.free_buffer(m);
}

// the same script against the pool-backed and the heap-backed provider
fn script<A: Allocator>(provider: &mut A) -> (Vec<u8>, usize, usize) {
    let mut m = MBuf::new_with_provider(provider).unwrap();
    m.extend_from_slice(b"alpha").unwrap();
    m.extend_from_slice(b"-beta").unwrap();
    let mut copy = provider.clone(&m).unwrap();
    copy.write_byte(0, b'A');
    let out = (copy.as_slice().to_vec(), copy.len(), m.len());
    provider.free(m);
    provider.free(copy);
    out
}

#[test]
fn pool_and_heap_providers_are_interchangeable() {
    let mut pool = MemoryPool::new(b"p4".to_vec(), 4, 0, 0, 64, SOCKET_ID_ANY).unwrap();
    let mut heap = GlobalAllocator::new(64);
    assert_eq!(script(&mut pool), script(&mut heap));
}
