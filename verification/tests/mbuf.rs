use rte::error::{Error, EINVAL, ENOSPC};
use rte::mbuf::{Allocator, GlobalAllocator, MBuf, MBUF_DEFAULT_BUF_SIZE};

#[test]
fn append_hello_world() {
    // an empty 32-byte buffer; append "hello" then " world"
    let mut heap = GlobalAllocator::new(32);
    let mut mbuf = MBuf::new_with_provider(&mut heap).unwrap();
    mbuf.extend_from_slice(b"hello").unwrap();
    mbuf.extend_from_slice(b" world").unwrap();
    assert_eq!(mbuf.as_slice(), b"hello world");
    assert_eq!(mbuf.len(), 11);
    assert_eq!(mbuf.capacity(), 32);
    heap.free(mbuf);
}

#[test]
fn append_beyond_capacity_is_rejected() {
    let mut heap = GlobalAllocator::new(4);
    let mut mbuf = MBuf::new_with_provider(&mut heap).unwrap();
    mbuf.extend_from_slice(b"abc").unwrap();
    // one spare byte left; a two-byte write must be rejected whole
    assert_eq!(mbuf.extend_from_slice(b"de"), Err(Error(ENOSPC)));
    assert_eq!(mbuf.as_slice(), b"abc");
    assert_eq!(mbuf.len(), 3);
    mbuf.extend_from_slice(b"d").unwrap();
    assert_eq!(mbuf.as_slice(), b"abcd");
    heap.free(mbuf);
}

#[test]
fn clone_is_independent() {
    let mut heap = GlobalAllocator::new(16);
    let mut original = MBuf::new_with_provider_and_data(&mut heap, b"abcd").unwrap();
    let mut copy = heap.clone(&original).unwrap();
    assert_eq!(copy.as_slice(), b"abcd");

    // mutating the copy must not change the original
    copy.write_byte(0, b'z');
    assert_eq!(copy.as_slice(), b"zbcd");
    assert_eq!(original.as_slice(), b"abcd");

    // releasing one must not affect the other's validity
    heap.free(copy);
    original.write_byte(3, b'!');
    assert_eq!(original.as_slice(), b"abc!");
    heap.free(original);
}

#[test]
fn metadata_fields_are_bounded() {
    let mut heap = GlobalAllocator::new(8);
    let mut mbuf = MBuf::new_with_provider(&mut heap).unwrap();

    mbuf.set_l2_len(127).unwrap();
    assert_eq!(mbuf.l2_len(), 127);
    assert_eq!(mbuf.set_l2_len(128), Err(Error(EINVAL)));
    assert_eq!(mbuf.l2_len(), 127);

    mbuf.set_l3_len(511).unwrap();
    assert_eq!(mbuf.l3_len(), 511);
    assert_eq!(mbuf.set_l3_len(512), Err(Error(EINVAL)));
    assert_eq!(mbuf.l3_len(), 511);

    heap.free(mbuf);
}

#[test]
fn offload_flags_accumulate() {
    let mut heap = GlobalAllocator::new(8);
    let mut mbuf = MBuf::new_with_provider(&mut heap).unwrap();
    assert_eq!(mbuf.ol_flags(), 0);
    mbuf.enable_ol_flags(0b0101);
    mbuf.enable_ol_flags(0b0011);
    assert_eq!(mbuf.ol_flags(), 0b0111);
    heap.free(mbuf);
}

#[test]
fn default_provider_buf_size() {
    let mbuf = MBuf::new::<GlobalAllocator>().unwrap();
    assert_eq!(mbuf.capacity(), MBUF_DEFAULT_BUF_SIZE);
    assert_eq!(mbuf.len(), 0);

    let filled = MBuf::new_with_data::<GlobalAllocator>(b"xyz").unwrap();
    assert_eq!(filled.as_slice(), b"xyz");
}

#[test]
fn alloc_mbufs_fills_each_buffer() {
    let mut heap = GlobalAllocator::new(16);
    let bufs = vec![b"\x00\x01".to_vec(), b"\x02\x03".to_vec()];
    let mbufs = rte::mbuf::alloc_mbufs(&mut heap, &bufs).unwrap();
    assert_eq!(mbufs.len(), 2);
    assert_eq!(mbufs[0].as_slice(), b"\x00\x01");
    assert_eq!(mbufs[1].as_slice(), b"\x02\x03");
    for m in mbufs {
        heap.free(m);
    }
}
