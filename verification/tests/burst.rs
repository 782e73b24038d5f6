use rte::ethdev::{EthDev, MBufBurst, XStatsDefs, MAX_QUEUE};
use rte::mbuf::{Allocator, GlobalAllocator, MBuf};

fn filled(heap: &mut GlobalAllocator, data: &[u8]) -> MBuf {
    MBuf::new_with_provider_and_data(heap, data).unwrap()
}

#[test]
fn transmit_removes_exactly_the_first_reported() {
    let mut heap = GlobalAllocator::new(16);
    let mut burst = MBufBurst::with_capacity(8);
    let contents: [&[u8]; 4] = [b"one", b"two", b"three", b"four"];
    for data in contents {
        burst.push(filled(&mut heap, data)).map_err(|_| ()).unwrap();
    }

    // the native call reported two of four buffers sent
    let sent = burst.commit_transmitted(2);

    assert_eq!(sent.len(), 2);
    assert_eq!(sent[0].as_slice(), b"one");
    assert_eq!(sent[1].as_slice(), b"two");

    // the rest stay with the caller, in order and untouched
    assert_eq!(burst.len(), 2);
    assert_eq!(burst.get(0).as_slice(), b"three");
    assert_eq!(burst.get(1).as_slice(), b"four");

    // ownership of the sent buffers moved out of the collection
    for m in sent {
        heap.free(m);
    }
    for m in burst.into_vec() {
        heap.free(m);
    }
}

#[test]
fn transmit_nothing_and_everything() {
    let mut heap = GlobalAllocator::new(16);
    let mut burst = MBufBurst::with_capacity(4);
    burst.push(filled(&mut heap, b"a")).map_err(|_| ()).unwrap();
    burst.push(filled(&mut heap, b"b")).map_err(|_| ()).unwrap();

    let sent = burst.commit_transmitted(0);
    assert!(sent.is_empty());
    assert_eq!(burst.len(), 2);

    let sent = burst.commit_transmitted(2);
    assert_eq!(sent.len(), 2);
    assert_eq!(burst.len(), 0);
    for m in sent {
        heap.free(m);
    }
}

#[test]
fn receive_appends_in_arrival_order() {
    let mut heap = GlobalAllocator::new(16);
    let mut burst = MBufBurst::with_capacity(4);
    burst.push(filled(&mut heap, b"old")).map_err(|_| ()).unwrap();

    let arrived = vec![filled(&mut heap, b"n1"), filled(&mut heap, b"n2")];
    burst.absorb_received(arrived);

    assert_eq!(burst.len(), 3);
    assert_eq!(burst.get(0).as_slice(), b"old");
    assert_eq!(burst.get(1).as_slice(), b"n1");
    assert_eq!(burst.get(2).as_slice(), b"n2");
    assert_eq!(burst.remaining_capacity(), 1);
    for m in burst.into_vec() {
        heap.free(m);
    }
}

#[test]
fn push_beyond_bound_hands_the_buffer_back() {
    let mut heap = GlobalAllocator::new(16);
    let mut burst = MBufBurst::with_capacity(1);
    burst.push(filled(&mut heap, b"fits")).map_err(|_| ()).unwrap();
    match burst.push(filled(&mut heap, b"full")) {
        Ok(()) => panic!("push past the bound must fail"),
        Err((_, back)) => {
            assert_eq!(back.as_slice(), b"full");
            heap.free(back);
        },
    }
    for m in burst.into_vec() {
        heap.free(m);
    }
}

#[test]
fn eth_dev_carries_its_port() {
    let dev = EthDev::new(3);
    assert_eq!(dev.port_id(), 3);
    assert_eq!(MAX_QUEUE, u16::MAX);
}

#[test]
fn xstats_defs_keep_names() {
    let defs = XStatsDefs::new(vec!["rx_good_packets".to_string(), "tx_good_packets".to_string()]);
    assert_eq!(defs.names().len(), 2);
    assert_eq!(defs.names()[0], "rx_good_packets");
}
