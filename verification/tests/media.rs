//! Buffers, media and the router.

use std::sync::Arc;

use caml::runtime::fanout::{Offer, SinkQueue};
use caml::runtime::media::recorded;
use caml::time::Duration;
use caml::{
    BorrowedMediaSlice, BufferPool, DecodedFrame, DropPolicy, EncodedPacket, FanoutRouter,
    FfmpegPacketHandle, MappedFrameHandle, MediaPayload, MediaStorage, SinkActorConfig,
};

#[test]
fn buffer_pool_limit_test_buffer_pool_preallocate_and_stats() {
    let mut pool = BufferPool::new(1024);
    assert_eq!(pool.stats().available, 0);
    assert_eq!(pool.stats().in_use, 0);
    assert_eq!(pool.stats().high_watermark, 0);

    pool.preallocate(10);
    assert_eq!(pool.stats().available, 10);
    assert_eq!(pool.stats().in_use, 0);
    assert_eq!(pool.stats().high_watermark, 10);

    let _buf1 = pool.acquire();
    assert_eq!(pool.stats().available, 9);
    assert_eq!(pool.stats().in_use, 1);
    assert_eq!(pool.stats().high_watermark, 10);
}

#[test]
fn test_buffer_pool_overflow_expansion() {
    let mut pool = BufferPool::new(1024);
    pool.preallocate(2);

    let _buf1 = pool.acquire();
    let _buf2 = pool.acquire();
    assert_eq!(pool.stats().available, 0);
    assert_eq!(pool.stats().in_use, 2);

    // Acquire another buffer, which should trigger dynamic allocation
    let _buf3 = pool.acquire();
    assert_eq!(pool.stats().available, 0);
    assert_eq!(pool.stats().in_use, 3);
    assert_eq!(pool.stats().high_watermark, 3);

    assert_eq!(pool.high_watermark_bytes(), 3 * 1024);
}

#[test]
fn memory_model_test_buffer_pool_preallocate_and_stats() {
    let mut pool = BufferPool::new(1024);
    let stats = pool.stats();
    assert_eq!(stats.available, 0);
    assert_eq!(stats.in_use, 0);
    assert_eq!(stats.high_watermark, 0);

    pool.preallocate(5);
    let stats = pool.stats();
    assert_eq!(stats.available, 5);
    assert_eq!(stats.in_use, 0);
    assert_eq!(stats.high_watermark, 5);

    let buf1 = pool.acquire();
    let stats = pool.stats();
    assert_eq!(stats.available, 4);
    assert_eq!(stats.in_use, 1);
    assert_eq!(stats.high_watermark, 5);

    let buf2 = pool.acquire();
    let stats = pool.stats();
    assert_eq!(stats.available, 3);
    assert_eq!(stats.in_use, 2);

    pool.release(buf1);
    let stats = pool.stats();
    assert_eq!(stats.available, 4);
    assert_eq!(stats.in_use, 1);

    pool.release(buf2);
    let stats = pool.stats();
    assert_eq!(stats.available, 5);
    assert_eq!(stats.in_use, 0);
}

#[test]
fn test_buffer_pool_dynamic_allocation() {
    let mut pool = BufferPool::new(1024);

    // Acquire when pool is empty should allocate dynamically
    let buf1 = pool.acquire();
    let stats = pool.stats();
    assert_eq!(stats.available, 0);
    assert_eq!(stats.in_use, 1);
    assert_eq!(stats.high_watermark, 1);

    pool.release(buf1);
    let stats = pool.stats();
    assert_eq!(stats.available, 1);
    assert_eq!(stats.in_use, 0);
}

#[test]
fn test_media_storage_variants() {
    let mut pool = BufferPool::new(1024);
    let mut buf = pool.acquire();
    buf.extend_from_slice(&[1, 2, 3]);

    let storage_pooled = MediaStorage::Pooled(buf.freeze());
    assert_eq!(storage_pooled.as_slice(), &[1, 2, 3]);
    assert_eq!(storage_pooled.len(), 3);
    assert!(!storage_pooled.is_empty());

    let storage_owned = MediaStorage::Owned(Arc::new(vec![4, 5, 6]));
    assert_eq!(storage_owned.as_slice(), &[4, 5, 6]);
    assert_eq!(storage_owned.len(), 3);
}

#[test]
fn test_encoded_packet_with_media_storage() {
    let mut pool = BufferPool::new(1024);
    let mut buf = pool.acquire();
    buf.extend_from_slice(&[7, 8, 9]);

    let packet = EncodedPacket {
        codec: "h264".to_string(),
        timestamp: Some(Duration::from_millis(100)),
        duration: Some(Duration::from_millis(33)),
        is_keyframe: true,
        data: MediaStorage::Pooled(buf.freeze()),
    };

    assert_eq!(packet.data.as_slice(), &[7, 8, 9]);
}

#[test]
fn buffers_come_back_empty() {
    let mut pool = BufferPool::new(0);
    assert_eq!(pool.high_watermark_bytes(), 0);
    let mut buffer = pool.acquire();
    buffer.extend_from_slice(b"left over");
    buffer.as_mut_vec().push(b'!');
    assert_eq!(buffer.as_slice(), b"left over!");
    pool.release(buffer);
    let again = pool.acquire();
    assert!(again.is_empty());
    assert_eq!(again.len(), 0);
    assert_eq!(pool.high_watermark_bytes(), 1);
}

#[test]
fn shared_buffers_come_back_with_the_last_handle() {
    let mut pool = BufferPool::new(256);
    pool.preallocate(4);
    let before = pool.stats();
    let mut buffer = pool.acquire();
    buffer.extend_from_slice(b"hello fanout");
    let shared = buffer.freeze();
    let copies = vec![shared.clone(), shared.clone()];
    assert_eq!(pool.stats().high_watermark, before.high_watermark);
    for copy in &copies {
        assert_eq!(copy.as_slice(), shared.as_slice());
    }
    assert!(!pool.reclaim(shared));
    let mut came_back = Vec::new();
    for copy in copies {
        came_back.push(pool.reclaim(copy));
    }
    assert_eq!(came_back, vec![false, true]);
    assert_eq!(pool.stats(), before);
    assert!(pool.acquire().is_empty());
}

#[test]
fn test_pooled_buffer_clone_is_allocation_free() {
    let mut pool = BufferPool::new(256);
    pool.preallocate(4);

    // Pre-snapshot: pool stats before payload creation.
    let stats_before = pool.stats();

    let mut buffer = pool.acquire();
    buffer.extend_from_slice(b"hello fanout");
    let payload = MediaPayload::EncodedPacket(EncodedPacket {
        codec: "h264".to_string(),
        timestamp: None,
        duration: None,
        is_keyframe: false,
        data: MediaStorage::Pooled(buffer.freeze()),
    });

    let stats_after_create = pool.stats();
    assert_eq!(
        stats_after_create.high_watermark, stats_before.high_watermark,
        "creating a payload must not grow the high-watermark"
    );

    let clone1 = payload.clone();
    let clone2 = payload.clone();
    let stats_after_clone = pool.stats();

    assert_eq!(
        stats_after_clone.high_watermark, stats_before.high_watermark,
        "cloning a PooledBuffer payload must not allocate a new buffer slot"
    );

    // Verify all clones see identical data.
    assert_eq!(payload.data(), clone1.data());
    assert_eq!(payload.data(), clone2.data());

    // After all handles are dropped, the slot is reclaimed.
    for handle in [payload, clone1, clone2] {
        give_back(&mut pool, handle);
    }

    let stats_final = pool.stats();
    assert!(
        stats_final.available >= stats_before.available,
        "slot should be returned to the pool after all PooledBuffer handles are dropped"
    );
}

/// Gives up a payload, and with it its handle of a buffer.
fn give_back(pool: &mut BufferPool, payload: MediaPayload) {
    if let MediaPayload::EncodedPacket(packet) = payload {
        match packet.data {
            MediaStorage::Pooled(buffer) => {
                pool.reclaim(buffer);
            }
            other => panic!("expected a buffer of the pool, got {:?}", other),
        }
    }
}

#[test]
fn payloads_that_make_room_come_back_to_the_pool() {
    let mut pool = BufferPool::new(16);
    let mut router = router(&[(1, DropPolicy::DropOldest), (1, DropPolicy::DropNewest)]);
    for i in 0u8..5 {
        let mut buffer = pool.acquire();
        buffer.extend_from_slice(&[i]);
        let payload = MediaPayload::EncodedPacket(EncodedPacket {
            codec: "h264".to_string(),
            timestamp: None,
            duration: None,
            is_keyframe: false,
            data: MediaStorage::Pooled(buffer.freeze()),
        });
        for outcome in router.consume(&payload) {
            match outcome {
                Offer::Queued => {}
                Offer::ReplacedOldest(done) | Offer::Dropped(done) => give_back(&mut pool, done),
                Offer::Full(_) => panic!("these queues never block"),
            }
        }
        give_back(&mut pool, payload);
    }
    assert_eq!(pool.stats().in_use, 2);
    assert_eq!(drain(&mut router, 0), vec![vec![4]]);
    assert_eq!(drain(&mut router, 1), vec![vec![0]]);
    assert_eq!(pool.stats().high_watermark, 3);
}

#[test]
fn buffers_that_were_not_given_out_are_not_kept() {
    let mut pool = BufferPool::new(16);
    let mut other = BufferPool::new(16);
    pool.preallocate(2);
    pool.release(other.acquire());
    let stats = pool.stats();
    assert_eq!((stats.available, stats.in_use, stats.high_watermark), (2, 0, 2));
}

#[test]
fn only_given_up_buffers_are_taken_back() {
    let mut pool = BufferPool::new(16);
    let mut buffer = pool.acquire();
    buffer.extend_from_slice(&[1, 2, 3]);
    assert!(!pool.take_back(None));
    assert_eq!((pool.stats().available, pool.stats().in_use), (0, 1));
    assert!(pool.take_back(Some(buffer)));
    assert_eq!((pool.stats().available, pool.stats().in_use), (1, 0));
    assert!(pool.acquire().is_empty());
}

#[test]
fn parts_of_bytes_are_what_they_were_cut_to() {
    let owner = Arc::new(vec![1, 2, 3, 4, 5]);
    let part = BorrowedMediaSlice::new(owner.clone(), 1, 4);
    assert_eq!(part.as_slice(), &[2, 3, 4]);
    assert_eq!(part.len(), 3);
    let storages = vec![
        MediaStorage::BorrowedSlice(part.clone()),
        MediaStorage::MappedFrame(MappedFrameHandle { slice: part.clone() }),
        MediaStorage::FfmpegPacket(FfmpegPacketHandle { slice: part.clone() }),
    ];
    for storage in storages {
        assert_eq!(storage.as_slice(), &[2, 3, 4]);
        assert_eq!(storage.clone().len(), 3);
    }
    assert!(MediaStorage::BorrowedSlice(BorrowedMediaSlice::new(owner, 5, 5)).is_empty());
    assert_eq!(part, part.clone());
}

#[test]
fn parts_of_bytes_are_shown_by_their_length() {
    let part = BorrowedMediaSlice::new(Arc::new(vec![1, 2, 3, 4, 5]), 1, 4);
    assert_eq!(format!("{:?}", part), "BorrowedMediaSlice { len: 3 }");
    assert_eq!(format!("{:#?}", part), "BorrowedMediaSlice {\n    len: 3,\n}");
    let frame = MappedFrameHandle { slice: part.clone() };
    assert_eq!(
        format!("{:?}", frame.clone()),
        "MappedFrameHandle { slice: BorrowedMediaSlice { len: 3 } }"
    );
    let packet = FfmpegPacketHandle { slice: part };
    assert_eq!(packet.clone(), packet);
    assert_eq!(frame.slice.as_slice(), &[2, 3, 4]);
}

fn packet(bytes: &[u8]) -> MediaPayload {
    MediaPayload::EncodedPacket(EncodedPacket {
        codec: "h264".to_string(),
        timestamp: Some(Duration::from_millis(5)),
        duration: None,
        is_keyframe: true,
        data: MediaStorage::from_vec(bytes.to_vec()),
    })
}

#[test]
fn payloads_are_recorded_but_for_the_end() {
    let record = recorded(&packet(&[1, 2, 3])).expect("packets are recorded");
    assert_eq!(record.bytes, 3);
    assert_eq!(record.clone(), record);
    assert!(recorded(&MediaPayload::EndOfStream).is_none());
    assert!(MediaPayload::EndOfStream.is_end_of_stream());
    assert_eq!(MediaPayload::EndOfStream.data(), None);
    let frame = MediaPayload::DecodedFrame(DecodedFrame {
        pixel_format: "NV12".to_string(),
        width: 2,
        height: 2,
        timestamp: None,
        data: MediaStorage::from_vec(vec![9, 8]),
    });
    assert_eq!(frame.data(), Some(&[9u8, 8][..]));
    assert_eq!(frame.clone(), frame);
}

fn router(limits: &[(usize, DropPolicy)]) -> FanoutRouter<usize> {
    let mut configs = Vec::new();
    for (index, (queue_limit, drop_policy)) in limits.iter().enumerate() {
        configs.push(SinkActorConfig {
            sink: index,
            queue_limit: *queue_limit,
            drop_policy: *drop_policy,
        });
    }
    FanoutRouter::new(configs)
}

fn none_blocks(outcomes: &[Offer<MediaPayload>]) -> bool {
    !outcomes.iter().any(|outcome| matches!(outcome, Offer::Full(_)))
}

fn drain(router: &mut FanoutRouter<usize>, index: usize) -> Vec<Vec<u8>> {
    let mut taken = Vec::new();
    while let Some(payload) = router.actors[index].queue.take() {
        taken.push(payload.data().unwrap().to_vec());
    }
    taken
}

#[test]
fn test_fanout_delivers_to_all_sinks() {
    let mut router = router(&[(32, DropPolicy::Block), (32, DropPolicy::Block)]);
    for i in 0u8..5 {
        assert!(none_blocks(&router.consume(&packet(&[i, i + 1, i + 2]))));
    }
    let a = drain(&mut router, 0);
    let b = drain(&mut router, 1);
    assert_eq!(a.len(), 5, "sink A should have received all 5 packets");
    assert_eq!(b.len(), 5, "sink B should have received all 5 packets");
    for bytes in a.iter().chain(b.iter()) {
        assert_eq!(bytes.len(), 3);
    }
}

#[test]
fn test_drop_newest_does_not_block_ingestion() {
    let mut router = router(&[(2, DropPolicy::DropNewest)]);
    for i in 0u8..10 {
        assert!(none_blocks(&router.consume(&packet(&[i]))));
    }
    assert_eq!(drain(&mut router, 0), vec![vec![0], vec![1]]);
}

#[test]
fn test_drop_oldest_does_not_block_ingestion() {
    let mut router = router(&[(2, DropPolicy::DropOldest)]);
    for i in 0u8..10 {
        assert!(none_blocks(&router.consume(&packet(&[i]))));
    }
    assert_eq!(drain(&mut router, 0), vec![vec![8], vec![9]]);
}

#[test]
fn test_empty_fanout_is_noop() {
    let mut router = router(&[]);
    assert!(router.consume(&packet(b"noop")).is_empty());
}

#[test]
fn full_blocking_sinks_are_waited_for() {
    let mut router = router(&[(1, DropPolicy::Block), (1, DropPolicy::DropOldest)]);
    assert_eq!(router.consume(&packet(&[1])), vec![Offer::Queued, Offer::Queued]);
    assert_eq!(
        router.consume(&packet(&[2])),
        vec![Offer::Full(packet(&[2])), Offer::ReplacedOldest(packet(&[1]))]
    );
    assert_eq!(router.retry(0, packet(&[2])), Offer::Full(packet(&[2])));
    assert_eq!(router.actors[0].queue.take().unwrap(), packet(&[1]));
    assert_eq!(router.retry(0, packet(&[2])), Offer::Queued);
    assert_eq!(drain(&mut router, 0), vec![vec![2]]);
    assert_eq!(drain(&mut router, 1), vec![vec![2]]);
}

#[test]
fn queues_hold_at_least_one() {
    let mut queue: SinkQueue<u8> = SinkQueue::new(0, DropPolicy::Block);
    assert!(matches!(queue.offer(1), Offer::Queued));
    assert_eq!(queue.len(), 1);
    assert!(!matches!(queue.offer(2), Offer::Queued));
    assert_eq!(queue.take(), Some(1));
    assert_eq!(queue.take(), None);
}
