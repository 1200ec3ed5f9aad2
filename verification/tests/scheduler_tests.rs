use tangle_tunes::chunk::BYTES_PER_CHUNK;
use tangle_tunes::scheduler::{RequestQueue, CHUNKS_PER_REQUEST};

#[test]
fn request_queue_test() {
    let requests = CHUNKS_PER_REQUEST * 4 - 1;
    let song = vec![0; BYTES_PER_CHUNK * requests];
    let mut queue = RequestQueue::new(0, requests);

    assert_eq!(
        queue.request_now(&song),
        Some((0 * CHUNKS_PER_REQUEST, CHUNKS_PER_REQUEST))
    );
    assert_eq!(
        queue.request_now(&song),
        Some((1 * CHUNKS_PER_REQUEST, CHUNKS_PER_REQUEST))
    );
    assert_eq!(
        queue.request_now(&song),
        Some((2 * CHUNKS_PER_REQUEST, CHUNKS_PER_REQUEST))
    );
    assert_eq!(
        queue.request_now(&song),
        Some((3 * CHUNKS_PER_REQUEST, CHUNKS_PER_REQUEST - 1))
    );
    assert_eq!(queue.request_now(&song), None);
}

#[test]
fn zero_start_is_always_dispatchable() {
    // A head segment starting at chunk 0 goes out even with an empty buffer.
    let mut queue = RequestQueue::new(0, 79);
    assert_eq!(queue.request_now(&[]), Some((0, CHUNKS_PER_REQUEST)));
}

#[test]
fn gate_holds_back_far_segments() {
    // Head (40, 20): with an empty buffer 40 > 0 * BYTES_PER_CHUNK + 3,
    // so nothing may be dispatched; a single received byte is already
    // enough, because the comparison multiplies the byte count by the
    // chunk size.
    let mut queue = RequestQueue::new(40, 100);
    assert_eq!(queue.request_now(&[]), None);
    assert_eq!(queue.request_now(&[0; 1]), Some((40, CHUNKS_PER_REQUEST)));
}

#[test]
fn gate_boundary_is_exact() {
    // With an explicit chunk size of 5 and head (20, 20):
    // 20 <= 3 * 5 + 3 fails, 20 <= 4 * 5 + 3 holds.
    let mut queue = RequestQueue::new(20, 45);
    assert_eq!(queue.ready_to_send(3, 5), None);
    assert_eq!(queue.ready_to_send(4, 5), Some((20, 20)));
    // The next head (40, 5) is again out of the window.
    assert_eq!(queue.ready_to_send(4, 5), None);
    assert_eq!(queue.len(), 1);
}

#[test]
fn unaligned_start_clips_to_the_grid() {
    // Segment starts are multiples of the batch size: a range starting at 5
    // schedules only from the first grid point at 20.
    let mut queue = RequestQueue::new(5, 45);
    let song = vec![0; BYTES_PER_CHUNK * 45];
    assert_eq!(queue.request_now(&song), Some((20, 20)));
    assert_eq!(queue.request_now(&song), Some((40, 5)));
    assert_eq!(queue.request_now(&song), None);
}

#[test]
fn empty_range_schedules_nothing() {
    let mut queue = RequestQueue::new(7, 7);
    assert_eq!(queue.request_now(&[]), None);
    assert_eq!(queue.len(), 0);
}
