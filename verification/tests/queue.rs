use ascii::queue::{SampleQueue, DEFAULT_QUEUE_CAPACITY, SILENCE};

#[test]
fn chunk_larger_than_free_capacity_is_refused() {
    let mut q = SampleQueue::new(4);
    assert!(q.try_push_chunk(&vec![1, 2, 3]));
    assert_eq!(q.len(), 3);

    // the next whole chunk does not fit: it must be refused, not torn,
    // and the pending samples must stay untouched
    assert!(!q.try_push_chunk(&vec![4, 5]));
    assert_eq!(q.len(), 3);

    assert!(q.try_push_chunk(&vec![4]));
    assert_eq!(q.len(), 4);

    assert_eq!(q.pop_or_silence(), 1);
    assert_eq!(q.pop_or_silence(), 2);
    assert_eq!(q.pop_or_silence(), 3);
    assert_eq!(q.pop_or_silence(), 4);
}

#[test]
fn empty_queue_pops_silence() {
    let mut q = SampleQueue::new(2);
    assert_eq!(q.pop_or_silence(), SILENCE);
    assert_eq!(q.pop_or_silence(), SILENCE);
    assert!(q.try_push_chunk(&vec![42]));
    assert_eq!(q.pop_or_silence(), 42);
    assert_eq!(q.pop_or_silence(), SILENCE);
}

#[test]
fn default_capacity_queue() {
    let q = SampleQueue::with_default_capacity();
    assert_eq!(q.capacity(), DEFAULT_QUEUE_CAPACITY);
    assert_eq!(q.capacity(), 8192);
    assert_eq!(q.len(), 0);
}

#[test]
fn fill_pads_with_silence() {
    let mut q = SampleQueue::new(8);
    assert!(q.try_push_chunk(&vec![10, 20]));
    let buf = q.fill_or_silence(5);
    assert_eq!(buf, vec![10, 20, SILENCE, SILENCE, SILENCE]);
    assert_eq!(q.len(), 0);
}

#[test]
fn free_capacity_tracks_pushes() {
    let mut q = SampleQueue::new(4);
    assert_eq!(q.free(), 4);
    assert!(q.try_push_chunk(&vec![1, 2]));
    assert_eq!(q.free(), 2);
    q.pop_or_silence();
    assert_eq!(q.free(), 3);
}
