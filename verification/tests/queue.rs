use encode_broker::chunk::Chunk;
use encode_broker::queue::WorkQueue;

fn chunks(count: usize) -> Vec<Chunk> {
    (0..count)
        .map(|index| Chunk::new(index, format!("{:05}", index), 10 + index, format!("{:05}.ivf", index)))
        .collect()
}

#[test]
fn chunk_getters() {
    let chunk = Chunk::new(7, "00007".to_string(), 33, "out/00007.ivf".to_string());
    assert_eq!(chunk.index, 7);
    assert_eq!(chunk.frames, 33);
    assert_eq!(chunk.name(), "00007");
    assert_eq!(chunk.output(), "out/00007.ivf");
    assert_eq!(chunk.clone(), chunk);
}

#[test]
fn queue_hands_out_in_order() {
    let all = chunks(5);
    let mut queue = WorkQueue::load(&all);
    for expected in all.iter() {
        assert_eq!(queue.pop().as_ref(), Some(expected));
    }
    assert_eq!(queue.pop(), None);
    assert_eq!(queue.pop(), None);
}

#[test]
fn empty_queue_hands_out_nothing() {
    let mut queue = WorkQueue::load(&Vec::new());
    assert_eq!(queue.pop(), None);
}

#[test]
fn queue_of_one() {
    let all = chunks(1);
    let mut queue = WorkQueue::load(&all);
    assert_eq!(queue.pop(), Some(all[0].clone()));
    assert_eq!(queue.pop(), None);
}

#[test]
fn queue_keeps_equal_chunks_apart() {
    let twin = Chunk::new(1, "twin".to_string(), 5, "twin.ivf".to_string());
    let mut queue = WorkQueue::load(&vec![twin.clone(), twin.clone()]);
    assert_eq!(queue.pop(), Some(twin.clone()));
    assert_eq!(queue.pop(), Some(twin));
    assert_eq!(queue.pop(), None);
}

#[test]
fn max_len_is_a_quarter_of_the_word() {
    assert_eq!(WorkQueue::max_len(), usize::MAX / 4);
}
