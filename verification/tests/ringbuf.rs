use digger::RingBuffer;

#[test]
fn test_ringbuffer_capacity() {
    let mut rb = RingBuffer::new(3);
    rb.push(1);
    rb.push(2);
    rb.push(3);
    assert_eq!(rb.len(), 3);
    rb.push(4);
    assert_eq!(rb.len(), 3);
    let items: Vec<i32> = rb.iter().clone();
    assert_eq!(items, vec![2, 3, 4]);
}

#[test]
fn test_ringbuffer_empty() {
    let rb: RingBuffer<i32> = RingBuffer::new(5);
    assert_eq!(rb.len(), 0);
    assert_eq!(rb.iter().len(), 0);
}

#[test]
fn test_ringbuffer_zero_capacity() {
    let mut rb: RingBuffer<i32> = RingBuffer::new(0);
    rb.push(1);
    rb.push(2);
    assert_eq!(rb.len(), 0);
}

#[test]
fn test_ringbuffer_keeps_last() {
    let mut rb = RingBuffer::new(2);
    for i in 0..10 {
        rb.push(i);
        let expect = if i == 0 { 1 } else { 2 };
        assert_eq!(rb.len(), expect);
    }
    assert_eq!(rb.iter().clone(), vec![8, 9]);
}
