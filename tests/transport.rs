use roblox_browser::transport::PipeBuffer;

#[test]
fn write_is_partial_when_capacity_is_short() {
    let mut p = PipeBuffer::new(4);
    assert_eq!(p.write(&[1, 2, 3, 4, 5]), 4);
    assert!(p.is_full());
    assert_eq!(p.write(&[5]), 0);
    assert_eq!(p.read(2), vec![1, 2]);
    assert_eq!(p.write(&[5]), 1);
    assert_eq!(p.read(10), vec![3, 4, 5]);
    assert!(p.is_empty());
}

#[test]
fn read_on_empty_gives_nothing() {
    let mut p = PipeBuffer::new(8);
    assert!(p.read(4).is_empty());
    assert_eq!(p.len(), 0);
}
