use buf_ref_reader::{ByteSource, SliceSource};

#[test]
fn slice_source_never_fails() {
    let mut s = SliceSource::new(b"abc".to_vec());
    assert_eq!(s.pull(2).unwrap(), b"ab".to_vec());
    assert_eq!(s.pull(5).unwrap(), b"c".to_vec());
    assert_eq!(s.pull(5).unwrap(), b"".to_vec());
    assert_eq!(s.pull(0).unwrap(), b"".to_vec());
}
