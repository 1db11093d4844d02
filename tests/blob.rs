use directxtex::blob::Blob;
use directxtex::error::HResultError;

#[test]
fn trim_keeps_allocation() {
    let mut b = Blob::default();
    b.initialize(32).unwrap();
    assert_eq!(b.get_buffer_size(), 32);
    assert!(b.get_buffer().iter().all(|x| *x == 0));
    let before = b.get_buffer().as_ptr();
    b.trim(10).unwrap();
    assert_eq!(b.get_buffer_size(), 10);
    assert_eq!(b.get_buffer().as_ptr(), before);
    assert_eq!(b.trim(11), Err(HResultError::InvalidArgument));
    assert_eq!(b.trim(0), Err(HResultError::InvalidArgument));
    assert_eq!(b.get_buffer_size(), 10);
}

#[test]
fn resize_preserves_prefix() {
    let mut b = Blob::default();
    b.initialize(4).unwrap();
    b.resize(2).unwrap();
    assert_eq!(b.get_buffer(), &[0u8, 0][..]);
    b.resize(64).unwrap();
    assert_eq!(b.get_buffer_size(), 64);
    assert_eq!(b.resize(0), Err(HResultError::InvalidArgument));
    b.release();
    assert_eq!(b.get_buffer_size(), 0);
    assert_eq!(b.resize(8), Err(HResultError::InvalidArgument));
}

#[test]
fn blob_initialize_errors() {
    let mut b = Blob::default();
    assert_eq!(b.initialize(0), Err(HResultError::InvalidArgument));
    assert_eq!(b.initialize(usize::MAX), Err(HResultError::OutOfMemory));
    assert_eq!(b.get_buffer_size(), 0);
}
