use para_dt::error::{
    maybe_generic_io_error, maybe_open_dir_error, maybe_readdir_error, E, EACCES,
};
use para_dt::options::test_option;

#[test]
fn open_error_carries_path_and_code() {
    match maybe_open_dir_error::<u8>(b"root/x", Err(2)) {
        Err(E::OpenDirError { path, eno }) => {
            assert_eq!(path, b"root/x".to_vec());
            assert_eq!(eno, 2);
        }
        _ => panic!("expected an open error"),
    }
    assert!(matches!(maybe_open_dir_error(b"root", Ok(7u8)), Ok(7)));
}

#[test]
fn readdir_error_carries_position() {
    match maybe_readdir_error::<u8>(b"root", 3, Err(5)) {
        Err(E::ReadDirError {
            dirpath,
            entry_pos,
            eno,
        }) => {
            assert_eq!(dirpath, b"root".to_vec());
            assert_eq!(entry_pos, 3);
            assert_eq!(eno, 5);
        }
        _ => panic!("expected a readdir error"),
    }
    assert!(matches!(maybe_readdir_error(b"root", 0, Ok(1u8)), Ok(1)));
}

#[test]
fn io_error_is_wrapped() {
    let e = std::io::Error::new(std::io::ErrorKind::BrokenPipe, "closed");
    match maybe_generic_io_error::<()>(Err(e)) {
        Err(E::GenericIOError { eno }) => assert_eq!(eno.kind(), std::io::ErrorKind::BrokenPipe),
        _ => panic!("expected an io error"),
    }
    assert!(matches!(maybe_generic_io_error(Ok(3u8)), Ok(3)));
}

#[test]
fn only_permission_denied_open_is_ignorable_when_asked() {
    let mut opts = test_option("root");
    let denied = E::OpenDirError {
        path: b"root/d".to_vec(),
        eno: EACCES,
    };
    let missing = E::OpenDirError {
        path: b"root/d".to_vec(),
        eno: 2,
    };
    let read = E::ReadDirError {
        dirpath: b"root".to_vec(),
        entry_pos: 0,
        eno: EACCES,
    };
    assert!(denied.is_ignorable_error(&opts));
    assert!(!missing.is_ignorable_error(&opts));
    assert!(!read.is_ignorable_error(&opts));
    opts.ignore_eaccess = false;
    assert!(!denied.is_ignorable_error(&opts));
}
