use para_dt::options::{test_option, Method, Order};

#[test]
fn test_option_defaults() {
    let o = test_option(".");
    assert_eq!(o.src_path, b".".to_vec());
    assert_eq!(o.readdir_dirent_buffer_size, 64);
    assert_eq!(o.max_ioreq_depth, 32);
    assert!(!o.follow_symlink);
    assert_eq!(o.order, Order::Unordered);
    assert_eq!(o.num_threads, 1);
    assert_eq!(o.method, Method::List);
    assert!(o.ignore_eaccess);
}

#[test]
fn only_list_records_entries() {
    assert!(Method::List.records_entries());
    assert!(!Method::DryRun.records_entries());
    assert!(!Method::DU { count_inode: true }.records_entries());
    assert!(!Method::DumpSTAT { get_xattr: false }.records_entries());
}
