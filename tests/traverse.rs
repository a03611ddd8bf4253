use para_dt::key::ReorderKey;
use para_dt::options::test_option;
use para_dt::traverse::{
    postproc_bytes, task_disposition, Disposition, PumpStep, Task, TaskPostProc, TraverseState,
    Traverser,
};

fn show(s: &str) -> TaskPostProc {
    TaskPostProc::Show(s.as_bytes().to_vec())
}

fn shown(v: Vec<TaskPostProc>) -> Vec<String> {
    v.into_iter()
        .map(|t| String::from_utf8(postproc_bytes(t)).unwrap())
        .collect()
}

#[test]
fn show_writes_path_and_newline() {
    assert_eq!(postproc_bytes(show("root/a")), b"root/a\n".to_vec());
    assert_eq!(postproc_bytes(show("")), b"\n".to_vec());
}

#[test]
fn empty_state_pumps_to_idle() {
    let mut st: TraverseState<u32> = TraverseState::new();
    assert!(st.head_pred().is_none());
    match st.pump(false) {
        PumpStep::Idle { actions } => assert!(actions.is_empty()),
        _ => panic!("expected idle"),
    }
}

#[test]
fn actions_wait_for_predecessor() {
    let mut st: TraverseState<u32> = TraverseState::new();
    st.begin_task(7, ReorderKey::root());
    assert_eq!(st.current_pred(), Some(&7));
    assert!(st.push_postproc(show("a"), false).is_empty());
    assert!(st.push_postproc(show("b"), false).is_empty());
    assert!(matches!(st.pump(false), PumpStep::Blocked));
    // predecessor done: the earlier actions come out first, in order
    let out = st.push_postproc(show("c"), true);
    assert_eq!(shown(out), vec!["a\n", "b\n", "c\n"]);
}

#[test]
fn live_frame_flushes_but_stays() {
    let mut st: TraverseState<u32> = TraverseState::new();
    st.begin_task(1, ReorderKey::root());
    st.push_postproc(show("x"), false);
    match st.pump(true) {
        PumpStep::Idle { actions } => assert_eq!(shown(actions), vec!["x\n"]),
        _ => panic!("expected idle"),
    }
    assert_eq!(st.pendings.len(), 1);
    assert!(st.find_current().is_some());
}

#[test]
fn finished_frame_releases_successor_after_actions() {
    let mut st: TraverseState<u32> = TraverseState::new();
    st.begin_task(1, ReorderKey::root());
    st.push_postproc(show("x"), false);
    st.finish_task(2);
    assert!(st.find_current().is_none());
    assert!(matches!(st.pump(false), PumpStep::Blocked));
    match st.pump(true) {
        PumpStep::Released { actions, succ } => {
            assert_eq!(shown(actions), vec!["x\n"]);
            assert_eq!(succ, Some(2));
        }
        _ => panic!("expected a released batch"),
    }
    assert!(st.pendings.is_empty());
}

#[test]
fn gen_chain_splices_child_between_frames() {
    let mut st: TraverseState<u32> = TraverseState::new();
    st.begin_task(1, ReorderKey::root());
    assert!(st.can_hand_off());
    let child = st.gen_chain(10, 11);
    assert_eq!(child.0, vec![1, 0]);
    assert_eq!(st.current_key.0, vec![2]);
    assert_eq!(st.pendings.len(), 2);
    // old frame: key [0], now bound to the child's predecessor
    assert_eq!(st.pendings[0].key.0, vec![0]);
    assert!(!st.pendings[0].current);
    assert_eq!(st.pendings[0].succ, Some(10));
    // new live frame: key [1], waiting for the child's successor
    assert_eq!(st.pendings[1].key.0, vec![1]);
    assert!(st.pendings[1].current);
    assert_eq!(st.pendings[1].pred, 11);
    assert_eq!(st.current_pred(), Some(&11));
}

#[test]
fn descendant_task_is_drained_before_waiting_frame() {
    // a worker holds a waiting continuation [1] and then accepts a task
    // keyed [1, 1, 0] from a deeper hand-off: the latter sorts first
    let mut st: TraverseState<u32> = TraverseState::new();
    st.begin_task(1, ReorderKey::root());
    let _ = st.gen_chain(10, 11);
    st.finish_task(12);
    st.begin_task(20, ReorderKey(vec![1, 1, 0]));
    let keys: Vec<Vec<usize>> = st.pendings.iter().map(|e| e.key.0.clone()).collect();
    assert_eq!(keys, vec![vec![0], vec![1, 1, 0], vec![1]]);
    assert_eq!(st.current_key.0, vec![1, 1, 1]);
}

#[test]
fn pass_through_keeps_chain() {
    let mut st: TraverseState<u32> = TraverseState::new();
    st.pass_through(5, ReorderKey::root(), 6);
    assert!(st.find_current().is_none());
    match st.pump(true) {
        PumpStep::Released { actions, succ } => {
            assert!(actions.is_empty());
            assert_eq!(succ, Some(6));
        }
        _ => panic!("expected a released batch"),
    }
}

#[test]
fn disposition_follows_failure() {
    let t: Task<(), u32> = Task::ReadDir {
        parent_dir: None,
        path: b"a".to_vec(),
        dep_pred: 0,
        dep_succ: 1,
        key: ReorderKey::root(),
    };
    assert_eq!(task_disposition(&t, false), Disposition::Run);
    assert_eq!(task_disposition(&t, true), Disposition::PassThrough);
    let q: Task<(), u32> = Task::Quit;
    assert_eq!(task_disposition(&q, false), Disposition::Quit);
    assert_eq!(task_disposition(&q, true), Disposition::Quit);
}

#[test]
fn root_task_starts_at_source() {
    let t = Traverser {
        opt: test_option("root"),
    };
    match t.root_task::<(), u32>(3, 4) {
        Task::ReadDir {
            parent_dir,
            path,
            dep_pred,
            dep_succ,
            key,
        } => {
            assert!(parent_dir.is_none());
            assert_eq!(path, b"root".to_vec());
            assert_eq!((dep_pred, dep_succ), (3, 4));
            assert_eq!(key.0, vec![0]);
        }
        Task::Quit => panic!("expected a directory task"),
    }
}

#[test]
fn equal_keys_are_both_kept() {
    let mut st: TraverseState<u32> = TraverseState::new();
    st.pass_through(1, ReorderKey(vec![3]), 2);
    st.pass_through(5, ReorderKey(vec![3]), 6);
    assert_eq!(st.pendings.len(), 2);
    // the later insertion goes after the equal key
    assert_eq!(st.pendings[0].pred, 1);
    assert_eq!(st.pendings[1].pred, 5);
}

#[test]
fn pending_set_stays_sorted() {
    let mut st: TraverseState<u32> = TraverseState::new();
    st.pass_through(1, ReorderKey(vec![2]), 2);
    st.pass_through(3, ReorderKey(vec![0]), 4);
    st.pass_through(5, ReorderKey(vec![1, 4]), 6);
    st.pass_through(7, ReorderKey(vec![1]), 8);
    let keys: Vec<Vec<usize>> = st.pendings.iter().map(|e| e.key.0.clone()).collect();
    assert_eq!(keys, vec![vec![0], vec![1, 4], vec![1], vec![2]]);
}
