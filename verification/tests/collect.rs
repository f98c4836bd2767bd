use matmul::collect::Collector;
use matmul::matrix::MsgOutput;
use matmul::MatrixError;

#[test]
fn collector_assembles_all_cells() {
    let mut c = Collector::new(4);
    assert!(!c.is_complete());
    assert!(c.apply(MsgOutput { idx: 2, value: 30 }));
    assert!(c.apply(MsgOutput { idx: 0, value: 10 }));
    assert!(c.apply(MsgOutput { idx: 3, value: 40 }));
    assert!(c.apply(MsgOutput { idx: 1, value: 20 }));
    assert!(c.is_complete());
    let m = c.finish(2, 2).unwrap();
    assert_eq!(*m.entries(), vec![10, 20, 30, 40]);
}

#[test]
fn collector_records_each_cell_once() {
    let mut c = Collector::new(2);
    assert!(c.apply(MsgOutput { idx: 0, value: 1 }));
    assert!(!c.apply(MsgOutput { idx: 0, value: 99 }));
    assert!(c.apply(MsgOutput { idx: 1, value: 2 }));
    let m = c.finish(1, 2).unwrap();
    assert_eq!(*m.entries(), vec![1, 2]);
}

#[test]
fn collector_ignores_out_of_range_index() {
    let mut c = Collector::new(1);
    assert!(!c.apply(MsgOutput { idx: 5, value: 9 }));
    assert!(!c.is_complete());
}

#[test]
fn lost_completion_surfaces_as_worker_unavailable() {
    let mut c = Collector::new(3);
    assert!(c.apply(MsgOutput { idx: 0, value: 1 }));
    assert!(c.apply(MsgOutput { idx: 2, value: 3 }));
    assert!(matches!(c.finish(1, 3), Err(MatrixError::WorkerUnavailable)));
}

#[test]
fn finish_rejects_mismatched_dimensions() {
    let mut c = Collector::new(2);
    assert!(c.apply(MsgOutput { idx: 0, value: 1 }));
    assert!(c.apply(MsgOutput { idx: 1, value: 2 }));
    assert!(matches!(c.finish(2, 2), Err(MatrixError::ConstructionError)));
}
