use flask_app_builder::progress::{init_progress, Status};

#[test]
fn initial_record_is_idle() {
    let p = init_progress();
    assert_eq!(p.status, Status::Idle);
    assert_eq!(p.status.text(), "idle");
    assert_eq!(p.iteration, 0);
    assert_eq!(p.max_iteration, 50);
    assert_eq!(p.output, "");
    assert!(!p.completed);
}

#[test]
fn reset_zeroes_every_field() {
    let mut p = init_progress();
    p.begin(9);
    p.advance(3, "three\n");
    p.reset();
    assert_eq!(p.status, Status::Idle);
    assert_eq!(p.iteration, 0);
    assert_eq!(p.max_iteration, 0);
    assert_eq!(p.output, "");
    assert!(!p.completed);
}

#[test]
fn begin_clears_log_and_sets_bound() {
    let mut p = init_progress();
    p.fail("leftover\n");
    p.begin(9);
    assert_eq!(p.status, Status::Running);
    assert_eq!(p.status.text(), "running");
    assert_eq!(p.iteration, 0);
    assert_eq!(p.max_iteration, 9);
    assert_eq!(p.output, "");
    assert!(!p.completed);
}

#[test]
fn advance_moves_counter_and_appends() {
    let mut p = init_progress();
    p.begin(9);
    p.advance(1, "one\n");
    p.advance(2, "two\n");
    assert_eq!(p.iteration, 2);
    assert_eq!(p.output, "one\ntwo\n");
    assert_eq!(p.status, Status::Running);
    assert!(!p.completed);
}

#[test]
fn fail_only_appends() {
    let mut p = init_progress();
    p.begin(9);
    p.advance(4, "four\n");
    p.fail("oops\n");
    assert_eq!(p.iteration, 4);
    assert_eq!(p.max_iteration, 9);
    assert_eq!(p.output, "four\noops\n");
    assert_eq!(p.status, Status::Running);
    assert!(!p.completed);
}

#[test]
fn finish_completes_and_keeps_counter() {
    let mut p = init_progress();
    p.begin(9);
    p.advance(9, "nine\n");
    p.finish("done");
    assert_eq!(p.status, Status::Completed);
    assert_eq!(p.status.text(), "completed");
    assert!(p.completed);
    assert_eq!(p.iteration, 9);
    assert_eq!(p.output, "nine\ndone");
}

#[test]
fn snapshot_copies_the_record() {
    let mut p = init_progress();
    p.begin(9);
    p.advance(2, "msg\n");
    let s = p.snapshot();
    assert_eq!(s.status, p.status);
    assert_eq!(s.iteration, p.iteration);
    assert_eq!(s.max_iteration, p.max_iteration);
    assert_eq!(s.output, p.output);
    assert_eq!(s.completed, p.completed);
    // Mutating the original afterwards leaves the snapshot as it was.
    p.fail("later\n");
    assert_eq!(s.output, "msg\n");
}
