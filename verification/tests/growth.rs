use kete::growth::{
    device_blocks, put_growing, put_grown, put_retried, unix_now, AfterGrow, AfterPut, PutReply,
};

fn full(tract_blocks: u64) -> PutReply {
    PutReply::TractFull { tract_blocks, message: "tract full".to_string() }
}

#[test]
fn a_stored_value_is_the_end_of_it() {
    assert!(matches!(put_growing(PutReply::Stored), AfterPut::Finished(Ok(()))));
}

#[test]
fn other_failures_are_final() {
    match put_growing(PutReply::Failed { message: "corrupt: x".to_string() }) {
        AfterPut::Finished(r) => assert_eq!(r, Err("corrupt: x".to_string())),
        AfterPut::Grow { .. } => panic!("nothing is full"),
    }
}

#[test]
fn a_full_tract_doubles() {
    for (blocks, target) in [(4096, 8192), (1, 2), (1 << 63, u64::MAX), (u64::MAX, u64::MAX)] {
        match put_growing(full(blocks)) {
            AfterPut::Grow { target_blocks } => assert_eq!(target_blocks, target),
            AfterPut::Finished(_) => panic!("a full tract grows"),
        }
    }
}

#[test]
fn a_failed_growth_says_so() {
    match put_grown(Err("block 7 out of device bounds".to_string())) {
        AfterGrow::Finished(r) => {
            assert_eq!(r, Err("vault grow: block 7 out of device bounds".to_string()))
        }
        AfterGrow::Retry => panic!("nothing grew"),
    }
    assert!(matches!(put_grown(Ok(())), AfterGrow::Retry));
}

#[test]
fn nothing_is_tried_a_third_time() {
    assert_eq!(put_retried(PutReply::Stored), Ok(()));
    assert_eq!(put_retried(full(8192)), Err("tract full".to_string()));
    assert_eq!(
        put_retried(PutReply::Failed { message: "seal".to_string() }),
        Err("seal".to_string())
    );
}

#[test]
fn a_fresh_ring_has_spine_and_tract() {
    assert_eq!(device_blocks(0), 4097);
    assert_eq!(device_blocks(8), 256 + 4096);
    assert_eq!(device_blocks(63), (1 << 63) + 4096);
}

#[test]
fn the_clock_reads_seconds() {
    assert_eq!(unix_now(Some(1_700_000_000)), 1_700_000_000);
    assert_eq!(unix_now(None), 0);
}
