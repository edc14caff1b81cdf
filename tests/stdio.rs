use minion::error::Error;
use minion::options::{InputSpecification, OutputSpecification};
use minion::stdio::{input_plan, output_plan, parent_keeps_end, pipe_ends, StdioPlan, EINVAL};

#[test]
fn sized_buffer_is_sealed_at_its_size() {
    assert_eq!(output_plan(OutputSpecification::Buffer(Some(4))), Ok(StdioPlan::MemFd { size: Some(4) }));
}

#[test]
fn unsized_buffer_is_not_sealed() {
    assert_eq!(output_plan(OutputSpecification::Buffer(None)), Ok(StdioPlan::MemFd { size: None }));
}

#[test]
fn buffer_too_large_fails_like_ftruncate() {
    assert_eq!(
        output_plan(OutputSpecification::Buffer(Some(u64::MAX))),
        Err(Error::System { code: EINVAL })
    );
    assert_eq!(
        output_plan(OutputSpecification::Buffer(Some(i64::MAX as u64))),
        Ok(StdioPlan::MemFd { size: Some(i64::MAX) })
    );
}

#[test]
fn output_plans() {
    assert_eq!(output_plan(OutputSpecification::Null), Ok(StdioPlan::Closed));
    assert_eq!(output_plan(OutputSpecification::Handle(5)), Ok(StdioPlan::Inherit(5)));
    assert_eq!(output_plan(OutputSpecification::Pipe), Ok(StdioPlan::Pipe { parent_keeps_write: false }));
    assert_eq!(output_plan(OutputSpecification::Ignore), Ok(StdioPlan::NullDevice { writable: true }));
}

#[test]
fn input_plans() {
    assert_eq!(input_plan(InputSpecification::Pipe), StdioPlan::Pipe { parent_keeps_write: true });
    assert_eq!(input_plan(InputSpecification::Handle(7)), StdioPlan::Inherit(7));
    assert_eq!(input_plan(InputSpecification::Empty), StdioPlan::NullDevice { writable: false });
    assert_eq!(input_plan(InputSpecification::Null), StdioPlan::Closed);
}

#[test]
fn handle_is_taken_as_c_int() {
    assert_eq!(input_plan(InputSpecification::handle(0x1_0000_0003)), StdioPlan::Inherit(3));
    assert_eq!(output_plan(OutputSpecification::handle(u64::MAX)), Ok(StdioPlan::Inherit(-1)));
}

#[test]
fn pipe_end_routing() {
    assert_eq!(pipe_ends(true, 3, 4), (4, 3));
    assert_eq!(pipe_ends(false, 3, 4), (3, 4));
}

#[test]
fn parent_keeps_an_end_of_pipes_and_buffers() {
    assert!(parent_keeps_end(input_plan(InputSpecification::Pipe)));
    assert!(!parent_keeps_end(input_plan(InputSpecification::Empty)));
    assert!(!parent_keeps_end(input_plan(InputSpecification::Null)));
    assert!(!parent_keeps_end(input_plan(InputSpecification::Handle(3))));
    assert!(parent_keeps_end(output_plan(OutputSpecification::Pipe).unwrap()));
    assert!(parent_keeps_end(output_plan(OutputSpecification::Buffer(Some(4))).unwrap()));
    assert!(parent_keeps_end(output_plan(OutputSpecification::Buffer(None)).unwrap()));
    assert!(!parent_keeps_end(output_plan(OutputSpecification::Ignore).unwrap()));
    assert!(!parent_keeps_end(output_plan(OutputSpecification::Null).unwrap()));
}
