use asupersync::compat::io::{AsupersyncIo, TokioIo};
use asupersync::compat::io::read_buf::bridge_note;
use asupersync::compat::hyper_bridge::{AsupersyncExecutor, AsupersyncTimer};

#[test]
fn tokio_io_wraps_and_unwraps() {
    let data: Vec<u8> = Vec::new();
    let wrapped = TokioIo::new(data);
    assert!(wrapped.inner().is_empty());
    let unwrapped = wrapped.into_inner();
    assert!(unwrapped.is_empty());
}

#[test]
fn asupersync_io_wraps_and_unwraps() {
    let data: Vec<u8> = Vec::new();
    let wrapped = AsupersyncIo::new(data);
    assert!(wrapped.inner().is_empty());
    let unwrapped = wrapped.into_inner();
    assert!(unwrapped.is_empty());
}

#[test]
fn inner_mut_edits_the_wrapped_value() {
    let mut wrapped = TokioIo::new(vec![1u8]);
    wrapped.inner_mut().push(2);
    assert_eq!(wrapped.into_inner(), vec![1u8, 2]);
    let mut other = AsupersyncIo::new(vec![7u8]);
    other.inner_mut().clear();
    assert!(other.into_inner().is_empty());
}

#[test]
fn bridge_handles_construct() {
    let _executor = AsupersyncExecutor::new();
    let _timer = AsupersyncTimer::default();
    assert!(bridge_note().contains("ReadBuf"));
}
