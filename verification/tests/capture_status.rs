use sonorant::platform::linux::{stream_status, target_label, StreamPhase, Target};
use sonorant::source::SourceStatus;

#[test]
fn a_target_is_named_as_the_status_line_reads_it() {
    assert_eq!(target_label(&Target::WholeSystem), "Whole system");
    assert_eq!(
        target_label(&Target::Node { serial: 7, name: "Firefox".to_string() }),
        "Firefox only"
    );
}

#[test]
fn each_stream_state_has_its_status() {
    let running = "Whole system · 48 kHz".to_string();
    assert_eq!(
        stream_status(StreamPhase::Streaming, running.clone()),
        (SourceStatus::Running(running.clone()), Some(true))
    );
    assert_eq!(
        stream_status(StreamPhase::Error("gone".to_string()), running.clone()),
        (SourceStatus::Failed("gone".to_string()), Some(false))
    );
    assert_eq!(stream_status(StreamPhase::Unconnected, running.clone()), (SourceStatus::NoDevice, Some(false)));
    assert_eq!(stream_status(StreamPhase::Paused, running.clone()), (SourceStatus::Suspended, Some(false)));
    assert_eq!(stream_status(StreamPhase::Connecting, running), (SourceStatus::Starting, None));
}
