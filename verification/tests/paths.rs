use cycler_core::io::{AdditionalOutput, MainOutput};
use cycler_core::path::{Path, PathSegment};
use cycler_core::stages::{
    BallDetection, CenterOfMassProvider, FakeData, HeadMotion, MicrophoneRecorder,
    ObstacleFilter, OrientationFilter, WalkManager,
};

#[test]
fn segments_parse_their_markers() {
    let plain = PathSegment::parse("head");
    assert_eq!(plain.name, "head");
    assert!(!plain.is_optional);
    assert!(!plain.is_variable);

    let optional = PathSegment::parse("head?");
    assert_eq!(optional.name, "head");
    assert!(optional.is_optional);
    assert!(!optional.is_variable);

    let variable = PathSegment::parse("$cycler_instance");
    assert_eq!(variable.name, "cycler_instance");
    assert!(!variable.is_optional);
    assert!(variable.is_variable);

    let both = PathSegment::parse("$cycler_instance?");
    assert_eq!(both.name, "cycler_instance");
    assert!(both.is_optional);
    assert!(both.is_variable);

    let empty = PathSegment::parse("");
    assert_eq!(empty.name, "");
    assert!(!empty.is_optional);
    assert!(!empty.is_variable);
}

#[test]
fn dotted_paths_parse_into_segments() {
    let path = Path::parse("a.b?.$cycler_instance.c");
    assert_eq!(path.segments.len(), 4);
    assert_eq!(path.segments[0].name, "a");
    assert_eq!(path.segments[1].name, "b");
    assert!(path.segments[1].is_optional);
    assert_eq!(path.segments[2].name, "cycler_instance");
    assert!(path.segments[2].is_variable);
    assert_eq!(path.segments[3].name, "c");

    let single = Path::parse("sensor_data");
    assert_eq!(single.segments.len(), 1);
    assert_eq!(single.segments[0].name, "sensor_data");

    let empty = Path::parse("");
    assert_eq!(empty.segments.len(), 1);
    assert_eq!(empty.segments[0].name, "");
}

#[test]
fn paths_report_their_markers() {
    let path = Path {
        segments: vec![
            PathSegment::parse("a"),
            PathSegment::parse("b?"),
            PathSegment::parse("c"),
        ],
    };
    assert!(!path.contains_variable());
    assert!(path.contains_optional());

    let with_variable = Path {
        segments: vec![PathSegment::parse("$cycler_instance"), PathSegment::parse("b")],
    };
    assert!(with_variable.contains_variable());
    assert!(!with_variable.contains_optional());
}

#[test]
fn variable_free_paths_expand_to_themselves() {
    let path = Path {
        segments: vec![PathSegment::parse("a"), PathSegment::parse("b?")],
    };
    let instances = vec!["VisionTop".to_string(), "VisionBottom".to_string()];
    let expanded = path.expand_variables(&instances);
    assert_eq!(expanded.len(), 1);
    assert_eq!(expanded[0], path);
}

#[test]
fn variable_paths_expand_once_per_instance() {
    let path = Path {
        segments: vec![
            PathSegment::parse("$cycler_instance?"),
            PathSegment::parse("image"),
        ],
    };
    let instances = vec!["VisionTop".to_string(), "VisionBottom".to_string()];
    let expanded = path.expand_variables(&instances);
    assert_eq!(expanded.len(), 2);

    assert_eq!(expanded[0].segments[0].name, "VisionTop");
    assert!(expanded[0].segments[0].is_optional);
    assert!(!expanded[0].segments[0].is_variable);
    assert_eq!(expanded[0].segments[1].name, "image");

    assert_eq!(expanded[1].segments[0].name, "VisionBottom");
    assert!(expanded[1].segments[0].is_optional);
    assert!(!expanded[1].segments[0].is_variable);
    assert_eq!(expanded[1].segments[1].name, "image");
}

#[test]
fn stage_shells_complete_their_cycles() {
    assert!(MicrophoneRecorder::new().cycle());
    assert!(CenterOfMassProvider::new().cycle());
    assert!(FakeData::new().cycle());
    assert!(HeadMotion::new().cycle());
    assert!(WalkManager::new().cycle());
    assert!(ObstacleFilter::new().cycle());
    assert!(OrientationFilter::new().cycle());
    assert!(BallDetection::new().cycle());
}

#[test]
fn additional_outputs_record_only_when_subscribed() {
    let mut subscribed: AdditionalOutput<u32> = AdditionalOutput::new(true);
    assert!(subscribed.is_subscribed());
    subscribed.fill(5);
    assert_eq!(subscribed.take(), Some(5));
    assert_eq!(subscribed.take(), None);

    let mut silent: AdditionalOutput<u32> = AdditionalOutput::new(false);
    assert!(!silent.is_subscribed());
    silent.fill(5);
    assert_eq!(silent.take(), None);
}

#[test]
fn main_outputs_wrap_their_value() {
    let output: MainOutput<u8> = MainOutput::from(3);
    assert_eq!(output.value, 3);
}
