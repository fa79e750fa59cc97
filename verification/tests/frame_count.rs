use smugdancer::animation_info::{read_frame_count, CommandOutput, FrameCountError};
use smugdancer::config::{FrameCountSource, PATH};

fn output(success: bool, stdout: &str) -> CommandOutput {
    CommandOutput { success, stdout: stdout.to_string() }
}

#[test]
fn config_path() {
    assert_eq!(PATH, "smugdancer.toml");
}

#[test]
fn hardcoded_count_needs_no_command() {
    let source = FrameCountSource::Hardcoded { hardcoded: 720 };
    assert_eq!(source.hardcoded(), Some(720));
    assert_eq!(source.resolve(&output(false, "")), Ok(720));
    assert_eq!(source.resolve(&output(true, "12")), Ok(720));
}

#[test]
fn command_output_is_trimmed_and_read() {
    let source = FrameCountSource::Command {
        command: "giffel".to_string(),
        flags: vec!["stat".to_string(), "a.giffel".to_string(), "frame-count".to_string()],
    };
    assert_eq!(source.hardcoded(), None);
    assert_eq!(source.resolve(&output(true, "720\n")), Ok(720));
    assert_eq!(source.resolve(&output(true, "  +12 \t")), Ok(12));
}

#[test]
fn failed_command_gives_no_count() {
    assert_eq!(read_frame_count(&output(false, "720\n")), Err(FrameCountError::NonZeroExit));
}

#[test]
fn output_that_is_no_number_gives_no_count() {
    assert_eq!(read_frame_count(&output(true, "")), Err(FrameCountError::NotANumber));
    assert_eq!(read_frame_count(&output(true, "\n")), Err(FrameCountError::NotANumber));
    assert_eq!(read_frame_count(&output(true, "7 20")), Err(FrameCountError::NotANumber));
    assert_eq!(read_frame_count(&output(true, "-1")), Err(FrameCountError::NotANumber));
    assert_eq!(read_frame_count(&output(true, "frames: 720")), Err(FrameCountError::NotANumber));
    assert_eq!(
        read_frame_count(&output(true, "99999999999999999999999999")),
        Err(FrameCountError::NotANumber)
    );
}

#[test]
fn good_output_gives_the_count() {
    assert_eq!(read_frame_count(&output(true, "720")), Ok(720));
    assert_eq!(read_frame_count(&output(true, "0\n")), Ok(0));
}
