use run_in_roblox::message::{OutputLevel, RobloxMessage};
use run_in_roblox::relay::{format_target, sink_level, OutputRelay, SinkLevel};

fn line(level: OutputLevel, body: &str, server: &str) -> RobloxMessage {
    RobloxMessage::Output { level, body: body.to_string(), server: server.to_string() }
}

#[test]
fn exit_code_stays_zero_without_script_error() {
    let mut relay = OutputRelay::new();
    assert_eq!(relay.exit_code(), 0);
    relay.observe(&line(OutputLevel::Print, "hello", "srv1234"));
    relay.observe(&line(OutputLevel::Info, "note", "srv1234"));
    relay.observe(&line(OutputLevel::Warning, "careful", "srv1234"));
    relay.observe(&line(OutputLevel::Error, "bad but not a script error", "srv1234"));
    assert_eq!(relay.exit_code(), 0);
}

#[test]
fn exit_code_latches_to_one_on_script_error() {
    let mut relay = OutputRelay::new();
    relay.observe(&line(OutputLevel::Print, "hello", "srv1234"));
    relay.observe(&line(OutputLevel::ScriptError, "boom", "srv1234"));
    assert_eq!(relay.exit_code(), 1);
    relay.observe(&line(OutputLevel::Print, "still going", "srv1234"));
    relay.observe(&line(OutputLevel::Info, "fine now", "srv1234"));
    assert_eq!(relay.exit_code(), 1);
}

#[test]
fn observe_all_folds_a_whole_batch() {
    let mut relay = OutputRelay::new();
    let batch = vec![
        line(OutputLevel::Print, "a", "srv1234"),
        line(OutputLevel::ScriptError, "b", "srv1234"),
        line(OutputLevel::Print, "c", "srv1234"),
    ];
    relay.observe_all(&batch);
    assert_eq!(relay.exit_code(), 1);

    let mut quiet = OutputRelay::new();
    let calm = vec![line(OutputLevel::Print, "a", "srv1234"), line(OutputLevel::Warning, "b", "srv1234")];
    quiet.observe_all(&calm);
    assert_eq!(quiet.exit_code(), 0);
}

#[test]
fn severity_maps_to_sink_levels() {
    assert_eq!(sink_level(OutputLevel::Print), SinkLevel::Informational);
    assert_eq!(sink_level(OutputLevel::Info), SinkLevel::Informational);
    assert_eq!(sink_level(OutputLevel::Warning), SinkLevel::Warning);
    assert_eq!(sink_level(OutputLevel::Error), SinkLevel::Error);
    assert_eq!(sink_level(OutputLevel::ScriptError), SinkLevel::Error);
}

#[test]
fn target_tag_takes_first_seven_characters() {
    assert_eq!(format_target("abc1234defgh"), "studio-abc1234");
    assert_eq!(format_target("abcdefg"), "studio-abcdefg");
}

#[test]
fn target_tag_counts_characters_not_bytes() {
    assert_eq!(format_target("servers-one"), "studio-servers");
    assert_eq!(format_target("служба-x"), "studio-служба-");
}
