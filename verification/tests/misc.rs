use musing::config::{CliOptions, Config, ServerConfig, DEFAULT_PORT};
use musing::model::decoder::{DecoderState, DecoderStep, PacketOutcome, PlaybackTimer, RequestKind, Seek, Speed, Volume};
use musing::model::json::Json;
use musing::model::tag_key::TagKey;
use musing::playback::{Devices, PlaybackState, ToggleAction};
use musing::server::{frame, message_len, welcome, Server};

const TAGS: [&str; 30] = [
    "producer", "composer", "mood", "tracktitle", "date", "tracknumber", "disctotal", "album", "language", "discnumber", "sorttracktitle", "script", "sortcomposer", "lyricist", "sortalbum", "sortalbumartist", "parttotal", "conductor", "movementname", "sortartist", "part", "genre", "artist", "movementnumber", "arranger", "albumartist", "performer", "label", "bpm", "ensemble",
];

#[test]
fn every_tag_name_reads_back() {
    for name in TAGS {
        assert_eq!(TagKey::try_from_name(name).unwrap().name(), name);
    }
    assert_eq!(TagKey::try_from_name("bogus").unwrap_err().to_message(), "invalid tag `bogus`");
}

#[test]
fn volume_is_capped() {
    assert_eq!(Volume::from(150).get(), 100);
    assert_eq!(u8::from(Volume::from(42)), 42);
    assert_eq!(Volume::default().get(), 50);
    assert_eq!(Volume::from(95).changed_by(10).get(), 100);
    assert_eq!(Volume::from(5).changed_by(-10).get(), 0);
    assert_eq!(Volume::from(100).changed_by(127).get(), 100);
    assert_eq!(Volume::from(0).changed_by(-128).get(), 0);
    assert_eq!(Volume::from(50).changed_by(-20).get(), 30);
}

#[test]
fn speed_is_clamped() {
    assert_eq!(Speed::from(10).get(), 25);
    assert_eq!(Speed::from(500).get(), 400);
    assert_eq!(u16::from(Speed::from(100)), 100);
    assert_eq!(Speed::default().get(), 100);
    assert!(Speed::from(30).same_as(&Speed::from(30)));
}

#[test]
fn seeking() {
    assert_eq!(Seek::from_secs(5), Seek::Forwards(5));
    assert_eq!(Seek::from_secs(0), Seek::Backwards(0));
    assert_eq!(Seek::from_secs(-3), Seek::Backwards(3));
    assert_eq!(Seek::from_secs(i64::MIN), Seek::Backwards(1 << 63));
    assert_eq!(Seek::Forwards(10).target(95, Some(100)), 100);
    assert_eq!(Seek::Forwards(10).target(95, None), 105);
    assert_eq!(Seek::Backwards(10).target(5, Some(100)), 0);
    assert_eq!(Seek::Backwards(3).target(5, None), 2);
    assert_eq!(Seek::Forwards(u64::MAX).target(1, None), u64::MAX);
}

#[test]
fn decoder_decisions() {
    assert_eq!(PacketOutcome::Decoded.next_step(), DecoderStep::Continue);
    assert_eq!(PacketOutcome::OtherTrack.next_step(), DecoderStep::Continue);
    assert_eq!(PacketOutcome::DecodeSkipped.next_step(), DecoderStep::Continue);
    assert_eq!(PacketOutcome::ResetRequired.next_step(), DecoderStep::Reset);
    assert_eq!(PacketOutcome::EndOfStream.next_step(), DecoderStep::Finish);
    assert_eq!(PacketOutcome::DecodeFailed.next_step(), DecoderStep::Fail);
    assert_eq!(PacketOutcome::ReadFailed.next_step(), DecoderStep::Fail);
    assert!(DecoderState::default().waits());
    assert!(!DecoderState::Active.waits());
    assert_eq!(DecoderState::Active.after(RequestKind::Pause), (DecoderState::Idle, false));
    assert_eq!(DecoderState::Idle.after(RequestKind::Resume), (DecoderState::Active, false));
    assert_eq!(DecoderState::Active.after(RequestKind::Stop), (DecoderState::Active, true));
    assert_eq!(DecoderState::Idle.after(RequestKind::Timer), (DecoderState::Idle, false));
    assert!(musing::model::decoder::needs_resampler(false, 48000, 44100, &Speed::default(), &Speed::default()));
    assert!(!musing::model::decoder::needs_resampler(false, 44100, 44100, &Speed::default(), &Speed::default()));
    assert!(musing::model::decoder::needs_resampler(true, 44100, 44100, &Speed::from(150), &Speed::default()));
    let t = musing::model::decoder::timer_after_packet(PlaybackTimer { elapsed: 1, duration: 200 }, 7);
    assert_eq!(t, PlaybackTimer { elapsed: 7, duration: 200 });
}

#[test]
fn playback_states() {
    assert_eq!(PlaybackState::default().name(), "stopped");
    assert_eq!(PlaybackState::Playing.name(), "playing");
    assert_eq!(PlaybackState::Paused.name(), "paused");
    assert_eq!(PlaybackState::Playing.toggle_action(), ToggleAction::Pause);
    assert_eq!(PlaybackState::Paused.toggle_action(), ToggleAction::Resume);
    assert_eq!(PlaybackState::Stopped.toggle_action(), ToggleAction::Nothing);
    assert!(PlaybackState::Stopped.is_stopped());
}

#[test]
fn at_least_one_device_stays_enabled() {
    let mut d = Devices::new();
    d.add("pipewire");
    d.add("hdmi");
    assert!(d.contains("hdmi"));
    assert!(!d.contains("usb"));
    d.note_enabled("pipewire");
    assert_eq!(d.disable("pipewire"), Err("at least one device must be enabled".to_string()));
    d.note_enabled("hdmi");
    assert_eq!(d.disable("usb"), Err("device usb not found".to_string()));
    assert_eq!(d.disable("pipewire"), Ok(()));
    assert_eq!(d.list(), vec![("pipewire".to_string(), false), ("hdmi".to_string(), true)]);
    assert_eq!(d.disable("hdmi"), Err("at least one device must be enabled".to_string()));
}

#[test]
fn framing() {
    assert_eq!(frame(b"hi"), vec![0, 0, 0, 2, b'h', b'i']);
    assert_eq!(frame(b""), vec![0, 0, 0, 0]);
    let long = vec![7u8; 300];
    let f = frame(&long);
    assert_eq!(&f[..4], &[0, 0, 1, 44]);
    assert_eq!(message_len([0, 0, 1, 44]), 300);
    assert_eq!(message_len([1, 2, 3, 4]), 0x01020304);
    assert!(matches!(welcome("0.1.0"), Json::Object(ref f) if f.len() == 1 && f[0].0 == "version"));
    assert_eq!(Server::new(ServerConfig { port: 4000 }).port, 4000);
}

fn no_cli() -> CliOptions {
    CliOptions {
        audio_device: None,
        music_dir: None,
        playlist_dir: None,
        config_file: None,
        log_file: None,
        state_file: None,
        port: None,
        log_stderr: false,
    }
}

#[test]
fn config_files_and_the_command_line() {
    assert_eq!(ServerConfig::try_new("port = 3000").unwrap().port, 3000);
    assert_eq!(ServerConfig::try_new("").unwrap().port, DEFAULT_PORT);
    let e = ServerConfig::try_new("port = 70000").unwrap_err();
    assert_eq!(e.to_message(), "out of range integral type conversion attempted");
    assert!(ServerConfig::try_new("port = ").is_err());
    let c = Config::try_from_content("port = 3000\nmusic_dir = \"/m\"").unwrap();
    assert_eq!(c.server_config.port, 3000);
    assert_eq!(c.player_config.music_dir, "/m");
    let mut cli = no_cli();
    cli.port = Some(4000);
    cli.music_dir = Some("/n".into());
    let merged = c.merge_with_cli(cli);
    assert_eq!(merged.server_config.port, 4000);
    assert_eq!(merged.player_config.music_dir, "/n");
    let kept = Config::try_from_content("port = 3000").unwrap().merge_with_cli(no_cli());
    assert_eq!(kept.server_config.port, 3000);
}

#[test]
fn volume_changes_are_clamped() {
    assert_eq!(u8::from(Volume::from(95).changed_by(10)), 100);
    assert_eq!(u8::from(Volume::from(5).changed_by(-10)), 0);
    assert_eq!(u8::from(Volume::from(100).changed_by(127)), 100);
    assert_eq!(u8::from(Volume::from(0).changed_by(-128)), 0);
    assert_eq!(u8::from(Volume::from(40).changed_by(15)), 55);
}

#[test]
fn speed_changes_are_clamped() {
    assert_eq!(u16::from(Speed::from(100).changed_by(50)), 150);
    assert_eq!(u16::from(Speed::from(100).changed_by(-90)), 25);
    assert_eq!(u16::from(Speed::from(390).changed_by(20)), 400);
    assert_eq!(u16::from(Speed::from(400).changed_by(i16::MAX)), 400);
    assert_eq!(u16::from(Speed::from(25).changed_by(i16::MIN)), 25);
}
