use kathrikaish::prompt::LineMode;
use kathrikaish::sfx_hooks::{
    command_finish_cue, command_finish_sfx, diagnostic, forward, listing, startup_cue,
    startup_sfx, switch_mode_cue, switch_mode_sfx, AssetCache, AudioFile, AudioStreamState, Cue,
    EntryRead, InitError, PlaybackError, ShrsAudio, DEFAULT_VOLUME, MODERATE_VOLUME,
};
use rodio::Source;

/// A short mono 16-bit PCM file in the RIFF/WAVE layout.
fn wav(samples: &[i16]) -> Vec<u8> {
    let data_len = (samples.len() * 2) as u32;
    let mut bytes = Vec::new();
    bytes.extend_from_slice(b"RIFF");
    bytes.extend_from_slice(&(36 + data_len).to_le_bytes());
    bytes.extend_from_slice(b"WAVE");
    bytes.extend_from_slice(b"fmt ");
    bytes.extend_from_slice(&16u32.to_le_bytes());
    bytes.extend_from_slice(&1u16.to_le_bytes());
    bytes.extend_from_slice(&1u16.to_le_bytes());
    bytes.extend_from_slice(&8000u32.to_le_bytes());
    bytes.extend_from_slice(&16000u32.to_le_bytes());
    bytes.extend_from_slice(&2u16.to_le_bytes());
    bytes.extend_from_slice(&16u16.to_le_bytes());
    bytes.extend_from_slice(b"data");
    bytes.extend_from_slice(&data_len.to_le_bytes());
    for sample in samples {
        bytes.extend_from_slice(&sample.to_le_bytes());
    }
    bytes
}

fn tone(len: usize) -> Vec<u8> {
    let samples: Vec<i16> = (0..len).map(|i| ((i % 64) as i16 - 32) * 256).collect();
    wav(&samples)
}

/// The sound that the bytes decode to, taken whole from the decoder.
fn decode(bytes: Vec<u8>) -> Option<ShrsAudio> {
    let inner = rodio::Decoder::new(std::io::Cursor::new(bytes)).ok()?.buffered();
    let _ = inner.clone().count();
    Some(ShrsAudio { inner })
}

fn file(name: &str, bytes: Vec<u8>) -> AudioFile {
    AudioFile { name: name.to_string(), decoded: decode(bytes) }
}

fn session(files: Vec<AudioFile>) -> AudioStreamState {
    AudioStreamState::new(Some(files), true).expect("the directory and the device are there")
}

fn sound(bytes: Vec<u8>) -> ShrsAudio {
    decode(bytes).expect("a sound")
}

fn all_sounds() -> AudioStreamState {
    session(vec![
        file("meow.wav", tone(400)),
        file("on.wav", tone(300)),
        file("success.wav", tone(200)),
        file("error.wav", tone(100)),
    ])
}

#[test]
fn a_decodable_file_is_cached_under_its_exact_name() {
    let state = session(vec![file("meow.wav", tone(400))]);
    assert!(state.has_sound("meow.wav"));
    assert!(!state.has_sound("Meow.wav"));
    assert!(!state.has_sound("meow"));
    assert!(!state.has_sound("meow.WAV"));
    assert_eq!(state.sound_count(), 1);
}

#[test]
fn a_file_that_does_not_decode_is_left_out() {
    let state = session(vec![
        file("notes.txt", b"these are not samples at all".to_vec()),
        file("meow.wav", tone(400)),
        file("empty.wav", Vec::new()),
        file("error.wav", tone(100)),
    ]);
    assert!(state.has_sound("meow.wav"));
    assert!(state.has_sound("error.wav"));
    assert!(!state.has_sound("notes.txt"));
    assert!(!state.has_sound("empty.wav"));
    assert_eq!(state.sound_count(), 2);
}

#[test]
fn a_directory_of_undecodable_files_still_builds() {
    let cache = AssetCache::build(Some(vec![file("a.bin", vec![0u8; 64]), file("b", vec![1, 2, 3])]));
    let cache = cache.expect("a file that fails to decode stops nothing");
    assert_eq!(cache.len(), 0);
    assert!(!cache.contains("a.bin"));
}

#[test]
fn two_files_of_one_name_leave_one_sound() {
    let state = session(vec![file("meow.wav", tone(400)), file("meow.wav", tone(50))]);
    assert_eq!(state.sound_count(), 1);
    assert!(state.has_sound("meow.wav"));
    let mut state = state;
    state.play_sound("meow.wav", 50).unwrap();
    let queued = state.take_queued();
    assert_eq!(queued[0].sound.inner.clone().count(), 50);
}

#[test]
fn an_unreadable_directory_is_directory_unavailable() {
    assert_eq!(AudioStreamState::new(None, true).err(), Some(InitError::DirectoryUnavailable));
    assert_eq!(AudioStreamState::new(None, false).err(), Some(InitError::DirectoryUnavailable));
    assert_eq!(AssetCache::build(None).err(), Some(InitError::DirectoryUnavailable));
}

#[test]
fn a_missing_device_is_device_unavailable() {
    let made = AudioStreamState::new(Some(vec![file("meow.wav", tone(400))]), false);
    assert_eq!(made.err(), Some(InitError::DeviceUnavailable));
    let made = AudioStreamState::new(Some(Vec::new()), false);
    assert_eq!(made.err(), Some(InitError::DeviceUnavailable));
}

#[test]
fn init_errors_say_what_failed() {
    assert_eq!(InitError::DirectoryUnavailable.message(), "Audio directory unavailable");
    assert_eq!(InitError::DeviceUnavailable.message(), "Audio output device unavailable");
}

#[test]
fn playing_an_unknown_name_is_not_found_and_queues_nothing() {
    let mut state = session(vec![file("meow.wav", tone(400))]);
    let played = state.play_sound("purr.wav", 50);
    assert_eq!(played, Err(PlaybackError::NotFound("purr.wav".to_string())));
    assert_eq!(state.take_queued().len(), 0);
    assert!(state.has_sound("meow.wav"));
}

#[test]
fn playing_a_cached_name_queues_exactly_one_sound() {
    let mut state = session(vec![file("meow.wav", tone(400))]);
    assert_eq!(state.play_sound("meow.wav", 50), Ok(()));
    let queued = state.take_queued();
    assert_eq!(queued.len(), 1);
    assert_eq!(queued[0].name, "meow.wav");
    assert_eq!(queued[0].volume, 50);
    assert_eq!(state.take_queued().len(), 0);
}

#[test]
fn a_queued_sound_is_a_fresh_copy_of_the_cached_one() {
    let mut state = session(vec![file("meow.wav", tone(400))]);
    state.play_sound("meow.wav", 50).unwrap();
    state.play_sound("meow.wav", 50).unwrap();
    let mut queued = state.take_queued();
    let second = queued.pop().unwrap();
    let first = queued.pop().unwrap();
    let first_samples: Vec<_> = first.sound.inner.collect();
    assert_eq!(first_samples.len(), 400);
    let second_samples: Vec<_> = second.sound.inner.collect();
    assert_eq!(second_samples, first_samples);
    state.play_sound("meow.wav", 50).unwrap();
    let third = state.take_queued().pop().unwrap();
    assert_eq!(third.sound.inner.count(), 400);
}

#[test]
fn the_decoded_samples_are_those_of_the_file() {
    let mut state = session(vec![file("step.wav", wav(&[0, 16384, -16384, 32767]))]);
    state.play_sound("step.wav", 100).unwrap();
    let sound = state.take_queued().pop().unwrap().sound.inner;
    let samples: Vec<f32> = sound.map(|s| s as f32).collect();
    assert_eq!(samples.len(), 4);
    assert_eq!(samples[0], 0.0);
    assert!((samples[1] - 0.5).abs() < 0.001);
    assert!((samples[2] + 0.5).abs() < 0.001);
    assert!(samples[3] > 0.99);
}

#[test]
fn the_volume_is_handed_on_as_given() {
    let mut state = session(vec![file("meow.wav", tone(400))]);
    let asked = [0, 1, 30, 50, 100, 101, 150, 250, -1, -25, i32::MAX, i32::MIN];
    for volume in asked {
        assert_eq!(state.play_sound("meow.wav", volume), Ok(()));
    }
    let volumes: Vec<i32> = state.take_queued().iter().map(|p| p.volume).collect();
    assert_eq!(volumes, asked.to_vec());
}

#[test]
fn a_volume_outside_the_scale_is_handled_alike_on_every_call() {
    let mut state = session(vec![file("meow.wav", tone(400))]);
    assert_eq!(state.play_sound("meow.wav", 150), Ok(()));
    assert_eq!(state.play_sound("meow.wav", -25), Ok(()));
    assert_eq!(state.play_sound("meow.wav", 150), Ok(()));
    let queued = state.take_queued();
    assert_eq!(queued.len(), 3);
    let (sink, _output) = rodio::Sink::new();
    let mut set = Vec::new();
    for playback in queued {
        sink.set_volume(playback.volume as f32 / 100.0);
        set.push(sink.volume());
        sink.append(playback.sound.inner);
    }
    assert_eq!(set, vec![1.5, -0.25, 1.5]);
    assert_eq!(sink.len(), 3);
}

#[test]
fn sounds_queue_in_the_order_asked_for() {
    let mut state = all_sounds();
    state.play_sound("error.wav", 30).unwrap();
    state.play_sound("meow.wav", 50).unwrap();
    assert!(state.play_sound("nothing.wav", 50).is_err());
    state.play_sound("success.wav", 30).unwrap();
    let names: Vec<String> = state.take_queued().into_iter().map(|p| p.name).collect();
    assert_eq!(names, vec!["error.wav", "meow.wav", "success.wav"]);
}

#[test]
fn an_unusable_device_is_a_device_error_and_queues_nothing() {
    let mut state = session(vec![file("meow.wav", tone(400))]);
    state.set_device_usable(false);
    assert_eq!(state.play_sound("meow.wav", 50), Err(PlaybackError::DeviceError));
    assert_eq!(state.take_queued().len(), 0);
    assert_eq!(
        state.play_sound("purr.wav", 50),
        Err(PlaybackError::NotFound("purr.wav".to_string()))
    );
}

#[test]
fn a_device_error_leaves_the_session_ready() {
    let mut state = session(vec![file("meow.wav", tone(400))]);
    state.set_device_usable(false);
    assert!(state.play_sound("meow.wav", 50).is_err());
    assert!(state.has_sound("meow.wav"));
    state.set_device_usable(true);
    assert_eq!(state.play_sound("meow.wav", 50), Ok(()));
    assert_eq!(state.take_queued().len(), 1);
}

#[test]
fn startup_chooses_the_greeting_at_the_default_volume() {
    let cue = startup_cue().expect("the greeting always plays");
    assert_eq!(cue.name, "meow.wav");
    assert_eq!(cue.volume, 50);
    assert_eq!(DEFAULT_VOLUME, 50);
}

#[test]
fn a_mode_switch_chooses_the_same_notification_for_both_modes() {
    let to_normal = switch_mode_cue(LineMode::Normal).expect("every switch plays");
    let to_insert = switch_mode_cue(LineMode::Insert).expect("every switch plays");
    assert_eq!(to_normal.name, "on.wav");
    assert_eq!(to_insert.name, "on.wav");
    assert_eq!(to_normal.volume, 50);
    assert_eq!(to_insert.volume, 50);
}

#[test]
fn a_finished_command_chooses_by_exit_status() {
    let failed = command_finish_cue(Some(1), None, None).unwrap();
    assert_eq!(failed.name, "error.wav");
    assert_eq!(failed.volume, 30);
    let succeeded = command_finish_cue(Some(0), None, None).unwrap();
    assert_eq!(succeeded.name, "success.wav");
    assert_eq!(succeeded.volume, 30);
    assert_eq!(MODERATE_VOLUME, 30);
}

#[test]
fn any_other_status_or_none_chooses_the_error_sound() {
    for status in [Some(-1), Some(2), Some(127), Some(255), Some(i32::MIN), Some(i32::MAX), None] {
        let cue = command_finish_cue(status, Some(10), None).unwrap();
        assert_eq!(cue.name, "error.wav");
    }
}

#[test]
fn a_threshold_holds_back_commands_that_do_not_exceed_it() {
    assert!(command_finish_cue(Some(0), Some(2999), Some(3000)).is_none());
    assert!(command_finish_cue(Some(1), Some(3000), Some(3000)).is_none());
    assert!(command_finish_cue(None, Some(0), Some(0)).is_none());
    assert_eq!(command_finish_cue(Some(0), Some(3001), Some(3000)).unwrap().name, "success.wav");
    assert_eq!(command_finish_cue(Some(1), Some(3001), Some(3000)).unwrap().name, "error.wav");
}

#[test]
fn without_a_measured_time_the_threshold_holds_nothing_back() {
    assert_eq!(command_finish_cue(Some(0), None, Some(3000)).unwrap().name, "success.wav");
    assert_eq!(command_finish_cue(Some(9), None, Some(3000)).unwrap().name, "error.wav");
    assert_eq!(command_finish_cue(Some(0), Some(0), None).unwrap().name, "success.wav");
}

#[test]
fn a_lone_greeting_file_plays_at_startup() {
    let state = session(vec![file("meow.wav", tone(400))]);
    assert_eq!(state.sound_count(), 1);
    let mut slot = Some(state);
    assert_eq!(startup_sfx(&mut slot), Ok(()));
    let queued = slot.as_mut().unwrap().take_queued();
    assert_eq!(queued.len(), 1);
    assert_eq!(queued[0].name, "meow.wav");
    assert_eq!(queued[0].volume, DEFAULT_VOLUME);
}

#[test]
fn the_exit_status_selects_the_sound_that_is_queued() {
    let mut slot = Some(all_sounds());
    assert_eq!(command_finish_sfx(&mut slot, Some(1), None, None), Ok(()));
    assert_eq!(command_finish_sfx(&mut slot, Some(0), None, None), Ok(()));
    let queued = slot.as_mut().unwrap().take_queued();
    assert_eq!(queued.len(), 2);
    assert_eq!(queued[0].name, "error.wav");
    assert_eq!(queued[0].volume, 30);
    assert_eq!(queued[1].name, "success.wav");
    assert_eq!(queued[1].volume, 30);
}

#[test]
fn an_empty_directory_makes_every_hook_not_found() {
    let state = session(Vec::new());
    assert_eq!(state.sound_count(), 0);
    let mut slot = Some(state);
    let outcome = startup_sfx(&mut slot);
    assert_eq!(outcome, Err(PlaybackError::NotFound("meow.wav".to_string())));
    assert_eq!(diagnostic(&outcome), Some("Audio file 'meow.wav' not found".to_string()));
    let outcome = command_finish_sfx(&mut slot, Some(0), None, None);
    assert_eq!(outcome, Err(PlaybackError::NotFound("success.wav".to_string())));
    let outcome = switch_mode_sfx(&mut slot, LineMode::Insert);
    assert_eq!(outcome, Err(PlaybackError::NotFound("on.wav".to_string())));
    let state = slot.as_mut().expect("the session goes on");
    assert_eq!(state.take_queued().len(), 0);
    assert_eq!(state.sound_count(), 0);
}

#[test]
fn one_mode_cycle_is_two_requests() {
    let mut slot = Some(all_sounds());
    assert_eq!(switch_mode_sfx(&mut slot, LineMode::Normal), Ok(()));
    assert_eq!(switch_mode_sfx(&mut slot, LineMode::Insert), Ok(()));
    let queued = slot.as_mut().unwrap().take_queued();
    assert_eq!(queued.len(), 2);
    assert_eq!(queued[0].name, "on.wav");
    assert_eq!(queued[1].name, "on.wav");
    assert_eq!(queued[0].volume, DEFAULT_VOLUME);
    assert_eq!(queued[1].volume, DEFAULT_VOLUME);
}

#[test]
fn hooks_without_audio_state_do_nothing() {
    let mut slot: Option<AudioStreamState> = None;
    assert_eq!(startup_sfx(&mut slot), Ok(()));
    assert_eq!(switch_mode_sfx(&mut slot, LineMode::Normal), Ok(()));
    assert_eq!(command_finish_sfx(&mut slot, Some(1), Some(5000), Some(3000)), Ok(()));
    assert!(slot.is_none());
}

#[test]
fn a_held_back_command_queues_nothing() {
    let mut slot = Some(all_sounds());
    assert_eq!(command_finish_sfx(&mut slot, Some(1), Some(100), Some(3000)), Ok(()));
    assert_eq!(slot.as_mut().unwrap().take_queued().len(), 0);
    assert_eq!(command_finish_sfx(&mut slot, Some(1), Some(4000), Some(3000)), Ok(()));
    assert_eq!(slot.as_mut().unwrap().take_queued().len(), 1);
}

#[test]
fn forwarding_no_decision_changes_nothing() {
    let mut slot = Some(all_sounds());
    assert_eq!(forward(&mut slot, None), Ok(()));
    assert_eq!(slot.as_mut().unwrap().take_queued().len(), 0);
    let cue = Cue { name: "error.wav".to_string(), volume: 7 };
    assert_eq!(forward(&mut slot, Some(cue)), Ok(()));
    let queued = slot.as_mut().unwrap().take_queued();
    assert_eq!(queued[0].name, "error.wav");
    assert_eq!(queued[0].volume, 7);
}

#[test]
fn a_hook_on_an_unusable_device_is_a_device_error() {
    let mut state = all_sounds();
    state.set_device_usable(false);
    let mut slot = Some(state);
    let outcome = startup_sfx(&mut slot);
    assert_eq!(outcome, Err(PlaybackError::DeviceError));
    assert_eq!(
        diagnostic(&outcome),
        Some("Audio output device rejected the sound".to_string())
    );
    assert_eq!(slot.as_mut().unwrap().take_queued().len(), 0);
}

#[test]
fn success_leaves_nothing_to_log() {
    assert_eq!(diagnostic(&Ok(())), None);
}

#[test]
fn playback_errors_say_what_failed() {
    let missing = PlaybackError::NotFound("a b.ogg".to_string());
    assert_eq!(missing.message(), "Audio file 'a b.ogg' not found");
    assert_eq!(PlaybackError::DeviceError.message(), "Audio output device rejected the sound");
}

#[test]
fn a_new_cache_is_empty() {
    let cache = AssetCache::new();
    assert_eq!(cache.len(), 0);
    assert!(!cache.contains("meow.wav"));
    assert!(!cache.contains(""));
}

#[test]
fn a_decoded_file_joins_the_cache_and_another_does_not() {
    let cache = AssetCache::new();
    let cache = cache.with_decoded("notes.txt".to_string(), None);
    assert_eq!(cache.len(), 0);
    let cache = cache.with_decoded("meow.wav".to_string(), Some(sound(tone(400))));
    assert_eq!(cache.len(), 1);
    assert!(cache.contains("meow.wav"));
    let cache = cache.with_decoded("meow.wav".to_string(), None);
    assert_eq!(cache.len(), 1);
    assert!(cache.contains("meow.wav"));
    let cache = cache.with_decoded("error.wav".to_string(), Some(sound(tone(10))));
    assert_eq!(cache.len(), 2);
    assert!(cache.contains("error.wav"));
    assert!(!cache.contains("notes.txt"));
}

#[test]
fn a_later_sound_takes_the_place_of_one_with_its_name() {
    let cache = AssetCache::new();
    let cache = cache.with_decoded("meow.wav".to_string(), Some(sound(tone(400))));
    let cache = cache.with_decoded("on.wav".to_string(), Some(sound(tone(7))));
    let cache = cache.with_decoded("meow.wav".to_string(), Some(sound(tone(25))));
    assert_eq!(cache.len(), 2);
    let mut state = AudioStreamState::ready(cache, true).expect("the device is there");
    state.play_sound("meow.wav", 50).unwrap();
    state.play_sound("on.wav", 50).unwrap();
    let mut queued = state.take_queued();
    assert_eq!(queued.pop().unwrap().sound.inner.count(), 7);
    assert_eq!(queued.pop().unwrap().sound.inner.count(), 25);
}

#[test]
fn a_session_of_cached_sounds_needs_a_device() {
    let made = AudioStreamState::ready(AssetCache::new(), false);
    assert_eq!(made.err(), Some(InitError::DeviceUnavailable));
    let state = AudioStreamState::ready(AssetCache::new(), true).expect("the device is there");
    assert_eq!(state.sound_count(), 0);
}

#[test]
fn queued_sounds_can_be_handed_to_a_sink_in_their_order() {
    let mut state = all_sounds();
    state.play_sound("meow.wav", 50).unwrap();
    state.play_sound("error.wav", 30).unwrap();
    let (sink, _output) = rodio::Sink::new();
    let mut volumes = Vec::new();
    for playback in state.take_queued() {
        sink.set_volume(playback.volume as f32 / 100.0);
        volumes.push(sink.volume());
        sink.append(playback.sound.inner);
    }
    assert_eq!(sink.len(), 2);
    assert_eq!(volumes, vec![0.5, 0.3]);
}

#[test]
fn a_wave_file_without_samples_is_a_sound_of_no_length() {
    let mut state = session(vec![file("silence.wav", wav(&[])), file("meow.wav", tone(400))]);
    assert!(state.has_sound("meow.wav"));
    assert!(state.has_sound("silence.wav"));
    state.play_sound("silence.wav", 50).unwrap();
    assert_eq!(state.take_queued().pop().unwrap().sound.inner.count(), 0);
}

#[test]
fn a_long_sound_is_whole_when_it_is_queued() {
    let mut state = session(vec![file("long.wav", tone(100_000))]);
    state.play_sound("long.wav", 50).unwrap();
    state.play_sound("long.wav", 50).unwrap();
    let mut queued = state.take_queued();
    assert_eq!(queued.pop().unwrap().sound.inner.count(), 100_000);
    assert_eq!(queued.pop().unwrap().sound.inner.count(), 100_000);
}

fn names(files: Option<Vec<AudioFile>>) -> Option<Vec<String>> {
    files.map(|files| files.into_iter().map(|f| f.name).collect())
}

#[test]
fn a_listing_keeps_the_files_that_were_read_in_their_order() {
    let entries = vec![
        EntryRead::Read(file("b.wav", tone(3))),
        EntryRead::Unread,
        EntryRead::Read(file("a.txt", vec![2, 3])),
        EntryRead::Unopened,
        EntryRead::Read(file("c.wav", tone(5))),
    ];
    let files = listing(entries).expect("every entry was read");
    assert_eq!(files.len(), 3);
    assert_eq!(files[0].name, "b.wav");
    assert!(files[0].decoded.is_some());
    assert_eq!(files[1].name, "a.txt");
    assert!(files[1].decoded.is_none());
    assert_eq!(files[2].name, "c.wav");
    assert_eq!(files[2].decoded.as_ref().unwrap().inner.clone().count(), 5);
}

#[test]
fn an_empty_directory_lists_no_files() {
    assert_eq!(names(listing(Vec::new())), Some(Vec::new()));
    assert_eq!(names(listing(vec![EntryRead::Unread, EntryRead::Unopened])), Some(Vec::new()));
}

#[test]
fn an_entry_that_failed_makes_the_directory_unreadable() {
    let first = vec![EntryRead::Failed, EntryRead::Read(file("a.wav", tone(1)))];
    assert!(listing(first).is_none());
    let last = vec![EntryRead::Read(file("a.wav", tone(1))), EntryRead::Failed];
    assert!(listing(last).is_none());
    assert!(listing(vec![EntryRead::Failed]).is_none());
    let made = AudioStreamState::new(listing(vec![EntryRead::Failed]), true);
    assert_eq!(made.err(), Some(InitError::DirectoryUnavailable));
}

#[test]
fn a_file_that_cannot_be_opened_is_left_out_and_stops_nothing() {
    let entries = vec![
        EntryRead::Read(file("a.wav", tone(1))),
        EntryRead::Unopened,
        EntryRead::Read(file("b.wav", tone(2))),
    ];
    assert_eq!(
        names(listing(entries)),
        Some(vec!["a.wav".to_string(), "b.wav".to_string()])
    );
    let made = AudioStreamState::new(listing(vec![EntryRead::Unopened]), true);
    assert_eq!(made.expect("the directory and the device are there").sound_count(), 0);
}

#[test]
fn no_file_decides_whether_the_session_starts() {
    let entries = || {
        vec![
            EntryRead::Unopened,
            EntryRead::Unread,
            EntryRead::Read(file("notes.txt", b"no sound".to_vec())),
            EntryRead::Read(AudioFile { name: "broken.wav".to_string(), decoded: None }),
            EntryRead::Read(file("meow.wav", tone(400))),
        ]
    };
    let state = AudioStreamState::new(listing(entries()), true).expect("all is there");
    assert_eq!(state.sound_count(), 1);
    assert!(state.has_sound("meow.wav"));
    assert!(!state.has_sound("broken.wav"));
    let made = AudioStreamState::new(listing(entries()), false);
    assert_eq!(made.err(), Some(InitError::DeviceUnavailable));
}

#[test]
fn a_listing_feeds_the_session() {
    let entries = vec![
        EntryRead::Read(file("meow.wav", tone(400))),
        EntryRead::Unread,
        EntryRead::Read(file("notes.txt", b"no sound".to_vec())),
    ];
    let state = AudioStreamState::new(listing(entries), true).expect("all is there");
    assert_eq!(state.sound_count(), 1);
    assert!(state.has_sound("meow.wav"));
}
