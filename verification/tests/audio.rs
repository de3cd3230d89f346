use ek_single_mic::audio::buffers::{
    chunk_samples, latency_samples, link_capacity_samples, recording_capacity_samples,
    ring_capacity_samples,
};
use ek_single_mic::audio::devices::{
    DeviceChoice, DeviceDescriptor, UNKNOWN_INPUT_DEVICE, describe_device,
    detect_virtual_cable_route, enumerate_audio_devices, find_device, is_vb_cable_playback_device,
    is_vb_cable_recording_device, normalize_device_name, normalize_for_match,
};
use ek_single_mic::audio::ring::{
    ChunkAssembler, InputMeter, Link, OutputMeter, PreviewCursor, drain_waiting, put_samples,
};
use ek_single_mic::config::settings::{
    AppSettings, InferenceMode, SettingsStore, UiPage,
};
use ek_single_mic::util::float32::Float32;

fn number(value: f32) -> Float32 {
    Float32 { bits: value.to_bits() }
}

fn numbers(values: &[f32]) -> Vec<Float32> {
    values.iter().map(|value| number(*value)).collect()
}

#[test]
fn buffer_sizes_follow_the_sample_rate() {
    assert_eq!(latency_samples(48_000), 2_880);
    assert_eq!(latency_samples(0), 256);
    assert_eq!(latency_samples(u32::MAX), 257_698_037);
    assert_eq!(ring_capacity_samples(48_000), 19_200);
    assert_eq!(ring_capacity_samples(1_000), 2_048);
    assert_eq!(chunk_samples(48_000), 5_760);
    assert_eq!(chunk_samples(4_000), 512);
    assert_eq!(link_capacity_samples(48_000, 4), 19_200);
    assert_eq!(link_capacity_samples(4_000, 6), 2_048);
    assert_eq!(recording_capacity_samples(48_000), 48_000);
    assert_eq!(recording_capacity_samples(16), 2_048);
}

#[test]
fn a_link_hands_samples_on_in_order() {
    let mut link = Link::open(3, 0);
    let mut meter = InputMeter::new();
    for sample in [0.25, -0.75, 0.5, 1.0] {
        meter.capture(&mut link.producer, number(sample));
    }
    assert_eq!(meter.peak, number(1.0));
    assert_eq!(meter.dropped, 1);

    let mut played = OutputMeter::new();
    let heard: Vec<Float32> = (0..4).map(|_| played.play(&mut link.consumer)).collect();
    assert_eq!(heard, numbers(&[0.25, -0.75, 0.5, 0.0]));
    assert_eq!(played.peak, number(0.75));
    assert_eq!((played.delivered, played.missing), (3, 1));
}

#[test]
fn a_primed_link_begins_with_silence() {
    let mut link = Link::passthrough(48_000);
    assert_eq!(link.primed, 2_880);
    let mut meter = InputMeter::new();
    meter.capture(&mut link.producer, number(0.5));
    let mut played = OutputMeter::new();
    for _ in 0..link.primed {
        assert_eq!(played.play(&mut link.consumer), number(0.0));
    }
    assert_eq!(played.play(&mut link.consumer), number(0.5));
    assert_eq!(Link::filter_output(48_000).primed, 2_880);
    assert_eq!(Link::filter_input(48_000).primed, 0);
    assert_eq!(Link::recording(48_000).primed, 0);
}

#[test]
fn samples_are_put_until_the_link_is_full() {
    let mut link = Link::open(3, 1);
    assert_eq!(put_samples(&mut link.producer, &numbers(&[0.1, 0.2, 0.3])), 2);
    let mut samples = Vec::new();
    let mut peak = number(0.15);
    assert!(drain_waiting(&mut link.consumer, &mut samples, &mut peak));
    assert_eq!(samples, numbers(&[0.0, 0.1, 0.2]));
    assert_eq!(peak, number(0.2));
    assert!(!drain_waiting(&mut link.consumer, &mut samples, &mut peak));
    assert_eq!(samples.len(), 3);
}

#[test]
fn chunks_are_cut_from_what_came_in() {
    let mut link = Link::open(2_000, 0);
    let samples: Vec<f32> = (0..600).map(|index| index as f32).collect();
    assert_eq!(put_samples(&mut link.producer, &numbers(&samples)), 600);
    let mut assembler = ChunkAssembler::new(4_000);
    assert!(assembler.next_chunk().is_none());
    assembler.take_in(&mut link.consumer);
    assert_eq!(assembler.next_chunk(), Some(numbers(&samples[..512])));
    assert!(assembler.next_chunk().is_none());
    assert_eq!(assembler.pending, numbers(&samples[512..]));
}

#[test]
fn previews_end_after_their_samples() {
    let samples = numbers(&[0.5, -0.5]);
    let mut cursor = PreviewCursor::new();
    assert_eq!(cursor.play(&samples), number(0.5));
    assert_eq!(cursor.play(&samples), number(-0.5));
    assert!(!cursor.finished);
    assert_eq!(cursor.play(&samples), number(0.0));
    assert!(cursor.finished);
    assert_eq!(cursor.play(&samples), number(0.0));
}

fn device(name: &str) -> DeviceDescriptor {
    describe_device(Some(name.to_owned()), UNKNOWN_INPUT_DEVICE, None)
}

#[test]
fn devices_are_described() {
    let known = describe_device(Some("Mic".to_owned()), UNKNOWN_INPUT_DEVICE, Some((2, 48_000)));
    assert_eq!(known.summary(), "Mic (2 ch / 48000 Hz)");
    assert_eq!(device("Mic").summary(), "Mic");
    let unknown = describe_device(None, UNKNOWN_INPUT_DEVICE, None);
    assert_eq!(unknown.name, "Unknown input device");
    assert_eq!(unknown.default_channels, None);
}

#[test]
fn virtual_cables_are_found_by_name() {
    assert_eq!(normalize_for_match("  CABLE Input (VB-Audio) "), "cable input (vb-audio)");
    assert!(is_vb_cable_playback_device("CABLE Input (VB-Audio Virtual Cable)"));
    assert!(!is_vb_cable_playback_device("CABLE Output (VB-Audio Virtual Cable)"));
    assert!(is_vb_cable_recording_device("CABLE Output (VB-Audio Virtual Cable)"));
    assert!(!is_vb_cable_recording_device("CABLE Output"));

    let inputs = vec![device("Mic"), device("CABLE Output (VB-Audio)"), device("cable output vb-audio")];
    let outputs = vec![device("Speaker"), device("CABLE Input (VB-Audio)")];
    let route = detect_virtual_cable_route(&inputs, &outputs).expect("a pair");
    assert_eq!(route.driver_name, "VB-CABLE");
    assert_eq!(route.playback_device_name, "CABLE Input (VB-Audio)");
    assert_eq!(route.recording_device_name, "CABLE Output (VB-Audio)");
    assert!(detect_virtual_cable_route(&inputs, &vec![device("Speaker")]).is_none());
    assert!(detect_virtual_cable_route(&vec![device("Mic")], &outputs).is_none());

    let inventory = enumerate_audio_devices("Wasapi".to_owned(), inputs, outputs);
    assert_eq!(inventory.host_name, "Wasapi");
    assert_eq!(inventory.input_devices.len(), 3);
    assert!(inventory.virtual_cable_route.is_some());
}

#[test]
fn devices_are_chosen_by_their_trimmed_name() {
    let names = vec![Some("Mic".to_owned()), None, Some("Other".to_owned()), Some("Mic".to_owned())];
    assert_eq!(find_device(None, &names), DeviceChoice::Default);
    assert_eq!(find_device(Some(" \t\u{3000}"), &names), DeviceChoice::Default);
    assert_eq!(find_device(Some(" Mic\n"), &names), DeviceChoice::At { position: 0 });
    assert_eq!(find_device(Some("Other"), &names), DeviceChoice::At { position: 2 });
    assert_eq!(
        find_device(Some(" Gone "), &names),
        DeviceChoice::Missing { name: "Gone".to_owned() }
    );
    assert_eq!(normalize_device_name(Some(" a b ")).as_deref(), Some("a b"));
    assert_eq!(normalize_device_name(Some("")), None);
}

#[test]
fn settings_have_their_defaults_and_labels() {
    let store = SettingsStore::new("/home/user/.config/eksinglemic");
    assert_eq!(store.path(), "/home/user/.config/eksinglemic/settings.json");
    let settings = store.load(None);
    assert!(settings.same_as(&AppSettings::default()));
    assert_eq!(settings.selected_page, UiPage::Devices);
    assert_eq!(settings.inference_mode, InferenceMode::Passthrough);
    let mut changed = settings.clone();
    changed.selected_input_device = Some("Mic".to_owned());
    assert!(!changed.same_as(&settings));
    assert!(store.load(Some(changed.clone())).same_as(&changed));
    let labels: Vec<&str> = UiPage::all().iter().map(|page| page.label()).collect();
    assert_eq!(labels, vec!["设备", "训练", "推理", "调试"]);
    assert_eq!(InferenceMode::Passthrough.label(), "Passthrough");
    assert_eq!(InferenceMode::BasicFilter.label(), "Basic Filter");
    assert_eq!(InferenceMode::StrongIsolation.label(), "Strong Isolation (实验性)");
}
