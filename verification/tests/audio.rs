use vesper::apo_link::{apo_filter_code, is_apo_active, sync_apo_eq_profile, sync_apo_mute, ApoLink};
use vesper::audio_devices::{
    find_device, is_virtual_cable_device, pick_range, sample_format_label, sample_format_value,
    supported_standard_rates, AudioDevice, AudioHost, ConfigRange, SampleFormat, StreamConfig,
};
use vesper::dsp_engine::{
    get_device_bit_depth, get_device_sample_rate, get_device_supported_bit_depths,
    get_device_supported_sample_rates, get_output_devices, get_source_devices,
    input_config_with_target, output_config_with_target,
};
use vesper::dsp_session::{
    add_input_overruns, add_output_overruns, add_output_underruns, eq_filter_kind, fade_in_samples, get_current_stream_info, get_engine_status,
    get_system_mute, plan_dsp_engine, record_stream_info, report_stream_error, resampler_profile,
    ring_capacity, set_output_mute, start_dsp_engine, stop_dsp_engine, stop_dsp_engine_inner, EngineState, EqFilterKind,
    WindowKind,
};
use vesper::dsp_windows::{
    apo_check_script, apo_install_script, apo_installed, elevated_install_args,
    endpoint_guid_from_output, endpoint_guid_script, set_windows_default_playback_device,
    windows_path,
};
use vesper::woofer_router::{
    earphone_band_kind, get_available_devices, lowpass_stages, router_resampler, set_earphone_mute,
    set_speaker_mute, start_audio_sync, stop_audio_sync, RouterState,
};

fn range(channels: u16, min: u32, max: u32, f: SampleFormat) -> ConfigRange {
    ConfigRange { channels, min_sample_rate: min, max_sample_rate: max, sample_format: f }
}

fn config(channels: u16, rate: u32, f: SampleFormat) -> StreamConfig {
    StreamConfig { channels, sample_rate: rate, sample_format: f }
}

fn device(
    name: &str,
    default_input: Option<StreamConfig>,
    default_output: Option<StreamConfig>,
    input_ranges: Option<Vec<ConfigRange>>,
    output_ranges: Option<Vec<ConfigRange>>,
) -> AudioDevice {
    AudioDevice { name: name.to_owned(), default_input, default_output, input_ranges, output_ranges }
}

fn studio_host() -> AudioHost {
    AudioHost {
        input_devices: vec![
            device(
                "Mic (USB Audio)",
                Some(config(1, 48_000, SampleFormat::I16)),
                None,
                Some(vec![range(1, 44_100, 48_000, SampleFormat::I16)]),
                None,
            ),
            device(
                "Line In (Interface)",
                Some(config(2, 44_100, SampleFormat::F32)),
                None,
                Some(vec![
                    range(2, 44_100, 192_000, SampleFormat::F32),
                    range(2, 44_100, 96_000, SampleFormat::I32),
                ]),
                None,
            ),
        ],
        output_devices: vec![
            device(
                "Speakers (FiiO K7)",
                None,
                Some(config(2, 48_000, SampleFormat::F32)),
                None,
                Some(vec![
                    range(2, 44_100, 48_000, SampleFormat::I16),
                    range(2, 44_100, 384_000, SampleFormat::I32),
                    range(2, 44_100, 384_000, SampleFormat::F32),
                ]),
            ),
            device(
                "CABLE Input (VB-Audio Virtual Cable)",
                None,
                Some(config(2, 48_000, SampleFormat::F32)),
                None,
                Some(vec![range(2, 48_000, 48_000, SampleFormat::F32)]),
            ),
            device(
                "Speakers (FiiO K7)",
                None,
                Some(config(2, 44_100, SampleFormat::F64)),
                None,
                Some(vec![range(2, 8_000, 48_000, SampleFormat::F64)]),
            ),
        ],
    }
}

#[test]
fn sample_format_names() {
    assert_eq!(sample_format_value(SampleFormat::I24), Some("i24"));
    assert_eq!(sample_format_value(SampleFormat::F64), None);
    assert_eq!(sample_format_label(SampleFormat::U16), Some("16-bit"));
    assert_eq!(sample_format_label(SampleFormat::F32), Some("32-bit float"));
}

#[test]
fn device_lists() {
    let host = studio_host();
    assert_eq!(
        get_source_devices(&host, false),
        vec!["Speakers (FiiO K7)".to_owned(), "CABLE Input (VB-Audio Virtual Cable)".to_owned()]
    );
    assert_eq!(get_output_devices(&host, false).len(), 3);
    assert_eq!(
        get_available_devices(&host),
        vec![
            "Speakers (FiiO K7)".to_owned(),
            "CABLE Input (VB-Audio Virtual Cable)".to_owned(),
            "Speakers (FiiO K7)".to_owned(),
            "Mic (USB Audio)".to_owned(),
            "Line In (Interface)".to_owned(),
        ]
    );
}

#[test]
fn devices_are_found_by_part_of_their_name_capture_first() {
    let host = studio_host();
    assert_eq!(find_device(&host, "USB"), Some((0, true)));
    assert_eq!(find_device(&host, "FiiO"), Some((0, false)));
    assert_eq!(find_device(&host, "Interface"), Some((1, true)));
    assert_eq!(find_device(&host, "HDMI"), None);
    assert!(is_virtual_cable_device("CABLE Input (VB-AUDIO Virtual Cable)"));
    assert!(!is_virtual_cable_device("Speakers"));
}

#[test]
fn current_rates_and_depths() {
    let host = studio_host();
    assert_eq!(get_device_sample_rate(&host, "Mic", false).unwrap(), 48_000);
    assert_eq!(get_device_sample_rate(&host, "FiiO", false).unwrap(), 48_000);
    assert_eq!(get_device_sample_rate(&host, "nothing", false).unwrap_err(), "Device not found");
    assert_eq!(get_device_bit_depth(&host, "Mic", false).unwrap(), "16-bit");
    // Shared mode reports 32-bit float; the ranges reveal a 32-bit FiiO DAC.
    assert_eq!(get_device_bit_depth(&host, "FiiO", false).unwrap(), "32-bit");
    assert_eq!(get_device_bit_depth(&host, "FiiO", true).unwrap(), "32-bit float");
    // A 32-bit integer range on another device counts as 24 bits.
    assert_eq!(get_device_bit_depth(&host, "Line In", false).unwrap(), "24-bit");
    // Only float ranges: the float name stays.
    assert_eq!(get_device_bit_depth(&host, "CABLE", false).unwrap(), "32-bit float");
}

#[test]
fn offered_depths_and_rates() {
    let host = studio_host();
    let depths = get_device_supported_bit_depths(&host, "FiiO", false).unwrap();
    let pairs: Vec<(String, String)> = depths.into_iter().map(|d| (d.value, d.label)).collect();
    assert_eq!(
        pairs,
        vec![
            ("i16".to_owned(), "16-bit".to_owned()),
            ("i32".to_owned(), "32-bit".to_owned()),
            ("f32".to_owned(), "32-bit float".to_owned()),
        ]
    );
    assert_eq!(
        get_device_supported_bit_depths(&host, "Mic", false).unwrap_err(),
        "No output config"
    );
    assert_eq!(
        get_device_supported_bit_depths(&host, "HDMI", false).unwrap_err(),
        "Output device not found"
    );
    assert_eq!(
        get_device_supported_sample_rates(&host, "FiiO", false).unwrap(),
        vec![44_100, 48_000, 88_200, 96_000, 176_400, 192_000, 352_800, 384_000]
    );
    let ranges = vec![range(2, 90_000, 100_000, SampleFormat::I16), range(2, 44_100, 44_100, SampleFormat::I16)];
    assert_eq!(supported_standard_rates(&ranges), vec![44_100, 96_000]);
    assert!(supported_standard_rates(&vec![]).is_empty());
}

#[test]
fn configuration_searches() {
    let host = studio_host();
    let fiio = &host.output_devices[0];
    // The highest-rate 32-bit range that holds 192 kHz.
    assert_eq!(
        output_config_with_target(fiio, Some(192_000), Some("i32")).unwrap(),
        config(2, 192_000, SampleFormat::I32)
    );
    assert_eq!(
        output_config_with_target(fiio, None, Some("i24")).unwrap_err(),
        "Output device does not support the selected bit depth"
    );
    // Unknown rate without a format: the preferred configuration stands.
    assert_eq!(
        output_config_with_target(fiio, Some(1_000_000), None).unwrap(),
        config(2, 48_000, SampleFormat::F32)
    );
    let line_in = &host.input_devices[1];
    // 32-bit integer ranges go first.
    assert_eq!(
        input_config_with_target(line_in, Some(96_000)).unwrap(),
        config(2, 96_000, SampleFormat::I32)
    );
    assert_eq!(
        input_config_with_target(line_in, Some(176_400)).unwrap(),
        config(2, 176_400, SampleFormat::F32)
    );
    assert_eq!(
        input_config_with_target(line_in, Some(200_000)).unwrap_err(),
        "Input device does not support 200000 Hz"
    );
    let ranges = vec![
        range(2, 8_000, 48_000, SampleFormat::F32),
        range(2, 8_000, 96_000, SampleFormat::I16),
        range(2, 8_000, 96_000, SampleFormat::I32),
    ];
    assert_eq!(pick_range(&ranges, true, None, None, false), Some(1));
    assert_eq!(pick_range(&ranges, true, None, None, true), Some(2));
    assert_eq!(pick_range(&ranges, true, Some("f32"), Some(44_100), false), Some(0));
    assert_eq!(pick_range(&ranges, true, Some("u16"), None, false), None);
}

#[test]
fn ring_sizes_and_fades() {
    assert_eq!(ring_capacity(48_000, 2), 24_000);
    assert_eq!(ring_capacity(8_000, 2), 8_192);
    assert_eq!(fade_in_samples(48_000, 2), 4_800);
    assert_eq!(fade_in_samples(0, 2), 1);
}

#[test]
fn resampler_and_filter_choices() {
    let p = resampler_profile("linear_precise");
    assert_eq!((p.sinc_len, p.cutoff_thousandths, p.oversampling_factor), (256, 960, 256));
    assert_eq!(p.window, WindowKind::BlackmanHarris2);
    let p = resampler_profile("biophys_phase_flash");
    assert_eq!((p.sinc_len, p.cutoff_thousandths, p.oversampling_factor), (128, 980, 512));
    let p = resampler_profile("something else");
    assert_eq!((p.sinc_len, p.cutoff_thousandths, p.oversampling_factor), (128, 950, 128));
    assert_eq!(p.window, WindowKind::Hann);
    assert_eq!(eq_filter_kind("notch"), EqFilterKind::Notch);
    assert_eq!(eq_filter_kind("band_stop"), EqFilterKind::Notch);
    assert_eq!(eq_filter_kind("peak"), EqFilterKind::Peaking);
    assert_eq!(eq_filter_kind("high_pass"), EqFilterKind::HighPass);
    assert_eq!(earphone_band_kind("low_pass"), EqFilterKind::Peaking);
    assert_eq!(earphone_band_kind("high_shelf"), EqFilterKind::HighShelf);
}

#[test]
fn planning_a_dsp_run() {
    let host = studio_host();
    let plan = plan_dsp_engine(&host, "Line In (Interface)", "Speakers (FiiO K7)", Some(96_000), "linear_smooth", Some("i32")).unwrap();
    assert_eq!((plan.source_device, plan.source_is_input, plan.output_device), (1, true, 0));
    assert_eq!(plan.output_config, config(2, 96_000, SampleFormat::I32));
    assert_eq!(plan.source_config, config(2, 96_000, SampleFormat::I32));
    assert!(plan.resampler.is_none());
    assert_eq!(plan.input_capacity, 48_000);
    assert_eq!(plan.fade_in_samples, 9_600);
    assert_eq!(plan.stream_info.output_bit_depth, "32-bit");
    assert!(!plan.pin_source_as_default);

    // A loopback cable as source, at its own rate: the output is resampled.
    let plan = plan_dsp_engine(&host, "CABLE Input (VB-Audio Virtual Cable)", "Speakers (FiiO K7)", Some(192_000), "phase_smooth", None).unwrap();
    assert_eq!((plan.source_device, plan.source_is_input), (1, false));
    assert_eq!(plan.source_config.sample_rate, 48_000);
    assert_eq!(plan.output_config.sample_rate, 192_000);
    assert_eq!(plan.resampler.unwrap().sinc_len, 64);
    assert!(plan.pin_source_as_default);
    assert_eq!(plan.stream_info.source_bit_depth, "32-bit float");

    assert_eq!(
        plan_dsp_engine(&host, "Speakers (FiiO K7)", "Speakers (FiiO K7)", None, "x", None).err().unwrap(),
        "Audio source device not found"
    );
    assert_eq!(
        plan_dsp_engine(&host, "Mic (USB Audio)", "HDMI", None, "x", None).err().unwrap(),
        "Output device not found"
    );
    // The mic cannot run at the output's 96 kHz.
    assert_eq!(
        plan_dsp_engine(&host, "Mic (USB Audio)", "Speakers (FiiO K7)", Some(96_000), "x", None).err().unwrap(),
        "Input device does not support 96000 Hz"
    );
}

#[test]
fn engine_state() {
    let host = studio_host();
    let mut state = EngineState::new();
    add_input_overruns(&mut state, 5);
    assert_eq!(get_engine_status(&state).input_overruns, 5);
    let plan = start_dsp_engine(&mut state, &host, "Line In (Interface)", "Speakers (FiiO K7)", None, "x", None).unwrap();
    let status = get_engine_status(&state);
    assert!(status.running);
    assert_eq!(status.input_overruns, 0);
    assert_eq!(get_current_stream_info(&state).unwrap().output_sample_rate, plan.stream_info.output_sample_rate);
    record_stream_info(&mut state, plan.stream_info);
    assert_eq!(get_current_stream_info(&state).unwrap().output_channels, 2);
    add_input_overruns(&mut state, u64::MAX);
    add_input_overruns(&mut state, 2);
    assert_eq!(get_engine_status(&state).input_overruns, 1);
    report_stream_error(&mut state);
    assert!(!get_engine_status(&state).running);
    set_output_mute(&mut state, true);
    assert!(get_system_mute(&state, None));
    assert!(!get_system_mute(&state, Some(false)));
    assert_eq!(stop_dsp_engine(&mut state, Some("Speakers")), Some("Speakers".to_owned()));
    assert!(get_current_stream_info(&state).is_none());
    assert!(start_dsp_engine(&mut state, &host, "nothing", "Speakers (FiiO K7)", None, "x", None).is_err());
    assert!(!get_engine_status(&state).running);
}

#[test]
fn inner_stop_keeps_counters() {
    let host = studio_host();
    let mut state = EngineState::new();
    let plan = start_dsp_engine(&mut state, &host, "Line In (Interface)", "Speakers (FiiO K7)", None, "x", None).unwrap();
    record_stream_info(&mut state, plan.stream_info);
    add_input_overruns(&mut state, 3);
    stop_dsp_engine_inner(&mut state);
    let status = get_engine_status(&state);
    assert!(!status.running);
    assert_eq!(status.input_overruns, 3);
    assert!(get_current_stream_info(&state).is_none());
}

#[test]
fn apo_link_state() {
    let mut link: Option<ApoLink> = None;
    assert!(!is_apo_active(&link));
    sync_apo_mute(&mut link, true);
    assert!(link.is_none());
    link = Some(ApoLink::new());
    assert!(is_apo_active(&link));
    sync_apo_mute(&mut link, true);
    assert!(link.as_ref().unwrap().is_muted);
    let bands = vec!["low_shelf".to_owned(), "notch".to_owned(), "peaking".to_owned(), "band_stop".to_owned()];
    sync_apo_eq_profile(&mut link, false, &bands);
    let l = link.as_ref().unwrap();
    assert!(!l.is_enabled);
    assert_eq!(l.band_count, 4);
    assert_eq!(&l.band_codes[0..5], &[1, 5, 0, 5, 0]);
    assert_eq!(l.update_sequence, 2);
    let many: Vec<String> = (0..40).map(|_| "high_pass".to_owned()).collect();
    sync_apo_eq_profile(&mut link, true, &many);
    let l = link.as_ref().unwrap();
    assert_eq!(l.band_count, 32);
    assert!(l.band_codes.iter().all(|c| *c == 4));
    assert_eq!(apo_filter_code("low_pass"), 3);
}

#[test]
fn dsp_windows_scripts() {
    let s = set_windows_default_playback_device("Speakers (FiiO K7)");
    assert!(s.contains("$targetName = \"Speakers (FiiO K7)\""));
    assert!(s.contains("public class PolicyConfigClient {}"));
    assert!(s.contains("[AudioSwitcher]::SetDefault($devId) | Out-Null"));
    let c = apo_check_script("DAC");
    assert!(c.contains("$clsid = \"{794D0219-58D6-4F71-B53B-987895A5497B}\""));
    assert!(c.contains("Write-Output \"NOT_INSTALLED\""));
    assert!(endpoint_guid_script("DAC").contains("Write-Output $ep.PSChildName"));
    let i = apo_install_script("C:\\apps\\vesper_apo.dll", "{abc}");
    assert!(i.contains("$dll = \"C:\\apps\\vesper_apo.dll\"\n$guid = \"{abc}\""));
    assert!(i.ends_with("Restart-Service audiosrv -Force\n"));
    assert!(apo_installed("  INSTALLED\r\n"));
    assert!(!apo_installed("NOT_INSTALLED"));
    assert_eq!(endpoint_guid_from_output(" {1234}\n").unwrap(), "{1234}");
    assert!(endpoint_guid_from_output("").is_none());
    assert!(endpoint_guid_from_output("nope").is_none());
    assert_eq!(windows_path("C:/a/b.ps1"), "C:\\a\\b.ps1");
    assert_eq!(
        elevated_install_args("C:\\t\\x.ps1"),
        "-NoProfile -NonInteractive -WindowStyle Hidden -ExecutionPolicy Bypass -File \"C:\\t\\x.ps1\""
    );
}

fn router_host() -> AudioHost {
    AudioHost {
        input_devices: vec![device(
            "CABLE Output (VB-Audio Virtual Cable)",
            Some(config(2, 48_000, SampleFormat::F32)),
            None,
            Some(vec![range(2, 48_000, 48_000, SampleFormat::F32)]),
            None,
        )],
        output_devices: vec![
            device(
                "Headphones (USB)",
                None,
                Some(config(2, 44_100, SampleFormat::I16)),
                None,
                Some(vec![range(2, 44_100, 96_000, SampleFormat::I16)]),
            ),
            device(
                "Subwoofer (HDMI)",
                None,
                Some(config(6, 48_000, SampleFormat::F32)),
                None,
                Some(vec![range(6, 48_000, 48_000, SampleFormat::F32)]),
            ),
            device(
                "Old DAC (24)",
                None,
                Some(config(2, 48_000, SampleFormat::I24)),
                None,
                Some(vec![range(2, 48_000, 48_000, SampleFormat::I24)]),
            ),
        ],
    }
}

#[test]
fn woofer_router_runs() {
    let host = router_host();
    let mut state = RouterState::new();
    let plan = start_audio_sync(&mut state, &host, "CABLE Output", "Headphones", "Subwoofer", 24, Some(96_000), None, "선형 위상 (Linear)", "최소 위상").unwrap();
    assert!(state.running);
    assert_eq!(plan.source, (0, true));
    assert_eq!(plan.earphone_config, config(2, 96_000, SampleFormat::I16));
    assert_eq!(plan.speaker_config, config(6, 48_000, SampleFormat::F32));
    assert_eq!(plan.earphone_resampler, Some(WindowKind::BlackmanHarris2));
    assert_eq!(plan.speaker_resampler, None);
    assert_eq!(plan.speaker_lowpass_stages, 2);
    assert_eq!(plan.input_capacity, 960_000);
    assert_eq!(plan.speaker_capacity, 2_880_000);

    let err = start_audio_sync(&mut state, &host, "nothing", "Headphones", "Subwoofer", 12, None, None, "", "").err().unwrap();
    assert_eq!(err, "Source device not found");
    assert!(!state.running);
    let err = start_audio_sync(&mut state, &host, "CABLE", "Old DAC", "Subwoofer", 12, None, None, "", "").err().unwrap();
    assert_eq!(err, "Unsupported earphone format: I24");
    assert!(state.running);
    assert!(stop_audio_sync(&mut state).is_ok());
    assert!(!state.running);
    set_earphone_mute(&mut state, true);
    set_speaker_mute(&mut state, true);
    assert!(state.earphone_muted && state.speaker_muted);
    assert_eq!(lowpass_stages(12, 48_000), 1);
    assert_eq!(lowpass_stages(0, 48_000), 0);
    assert_eq!(lowpass_stages(24, 0), 0);
    assert_eq!(router_resampler(48_000, 44_100, "x"), Some(WindowKind::Hann));
}

#[test]
fn woofer_device_queries() {
    let host = router_host();
    assert_eq!(vesper::woofer_router::get_device_sample_rate(&host, "Headphones").unwrap(), 44_100);
    assert_eq!(vesper::woofer_router::get_device_bit_depth(&host, "Headphones").unwrap(), "16bit");
    assert_eq!(vesper::woofer_router::get_device_bit_depth(&host, "CABLE").unwrap(), "32bit Float");
    assert_eq!(vesper::woofer_router::get_device_bit_depth(&host, "Old DAC").unwrap(), "Unknown Format");
    assert_eq!(
        vesper::woofer_router::get_device_supported_sample_rates(&host, "Headphones").unwrap(),
        vec![44_100, 48_000, 88_200, 96_000]
    );
    assert_eq!(
        vesper::woofer_router::get_device_supported_sample_rates(&host, "CABLE").unwrap(),
        vec![48_000]
    );
    assert_eq!(
        vesper::woofer_router::get_device_sample_rate(&host, "Nothing").unwrap_err(),
        "Device not found"
    );
}

#[test]
fn started_stream_reports_the_requested_rate_and_format() {
    let host = studio_host();
    let mut state = EngineState::new();
    start_dsp_engine(&mut state, &host, "Line In (Interface)", "Speakers (FiiO K7)", Some(96_000), "x", Some("i32"))
        .unwrap();
    let info = get_current_stream_info(&state).unwrap();
    assert_eq!(info.output_sample_rate, 96_000);
    assert_eq!(info.output_bit_depth, "32-bit");
    start_dsp_engine(&mut state, &host, "Line In (Interface)", "Speakers (FiiO K7)", Some(44_100), "x", Some("i16"))
        .unwrap();
    let info = get_current_stream_info(&state).unwrap();
    assert_eq!(info.output_sample_rate, 44_100);
    assert_eq!(info.output_bit_depth, "16-bit");
}

#[test]
fn loss_counters_only_grow_between_starts() {
    let host = studio_host();
    let mut state = EngineState::new();
    start_dsp_engine(&mut state, &host, "Line In (Interface)", "Speakers (FiiO K7)", None, "x", None).unwrap();
    let mut last = (0u64, 0u64, 0u64);
    for step in 0..12u64 {
        match step % 6 {
            0 => add_input_overruns(&mut state, step),
            1 => add_output_overruns(&mut state, 2),
            2 => add_output_underruns(&mut state, 1),
            3 => set_output_mute(&mut state, step % 2 == 0),
            4 => report_stream_error(&mut state),
            _ => stop_dsp_engine_inner(&mut state),
        }
        let s = get_engine_status(&state);
        let now = (s.input_overruns, s.output_overruns, s.output_underruns);
        assert!(now.0 >= last.0 && now.1 >= last.1 && now.2 >= last.2);
        last = now;
    }
}
