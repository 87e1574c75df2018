use jellyfin_tui::audio_capture::{
    cava_config, decode_frame, get_default_sink, load_module_args, module_id, pactl_load_module,
    sink_name, unload_module_args, CaptureEvent, CaptureStage, CommandOutput, SetupStep, SinkSetup,
    VirtualSink, BAR_COUNT, FRAMERATE, FRAME_BYTES,
};

fn printed(text: &str) -> Option<CommandOutput> {
    Some(CommandOutput { success: true, stdout: text.as_bytes().to_vec() })
}

fn failed(text: &str) -> Option<CommandOutput> {
    Some(CommandOutput { success: false, stdout: text.as_bytes().to_vec() })
}

/// Goes through the whole set-up, with the given outputs, and lists the commands that were run.
fn set_up(outputs: Vec<Option<CommandOutput>>) -> (VirtualSink, Vec<Vec<String>>) {
    let mut outputs = outputs.into_iter();
    let mut commands = Vec::new();
    let mut step = VirtualSink::create();
    loop {
        match step {
            SetupStep::Run { setup, args } => {
                commands.push(args);
                step = setup.advance(&outputs.next().unwrap());
            }
            SetupStep::Done { sink } => return (sink, commands),
        }
    }
}

#[test]
fn sets_up_both_sinks() {
    let (sink, commands) =
        set_up(vec![printed("536870915\n"), printed("alsa_output.pci\n"), printed("536870916\n")]);
    assert_eq!(
        commands,
        [
            vec![
                "load-module",
                "module-null-sink",
                "sink_name=jellyfin_tui_vis",
                "sink_properties=device.description=jellyfin-tui-visualizer",
            ],
            vec!["get-default-sink"],
            vec![
                "load-module",
                "module-combine-sink",
                "sink_name=jellyfin_tui_combined",
                "slaves=alsa_output.pci,jellyfin_tui_vis",
                "sink_properties=device.description=jellyfin-tui-output",
            ],
        ]
    );
    assert_eq!(sink.mpv_audio_device(), Some("pulse/jellyfin_tui_combined"));
    assert_eq!(sink.cava_source(), "jellyfin_tui_vis.monitor");
    assert_eq!(sink.modules_to_unload(), [536870916, 536870915]);
}

#[test]
fn without_the_silent_sink_nothing_is_set_up() {
    for output in [None, failed("17"), printed(""), printed("no number")] {
        let (sink, commands) = set_up(vec![output]);
        assert_eq!(commands.len(), 1);
        assert_eq!(sink.mpv_audio_device(), None);
        assert_eq!(sink.cava_source(), "auto");
        assert!(sink.modules_to_unload().is_empty());
    }
}

#[test]
fn unknown_output_falls_back_to_the_default() {
    for output in [None, failed("alsa"), printed(" \n"), printed("")] {
        let (sink, commands) = set_up(vec![printed("1"), output, printed("2")]);
        assert_eq!(commands[2][3], "slaves=@DEFAULT_SINK@,jellyfin_tui_vis");
        assert_eq!(sink.modules_to_unload(), [2, 1]);
    }
}

#[test]
fn without_the_combined_sink_all_audio_is_captured() {
    let (sink, commands) = set_up(vec![printed("1"), printed("alsa"), failed("")]);
    assert_eq!(commands.len(), 3);
    assert_eq!(sink.mpv_audio_device(), None);
    assert_eq!(sink.cava_source(), "auto");
    assert_eq!(sink.modules_to_unload(), [1]);
}

#[test]
fn set_up_goes_stage_by_stage() {
    match VirtualSink::create() {
        SetupStep::Run { setup, .. } => assert_eq!(setup, SinkSetup::NullSink),
        SetupStep::Done { .. } => panic!("done too early"),
    }
    match SinkSetup::NullSink.advance(&printed("8")) {
        SetupStep::Run { setup, args } => {
            assert_eq!(setup, SinkSetup::DefaultSink { null_module: 8 });
            assert_eq!(args, ["get-default-sink"]);
        }
        SetupStep::Done { .. } => panic!("done too early"),
    }
}

#[test]
fn command_output_is_read_leniently() {
    assert_eq!(pactl_load_module(&printed("  42\r\n")), Some(42));
    assert_eq!(pactl_load_module(&printed("4294967296")), None);
    assert_eq!(pactl_load_module(&failed("42")), None);
    assert_eq!(pactl_load_module(&None), None);
    assert_eq!(get_default_sink(&printed(" sink \n")), Some("sink".to_string()));
    assert_eq!(get_default_sink(&printed("\n")), None);
    assert_eq!(get_default_sink(&failed("sink")), None);
    assert_eq!(get_default_sink(&None), None);
    let latin = Some(CommandOutput { success: true, stdout: b"caf\xe9 \n".to_vec() });
    assert_eq!(get_default_sink(&latin), Some("caf\u{fffd}".to_string()));
    assert_eq!(pactl_load_module(&latin), None);
    assert_eq!(get_default_sink(&printed("h\u{e9}l\u{4e2d}\n")), Some("h\u{e9}l\u{4e2d}".to_string()));
}

#[test]
fn printed_text_is_trimmed_and_parsed() {
    assert_eq!(module_id(" +7 "), Some(7));
    assert_eq!(module_id("7 8"), None);
    assert_eq!(sink_name("\tname\n"), Some("name".to_string()));
    assert_eq!(sink_name("\t\n"), None);
}

#[test]
fn pactl_arguments_are_listed() {
    assert_eq!(
        load_module_args("module-x", vec!["a=b".to_string()]),
        ["load-module", "module-x", "a=b"]
    );
    assert_eq!(unload_module_args(536870915), ["unload-module", "536870915"]);
    assert_eq!(module_id(&unload_module_args(u32::MAX)[1]), Some(u32::MAX));
}

#[test]
fn config_names_source_bars_and_format() {
    assert_eq!(
        cava_config("auto"),
        "[general]\nbars = 64\nframerate = 60\n\n[input]\nmethod = pulse\nsource = auto\n\n[output]\nmethod = raw\nraw_target = /dev/stdout\ndata_format = binary\nbit_format = 16bit\n"
    );
    assert_eq!(BAR_COUNT, 64);
    assert_eq!(FRAMERATE, 60);
    assert_eq!(FRAME_BYTES, 128);
}

#[test]
fn frames_hold_little_endian_levels() {
    assert_eq!(decode_frame(&[0x34, 0x12, 0xff, 0xff, 0, 0, 1, 0, 0, 1]), [
        0x1234, 0xffff, 0, 1, 256
    ]);
    assert_eq!(decode_frame(&[1, 2, 3]), [0x0201]);
    assert!(decode_frame(&[]).is_empty());
    assert_eq!(decode_frame(&[0; FRAME_BYTES]).len(), BAR_COUNT);
    let bars: Vec<u16> = (0..=u16::MAX).collect();
    let bytes: Vec<u8> = bars.iter().flat_map(|bar| bar.to_le_bytes()).collect();
    assert_eq!(decode_frame(&bytes), bars);
}

#[test]
fn capture_offers_each_frame_twice() {
    let frame = || CaptureEvent::Frame { bytes: vec![0x34, 0x12].repeat(BAR_COUNT) };
    let bars = || vec![0x1234; BAR_COUNT];
    let events = [CaptureEvent::Taken, CaptureEvent::Full, CaptureEvent::Disconnected];
    for event in events {
        let offer = CaptureStage::Read.next(frame());
        assert_eq!(offer, CaptureStage::Offer { bars: bars() });
        assert_eq!(offer.next(event), CaptureStage::OfferAgain { bars: bars() });
    }
    let again = || CaptureStage::OfferAgain { bars: bars() };
    assert_eq!(again().next(CaptureEvent::Taken), CaptureStage::Read);
    assert_eq!(again().next(CaptureEvent::Full), CaptureStage::Read);
}

/// Runs the capture over the output of cava, with a view that takes what `room` says, and lists
/// what the view is offered.
fn run_capture(output: &[u8], room: impl Fn(usize) -> CaptureEvent) -> Vec<Vec<u16>> {
    let mut rest = output;
    let mut offers: Vec<Vec<u16>> = Vec::new();
    let mut stage = CaptureStage::Read;
    loop {
        let event = match &stage {
            CaptureStage::Read if rest.len() >= FRAME_BYTES => {
                let (frame, behind) = rest.split_at(FRAME_BYTES);
                rest = behind;
                CaptureEvent::Frame { bytes: frame.to_vec() }
            }
            CaptureStage::Read => CaptureEvent::ReadFailed,
            CaptureStage::Offer { bars } | CaptureStage::OfferAgain { bars } => {
                offers.push(bars.clone());
                room(offers.len())
            }
            CaptureStage::Stop => return offers,
        };
        stage = stage.next(event);
    }
}

#[test]
fn capture_follows_the_output() {
    let levels: Vec<u16> = (0..5 * BAR_COUNT as u16).map(|i| i.wrapping_mul(40_503)).collect();
    let mut output: Vec<u8> = levels.iter().flat_map(|level| level.to_le_bytes()).collect();
    output.extend([9; FRAME_BYTES - 1]);
    let expected: Vec<Vec<u16>> = levels
        .chunks(BAR_COUNT)
        .flat_map(|bars| [bars.to_vec(), bars.to_vec()])
        .collect();

    assert_eq!(run_capture(&output, |_| CaptureEvent::Taken), expected);
    // A view that lags behind is offered the same.
    assert_eq!(run_capture(&output, |_| CaptureEvent::Full), expected);
    // Only the second offer of a frame notices that the view is gone.
    let gone_at = |offer| {
        run_capture(&output, move |count| {
            if count == offer { CaptureEvent::Disconnected } else { CaptureEvent::Taken }
        })
    };
    assert_eq!(gone_at(3), expected);
    assert_eq!(gone_at(4), expected[..4]);
    assert!(run_capture(&output[..FRAME_BYTES - 1], |_| CaptureEvent::Taken).is_empty());
}

#[test]
fn capture_stops_when_an_end_is_gone() {
    assert_eq!(CaptureStage::Read.next(CaptureEvent::ReadFailed), CaptureStage::Stop);
    for length in [0, 1, FRAME_BYTES - 1, FRAME_BYTES + 1] {
        let part = CaptureEvent::Frame { bytes: vec![1; length] };
        assert_eq!(CaptureStage::Read.next(part), CaptureStage::Stop);
    }
    let again = CaptureStage::OfferAgain { bars: vec![1; BAR_COUNT] };
    assert_eq!(again.next(CaptureEvent::Disconnected), CaptureStage::Stop);
    let frame = CaptureEvent::Frame { bytes: vec![1; FRAME_BYTES] };
    assert_eq!(CaptureStage::Stop.next(frame), CaptureStage::Stop);
}
