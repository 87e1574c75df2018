//! Audio routing and capture for the visualizer.
//!
//! The player writes to a combined sink, which passes the audio on to the real output and to a
//! silent sink of its own. The visualizer program cava listens to the silent sink alone, so it
//! hears the player and nothing else. The sinks are modules of the sound server, which its control
//! program pactl loads and unloads.
use vstd::prelude::*;
use vstd::string::*;

use crate::text::{self, decimal_text, decode_lossy, parse_u32, trim};

verus! {

/// How many bars the visualizer has.
pub const BAR_COUNT: usize = 64;

/// How many frames cava sends in a second.
pub const FRAMERATE: u32 = 60;

/// How many bytes a frame of cava has: two for each bar.
pub const FRAME_BYTES: usize = BAR_COUNT * 2;

/// The name of the silent sink that cava listens to.
pub const NULL_SINK_NAME: &'static str = "jellyfin_tui_vis";

/// The name of the sink that the player writes to.
pub const COMBINE_SINK_NAME: &'static str = "jellyfin_tui_combined";

/// What a command left behind.
#[derive(Debug)]
pub struct CommandOutput {
    /// Whether it reported success.
    pub success: bool,
    /// What it printed.
    pub stdout: Vec<u8>,
}

/// The arguments with which pactl loads a module.
pub open spec fn load_arguments(module: Seq<char>, options: Seq<Seq<char>>) -> Seq<Seq<char>> {
    seq!["load-module"@, module] + options
}

/// The arguments with which pactl unloads a module.
pub open spec fn unload_arguments(id: u32) -> Seq<Seq<char>> {
    seq!["unload-module"@, text::decimal(id as nat)]
}

/// The arguments that make the silent sink.
pub open spec fn null_sink_arguments() -> Seq<Seq<char>> {
    load_arguments(
        "module-null-sink"@,
        seq![
            "sink_name="@ + NULL_SINK_NAME@,
            "sink_properties=device.description=jellyfin-tui-visualizer"@,
        ],
    )
}

/// The arguments that make the combined sink, over a real output and the silent sink.
pub open spec fn combine_sink_arguments(output: Seq<char>) -> Seq<Seq<char>> {
    load_arguments(
        "module-combine-sink"@,
        seq![
            "sink_name="@ + COMBINE_SINK_NAME@,
            "slaves="@ + output + ","@ + NULL_SINK_NAME@,
            "sink_properties=device.description=jellyfin-tui-output"@,
        ],
    )
}

/// The module that a load command reports on its output: its number, where the command ran and
/// succeeded and printed one.
pub open spec fn loaded(output: Option<CommandOutput>) -> Option<u32> {
    match output {
        Some(output) => if output.success {
            text::parsed_u32(text::trimmed(text::utf8_lossy(output.stdout@)))
        } else {
            None
        },
        None => None,
    }
}

/// The real output that the sound server reports: its name, where the command ran and succeeded and
/// printed one.
pub open spec fn reported_sink(output: Option<CommandOutput>) -> Option<Seq<char>> {
    match output {
        Some(output) => if output.success && text::trimmed(
            text::utf8_lossy(output.stdout@),
        ).len() > 0 {
            Some(text::trimmed(text::utf8_lossy(output.stdout@)))
        } else {
            None
        },
        None => None,
    }
}

/// The real output to use: the one that was reported, or the server's own word for its default.
pub open spec fn output_sink(output: Option<CommandOutput>) -> Seq<char> {
    match reported_sink(output) {
        Some(name) => name,
        None => "@DEFAULT_SINK@"@,
    }
}

/// Whether the output of a command that ran and succeeded stands for the very characters that it
/// encodes, where it is well-formed UTF-8.
pub open spec fn read_exactly(output: Option<CommandOutput>) -> bool {
    output matches Some(output) ==> output.success && vstd::utf8::valid_utf8(output.stdout@)
        ==> text::utf8_lossy(output.stdout@) == vstd::utf8::decode_utf8(output.stdout@)
}

/// Writes the arguments with which pactl loads a module.
pub fn load_module_args(module: &str, options: Vec<String>) -> (args: Vec<String>)
    ensures
        text::texts(args@) == load_arguments(module@, text::texts(options@)),
{
    let ghost given = text::texts(options@);
    let mut rest = options;
    let mut args: Vec<String> = Vec::new();
    args.push("load-module".to_string());
    args.push(module.to_string());
    args.append(&mut rest);
    assert(text::texts(args@) =~= load_arguments(module@, given));
    args
}

/// Writes the arguments with which pactl unloads a module.
pub fn unload_module_args(id: u32) -> (args: Vec<String>)
    ensures
        text::texts(args@) == unload_arguments(id),
{
    let mut args: Vec<String> = Vec::new();
    args.push("unload-module".to_string());
    args.push(decimal_text(id as u64));
    assert(text::texts(args@) =~= unload_arguments(id));
    args
}

/// Reads the number of a module from the text that a load command printed.
pub fn module_id(printed: &str) -> (id: Option<u32>)
    ensures
        id == text::parsed_u32(text::trimmed(printed@)),
{
    parse_u32(trim(printed))
}

/// Reads the name of a sink from the text that a command printed.
pub fn sink_name(printed: &str) -> (name: Option<String>)
    ensures
        match name {
            Some(name) => name@.len() > 0 && name@ == text::trimmed(printed@),
            None => text::trimmed(printed@).len() == 0,
        },
{
    let name = trim(printed);
    if name.is_empty() {
        None
    } else {
        Some(name.to_string())
    }
}

/// Reads what a load command left behind, if it could be run.
pub fn pactl_load_module(output: &Option<CommandOutput>) -> (id: Option<u32>)
    ensures
        id == loaded(*output),
        read_exactly(*output),
{
    match output {
        Some(output) => {
            if output.success {
                module_id(decode_lossy(output.stdout.as_slice()).as_str())
            } else {
                None
            }
        },
        None => None,
    }
}

/// Reads what the question for the default sink left behind, if it could be asked.
pub fn get_default_sink(output: &Option<CommandOutput>) -> (name: Option<String>)
    ensures
        match name {
            Some(name) => reported_sink(*output) == Some(name@),
            None => reported_sink(*output) is None,
        },
        read_exactly(*output),
{
    match output {
        Some(output) => {
            if output.success {
                sink_name(decode_lossy(output.stdout.as_slice()).as_str())
            } else {
                None
            }
        },
        None => None,
    }
}

/// The sinks that the player has made. Where one could not be made, the visualizer listens to all
/// audio instead.
#[derive(Debug)]
pub struct VirtualSink {
    null_module: Option<u32>,
    combine_module: Option<u32>,
    mpv_device: Option<String>,
}

/// What is known of the sinks: the modules that were loaded, and the device for the player.
pub struct Routing {
    pub null_module: Option<u32>,
    pub combine_module: Option<u32>,
    pub mpv_device: Option<Seq<char>>,
}

impl Routing {
    /// No sinks at all.
    pub open spec fn none() -> Routing {
        Routing { null_module: None, combine_module: None, mpv_device: None }
    }

    /// The routing with the silent sink, and with the combined sink if it could be made.
    pub open spec fn over(null_module: u32, combine_module: Option<u32>) -> Routing {
        Routing {
            null_module: Some(null_module),
            combine_module,
            mpv_device: if combine_module is Some {
                Some("pulse/"@ + COMBINE_SINK_NAME@)
            } else {
                None
            },
        }
    }

    /// The combined sink stands on the silent one, and the player has a device exactly where there
    /// is a combined sink.
    pub open spec fn valid(self) -> bool {
        &&& self.combine_module is Some ==> self.null_module is Some
        &&& self.mpv_device is Some <==> self.combine_module is Some
        &&& self.mpv_device matches Some(device) ==> device == "pulse/"@ + COMBINE_SINK_NAME@
    }

    /// Where cava listens: at the silent sink, if the player's audio gets there, else anywhere.
    pub open spec fn source(self) -> Seq<char> {
        if self.null_module is Some && self.combine_module is Some {
            "jellyfin_tui_vis.monitor"@
        } else {
            "auto"@
        }
    }

    /// The modules to unload in the end, the combined sink before the silent one that it uses.
    pub open spec fn to_unload(self) -> Seq<u32> {
        (match self.combine_module {
            Some(id) => seq![id],
            None => seq![],
        }) + (match self.null_module {
            Some(id) => seq![id],
            None => seq![],
        })
    }
}

impl View for VirtualSink {
    type V = Routing;

    closed spec fn view(&self) -> Routing {
        Routing {
            null_module: self.null_module,
            combine_module: self.combine_module,
            mpv_device: match self.mpv_device {
                Some(device) => Some(device@),
                None => None,
            },
        }
    }
}

/// What the set-up of the sinks waits for.
#[derive(Clone, Copy, Debug, PartialEq, Eq, Structural)]
pub enum SinkSetup {
    /// The silent sink.
    NullSink,
    /// The name of the real output.
    DefaultSink { null_module: u32 },
    /// The combined sink.
    CombineSink { null_module: u32 },
}

/// The next thing to do in the set-up of the sinks.
#[derive(Debug)]
pub enum SetupStep {
    /// Run pactl with these arguments, and go on with what it leaves behind.
    Run { setup: SinkSetup, args: Vec<String> },
    /// Nothing any more.
    Done { sink: VirtualSink },
}

/// What a step of the set-up says.
pub enum Step {
    Run { setup: SinkSetup, args: Seq<Seq<char>> },
    Done { routing: Routing },
}

impl View for SetupStep {
    type V = Step;

    open spec fn view(&self) -> Step {
        match self {
            SetupStep::Run { setup, args } => Step::Run { setup: *setup, args: text::texts(args@) },
            SetupStep::Done { sink } => Step::Done { routing: sink@ },
        }
    }
}

impl SinkSetup {
    /// The step that follows once pactl was run, by what it left behind. Without the silent sink
    /// the set-up ends at once.
    pub open spec fn then_step(self, output: Option<CommandOutput>) -> Step {
        match self {
            SinkSetup::NullSink => match loaded(output) {
                Some(null_module) => Step::Run {
                    setup: SinkSetup::DefaultSink { null_module },
                    args: seq!["get-default-sink"@],
                },
                None => Step::Done { routing: Routing::none() },
            },
            SinkSetup::DefaultSink { null_module } => Step::Run {
                setup: SinkSetup::CombineSink { null_module },
                args: combine_sink_arguments(output_sink(output)),
            },
            SinkSetup::CombineSink { null_module } => Step::Done {
                routing: Routing::over(null_module, loaded(output)),
            },
        }
    }

    /// Goes on with the set-up. `output` is what pactl left behind, if it could be run.
    pub fn advance(self, output: &Option<CommandOutput>) -> (step: SetupStep)
        ensures
            step@ == self.then_step(*output),
            read_exactly(*output),
            step@ matches Step::Done { routing } ==> routing.valid(),
    {
        match self {
            SinkSetup::NullSink => match pactl_load_module(output) {
                Some(null_module) => {
                    let mut args: Vec<String> = Vec::new();
                    args.push("get-default-sink".to_string());
                    assert(text::texts(args@) =~= seq!["get-default-sink"@]);
                    SetupStep::Run { setup: SinkSetup::DefaultSink { null_module }, args }
                },
                None => SetupStep::Done {
                    sink: VirtualSink { null_module: None, combine_module: None, mpv_device: None },
                },
            },
            SinkSetup::DefaultSink { null_module } => {
                let default_sink = match get_default_sink(output) {
                    Some(name) => name,
                    None => "@DEFAULT_SINK@".to_string(),
                };
                let mut name = "sink_name=".to_string();
                name.append(COMBINE_SINK_NAME);
                let mut slaves = "slaves=".to_string();
                slaves.append(default_sink.as_str());
                slaves.append(",");
                slaves.append(NULL_SINK_NAME);
                let mut options: Vec<String> = Vec::new();
                options.push(name);
                options.push(slaves);
                options.push("sink_properties=device.description=jellyfin-tui-output".to_string());
                assert(text::texts(options@) =~= seq![
                    "sink_name="@ + COMBINE_SINK_NAME@,
                    "slaves="@ + output_sink(*output) + ","@ + NULL_SINK_NAME@,
                    "sink_properties=device.description=jellyfin-tui-output"@,
                ]);
                SetupStep::Run {
                    setup: SinkSetup::CombineSink { null_module },
                    args: load_module_args("module-combine-sink", options),
                }
            },
            SinkSetup::CombineSink { null_module } => {
                let combine_module = pactl_load_module(output);
                let mpv_device = if combine_module.is_some() {
                    let mut device = "pulse/".to_string();
                    device.append(COMBINE_SINK_NAME);
                    Some(device)
                } else {
                    None
                };
                let null_module = Some(null_module);
                SetupStep::Done { sink: VirtualSink { null_module, combine_module, mpv_device } }
            },
        }
    }
}

impl VirtualSink {
    /// Starts the set-up of the sinks, with the silent one.
    pub fn create() -> (step: SetupStep)
        ensures
            step@ == (Step::Run { setup: SinkSetup::NullSink, args: null_sink_arguments() }),
    {
        let mut name = "sink_name=".to_string();
        name.append(NULL_SINK_NAME);
        let mut options: Vec<String> = Vec::new();
        options.push(name);
        options.push("sink_properties=device.description=jellyfin-tui-visualizer".to_string());
        assert(text::texts(options@) =~= seq![
            "sink_name="@ + NULL_SINK_NAME@,
            "sink_properties=device.description=jellyfin-tui-visualizer"@,
        ]);
        SetupStep::Run {
            setup: SinkSetup::NullSink,
            args: load_module_args("module-null-sink", options),
        }
    }

    /// The device that the player writes to, where it has one of its own.
    pub fn mpv_audio_device(&self) -> (device: Option<&str>)
        ensures
            match device {
                Some(device) => self@.mpv_device == Some(device@),
                None => self@.mpv_device is None,
            },
    {
        match &self.mpv_device {
            Some(device) => Some(device.as_str()),
            None => None,
        }
    }

    /// The source that cava listens to.
    pub fn cava_source(&self) -> (source: &'static str)
        ensures
            source@ == self@.source(),
    {
        if self.null_module.is_some() && self.combine_module.is_some() {
            "jellyfin_tui_vis.monitor"
        } else {
            "auto"
        }
    }

    /// The modules to unload when the sinks are not needed any more, in order.
    pub fn modules_to_unload(&self) -> (ids: Vec<u32>)
        ensures
            ids@ == self@.to_unload(),
    {
        let mut ids: Vec<u32> = Vec::new();
        if let Some(id) = self.combine_module {
            ids.push(id);
        }
        if let Some(id) = self.null_module {
            ids.push(id);
        }
        assert(ids@ =~= self@.to_unload());
        ids
    }
}

/// The text of cava's configuration, for a source to listen to.
pub open spec fn config(source: Seq<char>) -> Seq<char> {
    "[general]\nbars = "@ + text::decimal(BAR_COUNT as nat) + "\nframerate = "@ + text::decimal(
        FRAMERATE as nat,
    ) + "\n\n[input]\nmethod = pulse\nsource = "@ + source
        + "\n\n[output]\nmethod = raw\nraw_target = /dev/stdout\n"@
        + "data_format = binary\nbit_format = 16bit\n"@
}

/// Writes cava's configuration, for `source` to listen to.
pub fn cava_config(source: &str) -> (text: String)
    ensures
        text@ == config(source@),
{
    let mut text = "[general]\nbars = ".to_string();
    text.append(decimal_text(BAR_COUNT as u64).as_str());
    text.append("\nframerate = ");
    text.append(decimal_text(FRAMERATE as u64).as_str());
    text.append("\n\n[input]\nmethod = pulse\nsource = ");
    text.append(source);
    text.append("\n\n[output]\nmethod = raw\nraw_target = /dev/stdout\n");
    text.append("data_format = binary\nbit_format = 16bit\n");
    text
}

/// The levels in a frame: each in two bytes, the lower one first. A byte left over at the end
/// counts for nothing.
pub open spec fn levels(frame: Seq<u8>) -> Seq<u16> {
    Seq::new(frame.len() / 2, |i: int| (frame[2 * i] + 256 * frame[2 * i + 1]) as u16)
}

/// The bytes of a frame with the given levels.
pub open spec fn frame_of(levels: Seq<u16>) -> Seq<u8> {
    Seq::new(
        2 * levels.len(),
        |i: int|
            if i % 2 == 0 {
                (levels[i / 2] % 256) as u8
            } else {
                (levels[i / 2] / 256) as u8
            },
    )
}

/// Reads the levels in a frame.
pub fn decode_frame(frame: &[u8]) -> (bars: Vec<u16>)
    ensures
        bars@ == levels(frame@),
{
    let mut bars: Vec<u16> = Vec::new();
    let count: usize = frame.len() / 2;
    let mut i: usize = 0;
    while i < count
        invariant
            i <= count,
            count == frame@.len() / 2,
            frame@.len() <= usize::MAX,
            bars@ == levels(frame@).take(i as int),
        decreases count - i,
    {
        bars.push(frame[2 * i] as u16 + frame[2 * i + 1] as u16 * 256);
        assert(bars@ =~= levels(frame@).take(i + 1));
        i += 1;
    }
    assert(levels(frame@).take(i as int) =~= levels(frame@));
    bars
}

/// The `k`th complete frame of cava's output.
pub open spec fn nth_frame(stream: Seq<u8>, k: int) -> Seq<u8> {
    stream.subrange(k * FRAME_BYTES, (k + 1) * FRAME_BYTES)
}

/// Cava's output up to the last complete frame.
pub open spec fn whole_frames(stream: Seq<u8>) -> Seq<u8> {
    stream.take(stream.len() / FRAME_BYTES as nat * FRAME_BYTES)
}

/// Whether frames are what reading cava's output from its start gives, frame by frame.
pub open spec fn read_in_turn(stream: Seq<u8>, frames: Seq<Seq<u8>>) -> bool {
    &&& frames.len() <= stream.len() / FRAME_BYTES as nat
    &&& forall|k: int| 0 <= k < frames.len() ==> #[trigger] frames[k] == nth_frame(stream, k)
}

/// What the capture does next.
#[derive(Debug, PartialEq, Eq)]
pub enum CaptureStage {
    /// Read a frame from cava.
    Read,
    /// Offer the frame's levels to the view, without waiting.
    Offer { bars: Vec<u16> },
    /// Offer the same levels once more, without waiting.
    OfferAgain { bars: Vec<u16> },
    /// End cava, and the capture with it.
    Stop,
}

/// What came of it.
#[derive(Debug, PartialEq, Eq)]
pub enum CaptureEvent {
    /// Bytes were read.
    Frame { bytes: Vec<u8> },
    /// No frame could be read: cava has ended.
    ReadFailed,
    /// The view has room for the levels.
    Taken,
    /// The view lags behind, and the levels were dropped.
    Full,
    /// The view is gone.
    Disconnected,
}

/// What the capture does next, for the levels that it offers.
pub enum Capture {
    Read,
    Offer { bars: Seq<u16> },
    OfferAgain { bars: Seq<u16> },
    Stop,
}

impl View for CaptureStage {
    type V = Capture;

    open spec fn view(&self) -> Capture {
        match self {
            CaptureStage::Read => Capture::Read,
            CaptureStage::Offer { bars } => Capture::Offer { bars: bars@ },
            CaptureStage::OfferAgain { bars } => Capture::OfferAgain { bars: bars@ },
            CaptureStage::Stop => Capture::Stop,
        }
    }
}

impl CaptureEvent {
    /// The complete frame that was read, if it is one.
    pub open spec fn frame(self) -> Option<Seq<u8>> {
        match self {
            CaptureEvent::Frame { bytes } => if bytes@.len() == FRAME_BYTES {
                Some(bytes@)
            } else {
                None
            },
            _ => None,
        }
    }
}

impl Capture {
    /// The stage that follows an event: complete frames are read and their levels offered twice,
    /// until cava has ended or the second offer finds the view gone.
    pub open spec fn after(self, event: CaptureEvent) -> Capture {
        match self {
            Capture::Read => match event.frame() {
                Some(frame) => Capture::Offer { bars: levels(frame) },
                None => Capture::Stop,
            },
            Capture::Offer { bars } => Capture::OfferAgain { bars },
            Capture::OfferAgain { .. } => if event is Disconnected {
                Capture::Stop
            } else {
                Capture::Read
            },
            Capture::Stop => Capture::Stop,
        }
    }

    /// The levels that the view is offered in the stage.
    pub open spec fn offer(self) -> Seq<Seq<u16>> {
        match self {
            Capture::Offer { bars } => seq![bars],
            Capture::OfferAgain { bars } => seq![bars],
            _ => seq![],
        }
    }

    /// All that the view is offered from the stage on, over a run of events.
    pub open spec fn offers(self, events: Seq<CaptureEvent>) -> Seq<Seq<u16>>
        decreases events.len(),
    {
        if events.len() == 0 {
            seq![]
        } else {
            self.offer() + self.after(events[0]).offers(events.drop_first())
        }
    }

    /// The complete frames that are read from the stage on, over a run of events.
    pub open spec fn frames(self, events: Seq<CaptureEvent>) -> Seq<Seq<u8>>
        decreases events.len(),
    {
        if events.len() == 0 {
            seq![]
        } else {
            let read = if self is Read && events[0].frame() is Some {
                seq![events[0].frame()->0]
            } else {
                seq![]
            };
            read + self.after(events[0]).frames(events.drop_first())
        }
    }

    /// The stage that a run of events leads to.
    pub open spec fn reached(self, events: Seq<CaptureEvent>) -> Capture
        decreases events.len(),
    {
        if events.len() == 0 {
            self
        } else {
            self.after(events[0]).reached(events.drop_first())
        }
    }
}

impl CaptureStage {
    /// Goes on with the capture. Bytes that are no complete frame end it, as cava's end does.
    pub fn next(self, event: CaptureEvent) -> (stage: CaptureStage)
        ensures
            stage@ == self@.after(event),
    {
        match self {
            CaptureStage::Read => match event {
                CaptureEvent::Frame { bytes } => {
                    if bytes.len() == FRAME_BYTES {
                        CaptureStage::Offer { bars: decode_frame(bytes.as_slice()) }
                    } else {
                        CaptureStage::Stop
                    }
                },
                _ => CaptureStage::Stop,
            },
            CaptureStage::Offer { bars } => CaptureStage::OfferAgain { bars },
            CaptureStage::OfferAgain { .. } => match event {
                CaptureEvent::Disconnected => CaptureStage::Stop,
                _ => CaptureStage::Read,
            },
            CaptureStage::Stop => CaptureStage::Stop,
        }
    }
}

/// However pactl fares, a finished set-up leaves valid routing behind.
pub proof fn law_setup_leaves_valid_routing(setup: SinkSetup, output: Option<CommandOutput>)
    ensures
        setup.then_step(output) matches Step::Done { routing } ==> routing.valid(),
{
}

/// The set-up comes to its end after three commands at most.
pub proof fn law_setup_ends(
    first: Option<CommandOutput>,
    second: Option<CommandOutput>,
    third: Option<CommandOutput>,
)
    ensures
        SinkSetup::NullSink.then_step(first) matches Step::Run { setup: a, .. }
            ==> a.then_step(second) matches Step::Run { setup: b, .. }
            ==> b.then_step(third) is Done,
{
}

/// The outcome of the whole set-up: nothing without the silent sink; else the silent sink, and the
/// combined sink as far as it could be made.
pub proof fn law_setup_outcome(
    first: Option<CommandOutput>,
    second: Option<CommandOutput>,
    third: Option<CommandOutput>,
)
    ensures
        loaded(first) is None ==> SinkSetup::NullSink.then_step(first) == (Step::Done {
            routing: Routing::none(),
        }),
        loaded(first) matches Some(id) ==> {
            &&& SinkSetup::NullSink.then_step(first) matches Step::Run { setup: a, .. }
            &&& a.then_step(second) matches Step::Run { setup: b, .. }
            &&& b.then_step(third) == (Step::Done { routing: Routing::over(id, loaded(third)) })
        },
{
}

/// The player has a device of its own exactly where cava listens to the silent sink: never does
/// cava listen to a sink that the player's audio does not reach.
pub proof fn law_cava_hears_player(routing: Routing)
    requires
        routing.valid(),
    ensures
        routing.mpv_device is Some <==> routing.source() == NULL_SINK_NAME@ + ".monitor"@,
        routing.mpv_device is None <==> routing.source() == "auto"@,
{
    reveal_strlit("jellyfin_tui_vis.monitor");
    reveal_strlit("jellyfin_tui_vis");
    reveal_strlit(".monitor");
    reveal_strlit("auto");
    assert("jellyfin_tui_vis.monitor"@ =~= NULL_SINK_NAME@ + ".monitor"@);
    assert("auto"@.len() != "jellyfin_tui_vis.monitor"@.len());
}

/// What was loaded is unloaded, and nothing else; the combined sink goes before the silent one.
pub proof fn law_unloads_what_was_loaded(routing: Routing, id: u32)
    ensures
        routing.to_unload().contains(id) <==> routing.null_module == Some(id)
            || routing.combine_module == Some(id),
        routing.combine_module is Some && routing.null_module is Some ==> routing.to_unload()
            == seq![routing.combine_module->0, routing.null_module->0],
        routing == Routing::none() ==> routing.to_unload().len() == 0,
        routing.to_unload().len() == (if routing.combine_module is Some {
            1int
        } else {
            0
        }) + (if routing.null_module is Some {
            1int
        } else {
            0
        }),
{
    let ids = routing.to_unload();
    if routing.combine_module == Some(id) {
        assert(ids[0] == id);
    }
    if routing.null_module == Some(id) {
        assert(ids.last() == id);
        assert(ids[ids.len() - 1] == id);
    }
    if routing.combine_module is Some && routing.null_module is Some {
        assert(ids =~= seq![routing.combine_module->0, routing.null_module->0]);
    }
}

/// The module named to pactl for unloading is the one that it would report on loading.
pub proof fn law_unload_names_the_module(id: u32)
    ensures
        text::parsed_u32(unload_arguments(id)[1]) == Some(id),
{
    text::law_parse_reads_decimal(id);
}

/// A whole frame has a level for every bar.
pub proof fn law_frame_fills_bars(frame: Seq<u8>)
    requires
        frame.len() == FRAME_BYTES,
    ensures
        levels(frame).len() == BAR_COUNT,
{
}

/// Reading a frame gives back the levels that it was made of.
pub proof fn law_levels_read_back(bars: Seq<u16>)
    ensures
        levels(frame_of(bars)) == bars,
{
    let frame = frame_of(bars);
    assert forall|i: int| 0 <= i < bars.len() implies #[trigger] levels(frame)[i] == bars[i] by {
        assert((2 * i) % 2 == 0 && (2 * i) / 2 == i);
        assert((2 * i + 1) % 2 == 1 && (2 * i + 1) / 2 == i);
        assert(frame[2 * i] == (bars[i] % 256) as u8);
        assert(frame[2 * i + 1] == (bars[i] / 256) as u8);
    }
    assert(levels(frame) =~= bars);
}

/// A lagging view never stops the capture, a stopped capture stays stopped, and every complete frame
/// is offered twice before the next one is read.
pub proof fn law_capture_goes_on(frame: CaptureEvent, event: CaptureEvent, bars: Seq<u16>)
    requires
        frame.frame() is Some,
    ensures
        Capture::Read.after(frame).after(event) == (Capture::OfferAgain {
            bars: levels(frame.frame()->0),
        }),
        event !is Disconnected ==> (Capture::OfferAgain { bars }).after(event) == Capture::Read,
        (Capture::OfferAgain { bars }).after(CaptureEvent::Disconnected) == Capture::Stop,
        Capture::Read.after(CaptureEvent::ReadFailed) == Capture::Stop,
        Capture::Stop.after(event) == Capture::Stop,
{
}

/// A stopped capture reads nothing, offers nothing and stays stopped.
pub proof fn law_stopped_capture_is_silent(events: Seq<CaptureEvent>)
    ensures
        Capture::Stop.offers(events).len() == 0,
        Capture::Stop.frames(events).len() == 0,
        Capture::Stop.reached(events) == Capture::Stop,
    decreases events.len(),
{
    if events.len() > 0 {
        law_stopped_capture_is_silent(events.drop_first());
    }
}

/// Whether offers are the levels of each frame twice, in the order of the frames. Only in a stage
/// that still has to offer the last frame, its offers are left out.
pub open spec fn frames_twice(
    offers: Seq<Seq<u16>>,
    frames: Seq<Seq<u8>>,
    stage: Capture,
) -> bool {
    &&& forall|i: int|
        0 <= i < offers.len() ==> #[trigger] offers[i] == levels(frames[i / 2]) && offers[i].len()
            == BAR_COUNT
    &&& forall|i: int| 0 <= i < frames.len() ==> (#[trigger] frames[i]).len() == FRAME_BYTES
    &&& match stage {
        Capture::Offer { bars } => {
            &&& frames.len() > 0
            &&& offers.len() == 2 * frames.len() - 2
            &&& bars == levels(frames.last())
        },
        Capture::OfferAgain { bars } => {
            &&& frames.len() > 0
            &&& offers.len() == 2 * frames.len() - 1
            &&& bars == levels(frames.last())
        },
        _ => offers.len() == 2 * frames.len(),
    }
}

/// A frame in front, and its two offers in front, keep the order.
#[verifier::spinoff_prover]
proof fn lemma_frame_in_front(
    frame: Seq<u8>,
    offers: Seq<Seq<u16>>,
    frames: Seq<Seq<u8>>,
    stage: Capture,
)
    requires
        frame.len() == FRAME_BYTES,
        frames_twice(offers, frames, stage),
    ensures
        frames_twice(
            seq![levels(frame), levels(frame)] + offers,
            seq![frame] + frames,
            stage,
        ),
{
    let more = seq![levels(frame), levels(frame)] + offers;
    let all = seq![frame] + frames;
    assert forall|i: int| 0 <= i < more.len() implies #[trigger] more[i] == levels(all[i / 2])
        && more[i].len() == BAR_COUNT by {
        if i >= 2 {
            assert(more[i] == offers[i - 2]);
            assert(all[i / 2] == frames[(i - 2) / 2]);
        }
    }
    assert forall|i: int| 0 <= i < all.len() implies (#[trigger] all[i]).len() == FRAME_BYTES by {
        if i >= 1 {
            assert(all[i] == frames[i - 1]);
        }
    }
    if frames.len() > 0 {
        assert(all.last() == frames.last());
    }
}

/// What a run does that starts with a complete frame and goes on behind its two offers.
#[verifier::spinoff_prover]
proof fn lemma_run_from_frame(events: Seq<CaptureEvent>)
    requires
        events.len() >= 3,
        events[0].frame() is Some,
    ensures
        ({
            let bars = levels(events[0].frame()->0);
            let rest = events.subrange(3, events.len() as int);
            let later = if events[2] is Disconnected {
                Capture::Stop
            } else {
                Capture::Read
            };
            &&& Capture::Read.offers(events) == seq![bars, bars] + later.offers(rest)
            &&& Capture::Read.frames(events) == seq![events[0].frame()->0] + later.frames(rest)
            &&& Capture::Read.reached(events) == later.reached(rest)
        }),
{
    reveal_with_fuel(Capture::offers, 4);
    reveal_with_fuel(Capture::frames, 4);
    reveal_with_fuel(Capture::reached, 4);
    let rest = events.subrange(3, events.len() as int);
    assert(events.drop_first().drop_first().drop_first() =~= rest);
    let bars = levels(events[0].frame()->0);
    let later = (Capture::OfferAgain { bars }).after(events[2]);
    assert(Capture::Read.offers(events) =~= seq![bars, bars] + later.offers(rest));
    assert(Capture::Read.frames(events) =~= seq![events[0].frame()->0] + later.frames(rest));
}

/// Over every run of the capture, the view is offered the levels of each complete frame twice, in
/// the order in which the frames were read, and nothing else. Each offer has a level for every bar.
/// No offer is left out but those of a last frame that the run has not come to yet.
#[verifier::spinoff_prover]
pub proof fn law_offers_are_frames_twice(events: Seq<CaptureEvent>)
    ensures
        frames_twice(
            Capture::Read.offers(events),
            Capture::Read.frames(events),
            Capture::Read.reached(events),
        ),
    decreases events.len(),
{
    if events.len() > 0 && events[0].frame() is None {
        law_stopped_capture_is_silent(events.drop_first());
    } else if events.len() >= 3 {
        lemma_run_from_frame(events);
        let rest = events.subrange(3, events.len() as int);
        let later = if events[2] is Disconnected {
            Capture::Stop
        } else {
            Capture::Read
        };
        if later is Stop {
            law_stopped_capture_is_silent(rest);
        } else {
            law_offers_are_frames_twice(rest);
        }
        lemma_frame_in_front(
            events[0].frame()->0,
            later.offers(rest),
            later.frames(rest),
            later.reached(rest),
        );
    } else {
        reveal_with_fuel(Capture::offers, 3);
        reveal_with_fuel(Capture::frames, 3);
        reveal_with_fuel(Capture::reached, 3);
    }
}

/// A complete frame of cava's output lies before the bytes behind the last complete one.
#[verifier::spinoff_prover]
proof fn lemma_frame_is_whole(stream: Seq<u8>, k: int)
    requires
        0 <= k < stream.len() / FRAME_BYTES as nat,
    ensures
        nth_frame(stream, k) == nth_frame(whole_frames(stream), k),
{
    let whole = whole_frames(stream);
    assert(FRAME_BYTES == 128);
    assert(whole.len() == stream.len() / 128 * 128);
    assert((k + 1) * 128 <= whole.len() <= stream.len());
    assert(nth_frame(stream, k) =~= nth_frame(whole, k));
}

/// Where frames are read from cava's output in turn, the view is offered the levels of each complete
/// frame of the output twice, in order. Bytes behind the last complete frame are never offered.
#[verifier::spinoff_prover]
pub proof fn law_offers_follow_output(stream: Seq<u8>, events: Seq<CaptureEvent>)
    requires
        read_in_turn(stream, Capture::Read.frames(events)),
    ensures
        Capture::Read.offers(events).len() <= 2 * (stream.len() / FRAME_BYTES as nat),
        forall|i: int|
            0 <= i < Capture::Read.offers(events).len() ==> #[trigger] Capture::Read.offers(
                events,
            )[i] == levels(nth_frame(whole_frames(stream), i / 2)),
{
    law_offers_are_frames_twice(events);
    let offers = Capture::Read.offers(events);
    let frames = Capture::Read.frames(events);
    assert forall|i: int| 0 <= i < offers.len() implies #[trigger] offers[i] == levels(
        nth_frame(whole_frames(stream), i / 2),
    ) by {
        assert(frames[i / 2] == nth_frame(stream, i / 2));
        lemma_frame_is_whole(stream, i / 2);
    }
}

/// The configuration names the source that it was asked for: a line of its input section is the
/// word for the source with exactly that source behind it. All the rest is the same for every
/// source, so two sources that differ make two configurations that differ.
pub proof fn law_config_names_the_source(source: Seq<char>, other: Seq<char>)
    ensures
        config(source).subrange(36, 68) == "[input]\nmethod = pulse\nsource = "@,
        config(source).subrange(68, 68 + source.len() as int) == source,
        config(source)[68 + source.len() as int] == '\n',
        config(source).take(68) == config(other).take(68),
        config(source).skip(68 + source.len() as int) == config(other).skip(68 + other.len() as int),
        config(source) == config(other) ==> source == other,
{
    lemma_config_parts(source);
    lemma_config_parts(other);
    let front = config_front();
    let behind = config_behind();
    let (a, b) = (config(source), config(other));
    assert(a.take(68) =~= front && b.take(68) =~= front);
    assert(a.subrange(68, 68 + source.len() as int) =~= source);
    assert(a.skip(68 + source.len() as int) =~= behind && b.skip(68 + other.len() as int) =~= behind);
    assert(a[68 + source.len() as int] == behind[0]);
    assert(a.subrange(36, 68) =~= front.subrange(36, 68));
    if a == b {
        assert(a.len() == 68 + source.len() + behind.len());
        assert(b.len() == 68 + other.len() + behind.len());
        assert(b.subrange(68, 68 + other.len() as int) =~= other);
    }
}

/// The configuration asks for as many bars and frames as the capture reads, and for levels of two
/// bytes on cava's output, where the capture reads them.
pub proof fn law_config_asks_for_raw_bars(source: Seq<char>)
    ensures
        config(source).take(36) == "[general]\nbars = 64\nframerate = 60\n\n"@,
        config(source).skip(68 + source.len() as int)
            == "\n\n[output]\nmethod = raw\nraw_target = /dev/stdout\n"@
            + "data_format = binary\nbit_format = 16bit\n"@,
        BAR_COUNT == 64,
        FRAMERATE == 60,
        FRAME_BYTES == 2 * BAR_COUNT,
{
    lemma_config_parts(source);
    let front = config_front();
    assert(config(source).take(36) =~= front.take(36));
    assert(config(source).skip(68 + source.len() as int) =~= config_behind());
}

/// What stands in front of the source in a configuration.
spec fn config_front() -> Seq<char> {
    "[general]\nbars = 64\nframerate = 60\n\n"@ + "[input]\nmethod = pulse\nsource = "@
}

/// What stands behind the source in a configuration.
spec fn config_behind() -> Seq<char> {
    "\n\n[output]\nmethod = raw\nraw_target = /dev/stdout\n"@
        + "data_format = binary\nbit_format = 16bit\n"@
}

/// A configuration in three parts.
#[verifier::spinoff_prover]
proof fn lemma_config_parts(source: Seq<char>)
    ensures
        config(source) == config_front() + source + config_behind(),
        config_front().len() == 68,
        config_front().take(36) == "[general]\nbars = 64\nframerate = 60\n\n"@,
        config_front().subrange(36, 68) == "[input]\nmethod = pulse\nsource = "@,
        config_behind().len() > 0,
        config_behind()[0] == '\n',
{
    lemma_config_front();
    assert(config(source) =~= config_front() + source + config_behind());
    assert(config_behind().len() > 0 && config_behind()[0] == '\n') by {
        reveal_strlit("\n\n[output]\nmethod = raw\nraw_target = /dev/stdout\n");
    }
}

#[verifier::spinoff_prover]
proof fn lemma_config_front()
    ensures
        "[general]\nbars = "@ + text::decimal(BAR_COUNT as nat) + "\nframerate = "@ + text::decimal(
            FRAMERATE as nat,
        ) + "\n\n[input]\nmethod = pulse\nsource = "@ == config_front(),
        config_front().len() == 68,
        config_front().take(36) == "[general]\nbars = 64\nframerate = 60\n\n"@,
        config_front().subrange(36, 68) == "[input]\nmethod = pulse\nsource = "@,
{
    reveal_strlit("[general]\nbars = ");
    reveal_strlit("\nframerate = ");
    reveal_strlit("\n\n[input]\nmethod = pulse\nsource = ");
    reveal_strlit("[general]\nbars = 64\nframerate = 60\n\n");
    reveal_strlit("[input]\nmethod = pulse\nsource = ");
    assert(text::decimal(6) =~= seq!['6']);
    assert(text::decimal(64) =~= seq!['6', '4']);
    assert(text::decimal(60) =~= seq!['6', '0']);
    assert("[general]\nbars = "@ + seq!['6', '4'] + "\nframerate = "@ + seq!['6', '0']
        + "\n\n[input]\nmethod = pulse\nsource = "@ =~= config_front());
    assert(config_front().take(36) =~= "[general]\nbars = 64\nframerate = 60\n\n"@);
    assert(config_front().subrange(36, 68) =~= "[input]\nmethod = pulse\nsource = "@);
}

/// A level is made of its own two bytes: the even one counts once, the odd one 256-fold.
pub proof fn law_levels_have_two_bytes(frame: Seq<u8>, i: int)
    requires
        0 <= 2 * i < frame.len() - 1,
    ensures
        levels(frame).len() == frame.len() / 2,
        levels(frame)[i] == frame[2 * i] + 256 * frame[2 * i + 1],
{
}

/// A frame is complete with two bytes for each bar, no more and no less; it is then read as it came.
pub proof fn law_frames_are_complete(event: CaptureEvent)
    ensures
        event.frame() matches Some(frame) ==> frame.len() == 2 * BAR_COUNT,
        event matches CaptureEvent::Frame { bytes } ==> if bytes@.len() == 2 * BAR_COUNT {
            event.frame() == Some(bytes@)
        } else {
            event.frame() is None
        },
        event !is Frame ==> event.frame() is None,
        event.frame() is None ==> Capture::Read.after(event) == Capture::Stop,
        event.frame() matches Some(frame) ==> Capture::Read.after(event) matches Capture::Offer {
            bars,
        } && bars.len() == BAR_COUNT && forall|i: int|
            0 <= i < BAR_COUNT ==> #[trigger] bars[i] == frame[2 * i] + 256 * frame[2 * i + 1],
{
}

/// A stage offers what it holds.
pub proof fn law_stages_hold_their_bars(stage: CaptureStage)
    ensures
        match stage {
            CaptureStage::Read => stage@ is Read && stage@.offer().len() == 0,
            CaptureStage::Offer { bars } => stage@ == (Capture::Offer { bars: bars@ })
                && stage@.offer() == seq![bars@],
            CaptureStage::OfferAgain { bars } => stage@ == (Capture::OfferAgain { bars: bars@ })
                && stage@.offer() == seq![bars@],
            CaptureStage::Stop => stage@ is Stop && stage@.offer().len() == 0,
        },
{
}

/// Loading names the module and passes its options on as they are; unloading names the number.
pub proof fn law_arguments_name_the_module(
    module: Seq<char>,
    options: Seq<Seq<char>>,
    i: int,
    id: u32,
)
    requires
        0 <= i < options.len(),
    ensures
        load_arguments(module, options).len() == options.len() + 2,
        load_arguments(module, options)[0] == "load-module"@,
        load_arguments(module, options)[1] == module,
        load_arguments(module, options)[2 + i] == options[i],
        unload_arguments(id).len() == 2,
        unload_arguments(id)[0] == "unload-module"@,
        unload_arguments(id)[1].len() > 0,
        text::all_digits(unload_arguments(id)[1]),
        text::digits_value(unload_arguments(id)[1]) == id,
{
    text::lemma_decimal_digits(id as nat);
}

/// The combined sink passes the audio on to the real output that was found and to the very sink that
/// was made silent, in this order. Two outputs make two sinks.
pub proof fn law_sinks_are_connected(output: Seq<char>, other: Seq<char>)
    ensures
        ({
            let silent = null_sink_arguments();
            let combined = combine_sink_arguments(output);
            let slaves = combined[3];
            let at = 7 + output.len() as int;
            &&& silent.len() == 4 && combined.len() == 5
            &&& silent[0] == "load-module"@ && combined[0] == "load-module"@
            &&& silent[1] == "module-null-sink"@ && combined[1] == "module-combine-sink"@
            &&& silent[2] == "sink_name=jellyfin_tui_vis"@
            &&& combined[2] == "sink_name=jellyfin_tui_combined"@
            &&& slaves.take(7) == "slaves="@
            &&& slaves.subrange(7, at) == output
            &&& slaves[at] == ','
            &&& slaves.skip(at + 1) == silent[2].skip(10)
            &&& silent[3] == "sink_properties=device.description=jellyfin-tui-visualizer"@
            &&& combined[4] == "sink_properties=device.description=jellyfin-tui-output"@
        }),
        combine_sink_arguments(output) == combine_sink_arguments(other) ==> output == other,
{
    lemma_sink_names();
    lemma_slaves(output);
    lemma_slaves(other);
    if combine_sink_arguments(output) == combine_sink_arguments(other) {
        assert(combine_sink_arguments(output)[3] == combine_sink_arguments(other)[3]);
    }
}

proof fn lemma_sink_names()
    ensures
        "sink_name="@ + NULL_SINK_NAME@ == "sink_name=jellyfin_tui_vis"@,
        "sink_name="@ + COMBINE_SINK_NAME@ == "sink_name=jellyfin_tui_combined"@,
        "sink_name=jellyfin_tui_vis"@.skip(10) == NULL_SINK_NAME@,
        "pulse/"@ + COMBINE_SINK_NAME@ == "pulse/jellyfin_tui_combined"@,
{
    reveal_strlit("sink_name=");
    reveal_strlit("jellyfin_tui_vis");
    reveal_strlit("jellyfin_tui_combined");
    reveal_strlit("sink_name=jellyfin_tui_vis");
    reveal_strlit("sink_name=jellyfin_tui_combined");
    reveal_strlit("pulse/");
    reveal_strlit("pulse/jellyfin_tui_combined");
    assert("sink_name="@ + NULL_SINK_NAME@ =~= "sink_name=jellyfin_tui_vis"@);
    assert("sink_name="@ + COMBINE_SINK_NAME@ =~= "sink_name=jellyfin_tui_combined"@);
    assert("sink_name=jellyfin_tui_vis"@.skip(10) =~= NULL_SINK_NAME@);
    assert("pulse/"@ + COMBINE_SINK_NAME@ =~= "pulse/jellyfin_tui_combined"@);
}

proof fn lemma_slaves(output: Seq<char>)
    ensures
        ({
            let slaves = combine_sink_arguments(output)[3];
            let at = 7 + output.len() as int;
            &&& slaves.take(7) == "slaves="@
            &&& slaves.subrange(7, at) == output
            &&& slaves[at] == ','
            &&& slaves.skip(at + 1) == NULL_SINK_NAME@
            &&& slaves.len() == at + 1 + NULL_SINK_NAME@.len()
        }),
{
    reveal_strlit("slaves=");
    reveal_strlit(",");
    let slaves = combine_sink_arguments(output)[3];
    let at = 7 + output.len() as int;
    assert(slaves == "slaves="@ + output + ","@ + NULL_SINK_NAME@);
    assert(slaves.take(7) =~= "slaves="@);
    assert(slaves.subrange(7, at) =~= output);
    assert(slaves.skip(at + 1) =~= NULL_SINK_NAME@);
}

/// A command that could not be run, or failed, has loaded nothing and names no output. One that
/// printed the number of a module, whatever whitespace around it, has loaded that module.
pub proof fn law_number_printed_is_loaded(
    output: CommandOutput,
    front: Seq<char>,
    id: u32,
    behind: Seq<char>,
)
    requires
        text::utf8_lossy(output.stdout@) == front + text::decimal(id as nat) + behind,
        text::blank(front),
        text::blank(behind),
    ensures
        loaded(Some(output)) == if output.success {
            Some(id)
        } else {
            None
        },
        loaded(None) is None,
{
    text::lemma_decimal_digits(id as nat);
    let digits = text::decimal(id as nat);
    assert(text::is_digit(digits[0]) && text::is_digit(digits.last()));
    text::law_trim_takes_off_whitespace(front, digits, behind);
    text::law_parse_reads_decimal(id);
}

/// What is no number, has loaded nothing.
pub proof fn law_no_number_nothing_loaded(output: CommandOutput, i: int)
    requires
        ({
            let printed = text::trimmed(text::utf8_lossy(output.stdout@));
            printed.len() == 0 || 0 <= i < printed.len() && !('0' <= printed[i] <= '9') && !(i == 0
                && printed[i] == '+')
        }),
    ensures
        loaded(Some(output)) is None,
{
    text::law_parse_takes_numerals(text::trimmed(text::utf8_lossy(output.stdout@)));
}

/// The name that the sound server printed, whatever whitespace around it, is the output to use.
/// Where it printed none, or could not be asked, its word for the default output stands in.
pub proof fn law_name_printed_is_used(
    output: CommandOutput,
    front: Seq<char>,
    name: Seq<char>,
    behind: Seq<char>,
)
    requires
        text::utf8_lossy(output.stdout@) == front + name + behind,
        text::blank(front),
        text::blank(behind),
        name.len() > 0 ==> !text::is_white_space(name[0]) && !text::is_white_space(name.last()),
    ensures
        output_sink(Some(output)) == if output.success && name.len() > 0 {
            name
        } else {
            "@DEFAULT_SINK@"@
        },
        reported_sink(Some(output)) is Some <==> output.success && name.len() > 0,
        reported_sink(Some(output)) matches Some(reported) ==> reported == name,
        output_sink(None) == "@DEFAULT_SINK@"@,
        reported_sink(None) is None,
{
    text::law_trim_takes_off_whitespace(front, name, behind);
}

/// Each step of the set-up runs one command: first the silent sink is made, then the real output is
/// asked for, then the combined sink is made over both. Numbers that were reported are kept.
pub proof fn law_setup_takes_steps(null_module: u32, output: Option<CommandOutput>)
    ensures
        match SinkSetup::NullSink.then_step(output) {
            Step::Run { setup, args } => {
                &&& loaded(output) is Some
                &&& setup == (SinkSetup::DefaultSink { null_module: loaded(output)->0 })
                &&& args.len() == 1 && args[0] == "get-default-sink"@
            },
            Step::Done { routing } => {
                &&& loaded(output) is None
                &&& routing.null_module is None && routing.combine_module is None
                &&& routing.mpv_device is None
            },
        },
        match (SinkSetup::DefaultSink { null_module }).then_step(output) {
            Step::Run { setup, args } => {
                &&& setup == (SinkSetup::CombineSink { null_module })
                &&& args == combine_sink_arguments(output_sink(output))
            },
            Step::Done { .. } => false,
        },
        match (SinkSetup::CombineSink { null_module }).then_step(output) {
            Step::Run { .. } => false,
            Step::Done { routing } => {
                &&& routing.null_module == Some(null_module)
                &&& routing.combine_module == loaded(output)
                &&& routing.mpv_device is Some <==> loaded(output) is Some
                &&& routing.mpv_device matches Some(device) ==> device
                    == "pulse/jellyfin_tui_combined"@
            },
        },
{
    lemma_sink_names();
}

/// Where both sinks were made, cava listens to what goes into the silent one, else to anything.
pub proof fn law_where_cava_listens(routing: Routing)
    ensures
        routing.null_module is Some && routing.combine_module is Some ==> routing.source()
            == "jellyfin_tui_vis.monitor"@ && config(routing.source()).subrange(68, 92)
            == "jellyfin_tui_vis.monitor"@,
        routing.null_module is None || routing.combine_module is None ==> routing.source()
            == "auto"@ && config(routing.source()).subrange(68, 72) == "auto"@,
{
    reveal_strlit("jellyfin_tui_vis.monitor");
    reveal_strlit("auto");
    law_config_names_the_source(routing.source(), routing.source());
}

/// What a set-up step says is what it holds.
pub proof fn law_steps_say_what_they_hold(step: SetupStep, i: int)
    ensures
        match step {
            SetupStep::Run { setup, args } => {
                &&& step@ matches Step::Run { setup: said, args: texts }
                &&& said == setup
                &&& texts.len() == args@.len()
                &&& 0 <= i < args@.len() ==> texts[i] == args@[i]@
            },
            SetupStep::Done { sink } => step@ == (Step::Done { routing: sink@ }),
        },
{
}

/// What is known of the sinks is what the fields hold.
proof fn lemma_routing_is_the_fields(sink: VirtualSink)
    ensures
        sink@.null_module == sink.null_module,
        sink@.combine_module == sink.combine_module,
        sink@.mpv_device is Some <==> sink.mpv_device is Some,
        sink.mpv_device matches Some(device) ==> sink@.mpv_device == Some(device@),
{
}

} // verus!
