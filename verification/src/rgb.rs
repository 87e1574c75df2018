//! Fan lighting that follows the colours of the album, through the lighting service PitRGB.
//!
//! The application owns one layer of the service while music plays. Pausing or exiting deletes the
//! layer, which reveals the next one below. The service fades between colours by itself, so every
//! change is sent once.
use vstd::prelude::*;
use vstd::string::*;

use crate::text::{self, decimal_text};

verus! {

/// A colour as red, green and blue.
pub type Rgb8 = (u8, u8, u8);

/// A file system path. It is carried, and never looked into.
#[verifier::external_type_specification]
#[verifier::external_body]
pub struct ExPathBuf(std::path::PathBuf);

/// A colour as the service takes it.
#[derive(Clone, Copy, Debug, PartialEq, Eq, Structural)]
pub struct Rgb {
    pub r: u8,
    pub g: u8,
    pub b: u8,
}

/// The colour that a triple stands for.
pub open spec fn rgb_of(color: Rgb8) -> Rgb {
    Rgb { r: color.0, g: color.1, b: color.2 }
}

impl From<Rgb8> for Rgb {
    fn from(color: Rgb8) -> (rgb: Self) {
        Rgb { r: color.0, g: color.1, b: color.2 }
    }
}

impl vstd::std_specs::convert::FromSpecImpl<Rgb8> for Rgb {
    open spec fn obeys_from_spec() -> bool {
        true
    }

    open spec fn from_spec(color: Rgb8) -> Self {
        rgb_of(color)
    }
}

/// What the fans show.
#[derive(Clone, Copy, Debug, PartialEq, Eq, Structural)]
pub enum FanColors {
    Solid { rgb: Rgb },
    Split { left: Rgb, right: Rgb },
}

/// A request to the service.
#[derive(Clone, Copy, Debug, PartialEq, Eq, Structural)]
pub enum Request {
    SetLayer { layer: u32, colors: FanColors },
    DeleteLayer { layer: u32 },
}

/// The answer of the service to a request.
#[derive(Debug)]
pub struct Response {
    pub ok: bool,
    pub error: Option<String>,
}

/// The colours that a primary and a secondary colour make: a solid fill where they are the same.
pub open spec fn fan_colors(primary: Rgb8, secondary: Rgb8) -> FanColors {
    if primary == secondary {
        FanColors::Solid { rgb: rgb_of(primary) }
    } else {
        FanColors::Split { left: rgb_of(primary), right: rgb_of(secondary) }
    }
}

/// The JSON text of a colour.
pub open spec fn rgb_json(rgb: Rgb) -> Seq<char> {
    "{\"r\":"@ + text::decimal(rgb.r as nat) + ",\"g\":"@ + text::decimal(rgb.g as nat)
        + ",\"b\":"@ + text::decimal(rgb.b as nat) + "}"@
}

/// The JSON text of the fans' colours.
pub open spec fn colors_json(colors: FanColors) -> Seq<char> {
    match colors {
        FanColors::Solid { rgb } => "{\"type\":\"solid\",\"rgb\":"@ + rgb_json(rgb) + "}"@,
        FanColors::Split { left, right } => "{\"type\":\"split\",\"left\":"@ + rgb_json(left)
            + ",\"right\":"@ + rgb_json(right) + "}"@,
    }
}

/// The JSON text of a request.
pub open spec fn request_json(request: Request) -> Seq<char> {
    match request {
        Request::SetLayer { layer, colors } => "{\"command\":\"set_layer\",\"layer\":"@
            + text::decimal(layer as nat) + ",\"colors\":"@ + colors_json(colors) + "}"@,
        Request::DeleteLayer { layer } => "{\"command\":\"delete_layer\",\"layer\":"@
            + text::decimal(layer as nat) + "}"@,
    }
}

/// Writes a colour as JSON behind `json`.
fn append_rgb(json: &mut String, rgb: Rgb)
    ensures
        final(json)@ == old(json)@ + rgb_json(rgb),
{
    json.append("{\"r\":");
    json.append(decimal_text(rgb.r as u64).as_str());
    json.append(",\"g\":");
    json.append(decimal_text(rgb.g as u64).as_str());
    json.append(",\"b\":");
    json.append(decimal_text(rgb.b as u64).as_str());
    json.append("}");
    assert(json@ =~= old(json)@ + rgb_json(rgb));
}

/// Writes the fans' colours as JSON behind `json`.
fn append_colors(json: &mut String, colors: FanColors)
    ensures
        final(json)@ == old(json)@ + colors_json(colors),
{
    match colors {
        FanColors::Solid { rgb } => {
            json.append("{\"type\":\"solid\",\"rgb\":");
            append_rgb(json, rgb);
        },
        FanColors::Split { left, right } => {
            json.append("{\"type\":\"split\",\"left\":");
            append_rgb(json, left);
            json.append(",\"right\":");
            append_rgb(json, right);
        },
    }
    json.append("}");
    assert(json@ =~= old(json)@ + colors_json(colors));
}

impl Request {
    /// The layer that the request is about.
    pub open spec fn layer(self) -> u32 {
        match self {
            Request::SetLayer { layer, .. } => layer,
            Request::DeleteLayer { layer } => layer,
        }
    }

    /// Writes the request as JSON.
    pub fn to_json(&self) -> (json: String)
        ensures
            json@ == request_json(*self),
    {
        match *self {
            Request::SetLayer { layer, colors } => {
                let mut json = "{\"command\":\"set_layer\",\"layer\":".to_string();
                json.append(decimal_text(layer as u64).as_str());
                json.append(",\"colors\":");
                append_colors(&mut json, colors);
                json.append("}");
                assert(json@ =~= request_json(*self));
                json
            },
            Request::DeleteLayer { layer } => {
                let mut json = "{\"command\":\"delete_layer\",\"layer\":".to_string();
                json.append(decimal_text(layer as u64).as_str());
                json.append("}");
                assert(json@ =~= request_json(*self));
                json
            },
        }
    }

    /// Writes the request as it goes over the socket: its JSON text and the end of the line.
    pub fn to_line(&self) -> (line: String)
        ensures
            line@ == request_json(*self) + "\n"@,
    {
        let mut line = self.to_json();
        line.append("\n");
        line
    }
}

/// What a request came to, given the line that the service sent back and what that line parsed to:
/// an empty line means that the service hung up, a line that does not parse is an error, and so is
/// a refusal, with the reason that the service gave or a general one.
pub open spec fn reply_meaning(line: Seq<char>, parsed: Result<Response, String>) -> Result<
    (),
    Seq<char>,
> {
    if line.len() == 0 {
        Err("PitRGB closed the connection without a response"@)
    } else {
        match parsed {
            Err(error) => Err(error@),
            Ok(response) => if response.ok {
                Ok(())
            } else {
                match response.error {
                    Some(reason) => Err(reason@),
                    None => Err("PitRGB rejected the request"@),
                }
            },
        }
    }
}

/// Reads the reply to a request: `line` as it came over the socket, and what it parsed to.
pub fn read_reply(line: &str, parsed: Result<Response, String>) -> (outcome: Result<(), String>)
    ensures
        match outcome {
            Ok(()) => reply_meaning(line@, parsed) == Ok::<(), Seq<char>>(()),
            Err(error) => reply_meaning(line@, parsed) == Err::<(), Seq<char>>(error@),
        },
{
    if line.is_empty() {
        return Err("PitRGB closed the connection without a response".to_string());
    }
    match parsed {
        Err(error) => Err(error),
        Ok(response) => {
            if response.ok {
                Ok(())
            } else {
                match response.error {
                    Some(reason) => Err(reason),
                    None => Err("PitRGB rejected the request".to_string()),
                }
            }
        },
    }
}

/// A service that was reached once, and the layer that the application owns there.
pub struct PitRgbClient {
    pub socket: std::path::PathBuf,
    pub layer: u32,
}

impl PitRgbClient {
    /// Makes a client of the service at `socket`, given what came of a first connection.
    pub fn connect<E>(
        socket: std::path::PathBuf,
        layer: u32,
        probe: Result<(), E>,
    ) -> (client: Result<Self, E>)
        ensures
            client == (match probe {
                Ok(()) => Ok::<Self, E>(PitRgbClient { socket, layer }),
                Err(error) => Err::<Self, E>(error),
            }),
    {
        match probe {
            Ok(()) => Ok(PitRgbClient { socket, layer }),
            Err(error) => Err(error),
        }
    }

    /// The request that shows a primary and a secondary colour.
    pub fn set_color(&self, primary: Rgb8, secondary: Rgb8) -> (request: Request)
        ensures
            request == (Request::SetLayer {
                layer: self.layer,
                colors: fan_colors(primary, secondary),
            }),
    {
        let colors = if same_color(primary, secondary) {
            FanColors::Solid { rgb: Rgb::from(primary) }
        } else {
            FanColors::Split { left: Rgb::from(primary), right: Rgb::from(secondary) }
        };
        Request::SetLayer { layer: self.layer, colors }
    }

    /// The request that gives the layer up.
    pub fn delete_layer(&self) -> (request: Request)
        ensures
            request == (Request::DeleteLayer { layer: self.layer }),
    {
        Request::DeleteLayer { layer: self.layer }
    }

    /// Where a request goes, and the line that is sent.
    pub fn send(&self, request: &Request) -> (message: (&std::path::PathBuf, String))
        ensures
            *message.0 == self.socket,
            message.1@ == request_json(*request) + "\n"@,
    {
        (&self.socket, request.to_line())
    }
}

/// Tells whether two colours are the same.
fn same_color(a: Rgb8, b: Rgb8) -> (same: bool)
    ensures
        same == (a == b),
{
    a.0 == b.0 && a.1 == b.1 && a.2 == b.2
}

/// Keeps the fans in the colours of the album.
///
/// Each change answers with the request that has to be sent for it, if any. The caller sends it and
/// hands the outcome to `settle`, before the next change.
pub struct RgbSync {
    client: Option<PitRgbClient>,
    last_color: Option<(Rgb8, Rgb8)>,
    paused: bool,
    layer_active: bool,
}

/// What the lighting knows.
pub struct SyncState {
    /// The service, where it is enabled and was reached.
    pub client: Option<PitRgbClient>,
    /// The primary and the secondary colour that were asked for last.
    pub last_color: Option<(Rgb8, Rgb8)>,
    pub paused: bool,
    /// Whether the service shows the last colours.
    pub layer_active: bool,
}

impl SyncState {
    /// The state at the start: paused, so that colours found before the first track plays are not
    /// shown. There is a client where lighting is enabled and the service was reached.
    pub open spec fn fresh(
        enabled: bool,
        socket: std::path::PathBuf,
        layer: u32,
        reached: bool,
    ) -> SyncState {
        SyncState {
            client: if enabled && reached {
                Some(PitRgbClient { socket, layer })
            } else {
                None
            },
            last_color: None,
            paused: true,
            layer_active: false,
        }
    }

    /// What the service shows, once it was told: a layer is active only of a client, while playing,
    /// and in the last colours.
    pub open spec fn valid(self) -> bool {
        self.layer_active ==> self.client is Some && !self.paused && self.last_color is Some
    }

    /// The request that shows two colours.
    pub open spec fn show(self, colors: (Rgb8, Rgb8)) -> Request {
        Request::SetLayer { layer: self.client->0.layer, colors: fan_colors(colors.0, colors.1) }
    }

    /// The request that gives the layer up.
    pub open spec fn release(self) -> Request {
        Request::DeleteLayer { layer: self.client->0.layer }
    }

    /// What has to be sent for new colours: nothing without a client, while paused, or for colours
    /// that are shown already.
    pub open spec fn color_request(self, colors: (Rgb8, Rgb8)) -> Option<Request> {
        if self.client is Some && !self.paused && !(self.last_color == Some(colors)
            && self.layer_active) {
            Some(self.show(colors))
        } else {
            None
        }
    }

    /// The state once new colours were asked for.
    pub open spec fn colored(self, colors: (Rgb8, Rgb8)) -> SyncState {
        SyncState { last_color: Some(colors), ..self }
    }

    /// What has to be sent when playback pauses or resumes: nothing without a client or without a
    /// change; else pausing gives the layer up, and resuming shows the last colours, if any.
    pub open spec fn pause_request(self, paused: bool) -> Option<Request> {
        if self.client is None || self.paused == paused {
            None
        } else if paused {
            Some(self.release())
        } else {
            match self.last_color {
                Some(colors) => Some(self.show(colors)),
                None => None,
            }
        }
    }

    /// The state once playback paused or resumed.
    pub open spec fn with_pause(self, paused: bool) -> SyncState {
        SyncState { paused, ..self }
    }

    /// What has to be sent on exit.
    pub open spec fn exit_request(self) -> Option<Request> {
        if self.client is Some {
            Some(self.release())
        } else {
            None
        }
    }

    /// The state on exit, whatever comes of the request.
    pub open spec fn exited(self) -> SyncState {
        SyncState { layer_active: self.layer_active && self.client is None, ..self }
    }

    /// The state once the service did, or did not, carry a request out.
    pub open spec fn settled(self, request: Request, done: bool) -> SyncState {
        SyncState { layer_active: request is SetLayer && done, ..self }
    }

    /// The state once the service carried out what was asked of it, if anything was.
    pub open spec fn followed(self, request: Option<Request>, done: bool) -> SyncState {
        match request {
            Some(request) => self.settled(request, done),
            None => self,
        }
    }
}

impl View for RgbSync {
    type V = SyncState;

    closed spec fn view(&self) -> SyncState {
        SyncState {
            client: self.client,
            last_color: self.last_color,
            paused: self.paused,
            layer_active: self.layer_active,
        }
    }
}

impl RgbSync {
    /// Starts the lighting, given what came of a first connection to the service at `socket`. The
    /// connection is only looked at where lighting is enabled.
    pub fn new<E>(
        enabled: bool,
        socket: std::path::PathBuf,
        layer: u32,
        probe: Result<(), E>,
    ) -> (sync: Self)
        ensures
            sync@ == SyncState::fresh(enabled, socket, layer, probe is Ok),
            sync@.valid(),
    {
        let client = if enabled {
            match PitRgbClient::connect(socket, layer, probe) {
                Ok(client) => Some(client),
                Err(_) => None,
            }
        } else {
            None
        };
        RgbSync { client, last_color: None, paused: true, layer_active: false }
    }

    /// Tells whether colours can be shown, and so whether they are worth finding.
    pub fn is_active(&self) -> (active: bool)
        ensures
            active == (self@.client is Some),
    {
        self.client.is_some()
    }

    /// The service that requests go to.
    pub fn client(&self) -> (client: Option<&PitRgbClient>)
        ensures
            client == (match self@.client {
                Some(client) => Some(&client),
                None => None,
            }),
    {
        self.client.as_ref()
    }

    /// Splits the fans between a primary and a secondary colour. The same colour twice makes a
    /// solid fill.
    pub fn set_color(&mut self, primary: Rgb8, secondary: Rgb8) -> (request: Option<Request>)
        ensures
            final(self)@ == old(self)@.colored((primary, secondary)),
            request == old(self)@.color_request((primary, secondary)),
    {
        let known = match self.last_color {
            Some(last) => same_color(last.0, primary) && same_color(last.1, secondary),
            None => false,
        };
        if known && (self.paused || self.layer_active) {
            return None;
        }
        self.last_color = Some((primary, secondary));
        if self.paused {
            return None;
        }
        match &self.client {
            Some(client) => Some(client.set_color(primary, secondary)),
            None => None,
        }
    }

    /// Gives the layer up while playback is paused, and takes it back when it resumes. Saying the
    /// same again changes nothing, so this can be called all the time.
    pub fn set_paused(&mut self, paused: bool) -> (request: Option<Request>)
        ensures
            final(self)@ == old(self)@.with_pause(paused),
            request == old(self)@.pause_request(paused),
    {
        if self.paused == paused {
            return None;
        }
        self.paused = paused;
        match &self.client {
            None => None,
            Some(client) => {
                if paused {
                    Some(client.delete_layer())
                } else if let Some((primary, secondary)) = self.last_color {
                    Some(client.set_color(primary, secondary))
                } else {
                    None
                }
            },
        }
    }

    /// Gives the layer up before the application exits. What comes of the request makes no
    /// difference any more.
    pub fn shutdown(&mut self) -> (request: Option<Request>)
        ensures
            final(self)@ == old(self)@.exited(),
            request == old(self)@.exit_request(),
    {
        match &self.client {
            Some(client) => {
                let request = client.delete_layer();
                self.layer_active = false;
                Some(request)
            },
            None => None,
        }
    }

    /// Takes note of what came of a request.
    pub fn settle(&mut self, request: Request, outcome: &Result<(), String>)
        ensures
            final(self)@ == old(self)@.settled(request, outcome is Ok),
    {
        self.layer_active = match request {
            Request::SetLayer { .. } => outcome.is_ok(),
            Request::DeleteLayer { .. } => false,
        };
    }
}

/// Whatever the service does, what is noted of it stays true: from the start, and over new colours,
/// pauses and the exit, each followed up by its outcome.
pub proof fn law_state_stays_valid(
    state: SyncState,
    colors: (Rgb8, Rgb8),
    paused: bool,
    done: bool,
    enabled: bool,
    socket: std::path::PathBuf,
    layer: u32,
    reached: bool,
)
    requires
        state.valid(),
    ensures
        SyncState::fresh(enabled, socket, layer, reached).valid(),
        state.colored(colors).followed(state.color_request(colors), done).valid(),
        state.with_pause(paused).followed(state.pause_request(paused), done).valid(),
        state.exited().valid(),
        !state.exited().layer_active,
{
}

/// What the layer shows once the service has carried out a request, if the layer is there at all.
pub open spec fn carried_out(request: Request) -> Option<FanColors> {
    match request {
        Request::SetLayer { colors, .. } => Some(colors),
        Request::DeleteLayer { .. } => None,
    }
}

impl SyncState {
    /// Whether what is noted agrees with what the layer shows.
    pub open spec fn in_step(self, shown: Option<FanColors>) -> bool {
        &&& self.valid()
        &&& self.layer_active ==> match self.last_color {
            Some(colors) => shown == Some(fan_colors(colors.0, colors.1)),
            None => false,
        }
    }
}

/// The fans follow the album: while playing, once the service has carried out what is asked of it,
/// if anything is, the layer shows the colours that were asked for last.
pub proof fn law_fans_follow_colors(
    state: SyncState,
    shown: Option<FanColors>,
    colors: (Rgb8, Rgb8),
)
    requires
        state.in_step(shown),
        state.client is Some,
        !state.paused,
    ensures
        ({
            let request = state.color_request(colors);
            let after = state.colored(colors).followed(request, true);
            let now = match request {
                Some(request) => carried_out(request),
                None => shown,
            };
            now == Some(fan_colors(colors.0, colors.1)) && after.in_step(now)
        }),
{
}

/// The fans follow playback: once the service has carried out what is asked of it, the layer is
/// gone while paused, and after a pause it shows the colours that were asked for last.
pub proof fn law_fans_follow_playback(state: SyncState, shown: Option<FanColors>, paused: bool)
    requires
        state.in_step(shown),
        state.client is Some,
        state.paused != paused,
    ensures
        ({
            let request = state.pause_request(paused);
            let after = state.with_pause(paused).followed(request, true);
            let now = match request {
                Some(request) => carried_out(request),
                None => shown,
            };
            &&& after.in_step(now)
            &&& paused ==> now is None
            &&& !paused ==> match state.last_color {
                Some(colors) => now == Some(fan_colors(colors.0, colors.1)),
                None => request is None,
            }
        }),
{
}

/// Whatever a failed request has left on the layer, what is noted still agrees with it.
pub proof fn law_failure_keeps_in_step(
    state: SyncState,
    colors: (Rgb8, Rgb8),
    paused: bool,
    left: Option<FanColors>,
)
    requires
        state.valid(),
    ensures
        state.color_request(colors) is Some ==> state.colored(colors).followed(
            state.color_request(colors),
            false,
        ).in_step(left),
        state.pause_request(paused) is Some ==> state.with_pause(paused).followed(
            state.pause_request(paused),
            false,
        ).in_step(left),
        state.exited().in_step(left),
{
}

/// Nothing is shown while playback is paused, which it is at the start.
pub proof fn law_nothing_shown_while_paused(
    state: SyncState,
    colors: (Rgb8, Rgb8),
    enabled: bool,
    socket: std::path::PathBuf,
    layer: u32,
    reached: bool,
)
    requires
        state.paused,
    ensures
        state.color_request(colors) is None,
        state.colored(colors).paused,
        SyncState::fresh(enabled, socket, layer, reached).paused,
{
}

/// Pausing or resuming twice in a row is the same as once: the second time nothing is sent and
/// nothing changes.
pub proof fn law_pause_is_idempotent(state: SyncState, paused: bool, done: bool)
    ensures
        state.with_pause(paused).followed(state.pause_request(paused), done).pause_request(paused)
            is None,
        state.with_pause(paused).followed(state.pause_request(paused), done).with_pause(paused)
            == state.with_pause(paused).followed(state.pause_request(paused), done),
{
}

/// Pausing gives the layer up, and resuming shows the colours again that were asked for last, be it
/// before the pause or during it, whether or not the service obeyed in between.
pub proof fn law_resume_restores_colors(
    state: SyncState,
    before: (Rgb8, Rgb8),
    during: (Rgb8, Rgb8),
    done: bool,
)
    requires
        state.client is Some,
        !state.paused,
        state.last_color == Some(before),
    ensures
        state.pause_request(true) == Some(state.release()),
        state.with_pause(true).followed(state.pause_request(true), done).pause_request(false)
            == Some(state.show(before)),
        state.with_pause(true).followed(state.pause_request(true), done).colored(
            during,
        ).pause_request(false) == Some(state.show(during)),
{
}

/// Colours are sent once: when the service has them, asking for them again sends nothing.
pub proof fn law_colors_are_sent_once(state: SyncState, colors: (Rgb8, Rgb8))
    requires
        state.client is Some,
        !state.paused,
    ensures
        state.colored(colors).followed(state.color_request(colors), true).color_request(colors)
            is None,
        state.with_pause(true).colored(colors).with_pause(false).followed(
            state.with_pause(true).colored(colors).pause_request(false),
            true,
        ).color_request(colors) is None,
{
}

/// Colours that did not get through are sent again the next time they are asked for.
pub proof fn law_failed_colors_are_retried(state: SyncState, colors: (Rgb8, Rgb8))
    requires
        state.color_request(colors) is Some,
    ensures
        state.colored(colors).followed(state.color_request(colors), false).color_request(colors)
            == state.color_request(colors),
{
}

/// The application never touches a layer but its own, which never changes, and without a service it
/// sends nothing at all.
pub proof fn law_one_layer(state: SyncState, colors: (Rgb8, Rgb8), paused: bool, done: bool)
    ensures
        state.color_request(colors) matches Some(request) ==> state.client is Some
            && request.layer() == state.client->0.layer,
        state.pause_request(paused) matches Some(request) ==> state.client is Some
            && request.layer() == state.client->0.layer,
        state.exit_request() matches Some(request) ==> state.client is Some && request.layer()
            == state.client->0.layer,
        state.colored(colors).followed(state.color_request(colors), done).client == state.client,
        state.with_pause(paused).followed(state.pause_request(paused), done).client == state.client,
        state.exited().client == state.client,
        state.exit_request() is Some <==> state.client is Some,
{
}

/// The same colour twice makes a solid fill, and two colours make a split with the primary colour
/// on the left.
pub proof fn law_solid_or_split(primary: Rgb8, secondary: Rgb8)
    ensures
        fan_colors(primary, primary) == (FanColors::Solid { rgb: rgb_of(primary) }),
        primary != secondary ==> fan_colors(primary, secondary) == (FanColors::Split {
            left: rgb_of(primary),
            right: rgb_of(secondary),
        }),
{
}

/// No character of `s` ends a line.
pub open spec fn one_line(s: Seq<char>) -> bool {
    forall|i: int| 0 <= i < s.len() ==> #[trigger] s[i] != '\n'
}

/// A numeral has no end of line in it.
proof fn lemma_decimal_one_line(n: nat)
    ensures
        one_line(text::decimal(n)),
{
    text::lemma_decimal_digits(n);
    assert forall|i: int| 0 <= i < text::decimal(n).len() implies #[trigger] text::decimal(n)[i]
        != '\n' by {
        assert(text::is_digit(text::decimal(n)[i]));
    }
}

/// The text of a colour has no end of line in it.
proof fn lemma_rgb_one_line(rgb: Rgb)
    ensures
        one_line(rgb_json(rgb)),
{
    lemma_decimal_one_line(rgb.r as nat);
    lemma_decimal_one_line(rgb.g as nat);
    lemma_decimal_one_line(rgb.b as nat);
    reveal_strlit("{\"r\":");
    reveal_strlit(",\"g\":");
    reveal_strlit(",\"b\":");
    reveal_strlit("}");
}

/// A request is a single line: its text holds no end of line, so the one behind it ends the
/// message.
pub proof fn law_request_is_one_line(request: Request)
    ensures
        one_line(request_json(request)),
        request_json(request).len() > 0,
{
    lemma_decimal_one_line(request.layer() as nat);
    reveal_strlit("{\"command\":\"set_layer\",\"layer\":");
    reveal_strlit("{\"command\":\"delete_layer\",\"layer\":");
    reveal_strlit(",\"colors\":");
    reveal_strlit("{\"type\":\"solid\",\"rgb\":");
    reveal_strlit("{\"type\":\"split\",\"left\":");
    reveal_strlit(",\"right\":");
    reveal_strlit("}");
    if let Request::SetLayer { colors, .. } = request {
        match colors {
            FanColors::Solid { rgb } => {
                lemma_rgb_one_line(rgb);
            },
            FanColors::Split { left, right } => {
                lemma_rgb_one_line(left);
                lemma_rgb_one_line(right);
            },
        }
        assert(one_line(colors_json(colors)));
    }
}

/// What follows a common beginning is common too.
proof fn lemma_same_rest(front: Seq<char>, a: Seq<char>, b: Seq<char>)
    requires
        front + a == front + b,
    ensures
        a == b,
{
    let n = front.len() as int;
    assert((front + a).subrange(n, (front + a).len() as int) =~= a);
    assert((front + b).subrange(n, (front + b).len() as int) =~= b);
}

/// A numeral can be told from what follows it, where that does not start with a digit.
proof fn lemma_same_number(m: nat, a: Seq<char>, n: nat, b: Seq<char>)
    requires
        text::decimal(m) + a == text::decimal(n) + b,
        a.len() > 0,
        b.len() > 0,
        !text::is_digit(a[0]),
        !text::is_digit(b[0]),
    ensures
        m == n,
        a == b,
{
    text::lemma_decimal_digits(m);
    text::lemma_decimal_digits(n);
    let s = text::decimal(m);
    let t = text::decimal(n);
    if s.len() < t.len() {
        assert((s + a)[s.len() as int] == a[0]);
        assert((t + b)[s.len() as int] == t[s.len() as int]);
        assert(text::is_digit(t[s.len() as int]));
    }
    if t.len() < s.len() {
        assert((t + b)[t.len() as int] == b[0]);
        assert((s + a)[t.len() as int] == s[t.len() as int]);
        assert(text::is_digit(s[t.len() as int]));
    }
    assert(s =~= (s + a).take(s.len() as int));
    assert(t =~= (t + b).take(t.len() as int));
    lemma_same_rest(s, a, b);
}

/// The text of a colour with a rest behind it, taken apart from the left.
proof fn lemma_rgb_parts(rgb: Rgb, rest: Seq<char>)
    ensures
        rgb_json(rgb) + rest == "{\"r\":"@ + (text::decimal(rgb.r as nat) + (",\"g\":"@ + (
        text::decimal(rgb.g as nat) + (",\"b\":"@ + (text::decimal(rgb.b as nat) + ("}"@
            + rest)))))),
{
    assert(rgb_json(rgb) + rest =~= "{\"r\":"@ + (text::decimal(rgb.r as nat) + (",\"g\":"@ + (
    text::decimal(rgb.g as nat) + (",\"b\":"@ + (text::decimal(rgb.b as nat) + ("}"@ + rest)))))));
}

/// A colour can be told from its text and whatever follows it.
proof fn lemma_same_rgb(x: Rgb, a: Seq<char>, y: Rgb, b: Seq<char>)
    requires
        rgb_json(x) + a == rgb_json(y) + b,
    ensures
        x == y,
        a == b,
{
    reveal_strlit(",\"g\":");
    reveal_strlit(",\"b\":");
    reveal_strlit("}");
    lemma_rgb_parts(x, a);
    lemma_rgb_parts(y, b);
    let x3 = "}"@ + a;
    let y3 = "}"@ + b;
    let x2 = ",\"b\":"@ + (text::decimal(x.b as nat) + x3);
    let y2 = ",\"b\":"@ + (text::decimal(y.b as nat) + y3);
    let x1 = ",\"g\":"@ + (text::decimal(x.g as nat) + x2);
    let y1 = ",\"g\":"@ + (text::decimal(y.g as nat) + y2);
    lemma_same_rest("{\"r\":"@, text::decimal(x.r as nat) + x1, text::decimal(y.r as nat) + y1);
    lemma_same_number(x.r as nat, x1, y.r as nat, y1);
    lemma_same_rest(",\"g\":"@, text::decimal(x.g as nat) + x2, text::decimal(y.g as nat) + y2);
    lemma_same_number(x.g as nat, x2, y.g as nat, y2);
    lemma_same_rest(",\"b\":"@, text::decimal(x.b as nat) + x3, text::decimal(y.b as nat) + y3);
    lemma_same_number(x.b as nat, x3, y.b as nat, y3);
    lemma_same_rest("}"@, a, b);
}

/// The text of a solid fill with a rest behind it, taken apart from the left.
proof fn lemma_solid_parts(rgb: Rgb, rest: Seq<char>)
    ensures
        colors_json(FanColors::Solid { rgb }) + rest == "{\"type\":\"solid\",\"rgb\":"@ + (
        rgb_json(rgb) + ("}"@ + rest)),
{
    assert(colors_json(FanColors::Solid { rgb }) + rest =~= "{\"type\":\"solid\",\"rgb\":"@ + (
    rgb_json(rgb) + ("}"@ + rest)));
}

/// The text of a split with a rest behind it, taken apart from the left.
proof fn lemma_split_parts(left: Rgb, right: Rgb, rest: Seq<char>)
    ensures
        colors_json(FanColors::Split { left, right }) + rest
            == "{\"type\":\"split\",\"left\":"@ + (rgb_json(left) + (",\"right\":"@ + (rgb_json(
            right,
        ) + ("}"@ + rest)))),
{
    assert(colors_json(FanColors::Split { left, right }) + rest
        =~= "{\"type\":\"split\",\"left\":"@ + (rgb_json(left) + (",\"right\":"@ + (rgb_json(right)
        + ("}"@ + rest)))));
}

/// The texts of a solid fill and of a split differ, whatever follows the beginnings.
proof fn lemma_solid_is_not_split(a: Seq<char>, b: Seq<char>)
    ensures
        "{\"type\":\"solid\",\"rgb\":"@ + a != "{\"type\":\"split\",\"left\":"@ + b,
{
    reveal_strlit("{\"type\":\"solid\",\"rgb\":");
    reveal_strlit("{\"type\":\"split\",\"left\":");
    let s = "{\"type\":\"solid\",\"rgb\":"@ + a;
    let t = "{\"type\":\"split\",\"left\":"@ + b;
    assert(s[10] == 'o');
    assert(t[10] == 'p');
}

/// The fans' colours can be told from their text and whatever follows it.
proof fn lemma_same_colors(x: FanColors, a: Seq<char>, y: FanColors, b: Seq<char>)
    requires
        colors_json(x) + a == colors_json(y) + b,
    ensures
        x == y,
        a == b,
{
    let xa = "}"@ + a;
    let yb = "}"@ + b;
    match (x, y) {
        (FanColors::Solid { rgb: p }, FanColors::Solid { rgb: q }) => {
            lemma_solid_parts(p, a);
            lemma_solid_parts(q, b);
            lemma_same_rest(
                "{\"type\":\"solid\",\"rgb\":"@,
                rgb_json(p) + xa,
                rgb_json(q) + yb,
            );
            lemma_same_rgb(p, xa, q, yb);
            lemma_same_rest("}"@, a, b);
        },
        (FanColors::Split { left: p, right: u }, FanColors::Split { left: q, right: v }) => {
            lemma_split_parts(p, u, a);
            lemma_split_parts(q, v, b);
            let x1 = ",\"right\":"@ + (rgb_json(u) + xa);
            let y1 = ",\"right\":"@ + (rgb_json(v) + yb);
            lemma_same_rest(
                "{\"type\":\"split\",\"left\":"@,
                rgb_json(p) + x1,
                rgb_json(q) + y1,
            );
            lemma_same_rgb(p, x1, q, y1);
            lemma_same_rest(",\"right\":"@, rgb_json(u) + xa, rgb_json(v) + yb);
            lemma_same_rgb(u, xa, v, yb);
            lemma_same_rest("}"@, a, b);
        },
        (FanColors::Solid { rgb: p }, FanColors::Split { left: q, right: v }) => {
            lemma_solid_parts(p, a);
            lemma_split_parts(q, v, b);
            lemma_solid_is_not_split(
                rgb_json(p) + xa,
                rgb_json(q) + (",\"right\":"@ + (rgb_json(v) + yb)),
            );
        },
        (FanColors::Split { left: p, right: u }, FanColors::Solid { rgb: q }) => {
            lemma_split_parts(p, u, a);
            lemma_solid_parts(q, b);
            lemma_solid_is_not_split(
                rgb_json(q) + yb,
                rgb_json(p) + (",\"right\":"@ + (rgb_json(u) + xa)),
            );
        },
    }
}

/// The text of a request to show colours, taken apart from the left.
proof fn lemma_set_parts(layer: u32, colors: FanColors)
    ensures
        request_json(Request::SetLayer { layer, colors })
            == "{\"command\":\"set_layer\",\"layer\":"@ + (text::decimal(layer as nat) + (
        ",\"colors\":"@ + (colors_json(colors) + "}"@))),
{
    assert(request_json(Request::SetLayer { layer, colors })
        =~= "{\"command\":\"set_layer\",\"layer\":"@ + (text::decimal(layer as nat) + (
    ",\"colors\":"@ + (colors_json(colors) + "}"@))));
}

/// The text of a request to give a layer up, taken apart from the left.
proof fn lemma_delete_parts(layer: u32)
    ensures
        request_json(Request::DeleteLayer { layer })
            == "{\"command\":\"delete_layer\",\"layer\":"@ + (text::decimal(layer as nat) + "}"@),
{
    assert(request_json(Request::DeleteLayer { layer })
        =~= "{\"command\":\"delete_layer\",\"layer\":"@ + (text::decimal(layer as nat) + "}"@));
}

/// The texts of the two kinds of request differ, whatever follows the beginnings.
proof fn lemma_set_is_not_delete(a: Seq<char>, b: Seq<char>)
    ensures
        "{\"command\":\"set_layer\",\"layer\":"@ + a
            != "{\"command\":\"delete_layer\",\"layer\":"@ + b,
{
    reveal_strlit("{\"command\":\"set_layer\",\"layer\":");
    reveal_strlit("{\"command\":\"delete_layer\",\"layer\":");
    let s = "{\"command\":\"set_layer\",\"layer\":"@ + a;
    let t = "{\"command\":\"delete_layer\",\"layer\":"@ + b;
    assert(s[12] == 's');
    assert(t[12] == 'd');
}

/// Requests with the same text are the same: the service can tell any two requests apart.
pub proof fn law_requests_differ_in_text(x: Request, y: Request)
    requires
        request_json(x) == request_json(y),
    ensures
        x == y,
{
    let set = "{\"command\":\"set_layer\",\"layer\":"@;
    let delete = "{\"command\":\"delete_layer\",\"layer\":"@;
    let close = "}"@;
    assert(close.len() > 0 && !text::is_digit(close[0])) by {
        reveal_strlit("}");
    }
    match (x, y) {
        (
            Request::SetLayer { layer: m, colors: c },
            Request::SetLayer { layer: n, colors: d },
        ) => {
            lemma_set_parts(m, c);
            lemma_set_parts(n, d);
            let x1 = ",\"colors\":"@ + (colors_json(c) + close);
            let y1 = ",\"colors\":"@ + (colors_json(d) + close);
            assert(x1.len() > 0 && !text::is_digit(x1[0]) && y1.len() > 0 && !text::is_digit(
                y1[0],
            )) by {
                reveal_strlit(",\"colors\":");
            }
            lemma_same_rest(set, text::decimal(m as nat) + x1, text::decimal(n as nat) + y1);
            lemma_same_number(m as nat, x1, n as nat, y1);
            lemma_same_rest(",\"colors\":"@, colors_json(c) + close, colors_json(d) + close);
            lemma_same_colors(c, close, d, close);
        },
        (Request::DeleteLayer { layer: m }, Request::DeleteLayer { layer: n }) => {
            lemma_delete_parts(m);
            lemma_delete_parts(n);
            lemma_same_rest(
                delete,
                text::decimal(m as nat) + close,
                text::decimal(n as nat) + close,
            );
            lemma_same_number(m as nat, close, n as nat, close);
        },
        (Request::SetLayer { layer: m, colors: c }, Request::DeleteLayer { layer: n }) => {
            lemma_set_parts(m, c);
            lemma_delete_parts(n);
            lemma_set_is_not_delete(
                text::decimal(m as nat) + (",\"colors\":"@ + (colors_json(c) + close)),
                text::decimal(n as nat) + close,
            );
        },
        (Request::DeleteLayer { layer: m }, Request::SetLayer { layer: n, colors: d }) => {
            lemma_delete_parts(m);
            lemma_set_parts(n, d);
            lemma_set_is_not_delete(
                text::decimal(n as nat) + (",\"colors\":"@ + (colors_json(d) + close)),
                text::decimal(m as nat) + close,
            );
        },
    }
}

/// Every channel of a colour reaches the service as it is, so two triples that differ make two
/// colours that differ, and every colour can be asked for.
pub proof fn law_channels_are_kept(a: Rgb8, b: Rgb8, rgb: Rgb)
    ensures
        rgb_of(a).r == a.0,
        rgb_of(a).g == a.1,
        rgb_of(a).b == a.2,
        rgb_of(a) == rgb_of(b) ==> a == b,
        rgb_of((rgb.r, rgb.g, rgb.b)) == rgb,
        <Rgb as vstd::std_specs::convert::FromSpec<Rgb8>>::obeys_from_spec(),
        <Rgb as vstd::std_specs::convert::FromSpec<Rgb8>>::from_spec(a).r == a.0,
        <Rgb as vstd::std_specs::convert::FromSpec<Rgb8>>::from_spec(a).g == a.1,
        <Rgb as vstd::std_specs::convert::FromSpec<Rgb8>>::from_spec(a).b == a.2,
{
}

/// The fans show the red, green and blue that were asked for: all of them one colour where both
/// colours are the same, else the primary colour on the left and the secondary on the right.
pub proof fn law_fans_show_what_was_asked_for(primary: Rgb8, secondary: Rgb8)
    ensures
        match fan_colors(primary, secondary) {
            FanColors::Solid { rgb } => {
                &&& primary == secondary
                &&& (rgb.r, rgb.g, rgb.b) == primary
            },
            FanColors::Split { left, right } => {
                &&& primary != secondary
                &&& (left.r, left.g, left.b) == primary
                &&& (right.r, right.g, right.b) == secondary
            },
        },
{
}

/// Two pairs of colours that differ never look the same on the fans.
pub proof fn law_fans_tell_colors_apart(a: (Rgb8, Rgb8), b: (Rgb8, Rgb8))
    ensures
        fan_colors(a.0, a.1) == fan_colors(b.0, b.1) ==> a == b,
{
}

/// Whether `key` stands in a text, with `value` right behind it.
pub open spec fn has_entry(text: Seq<char>, key: Seq<char>, value: Seq<char>) -> bool {
    exists|front: Seq<char>, behind: Seq<char>|
        text == #[trigger] (front + key + value + behind)
}

proof fn lemma_has_entry(
    text: Seq<char>,
    front: Seq<char>,
    key: Seq<char>,
    value: Seq<char>,
    behind: Seq<char>,
)
    requires
        text == front + key + value + behind,
    ensures
        has_entry(text, key, value),
{
}

/// The text of a colour gives each channel behind its name, and is enclosed in braces.
pub proof fn law_color_text_names_channels(rgb: Rgb)
    ensures
        has_entry(rgb_json(rgb), "\"r\":"@, text::decimal(rgb.r as nat) + ","@),
        has_entry(rgb_json(rgb), "\"g\":"@, text::decimal(rgb.g as nat) + ","@),
        has_entry(rgb_json(rgb), "\"b\":"@, text::decimal(rgb.b as nat) + "}"@),
        rgb_json(rgb)[0] == '{',
        rgb_json(rgb).last() == '}',
        rgb_json(rgb).len() == text::decimal(rgb.r as nat).len() + text::decimal(
            rgb.g as nat,
        ).len() + text::decimal(rgb.b as nat).len() + 16,
{
    let json = rgb_json(rgb);
    let r = text::decimal(rgb.r as nat);
    let g = text::decimal(rgb.g as nat);
    let b = text::decimal(rgb.b as nat);
    lemma_channel_keys();
    let none = Seq::<char>::empty();
    assert(json =~= "{"@ + "\"r\":"@ + (r + ","@) + ("\"g\":"@ + g + ",\"b\":"@ + b + "}"@));
    assert(json =~= ("{\"r\":"@ + r + ","@) + "\"g\":"@ + (g + ","@) + ("\"b\":"@ + b + "}"@));
    assert(json =~= ("{\"r\":"@ + r + ",\"g\":"@ + g + ","@) + "\"b\":"@ + (b + "}"@) + none);
    lemma_has_entry(
        json,
        "{"@,
        "\"r\":"@,
        r + ","@,
        "\"g\":"@ + g + ",\"b\":"@ + b + "}"@,
    );
    lemma_has_entry(
        json,
        "{\"r\":"@ + r + ","@,
        "\"g\":"@,
        g + ","@,
        "\"b\":"@ + b + "}"@,
    );
    lemma_has_entry(
        json,
        "{\"r\":"@ + r + ",\"g\":"@ + g + ","@,
        "\"b\":"@,
        b + "}"@,
        none,
    );
    reveal_strlit("{\"r\":");
    reveal_strlit(",\"g\":");
    reveal_strlit(",\"b\":");
    reveal_strlit("}");
}

/// The keys of the channels, with what stands in front of them.
proof fn lemma_channel_keys()
    ensures
        "{\"r\":"@ == "{"@ + "\"r\":"@,
        ",\"g\":"@ == ","@ + "\"g\":"@,
        ",\"b\":"@ == ","@ + "\"b\":"@,
{
    reveal_strlit("{");
    reveal_strlit(",");
    reveal_strlit("{\"r\":");
    reveal_strlit("\"r\":");
    reveal_strlit(",\"g\":");
    reveal_strlit("\"g\":");
    reveal_strlit(",\"b\":");
    reveal_strlit("\"b\":");
    assert("{\"r\":"@ =~= "{"@ + "\"r\":"@);
    assert(",\"g\":"@ =~= ","@ + "\"g\":"@);
    assert(",\"b\":"@ =~= ","@ + "\"b\":"@);
}

/// The text of the fans' colours says which they are, and gives the colours behind their names.
pub proof fn law_colors_text_names_sides(rgb: Rgb, left: Rgb, right: Rgb)
    ensures
        colors_json(FanColors::Solid { rgb }) == "{\"type\":\"solid\",\"rgb\":"@ + rgb_json(rgb)
            + "}"@,
        has_entry(
            colors_json(FanColors::Split { left, right }),
            "\"type\":\"split\",\"left\":"@,
            rgb_json(left) + ","@,
        ),
        has_entry(
            colors_json(FanColors::Split { left, right }),
            "\"right\":"@,
            rgb_json(right) + "}"@,
        ),
        colors_json(FanColors::Split { left, right }).len() == rgb_json(left).len() + rgb_json(
            right,
        ).len() + 33,
{
    let json = colors_json(FanColors::Split { left, right });
    let none = Seq::<char>::empty();
    assert("{\"type\":\"split\",\"left\":"@ =~= "{"@ + "\"type\":\"split\",\"left\":"@) by {
        reveal_strlit("{\"type\":\"split\",\"left\":");
        reveal_strlit("{");
        reveal_strlit("\"type\":\"split\",\"left\":");
    }
    assert(",\"right\":"@ =~= ","@ + "\"right\":"@) by {
        reveal_strlit(",\"right\":");
        reveal_strlit(",");
        reveal_strlit("\"right\":");
    }
    assert(json =~= "{"@ + "\"type\":\"split\",\"left\":"@ + (rgb_json(left) + ","@) + (
    "\"right\":"@ + rgb_json(right) + "}"@));
    assert(json =~= ("{\"type\":\"split\",\"left\":"@ + rgb_json(left) + ","@) + "\"right\":"@ + (
    rgb_json(right) + "}"@) + none);
    lemma_has_entry(
        json,
        "{"@,
        "\"type\":\"split\",\"left\":"@,
        rgb_json(left) + ","@,
        "\"right\":"@ + rgb_json(right) + "}"@,
    );
    lemma_has_entry(
        json,
        "{\"type\":\"split\",\"left\":"@ + rgb_json(left) + ","@,
        "\"right\":"@,
        rgb_json(right) + "}"@,
        none,
    );
    assert(json.len() == rgb_json(left).len() + rgb_json(right).len() + 33) by {
        reveal_strlit("{\"type\":\"split\",\"left\":");
        reveal_strlit(",\"right\":");
        reveal_strlit("}");
    }
}

/// The text of a request names its command, and gives the layer and the colours behind their names.
pub proof fn law_request_text_names_command(layer: u32, colors: FanColors)
    ensures
        has_entry(
            request_json(Request::SetLayer { layer, colors }),
            "\"command\":\"set_layer\",\"layer\":"@,
            text::decimal(layer as nat) + ","@,
        ),
        has_entry(
            request_json(Request::SetLayer { layer, colors }),
            "\"colors\":"@,
            colors_json(colors) + "}"@,
        ),
        has_entry(
            request_json(Request::DeleteLayer { layer }),
            "\"command\":\"delete_layer\",\"layer\":"@,
            text::decimal(layer as nat) + "}"@,
        ),
        request_json(Request::SetLayer { layer, colors }).len() == text::decimal(
            layer as nat,
        ).len() + colors_json(colors).len() + 42,
        request_json(Request::DeleteLayer { layer }).len() == text::decimal(layer as nat).len()
            + 35,
{
    let set = request_json(Request::SetLayer { layer, colors });
    let delete = request_json(Request::DeleteLayer { layer });
    let number = text::decimal(layer as nat);
    let none = Seq::<char>::empty();
    assert("{\"command\":\"set_layer\",\"layer\":"@ =~= "{"@
        + "\"command\":\"set_layer\",\"layer\":"@) by {
        reveal_strlit("{\"command\":\"set_layer\",\"layer\":");
        reveal_strlit("{");
        reveal_strlit("\"command\":\"set_layer\",\"layer\":");
    }
    assert("{\"command\":\"delete_layer\",\"layer\":"@ =~= "{"@
        + "\"command\":\"delete_layer\",\"layer\":"@) by {
        reveal_strlit("{\"command\":\"delete_layer\",\"layer\":");
        reveal_strlit("{");
        reveal_strlit("\"command\":\"delete_layer\",\"layer\":");
    }
    assert(",\"colors\":"@ =~= ","@ + "\"colors\":"@) by {
        reveal_strlit(",\"colors\":");
        reveal_strlit(",");
        reveal_strlit("\"colors\":");
    }
    assert(set =~= "{"@ + "\"command\":\"set_layer\",\"layer\":"@ + (number + ","@) + (
    "\"colors\":"@ + colors_json(colors) + "}"@));
    assert(set =~= ("{\"command\":\"set_layer\",\"layer\":"@ + number + ","@) + "\"colors\":"@ + (
    colors_json(colors) + "}"@) + none);
    assert(delete =~= "{"@ + "\"command\":\"delete_layer\",\"layer\":"@ + (number + "}"@) + none);
    lemma_has_entry(
        set,
        "{"@,
        "\"command\":\"set_layer\",\"layer\":"@,
        number + ","@,
        "\"colors\":"@ + colors_json(colors) + "}"@,
    );
    lemma_has_entry(
        set,
        "{\"command\":\"set_layer\",\"layer\":"@ + number + ","@,
        "\"colors\":"@,
        colors_json(colors) + "}"@,
        none,
    );
    lemma_has_entry(
        delete,
        "{"@,
        "\"command\":\"delete_layer\",\"layer\":"@,
        number + "}"@,
        none,
    );
    assert(set.len() == number.len() + colors_json(colors).len() + 42 && delete.len()
        == number.len() + 35) by {
        reveal_strlit("{\"command\":\"set_layer\",\"layer\":");
        reveal_strlit("{\"command\":\"delete_layer\",\"layer\":");
        reveal_strlit(",\"colors\":");
        reveal_strlit("}");
    }
}

/// Colours that differ make requests that differ on the wire: no channel of either colour is lost on
/// the way to the service.
pub proof fn law_wire_tells_colors_apart(layer: u32, a: (Rgb8, Rgb8), b: (Rgb8, Rgb8))
    requires
        a != b,
    ensures
        request_json(Request::SetLayer { layer, colors: fan_colors(a.0, a.1) }) != request_json(
            Request::SetLayer { layer, colors: fan_colors(b.0, b.1) },
        ),
{
    let x = Request::SetLayer { layer, colors: fan_colors(a.0, a.1) };
    let y = Request::SetLayer { layer, colors: fan_colors(b.0, b.1) };
    law_fans_tell_colors_apart(a, b);
    if request_json(x) == request_json(y) {
        law_requests_differ_in_text(x, y);
    }
}

/// A request succeeds exactly where the service answered, and with a yes. A refusal is passed on in
/// the words of the service, where it gave any, and an answer that does not parse in those of the
/// parser.
pub proof fn law_reply_is_passed_on(line: Seq<char>, parsed: Result<Response, String>)
    ensures
        reply_meaning(line, parsed) is Ok <==> line.len() > 0 && parsed is Ok && parsed->Ok_0.ok,
        line.len() > 0 ==> match parsed {
            Ok(response) => !response.ok ==> match response.error {
                Some(reason) => reply_meaning(line, parsed) == Err::<(), Seq<char>>(reason@),
                None => reply_meaning(line, parsed) == Err::<(), Seq<char>>(
                    "PitRGB rejected the request"@,
                ),
            },
            Err(error) => reply_meaning(line, parsed) == Err::<(), Seq<char>>(error@),
        },
        line.len() == 0 ==> reply_meaning(line, parsed) == Err::<(), Seq<char>>(
            "PitRGB closed the connection without a response"@,
        ),
{
}

/// Colours are sent exactly where there is a service, playback runs and the service does not show
/// them already; what is sent asks for these colours on the application's own layer.
pub proof fn law_when_colors_are_sent(state: SyncState, colors: (Rgb8, Rgb8))
    ensures
        state.color_request(colors) is Some <==> {
            &&& state.client is Some
            &&& !state.paused
            &&& !(state.layer_active && state.last_color == Some(colors))
        },
        state.color_request(colors) matches Some(request) ==> {
            &&& request matches Request::SetLayer { layer, colors: shown }
            &&& layer == state.client->0.layer
            &&& match shown {
                FanColors::Solid { rgb } => (rgb.r, rgb.g, rgb.b) == colors.0 && colors.0
                    == colors.1,
                FanColors::Split { left, right } => (left.r, left.g, left.b) == colors.0 && (
                right.r,
                right.g,
                right.b,
                ) == colors.1 && colors.0 != colors.1,
            }
        },
        state.colored(colors).last_color == Some(colors),
        state.colored(colors).paused == state.paused,
        state.colored(colors).layer_active == state.layer_active,
        state.colored(colors).client == state.client,
{
}

/// A pause gives the application's layer up, and its end asks for the last colours there, if there
/// are any. Nothing is sent without a service, or where playback was paused or running before.
pub proof fn law_when_a_pause_is_sent(state: SyncState, paused: bool)
    ensures
        state.client is None || state.paused == paused ==> state.pause_request(paused) is None,
        state.client is Some && !state.paused ==> state.pause_request(true) == Some(
            Request::DeleteLayer { layer: state.client->0.layer },
        ),
        state.client is Some && state.paused ==> match state.last_color {
            None => state.pause_request(false) is None,
            Some(colors) => {
                &&& state.pause_request(false) matches Some(Request::SetLayer {
                    layer,
                    colors: shown,
                })
                &&& layer == state.client->0.layer
                &&& match shown {
                    FanColors::Solid { rgb } => (rgb.r, rgb.g, rgb.b) == colors.0 && colors.0
                        == colors.1,
                    FanColors::Split { left, right } => (left.r, left.g, left.b) == colors.0 && (
                    right.r,
                    right.g,
                    right.b,
                    ) == colors.1 && colors.0 != colors.1,
                }
            },
        },
        state.with_pause(paused).paused == paused,
        state.with_pause(paused).last_color == state.last_color,
        state.with_pause(paused).layer_active == state.layer_active,
        state.with_pause(paused).client == state.client,
        state.client is Some ==> state.exit_request() == Some(
            Request::DeleteLayer { layer: state.client->0.layer },
        ),
        state.exited().last_color == state.last_color,
        state.exited().paused == state.paused,
        state.client is Some ==> !state.exited().layer_active,
        state.client is None ==> state.exited() == state,
{
}

/// The layer counts as shown exactly after a request to show it that was carried out; nothing else
/// that is known changes with an outcome.
pub proof fn law_outcome_is_noted(state: SyncState, request: Request, done: bool)
    ensures
        state.settled(request, done).layer_active <==> done && request is SetLayer,
        state.settled(request, done).client == state.client,
        state.settled(request, done).last_color == state.last_color,
        state.settled(request, done).paused == state.paused,
        state.followed(Some(request), done) == state.settled(request, done),
        state.followed(None, done) == state,
{
}

/// Lighting starts with a service exactly where it is enabled and the service was reached, at the
/// socket and with the layer that were given.
pub proof fn law_start_knows_the_service(
    enabled: bool,
    socket: std::path::PathBuf,
    layer: u32,
    reached: bool,
)
    ensures
        ({
            let state = SyncState::fresh(enabled, socket, layer, reached);
            &&& state.client is Some <==> enabled && reached
            &&& state.client matches Some(client) ==> client.socket == socket && client.layer
                == layer
            &&& state.paused && !state.layer_active && state.last_color is None
        }),
{
}

/// What the lighting knows is what its fields hold.
proof fn lemma_state_is_the_fields(sync: RgbSync)
    ensures
        sync@.client == sync.client,
        sync@.last_color == sync.last_color,
        sync@.paused == sync.paused,
        sync@.layer_active == sync.layer_active,
{
}

} // verus!
