use std::path::PathBuf;

use jellyfin_tui::rgb::{
    read_reply, FanColors, PitRgbClient, Request, Response, Rgb, Rgb8, RgbSync,
};
use serde::ser::{Serialize, SerializeStruct, Serializer};

const RED: Rgb8 = (255, 0, 0);
const BLUE: Rgb8 = (0, 0, 255);
const GREY: Rgb8 = (7, 70, 200);

fn connected(layer: u32) -> RgbSync {
    RgbSync::new::<String>(true, PathBuf::from("/run/pitrgb.sock"), layer, Ok(()))
}

fn playing(layer: u32) -> RgbSync {
    let mut sync = connected(layer);
    assert_eq!(sync.set_paused(false), None);
    sync
}

fn split(layer: u32, left: Rgb8, right: Rgb8) -> Request {
    Request::SetLayer {
        layer,
        colors: FanColors::Split { left: Rgb::from(left), right: Rgb::from(right) },
    }
}

fn solid(layer: u32, color: Rgb8) -> Request {
    Request::SetLayer { layer, colors: FanColors::Solid { rgb: Rgb::from(color) } }
}

/// A colour, serialized field by field.
struct WireRgb(Rgb);

impl Serialize for WireRgb {
    fn serialize<S: Serializer>(&self, serializer: S) -> Result<S::Ok, S::Error> {
        let mut fields = serializer.serialize_struct("Rgb", 3)?;
        fields.serialize_field("r", &self.0.r)?;
        fields.serialize_field("g", &self.0.g)?;
        fields.serialize_field("b", &self.0.b)?;
        fields.end()
    }
}

struct WireColors(FanColors);

impl Serialize for WireColors {
    fn serialize<S: Serializer>(&self, serializer: S) -> Result<S::Ok, S::Error> {
        let mut fields = serializer.serialize_struct("FanColors", 3)?;
        match self.0 {
            FanColors::Solid { rgb } => {
                fields.serialize_field("type", "solid")?;
                fields.serialize_field("rgb", &WireRgb(rgb))?;
            }
            FanColors::Split { left, right } => {
                fields.serialize_field("type", "split")?;
                fields.serialize_field("left", &WireRgb(left))?;
                fields.serialize_field("right", &WireRgb(right))?;
            }
        }
        fields.end()
    }
}

struct WireRequest(Request);

impl Serialize for WireRequest {
    fn serialize<S: Serializer>(&self, serializer: S) -> Result<S::Ok, S::Error> {
        let mut fields = serializer.serialize_struct("Request", 3)?;
        match self.0 {
            Request::SetLayer { layer, colors } => {
                fields.serialize_field("command", "set_layer")?;
                fields.serialize_field("layer", &layer)?;
                fields.serialize_field("colors", &WireColors(colors))?;
            }
            Request::DeleteLayer { layer } => {
                fields.serialize_field("command", "delete_layer")?;
                fields.serialize_field("layer", &layer)?;
            }
        }
        fields.end()
    }
}

#[test]
fn serializes_split_layer_for_pitrgb() {
    let request = Request::SetLayer {
        layer: 10,
        colors: FanColors::Split {
            left: Rgb { r: 1, g: 2, b: 3 },
            right: Rgb { r: 4, g: 5, b: 6 },
        },
    };

    assert_eq!(
        request.to_json(),
        r#"{"command":"set_layer","layer":10,"colors":{"type":"split","left":{"r":1,"g":2,"b":3},"right":{"r":4,"g":5,"b":6}}}"#
    );
}

#[test]
fn serializes_layer_deletion_for_pitrgb() {
    let request = Request::DeleteLayer { layer: 10 };

    assert_eq!(request.to_json(), r#"{"command":"delete_layer","layer":10}"#);
}

#[test]
fn serializes_solid_layer() {
    assert_eq!(
        solid(u32::MAX, (0, 10, 255)).to_json(),
        r#"{"command":"set_layer","layer":4294967295,"colors":{"type":"solid","rgb":{"r":0,"g":10,"b":255}}}"#
    );
}

#[test]
fn request_text_is_what_serde_json_writes() {
    let layers = [0, 9, 10, 99, 100, 65_535, 1_000_000, u32::MAX];
    let mut requests = Vec::new();
    for layer in layers {
        requests.push(Request::DeleteLayer { layer });
        for color in 0..=255u8 {
            requests.push(solid(layer, (color, 255 - color, color / 2)));
            requests.push(split(layer, (color, 0, 9), (99, color, 100)));
        }
    }
    for request in requests {
        assert_eq!(request.to_json(), serde_json::to_string(&WireRequest(request)).unwrap());
    }
}

#[test]
fn request_line_is_one_line() {
    let line = split(3, RED, GREY).to_line();
    assert_eq!(line, split(3, RED, GREY).to_json() + "\n");
    assert_eq!(line.lines().count(), 1);
    let value: serde_json::Value = serde_json::from_str(&line).unwrap();
    assert_eq!(value["colors"]["right"]["b"], 200);
}

#[test]
fn different_requests_have_different_texts() {
    let requests = [
        Request::DeleteLayer { layer: 1 },
        Request::DeleteLayer { layer: 11 },
        solid(1, (1, 11, 1)),
        solid(1, (11, 1, 1)),
        solid(11, (1, 11, 1)),
        split(1, (1, 1, 1), (1, 1, 11)),
        split(1, (1, 1, 11), (1, 1, 1)),
    ];
    for (i, a) in requests.iter().enumerate() {
        for (j, b) in requests.iter().enumerate() {
            assert_eq!(i == j, a.to_json() == b.to_json());
        }
    }
}

#[test]
fn client_sends_lines_to_its_socket() {
    let client =
        PitRgbClient::connect::<String>(PathBuf::from("/tmp/rgb"), 5, Ok(())).ok().unwrap();
    let request = client.delete_layer();
    assert_eq!(request, Request::DeleteLayer { layer: 5 });
    let (socket, line) = client.send(&request);
    assert_eq!(socket, &PathBuf::from("/tmp/rgb"));
    assert_eq!(line, "{\"command\":\"delete_layer\",\"layer\":5}\n");
    assert_eq!(client.set_color(RED, RED), solid(5, RED));
    assert_eq!(client.set_color(RED, BLUE), split(5, RED, BLUE));
}

#[test]
fn client_needs_a_first_connection() {
    let refused = PitRgbClient::connect(PathBuf::from("/tmp/rgb"), 5, Err("refused"));
    assert_eq!(refused.err(), Some("refused"));
}

#[test]
fn sync_is_active_only_when_enabled_and_reached() {
    let socket = || PathBuf::from("/tmp/rgb");
    assert!(RgbSync::new::<()>(true, socket(), 1, Ok(())).is_active());
    assert!(!RgbSync::new::<()>(true, socket(), 1, Err(())).is_active());
    assert!(!RgbSync::new::<()>(false, socket(), 1, Ok(())).is_active());
    assert!(!RgbSync::new::<()>(false, socket(), 1, Err(())).is_active());
    let sync = connected(4);
    assert_eq!(sync.client().unwrap().layer, 4);
    assert_eq!(sync.client().unwrap().socket, PathBuf::from("/run/pitrgb.sock"));
}

#[test]
fn starts_paused_and_shows_nothing() {
    let mut sync = connected(1);
    assert_eq!(sync.set_color(RED, BLUE), None);
    assert_eq!(sync.set_color(RED, BLUE), None);
    assert_eq!(sync.set_paused(true), None);
    assert_eq!(sync.set_paused(false), Some(split(1, RED, BLUE)));
}

#[test]
fn resuming_without_colors_sends_nothing() {
    let mut sync = connected(1);
    assert_eq!(sync.set_paused(false), None);
    assert_eq!(sync.set_color(GREY, GREY), Some(solid(1, GREY)));
}

#[test]
fn colors_are_sent_once() {
    let mut sync = playing(2);
    let request = sync.set_color(RED, BLUE).unwrap();
    sync.settle(request, &Ok(()));
    assert_eq!(sync.set_color(RED, BLUE), None);
    assert_eq!(sync.set_color(BLUE, RED), Some(split(2, BLUE, RED)));
}

#[test]
fn failed_colors_are_sent_again() {
    let mut sync = playing(2);
    let request = sync.set_color(RED, BLUE).unwrap();
    sync.settle(request, &Err("timed out".to_string()));
    assert_eq!(sync.set_color(RED, BLUE), Some(request));
    sync.settle(request, &Ok(()));
    assert_eq!(sync.set_color(RED, BLUE), None);
}

#[test]
fn pausing_releases_and_resuming_restores() {
    let mut sync = playing(9);
    let request = sync.set_color(RED, RED).unwrap();
    sync.settle(request, &Ok(()));
    let release = sync.set_paused(true);
    assert_eq!(release, Some(Request::DeleteLayer { layer: 9 }));
    sync.settle(release.unwrap(), &Ok(()));
    assert_eq!(sync.set_paused(true), None);
    let restore = sync.set_paused(false);
    assert_eq!(restore, Some(solid(9, RED)));
    sync.settle(restore.unwrap(), &Ok(()));
    assert_eq!(sync.set_paused(false), None);
    assert_eq!(sync.set_color(RED, RED), None);
}

#[test]
fn resuming_shows_colors_of_the_pause() {
    let mut sync = playing(9);
    let request = sync.set_color(RED, BLUE).unwrap();
    sync.settle(request, &Ok(()));
    let release = sync.set_paused(true).unwrap();
    sync.settle(release, &Err("gone".to_string()));
    assert_eq!(sync.set_color(GREY, BLUE), None);
    assert_eq!(sync.set_paused(false), Some(split(9, GREY, BLUE)));
}

#[test]
fn failed_resume_is_made_up_for_by_the_next_colors() {
    let mut sync = connected(9);
    assert_eq!(sync.set_color(RED, BLUE), None);
    let restore = sync.set_paused(false).unwrap();
    sync.settle(restore, &Err("gone".to_string()));
    assert_eq!(sync.set_paused(false), None);
    assert_eq!(sync.set_color(RED, BLUE), Some(split(9, RED, BLUE)));
}

#[test]
fn shutdown_releases_the_layer() {
    let mut sync = playing(9);
    let request = sync.set_color(RED, BLUE).unwrap();
    sync.settle(request, &Ok(()));
    assert_eq!(sync.shutdown(), Some(Request::DeleteLayer { layer: 9 }));
    assert_eq!(sync.set_color(RED, BLUE), Some(split(9, RED, BLUE)));
}

#[test]
fn unreachable_service_gets_no_requests() {
    let mut sync = RgbSync::new(true, PathBuf::from("/tmp/rgb"), 1, Err("refused"));
    assert_eq!(sync.set_paused(false), None);
    assert_eq!(sync.set_color(RED, BLUE), None);
    assert_eq!(sync.set_paused(true), None);
    assert_eq!(sync.set_paused(false), None);
    assert_eq!(sync.shutdown(), None);
}

#[test]
fn reply_decides_the_outcome() {
    let response = |ok: bool, error: Option<&str>| {
        Ok(Response { ok, error: error.map(|reason| reason.to_string()) })
    };
    assert_eq!(read_reply("{}\n", response(true, None)), Ok(()));
    assert_eq!(read_reply("{}\n", response(true, Some("ignored"))), Ok(()));
    assert_eq!(
        read_reply("{}\n", response(false, Some("no such layer"))),
        Err("no such layer".to_string())
    );
    assert_eq!(
        read_reply("{}\n", response(false, None)),
        Err("PitRGB rejected the request".to_string())
    );
    assert_eq!(
        read_reply("oops\n", Err("expected value".to_string())),
        Err("expected value".to_string())
    );
    assert_eq!(
        read_reply("", response(true, None)),
        Err("PitRGB closed the connection without a response".to_string())
    );
    assert_eq!(
        read_reply("", Err("EOF".to_string())),
        Err("PitRGB closed the connection without a response".to_string())
    );
}
