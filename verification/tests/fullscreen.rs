use jellyfin_tui::audio_capture::BAR_COUNT;
use jellyfin_tui::fullscreen::{
    art_area, bar_char, bar_index, bar_reaches, fullscreen_layers, painted_cells, place_art,
    player_padding, App, Backdrop, BarCell, Layer, PlayerPanel, Readout,
};
use jellyfin_tui::layout::Rect;
use jellyfin_tui::player::{
    duration_text, gauge_label, is_loading, metadata_spans, track_spans, visible_position,
    PlaybackState, Song, Span, Tint,
};
use ratatui_image::protocol::halfblocks::Halfblocks;
use ratatui_image::protocol::{ImageSource, StatefulProtocol, StatefulProtocolType};

fn rect(x: u16, y: u16, width: u16, height: u16) -> Rect {
    Rect { x, y, width, height }
}

fn song() -> Song {
    Song {
        name: "Teardrop".to_string(),
        album: "Mezzanine".to_string(),
        artists: vec!["Massive Attack".to_string(), "Elizabeth Fraser".to_string()],
        production_year: 1998,
        run_time_ticks: 3_300_000_000,
        is_transcoded: false,
    }
}

fn playback() -> PlaybackState {
    PlaybackState {
        current_index: 0,
        seek_active: false,
        audio_samplerate: 44_100,
        audio_bitrate: 913,
        hr_channels: "stereo".to_string(),
        file_format: "flac".to_string(),
    }
}

fn app() -> App<u32> {
    App {
        fullscreen: false,
        dirty: false,
        audio_capture: None,
        visualizer_bars: vec![5; BAR_COUNT],
        queue: vec![song()],
        playback: playback(),
        buffering: false,
        spinner: 1,
        spinner_stages: vec!["◰".to_string(), "◳".to_string()],
        paused: false,
        swap_play_pause: false,
    }
}

fn readout() -> Readout {
    Readout {
        position: 65,
        total: 330,
        empty: false,
        percent: "20".to_string(),
        samplerate: "44.1 kHz".to_string(),
    }
}

fn texts(spans: &[Span]) -> Vec<&str> {
    spans.iter().map(|span| span.text.as_str()).collect()
}

/// An image of the given size, on a terminal with cells of 10 by 20 pixels.
fn art(width: u32, height: u32) -> StatefulProtocol {
    let mut source = ImageSource::new(Default::default(), (10, 20), [0, 0, 0, 0].into());
    source.image = source.image.resize_exact(width, height, ratatui_image::FilterType::Nearest);
    StatefulProtocol::new(source, (10, 20), StatefulProtocolType::Halfblocks(Halfblocks::default()))
}

#[test]
fn switching_on_starts_one_capture() {
    let mut app = app();
    assert!(app.set_fullscreen(true));
    assert!(app.fullscreen && app.dirty);
    app.audio_capture = Some(3);
    app.dirty = false;
    assert!(!app.set_fullscreen(true));
    assert_eq!(app.audio_capture, Some(3));
    assert!(app.dirty);
    assert_eq!(app.visualizer_bars, vec![5; BAR_COUNT]);
}

#[test]
fn switching_off_ends_capture_and_clears_bars() {
    let mut app = app();
    app.audio_capture = Some(3);
    app.fullscreen = true;
    assert!(!app.set_fullscreen(false));
    assert!(!app.fullscreen && app.dirty);
    assert_eq!(app.audio_capture, None);
    assert_eq!(app.visualizer_bars, vec![0; BAR_COUNT]);
    assert_eq!(app.queue.len(), 1);
    assert!(app.set_fullscreen(true));
}

#[test]
fn screen_is_split_above_the_panel() {
    let app = app();
    for y in [0, 1, 7, 300] {
        for height in 0..=260u16 {
            let area = rect(3, y, 50, height);
            let panel = height.min(6);
            assert_eq!(
                app.render_fullscreen(area, false, None),
                [
                    Layer::Visualizer(rect(3, y, 50, height - panel)),
                    Layer::Art(rect(3, y, 50, height - panel)),
                    Layer::Player(rect(3, y + height - panel, 50, panel)),
                ],
                "{area:?}"
            );
        }
    }
}

#[test]
fn screen_is_split_at_the_edge_of_the_range() {
    let app = app();
    let layers = app.render_fullscreen(rect(0, 65_000, 80, 600), false, None);
    assert_eq!(layers[0], Layer::Visualizer(rect(0, 65_000, 80, 529)));
    assert_eq!(layers[2], Layer::Player(rect(0, 65_529, 80, 6)));
}

#[test]
fn layers_are_drawn_from_back_to_front() {
    let area = rect(1, 2, 30, 20);
    let stage = rect(1, 2, 30, 14);
    let panel = rect(1, 16, 30, 6);
    let layers = fullscreen_layers(area, stage, panel, true, Some(1));
    assert_eq!(
        layers,
        [
            Layer::Background(area),
            Layer::Visualizer(stage),
            Layer::Art(stage),
            Layer::Player(panel),
            Layer::TopBar { area: rect(1, 2, 30, 1), backdrop: Backdrop::Background },
        ]
    );
    let plain = fullscreen_layers(area, stage, panel, false, Some(5));
    assert_eq!(plain.len(), 4);
    assert_eq!(
        plain[3],
        Layer::TopBar { area: rect(1, 2, 30, 1), backdrop: Backdrop::Black }
    );
    assert_eq!(fullscreen_layers(area, stage, panel, false, Some(0)).len(), 3);
    assert_eq!(fullscreen_layers(area, stage, panel, false, None).len(), 3);
}

#[test]
fn art_area_leaves_padding() {
    assert_eq!(art_area(rect(0, 0, 100, 3)), None);
    assert_eq!(art_area(rect(2, 1, 39, 4)), Some(rect(2, 1, 37, 3)));
    assert_eq!(art_area(rect(0, 0, 40, 20)), Some(rect(0, 0, 36, 18)));
    assert_eq!(art_area(rect(0, 0, 79, 29)), Some(rect(0, 0, 75, 27)));
    assert_eq!(art_area(rect(0, 0, 80, 30)), Some(rect(0, 0, 68, 24)));
    assert_eq!(art_area(rect(0, 0, 1, 19)), Some(rect(0, 0, 0, 18)));
}

#[test]
fn art_is_centred_between_the_edge_rows() {
    assert_eq!(place_art(rect(0, 0, 80, 30), 40, 20), rect(20, 5, 40, 20));
    assert_eq!(place_art(rect(10, 5, 20, 4), 18, 3), rect(11, 6, 18, 2));
    assert_eq!(place_art(rect(0, 0, 10, 4), 50, 50), rect(0, 1, 50, 2));
    let area = rect(4, 9, 61, 33);
    for width in 0..=area.width {
        for height in 0..=40 {
            let place = place_art(area, width, height);
            assert!(place.x >= area.x && place.x + place.width <= area.x + area.width);
            assert!(place.y > area.y && place.y + place.height < area.y + area.height);
            let left = place.x - area.x;
            let right = area.x + area.width - (place.x + place.width);
            assert!(left <= right && right <= left + 1);
            if height + 2 <= area.height {
                let above = place.y - area.y;
                let below = area.y + area.height - (place.y + place.height);
                assert!(place.height == height && above <= below && below <= above + 1);
            }
        }
    }
}

#[test]
fn art_is_scaled_into_its_limit() {
    let app = app();
    let area = rect(0, 0, 80, 30);
    // 68 by 24 cells are 680 by 480 pixels: a square image takes 48 by 24 cells.
    let square = art(100, 100);
    assert_eq!(app.render_fullscreen_art(Some(&square), area), Some(rect(16, 3, 48, 24)));
    // A wide image takes 68 by 17 cells.
    let wide = art(400, 200);
    assert_eq!(app.render_fullscreen_art(Some(&wide), area), Some(rect(6, 6, 68, 17)));
    assert_eq!(app.render_fullscreen_art(None, area), None);
    assert_eq!(app.render_fullscreen_art(Some(&square), rect(0, 0, 80, 3)), None);
}

#[test]
fn bars_spread_over_the_columns() {
    assert_eq!(bar_index(0, 1, 64), 0);
    assert_eq!(bar_index(63, 64, 64), 63);
    assert_eq!(bar_index(40, 80, 64), 32);
    assert_eq!(bar_index(79, 80, 64), 63);
    assert_eq!(bar_index(65_534, 65_535, 64), 63);
    assert_eq!(bar_index(7, 10, 10), 7);
    assert_eq!(bar_index(2, 3, 1), 0);
    assert_eq!(bar_index(1, 2, 5), 2);
    // The double nearest to 29 / 100, times 100, stays below 29.
    assert_eq!(bar_index(29, 100, 100), 28);
    assert_eq!(bar_index(65_534, 65_535, usize::MAX), 18_446_462_594_437_808_128);
    for width in (1..=500u16).chain([1000, 4097, 65_535]) {
        for column in 0..width {
            let exact = column as usize * BAR_COUNT / width as usize;
            assert_eq!(bar_index(column, width, BAR_COUNT), exact);
        }
    }
}

/// The bar of a column, in floating point.
fn float_bar(column: u16, width: u16, count: usize) -> usize {
    let scaled = (column as f64 / width as f64) * count as f64;
    (scaled as usize).min(count - 1)
}

#[test]
fn bars_are_found_in_double_precision() {
    let large = [
        1 << 20,
        (1 << 53) - 1,
        1 << 53,
        (1 << 53) + 1,
        (1 << 54) + 2,
        (1 << 54) + 6,
        0x7fff_ffff_ffff_fc00,
        0x7fff_ffff_ffff_fe00,
        usize::MAX - 1,
        usize::MAX,
    ];
    for count in (1..=300).chain(large) {
        for width in (1..=120u16).chain([1000, 4097]) {
            let mut last = 0;
            for column in 0..width {
                let index = bar_index(column, width, count);
                assert_eq!(index, float_bar(column, width, count));
                assert!(last <= index);
                last = index;
            }
        }
    }
    for column in 0..65_535 {
        for count in [7, 49, 100, 1_000_003, usize::MAX] {
            assert_eq!(bar_index(column, 65_535, count), float_bar(column, 65_535, count));
        }
    }
}

#[test]
fn bars_reach_as_high_as_their_level() {
    assert!(!bar_reaches(0, 9, 10));
    assert!(bar_reaches(1, 9, 10));
    assert!(!bar_reaches(1, 8, 10));
    assert!(bar_reaches(65_535, 0, 10));
    assert!(!bar_reaches(13_107, 3, 5));
    assert!(bar_reaches(13_108, 3, 5));
    for height in [1, 2, 3, 5, 7, 24, 49, 50, 51, 255, 257] {
        for level in (0..=65_535u16).step_by(257).chain([1, 13_107, 21_845, 65_534]) {
            let mut above = false;
            for row in 0..height {
                let threshold = (height - 1 - row) as f64 / height as f64;
                let reached = bar_reaches(level, row, height);
                assert_eq!(reached, level as f64 / 65535.0 > threshold);
                assert!(reached || !above);
                above = reached;
            }
        }
    }
}

#[test]
fn cells_are_painted_up_to_the_level() {
    let cell = |x, y, bar| BarCell { x, y, bar };
    // Four columns of two bars: the left one empty, the right one just above half the height.
    assert_eq!(painted_cells(rect(10, 20, 4, 2), &[0, 32_768]), [
        cell(12, 20, 1),
        cell(12, 21, 1),
        cell(13, 20, 1),
        cell(13, 21, 1),
    ]);
    assert_eq!(painted_cells(rect(10, 20, 4, 2), &[0, 32_767]), [
        cell(12, 21, 1),
        cell(13, 21, 1),
    ]);
    assert_eq!(painted_cells(rect(65_535, 65_535, 1, 1), &[1]), [cell(65_535, 65_535, 0)]);
    assert!(painted_cells(rect(3, 3, 0, 9), &[]).is_empty());
    assert!(painted_cells(rect(3, 3, 9, 0), &[]).is_empty());
    assert!(painted_cells(rect(3, 3, 9, 9), &[0; BAR_COUNT]).is_empty());
    assert_eq!(painted_cells(rect(3, 3, 9, 9), &[65_535; BAR_COUNT]).len(), 81);
}

#[test]
fn painted_cells_are_those_that_bars_reach() {
    for (width, height) in [(1, 1), (7, 5), (64, 20), (101, 33)] {
        for count in [1, 3, 64, 200] {
            let bars: Vec<u16> = (0..count).map(|i| ((i * 7_919 + 13) % 65_536) as u16).collect();
            let area = rect(5, 6, width, height);
            let mut expected = Vec::new();
            for column in 0..width {
                let bar = float_bar(column, width, count);
                for row in 0..height {
                    if bars[bar] as u32 * height as u32 > (height - 1 - row) as u32 * 65_535 {
                        expected.push(BarCell { x: 5 + column, y: 6 + row, bar });
                    }
                }
            }
            assert_eq!(painted_cells(area, &bars), expected);
        }
    }
}

#[test]
fn cells_fill_in_eight_steps() {
    let symbols: String = (0..=9).map(bar_char).collect();
    assert_eq!(symbols, " ▁▂▃▄▅▆▇██");
    assert_eq!(bar_char(usize::MAX), '█');
}

#[test]
fn padding_follows_the_width() {
    assert_eq!(player_padding(rect(0, 0, 39, 5), None), 1);
    assert_eq!(player_padding(rect(0, 0, 40, 5), None), 4);
    assert_eq!(player_padding(rect(0, 0, 79, 5), Some(rect(30, 0, 10, 10))), 7);
    assert_eq!(player_padding(rect(0, 0, 80, 5), None), 16);
    assert_eq!(player_padding(rect(0, 0, 65_535, 5), None), 13_107);
    assert_eq!(player_padding(rect(0, 0, 100, 5), Some(rect(30, 0, 40, 10))), 24);
    assert_eq!(player_padding(rect(10, 0, 100, 5), Some(rect(30, 0, 50, 10))), 16);
    assert_eq!(player_padding(rect(0, 0, 100, 5), Some(rect(2, 0, 40, 10))), 4);
    assert_eq!(player_padding(rect(0, 0, 100, 5), Some(rect(60, 0, 60, 10))), 4);
}

#[test]
fn padding_leaves_room_and_spans_the_art() {
    for width in 2..=400u16 {
        for x in 0..width {
            let inner = rect(0, 0, width, 5);
            let art = rect(x, 0, (width - x) / 2, 10);
            let padding = player_padding(inner, Some(art));
            assert!(2 * padding <= width);
            let margin = x.min(width - x - art.width);
            if width >= 80 && margin >= 4 {
                assert!(padding <= x && x + art.width <= width - padding);
            }
            if width >= 80 && margin >= 5 {
                assert!(padding < x && x + art.width < width - padding);
            }
        }
    }
}

#[test]
fn title_and_artists_are_shown() {
    let (title, artists) = track_spans(Some(&song()));
    assert_eq!(texts(&title), ["Teardrop", " — ", "Mezzanine", " (1998)"]);
    assert!(title[0].bold && !title[1].bold && !title[0].dim);
    assert_eq!(title[0].tint, Tint::Foreground);
    assert_eq!(title[1].tint, Tint::ForegroundDim);
    assert_eq!(title[2].tint, Tint::Foreground);
    assert_eq!(title[3].tint, Tint::ForegroundDim);
    assert_eq!(texts(&artists), ["› ", "Massive Attack, Elizabeth Fraser"]);
    assert_eq!(artists[0].tint, Tint::ForegroundDim);
    assert_eq!(artists[1].tint, Tint::ForegroundSecondary);
}

#[test]
fn unknown_year_and_artists_are_left_out() {
    let bare = Song { production_year: 0, artists: vec![], ..song() };
    let (title, artists) = track_spans(Some(&bare));
    assert_eq!(texts(&title), ["Teardrop", " — ", "Mezzanine"]);
    assert!(artists.is_empty());
    let nameless = Song { artists: vec!["".to_string()], ..song() };
    assert!(track_spans(Some(&nameless)).1.is_empty());
}

#[test]
fn no_track_is_said() {
    let (title, artists) = track_spans(None);
    assert_eq!(texts(&title), ["No track playing"]);
    assert_eq!(title[0].tint, Tint::Foreground);
    assert!(artists.is_empty());
}

#[test]
fn durations_are_minutes_and_seconds() {
    assert_eq!(duration_text(65, 330, false), "1:05 / 5:30");
    assert_eq!(duration_text(0, 59, false), "0:00 / 0:59");
    assert_eq!(duration_text(3_600, 36_000, false), "60:00 / 600:00");
    assert_eq!(duration_text(9, 9, true), "0:00 / 0:00");
    assert_eq!(duration_text(u32::MAX, u32::MAX, false), "71582788:15 / 71582788:15");
}

#[test]
fn gauge_label_has_a_symbol() {
    let stage = "◳".to_string();
    assert_eq!(gauge_label(true, Some(&stage), true, false, "7"), "◳   7% ");
    assert_eq!(gauge_label(false, None, false, false, "7"), "►   7% ");
    assert_eq!(gauge_label(false, Some(&stage), true, false, "100"), "\u{23f8}\u{fe0e}   100% ");
    assert_eq!(gauge_label(false, None, false, true, "0"), "\u{23f8}\u{fe0e}   0% ");
    assert_eq!(gauge_label(false, None, true, true, "0"), "►   0% ");
}

#[test]
fn seek_target_is_shown_while_seeking() {
    assert_eq!(visible_position(false, Some(9.5), 2.5), 2.5);
    assert_eq!(visible_position(true, Some(9.5), 2.5), 9.5);
    assert_eq!(visible_position(true, None, 2.5), 2.5);
}

#[test]
fn metadata_lists_the_stream() {
    let spans = metadata_spans(Some(&song()), &playback(), None, "44.1 kHz");
    assert_eq!(texts(&spans), ["flac", " - ", "44.1 kHz", " - ", "stereo", " - ", "913 kbps"]);
    assert!(spans.iter().all(|span| !span.bold && !span.dim));
    assert_eq!(spans[0].tint, Tint::Foreground);
    assert_eq!(spans[1].tint, Tint::ForegroundDim);
    let transcoded = Song { is_transcoded: true, ..song() };
    let spans = metadata_spans(Some(&transcoded), &playback(), None, "48 kHz");
    assert_eq!(spans.len(), 8);
    assert_eq!(spans[7].text, " › tc");
    assert!(spans[7].dim);
    assert!(metadata_spans(None, &playback(), None, "48 kHz").is_empty());
}

#[test]
fn metadata_waits_for_the_stream() {
    let unknown =
        PlaybackState { audio_samplerate: 0, hr_channels: String::new(), ..playback() };
    assert!(is_loading(&unknown));
    assert!(!is_loading(&playback()));
    assert!(!is_loading(&PlaybackState { audio_samplerate: 0, ..playback() }));
    assert!(!is_loading(&PlaybackState { hr_channels: String::new(), ..playback() }));
    let stage = "◰".to_string();
    let spans = metadata_spans(Some(&song()), &unknown, Some(&stage), "0 kHz");
    assert_eq!(texts(&spans), ["◰ Loading metadata"]);
}

#[test]
fn current_song_is_the_one_that_plays() {
    let mut app = app();
    assert_eq!(app.current_song().unwrap().name, "Teardrop");
    app.playback.current_index = 1;
    assert!(app.current_song().is_none());
}

fn check_places(panel: &PlayerPanel, content: Rect, width: u16) {
    assert_eq!(panel.info, rect(content.x, content.y, content.width, 2));
    assert_eq!(panel.metadata, rect(content.x, content.y + 3, content.width, 1));
    assert_eq!((panel.gauge.y, panel.gauge.height), (content.y + 2, 1));
    assert_eq!((panel.duration.y, panel.duration.height), (content.y + 2, 1));
    assert_eq!(panel.gauge.x, content.x);
    assert_eq!(panel.gauge.x + panel.gauge.width, panel.duration.x);
    assert_eq!(panel.duration.x + panel.duration.width, content.x + content.width);
    assert_eq!(panel.duration.width, width.min(content.width));
}

#[test]
fn panel_shows_track_progress_and_stream() {
    let app = app();
    let panel = app.render_fullscreen_player(rect(0, 20, 100, 6), None, &readout());
    assert_eq!(panel.frame, rect(0, 20, 100, 6));
    check_places(&panel, rect(20, 21, 60, 5), 14);
    assert_eq!(panel.duration.width, 14);
    assert_eq!(texts(&panel.title_spans), ["Teardrop", " — ", "Mezzanine", " (1998)"]);
    assert_eq!(texts(&panel.artist_spans), ["› ", "Massive Attack, Elizabeth Fraser"]);
    assert_eq!(panel.gauge_tint, Tint::ProgressFill);
    assert_eq!(panel.gauge_label, "►   20% ");
    assert_eq!(panel.duration_text, "1:05 / 5:30");
    assert_eq!(panel.metadata_spans.len(), 7);
}

#[test]
fn panel_follows_the_art() {
    let app = app();
    let panel =
        app.render_fullscreen_player(rect(0, 20, 100, 6), Some(rect(30, 2, 40, 15)), &readout());
    check_places(&panel, rect(24, 21, 52, 5), 14);
}

#[test]
fn panel_shows_the_spinner_while_buffering() {
    let mut app = app();
    app.buffering = true;
    app.playback.audio_samplerate = 0;
    app.playback.hr_channels = String::new();
    let panel = app.render_fullscreen_player(rect(0, 0, 60, 6), None, &readout());
    assert_eq!(panel.gauge_tint, Tint::Primary);
    assert_eq!(panel.gauge_label, "◳   20% ");
    assert_eq!(texts(&panel.metadata_spans), ["◳ Loading metadata"]);
}

#[test]
fn panel_without_a_track_has_no_metadata() {
    let mut app = app();
    app.queue.clear();
    app.spinner = 99;
    let idle = Readout { empty: true, percent: "0".to_string(), ..readout() };
    let panel = app.render_fullscreen_player(rect(0, 0, 60, 6), None, &idle);
    assert_eq!(texts(&panel.title_spans), ["No track playing"]);
    assert!(panel.artist_spans.is_empty());
    assert!(panel.metadata_spans.is_empty());
    assert_eq!(panel.duration_text, "0:00 / 0:00");
}

#[test]
fn panel_fits_screens_of_all_sizes() {
    let app = app();
    for width in 2..=240u16 {
        let area = rect(5, 8, width, 6);
        let panel = app.render_fullscreen_player(area, None, &readout());
        let inner = rect(5, 9, width, 5);
        let padding = player_padding(inner, None);
        let content = rect(5 + padding, 9, width - 2 * padding, 5);
        check_places(&panel, content, 14);
    }
    for height in 0..=30u16 {
        let area = rect(5, 8, 100, height);
        let panel = app.render_fullscreen_player(area, None, &readout());
        let (y, bottom) = (if height == 0 { 8 } else { 9 }, 8 + height);
        for part in [panel.info, panel.gauge, panel.duration, panel.metadata] {
            assert!(y <= part.y && part.y + part.height <= bottom);
        }
        assert_eq!(panel.info.y + panel.info.height, panel.gauge.y);
        assert_eq!(panel.gauge.y + panel.gauge.height, panel.metadata.y);
        assert_eq!(panel.gauge.x + panel.gauge.width, panel.duration.x);
        if height >= 5 {
            check_places(&panel, rect(25, 9, 60, height - 1), 14);
        }
    }
}

#[test]
fn low_panel_shares_its_rows() {
    let app = app();
    for y in (0..1_500u16).chain(64_000..64_200).chain([65_531]) {
        for (height, rows) in [(1, [0, 0, 0]), (2, [0, 1, 0]), (3, [1, 0, 1]), (4, [1, 1, 1])] {
            let panel = app.render_fullscreen_player(rect(3, y, 40, height), None, &readout());
            let heights = [panel.info.height, panel.gauge.height, panel.metadata.height];
            assert_eq!(heights, rows);
            assert_eq!(panel.info.y, y + 1);
            assert_eq!(panel.gauge.y, y + 1 + rows[0]);
            assert_eq!(panel.metadata.y, y + 1 + rows[0] + rows[1]);
        }
    }
}

#[test]
fn panel_without_room_for_its_margins_is_empty() {
    let app = app();
    let panel = app.render_fullscreen_player(rect(5, 8, 1, 6), None, &readout());
    assert_eq!(panel.info, rect(0, 0, 0, 0));
    assert_eq!((panel.gauge.width, panel.duration.width), (0, 0));
}

#[test]
fn panel_keeps_wide_rows_without_a_gap() {
    let app = app();
    for width in (1_000..=2_300u16).step_by(13) {
        let panel = app.render_fullscreen_player(rect(0, 0, width, 6), None, &readout());
        let padding = player_padding(rect(0, 1, width, 5), None);
        check_places(&panel, rect(padding, 1, width - 2 * padding, 5), 14);
    }
}

#[test]
fn panel_divides_extremely_wide_rows() {
    let app = app();
    for width in (2_300..=65_535u16).step_by(23) {
        let panel = app.render_fullscreen_player(rect(0, 0, width, 6), None, &readout());
        let padding = player_padding(rect(0, 1, width, 5), None);
        assert_eq!(panel.gauge.x, padding);
        assert_eq!(panel.gauge.x + panel.gauge.width, panel.duration.x);
        assert_eq!(panel.duration.x + panel.duration.width, width - padding);
        // The gauge takes a hundred parts of the row to one, in hundredths of a column.
        let row = width - 2 * padding;
        let gauge = ((row as f64 * 10_000.0 / 101.0).round() / 100.0).round() as u16;
        let wanted = if row <= 101 * 14 { 14 } else { row - gauge };
        assert_eq!(panel.duration.width, wanted);
        assert!(panel.duration.width >= 14);
    }
}
