//! The texts of the player panel: track, progress and stream data.
use vstd::prelude::*;
use vstd::string::*;

use crate::text::{self, decimal_text, join, signed_text, two_digit_text};

verus! {

/// A colour of the theme, by the part that it plays.
#[derive(Clone, Copy, Debug, PartialEq, Eq, Structural)]
pub enum Tint {
    Foreground,
    ForegroundDim,
    ForegroundSecondary,
    Primary,
    ProgressFill,
}

/// A stretch of text in one style.
#[derive(Debug)]
pub struct Span {
    pub text: String,
    pub tint: Tint,
    pub bold: bool,
    pub dim: bool,
}

/// What a span shows.
#[verifier::ext_equal]
pub struct SpanView {
    pub text: Seq<char>,
    pub tint: Tint,
    pub bold: bool,
    pub dim: bool,
}

impl View for Span {
    type V = SpanView;

    open spec fn view(&self) -> SpanView {
        SpanView { text: self.text@, tint: self.tint, bold: self.bold, dim: self.dim }
    }
}

/// What a line of spans shows.
pub open spec fn shown(spans: Seq<Span>) -> Seq<SpanView> {
    Seq::new(spans.len(), |i: int| spans[i]@)
}

/// Text in the plain style of a tint.
pub open spec fn plain(text: Seq<char>, tint: Tint) -> SpanView {
    SpanView { text, tint, bold: false, dim: false }
}

/// A track of the queue.
#[derive(Debug)]
pub struct Song {
    pub name: String,
    pub album: String,
    pub artists: Vec<String>,
    /// Zero where the year is not known.
    pub production_year: u64,
    /// The length, in units of a hundred nanoseconds.
    pub run_time_ticks: u64,
    pub is_transcoded: bool,
}

/// What the audio backend reports of the track that it plays.
#[derive(Debug)]
pub struct PlaybackState {
    pub current_index: usize,
    pub seek_active: bool,
    pub audio_samplerate: i64,
    pub audio_bitrate: i64,
    pub hr_channels: String,
    pub file_format: String,
}

/// The spans of the title line: name, album, and the year where it is known.
pub open spec fn title_line(song: Song) -> Seq<SpanView> {
    let start = seq![
        SpanView { text: song.name@, tint: Tint::Foreground, bold: true, dim: false },
        plain(" — "@, Tint::ForegroundDim),
        plain(song.album@, Tint::Foreground),
    ];
    if song.production_year > 0 {
        start.push(
            plain(
                " ("@ + text::decimal(song.production_year as nat) + ")"@,
                Tint::ForegroundDim,
            ),
        )
    } else {
        start
    }
}

/// The names of all artists of a song, in one text.
pub open spec fn artist_names(song: Song) -> Seq<char> {
    text::joined(text::texts(song.artists@), ", "@)
}

/// The spans of the artist line, which is empty where no artist is named.
pub open spec fn artist_line(song: Song) -> Seq<SpanView> {
    if artist_names(song).len() > 0 {
        seq![
            plain("› "@, Tint::ForegroundDim),
            plain(artist_names(song), Tint::ForegroundSecondary),
        ]
    } else {
        seq![]
    }
}

/// Makes a span in the plain style of `tint`.
fn plain_span(text: String, tint: Tint) -> (span: Span)
    ensures
        span@ == plain(text@, tint),
{
    Span { text, tint, bold: false, dim: false }
}

/// Lays out the title line of `song`.
pub fn title_spans(song: &Song) -> (spans: Vec<Span>)
    ensures
        shown(spans@) == title_line(*song),
{
    let mut spans: Vec<Span> = Vec::new();
    spans.push(Span { text: song.name.clone(), tint: Tint::Foreground, bold: true, dim: false });
    spans.push(plain_span(" — ".to_string(), Tint::ForegroundDim));
    spans.push(plain_span(song.album.clone(), Tint::Foreground));
    if song.production_year > 0 {
        let mut year = " (".to_string();
        year.append(decimal_text(song.production_year).as_str());
        year.append(")");
        spans.push(plain_span(year, Tint::ForegroundDim));
    }
    assert(shown(spans@) =~= title_line(*song));
    spans
}

/// Lays out the artist line of `song`.
pub fn artist_spans(song: &Song) -> (spans: Vec<Span>)
    ensures
        shown(spans@) == artist_line(*song),
{
    let artists = join(&song.artists, ", ");
    let mut spans: Vec<Span> = Vec::new();
    if !artists.as_str().is_empty() {
        spans.push(plain_span("› ".to_string(), Tint::ForegroundDim));
        spans.push(plain_span(artists, Tint::ForegroundSecondary));
    }
    assert(shown(spans@) =~= artist_line(*song));
    spans
}

/// The spans that stand for a song, or for the lack of one: the title line, then the artist line.
pub open spec fn track_lines(song: Option<Song>) -> (Seq<SpanView>, Seq<SpanView>) {
    match song {
        Some(song) => (title_line(song), artist_line(song)),
        None => (seq![plain("No track playing"@, Tint::Foreground)], seq![]),
    }
}

/// Lays out the two lines of track information.
pub fn track_spans(song: Option<&Song>) -> (lines: (Vec<Span>, Vec<Span>))
    ensures
        (shown(lines.0@), shown(lines.1@)) == track_lines(
            match song {
                Some(song) => Some(*song),
                None => None,
            },
        ),
{
    match song {
        Some(song) => (title_spans(song), artist_spans(song)),
        None => {
            let mut title: Vec<Span> = Vec::new();
            title.push(plain_span("No track playing".to_string(), Tint::Foreground));
            let artists: Vec<Span> = Vec::new();
            assert(shown(title@) =~= seq![plain("No track playing"@, Tint::Foreground)]);
            assert(shown(artists@) =~= Seq::<SpanView>::empty());
            (title, artists)
        },
    }
}

/// Minutes and seconds: the minutes as they are, the seconds with two digits.
pub open spec fn clock(seconds: nat) -> Seq<char> {
    text::decimal(seconds / 60) + ":"@ + text::two_digits(seconds % 60)
}

/// The position in the track and its length. `empty` says that the length is zero.
pub open spec fn duration_line(position: nat, total: nat, empty: bool) -> Seq<char> {
    if empty {
        "0:00 / 0:00"@
    } else {
        clock(position) + " / "@ + clock(total)
    }
}

/// Writes seconds as minutes and seconds.
fn clock_text(seconds: u32) -> (text: String)
    ensures
        text@ == clock(seconds as nat),
{
    let mut text = decimal_text((seconds / 60) as u64);
    text.append(":");
    text.append(two_digit_text(seconds % 60).as_str());
    text
}

/// Writes the position in the track and its length, both in whole seconds. `empty` says that the
/// length is zero, before any rounding to seconds.
pub fn duration_text(position: u32, total: u32, empty: bool) -> (text: String)
    ensures
        text@ == duration_line(position as nat, total as nat, empty),
{
    if empty {
        "0:00 / 0:00".to_string()
    } else {
        let mut text = clock_text(position);
        text.append(" / ");
        text.append(clock_text(total).as_str());
        text
    }
}

/// The symbol in front of the progress: a stage of the spinner while buffering, else whether the
/// track plays. `swap` exchanges the symbols for playing and paused.
pub open spec fn play_symbol(buffering: bool, stage: Seq<char>, paused: bool, swap: bool) -> Seq<
    char,
> {
    if buffering {
        stage
    } else if paused != swap {
        "⏸︎"@
    } else {
        "►"@
    }
}

/// The label of the progress gauge.
pub open spec fn gauge_line(symbol: Seq<char>, percent: Seq<char>) -> Seq<char> {
    symbol + "   "@ + percent + "% "@
}

/// The colour of the filled part of the gauge.
pub open spec fn gauge_tint(buffering: bool) -> Tint {
    if buffering {
        Tint::Primary
    } else {
        Tint::ProgressFill
    }
}

/// Writes the label of the progress gauge. `stage` is the spinner's current stage, which is only
/// there for a spinner that points at one; `percent` is the progress, rounded to a whole number.
pub fn gauge_label(
    buffering: bool,
    stage: Option<&String>,
    paused: bool,
    swap: bool,
    percent: &str,
) -> (label: String)
    requires
        buffering ==> stage is Some,
    ensures
        label@ == gauge_line(
            play_symbol(
                buffering,
                match stage {
                    Some(stage) => stage@,
                    None => seq![],
                },
                paused,
                swap,
            ),
            percent@,
        ),
{
    let mut label = if buffering {
        stage.unwrap().clone()
    } else if paused != swap {
        "⏸︎".to_string()
    } else {
        "►".to_string()
    };
    label.append("   ");
    label.append(percent);
    label.append("% ");
    label
}

/// The position to show: while a seek is under way its target, where there is one; else where
/// playback stands.
pub fn visible_position<T>(seek_active: bool, seek_target: Option<T>, position: T) -> (shown: T)
    ensures
        shown == (if seek_active {
            match seek_target {
                Some(target) => target,
                None => position,
            }
        } else {
            position
        }),
        seek_active && seek_target is Some ==> shown == seek_target->0,
        !seek_active || seek_target is None ==> shown == position,
{
    if seek_active {
        seek_target.unwrap_or(position)
    } else {
        position
    }
}

/// Whether nothing is known of the stream yet.
pub open spec fn loading(playback: PlaybackState) -> bool {
    playback.audio_samplerate == 0 && playback.hr_channels@.len() == 0
}

/// The distance between two pieces of stream data.
pub open spec fn dash() -> SpanView {
    plain(" - "@, Tint::ForegroundDim)
}

/// The spans of the metadata line: nothing without a track, the spinner until the stream is known,
/// else its data. `samplerate` is the sample rate as it is shown.
pub open spec fn metadata_line(
    song: Option<Song>,
    playback: PlaybackState,
    stage: Seq<char>,
    samplerate: Seq<char>,
) -> Seq<SpanView> {
    match song {
        None => seq![],
        Some(song) => if loading(playback) {
            seq![plain(stage + " Loading metadata"@, Tint::Foreground)]
        } else {
            let data = seq![
                plain(playback.file_format@, Tint::Foreground),
                dash(),
                plain(samplerate, Tint::Foreground),
                dash(),
                plain(playback.hr_channels@, Tint::Foreground),
                dash(),
                plain(
                    text::signed_decimal(playback.audio_bitrate as int) + " kbps"@,
                    Tint::Foreground,
                ),
            ];
            if song.is_transcoded {
                data.push(
                    SpanView { text: " › tc"@, tint: Tint::Foreground, bold: false, dim: true },
                )
            } else {
                data
            }
        },
    }
}

/// Tells whether nothing is known of the stream yet.
pub fn is_loading(playback: &PlaybackState) -> (yes: bool)
    ensures
        yes == loading(*playback),
{
    playback.audio_samplerate == 0 && playback.hr_channels.as_str().is_empty()
}

/// Lays out the metadata line. `stage` is the spinner's current stage.
pub fn metadata_spans(
    song: Option<&Song>,
    playback: &PlaybackState,
    stage: Option<&String>,
    samplerate: &str,
) -> (spans: Vec<Span>)
    requires
        song is Some && loading(*playback) ==> stage is Some,
    ensures
        shown(spans@) == metadata_line(
            match song {
                Some(song) => Some(*song),
                None => None,
            },
            *playback,
            match stage {
                Some(stage) => stage@,
                None => seq![],
            },
            samplerate@,
        ),
{
    let ghost line = metadata_line(
        match song {
            Some(song) => Some(*song),
            None => None,
        },
        *playback,
        match stage {
            Some(stage) => stage@,
            None => seq![],
        },
        samplerate@,
    );
    let mut spans: Vec<Span> = Vec::new();
    if let Some(song) = song {
        if is_loading(playback) {
            let mut waiting = stage.unwrap().clone();
            waiting.append(" Loading metadata");
            spans.push(plain_span(waiting, Tint::Foreground));
        } else {
            spans.push(plain_span(playback.file_format.clone(), Tint::Foreground));
            spans.push(plain_span(" - ".to_string(), Tint::ForegroundDim));
            spans.push(plain_span(samplerate.to_string(), Tint::Foreground));
            spans.push(plain_span(" - ".to_string(), Tint::ForegroundDim));
            spans.push(plain_span(playback.hr_channels.clone(), Tint::Foreground));
            spans.push(plain_span(" - ".to_string(), Tint::ForegroundDim));
            let mut bitrate = signed_text(playback.audio_bitrate);
            bitrate.append(" kbps");
            spans.push(plain_span(bitrate, Tint::Foreground));
            if song.is_transcoded {
                spans.push(
                    Span {
                        text: " › tc".to_string(),
                        tint: Tint::Foreground,
                        bold: false,
                        dim: true,
                    },
                );
            }
        }
    }
    assert(shown(spans@) =~= line);
    spans
}

/// The powers of ten.
pub open spec fn power_of_ten(exponent: nat) -> nat
    decreases exponent,
{
    if exponent == 0 {
        1
    } else {
        10 * power_of_ten((exponent - 1) as nat)
    }
}

/// A number below a power of ten has no more digits than the exponent, and all are ASCII.
proof fn lemma_decimal_length(n: nat, exponent: nat)
    requires
        n < power_of_ten(exponent),
        exponent > 0,
    ensures
        text::decimal(n).len() <= exponent,
        vstd::utf8::is_ascii_chars(text::decimal(n)),
    decreases exponent,
{
    text::lemma_decimal_digits(n);
    let digits = text::decimal(n);
    assert forall|i: int| 0 <= i < digits.len() implies '\0' <= #[trigger] digits[i] <= '\u{7f}' by {
        assert(text::is_digit(digits[i]));
    }
    if n >= 10 {
        assert(n / 10 < power_of_ten((exponent - 1) as nat));
        if exponent > 1 {
            lemma_decimal_length(n / 10, (exponent - 1) as nat);
        } else {
            assert(power_of_ten(0) == 1);
            assert(power_of_ten(1) == 10);
        }
    }
}

/// The duration line is ASCII and short, whatever the times: it takes a byte for each character,
/// and 25 at most.
pub proof fn lemma_duration_length(position: u32, total: u32, empty: bool)
    ensures
        vstd::utf8::encode_utf8(duration_line(position as nat, total as nat, empty)).len()
            == duration_line(position as nat, total as nat, empty).len(),
        vstd::utf8::is_ascii_chars(duration_line(position as nat, total as nat, empty)),
        duration_line(position as nat, total as nat, empty).len() <= 25,
{
    reveal_strlit("0:00 / 0:00");
    reveal_strlit(":");
    reveal_strlit(" / ");
    if !empty {
        lemma_clock_length(position);
        lemma_clock_length(total);
    }
    vstd::utf8::is_ascii_chars_encode_utf8(
        duration_line(position as nat, total as nat, empty),
    );
}

/// Minutes and seconds are ASCII and short.
proof fn lemma_clock_length(seconds: u32)
    ensures
        vstd::utf8::is_ascii_chars(clock(seconds as nat)),
        clock(seconds as nat).len() <= 11,
{
    reveal_strlit(":");
    reveal_with_fuel(power_of_ten, 9);
    assert(power_of_ten(8) == 100_000_000);
    lemma_decimal_length((seconds / 60) as nat, 8);
    lemma_decimal_length((seconds % 60) as nat, 2);
    let minutes = text::decimal((seconds / 60) as nat);
    let rest = text::two_digits((seconds % 60) as nat);
    assert(vstd::utf8::is_ascii_chars(rest));
    assert(vstd::utf8::is_ascii_chars(minutes + ":"@));
    assert(rest.len() <= 2) by {
        if seconds % 60 < 10 {
            lemma_decimal_length((seconds % 60) as nat, 1);
        }
    }
}

/// A line shows each of its spans, in order, with its text and its style.
pub proof fn law_lines_show_their_spans(spans: Seq<Span>, i: int)
    requires
        0 <= i < spans.len(),
    ensures
        shown(spans).len() == spans.len(),
        shown(spans)[i].text == spans[i].text@,
        shown(spans)[i].tint == spans[i].tint,
        shown(spans)[i].bold == spans[i].bold,
        shown(spans)[i].dim == spans[i].dim,
{
}

/// The title line of a track is its name in bold, and its album behind a dash. A year that is known
/// follows in brackets, and can be read back from there.
pub proof fn law_title_names_the_track(song: Song)
    ensures
        ({
            let line = track_lines(Some(song)).0;
            &&& line.len() == if song.production_year > 0 { 4int } else { 3 }
            &&& line[0].text == song.name@ && line[0].bold && line[0].tint == Tint::Foreground
            &&& line[1].text == seq![' ', '—', ' '] && line[1].tint == Tint::ForegroundDim
            &&& line[2].text == song.album@ && line[2].tint == Tint::Foreground
            &&& song.production_year > 0 ==> {
                let year = line[3].text;
                &&& year[0] == ' ' && year[1] == '(' && year.last() == ')'
                &&& text::all_digits(year.subrange(2, year.len() - 1))
                &&& text::digits_value(year.subrange(2, year.len() - 1)) == song.production_year
                &&& text::parsed_u32(year.subrange(2, year.len() - 1)) == if song.production_year
                    <= u32::MAX {
                    Some(song.production_year as u32)
                } else {
                    None
                }
                &&& line[3].tint == Tint::ForegroundDim
            }
            &&& forall|i: int|
                0 <= i < line.len() ==> !(#[trigger] line[i]).dim && (line[i].bold <==> i == 0)
        }),
{
    reveal_strlit(" — ");
    reveal_strlit(" (");
    reveal_strlit(")");
    assert(" — "@ =~= seq![' ', '—', ' ']);
    let digits = text::decimal(song.production_year as nat);
    text::lemma_decimal_digits(song.production_year as nat);
    let year = " ("@ + digits + ")"@;
    assert(year.subrange(2, year.len() - 1) =~= digits);
    text::law_parse_takes_numerals(digits);
}

/// Two tracks with another name or another album have another title line.
pub proof fn law_titles_tell_tracks_apart(a: Song, b: Song)
    ensures
        title_line(a) == title_line(b) ==> a.name@ == b.name@ && a.album@ == b.album@
            && a.production_year == b.production_year,
{
    law_title_names_the_track(a);
    law_title_names_the_track(b);
}

/// The artist line names all artists, with a comma between each two, or is empty where there is no
/// name to show. Without a track, the title line says so.
pub proof fn law_artists_are_named(song: Song, first: Seq<char>, others: Seq<Seq<char>>)
    requires
        text::texts(song.artists@) == seq![first] + others,
        first.len() > 0 || others.len() > 0,
    ensures
        ({
            let line = track_lines(Some(song)).1;
            &&& line.len() == 2
            &&& line[0].text == seq!['›', ' '] && line[0].tint == Tint::ForegroundDim
            &&& line[1].tint == Tint::ForegroundSecondary
            &&& !line[0].bold && !line[0].dim && !line[1].bold && !line[1].dim
            &&& others.len() == 0 ==> line[1].text == first
            &&& others.len() > 0 ==> line[1].text == first + seq![',', ' '] + text::joined(
                others,
                seq![',', ' '],
            )
        }),
{
    reveal_strlit("› ");
    reveal_strlit(", ");
    assert("› "@ =~= seq!['›', ' ']);
    assert(", "@ =~= seq![',', ' ']);
    if others.len() > 0 {
        text::law_join_goes_through_lists(seq![first], others, ", "@);
    } else {
        assert(seq![first] + others =~= seq![first]);
    }
}

/// Nothing stands for artists that are not named, and a missing track has no artists.
pub proof fn law_no_artists_no_line(song: Song)
    ensures
        song.artists@.len() == 0 ==> track_lines(Some(song)).1.len() == 0,
        song.artists@.len() == 1 && song.artists@[0]@.len() == 0 ==> track_lines(Some(song)).1.len()
            == 0,
        track_lines(None).1.len() == 0,
        track_lines(None).0.len() == 1,
        track_lines(None).0[0] == (SpanView {
            text: "No track playing"@,
            tint: Tint::Foreground,
            bold: false,
            dim: false,
        }),
{
}

/// A clock can be read back: the digits in front of the last colon are the minutes, the two behind
/// it the seconds, less than sixty.
pub proof fn law_clock_tells_the_time(seconds: nat)
    ensures
        ({
            let shown = clock(seconds);
            let colon = shown.len() - 3;
            &&& colon > 0
            &&& shown[colon] == ':'
            &&& text::all_digits(shown.take(colon)) && text::all_digits(shown.skip(colon + 1))
            &&& 60 * text::digits_value(shown.take(colon)) + text::digits_value(
                shown.skip(colon + 1),
            ) == seconds
            &&& text::digits_value(shown.skip(colon + 1)) < 60
            &&& colon > 1 ==> shown[0] != '0'
        }),
{
    reveal_strlit(":");
    let minutes = text::decimal(seconds / 60);
    let rest = text::two_digits(seconds % 60);
    text::lemma_decimal_digits(seconds / 60);
    text::law_numerals_are_unique(0, seconds / 60);
    text::law_padding_keeps_the_number(seconds % 60);
    assert(clock(seconds).take(minutes.len() as int) =~= minutes);
    assert(clock(seconds).skip(minutes.len() as int + 1) =~= rest);
}

/// The duration line shows the position and then the length, with a stroke between. An empty track
/// shows as one at the start of nothing.
pub proof fn law_duration_shows_both_times(position: nat, total: nat)
    ensures
        ({
            let line = duration_line(position, total, false);
            let at = clock(position).len() as int;
            &&& line.len() == at + 3 + clock(total).len()
            &&& line.take(at) == clock(position)
            &&& line[at] == ' ' && line[at + 1] == '/' && line[at + 2] == ' '
            &&& line.skip(at + 3) == clock(total)
        }),
        duration_line(position, total, true) == duration_line(0, 0, false),
{
    reveal_strlit(" / ");
    let line = duration_line(position, total, false);
    assert(line.take(clock(position).len() as int) =~= clock(position));
    assert(line.skip(clock(position).len() as int + 3) =~= clock(total));
    reveal_strlit("0:00 / 0:00");
    reveal_strlit(":");
    assert(text::decimal(0) =~= seq!['0']);
    assert(text::two_digits(0) =~= seq!['0', '0']);
    assert(clock(0) =~= seq!['0', ':', '0', '0']);
    assert(duration_line(0, 0, false) =~= "0:00 / 0:00"@);
}

/// While buffering the spinner is shown, whatever else. Otherwise the symbol tells playing from
/// paused, and exchanging the symbols is the same as exchanging the two.
pub proof fn law_symbol_tells_playing_from_paused(stage: Seq<char>, paused: bool, swap: bool)
    ensures
        play_symbol(true, stage, paused, swap) == stage,
        play_symbol(false, stage, paused, swap) == play_symbol(false, stage, !paused, !swap),
        play_symbol(false, stage, true, false) == seq!['\u{23f8}', '\u{fe0e}'],
        play_symbol(false, stage, false, false) == seq!['►'],
{
    reveal_strlit("⏸︎");
    reveal_strlit("►");
    assert("⏸︎"@ =~= seq!['\u{23f8}', '\u{fe0e}']);
    assert("►"@ =~= seq!['►']);
}

/// The label of the gauge is the symbol, a distance of three columns, and the progress in per cent.
pub proof fn law_gauge_shows_the_progress(symbol: Seq<char>, percent: Seq<char>)
    ensures
        ({
            let line = gauge_line(symbol, percent);
            let at = symbol.len() as int;
            &&& line.len() == at + percent.len() + 5
            &&& line.take(at) == symbol
            &&& line.subrange(at, at + 3) == seq![' ', ' ', ' ']
            &&& line.subrange(at + 3, line.len() - 2) == percent
            &&& line[line.len() - 2] == '%' && line.last() == ' '
        }),
        gauge_tint(true) == Tint::Primary,
        gauge_tint(false) == Tint::ProgressFill,
{
    reveal_strlit("   ");
    reveal_strlit("% ");
    let line = gauge_line(symbol, percent);
    let at = symbol.len() as int;
    assert(line.take(at) =~= symbol);
    assert(line.subrange(at, at + 3) =~= seq![' ', ' ', ' ']);
    assert(line.subrange(at + 3, line.len() - 2) =~= percent);
}

/// The metadata line of a track whose stream is known lists the format, the sample rate, the
/// channels and the bit rate, with a dash between each two, and marks a track that is transcoded.
pub proof fn law_metadata_lists_the_stream(
    song: Song,
    playback: PlaybackState,
    stage: Seq<char>,
    samplerate: Seq<char>,
)
    requires
        playback.audio_samplerate != 0 || playback.hr_channels@.len() > 0,
    ensures
        ({
            let line = metadata_line(Some(song), playback, stage, samplerate);
            let rate = line[6].text;
            let number = rate.take(rate.len() - 5);
            &&& line.len() == if song.is_transcoded { 8int } else { 7 }
            &&& line[0].text == playback.file_format@
            &&& line[2].text == samplerate
            &&& line[4].text == playback.hr_channels@
            &&& line[1].text == seq![' ', '-', ' '] && line[3] == line[1] && line[5] == line[1]
            &&& line[1].tint == Tint::ForegroundDim && !line[1].bold && !line[1].dim
            &&& rate.skip(rate.len() - 5) == " kbps"@
            &&& playback.audio_bitrate >= 0 ==> text::digits_value(number)
                == playback.audio_bitrate
            &&& playback.audio_bitrate < 0 ==> number[0] == '-' && text::digits_value(
                number.skip(1),
            ) == -playback.audio_bitrate
            &&& song.is_transcoded ==> line[7].text == " › tc"@ && line[7].dim && line[7].tint
                == Tint::Foreground && !line[7].bold
            &&& forall|i: int|
                0 <= i < 7 && i % 2 == 0 ==> (#[trigger] line[i]).tint == Tint::Foreground
                    && !line[i].bold && !line[i].dim
        }),
{
    reveal_strlit(" - ");
    reveal_strlit(" kbps");
    assert(" - "@ =~= seq![' ', '-', ' ']);
    let line = metadata_line(Some(song), playback, stage, samplerate);
    let number = text::signed_decimal(playback.audio_bitrate as int);
    let rate = number + " kbps"@;
    assert(line[6].text == rate);
    assert(rate.take(rate.len() - 5) =~= number);
    assert(rate.skip(rate.len() - 5) =~= " kbps"@);
    text::law_sign_stands_in_front(playback.audio_bitrate as int);
    assert(line[3] == line[1] && line[5] == line[1]);
}

/// Until anything is known of the stream, the spinner is shown in its place; without a track there
/// is nothing to show.
pub proof fn law_metadata_waits_for_the_stream(
    song: Song,
    playback: PlaybackState,
    stage: Seq<char>,
    samplerate: Seq<char>,
)
    ensures
        loading(playback) <==> playback.audio_samplerate == 0 && playback.hr_channels@.len() == 0,
        playback.audio_samplerate == 0 && playback.hr_channels@.len() == 0 ==> ({
            let line = metadata_line(Some(song), playback, stage, samplerate);
            &&& line.len() == 1
            &&& line[0].text == stage + " Loading metadata"@
            &&& line[0].tint == Tint::Foreground && !line[0].bold && !line[0].dim
        }),
        metadata_line(None, playback, stage, samplerate).len() == 0,
{
}

} // verus!
