//! The full-screen player view: album art over the visualizer, and the player panel below.
use vstd::prelude::*;
use vstd::string::*;

use crate::binary64;
use crate::layout::{self, block_inner, split, Axis, Constraint, Rect, Sides};
use crate::player::{
    self, duration_text, gauge_label, metadata_spans, track_spans, PlaybackState,
    Song, Span, Tint,
};

verus! {

/// The rows and columns that the album art leaves free, by the size of its area.
pub open spec fn art_padding(area: Rect) -> (int, int) {
    (
        if area.height < 20 {
            1int
        } else if area.height < 30 {
            2
        } else {
            6
        },
        if area.width < 40 {
            2int
        } else if area.width < 80 {
            4
        } else {
            12
        },
    )
}

/// The largest rectangle that album art may take in `area`.
pub open spec fn art_limit(area: Rect) -> Rect {
    Rect {
        x: area.x,
        y: area.y,
        width: layout::floored_difference(area.width as int, art_padding(area).1) as u16,
        height: layout::floored_difference(area.height as int, art_padding(area).0) as u16,
    }
}

/// The row where album art of `height` rows starts: centred, but below the first row of `area`.
pub open spec fn art_top(area: Rect, height: u16) -> int {
    layout::greater(
        area.y + layout::floored_difference(area.height as int, height as int) / 2,
        area.y + 1,
    )
}

/// Where album art of the given size goes in `area`: in the middle, but below the first row and cut
/// off above the last row of the area.
pub open spec fn art_place(area: Rect, width: u16, height: u16) -> Rect {
    Rect {
        x: (area.x + layout::floored_difference(area.width as int, width as int) / 2) as u16,
        y: art_top(area, height) as u16,
        width,
        height: layout::lesser(
            height as int,
            layout::floored_difference(area.y + area.height, art_top(area, height) + 1),
        ) as u16,
    }
}

/// Whether the coordinates that `art_place` speaks of exist, for art of the given width.
pub open spec fn art_fits(area: Rect, width: u16) -> bool {
    &&& area.height >= 4
    &&& area.y + area.height <= u16::MAX
    &&& area.x + layout::floored_difference(area.width as int, width as int) / 2 <= u16::MAX
}

/// The largest rectangle that album art may take, or none in an area that is too low for art.
pub fn art_area(area: Rect) -> (limit: Option<Rect>)
    ensures
        limit == (if area.height < 4 {
            None
        } else {
            Some(art_limit(area))
        }),
        limit is Some <==> area.height >= 4,
        limit matches Some(limit) ==> limit.width <= area.width && limit.height < area.height,
{
    if area.height < 4 {
        return None;
    }
    let v_pad: u16 = if area.height < 20 {
        1
    } else if area.height < 30 {
        2
    } else {
        6
    };
    let h_pad: u16 = if area.width < 40 {
        2
    } else if area.width < 80 {
        4
    } else {
        12
    };
    Some(
        Rect {
            x: area.x,
            y: area.y,
            width: area.width.saturating_sub(h_pad),
            height: area.height.saturating_sub(v_pad),
        },
    )
}

/// Places album art that takes `width` columns and `height` rows.
pub fn place_art(area: Rect, width: u16, height: u16) -> (place: Rect)
    requires
        art_fits(area, width),
    ensures
        place == art_place(area, width, height),
{
    let middle: u16 = area.y + area.height.saturating_sub(height) / 2;
    let below: u16 = area.y + 1;
    let top: u16 = if middle < below {
        below
    } else {
        middle
    };
    let room: u16 = (area.y + area.height).saturating_sub(top + 1);
    Rect {
        x: area.x + area.width.saturating_sub(width) / 2,
        y: top,
        width,
        height: if height < room {
            height
        } else {
            room
        },
    }
}

/// Placed art keeps clear of the first and the last row of its area, and is never taller than
/// asked.
pub proof fn law_art_leaves_edge_rows(area: Rect, width: u16, height: u16)
    requires
        art_fits(area, width),
    ensures
        area.y < art_place(area, width, height).y,
        art_place(area, width, height).y + art_place(area, width, height).height < area.y
            + area.height,
        art_place(area, width, height).height <= height,
{
}

/// Art that is no wider than its area stays within the columns of the area.
pub proof fn law_art_stays_in_columns(area: Rect, width: u16, height: u16)
    requires
        art_fits(area, width),
        width <= area.width,
    ensures
        area.x <= art_place(area, width, height).x,
        art_place(area, width, height).x + width <= area.x + area.width,
{
}

/// Art is centred: where it is no wider than its area, the margins on its left and right differ by
/// one column at most, and where it leaves two rows or more, it keeps its height and the margins
/// above and below differ by one row at most.
pub proof fn law_art_is_centred(area: Rect, width: u16, height: u16)
    requires
        art_fits(area, width),
    ensures
        ({
            let place = art_place(area, width, height);
            let left = place.x - area.x;
            let right = area.x + area.width - (place.x + place.width);
            let above = place.y - area.y;
            let below = area.y + area.height - (place.y + place.height);
            &&& width <= area.width ==> left <= right <= left + 1
            &&& height + 2 <= area.height ==> place.height == height && above <= below <= above + 1
        }),
{
}

/// The width of the free margin beside the art, on its narrower side.
pub open spec fn art_margin(inner: Rect, art: Rect) -> int {
    let left = layout::floored_difference(art.x as int, inner.x as int);
    let right = layout::floored_difference(inner.width as int, left + art.width);
    layout::lesser(left, right)
}

/// The padding on either side of the player panel's content.
pub open spec fn side_padding(inner: Rect, art: Option<Rect>) -> int {
    if inner.width < 40 {
        1
    } else if inner.width < 80 {
        layout::greater(inner.width as int / 10, 2)
    } else {
        match art {
            Some(art) => layout::greater(art_margin(inner, art) * 4 / 5, 4),
            None => layout::greater(inner.width * 20 / 100, 4),
        }
    }
}

/// Whether the numbers that lead to the padding stay in the coordinate range.
pub open spec fn padding_in_range(inner: Rect, art: Option<Rect>) -> bool {
    inner.width >= 80 ==> match art {
        Some(art) => {
            &&& layout::floored_difference(art.x as int, inner.x as int) + art.width <= u16::MAX
            &&& art_margin(inner, art) * 4 <= u16::MAX
        },
        None => true,
    }
}

/// Works out the padding on either side of the player panel's content.
pub fn player_padding(inner: Rect, art: Option<Rect>) -> (padding: u16)
    requires
        padding_in_range(inner, art),
    ensures
        padding == side_padding(inner, art),
{
    if inner.width < 40 {
        1
    } else if inner.width < 80 {
        if inner.width / 10 < 2 {
            2
        } else {
            inner.width / 10
        }
    } else if let Some(art) = art {
        let left: u16 = art.x.saturating_sub(inner.x);
        let right: u16 = inner.width.saturating_sub(left + art.width);
        let margin: u16 = if left < right {
            left
        } else {
            right
        };
        if margin * 4 / 5 < 4 {
            4
        } else {
            margin * 4 / 5
        }
    } else {
        let fifth: u16 = (inner.width as u32 * 20 / 100) as u16;
        if fifth < 4 {
            4
        } else {
            fifth
        }
    }
}

/// Padding on both sides always leaves the panel its content.
pub proof fn law_padding_leaves_room(inner: Rect, art: Option<Rect>)
    requires
        inner.width >= 2,
    ensures
        2 * side_padding(inner, art) <= inner.width,
{
}

/// Beside art that leaves a margin, the panel's content spans the art. Where the margin is wider than
/// the least padding, the content reaches past the art on both sides.
pub proof fn law_content_spans_art(inner: Rect, art: Rect)
    requires
        inner.width >= 80,
        inner.x <= art.x,
        art.x + art.width <= inner.x + inner.width,
        art_margin(inner, art) >= 4,
    ensures
        inner.x + side_padding(inner, Some(art)) <= art.x,
        art.x + art.width <= inner.x + inner.width - side_padding(inner, Some(art)),
        art_margin(inner, art) >= 5 ==> {
            &&& inner.x + side_padding(inner, Some(art)) < art.x
            &&& art.x + art.width < inner.x + inner.width - side_padding(inner, Some(art))
        },
{
}

/// Album art that can be drawn in any size: an encoded image and the size of a terminal cell.
#[verifier::external_type_specification]
#[verifier::external_body]
pub struct ExStatefulProtocol(ratatui_image::protocol::StatefulProtocol);

/// The columns and rows that `art` takes when it is scaled to fit `limit`.
pub uninterp spec fn scaled_size(
    art: ratatui_image::protocol::StatefulProtocol,
    limit: Rect,
) -> (u16, u16);

/// Asks `art` how many columns and rows it takes when it is scaled to fit `limit`.
///
/// Trusted: `ratatui_image::protocol::StatefulProtocol::size_for`, scaling with the default filter.
/// The size depends on the art and the limit alone. What it is follows from the pixels of the
/// image and of a cell, and is left to the name `scaled_size`; it may exceed the limit.
#[verifier::external_body]
fn art_size(art: &ratatui_image::protocol::StatefulProtocol, limit: Rect) -> (size: (u16, u16))
    ensures
        size == scaled_size(*art, limit),
{
    let area = ratatui::layout::Rect {
        x: limit.x,
        y: limit.y,
        width: limit.width,
        height: limit.height,
    };
    let size = art.size_for(ratatui_image::Resize::Scale(None), area);
    (size.width, size.height)
}

/// What the visualizer shows in one cell, from nothing in nine steps up to the full cell.
pub open spec fn bar_symbol(step: int) -> char {
    if step <= 0 {
        ' '
    } else if step == 1 {
        '▁'
    } else if step == 2 {
        '▂'
    } else if step == 3 {
        '▃'
    } else if step == 4 {
        '▄'
    } else if step == 5 {
        '▅'
    } else if step == 6 {
        '▆'
    } else if step == 7 {
        '▇'
    } else {
        '█'
    }
}

/// The symbol for a cell that is filled to `step` eighths, a full cell for all steps beyond.
pub fn bar_char(step: usize) -> (symbol: char)
    ensures
        symbol == bar_symbol(step as int),
{
    match step {
        0 => ' ',
        1 => '▁',
        2 => '▂',
        3 => '▃',
        4 => '▄',
        5 => '▅',
        6 => '▆',
        7 => '▇',
        _ => '█',
    }
}

/// The bar that stands in a column of a visualizer with `count` bars over `width` columns: the
/// column's share of the bars, computed in double precision.
pub open spec fn column_bar(column: int, width: int, count: int) -> int {
    layout::lesser(binary64::share(column, width, count), count - 1)
}

/// Finds the bar that stands in `column`, of `count` bars over `width` columns.
pub fn bar_index(column: u16, width: u16, count: usize) -> (index: usize)
    requires
        column < width,
        count > 0,
    ensures
        index == column_bar(column as int, width as int, count as int),
        index < count,
{
    let share: u128 = binary64::share_of(column, width, count);
    if share < (count - 1) as u128 {
        share as usize
    } else {
        count - 1
    }
}

/// Every column has a bar.
proof fn lemma_column_bar(column: int, width: int, count: int)
    requires
        0 <= column < width,
        count > 0,
    ensures
        0 <= column_bar(column, width, count) < count,
{
    binary64::lemma_share_is_ordered(column, column, width, count);
}

/// Columns further right never show an earlier bar, and the first column shows the first bar.
pub proof fn law_bars_run_left_to_right(left: u16, right: u16, width: u16, count: usize)
    requires
        left <= right < width,
        count > 0,
    ensures
        column_bar(left as int, width as int, count as int) <= column_bar(
            right as int,
            width as int,
            count as int,
        ),
        column_bar(0, width as int, count as int) == 0,
{
    binary64::lemma_share_is_ordered(left as int, right as int, width as int, count as int);
}

/// As many bars as the capture delivers share the columns without rounding: each column shows the
/// bar at its exact share.
pub proof fn law_bars_share_the_columns(column: u16, width: u16)
    requires
        column < width,
    ensures
        column_bar(column as int, width as int, crate::audio_capture::BAR_COUNT as int) == column
            * crate::audio_capture::BAR_COUNT / width as int,
{
    binary64::lemma_share_of_64(column as int, width as int);
    assert(column * 64 / width as int <= 63) by (nonlinear_arith)
        requires
            column < width,
    ;
}

/// Whether a bar reaches into a row of a visualizer `height` rows high: whether its level, as a
/// fraction of the largest level, exceeds the fraction of rows below.
pub open spec fn reaches(level: int, row: int, height: int) -> bool {
    level * height > (height - 1 - row) * u16::MAX
}

/// Tells whether a bar of the given level reaches into `row`, counted from the top.
pub fn bar_reaches(level: u16, row: u16, height: u16) -> (yes: bool)
    requires
        row < height,
    ensures
        yes == reaches(level as int, row as int, height as int),
{
    let below: u16 = height - 1 - row;
    assert(level * height <= 65535 * 65535) by (nonlinear_arith)
        requires
            level <= 65535,
            height <= 65535,
    ;
    level as u64 * height as u64 > below as u64 * 65535
}

/// A cell of the visualizer that a bar reaches into.
#[derive(Clone, Copy, Debug, PartialEq, Eq, Structural)]
pub struct BarCell {
    pub x: u16,
    pub y: u16,
    /// Which bar it is.
    pub bar: usize,
}

/// Whether a cell lies in `area` and the bar of its column reaches into its row.
pub open spec fn is_painted(area: Rect, bars: Seq<u16>, x: int, y: int) -> bool {
    &&& area.x <= x < area.x + area.width
    &&& area.y <= y < area.y + area.height
    &&& reaches(
        bars[column_bar(x - area.x, area.width as int, bars.len() as int)] as int,
        y - area.y,
        area.height as int,
    )
}

/// Whether a cell is among `cells`.
pub open spec fn is_listed(cells: Seq<BarCell>, x: int, y: int) -> bool {
    exists|i: int| 0 <= i < cells.len() && (#[trigger] cells[i]).x == x && cells[i].y == y
}

/// Whether one cell stands left of another, or above it in the same column.
pub open spec fn comes_before(a: BarCell, b: BarCell) -> bool {
    a.x < b.x || a.x == b.x && a.y < b.y
}

/// Whether cells go column by column from the left, and downwards in each, none twice.
pub open spec fn go_column_by_column(cells: Seq<BarCell>) -> bool {
    forall|i: int, j: int|
        0 <= i < j < cells.len() ==> comes_before(#[trigger] cells[i], #[trigger] cells[j])
}

/// Whether each of `cells` has the bar of its column.
pub open spec fn have_their_bars(cells: Seq<BarCell>, area: Rect, count: int) -> bool {
    forall|i: int|
        0 <= i < cells.len() ==> (#[trigger] cells[i]).bar == column_bar(
            cells[i].x - area.x,
            area.width as int,
            count,
        ) && cells[i].bar < count
}

/// Appending a cell lists that cell besides those that were listed.
proof fn lemma_listed_after_push(cells: Seq<BarCell>, cell: BarCell)
    ensures
        forall|x: int, y: int| #[trigger]
            is_listed(cells.push(cell), x, y) <==> is_listed(cells, x, y) || (cell.x == x && cell.y
                == y),
{
    let longer = cells.push(cell);
    assert forall|x: int, y: int|
        is_listed(cells, x, y) || (cell.x == x && cell.y == y) implies #[trigger] is_listed(
        longer,
        x,
        y,
    ) by {
        if is_listed(cells, x, y) {
            let i = choose|i: int|
                0 <= i < cells.len() && (#[trigger] cells[i]).x == x && cells[i].y == y;
            assert(longer[i] == cells[i]);
        } else {
            assert(longer[cells.len() as int] == cell);
        }
    }
    assert forall|x: int, y: int| #[trigger] is_listed(longer, x, y) implies is_listed(cells, x, y)
        || (cell.x == x && cell.y == y) by {
        let i = choose|i: int|
            0 <= i < longer.len() && (#[trigger] longer[i]).x == x && longer[i].y == y;
        assert(i < cells.len() ==> cells[i] == longer[i]);
    }
}

/// Lists the cells that the bars paint in `area`, each with its bar: exactly those that the bar of
/// their column reaches into, column by column.
pub fn painted_cells(area: Rect, bars: &[u16]) -> (cells: Vec<BarCell>)
    requires
        area.width > 0 && area.height > 0 ==> {
            &&& bars@.len() > 0
            &&& area.x + area.width - 1 <= u16::MAX
            &&& area.y + area.height - 1 <= u16::MAX
        },
    ensures
        forall|x: int, y: int| #[trigger]
            is_listed(cells@, x, y) <==> is_painted(area, bars@, x, y),
        go_column_by_column(cells@),
        have_their_bars(cells@, area, bars@.len() as int),
{
    let mut cells: Vec<BarCell> = Vec::new();
    if area.width == 0 || area.height == 0 {
        return cells;
    }
    let mut column: u16 = 0;
    while column < area.width
        invariant
            column <= area.width,
            area.height > 0,
            bars@.len() > 0,
            area.x + area.width - 1 <= u16::MAX,
            area.y + area.height - 1 <= u16::MAX,
            forall|x: int, y: int| #[trigger]
                is_listed(cells@, x, y) <==> is_painted(area, bars@, x, y) && x < area.x + column,
            forall|i: int|
                0 <= i < cells@.len() ==> (#[trigger] cells@[i]).x < area.x + column,
            go_column_by_column(cells@),
            have_their_bars(cells@, area, bars@.len() as int),
        decreases area.width - column,
    {
        let bar: usize = bar_index(column, area.width, bars.len());
        let level: u16 = bars[bar];
        let mut row: u16 = 0;
        while row < area.height
            invariant
                column < area.width,
                row <= area.height,
                bar == column_bar(column as int, area.width as int, bars@.len() as int),
                bar < bars@.len(),
                level == bars@[bar as int],
                area.x + area.width - 1 <= u16::MAX,
                area.y + area.height - 1 <= u16::MAX,
                forall|x: int, y: int| #[trigger]
                    is_listed(cells@, x, y) <==> is_painted(area, bars@, x, y) && (x < area.x
                        + column || x == area.x + column && y < area.y + row),
                forall|i: int|
                    0 <= i < cells@.len() ==> (#[trigger] cells@[i]).x < area.x + column || (
                    cells@[i].x == area.x + column && cells@[i].y < area.y + row),
                go_column_by_column(cells@),
                have_their_bars(cells@, area, bars@.len() as int),
            decreases area.height - row,
        {
            if bar_reaches(level, row, area.height) {
                let cell = BarCell { x: area.x + column, y: area.y + row, bar };
                proof {
                    lemma_listed_after_push(cells@, cell);
                }
                cells.push(cell);
            }
            row += 1;
        }
        column += 1;
    }
    cells
}

/// Nothing is painted of empty bars, and all of the area is painted of full ones.
pub proof fn law_painting_follows_levels(area: Rect, bars: Seq<u16>, x: int, y: int)
    requires
        bars.len() > 0,
        area.x <= x < area.x + area.width,
        area.y <= y < area.y + area.height,
    ensures
        (forall|i: int| 0 <= i < bars.len() ==> bars[i] == 0) ==> !is_painted(area, bars, x, y),
        (forall|i: int| 0 <= i < bars.len() ==> bars[i] == u16::MAX) ==> is_painted(
            area,
            bars,
            x,
            y,
        ),
{
    lemma_column_bar(x - area.x, area.width as int, bars.len() as int);
}

/// A bar has no holes: it reaches into every row below one that it reaches into. The empty bar
/// reaches nowhere, and the full bar everywhere.
pub proof fn law_bars_stand_on_the_ground(level: u16, row: u16, lower: u16, height: u16)
    requires
        row <= lower < height,
    ensures
        reaches(level as int, row as int, height as int) ==> reaches(
            level as int,
            lower as int,
            height as int,
        ),
        !reaches(0, row as int, height as int),
        reaches(u16::MAX as int, row as int, height as int),
{
}

/// What the top bar is painted over with before it is drawn.
#[derive(Clone, Copy, Debug, PartialEq, Eq, Structural)]
pub enum Backdrop {
    /// The background colour of the theme.
    Background,
    Black,
}

/// One thing to draw, later ones over earlier ones.
#[derive(Clone, Copy, Debug, PartialEq, Eq, Structural)]
pub enum Layer {
    Background(Rect),
    Visualizer(Rect),
    Art(Rect),
    Player(Rect),
    TopBar { area: Rect, backdrop: Backdrop },
}

/// The height of the player panel.
pub const PANEL_HEIGHT: u16 = 6;

/// The bottom of the screen, which the player panel takes: six rows, or all there are.
pub open spec fn panel_part(area: Rect) -> Rect {
    let height = layout::lesser(PANEL_HEIGHT as int, area.end(Axis::Vertical) - area.y);
    Rect {
        x: area.x,
        y: (area.end(Axis::Vertical) - height) as u16,
        width: area.width,
        height: height as u16,
    }
}

/// The screen above the player panel, which the album art and the visualizer share.
pub open spec fn stage_part(area: Rect) -> Rect {
    Rect {
        x: area.x,
        y: area.y,
        width: area.width,
        height: (area.end(Axis::Vertical) - area.y - panel_part(area).height) as u16,
    }
}

/// What is drawn, in order: the background where the theme has one, the visualizer, the album art
/// over it, the player panel, and for a while after a setting has changed the top bar.
pub open spec fn layer_order(
    area: Rect,
    stage: Rect,
    panel: Rect,
    has_background: bool,
    topbar_left: Option<u128>,
) -> Seq<Layer> {
    let background: Seq<Layer> = if has_background {
        seq![Layer::Background(area)]
    } else {
        seq![]
    };
    let topbar: Seq<Layer> = if topbar_left is Some && topbar_left->0 > 0 {
        seq![
            Layer::TopBar {
                area: Rect { x: area.x, y: area.y, width: area.width, height: 1 },
                backdrop: if has_background {
                    Backdrop::Background
                } else {
                    Backdrop::Black
                },
            },
        ]
    } else {
        seq![]
    };
    background + seq![Layer::Visualizer(stage), Layer::Art(stage), Layer::Player(panel)] + topbar
}

/// Lists what is drawn, given the two parts of the screen. `topbar_left` is the time in nanoseconds
/// that the top bar has left to be shown, where it was asked for.
pub fn fullscreen_layers(
    area: Rect,
    stage: Rect,
    panel: Rect,
    has_background: bool,
    topbar_left: Option<u128>,
) -> (layers: Vec<Layer>)
    ensures
        layers@ == layer_order(area, stage, panel, has_background, topbar_left),
        has_background ==> layers@[0] == Layer::Background(area),
        !has_background ==> layers@[0] == Layer::Visualizer(stage),
{
    let mut layers: Vec<Layer> = Vec::new();
    if has_background {
        layers.push(Layer::Background(area));
    }
    layers.push(Layer::Visualizer(stage));
    layers.push(Layer::Art(stage));
    layers.push(Layer::Player(panel));
    if let Some(left) = topbar_left {
        if left > 0 {
            let backdrop = if has_background {
                Backdrop::Background
            } else {
                Backdrop::Black
            };
            layers.push(
                Layer::TopBar {
                    area: Rect { x: area.x, y: area.y, width: area.width, height: 1 },
                    backdrop,
                },
            );
        }
    }
    assert(layers@ =~= layer_order(area, stage, panel, has_background, topbar_left));
    layers
}

/// What the player panel needs of times and rates, which are measured in fractions.
#[derive(Debug)]
pub struct Readout {
    /// The position to show, in whole seconds.
    pub position: u32,
    /// The length of the track, in whole seconds.
    pub total: u32,
    /// Whether the length is zero, before any rounding.
    pub empty: bool,
    /// The progress in per cent, rounded to a whole number.
    pub percent: String,
    /// The sample rate with its unit.
    pub samplerate: String,
}

/// The player panel: what it shows and where.
#[derive(Debug)]
pub struct PlayerPanel {
    /// The whole panel, with a border along its top.
    pub frame: Rect,
    /// The rows of the title line and the artist line.
    pub info: Rect,
    /// The progress gauge.
    pub gauge: Rect,
    /// The text to the right of the gauge.
    pub duration: Rect,
    /// The row of the metadata line.
    pub metadata: Rect,
    pub title_spans: Vec<Span>,
    pub artist_spans: Vec<Span>,
    pub gauge_tint: Tint,
    pub gauge_label: String,
    pub duration_text: String,
    pub metadata_spans: Vec<Span>,
}

/// The state of the player that the full-screen view reads and changes. `C` is a handle on a
/// running audio capture, which ends when the handle is dropped.
pub struct App<C> {
    pub fullscreen: bool,
    /// Whether the screen has to be drawn again.
    pub dirty: bool,
    pub audio_capture: Option<C>,
    /// The levels of the visualizer bars, from zero up to the largest number that a level can be.
    pub visualizer_bars: Vec<u16>,
    pub queue: Vec<Song>,
    pub playback: PlaybackState,
    pub buffering: bool,
    pub spinner: usize,
    pub spinner_stages: Vec<String>,
    pub paused: bool,
    /// Whether the symbols for playing and paused are exchanged.
    pub swap_play_pause: bool,
}

/// What changes with the full-screen mode.
#[verifier::ext_equal]
pub struct Screen {
    pub fullscreen: bool,
    pub dirty: bool,
    pub capturing: bool,
    pub bars: Seq<u16>,
}

impl Screen {
    /// The screen after the full-screen mode was switched on or off.
    pub open spec fn switched(self, enabled: bool) -> Screen {
        Screen {
            fullscreen: enabled,
            dirty: true,
            capturing: enabled && self.capturing,
            bars: if enabled {
                self.bars
            } else {
                Seq::new(self.bars.len(), |i: int| 0u16)
            },
        }
    }

    /// Whether switching has to be followed by the start of a capture.
    pub open spec fn starts_capture(self, enabled: bool) -> bool {
        enabled && !self.capturing
    }

    /// The screen after the start of a capture.
    pub open spec fn captured(self) -> Screen {
        Screen { capturing: true, ..self }
    }
}

/// One capture at most: once a capture was started, switching on again starts no other, until the
/// mode was switched off.
pub proof fn law_one_capture(screen: Screen)
    ensures
        !screen.switched(true).captured().starts_capture(true),
        screen.switched(true).captured().switched(true).capturing,
        screen.switched(false).starts_capture(true),
{
}

/// Switched off, the view captures nothing and shows no bars, and stays that way.
pub proof fn law_off_is_quiet(screen: Screen)
    ensures
        !screen.switched(false).capturing,
        !screen.starts_capture(false),
        screen.switched(false).bars.len() == screen.bars.len(),
        forall|i: int|
            0 <= i < screen.bars.len() ==> #[trigger] screen.switched(false).bars[i] == 0,
        screen.switched(false).switched(false) == screen.switched(false),
{
    assert(screen.switched(false).switched(false) =~= screen.switched(false));
}

/// The two parts of the screen lie one above the other and cover it, and the panel has its full
/// height wherever the screen is high enough.
pub proof fn law_parts_tile_screen(area: Rect)
    requires
        area.in_range(),
    ensures
        stage_part(area).y == area.y,
        stage_part(area).y + stage_part(area).height == panel_part(area).y,
        panel_part(area).y + panel_part(area).height == area.y + area.height,
        area.height >= PANEL_HEIGHT ==> panel_part(area).height == PANEL_HEIGHT,
{
}

/// A border along the top.
pub open spec fn top_border() -> Sides {
    Sides { top: true, right: false, bottom: false, left: false }
}

/// The part of the player panel that its content takes.
pub open spec fn panel_content(frame: Rect, art: Option<Rect>) -> Rect {
    frame.inside(top_border()).without_margin(
        side_padding(frame.inside(top_border()), art) as u16,
    )
}

/// Where the panel's `i`th row of content starts below the top, of `rows` rows: the track
/// information, the progress, the metadata, and what is left below them.
pub open spec fn row_start(i: int, rows: int) -> int {
    if rows < 4 {
        layout::third(i, rows)
    } else if i == 0 {
        0
    } else {
        i + 1
    }
}

/// How many of `columns` columns the duration takes when it asks for `wanted`.
pub open spec fn duration_width(wanted: int, columns: int) -> int {
    if columns <= 101 * wanted {
        layout::lesser(wanted, columns)
    } else {
        columns - layout::hundredfold_part(columns)
    }
}

impl PlayerPanel {
    /// Whether the rectangles lie in the content of the panel as they should. Track information,
    /// progress and metadata span the content and follow each other from the top without a gap:
    /// two rows, one and one, or where there are less than four, an equal share of them. The gauge
    /// and the duration share the row of progress without a gap. The duration takes as much as its
    /// text and three columns of distance, or the whole row where that is shorter; on extremely
    /// wide screens it takes one part of the row to a hundred of the gauge's.
    pub open spec fn placed(self, frame: Rect, art: Option<Rect>) -> bool {
        let content = panel_content(frame, art);
        &&& self.frame == frame
        &&& self.info.x == content.x && self.info.width == content.width
        &&& self.metadata.x == content.x && self.metadata.width == content.width
        &&& self.gauge.y == self.duration.y && self.gauge.height == self.duration.height
        &&& self.gauge.x == content.x
        &&& self.gauge.x + self.gauge.width == self.duration.x
        &&& self.duration.x + self.duration.width == content.end(Axis::Horizontal)
        &&& self.duration.width == duration_width(
            self.duration_text@.len() as int + 3,
            content.extent(Axis::Horizontal),
        )
        &&& self.info.y == content.y
        &&& self.info.y + self.info.height == self.gauge.y
        &&& self.gauge.y + self.gauge.height == self.metadata.y
        &&& self.gauge.y == content.y + row_start(1, content.extent(Axis::Vertical))
        &&& self.metadata.y == content.y + row_start(2, content.extent(Axis::Vertical))
        &&& self.metadata.y + self.metadata.height == content.y + row_start(
            3,
            content.extent(Axis::Vertical),
        )
    }
}

impl<C> App<C> {
    /// What changes with the full-screen mode.
    pub open spec fn screen(self) -> Screen {
        Screen {
            fullscreen: self.fullscreen,
            dirty: self.dirty,
            capturing: self.audio_capture is Some,
            bars: self.visualizer_bars@,
        }
    }

    /// The track that plays.
    pub open spec fn playing(self) -> Option<Song> {
        if self.playback.current_index < self.queue@.len() {
            Some(self.queue@[self.playback.current_index as int])
        } else {
            None
        }
    }

    /// The text of the spinner's stage, where it points at one.
    pub open spec fn spinner_text(self) -> Seq<char> {
        if self.spinner < self.spinner_stages@.len() {
            self.spinner_stages@[self.spinner as int]@
        } else {
            seq![]
        }
    }

    /// Whether the spinner points at a stage whenever it is shown.
    pub open spec fn spinner_ready(self) -> bool {
        self.buffering || (self.playing() is Some && player::loading(self.playback))
            ==> self.spinner < self.spinner_stages@.len()
    }

    /// Switches the full-screen mode on or off. Answers whether a capture has to be started, for
    /// the caller to put its handle in `audio_capture`. Switching off ends the capture and clears
    /// the visualizer.
    pub fn set_fullscreen(&mut self, enabled: bool) -> (start: bool)
        ensures
            final(self).screen() == old(self).screen().switched(enabled),
            start == old(self).screen().starts_capture(enabled),
            enabled ==> final(self).audio_capture == old(self).audio_capture,
            *final(self) == (App {
                fullscreen: enabled,
                dirty: true,
                audio_capture: final(self).audio_capture,
                visualizer_bars: final(self).visualizer_bars,
                ..*old(self)
            }),
    {
        self.fullscreen = enabled;
        self.dirty = true;
        if enabled {
            self.audio_capture.is_none()
        } else {
            self.audio_capture = None;
            let count: usize = self.visualizer_bars.len();
            let mut bars: Vec<u16> = Vec::new();
            let mut i: usize = 0;
            while i < count
                invariant
                    i <= count,
                    bars@ == Seq::new(i as nat, |j: int| 0u16),
                decreases count - i,
            {
                bars.push(0);
                i += 1;
            }
            self.visualizer_bars = bars;
            false
        }
    }

    /// The track that plays, where there is one.
    pub fn current_song(&self) -> (song: Option<&Song>)
        ensures
            song == (match self.playing() {
                Some(song) => Some(&song),
                None => None,
            }),
            song is Some <==> self.playback.current_index < self.queue@.len(),
            song matches Some(song) ==> *song == self.queue@[self.playback.current_index as int],
    {
        if self.playback.current_index < self.queue.len() {
            Some(&self.queue[self.playback.current_index])
        } else {
            None
        }
    }

    /// Lists what is drawn on a screen of the size of `area`, in order. `has_background` says
    /// whether the theme has a background colour, and `topbar_left` is the time in nanoseconds
    /// that the top bar has left to be shown, where it was asked for.
    pub fn render_fullscreen(
        &self,
        area: Rect,
        has_background: bool,
        topbar_left: Option<u128>,
    ) -> (layers: Vec<Layer>)
        ensures
            layers@ == layer_order(
                area,
                stage_part(area),
                panel_part(area),
                has_background,
                topbar_left,
            ),
    {
        let constraints: [Constraint; 2] = [
            Constraint::Percentage(100),
            Constraint::Length(PANEL_HEIGHT),
        ];
        let parts = split(Axis::Vertical, &constraints, 0, area);
        assert(area.without_margin(0) == area);
        assert(parts@[0] == stage_part(area));
        assert(parts@[1] == panel_part(area));
        fullscreen_layers(area, parts[0], parts[1], has_background, topbar_left)
    }

    /// Places the album art in `area`, where there is art and the area is high enough for it.
    pub fn render_fullscreen_art(
        &self,
        cover_art: Option<&ratatui_image::protocol::StatefulProtocol>,
        area: Rect,
    ) -> (place: Option<Rect>)
        requires
            cover_art is Some && area.height >= 4 ==> {
                &&& area.y + area.height <= u16::MAX
                &&& area.x + area.width as int / 2 <= u16::MAX
            },
        ensures
            place == (match cover_art {
                Some(art) if area.height >= 4 => Some(
                    art_place(
                        area,
                        scaled_size(*art, art_limit(area)).0,
                        scaled_size(*art, art_limit(area)).1,
                    ),
                ),
                _ => None,
            }),
            place is Some <==> cover_art is Some && area.height >= 4,
            place matches Some(place) ==> area.y < place.y && place.y + place.height < area.y
                + area.height,
    {
        match art_area(area) {
            Some(limit) => match cover_art {
                Some(art) => {
                    let size = art_size(art, limit);
                    Some(place_art(area, size.0, size.1))
                },
                None => None,
            },
            None => None,
        }
    }

    /// Lays out the player panel in `area`. `art` is where the album art was placed.
    pub fn render_fullscreen_player(
        &self,
        area: Rect,
        art: Option<Rect>,
        readout: &Readout,
    ) -> (panel: PlayerPanel)
        requires
            self.spinner_ready(),
            padding_in_range(area.inside(top_border()), art),
        ensures
            panel.placed(area, art),
            self.playback.current_index < self.queue@.len() ==> panel.title_spans@[0].text@
                == self.queue@[self.playback.current_index as int].name@,
            (player::shown(panel.title_spans@), player::shown(panel.artist_spans@))
                == player::track_lines(self.playing()),
            panel.duration_text@ == player::duration_line(
                readout.position as nat,
                readout.total as nat,
                readout.empty,
            ),
            panel.gauge_tint == player::gauge_tint(self.buffering),
            panel.gauge_label@ == player::gauge_line(
                player::play_symbol(
                    self.buffering,
                    self.spinner_text(),
                    self.paused,
                    self.swap_play_pause,
                ),
                readout.percent@,
            ),
            player::shown(panel.metadata_spans@) == player::metadata_line(
                self.playing(),
                self.playback,
                self.spinner_text(),
                readout.samplerate@,
            ),
    {
        let sides = Sides { top: true, right: false, bottom: false, left: false };
        let inner = block_inner(sides, area);
        let padding: u16 = player_padding(inner, art);
        let ghost content = inner.without_margin(padding);
        let rows: [Constraint; 3] = [
            Constraint::Length(2),
            Constraint::Length(1),
            Constraint::Length(1),
        ];
        let parts = split(Axis::Vertical, &rows, padding, inner);
        proof {
            lemma_row_lengths(rows@);
            assert(content.extent(Axis::Vertical) < 4 ==> layout::no_less_than_a_third(
                rows@,
                content.extent(Axis::Vertical),
            ));
        }

        let song = self.current_song();
        let stage: Option<&String> = if self.spinner < self.spinner_stages.len() {
            Some(&self.spinner_stages[self.spinner])
        } else {
            None
        };
        let (title_spans, artist_spans) = track_spans(song);
        proof {
            if let Some(song) = self.playing() {
                player::law_title_names_the_track(song);
                assert(player::shown(title_spans@).len() == title_spans@.len());
                assert(player::shown(title_spans@)[0] == title_spans@[0]@);
            }
        }
        let duration_text = duration_text(readout.position, readout.total, readout.empty);
        proof {
            player::lemma_duration_length(readout.position, readout.total, readout.empty);
        }
        let width: u16 = duration_text.as_str().len() as u16 + 3;
        let bar: [Constraint; 2] = [Constraint::Fill(100), Constraint::Min(width)];
        let progress = split(Axis::Horizontal, &bar, 0, parts[1]);
        assert(parts@[1].without_margin(0) == parts@[1]);

        PlayerPanel {
            frame: area,
            info: parts[0],
            gauge: progress[0],
            duration: progress[1],
            metadata: parts[2],
            title_spans,
            artist_spans,
            gauge_tint: if self.buffering {
                Tint::Primary
            } else {
                Tint::ProgressFill
            },
            gauge_label: gauge_label(
                self.buffering,
                stage,
                self.paused,
                self.swap_play_pause,
                readout.percent.as_str(),
            ),
            duration_text,
            metadata_spans: metadata_spans(
                song,
                &self.playback,
                stage,
                readout.samplerate.as_str(),
            ),
        }
    }
}

/// The sums of the panel's row heights.
proof fn lemma_row_lengths(rows: Seq<Constraint>)
    requires
        rows == seq![Constraint::Length(2), Constraint::Length(1), Constraint::Length(1)],
    ensures
        layout::all_lengths(rows),
        layout::total_length(rows) == 4,
        layout::total_length(rows.take(0)) == 0,
        layout::total_length(rows.take(1)) == 2,
        layout::total_length(rows.take(2)) == 3,
{
    reveal_with_fuel(layout::total_length, 4);
    assert(rows.drop_last() =~= rows.take(2));
    assert(rows.take(2).drop_last() =~= rows.take(1));
    assert(rows.take(1).drop_last() =~= rows.take(0));
    assert(rows.take(1).last() == rows[0]);
    assert(rows.take(2).last() == rows[1]);
}

/// Art is cut no more than needed: it has as many rows as it asks for, or its last row is the one
/// just above the last row of the area, and no more rows would leave that one free. Art that asks
/// for more than the area has between its first and its last row fills just that. Its width is never
/// changed, and art that is wider than the area starts with it.
pub proof fn law_art_is_cut_no_more_than_needed(area: Rect, width: u16, height: u16, rows: int)
    requires
        art_fits(area, width),
    ensures
        ({
            let place = art_place(area, width, height);
            &&& rows <= height && place.y + rows < area.y + area.height ==> rows <= place.height
            &&& place.height == height || place.y + place.height == area.y + area.height - 1
            &&& height + 2 > area.height ==> {
                &&& place.y == area.y + 1
                &&& place.y + place.height == area.y + area.height - 1
            }
            &&& place.width == width
            &&& width >= area.width ==> place.x == area.x
        }),
{
}

/// Art is placed wherever its area lies in the coordinate range, and moves along with the area.
pub proof fn law_art_moves_with_its_area(
    area: Rect,
    width: u16,
    height: u16,
    moved: Rect,
)
    requires
        area.height >= 4,
        area.in_range(),
        moved.in_range(),
        moved.width == area.width,
        moved.height == area.height,
    ensures
        art_fits(area, width),
        ({
            let (here, there) = (art_place(area, width, height), art_place(moved, width, height));
            &&& there.x - moved.x == here.x - area.x
            &&& there.y - moved.y == here.y - area.y
            &&& (there.width, there.height) == (here.width, here.height)
        }),
{
}

/// The room for art starts where its area starts and leaves rows and columns free: more on larger
/// screens, but at least one row and two columns.
pub proof fn law_art_limit_scales_with_the_screen(area: Rect)
    requires
        area.height >= 4,
    ensures
        ({
            let limit = art_limit(area);
            let rows = area.height - limit.height;
            let columns = area.width - limit.width;
            &&& limit.x == area.x && limit.y == area.y
            &&& rows == 1 || rows == 2 || rows == 6
            &&& rows == 1 <==> area.height < 20
            &&& rows == 6 <==> area.height >= 30
            &&& area.width >= 2 ==> columns == 2 || columns == 4 || columns == 12
            &&& area.width >= 2 ==> (columns == 2 <==> area.width < 40)
            &&& columns == 12 <==> area.width >= 80
            &&& area.width < 2 ==> limit.width == 0
        }),
{
}

/// Without art to go by, the padding is a column on narrow screens, a tenth of the width on wider
/// ones, and a fifth of it on wide ones, rounded down.
pub proof fn law_padding_follows_the_width(inner: Rect, art: Option<Rect>)
    ensures
        ({
            let padding = side_padding(inner, art);
            &&& inner.width < 40 ==> padding == 1
            &&& 40 <= inner.width < 80 ==> 10 * padding <= inner.width < 10 * padding + 10
            &&& inner.width >= 80 && art is None ==> 5 * padding <= inner.width < 5 * padding + 5
        }),
{
}

/// Beside art, the padding on wide screens is four fifths of the free columns on the narrower side
/// of the art, rounded down, but never less than four columns.
pub proof fn law_padding_follows_the_art(inner: Rect, art: Rect)
    requires
        inner.width >= 80,
    ensures
        ({
            let padding = side_padding(inner, Some(art));
            let left = art.x - inner.x;
            let right = inner.x + inner.width - (art.x + art.width);
            &&& padding >= 4
            &&& left <= 0 || right <= 0 ==> padding == 4
            &&& padding > 4 ==> 5 * padding <= 4 * left && 5 * padding <= 4 * right
            &&& left >= 0 && right >= 0 ==> 4 * left < 5 * padding + 5 || 4 * right < 5 * padding
                + 5
        }),
{
}

/// The padding can be worked out on every screen of common width, with the art anywhere in it.
pub proof fn law_padding_is_in_range(inner: Rect, art: Option<Rect>)
    requires
        inner.width <= i16::MAX,
        art matches Some(art) ==> inner.x <= art.x && art.x + art.width <= inner.x + inner.width,
    ensures
        padding_in_range(inner, art),
{
}

/// A cell fills from below: nothing at first, then block symbols of one eighth more at each step,
/// up to the full block for the eighth step and all beyond.
pub proof fn law_cells_fill_in_eighths(step: int)
    ensures
        step <= 0 ==> bar_symbol(step) == ' ',
        1 <= step <= 8 ==> bar_symbol(step) as int == 0x2580 + step,
        step >= 8 ==> bar_symbol(step) == '\u{2588}',
{
}

/// Each column shows the bar at its share of the bars, rounded down. Where that share comes out
/// even, rounding may leave the column with the bar before.
pub proof fn law_columns_show_their_share(column: u16, width: u16, count: usize)
    requires
        column < width,
        0 < count <= 0x1_0000_0000,
    ensures
        ({
            let bar = column_bar(column as int, width as int, count as int);
            bar * width <= column * count <= (bar + 1) * width
        }),
{
    let (c, w, n) = (column as int, width as int, count as int);
    binary64::law_share_is_the_quotient(c, w, n);
    binary64::lemma_share_is_ordered(c, c, w, n);
    vstd::arithmetic::div_mod::lemma_fundamental_div_mod(c * n, w);
    let q = c * n / w;
    assert(q < n) by (nonlinear_arith)
        requires
            q == c * n / w,
            0 <= c < w,
            n > 0,
    ;
    let bar = column_bar(c, w, n);
    assert(bar == q || bar == q - 1);
    assert(w * q == q * w && (q - 1) * w == q * w - w && (q + 1) * w == q * w + w && (q - 1 + 1) * w
        == q * w) by (nonlinear_arith);
}

/// A bar is as many rows high as its share of the rows, rounded up: `rows` rows from the ground and
/// no more, where its level is above the share of one row less and no more than that of `rows`.
pub proof fn law_bars_are_as_high_as_their_level(level: u16, rows: int, row: int, height: u16)
    requires
        0 <= row < height,
        (rows - 1) * u16::MAX < level * height <= rows * u16::MAX,
    ensures
        reaches(level as int, row, height as int) <==> row >= height - rows,
{
    let lifted = level * height;
    if row >= height - rows {
        assert((height - 1 - row) * u16::MAX <= (rows - 1) * u16::MAX) by (nonlinear_arith)
            requires
                row >= height - rows,
        ;
    } else {
        assert((height - 1 - row) * u16::MAX >= rows * u16::MAX) by (nonlinear_arith)
            requires
                row < height - rows,
        ;
    }
}

/// What is painted with the bars of the capture: the cells of the area, and no others, above whose
/// lower edge the bar of their column rises, as a share of the height.
pub proof fn law_bars_paint_their_columns(area: Rect, bars: Seq<u16>, x: int, y: int)
    requires
        bars.len() == 64,
    ensures
        is_painted(area, bars, x, y) <==> {
            &&& area.x <= x < area.x + area.width
            &&& area.y <= y < area.y + area.height
            &&& bars[(x - area.x) * 64 / area.width as int] * area.height > (area.y + area.height
                - 1 - y) * 65535
        },
{
    if area.x <= x < area.x + area.width {
        law_bars_share_the_columns((x - area.x) as u16, area.width);
    }
}

/// Nothing is painted outside the area, and what is painted moves along with it.
pub proof fn law_painting_moves_with_its_area(
    area: Rect,
    moved: Rect,
    bars: Seq<u16>,
    x: int,
    y: int,
)
    requires
        moved.width == area.width,
        moved.height == area.height,
    ensures
        is_painted(area, bars, x, y) ==> area.x <= x < area.x + area.width && area.y <= y < area.y
            + area.height,
        is_painted(moved, bars, x + moved.x - area.x, y + moved.y - area.y) <==> is_painted(
            area,
            bars,
            x,
            y,
        ),
{
}

/// A list of painted cells has every painted cell once, with the bar that reaches it, and no other:
/// its cells go from left to right, and downwards in each column.
pub proof fn law_list_has_every_painted_cell(
    cells: Seq<BarCell>,
    area: Rect,
    bars: Seq<u16>,
    i: int,
    j: int,
    x: int,
    y: int,
)
    requires
        bars.len() > 0,
        forall|x: int, y: int| #[trigger] is_listed(cells, x, y) <==> is_painted(area, bars, x, y),
        go_column_by_column(cells),
        have_their_bars(cells, area, bars.len() as int),
    ensures
        0 <= i < cells.len() ==> {
            &&& is_painted(area, bars, cells[i].x as int, cells[i].y as int)
            &&& cells[i].bar < bars.len()
            &&& cells[i].bar == column_bar(
                cells[i].x - area.x,
                area.width as int,
                bars.len() as int,
            )
            &&& bars[cells[i].bar as int] * area.height > (area.y + area.height - 1 - cells[i].y)
                * 65535
        },
        0 <= i < j < cells.len() ==> cells[i].x < cells[j].x || (cells[i].x == cells[j].x
            && cells[i].y < cells[j].y),
        is_painted(area, bars, x, y) ==> exists|k: int|
            0 <= k < cells.len() && (#[trigger] cells[k]).x == x && cells[k].y == y,
        area.width == 0 || area.height == 0 ==> cells.len() == 0,
{
    if 0 <= i < cells.len() {
        assert(is_listed(cells, cells[i].x as int, cells[i].y as int));
    }
    if 0 <= i < j < cells.len() {
        assert(comes_before(cells[i], cells[j]));
    }
    if is_painted(area, bars, x, y) {
        assert(is_listed(cells, x, y));
    }
    if cells.len() > 0 {
        assert(is_listed(cells, cells[0].x as int, cells[0].y as int));
    }
}

/// The panel has the last six rows of the screen, or all where there are less; both parts have all
/// its columns.
pub proof fn law_panel_has_six_rows(area: Rect)
    requires
        area.in_range(),
    ensures
        panel_part(area).height == if area.height < 6 {
            area.height
        } else {
            6
        },
        panel_part(area).y + panel_part(area).height == area.y + area.height,
        panel_part(area).x == area.x && panel_part(area).width == area.width,
        stage_part(area).x == area.x && stage_part(area).width == area.width,
        stage_part(area).y == area.y,
        stage_part(area).height + panel_part(area).height == area.height,
{
}

/// The background comes first, over the whole screen, exactly where the theme has one. Then come the
/// visualizer, the art over it, and the panel, whether or not a top bar is shown.
pub proof fn law_background_comes_first(
    area: Rect,
    stage: Rect,
    panel: Rect,
    left: Option<u128>,
    other: Option<u128>,
)
    ensures
        ({
            let plain = layer_order(area, stage, panel, false, left);
            let painted = layer_order(area, stage, panel, true, left);
            &&& painted[0] == Layer::Background(area)
            &&& painted.len() == plain.len() + 1
            &&& plain[0] == Layer::Visualizer(stage) && painted[1] == plain[0]
            &&& plain[1] == Layer::Art(stage) && painted[2] == plain[1]
            &&& plain[2] == Layer::Player(panel) && painted[3] == plain[2]
            &&& layer_order(area, stage, panel, false, other).take(3) == plain.take(3)
            &&& layer_order(area, stage, panel, true, other).take(4) == painted.take(4)
            &&& forall|i: int|
                0 <= i < plain.len() ==> !((#[trigger] plain[i]) is Background)
        }),
{
    let plain = layer_order(area, stage, panel, false, left);
    let painted = layer_order(area, stage, panel, true, left);
    assert(layer_order(area, stage, panel, false, other).take(3) =~= plain.take(3));
    assert(layer_order(area, stage, panel, true, other).take(4) =~= painted.take(4));
}

/// The top bar is drawn last, and exactly while it has time left: over the first row of the screen,
/// on the theme's background where there is one, else on black.
pub proof fn law_top_bar_comes_last(
    area: Rect,
    stage: Rect,
    panel: Rect,
    has_background: bool,
    left: u128,
)
    requires
        left > 0,
    ensures
        ({
            let without = layer_order(area, stage, panel, has_background, None);
            let with = layer_order(area, stage, panel, has_background, Some(left));
            &&& layer_order(area, stage, panel, has_background, Some(0)) == without
            &&& without.len() == if has_background { 4int } else { 3 }
            &&& with.drop_last() == without
            &&& with.last() matches Layer::TopBar { area: bar, backdrop }
            &&& bar.x == area.x && bar.y == area.y && bar.width == area.width && bar.height == 1
            &&& backdrop is Background <==> has_background
            &&& forall|i: int|
                0 <= i < without.len() ==> !((#[trigger] without[i]) is TopBar)
        }),
{
    let without = layer_order(area, stage, panel, has_background, None);
    let with = layer_order(area, stage, panel, has_background, Some(left));
    assert(with.drop_last() =~= without);
}

/// Switching sets the mode and asks for the screen to be drawn again. Switched on, the bars stay and
/// a running capture runs on; a capture is started exactly where none runs, and changes nothing
/// else.
pub proof fn law_switching_sets_the_mode(screen: Screen, enabled: bool)
    ensures
        screen.switched(enabled).fullscreen == enabled,
        screen.switched(enabled).dirty,
        screen.switched(true).bars == screen.bars,
        screen.switched(true).capturing == screen.capturing,
        screen.starts_capture(true) <==> !screen.capturing,
        screen.captured().capturing,
        screen.captured().fullscreen == screen.fullscreen,
        screen.captured().dirty == screen.dirty,
        screen.captured().bars == screen.bars,
{
}

/// What changes with the full-screen mode is what the application holds.
pub proof fn law_screen_is_that_of_the_app<C>(app: App<C>)
    ensures
        app.screen().fullscreen == app.fullscreen,
        app.screen().dirty == app.dirty,
        app.screen().capturing <==> app.audio_capture is Some,
        app.screen().bars == app.visualizer_bars@,
{
}

/// The track that plays is the one that playback points at in the queue, and none where it points
/// beyond it: pointing at another track shows another track.
pub proof fn law_playback_points_at_the_track<C>(a: App<C>, b: App<C>)
    requires
        a.queue@ == b.queue@,
    ensures
        a.playback.current_index < a.queue@.len() ==> a.playing() == Some(
            a.queue@[a.playback.current_index as int],
        ),
        a.playback.current_index >= a.queue@.len() ==> a.playing() is None,
        a.playback.current_index == b.playback.current_index ==> a.playing() == b.playing(),
        a.playback.current_index < a.queue@.len() && b.playback.current_index < b.queue@.len()
            && a.queue@[a.playback.current_index as int]
            != b.queue@[b.playback.current_index as int] ==> a.playing() != b.playing(),
{
}

/// The panel shows the name, the album and the artists of the track that playback points at.
pub proof fn law_panel_shows_the_track_that_plays<C>(app: App<C>)
    requires
        app.playback.current_index < app.queue@.len(),
    ensures
        ({
            let song = app.queue@[app.playback.current_index as int];
            let (title, artists) = player::track_lines(app.playing());
            &&& title[0].text == song.name@
            &&& title[2].text == song.album@
            &&& artists == player::track_lines(Some(song)).1
        }),
{
    player::law_title_names_the_track(app.queue@[app.playback.current_index as int]);
}

/// The spinner shows the stage that it points at. It has to point at one exactly while it is shown:
/// during buffering, and for a track of which nothing is known yet.
pub proof fn law_spinner_shows_its_stage<C>(app: App<C>)
    ensures
        app.spinner < app.spinner_stages@.len() ==> app.spinner_text()
            == app.spinner_stages@[app.spinner as int]@,
        app.spinner >= app.spinner_stages@.len() ==> app.spinner_text().len() == 0,
        app.spinner_ready() <==> app.spinner < app.spinner_stages@.len() || !(app.buffering || (
        app.playback.current_index < app.queue@.len() && app.playback.audio_samplerate == 0
            && app.playback.hr_channels@.len() == 0)),
{
}

/// The content of the panel lies below its border, with the padding on both sides.
pub proof fn law_content_lies_below_the_border(frame: Rect, art: Option<Rect>)
    requires
        frame.in_range(),
        frame.width >= 2,
        frame.height >= 1,
    ensures
        ({
            let content = panel_content(frame, art);
            let inner = Rect {
                x: frame.x,
                y: (frame.y + 1) as u16,
                width: frame.width,
                height: (frame.height - 1) as u16,
            };
            let padding = side_padding(inner, art);
            &&& content.y == frame.y + 1
            &&& content.y + content.height == frame.y + frame.height
            &&& content.x == frame.x + padding
            &&& content.x + content.width == frame.x + frame.width - padding
        }),
{
    let inner = frame.inside(top_border());
    law_padding_leaves_room(inner, art);
}

/// In a placed panel of full height, the track information has the first two rows below the border,
/// the progress the next, and the metadata the one below, all as wide as the content.
pub proof fn law_panel_rows_are_in_place(panel: PlayerPanel, frame: Rect, art: Option<Rect>)
    requires
        panel.placed(frame, art),
        frame.in_range(),
        frame.width >= 2,
        frame.height >= 5,
    ensures
        panel.frame == frame,
        panel.info.y == frame.y + 1 && panel.info.height == 2,
        panel.gauge.y == frame.y + 3 && panel.gauge.height == 1,
        panel.duration.y == frame.y + 3 && panel.duration.height == 1,
        panel.metadata.y == frame.y + 4 && panel.metadata.height == 1,
        panel.info.x == panel_content(frame, art).x,
        panel.info.width == panel_content(frame, art).width,
        panel.metadata.x == panel.info.x && panel.metadata.width == panel.info.width,
        panel.gauge.x == panel.info.x,
{
    law_content_lies_below_the_border(frame, art);
}

/// In a placed panel of less than full height, the rows that there are go to the progress first,
/// then to the track information and the metadata, and to all three.
pub proof fn law_low_panel_shares_its_rows(panel: PlayerPanel, frame: Rect, art: Option<Rect>)
    requires
        panel.placed(frame, art),
        frame.in_range(),
        frame.width >= 2,
        1 <= frame.height < 5,
    ensures
        panel.frame == frame,
        panel.info.y == frame.y + 1,
        panel.gauge.y == panel.info.y + panel.info.height,
        panel.duration.y == panel.gauge.y && panel.duration.height == panel.gauge.height,
        panel.metadata.y == panel.gauge.y + panel.gauge.height,
        panel.metadata.y + panel.metadata.height == frame.y + frame.height,
        (panel.info.height, panel.gauge.height, panel.metadata.height) == (if frame.height == 1 {
            (0u16, 0u16, 0u16)
        } else if frame.height == 2 {
            (0, 1, 0)
        } else if frame.height == 3 {
            (1, 0, 1)
        } else {
            (1, 1, 1)
        }),
{
    law_content_lies_below_the_border(frame, art);
    layout::law_shares_are_rounded(frame.height - 1);
}

/// In a placed panel, the gauge and the duration share the row of progress without a gap. The
/// duration has room for its text and three columns, as far as the row has; it takes just that in
/// rows up to about a hundred times as wide, and beyond it one column to a hundred of the gauge.
pub proof fn law_progress_row_is_shared(panel: PlayerPanel, frame: Rect, art: Option<Rect>)
    requires
        panel.placed(frame, art),
        frame.in_range(),
        frame.width >= 2,
        frame.height >= 1,
    ensures
        ({
            let content = panel_content(frame, art);
            let wanted = panel.duration_text@.len() + 3;
            &&& panel.gauge.x == content.x
            &&& panel.gauge.x + panel.gauge.width == panel.duration.x
            &&& panel.duration.x + panel.duration.width == content.x + content.width
            &&& content.width <= wanted ==> panel.gauge.width == 0
            &&& wanted <= content.width <= 101 * wanted ==> panel.duration.width == wanted
            &&& content.width > 101 * wanted ==> -101 < 101 * panel.gauge.width - 100
                * content.width < 101
        }),
{
    law_content_lies_below_the_border(frame, art);
    layout::law_shares_are_rounded(panel_content(frame, art).width as int);
}

} // verus!
