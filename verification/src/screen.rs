//! What the terminal interface shows: the widgets of the screen, with their places and texts.
use vstd::prelude::*;
use crate::engine;
use crate::engine::{BsyncViewModel, ClipboardHistoryEntry, RoomInfo};
use crate::laws;
use crate::state;
use crate::text;
use crate::text::{can_cut, concat2, concat3, decimal_text, take_bytes};
use crate::tui;
use crate::tui::{App, Dialog, Tab};

verus! {

// ---------------------------------------------------------------------------------------------
// Styled text
// ---------------------------------------------------------------------------------------------

#[derive(Debug, Clone, Copy, PartialEq, Eq, Structural)]
pub enum Color {
    Black,
    Blue,
    Cyan,
    DarkGray,
    Green,
    Magenta,
    Red,
    White,
    Yellow,
}

/// How a text looks.
#[derive(Debug, Clone, Copy, PartialEq, Eq, Structural)]
pub struct Style {
    pub fg: Option<Color>,
    pub bg: Option<Color>,
    pub bold: bool,
    pub underlined: bool,
}

/// A text of one style.
#[derive(Debug)]
pub struct Piece {
    pub text: String,
    pub style: Style,
}

/// The mathematical value of such a text.
pub struct PieceView {
    pub text: Seq<char>,
    pub style: Style,
}

/// A line of such texts.
#[derive(Debug)]
pub struct Line {
    pub pieces: Vec<Piece>,
}

pub type LineView = Seq<PieceView>;

impl View for Piece {
    type V = PieceView;

    open spec fn view(&self) -> PieceView {
        PieceView { text: self.text@, style: self.style }
    }
}

impl View for Line {
    type V = LineView;

    open spec fn view(&self) -> LineView {
        self.pieces@.map_values(|p: Piece| p@)
    }
}

pub open spec fn lines_of(lines: Seq<Line>) -> Seq<LineView> {
    lines.map_values(|l: Line| l@)
}

/// No style.
#[verifier::allow_in_spec]
pub fn plain() -> Style
    returns
        (Style { fg: None, bg: None, bold: false, underlined: false }),
{
    Style { fg: None, bg: None, bold: false, underlined: false }
}

#[verifier::allow_in_spec]
pub fn bold() -> Style
    returns
        (Style { fg: None, bg: None, bold: true, underlined: false }),
{
    Style { fg: None, bg: None, bold: true, underlined: false }
}

/// A heading: bold and underlined.
#[verifier::allow_in_spec]
pub fn heading() -> Style
    returns
        (Style { fg: None, bg: None, bold: true, underlined: true }),
{
    Style { fg: None, bg: None, bold: true, underlined: true }
}

#[verifier::allow_in_spec]
pub fn colored(color: Color) -> Style
    returns
        (Style { fg: Some(color), bg: None, bold: false, underlined: false }),
{
    Style { fg: Some(color), bg: None, bold: false, underlined: false }
}

#[verifier::allow_in_spec]
pub fn bold_colored(color: Color) -> Style
    returns
        (Style { fg: Some(color), bg: None, bold: true, underlined: false }),
{
    Style { fg: Some(color), bg: None, bold: true, underlined: false }
}

/// The style of a notification.
#[verifier::allow_in_spec]
pub fn notice_style() -> Style
    returns
        (Style {
            fg: Some(Color::Yellow),
            bg: Some(Color::DarkGray),
            bold: false,
            underlined: false,
        }),
{
    Style { fg: Some(Color::Yellow), bg: Some(Color::DarkGray), bold: false, underlined: false }
}

pub open spec fn piece_of(text: Seq<char>, style: Style) -> PieceView {
    PieceView { text, style }
}

fn piece(text: &str, style: Style) -> (piece: Piece)
    ensures
        piece@ == piece_of(text@, style),
{
    Piece { text: text.to_owned(), style }
}

fn empty_line() -> (line: Line)
    ensures
        line@ == LineView::empty(),
{
    let line = Line { pieces: Vec::new() };
    assert(line@ =~= LineView::empty());
    line
}

fn line1(a: Piece) -> (line: Line)
    ensures
        line@ == seq![a@],
{
    let line = Line { pieces: vec![a] };
    assert(line@ =~= seq![a@]);
    line
}

fn line2(a: Piece, b: Piece) -> (line: Line)
    ensures
        line@ == seq![a@, b@],
{
    let line = Line { pieces: vec![a, b] };
    assert(line@ =~= seq![a@, b@]);
    line
}

fn line3(a: Piece, b: Piece, c: Piece) -> (line: Line)
    ensures
        line@ == seq![a@, b@, c@],
{
    let line = Line { pieces: vec![a, b, c] };
    assert(line@ =~= seq![a@, b@, c@]);
    line
}

fn line4(a: Piece, b: Piece, c: Piece, d: Piece) -> (line: Line)
    ensures
        line@ == seq![a@, b@, c@, d@],
{
    let line = Line { pieces: vec![a, b, c, d] };
    assert(line@ =~= seq![a@, b@, c@, d@]);
    line
}

/// A line of one text without style.
pub open spec fn raw_line(text: Seq<char>) -> LineView {
    seq![piece_of(text, plain())]
}

fn raw(text: &str) -> (line: Line)
    ensures
        line@ == raw_line(text@),
{
    line1(piece(text, plain()))
}

// ---------------------------------------------------------------------------------------------
// Places
// ---------------------------------------------------------------------------------------------

/// A rectangle of the screen.
#[derive(Debug, Clone, Copy, PartialEq, Eq, Structural)]
pub struct Area {
    pub x: u16,
    pub y: u16,
    pub width: u16,
    pub height: u16,
}

/// How much room a part of an area takes.
#[derive(Debug, Clone, Copy, PartialEq, Eq, Structural)]
pub enum Size {
    Length(u16),
    Min(u16),
    Percentage(u16),
}

/// Whether the right and bottom edges of an area can be numbered.
pub open spec fn on_screen(area: Area) -> bool {
    area.x + area.width <= u16::MAX && area.y + area.height <= u16::MAX
}

/// `a - b`, or 0.
pub open spec fn minus(a: int, b: int) -> int {
    if a > b {
        a - b
    } else {
        0
    }
}

/// What is left of a side of a bordered area: its start and its length.
pub open spec fn inner_side(start: u16, len: u16) -> (int, int) {
    (if len > 0 { start + 1 } else { start as int }, minus(len as int, 2))
}

/// The area inside the border of a bordered area.
pub open spec fn inner_of(area: Area) -> Area {
    Area {
        x: inner_side(area.x, area.width).0 as u16,
        y: inner_side(area.y, area.height).0 as u16,
        width: inner_side(area.x, area.width).1 as u16,
        height: inner_side(area.y, area.height).1 as u16,
    }
}

/// `ratatui::widgets::Block::inner` of a bordered block without padding: the border takes one
/// row or column on each side.
#[verifier::external_body]
fn inside_border(area: Area) -> (inner: Area)
    requires
        on_screen(area),
    ensures
        inner == inner_of(area),
{
    let inner = ratatui::widgets::Block::bordered().inner(
        ratatui::layout::Rect { x: area.x, y: area.y, width: area.width, height: area.height },
    );
    Area { x: inner.x, y: inner.y, width: inner.width, height: inner.height }
}

/// How high two parts of an area are that have the sizes they ask for: a length, or a share of the
/// height in per cent, rounded; what is left goes to the part that only asks for a minimum. There
/// is no answer where the area is not high enough for both.
pub open spec fn heights(height: u16, first: Size, second: Size) -> Option<(int, int)> {
    match (first, second) {
        (Size::Length(n), Size::Min(least)) => if n + least <= height {
            Some((n as int, height - n))
        } else {
            None
        },
        (Size::Min(least), Size::Length(n)) => if least + n <= height {
            Some((height - n, n as int))
        } else {
            None
        },
        (Size::Percentage(share), Size::Min(least)) => if share <= 100 && 100 * least <= (100
            - share) * height {
            Some(((share * height + 50) / 100, height - (share * height + 50) / 100))
        } else {
            None
        },
        _ => None,
    }
}

/// `upper` and `lower` are parts of `area` by those sizes: as wide as the whole, one directly below
/// the other from its top on, and not beyond its bottom. They have the heights they ask for, where
/// there is room for both.
pub open spec fn stacked(area: Area, first: Size, second: Size, upper: Area, lower: Area) -> bool {
    &&& upper.x == area.x && upper.width == area.width
    &&& lower.x == area.x && lower.width == area.width
    &&& upper.y == area.y
    &&& lower.y == upper.y + upper.height
    &&& lower.y + lower.height <= area.y + area.height
    &&& heights(area.height, first, second) matches Some((a, b)) ==> upper.height == a
        && lower.height == b
}

/// `ratatui::layout::Layout::vertical` with two constraints, and its `areas`: two parts of the area,
/// one below the other. Where there is not room for both sizes, how the rows are shared is left
/// open: a solver on floating-point numbers decides that, which walks hash maps.
#[verifier::external_body]
fn split(area: Area, first: Size, second: Size) -> (parts: (Area, Area))
    requires
        on_screen(area),
    ensures
        stacked(area, first, second, parts.0, parts.1),
{
    let rule = |size: Size| match size {
        Size::Length(n) => ratatui::layout::Constraint::Length(n),
        Size::Min(n) => ratatui::layout::Constraint::Min(n),
        Size::Percentage(n) => ratatui::layout::Constraint::Percentage(n),
    };
    let Area { x, y, width, height } = area;
    let whole = ratatui::layout::Rect { x, y, width, height };
    let [a, b] = ratatui::layout::Layout::vertical([rule(first), rule(second)]).areas(whole);
    (
        Area { x: a.x, y: a.y, width: a.width, height: a.height },
        Area { x: b.x, y: b.y, width: b.width, height: b.height },
    )
}

/// An area whose right and bottom edges are cut off where they cannot be numbered.
pub open spec fn area_of(x: int, y: int, width: int, height: int) -> Area {
    Area {
        x: x as u16,
        y: y as u16,
        width: (if x + width > u16::MAX {
            u16::MAX - x
        } else {
            width
        }) as u16,
        height: (if y + height > u16::MAX {
            u16::MAX - y
        } else {
            height
        }) as u16,
    }
}

fn clipped(x: u16, y: u16, width: u16, height: u16) -> (area: Area)
    ensures
        area == area_of(x as int, y as int, width as int, height as int),
{
    Area {
        x,
        y,
        width: if width > u16::MAX - x {
            u16::MAX - x
        } else {
            width
        },
        height: if height > u16::MAX - y {
            u16::MAX - y
        } else {
            height
        },
    }
}

/// The width of a dialog: 60 columns, but less than the screen.
pub open spec fn popup_width(area: Area) -> int {
    let most = minus(area.width as int, 4);
    if most < 60 {
        most
    } else {
        60
    }
}

/// The place of a dialog of some height: in the middle of the screen.
pub open spec fn popup_area(area: Area, height: u16) -> Area {
    let width = popup_width(area);
    area_of(
        area.x + (area.width - width) / 2,
        area.y + minus(area.height as int, height as int) / 2,
        width,
        height as int,
    )
}

/// The place of a dialog of some height.
pub fn popup(area: Area, height: u16) -> (place: Area)
    requires
        on_screen(area),
    ensures
        place == popup_area(area, height),
{
    let most: u16 = area.width.saturating_sub(4);
    let width: u16 = if most < 60 {
        most
    } else {
        60
    };
    clipped(
        area.x + area.width.saturating_sub(width) / 2,
        area.y + area.height.saturating_sub(height) / 2,
        width,
        height,
    )
}

/// The width of a notification: its bytes up to 40, and a margin.
pub open spec fn notice_width(message: Seq<char>) -> int {
    text::head_len(message, 40) + 4
}

/// The place of a notification: in the bottom-right corner.
pub open spec fn notice_area(area: Area, message: Seq<char>) -> Area {
    let width = notice_width(message);
    area_of(
        area.x + minus(area.width as int, width + 2),
        area.y + minus(area.height as int, 2),
        width,
        1,
    )
}

/// The place of a notification.
pub fn notice_place(area: Area, message: &str) -> (place: Area)
    requires
        on_screen(area),
    ensures
        place == notice_area(area, message@),
{
    let len: usize = message.as_bytes().len();
    let width: u16 = (if len < 40 {
        len
    } else {
        40
    }) as u16 + 4;
    clipped(
        area.x + area.width.saturating_sub(width + 2),
        area.y + area.height.saturating_sub(2),
        width,
        1,
    )
}

// ---------------------------------------------------------------------------------------------
// Widgets
// ---------------------------------------------------------------------------------------------

/// A part of the screen.
#[derive(Debug)]
pub enum Widget {
    /// A thick border around everything, with a title above and the keys below.
    Frame { area: Area, title: Line, instructions: Line },
    /// The titles of the tabs.
    Tabs { area: Area, titles: Vec<String>, selected: usize },
    /// Lines in a border.
    Panel { area: Area, title: String, border: Option<Color>, padding: u16, lines: Vec<Line> },
    /// Rows in a border, one of which may be selected.
    List { area: Area, title: String, rows: Vec<Line>, selected: Option<usize> },
    /// A line.
    Row { area: Area, line: Line },
    /// Lines in a border, in front of all else.
    Popup { area: Area, title: String, border: Color, lines: Vec<Line> },
    /// A short text in front of all else.
    Notice { area: Area, text: String, style: Style },
}

/// The mathematical value of a part of the screen.
pub enum WidgetView {
    Frame { area: Area, title: LineView, instructions: LineView },
    Tabs { area: Area, titles: Seq<Seq<char>>, selected: int },
    Panel {
        area: Area,
        title: Seq<char>,
        border: Option<Color>,
        padding: u16,
        lines: Seq<LineView>,
    },
    List { area: Area, title: Seq<char>, rows: Seq<LineView>, selected: Option<int> },
    Row { area: Area, line: LineView },
    Popup { area: Area, title: Seq<char>, border: Color, lines: Seq<LineView> },
    Notice { area: Area, text: Seq<char>, style: Style },
}

impl View for Widget {
    type V = WidgetView;

    open spec fn view(&self) -> WidgetView {
        match *self {
            Widget::Frame { area, title, instructions } => WidgetView::Frame {
                area,
                title: title@,
                instructions: instructions@,
            },
            Widget::Tabs { area, titles, selected } => WidgetView::Tabs {
                area,
                titles: text::texts(titles@),
                selected: selected as int,
            },
            Widget::Panel { area, title, border, padding, lines } => WidgetView::Panel {
                area,
                title: title@,
                border,
                padding,
                lines: lines_of(lines@),
            },
            Widget::List { area, title, rows, selected } => WidgetView::List {
                area,
                title: title@,
                rows: lines_of(rows@),
                selected: match selected {
                    Some(i) => Some(i as int),
                    None => None,
                },
            },
            Widget::Row { area, line } => WidgetView::Row { area, line: line@ },
            Widget::Popup { area, title, border, lines } => WidgetView::Popup {
                area,
                title: title@,
                border,
                lines: lines_of(lines@),
            },
            Widget::Notice { area, text, style } => WidgetView::Notice { area, text: text@, style },
        }
    }
}

pub open spec fn widgets_of(widgets: Seq<Widget>) -> Seq<WidgetView> {
    widgets.map_values(|w: Widget| w@)
}

// ---------------------------------------------------------------------------------------------
// The frame and the tabs
// ---------------------------------------------------------------------------------------------

/// The keys that are named below the frame.
pub open spec fn instructions_line() -> LineView {
    seq![
        piece_of(" Tabs "@, plain()),
        piece_of("<Tab>"@, bold_colored(Color::Blue)),
        piece_of(" Scroll "@, plain()),
        piece_of("<\u{2191}\u{2193}>"@, bold_colored(Color::Blue)),
        piece_of(" Ticket "@, plain()),
        piece_of("<t>"@, bold_colored(Color::Blue)),
        piece_of(" Connect "@, plain()),
        piece_of("<c>"@, bold_colored(Color::Blue)),
        piece_of(" Room "@, plain()),
        piece_of("<r>"@, bold_colored(Color::Blue)),
        piece_of(" Quit "@, plain()),
        piece_of("<q>"@, bold_colored(Color::Blue)),
    ]
}

fn instructions() -> (line: Line)
    ensures
        line@ == instructions_line(),
{
    let blue = bold_colored(Color::Blue);
    let pieces = vec![
        piece(" Tabs ", plain()),
        piece("<Tab>", blue),
        piece(" Scroll ", plain()),
        piece("<\u{2191}\u{2193}>", blue),
        piece(" Ticket ", plain()),
        piece("<t>", blue),
        piece(" Connect ", plain()),
        piece("<c>", blue),
        piece(" Room ", plain()),
        piece("<r>", blue),
        piece(" Quit ", plain()),
        piece("<q>", blue),
    ];
    let line = Line { pieces };
    assert(line@ =~= instructions_line());
    line
}

pub open spec fn frame_of(area: Area) -> WidgetView {
    WidgetView::Frame {
        area,
        title: seq![piece_of(" bsync "@, bold())],
        instructions: instructions_line(),
    }
}

fn frame(area: Area) -> (widget: Widget)
    ensures
        widget@ == frame_of(area),
{
    Widget::Frame {
        area,
        title: line1(piece(" bsync ", bold())),
        instructions: instructions(),
    }
}

/// The titles of all tabs, with the current one selected.
pub open spec fn tabs_of(tab: Tab, area: Area) -> WidgetView {
    WidgetView::Tabs {
        area,
        titles: Seq::new(
            tui::TAB_COUNT as nat,
            |i: int| " "@ + tui::tab_title(tui::tab_at(i)) + " "@,
        ),
        selected: tui::position(tab),
    }
}

fn draw_tabs(tab: Tab, area: Area) -> (widget: Widget)
    ensures
        widget@ == tabs_of(tab, area),
{
    let all = Tab::all();
    let mut titles: Vec<String> = Vec::new();
    let mut i: usize = 0;
    while i < tui::TAB_COUNT
        invariant
            i <= tui::TAB_COUNT,
            forall|j: int| 0 <= j < tui::TAB_COUNT ==> #[trigger] all@[j] == tui::tab_at(j),
            titles@.len() == i,
            forall|j: int|
                0 <= j < i ==> (#[trigger] titles@[j])@ == " "@ + tui::tab_title(tui::tab_at(j))
                    + " "@,
        decreases tui::TAB_COUNT - i,
    {
        assert(all@[i as int] == tui::tab_at(i as int));
        titles.push(concat3(" ", all[i].title(), " "));
        i = i + 1;
    }
    let widget = Widget::Tabs { area, titles, selected: tab.index() };
    assert(text::texts(titles@) =~= tabs_of(tab, area)->titles);
    widget
}

// ---------------------------------------------------------------------------------------------
// Status
// ---------------------------------------------------------------------------------------------

/// The mark of a room: a star if it was made here, an arrow if not.
pub open spec fn badge_of(is_local: bool) -> Seq<char> {
    if is_local {
        "\u{2605}"@
    } else {
        "\u{2192}"@
    }
}

/// The names of the rooms, each after its mark, with commas between.
pub open spec fn rooms_text(rooms: Seq<engine::RoomView>) -> Seq<char>
    decreases rooms.len(),
{
    if rooms.len() == 0 {
        Seq::empty()
    } else {
        let last = badge_of(rooms.last().is_local) + " "@ + rooms.last().name;
        if rooms.len() == 1 {
            last
        } else {
            rooms_text(rooms.drop_last()) + ", "@ + last
        }
    }
}

/// The peers of a room that are pending, or those that are connected.
pub open spec fn peers_of(room: engine::RoomView, pending: bool) -> Seq<Seq<char>> {
    if pending {
        room.pending_peers
    } else {
        room.connected_peers
    }
}

/// The number of peers of all rooms.
pub open spec fn peer_total(rooms: Seq<engine::RoomView>, pending: bool) -> nat
    decreases rooms.len(),
{
    if rooms.len() == 0 {
        0
    } else {
        peer_total(rooms.drop_last(), pending) + peers_of(rooms.last(), pending).len()
    }
}

/// Whether the peers of all rooms can be counted.
pub open spec fn countable(rooms: Seq<engine::RoomView>) -> bool {
    peer_total(rooms, false) <= usize::MAX && peer_total(rooms, true) <= usize::MAX
}

/// The ticket that is shown: that of the first room that was made here.
pub open spec fn shown_ticket(rooms: Seq<engine::RoomView>) -> Seq<char> {
    match tui::first_local(rooms) {
        Some(room) if room.ticket is Some => room.ticket->0,
        _ => "(no local rooms)"@,
    }
}

pub open spec fn status_lines_of(peer_id: Seq<char>, rooms: Seq<engine::RoomView>) -> Seq<LineView> {
    seq![
        seq![piece_of("Peer ID: "@, bold()), piece_of(peer_id, plain())],
        Seq::empty(),
        seq![piece_of("Ticket:  "@, bold()), piece_of(shown_ticket(rooms), plain())],
        Seq::empty(),
        seq![piece_of("Rooms:   "@, bold()), piece_of(rooms_text(rooms), plain())],
        Seq::empty(),
        seq![
            piece_of(
                text::decimal(peer_total(rooms, false)) + " connected, "@ + text::decimal(
                    peer_total(rooms, true),
                ) + " pending across all rooms"@,
                colored(Color::Green),
            ),
        ],
    ]
}

/// The warning that is always shown.
pub open spec fn security_lines() -> Seq<LineView> {
    seq![
        raw_line("\u{26a0}\u{fe0f}  bsync sends your clipboard to ALL connected peers."@),
        raw_line("    Only connect to peers you trust."@),
        raw_line(
            "    Connected peers can see: passwords, 2FA codes, API keys, private text."@,
        ),
    ]
}

/// The status tab, in two areas.
pub open spec fn status_of(
    peer_id: Seq<char>,
    rooms: Seq<engine::RoomView>,
    info: Area,
    warning: Area,
) -> Seq<WidgetView> {
    seq![
        WidgetView::Panel {
            area: info,
            title: " Status "@,
            border: None,
            padding: 1,
            lines: status_lines_of(peer_id, rooms),
        },
        WidgetView::Panel {
            area: warning,
            title: " Security "@,
            border: Some(Color::Yellow),
            padding: 0,
            lines: security_lines(),
        },
    ]
}

fn badge(is_local: bool) -> (badge: &'static str)
    ensures
        badge@ == badge_of(is_local),
{
    if is_local {
        "\u{2605}"
    } else {
        "\u{2192}"
    }
}

fn join_rooms(rooms: &Vec<RoomInfo>) -> (joined: String)
    ensures
        joined@ == rooms_text(engine::rooms_of(rooms@)),
{
    let ghost views = engine::rooms_of(rooms@);
    let mut joined = String::new();
    let mut i: usize = 0;
    assert(joined@ =~= rooms_text(views.take(0)));
    while i < rooms.len()
        invariant
            i <= rooms@.len(),
            views == engine::rooms_of(rooms@),
            joined@ == rooms_text(views.take(i as int)),
        decreases rooms@.len() - i,
    {
        assert(views.take(i + 1).drop_last() =~= views.take(i as int));
        assert(views.take(i + 1).last() == rooms@[i as int]@);
        let ghost before = joined@;
        let last = concat3(badge(rooms[i].is_local), " ", rooms[i].name.as_str());
        if i > 0 {
            joined.append(", ");
        }
        joined.append(last.as_str());
        proof {
            if i == 0 {
                assert(before =~= Seq::<char>::empty());
                assert(joined@ =~= last@);
            }
        }
        i = i + 1;
    }
    assert(views.take(i as int) =~= views);
    joined
}

proof fn lemma_total_grows(rooms: Seq<engine::RoomView>, n: int, pending: bool)
    requires
        0 <= n <= rooms.len(),
    ensures
        peer_total(rooms.take(n), pending) <= peer_total(rooms, pending),
    decreases rooms.len(),
{
    if n < rooms.len() {
        lemma_total_grows(rooms.drop_last(), n, pending);
        assert(rooms.drop_last().take(n) =~= rooms.take(n));
    } else {
        assert(rooms.take(n) =~= rooms);
    }
}

fn count_peers(rooms: &Vec<RoomInfo>, pending: bool) -> (total: usize)
    requires
        peer_total(engine::rooms_of(rooms@), pending) <= usize::MAX,
    ensures
        total == peer_total(engine::rooms_of(rooms@), pending),
{
    let ghost views = engine::rooms_of(rooms@);
    let mut total: usize = 0;
    let mut i: usize = 0;
    assert(views.take(0).len() == 0);
    while i < rooms.len()
        invariant
            i <= rooms@.len(),
            views == engine::rooms_of(rooms@),
            peer_total(views, pending) <= usize::MAX,
            total == peer_total(views.take(i as int), pending),
        decreases rooms@.len() - i,
    {
        assert(views.take(i + 1).drop_last() =~= views.take(i as int));
        assert(views.take(i + 1).last() == rooms@[i as int]@);
        proof {
            lemma_total_grows(views, i + 1, pending);
        }
        let len: usize = if pending {
            rooms[i].pending_peers.len()
        } else {
            rooms[i].connected_peers.len()
        };
        assert(len == peers_of(rooms@[i as int]@, pending).len());
        total = total + len;
        i = i + 1;
    }
    assert(views.take(i as int) =~= views);
    total
}

fn ticket_shown(rooms: &Vec<RoomInfo>) -> (ticket: String)
    ensures
        ticket@ == shown_ticket(engine::rooms_of(rooms@)),
{
    match tui::find_local(rooms) {
        Some(room) => match &room.ticket {
            Some(ticket) => ticket.clone(),
            None => "(no local rooms)".to_owned(),
        },
        None => "(no local rooms)".to_owned(),
    }
}

/// Whether the peers of all rooms can be counted.
pub fn can_count(rooms: &Vec<RoomInfo>) -> (fits: bool)
    ensures
        fits == countable(engine::rooms_of(rooms@)),
{
    can_count_peers(rooms, false) && can_count_peers(rooms, true)
}

fn can_count_peers(rooms: &Vec<RoomInfo>, pending: bool) -> (fits: bool)
    ensures
        fits == (peer_total(engine::rooms_of(rooms@), pending) <= usize::MAX),
{
    let ghost views = engine::rooms_of(rooms@);
    let mut total: usize = 0;
    let mut i: usize = 0;
    assert(views.take(0).len() == 0);
    while i < rooms.len()
        invariant
            i <= rooms@.len(),
            views == engine::rooms_of(rooms@),
            total == peer_total(views.take(i as int), pending),
        decreases rooms@.len() - i,
    {
        assert(views.take(i + 1).drop_last() =~= views.take(i as int));
        assert(views.take(i + 1).last() == rooms@[i as int]@);
        proof {
            lemma_total_grows(views, i + 1, pending);
        }
        let len: usize = if pending {
            rooms[i].pending_peers.len()
        } else {
            rooms[i].connected_peers.len()
        };
        assert(len == peers_of(rooms@[i as int]@, pending).len());
        match total.checked_add(len) {
            Some(sum) => {
                total = sum;
            },
            None => {
                return false;
            },
        }
        i = i + 1;
    }
    assert(views.take(i as int) =~= views);
    true
}

/// The status tab, in two areas.
pub fn draw_status(view: &BsyncViewModel, info: Area, warning: Area) -> (widgets: Vec<Widget>)
    requires
        countable(engine::rooms_of(view.rooms@)),
    ensures
        widgets_of(widgets@) == status_of(
            view.peer_id@,
            engine::rooms_of(view.rooms@),
            info,
            warning,
        ),
{
    let mut totals = concat2(
        decimal_text(count_peers(&view.rooms, false) as u64).as_str(),
        " connected, ",
    );
    totals.append(decimal_text(count_peers(&view.rooms, true) as u64).as_str());
    totals.append(" pending across all rooms");
    let lines = vec![
        line2(piece("Peer ID: ", bold()), piece(view.peer_id.as_str(), plain())),
        empty_line(),
        line2(piece("Ticket:  ", bold()), piece(ticket_shown(&view.rooms).as_str(), plain())),
        empty_line(),
        line2(piece("Rooms:   ", bold()), piece(join_rooms(&view.rooms).as_str(), plain())),
        empty_line(),
        line1(piece(totals.as_str(), colored(Color::Green))),
    ];
    assert(lines_of(lines@) =~= status_lines_of(view.peer_id@, engine::rooms_of(view.rooms@)));
    let advice = vec![
        raw("\u{26a0}\u{fe0f}  bsync sends your clipboard to ALL connected peers."),
        raw("    Only connect to peers you trust."),
        raw("    Connected peers can see: passwords, 2FA codes, API keys, private text."),
    ];
    assert(lines_of(advice@) =~= security_lines());
    let widgets = vec![
        Widget::Panel { area: info, title: " Status ".to_owned(), border: None, padding: 1, lines },
        Widget::Panel {
            area: warning,
            title: " Security ".to_owned(),
            border: Some(Color::Yellow),
            padding: 0,
            lines: advice,
        },
    ];
    assert(widgets_of(widgets@) =~= status_of(
        view.peer_id@,
        engine::rooms_of(view.rooms@),
        info,
        warning,
    ));
    widgets
}

// ---------------------------------------------------------------------------------------------
// Peers
// ---------------------------------------------------------------------------------------------

pub open spec fn peer_row(peer: Seq<char>, room: Seq<char>, color: Color) -> LineView {
    seq![piece_of("["@ + room + "] "@, plain()), piece_of(peer, colored(color))]
}

pub open spec fn room_peer_rows(room: engine::RoomView, pending: bool, color: Color) -> Seq<LineView> {
    peers_of(room, pending).map_values(|peer: Seq<char>| peer_row(peer, room.name, color))
}

/// A row for each peer, in the order of the rooms.
pub open spec fn peer_rows(rooms: Seq<engine::RoomView>, pending: bool, color: Color) -> Seq<LineView>
    decreases rooms.len(),
{
    if rooms.len() == 0 {
        Seq::empty()
    } else {
        peer_rows(rooms.drop_last(), pending, color) + room_peer_rows(rooms.last(), pending, color)
    }
}

/// The rows, or a line that says that there are none.
pub open spec fn rows_or(rows: Seq<LineView>, none: Seq<char>) -> Seq<LineView> {
    if rows.len() == 0 {
        seq![seq![piece_of(none, colored(Color::DarkGray))]]
    } else {
        rows
    }
}

/// The list of all connected peers, or of all pending ones.
pub open spec fn peer_list_of(
    rooms: Seq<engine::RoomView>,
    pending: bool,
    area: Area,
) -> WidgetView {
    if pending {
        let rows = peer_rows(rooms, true, Color::Yellow);
        WidgetView::List {
            area,
            title: " Pending ("@ + text::decimal(rows.len()) + ") "@,
            rows: rows_or(rows, "No pending peers"@),
            selected: None,
        }
    } else {
        let rows = peer_rows(rooms, false, Color::Green);
        WidgetView::List {
            area,
            title: " Connected ("@ + text::decimal(rows.len()) + ") "@,
            rows: rows_or(rows, "No connected peers"@),
            selected: None,
        }
    }
}

fn draw_room_peers(room: &RoomInfo, pending: bool, color: Color) -> (rows: Vec<Line>)
    ensures
        lines_of(rows@) == room_peer_rows(room@, pending, color),
{
    let peers = if pending {
        &room.pending_peers
    } else {
        &room.connected_peers
    };
    assert(text::texts(peers@) == peers_of(room@, pending));
    let mut rows: Vec<Line> = Vec::new();
    let mut i: usize = 0;
    while i < peers.len()
        invariant
            i <= peers@.len(),
            rows@.len() == i,
            forall|j: int|
                0 <= j < i ==> (#[trigger] rows@[j])@ == peer_row(peers@[j]@, room.name@, color),
        decreases peers@.len() - i,
    {
        let place = concat3("[", room.name.as_str(), "] ");
        rows.push(
            line2(piece(place.as_str(), plain()), piece(peers[i].as_str(), colored(color))),
        );
        i = i + 1;
    }
    assert(lines_of(rows@) =~= room_peer_rows(room@, pending, color));
    rows
}

fn draw_peer_rows(rooms: &Vec<RoomInfo>, pending: bool, color: Color) -> (rows: Vec<Line>)
    ensures
        lines_of(rows@) == peer_rows(engine::rooms_of(rooms@), pending, color),
{
    let ghost views = engine::rooms_of(rooms@);
    let mut rows: Vec<Line> = Vec::new();
    let mut i: usize = 0;
    assert(lines_of(rows@) =~= peer_rows(views.take(0), pending, color));
    while i < rooms.len()
        invariant
            i <= rooms@.len(),
            views == engine::rooms_of(rooms@),
            lines_of(rows@) == peer_rows(views.take(i as int), pending, color),
        decreases rooms@.len() - i,
    {
        assert(views.take(i + 1).drop_last() =~= views.take(i as int));
        assert(views.take(i + 1).last() == rooms@[i as int]@);
        let ghost before = rows@;
        let mut more = draw_room_peers(&rooms[i], pending, color);
        let ghost added = more@;
        rows.append(&mut more);
        assert(lines_of(rows@) =~= lines_of(before) + lines_of(added));
        i = i + 1;
    }
    assert(views.take(i as int) =~= views);
    rows
}

fn placeholder(rows: Vec<Line>, none: &str) -> (shown: Vec<Line>)
    ensures
        lines_of(shown@) == rows_or(lines_of(rows@), none@),
{
    if rows.len() == 0 {
        let shown = vec![line1(piece(none, colored(Color::DarkGray)))];
        assert(lines_of(shown@) =~= rows_or(lines_of(rows@), none@));
        shown
    } else {
        rows
    }
}

fn counted_title(before: &str, count: usize) -> (title: String)
    ensures
        title@ == before@ + text::decimal(count as nat) + ") "@,
{
    concat3(before, decimal_text(count as u64).as_str(), ") ")
}

fn draw_peer_list(rooms: &Vec<RoomInfo>, pending: bool, area: Area) -> (widget: Widget)
    ensures
        widget@ == peer_list_of(engine::rooms_of(rooms@), pending, area),
{
    if pending {
        let rows = draw_peer_rows(rooms, true, Color::Yellow);
        Widget::List {
            area,
            title: counted_title(" Pending (", rows.len()),
            rows: placeholder(rows, "No pending peers"),
            selected: None,
        }
    } else {
        let rows = draw_peer_rows(rooms, false, Color::Green);
        Widget::List {
            area,
            title: counted_title(" Connected (", rows.len()),
            rows: placeholder(rows, "No connected peers"),
            selected: None,
        }
    }
}

/// The peers tab: the connected peers, and below them the pending ones.
pub open spec fn peers_tab_of(
    rooms: Seq<engine::RoomView>,
    connected_area: Area,
    pending_area: Area,
) -> Seq<WidgetView> {
    seq![
        peer_list_of(rooms, false, connected_area),
        peer_list_of(rooms, true, pending_area),
    ]
}

/// The peers tab, in two areas.
pub fn draw_peers(view: &BsyncViewModel, connected_area: Area, pending_area: Area) -> (widgets: Vec<
    Widget,
>)
    ensures
        widgets_of(widgets@) == peers_tab_of(
            engine::rooms_of(view.rooms@),
            connected_area,
            pending_area,
        ),
{
    let widgets = vec![
        draw_peer_list(&view.rooms, false, connected_area),
        draw_peer_list(&view.rooms, true, pending_area),
    ];
    assert(widgets_of(widgets@) =~= peers_tab_of(
        engine::rooms_of(view.rooms@),
        connected_area,
        pending_area,
    ));
    widgets
}

// ---------------------------------------------------------------------------------------------
// Rooms
// ---------------------------------------------------------------------------------------------

/// A text with spaces behind it, up to that many characters.
pub open spec fn padded(s: Seq<char>, width: nat) -> Seq<char> {
    if s.len() < width {
        s + Seq::new((width - s.len()) as nat, |i: int| ' ')
    } else {
        s
    }
}

fn pad(s: &str, width: usize) -> (out: String)
    ensures
        out@ == padded(s@, width as nat),
{
    let mut out = s.to_owned();
    let mut len: usize = s.unicode_len();
    let ghost start = s@.len();
    assert(out@ =~= s@ + Seq::new(0, |i: int| ' '));
    while len < width
        invariant
            start <= len,
            start == s@.len(),
            start <= width ==> len <= width,
            start >= width ==> len == start,
            out@ == s@ + Seq::new((len - start) as nat, |i: int| ' '),
        decreases width - len,
    {
        out.push(' ');
        len = len + 1;
        assert(out@ =~= s@ + Seq::new((len - start) as nat, |i: int| ' '));
    }
    assert(out@ =~= padded(s@, width as nat));
    out
}

pub open spec fn local_piece(is_local: bool) -> PieceView {
    if is_local {
        piece_of("\u{2605} local "@, bold_colored(Color::Cyan))
    } else {
        piece_of("\u{2192} joined"@, colored(Color::Magenta))
    }
}

pub open spec fn room_row(room: engine::RoomView) -> LineView {
    seq![
        piece_of(padded(room.name, 16), bold()),
        local_piece(room.is_local),
        piece_of(
            "  "@ + text::decimal(room.connected_peers.len()) + " conn, "@ + text::decimal(
                room.pending_peers.len(),
            ) + " pending"@,
            plain(),
        ),
    ]
}

/// The place that is selected in a list, which is the first in an empty one.
pub open spec fn highlighted(scroll: usize, len: nat) -> int {
    if len == 0 {
        0
    } else {
        tui::selected(scroll, len)
    }
}

fn highlight(scroll: usize, len: usize) -> (place: usize)
    ensures
        place == highlighted(scroll, len as nat),
{
    if scroll < len {
        scroll
    } else {
        len.saturating_sub(1)
    }
}

/// The list of rooms.
pub open spec fn room_list_of(rooms: Seq<engine::RoomView>, scroll: usize, area: Area) -> WidgetView {
    WidgetView::List {
        area,
        title: " Rooms ("@ + text::decimal(rooms.len()) + ") "@,
        rows: rows_or(
            rooms.map_values(|room: engine::RoomView| room_row(room)),
            "No rooms. Press 'n' to create one or 'c' to join via ticket."@,
        ),
        selected: Some(highlighted(scroll, rooms.len())),
    }
}

/// The keys of the rooms tab.
pub open spec fn room_hints_line() -> LineView {
    seq![
        piece_of(" [n]"@, bold_colored(Color::Green)),
        piece_of(" new  "@, plain()),
        piece_of("[d]"@, bold_colored(Color::Red)),
        piece_of(" delete  "@, plain()),
        piece_of("[T]"@, bold_colored(Color::Cyan)),
        piece_of(" copy ticket  "@, plain()),
        piece_of("[\u{2191}\u{2193}]"@, bold_colored(Color::Blue)),
        piece_of(" scroll"@, plain()),
    ]
}

/// The rooms tab: the list, and the keys below it.
pub open spec fn rooms_tab_of(
    rooms: Seq<engine::RoomView>,
    scroll: usize,
    list_area: Area,
    hint_area: Area,
) -> Seq<WidgetView> {
    seq![
        room_list_of(rooms, scroll, list_area),
        WidgetView::Row { area: hint_area, line: room_hints_line() },
    ]
}

fn draw_room_row(room: &RoomInfo) -> (row: Line)
    ensures
        row@ == room_row(room@),
{
    let mut info = concat3(
        "  ",
        decimal_text(room.connected_peers.len() as u64).as_str(),
        " conn, ",
    );
    info.append(decimal_text(room.pending_peers.len() as u64).as_str());
    info.append(" pending");
    let local = if room.is_local {
        piece("\u{2605} local ", bold_colored(Color::Cyan))
    } else {
        piece("\u{2192} joined", colored(Color::Magenta))
    };
    line3(
        piece(pad(room.name.as_str(), 16).as_str(), bold()),
        local,
        piece(info.as_str(), plain()),
    )
}

fn room_hints() -> (line: Line)
    ensures
        line@ == room_hints_line(),
{
    let pieces = vec![
        piece(" [n]", bold_colored(Color::Green)),
        piece(" new  ", plain()),
        piece("[d]", bold_colored(Color::Red)),
        piece(" delete  ", plain()),
        piece("[T]", bold_colored(Color::Cyan)),
        piece(" copy ticket  ", plain()),
        piece("[\u{2191}\u{2193}]", bold_colored(Color::Blue)),
        piece(" scroll", plain()),
    ];
    let line = Line { pieces };
    assert(line@ =~= room_hints_line());
    line
}

/// The rooms tab, in two areas.
pub fn draw_rooms(view: &BsyncViewModel, scroll: usize, list_area: Area, hint_area: Area) -> (widgets:
    Vec<Widget>)
    ensures
        widgets_of(widgets@) == rooms_tab_of(
            engine::rooms_of(view.rooms@),
            scroll,
            list_area,
            hint_area,
        ),
{
    let ghost views = engine::rooms_of(view.rooms@);
    let mut rows: Vec<Line> = Vec::new();
    let mut i: usize = 0;
    while i < view.rooms.len()
        invariant
            i <= view.rooms@.len(),
            rows@.len() == i,
            forall|j: int| 0 <= j < i ==> (#[trigger] rows@[j])@ == room_row(view.rooms@[j]@),
        decreases view.rooms@.len() - i,
    {
        rows.push(draw_room_row(&view.rooms[i]));
        i = i + 1;
    }
    assert(lines_of(rows@) =~= views.map_values(|room: engine::RoomView| room_row(room)));
    let list = Widget::List {
        area: list_area,
        title: counted_title(" Rooms (", view.rooms.len()),
        rows: placeholder(rows, "No rooms. Press 'n' to create one or 'c' to join via ticket."),
        selected: Some(highlight(scroll, view.rooms.len())),
    };
    let widgets = vec![list, Widget::Row { area: hint_area, line: room_hints() }];
    assert(widgets_of(widgets@) =~= rooms_tab_of(views, scroll, list_area, hint_area));
    widgets
}

// ---------------------------------------------------------------------------------------------
// History
// ---------------------------------------------------------------------------------------------

/// An entry: an arrow for its direction, its preview, and who copied it.
pub open spec fn history_row(entry: state::EntryView) -> LineView {
    seq![
        piece_of(
            (if entry.is_local {
                "\u{2192}"@
            } else {
                "\u{2190}"@
            }) + " "@,
            plain(),
        ),
        piece_of(entry.preview, colored(Color::White)),
        piece_of(
            "  ("@ + (if entry.is_local {
                "you"@
            } else {
                entry.origin
            }) + ")"@,
            plain(),
        ),
    ]
}

/// The history tab.
pub open spec fn history_tab_of(
    history: Seq<state::EntryView>,
    scroll: usize,
    area: Area,
) -> Seq<WidgetView> {
    seq![
        WidgetView::List {
            area,
            title: " History "@,
            rows: rows_or(
                history.map_values(|entry: state::EntryView| history_row(entry)),
                "No history yet"@,
            ),
            selected: Some(highlighted(scroll, history.len())),
        },
    ]
}

fn draw_history_row(entry: &ClipboardHistoryEntry) -> (row: Line)
    ensures
        row@ == history_row(entry@),
{
    let arrow = if entry.is_local {
        "\u{2192}"
    } else {
        "\u{2190}"
    };
    let origin = if entry.is_local {
        "you"
    } else {
        entry.origin.as_str()
    };
    line3(
        piece(concat2(arrow, " ").as_str(), plain()),
        piece(entry.preview.as_str(), colored(Color::White)),
        piece(concat3("  (", origin, ")").as_str(), plain()),
    )
}

/// The history tab.
pub fn draw_history(view: &BsyncViewModel, scroll: usize, area: Area) -> (widgets: Vec<Widget>)
    ensures
        widgets_of(widgets@) == history_tab_of(engine::entries(view.history@), scroll, area),
{
    let ghost entries = engine::entries(view.history@);
    let mut rows: Vec<Line> = Vec::new();
    let mut i: usize = 0;
    while i < view.history.len()
        invariant
            i <= view.history@.len(),
            rows@.len() == i,
            forall|j: int| 0 <= j < i ==> (#[trigger] rows@[j])@ == history_row(view.history@[j]@),
        decreases view.history@.len() - i,
    {
        rows.push(draw_history_row(&view.history[i]));
        i = i + 1;
    }
    assert(lines_of(rows@) =~= entries.map_values(|entry: state::EntryView| history_row(entry)));
    let widgets = vec![
        Widget::List {
            area,
            title: " History ".to_owned(),
            rows: placeholder(rows, "No history yet"),
            selected: Some(highlight(scroll, view.history.len())),
        },
    ];
    assert(widgets_of(widgets@) =~= history_tab_of(entries, scroll, area));
    widgets
}

// ---------------------------------------------------------------------------------------------
// Help
// ---------------------------------------------------------------------------------------------

pub open spec fn help_line(keys: Seq<char>, meaning: Seq<char>) -> LineView {
    seq![piece_of(keys, bold_colored(Color::Cyan)), piece_of(meaning, plain())]
}

fn help(keys: &str, meaning: &str) -> (line: Line)
    ensures
        line@ == help_line(keys@, meaning@),
{
    line2(piece(keys, bold_colored(Color::Cyan)), piece(meaning, plain()))
}

/// What the keys do.
pub open spec fn help_keys() -> Seq<LineView> {
    seq![
        seq![piece_of("Keyboard Shortcuts"@, heading())],
        Seq::empty(),
        help_line("  Tab       "@, "Switch to next tab"@),
        help_line("  Shift+Tab "@, "Switch to previous tab"@),
        help_line("  1-5       "@, "Jump to tab directly"@),
        help_line("  \u{2191}/\u{2193}     "@, "Scroll history or rooms list"@),
        help_line("  Enter     "@, "Re-copy selected history item to clipboard"@),
        help_line("  t         "@, "Copy your ticket to clipboard (share with peers)"@),
        help_line("  c         "@, "Open connect dialog (enter ticket)"@),
        help_line("  r         "@, "Open room create dialog"@),
        help_line("  n         "@, "On Rooms tab: create new room"@),
        help_line("  d         "@, "On Rooms tab: delete selected room"@),
        help_line("  y/n       "@, "Approve/reject pending peer"@),
        help_line("  Esc       "@, "Close dialog"@),
        help_line("  q         "@, "Quit bsync"@),
        Seq::empty(),
    ]
}

/// What rooms are.
pub open spec fn help_rooms() -> Seq<LineView> {
    seq![
        seq![piece_of("About Rooms"@, heading())],
        Seq::empty(),
        raw_line("  bsync is a P2P clipboard sync tool using iroh-gossip."@),
        raw_line("  Your clipboard is shared with all connected peers."@),
        raw_line("  Rooms provide logical isolation \u{2014} peers in room 'work'"@),
        raw_line("  can't see peers in room 'home' and vice versa."@),
        Seq::empty(),
        raw_line("  \u{2605} local  = you created this room, you have a ticket"@),
        raw_line("  \u{2192} joined = you connected to someone else's room"@),
        Seq::empty(),
        seq![
            piece_of("  Ticket: "@, bold()),
            piece_of("base64-encoded connection info (public, not secret)"@, plain()),
        ],
    ]
}

/// The help tab.
pub open spec fn help_tab_of(area: Area) -> Seq<WidgetView> {
    seq![
        WidgetView::Panel {
            area,
            title: " Help "@,
            border: None,
            padding: 1,
            lines: help_keys() + help_rooms(),
        },
    ]
}

fn draw_help_keys() -> (lines: Vec<Line>)
    ensures
        lines_of(lines@) == help_keys(),
{
    let lines = vec![
        line1(piece("Keyboard Shortcuts", heading())),
        empty_line(),
        help("  Tab       ", "Switch to next tab"),
        help("  Shift+Tab ", "Switch to previous tab"),
        help("  1-5       ", "Jump to tab directly"),
        help("  \u{2191}/\u{2193}     ", "Scroll history or rooms list"),
        help("  Enter     ", "Re-copy selected history item to clipboard"),
        help("  t         ", "Copy your ticket to clipboard (share with peers)"),
        help("  c         ", "Open connect dialog (enter ticket)"),
        help("  r         ", "Open room create dialog"),
        help("  n         ", "On Rooms tab: create new room"),
        help("  d         ", "On Rooms tab: delete selected room"),
        help("  y/n       ", "Approve/reject pending peer"),
        help("  Esc       ", "Close dialog"),
        help("  q         ", "Quit bsync"),
        empty_line(),
    ];
    assert(lines_of(lines@) =~= help_keys());
    lines
}

fn draw_help_rooms() -> (lines: Vec<Line>)
    ensures
        lines_of(lines@) == help_rooms(),
{
    let lines = vec![
        line1(piece("About Rooms", heading())),
        empty_line(),
        raw("  bsync is a P2P clipboard sync tool using iroh-gossip."),
        raw("  Your clipboard is shared with all connected peers."),
        raw("  Rooms provide logical isolation \u{2014} peers in room 'work'"),
        raw("  can't see peers in room 'home' and vice versa."),
        empty_line(),
        raw("  \u{2605} local  = you created this room, you have a ticket"),
        raw("  \u{2192} joined = you connected to someone else's room"),
        empty_line(),
        line2(
            piece("  Ticket: ", bold()),
            piece("base64-encoded connection info (public, not secret)", plain()),
        ),
    ];
    assert(lines_of(lines@) =~= help_rooms());
    lines
}

/// The help tab.
pub fn draw_help(area: Area) -> (widgets: Vec<Widget>)
    ensures
        widgets_of(widgets@) == help_tab_of(area),
{
    let mut lines = draw_help_keys();
    let ghost keys = lines@;
    let mut rooms = draw_help_rooms();
    let ghost about = rooms@;
    lines.append(&mut rooms);
    assert(lines_of(lines@) =~= lines_of(keys) + lines_of(about));
    let widgets = vec![
        Widget::Panel { area, title: " Help ".to_owned(), border: None, padding: 1, lines },
    ];
    assert(widgets_of(widgets@) =~= help_tab_of(area));
    widgets
}

// ---------------------------------------------------------------------------------------------
// Dialogs
// ---------------------------------------------------------------------------------------------

/// How many bytes of a peer id are shown when the user is asked to approve it.
pub const SHOWN_PEER_LEN: usize = 20;

/// The title of a dialog.
pub open spec fn dialog_title(dialog: tui::DialogView) -> Seq<char> {
    match dialog {
        tui::DialogView::Approval { .. } => " Peer Approval "@,
        tui::DialogView::ConnectInput { .. } => " Connect to Peer "@,
        tui::DialogView::RoomCreate { .. } => " Create Room "@,
        tui::DialogView::RoomDelete { .. } => " Delete Room "@,
        tui::DialogView::Error { .. } => " Error "@,
        tui::DialogView::Info { .. } => " Info "@,
    }
}

/// The height of a dialog, with its border.
pub open spec fn dialog_height(dialog: tui::DialogView) -> u16 {
    match dialog {
        tui::DialogView::Approval { .. } => 8,
        tui::DialogView::ConnectInput { .. } => 9,
        tui::DialogView::RoomCreate { .. } => 9,
        tui::DialogView::RoomDelete { .. } => 7,
        tui::DialogView::Error { .. } => 6,
        tui::DialogView::Info { .. } => 6,
    }
}

/// An input line with its cursor.
pub open spec fn input_line(input: Seq<char>) -> LineView {
    seq![
        piece_of("> "@, bold_colored(Color::Cyan)),
        piece_of(input, plain()),
        piece_of("_"@, colored(Color::Cyan)),
    ]
}

/// The lines of a dialog.
pub open spec fn dialog_lines(dialog: tui::DialogView) -> Seq<LineView> {
    match dialog {
        tui::DialogView::Approval { room, peer_id } => seq![
            Seq::empty(),
            seq![
                piece_of("Peer "@, plain()),
                piece_of(
                    text::byte_head(peer_id, SHOWN_PEER_LEN as nat),
                    bold_colored(Color::Yellow),
                ),
                piece_of(" wants to connect in room '"@ + room + "'."@, plain()),
            ],
            Seq::empty(),
            raw_line("They will be able to see your clipboard."@),
            Seq::empty(),
            seq![
                piece_of("[y]"@, bold_colored(Color::Green)),
                piece_of(" Allow   "@, plain()),
                piece_of("[n]"@, bold_colored(Color::Red)),
                piece_of(" Reject   "@, plain()),
                piece_of("[Esc]"@, colored(Color::DarkGray)),
                piece_of(" Cancel"@, plain()),
            ],
        ],
        tui::DialogView::ConnectInput { input } => seq![
            Seq::empty(),
            raw_line("Enter the ticket from the peer you want to connect to:"@),
            Seq::empty(),
            input_line(input),
            Seq::empty(),
            seq![
                piece_of("[Enter]"@, bold_colored(Color::Green)),
                piece_of(" Connect   "@, plain()),
                piece_of("[Esc]"@, colored(Color::DarkGray)),
                piece_of(" Cancel"@, plain()),
            ],
        ],
        tui::DialogView::RoomCreate { input } => seq![
            Seq::empty(),
            raw_line("Enter a name for the new room:"@),
            Seq::empty(),
            input_line(input),
            Seq::empty(),
            seq![
                piece_of("[Enter]"@, bold_colored(Color::Green)),
                piece_of(" Create   "@, plain()),
                piece_of("[Esc]"@, colored(Color::DarkGray)),
                piece_of(" Cancel"@, plain()),
            ],
        ],
        tui::DialogView::RoomDelete { room } => seq![
            Seq::empty(),
            seq![
                piece_of("Delete room '"@, plain()),
                piece_of(room, bold_colored(Color::Red)),
                piece_of("'?"@, plain()),
            ],
            raw_line("All connections in this room will be dropped."@),
            Seq::empty(),
            seq![
                piece_of("[y]"@, bold_colored(Color::Red)),
                piece_of(" Delete   "@, plain()),
                piece_of("[n]"@, colored(Color::DarkGray)),
                piece_of(" Cancel"@, plain()),
            ],
        ],
        tui::DialogView::Error { message } => seq![
            Seq::empty(),
            seq![piece_of(message, colored(Color::Red))],
            Seq::empty(),
            seq![
                piece_of("[Enter]"@, bold_colored(Color::Yellow)),
                piece_of(" Dismiss"@, plain()),
            ],
        ],
        tui::DialogView::Info { message } => seq![
            Seq::empty(),
            raw_line(message),
            Seq::empty(),
            seq![
                piece_of("[Enter]"@, bold_colored(Color::Cyan)),
                piece_of(" Dismiss"@, plain()),
            ],
        ],
    }
}

/// Whether a dialog can be shown: the id of a peer must not have a character over the place where
/// it is cut.
pub open spec fn dialog_fits(dialog: tui::DialogView) -> bool {
    dialog matches tui::DialogView::Approval { peer_id, .. } ==> text::cuts_cleanly(
        peer_id,
        SHOWN_PEER_LEN as nat,
    )
}

/// A dialog in the middle of the screen.
pub open spec fn dialog_box_of(dialog: tui::DialogView, area: Area) -> WidgetView {
    WidgetView::Popup {
        area: popup_area(area, dialog_height(dialog)),
        title: dialog_title(dialog),
        border: Color::Cyan,
        lines: dialog_lines(dialog),
    }
}

fn input_row(input: &String) -> (line: Line)
    ensures
        line@ == input_line(input@),
{
    line3(
        piece("> ", bold_colored(Color::Cyan)),
        piece(input.as_str(), plain()),
        piece("_", colored(Color::Cyan)),
    )
}

/// The lines of the dialog that asks for approval.
fn approval_lines(room: &String, peer_id: &String) -> (lines: Vec<Line>)
    requires
        text::cuts_cleanly(peer_id@, SHOWN_PEER_LEN as nat),
    ensures
        lines_of(lines@) == dialog_lines(
            tui::DialogView::Approval { room: room@, peer_id: peer_id@ },
        ),
{
    let short_id = take_bytes(peer_id.as_str(), SHOWN_PEER_LEN);
    let answers = Line {
        pieces: vec![
            piece("[y]", bold_colored(Color::Green)),
            piece(" Allow   ", plain()),
            piece("[n]", bold_colored(Color::Red)),
            piece(" Reject   ", plain()),
            piece("[Esc]", colored(Color::DarkGray)),
            piece(" Cancel", plain()),
        ],
    };
    let ghost expected = dialog_lines(
        tui::DialogView::Approval { room: room@, peer_id: peer_id@ },
    );
    assert(answers@ =~= expected[5]);
    let lines = vec![
        empty_line(),
        line3(
            piece("Peer ", plain()),
            piece(short_id.as_str(), bold_colored(Color::Yellow)),
            piece(
                concat3(" wants to connect in room '", room.as_str(), "'.").as_str(),
                plain(),
            ),
        ),
        empty_line(),
        raw("They will be able to see your clipboard."),
        empty_line(),
        answers,
    ];
    assert(lines_of(lines@) =~= expected);
    lines
}

/// The lines of any other dialog.
fn other_lines(dialog: &Dialog) -> (lines: Vec<Line>)
    requires
        !(dialog@ is Approval),
    ensures
        lines_of(lines@) == dialog_lines(dialog@),
{
    let lines = match dialog {
        Dialog::Approval { .. } => Vec::new(),
        Dialog::ConnectInput { input } => vec![
            empty_line(),
            raw("Enter the ticket from the peer you want to connect to:"),
            empty_line(),
            input_row(input),
            empty_line(),
            line4(
                piece("[Enter]", bold_colored(Color::Green)),
                piece(" Connect   ", plain()),
                piece("[Esc]", colored(Color::DarkGray)),
                piece(" Cancel", plain()),
            ),
        ],
        Dialog::RoomCreate { input } => vec![
            empty_line(),
            raw("Enter a name for the new room:"),
            empty_line(),
            input_row(input),
            empty_line(),
            line4(
                piece("[Enter]", bold_colored(Color::Green)),
                piece(" Create   ", plain()),
                piece("[Esc]", colored(Color::DarkGray)),
                piece(" Cancel", plain()),
            ),
        ],
        Dialog::RoomDelete { room } => vec![
            empty_line(),
            line3(
                piece("Delete room '", plain()),
                piece(room.as_str(), bold_colored(Color::Red)),
                piece("'?", plain()),
            ),
            raw("All connections in this room will be dropped."),
            empty_line(),
            line4(
                piece("[y]", bold_colored(Color::Red)),
                piece(" Delete   ", plain()),
                piece("[n]", colored(Color::DarkGray)),
                piece(" Cancel", plain()),
            ),
        ],
        Dialog::Error { message } => vec![
            empty_line(),
            line1(piece(message.as_str(), colored(Color::Red))),
            empty_line(),
            line2(piece("[Enter]", bold_colored(Color::Yellow)), piece(" Dismiss", plain())),
        ],
        Dialog::Info { message } => vec![
            empty_line(),
            raw(message.as_str()),
            empty_line(),
            line2(piece("[Enter]", bold_colored(Color::Cyan)), piece(" Dismiss", plain())),
        ],
    };
    assert(lines_of(lines@) =~= dialog_lines(dialog@));
    lines
}

fn title_and_height(dialog: &Dialog) -> (shown: (&'static str, u16))
    ensures
        shown.0@ == dialog_title(dialog@),
        shown.1 == dialog_height(dialog@),
{
    match dialog {
        Dialog::Approval { .. } => (" Peer Approval ", 8),
        Dialog::ConnectInput { .. } => (" Connect to Peer ", 9),
        Dialog::RoomCreate { .. } => (" Create Room ", 9),
        Dialog::RoomDelete { .. } => (" Delete Room ", 7),
        Dialog::Error { .. } => (" Error ", 6),
        Dialog::Info { .. } => (" Info ", 6),
    }
}

/// Whether a dialog can be shown (see `dialog_fits`).
pub fn can_draw_dialog(dialog: &Dialog) -> (fits: bool)
    ensures
        fits == dialog_fits(dialog@),
{
    match dialog {
        Dialog::Approval { peer_id, .. } => can_cut(peer_id.as_str(), SHOWN_PEER_LEN),
        _ => true,
    }
}

/// A dialog in the middle of the screen.
pub fn draw_dialog(dialog: &Dialog, area: Area) -> (widget: Widget)
    requires
        on_screen(area),
        dialog_fits(dialog@),
    ensures
        widget@ == dialog_box_of(dialog@, area),
{
    let (title, height) = title_and_height(dialog);
    let lines = match dialog {
        Dialog::Approval { room, peer_id } => approval_lines(room, peer_id),
        other => other_lines(other),
    };
    Widget::Popup {
        area: popup(area, height),
        title: title.to_owned(),
        border: Color::Cyan,
        lines,
    }
}

// ---------------------------------------------------------------------------------------------
// The screen
// ---------------------------------------------------------------------------------------------

/// Where the parts of the screen are.
#[derive(Debug, Clone, Copy, PartialEq, Eq, Structural)]
pub struct Places {
    pub tab_bar: Area,
    pub content: Area,
    /// The upper part of the content, for a tab that has two.
    pub upper: Area,
    /// The lower part.
    pub lower: Area,
}

/// How the content of a tab is divided, if it has two parts: what the upper and the lower part ask
/// for.
pub open spec fn rules_of(tab: Tab) -> Option<(Size, Size)> {
    match tab {
        Tab::Status => Some((Size::Min(1), Size::Length(5))),
        Tab::Peers => Some((Size::Percentage(60), Size::Min(1))),
        Tab::Rooms => Some((Size::Min(1), Size::Length(1))),
        Tab::History => None,
        Tab::Help => None,
    }
}

/// How the content of a tab is divided, if it has two parts.
pub fn rules(tab: Tab) -> (rules: Option<(Size, Size)>)
    ensures
        rules == rules_of(tab),
{
    match tab {
        Tab::Status => Some((Size::Min(1), Size::Length(5))),
        Tab::Peers => Some((Size::Percentage(60), Size::Min(1))),
        Tab::Rooms => Some((Size::Min(1), Size::Length(1))),
        Tab::History => None,
        Tab::Help => None,
    }
}

/// The parts of the screen for a tab: inside the frame, three rows of tabs over the content, and the
/// content divided as the tab asks for.
pub open spec fn are_places(places: Places, tab: Tab, area: Area) -> bool {
    &&& stacked(inner_of(area), Size::Length(3), Size::Min(1), places.tab_bar, places.content)
    &&& match rules_of(tab) {
        Some((first, second)) => stacked(
            places.content,
            first,
            second,
            places.upper,
            places.lower,
        ),
        None => places.upper == places.content && places.lower == places.content,
    }
}

/// The content of the current tab.
pub open spec fn content_of(a: tui::AppState, places: Places) -> Seq<WidgetView> {
    let rooms = engine::core_rooms(a.core);
    match a.tab {
        Tab::Status => status_of(a.core.peer_id, rooms, places.upper, places.lower),
        Tab::Peers => peers_tab_of(rooms, places.upper, places.lower),
        Tab::Rooms => rooms_tab_of(rooms, a.rooms_scroll, places.upper, places.lower),
        Tab::History => history_tab_of(tui::shown_history(a), a.history_scroll, places.content),
        Tab::Help => help_tab_of(places.content),
    }
}

/// The dialog, if one is open.
pub open spec fn dialog_part(dialog: Option<tui::DialogView>, area: Area) -> Seq<WidgetView> {
    match dialog {
        Some(shown) => seq![dialog_box_of(shown, area)],
        None => Seq::empty(),
    }
}

/// The notification, if there is one.
pub open spec fn notice_part(notification: Option<Seq<char>>, area: Area) -> Seq<WidgetView> {
    match notification {
        Some(text) => seq![
            WidgetView::Notice { area: notice_area(area, text), text, style: notice_style() },
        ],
        None => Seq::empty(),
    }
}

/// The whole screen, from back to front.
pub open spec fn screen_of(a: tui::AppState, area: Area, places: Places) -> Seq<WidgetView> {
    seq![frame_of(area), tabs_of(a.tab, places.tab_bar)] + content_of(a, places) + dialog_part(
        a.dialog,
        area,
    ) + notice_part(a.notification, area)
}

/// Whether the screen can be drawn: its edges can be numbered, the peers that it counts can be
/// counted, and the dialog can be shown.
pub open spec fn drawable(a: tui::AppState, area: Area) -> bool {
    &&& on_screen(area)
    &&& a.tab == Tab::Status ==> countable(engine::core_rooms(a.core))
    &&& a.dialog is Some ==> dialog_fits(a.dialog->0)
}

/// Whether the screen can be drawn (see `drawable`).
pub fn can_draw(app: &App, area: Area) -> (fits: bool)
    ensures
        fits == drawable(app.state(), area),
{
    let numbered = area.width <= u16::MAX - area.x && area.height <= u16::MAX - area.y;
    let counted = app.tab != Tab::Status || can_count(&app.view().rooms);
    match &app.dialog {
        Some(dialog) => numbered && counted && can_draw_dialog(dialog),
        None => numbered && counted,
    }
}

fn draw_content(app: &App, places: Places) -> (widgets: Vec<Widget>)
    requires
        app.tab == Tab::Status ==> countable(engine::core_rooms(app.core.state())),
    ensures
        widgets_of(widgets@) == content_of(app.state(), places),
{
    let view = app.view();
    match app.tab {
        Tab::Status => draw_status(&view, places.upper, places.lower),
        Tab::Peers => draw_peers(&view, places.upper, places.lower),
        Tab::Rooms => draw_rooms(&view, app.rooms_scroll, places.upper, places.lower),
        Tab::History => draw_history(&view, app.history_scroll, places.content),
        Tab::Help => draw_help(places.content),
    }
}

/// The whole screen, from back to front, with its parts at these places.
pub fn compose(app: &App, area: Area, places: Places) -> (widgets: Vec<Widget>)
    requires
        drawable(app.state(), area),
    ensures
        widgets_of(widgets@) == screen_of(app.state(), area, places),
{
    let mut widgets = vec![frame(area), draw_tabs(app.tab, places.tab_bar)];
    let ghost first = widgets@;
    assert(widgets_of(first) =~= seq![frame_of(area), tabs_of(app.tab, places.tab_bar)]);
    let mut content = draw_content(app, places);
    let ghost second = content@;
    widgets.append(&mut content);
    let ghost upto = widgets@;
    assert(widgets_of(upto) =~= widgets_of(first) + widgets_of(second));
    if let Some(dialog) = &app.dialog {
        widgets.push(draw_dialog(dialog, area));
    }
    let ghost with_dialog = widgets@;
    assert(widgets_of(with_dialog) =~= widgets_of(upto) + dialog_part(app.state().dialog, area));
    if let Some(message) = &app.notification {
        widgets.push(
            Widget::Notice {
                area: notice_place(area, message.as_str()),
                text: message.clone(),
                style: notice_style(),
            },
        );
    }
    assert(widgets_of(widgets@) =~= widgets_of(with_dialog) + notice_part(
        app.state().notification,
        area,
    ));
    widgets
}

/// The places of the parts of the screen.
pub fn arrange(tab: Tab, area: Area) -> (places: Places)
    requires
        on_screen(area),
    ensures
        are_places(places, tab, area),
{
    let inner = inside_border(area);
    let (tab_bar, content) = split(inner, Size::Length(3), Size::Min(1));
    let (upper, lower) = match rules(tab) {
        Some((first, second)) => split(content, first, second),
        None => (content, content),
    };
    Places { tab_bar, content, upper, lower }
}

/// The whole screen, from back to front.
pub fn draw(app: &App, area: Area) -> (widgets: Vec<Widget>)
    requires
        drawable(app.state(), area),
    ensures
        exists|places: Places|
            are_places(places, app.tab, area) && widgets_of(widgets@) == #[trigger] screen_of(
                app.state(),
                area,
                places,
            ),
{
    let places = arrange(app.tab, area);
    compose(app, area, places)
}

// ---------------------------------------------------------------------------------------------
// Laws
// ---------------------------------------------------------------------------------------------

/// On a screen that is high enough, the tabs take three rows inside the frame and the content all
/// the rows below them; the warning takes the last five rows of the status tab, the hints take the
/// last row of the rooms tab, and the connected peers take three fifths of the peers tab.
pub proof fn law_rows(places: Places, tab: Tab, area: Area)
    requires
        on_screen(area),
        area.height >= 11,
        are_places(places, tab, area),
    ensures
        places.tab_bar.y == area.y + 1,
        places.tab_bar.height == 3,
        places.content.y == area.y + 4,
        places.content.height == area.height - 5,
        tab == Tab::Status ==> places.lower.height == 5 && places.upper.height == area.height - 10,
        tab == Tab::Rooms ==> places.lower.height == 1 && places.upper.height == area.height - 6,
        tab == Tab::Peers ==> places.upper.height == (60 * (area.height - 5) + 50) / 100
            && places.upper.height + places.lower.height == area.height - 5,
{
}

/// A dialog that the screen is high enough for lies on the screen.
pub proof fn law_popup_on_screen(area: Area, height: u16)
    requires
        on_screen(area),
        height <= area.height,
    ensures
        ({
            let place = popup_area(area, height);
            &&& area.x <= place.x && place.x + place.width <= area.x + area.width
            &&& area.y <= place.y && place.y + place.height <= area.y + area.height
            &&& place.height == height
        }),
{
}

/// A notification that the screen is wide and high enough for lies on the screen.
pub proof fn law_notice_on_screen(area: Area, message: Seq<char>)
    requires
        on_screen(area),
        area.width >= notice_width(message) + 2,
        area.height >= 2,
    ensures
        ({
            let place = notice_area(area, message);
            &&& area.x <= place.x && place.x + place.width <= area.x + area.width
            &&& area.y <= place.y && place.y + place.height <= area.y + area.height
        }),
{
}

/// What is selected in a list that is not empty is in the list.
pub proof fn law_selection_in_list(scroll: usize, len: nat)
    requires
        len > 0,
    ensures
        0 <= highlighted(scroll, len) < len,
        highlighted(scroll, len) == tui::selected(scroll, len),
{
}

/// Whether a line shows a peer of a room.
pub open spec fn shows_peer(line: LineView, room: Seq<char>, peer: Seq<char>, color: Color) -> bool {
    &&& line.len() == 2
    &&& text::occurs_in(room, line[0].text)
    &&& line[1].text == peer
    &&& line[1].style.fg == Some(color)
}

proof fn lemma_peer_rows_len(rooms: Seq<engine::RoomView>, pending: bool, color: Color)
    ensures
        peer_rows(rooms, pending, color).len() == peer_total(rooms, pending),
    decreases rooms.len(),
{
    if rooms.len() > 0 {
        lemma_peer_rows_len(rooms.drop_last(), pending, color);
    }
}

/// The number of peers of some rooms: none of no rooms, and with one more room the peers of that room
/// more.
pub proof fn law_peers_are_counted(
    rooms: Seq<engine::RoomView>,
    room: engine::RoomView,
)
    ensures
        peer_total(Seq::empty(), false) == 0,
        peer_total(Seq::empty(), true) == 0,
        peer_total(rooms.push(room), false) == peer_total(rooms, false)
            + room.connected_peers.len(),
        peer_total(rooms.push(room), true) == peer_total(rooms, true) + room.pending_peers.len(),
{
    assert(rooms.push(room).drop_last() =~= rooms);
}

/// Every peer of every room has a row of its own on the peers tab, with the name of the room and its
/// own: the connected ones in green in the upper list, the pending ones in yellow in the lower. The
/// rows stand in the order of the rooms and of their peers, and there are no others.
pub proof fn law_every_peer_is_listed(
    rooms: Seq<engine::RoomView>,
    pending: bool,
    color: Color,
    i: int,
    j: int,
)
    requires
        0 <= i < rooms.len(),
        0 <= j < (if pending {
            rooms[i].pending_peers
        } else {
            rooms[i].connected_peers
        }).len(),
    ensures
        ({
            let rows = peer_rows(rooms, pending, color);
            let at = peer_total(rooms.take(i), pending) + j;
            let peer = if pending {
                rooms[i].pending_peers[j]
            } else {
                rooms[i].connected_peers[j]
            };
            &&& rows.len() == peer_total(rooms, pending)
            &&& 0 <= at < rows.len()
            &&& shows_peer(rows[at], rooms[i].name, peer, color)
        }),
    decreases rooms.len(),
{
    lemma_peer_rows_len(rooms, pending, color);
    let init = rooms.drop_last();
    lemma_peer_rows_len(init, pending, color);
    if i < init.len() {
        law_every_peer_is_listed(init, pending, color, i, j);
        assert(init.take(i) =~= rooms.take(i));
    } else {
        assert(rooms.take(i) =~= init);
        text::lemma_occurs("["@, rooms[i].name, "] "@);
    }
}

/// The two lists of the peers tab: the connected peers above, the pending ones below, each with their
/// number in the title; a list without peers says so in one line.
pub proof fn law_peers_tab(rooms: Seq<engine::RoomView>, upper: Area, lower: Area)
    ensures
        ({
            let widgets = peers_tab_of(rooms, upper, lower);
            let connected = peer_rows(rooms, false, Color::Green);
            let pending = peer_rows(rooms, true, Color::Yellow);
            &&& widgets.len() == 2
            &&& widgets[0] is List && widgets[1] is List
            &&& widgets[0]->List_area == upper
            &&& widgets[1]->List_area == lower
            &&& connected.len() > 0 ==> widgets[0]->List_rows == connected
            &&& pending.len() > 0 ==> widgets[1]->List_rows == pending
            &&& connected.len() == 0 ==> widgets[0]->List_rows.len() == 1
            &&& pending.len() == 0 ==> widgets[1]->List_rows.len() == 1
            &&& text::occurs_in(
                text::decimal(peer_total(rooms, false)),
                widgets[0]->List_title,
            )
            &&& text::occurs_in(text::decimal(peer_total(rooms, true)), widgets[1]->List_title)
            &&& widgets[0]->List_selected is None && widgets[1]->List_selected is None
        }),
{
    lemma_peer_rows_len(rooms, false, Color::Green);
    lemma_peer_rows_len(rooms, true, Color::Yellow);
    text::lemma_occurs(" Connected ("@, text::decimal(peer_total(rooms, false)), ") "@);
    text::lemma_occurs(" Pending ("@, text::decimal(peer_total(rooms, true)), ") "@);
}

/// A padded text is the text itself, and then blanks up to the width.
pub proof fn law_padding(s: Seq<char>, width: nat)
    ensures
        padded(s, width).len() == if s.len() < width {
            width
        } else {
            s.len()
        },
        s.is_prefix_of(padded(s, width)),
        text::is_blank(padded(s, width).skip(s.len() as int)),
{
    let out = padded(s, width);
    assert(out.subrange(0, s.len() as int) =~= s);
    assert forall|i: int| 0 <= i < out.len() - s.len() implies text::white_space(
        #[trigger] out.skip(s.len() as int)[i],
    ) by {
        assert(out.skip(s.len() as int)[i] == ' ');
    }
}

proof fn lemma_peer_counts(conn: Seq<char>, pend: Seq<char>)
    ensures
        text::occurs_in(conn, "  "@ + conn + " conn, "@ + pend + " pending"@),
        text::occurs_in(pend + " pending"@, "  "@ + conn + " conn, "@ + pend + " pending"@),
{
    text::lemma_occurs_second("  "@, conn, " conn, "@, pend, " pending"@);
    text::lemma_occurs_last("  "@, conn, " conn, "@, pend, " pending"@);
}

proof fn lemma_room_row(room: engine::RoomView)
    ensures
        ({
            let row = room_row(room);
            &&& row.len() == 3
            &&& room.name.is_prefix_of(row[0].text)
            &&& text::is_blank(row[0].text.skip(room.name.len() as int))
            &&& room.is_local ==> row[1].text == "\u{2605} local "@
            &&& !room.is_local ==> row[1].text == "\u{2192} joined"@
            &&& text::occurs_in(text::decimal(room.connected_peers.len()), row[2].text)
            &&& text::occurs_in(
                text::decimal(room.pending_peers.len()) + " pending"@,
                row[2].text,
            )
        }),
{
    law_padding(room.name, 16);
    lemma_peer_counts(
        text::decimal(room.connected_peers.len()),
        text::decimal(room.pending_peers.len()),
    );
}

/// The rooms tab has a row for each room, in order, with its name, whether it was made here, and how
/// many of its peers are connected and pending. The row of the scroll position is selected, or the
/// last where the position is beyond the end: the room that the keys of the tab are about.
pub proof fn law_every_room_is_listed(
    rooms: Seq<engine::RoomView>,
    scroll: usize,
    upper: Area,
    lower: Area,
    i: int,
)
    requires
        0 <= i < rooms.len(),
    ensures
        ({
            let list = rooms_tab_of(rooms, scroll, upper, lower)[0];
            let row = list->List_rows[i];
            &&& list is List
            &&& list->List_area == upper
            &&& list->List_rows.len() == rooms.len()
            &&& list->List_selected == Some(
                if scroll < rooms.len() {
                    scroll as int
                } else {
                    rooms.len() - 1
                },
            )
            &&& text::occurs_in(text::decimal(rooms.len()), list->List_title)
            &&& row.len() == 3
            &&& rooms[i].name.is_prefix_of(row[0].text)
            &&& text::is_blank(row[0].text.skip(rooms[i].name.len() as int))
            &&& rooms[i].is_local ==> row[1].text == "\u{2605} local "@
            &&& !rooms[i].is_local ==> row[1].text == "\u{2192} joined"@
            &&& text::occurs_in(text::decimal(rooms[i].connected_peers.len()), row[2].text)
            &&& text::occurs_in(
                text::decimal(rooms[i].pending_peers.len()) + " pending"@,
                row[2].text,
            )
            &&& rooms_tab_of(rooms, scroll, upper, lower).len() == 2
            &&& rooms_tab_of(rooms, scroll, upper, lower)[1] is Row
            &&& rooms_tab_of(rooms, scroll, upper, lower)[1]->Row_area == lower
        }),
{
    let views = rooms.map_values(|room: engine::RoomView| room_row(room));
    let list = room_list_of(rooms, scroll, upper);
    assert(list->List_rows == views);
    assert(views[i] == room_row(rooms[i]));
    lemma_room_row(rooms[i]);
    text::lemma_occurs(" Rooms ("@, text::decimal(rooms.len()), ") "@);
}

/// The history tab has a row for each entry, in the order in which they are given, with its preview,
/// an arrow that says whether it was sent or received, and who copied it. The row of the scroll
/// position is selected, or the last where the position is beyond the end.
pub proof fn law_every_entry_is_listed(
    history: Seq<state::EntryView>,
    scroll: usize,
    area: Area,
    i: int,
)
    requires
        0 <= i < history.len(),
    ensures
        ({
            let list = history_tab_of(history, scroll, area)[0];
            let row = list->List_rows[i];
            &&& history_tab_of(history, scroll, area).len() == 1
            &&& list is List
            &&& list->List_area == area
            &&& list->List_rows.len() == history.len()
            &&& list->List_selected == Some(
                if scroll < history.len() {
                    scroll as int
                } else {
                    history.len() - 1
                },
            )
            &&& row.len() == 3
            &&& history[i].is_local ==> row[0].text == "\u{2192}"@ + " "@
            &&& !history[i].is_local ==> row[0].text == "\u{2190}"@ + " "@
            &&& row[1].text == history[i].preview
            &&& history[i].is_local ==> text::occurs_in("you"@, row[2].text)
            &&& !history[i].is_local ==> text::occurs_in(history[i].origin, row[2].text)
        }),
{
    text::lemma_occurs("  ("@, "you"@, ")"@);
    text::lemma_occurs("  ("@, history[i].origin, ")"@);
}

proof fn lemma_rooms_text(rooms: Seq<engine::RoomView>, i: int)
    requires
        0 <= i < rooms.len(),
    ensures
        text::occurs_in(badge_of(rooms[i].is_local) + " "@ + rooms[i].name, rooms_text(rooms)),
    decreases rooms.len(),
{
    let init = rooms.drop_last();
    let last = badge_of(rooms.last().is_local) + " "@ + rooms.last().name;
    let part = badge_of(rooms[i].is_local) + " "@ + rooms[i].name;
    if i < init.len() {
        lemma_rooms_text(init, i);
        let before = rooms_text(init);
        let at = choose|at: int|
            0 <= at <= before.len() - part.len() && #[trigger] before.subrange(
                at,
                at + part.len(),
            ) == part;
        assert(rooms_text(rooms).subrange(at, at + part.len()) =~= before.subrange(
            at,
            at + part.len(),
        ));
    } else if rooms.len() == 1 {
        text::lemma_occurs(Seq::empty(), part, Seq::empty());
        assert(Seq::<char>::empty() + part + Seq::<char>::empty() =~= rooms_text(rooms));
    } else {
        text::lemma_occurs(rooms_text(init) + ", "@, part, Seq::empty());
        assert(rooms_text(init) + ", "@ + part + Seq::<char>::empty() =~= rooms_text(rooms));
    }
}

/// The status tab shows the peer id, a ticket by which others reach this core, all rooms with a mark
/// for those that were made here, and how many peers are connected and pending in all of them; and
/// below that, always, the warning.
pub proof fn law_status_tells_all(s: state::CoreState, upper: Area, lower: Area, i: int, k: int)
    requires
        0 <= i < s.rooms.len(),
        0 <= k < s.rooms.len(),
        s.rooms[k].is_local,
        forall|j: int| 0 <= j < k ==> !(#[trigger] s.rooms[j]).is_local,
    ensures
        ({
            let rooms = engine::core_rooms(s);
            let widgets = status_of(s.peer_id, rooms, upper, lower);
            let lines = widgets[0]->Panel_lines;
            let mark = if s.rooms[i].is_local {
                "\u{2605}"@
            } else {
                "\u{2192}"@
            };
            &&& widgets.len() == 2
            &&& widgets[0] is Panel && widgets[1] is Panel
            &&& widgets[0]->Panel_area == upper
            &&& widgets[1]->Panel_area == lower
            &&& lines.len() == 7
            &&& lines[0][1].text == s.peer_id
            &&& lines[2][1].text == laws::invitation(s, s.rooms[k].name)
            &&& text::occurs_in(mark + " "@ + s.rooms[i].name, lines[4][1].text)
            &&& text::occurs_in(
                text::decimal(peer_total(rooms, false)) + " connected"@,
                lines[6][0].text,
            )
            &&& text::occurs_in(
                text::decimal(peer_total(rooms, true)) + " pending"@,
                lines[6][0].text,
            )
            &&& widgets[1]->Panel_lines == security_lines()
        }),
{
    let rooms = engine::core_rooms(s);
    tui::law_own_ticket_is_copied(s, k);
    lemma_rooms_text(rooms, i);
    let widgets = status_of(s.peer_id, rooms, upper, lower);
    let line = widgets[0]->Panel_lines[6][0].text;
    let conn = text::decimal(peer_total(rooms, false));
    let pend = text::decimal(peer_total(rooms, true));
    reveal_strlit(" connected, ");
    reveal_strlit(" connected");
    reveal_strlit(", ");
    reveal_strlit(" pending across all rooms");
    reveal_strlit(" pending");
    reveal_strlit(" across all rooms");
    assert(" connected, "@ =~= " connected"@ + ", "@);
    assert(" pending across all rooms"@ =~= " pending"@ + " across all rooms"@);
    text::lemma_occurs(
        Seq::empty(),
        conn + " connected"@,
        ", "@ + pend + " pending across all rooms"@,
    );
    assert(Seq::<char>::empty() + (conn + " connected"@) + (", "@ + pend
        + " pending across all rooms"@) =~= line);
    text::lemma_occurs(
        conn + " connected, "@,
        pend + " pending"@,
        " across all rooms"@,
    );
    assert(conn + " connected, "@ + (pend + " pending"@) + " across all rooms"@ =~= line);
}

/// Whether a dialog holds a text in one of its lines.
pub open spec fn dialog_tells(dialog: tui::DialogView, part: Seq<char>) -> bool {
    exists|i: int, j: int|
        0 <= i < dialog_lines(dialog).len() && 0 <= j < dialog_lines(dialog)[i].len()
            && text::occurs_in(part, #[trigger] dialog_lines(dialog)[i][j].text)
}

proof fn lemma_dialog_tells(dialog: tui::DialogView, part: Seq<char>, i: int, j: int)
    requires
        0 <= i < dialog_lines(dialog).len(),
        0 <= j < dialog_lines(dialog)[i].len(),
        dialog_lines(dialog)[i][j].text == part,
    ensures
        dialog_tells(dialog, part),
{
    text::lemma_occurs(Seq::empty(), part, Seq::empty());
    assert(Seq::<char>::empty() + part + Seq::<char>::empty() =~= part);
    assert(text::occurs_in(part, dialog_lines(dialog)[i][j].text));
}

/// A dialog shows what it is about: the question about a peer its room and the head of its id, the
/// other question the room, an input what was typed so far, and a message the whole message.
pub proof fn law_dialog_shows_what_it_is_about(dialog: tui::DialogView, area: Area)
    ensures
        match dialog {
            tui::DialogView::Approval { room, peer_id } => dialog_tells(dialog, room)
                && dialog_tells(dialog, text::byte_head(peer_id, SHOWN_PEER_LEN as nat)),
            tui::DialogView::ConnectInput { input } => dialog_tells(dialog, input),
            tui::DialogView::RoomCreate { input } => dialog_tells(dialog, input),
            tui::DialogView::RoomDelete { room } => dialog_tells(dialog, room),
            tui::DialogView::Error { message } => dialog_tells(dialog, message),
            tui::DialogView::Info { message } => dialog_tells(dialog, message),
        },
        dialog_box_of(dialog, area) is Popup,
        dialog_box_of(dialog, area)->Popup_lines == dialog_lines(dialog),
        dialog_box_of(dialog, area)->Popup_area == popup_area(area, dialog_height(dialog)),
        dialog_lines(dialog).len() + 2 <= dialog_height(dialog),
{
    match dialog {
        tui::DialogView::Approval { room, peer_id } => {
            let head = text::byte_head(peer_id, SHOWN_PEER_LEN as nat);
            assert(dialog_lines(dialog)[1][1].text == head);
            lemma_dialog_tells(dialog, head, 1, 1);
            text::lemma_occurs(" wants to connect in room '"@, room, "'."@);
            assert(text::occurs_in(room, dialog_lines(dialog)[1][2].text));
        },
        tui::DialogView::ConnectInput { input } => {
            assert(dialog_lines(dialog)[3][1].text == input);
            lemma_dialog_tells(dialog, input, 3, 1);
        },
        tui::DialogView::RoomCreate { input } => {
            assert(dialog_lines(dialog)[3][1].text == input);
            lemma_dialog_tells(dialog, input, 3, 1);
        },
        tui::DialogView::RoomDelete { room } => {
            assert(dialog_lines(dialog)[1][1].text == room);
            lemma_dialog_tells(dialog, room, 1, 1);
        },
        tui::DialogView::Error { message } => {
            assert(dialog_lines(dialog)[1][0].text == message);
            lemma_dialog_tells(dialog, message, 1, 0);
        },
        tui::DialogView::Info { message } => {
            assert(dialog_lines(dialog)[1][0].text == message);
            lemma_dialog_tells(dialog, message, 1, 0);
        },
    }
}

/// The screen from back to front: the frame around everything, the tabs with the current one
/// selected, the content of that tab and of no other, then the dialog if one is open, and last the
/// notification if there is one, with its whole text.
pub proof fn law_screen_is_layered(a: tui::AppState, area: Area, places: Places)
    ensures
        ({
            let screen = screen_of(a, area, places);
            let rooms = engine::core_rooms(a.core);
            let content = match a.tab {
                Tab::Status => status_of(a.core.peer_id, rooms, places.upper, places.lower),
                Tab::Peers => peers_tab_of(rooms, places.upper, places.lower),
                Tab::Rooms => rooms_tab_of(rooms, a.rooms_scroll, places.upper, places.lower),
                Tab::History => history_tab_of(
                    a.core.history.reverse(),
                    a.history_scroll,
                    places.content,
                ),
                Tab::Help => help_tab_of(places.content),
            };
            let n = 2 + content.len();
            let dialogs: int = if a.dialog is Some {
                1
            } else {
                0
            };
            let notices: int = if a.notification is Some {
                1
            } else {
                0
            };
            &&& screen.len() == n + dialogs + notices
            &&& screen[0] is Frame && screen[0]->Frame_area == area
            &&& screen[1] is Tabs && screen[1]->Tabs_area == places.tab_bar
            &&& screen[1]->Tabs_titles.len() == 5
            &&& tui::tab_at(screen[1]->Tabs_selected) == a.tab
            &&& 0 <= screen[1]->Tabs_selected < 5
            &&& screen.subrange(2, n as int) == content
            &&& a.dialog matches Some(dialog) ==> screen[n as int] is Popup
                && screen[n as int]->Popup_lines == dialog_lines(dialog)
            &&& a.notification matches Some(text) ==> screen.last() is Notice
                && screen.last()->Notice_text == text
        }),
{
    let screen = screen_of(a, area, places);
    let content = content_of(a, places);
    assert(screen.subrange(2, 2 + content.len() as int) =~= content);
}

/// Each tab has its name in the bar, in the place of the tab.
pub proof fn law_tabs_are_named(tab: Tab, other: Tab, area: Area)
    ensures
        tabs_of(tab, area)->Tabs_titles.len() == 5,
        text::occurs_in(
            match other {
                Tab::Status => "Status"@,
                Tab::Peers => "Peers"@,
                Tab::Rooms => "Rooms"@,
                Tab::History => "History"@,
                Tab::Help => "Help"@,
            },
            tabs_of(tab, area)->Tabs_titles[tui::position(other)],
        ),
{
    text::lemma_occurs(" "@, tui::tab_title(other), " "@);
}

/// A dialog is as wide as 60 columns, or as the screen but for four; it is in the middle, as near as
/// the columns and rows allow.
pub proof fn law_popup_is_centered(area: Area, height: u16)
    requires
        on_screen(area),
        height <= area.height,
    ensures
        ({
            let place = popup_area(area, height);
            let left = place.x - area.x;
            let right = area.x + area.width - place.x - place.width;
            let above = place.y - area.y;
            let below = area.y + area.height - place.y - place.height;
            &&& place.width == if area.width >= 64 {
                60
            } else if area.width >= 4 {
                area.width - 4
            } else {
                0
            }
            &&& 0 <= right - left <= 1
            &&& 0 <= below - above <= 1
        }),
{
}

/// A notification is one row, as wide as its text up to forty bytes and four columns more, in the
/// bottom-right corner: two columns from the right edge, in the last row but one.
pub proof fn law_notice_is_in_the_corner(area: Area, message: Seq<char>)
    requires
        on_screen(area),
        area.width >= 46,
        area.height >= 2,
    ensures
        ({
            let place = notice_area(area, message);
            let bytes = vstd::utf8::encode_utf8(message).len();
            &&& place.height == 1
            &&& place.width == (if bytes < 40 {
                bytes
            } else {
                40
            }) + 4
            &&& place.x + place.width + 2 == area.x + area.width
            &&& place.y + 2 == area.y + area.height
        }),
{
}

/// The screen can be drawn on every area whose right and bottom edges are at most the last number of
/// a column or row, but for two things: the status tab when the peers are more than can be counted,
/// and the question about a peer when a character of its id lies over the end of the first twenty
/// bytes.
pub proof fn law_when_the_screen_can_be_drawn(a: tui::AppState, area: Area)
    ensures
        drawable(a, area) <==> {
            let rooms = engine::core_rooms(a.core);
            &&& area.x + area.width <= 65535
            &&& area.y + area.height <= 65535
            &&& a.tab == Tab::Status ==> peer_total(rooms, false) <= usize::MAX && peer_total(
                rooms,
                true,
            ) <= usize::MAX
            &&& a.dialog matches Some(tui::DialogView::Approval { peer_id, .. }) ==> {
                let bytes = vstd::utf8::encode_utf8(peer_id);
                bytes.len() <= 20 || vstd::utf8::is_char_boundary(bytes, 20)
            }
        },
{
    if let Some(tui::DialogView::Approval { peer_id, .. }) = a.dialog {
        vstd::utf8::encode_utf8_valid_utf8(peer_id);
        vstd::utf8::is_char_boundary_start_end_of_seq(vstd::utf8::encode_utf8(peer_id));
    }
}

}
