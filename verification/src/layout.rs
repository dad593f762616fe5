//! The arrangement of the screen: which rectangle each part of the monitor
//! is drawn in. The rectangles are computed by ratatui's layout solver.

use ratatui::layout::{Constraint, Direction, Layout, Rect};
use vstd::prelude::*;

verus! {

/// A rectangle of terminal cells.
#[derive(PartialEq, Eq, Structural, Debug, Clone, Copy)]
pub struct Area {
    pub x: u16,
    pub y: u16,
    pub width: u16,
    pub height: u16,
}

/// The direction in which an area is cut into parts.
#[derive(PartialEq, Eq, Structural, Debug, Clone, Copy)]
pub enum Axis {
    /// Parts stacked top to bottom.
    Vertical,
    /// Parts side by side, left to right.
    Horizontal,
}

/// The size asked of one part.
#[derive(PartialEq, Eq, Structural, Debug, Clone, Copy)]
pub enum Extent {
    /// Exactly this many cells.
    Length(u16),
    /// At least this many cells.
    Min(u16),
    /// This percentage of the area.
    Percentage(u16),
}

/// Where a part starts along `axis`.
pub open spec fn start_along(axis: Axis, a: Area) -> int {
    match axis {
        Axis::Vertical => a.y as int,
        Axis::Horizontal => a.x as int,
    }
}

/// Where a part ends along `axis` (its start plus its size).
pub open spec fn end_along(axis: Axis, a: Area) -> int {
    match axis {
        Axis::Vertical => a.y + a.height,
        Axis::Horizontal => a.x + a.width,
    }
}

/// A part covers the whole of `area` across `axis`: the same columns for
/// rows stacked vertically, the same rows for columns side by side.
pub open spec fn spans_across(axis: Axis, area: Area, p: Area) -> bool {
    match axis {
        Axis::Vertical => p.x == area.x && p.width == area.width,
        Axis::Horizontal => p.y == area.y && p.height == area.height,
    }
}

/// `parts` cut `area` along `axis`: each part spans the area across the
/// axis and lies within it along the axis, and the parts follow each other
/// in order without overlapping.
pub open spec fn laid_out(axis: Axis, area: Area, parts: Seq<Area>) -> bool {
    &&& forall|i: int|
        0 <= i < parts.len() ==> spans_across(axis, area, #[trigger] parts[i]) && start_along(
            axis,
            area,
        ) <= start_along(axis, parts[i]) && end_along(axis, parts[i]) <= end_along(axis, area)
    &&& forall|i: int, j: int|
        0 <= i < j < parts.len() ==> end_along(axis, #[trigger] parts[i]) <= start_along(
            axis,
            #[trigger] parts[j],
        )
}

/// The size of a part along `axis`.
pub open spec fn size_along(axis: Axis, a: Area) -> nat {
    match axis {
        Axis::Vertical => a.height as nat,
        Axis::Horizontal => a.width as nat,
    }
}

/// The cells asked for by the `Length` extents among `e`.
pub open spec fn length_total(e: Seq<Extent>) -> nat
    decreases e.len(),
{
    if e.len() == 0 {
        0
    } else {
        length_total(e.drop_last()) + match e.last() {
            Extent::Length(n) => n as nat,
            _ => 0,
        }
    }
}

/// The number of `Min` extents among `e`.
pub open spec fn min_count(e: Seq<Extent>) -> nat
    decreases e.len(),
{
    if e.len() == 0 {
        0
    } else {
        min_count(e.drop_last()) + match e.last() {
            Extent::Min(_) => 1nat,
            _ => 0,
        }
    }
}

/// The cells asked for at least by the `Min` extents among `e`.
pub open spec fn min_total(e: Seq<Extent>) -> nat
    decreases e.len(),
{
    if e.len() == 0 {
        0
    } else {
        min_total(e.drop_last()) + match e.last() {
            Extent::Min(n) => n as nat,
            _ => 0,
        }
    }
}

/// The extents leave the solver one answer for a span of `size` cells: they
/// are all `Length` or `Min`, at most one is `Min`, and the lengths fit in
/// the span, leaving the `Min` (if any) at least its minimum.
pub open spec fn settled(e: Seq<Extent>, size: nat) -> bool {
    &&& forall|i: int| 0 <= i < e.len() ==> !(#[trigger] e[i] is Percentage)
    &&& min_count(e) <= 1
    &&& length_total(e) + min_total(e) <= size
}

/// The size that a settled extent gets: a `Length` its length, the `Min`
/// what the lengths leave of the span. (Without a `Min`, what the lengths
/// leave stays empty after the last part.)
pub open spec fn settled_size(e: Seq<Extent>, size: nat, i: int) -> int {
    match e[i] {
        Extent::Length(n) => n as int,
        _ => size - length_total(e),
    }
}

/// Every extent is a `Length`.
pub open spec fn all_lengths(e: Seq<Extent>) -> bool {
    forall|i: int| 0 <= i < e.len() ==> #[trigger] e[i] is Length
}

/// The sizes of `parts` along `axis`, added up.
pub open spec fn sizes_total(axis: Axis, parts: Seq<Area>) -> nat
    decreases parts.len(),
{
    if parts.len() == 0 {
        0
    } else {
        sizes_total(axis, parts.drop_last()) + size_along(axis, parts.last())
    }
}

/// The parts start at the area's start and each next one starts where the
/// previous one ends: no gaps before or between them.
pub open spec fn packed(axis: Axis, area: Area, parts: Seq<Area>) -> bool {
    &&& parts.len() > 0 ==> start_along(axis, parts[0]) == start_along(axis, area)
    &&& forall|i: int, j: int|
        0 <= i && j == i + 1 && j < parts.len() ==> start_along(axis, #[trigger] parts[j]) == end_along(
            axis,
            #[trigger] parts[i],
        )
}

/// Two equal halves.
pub open spec fn halves_spec() -> Seq<Extent> {
    seq![Extent::Percentage(50), Extent::Percentage(50)]
}

/// Cuts `area` into parts. Trusted: calls ratatui's `Layout::split` with
/// the default margin (none), spacing (0) and flex (`Flex::Start`, the
/// derived default of `Layout`). The contract claims what holds of every
/// solution: one part per extent (the solver makes a segment per
/// constraint); each part copies the area across the axis; and the parts'
/// bounds, which the solver is required to keep inside the area and in
/// ascending order, follow each other along the axis within the area.
/// Where the area does not reach past cell 65535 along the axis, it further
/// claims the sizes and places in the two cases that the constraint
/// strengths settle. Under `Start` the leading gap and the gaps between
/// parts are held at 0 (strength just below required) and only the trailing
/// gap may grow (medium / 10). So for settled extents each `Length` gets its
/// length (strong), the single `Min` grows (medium) to take the rest, the
/// parts start at the area's start and follow each other without gaps, and
/// without a `Min` the excess is left after the last part. When extents
/// that are all `Length` do not fit, the lengths (equally strong) lose as
/// few cells as the area forces: the parts still start at the area's start
/// without gaps, fill the area, and none exceeds its length (which parts give
/// up cells is decided by weaker preferences and is left unsaid). Two 50% extents
/// (strong) each get half the span, their common bound rounded half up. The
/// sizes in other cases (conflicting extents, several `Min`s sharing the
/// excess, other percentages) are left unsaid.
#[verifier::external_body]
fn split(axis: Axis, extents: &Vec<Extent>, area: Area) -> (parts: Vec<Area>)
    ensures
        parts@.len() == extents@.len(),
        laid_out(axis, area, parts@),
        end_along(axis, area) <= u16::MAX && settled(extents@, size_along(axis, area)) ==> forall|
            i: int,
        |
            0 <= i < parts@.len() ==> size_along(axis, #[trigger] parts@[i]) == settled_size(
                extents@,
                size_along(axis, area),
                i,
            ),
        end_along(axis, area) <= u16::MAX && (settled(extents@, size_along(axis, area))
            || all_lengths(extents@)) ==> packed(axis, area, parts@),
        end_along(axis, area) <= u16::MAX && all_lengths(extents@) ==> {
            &&& forall|i: int|
                0 <= i < parts@.len() ==> size_along(axis, #[trigger] parts@[i]) <= extents@[i]->Length_0
            &&& sizes_total(axis, parts@) == if length_total(extents@) <= size_along(axis, area) {
                length_total(extents@)
            } else {
                size_along(axis, area)
            }
        },
        end_along(axis, area) <= u16::MAX && extents@ == halves_spec() ==> size_along(
            axis,
            parts@[0],
        ) == (size_along(axis, area) + 1) / 2 && size_along(axis, parts@[1]) == size_along(
            axis,
            area,
        ) / 2,
{
    let dir = match axis {
        Axis::Vertical => Direction::Vertical,
        Axis::Horizontal => Direction::Horizontal,
    };
    let cs = extents.iter().map(|e| match *e {
        Extent::Length(n) => Constraint::Length(n),
        Extent::Min(n) => Constraint::Min(n),
        Extent::Percentage(n) => Constraint::Percentage(n),
    });
    let r = Rect { x: area.x, y: area.y, width: area.width, height: area.height };
    let out = Layout::default().direction(dir).constraints(cs).split(r);
    out.iter().map(|r| Area { x: r.x, y: r.y, width: r.width, height: r.height }).collect()
}

/// Two equal halves.
pub fn halves() -> (e: Vec<Extent>)
    ensures
        e@ == halves_spec(),
{
    let mut e = Vec::new();
    e.push(Extent::Percentage(50));
    e.push(Extent::Percentage(50));
    assert(e@ =~= halves_spec());
    e
}

/// The rows of the whole screen: header 3 lines, tab bar 3, the selected
/// screen at least 0 (the rest), footer 1.
pub fn screen_extents() -> (e: Vec<Extent>)
    ensures
        e@ == seq![Extent::Length(3), Extent::Length(3), Extent::Min(0), Extent::Length(1)],
{
    let mut e = Vec::new();
    e.push(Extent::Length(3));
    e.push(Extent::Length(3));
    e.push(Extent::Min(0));
    e.push(Extent::Length(1));
    assert(e@ =~= seq![Extent::Length(3), Extent::Length(3), Extent::Min(0), Extent::Length(1)]);
    e
}

/// The rows of the overview's gauge column: CPU gauge 3 lines, CPU history
/// 8, memory gauge 3, memory history 8.
pub fn gauge_extents() -> (e: Vec<Extent>)
    ensures
        e@ == seq![Extent::Length(3), Extent::Length(8), Extent::Length(3), Extent::Length(8)],
{
    let mut e = Vec::new();
    e.push(Extent::Length(3));
    e.push(Extent::Length(8));
    e.push(Extent::Length(3));
    e.push(Extent::Length(8));
    assert(e@ =~= seq![Extent::Length(3), Extent::Length(8), Extent::Length(3), Extent::Length(8)]);
    e
}

/// The rows of the whole screen: header, tab bar, selected screen, footer.
/// On a screen of at least 7 lines they are exactly 3, 3, the rest, and 1
/// lines, top to bottom.
pub fn screen_areas(screen: Area) -> (parts: Vec<Area>)
    ensures
        parts@.len() == 4,
        laid_out(Axis::Vertical, screen, parts@),
        screen.y + screen.height <= u16::MAX && screen.height >= 7 ==> {
            &&& parts@[0].y == screen.y && parts@[0].height == 3
            &&& parts@[1].y == screen.y + 3 && parts@[1].height == 3
            &&& parts@[2].y == screen.y + 6 && parts@[2].height == screen.height - 7
            &&& parts@[3].y == screen.y + screen.height - 1 && parts@[3].height == 1
        },
{
    let e = screen_extents();
    let parts = split(Axis::Vertical, &e, screen);
    proof {
        let s = seq![Extent::Length(3), Extent::Length(3), Extent::Min(0), Extent::Length(1)];
        assert(s.drop_last().drop_last().drop_last().drop_last() =~= Seq::<Extent>::empty());
        reveal_with_fuel(length_total, 5);
        reveal_with_fuel(min_count, 5);
        reveal_with_fuel(min_total, 5);
        assert(length_total(s) == 7);
        assert(min_count(s) == 1);
        assert(min_total(s) == 0);
        if screen.y + screen.height <= u16::MAX && screen.height >= 7 {
            assert(settled(s, size_along(Axis::Vertical, screen)));
            let p = parts@;
            assert(size_along(Axis::Vertical, p[0]) == 3);
            assert(size_along(Axis::Vertical, p[1]) == 3);
            assert(size_along(Axis::Vertical, p[2]) == screen.height - 7);
            assert(size_along(Axis::Vertical, p[3]) == 1);
            assert(end_along(Axis::Vertical, p[0]) <= start_along(Axis::Vertical, p[1]));
            assert(end_along(Axis::Vertical, p[1]) <= start_along(Axis::Vertical, p[2]));
            assert(end_along(Axis::Vertical, p[2]) <= start_along(Axis::Vertical, p[3]));
        }
    }
    parts
}

/// The overview's areas. The area is cut into two halves side by side (the
/// left one gets the odd column); the left half into CPU gauge, CPU history,
/// memory gauge and memory history (exactly 3, 8, 3 and 8 lines from its
/// top when it is at least 22 lines high), the right half into two halves,
/// the per-core chart above the system facts.
pub fn overview_areas(area: Area) -> (parts: (Vec<Area>, Vec<Area>))
    ensures
        parts.0@.len() == 4,
        parts.1@.len() == 2,
        exists|cols: Seq<Area>|
            #![trigger laid_out(Axis::Horizontal, area, cols)]
            {
                &&& cols.len() == 2
                &&& laid_out(Axis::Horizontal, area, cols)
                &&& laid_out(Axis::Vertical, cols[0], parts.0@)
                &&& laid_out(Axis::Vertical, cols[1], parts.1@)
                &&& area.x + area.width <= u16::MAX ==> cols[0].width == (area.width + 1) / 2
                    && cols[1].width == area.width / 2
            },
        area.y + area.height <= u16::MAX ==> parts.1@[0].height == (area.height + 1) / 2
            && parts.1@[1].height == area.height / 2,
        area.y + area.height <= u16::MAX ==> {
            &&& parts.0@[0].y == area.y
            &&& parts.0@[1].y == parts.0@[0].y + parts.0@[0].height
            &&& parts.0@[2].y == parts.0@[1].y + parts.0@[1].height
            &&& parts.0@[3].y == parts.0@[2].y + parts.0@[2].height
            &&& parts.0@[0].height <= 3 && parts.0@[1].height <= 8
            &&& parts.0@[2].height <= 3 && parts.0@[3].height <= 8
            &&& parts.0@[0].height + parts.0@[1].height + parts.0@[2].height + parts.0@[3].height
                == if area.height < 22 {
                area.height as int
            } else {
                22
            }
        },
        area.y + area.height <= u16::MAX && area.height >= 22 ==> {
            &&& parts.0@[0].y == area.y && parts.0@[0].height == 3
            &&& parts.0@[1].y == area.y + 3 && parts.0@[1].height == 8
            &&& parts.0@[2].y == area.y + 11 && parts.0@[2].height == 3
            &&& parts.0@[3].y == area.y + 14 && parts.0@[3].height == 8
        },
{
    let cols = split(Axis::Horizontal, &halves(), area);
    let e = gauge_extents();
    let left = split(Axis::Vertical, &e, cols[0]);
    let right = split(Axis::Vertical, &halves(), cols[1]);
    proof {
        let s = seq![Extent::Length(3), Extent::Length(8), Extent::Length(3), Extent::Length(8)];
        reveal_with_fuel(length_total, 5);
        reveal_with_fuel(min_count, 5);
        assert(s.drop_last().drop_last().drop_last().drop_last() =~= Seq::<Extent>::empty());
        assert(length_total(s) == 22);
        assert(min_count(s) == 0);
        assert(cols@[0].y == area.y && cols@[0].height == area.height);
        assert(cols@[1].y == area.y && cols@[1].height == area.height);
        reveal_with_fuel(min_total, 5);
        assert(min_total(s) == 0);
        assert(all_lengths(s));
        if area.y + area.height <= u16::MAX {
            let p = left@;
            reveal_with_fuel(sizes_total, 5);
            assert(p.drop_last().drop_last().drop_last().drop_last() =~= Seq::<Area>::empty());
            assert(packed(Axis::Vertical, cols@[0], p));
            assert(start_along(Axis::Vertical, p[1]) == end_along(Axis::Vertical, p[0]));
            assert(start_along(Axis::Vertical, p[2]) == end_along(Axis::Vertical, p[1]));
            assert(start_along(Axis::Vertical, p[3]) == end_along(Axis::Vertical, p[2]));
            assert(size_along(Axis::Vertical, p[0]) <= 3);
            assert(size_along(Axis::Vertical, p[1]) <= 8);
            assert(size_along(Axis::Vertical, p[2]) <= 3);
            assert(size_along(Axis::Vertical, p[3]) <= 8);
        }
        if area.y + area.height <= u16::MAX && area.height >= 22 {
            let p = left@;
            assert(settled(s, size_along(Axis::Vertical, cols@[0])));
            assert(size_along(Axis::Vertical, p[0]) == 3);
            assert(size_along(Axis::Vertical, p[1]) == 8);
            assert(size_along(Axis::Vertical, p[2]) == 3);
            assert(size_along(Axis::Vertical, p[3]) == 8);
            assert(start_along(Axis::Vertical, p[0]) == area.y);
            assert(start_along(Axis::Vertical, p[1]) == end_along(Axis::Vertical, p[0]));
            assert(start_along(Axis::Vertical, p[2]) == end_along(Axis::Vertical, p[1]));
            assert(start_along(Axis::Vertical, p[3]) == end_along(Axis::Vertical, p[2]));
        }
        assert(laid_out(Axis::Horizontal, area, cols@));
    }
    (left, right)
}

/// The disks and network screen's areas: the area is cut into two halves,
/// the disk list above the traffic graphs (the upper one gets the odd line),
/// and the lower half into two halves side by side, the download and upload
/// graphs.
pub fn disk_net_areas(area: Area) -> (parts: (Vec<Area>, Vec<Area>))
    ensures
        parts.0@.len() == 2,
        parts.1@.len() == 2,
        laid_out(Axis::Vertical, area, parts.0@),
        laid_out(Axis::Horizontal, parts.0@[1], parts.1@),
        area.y + area.height <= u16::MAX ==> parts.0@[0].height == (area.height + 1) / 2
            && parts.0@[1].height == area.height / 2,
        parts.0@[1].x + parts.0@[1].width <= u16::MAX ==> parts.1@[0].width == (area.width + 1) / 2
            && parts.1@[1].width == area.width / 2,
{
    let rows = split(Axis::Vertical, &halves(), area);
    let graphs = split(Axis::Horizontal, &halves(), rows[1]);
    assert(rows@[1].x == area.x && rows@[1].width == area.width);
    (rows, graphs)
}

} // verus!
