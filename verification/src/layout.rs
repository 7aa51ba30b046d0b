//! How a linear layout shares its room among its children.
//!
//! Children that ask for a number of cells are served first, in their
//! order, then those that ask for what their content needs; each gets what
//! it asks for as far as room is left. Those that ask for the room of the
//! parent share what is left then in equal parts. The children stand one
//! after the other along the axis of the layout.

use crate::view::Dimension;
use vstd::prelude::*;

verus! {

/// The axis along which a layout places its children.
#[derive(Clone, Copy, Debug, PartialEq, Eq, Structural)]
pub enum Orientation {
    Horizontal,
    Vertical,
}

/// A rectangle of cells: its first column and row, its width and height.
#[derive(Clone, Copy, Debug, PartialEq, Eq, Structural)]
pub struct Rect {
    pub x: u16,
    pub y: u16,
    pub w: u16,
    pub h: u16,
}

/// What a child asks for: its size along both axes, and the cells that
/// its content needs, for the case that it asks for those.
#[derive(Clone, Copy, Debug, PartialEq, Eq, Structural)]
pub struct Wish {
    pub width: Dimension,
    pub height: Dimension,
    pub content_w: u16,
    pub content_h: u16,
}

/// What a child asks for along one axis.
pub struct Ask {
    pub size: Dimension,
    pub content: u16,
}

/// The lesser of two numbers.
pub open spec fn least(a: int, b: int) -> int {
    if a <= b {
        a
    } else {
        b
    }
}

/// Whether the child is served in round `round`: round 0 serves those
/// that ask for a number of cells, round 1 those that ask for what their
/// content needs.
pub open spec fn served_in(ask: Ask, round: int) -> bool {
    if round == 0 {
        ask.size is Absolute
    } else {
        ask.size is WrapContent
    }
}

/// The cells that a child of a fixed size asks for.
pub open spec fn want(ask: Ask) -> int {
    match ask.size {
        Dimension::Absolute(n) => n as int,
        Dimension::WrapContent => ask.content as int,
        Dimension::MatchParent => 0,
    }
}

/// The room that is left of `room` once the first `k` children have had
/// their turn in round `round`.
pub open spec fn left(asks: Seq<Ask>, round: int, k: int, room: int) -> int
    decreases k,
{
    if k <= 0 {
        room
    } else {
        let before = left(asks, round, k - 1, room);
        if served_in(asks[k - 1], round) {
            before - least(want(asks[k - 1]), before)
        } else {
            before
        }
    }
}

/// How many of the first `k` children ask for the room of the parent.
pub open spec fn sharers(asks: Seq<Ask>, k: int) -> int
    decreases k,
{
    if k <= 0 {
        0
    } else {
        sharers(asks, k - 1) + if asks[k - 1].size is MatchParent {
            1int
        } else {
            0int
        }
    }
}

/// The room that is left of `room` after both rounds.
pub open spec fn left_over(asks: Seq<Ask>, room: int) -> int {
    left(asks, 1, asks.len() as int, left(asks, 0, asks.len() as int, room))
}

/// What each child gets that asks for the room of the parent.
pub open spec fn share(asks: Seq<Ask>, room: int) -> int {
    if sharers(asks, asks.len() as int) == 0 {
        0
    } else {
        left_over(asks, room) / sharers(asks, asks.len() as int)
    }
}

/// The cells that child `i` gets along the axis.
pub open spec fn size_of(asks: Seq<Ask>, room: int, i: int) -> int {
    match asks[i].size {
        Dimension::Absolute(n) => least(n as int, left(asks, 0, i, room)),
        Dimension::WrapContent => least(
            asks[i].content as int,
            left(asks, 1, i, left(asks, 0, asks.len() as int, room)),
        ),
        Dimension::MatchParent => share(asks, room),
    }
}

/// The cells that the first `k` children take along the axis; child `k`
/// starts behind them.
pub open spec fn taken(asks: Seq<Ask>, room: int, k: int) -> int
    decreases k,
{
    if k <= 0 {
        0
    } else {
        taken(asks, room, k - 1) + size_of(asks, room, k - 1)
    }
}

/// The cells that a child gets across the axis.
pub open spec fn across_of(ask: Ask, room: int) -> int {
    match ask.size {
        Dimension::Absolute(n) => least(n as int, room),
        Dimension::WrapContent => least(ask.content as int, room),
        Dimension::MatchParent => room,
    }
}

/// What a child asks for along the axis of the layout.
pub open spec fn along(orientation: Orientation, wish: Wish) -> Ask {
    match orientation {
        Orientation::Horizontal => Ask { size: wish.width, content: wish.content_w },
        Orientation::Vertical => Ask { size: wish.height, content: wish.content_h },
    }
}

/// What a child asks for across the axis of the layout.
pub open spec fn across(orientation: Orientation, wish: Wish) -> Ask {
    match orientation {
        Orientation::Horizontal => Ask { size: wish.height, content: wish.content_h },
        Orientation::Vertical => Ask { size: wish.width, content: wish.content_w },
    }
}

/// What the children ask for along the axis.
pub open spec fn asks_along(orientation: Orientation, wishes: Seq<Wish>) -> Seq<Ask> {
    wishes.map_values(|wish: Wish| along(orientation, wish))
}

/// The room of a rectangle along the axis.
pub open spec fn room_along(orientation: Orientation, bounds: Rect) -> int {
    match orientation {
        Orientation::Horizontal => bounds.w as int,
        Orientation::Vertical => bounds.h as int,
    }
}

/// The room of a rectangle across the axis.
pub open spec fn room_across(orientation: Orientation, bounds: Rect) -> int {
    match orientation {
        Orientation::Horizontal => bounds.h as int,
        Orientation::Vertical => bounds.w as int,
    }
}

/// The rectangle that child `i` of a layout in `bounds` gets.
pub open spec fn place_of(orientation: Orientation, wishes: Seq<Wish>, bounds: Rect, i: int) -> (
    int,
    int,
    int,
    int,
) {
    let asks = asks_along(orientation, wishes);
    let room = room_along(orientation, bounds);
    let size = size_of(asks, room, i);
    let start = taken(asks, room, i);
    let depth = across_of(across(orientation, wishes[i]), room_across(orientation, bounds));
    match orientation {
        Orientation::Horizontal => (bounds.x + start, bounds.y as int, size, depth),
        Orientation::Vertical => (bounds.x as int, bounds.y + start, depth, size),
    }
}

/// Whether `rect` is the rectangle `(x, y, w, h)`.
pub open spec fn is_place(rect: Rect, place: (int, int, int, int)) -> bool {
    rect.x == place.0 && rect.y == place.1 && rect.w == place.2 && rect.h == place.3
}

/// Whether `inner` lies in `outer`.
pub open spec fn inside(inner: Rect, outer: Rect) -> bool {
    &&& outer.x <= inner.x
    &&& inner.x + inner.w <= outer.x + outer.w
    &&& outer.y <= inner.y
    &&& inner.y + inner.h <= outer.y + outer.h
}

/// Whether the two rectangles share no cell.
pub open spec fn disjoint(a: Rect, b: Rect) -> bool {
    ||| a.x + a.w <= b.x
    ||| b.x + b.w <= a.x
    ||| a.y + a.h <= b.y
    ||| b.y + b.h <= a.y
}

/// The size of a rectangle along the axis.
pub open spec fn extent(orientation: Orientation, rect: Rect) -> int {
    room_along(orientation, rect)
}

/// The sizes of the first `k` rectangles along the axis, added up.
pub open spec fn extents(orientation: Orientation, rects: Seq<Rect>, k: int) -> int
    decreases k,
{
    if k <= 0 {
        0
    } else {
        extents(orientation, rects, k - 1) + extent(orientation, rects[k - 1])
    }
}

proof fn left_bounds(asks: Seq<Ask>, round: int, k: int, room: int)
    requires
        0 <= room,
        0 <= k <= asks.len(),
    ensures
        0 <= left(asks, round, k, room) <= room,
    decreases k,
{
    if k > 0 {
        left_bounds(asks, round, k - 1, room);
    }
}

proof fn sharers_bounds(asks: Seq<Ask>, k: int)
    requires
        0 <= k <= asks.len(),
    ensures
        0 <= sharers(asks, k) <= k,
        forall|i: int| 0 <= i < k && asks[i].size is MatchParent ==> sharers(asks, k) > 0,
    decreases k,
{
    if k > 0 {
        sharers_bounds(asks, k - 1);
    }
}

proof fn share_bounds(asks: Seq<Ask>, room: int)
    requires
        0 <= room,
    ensures
        0 <= share(asks, room) <= left_over(asks, room),
        share(asks, room) * sharers(asks, asks.len() as int) <= left_over(asks, room),
        0 <= left_over(asks, room) <= room,
{
    let n = asks.len() as int;
    left_bounds(asks, 0, n, room);
    left_bounds(asks, 1, n, left(asks, 0, n, room));
    sharers_bounds(asks, n);
    let rest = left_over(asks, room);
    let m = sharers(asks, n);
    if m > 0 {
        assert(0 <= rest / m <= rest && (rest / m) * m <= rest) by (nonlinear_arith)
            requires
                rest >= 0,
                m > 0,
        ;
    }
}

proof fn size_bounds(asks: Seq<Ask>, room: int, i: int)
    requires
        0 <= room,
        0 <= i < asks.len(),
    ensures
        0 <= size_of(asks, room, i) <= room,
{
    let n = asks.len() as int;
    left_bounds(asks, 0, i, room);
    left_bounds(asks, 0, n, room);
    left_bounds(asks, 1, i, left(asks, 0, n, room));
    share_bounds(asks, room);
}

proof fn taken_split(asks: Seq<Ask>, room: int, k: int)
    requires
        0 <= room,
        0 <= k <= asks.len(),
    ensures
        taken(asks, room, k) == (room - left(asks, 0, k, room)) + (left(
            asks,
            0,
            asks.len() as int,
            room,
        ) - left(asks, 1, k, left(asks, 0, asks.len() as int, room))) + share(asks, room)
            * sharers(asks, k),
    decreases k,
{
    if k > 0 {
        taken_split(asks, room, k - 1);
        let s = share(asks, room);
        let before = sharers(asks, k - 1);
        assert(s * (before + 1) == s * before + s) by (nonlinear_arith);
    } else {
        assert(share(asks, room) * 0 == 0) by (nonlinear_arith);
    }
}

proof fn taken_grows(asks: Seq<Ask>, room: int, i: int, k: int)
    requires
        0 <= room,
        0 <= i <= k <= asks.len(),
    ensures
        0 <= taken(asks, room, i) <= taken(asks, room, k),
    decreases k - i,
{
    if i < k {
        taken_grows(asks, room, i, k - 1);
        size_bounds(asks, room, k - 1);
    } else {
        taken_nonnegative(asks, room, i);
    }
}

proof fn taken_nonnegative(asks: Seq<Ask>, room: int, k: int)
    requires
        0 <= room,
        0 <= k <= asks.len(),
    ensures
        0 <= taken(asks, room, k),
    decreases k,
{
    if k > 0 {
        taken_nonnegative(asks, room, k - 1);
        size_bounds(asks, room, k - 1);
    }
}

/// The children never take more than the room there is.
pub proof fn taken_fits(asks: Seq<Ask>, room: int, k: int)
    requires
        0 <= room,
        0 <= k <= asks.len(),
    ensures
        0 <= taken(asks, room, k) <= room,
{
    let n = asks.len() as int;
    taken_grows(asks, room, k, n);
    taken_split(asks, room, n);
    share_bounds(asks, room);
    left_bounds(asks, 0, n, room);
}

/// Whether the rectangle `(x, y, w, h)` lies in `bounds`.
pub open spec fn lies_in(place: (int, int, int, int), bounds: Rect) -> bool {
    &&& bounds.x <= place.0
    &&& place.0 + place.2 <= bounds.x + bounds.w
    &&& bounds.y <= place.1
    &&& place.1 + place.3 <= bounds.y + bounds.h
    &&& 0 <= place.2
    &&& 0 <= place.3
}

/// Whether two rectangles `(x, y, w, h)` share no cell.
pub open spec fn apart(a: (int, int, int, int), b: (int, int, int, int)) -> bool {
    ||| a.0 + a.2 <= b.0
    ||| b.0 + b.2 <= a.0
    ||| a.1 + a.3 <= b.1
    ||| b.1 + b.3 <= a.1
}

/// After a layout has measured its children and laid them out, each child
/// lies in the rectangle of the layout, no two children share a cell, and
/// along the axis the children take no more than the layout has.
pub proof fn children_fit(
    orientation: Orientation,
    wishes: Seq<Wish>,
    bounds: Rect,
    i: int,
    j: int,
)
    requires
        0 <= i < j < wishes.len(),
    ensures
        lies_in(place_of(orientation, wishes, bounds, i), bounds),
        lies_in(place_of(orientation, wishes, bounds, j), bounds),
        apart(
            place_of(orientation, wishes, bounds, i),
            place_of(orientation, wishes, bounds, j),
        ),
        taken(
            asks_along(orientation, wishes),
            room_along(orientation, bounds),
            wishes.len() as int,
        ) <= room_along(orientation, bounds),
{
    let asks = asks_along(orientation, wishes);
    let room = room_along(orientation, bounds);
    taken_fits(asks, room, i);
    taken_fits(asks, room, i + 1);
    taken_fits(asks, room, j);
    taken_fits(asks, room, j + 1);
    taken_fits(asks, room, wishes.len() as int);
    size_bounds(asks, room, i);
    size_bounds(asks, room, j);
    taken_grows(asks, room, i + 1, j);
}

/// The sizes of the children along the axis.
pub fn measure(asks: &Vec<Ask>, room: u16) -> (sizes: Vec<u16>)
    ensures
        sizes@.len() == asks@.len(),
        forall|i: int| 0 <= i < asks@.len() ==> sizes@[i] == size_of(asks@, room as int, i),
{
    let n = asks.len();
    let mut sizes: Vec<u16> = Vec::new();
    let mut rest: u16 = room;
    let mut i: usize = 0;
    while i < n
        invariant
            i <= n == asks@.len(),
            sizes@.len() == i,
            rest == left(asks@, 0, i as int, room as int),
            rest <= room,
            forall|j: int|
                0 <= j < i && asks@[j].size is Absolute ==> sizes@[j] == size_of(
                    asks@,
                    room as int,
                    j,
                ),
        decreases n - i,
    {
        match asks[i].size {
            Dimension::Absolute(wanted) => {
                let size = if wanted <= rest {
                    wanted
                } else {
                    rest
                };
                sizes.push(size);
                rest = rest - size;
            },
            _ => {
                sizes.push(0);
            },
        }
        i = i + 1;
    }
    let ghost fixed = rest;
    let mut i: usize = 0;
    let mut count: usize = 0;
    while i < n
        invariant
            i <= n == asks@.len(),
            sizes@.len() == n,
            fixed == left(asks@, 0, n as int, room as int),
            rest == left(asks@, 1, i as int, fixed as int),
            rest <= room,
            count == sharers(asks@, i as int),
            count <= i,
            forall|j: int|
                0 <= j < n && asks@[j].size is Absolute ==> sizes@[j] == size_of(
                    asks@,
                    room as int,
                    j,
                ),
            forall|j: int|
                0 <= j < i && asks@[j].size is WrapContent ==> sizes@[j] == size_of(
                    asks@,
                    room as int,
                    j,
                ),
        decreases n - i,
    {
        match asks[i].size {
            Dimension::WrapContent => {
                let wanted = asks[i].content;
                let size = if wanted <= rest {
                    wanted
                } else {
                    rest
                };
                sizes.set(i, size);
                rest = rest - size;
            },
            Dimension::MatchParent => {
                count = count + 1;
            },
            _ => {},
        }
        i = i + 1;
    }
    proof {
        share_bounds(asks@, room as int);
    }
    let part: u16 = if count == 0 {
        0
    } else {
        (rest as usize / count) as u16
    };
    let mut i: usize = 0;
    while i < n
        invariant
            i <= n == asks@.len(),
            sizes@.len() == n,
            part == share(asks@, room as int),
            forall|j: int|
                0 <= j < n && !(asks@[j].size is MatchParent) ==> sizes@[j] == size_of(
                    asks@,
                    room as int,
                    j,
                ),
            forall|j: int|
                0 <= j < i && asks@[j].size is MatchParent ==> sizes@[j] == size_of(
                    asks@,
                    room as int,
                    j,
                ),
        decreases n - i,
    {
        match asks[i].size {
            Dimension::MatchParent => {
                sizes.set(i, part);
            },
            _ => {},
        }
        i = i + 1;
    }
    sizes
}

fn ask_along(orientation: Orientation, wish: &Wish) -> (ask: Ask)
    ensures
        ask == along(orientation, *wish),
{
    match orientation {
        Orientation::Horizontal => Ask { size: wish.width, content: wish.content_w },
        Orientation::Vertical => Ask { size: wish.height, content: wish.content_h },
    }
}

fn depth_of(orientation: Orientation, wish: &Wish, room: u16) -> (depth: u16)
    ensures
        depth == across_of(across(orientation, *wish), room as int),
        depth <= room,
{
    let (size, content) = match orientation {
        Orientation::Horizontal => (wish.height, wish.content_h),
        Orientation::Vertical => (wish.width, wish.content_w),
    };
    match size {
        Dimension::Absolute(wanted) => if wanted <= room {
            wanted
        } else {
            room
        },
        Dimension::WrapContent => if content <= room {
            content
        } else {
            room
        },
        Dimension::MatchParent => room,
    }
}

/// Measures the children of a layout and lays them out in `bounds`: each
/// gets its rectangle. The rectangles lie in `bounds`, no two of them
/// share a cell, and along the axis they take no more than `bounds` has.
pub fn arrange(orientation: Orientation, wishes: &Vec<Wish>, bounds: Rect) -> (rects: Vec<Rect>)
    requires
        bounds.x + bounds.w <= u16::MAX,
        bounds.y + bounds.h <= u16::MAX,
    ensures
        rects@.len() == wishes@.len(),
        forall|i: int|
            0 <= i < rects@.len() ==> is_place(
                #[trigger] rects@[i],
                place_of(orientation, wishes@, bounds, i),
            ),
        forall|i: int| 0 <= i < rects@.len() ==> inside(#[trigger] rects@[i], bounds),
        forall|i: int, j: int|
            0 <= i < j < rects@.len() ==> disjoint(#[trigger] rects@[i], #[trigger] rects@[j]),
        extents(orientation, rects@, rects@.len() as int) <= room_along(orientation, bounds),
{
    let n = wishes.len();
    let mut asks: Vec<Ask> = Vec::new();
    let mut i: usize = 0;
    while i < n
        invariant
            i <= n == wishes@.len(),
            asks@ == asks_along(orientation, wishes@).subrange(0, i as int),
        decreases n - i,
    {
        asks.push(ask_along(orientation, &wishes[i]));
        i = i + 1;
        proof {
            assert(asks@ =~= asks_along(orientation, wishes@).subrange(0, i as int));
        }
    }
    proof {
        assert(asks@ =~= asks_along(orientation, wishes@));
    }
    let (room, depth_room) = match orientation {
        Orientation::Horizontal => (bounds.w, bounds.h),
        Orientation::Vertical => (bounds.h, bounds.w),
    };
    let sizes = measure(&asks, room);
    let mut rects: Vec<Rect> = Vec::new();
    let mut start: u16 = 0;
    let mut i: usize = 0;
    while i < n
        invariant
            i <= n == wishes@.len(),
            asks@ == asks_along(orientation, wishes@),
            sizes@.len() == n,
            forall|j: int| 0 <= j < n ==> sizes@[j] == size_of(asks@, room as int, j),
            room == room_along(orientation, bounds),
            depth_room == room_across(orientation, bounds),
            bounds.x + bounds.w <= u16::MAX,
            bounds.y + bounds.h <= u16::MAX,
            start == taken(asks@, room as int, i as int),
            rects@.len() == i,
            forall|j: int|
                0 <= j < i ==> is_place(
                    #[trigger] rects@[j],
                    place_of(orientation, wishes@, bounds, j),
                ),
            extents(orientation, rects@, i as int) == taken(asks@, room as int, i as int),
        decreases n - i,
    {
        proof {
            taken_fits(asks@, room as int, i as int);
            taken_fits(asks@, room as int, i + 1);
            size_bounds(asks@, room as int, i as int);
        }
        let size = sizes[i];
        let depth = depth_of(orientation, &wishes[i], depth_room);
        let rect = match orientation {
            Orientation::Horizontal => Rect { x: bounds.x + start, y: bounds.y, w: size, h: depth },
            Orientation::Vertical => Rect { x: bounds.x, y: bounds.y + start, w: depth, h: size },
        };
        let ghost before = rects@;
        rects.push(rect);
        start = start + size;
        i = i + 1;
        proof {
            assert forall|j: int| 0 <= j < i implies is_place(
                #[trigger] rects@[j],
                place_of(orientation, wishes@, bounds, j),
            ) by {
                if j < i - 1 {
                    assert(rects@[j] == before[j]);
                }
            }
            same_extents(orientation, before, rects@, i - 1);
        }
    }
    proof {
        taken_fits(asks@, room as int, n as int);
        assert forall|j: int| 0 <= j < rects@.len() implies inside(#[trigger] rects@[j], bounds) by {
            assert(is_place(rects@[j], place_of(orientation, wishes@, bounds, j)));
            taken_fits(asks@, room as int, j);
            taken_fits(asks@, room as int, j + 1);
            size_bounds(asks@, room as int, j);
        }
        assert forall|j: int, k: int| 0 <= j < k < rects@.len() implies disjoint(
            #[trigger] rects@[j],
            #[trigger] rects@[k],
        ) by {
            assert(is_place(rects@[j], place_of(orientation, wishes@, bounds, j)));
            assert(is_place(rects@[k], place_of(orientation, wishes@, bounds, k)));
            taken_grows(asks@, room as int, j + 1, k);
        }
    }
    rects
}

proof fn same_extents(orientation: Orientation, a: Seq<Rect>, b: Seq<Rect>, k: int)
    requires
        0 <= k <= a.len(),
        k <= b.len(),
        forall|j: int| 0 <= j < k ==> a[j] == b[j],
    ensures
        extents(orientation, a, k) == extents(orientation, b, k),
    decreases k,
{
    if k > 0 {
        same_extents(orientation, a, b, k - 1);
    }
}

} // verus!
