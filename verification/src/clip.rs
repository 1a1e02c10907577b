use crate::geometry::{Coordinate, Dimension};
use crate::region::Window;
use vstd::prelude::*;

verus! {

/// The part of an object that shows along one axis: where it starts on the
/// canvas (`dst`), how many cells of the object are cut off before it
/// (`src`), and how many cells show (`len`).
#[derive(Debug, Clone, Copy, PartialEq, Eq, Structural)]
pub struct Clip {
    pub dst: usize,
    pub src: usize,
    pub len: usize,
}

/// The first canvas position that an object placed at `placement` can show
/// on.
pub open spec fn visible_start(placement: int) -> int {
    if placement < 0 {
        0
    } else {
        placement
    }
}

/// One past the last canvas position that an object of length `size`
/// placed at `placement` can show on, on a canvas of length `limit`.
pub open spec fn visible_end(placement: int, size: int, limit: int) -> int {
    if placement + size < limit {
        placement + size
    } else {
        limit
    }
}

/// Whether any cell of the object falls on the canvas along this axis.
pub open spec fn overlaps(placement: int, size: int, limit: int) -> bool {
    visible_start(placement) < visible_end(placement, size, limit)
}

/// Whether an object of the given size placed at `placement` shows
/// anywhere on a canvas of size `canvas`.
pub open spec fn visible(placement: Coordinate, size: Dimension, canvas: Dimension) -> bool {
    overlaps(placement.x as int, size.x as int, canvas.x as int) && overlaps(
        placement.y as int,
        size.y as int,
        canvas.y as int,
    )
}

/// The canvas window that the object shows in.
pub open spec fn canvas_window(placement: Coordinate, size: Dimension, canvas: Dimension) -> Window {
    Window {
        x0: visible_start(placement.x as int) as usize,
        x1: visible_end(placement.x as int, size.x as int, canvas.x as int) as usize,
        y0: visible_start(placement.y as int) as usize,
        y1: visible_end(placement.y as int, size.y as int, canvas.y as int) as usize,
    }
}

/// The window of the object itself that shows on the canvas.
pub open spec fn object_window(placement: Coordinate, size: Dimension, canvas: Dimension) -> Window {
    Window {
        x0: (visible_start(placement.x as int) - placement.x) as usize,
        x1: (visible_end(placement.x as int, size.x as int, canvas.x as int) - placement.x) as usize,
        y0: (visible_start(placement.y as int) - placement.y) as usize,
        y1: (visible_end(placement.y as int, size.y as int, canvas.y as int) - placement.y) as usize,
    }
}

/// Clips an object of length `size` placed at `placement` to a canvas of
/// length `limit`, along one axis. The result is `None` exactly when
/// nothing of the object falls on the canvas.
pub fn clip_axis(placement: i32, size: usize, limit: usize) -> (r: Option<Clip>)
    ensures
        match r {
            Some(clip) => {
                &&& overlaps(placement as int, size as int, limit as int)
                &&& clip.dst == visible_start(placement as int)
                &&& clip.src == visible_start(placement as int) - placement
                &&& clip.len == visible_end(placement as int, size as int, limit as int)
                    - visible_start(placement as int)
            },
            None => !overlaps(placement as int, size as int, limit as int),
        },
{
    if placement < 0 {
        let cut: usize = (-(placement as i64)) as usize;
        if cut >= size {
            return None;
        }
        let rest: usize = size - cut;
        let len: usize = if rest < limit {
            rest
        } else {
            limit
        };
        if len == 0 {
            None
        } else {
            Some(Clip { dst: 0, src: cut, len })
        }
    } else {
        let start: usize = placement as usize;
        if start >= limit {
            return None;
        }
        let room: usize = limit - start;
        let len: usize = if size < room {
            size
        } else {
            room
        };
        if len == 0 {
            None
        } else {
            Some(Clip { dst: start, src: 0, len })
        }
    }
}

/// Clips an object on both axes. The result is `None` exactly when the
/// object does not show on the canvas; otherwise it is the canvas window
/// to draw into and the equally sized window of the object to draw from.
pub fn clip(placement: Coordinate, size: Dimension, canvas: Dimension) -> (r: Option<(Window, Window)>)
    ensures
        match r {
            Some((onto, from)) => {
                &&& visible(placement, size, canvas)
                &&& onto == canvas_window(placement, size, canvas)
                &&& from == object_window(placement, size, canvas)
                &&& onto.within(canvas.x as nat, canvas.y as nat)
                &&& from.within(size.x as nat, size.y as nat)
                &&& onto.width() == from.width() > 0
                &&& onto.height() == from.height() > 0
            },
            None => !visible(placement, size, canvas),
        },
{
    match clip_axis(placement.x, size.x, canvas.x) {
        None => None,
        Some(across) => match clip_axis(placement.y, size.y, canvas.y) {
            None => None,
            Some(down) => {
                let onto = Window {
                    x0: across.dst,
                    x1: across.dst + across.len,
                    y0: down.dst,
                    y1: down.dst + down.len,
                };
                let from = Window {
                    x0: across.src,
                    x1: across.src + across.len,
                    y0: down.src,
                    y1: down.src + down.len,
                };
                Some((onto, from))
            },
        },
    }
}

} // verus!
