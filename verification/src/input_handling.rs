//! Keyboard and mouse decoding turned into axis-move state transitions
//! and weapon trigger changes.  The raw key facts arrive from the input
//! collaborator as plain booleans.

use vstd::prelude::*;
use crate::movement::{XAxisMove, YAxisMove};

verus! {

/// One frame's worth of key edges and states for the four movement keys.
#[derive(Clone, Copy, PartialEq, Eq, Structural, Debug)]
pub struct KeyFacts {
    pub left_just_pressed: bool,
    pub left_just_released: bool,
    pub left_pressed: bool,
    pub right_just_pressed: bool,
    pub right_just_released: bool,
    pub right_pressed: bool,
    pub up_just_pressed: bool,
    pub up_just_released: bool,
    pub up_pressed: bool,
    pub down_just_pressed: bool,
    pub down_just_released: bool,
    pub down_pressed: bool,
}

/// The horizontal axis state after one frame of key edges, applied in
/// the order: left pressed, left released (falling back to a still-held
/// right), right pressed, right released (falling back to a still-held
/// left).
pub open spec fn x_axis_update_spec(cur: Option<XAxisMove>, k: KeyFacts) -> Option<XAxisMove> {
    let s1 = if k.left_just_pressed {
        Some(XAxisMove::Left)
    } else {
        cur
    };
    let s2 = if k.left_just_released {
        if k.right_pressed {
            Some(XAxisMove::Right)
        } else {
            None
        }
    } else {
        s1
    };
    let s3 = if k.right_just_pressed {
        Some(XAxisMove::Right)
    } else {
        s2
    };
    if k.right_just_released {
        if k.left_pressed {
            Some(XAxisMove::Left)
        } else {
            None
        }
    } else {
        s3
    }
}

/// The vertical axis state after one frame of key edges, by the same
/// rule with up before down.
pub open spec fn y_axis_update_spec(cur: Option<YAxisMove>, k: KeyFacts) -> Option<YAxisMove> {
    let s1 = if k.up_just_pressed {
        Some(YAxisMove::Up)
    } else {
        cur
    };
    let s2 = if k.up_just_released {
        if k.down_pressed {
            Some(YAxisMove::Down)
        } else {
            None
        }
    } else {
        s1
    };
    let s3 = if k.down_just_pressed {
        Some(YAxisMove::Down)
    } else {
        s2
    };
    if k.down_just_released {
        if k.up_pressed {
            Some(YAxisMove::Up)
        } else {
            None
        }
    } else {
        s3
    }
}

/// Advance the horizontal axis state by one frame of key edges.
pub fn x_axis_update(cur: Option<XAxisMove>, k: &KeyFacts) -> (r: Option<XAxisMove>)
    ensures
        r == x_axis_update_spec(cur, *k),
{
    let mut s = cur;
    if k.left_just_pressed {
        s = Some(XAxisMove::Left);
    }
    if k.left_just_released {
        s = if k.right_pressed {
            Some(XAxisMove::Right)
        } else {
            None
        };
    }
    if k.right_just_pressed {
        s = Some(XAxisMove::Right);
    }
    if k.right_just_released {
        s = if k.left_pressed {
            Some(XAxisMove::Left)
        } else {
            None
        };
    }
    s
}

/// Advance the vertical axis state by one frame of key edges.
pub fn y_axis_update(cur: Option<YAxisMove>, k: &KeyFacts) -> (r: Option<YAxisMove>)
    ensures
        r == y_axis_update_spec(cur, *k),
{
    let mut s = cur;
    if k.up_just_pressed {
        s = Some(YAxisMove::Up);
    }
    if k.up_just_released {
        s = if k.down_pressed {
            Some(YAxisMove::Down)
        } else {
            None
        };
    }
    if k.down_just_pressed {
        s = Some(YAxisMove::Down);
    }
    if k.down_just_released {
        s = if k.up_pressed {
            Some(YAxisMove::Up)
        } else {
            None
        };
    }
    s
}

} // verus!
