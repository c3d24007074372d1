//! Four ascending thresholds used to classify neighbour counts into colour
//! classes.

use vstd::prelude::*;

verus! {

/// Four integer thresholds, looked up by 1-based index; any other index
/// yields 0 (a defensive fallback that the classifier never reaches, since
/// neighbour counts always include the centre pixel and are therefore at
/// least 1).
#[derive(Copy, Clone)]
pub struct ColorBounds {
    channel_1: i32,
    channel_2: i32,
    channel_3: i32,
    channel_4: i32,
}

impl ColorBounds {
    /// The threshold that `get` reports for a 1-based index.
    pub closed spec fn spec_get(self, index: int) -> i32 {
        if index == 1 {
            self.channel_1
        } else if index == 2 {
            self.channel_2
        } else if index == 3 {
            self.channel_3
        } else if index == 4 {
            self.channel_4
        } else {
            0
        }
    }

    pub fn new(ch1: i32, ch2: i32, ch3: i32, ch4: i32) -> (r: ColorBounds)
        ensures
            r.spec_get(1) == ch1,
            r.spec_get(2) == ch2,
            r.spec_get(3) == ch3,
            r.spec_get(4) == ch4,
    {
        ColorBounds { channel_1: ch1, channel_2: ch2, channel_3: ch3, channel_4: ch4 }
    }

    pub fn get(&self, index: i32) -> (r: i32)
        ensures
            r == self.spec_get(index as int),
            !(1 <= index <= 4) ==> r == 0,
    {
        match index {
            1 => self.channel_1,
            2 => self.channel_2,
            3 => self.channel_3,
            4 => self.channel_4,
            _ => 0,
        }
    }
}

impl ColorBounds {
    /// The default thresholds: 8, 9, 10 and 11.
    pub closed spec fn spec_default() -> ColorBounds {
        ColorBounds { channel_1: 8, channel_2: 9, channel_3: 10, channel_4: 11 }
    }
}

impl Default for ColorBounds {
    /// The default thresholds 8, 9, 10, 11.
    fn default() -> (r: ColorBounds)
        ensures
            r == ColorBounds::spec_default(),
            r.spec_get(1) == 8,
            r.spec_get(2) == 9,
            r.spec_get(3) == 10,
            r.spec_get(4) == 11,
    {
        ColorBounds { channel_1: 8, channel_2: 9, channel_3: 10, channel_4: 11 }
    }
}

} // verus!
