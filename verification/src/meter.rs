use vstd::prelude::*;

use crate::json::string_from_chars;
use crate::protocol::Milli;

verus! {

/// Terminal level meter for the audio periphery: the text of the bar and
/// the label for a level are computed here; drawing them is the caller's
/// business.
pub struct AudioMeter {
    /// How many metric samples have been displayed.
    pub frame_count: u64,
    /// Width of the level bar, in characters.
    pub bar_length: usize,
    /// Whether the display line has been set up.
    pub initialized: bool,
}

impl AudioMeter {
    /// A meter with a forty-character bar, not yet drawn.
    pub fn new() -> (r: Self)
        ensures
            r.frame_count == 0,
            r.bar_length == 40,
            !r.initialized,
    {
        AudioMeter { frame_count: 0, bar_length: 40, initialized: false }
    }

    /// The bar: `filled_length` filled cells, the rest blank.
    pub fn create_bar(&self, filled_length: usize) -> (r: String)
        requires
            filled_length <= self.bar_length,
        ensures
            r@.len() == self.bar_length,
            forall|i: int| 0 <= i < filled_length ==> r@[i] == '\u{2588}',
            forall|i: int| filled_length <= i < self.bar_length ==> r@[i] == ' ',
    {
        let mut cells: Vec<char> = Vec::new();
        let mut i: usize = 0;
        while i < filled_length
            invariant
                0 <= i <= filled_length,
                cells@.len() == i,
                forall|k: int| 0 <= k < i ==> cells@[k] == '\u{2588}',
            decreases filled_length - i,
        {
            cells.push('\u{2588}');
            i = i + 1;
        }
        while i < self.bar_length
            invariant
                filled_length <= i <= self.bar_length,
                cells@.len() == i,
                forall|k: int| 0 <= k < filled_length ==> cells@[k] == '\u{2588}',
                forall|k: int| filled_length <= k < i ==> cells@[k] == ' ',
            decreases self.bar_length - i,
        {
            cells.push(' ');
            i = i + 1;
        }
        string_from_chars(&cells)
    }

    /// The label for a signal level given in thousandths of a decibel.
    pub fn get_signal_strength(&self, db: Milli) -> (r: &'static str)
        ensures
            db.thousandths > -20000 ==> r@ =~= "LOUDDDDD"@,
            -35000 < db.thousandths <= -20000 ==> r@ =~= "GOOD"@,
            -50000 < db.thousandths <= -35000 ==> r@ =~= "LOW"@,
            db.thousandths <= -50000 ==> r@ =~= "SILENCE"@,
    {
        if db.thousandths > -20000 {
            "LOUDDDDD"
        } else if db.thousandths > -35000 {
            "GOOD"
        } else if db.thousandths > -50000 {
            "LOW"
        } else {
            "SILENCE"
        }
    }
}

} // verus!
