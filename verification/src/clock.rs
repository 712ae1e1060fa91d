use vstd::prelude::*;

verus! {

use crate::widget::Shape;
use crate::widget::Widget;
use crate::widget::OFF;
use crate::widget::ON_DIM;
use crate::widget::ON_FULL;

/// The 3x5 cell pattern of one decimal digit, row-major. A value outside
/// 0..=9 falls back to the pattern for 0; `render_number` never passes one.
pub open spec fn digit_pattern(d: int) -> Seq<u8> {
    if d == 1 {
        seq![
            OFF, OFF, ON_FULL,
            OFF, ON_DIM, ON_FULL,
            OFF, OFF, ON_FULL,
            OFF, OFF, ON_FULL,
            OFF, OFF, ON_FULL,
        ]
    } else if d == 2 {
        seq![
            ON_FULL, ON_FULL, ON_FULL,
            OFF, OFF, ON_FULL,
            ON_FULL, ON_FULL, ON_FULL,
            ON_FULL, OFF, OFF,
            ON_FULL, ON_FULL, ON_FULL,
        ]
    } else if d == 3 {
        seq![
            ON_FULL, ON_FULL, ON_FULL,
            OFF, OFF, ON_FULL,
            ON_FULL, ON_FULL, OFF,
            OFF, OFF, ON_FULL,
            ON_FULL, ON_FULL, ON_FULL,
        ]
    } else if d == 4 {
        seq![
            ON_FULL, OFF, ON_FULL,
            ON_FULL, OFF, ON_FULL,
            ON_FULL, ON_FULL, ON_FULL,
            OFF, OFF, ON_FULL,
            OFF, OFF, ON_FULL,
        ]
    } else if d == 5 {
        seq![
            ON_FULL, ON_FULL, ON_FULL,
            ON_FULL, OFF, OFF,
            ON_FULL, ON_FULL, ON_FULL,
            OFF, OFF, ON_FULL,
            ON_FULL, ON_FULL, ON_FULL,
        ]
    } else if d == 6 {
        seq![
            OFF, ON_FULL, ON_DIM,
            ON_FULL, OFF, OFF,
            ON_FULL, ON_FULL, ON_FULL,
            ON_FULL, OFF, ON_FULL,
            ON_FULL, ON_FULL, ON_FULL,
        ]
    } else if d == 7 {
        seq![
            ON_FULL, ON_FULL, ON_FULL,
            ON_DIM, OFF, ON_FULL,
            OFF, OFF, ON_FULL,
            OFF, ON_FULL, OFF,
            OFF, ON_FULL, OFF,
        ]
    } else if d == 8 {
        seq![
            ON_FULL, ON_FULL, ON_FULL,
            ON_FULL, OFF, ON_FULL,
            ON_FULL, ON_FULL, ON_FULL,
            ON_FULL, OFF, ON_FULL,
            ON_FULL, ON_FULL, ON_FULL,
        ]
    } else if d == 9 {
        seq![
            ON_FULL, ON_FULL, ON_FULL,
            ON_FULL, OFF, ON_FULL,
            ON_FULL, ON_FULL, ON_FULL,
            OFF, OFF, ON_FULL,
            ON_DIM, ON_FULL, OFF,
        ]
    } else {
        seq![
            OFF, ON_FULL, OFF,
            ON_FULL, OFF, ON_FULL,
            ON_FULL, OFF, ON_FULL,
            ON_FULL, OFF, ON_FULL,
            OFF, ON_FULL, OFF,
        ]
    }
}

/// The 9x5 cell block showing a two-digit number: columns 1..=3 carry the
/// tens digit, columns 5..=7 the ones digit, and the rest stay off.
pub open spec fn number_pattern(num: int) -> Seq<u8> {
    Seq::new(
        45,
        |idx: int|
            if 1 <= idx % 9 <= 3 {
                digit_pattern(num / 10)[(idx / 9) * 3 + idx % 9 - 1]
            } else if 5 <= idx % 9 <= 7 {
                digit_pattern(num % 10)[(idx / 9) * 3 + idx % 9 - 5]
            } else {
                OFF
            },
    )
}

/// The full clock bitmap for a given hour and minute: the hour block, one
/// blank row, then the minute block, 9x11 cells in all.
pub open spec fn time_matrix(h: int, m: int) -> Seq<u8> {
    number_pattern(h) + Seq::new(9, |i: int| OFF) + number_pattern(m)
}

/// Append one three-cell digit row to a bitmap under construction.
fn push_row(v: &mut Vec<u8>, a: u8, b: u8, c: u8)
    ensures
        final(v)@ == old(v)@ + seq![a, b, c],
{
    v.push(a);
    v.push(b);
    v.push(c);
    proof {
        assert(v@ =~= old(v)@ + seq![a, b, c]);
    }
}

/// Relies on chrono: `Local::now` reads the wall clock, and `Timelike::hour`
/// and `Timelike::minute` on its result return the hour number from 0 to 23
/// and the minute number from 0 to 59, as chrono documents. The time read
/// differs from call to call; only those ranges hold of every outcome.
#[verifier::external_body]
fn local_hour_minute() -> (r: (u32, u32))
    ensures
        r.0 < 24,
        r.1 < 60,
{
    let now = chrono::Local::now();
    (chrono::Timelike::hour(&now), chrono::Timelike::minute(&now))
}

/// A widget that shows the local time as HH:MM in 24-hour format.
pub struct ClockWidget {
    pub matrix: Vec<u8>,
    pub shape: Shape,
}

impl ClockWidget {
    /// Construct a digital clock widget in HH:MM 24-hour format.
    pub fn new() -> (w: ClockWidget)
        ensures
            w.wf(),
            w.shape_spec() == (Shape { x: 9, y: 11 }),
            w.bitmap_spec() == Seq::<u8>::empty(),
    {
        ClockWidget { shape: Shape { x: 9, y: 11 }, matrix: Vec::new() }
    }

    /// The 3x5 pattern of one decimal digit.
    pub fn render_digit(num: u32) -> (r: Vec<u8>)
        ensures
            r@ == digit_pattern(num as int),
    {
        let mut v: Vec<u8> = Vec::new();
        match num {
            1 => {
                push_row(&mut v, OFF, OFF, ON_FULL);
                push_row(&mut v, OFF, ON_DIM, ON_FULL);
                push_row(&mut v, OFF, OFF, ON_FULL);
                push_row(&mut v, OFF, OFF, ON_FULL);
                push_row(&mut v, OFF, OFF, ON_FULL);
            },
            2 => {
                push_row(&mut v, ON_FULL, ON_FULL, ON_FULL);
                push_row(&mut v, OFF, OFF, ON_FULL);
                push_row(&mut v, ON_FULL, ON_FULL, ON_FULL);
                push_row(&mut v, ON_FULL, OFF, OFF);
                push_row(&mut v, ON_FULL, ON_FULL, ON_FULL);
            },
            3 => {
                push_row(&mut v, ON_FULL, ON_FULL, ON_FULL);
                push_row(&mut v, OFF, OFF, ON_FULL);
                push_row(&mut v, ON_FULL, ON_FULL, OFF);
                push_row(&mut v, OFF, OFF, ON_FULL);
                push_row(&mut v, ON_FULL, ON_FULL, ON_FULL);
            },
            4 => {
                push_row(&mut v, ON_FULL, OFF, ON_FULL);
                push_row(&mut v, ON_FULL, OFF, ON_FULL);
                push_row(&mut v, ON_FULL, ON_FULL, ON_FULL);
                push_row(&mut v, OFF, OFF, ON_FULL);
                push_row(&mut v, OFF, OFF, ON_FULL);
            },
            5 => {
                push_row(&mut v, ON_FULL, ON_FULL, ON_FULL);
                push_row(&mut v, ON_FULL, OFF, OFF);
                push_row(&mut v, ON_FULL, ON_FULL, ON_FULL);
                push_row(&mut v, OFF, OFF, ON_FULL);
                push_row(&mut v, ON_FULL, ON_FULL, ON_FULL);
            },
            6 => {
                push_row(&mut v, OFF, ON_FULL, ON_DIM);
                push_row(&mut v, ON_FULL, OFF, OFF);
                push_row(&mut v, ON_FULL, ON_FULL, ON_FULL);
                push_row(&mut v, ON_FULL, OFF, ON_FULL);
                push_row(&mut v, ON_FULL, ON_FULL, ON_FULL);
            },
            7 => {
                push_row(&mut v, ON_FULL, ON_FULL, ON_FULL);
                push_row(&mut v, ON_DIM, OFF, ON_FULL);
                push_row(&mut v, OFF, OFF, ON_FULL);
                push_row(&mut v, OFF, ON_FULL, OFF);
                push_row(&mut v, OFF, ON_FULL, OFF);
            },
            8 => {
                push_row(&mut v, ON_FULL, ON_FULL, ON_FULL);
                push_row(&mut v, ON_FULL, OFF, ON_FULL);
                push_row(&mut v, ON_FULL, ON_FULL, ON_FULL);
                push_row(&mut v, ON_FULL, OFF, ON_FULL);
                push_row(&mut v, ON_FULL, ON_FULL, ON_FULL);
            },
            9 => {
                push_row(&mut v, ON_FULL, ON_FULL, ON_FULL);
                push_row(&mut v, ON_FULL, OFF, ON_FULL);
                push_row(&mut v, ON_FULL, ON_FULL, ON_FULL);
                push_row(&mut v, OFF, OFF, ON_FULL);
                push_row(&mut v, ON_DIM, ON_FULL, OFF);
            },
            _ => {
                push_row(&mut v, OFF, ON_FULL, OFF);
                push_row(&mut v, ON_FULL, OFF, ON_FULL);
                push_row(&mut v, ON_FULL, OFF, ON_FULL);
                push_row(&mut v, ON_FULL, OFF, ON_FULL);
                push_row(&mut v, OFF, ON_FULL, OFF);
            },
        }
        proof {
            assert(v@ =~= digit_pattern(num as int));
        }
        v
    }

    /// The 9x5 block showing a two-digit number, tens digit left of the
    /// ones digit, with blank separator columns.
    pub fn render_number(num: u32) -> (r: Vec<u8>)
        ensures
            r@ == number_pattern(num as int),
            r@.len() == 45,
    {
        let first = Self::render_digit(num / 10);
        let second = Self::render_digit(num % 10);
        let mut numrow: Vec<u8> = Vec::new();
        let mut idx: usize = 0;
        while idx < 45
            invariant
                idx <= 45,
                first@ == digit_pattern(num as int / 10),
                second@ == digit_pattern(num as int % 10),
                first@.len() == 15,
                second@.len() == 15,
                numrow@.len() == idx,
                forall|k: int| 0 <= k < idx as int ==> numrow@[k] == number_pattern(num as int)[k],
            decreases 45 - idx,
        {
            proof {
                vstd::arithmetic::div_mod::lemma_fundamental_div_mod(idx as int, 9);
                vstd::arithmetic::div_mod::lemma_mod_bound(idx as int, 9);
            }
            let col = idx % 9;
            let row = idx / 9;
            let cell = if col >= 1 && col <= 3 {
                first[row * 3 + col - 1]
            } else if col >= 5 && col <= 7 {
                second[row * 3 + col - 5]
            } else {
                OFF
            };
            numrow.push(cell);
            idx = idx + 1;
        }
        numrow
    }

    /// The full clock bitmap for the given hour and minute.
    pub fn render_time(hour: u32, minute: u32) -> (r: Vec<u8>)
        ensures
            r@ == time_matrix(hour as int, minute as int),
            r@.len() == 99,
    {
        let mut v = Self::render_number(hour);
        let mut i: usize = 0;
        while i < 9
            invariant
                i <= 9,
                v@ == number_pattern(hour as int) + Seq::new(i as nat, |t: int| OFF),
            decreases 9 - i,
        {
            v.push(OFF);
            proof {
                assert(v@ =~= number_pattern(hour as int) + Seq::new((i + 1) as nat, |t: int| OFF));
            }
            i = i + 1;
        }
        let second = Self::render_number(minute);
        let mut j: usize = 0;
        while j < second.len()
            invariant
                j <= second@.len(),
                second@ == number_pattern(minute as int),
                second@.len() == 45,
                v@ == number_pattern(hour as int) + Seq::new(9, |t: int| OFF) + second@.take(
                    j as int,
                ),
            decreases second@.len() - j,
        {
            v.push(second[j]);
            proof {
                assert(second@.take(j + 1) =~= second@.take(j as int).push(second@[j as int]));
                assert(v@ =~= number_pattern(hour as int) + Seq::new(9, |t: int| OFF)
                    + second@.take(j + 1));
            }
            j = j + 1;
        }
        proof {
            assert(second@.take(45) =~= second@);
            assert(v@ =~= time_matrix(hour as int, minute as int));
        }
        v
    }
}

impl Widget for ClockWidget {
    /// The clock's extent never leaves eleven rows of nine cells.
    open spec fn wf(&self) -> bool {
        self.shape == (Shape { x: 9, y: 11 })
    }

    open spec fn shape_spec(&self) -> Shape {
        self.shape
    }

    open spec fn bitmap_spec(&self) -> Seq<u8> {
        self.matrix@
    }

    /// Re-render from the wall clock. Which hour and minute were read is up
    /// to the clock, but the bitmap always shows some valid HH:MM pair.
    fn update(&mut self)
        ensures
            exists|h: int, m: int|
                0 <= h < 24 && 0 <= m < 60 && final(self).bitmap_spec() == time_matrix(h, m),
    {
        let (hour, minute) = local_hour_minute();
        self.matrix = Self::render_time(hour, minute);
        proof {
            let h = hour as int;
            let m = minute as int;
            assert(0 <= h < 24 && 0 <= m < 60 && self.matrix@ == time_matrix(h, m));
        }
    }

    fn get_matrix(&self) -> (m: &Vec<u8>) {
        &self.matrix
    }

    fn get_shape(&self) -> (s: &Shape) {
        &self.shape
    }
}

} // verus!
