use vstd::prelude::*;

verus! {

use crate::widget::Shape;
use crate::widget::Widget;
use crate::widget::OFF;
use crate::widget::ON_DIM;

/// How many segments the two-row battery bar has in all: its two rows of
/// `PANEL_WIDTH` cells light up alternately, one half-step at a time.
pub const BATTERY_SEGMENTS: u8 = 17;

/// A host battery reading reduced to what the bar needs: how many of the
/// bar's segments are lit, whether the battery is charging, and whether it
/// is already nearly full (which suppresses the charging blink).
#[derive(Clone, Copy, PartialEq, Eq, Structural, Debug)]
pub struct BatteryReading {
    pub segments: u8,
    pub charging: bool,
    pub nearly_full: bool,
}

/// The reading's segment count, clamped to the bar's capacity so that a
/// nonsense reading degrades to a full bar instead of failing.
pub open spec fn clamped_segments(rd: BatteryReading) -> int {
    if rd.segments > BATTERY_SEGMENTS {
        BATTERY_SEGMENTS as int
    } else {
        rd.segments as int
    }
}

/// The charging blink runs only while charging and not yet nearly full.
pub open spec fn blinking(rd: BatteryReading) -> bool {
    rd.charging && !rd.nearly_full
}

/// The bar cell the charging blink toggles: the newest cell of whichever
/// row is ahead (the first row when the segment count is odd, else the
/// second row).
pub open spec fn blink_cell(n: int) -> int {
    if (n + 1) / 2 > n / 2 {
        (n + 1) / 2
    } else {
        9 + n / 2
    }
}

/// The steady two-row bar for `n` lit segments: cell `k` of the first row
/// (offsets 0..=8) is dim-lit up to and including `(n + 1) / 2`, cell `k`
/// of the second row (offsets 9..=17) up to and including `n / 2`.
pub open spec fn battery_base(n: int, k: int) -> u8 {
    if k < 9 {
        if k <= (n + 1) / 2 {
            ON_DIM
        } else {
            OFF
        }
    } else {
        if k - 9 <= n / 2 {
            ON_DIM
        } else {
            OFF
        }
    }
}

/// Cell `k` of the rendered battery bitmap: the steady bar, except that
/// while the charging blink runs, the blink cell alternates between dim
/// and off with the phase flag `phase`.
pub open spec fn battery_cell(rd: BatteryReading, phase: bool, k: int) -> u8 {
    let n = clamped_segments(rd);
    if blinking(rd) && k == blink_cell(n) {
        if phase {
            ON_DIM
        } else {
            OFF
        }
    } else {
        battery_base(n, k)
    }
}

/// The whole rendered battery bitmap, row-major, two rows of nine cells.
pub open spec fn battery_matrix_spec(rd: BatteryReading, phase: bool) -> Seq<u8> {
    Seq::new(18, |k: int| battery_cell(rd, phase, k))
}

/// A widget that draws the charge left in the host battery as a two-row
/// bar, with a blinking tip while the battery charges. The host reading is
/// supplied through `set_reading`; `update` renders from the stored one.
pub struct BatteryWidget {
    pub matrix: Vec<u8>,
    pub shape: Shape,
    pub chrg_ind: bool,
    pub reading: BatteryReading,
}

impl BatteryWidget {
    pub fn new() -> (w: BatteryWidget)
        ensures
            w.wf(),
            w.shape_spec() == (Shape { x: 9, y: 2 }),
            w.bitmap_spec() == Seq::<u8>::empty(),
            w.chrg_ind == false,
            w.reading == (BatteryReading { segments: 0, charging: false, nearly_full: false }),
    {
        BatteryWidget {
            matrix: Vec::new(),
            chrg_ind: false,
            reading: BatteryReading { segments: 0, charging: false, nearly_full: false },
            shape: Shape { x: 9, y: 2 },
        }
    }

    /// Store the latest host battery reading ahead of the next `update`,
    /// clamping the segment count to the bar's capacity.
    pub fn set_reading(&mut self, segments: u8, charging: bool, nearly_full: bool)
        requires
            old(self).wf(),
        ensures
            final(self).wf(),
            final(self).reading == (BatteryReading {
                segments: if segments > BATTERY_SEGMENTS {
                    BATTERY_SEGMENTS
                } else {
                    segments
                },
                charging,
                nearly_full,
            }),
            final(self).matrix == old(self).matrix,
            final(self).shape == old(self).shape,
            final(self).chrg_ind == old(self).chrg_ind,
    {
        let clamped = if segments > BATTERY_SEGMENTS {
            BATTERY_SEGMENTS
        } else {
            segments
        };
        self.reading = BatteryReading { segments: clamped, charging, nearly_full };
    }
}

impl Widget for BatteryWidget {
    /// The battery bar's extent never leaves two rows of nine cells.
    open spec fn wf(&self) -> bool {
        self.shape == (Shape { x: 9, y: 2 })
    }

    open spec fn shape_spec(&self) -> Shape {
        self.shape
    }

    open spec fn bitmap_spec(&self) -> Seq<u8> {
        self.matrix@
    }

    fn update(&mut self)
        ensures
            final(self).reading == old(self).reading,
            final(self).bitmap_spec() == battery_matrix_spec(
                old(self).reading,
                old(self).chrg_ind,
            ),
            final(self).chrg_ind == (if blinking(old(self).reading) {
                !old(self).chrg_ind
            } else {
                old(self).chrg_ind
            }),
    {
        let n: u8 = if self.reading.segments > BATTERY_SEGMENTS {
            BATTERY_SEGMENTS
        } else {
            self.reading.segments
        };
        let row_1: usize = ((n + 1) / 2) as usize;
        let row_2: usize = (n / 2) as usize;

        let mut m: Vec<u8> = Vec::new();
        while m.len() < 18
            invariant
                m@.len() <= 18,
                forall|k: int| 0 <= k < m@.len() ==> m@[k] == OFF,
            decreases 18 - m.len(),
        {
            m.push(OFF);
        }

        let mut i: usize = 0;
        while i < 9
            invariant
                i <= 9,
                row_1 == (n + 1) / 2,
                row_2 == n / 2,
                n <= BATTERY_SEGMENTS,
                m@.len() == 18,
                forall|k: int|
                    0 <= k < i as int ==> m@[k] == (if k <= row_1 {
                        ON_DIM
                    } else {
                        OFF
                    }),
                forall|k: int| i as int <= k < 9 ==> m@[k] == OFF,
                forall|k: int|
                    9 <= k < 9 + i as int ==> m@[k] == (if k - 9 <= row_2 {
                        ON_DIM
                    } else {
                        OFF
                    }),
                forall|k: int| 9 + i as int <= k < 18 ==> m@[k] == OFF,
            decreases 9 - i,
        {
            if i <= row_1 {
                m[i] = ON_DIM;
            }
            if i <= row_2 {
                m[9 + i] = ON_DIM;
            }
            i = i + 1;
        }

        if self.reading.charging && !self.reading.nearly_full {
            if row_1 > row_2 {
                m[row_1] = if self.chrg_ind {
                    ON_DIM
                } else {
                    OFF
                };
            } else {
                m[9 + row_2] = if self.chrg_ind {
                    ON_DIM
                } else {
                    OFF
                };
            }
            self.chrg_ind = !self.chrg_ind;
        }

        proof {
            let rd = old(self).reading;
            let phase = old(self).chrg_ind;
            assert forall|k: int| 0 <= k < 18 implies m@[k] == battery_cell(rd, phase, k) by {
                assert(clamped_segments(rd) == n as int);
            }
            assert(m@ =~= battery_matrix_spec(rd, phase));
        }
        self.matrix = m;
    }

    fn get_matrix(&self) -> (m: &Vec<u8>) {
        &self.matrix
    }

    fn get_shape(&self) -> (s: &Shape) {
        &self.shape
    }
}

} // verus!
