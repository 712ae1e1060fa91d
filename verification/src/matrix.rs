use vstd::prelude::*;

verus! {

use crate::placement::placed_wf;
use crate::placement::PlacedBitmap;
use crate::placement::Placement;
use crate::widget::Shape;
use crate::widget::Widget;
use crate::PANEL_HEIGHT;
use crate::PANEL_WIDTH;

/// A panel-sized brightness canvas: `PANEL_HEIGHT` rows, each `PANEL_WIDTH`
/// cells wide, one brightness byte per cell (0 = off).
pub type Matrix = Vec<Vec<u8>>;

/// `g` is a rectangular grid of `rows` rows, each `cols` cells wide.
pub open spec fn is_rect<T>(g: Seq<Seq<T>>, rows: int, cols: int) -> bool {
    &&& g.len() == rows
    &&& forall|i: int| 0 <= i < rows ==> (#[trigger] g[i]).len() == cols
}

/// `g` has the dimensions of one panel's LED field.
pub open spec fn is_canvas(g: Seq<Seq<u8>>) -> bool {
    is_rect(g, PANEL_HEIGHT as int, PANEL_WIDTH as int)
}

/// The grid with `g`'s rows and columns switched: cell (j, i) of the result
/// holds cell (i, j) of `g`.
pub open spec fn transpose_spec(g: Seq<Seq<u8>>) -> Seq<Seq<u8>> {
    if g.len() == 0 {
        Seq::empty()
    } else {
        Seq::new(g[0].len(), |j: int| Seq::new(g.len(), |i: int| g[i][j]))
    }
}

/// Transposing twice gives the original grid back, for any rectangular grid
/// with at least one row and one column.
pub proof fn lemma_transpose_self_inverse(g: Seq<Seq<u8>>, rows: int, cols: int)
    requires
        is_rect(g, rows, cols),
        0 < rows,
        0 < cols,
    ensures
        is_rect(transpose_spec(g), cols, rows),
        transpose_spec(transpose_spec(g)) == g,
{
    let t = transpose_spec(g);
    assert(t.len() == cols);
    let tt = transpose_spec(t);
    assert forall|i: int| 0 <= i < rows implies (#[trigger] tt[i]) == g[i] by {
        assert(tt[i].len() == cols);
        assert(g[i].len() == cols);
        assert forall|j: int| 0 <= j < cols implies tt[i][j] == g[i][j] by {
            assert(t[j][i] == g[i][j]);
        }
        assert(tt[i] =~= g[i]);
    }
    assert(tt =~= g);
}

/// A fresh canvas with every cell off.
pub fn new_canvas() -> (c: Matrix)
    ensures
        is_canvas(c.deep_view()),
        forall|i: int, j: int|
            0 <= i < PANEL_HEIGHT && 0 <= j < PANEL_WIDTH ==> c.deep_view()[i][j] == 0u8,
{
    let mut c: Vec<Vec<u8>> = Vec::new();
    while c.len() < PANEL_HEIGHT
        invariant
            c@.len() <= PANEL_HEIGHT,
            forall|i: int| 0 <= i < c@.len() ==> (#[trigger] c@[i])@.len() == PANEL_WIDTH,
            forall|i: int, j: int|
                0 <= i < c@.len() && 0 <= j < PANEL_WIDTH ==> (#[trigger] c@[i]@[j]) == 0u8,
        decreases PANEL_HEIGHT - c.len(),
    {
        let mut row: Vec<u8> = Vec::new();
        while row.len() < PANEL_WIDTH
            invariant
                row@.len() <= PANEL_WIDTH,
                forall|j: int| 0 <= j < row@.len() ==> (#[trigger] row@[j]) == 0u8,
            decreases PANEL_WIDTH - row.len(),
        {
            row.push(0u8);
        }
        c.push(row);
    }
    proof {
        assert forall|i: int| 0 <= i < PANEL_HEIGHT implies (#[trigger] c.deep_view()[i])
            == c@[i]@ by {
            assert(c.deep_view()[i] =~= c@[i]@);
        }
    }
    c
}

/// The canvas `c` with the row-major bitmap `bm` (`w` cells wide, `h` cells
/// tall) laid over it at offset (`x`, `y`). Cells under the bitmap take its
/// values; every other cell keeps the value it had in `c`.
pub open spec fn emplace_spec(
    c: Seq<Seq<u8>>,
    bm: Seq<u8>,
    w: int,
    h: int,
    x: int,
    y: int,
) -> Seq<Seq<u8>> {
    Seq::new(
        c.len(),
        |i: int|
            Seq::new(
                c[i].len(),
                |j: int|
                    if y <= i < y + h && x <= j < x + w {
                        bm[(i - y) * w + (j - x)]
                    } else {
                        c[i][j]
                    },
            ),
    )
}

/// Copy a row-major bitmap of the given shape onto a canvas, cell by cell,
/// starting at (`x`, `y`). The caller must have validated the bounds; the
/// operation itself does not reject anything.
pub fn emplace_bitmap(orig: Matrix, bitmap: &Vec<u8>, shape: &Shape, x: usize, y: usize) -> (out:
    Matrix)
    requires
        is_canvas(orig.deep_view()),
        bitmap@.len() == shape.x as int * shape.y as int,
        x + shape.x <= PANEL_WIDTH,
        y + shape.y <= PANEL_HEIGHT,
    ensures
        is_canvas(out.deep_view()),
        out.deep_view() == emplace_spec(
            orig.deep_view(),
            bitmap@,
            shape.x as int,
            shape.y as int,
            x as int,
            y as int,
        ),
{
    let ghost o = orig.deep_view();
    let ghost bm = bitmap@;
    let w = shape.x;
    let h = shape.y;
    let mut out = orig;
    proof {
        assert forall|r: int| 0 <= r < PANEL_HEIGHT implies (#[trigger] out@[r])@.len()
            == PANEL_WIDTH && forall|cc: int| 0 <= cc < PANEL_WIDTH ==> out@[r]@[cc] == o[r][cc] by {
            assert(o[r] =~= out@[r]@);
        }
    }
    let mut i: usize = 0;
    while i < h
        invariant
            i <= h,
            w == shape.x,
            h == shape.y,
            x + w <= PANEL_WIDTH,
            y + h <= PANEL_HEIGHT,
            bm == bitmap@,
            bm.len() == w as int * h as int,
            out@.len() == PANEL_HEIGHT,
            forall|r: int| 0 <= r < PANEL_HEIGHT ==> (#[trigger] out@[r])@.len() == PANEL_WIDTH,
            forall|r: int, cc: int|
                0 <= r < PANEL_HEIGHT && 0 <= cc < PANEL_WIDTH && !(y <= r < y + i && x <= cc < x
                    + w) ==> (#[trigger] out@[r]@[cc]) == o[r][cc],
            forall|r: int, cc: int|
                y <= r < y + i && x <= cc < x + w ==> (#[trigger] out@[r]@[cc]) == bm[(r - y) * (
                w as int) + (cc - x)],
        decreases h - i,
    {
        let mut j: usize = 0;
        while j < w
            invariant
                i < h,
                j <= w,
                w == shape.x,
                h == shape.y,
                x + w <= PANEL_WIDTH,
                y + h <= PANEL_HEIGHT,
                bm == bitmap@,
                bm.len() == w as int * h as int,
                out@.len() == PANEL_HEIGHT,
                forall|r: int| 0 <= r < PANEL_HEIGHT ==> (#[trigger] out@[r])@.len() == PANEL_WIDTH,
                forall|r: int, cc: int|
                    0 <= r < PANEL_HEIGHT && 0 <= cc < PANEL_WIDTH && !(y <= r < y + i && x <= cc
                        < x + w) && !(r == y + i && x <= cc < x + j) ==> (#[trigger] out@[r]@[cc])
                        == o[r][cc],
                forall|r: int, cc: int|
                    y <= r < y + i && x <= cc < x + w ==> (#[trigger] out@[r]@[cc]) == bm[(r - y)
                        * (w as int) + (cc - x)],
                forall|cc: int|
                    x <= cc < x + j ==> (#[trigger] out@[y + i as int]@[cc]) == bm[(i as int) * (
                    w as int) + (cc - x)],
            decreases w - j,
        {
            proof {
                assert(i as int * w as int + j < w as int * h as int && i as int * w as int + j
                    >= 0) by (nonlinear_arith)
                    requires
                        0 <= i < h,
                        0 <= j < w,
                ;
                assert(i * w + j < bm.len());
                assert(i as int * w as int <= 33int * 9int) by (nonlinear_arith)
                    requires
                        0 <= i <= 33,
                        0 <= w <= 9,
                ;
            }
            let v = bitmap[i * w + j];
            out[y + i][x + j] = v;
            j = j + 1;
        }
        i = i + 1;
    }
    proof {
        let e = emplace_spec(o, bm, w as int, h as int, x as int, y as int);
        assert forall|r: int| 0 <= r < PANEL_HEIGHT implies (#[trigger] out.deep_view()[r])
            == e[r] by {
            assert(out.deep_view()[r] =~= out@[r]@);
            assert(o[r].len() == PANEL_WIDTH);
            assert forall|cc: int| 0 <= cc < PANEL_WIDTH implies out@[r]@[cc] == e[r][cc] by {
                if y <= r < y + h && x <= cc < x + w {
                    assert(out@[r]@[cc] == bm[(r - y) * (w as int) + (cc - x)]);
                } else {
                    assert(out@[r]@[cc] == o[r][cc]);
                }
            }
            assert(out@[r]@ =~= e[r]);
        }
        assert(out.deep_view() =~= e);
    }
    out
}

/// Overlay a widget's current bitmap on a canvas at the given origin.
pub fn emplace<W: Widget>(orig: Matrix, widget: &W, x: usize, y: usize) -> (out: Matrix)
    requires
        is_canvas(orig.deep_view()),
        widget.bitmap_spec().len() == widget.shape_spec().x as int * widget.shape_spec().y as int,
        x + widget.shape_spec().x <= PANEL_WIDTH,
        y + widget.shape_spec().y <= PANEL_HEIGHT,
    ensures
        is_canvas(out.deep_view()),
        out.deep_view() == emplace_spec(
            orig.deep_view(),
            widget.bitmap_spec(),
            widget.shape_spec().x as int,
            widget.shape_spec().y as int,
            x as int,
            y as int,
        ),
{
    let shape = widget.get_shape();
    let sh = Shape { x: shape.x, y: shape.y };
    let bitmap = widget.get_matrix();
    emplace_bitmap(orig, bitmap, &sh, x, y)
}

/// The placement's rectangle contains the panel cell (r, c).
pub open spec fn covers(p: Placement, r: int, c: int) -> bool {
    &&& p.y <= r < p.y + p.shape.y
    &&& p.x <= c < p.x + p.shape.x
}

/// The bitmap cell that the placed bitmap `pb` shows at panel cell (r, c),
/// meaningful only where `covers(pb.place, r, c)` holds.
pub open spec fn placed_cell(pb: PlacedBitmap, r: int, c: int) -> u8 {
    pb.bitmap@[(r - pb.place.y) * pb.place.shape.x as int + (c - pb.place.x)]
}

/// The value cell (r, c) of panel `panel` shows once every placement in
/// `items` has been laid down in declaration order: the placement latest in
/// the list that covers the cell wins, and a cell no placement covers is off.
pub open spec fn composed_cell(items: Seq<PlacedBitmap>, panel: int, r: int, c: int) -> u8
    decreases items.len(),
{
    if items.len() == 0 {
        0u8
    } else if items.last().place.panel == panel && covers(items.last().place, r, c) {
        placed_cell(items.last(), r, c)
    } else {
        composed_cell(items.drop_last(), panel, r, c)
    }
}

/// Build one panel's canvas for the current tick: start from a fresh canvas
/// and lay down every placement that targets `panel`, in declaration order.
/// The result is a function of the placement list alone, so composing the
/// same list twice gives the same canvas.
pub fn compose(items: &Vec<PlacedBitmap>, panel: usize) -> (out: Matrix)
    requires
        forall|i: int| 0 <= i < items@.len() ==> placed_wf(#[trigger] items@[i]),
    ensures
        is_canvas(out.deep_view()),
        forall|r: int, c: int|
            0 <= r < PANEL_HEIGHT && 0 <= c < PANEL_WIDTH ==> out.deep_view()[r][c]
                == composed_cell(items@, panel as int, r, c),
{
    let mut canvas = new_canvas();
    proof {
        assert(items@.take(0) =~= Seq::<PlacedBitmap>::empty());
    }
    let mut idx: usize = 0;
    while idx < items.len()
        invariant
            idx <= items@.len(),
            forall|i: int| 0 <= i < items@.len() ==> placed_wf(#[trigger] items@[i]),
            is_canvas(canvas.deep_view()),
            forall|r: int, c: int|
                0 <= r < PANEL_HEIGHT && 0 <= c < PANEL_WIDTH ==> canvas.deep_view()[r][c]
                    == composed_cell(items@.take(idx as int), panel as int, r, c),
        decreases items@.len() - idx,
    {
        let ghost pre = items@.take(idx as int);
        let ghost post = items@.take(idx as int + 1);
        proof {
            assert(post.drop_last() =~= pre);
            assert(post.last() == items@[idx as int]);
        }
        let it = &items[idx];
        if it.place.panel == panel {
            let ghost before = canvas.deep_view();
            canvas = emplace_bitmap(canvas, &it.bitmap, &it.place.shape, it.place.x, it.place.y);
            proof {
                assert forall|r: int, c: int|
                    0 <= r < PANEL_HEIGHT && 0 <= c
                        < PANEL_WIDTH implies canvas.deep_view()[r][c] == composed_cell(
                    post,
                    panel as int,
                    r,
                    c,
                ) by {
                    assert(before[r].len() == PANEL_WIDTH);
                    if covers(it.place, r, c) {
                        assert(canvas.deep_view()[r][c] == placed_cell(items@[idx as int], r, c));
                        assert(post.last().place.panel == panel);
                        assert(covers(post.last().place, r, c));
                        assert(composed_cell(post, panel as int, r, c) == placed_cell(
                            post.last(),
                            r,
                            c,
                        ));
                    } else {
                        assert(canvas.deep_view()[r][c] == before[r][c]);
                        assert(!covers(post.last().place, r, c));
                        assert(composed_cell(post, panel as int, r, c) == composed_cell(
                            pre,
                            panel as int,
                            r,
                            c,
                        ));
                        assert(before[r][c] == composed_cell(pre, panel as int, r, c));
                    }
                }
            }
        } else {
            proof {
                assert forall|r: int, c: int|
                    0 <= r < PANEL_HEIGHT && 0 <= c
                        < PANEL_WIDTH implies canvas.deep_view()[r][c] == composed_cell(
                    post,
                    panel as int,
                    r,
                    c,
                ) by {
                    assert(composed_cell(post, panel as int, r, c) == composed_cell(
                        pre,
                        panel as int,
                        r,
                        c,
                    ));
                }
            }
        }
        idx = idx + 1;
    }
    proof {
        assert(items@.take(items@.len() as int) =~= items@);
    }
    canvas
}

/// Later placements win: if the placement at position `j` targets `panel`
/// and covers cell (r, c), and no placement after it does, then the composed
/// canvas shows placement `j`'s bitmap value at that cell.
pub proof fn lemma_overlap_z_order(items: Seq<PlacedBitmap>, panel: int, j: int, r: int, c: int)
    requires
        0 <= j < items.len(),
        items[j].place.panel == panel,
        covers(items[j].place, r, c),
        forall|k: int|
            j < k < items.len() ==> !((#[trigger] items[k]).place.panel == panel && covers(
                items[k].place,
                r,
                c,
            )),
    ensures
        composed_cell(items, panel, r, c) == placed_cell(items[j], r, c),
    decreases items.len(),
{
    if j == items.len() - 1 {
        assert(items.last() == items[j]);
    } else {
        let prefix = items.drop_last();
        assert(items.last() == items[items.len() - 1]);
        assert(!(items.last().place.panel == panel && covers(items.last().place, r, c)));
        assert(prefix[j] == items[j]);
        assert forall|k: int|
            j < k < prefix.len() implies !((#[trigger] prefix[k]).place.panel == panel && covers(
            prefix[k].place,
            r,
            c,
        )) by {
            assert(prefix[k] == items[k]);
        }
        lemma_overlap_z_order(prefix, panel, j, r, c);
    }
}

/// Composition is deterministic: two canvases whose cells both agree with
/// `composed_cell` for the same placement list and panel are the same canvas.
pub proof fn lemma_compose_deterministic(
    items: Seq<PlacedBitmap>,
    panel: int,
    a: Seq<Seq<u8>>,
    b: Seq<Seq<u8>>,
)
    requires
        is_canvas(a),
        is_canvas(b),
        forall|r: int, c: int|
            0 <= r < PANEL_HEIGHT && 0 <= c < PANEL_WIDTH ==> a[r][c] == composed_cell(
                items,
                panel,
                r,
                c,
            ),
        forall|r: int, c: int|
            0 <= r < PANEL_HEIGHT && 0 <= c < PANEL_WIDTH ==> b[r][c] == composed_cell(
                items,
                panel,
                r,
                c,
            ),
    ensures
        a == b,
{
    assert forall|r: int| 0 <= r < PANEL_HEIGHT implies (#[trigger] a[r]) == b[r] by {
        assert forall|c: int| 0 <= c < PANEL_WIDTH implies a[r][c] == b[r][c] by {
            assert(a[r][c] == composed_cell(items, panel, r, c));
            assert(b[r][c] == composed_cell(items, panel, r, c));
        }
        assert(a[r] =~= b[r]);
    }
    assert(a =~= b);
}

/// Switch a rectangular grid's rows and columns.
pub fn transpose(arr: &Vec<Vec<u8>>, rows: usize, cols: usize) -> (out: Vec<Vec<u8>>)
    requires
        is_rect(arr.deep_view(), rows as int, cols as int),
        0 < rows,
        0 < cols,
    ensures
        is_rect(out.deep_view(), cols as int, rows as int),
        out.deep_view() == transpose_spec(arr.deep_view()),
        forall|i: int, j: int|
            0 <= i < rows && 0 <= j < cols ==> out.deep_view()[j][i] == arr.deep_view()[i][j],
{
    let ghost g = arr.deep_view();
    proof {
        assert forall|i: int| 0 <= i < rows implies (#[trigger] arr@[i])@.len() == cols by {
            assert(g[i] =~= arr@[i]@);
        }
    }
    let mut out: Vec<Vec<u8>> = Vec::new();
    while out.len() < cols
        invariant
            is_rect(g, rows as int, cols as int),
            0 < rows,
            0 < cols,
            g == arr.deep_view(),
            arr@.len() == rows,
            forall|i: int| 0 <= i < rows ==> (#[trigger] arr@[i])@.len() == cols,
            forall|i: int, j: int| 0 <= i < rows && 0 <= j < cols ==> g[i][j] == arr@[i]@[j],
            out@.len() <= cols,
            forall|j: int| 0 <= j < out@.len() ==> (#[trigger] out@[j])@.len() == rows,
            forall|i: int, j: int|
                0 <= i < rows && 0 <= j < out@.len() ==> (#[trigger] out@[j]@[i]) == g[i][j],
        decreases cols - out.len(),
    {
        let j = out.len();
        let mut col: Vec<u8> = Vec::new();
        while col.len() < rows
            invariant
                arr@.len() == rows,
                forall|i: int| 0 <= i < rows ==> (#[trigger] arr@[i])@.len() == cols,
                forall|i: int, jj: int|
                    0 <= i < rows && 0 <= jj < cols ==> g[i][jj] == arr@[i]@[jj],
                j < cols,
                col@.len() <= rows,
                forall|i: int| 0 <= i < col@.len() ==> (#[trigger] col@[i]) == g[i][j as int],
            decreases rows - col.len(),
        {
            let i = col.len();
            col.push(arr[i][j]);
        }
        out.push(col);
    }
    proof {
        let t = transpose_spec(g);
        assert(g[0].len() == cols);
        assert forall|j: int| 0 <= j < cols implies (#[trigger] out.deep_view()[j]) == t[j] by {
            assert(out.deep_view()[j] =~= out@[j]@);
            assert forall|i: int| 0 <= i < rows implies out@[j]@[i] == t[j][i] by {
                assert(t[j][i] == g[i][j]);
            }
            assert(out@[j]@ =~= t[j]);
        }
        assert(out.deep_view() =~= t);
        assert forall|i: int, j: int| 0 <= i < rows && 0 <= j < cols implies out.deep_view()[j][i]
            == arr.deep_view()[i][j] by {
            assert(out.deep_view()[j] == t[j]);
            assert(t[j][i] == g[i][j]);
        }
    }
    out
}

/// The number of bytes in one packed 1-bit pattern frame:
/// ceil(PANEL_WIDTH * PANEL_HEIGHT / 8).
pub const PATTERN_BYTES: usize = 39;

/// Bit `i` (0 = least significant) of byte `b`.
pub open spec fn bit_at(b: u8, i: u8) -> bool {
    (b >> i) & 1 == 1
}

/// Bit number `k` of a packed byte stream: bit `k % 8` (least significant
/// bit first) of byte `k / 8`.
pub open spec fn stream_bit(p: Seq<u8>, k: int) -> bool {
    bit_at(p[k / 8], (k % 8) as u8)
}

/// `p` is the packed 1-bit pattern of the boolean grid `g`: scanning the
/// grid row-major, the cell at row `i`, column `j` is cell number
/// `i * PANEL_WIDTH + j`, and cell number `k` lands in stream bit `k`. The
/// six bits past the last cell stay clear, so the packed bytes are a
/// function of the grid alone.
pub open spec fn pattern_encodes(g: Seq<Seq<bool>>, p: Seq<u8>) -> bool {
    &&& p.len() == PATTERN_BYTES
    &&& forall|k: int|
        0 <= k < PANEL_HEIGHT * PANEL_WIDTH ==> (#[trigger] stream_bit(p, k) <==> g[k
            / PANEL_WIDTH as int][k % PANEL_WIDTH as int])
    &&& forall|k: int|
        PANEL_HEIGHT * PANEL_WIDTH <= k < PATTERN_BYTES * 8 ==> !(#[trigger] stream_bit(p, k))
}

/// Or-ing `v << offs` into a byte whose bit `offs` is clear sets exactly
/// that bit (when `v` is 1) and leaves every other bit alone.
proof fn lemma_set_bit(b_old: u8, b_new: u8, offs: u8, v: u8)
    by (bit_vector)
    requires
        offs < 8,
        v == 0 || v == 1,
        !bit_at(b_old, offs),
        b_new == b_old | (v << offs),
    ensures
        bit_at(b_new, offs) <==> v == 1,
        forall|t: u8| t < 8 && t != offs ==> (bit_at(b_new, t) <==> bit_at(b_old, t)),
{
}

/// Every bit of the zero byte is clear.
proof fn lemma_zero_bits()
    by (bit_vector)
    ensures
        forall|t: u8| t < 8 ==> !bit_at(0u8, t),
{
}

/// Two bytes that agree on all eight bits are equal.
proof fn lemma_byte_from_bits(a: u8, b: u8)
    by (bit_vector)
    requires
        bit_at(a, 0) == bit_at(b, 0),
        bit_at(a, 1) == bit_at(b, 1),
        bit_at(a, 2) == bit_at(b, 2),
        bit_at(a, 3) == bit_at(b, 3),
        bit_at(a, 4) == bit_at(b, 4),
        bit_at(a, 5) == bit_at(b, 5),
        bit_at(a, 6) == bit_at(b, 6),
        bit_at(a, 7) == bit_at(b, 7),
    ensures
        a == b,
{
}

/// Bit position `t` of a packed byte stream sits at bit `t % 8` of byte
/// `t / 8`, and that decomposition is exact.
proof fn lemma_bit_position(t: int)
    requires
        0 <= t < 312,
    ensures
        0 <= t / 8 < 39,
        0 <= t % 8 < 8,
        t == 8 * (t / 8) + t % 8,
{
    vstd::arithmetic::div_mod::lemma_fundamental_div_mod(t, 8);
    vstd::arithmetic::div_mod::lemma_mod_bound(t, 8);
}

/// Cell number `t` of a row-major scan lies in row `t / 9`, column `t % 9`.
proof fn lemma_cell_position(t: int)
    requires
        0 <= t < 306,
    ensures
        0 <= t / 9 < 34,
        0 <= t % 9 < 9,
        t == 9 * (t / 9) + t % 9,
{
    vstd::arithmetic::div_mod::lemma_fundamental_div_mod(t, 9);
    vstd::arithmetic::div_mod::lemma_mod_bound(t, 9);
}

/// Pack a boolean grid of the panel's dimensions into the 1-bit pattern
/// wire format: one bit per cell, row-major scan order, least significant
/// bit first within each byte.
pub fn encode(arr: &Vec<Vec<bool>>) -> (out: Vec<u8>)
    requires
        is_rect(arr.deep_view(), PANEL_HEIGHT as int, PANEL_WIDTH as int),
    ensures
        pattern_encodes(arr.deep_view(), out@),
{
    let ghost g = arr.deep_view();
    proof {
        assert forall|i: int| 0 <= i < PANEL_HEIGHT implies (#[trigger] arr@[i])@.len()
            == PANEL_WIDTH && (forall|j: int| 0 <= j < PANEL_WIDTH ==> g[i][j] == arr@[i]@[j]) by {
            assert(g[i] =~= arr@[i]@);
        }
    }
    let mut out: Vec<u8> = Vec::new();
    while out.len() < PATTERN_BYTES
        invariant
            out@.len() <= PATTERN_BYTES,
            forall|b: int| 0 <= b < out@.len() ==> out@[b] == 0u8,
        decreases PATTERN_BYTES - out.len(),
    {
        out.push(0u8);
    }
    proof {
        lemma_zero_bits();
        assert forall|t: int| 0 <= t < 312 implies !stream_bit(out@, t) by {
            lemma_bit_position(t);
        }
    }
    let mut k: usize = 0;
    while k < PANEL_WIDTH * PANEL_HEIGHT
        invariant
            k <= 306,
            out@.len() == PATTERN_BYTES,
            arr@.len() == PANEL_HEIGHT,
            forall|i: int| 0 <= i < PANEL_HEIGHT ==> (#[trigger] arr@[i])@.len() == PANEL_WIDTH,
            forall|i: int, j: int|
                0 <= i < PANEL_HEIGHT && 0 <= j < PANEL_WIDTH ==> g[i][j] == arr@[i]@[j],
            forall|t: int|
                0 <= t < k ==> (#[trigger] stream_bit(out@, t) <==> g[t / PANEL_WIDTH as int][t
                    % PANEL_WIDTH as int]),
            forall|t: int| k <= t < 312 ==> !(#[trigger] stream_bit(out@, t)),
        decreases 306 - k,
    {
        proof {
            lemma_bit_position(k as int);
            lemma_cell_position(k as int);
        }
        let i = k / PANEL_WIDTH;
        let j = k % PANEL_WIDTH;
        let byte = k / 8;
        let offs: u8 = (k % 8) as u8;
        let v: u8 = if arr[i][j] {
            1
        } else {
            0
        };
        let b_old = out[byte];
        let b_new = b_old | (v << offs);
        let ghost out_pre = out@;
        proof {
            assert(!stream_bit(out_pre, k as int));
        }
        out[byte] = b_new;
        proof {
            lemma_set_bit(b_old, b_new, offs, v);
            assert forall|t: int|
                0 <= t < k + 1 implies (#[trigger] stream_bit(out@, t) <==> g[t
                / PANEL_WIDTH as int][t % PANEL_WIDTH as int]) by {
                lemma_bit_position(t);
                if t < k {
                    if t / 8 == byte as int {
                        assert((t % 8) as u8 != offs);
                        assert(bit_at(b_new, (t % 8) as u8) <==> bit_at(b_old, (t % 8) as u8));
                        assert(stream_bit(out@, t) <==> stream_bit(out_pre, t));
                    } else {
                        assert(out@[t / 8] == out_pre[t / 8]);
                        assert(stream_bit(out@, t) <==> stream_bit(out_pre, t));
                    }
                } else {
                    assert(t == k as int);
                    assert(bit_at(b_new, offs) <==> v == 1);
                    assert(stream_bit(out@, t) <==> v == 1);
                    assert(g[t / PANEL_WIDTH as int][t % PANEL_WIDTH as int] == arr@[i as int]@[j as int]);
                }
            }
            assert forall|t: int| k + 1 <= t < 312 implies !(#[trigger] stream_bit(out@, t)) by {
                lemma_bit_position(t);
                assert(!stream_bit(out_pre, t));
                if t / 8 == byte as int {
                    assert((t % 8) as u8 != offs);
                    assert(bit_at(b_new, (t % 8) as u8) <==> bit_at(b_old, (t % 8) as u8));
                    assert(stream_bit(out@, t) <==> stream_bit(out_pre, t));
                } else {
                    assert(out@[t / 8] == out_pre[t / 8]);
                    assert(stream_bit(out@, t) <==> stream_bit(out_pre, t));
                }
            }
        }
        k = k + 1;
    }
    out
}

/// Unpack a 1-bit pattern frame back into the boolean grid it encodes, by
/// the inverse of `encode`'s bit packing.
pub fn decode(pattern: &Vec<u8>) -> (g: Vec<Vec<bool>>)
    requires
        pattern@.len() == PATTERN_BYTES,
    ensures
        is_rect(g.deep_view(), PANEL_HEIGHT as int, PANEL_WIDTH as int),
        forall|k: int|
            0 <= k < PANEL_HEIGHT * PANEL_WIDTH ==> (g.deep_view()[k / PANEL_WIDTH as int][k
                % PANEL_WIDTH as int] <==> #[trigger] stream_bit(pattern@, k)),
{
    let mut g: Vec<Vec<bool>> = Vec::new();
    let mut i: usize = 0;
    while i < PANEL_HEIGHT
        invariant
            i <= PANEL_HEIGHT,
            pattern@.len() == PATTERN_BYTES,
            g@.len() == i,
            forall|r: int| 0 <= r < i as int ==> (#[trigger] g@[r])@.len() == PANEL_WIDTH,
            forall|r: int, c: int|
                0 <= r < i as int && 0 <= c < PANEL_WIDTH ==> ((#[trigger] g@[r]@[c])
                    <==> stream_bit(pattern@, r * PANEL_WIDTH as int + c)),
        decreases PANEL_HEIGHT - i,
    {
        let mut row: Vec<bool> = Vec::new();
        let mut j: usize = 0;
        while j < PANEL_WIDTH
            invariant
                i < PANEL_HEIGHT,
                j <= PANEL_WIDTH,
                pattern@.len() == PATTERN_BYTES,
                row@.len() == j,
                forall|c: int|
                    0 <= c < j as int ==> ((#[trigger] row@[c]) <==> stream_bit(
                        pattern@,
                        i as int * PANEL_WIDTH as int + c,
                    )),
            decreases PANEL_WIDTH - j,
        {
            let k = i * PANEL_WIDTH + j;
            proof {
                lemma_bit_position(k as int);
            }
            let byte = pattern[k / 8];
            let offs: u8 = (k % 8) as u8;
            let bit = (byte >> offs) & 1 == 1;
            row.push(bit);
            j = j + 1;
        }
        g.push(row);
        i = i + 1;
    }
    proof {
        assert forall|r: int| 0 <= r < PANEL_HEIGHT implies (#[trigger] g.deep_view()[r])
            == g@[r]@ by {
            assert(g.deep_view()[r] =~= g@[r]@);
        }
        assert forall|k: int|
            0 <= k < PANEL_HEIGHT * PANEL_WIDTH implies (g.deep_view()[k / PANEL_WIDTH as int][k
            % PANEL_WIDTH as int] <==> #[trigger] stream_bit(pattern@, k)) by {
            lemma_cell_position(k);
            let r = k / PANEL_WIDTH as int;
            let c = k % PANEL_WIDTH as int;
            assert(r * PANEL_WIDTH as int + c == k);
            assert(g@[r]@[c] <==> stream_bit(pattern@, k));
        }
    }
    g
}

/// Pattern round-trip: a grid decoded from a pattern that encodes `g` is
/// `g` itself, cell for cell.
pub proof fn lemma_pattern_round_trip(g: Seq<Seq<bool>>, p: Seq<u8>, g2: Seq<Seq<bool>>)
    requires
        is_rect(g, PANEL_HEIGHT as int, PANEL_WIDTH as int),
        pattern_encodes(g, p),
        is_rect(g2, PANEL_HEIGHT as int, PANEL_WIDTH as int),
        forall|k: int|
            0 <= k < PANEL_HEIGHT * PANEL_WIDTH ==> (g2[k / PANEL_WIDTH as int][k
                % PANEL_WIDTH as int] <==> #[trigger] stream_bit(p, k)),
    ensures
        g2 == g,
{
    assert forall|i: int| 0 <= i < PANEL_HEIGHT implies (#[trigger] g2[i]) == g[i] by {
        assert forall|j: int| 0 <= j < PANEL_WIDTH implies g2[i][j] == g[i][j] by {
            let k = i * PANEL_WIDTH as int + j;
            vstd::arithmetic::div_mod::lemma_fundamental_div_mod_converse(
                k,
                PANEL_WIDTH as int,
                i,
                j,
            );
            assert(k / PANEL_WIDTH as int == i && k % PANEL_WIDTH as int == j);
            assert(0 <= k < PANEL_HEIGHT * PANEL_WIDTH) by (nonlinear_arith)
                requires
                    0 <= i < PANEL_HEIGHT as int,
                    0 <= j < PANEL_WIDTH as int,
                    k == i * PANEL_WIDTH as int + j,
            ;
            assert(g2[i][j] <==> stream_bit(p, k));
            assert(g[i][j] <==> stream_bit(p, k));
        }
        assert(g2[i] =~= g[i]);
    }
    assert(g2 =~= g);
}

/// The pattern encoding is byte-for-byte reproducible: two packed frames
/// that encode the same grid are identical.
pub proof fn lemma_pattern_unique(g: Seq<Seq<bool>>, p1: Seq<u8>, p2: Seq<u8>)
    requires
        is_rect(g, PANEL_HEIGHT as int, PANEL_WIDTH as int),
        pattern_encodes(g, p1),
        pattern_encodes(g, p2),
    ensures
        p1 == p2,
{
    assert forall|b: int| 0 <= b < PATTERN_BYTES implies p1[b] == p2[b] by {
        assert forall|t: u8| t < 8 implies (bit_at(p1[b], t) <==> bit_at(p2[b], t)) by {
            let k: int = 8 * b + t;
            vstd::arithmetic::div_mod::lemma_fundamental_div_mod_converse(k, 8, b, t as int);
            assert(k / 8 == b && k % 8 == t as int);
            assert(stream_bit(p1, k) <==> bit_at(p1[b], t));
            assert(stream_bit(p2, k) <==> bit_at(p2[b], t));
            if k < PANEL_HEIGHT * PANEL_WIDTH {
                assert(stream_bit(p1, k) <==> g[k / PANEL_WIDTH as int][k % PANEL_WIDTH as int]);
                assert(stream_bit(p2, k) <==> g[k / PANEL_WIDTH as int][k % PANEL_WIDTH as int]);
            } else {
                assert(k < PATTERN_BYTES * 8);
                assert(!stream_bit(p1, k));
                assert(!stream_bit(p2, k));
            }
        }
        lemma_byte_from_bits(p1[b], p2[b]);
    }
    assert(p1 =~= p2);
}

} // verus!
