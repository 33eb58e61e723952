//! Frames split into a grid of 128 by 128 chunks, and the commands that bring
//! a client from one frame to the next.
use vstd::prelude::*;
use crate::protocol::{ChunkPos, ServerCommand, ServerMsg};
use rayon::iter::{IndexedParallelIterator, IntoParallelIterator, ParallelIterator};

verus! {

/// Side of a square chunk, in pixels.
pub const CHUNK_SIZE: u32 = 128;

/// Largest frame side: 256 chunks, the range of a chunk coordinate.
pub const MAX_FRAME_SIDE: u32 = 32768;

/// Sides positive and within the grid's range, and one RGBA pixel per
/// position.
pub open spec fn valid_frame(width: u32, height: u32, len: int) -> bool {
    &&& 0 < width <= MAX_FRAME_SIDE
    &&& 0 < height <= MAX_FRAME_SIDE
    &&& len == width as int * height as int * 4
}

/// An RGBA image: four bytes per pixel, rows top to bottom.
#[derive(Clone, Debug, PartialEq, Eq)]
pub struct Frame {
    pub width: u32,
    pub height: u32,
    pub pixels: Vec<u8>,
}

impl Frame {
    pub open spec fn wf(&self) -> bool {
        valid_frame(self.width, self.height, self.pixels@.len() as int)
    }

    /// Number of chunk columns.
    pub open spec fn grid_w(&self) -> int {
        (self.width as int + 127) / 128
    }

    /// Number of chunk rows.
    pub open spec fn grid_h(&self) -> int {
        (self.height as int + 127) / 128
    }

    pub open spec fn grid_len(&self) -> int {
        self.grid_w() * self.grid_h()
    }

    pub open spec fn has_pos(&self, pos: ChunkPos) -> bool {
        pos.x < self.grid_w() && pos.y < self.grid_h()
    }

    /// The `k`-th position of the grid, column by column.
    pub open spec fn grid_pos(&self, k: int) -> ChunkPos {
        ChunkPos { x: (k / self.grid_h()) as u8, y: (k % self.grid_h()) as u8 }
    }

    /// Width of the chunk at `pos`, clipped at the right edge.
    pub open spec fn chunk_w(&self, pos: ChunkPos) -> int {
        let rest = self.width - pos.x * 128;
        if rest < 128 { rest } else { 128 }
    }

    /// Height of the chunk at `pos`, clipped at the bottom edge.
    pub open spec fn chunk_h(&self, pos: ChunkPos) -> int {
        let rest = self.height - pos.y * 128;
        if rest < 128 { rest } else { 128 }
    }

    /// Index of the first byte of row `r` of the chunk at `pos`.
    pub open spec fn row_start(&self, pos: ChunkPos, r: int) -> int {
        ((pos.y * 128 + r) * self.width + pos.x * 128) * 4
    }

    /// Bytes of the first `n` rows of the chunk at `pos`.
    pub open spec fn chunk_rows(&self, pos: ChunkPos, n: nat) -> Seq<u8>
        decreases n,
    {
        if n == 0 {
            Seq::empty()
        } else {
            self.chunk_rows(pos, (n - 1) as nat) + self.pixels@.subrange(
                self.row_start(pos, n - 1),
                self.row_start(pos, n - 1) + self.chunk_w(pos) * 4,
            )
        }
    }

    /// The pixels of the chunk at `pos`, row by row.
    pub open spec fn chunk_bytes(&self, pos: ChunkPos) -> Seq<u8> {
        self.chunk_rows(pos, self.chunk_h(pos) as nat)
    }

    /// Builds a frame; `None` where the sides or the pixel count are wrong.
    pub fn new(width: u32, height: u32, pixels: Vec<u8>) -> (r: Option<Frame>)
        ensures
            r matches Some(f) ==> f.wf() && f.width == width && f.height == height && f.pixels@
                == pixels@,
            r is None <==> !valid_frame(width, height, pixels@.len() as int),
    {
        if width == 0 || width > MAX_FRAME_SIDE || height == 0 || height > MAX_FRAME_SIDE {
            return None;
        }
        assert(width as u64 * height as u64 <= 0x4000_0000) by (nonlinear_arith)
            requires
                width <= 32768,
                height <= 32768,
        ;
        let n = width as u64 * height as u64 * 4;
        if pixels.len() as u64 != n {
            return None;
        }
        Some(Frame { width, height, pixels })
    }

    /// Number of chunk columns.
    pub fn chunks_x(&self) -> (r: u32)
        requires
            self.wf(),
        ensures
            r == self.grid_w(),
            1 <= r <= 256,
    {
        (self.width + 127) / CHUNK_SIZE
    }

    /// Number of chunk rows.
    pub fn chunks_y(&self) -> (r: u32)
        requires
            self.wf(),
        ensures
            r == self.grid_h(),
            1 <= r <= 256,
    {
        (self.height + 127) / CHUNK_SIZE
    }

    /// The pixels of the chunk at `pos`, row by row.
    pub fn chunk(&self, pos: ChunkPos) -> (r: Vec<u8>)
        requires
            self.wf(),
            self.has_pos(pos),
        ensures
            r@ == self.chunk_bytes(pos),
    {
        let w = self.width as usize;
        let ox = pos.x as usize * 128;
        let oy = pos.y as usize * 128;
        let cw = if self.width as usize - ox < 128 { self.width as usize - ox } else { 128 };
        let ch = if self.height as usize - oy < 128 { self.height as usize - oy } else { 128 };
        assert(cw * ch <= 16384) by (nonlinear_arith)
            requires
                cw <= 128,
                ch <= 128,
        ;
        let mut out: Vec<u8> = Vec::with_capacity(cw * ch * 4);
        let row_len = cw * 4;
        let total = self.pixels.len();
        let mut r: usize = 0;
        while r < ch
            invariant
                self.wf(),
                self.has_pos(pos),
                w == self.width,
                ox == pos.x * 128,
                oy == pos.y * 128,
                cw == self.chunk_w(pos),
                ch == self.chunk_h(pos),
                row_len == cw * 4,
                total == self.pixels@.len(),
                cw <= 128,
                ox + cw <= w,
                r <= ch,
                out@ == self.chunk_rows(pos, r as nat),
            decreases ch - r,
        {
            assert(((oy + r) * w + ox + cw) * 4 <= self.width as int * self.height as int * 4)
                by (nonlinear_arith)
                requires
                    oy + r + 1 <= self.height,
                    ox + cw <= w,
                    w == self.width,
            ;
            assert((oy + r) * w <= self.width as int * self.height as int) by (nonlinear_arith)
                requires
                    oy + r + 1 <= self.height,
                    w == self.width,
            ;
            let start = ((oy + r) * w + ox) * 4;
            let mut i: usize = 0;
            while i < row_len
                invariant
                    self.wf(),
                    row_len == cw * 4,
                    total == self.pixels@.len(),
                    start + row_len <= total,
                    start == self.row_start(pos, r as int),
                    cw == self.chunk_w(pos),
                    i <= cw * 4,
                    out@ == self.chunk_rows(pos, r as nat) + self.pixels@.subrange(
                        start as int,
                        start + i,
                    ),
                decreases row_len - i,
            {
                out.push(self.pixels[start + i]);
                i = i + 1;
                assert(out@ =~= self.chunk_rows(pos, r as nat) + self.pixels@.subrange(
                    start as int,
                    start + i,
                ));
            }
            r = r + 1;
        }
        out
    }
}


/// The command that carries the chunk of `f` at `pos`.
pub open spec fn chunk_msg(f: Frame, pos: ChunkPos) -> ServerMsg {
    ServerMsg::ChunkData(pos, f.chunk_bytes(pos))
}

/// The chunks of `f` at the first `k` grid positions.
pub open spec fn full_chunks(f: Frame, k: nat) -> Seq<ServerMsg>
    decreases k,
{
    if k == 0 {
        Seq::empty()
    } else {
        full_chunks(f, (k - 1) as nat).push(chunk_msg(f, f.grid_pos(k - 1)))
    }
}

/// The chunk of `f` at `pos` holds other pixels than that of `p`.
pub open spec fn chunk_changed(p: Frame, f: Frame, pos: ChunkPos) -> bool {
    p.chunk_bytes(pos) != f.chunk_bytes(pos)
}

/// The chunks of `f`, among the first `k` grid positions, that differ from
/// those of `p`.
pub open spec fn changed_chunks(p: Frame, f: Frame, k: nat) -> Seq<ServerMsg>
    decreases k,
{
    if k == 0 {
        Seq::empty()
    } else {
        let prev = changed_chunks(p, f, (k - 1) as nat);
        if chunk_changed(p, f, f.grid_pos(k - 1)) {
            prev.push(chunk_msg(f, f.grid_pos(k - 1)))
        } else {
            prev
        }
    }
}

pub open spec fn same_size(p: Frame, f: Frame) -> bool {
    p.width == f.width && p.height == f.height
}

/// A resize to the frame's sides followed by every chunk of it.
pub open spec fn full_sync(f: Frame) -> Seq<ServerMsg> {
    seq![ServerMsg::Resize(f.width, f.height)] + full_chunks(f, f.grid_len() as nat)
}

/// The commands that bring a client showing `prev` to `f`: a full sync where
/// there is no previous frame or its sides differ, else the changed chunks.
pub open spec fn frame_diff(prev: Option<Frame>, f: Frame) -> Seq<ServerMsg> {
    match prev {
        Some(p) if same_size(p, f) => changed_chunks(p, f, f.grid_len() as nat),
        _ => full_sync(f),
    }
}

pub open spec fn msgs(cmds: Seq<ServerCommand>) -> Seq<ServerMsg> {
    cmds.map_values(|c: ServerCommand| c@)
}

proof fn lemma_grid_pos_in_range(f: Frame, k: int)
    requires
        f.wf(),
        0 <= k < f.grid_len(),
    ensures
        f.has_pos(f.grid_pos(k)),
        f.grid_pos(k).x == k / f.grid_h(),
        f.grid_pos(k).y == k % f.grid_h(),
{
    let gh = f.grid_h();
    let gw = f.grid_w();
    assert(gw <= 256 && gh <= 256 && gh >= 1);
    vstd::arithmetic::div_mod::lemma_fundamental_div_mod(k, gh);
    assert(k / gh < gw) by (nonlinear_arith)
        requires
            k == gh * (k / gh) + k % gh,
            0 <= k % gh,
            k < gw * gh,
            gh >= 1,
    ;
    assert(0 <= k / gh) by (nonlinear_arith)
        requires
            k >= 0,
            gh >= 1,
    ;
}

/// Whether two byte sequences are equal.
fn bytes_equal(a: &Vec<u8>, b: &Vec<u8>) -> (r: bool)
    ensures
        r == (a@ == b@),
{
    if a.len() != b.len() {
        return false;
    }
    let mut i: usize = 0;
    while i < a.len()
        invariant
            a@.len() == b@.len(),
            i <= a@.len(),
            forall|j: int| 0 <= j < i ==> a@[j] == b@[j],
        decreases a@.len() - i,
    {
        if a[i] != b[i] {
            return false;
        }
        i = i + 1;
    }
    assert(a@ =~= b@);
    true
}

/// The grid position of index `k`, column by column.
fn grid_pos(f: &Frame, k: u32) -> (r: ChunkPos)
    requires
        f.wf(),
        k < f.grid_len(),
    ensures
        r == f.grid_pos(k as int),
        f.has_pos(r),
{
    proof {
        lemma_grid_pos_in_range(*f, k as int);
    }
    let gh = f.chunks_y();
    ChunkPos::new((k / gh) as u8, (k % gh) as u8)
}

fn grid_len(f: &Frame) -> (r: u32)
    requires
        f.wf(),
    ensures
        r == f.grid_len(),
{
    let gw = f.chunks_x();
    let gh = f.chunks_y();
    assert(gw * gh <= 65536) by (nonlinear_arith)
        requires
            gw <= 256,
            gh <= 256,
    ;
    gw * gh
}

/// The chunk at `pos` has to be sent: every chunk in a full sync, else only
/// a changed one.
pub open spec fn chunk_due(p: Frame, f: Frame, full: bool, pos: ChunkPos) -> bool {
    full || chunk_changed(p, f, pos)
}

/// `r` is what the grid position with index `k` contributes: the chunk
/// command where the chunk is due, else nothing.
pub open spec fn update_at(p: Frame, f: Frame, full: bool, k: int, r: Option<ServerCommand>) -> bool {
    match r {
        Some(c) => chunk_due(p, f, full, f.grid_pos(k)) && c@ == chunk_msg(f, f.grid_pos(k)),
        None => !chunk_due(p, f, full, f.grid_pos(k)),
    }
}

/// What the grid position with index `k` contributes to the commands that
/// bring a client from `prev` to `frame`.
fn chunk_update(prev: &Frame, frame: &Frame, full: bool, k: u32) -> (r: Option<ServerCommand>)
    requires
        prev.wf(),
        frame.wf(),
        same_size(*prev, *frame),
        k < frame.grid_len(),
    ensures
        update_at(*prev, *frame, full, k as int, r),
{
    let pos = grid_pos(frame, k);
    let data = frame.chunk(pos);
    if full || !bytes_equal(&prev.chunk(pos), &data) {
        Some(ServerCommand::ChunkData { chunk_pos: pos, data })
    } else {
        None
    }
}

/// Relies on rayon: `into_par_iter` over `0..n`, `map`, and
/// `collect_into_vec`, which stores the item of index `k` at position `k`.
/// Each item is computed by `chunk_update`.
#[verifier::external_body]
fn par_chunk_updates(prev: &Frame, frame: &Frame, full: bool, n: u32) -> (r: Vec<
    Option<ServerCommand>,
>)
    requires
        prev.wf(),
        frame.wf(),
        same_size(*prev, *frame),
        n == frame.grid_len(),
    ensures
        r@.len() == n,
        forall|k: int| 0 <= k < n ==> update_at(*prev, *frame, full, k, #[trigger] r@[k]),
{
    let mut out = Vec::new();
    (0..n).into_par_iter().map(|k| chunk_update(prev, frame, full, k)).collect_into_vec(&mut out);
    out
}

/// The chunks of `f`, among the first `k` grid positions, that are due.
pub open spec fn due_chunks(p: Frame, f: Frame, full: bool, k: nat) -> Seq<ServerMsg>
    decreases k,
{
    if k == 0 {
        Seq::empty()
    } else {
        let prev = due_chunks(p, f, full, (k - 1) as nat);
        if chunk_due(p, f, full, f.grid_pos(k - 1)) {
            prev.push(chunk_msg(f, f.grid_pos(k - 1)))
        } else {
            prev
        }
    }
}

proof fn lemma_due_chunks(p: Frame, f: Frame, k: nat)
    ensures
        due_chunks(p, f, true, k) == full_chunks(f, k),
        due_chunks(p, f, false, k) == changed_chunks(p, f, k),
    decreases k,
{
    if k > 0 {
        lemma_due_chunks(p, f, (k - 1) as nat);
    }
}

/// The due chunks of `frame`, compared in parallel, appended to `out` in grid
/// order.
fn push_due_chunks(prev: &Frame, frame: &Frame, full: bool, out: &mut Vec<ServerCommand>)
    requires
        prev.wf(),
        frame.wf(),
        same_size(*prev, *frame),
    ensures
        msgs(final(out)@) == msgs(old(out)@) + due_chunks(
            *prev,
            *frame,
            full,
            frame.grid_len() as nat,
        ),
{
    let n = grid_len(frame);
    let mut updates = par_chunk_updates(prev, frame, full, n);
    let ghost all = updates@;
    let mut k: u32 = 0;
    while k < n
        invariant
            prev.wf(),
            frame.wf(),
            n == frame.grid_len(),
            k <= n,
            updates@.len() == n,
            forall|j: int| k <= j < n ==> updates@[j] == all[j],
            forall|j: int| 0 <= j < n ==> update_at(*prev, *frame, full, j, #[trigger] all[j]),
            msgs(out@) == msgs(old(out)@) + due_chunks(*prev, *frame, full, k as nat),
        decreases n - k,
    {
        let update = updates[k as usize].take();
        assert(update == all[k as int]);
        let ghost before = out@;
        match update {
            Some(c) => {
                out.push(c);
                assert(msgs(out@) =~= msgs(before).push(chunk_msg(*frame, frame.grid_pos(k as int))));
            },
            None => {},
        }
        k = k + 1;
        assert(msgs(out@) =~= msgs(old(out)@) + due_chunks(*prev, *frame, full, k as nat));
    }
}

/// A resize to the frame's sides followed by every chunk of it, column by
/// column.
pub fn full_sync_commands(frame: &Frame) -> (r: Vec<ServerCommand>)
    requires
        frame.wf(),
    ensures
        msgs(r@) == full_sync(*frame),
{
    let mut out: Vec<ServerCommand> = Vec::new();
    out.push(ServerCommand::Resize { width: frame.width, height: frame.height });
    push_due_chunks(frame, frame, true, &mut out);
    proof {
        lemma_due_chunks(*frame, *frame, frame.grid_len() as nat);
    }
    out
}

/// The chunks of `frame` whose pixels differ from those of `prev`, column by
/// column.
pub fn changed_chunk_commands(prev: &Frame, frame: &Frame) -> (r: Vec<ServerCommand>)
    requires
        prev.wf(),
        frame.wf(),
        same_size(*prev, *frame),
    ensures
        msgs(r@) == changed_chunks(*prev, *frame, frame.grid_len() as nat),
{
    let mut out: Vec<ServerCommand> = Vec::new();
    push_due_chunks(prev, frame, false, &mut out);
    proof {
        lemma_due_chunks(*prev, *frame, frame.grid_len() as nat);
        assert(msgs(out@) =~= msgs(Seq::<ServerCommand>::empty()) + due_chunks(
            *prev,
            *frame,
            false,
            frame.grid_len() as nat,
        ));
    }
    out
}

/// The commands that bring a client showing `prev` to `frame`.
pub fn diff_frames(prev: &Option<Frame>, frame: &Frame) -> (r: Vec<ServerCommand>)
    requires
        frame.wf(),
        prev matches Some(p) ==> p.wf(),
    ensures
        msgs(r@) == frame_diff(*prev, *frame),
{
    match prev {
        Some(p) => {
            if p.width == frame.width && p.height == frame.height {
                changed_chunk_commands(p, frame)
            } else {
                full_sync_commands(frame)
            }
        },
        None => full_sync_commands(frame),
    }
}


proof fn lemma_grid_index(f: Frame, pos: ChunkPos)
    requires
        f.wf(),
        f.has_pos(pos),
    ensures
        0 <= pos.x * f.grid_h() + pos.y < f.grid_len(),
        f.grid_pos(pos.x * f.grid_h() + pos.y) == pos,
{
    let gh = f.grid_h();
    let gw = f.grid_w();
    let k = pos.x * gh + pos.y;
    vstd::arithmetic::div_mod::lemma_fundamental_div_mod_converse(k, gh, pos.x as int, pos.y as int);
    assert(k < gw * gh) by (nonlinear_arith)
        requires
            k == pos.x * gh + pos.y,
            pos.x + 1 <= gw,
            pos.y < gh,
    ;
    assert(0 <= k) by (nonlinear_arith)
        requires
            k == pos.x * gh + pos.y,
            pos.x >= 0,
            pos.y >= 0,
            gh >= 1,
    ;
    lemma_grid_pos_in_range(f, k);
}

proof fn lemma_grid_pos_injective(f: Frame, i: int, j: int)
    requires
        f.wf(),
        0 <= i < f.grid_len(),
        0 <= j < f.grid_len(),
        f.grid_pos(i) == f.grid_pos(j),
    ensures
        i == j,
{
    lemma_grid_pos_in_range(f, i);
    lemma_grid_pos_in_range(f, j);
    vstd::arithmetic::div_mod::lemma_fundamental_div_mod(i, f.grid_h());
    vstd::arithmetic::div_mod::lemma_fundamental_div_mod(j, f.grid_h());
}

proof fn lemma_full_chunks_index(f: Frame, k: nat)
    ensures
        full_chunks(f, k).len() == k,
        forall|i: int| 0 <= i < k ==> #[trigger] full_chunks(f, k)[i] == chunk_msg(f, f.grid_pos(i)),
    decreases k,
{
    if k > 0 {
        lemma_full_chunks_index(f, (k - 1) as nat);
    }
}

proof fn lemma_changed_chunks_members(p: Frame, f: Frame, k: nat)
    ensures
        forall|i: int|
            0 <= i < changed_chunks(p, f, k).len() ==> exists|j: int|
                0 <= j < k && chunk_changed(p, f, f.grid_pos(j)) && #[trigger] changed_chunks(p, f, k)[i]
                    == chunk_msg(f, f.grid_pos(j)),
        forall|j: int|
            0 <= j < k && #[trigger] chunk_changed(p, f, f.grid_pos(j)) ==> exists|i: int|
                0 <= i < changed_chunks(p, f, k).len() && changed_chunks(p, f, k)[i] == chunk_msg(
                    f,
                    f.grid_pos(j),
                ),
    decreases k,
{
    if k > 0 {
        let k1 = (k - 1) as nat;
        lemma_changed_chunks_members(p, f, k1);
        let prev = changed_chunks(p, f, k1);
        let cur = changed_chunks(p, f, k);
        assert forall|i: int| 0 <= i < cur.len() implies exists|j: int|
            0 <= j < k && chunk_changed(p, f, f.grid_pos(j)) && #[trigger] cur[i] == chunk_msg(
                f,
                f.grid_pos(j),
            ) by {
            if i < prev.len() {
                assert(cur[i] == prev[i]);
            } else {
                assert(cur[i] == chunk_msg(f, f.grid_pos(k - 1)));
            }
        }
        assert forall|j: int| 0 <= j < k && #[trigger] chunk_changed(p, f, f.grid_pos(j)) implies exists|i: int|
            0 <= i < cur.len() && cur[i] == chunk_msg(f, f.grid_pos(j)) by {
            if j < k - 1 {
                let i = choose|i: int| 0 <= i < prev.len() && prev[i] == chunk_msg(f, f.grid_pos(j));
                assert(cur[i] == prev[i]);
            } else {
                assert(cur[cur.len() - 1] == chunk_msg(f, f.grid_pos(j)));
            }
        }
    }
}

/// A frame with no previous frame of its size is sent whole: one resize to
/// its sides, then one chunk for every grid position, none missing and none
/// twice.
pub proof fn lemma_full_sync_covers_grid(prev: Option<Frame>, f: Frame)
    requires
        f.wf(),
        !(prev matches Some(p) && same_size(p, f)),
    ensures
        frame_diff(prev, f).len() == 1 + f.grid_len(),
        frame_diff(prev, f)[0] == ServerMsg::Resize(f.width, f.height),
        forall|i: int|
            1 <= i < frame_diff(prev, f).len() ==> exists|pos: ChunkPos|
                f.has_pos(pos) && #[trigger] frame_diff(prev, f)[i] == chunk_msg(f, pos),
        forall|pos: ChunkPos|
            #[trigger] f.has_pos(pos) ==> exists|i: int|
                1 <= i < frame_diff(prev, f).len() && frame_diff(prev, f)[i] == chunk_msg(f, pos),
        forall|i: int, j: int|
            1 <= i < j < frame_diff(prev, f).len() ==> #[trigger] frame_diff(prev, f)[i]
                != #[trigger] frame_diff(prev, f)[j],
{
    let d = frame_diff(prev, f);
    let n = f.grid_len();
    assert(d == full_sync(f));
    lemma_full_chunks_index(f, n as nat);
    let c = full_chunks(f, n as nat);
    assert(n >= 1) by (nonlinear_arith)
        requires
            f.grid_w() >= 1,
            f.grid_h() >= 1,
            n == f.grid_w() * f.grid_h(),
    ;
    assert forall|i: int| 1 <= i < d.len() implies exists|pos: ChunkPos|
        f.has_pos(pos) && #[trigger] d[i] == chunk_msg(f, pos) by {
        assert(d[i] == c[i - 1]);
        lemma_grid_pos_in_range(f, i - 1);
    }
    assert forall|pos: ChunkPos| #[trigger] f.has_pos(pos) implies exists|i: int|
        1 <= i < d.len() && d[i] == chunk_msg(f, pos) by {
        lemma_grid_index(f, pos);
        let k = pos.x * f.grid_h() + pos.y;
        assert(d[k + 1] == c[k]);
    }
    assert forall|i: int, j: int| 1 <= i < j < d.len() implies #[trigger] d[i] != #[trigger] d[j] by {
        assert(d[i] == c[i - 1]);
        assert(d[j] == c[j - 1]);
        if d[i] == d[j] {
            lemma_grid_pos_injective(f, i - 1, j - 1);
        }
    }
}

/// Between two frames of the same sides, the chunk at a grid position is sent
/// exactly when some of its pixels changed, and nothing else is sent.
pub proof fn lemma_diff_sends_changed_chunks(p: Frame, f: Frame)
    requires
        p.wf(),
        f.wf(),
        same_size(p, f),
    ensures
        forall|pos: ChunkPos|
            #[trigger] f.has_pos(pos) ==> ((exists|i: int|
                0 <= i < frame_diff(Some(p), f).len() && frame_diff(Some(p), f)[i] == chunk_msg(
                    f,
                    pos,
                )) <==> chunk_changed(p, f, pos)),
        forall|i: int|
            0 <= i < frame_diff(Some(p), f).len() ==> exists|pos: ChunkPos|
                f.has_pos(pos) && chunk_changed(p, f, pos) && #[trigger] frame_diff(Some(p), f)[i]
                    == chunk_msg(f, pos),
{
    let n = f.grid_len();
    let d = frame_diff(Some(p), f);
    assert(d == changed_chunks(p, f, n as nat));
    lemma_changed_chunks_members(p, f, n as nat);
    assert forall|pos: ChunkPos| #[trigger] f.has_pos(pos) implies ((exists|i: int|
        0 <= i < d.len() && d[i] == chunk_msg(f, pos)) <==> chunk_changed(p, f, pos)) by {
        lemma_grid_index(f, pos);
        let k = pos.x * f.grid_h() + pos.y;
        if chunk_changed(p, f, pos) {
            assert(chunk_changed(p, f, f.grid_pos(k)));
        }
        if exists|i: int| 0 <= i < d.len() && d[i] == chunk_msg(f, pos) {
            let i = choose|i: int| 0 <= i < d.len() && d[i] == chunk_msg(f, pos);
            let j = choose|j: int|
                0 <= j < n && chunk_changed(p, f, f.grid_pos(j)) && d[i] == chunk_msg(
                    f,
                    f.grid_pos(j),
                );
            assert(f.grid_pos(j) == pos);
        }
    }
    assert forall|i: int| 0 <= i < d.len() implies exists|pos: ChunkPos|
        f.has_pos(pos) && chunk_changed(p, f, pos) && #[trigger] d[i] == chunk_msg(f, pos) by {
        let j = choose|j: int|
            0 <= j < n && chunk_changed(p, f, f.grid_pos(j)) && d[i] == chunk_msg(f, f.grid_pos(j));
        lemma_grid_pos_in_range(f, j);
    }
}

} // verus!
