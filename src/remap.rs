use crate::error::LiqError;
use vstd::prelude::*;

verus! {

/// Images with more pixels than this skip the remapping pass that refines the
/// dither map, unless the dither map mode is `Always`.
pub const HUGE_IMAGE_PIXELS: u64 = 4000000;

/// When the edge map is refined into a dither map.
#[derive(Debug, Clone, Copy, PartialEq, Eq, Structural)]
pub enum DitherMapMode {
    /// No dither map: dithering is uniform.
    Off,
    /// A dither map, except on huge images.
    Enabled,
    /// A dither map on every image.
    Always,
}

/// Share of the remapping progress that the preparation of a dithered remap
/// takes, in percent.
pub fn progress_stage1(mode: DitherMapMode) -> (r: u32)
    ensures
        r == if mode == DitherMapMode::Off { 0u32 } else { 20u32 },
{
    match mode {
        DitherMapMode::Off => 0,
        _ => 20,
    }
}

/// Whether the image's contrast maps must be computed before remapping: a
/// dither map mode is on and the image has neither an edge map nor a dither map.
pub fn needs_contrast_maps(mode: DitherMapMode, has_edges: bool, has_dither_map: bool) -> (r: bool)
    ensures
        r == (!has_edges && !has_dither_map && mode != DitherMapMode::Off),
{
    !has_edges && !has_dither_map && !matches!(mode, DitherMapMode::Off)
}

/// The passes of one remap.
#[derive(Debug, Clone, Copy, PartialEq, Eq, Structural)]
pub struct RemapPlan {
    /// Only the nearest-color pass runs: the dither level is zero.
    pub nearest_only: bool,
    /// A nearest-color pass runs before the dithered one, to refine the dither
    /// map from its output; the dithered pass then starts from those indices.
    pub pre_remap: bool,
}

/// More pixels than `HUGE_IMAGE_PIXELS`.
pub open spec fn is_huge(width: nat, height: nat) -> bool {
    width * height > HUGE_IMAGE_PIXELS
}

/// Decides the passes of a remap from the dither level being zero, the dither
/// map mode, the image's size and the maps it already has.
pub fn plan_remap(
    dither_is_zero: bool,
    mode: DitherMapMode,
    width: usize,
    height: usize,
    has_edges: bool,
    has_dither_map: bool,
) -> (r: RemapPlan)
    ensures
        r.nearest_only == dither_is_zero,
        r.pre_remap == (!dither_is_zero && (mode == DitherMapMode::Always || (!is_huge(width as nat, height as nat)
            && mode != DitherMapMode::Off)) && has_edges && !has_dither_map),
{
    if dither_is_zero {
        return RemapPlan { nearest_only: true, pre_remap: false };
    }
    let huge = match width.checked_mul(height) {
        Some(n) => n as u64 > HUGE_IMAGE_PIXELS,
        None => true,
    };
    let allow_dither_map = matches!(mode, DitherMapMode::Always) || (!huge && !matches!(mode, DitherMapMode::Off));
    RemapPlan { nearest_only: false, pre_remap: allow_dither_map && has_edges && !has_dither_map }
}

/// The number of output bytes an image of `width` by `height` pixels needs,
/// or `BufferTooSmall` when the caller's buffer of `buf_len` bytes is shorter.
pub fn output_len(width: usize, height: usize, buf_len: usize) -> (r: Result<usize, LiqError>)
    ensures
        width * height <= buf_len ==> r == Ok::<usize, LiqError>((width * height) as usize),
        width * height > buf_len ==> r == Err::<usize, LiqError>(LiqError::BufferTooSmall),
{
    match width.checked_mul(height) {
        Some(n) => {
            if n <= buf_len {
                Ok(n)
            } else {
                Err(LiqError::BufferTooSmall)
            }
        },
        None => Err(LiqError::BufferTooSmall),
    }
}

/// The allocation error of fallible_collections, carried without looking inside.
#[verifier::external_type_specification]
#[verifier::external_body]
pub struct ExTryReserveError(fallible_collections::TryReserveError);

/// Relies on `FallibleVec::try_with_capacity` of fallible_collections: it
/// returns an empty vector, or an error where the allocation fails; with no
/// capacity asked for, nothing is allocated and it succeeds.
#[verifier::external_body]
fn try_with_capacity(capacity: usize) -> (r: Result<Vec<u8>, fallible_collections::TryReserveError>)
    ensures
        r matches Ok(v) ==> v@.len() == 0,
        capacity == 0 ==> r is Ok,
{
    <Vec<u8> as fallible_collections::FallibleVec<u8>>::try_with_capacity(capacity)
}

/// `buf` extended with zeros to `len` bytes.
pub fn zero_filled(buf: Vec<u8>, len: usize) -> (r: Vec<u8>)
    requires
        buf@.len() <= len,
    ensures
        r@.len() == len,
        forall|i: int| 0 <= i < buf@.len() ==> r@[i] == buf@[i],
        forall|i: int| buf@.len() <= i < len ==> r@[i] == 0u8,
{
    let mut buf = buf;
    let ghost start = buf@;
    while buf.len() < len
        invariant
            start.len() <= buf@.len() <= len,
            forall|i: int| 0 <= i < start.len() ==> buf@[i] == start[i],
            forall|i: int| start.len() <= i < buf@.len() ==> buf@[i] == 0u8,
        decreases len - buf@.len(),
    {
        buf.push(0u8);
    }
    buf
}

/// A zeroed index buffer for an image of `width` by `height` pixels, or
/// `OutOfMemory` where the size overflows or the allocation fails.
pub fn output_buffer(width: usize, height: usize) -> (r: Result<Vec<u8>, LiqError>)
    ensures
        r matches Ok(v) ==> v@.len() == width * height && forall|i: int| 0 <= i < v@.len() ==> v@[i] == 0u8,
        r matches Err(e) ==> e == LiqError::OutOfMemory,
        width * height > usize::MAX ==> r is Err,
        width * height == 0 ==> r is Ok,
{
    let len = match width.checked_mul(height) {
        Some(n) => n,
        None => {
            return Err(LiqError::OutOfMemory);
        },
    };
    match try_with_capacity(len) {
        Ok(v) => Ok(zero_filled(v, len)),
        Err(_) => Err(LiqError::OutOfMemory),
    }
}

/// How a remapping pass may reuse the background image.
#[derive(Debug, Clone, Copy, PartialEq, Eq, Structural)]
pub struct BackgroundUse {
    /// The palette entry nearest to the fully transparent pixel, where there is
    /// a background.
    pub transparent_index: Option<u8>,
    /// Background pixels may be reused: there is a background and that entry
    /// is transparent.
    pub reuse: bool,
}

/// Sets up the background reuse of a pass from whether there is a background,
/// the index of the entry nearest to the transparent pixel, and whether that
/// entry is more opaque than the transparency threshold.
pub fn background_use(has_background: bool, nearest_to_transparent: u8, nearest_is_opaque: bool) -> (r: BackgroundUse)
    ensures
        r.transparent_index == if has_background { Some(nearest_to_transparent) } else { None::<u8> },
        r.reuse == (has_background && !nearest_is_opaque),
{
    BackgroundUse {
        transparent_index: if has_background { Some(nearest_to_transparent) } else { None },
        reuse: has_background && !nearest_is_opaque,
    }
}

/// The index written for a pixel by the nearest-color pass: the transparent
/// index where background reuse is on and the background pixel is at least as
/// close as the nearest entry `found`, else `found`.
pub open spec fn nearest_pass_result(found: u8, background_at_least_as_close: bool, bg: BackgroundUse) -> u8 {
    match bg.transparent_index {
        Some(t) => if bg.reuse && background_at_least_as_close { t } else { found },
        None => found,
    }
}

/// Executable form of `nearest_pass_result`.
pub fn nearest_pass_index(found: u8, background_at_least_as_close: bool, bg: BackgroundUse) -> (r: u8)
    ensures
        r == nearest_pass_result(found, background_at_least_as_close, bg),
{
    match bg.transparent_index {
        Some(t) => {
            if bg.reuse && background_at_least_as_close {
                t
            } else {
                found
            }
        },
        None => found,
    }
}

/// Whether a pixel feeds the k-means update that follows the nearest-color
/// pass: all but those whose background pixel was reused.
pub fn feeds_kmeans(background_at_least_as_close: bool, bg: BackgroundUse) -> (r: bool)
    ensures
        r == !(bg.reuse && background_at_least_as_close),
{
    !(bg.reuse && background_at_least_as_close)
}

/// What the dithered pass writes for one pixel.
#[derive(Debug, Clone, Copy, PartialEq, Eq, Structural)]
pub enum DitherChoice {
    /// The background pixel, through the transparent index.
    Background,
    /// The palette entry nearest to the dithered pixel.
    Dithered,
    /// The guessed entry, without dithering.
    Undithered,
}

/// The choice of the dithered pass for one pixel, and the new count of
/// undithered uses. Without background reuse the dithered entry is taken and
/// the count stays. With it, the background wins when it is at least as close
/// to the dithered pixel as the nearest entry. Otherwise, after more than one
/// undithered use, the dithered entry is taken and the count starts over; else
/// the guessed entry is taken, and counted, when dithering moved the pixel
/// further from its input than the background is while the guess stays closer
/// than that.
pub open spec fn dithered_choice(
    reuse: bool,
    background_at_least_as_close: bool,
    undithered_bg_used: u32,
    dithered_worse_than_background: bool,
    guess_closer_than_background: bool,
) -> (DitherChoice, u32) {
    if !reuse {
        (DitherChoice::Dithered, undithered_bg_used)
    } else if background_at_least_as_close {
        (DitherChoice::Background, undithered_bg_used)
    } else if undithered_bg_used > 1 {
        (DitherChoice::Dithered, 0u32)
    } else if dithered_worse_than_background && guess_closer_than_background {
        (DitherChoice::Undithered, (undithered_bg_used + 1) as u32)
    } else {
        (DitherChoice::Dithered, undithered_bg_used)
    }
}

/// Executable form of `dithered_choice`.
pub fn choose_dithered_output(
    reuse: bool,
    background_at_least_as_close: bool,
    undithered_bg_used: u32,
    dithered_worse_than_background: bool,
    guess_closer_than_background: bool,
) -> (r: (DitherChoice, u32))
    ensures
        r == dithered_choice(
            reuse,
            background_at_least_as_close,
            undithered_bg_used,
            dithered_worse_than_background,
            guess_closer_than_background,
        ),
{
    if !reuse {
        (DitherChoice::Dithered, undithered_bg_used)
    } else if background_at_least_as_close {
        (DitherChoice::Background, undithered_bg_used)
    } else if undithered_bg_used > 1 {
        (DitherChoice::Dithered, 0)
    } else if dithered_worse_than_background && guess_closer_than_background {
        (DitherChoice::Undithered, undithered_bg_used + 1)
    } else {
        (DitherChoice::Dithered, undithered_bg_used)
    }
}

/// The index written for a choice of the dithered pass.
pub open spec fn dithered_pass_result(choice: DitherChoice, dithered: u8, guessed: u8, transparent_index: u8) -> u8 {
    match choice {
        DitherChoice::Background => transparent_index,
        DitherChoice::Dithered => dithered,
        DitherChoice::Undithered => guessed,
    }
}

/// Executable form of `dithered_pass_result`.
pub fn dithered_pass_index(choice: DitherChoice, dithered: u8, guessed: u8, transparent_index: u8) -> (r: u8)
    ensures
        r == dithered_pass_result(choice, dithered, guessed, transparent_index),
{
    match choice {
        DitherChoice::Background => transparent_index,
        DitherChoice::Dithered => dithered,
        DitherChoice::Undithered => guessed,
    }
}

/// Every index that either pass writes is one of the palette indices it was
/// given, so it stays below the palette's length.
pub proof fn lemma_pass_indices_in_palette(
    palette_len: nat,
    found: u8,
    dithered: u8,
    guessed: u8,
    transparent_index: u8,
    background_at_least_as_close: bool,
    bg: BackgroundUse,
    choice: DitherChoice,
)
    requires
        found < palette_len,
        dithered < palette_len,
        guessed < palette_len,
        transparent_index < palette_len,
        bg.transparent_index matches Some(t) ==> t < palette_len,
    ensures
        nearest_pass_result(found, background_at_least_as_close, bg) < palette_len,
        dithered_pass_result(choice, dithered, guessed, transparent_index) < palette_len,
{
}

/// Where background reuse is off, as `background_use` makes it when the
/// entry nearest to the transparent pixel is opaque, the background changes
/// nothing: the nearest-color pass writes exactly the nearest entry and feeds
/// k-means with every pixel, and the dithered pass writes the entry nearest to
/// the dithered pixel, whatever the background pixels are.
pub proof fn lemma_no_reuse_writes_nearest(
    bg: BackgroundUse,
    found: u8,
    dithered: u8,
    guessed: u8,
    background_at_least_as_close: bool,
    undithered_bg_used: u32,
    dithered_worse_than_background: bool,
    guess_closer_than_background: bool,
)
    requires
        !bg.reuse,
    ensures
        nearest_pass_result(found, background_at_least_as_close, bg) == found,
        !(bg.reuse && background_at_least_as_close),
        ({
            let c = dithered_choice(
                bg.reuse,
                background_at_least_as_close,
                undithered_bg_used,
                dithered_worse_than_background,
                guess_closer_than_background,
            );
            &&& c == (DitherChoice::Dithered, undithered_bg_used)
            &&& forall|t: u8| dithered_pass_result(c.0, dithered, guessed, t) == dithered
        }),
{
}

/// Row `row` of the dithered pass is scanned left to right when even, right to
/// left when odd.
pub fn scan_forward(row: usize) -> (r: bool)
    ensures
        r == (row % 2 == 0),
{
    row % 2 == 0
}

/// The columns of row `row` in the order the dithered pass visits them.
pub fn scan_columns(width: usize, row: usize) -> (r: Vec<usize>)
    ensures
        r@.len() == width,
        forall|i: int|
            0 <= i < width ==> r@[i] == if row % 2 == 0 { i } else { width - 1 - i },
{
    let forward = scan_forward(row);
    let mut cols: Vec<usize> = Vec::with_capacity(width);
    let mut i: usize = 0;
    while i < width
        invariant
            forward == (row % 2 == 0),
            i <= width,
            cols@.len() == i,
            forall|j: int| 0 <= j < i ==> cols@[j] == if row % 2 == 0 { j } else { width - 1 - j },
        decreases width - i,
    {
        cols.push(if forward { i } else { width - 1 - i });
        i += 1;
    }
    cols
}

/// One share of a pixel's error: `sixteenths` of it go to slot `index` of the
/// current row's error buffer or, with `next_row`, of the next row's; with
/// `replaces` it is stored there, else added. Slot `c + 1` stands for column `c`.
#[derive(Debug, Clone, Copy, PartialEq, Eq, Structural)]
pub struct ErrorShare {
    pub next_row: bool,
    pub index: usize,
    pub sixteenths: u32,
    pub replaces: bool,
}

/// The Floyd-Steinberg shares of the error at column `col`: 7/16 to the next
/// pixel in scan direction, and 3/16, 5/16 and 1/16 to the pixels below,
/// behind, under and ahead, mirrored when scanning right to left.
pub fn error_shares(col: usize, forward: bool) -> (r: Vec<ErrorShare>)
    requires
        col + 2 <= usize::MAX,
    ensures
        forward ==> r@ == seq![
            ErrorShare { next_row: false, index: (col + 2) as usize, sixteenths: 7, replaces: false },
            ErrorShare { next_row: true, index: (col + 2) as usize, sixteenths: 1, replaces: true },
            ErrorShare { next_row: true, index: (col + 1) as usize, sixteenths: 5, replaces: false },
            ErrorShare { next_row: true, index: col, sixteenths: 3, replaces: false },
        ],
        !forward ==> r@ == seq![
            ErrorShare { next_row: false, index: col, sixteenths: 7, replaces: false },
            ErrorShare { next_row: true, index: (col + 2) as usize, sixteenths: 3, replaces: false },
            ErrorShare { next_row: true, index: (col + 1) as usize, sixteenths: 5, replaces: false },
            ErrorShare { next_row: true, index: col, sixteenths: 1, replaces: true },
        ],
        r@[0].sixteenths + r@[1].sixteenths + r@[2].sixteenths + r@[3].sixteenths == 16,
        forall|i: int| 0 <= i < r@.len() ==> r@[i].index <= col + 2,
{
    let r = if forward {
        vec![
            ErrorShare { next_row: false, index: col + 2, sixteenths: 7, replaces: false },
            ErrorShare { next_row: true, index: col + 2, sixteenths: 1, replaces: true },
            ErrorShare { next_row: true, index: col + 1, sixteenths: 5, replaces: false },
            ErrorShare { next_row: true, index: col, sixteenths: 3, replaces: false },
        ]
    } else {
        vec![
            ErrorShare { next_row: false, index: col, sixteenths: 7, replaces: false },
            ErrorShare { next_row: true, index: col + 2, sixteenths: 3, replaces: false },
            ErrorShare { next_row: true, index: col + 1, sixteenths: 5, replaces: false },
            ErrorShare { next_row: true, index: col, sixteenths: 1, replaces: true },
        ]
    };
    proof {
        assert(r@.len() == 4);
    }
    r
}

} // verus!
