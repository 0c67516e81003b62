use vstd::prelude::*;

verus! {

/// Red channel of the color given to fully transparent, non-fixed entries.
pub const CANARY_R: u8 = 71;
/// Green channel of the color given to fully transparent, non-fixed entries.
pub const CANARY_G: u8 = 112;
/// Blue channel of the color given to fully transparent, non-fixed entries.
pub const CANARY_B: u8 = 76;

/// An 8-bit RGBA palette color.
#[derive(Debug, Clone, Copy, PartialEq, Eq, Structural)]
pub struct Rgba8 {
    pub r: u8,
    pub g: u8,
    pub b: u8,
    pub a: u8,
}

/// `2^n` for the shifts that posterization uses.
pub open spec fn pow2(n: u8) -> int
    decreases n,
{
    if n == 0 { 1 } else { 2 * pow2((n - 1) as u8) }
}

/// A channel with its low `bits` bits replaced by a copy of its top `bits` bits.
pub open spec fn posterized(c: u8, bits: u8) -> int {
    if bits == 0 {
        c as int
    } else {
        (c as int / pow2(bits)) * pow2(bits) + c as int / pow2((8 - bits) as u8)
    }
}

/// Rounds a channel to `8 - bits` significant bits, refilling the low bits
/// from the high ones so that 0 and 255 stay fixed.
pub fn posterize_channel(color: u8, bits: u8) -> (r: u8)
    requires
        bits <= 7,
    ensures
        r as int == posterized(color, bits),
{
    if bits == 0 {
        color
    } else {
        assert((1u8 << bits) >= 1u8) by (bit_vector)
            requires
                1u8 <= bits <= 7u8,
        ;
        let mask: u8 = ((1u8 << bits) - 1) as u8;
        let r = (color & !mask) | (color >> (8 - bits));
        proof {
            reveal_with_fuel(pow2, 8);
            let c = color;
            if bits == 1 {
                assert(forall|c: u8| #![auto] ((c & !(((1u8 << 1u8) - 1) as u8)) | (c >> 7u8)) == (c / 2) * 2 + c / 128) by (bit_vector);
            } else if bits == 2 {
                assert(forall|c: u8| #![auto] ((c & !(((1u8 << 2u8) - 1) as u8)) | (c >> 6u8)) == (c / 4) * 4 + c / 64) by (bit_vector);
            } else if bits == 3 {
                assert(forall|c: u8| #![auto] ((c & !(((1u8 << 3u8) - 1) as u8)) | (c >> 5u8)) == (c / 8) * 8 + c / 32) by (bit_vector);
            } else if bits == 4 {
                assert(forall|c: u8| #![auto] ((c & !(((1u8 << 4u8) - 1) as u8)) | (c >> 4u8)) == (c / 16) * 16 + c / 16) by (bit_vector);
            } else if bits == 5 {
                assert(forall|c: u8| #![auto] ((c & !(((1u8 << 5u8) - 1) as u8)) | (c >> 3u8)) == (c / 32) * 32 + c / 8) by (bit_vector);
            } else if bits == 6 {
                assert(forall|c: u8| #![auto] ((c & !(((1u8 << 6u8) - 1) as u8)) | (c >> 2u8)) == (c / 64) * 64 + c / 4) by (bit_vector);
            } else {
                assert(forall|c: u8| #![auto] ((c & !(((1u8 << 7u8) - 1) as u8)) | (c >> 1u8)) == (c / 128) * 128 + c / 2) by (bit_vector);
            }
        }
        r
    }
}

/// Each channel of `c` posterized by `bits`.
pub open spec fn posterized_color(c: Rgba8, bits: u8) -> Rgba8 {
    Rgba8 {
        r: posterized(c.r, bits) as u8,
        g: posterized(c.g, bits) as u8,
        b: posterized(c.b, bits) as u8,
        a: posterized(c.a, bits) as u8,
    }
}

/// The entry of the integer palette made from the 8-bit color `c`: posterized,
/// and, when it came out fully transparent and is not a fixed color, with its
/// color channels set to the canary color.
pub open spec fn finished_entry(c: Rgba8, is_fixed: bool, bits: u8) -> Rgba8 {
    let p = posterized_color(c, bits);
    if p.a == 0 && !is_fixed {
        Rgba8 { r: CANARY_R, g: CANARY_G, b: CANARY_B, a: p.a }
    } else {
        p
    }
}

/// Posterizes the four channels of a color.
pub fn posterize_color(c: Rgba8, bits: u8) -> (r: Rgba8)
    requires
        bits <= 7,
    ensures
        r == posterized_color(c, bits),
{
    Rgba8 {
        r: posterize_channel(c.r, bits),
        g: posterize_channel(c.g, bits),
        b: posterize_channel(c.b, bits),
        a: posterize_channel(c.a, bits),
    }
}

/// Builds the 8-bit palette from the gamma-converted palette colors and the
/// fixed flag of each entry.
pub fn make_int_palette(colors: &Vec<Rgba8>, fixed: &Vec<bool>, posterize: u8) -> (r: Vec<Rgba8>)
    requires
        colors@.len() == fixed@.len(),
        posterize <= 7,
    ensures
        r@.len() == colors@.len(),
        forall|i: int| 0 <= i < r@.len() ==> r@[i] == finished_entry(colors@[i], fixed@[i], posterize),
{
    let mut out: Vec<Rgba8> = Vec::with_capacity(colors.len());
    let mut i: usize = 0;
    while i < colors.len()
        invariant
            colors@.len() == fixed@.len(),
            posterize <= 7,
            i <= colors@.len(),
            out@.len() == i,
            forall|j: int| 0 <= j < i ==> out@[j] == finished_entry(colors@[j], fixed@[j], posterize),
        decreases colors@.len() - i,
    {
        let mut px = posterize_color(colors[i], posterize);
        if px.a == 0 && !fixed[i] {
            px.r = CANARY_R;
            px.g = CANARY_G;
            px.b = CANARY_B;
        }
        out.push(px);
        i += 1;
    }
    out
}

/// How many fixed colors a palette of at most `max_colors` entries keeps: all
/// of them where they fit.
pub open spec fn fixed_kept(fixed_len: nat, max_colors: nat) -> nat {
    if fixed_len <= max_colors { fixed_len } else { max_colors }
}

/// How many chosen colors stay beside the fixed ones.
pub open spec fn chosen_kept(palette_len: nat, fixed_len: nat, max_colors: nat) -> nat {
    let room = (max_colors - fixed_kept(fixed_len, max_colors)) as nat;
    if palette_len <= room { palette_len } else { room }
}

/// The candidate palette: the chosen colors followed by the fixed colors,
/// within `max_colors` entries. Where the budget is short, fixed colors are
/// kept before chosen ones.
pub fn with_fixed_colors<T: Copy>(palette: &Vec<T>, fixed: &Vec<T>, max_colors: usize) -> (r: Vec<T>)
    ensures
        r@ == palette@.take(chosen_kept(palette@.len(), fixed@.len(), max_colors as nat) as int) + fixed@.take(
            fixed_kept(fixed@.len(), max_colors as nat) as int,
        ),
        r@.len() <= max_colors,
{
    let n_fixed: usize = if fixed.len() <= max_colors { fixed.len() } else { max_colors };
    let room: usize = max_colors - n_fixed;
    let n_chosen: usize = if palette.len() <= room { palette.len() } else { room };
    let mut r: Vec<T> = Vec::new();
    let mut i: usize = 0;
    while i < n_chosen
        invariant
            n_chosen <= palette@.len(),
            i <= n_chosen,
            r@ == palette@.take(i as int),
        decreases n_chosen - i,
    {
        r.push(palette[i]);
        i += 1;
        proof {
            assert(r@ =~= palette@.take(i as int));
        }
    }
    let mut j: usize = 0;
    while j < n_fixed
        invariant
            n_fixed <= fixed@.len(),
            j <= n_fixed,
            r@ == palette@.take(n_chosen as int) + fixed@.take(j as int),
        decreases n_fixed - j,
    {
        r.push(fixed[j]);
        j += 1;
        proof {
            assert(r@ =~= palette@.take(n_chosen as int) + fixed@.take(j as int));
        }
    }
    proof {
        assert(palette@.take(n_chosen as int) + fixed@.take(0) =~= palette@.take(n_chosen as int));
    }
    r
}

/// A candidate palette never exceeds its budget, and where the fixed colors
/// fit in it, each of them is in the palette.
pub proof fn lemma_fixed_colors_kept<T>(palette: Seq<T>, fixed: Seq<T>, max_colors: nat)
    requires
        fixed.len() <= max_colors,
    ensures
        ({
            let r = palette.take(chosen_kept(palette.len(), fixed.len(), max_colors) as int) + fixed.take(
                fixed_kept(fixed.len(), max_colors) as int,
            );
            &&& r.len() <= max_colors
            &&& forall|i: int| 0 <= i < fixed.len() ==> r.contains(#[trigger] fixed[i])
        }),
{
    let k = chosen_kept(palette.len(), fixed.len(), max_colors) as int;
    let r = palette.take(k) + fixed.take(fixed.len() as int);
    assert(fixed.take(fixed.len() as int) =~= fixed);
    assert forall|i: int| 0 <= i < fixed.len() implies r.contains(#[trigger] fixed[i]) by {
        assert(r[k + i] == fixed[i]);
    }
}

} // verus!
