use vstd::prelude::*;

verus! {

/// What the palette ordering reads of one palette entry. `popularity` and
/// `alpha` are order keys: a larger key stands for a larger value.
#[derive(Debug, Clone, Copy, PartialEq, Eq, Structural)]
pub struct PaletteKey {
    /// The entry's alpha is at or below the transparency threshold.
    pub transparent: bool,
    pub popularity: i64,
    pub alpha: i64,
}

/// 0 for the entries that go first under the policy, 1 for the others:
/// transparent entries go last when `last_transparent` holds, first otherwise.
pub open spec fn group(k: PaletteKey, last_transparent: bool) -> int {
    if k.transparent == last_transparent { 1 } else { 0 }
}

/// `a` sorts strictly before `b`: a lower group, or the same group and a
/// higher popularity.
pub open spec fn sorts_before(a: PaletteKey, b: PaletteKey, last_transparent: bool) -> bool {
    group(a, last_transparent) < group(b, last_transparent) || (group(a, last_transparent)
        == group(b, last_transparent) && a.popularity > b.popularity)
}

/// `o` lists each of `0..n` exactly once.
pub open spec fn is_permutation(o: Seq<usize>, n: nat) -> bool {
    &&& o.len() == n
    &&& forall|i: int| 0 <= i < o.len() ==> o[i] < n
    &&& forall|i: int, j: int| 0 <= i < j < o.len() ==> o[i] != o[j]
}

/// `o` is the stable sort of the entries of `keys` by group, then by
/// popularity from the highest down.
pub open spec fn is_rank_order(keys: Seq<PaletteKey>, last_transparent: bool, o: Seq<usize>) -> bool {
    &&& is_permutation(o, keys.len())
    &&& forall|i: int, j: int|
        0 <= i < j < o.len() ==> !sorts_before(keys[o[j] as int], keys[o[i] as int], last_transparent)
    &&& forall|i: int, j: int|
        0 <= i < j < o.len() && !sorts_before(keys[o[i] as int], keys[o[j] as int], last_transparent)
            ==> o[i] < o[j]
}

/// Position `p` of `o` holds the first of the most transparent among the
/// transparent entries.
pub open spec fn is_most_transparent_pos(keys: Seq<PaletteKey>, o: Seq<usize>, p: int) -> bool {
    &&& 0 <= p < o.len()
    &&& keys[o[p] as int].transparent
    &&& forall|q: int|
        0 <= q < o.len() && keys[o[q] as int].transparent ==> keys[o[p] as int].alpha <= keys[o[q] as int].alpha
    &&& forall|q: int|
        0 <= q < p && keys[o[q] as int].transparent ==> keys[o[p] as int].alpha < keys[o[q] as int].alpha
}

/// The keys come from one alpha threshold: every transparent entry has a
/// lower alpha than every opaque one.
pub open spec fn keys_consistent(keys: Seq<PaletteKey>) -> bool {
    forall|i: int, j: int|
        0 <= i < keys.len() && 0 <= j < keys.len() && keys[i].transparent && !keys[j].transparent
            ==> keys[i].alpha < keys[j].alpha
}

/// Some entry listed in `o` is transparent.
pub open spec fn has_transparent(keys: Seq<PaletteKey>, o: Seq<usize>) -> bool {
    exists|q: int| 0 <= q < o.len() && #[trigger] keys[o[q] as int].transparent
}

/// The entries of `keys` in rank order: a stable sort by group, then by
/// popularity from the highest down.
pub fn rank_order(keys: &Vec<PaletteKey>, last_transparent: bool) -> (o: Vec<usize>)
    ensures
        is_rank_order(keys@, last_transparent, o@),
{
    let mut o: Vec<usize> = Vec::new();
    let mut i: usize = 0;
    while i < keys.len()
        invariant
            i <= keys@.len(),
            o@.len() == i,
            forall|a: int| 0 <= a < o@.len() ==> o@[a] < i,
            forall|a: int, b: int| 0 <= a < b < o@.len() ==> o@[a] != o@[b],
            forall|a: int, b: int|
                0 <= a < b < o@.len() ==> !sorts_before(keys@[o@[b] as int], keys@[o@[a] as int], last_transparent),
            forall|a: int, b: int|
                0 <= a < b < o@.len() && !sorts_before(keys@[o@[a] as int], keys@[o@[b] as int], last_transparent)
                    ==> o@[a] < o@[b],
        decreases keys@.len() - i,
    {
        let ki = keys[i];
        let mut p: usize = 0;
        while p < o.len() && !sorts_before_exec(&ki, &keys[o[p]], last_transparent)
            invariant
                i < keys@.len(),
                ki == keys@[i as int],
                p <= o@.len(),
                forall|a: int| 0 <= a < o@.len() ==> o@[a] < i,
                forall|a: int| 0 <= a < p ==> !sorts_before(ki, keys@[o@[a] as int], last_transparent),
            decreases o@.len() - p,
        {
            p += 1;
        }
        let ghost before = o@;
        o.insert(p, i);
        proof {
            assert(o@ == before.insert(p as int, i));
            assert forall|a: int, b: int|
                0 <= a < b < o@.len() implies !sorts_before(keys@[o@[b] as int], keys@[o@[a] as int], last_transparent)
            by {
                if p < before.len() {
                    assert(sorts_before(ki, keys@[before[p as int] as int], last_transparent));
                }
                if a < p && b > p {
                    assert(o@[b] == before[b - 1]);
                    assert(!sorts_before(keys@[before[b - 1] as int], keys@[before[p as int] as int], last_transparent)
                        || b - 1 == p);
                }
                if a == p && b > p + 1 {
                    assert(!sorts_before(keys@[before[b - 1] as int], keys@[before[p as int] as int], last_transparent));
                }
            }
            assert forall|a: int, b: int|
                0 <= a < b < o@.len() && !sorts_before(keys@[o@[a] as int], keys@[o@[b] as int], last_transparent)
                    implies o@[a] < o@[b]
            by {
                if p < before.len() {
                    assert(sorts_before(ki, keys@[before[p as int] as int], last_transparent));
                }
                if a == p && b > p + 1 {
                    assert(!sorts_before(keys@[before[b - 1] as int], keys@[before[p as int] as int], last_transparent));
                }
            }
        }
        i += 1;
    }
    o
}

/// Executable form of `sorts_before`.
fn sorts_before_exec(a: &PaletteKey, b: &PaletteKey, last_transparent: bool) -> (r: bool)
    ensures
        r == sorts_before(*a, *b, last_transparent),
{
    let ga: u8 = if a.transparent == last_transparent { 1 } else { 0 };
    let gb: u8 = if b.transparent == last_transparent { 1 } else { 0 };
    ga < gb || (ga == gb && a.popularity > b.popularity)
}

/// The position in `o` of the first of the most transparent among the
/// transparent entries, if there is a transparent entry.
pub fn most_transparent_pos(keys: &Vec<PaletteKey>, o: &Vec<usize>) -> (r: Option<usize>)
    requires
        forall|q: int| 0 <= q < o@.len() ==> o@[q] < keys@.len(),
    ensures
        r is None <==> !has_transparent(keys@, o@),
        r matches Some(p) ==> is_most_transparent_pos(keys@, o@, p as int),
{
    let mut best: Option<usize> = None;
    let mut q: usize = 0;
    while q < o.len()
        invariant
            q <= o@.len(),
            forall|x: int| 0 <= x < o@.len() ==> o@[x] < keys@.len(),
            best is None ==> forall|x: int| 0 <= x < q ==> !keys@[o@[x] as int].transparent,
            best matches Some(p) ==> p < q && is_most_transparent_pos(keys@, o@.take(q as int), p as int),
        decreases o@.len() - q,
    {
        let k = keys[o[q]];
        if k.transparent {
            match best {
                None => {
                    best = Some(q);
                },
                Some(p) => {
                    if k.alpha < keys[o[p]].alpha {
                        best = Some(q);
                    }
                },
            }
        }
        q += 1;
    }
    proof {
        assert(o@.take(o@.len() as int) == o@);
        if best is None && has_transparent(keys@, o@) {
            let x = choose|x: int| 0 <= x < o@.len() && #[trigger] keys@[o@[x] as int].transparent;
            assert(!keys@[o@[x] as int].transparent);
        }
    }
    best
}

/// The final palette order: `o` with, where `last_transparent` holds and some
/// entry is transparent, the most transparent entry swapped into the last slot.
pub open spec fn is_final_order(keys: Seq<PaletteKey>, last_transparent: bool, o: Seq<usize>, r: Seq<usize>) -> bool {
    if last_transparent && has_transparent(keys, o) {
        exists|p: int|
            is_most_transparent_pos(keys, o, p) && r == o.update(p, o[o.len() - 1]).update(
                o.len() - 1,
                o[p],
            )
    } else {
        r == o
    }
}

/// The order of the final palette: entry `r[i]` of the unordered palette goes
/// to slot `i`. Entries are stably sorted with transparent ones first, or last
/// under `last_transparent`, and then by popularity from the highest down;
/// under `last_transparent` the most transparent entry then trades places with
/// the one in the last slot.
pub fn sort_palette(keys: &Vec<PaletteKey>, last_transparent: bool) -> (r: Vec<usize>)
    ensures
        is_permutation(r@, keys@.len()),
        exists|o: Seq<usize>| is_rank_order(keys@, last_transparent, o) && is_final_order(keys@, last_transparent, o, r@),
        last_transparent && has_transparent(keys@, r@) ==> {
            let last = r@[r@.len() - 1] as int;
            &&& keys@[last].transparent
            &&& forall|q: int| 0 <= q < r@.len() && keys@[r@[q] as int].transparent ==> keys@[last].alpha <= keys@[r@[q] as int].alpha
        },
        last_transparent && has_transparent(keys@, r@) && keys_consistent(keys@) ==> forall|q: int|
            0 <= q < r@.len() ==> keys@[r@[r@.len() - 1] as int].alpha <= #[trigger] keys@[r@[q] as int].alpha,
{
    let mut o = rank_order(keys, last_transparent);
    let ghost sorted = o@;
    if last_transparent {
        match most_transparent_pos(keys, &o) {
            Some(p) => {
                let last = o.len() - 1;
                let tp = o[p];
                let tl = o[last];
                o.set(p, tl);
                o.set(last, tp);
                proof {
                    assert(o@ == sorted.update(p as int, sorted[last as int]).update(last as int, sorted[p as int]));
                    assert forall|i: int, j: int| 0 <= i < j < o@.len() implies o@[i] != o@[j] by {
                        if i == p || j == p || i == last || j == last {
                        } else {
                            assert(o@[i] == sorted[i] && o@[j] == sorted[j]);
                        }
                    }
                    assert forall|q: int| 0 <= q < o@.len() && keys@[o@[q] as int].transparent
                        implies keys@[o@[last as int] as int].alpha <= keys@[o@[q] as int].alpha by {
                        if q == p {
                            assert(o@[q] == sorted[last as int]);
                        } else if q != last {
                            assert(o@[q] == sorted[q]);
                        }
                    }
                }
            },
            None => {},
        }
    }
    proof {
        if last_transparent && has_transparent(keys@, o@) && !has_transparent(keys@, sorted) {
            let x = choose|x: int| 0 <= x < o@.len() && #[trigger] keys@[o@[x] as int].transparent;
            assert(o@ == sorted);
        }
        if last_transparent && has_transparent(keys@, o@) && keys_consistent(keys@) {
            let last = o@[o@.len() - 1] as int;
            assert forall|q: int| 0 <= q < o@.len() implies keys@[last].alpha <= #[trigger] keys@[o@[q] as int].alpha by {
                if !keys@[o@[q] as int].transparent {
                    assert(keys@[last].transparent);
                }
            }
        }
    }
    o
}

/// The number of leading slots of the order `o` that reach its last
/// transparent entry, if it has one: the slots a transparency table needs.
pub fn transparent_count(keys: &Vec<PaletteKey>, o: &Vec<usize>) -> (r: Option<usize>)
    requires
        forall|q: int| 0 <= q < o@.len() ==> o@[q] < keys@.len(),
    ensures
        r is None <==> !has_transparent(keys@, o@),
        r matches Some(n) ==> 0 < n <= o@.len() && keys@[o@[n - 1] as int].transparent && forall|q: int|
            n <= q < o@.len() ==> !#[trigger] keys@[o@[q] as int].transparent,
{
    let mut q: usize = o.len();
    while q > 0 && !keys[o[q - 1]].transparent
        invariant
            q <= o@.len(),
            forall|x: int| 0 <= x < o@.len() ==> o@[x] < keys@.len(),
            forall|x: int| q <= x < o@.len() ==> !#[trigger] keys@[o@[x] as int].transparent,
        decreases q,
    {
        q -= 1;
    }
    if q == 0 {
        proof {
            if has_transparent(keys@, o@) {
                let x = choose|x: int| 0 <= x < o@.len() && #[trigger] keys@[o@[x] as int].transparent;
                assert(!keys@[o@[x] as int].transparent);
            }
        }
        None
    } else {
        proof {
            assert(keys@[o@[q - 1] as int].transparent);
        }
        Some(q)
    }
}

} // verus!
