//! Deterministic canvas noise: a linear congruential generator, seeded per
//! session, nudges at most one RGB channel of an RGBA pixel by one.

use vstd::prelude::*;

verus! {

/// One step of the generator.
pub open spec fn lcg_next(state: u32) -> u32 {
    state.wrapping_mul(1664525).wrapping_add(1013904223)
}

/// Generator state after `k` steps from `seed`.
pub open spec fn lcg_state(seed: u32, k: nat) -> u32
    decreases k,
{
    if k == 0 {
        seed
    } else {
        lcg_next(lcg_state(seed, (k - 1) as nat))
    }
}

/// Index (0, 1 or 2) of the first non-zero RGB channel of the pixel that
/// starts at `base`, or 3 when all three are zero.
pub open spec fn first_nonzero_channel(data: Seq<u8>, base: int) -> int {
    if data[base] != 0 {
        0
    } else if data[base + 1] != 0 {
        1
    } else if data[base + 2] != 0 {
        2
    } else {
        3
    }
}

/// A non-zero channel value moved one step up (saturating at 255) or down.
pub open spec fn nudged(v: u8, up: bool) -> u8 {
    if up {
        if v == 255 {
            255
        } else {
            (v + 1) as u8
        }
    } else {
        (v - 1) as u8
    }
}

/// The byte at index `i` after noise with `seed` is applied to `data`.
pub open spec fn noised_byte(data: Seq<u8>, seed: u32, i: int) -> u8 {
    let p = i / 4;
    let ch = i % 4;
    let base = 4 * p;
    let state = lcg_state(seed, (p + 1) as nat);
    if seed == 0 || ch == 3 || base + 3 >= data.len() {
        data[i]
    } else if state & 0x100 == 0 {
        data[i]
    } else if ch == first_nonzero_channel(data, base) {
        nudged(data[i], state & 0x200 != 0)
    } else {
        data[i]
    }
}

/// The whole buffer after noise with `seed` is applied to `data`.
pub open spec fn canvas_noise(data: Seq<u8>, seed: u32) -> Seq<u8> {
    Seq::new(data.len(), |i: int| noised_byte(data, seed, i))
}

/// Apply deterministic canvas noise to an RGBA buffer.
///
/// Each complete 4-byte pixel advances the generator once; when bit 8 of the
/// state is set, the first non-zero RGB channel moves by one (up when bit 9
/// is set, saturating at 255; down otherwise). Alpha bytes, zero channels
/// and an incomplete trailing pixel are never touched, and a zero seed
/// leaves the buffer unchanged.
pub fn apply_canvas_noise(data: &mut [u8], seed: u32)
    ensures
        final(data)@ == canvas_noise(old(data)@, seed),
{
    let ghost orig = data@;
    if seed == 0 || data.len() == 0 {
        assert(data@ =~= canvas_noise(orig, seed));
        return;
    }
    let mut state: u32 = seed;
    let mut i: usize = 0;
    while i < data.len() && data.len() - i > 3
        invariant
            data@.len() == orig.len(),
            seed != 0,
            i % 4 == 0,
            i <= data@.len(),
            state == lcg_state(seed, (i / 4) as nat),
            forall|k: int| 0 <= k < i ==> data@[k] == noised_byte(orig, seed, k),
            forall|k: int| i <= k < data@.len() ==> data@[k] == orig[k],
        decreases data@.len() - i,
    {
        state = state.wrapping_mul(1664525).wrapping_add(1013904223);
        assert(state == lcg_state(seed, (i / 4 + 1) as nat));
        if state & 0x100 != 0 {
            let mut c: usize = 0;
            let mut done = false;
            let ghost pre = data@;
            while c < 3 && !done
                invariant
                    data@.len() == orig.len(),
                    pre.len() == orig.len(),
                    i + 3 < data@.len(),
                    c <= 3,
                    forall|k: int| i <= k < data@.len() ==> pre[k] == orig[k],
                    done ==> c >= 1 && first_nonzero_channel(orig, i as int) == c - 1,
                    !done ==> forall|k: int| i <= k < i + c ==> orig[k] == 0,
                    forall|k: int|
                        0 <= k < data@.len() && (k < i || k >= i + 4) ==> data@[k] == pre[k],
                    forall|k: int|
                        i <= k < i + 4 ==> data@[k] == if done && k == i + c - 1 {
                            nudged(orig[k], state & 0x200 != 0)
                        } else {
                            orig[k]
                        },
                decreases 3 - c + (if done { 0int } else { 1int }),
            {
                let val = data[i + c];
                if val != 0 {
                    let nv: u8 = if state & 0x200 != 0 {
                        if val == 255 {
                            255
                        } else {
                            val + 1
                        }
                    } else {
                        val - 1
                    };
                    data[i + c] = nv;
                    done = true;
                }
                c += 1;
            }
            proof {
                assert forall|j: int| 0 <= j < 4 implies #[trigger] data@[i + j] == noised_byte(
                    orig,
                    seed,
                    i + j,
                ) by {
                    assert((i + j) / 4 == i / 4);
                    assert((i + j) % 4 == j);
                    assert(4 * ((i + j) / 4) == i);
                }
            }
        } else {
            proof {
                assert forall|j: int| 0 <= j < 4 implies #[trigger] data@[i + j] == noised_byte(
                    orig,
                    seed,
                    i + j,
                ) by {
                    assert((i + j) / 4 == i / 4);
                    assert((i + j) % 4 == j);
                    assert(4 * ((i + j) / 4) == i);
                }
            }
        }
        proof {
            assert forall|k: int| 0 <= k < i + 4 implies data@[k] == noised_byte(orig, seed, k) by {
                if k >= i {
                    assert(data@[i + (k - i)] == noised_byte(orig, seed, i + (k - i)));
                }
            }
        }
        i += 4;
    }
    proof {
        assert forall|k: int| i <= k < data@.len() implies data@[k] == noised_byte(orig, seed, k) by {
            assert(4 * (k / 4) + 3 >= orig.len());
        }
        assert(data@ =~= canvas_noise(orig, seed));
    }
}

/// A zero seed leaves the buffer unchanged.
pub proof fn lemma_zero_seed_noop(data: Seq<u8>)
    ensures
        canvas_noise(data, 0) == data,
{
    assert(canvas_noise(data, 0) =~= data);
}

/// Noise never touches alpha bytes, never turns a zero byte non-zero, moves
/// every byte by at most one, and keeps the buffer's length.
pub proof fn lemma_noise_properties(data: Seq<u8>, seed: u32)
    ensures
        canvas_noise(data, seed).len() == data.len(),
        forall|i: int| 0 <= i < data.len() && i % 4 == 3 ==> #[trigger] canvas_noise(data, seed)[i] == data[i],
        forall|i: int| 0 <= i < data.len() && data[i] == 0 ==> #[trigger] canvas_noise(data, seed)[i] == 0,
        forall|i: int|
            0 <= i < data.len() ==> -1 <= #[trigger] canvas_noise(data, seed)[i] - data[i] <= 1,
{
    assert forall|i: int| 0 <= i < data.len() && data[i] == 0 implies #[trigger] canvas_noise(data, seed)[i] == 0 by {
        let base = 4 * (i / 4);
        let ch = i % 4;
        if ch < 3 && base + 3 < data.len() {
            assert(base + ch == i);
            if ch == first_nonzero_channel(data, base) {
                assert(data[base + ch] != 0);
            }
        }
    }
}

/// Within one pixel, at most one byte changes.
pub proof fn lemma_one_channel_per_pixel(data: Seq<u8>, seed: u32, i: int, j: int)
    requires
        0 <= i < data.len(),
        0 <= j < data.len(),
        i / 4 == j / 4,
        i != j,
        canvas_noise(data, seed)[i] != data[i],
    ensures
        canvas_noise(data, seed)[j] == data[j],
{
}

} // verus!
