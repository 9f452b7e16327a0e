#!/usr/bin/env python3
"""Cross-checks the integer models in src/ambient.rs against IEEE-754 single
precision arithmetic.

The ambient color code is specified in src/ambient.rs over integers only:
`rgb_to_ct_v`, `band_v` (via `to_single`) and `boost_channel` (via
`frac_scale`, `div_round_even` and `to_single`). Each stands for a short
formula evaluated in `f32`. This script evaluates both sides and reports every
input on which they differ:

  * color temperature: all 511 values of `b - r`;
  * saturation boost: every (max, min, channel) triple with
    0 <= min < max <= 255 and min <= channel <= max (about 2.8 million);
  * edge band: every dimension below 2^17, every dimension within 64 of a
    power of two up to 2^32, and a random sample of the rest.

It also evaluates, in f32, that the boost never reorders channels (a brighter
channel stays at least as bright); src/ambient.rs proves the same of the integer
model in `saturate_keeps_channel_order`.

Run with `python3 extras/single_precision_models.py`; it prints one summary
line per model and exits non-zero on any difference.
"""
import math
import random
import struct
import sys


def f32(x):
    """Round a Python float (double) to the nearest single-precision value."""
    return struct.unpack("f", struct.pack("f", x))[0]


def clamp(x, lo, hi):
    return lo if x < lo else (hi if x > hi else x)


# ----- integer models, written as in src/ambient.rs --------------------------------

def single_ulp(d):
    return 1 if d < (1 << 24) else 2 * single_ulp(d // 2)


def div_round_even(n, d):
    q, r = divmod(n, d)
    if 2 * r > d or (2 * r == d and q % 2 == 1):
        q += 1
    return q


def to_single(d):
    u = single_ulp(d)
    return div_round_even(d, u) * u


def frac_scale(a, b, p):
    while a * p < (1 << 23) * b:
        p *= 2
    return p


def boost_channel(ch, mx, mn):
    spread = mx - mn
    if 7 * spread >= 5 * mx:
        a = ch - mn
        if a == 0:
            return 0
        p = frac_scale(a, spread, 1)
        m = div_round_even(a * p, spread)
        return min((2 * to_single(m * mx) + p) // (2 * p), 255)
    return (2 * (7 * ch - 2 * mx) + 5) // 10


def rgb_to_ct_v(d):
    """`d` is `b - r`."""
    return 1700 + (160 * (d + 255)) // 17


def band_v(dim):
    q = to_single(dim) // 4
    return min(max(q, 1), dim)


# ----- the single-precision formulas -----------------------------------------------

F14 = f32(1.4)


def boost_float(ch, mx, mn):
    v = float(mx)
    s = clamp(f32(f32(float(mx - mn) / v) * F14), 0.0, 1.0)
    frac = f32(float(ch - mn) / float(mx - mn))
    lo = f32(v * f32(1.0 - s))
    x = f32(lo + f32(frac * f32(v - lo)))
    rounded = math.floor(x + 0.5)  # half away from zero; x >= 0 here
    return int(clamp(rounded, 0.0, 255.0))


def ct_float(d):
    warmth = f32(f32(float(d)) / 255.0)
    t = clamp(f32(f32(warmth * 0.5) + 0.5), 0.0, 1.0)
    k = f32(1700.0 + f32(t * 4800.0))
    return min(int(math.trunc(k)), 65535)


def band_float(dim):
    q = int(math.trunc(f32(f32(float(dim)) * 0.25)))
    return min(max(q, 1), dim)


def main():
    failures = 0

    bad = [d for d in range(-255, 256) if ct_float(d) != rgb_to_ct_v(d)]
    print("color temperature: %d differences of 511" % len(bad))
    failures += len(bad)

    bad = 0
    total = 0
    reorders = 0
    for mx in range(1, 256):
        for mn in range(0, mx):
            prev = -1
            for ch in range(mn, mx + 1):
                total += 1
                v = boost_channel(ch, mx, mn)
                if boost_float(ch, mx, mn) != v:
                    bad += 1
                if v < prev:
                    reorders += 1
                prev = v
    print("saturation boost: %d differences of %d" % (bad, total))
    print("saturation boost: %d channel reorderings" % reorders)
    failures += bad + reorders

    dims = set(range(1 << 17))
    for k in range(17, 33):
        for off in range(-64, 65):
            d = (1 << k) + off
            if 0 <= d < (1 << 32):
                dims.add(d)
    rng = random.Random(7)
    for _ in range(200000):
        dims.add(rng.randrange(1 << 32))
    bad = [d for d in dims if band_float(d) != band_v(d)]
    print("edge band: %d differences of %d" % (len(bad), len(dims)))
    failures += len(bad)

    sys.exit(1 if failures else 0)


if __name__ == "__main__":
    main()
