//! Track-name selection from the optional configuration file.
//!
//! The card may carry a small text file naming the audio file to play: one
//! line, surrounded by whatever whitespace an editor left behind. When the
//! file is absent the player falls back to a fixed default name instead of
//! failing, so a card with nothing but an audio track still plays.

use vstd::prelude::*;

verus! {

/// ASCII whitespace as a configuration line may carry it: space, tab,
/// line feed, vertical tab, form feed, carriage return.
pub open spec fn spec_is_space(b: u8) -> bool {
    b == 0x20 || (0x09 <= b <= 0x0d)
}

/// `s` with its leading whitespace dropped.
pub open spec fn spec_trim_front(s: Seq<u8>) -> Seq<u8>
    decreases s.len(),
{
    if s.len() > 0 && spec_is_space(s[0]) {
        spec_trim_front(s.subrange(1, s.len() as int))
    } else {
        s
    }
}

/// `s` with its trailing whitespace dropped.
pub open spec fn spec_trim_back(s: Seq<u8>) -> Seq<u8>
    decreases s.len(),
{
    if s.len() > 0 && spec_is_space(s[s.len() - 1]) {
        spec_trim_back(s.subrange(0, s.len() - 1))
    } else {
        s
    }
}

/// `s` with whitespace dropped from both ends.
pub open spec fn spec_trim(s: Seq<u8>) -> Seq<u8> {
    spec_trim_back(spec_trim_front(s))
}

/// The fixed default track name, used when no configuration file is
/// present: the bytes of `TRACK.RAW`.
pub open spec fn spec_default_track() -> Seq<u8> {
    seq![0x54u8, 0x52u8, 0x41u8, 0x43u8, 0x4bu8, 0x2eu8, 0x52u8, 0x41u8, 0x57u8]
}

/// Build the default track name.
pub fn default_track() -> (r: Vec<u8>)
    ensures
        r@ == spec_default_track(),
{
    let mut r: Vec<u8> = Vec::new();
    r.push(0x54);
    r.push(0x52);
    r.push(0x41);
    r.push(0x43);
    r.push(0x4b);
    r.push(0x2e);
    r.push(0x52);
    r.push(0x41);
    r.push(0x57);
    proof {
        assert(r@ =~= spec_default_track());
    }
    r
}

/// Copy `v` with whitespace dropped from both ends.
pub fn trim_bytes(v: &Vec<u8>) -> (r: Vec<u8>)
    ensures
        r@ == spec_trim(v@),
{
    let ghost s = v@;
    let len: usize = v.len();

    proof {
        assert(s.subrange(0, len as int) =~= s);
    }
    let mut lo: usize = 0;
    while lo < len && (v[lo] == 0x20 || (0x09 <= v[lo] && v[lo] <= 0x0d))
        invariant
            lo <= len,
            len == s.len(),
            s == v@,
            spec_trim_front(s) == spec_trim_front(s.subrange(lo as int, len as int)),
        decreases len - lo,
    {
        proof {
            let sub = s.subrange(lo as int, len as int);
            assert(spec_is_space(sub[0]));
            assert(sub.subrange(1, sub.len() as int) =~= s.subrange(lo + 1, len as int));
        }
        lo = lo + 1;
    }
    proof {
        if lo < len {
            assert(!spec_is_space(s.subrange(lo as int, len as int)[0]));
        }
        assert(spec_trim_front(s) == s.subrange(lo as int, len as int));
    }

    let mut hi: usize = len;
    while hi > lo && (v[hi - 1] == 0x20 || (0x09 <= v[hi - 1] && v[hi - 1] <= 0x0d))
        invariant
            lo <= hi <= len,
            len == s.len(),
            s == v@,
            spec_trim_back(s.subrange(lo as int, len as int)) == spec_trim_back(
                s.subrange(lo as int, hi as int),
            ),
        decreases hi,
    {
        proof {
            let sub = s.subrange(lo as int, hi as int);
            assert(spec_is_space(sub[sub.len() - 1]));
            assert(sub.subrange(0, sub.len() - 1) =~= s.subrange(lo as int, hi - 1));
        }
        hi = hi - 1;
    }
    proof {
        if hi > lo {
            let sub = s.subrange(lo as int, hi as int);
            assert(!spec_is_space(sub[sub.len() - 1]));
        }
        assert(spec_trim_back(s.subrange(lo as int, len as int)) == s.subrange(
            lo as int,
            hi as int,
        ));
        assert(spec_trim(s) == s.subrange(lo as int, hi as int));
    }

    let mut r: Vec<u8> = Vec::new();
    proof {
        assert(r@ =~= s.subrange(lo as int, lo as int));
    }
    let mut k: usize = lo;
    while k < hi
        invariant
            lo <= k <= hi <= len,
            len == s.len(),
            s == v@,
            r@ == s.subrange(lo as int, k as int),
        decreases hi - k,
    {
        r.push(v[k]);
        proof {
            assert(s.subrange(lo as int, k + 1) =~= s.subrange(lo as int, k as int).push(
                s[k as int],
            ));
        }
        k = k + 1;
    }
    proof {
        assert(r@ == spec_trim(s));
    }
    r
}

/// Choose the track to play: the trimmed contents of the configuration
/// file when one was read, the fixed default name when none is present.
pub fn select_track(config: Option<Vec<u8>>) -> (r: Vec<u8>)
    ensures
        config is None ==> r@ == spec_default_track(),
        config matches Some(c) ==> r@ == spec_trim(c@),
{
    match config {
        None => default_track(),
        Some(c) => trim_bytes(&c),
    }
}

} // verus!
