//! Build-time configuration resolution: locating the configuration artifact
//! path inside the build flags, and decoding the artifact's compact binary
//! encoding into the three segment sizes.

use vstd::prelude::*;
use crate::layout::BuildConfiguration;

verus! {

// ---------------------------------------------------------------------------
// Locating the artifact path in the build flags
// ---------------------------------------------------------------------------

/// True exactly when the 20 marker bytes `compile_config_dir="` start at `i`.
pub open spec fn is_marker_at(s: Seq<u8>, i: int) -> bool {
    &&& 0 <= i
    &&& i + 20 <= s.len()
    &&& s[i] == 99  // c
    &&& s[i + 1] == 111  // o
    &&& s[i + 2] == 109  // m
    &&& s[i + 3] == 112  // p
    &&& s[i + 4] == 105  // i
    &&& s[i + 5] == 108  // l
    &&& s[i + 6] == 101  // e
    &&& s[i + 7] == 95  // _
    &&& s[i + 8] == 99  // c
    &&& s[i + 9] == 111  // o
    &&& s[i + 10] == 110  // n
    &&& s[i + 11] == 102  // f
    &&& s[i + 12] == 105  // i
    &&& s[i + 13] == 103  // g
    &&& s[i + 14] == 95  // _
    &&& s[i + 15] == 100  // d
    &&& s[i + 16] == 105  // i
    &&& s[i + 17] == 114  // r
    &&& s[i + 18] == 61  // =
    &&& s[i + 19] == 34  // "
}

/// Index of the first marker at or after `from`, if any.
pub open spec fn find_marker_from(s: Seq<u8>, from: int) -> Option<int>
    decreases s.len() - from,
{
    if from < 0 || from + 20 > s.len() {
        None
    } else if is_marker_at(s, from) {
        Some(from)
    } else {
        find_marker_from(s, from + 1)
    }
}

/// End of the run of non-quote bytes that starts at `from`: the index of the
/// first `"` at or after `from`, or the end of the sequence.
pub open spec fn path_end_from(s: Seq<u8>, from: int) -> int
    decreases s.len() - from,
{
    if from < 0 || from >= s.len() {
        s.len() as int
    } else if s[from] == 34 {
        from
    } else {
        path_end_from(s, from + 1)
    }
}

/// The artifact path embedded in the build flags, if the marker occurs in
/// them: the bytes between the first marker and the next `"` (or the end of
/// the flags, when no closing quote follows).
pub open spec fn spec_config_path(s: Seq<u8>) -> Option<Seq<u8>> {
    match find_marker_from(s, 0) {
        None => None,
        Some(i) => Some(s.subrange(i + 20, path_end_from(s, i + 20))),
    }
}

proof fn lemma_find_marker_first(s: Seq<u8>, from: int, i: int)
    requires
        0 <= from <= i,
        is_marker_at(s, i),
        forall|k: int| from <= k < i ==> !is_marker_at(s, k),
    ensures
        find_marker_from(s, from) == Some(i),
    decreases i - from,
{
    if from < i {
        lemma_find_marker_first(s, from + 1, i);
    }
}

proof fn lemma_find_marker_none(s: Seq<u8>, from: int)
    requires
        0 <= from,
        forall|k: int| from <= k ==> !is_marker_at(s, k),
    ensures
        find_marker_from(s, from) is None,
    decreases s.len() - from,
{
    if from + 20 <= s.len() {
        lemma_find_marker_none(s, from + 1);
    }
}

proof fn lemma_path_end_run(s: Seq<u8>, from: int, j: int)
    requires
        0 <= from <= j <= s.len(),
        forall|k: int| from <= k < j ==> s[k] != 34,
        j == s.len() || s[j] == 34,
    ensures
        path_end_from(s, from) == j,
    decreases j - from,
{
    if from < j {
        lemma_path_end_run(s, from + 1, j);
    }
}

/// True exactly when the marker starts at `i`.
fn marker_at(bytes: &[u8], i: usize) -> (r: bool)
    requires
        i + 20 <= bytes@.len(),
    ensures
        r == is_marker_at(bytes@, i as int),
{
    bytes[i] == 99 && bytes[i + 1] == 111 && bytes[i + 2] == 109 && bytes[i + 3] == 112
        && bytes[i + 4] == 105 && bytes[i + 5] == 108 && bytes[i + 6] == 101 && bytes[i + 7] == 95
        && bytes[i + 8] == 99 && bytes[i + 9] == 111 && bytes[i + 10] == 110 && bytes[i + 11]
        == 102 && bytes[i + 12] == 105 && bytes[i + 13] == 103 && bytes[i + 14] == 95 && bytes[i
        + 15] == 100 && bytes[i + 16] == 105 && bytes[i + 17] == 114 && bytes[i + 18] == 61
        && bytes[i + 19] == 34
}

/// Extract the configuration-artifact path from the build flags: the bytes
/// between the first `compile_config_dir="` marker and the next `"` (or the
/// end of the flags). `None` exactly when no marker occurs.
pub fn extract_config_path(flags: &[u8]) -> (r: Option<Vec<u8>>)
    ensures
        r is Some <==> spec_config_path(flags@) is Some,
        r matches Some(p) ==> Some(p@) == spec_config_path(flags@),
{
    let n: usize = flags.len();
    if n < 20 {
        proof {
            assert forall|k: int| 0 <= k implies !is_marker_at(flags@, k) by {
                assert(k + 20 > n);
            }
            lemma_find_marker_none(flags@, 0);
        }
        return None;
    }
    let mut i: usize = 0;
    while i <= n - 20
        invariant
            n == flags@.len(),
            20 <= n,
            0 <= i <= n - 20 + 1,
            forall|k: int| 0 <= k < i ==> !is_marker_at(flags@, k),
        decreases n - i,
    {
        if marker_at(flags, i) {
            proof {
                lemma_find_marker_first(flags@, 0, i as int);
            }
            let start: usize = i + 20;
            let mut j: usize = start;
            while j < n && flags[j] != 34
                invariant
                    n == flags@.len(),
                    start <= j <= n,
                    forall|k: int| start <= k < j ==> flags@[k] != 34,
                decreases n - j,
            {
                j = j + 1;
            }
            proof {
                lemma_path_end_run(flags@, start as int, j as int);
            }
            let mut out: Vec<u8> = Vec::new();
            let mut k: usize = start;
            while k < j
                invariant
                    n == flags@.len(),
                    start <= k <= j <= n,
                    out@ == flags@.subrange(start as int, k as int),
                decreases j - k,
            {
                let b: u8 = flags[k];
                out.push(b);
                k = k + 1;
                proof {
                    assert(out@ =~= flags@.subrange(start as int, k as int));
                }
            }
            return Some(out);
        }
        i = i + 1;
    }
    proof {
        assert forall|k: int| 0 <= k implies !is_marker_at(flags@, k) by {
            if k >= i {
                assert(k + 20 > n);
            }
        }
        lemma_find_marker_none(flags@, 0);
    }
    None
}

// ---------------------------------------------------------------------------
// Decoding the configuration artifact
// ---------------------------------------------------------------------------

/// Value of the 32-bit varint encoding that starts at `i`, together with the
/// index just past it: little-endian groups of seven bits, a set high bit
/// marking continuation, at most `rounds` bytes in all, and a fifth byte
/// small enough that the value fits in 32 bits. `None` when the input ends
/// early, runs past `rounds` bytes, or overflows 32 bits.
pub open spec fn varint_u32_at(s: Seq<u8>, i: int, rounds: nat) -> Option<(nat, int)>
    decreases rounds,
{
    if rounds == 0 || i < 0 || i >= s.len() {
        None
    } else {
        let b = s[i];
        if b < 128 {
            if rounds == 1 && b >= 16 {
                None
            } else {
                Some((b as nat, i + 1))
            }
        } else {
            match varint_u32_at(s, i + 1, (rounds - 1) as nat) {
                None => None,
                Some(t) => Some(((b - 128) as nat + 128 * t.0, t.1)),
            }
        }
    }
}

/// Least upper bound on the value a varint of at most `rounds` bytes can
/// carry.
pub open spec fn varint_bound(rounds: nat) -> nat
    decreases rounds,
{
    if rounds <= 1 {
        16
    } else {
        128 * varint_bound((rounds - 1) as nat)
    }
}

proof fn lemma_varint_bound_at_least(rounds: nat)
    ensures
        varint_bound(rounds) >= 16,
    decreases rounds,
{
    if rounds > 1 {
        lemma_varint_bound_at_least((rounds - 1) as nat);
    }
}

/// A parsed varint stays under `varint_bound` and consumes at least one byte.
pub proof fn lemma_varint_u32_at_bound(s: Seq<u8>, i: int, rounds: nat)
    ensures
        varint_u32_at(s, i, rounds) matches Some(t) ==> {
            &&& t.0 < varint_bound(rounds)
            &&& i < t.1 <= s.len()
        },
    decreases rounds,
{
    if rounds > 0 && 0 <= i < s.len() {
        let b = s[i];
        if b >= 128 {
            lemma_varint_u32_at_bound(s, i + 1, (rounds - 1) as nat);
            lemma_varint_bound_at_least((rounds - 1) as nat);
        } else {
            lemma_varint_bound_at_least(rounds);
            if rounds > 1 {
                lemma_varint_bound_at_least((rounds - 1) as nat);
            }
        }
    }
}

proof fn lemma_varint_bound_values()
    ensures
        varint_bound(1) == 16,
        varint_bound(2) == 2048,
        varint_bound(3) == 262144,
        varint_bound(4) == 33554432,
        varint_bound(5) == 4294967296,
{
    assert(varint_bound(1) == 16);
    assert(varint_bound(2) == 128 * varint_bound(1));
    assert(varint_bound(3) == 128 * varint_bound(2));
    assert(varint_bound(4) == 128 * varint_bound(3));
    assert(varint_bound(5) == 128 * varint_bound(4));
}

/// Decode one 32-bit varint; mirrors `varint_u32_at` exactly.
fn read_varint_u32(bytes: &[u8], start: usize, rounds: usize) -> (r: Option<(u32, usize)>)
    requires
        1 <= rounds <= 5,
    ensures
        r is Some <==> varint_u32_at(bytes@, start as int, rounds as nat) is Some,
        r matches Some(t) ==> varint_u32_at(bytes@, start as int, rounds as nat) == Some(
            (t.0 as nat, t.1 as int),
        ),
    decreases rounds,
{
    if start >= bytes.len() {
        return None;
    }
    let b: u8 = bytes[start];
    if b < 128 {
        if rounds == 1 && b >= 16 {
            None
        } else {
            Some((b as u32, start + 1))
        }
    } else if rounds == 1 {
        proof {
            assert(varint_u32_at(bytes@, start as int + 1, 0) is None);
        }
        None
    } else {
        match read_varint_u32(bytes, start + 1, rounds - 1) {
            None => None,
            Some(t) => {
                proof {
                    lemma_varint_u32_at_bound(bytes@, start as int + 1, (rounds - 1) as nat);
                    lemma_varint_bound_values();
                    assert(varint_bound((rounds - 1) as nat) <= 33554432);
                }
                let value: u32 = (b - 128) as u32 + 128 * t.0;
                Some((value, t.1))
            },
        }
    }
}

/// The configuration carried by the artifact: three varint-encoded 32-bit
/// sizes — maximum input, maximum output, maximum log — in that order.
/// `None` when any of the three is malformed; bytes after the third are
/// ignored.
pub open spec fn spec_decode_config(s: Seq<u8>) -> Option<BuildConfiguration> {
    match varint_u32_at(s, 0, 5) {
        None => None,
        Some(a) => match varint_u32_at(s, a.1, 5) {
            None => None,
            Some(b) => match varint_u32_at(s, b.1, 5) {
                None => None,
                Some(c) => Some(
                    BuildConfiguration {
                        max_input_size: a.0 as u32,
                        max_output_size: b.0 as u32,
                        max_log_size: c.0 as u32,
                    },
                ),
            },
        },
    }
}

/// Decode the configuration artifact's compact binary encoding. Succeeds
/// exactly when three well-formed varints open the artifact, and then hands
/// their values back as the build configuration.
pub fn decode_build_configuration(bytes: &[u8]) -> (r: Option<BuildConfiguration>)
    ensures
        r == spec_decode_config(bytes@),
{
    let a: (u32, usize) = match read_varint_u32(bytes, 0, 5) {
        None => {
            return None;
        },
        Some(t) => t,
    };
    let b: (u32, usize) = match read_varint_u32(bytes, a.1, 5) {
        None => {
            return None;
        },
        Some(t) => t,
    };
    let c: (u32, usize) = match read_varint_u32(bytes, b.1, 5) {
        None => {
            return None;
        },
        Some(t) => t,
    };
    Some(
        BuildConfiguration {
            max_input_size: a.0,
            max_output_size: b.0,
            max_log_size: c.0,
        },
    )
}

} // verus!
