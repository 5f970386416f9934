//! Pre-run workspace snapshots: one detached repository per workspace under
//! `~/.flint/snapshots/<hash>/`, whose work tree is the user's folder (nothing is created
//! inside it). The repositories are written by the caller with `git2`; this module names
//! them and decides which old ones to evict.
use vstd::prelude::*;
use vstd::string::*;
use vstd::utf8::encode_utf8;
use crate::config::{is_relative, join, path_join};
use crate::text::{hex_char, hex_pad, push_hex_pad};

verus! {

/// Keep at most this many snapshot repositories; the oldest are evicted.
pub const MAX_SNAPSHOT_REPOS: usize = 10;

/// The 64-bit FNV-1a offset basis.
pub open spec fn fnv_offset() -> u64 {
    0xcbf29ce484222325
}

/// The 64-bit FNV-1a prime.
pub open spec fn fnv_prime() -> u64 {
    0x100000001b3
}

/// One FNV-1a step: mix in the byte, then multiply by the prime (wrapping).
pub open spec fn fnv1a_step(h: u64, b: u8) -> u64 {
    ((((h ^ (b as u64)) as nat) * (fnv_prime() as nat)) % 0x1_0000_0000_0000_0000) as u64
}

/// FNV-1a over `bytes`, continuing from the state `h`.
pub open spec fn fnv1a_from(h: u64, bytes: Seq<u8>) -> u64
    decreases bytes.len(),
{
    if bytes.len() == 0 {
        h
    } else {
        fnv1a_step(fnv1a_from(h, bytes.drop_last()), bytes.last())
    }
}

/// The 64-bit FNV-1a hash of `bytes`.
pub open spec fn fnv1a_64(bytes: Seq<u8>) -> u64 {
    fnv1a_from(fnv_offset(), bytes)
}

/// The 64-bit FNV-1a hash of `bytes`: the same for the same bytes in every run and
/// every build.
pub fn fnv1a_hash(bytes: &[u8]) -> (r: u64)
    ensures
        r == fnv1a_64(bytes@),
{
    let mut h: u64 = 0xcbf29ce484222325;
    let mut i: usize = 0;
    assert(bytes@.take(0) =~= Seq::<u8>::empty());
    while i < bytes.len()
        invariant
            i <= bytes@.len(),
            h == fnv1a_from(fnv_offset(), bytes@.take(i as int)),
        decreases bytes@.len() - i,
    {
        let ghost before = h;
        h = (h ^ (bytes[i] as u64)).wrapping_mul(0x100000001b3);
        assert(bytes@.take(i + 1).drop_last() =~= bytes@.take(i as int));
        assert(bytes@.take(i + 1).last() == bytes@[i as int]);
        assert(h == fnv1a_step(before, bytes@[i as int]));
        i = i + 1;
    }
    assert(bytes@.take(bytes@.len() as int) =~= bytes@);
    h
}

/// A workspace's stable short name: the FNV-1a hash of its path's UTF-8 bytes, as 16
/// lower-case hex digits. A moved or renamed workspace is a new one.
pub open spec fn workspace_name(workspace: Seq<char>) -> Seq<char> {
    hex_pad(fnv1a_64(encode_utf8(workspace)) as nat, 16)
}

pub proof fn lemma_hex_pad_chars(n: nat, width: nat)
    ensures
        hex_pad(n, width).len() == width,
        forall|i: int| 0 <= i < width ==> #[trigger] hex_pad(n, width)[i] != '/',
    decreases width,
{
    if width > 0 {
        lemma_hex_pad_chars(n / 16, (width - 1) as nat);
        let d = (n % 16) as nat;
        assert(hex_char(d) != '/');
    }
}

/// The hash of the workspace path, in hex (`{:016x}`).
pub fn workspace_hash(workspace: &str) -> (r: String)
    ensures
        r@ == workspace_name(workspace@),
{
    let mut out = String::new();
    let bytes = workspace.as_bytes();
    assert(bytes@ == encode_utf8(workspace@));
    push_hex_pad(&mut out, fnv1a_hash(bytes), 16);
    assert(Seq::<char>::empty() + hex_pad(fnv1a_64(encode_utf8(workspace@)) as nat, 16)
        =~= workspace_name(workspace@));
    out
}

/// The snapshot repository of `workspace` under `root`.
pub fn repo_path_for(root: &str, workspace: &str) -> (r: String)
    ensures
        r@ == path_join(root@, workspace_name(workspace@)),
{
    let name = workspace_hash(workspace);
    proof {
        lemma_hex_pad_chars(fnv1a_64(encode_utf8(workspace@)) as nat, 16);
    }
    join(root, name.as_str())
}

// ------------------------------------------------------------------------------------
// Eviction
// ------------------------------------------------------------------------------------
/// Modification times order repositories; an unknown time sorts first.
pub open spec fn time_lt(a: Option<u128>, b: Option<u128>) -> bool {
    match (a, b) {
        (None, Some(_)) => true,
        (Some(x), Some(y)) => x < y,
        _ => false,
    }
}

/// Repository `i` comes before `j`: older, or as old and listed earlier (a stable sort by
/// modification time).
pub open spec fn precedes(times: Seq<Option<u128>>, i: int, j: int) -> bool {
    time_lt(times[i], times[j]) || (times[i] == times[j] && i < j)
}

/// `order` lists indices below `n` without repetition, each preceding the next.
pub open spec fn ascending(times: Seq<Option<u128>>, order: Seq<usize>) -> bool {
    &&& order.no_duplicates()
    &&& forall|a: int| 0 <= a < order.len() ==> (#[trigger] order[a] as int) < times.len()
    &&& forall|a: int, b: int|
        0 <= a < b < order.len() ==> precedes(times, #[trigger] order[a] as int, #[trigger] order[b] as int)
}

/// How many repositories to evict among `n`.
pub open spec fn evict_count(n: nat) -> nat {
    if n > 10 {
        (n - 10) as nat
    } else {
        0
    }
}

/// Pruning leaves at most `MAX_SNAPSHOT_REPOS` repositories and evicts none needlessly:
/// of `n` listed repositories, what remains after evicting `evict_count(n)` is at most
/// the limit, nothing is evicted while the limit is not exceeded, and above the limit
/// exactly the limit remains.
pub proof fn lemma_prune_keeps_the_limit(n: nat)
    ensures
        evict_count(n) <= n,
        n - evict_count(n) <= MAX_SNAPSHOT_REPOS,
        n <= MAX_SNAPSHOT_REPOS ==> evict_count(n) == 0,
        n > MAX_SNAPSHOT_REPOS ==> n - evict_count(n) == MAX_SNAPSHOT_REPOS,
{
}

proof fn lemma_time_order(a: Option<u128>, b: Option<u128>, c: Option<u128>)
    ensures
        time_lt(a, b) && time_lt(b, c) ==> time_lt(a, c),
        !time_lt(a, b) ==> time_lt(b, a) || a == b,
        time_lt(a, b) ==> !time_lt(b, a) && a != b,
{
}

/// The repositories to evict, given each one's modification time (in the order they were
/// listed) and the index of the one just snapshotted, `keep`, which is never evicted (an
/// index past the list keeps none in particular): none when at most ten exist; otherwise
/// as many as leave ten, the oldest others first, ties kept in listing order. Every other
/// repository kept is newer than (or as new as and listed after) every one evicted.
pub fn repos_to_prune(times: &Vec<Option<u128>>, keep: usize) -> (r: Vec<usize>)
    ensures
        r@.len() == evict_count(times@.len()),
        times@.len() - r@.len() <= MAX_SNAPSHOT_REPOS,
        times@.len() <= MAX_SNAPSHOT_REPOS ==> r@.len() == 0,
        ascending(times@, r@),
        !r@.contains(keep),
        forall|j: int, a: int|
            0 <= j < times@.len() && j != keep && !r@.contains(j as usize) && 0 <= a < r@.len()
                ==> #[trigger] precedes(
                times@,
                r@[a] as int,
                j,
            ),
{
    let n = times.len();
    let mut order: Vec<usize> = Vec::new();
    let mut i: usize = 0;
    while i < n
        invariant
            n == times@.len(),
            i <= n,
            order@.len() == if keep < i {
                i - 1
            } else {
                i as int
            },
            ascending(times@, order@),
            forall|a: int| 0 <= a < order@.len() ==> (#[trigger] order@[a] as int) < i,
            forall|a: int| 0 <= a < order@.len() ==> #[trigger] order@[a] != keep,
            forall|j: int| 0 <= j < i && j != keep ==> #[trigger] order@.contains(j as usize),
        decreases n - i,
    {
        if i == keep {
            i = i + 1;
            continue;
        }
        // insert `i` before the first entry strictly newer than it
        let mut p: usize = 0;
        while p < order.len() && !time_lt_exec(times[i], times[order[p]])
            invariant
                n == times@.len(),
                i < n,
                p <= order@.len(),
                forall|a: int| 0 <= a < order@.len() ==> (#[trigger] order@[a] as int) < i,
                forall|a: int| 0 <= a < p ==> !time_lt(times@[i as int], times@[#[trigger] order@[a] as int]),
            decreases order@.len() - p,
        {
            p = p + 1;
        }
        let ghost old_order = order@;
        proof {
            old_order.insert_ensures(p as int, i);
            assert forall|a: int| 0 <= a < p implies precedes(times@, #[trigger] old_order[a] as int, i as int) by {
                lemma_time_order(times@[i as int], times@[old_order[a] as int], times@[i as int]);
            }
            assert forall|a: int| p <= a < old_order.len() implies precedes(times@, i as int, #[trigger] old_order[a] as int) by {
                let q = p as int;
                assert(time_lt(times@[i as int], times@[old_order[q] as int]));
                if a > q {
                    assert(precedes(times@, old_order[q] as int, old_order[a] as int));
                    lemma_time_order(times@[i as int], times@[old_order[q] as int], times@[old_order[a] as int]);
                }
            }
        }
        order.insert(p, i);
        proof {
            let s = order@;
            assert(s.len() == old_order.len() + 1);
            assert forall|a: int| 0 <= a < s.len() implies (#[trigger] s[a] as int) <= i && s[a]
                != keep by {
                if a < p {
                    assert(s[a] == old_order[a]);
                } else if a > p {
                    assert(s[a] == old_order[a - 1]);
                }
            }
            assert forall|a: int, b: int|
                0 <= a < b < s.len() implies precedes(times@, #[trigger] s[a] as int, #[trigger] s[b] as int) by {
                if a < p && b < p {
                    assert(s[a] == old_order[a] && s[b] == old_order[b]);
                } else if a < p && b == p {
                    assert(s[a] == old_order[a]);
                } else if a < p && b > p {
                    assert(s[a] == old_order[a] && s[b] == old_order[b - 1]);
                    assert(precedes(times@, old_order[a] as int, i as int));
                    assert(precedes(times@, i as int, old_order[b - 1] as int));
                    lemma_time_order(times@[old_order[a] as int], times@[i as int], times@[old_order[b - 1] as int]);
                } else if a == p {
                    assert(s[b] == old_order[b - 1]);
                } else {
                    assert(s[a] == old_order[a - 1] && s[b] == old_order[b - 1]);
                }
            }
            assert forall|a: int, b: int|
                0 <= a < s.len() && 0 <= b < s.len() && a != b implies s[a] != s[b] by {
                if a != p as int && b != p as int {
                    let a2 = if a < p { a } else { a - 1 };
                    let b2 = if b < p { b } else { b - 1 };
                    assert(s[a] == old_order[a2] && s[b] == old_order[b2]);
                } else if a == p as int {
                    let b2 = if b < p { b } else { b - 1 };
                    assert(s[b] == old_order[b2]);
                } else {
                    let a2 = if a < p { a } else { a - 1 };
                    assert(s[a] == old_order[a2]);
                }
            }
            assert forall|j: int| 0 <= j < i + 1 && j != keep implies #[trigger] s.contains(
                j as usize,
            ) by {
                if j == i {
                    assert(s[p as int] == i);
                } else {
                    assert(old_order.contains(j as usize));
                    let w = choose|w: int| 0 <= w < old_order.len() && old_order[w] == j as usize;
                    if w < p {
                        assert(s[w] == old_order[w]);
                    } else {
                        assert(s[w + 1] == old_order[w]);
                    }
                }
            }
        }
        i = i + 1;
    }
    let k: usize = if n > 10 {
        n - 10
    } else {
        0
    };
    let mut r: Vec<usize> = Vec::new();
    let mut m: usize = 0;
    while m < k
        invariant
            k <= order@.len(),
            n == times@.len(),
            m <= k,
            r@ == order@.take(m as int),
        decreases k - m,
    {
        r.push(order[m]);
        assert(order@.take(m + 1) =~= order@.take(m as int).push(order@[m as int]));
        m = m + 1;
    }
    proof {
        let o = order@;
        assert(r@ =~= o.take(k as int));
        assert forall|j: int, a: int|
            0 <= j < times@.len() && j != keep && !r@.contains(j as usize) && 0 <= a < r@.len()
                implies #[trigger] precedes(
                times@,
                r@[a] as int,
                j,
            ) by {
            assert(o.contains(j as usize));
            let w = choose|w: int| 0 <= w < o.len() && o[w] == j as usize;
            if w < k {
                assert(r@[w] == j as usize);
            }
            assert(r@[a] == o[a]);
        }
        assert forall|a: int| 0 <= a < r@.len() implies #[trigger] r@[a] != keep by {
            assert(r@[a] == o[a]);
        }
    }
    r
}

fn time_lt_exec(a: Option<u128>, b: Option<u128>) -> (r: bool)
    ensures
        r == time_lt(a, b),
{
    match (a, b) {
        (None, Some(_)) => true,
        (Some(x), Some(y)) => x < y,
        _ => false,
    }
}

} // verus!
