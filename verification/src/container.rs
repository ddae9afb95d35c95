//! A guard over the container declaration of an uploaded archive.
//!
//! The e-book parser unwraps the parent of the root path the container
//! declaration names, so a declaration whose root path has no parent — an
//! empty value or a bare root — would make it panic instead of failing.
//! Before the parser runs, this module screens the declaration's raw bytes:
//! a byte-order mark that announces a multi-byte text encoding, or any
//! occurrence of the root path attribute whose quoted value is empty, all
//! slashes, or touched by character references or line breaks, rejects the
//! input.  The screen over-approximates the dangerous declarations — a
//! rejected upload merely yields no metadata, which best-effort extraction
//! allows — and is fully verified against the specification below.

use vstd::prelude::*;

verus! {

/// The name of the root path attribute, as bytes.
pub open spec fn root_attr_marker() -> Seq<u8> {
    seq![102u8, 117u8, 108u8, 108u8, 45u8, 112u8, 97u8, 116u8, 104u8]
}

/// Whether a byte is XML whitespace.
pub open spec fn is_xml_space(b: u8) -> bool {
    b == 32 || b == 9 || b == 13 || b == 10
}

/// The first position at or after `i` holding no XML whitespace, or the
/// length.
pub open spec fn skip_spaces(c: Seq<u8>, i: int) -> int
    decreases c.len() - i,
{
    if i < 0 || i >= c.len() {
        c.len() as int
    } else if is_xml_space(c[i]) {
        skip_spaces(c, i + 1)
    } else {
        i
    }
}

/// The first position at or after `i` holding the byte `b`, if any.
pub open spec fn find_byte(c: Seq<u8>, i: int, b: u8) -> Option<int>
    decreases c.len() - i,
{
    if i < 0 || i >= c.len() {
        None
    } else if c[i] == b {
        Some(i)
    } else {
        find_byte(c, i + 1, b)
    }
}

/// A safe attribute value: it holds some byte other than a slash — so the
/// path it denotes has a parent — and no ampersand, tab, carriage return or
/// line feed, so the parser reads it exactly as it stands.
pub open spec fn value_is_safe(v: Seq<u8>) -> bool {
    &&& exists|t: int| 0 <= t < v.len() && v[t] != 47
    &&& forall|t: int| 0 <= t < v.len() ==> v[t] != 38 && v[t] != 9 && v[t] != 13 && v[t] != 10
}

/// Whether the root path attribute's name stands at position `i`.
pub open spec fn marker_at(c: Seq<u8>, i: int) -> bool {
    0 <= i && i + 9 <= c.len() && c.subrange(i, i + 9) == root_attr_marker()
}

/// Whether the marker occurrence at `i` is followed by a well-shaped
/// assignment of a safe quoted value.
pub open spec fn occurrence_is_safe(c: Seq<u8>, i: int) -> bool {
    let p = skip_spaces(c, i + 9);
    if p < c.len() && c[p] == 61 {
        let q = skip_spaces(c, p + 1);
        if q < c.len() && (c[q] == 34 || c[q] == 39) {
            match find_byte(c, q + 1, c[q]) {
                Some(e) => value_is_safe(c.subrange(q + 1, e)),
                None => false,
            }
        } else {
            false
        }
    } else {
        false
    }
}

/// Whether the bytes open with a byte-order mark that announces a
/// multi-byte text encoding, directly or behind a UTF-8 mark.
pub open spec fn utf16_bom(c: Seq<u8>) -> bool {
    ||| (c.len() >= 2 && ((c[0] == 254 && c[1] == 255) || (c[0] == 255 && c[1] == 254)))
    ||| (c.len() >= 5 && c[0] == 239 && c[1] == 187 && c[2] == 191 && ((c[3] == 254 && c[4]
        == 255) || (c[3] == 255 && c[4] == 254)))
}

/// The guard: the declaration is read byte for byte — no multi-byte
/// byte-order mark — and every occurrence of the root path attribute's name
/// is followed by a plainly safe quoted value.
pub open spec fn container_root_is_safe(c: Seq<u8>) -> bool {
    &&& !utf16_bom(c)
    &&& forall|i: int| marker_at(c, i) ==> occurrence_is_safe(c, i)
}

/// A skipped region reaches no further than the length.
proof fn lemma_skip_spaces_range(c: Seq<u8>, i: int)
    requires
        0 <= i <= c.len(),
    ensures
        i <= skip_spaces(c, i) <= c.len(),
    decreases c.len() - i,
{
    if i < c.len() && is_xml_space(c[i]) {
        lemma_skip_spaces_range(c, i + 1);
    }
}

/// The first position at or after `i` holding no XML whitespace.
fn skip_spaces_exec(c: &Vec<u8>, i: usize) -> (r: usize)
    requires
        i <= c@.len(),
    ensures
        r as int == skip_spaces(c@, i as int),
        i <= r <= c@.len(),
{
    let mut j: usize = i;
    while j < c.len() && (c[j] == 32 || c[j] == 9 || c[j] == 13 || c[j] == 10)
        invariant
            i <= j <= c@.len(),
            skip_spaces(c@, i as int) == skip_spaces(c@, j as int),
        decreases c@.len() - j,
    {
        proof {
            assert(skip_spaces(c@, j as int) == skip_spaces(c@, j as int + 1));
        }
        j = j + 1;
    }
    proof {
        assert(skip_spaces(c@, j as int) == j as int);
    }
    j
}

/// The first position at or after `i` holding the byte `b`, if any.
fn find_byte_exec(c: &Vec<u8>, i: usize, b: u8) -> (r: Option<usize>)
    requires
        i <= c@.len(),
    ensures
        match r {
            Some(e) => find_byte(c@, i as int, b) == Some(e as int) && i <= e < c@.len(),
            None => find_byte(c@, i as int, b) is None,
        },
{
    let mut j: usize = i;
    while j < c.len()
        invariant
            i <= j <= c@.len(),
            find_byte(c@, i as int, b) == find_byte(c@, j as int, b),
        decreases c@.len() - j,
    {
        if c[j] == b {
            return Some(j);
        }
        proof {
            assert(find_byte(c@, j as int, b) == find_byte(c@, j as int + 1, b));
        }
        j = j + 1;
    }
    None
}

/// Whether the bytes between `start` and `end` form a safe attribute value.
fn value_safe_exec(c: &Vec<u8>, start: usize, end: usize) -> (r: bool)
    requires
        start <= end,
        end <= c@.len(),
    ensures
        r == value_is_safe(c@.subrange(start as int, end as int)),
{
    let ghost v = c@.subrange(start as int, end as int);
    let mut has_solid: bool = false;
    let mut clean: bool = true;
    let mut k: usize = start;
    while k < end
        invariant
            start <= k <= end,
            end <= c@.len(),
            v == c@.subrange(start as int, end as int),
            has_solid == (exists|t: int| 0 <= t < k - start && v[t] != 47),
            clean == (forall|t: int|
                0 <= t < k - start ==> v[t] != 38 && v[t] != 9 && v[t] != 13 && v[t] != 10),
        decreases end - k,
    {
        let b = c[k];
        proof {
            assert(v[k - start] == c@[k as int]);
        }
        let ghost old_solid = has_solid;
        let ghost old_clean = clean;
        has_solid = has_solid || b != 47;
        clean = clean && b != 38 && b != 9 && b != 13 && b != 10;
        proof {
            assert(has_solid == (exists|t: int| 0 <= t < k + 1 - start && v[t] != 47)) by {
                if has_solid {
                    if old_solid {
                        let w = choose|t: int| 0 <= t < k - start && v[t] != 47;
                        assert(0 <= w < k + 1 - start && v[w] != 47);
                    } else {
                        assert(v[k - start] != 47);
                    }
                } else {
                    assert(forall|t: int| 0 <= t < k - start ==> v[t] == 47);
                }
            }
        }
        k = k + 1;
    }
    has_solid && clean
}

/// Whether the root path attribute's name stands at position `i`.
fn marker_at_exec(c: &Vec<u8>, i: usize) -> (r: bool)
    requires
        i + 9 <= c@.len(),
    ensures
        r == marker_at(c@, i as int),
{
    let _n = c.len();
    let r = c[i] == 102 && c[i + 1] == 117 && c[i + 2] == 108 && c[i + 3] == 108 && c[i + 4]
        == 45 && c[i + 5] == 112 && c[i + 6] == 97 && c[i + 7] == 116 && c[i + 8] == 104;
    proof {
        let sub = c@.subrange(i as int, i as int + 9);
        if r {
            assert(sub =~= root_attr_marker());
        } else {
            if sub == root_attr_marker() {
                assert(c@[i as int] == sub[0] && sub[0] == root_attr_marker()[0]);
                assert(c@[i as int + 1] == sub[1] && sub[1] == root_attr_marker()[1]);
                assert(c@[i as int + 2] == sub[2] && sub[2] == root_attr_marker()[2]);
                assert(c@[i as int + 3] == sub[3] && sub[3] == root_attr_marker()[3]);
                assert(c@[i as int + 4] == sub[4] && sub[4] == root_attr_marker()[4]);
                assert(c@[i as int + 5] == sub[5] && sub[5] == root_attr_marker()[5]);
                assert(c@[i as int + 6] == sub[6] && sub[6] == root_attr_marker()[6]);
                assert(c@[i as int + 7] == sub[7] && sub[7] == root_attr_marker()[7]);
                assert(c@[i as int + 8] == sub[8] && sub[8] == root_attr_marker()[8]);
            }
        }
    }
    r
}

/// Whether the marker occurrence at `i` is followed by a well-shaped,
/// safe assignment.
fn occurrence_safe_exec(c: &Vec<u8>, i: usize) -> (r: bool)
    requires
        i + 9 <= c@.len(),
    ensures
        r == occurrence_is_safe(c@, i as int),
{
    let _n = c.len();
    proof {
        lemma_skip_spaces_range(c@, i as int + 9);
    }
    let p = skip_spaces_exec(c, i + 9);
    if p >= c.len() {
        return false;
    }
    if c[p] != 61 {
        return false;
    }
    let q = skip_spaces_exec(c, p + 1);
    if q >= c.len() {
        return false;
    }
    let quote = c[q];
    if quote != 34 && quote != 39 {
        return false;
    }
    match find_byte_exec(c, q + 1, quote) {
        Some(e) => value_safe_exec(c, q + 1, e),
        None => false,
    }
}

/// Decides the guard for a container declaration.
pub fn container_root_safe(c: &Vec<u8>) -> (r: bool)
    ensures
        r == container_root_is_safe(c@),
{
    if c.len() >= 2 {
        let b0 = c[0];
        let b1 = c[1];
        if (b0 == 254 && b1 == 255) || (b0 == 255 && b1 == 254) {
            return false;
        }
        if c.len() >= 5 && b0 == 239 && b1 == 187 && c[2] == 191 {
            let b3 = c[3];
            let b4 = c[4];
            if (b3 == 254 && b4 == 255) || (b3 == 255 && b4 == 254) {
                return false;
            }
        }
    }
    if c.len() < 9 {
        proof {
            assert forall|j: int| marker_at(c@, j) implies occurrence_is_safe(c@, j) by {
                assert(j + 9 <= c@.len());
                assert(false);
            }
        }
        return true;
    }
    let last = c.len() - 9;
    let mut i: usize = 0;
    while i <= last
        invariant
            c@.len() >= 9,
            last == c@.len() - 9,
            last <= usize::MAX - 9,
            i <= last + 1,
            !utf16_bom(c@),
            forall|j: int| 0 <= j < i ==> (marker_at(c@, j) ==> occurrence_is_safe(c@, j)),
        decreases last + 1 - i,
    {
        if marker_at_exec(c, i) {
            if !occurrence_safe_exec(c, i) {
                assert(marker_at(c@, i as int) && !occurrence_is_safe(c@, i as int));
                return false;
            }
        }
        i = i + 1;
    }
    proof {
        assert forall|j: int| marker_at(c@, j) implies occurrence_is_safe(c@, j) by {
            assert(0 <= j && j + 9 <= c@.len());
            assert(j < i);
        }
    }
    true
}

} // verus!
