use vstd::prelude::*;

verus! {

/// An optional word as an optional integer.
pub open spec fn opt_int(o: Option<usize>) -> Option<int> {
    match o {
        Some(a) => Some(a as int),
        None => None,
    }
}

/// Whether `pattern` matches `data` at offset `i`: the window fits and every
/// non-wildcard position holds the same byte.
pub open spec fn matches_at(data: Seq<u8>, pattern: Seq<Option<u8>>, i: int) -> bool {
    &&& 0 <= i
    &&& i + pattern.len() <= data.len()
    &&& forall|j: int|
        0 <= j < pattern.len() && (#[trigger] pattern[j]) is Some ==> data[i + j] == pattern[j]->Some_0
}

/// The smallest offset at which `pattern` matches `data`, if any.
pub open spec fn first_match(data: Seq<u8>, pattern: Seq<Option<u8>>) -> Option<int> {
    if exists|i: int| matches_at(data, pattern, i) {
        Some(choose|i: int| matches_at(data, pattern, i) && forall|k: int| 0 <= k < i ==> !matches_at(data, pattern, k))
    } else {
        None
    }
}

/// The signed 32-bit little-endian value of four bytes.
pub open spec fn le_i32(b0: u8, b1: u8, b2: u8, b3: u8) -> int {
    let u = b0 as int + 256 * (b1 as int) + 65536 * (b2 as int) + 16777216 * (b3 as int);
    if u >= 0x8000_0000 { u - 0x1_0000_0000 } else { u }
}

/// An address reduced into the machine word, as wrapping pointer arithmetic does.
pub open spec fn wrap_address(x: int) -> int {
    x % (usize::MAX as int + 1)
}

/// Where a relative displacement sits relative to a signature match.
#[derive(Clone, Copy, Debug, PartialEq, Eq)]
pub struct RelativeLayout {
    /// Offset from the match to the start of the instruction holding the displacement.
    pub instr_offset: usize,
    /// Offset of the four displacement bytes within that instruction.
    pub disp_offset: usize,
    /// Length of that instruction; the displacement counts from its end.
    pub instr_len: usize,
}

/// The target that `layout` resolves to for a match at offset `m`, or `None`
/// when the displacement bytes run past the end of `data`.
pub open spec fn resolve_at(data: Seq<u8>, m: int, layout: RelativeLayout, base: int) -> Option<int> {
    let start = m + layout.instr_offset;
    let d = start + layout.disp_offset;
    if d + 4 <= data.len() {
        Some(wrap_address(base + start + layout.instr_len + le_i32(data[d], data[d + 1], data[d + 2], data[d + 3])))
    } else {
        None
    }
}

/// The full resolution: scan, then read the displacement after the first match.
pub open spec fn resolve_spec(data: Seq<u8>, pattern: Seq<Option<u8>>, layout: RelativeLayout, base: int) -> Option<int> {
    match first_match(data, pattern) {
        Some(m) => resolve_at(data, m, layout, base),
        None => None,
    }
}

/// The frame-limit signature: `mov ecx, 60` followed by a `call`.
pub open spec fn fps_signature() -> Seq<Option<u8>> {
    seq![Some(0xB9u8), Some(0x3Cu8), Some(0x00u8), Some(0x00u8), Some(0x00u8), Some(0xE8u8)]
}

/// The `call rel32` right after the 5-byte `mov`.
pub open spec fn fps_layout() -> RelativeLayout {
    RelativeLayout { instr_offset: 5, disp_offset: 1, instr_len: 5 }
}

proof fn lemma_first_match(data: Seq<u8>, pattern: Seq<Option<u8>>, i: int)
    requires
        matches_at(data, pattern, i),
        forall|k: int| 0 <= k < i ==> !matches_at(data, pattern, k),
    ensures
        first_match(data, pattern) == Some(i),
{
    let c = choose|c: int| matches_at(data, pattern, c) && forall|k: int| 0 <= k < c ==> !matches_at(data, pattern, k);
    if c < i {
        assert(!matches_at(data, pattern, c));
    } else if c > i {
        assert(!matches_at(data, pattern, i));
    }
}

fn matches_here(data: &[u8], pattern: &[Option<u8>], i: usize) -> (r: bool)
    requires
        i + pattern@.len() <= data@.len(),
    ensures
        r == matches_at(data@, pattern@, i as int),
{
    let n = data.len();
    let mut j: usize = 0;
    while j < pattern.len()
        invariant
            n == data@.len(),
            j <= pattern@.len(),
            i + pattern@.len() <= data@.len(),
            forall|t: int|
                0 <= t < j && (#[trigger] pattern@[t]) is Some ==> data@[i + t] == pattern@[t]->Some_0,
        decreases pattern@.len() - j,
    {
        match pattern[j] {
            Some(b) => {
                if data[i + j] != b {
                    assert(pattern@[j as int] is Some);
                    return false;
                }
            },
            None => {},
        }
        j += 1;
    }
    true
}

/// Finds the smallest offset at which `pattern` matches `data`; `None` values
/// of `pattern` are wildcards.
pub fn pattern_scan(data: &[u8], pattern: &[Option<u8>]) -> (r: Option<usize>)
    ensures
        r matches Some(i) ==> matches_at(data@, pattern@, i as int),
        r matches Some(i) ==> forall|k: int| 0 <= k < i ==> !matches_at(data@, pattern@, k),
        r is None ==> forall|k: int| !matches_at(data@, pattern@, k),
        r matches Some(i) ==> first_match(data@, pattern@) == Some(i as int),
{
    if pattern.len() > data.len() {
        assert(forall|k: int| !matches_at(data@, pattern@, k));
        return None;
    }
    let last = data.len() - pattern.len();
    let mut i: usize = 0;
    while i < last
        invariant
            last == data@.len() - pattern@.len(),
            i <= last,
            forall|k: int| 0 <= k < i ==> !matches_at(data@, pattern@, k),
        decreases last - i,
    {
        if matches_here(data, pattern, i) {
            proof { lemma_first_match(data@, pattern@, i as int); }
            return Some(i);
        }
        i += 1;
    }
    if matches_here(data, pattern, last) {
        proof { lemma_first_match(data@, pattern@, last as int); }
        return Some(last);
    }
    assert(forall|k: int| !matches_at(data@, pattern@, k));
    None
}

/// Decodes four bytes as a signed little-endian 32-bit integer.
pub fn i32_from_le(b0: u8, b1: u8, b2: u8, b3: u8) -> (r: i32)
    ensures
        r as int == le_i32(b0, b1, b2, b3),
{
    let u: u64 = b0 as u64 + 256 * (b1 as u64) + 65536 * (b2 as u64) + 16777216 * (b3 as u64);
    if u >= 0x8000_0000 {
        (u as i64 - 0x1_0000_0000i64) as i32
    } else {
        u as i32
    }
}

/// Reduces a signed sum of words into the machine word.
fn wrap_to_address(x: i128) -> (r: usize)
    requires
        -0x8000_0000 <= x < 4 * (usize::MAX as int + 1),
    ensures
        r as int == wrap_address(x as int),
{
    let m: i128 = usize::MAX as i128 + 1;
    let mut y: i128 = x;
    let ghost mut k: int = 0;
    if y < 0 {
        y = y + m;
        proof { k = k - 1; }
    }
    if y >= m {
        y = y - m;
        proof { k = k + 1; }
    }
    if y >= m {
        y = y - m;
        proof { k = k + 1; }
    }
    if y >= m {
        y = y - m;
        proof { k = k + 1; }
    }
    assert(0 <= y < m);
    assert(x as int == m * k + y);
    proof {
        vstd::arithmetic::div_mod::lemma_mod_multiples_vanish(k, y as int, m as int);
        vstd::arithmetic::div_mod::lemma_small_mod(y as nat, m as nat);
    }
    y as usize
}

/// Finds `pattern` in `data` and resolves the relative displacement that
/// `layout` places after the match into an absolute address, counting `data`
/// as loaded at `module_base`.
pub fn resolve_relative_target(data: &[u8], pattern: &[Option<u8>], module_base: usize, layout: RelativeLayout) -> (r: Option<usize>)
    ensures
        opt_int(r) == resolve_spec(data@, pattern@, layout, module_base as int),
{
    let m = match pattern_scan(data, pattern) {
        Some(m) => m,
        None => return None,
    };
    if m as u128 + layout.instr_offset as u128 + layout.disp_offset as u128 + 4 > data.len() as u128 {
        return None;
    }
    let start = m + layout.instr_offset;
    let d = start + layout.disp_offset;
    let disp = i32_from_le(data[d], data[d + 1], data[d + 2], data[d + 3]);
    let sum: i128 = module_base as i128 + start as i128 + layout.instr_len as i128 + disp as i128;
    let a = wrap_to_address(sum);
    Some(a)
}

/// Resolves the target of the `call` that follows the frame-limit signature
/// `B9 3C 00 00 00 E8` in a snapshot of a module loaded at `base_addr`.
pub fn get_fps_address(buffer: &[u8], base_addr: usize) -> (r: Option<usize>)
    ensures
        opt_int(r) == resolve_spec(buffer@, fps_signature(), fps_layout(), base_addr as int),
{
    let pattern = vec![Some(0xB9u8), Some(0x3Cu8), Some(0x00u8), Some(0x00u8), Some(0x00u8), Some(0xE8u8)];
    assert(pattern@ =~= fps_signature());
    resolve_relative_target(buffer, pattern.as_slice(), base_addr, RelativeLayout { instr_offset: 5, disp_offset: 1, instr_len: 5 })
}

} // verus!
