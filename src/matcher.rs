use vstd::prelude::*;
use vstd::string::*;

verus! {

/// What `str::to_lowercase` makes of a string.
pub uninterp spec fn lower_of(s: Seq<char>) -> Seq<char>;

/// Relies on `str::to_lowercase`: the lower-case form of a string, which
/// depends on its characters alone.
#[verifier::external_body]
fn lowercase(s: &str) -> (r: String)
    ensures
        r@ == lower_of(s@),
{
    s.to_lowercase()
}

/// Whether `p` occurs in `v` at offset `i`.
pub open spec fn occurs_at(v: Seq<char>, p: Seq<char>, i: int) -> bool {
    0 <= i && i + p.len() <= v.len() && v.subrange(i, i + p.len()) == p
}

/// The offset of the first occurrence of `p` in `v`, if any.
#[verifier::opaque]
pub open spec fn first_occurrence(v: Seq<char>, p: Seq<char>) -> Option<int> {
    if exists|i: int| occurs_at(v, p, i) {
        Some(choose|i: int| occurs_at(v, p, i) && forall|k: int| 0 <= k < i ==> !occurs_at(v, p, k))
    } else {
        None
    }
}

/// The marker after which a numbered variant of a name carries its digits.
pub open spec fn variant_marker() -> Seq<char> {
    seq!['_', 'h']
}

pub open spec fn all_ascii_digits(s: Seq<char>) -> bool {
    forall|i: int| 0 <= i < s.len() ==> '0' <= #[trigger] s[i] <= '9'
}

/// `p` ends in the marker, and the first occurrence in `v` of `p` without
/// it is followed by the marker and nothing but digits.
pub open spec fn numbered_variant(v: Seq<char>, p: Seq<char>) -> bool {
    let m = variant_marker();
    let base = p.subrange(0, p.len() - m.len());
    &&& p.len() >= m.len()
    &&& p.subrange(p.len() - m.len(), p.len() as int) == m
    &&& match first_occurrence(v, base) {
        Some(k) => {
            let after = v.subrange(k + base.len(), v.len() as int);
            &&& after.len() >= m.len()
            &&& after.subrange(0, m.len() as int) == m
            &&& all_ascii_digits(after.subrange(m.len() as int, after.len() as int))
        },
        None => false,
    }
}

/// Whether setting name `v` matches the pattern `p`: it equals it, starts
/// with it, is a numbered variant of it, or contains it where the pattern is
/// longer than five characters. The rules are tried in that order.
pub open spec fn matches_spec(v: Seq<char>, p: Seq<char>) -> bool {
    ||| v == p
    ||| (p.len() <= v.len() && v.subrange(0, p.len() as int) == p)
    ||| numbered_variant(v, p)
    ||| ((exists|i: int| occurs_at(v, p, i)) && p.len() > 5)
}

fn chars_of(s: &str) -> (r: Vec<char>)
    ensures
        r@ == s@,
{
    let n = s.unicode_len();
    let mut r: Vec<char> = Vec::new();
    let mut i: usize = 0;
    while i < n
        invariant
            n == s@.len(),
            i <= n,
            r@ == s@.subrange(0, i as int),
        decreases n - i,
    {
        r.push(s.get_char(i));
        i += 1;
    }
    assert(s@.subrange(0, n as int) == s@);
    r
}

fn occurs_here(v: &[char], p: &[char], i: usize) -> (r: bool)
    requires
        i <= v@.len(),
    ensures
        r == occurs_at(v@, p@, i as int),
{
    if p.len() > v.len() - i {
        return false;
    }
    let n = v.len();
    let mut j: usize = 0;
    while j < p.len()
        invariant
            n == v@.len(),
            i + p@.len() <= v@.len(),
            j <= p@.len(),
            forall|t: int| 0 <= t < j ==> v@[i + t] == p@[t],
        decreases p@.len() - j,
    {
        if v[i + j] != p[j] {
            assert(v@.subrange(i as int, i + p@.len())[j as int] != p@[j as int]);
            return false;
        }
        j += 1;
    }
    assert(v@.subrange(i as int, i + p@.len()) =~= p@);
    true
}

proof fn lemma_first_occurrence(v: Seq<char>, p: Seq<char>, i: int)
    requires
        occurs_at(v, p, i),
        forall|k: int| 0 <= k < i ==> !occurs_at(v, p, k),
    ensures
        first_occurrence(v, p) == Some(i),
{
    reveal(first_occurrence);
    let c = choose|c: int| occurs_at(v, p, c) && forall|k: int| 0 <= k < c ==> !occurs_at(v, p, k);
    if c < i {
        assert(!occurs_at(v, p, c));
    } else if c > i {
        assert(!occurs_at(v, p, i));
    }
}

proof fn lemma_no_occurrence(v: Seq<char>, p: Seq<char>)
    requires
        forall|k: int| !occurs_at(v, p, k),
    ensures
        first_occurrence(v, p) is None,
{
    reveal(first_occurrence);
}

fn find_chars(v: &[char], p: &[char]) -> (r: Option<usize>)
    ensures
        r is None <==> first_occurrence(v@, p@) is None,
        r is None ==> forall|k: int| !occurs_at(v@, p@, k),
        r matches Some(k) ==> first_occurrence(v@, p@) == Some(k as int) && occurs_at(v@, p@, k as int),
{
    if p.len() > v.len() {
        proof { lemma_no_occurrence(v@, p@); }
        return None;
    }
    let last = v.len() - p.len();
    let mut i: usize = 0;
    while i < last
        invariant
            last == v@.len() - p@.len(),
            i <= last,
            forall|k: int| 0 <= k < i ==> !occurs_at(v@, p@, k),
        decreases last - i,
    {
        if occurs_here(v, p, i) {
            proof { lemma_first_occurrence(v@, p@, i as int); }
            return Some(i);
        }
        i += 1;
    }
    if occurs_here(v, p, last) {
        proof { lemma_first_occurrence(v@, p@, last as int); }
        return Some(last);
    }
    proof { lemma_no_occurrence(v@, p@); }
    None
}

fn numbered_variant_exec(v: &[char], p: &[char]) -> (r: bool)
    ensures
        r == numbered_variant(v@, p@),
{
    let ghost m = variant_marker();
    let vlen = v.len();
    if p.len() < 2 || p[p.len() - 2] != '_' || p[p.len() - 1] != 'h' {
        proof {
            if p@.len() >= 2 {
                if p@.subrange(p@.len() - 2, p@.len() as int) == m {
                    assert(p@[p@.len() - 2] == p@.subrange(p@.len() - 2, p@.len() as int)[0]);
                    assert(p@[p@.len() - 1] == p@.subrange(p@.len() - 2, p@.len() as int)[1]);
                }
            }
        }
        return false;
    }
    assert(p@.subrange(p@.len() - 2, p@.len() as int) =~= m);
    let base = vstd::slice::slice_subrange(p, 0, p.len() - 2);
    assert(base@ == p@.subrange(0, p@.len() - 2));
    let k = match find_chars(v, base) {
        Some(k) => k,
        None => return false,
    };
    let start = k + base.len();
    let ghost after = v@.subrange(start as int, v@.len() as int);
    if v.len() - start < 2 || v[start] != '_' || v[start + 1] != 'h' {
        proof {
            if after.len() >= 2 && after.subrange(0, 2) == m {
                assert(after[0] == after.subrange(0, 2)[0]);
                assert(after[1] == after.subrange(0, 2)[1]);
            }
        }
        return false;
    }
    assert(after.subrange(0, 2) =~= m);
    let mut i: usize = start + 2;
    while i < v.len()
        invariant
            start + 2 <= i <= v@.len(),
            after == v@.subrange(start as int, v@.len() as int),
            p@.len() >= 2,
            p@.subrange(p@.len() - 2, p@.len() as int) == m,
            m == variant_marker(),
            after.subrange(0, 2) == m,
            first_occurrence(v@, p@.subrange(0, p@.len() - 2)) == Some(k as int),
            start == k + p@.len() - 2,
            forall|t: int| start + 2 <= t < i ==> '0' <= #[trigger] v@[t] <= '9',
        decreases v@.len() - i,
    {
        let c = v[i];
        if !('0' <= c && c <= '9') {
            proof {
                let digits = after.subrange(2, after.len() as int);
                assert(digits[i - start - 2] == c);
                assert(!all_ascii_digits(digits));
                assert(first_occurrence(v@, p@.subrange(0, p@.len() - 2)) == Some(k as int));
            }
            return false;
        }
        i += 1;
    }
    assert forall|t: int| 0 <= t < after.subrange(2, after.len() as int).len()
        implies '0' <= #[trigger] after.subrange(2, after.len() as int)[t] <= '9' by {
        assert(after.subrange(2, after.len() as int)[t] == v@[start + 2 + t]);
    }
    true
}

/// Whether the setting name `value` matches `pattern`: equal, a prefix, a
/// numbered variant (`pattern` ends in `_h`, and where its base first occurs
/// in `value` it is followed by `_h` and digits only), or, for patterns of
/// more than five characters, contained.
pub fn matches_pattern(value: &str, pattern: &str) -> (r: bool)
    ensures
        r == matches_spec(value@, pattern@),
{
    let v = chars_of(value);
    let p = chars_of(pattern);
    let vs = v.as_slice();
    let ps = p.as_slice();
    let prefix = occurs_here(vs, ps, 0);
    proof {
        if p@.len() <= v@.len() {
            assert(v@.subrange(0, p@.len() as int) == v@.subrange(0int, 0int + p@.len()));
        }
        if v@ == p@ {
            assert(v@.subrange(0, p@.len() as int) =~= p@);
        }
    }
    if prefix {
        return true;
    }
    if numbered_variant_exec(vs, ps) {
        return true;
    }
    if p.len() > 5 {
        let found = find_chars(vs, ps);
        proof {
            if let Some(k) = found {
                assert(occurs_at(v@, p@, k as int));
            }
        }
        return found.is_some();
    }
    false
}

/// The first of `available_values` whose lower-case form matches the
/// lower-case form of `pattern`.
pub fn find_matching_value(available_values: &[String], pattern: &str) -> (r: Option<String>)
    ensures
        r is None <==> forall|k: int|
            0 <= k < available_values@.len() ==> !matches_spec(lower_of(#[trigger] available_values@[k]@), lower_of(pattern@)),
        r matches Some(s) ==> exists|k: int|
            0 <= k < available_values@.len() && s@ == available_values@[k]@
                && matches_spec(lower_of(available_values@[k]@), lower_of(pattern@))
                && forall|j: int| 0 <= j < k ==> !matches_spec(lower_of(#[trigger] available_values@[j]@), lower_of(pattern@)),
{
    let pattern_lower = lowercase(pattern);
    let mut i: usize = 0;
    while i < available_values.len()
        invariant
            i <= available_values@.len(),
            pattern_lower@ == lower_of(pattern@),
            forall|k: int| 0 <= k < i ==> !matches_spec(lower_of(#[trigger] available_values@[k]@), lower_of(pattern@)),
        decreases available_values@.len() - i,
    {
        let value_lower = lowercase(available_values[i].as_str());
        if matches_pattern(value_lower.as_str(), pattern_lower.as_str()) {
            return Some(available_values[i].clone());
        }
        i += 1;
    }
    None
}

} // verus!
