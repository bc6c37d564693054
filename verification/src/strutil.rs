use vstd::prelude::*;

verus! {

// ---------------------------------------------------------------------------
// Boundary between `String` values and the `Vec<char>` working representation.
// ---------------------------------------------------------------------------

/// Relies on `str::chars`: yields exactly the characters of the string, in
/// order, so collecting them gives a vector whose view is the string's view.
#[verifier::external_body]
pub(crate) fn chars_of(s: &str) -> (r: Vec<char>)
    ensures
        r@ == s@,
{
    s.chars().collect()
}

/// Relies on `String: FromIterator<char>`: collecting characters builds the
/// string made of exactly those characters, in order.
#[verifier::external_body]
pub(crate) fn string_of(cs: &Vec<char>) -> (r: String)
    ensures
        r@ == cs@,
{
    cs.iter().collect()
}

/// An optional `String`, seen as its optional characters.
pub open spec fn opt_view(o: Option<String>) -> Option<Seq<char>> {
    match o {
        Some(s) => Some(s@),
        None => None,
    }
}

/// What `str::to_uppercase` returns: a function of the characters alone.
pub uninterp spec fn upper_of(s: Seq<char>) -> Seq<char>;

/// Relies on `str::to_uppercase`: the Unicode uppercasing of the string,
/// determined by the input characters alone.
#[verifier::external_body]
pub(crate) fn to_upper(s: &str) -> (r: String)
    ensures
        r@ == upper_of(s@),
{
    s.to_uppercase()
}

/// Whether two vectors hold the same characters.
pub fn chars_eq(a: &Vec<char>, b: &Vec<char>) -> (r: bool)
    ensures
        r == (a@ == b@),
{
    if a.len() != b.len() {
        return false;
    }
    let n = a.len();
    let mut i: usize = 0;
    while i < n
        invariant
            i <= n,
            n == a@.len() == b@.len(),
            forall|k: int| 0 <= k < i ==> a@[k] == b@[k],
        decreases n - i,
    {
        if a[i] != b[i] {
            return false;
        }
        i += 1;
    }
    proof {
        assert(a@ =~= b@);
    }
    true
}

/// Whether two string slices hold the same characters.
pub fn str_eq(a: &str, b: &str) -> (r: bool)
    ensures
        r == (a@ == b@),
{
    let va = chars_of(a);
    let vb = chars_of(b);
    chars_eq(&va, &vb)
}

// ---------------------------------------------------------------------------
// Substring search.
// ---------------------------------------------------------------------------

/// True when `pat` occurs in `s` starting at position `i`.
pub open spec fn matches_at(s: Seq<char>, pat: Seq<char>, i: int) -> bool {
    &&& 0 <= i
    &&& i + pat.len() <= s.len()
    &&& s.subrange(i, i + pat.len() as int) == pat
}

/// The least position `>= from` at which the non-empty `pat` occurs in `s`,
/// if any; an empty pattern is never found.
pub open spec fn spec_find(s: Seq<char>, pat: Seq<char>, from: int) -> Option<int>
    decreases s.len() - from,
{
    if pat.len() == 0 || from < 0 || from + pat.len() > s.len() {
        None
    } else if matches_at(s, pat, from) {
        Some(from)
    } else {
        spec_find(s, pat, from + 1)
    }
}

/// A found position lies within the string, at or after the start of the
/// search, and the pattern occurs there.
pub proof fn lemma_find_bounds(s: Seq<char>, pat: Seq<char>, from: int)
    ensures
        spec_find(s, pat, from) matches Some(i) ==> from <= i && i + pat.len() <= s.len()
            && matches_at(s, pat, i),
    decreases s.len() - from,
{
    if !(pat.len() == 0 || from < 0 || from + pat.len() > s.len()) && !matches_at(s, pat, from) {
        lemma_find_bounds(s, pat, from + 1);
    }
}

/// Whether `pat` occurs in `s` at exactly position `i`.
pub fn match_at(s: &Vec<char>, pat: &Vec<char>, i: usize) -> (r: bool)
    requires
        i + pat@.len() <= s@.len(),
    ensures
        r == matches_at(s@, pat@, i as int),
{
    let m = pat.len();
    let n = s.len();
    let mut j: usize = 0;
    while j < m
        invariant
            j <= m,
            m == pat@.len(),
            n == s@.len(),
            i + m <= n,
            forall|k: int| 0 <= k < j ==> s@[i + k] == pat@[k],
        decreases m - j,
    {
        if s[i + j] != pat[j] {
            assert(s@.subrange(i as int, i + pat@.len() as int)[j as int] != pat@[j as int]);
            return false;
        }
        j += 1;
    }
    proof {
        assert(s@.subrange(i as int, i + pat@.len() as int) =~= pat@);
    }
    true
}

/// The least position `>= from` at which `pat` occurs in `s`, if any.
pub fn find_sub(s: &Vec<char>, pat: &Vec<char>, from: usize) -> (r: Option<usize>)
    ensures
        match r {
            Some(i) => spec_find(s@, pat@, from as int) == Some(i as int),
            None => spec_find(s@, pat@, from as int) is None,
        },
{
    let m = pat.len();
    let n = s.len();
    if m == 0 || m > n || from > n - m {
        return None;
    }
    let mut i: usize = from;
    while i <= n - m
        invariant
            0 < m <= n,
            m == pat@.len(),
            n == s@.len(),
            from <= i <= n - m + 1,
            spec_find(s@, pat@, from as int) == spec_find(s@, pat@, i as int),
        decreases n - i,
    {
        if match_at(s, pat, i) {
            return Some(i);
        }
        proof {
            assert(spec_find(s@, pat@, i as int) == spec_find(s@, pat@, i + 1));
        }
        i += 1;
    }
    proof {
        assert(spec_find(s@, pat@, i as int) is None);
    }
    None
}

// ---------------------------------------------------------------------------
// Slicing and concatenation on the working representation.
// ---------------------------------------------------------------------------

/// A copy of `s[a..b]`.
pub fn subvec(s: &Vec<char>, a: usize, b: usize) -> (r: Vec<char>)
    requires
        a <= b <= s@.len(),
    ensures
        r@ == s@.subrange(a as int, b as int),
{
    let mut r: Vec<char> = Vec::new();
    let mut i: usize = a;
    while i < b
        invariant
            a <= i <= b <= s@.len(),
            r@ == s@.subrange(a as int, i as int),
        decreases b - i,
    {
        r.push(s[i]);
        proof {
            assert(r@ =~= s@.subrange(a as int, i + 1));
        }
        i += 1;
    }
    r
}

/// Appends a copy of `t` to `acc`.
pub fn extend(acc: &mut Vec<char>, t: &Vec<char>)
    ensures
        final(acc)@ == old(acc)@ + t@,
{
    let mut i: usize = 0;
    while i < t.len()
        invariant
            i <= t@.len(),
            acc@ == old(acc)@ + t@.subrange(0, i as int),
        decreases t@.len() - i,
    {
        acc.push(t[i]);
        proof {
            assert(old(acc)@ + t@.subrange(0, i + 1) =~= (old(acc)@ + t@.subrange(0, i as int)).push(
                t@[i as int],
            ));
        }
        i += 1;
    }
    proof {
        assert(t@.subrange(0, t@.len() as int) =~= t@);
    }
}

// ---------------------------------------------------------------------------
// Splitting on a marker.
// ---------------------------------------------------------------------------

/// The parts of `s` between consecutive, non-overlapping, leftmost-first
/// occurrences of `pat`; like `str::split`, empty parts are kept.
pub open spec fn spec_split(s: Seq<char>, pat: Seq<char>) -> Seq<Seq<char>>
    decreases s.len(),
    when pat.len() > 0
    via spec_split_decreases
{
    match spec_find(s, pat, 0) {
        None => seq![s],
        Some(i) => seq![s.subrange(0, i)] + spec_split(
            s.subrange(i + pat.len(), s.len() as int),
            pat,
        ),
    }
}

#[via_fn]
proof fn spec_split_decreases(s: Seq<char>, pat: Seq<char>) {
    lemma_find_bounds(s, pat, 0);
}

/// Splitting never yields an empty list of parts.
pub proof fn lemma_split_nonempty(s: Seq<char>, pat: Seq<char>)
    requires
        pat.len() > 0,
    ensures
        spec_split(s, pat).len() >= 1,
{
    lemma_find_bounds(s, pat, 0);
}

/// The parts of `s` between occurrences of `pat`, as `spec_split` lists them.
pub fn split_sub(s: &Vec<char>, pat: &Vec<char>) -> (r: Vec<Vec<char>>)
    requires
        pat@.len() > 0,
    ensures
        r.deep_view() == spec_split(s@, pat@),
    decreases s@.len(),
{
    let n = s.len();
    proof {
        lemma_find_bounds(s@, pat@, 0);
    }
    match find_sub(s, pat, 0) {
        None => {
            let part = subvec(s, 0, n);
            let mut r: Vec<Vec<char>> = Vec::new();
            r.push(part);
            proof {
                assert(part@ =~= s@);
                assert(r.deep_view() =~~= spec_split(s@, pat@));
            }
            r
        },
        Some(i) => {
            let head = subvec(s, 0, i);
            let tail = subvec(s, i + pat.len(), n);
            let mut r = split_sub(&tail, pat);
            r.insert(0, head);
            proof {
                assert(r.deep_view() =~~= spec_split(s@, pat@));
            }
            r
        },
    }
}

// ---------------------------------------------------------------------------
// Joining parts with a separator.
// ---------------------------------------------------------------------------

/// The parts concatenated in order with `sep` between consecutive parts.
pub open spec fn spec_join(parts: Seq<Seq<char>>, sep: Seq<char>) -> Seq<char>
    decreases parts.len(),
{
    if parts.len() == 0 {
        Seq::empty()
    } else if parts.len() == 1 {
        parts[0]
    } else {
        parts[0] + sep + spec_join(parts.drop_first(), sep)
    }
}

/// The tail of `parts` starting at `i`, joined with `sep`.
fn join_from(parts: &Vec<Vec<char>>, sep: &Vec<char>, i: usize) -> (r: Vec<char>)
    requires
        i <= parts@.len(),
    ensures
        r@ == spec_join(parts.deep_view().subrange(i as int, parts.deep_view().len() as int), sep@),
    decreases parts@.len() - i,
{
    let ghost tail = parts.deep_view().subrange(i as int, parts.deep_view().len() as int);
    if i == parts.len() {
        let r: Vec<char> = Vec::new();
        proof {
            assert(tail.len() == 0);
        }
        r
    } else if i + 1 == parts.len() {
        let r = subvec(&parts[i], 0, parts[i].len());
        proof {
            assert(r@ =~= parts[i as int]@);
            assert(tail.len() == 1);
            assert(tail[0] == parts[i as int]@);
        }
        r
    } else {
        let mut r = subvec(&parts[i], 0, parts[i].len());
        proof {
            assert(r@ =~= parts[i as int]@);
        }
        extend(&mut r, sep);
        let rest = join_from(parts, sep, i + 1);
        extend(&mut r, &rest);
        proof {
            assert(tail.drop_first() =~= parts.deep_view().subrange(
                i + 1,
                parts.deep_view().len() as int,
            ));
            assert(tail[0] == parts[i as int]@);
        }
        r
    }
}

/// The parts joined in order with `sep` between consecutive parts.
pub fn join_sub(parts: &Vec<Vec<char>>, sep: &Vec<char>) -> (r: Vec<char>)
    ensures
        r@ == spec_join(parts.deep_view(), sep@),
{
    let r = join_from(parts, sep, 0);
    proof {
        assert(parts.deep_view().subrange(0, parts.deep_view().len() as int) =~= parts.deep_view());
    }
    r
}

} // verus!
