use vstd::prelude::*;
use crate::textutil::to_char_vec;

verus! {

/// The character's code point with an upper-case ASCII letter folded to
/// lower case.
pub open spec fn fold_ascii(c: char) -> u32 {
    if 65 <= c as u32 <= 90 {
        (c as u32 + 32) as u32
    } else {
        c as u32
    }
}

/// Character equality up to ASCII case.
pub open spec fn char_eq_ci(a: char, b: char) -> bool {
    fold_ascii(a) == fold_ascii(b)
}

/// Sequence equality up to ASCII case.
pub open spec fn chars_eq_ci(a: Seq<char>, b: Seq<char>) -> bool {
    a.len() == b.len() && forall|i: int| 0 <= i < a.len() ==> char_eq_ci(#[trigger] a[i], b[i])
}

/// Whether the pattern occurs inside the host, unanchored, up to ASCII case.
pub open spec fn contains_ci(host: Seq<char>, pat: Seq<char>) -> bool {
    exists|k: int|
        0 <= k <= host.len() - pat.len() && chars_eq_ci(
            #[trigger] host.subrange(k, k + pat.len()),
            pat,
        )
}

/// Whether any pattern of the snapshot occurs inside the host.
pub open spec fn excluded(host: Seq<char>, pats: Seq<Seq<char>>) -> bool {
    exists|i: int| 0 <= i < pats.len() && contains_ci(host, #[trigger] pats[i])
}

/// Case-insensitive character comparison.
fn char_eq_ci_exec(a: char, b: char) -> (r: bool)
    ensures
        r == char_eq_ci(a, b),
{
    let au = a as u32;
    let bu = b as u32;
    let af = if 65 <= au && au <= 90 {
        au + 32
    } else {
        au
    };
    let bf = if 65 <= bu && bu <= 90 {
        bu + 32
    } else {
        bu
    };
    af == bf
}

/// Whether the pattern occurs inside the host, unanchored, ASCII
/// case-insensitively.
fn contains_ci_exec(host: &Vec<char>, pat: &Vec<char>) -> (r: bool)
    ensures
        r == contains_ci(host@, pat@),
{
    let hn = host.len();
    let pn = pat.len();
    if pn > hn {
        proof {
            assert(!contains_ci(host@, pat@));
        }
        return false;
    }
    let last = hn - pn;
    let mut k: usize = 0;
    while k <= last
        invariant
            hn == host@.len(),
            pn == pat@.len(),
            pn <= hn,
            last == hn - pn,
            k <= last + 1,
            forall|k2: int|
                0 <= k2 < k ==> !chars_eq_ci(#[trigger] host@.subrange(k2, k2 + pn), pat@),
        decreases last + 1 - k,
    {
        let mut all: bool = true;
        let mut j: usize = 0;
        while j < pn
            invariant
                hn == host@.len(),
                pn == pat@.len(),
                k + pn <= hn,
                j <= pn,
                all ==> forall|j2: int|
                    0 <= j2 < j ==> char_eq_ci(#[trigger] host@[k + j2], pat@[j2]),
                !all ==> !chars_eq_ci(host@.subrange(k as int, k + pn), pat@),
            decreases pn - j,
        {
            if !char_eq_ci_exec(host[k + j], pat[j]) {
                proof {
                    assert(host@.subrange(k as int, k + pn)[j as int] == host@[k + j]);
                }
                all = false;
                j = pn;
            } else {
                j = j + 1;
            }
        }
        if all {
            proof {
                assert(chars_eq_ci(host@.subrange(k as int, k + pn), pat@)) by {
                    assert(forall|j2: int|
                        0 <= j2 < pn ==> #[trigger] host@.subrange(k as int, k + pn)[j2] == host@[k
                            + j2]);
                }
            }
            return true;
        }
        k = k + 1;
    }
    proof {
        assert(!contains_ci(host@, pat@));
    }
    false
}

/// The exclusion store: an unordered snapshot of host substrings. A request
/// for a host any pattern occurs in bypasses filtering, not tunneling.
/// Writers publish a whole new snapshot; readers hold one for a request.
#[derive(Debug, Clone)]
pub struct LocalExclusionStore {
    patterns: Vec<String>,
}

impl LocalExclusionStore {
    /// The patterns of the current snapshot.
    pub closed spec fn spec_patterns(&self) -> Seq<Seq<char>> {
        self.patterns.deep_view()
    }

    /// A store holding the given snapshot.
    pub fn new(patterns: Vec<String>) -> (r: Self)
        ensures
            r.spec_patterns() == patterns.deep_view(),
    {
        LocalExclusionStore { patterns }
    }

    /// Publishes a whole new snapshot.
    pub fn replace_exclusions(&mut self, patterns: Vec<String>)
        ensures
            final(self).spec_patterns() == patterns.deep_view(),
    {
        self.patterns = patterns;
    }

    /// Whether the host is excluded: some pattern of the snapshot occurs in
    /// it, ASCII case-insensitively and unanchored.
    pub fn matches(&self, host: &str) -> (r: bool)
        ensures
            r == excluded(host@, self.spec_patterns()),
    {
        let host_chars = to_char_vec(host);
        let n = self.patterns.len();
        for i in 0..n
            invariant
                n == self.patterns.len(),
                host_chars@ == host@,
                forall|i2: int| 0 <= i2 < i ==> !contains_ci(host@, #[trigger] self.spec_patterns()[i2]),
        {
            let pat_chars = to_char_vec(self.patterns[i].as_str());
            proof {
                assert(self.spec_patterns()[i as int] == self.patterns@[i as int]@);
            }
            if contains_ci_exec(&host_chars, &pat_chars) {
                return true;
            }
        }
        false
    }
}

} // verus!
