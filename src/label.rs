//! The distribution label that titles each menu entry.
use vstd::prelude::*;
use vstd::string::{StrSliceExecFns, StringExecFns};

verus! {

/// The label: `"<distributor> Linux"` where a distributor is configured;
/// otherwise the probed distribution name, or `Linux` where the probe
/// failed or reports an unknown distribution (a name that begins with
/// `Unknown`).
pub open spec fn os_label(distributor: Option<Seq<char>>, distro: Option<Seq<char>>) -> Seq<char> {
    match distributor {
        Some(d) => d + " Linux"@,
        None => match distro {
            Some(n) => if is_prefix_of("Unknown"@, n) {
                "Linux"@
            } else {
                n
            },
            None => "Linux"@,
        },
    }
}

pub open spec fn opt_view(s: Option<String>) -> Option<Seq<char>> {
    match s {
        Some(v) => Some(v@),
        None => None,
    }
}

pub open spec fn is_prefix_of(p: Seq<char>, s: Seq<char>) -> bool {
    p.len() <= s.len() && s.subrange(0, p.len() as int) == p
}

/// Whether `s` begins with `p`.
fn starts_with(s: &str, p: &str) -> (r: bool)
    ensures
        r == is_prefix_of(p@, s@),
{
    let n = s.unicode_len();
    let k = p.unicode_len();
    if k > n {
        return false;
    }
    let mut i: usize = 0;
    while i < k
        invariant
            k <= n,
            n == s@.len(),
            k == p@.len(),
            i <= k,
            forall|j: int| 0 <= j < i ==> s@[j] == p@[j],
        decreases k - i,
    {
        if s.get_char(i) != p.get_char(i) {
            assert(s@.subrange(0, k as int)[i as int] != p@[i as int]);
            return false;
        }
        i += 1;
    }
    assert(s@.subrange(0, k as int) =~= p@);
    true
}

/// Chooses the display label from the configured distributor, if any, and
/// the distribution name that the system reports, if it reported one.
pub fn get_os(distributor: Option<String>, distro: Option<String>) -> (r: String)
    ensures
        r@ == os_label(opt_view(distributor), opt_view(distro)),
{
    match distributor {
        Some(d) => {
            let mut r = d;
            r.append(" Linux");
            r
        },
        None => match distro {
            Some(n) => {
                if starts_with(n.as_str(), "Unknown") {
                    String::from_str("Linux")
                } else {
                    n
                }
            },
            None => String::from_str("Linux"),
        },
    }
}

} // verus!
