use vstd::prelude::*;

verus! {

/// The decimal digit that `c` is.
pub open spec fn digit_value(c: char) -> Option<u64> {
    match c {
        '0' => Some(0u64),
        '1' => Some(1u64),
        '2' => Some(2u64),
        '3' => Some(3u64),
        '4' => Some(4u64),
        '5' => Some(5u64),
        '6' => Some(6u64),
        '7' => Some(7u64),
        '8' => Some(8u64),
        '9' => Some(9u64),
        _ => None,
    }
}

/// `s` is a non-empty run of ASCII decimal digits.
pub open spec fn is_decimal(s: Seq<char>) -> bool {
    s.len() > 0 && forall|i: int| 0 <= i < s.len() ==> (#[trigger] digit_value(s[i])) is Some
}

/// The number that the digits `s` write.
pub open spec fn decimal_value(s: Seq<char>) -> nat
    decreases s.len(),
{
    if s.len() == 0 {
        0
    } else {
        decimal_value(s.drop_last()) * 10 + match digit_value(s.last()) {
            Some(d) => d as nat,
            None => 0,
        }
    }
}

/// The decimal writing of `n`, without leading zeros.
pub open spec fn decimal_digits(n: nat) -> Seq<char>
    decreases n,
{
    let c = seq!['0', '1', '2', '3', '4', '5', '6', '7', '8', '9'][(n % 10) as int];
    if n < 10 {
        seq![c]
    } else {
        decimal_digits(n / 10).push(c)
    }
}

fn digit_of(c: char) -> (r: Option<u64>)
    ensures
        r == digit_value(c),
{
    match c {
        '0' => Some(0),
        '1' => Some(1),
        '2' => Some(2),
        '3' => Some(3),
        '4' => Some(4),
        '5' => Some(5),
        '6' => Some(6),
        '7' => Some(7),
        '8' => Some(8),
        '9' => Some(9),
        _ => None,
    }
}

proof fn lemma_value_grows(s: Seq<char>, j: int, k: int)
    requires
        0 <= j <= k <= s.len(),
    ensures
        decimal_value(s.take(j)) <= decimal_value(s.take(k)),
    decreases k - j,
{
    if j < k {
        lemma_value_grows(s, j, k - 1);
        assert(s.take(k).drop_last() =~= s.take(k - 1));
    }
}

/// Reads a number written in decimal digits; `None` when `s` is empty,
/// holds anything but digits, or writes a number beyond `u64`.
pub fn parse_u64(s: &str) -> (r: Option<u64>)
    ensures
        r == (if is_decimal(s@) && decimal_value(s@) <= u64::MAX {
            Some(decimal_value(s@) as u64)
        } else {
            None
        }),
{
    let n = s.unicode_len();
    if n == 0 {
        return None;
    }
    let mut acc: u64 = 0;
    let mut i: usize = 0;
    while i < n
        invariant
            n == s@.len(),
            0 <= i <= n,
            acc == decimal_value(s@.take(i as int)),
            forall|k: int| 0 <= k < i ==> (#[trigger] digit_value(s@[k])) is Some,
        decreases n - i,
    {
        assert(s@.take(i + 1).drop_last() =~= s@.take(i as int));
        assert(s@.take(i + 1).last() == s@[i as int]);
        let d = match digit_of(s.get_char(i)) {
            Some(d) => d,
            None => return None,
        };
        let next = match acc.checked_mul(10) {
            Some(m) => m.checked_add(d),
            None => None,
        };
        match next {
            Some(v) => {
                acc = v;
            },
            None => {
                proof {
                    lemma_value_grows(s@, i + 1, n as int);
                    assert(s@.take(n as int) =~= s@);
                }
                return None;
            },
        }
        i = i + 1;
    }
    assert(s@.take(n as int) =~= s@);
    Some(acc)
}

/// Relies on `u64`'s `Display` (through `ToString::to_string`): it writes
/// the number in decimal digits, with no sign and no leading zeros.
#[verifier::external_body]
pub(crate) fn decimal(n: u64) -> (r: String)
    ensures
        r@ == decimal_digits(n as nat),
{
    n.to_string()
}

/// What `regex::Regex::captures` reports for `pattern` on `text`.
pub uninterp spec fn regex_captures(pattern: Seq<char>, text: Seq<char>) -> Option<Seq<Option<Seq<char>>>>;

pub open spec fn group_views(v: Seq<Option<String>>) -> Seq<Option<Seq<char>>> {
    v.map_values(|o: Option<String>| match o {
        Some(s) => Some(s@),
        None => None,
    })
}

/// Relies on `regex::Regex::new`, which compiles `pattern` (an invalid one
/// gives `None` here), and `regex::Regex::captures`, which gives the
/// leftmost-first match in `text`: entry `i` is what capture group `i`
/// matched, `None` where the group took no part.
#[verifier::external_body]
fn first_captures(pattern: &str, text: &str) -> (r: Option<Vec<Option<String>>>)
    ensures
        r is None ==> regex_captures(pattern@, text@) is None,
        r is Some ==> regex_captures(pattern@, text@) == Some(group_views(r->0@)),
{
    let re = regex::Regex::new(pattern).ok()?;
    let caps = re.captures(text)?;
    Some(caps.iter().map(|m| m.map(|m| m.as_str().to_string())).collect())
}

/// A pull-request link: owner, repository name and number.
pub const PR_LINK_PATTERN: &'static str = "github\\.com/([^/]+)/([^/]+)/pull/(\\d+)";

/// The owner, repository and number that the capture groups of a link give:
/// groups one to three must be present and the third must be a number that
/// fits in `u64`.
pub open spec fn pr_info_of(c: Option<Seq<Option<Seq<char>>>>) -> Option<(Seq<char>, Seq<char>, u64)> {
    match c {
        Some(g) => if g.len() >= 4 && g[1] is Some && g[2] is Some && g[3] is Some
            && is_decimal(g[3]->0) && decimal_value(g[3]->0) <= u64::MAX {
            Some((g[1]->0, g[2]->0, decimal_value(g[3]->0) as u64))
        } else {
            None
        },
        None => None,
    }
}

pub open spec fn info_view(r: Option<(String, String, u64)>) -> Option<(Seq<char>, Seq<char>, u64)> {
    match r {
        Some((o, n, k)) => Some((o@, n@, k)),
        None => None,
    }
}

/// Reads owner, repository and number out of the capture groups of a
/// pull-request link match.
pub fn pr_info_from_captures(caps: Option<Vec<Option<String>>>) -> (r: Option<(String, String, u64)>)
    ensures
        info_view(r) == pr_info_of(match caps {
            Some(v) => Some(group_views(v@)),
            None => None,
        }),
{
    let groups = match caps {
        Some(v) => v,
        None => return None,
    };
    if groups.len() < 4 {
        return None;
    }
    let owner = match &groups[1] {
        Some(s) => s.clone(),
        None => return None,
    };
    let repo = match &groups[2] {
        Some(s) => s.clone(),
        None => return None,
    };
    let number = match &groups[3] {
        Some(s) => parse_u64(s.as_str()),
        None => return None,
    };
    match number {
        Some(k) => Some((owner, repo, k)),
        None => None,
    }
}

/// Finds the first pull-request link in `text` and reads its owner,
/// repository and number.
pub fn extract_pr_info(text: &str) -> (r: Option<(String, String, u64)>)
    ensures
        info_view(r) == pr_info_of(regex_captures(PR_LINK_PATTERN@, text@)),
{
    pr_info_from_captures(first_captures(PR_LINK_PATTERN, text))
}

} // verus!
