//! DNS names as seen on the wire, compared the multicast DNS way.
//!
//! Multicast DNS names match case-insensitively for ASCII letters, ignoring a
//! single trailing dot (RFC 6762 section 16), while users should see the
//! advertised spelling. Names are therefore compared with [`DnsName::matches`],
//! keyed by [`DnsName::canonical`] and shown with [`DnsName::display_name`].
use vstd::prelude::*;
use crate::strings::{ascii_lower, char_ascii_lower, is_ascii_upper, lower_seq, str_eq, strip_dot};

verus! {

/// True when the text holds an ASCII capital letter.
pub open spec fn has_ascii_upper(s: Seq<char>) -> bool {
    exists|i: int| 0 <= i < s.len() && is_ascii_upper(#[trigger] s[i])
}

/// The canonical form of a name: trailing dot stripped, ASCII letters lowercased.
pub open spec fn canonical_of(s: Seq<char>) -> Seq<char> {
    lower_seq(strip_dot(s))
}

/// A DNS name as it appeared on the wire.
#[derive(Debug, Clone)]
pub struct DnsName {
    /// The name exactly as advertised on the network.
    advertised: String,
    /// Present only when lowercasing changed at least one character; otherwise
    /// the canonical form is the trailing-dot-stripped advertised name.
    canonical: Option<String>,
}

impl DnsName {
    /// The advertised text.
    pub closed spec fn advertised_view(&self) -> Seq<char> {
        self.advertised@
    }

    /// The canonical text that matching, keys and messages use.
    pub open spec fn canonical_view(&self) -> Seq<char> {
        canonical_of(self.advertised_view())
    }

    /// The cached canonical form is present exactly when it differs from the
    /// stripped advertised name, and then it is that canonical form.
    pub closed spec fn wf(&self) -> bool {
        match self.canonical {
            Some(c) => c@ == canonical_of(self.advertised@) && has_ascii_upper(
                strip_dot(self.advertised@),
            ),
            None => !has_ascii_upper(strip_dot(self.advertised@)),
        }
    }

    /// Wraps a name as it appeared on the wire.
    pub fn new(name: &str) -> (r: Self)
        ensures
            r.wf(),
            r.advertised_view() == name@,
    {
        let advertised = name.to_owned();
        let stripped = strip_trailing_dot(name);
        let n = stripped.unicode_len();
        let mut any_upper = false;
        let mut lowered = String::new();
        let mut i: usize = 0;
        while i < n
            invariant
                n == stripped@.len(),
                stripped@ == strip_dot(name@),
                i <= n,
                lowered@ == lower_seq(stripped@.take(i as int)),
                any_upper == has_ascii_upper(stripped@.take(i as int)),
            decreases n - i,
        {
            let c = stripped.get_char(i);
            if 'A' <= c && c <= 'Z' {
                any_upper = true;
            }
            lowered.push(char_ascii_lower(c));
            proof {
                let t = stripped@.take(i as int);
                let t1 = stripped@.take(i + 1);
                assert(t1 =~= t.push(c));
                assert(lower_seq(t1) =~= lower_seq(t).push(ascii_lower(c)));
                if has_ascii_upper(t1) {
                    let j = choose|j: int| 0 <= j < t1.len() && is_ascii_upper(#[trigger] t1[j]);
                    if j < t.len() {
                        assert(t[j] == t1[j]);
                    }
                }
                if has_ascii_upper(t) {
                    let j = choose|j: int| 0 <= j < t.len() && is_ascii_upper(#[trigger] t[j]);
                    assert(t1[j] == t[j]);
                }
                if is_ascii_upper(c) {
                    assert(t1[i as int] == c);
                }
            }
            i = i + 1;
        }
        assert(stripped@.take(n as int) =~= stripped@);
        let canonical = if any_upper {
            Some(lowered)
        } else {
            None
        };
        DnsName { advertised, canonical }
    }

    /// RFC 6762 section 16 comparison: ASCII-case-insensitive, a single
    /// trailing dot ignored. Non-ASCII characters are compared verbatim.
    pub fn matches(&self, other: &Self) -> (r: bool)
        requires
            self.wf(),
            other.wf(),
        ensures
            r == (self.canonical_view() == other.canonical_view()),
    {
        str_eq(self.canonical(), other.canonical())
    }

    /// Like [`Self::matches`], for a name that has not been wrapped.
    pub fn matches_str(&self, other: &str) -> (r: bool)
        requires
            self.wf(),
        ensures
            r == (self.canonical_view() == canonical_of(other@)),
    {
        let a = self.canonical();
        let b = strip_trailing_dot(other);
        let n = a.unicode_len();
        let m = b.unicode_len();
        if n != m {
            proof {
                assert(lower_seq(b@).len() == m);
            }
            return false;
        }
        let mut i: usize = 0;
        while i < n
            invariant
                n == a@.len(),
                m == b@.len(),
                n == m,
                i <= n,
                a@ == self.canonical_view(),
                b@ == strip_dot(other@),
                forall|k: int| 0 <= k < i ==> lower_seq(a@)[k] == lower_seq(b@)[k],
            decreases n - i,
        {
            let x = char_ascii_lower(a.get_char(i));
            let y = char_ascii_lower(b.get_char(i));
            if x != y {
                proof {
                    lemma_lower_idempotent(strip_dot(self.advertised_view()));
                    assert(lower_seq(a@)[i as int] != lower_seq(b@)[i as int]);
                }
                return false;
            }
            i = i + 1;
        }
        proof {
            lemma_lower_idempotent(strip_dot(self.advertised_view()));
            assert(lower_seq(a@) =~= lower_seq(b@));
        }
        true
    }

    /// The canonical form: trailing dot stripped, ASCII letters lowercased.
    pub fn canonical(&self) -> (r: &str)
        requires
            self.wf(),
        ensures
            r@ == self.canonical_view(),
    {
        match &self.canonical {
            Some(c) => c.as_str(),
            None => {
                let r = strip_trailing_dot(self.advertised.as_str());
                proof {
                    lemma_lower_without_upper(strip_dot(self.advertised@));
                }
                r
            },
        }
    }

    /// The advertised spelling without the trailing dot (user facing).
    pub fn display_name(&self) -> (r: &str)
        ensures
            r@ == strip_dot(self.advertised_view()),
    {
        strip_trailing_dot(self.advertised.as_str())
    }

    /// The name exactly as it appeared on the wire, trailing dot included.
    pub fn as_advertised(&self) -> (r: &str)
        ensures
            r@ == self.advertised_view(),
    {
        self.advertised.as_str()
    }
}

/// Lowercasing an already lowercased text changes nothing.
pub proof fn lemma_lower_idempotent(s: Seq<char>)
    ensures
        lower_seq(lower_seq(s)) == lower_seq(s),
{
    assert(lower_seq(lower_seq(s)) =~= lower_seq(s));
}

/// A text without ASCII capitals is its own lowercase form.
pub proof fn lemma_lower_without_upper(s: Seq<char>)
    requires
        !has_ascii_upper(s),
    ensures
        lower_seq(s) == s,
{
    assert forall|i: int| 0 <= i < s.len() implies #[trigger] lower_seq(s)[i] == s[i] by {
        assert(!is_ascii_upper(s[i]));
    }
    assert(lower_seq(s) =~= s);
}

/// Strips the trailing dot from an absolute DNS name in presentation format,
/// so that "hostname.local" and "hostname.local." refer to the same name.
/// Letter case is preserved.
pub fn strip_trailing_dot(host: &str) -> (r: &str)
    ensures
        r@ == strip_dot(host@),
{
    let n = host.unicode_len();
    if n > 0 && host.get_char(n - 1) == '.' {
        host.substring_char(0, n - 1)
    } else {
        host
    }
}

/// A name and the same name with a trailing dot have one canonical form
/// (for a name that does not already end in a dot).
pub proof fn lemma_trailing_dot_ignored(s: Seq<char>)
    requires
        s.len() == 0 || s.last() != '.',
    ensures
        canonical_of(s.push('.')) == canonical_of(s),
{
    assert(s.push('.').drop_last() =~= s);
}

/// Names that differ only in the case of ASCII letters have one canonical form.
pub proof fn lemma_ascii_case_ignored(s: Seq<char>)
    ensures
        canonical_of(lower_seq(s)) == canonical_of(s),
{
    let l = lower_seq(s);
    if s.len() > 0 && s.last() == '.' {
        assert(l.last() == '.');
        assert(l.drop_last() =~= lower_seq(s.drop_last()));
        lemma_lower_idempotent(s.drop_last());
    } else {
        if s.len() > 0 {
            assert(l.last() == ascii_lower(s.last()));
            assert(l.last() != '.');
        }
        lemma_lower_idempotent(s);
    }
}

/// Matching names is an equivalence: every name matches itself, matching is
/// symmetric, and two names matching a third match each other.
pub proof fn lemma_matching_is_equivalence(a: Seq<char>, b: Seq<char>, c: Seq<char>)
    ensures
        canonical_of(a) == canonical_of(a),
        canonical_of(a) == canonical_of(b) ==> canonical_of(b) == canonical_of(a),
        canonical_of(a) == canonical_of(b) && canonical_of(b) == canonical_of(c) ==> canonical_of(a)
            == canonical_of(c),
{
}

/// The canonical form has no ASCII capitals.
pub proof fn lemma_canonical_is_lowercase(s: Seq<char>)
    ensures
        !has_ascii_upper(canonical_of(s)),
{
    let c = canonical_of(s);
    assert forall|i: int| 0 <= i < c.len() implies !is_ascii_upper(#[trigger] c[i]) by {
        assert(c[i] == ascii_lower(strip_dot(s)[i]));
    }
}

} // verus!
