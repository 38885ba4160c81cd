//! The markdown that refers to note attachments: links and embedded images
//! whose target is an attachment, and the blank lines left behind when such
//! a link is taken out.
use vstd::prelude::*;

verus! {

/// The first `]` in `s` at or after `from`.
pub open spec fn first_close(s: Seq<char>, from: int) -> Option<int>
    decreases s.len() - from,
{
    if from < 0 || from >= s.len() {
        None
    } else if s[from] == ']' {
        Some(from)
    } else {
        first_close(s, from + 1)
    }
}

/// `first_close` finds the first `]` from `from` on, or there is none.
pub proof fn lemma_first_close(s: Seq<char>, from: int)
    requires
        from >= 0,
    ensures
        match first_close(s, from) {
            Some(k) => from <= k < s.len() && s[k] == ']' && forall|j: int|
                from <= j < k ==> s[j] != ']',
            None => forall|j: int| from <= j < s.len() ==> s[j] != ']',
        },
    decreases s.len() - from,
{
    if from < s.len() && s[from] != ']' {
        lemma_first_close(s, from + 1);
    }
}

/// Where a link ending in `tail` that starts at `i` ends: an optional `!`,
/// a `[`, text without `]`, then `tail` (which starts with the `]`).
pub open spec fn link_end(s: Seq<char>, i: int, tail: Seq<char>) -> Option<int> {
    let q = if 0 <= i < s.len() && s[i] == '!' {
        i + 1
    } else {
        i
    };
    if 0 <= q < s.len() && s[q] == '[' {
        match first_close(s, q + 1) {
            Some(k) => if k + tail.len() <= s.len() && s.subrange(k, k + tail.len()) == tail {
                Some(k + tail.len())
            } else {
                None
            },
            None => None,
        }
    } else {
        None
    }
}

/// A link found by `link_end` ends after it starts.
pub proof fn lemma_link_end_after(s: Seq<char>, i: int, tail: Seq<char>)
    requires
        i >= 0,
    ensures
        link_end(s, i, tail) matches Some(e) ==> e > i && e <= s.len(),
{
    let q = if 0 <= i < s.len() && s[i] == '!' {
        i + 1
    } else {
        i
    };
    lemma_first_close(s, q + 1);
}

/// `s` from `i` on with every link ending in `tail` taken out, scanning
/// from the left without overlaps.
pub open spec fn strip_links_from(s: Seq<char>, i: int, tail: Seq<char>) -> Seq<char>
    decreases s.len() - i,
{
    if i < 0 || i >= s.len() {
        Seq::empty()
    } else {
        match link_end(s, i, tail) {
            Some(e) => {
                proof {
                    lemma_link_end_after(s, i, tail);
                }
                strip_links_from(s, e, tail)
            },
            None => seq![s[i]] + strip_links_from(s, i + 1, tail),
        }
    }
}

/// `s` with every link ending in `tail` taken out.
pub open spec fn strip_links(s: Seq<char>, tail: Seq<char>) -> Seq<char> {
    strip_links_from(s, 0, tail)
}

/// Whether a link ending in `tail` starts somewhere in `s`.
pub open spec fn has_link(s: Seq<char>, tail: Seq<char>) -> bool {
    exists|p: int| 0 <= p < s.len() && (#[trigger] link_end(s, p, tail)) is Some
}

/// `s` with each run of three or more line breaks cut to two.
pub open spec fn squeeze_blank_lines(s: Seq<char>) -> Seq<char>
    decreases s.len(),
{
    if s.len() == 0 {
        s
    } else if s.len() >= 3 && s[0] == '\n' && s[1] == '\n' && s[2] == '\n' {
        squeeze_blank_lines(s.drop_first())
    } else {
        seq![s[0]] + squeeze_blank_lines(s.drop_first())
    }
}

fn first_close_in(s: &[char], from: usize) -> (r: Option<usize>)
    ensures
        match first_close(s@, from as int) {
            Some(k) => r == Some(k as usize),
            None => r is None,
        },
{
    let n: usize = s.len();
    let mut k: usize = from;
    if k >= n {
        return None;
    }
    while k < n && s[k] != ']'
        invariant
            n == s@.len(),
            from <= k,
            first_close(s@, from as int) == first_close(s@, k as int),
        decreases n - k,
    {
        k = k + 1;
    }
    if k < n {
        Some(k)
    } else {
        None
    }
}

fn link_end_in(s: &[char], i: usize, tail: &[char]) -> (r: Option<usize>)
    requires
        i < s@.len(),
    ensures
        match link_end(s@, i as int, tail@) {
            Some(e) => r == Some(e as usize),
            None => r is None,
        },
{
    let n: usize = s.len();
    let q: usize = if s[i] == '!' {
        i + 1
    } else {
        i
    };
    if q >= n || s[q] != '[' {
        return None;
    }
    proof {
        lemma_first_close(s@, q + 1);
    }
    match first_close_in(s, q + 1) {
        None => None,
        Some(k) => {
            if tail.len() > n - k {
                return None;
            }
            let ghost found_end = if s@.subrange(k as int, k + tail@.len()) == tail@ {
                Some(k + tail@.len())
            } else {
                None
            };
            assert(link_end(s@, i as int, tail@) == found_end);
            let mut j: usize = 0;
            while j < tail.len()
                invariant
                    link_end(s@, i as int, tail@) == found_end,
                    found_end == (if s@.subrange(k as int, k + tail@.len()) == tail@ {
                        Some(k + tail@.len())
                    } else {
                        None
                    }),
                    n == s@.len(),
                    k + tail@.len() <= n,
                    j <= tail@.len(),
                    forall|m: int| 0 <= m < j ==> s@[k + m] == tail@[m],
                decreases tail@.len() - j,
            {
                if s[k + j] != tail[j] {
                    proof {
                        assert(s@.subrange(k as int, k + tail@.len())[j as int] != tail@[j as int]);
                    }
                    return None;
                }
                j = j + 1;
            }
            proof {
                assert(s@.subrange(k as int, k + tail@.len()) =~= tail@);
            }
            Some(k + tail.len())
        },
    }
}

/// `s` with every link ending in `tail` taken out, and whether there was one.
pub fn strip_links_chars(s: &[char], tail: &[char]) -> (r: (Vec<char>, bool))
    ensures
        r.0@ == strip_links(s@, tail@),
        r.1 == has_link(s@, tail@),
{
    let n: usize = s.len();
    let mut out: Vec<char> = Vec::new();
    let mut found = false;
    let mut i: usize = 0;
    while i < n
        invariant
            n == s@.len(),
            i <= n,
            strip_links(s@, tail@) == out@ + strip_links_from(s@, i as int, tail@),
            found ==> has_link(s@, tail@),
            !found ==> forall|p: int| 0 <= p < i ==> (#[trigger] link_end(s@, p, tail@)) is None,
        decreases n - i,
    {
        proof {
            lemma_link_end_after(s@, i as int, tail@);
        }
        match link_end_in(s, i, tail) {
            Some(e) => {
                found = true;
                i = e;
            },
            None => {
                let ghost before = out@;
                out.push(s[i]);
                proof {
                    assert(before + (seq![s@[i as int]] + strip_links_from(s@, i + 1, tail@)) =~= out@
                        + strip_links_from(s@, i + 1, tail@));
                }
                i = i + 1;
            },
        }
    }
    proof {
        assert(out@ + strip_links_from(s@, n as int, tail@) =~= out@);
    }
    (out, found)
}

/// `s` with each run of three or more line breaks cut to two.
pub fn squeeze_blank_lines_chars(s: &[char]) -> (r: Vec<char>)
    ensures
        r@ == squeeze_blank_lines(s@),
{
    let n: usize = s.len();
    let mut out: Vec<char> = Vec::new();
    let mut i: usize = 0;
    proof {
        assert(s@.skip(0) =~= s@);
        assert(out@ + s@ =~= s@);
    }
    while i < n
        invariant
            n == s@.len(),
            i <= n,
            squeeze_blank_lines(s@) == out@ + squeeze_blank_lines(s@.skip(i as int)),
        decreases n - i,
    {
        let ghost rest = s@.skip(i as int);
        proof {
            assert(rest.drop_first() =~= s@.skip(i + 1));
        }
        if n - i >= 3 && s[i] == '\n' && s[i + 1] == '\n' && s[i + 2] == '\n' {
            assert(rest[0] == '\n' && rest[1] == '\n' && rest[2] == '\n');
        } else {
            let ghost before = out@;
            out.push(s[i]);
            proof {
                assert(rest[0] == s@[i as int]);
                assert(before + (seq![rest[0]] + squeeze_blank_lines(rest.drop_first())) =~= out@
                    + squeeze_blank_lines(s@.skip(i + 1)));
            }
        }
        i = i + 1;
    }
    proof {
        assert(s@.skip(n as int) =~= Seq::<char>::empty());
        assert(out@ + Seq::<char>::empty() =~= out@);
    }
    out
}

} // verus!
