//! Verified splitting and joining of the detector's plain-text output.  The
//! split keeps empty pieces, exactly as splitting on every occurrence of the
//! separator does, so token positions in a line are stable.

use vstd::prelude::*;

verus! {

/// The index of the first occurrence of `sep` in `s`, or `-1` if none.
pub open spec fn first_index_of(s: Seq<char>, sep: char) -> int
    decreases s.len(),
{
    if s.len() == 0 {
        -1int
    } else if s[0] == sep {
        0int
    } else {
        let r = first_index_of(s.drop_first(), sep);
        if r < 0 {
            -1int
        } else {
            r + 1
        }
    }
}

pub proof fn lemma_first_index_props(s: Seq<char>, sep: char)
    ensures
        first_index_of(s, sep) == -1 ==> forall|j: int| 0 <= j < s.len() ==> s[j] != sep,
        first_index_of(s, sep) != -1 ==> {
            &&& 0 <= first_index_of(s, sep) < s.len()
            &&& s[first_index_of(s, sep)] == sep
            &&& forall|j: int| 0 <= j < first_index_of(s, sep) ==> s[j] != sep
        },
    decreases s.len(),
{
    if s.len() > 0 && s[0] != sep {
        let t = s.drop_first();
        lemma_first_index_props(t, sep);
        let rt = first_index_of(t, sep);
        if rt < 0 {
            assert forall|j: int| 0 <= j < s.len() implies s[j] != sep by {
                if j > 0 {
                    assert(t[j - 1] == s[j]);
                }
            }
        } else {
            assert(s[rt + 1] == t[rt]);
            assert forall|j: int| 0 <= j < rt + 1 implies s[j] != sep by {
                if j > 0 {
                    assert(t[j - 1] == s[j]);
                }
            }
        }
    }
}

/// A position holding `sep` with no earlier occurrence is the first index.
pub proof fn lemma_first_index_determined(s: Seq<char>, sep: char, k: int)
    requires
        0 <= k < s.len(),
        s[k] == sep,
        forall|j: int| 0 <= j < k ==> s[j] != sep,
    ensures
        first_index_of(s, sep) == k,
{
    lemma_first_index_props(s, sep);
    let r = first_index_of(s, sep);
    if r == -1 {
    } else if r < k {
    } else if r > k {
    }
}

/// The pieces of `s` between the occurrences of `sep`, empty pieces kept.
pub open spec fn split_on(s: Seq<char>, sep: char) -> Seq<Seq<char>>
    decreases s.len(),
    via split_on_dec
{
    let i = first_index_of(s, sep);
    if i < 0 {
        seq![s]
    } else {
        seq![s.take(i)] + split_on(s.skip(i + 1), sep)
    }
}

#[via_fn]
proof fn split_on_dec(s: Seq<char>, sep: char) {
    lemma_first_index_props(s, sep);
}

/// The concatenation of a sequence of pieces, in order.
pub open spec fn concat_all(parts: Seq<Seq<char>>) -> Seq<char>
    decreases parts.len(),
{
    if parts.len() == 0 {
        Seq::empty()
    } else {
        concat_all(parts.drop_last()) + parts.last()
    }
}

/// Find the first occurrence of `sep` in `s`.
pub fn find_char(s: &str, sep: char) -> (r: Option<usize>)
    ensures
        match r {
            Some(i) => i < s@.len() && s@[i as int] == sep && i as int == first_index_of(s@, sep),
            None => first_index_of(s@, sep) == -1,
        },
{
    let n = s.unicode_len();
    let mut i: usize = 0;
    while i < n
        invariant
            n == s@.len(),
            i <= n,
            forall|j: int| 0 <= j < i ==> s@[j] != sep,
        decreases n - i,
    {
        let c = s.get_char(i);
        if c == sep {
            proof {
                lemma_first_index_determined(s@, sep, i as int);
            }
            return Some(i);
        }
        i = i + 1;
    }
    proof {
        lemma_first_index_props(s@, sep);
    }
    None
}

/// Split `s` on every occurrence of `sep`; the result is never empty and
/// its element views are exactly `split_on(s@, sep)`.
pub fn split_str(s: &str, sep: char) -> (r: Vec<String>)
    ensures
        r.deep_view() == split_on(s@, sep),
        r@.len() >= 1,
    decreases s@.len(),
{
    match find_char(s, sep) {
        None => {
            let mut out: Vec<String> = Vec::new();
            out.push(s.to_owned());
            proof {
                assert(out.deep_view() =~= seq![s@]);
            }
            out
        },
        Some(i) => {
            let n = s.unicode_len();
            let head = s.substring_char(0, i).to_owned();
            let tail = s.substring_char(i + 1, n);
            proof {
                assert(tail@ =~= s@.skip(i + 1));
            }
            let mut rest = split_str(tail, sep);
            let mut out: Vec<String> = Vec::new();
            out.push(head);
            let ghost rest_seq = rest@;
            let ghost rest_view = rest.deep_view();
            out.append(&mut rest);
            proof {
                assert(head@ =~= s@.take(i as int));
                assert forall|j: int| 0 <= j < out.deep_view().len() implies out.deep_view()[j]
                    == (seq![s@.take(i as int)] + rest_view)[j] by {
                    assert(out.deep_view()[j] == out@[j].deep_view());
                    if j > 0 {
                        assert(out@[j] == rest_seq[j - 1]);
                        assert(rest_view[j - 1] == rest_seq[j - 1].deep_view());
                    }
                }
                assert(out.deep_view() =~= seq![s@.take(i as int)] + rest_view);
            }
            out
        },
    }
}

} // verus!
