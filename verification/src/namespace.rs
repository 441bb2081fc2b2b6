//! Namespaces: splitting a raw namespace string into its `::`-delimited
//! segments, and segment-wise prefix matching for exclusion rules.

use vstd::prelude::*;

verus! {

/// The segments of `s` that remain once the already-scanned part has produced
/// `acc` as the current, still-open segment: on `::` the open segment is
/// emitted and a fresh one starts; any other character joins the open
/// segment; at the end the open segment is emitted.  Delimiters are found
/// left to right and do not overlap, as `str::split` finds them.
pub open spec fn spec_split_acc(s: Seq<char>, acc: Seq<char>) -> Seq<Seq<char>>
    decreases s.len(),
{
    if s.len() >= 2 && s[0] == ':' && s[1] == ':' {
        seq![acc] + spec_split_acc(s.skip(2), Seq::empty())
    } else if s.len() == 0 {
        seq![acc]
    } else {
        spec_split_acc(s.skip(1), acc.push(s[0]))
    }
}

/// The `::`-delimited segments of a namespace string.  An empty string has
/// the single empty segment; a delimiter at either end or two in a row
/// contribute empty segments.
pub open spec fn spec_segments(s: Seq<char>) -> Seq<Seq<char>> {
    spec_split_acc(s, Seq::empty())
}

/// `prefix` is a leading run of `segments`: segment-wise equality over the
/// whole of `prefix`.  The empty prefix leads every segment sequence.
pub open spec fn spec_is_prefix(prefix: Seq<Seq<char>>, segments: Seq<Seq<char>>) -> bool {
    prefix.len() <= segments.len() && forall|j: int|
        0 <= j < prefix.len() ==> prefix[j] == segments[j]
}

/// Some sequence in `prefixes` is a leading run of `segments`.
pub open spec fn spec_any_prefix(prefixes: Seq<Seq<Seq<char>>>, segments: Seq<Seq<char>>) -> bool {
    exists|i: int| 0 <= i < prefixes.len() && spec_is_prefix(prefixes[i], segments)
}

/// The segment views of a vector of owned segment strings.
pub open spec fn seg_views(v: Seq<String>) -> Seq<Seq<char>> {
    v.map_values(|t: String| t@)
}

/// Split a namespace string on `::` into its segments.
pub fn split_namespace(s: &str) -> (segments: Vec<String>)
    ensures
        seg_views(segments@) == spec_segments(s@),
{
    let len = s.unicode_len();
    let mut segments: Vec<String> = Vec::new();
    let mut start: usize = 0;
    let mut i: usize = 0;
    proof {
        assert(s@.skip(0) =~= s@);
        assert(s@.subrange(0, 0) =~= Seq::<char>::empty());
        assert(seg_views(segments@) =~= Seq::<Seq<char>>::empty());
        assert(seg_views(segments@) + spec_split_acc(s@, Seq::empty()) =~= spec_split_acc(
            s@,
            Seq::empty(),
        ));
    }
    while i < len
        invariant
            len == s@.len(),
            0 <= start <= i <= len,
            spec_segments(s@) == seg_views(segments@) + spec_split_acc(
                s@.skip(i as int),
                s@.subrange(start as int, i as int),
            ),
        decreases len - i,
    {
        if i + 1 < len && s.get_char(i) == ':' && s.get_char(i + 1) == ':' {
            let seg = String::from_str(s.substring_char(start, i));
            proof {
                let rest = s@.skip(i as int);
                assert(rest[0] == s@[i as int]);
                assert(rest[1] == s@[i + 1]);
                assert(rest.skip(2) =~= s@.skip(i + 2));
                assert(seg_views(segments@.push(seg)) =~= seg_views(segments@).push(seg@));
                assert(s@.subrange(i + 2, i + 2) =~= Seq::<char>::empty());
                assert(seg_views(segments@).push(s@.subrange(start as int, i as int))
                    + spec_split_acc(s@.skip(i + 2), s@.subrange(i + 2, i + 2))
                    =~= seg_views(segments@) + spec_split_acc(
                        s@.skip(i as int),
                        s@.subrange(start as int, i as int),
                    ));
            }
            segments.push(seg);
            start = i + 2;
            i = i + 2;
        } else {
            proof {
                let rest = s@.skip(i as int);
                assert(rest.len() == len - i);
                assert(rest.len() >= 1);
                assert(rest[0] == s@[i as int]);
                if rest.len() >= 2 {
                    assert(rest[1] == s@[i + 1]);
                }
                assert(rest.skip(1) =~= s@.skip(i + 1));
                assert(s@.subrange(start as int, i as int).push(s@[i as int]) =~= s@.subrange(
                    start as int,
                    i + 1,
                ));
            }
            i = i + 1;
        }
    }
    proof {
        assert(s@.skip(len as int) =~= Seq::<char>::empty());
    }
    let last = String::from_str(s.substring_char(start, len));
    proof {
        assert(seg_views(segments@.push(last)) =~= seg_views(segments@).push(last@));
        assert(seg_views(segments@) + spec_split_acc(
            s@.skip(len as int),
            s@.subrange(start as int, len as int),
        ) =~= seg_views(segments@).push(s@.subrange(start as int, len as int)));
    }
    segments.push(last);
    segments
}

/// Whether `prefix` is a leading run of `segments`, segment by segment.
pub fn starts_with_segments(segments: &Vec<String>, prefix: &Vec<String>) -> (r: bool)
    ensures
        r == spec_is_prefix(seg_views(prefix@), seg_views(segments@)),
{
    if prefix.len() > segments.len() {
        return false;
    }
    let mut j: usize = 0;
    while j < prefix.len()
        invariant
            prefix@.len() <= segments@.len(),
            0 <= j <= prefix@.len(),
            forall|k: int| 0 <= k < j ==> seg_views(prefix@)[k] == seg_views(segments@)[k],
        decreases prefix@.len() - j,
    {
        if !(prefix[j] == segments[j]) {
            proof {
                assert(seg_views(prefix@)[j as int] == prefix@[j as int]@);
                assert(seg_views(segments@)[j as int] == segments@[j as int]@);
            }
            return false;
        }
        proof {
            assert(seg_views(prefix@)[j as int] == prefix@[j as int]@);
            assert(seg_views(segments@)[j as int] == segments@[j as int]@);
        }
        j = j + 1;
    }
    true
}

/// Whether some element of `prefixes` is a leading run of `segments`.
pub fn any_prefix_matches(prefixes: &Vec<Vec<String>>, segments: &Vec<String>) -> (r: bool)
    ensures
        r == spec_any_prefix(
            prefixes@.map_values(|p: Vec<String>| seg_views(p@)),
            seg_views(segments@),
        ),
{
    let ghost pviews = prefixes@.map_values(|p: Vec<String>| seg_views(p@));
    let mut i: usize = 0;
    while i < prefixes.len()
        invariant
            pviews == prefixes@.map_values(|p: Vec<String>| seg_views(p@)),
            0 <= i <= prefixes@.len(),
            forall|k: int| 0 <= k < i ==> !spec_is_prefix(pviews[k], seg_views(segments@)),
        decreases prefixes@.len() - i,
    {
        if starts_with_segments(segments, &prefixes[i]) {
            proof {
                assert(pviews[i as int] == seg_views(prefixes@[i as int]@));
            }
            return true;
        }
        proof {
            assert(pviews[i as int] == seg_views(prefixes@[i as int]@));
        }
        i = i + 1;
    }
    false
}

} // verus!
