//! Dot-separated text: the grammar of attribute type identifiers.
//!
//! A text is read as a non-empty list of segments with one dot between each
//! two neighbours. Segments hold no dot and may be empty.

use vstd::prelude::*;
use vstd::std_specs::iter::IteratorSpec;

verus! {

broadcast use vstd::string::group_string_axioms;

/// No character of `s` is a dot.
pub open spec fn dot_free(s: Seq<char>) -> bool {
    forall|i: int| 0 <= i < s.len() ==> s[i] != '.'
}

/// Every text in `parts` is free of dots.
pub open spec fn all_dot_free(parts: Seq<Seq<char>>) -> bool {
    forall|k: int| 0 <= k < parts.len() ==> dot_free(#[trigger] parts[k])
}

/// The number of dots in `s`.
pub open spec fn dot_count(s: Seq<char>) -> nat
    decreases s.len(),
{
    if s.len() == 0 {
        0
    } else if s.last() == '.' {
        dot_count(s.drop_last()) + 1
    } else {
        dot_count(s.drop_last())
    }
}

/// The texts of `parts` written one after the other with a dot between
/// neighbours.
pub open spec fn joined(parts: Seq<Seq<char>>) -> Seq<char>
    decreases parts.len(),
{
    if parts.len() == 0 {
        Seq::empty()
    } else if parts.len() == 1 {
        parts[0]
    } else {
        joined(parts.drop_last()) + seq!['.'] + parts.last()
    }
}

/// The segments of `s`, read from the left: a dot closes the current segment
/// and opens a new, empty one; any other character extends the current one.
pub open spec fn segments(s: Seq<char>) -> Seq<Seq<char>>
    decreases s.len(),
{
    if s.len() == 0 {
        seq![Seq::empty()]
    } else {
        let before = segments(s.drop_last());
        if s.last() == '.' {
            before.push(Seq::empty())
        } else {
            before.update(before.len() - 1, before.last().push(s.last()))
        }
    }
}

/// The texts held by a list of strings.
pub open spec fn texts(parts: Seq<String>) -> Seq<Seq<char>> {
    parts.map_values(|p: String| p@)
}

/// A text has one segment more than it has dots.
pub proof fn lemma_segment_count(s: Seq<char>)
    ensures
        segments(s).len() == dot_count(s) + 1,
    decreases s.len(),
{
    if s.len() > 0 {
        lemma_segment_count(s.drop_last());
    }
}

/// No segment of a text holds a dot.
pub proof fn lemma_segments_dot_free(s: Seq<char>)
    ensures
        all_dot_free(segments(s)),
    decreases s.len(),
{
    if s.len() > 0 {
        lemma_segment_count(s.drop_last());
        lemma_segments_dot_free(s.drop_last());
        let before = segments(s.drop_last());
        assert forall|k: int| 0 <= k < segments(s).len() implies dot_free(
            #[trigger] segments(s)[k],
        ) by {
            if k < before.len() - 1 {
                assert(segments(s)[k] == before[k]);
            } else if s.last() != '.' {
                assert(dot_free(before[k]));
            }
        }
    }
}

/// Joining grows with the list: a further part is appended behind a dot.
pub proof fn lemma_joined_push(parts: Seq<Seq<char>>, part: Seq<char>)
    requires
        parts.len() > 0,
    ensures
        joined(parts.push(part)) == joined(parts) + seq!['.'] + part,
{
    assert(parts.push(part).drop_last() == parts);
}

/// Joining depends on the last part by plain concatenation.
pub proof fn lemma_joined_extend_last(parts: Seq<Seq<char>>, c: char)
    requires
        parts.len() > 0,
    ensures
        joined(parts.update(parts.len() - 1, parts.last().push(c))) == joined(parts).push(c),
{
    let grown = parts.update(parts.len() - 1, parts.last().push(c));
    if parts.len() == 1 {
        assert(joined(grown) == joined(parts).push(c));
    } else {
        assert(grown.drop_last() == parts.drop_last());
        assert(joined(grown) == joined(parts.drop_last()) + seq!['.'] + parts.last().push(c));
        assert(joined(grown) == joined(parts).push(c));
    }
}

/// Joining the segments of a text gives the text back.
pub proof fn lemma_join_segments(s: Seq<char>)
    ensures
        joined(segments(s)) == s,
    decreases s.len(),
{
    if s.len() > 0 {
        let before = segments(s.drop_last());
        lemma_segment_count(s.drop_last());
        lemma_join_segments(s.drop_last());
        if s.last() == '.' {
            lemma_joined_push(before, Seq::empty());
            assert(s.drop_last() + seq!['.'] + Seq::<char>::empty() == s);
        } else {
            lemma_joined_extend_last(before, s.last());
            assert(s.drop_last().push(s.last()) == s);
        }
    }
}

/// Appending a dot-free text to a text extends its last segment by it.
pub proof fn lemma_segments_append(s: Seq<char>, tail: Seq<char>)
    requires
        dot_free(tail),
    ensures
        segments(s + tail) == segments(s).update(
            segments(s).len() - 1,
            segments(s).last() + tail,
        ),
    decreases tail.len(),
{
    lemma_segment_count(s);
    if tail.len() == 0 {
        assert(s + tail == s);
        assert(segments(s).last() + tail == segments(s).last());
        assert(segments(s).update(segments(s).len() - 1, segments(s).last()) == segments(s));
    } else {
        let shorter = tail.drop_last();
        lemma_segments_append(s, shorter);
        assert((s + tail).drop_last() == s + shorter);
        assert((s + tail).last() == tail.last());
        assert(segments(s).last() + shorter.push(tail.last()) == (segments(s).last()
            + shorter).push(tail.last()));
        assert(shorter.push(tail.last()) == tail);
        assert(segments(s + tail) == segments(s).update(
            segments(s).len() - 1,
            segments(s).last() + tail,
        ));
    }
}

/// The segments of a join of dot-free parts are those parts: a text is read
/// in one way only.
pub proof fn lemma_segments_join(parts: Seq<Seq<char>>)
    requires
        parts.len() > 0,
        all_dot_free(parts),
    ensures
        segments(joined(parts)) == parts,
    decreases parts.len(),
{
    if parts.len() == 1 {
        let only = parts[0];
        lemma_segments_append(Seq::empty(), only);
        assert(Seq::<char>::empty() + only == only);
        assert(segments(Seq::<char>::empty()) == seq![Seq::<char>::empty()]);
        assert(Seq::<char>::empty() + only == only);
        assert(segments(only) == seq![only]);
        assert(seq![only] == parts);
    } else {
        let front = parts.drop_last();
        assert(all_dot_free(front)) by {
            assert forall|k: int| 0 <= k < front.len() implies dot_free(#[trigger] front[k]) by {
                assert(front[k] == parts[k]);
            }
        }
        lemma_segments_join(front);
        let dotted = joined(front) + seq!['.'];
        assert(dotted.drop_last() == joined(front));
        assert(dotted.last() == '.');
        assert(segments(dotted) == front.push(Seq::empty()));
        assert(dot_free(parts.last()));
        lemma_segments_append(dotted, parts.last());
        assert(Seq::<char>::empty() + parts.last() == parts.last());
        assert(segments(joined(parts)) == parts);
    }
}

/// Reads `s` into its segments, in order.
pub fn split_segments(s: &str) -> (parts: Vec<String>)
    ensures
        texts(parts@) == segments(s@),
{
    let total = s.unicode_len();
    let mut parts: Vec<String> = Vec::new();
    let mut chars = s.chars();
    let mut start: usize = 0;
    let mut at: usize = 0;
    proof {
        assert(s@.take(0).len() == 0);
        assert(texts(parts@).len() == 0);
        assert(s@.subrange(0, 0) == Seq::<char>::empty());
        assert(texts(parts@).push(s@.subrange(0, 0)) == seq![Seq::<char>::empty()]);
    }
    loop
        invariant
            total == s@.len(),
            start <= at <= total,
            chars.remaining() == s@.skip(at as int),
            segments(s@.take(at as int)) == texts(parts@).push(
                s@.subrange(start as int, at as int),
            ),
        ensures
            at == total,
        decreases total - at,
    {
        match chars.next() {
            Some(c) => {
                proof {
                    assert(c == s@[at as int]);
                    assert(s@.take(at + 1).drop_last() == s@.take(at as int));
                    assert(s@.skip(at as int).drop_first() == s@.skip(at + 1));
                }
                if c == '.' {
                    let part = s.substring_char(start, at).to_string();
                    proof {
                        assert(texts(parts@.push(part)) == texts(parts@).push(part@));
                        assert(s@.subrange(at + 1, at + 1) == Seq::<char>::empty());
                    }
                    parts.push(part);
                    start = at + 1;
                } else {
                    proof {
                        assert(s@.subrange(start as int, at as int).push(c) == s@.subrange(
                            start as int,
                            at + 1,
                        ));
                    }
                }
                at = at + 1;
            },
            None => {
                break ;
            },
        }
    }
    let part = s.substring_char(start, at).to_string();
    proof {
        assert(s@.take(at as int) == s@);
        assert(texts(parts@.push(part)) == texts(parts@).push(part@));
    }
    parts.push(part);
    parts
}

} // verus!
