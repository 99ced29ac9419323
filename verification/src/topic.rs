//! Topic names and patterns: segments separated by dots.

use vstd::prelude::*;
use vstd::string::*;

use crate::text::{
    lemma_split_concat, lemma_split_whole, parts_make_up_the_text, same, split, split_text, texts,
};

verus! {

/// A topic is well formed when none of its dot-separated segments is empty.
pub open spec fn valid_segments(topic: Seq<char>) -> bool {
    let parts = split(topic, '.');
    forall|i: int| 0 <= i < parts.len() ==> (#[trigger] parts[i]).len() > 0
}

/// Whether a pattern covers a topic: as many segments, each equal or `*` in
/// the pattern.
pub open spec fn covers(pattern: Seq<char>, topic: Seq<char>) -> bool {
    let p = split(pattern, '.');
    let t = split(topic, '.');
    &&& p.len() == t.len()
    &&& forall|i: int| 0 <= i < p.len() ==> #[trigger] p[i] == "*"@ || p[i] == t[i]
}

/// Whether every segment of `topic` is non-empty.
pub fn has_valid_segments(topic: &str) -> (r: bool)
    ensures
        r == valid_segments(topic@),
{
    let parts = split_text(topic, '.');
    for i in 0..parts.len()
        invariant
            texts(parts@) == split(topic@, '.'),
            forall|j: int| 0 <= j < i ==> (#[trigger] texts(parts@)[j]).len() > 0,
    {
        if parts[i].as_str().is_empty() {
            assert(texts(parts@)[i as int].len() == 0);
            return false;
        }
        assert(texts(parts@)[i as int] == parts@[i as int]@);
    }
    true
}

/// Whether `pattern` covers `topic`. A `*` stands for exactly one segment.
pub fn topic_matches(topic: &str, pattern: &str) -> (r: bool)
    ensures
        r == covers(pattern@, topic@),
{
    let t = split_text(topic, '.');
    let p = split_text(pattern, '.');
    if p.len() != t.len() {
        return false;
    }
    for i in 0..p.len()
        invariant
            texts(p@) == split(pattern@, '.'),
            texts(t@) == split(topic@, '.'),
            p.len() == t.len(),
            forall|j: int|
                0 <= j < i ==> #[trigger] texts(p@)[j] == "*"@ || texts(p@)[j] == texts(t@)[j],
    {
        assert(texts(p@)[i as int] == p@[i as int]@);
        assert(texts(t@)[i as int] == t@[i as int]@);
        if !same(p[i].as_str(), "*") && !same(p[i].as_str(), t[i].as_str()) {
            return false;
        }
    }
    true
}

proof fn lemma_parts(s: Seq<char>)
    ensures
        split(s, '.').len() > 0,
        split(s, '.').last().len() == 0 <==> s.len() == 0 || s.last() == '.',
        (forall|i: int| 0 <= i < split(s, '.').len() - 1 ==> (#[trigger] split(s, '.')[i]).len() > 0)
            <==> (s.len() > 0 ==> s[0] != '.') && forall|i: int|
            0 <= i < s.len() - 1 ==> !(#[trigger] s[i] == '.' && s[i + 1] == '.'),
    decreases s.len(),
{
    let parts = split(s, '.');
    if s.len() > 0 {
        let t = s.drop_last();
        let rest = split(t, '.');
        lemma_parts(t);
        let dots_apart = forall|i: int|
            0 <= i < s.len() - 1 ==> !(#[trigger] s[i] == '.' && s[i + 1] == '.');
        let dots_apart_before = forall|i: int|
            0 <= i < t.len() - 1 ==> !(#[trigger] t[i] == '.' && t[i + 1] == '.');
        let named = forall|i: int| 0 <= i < parts.len() - 1 ==> (#[trigger] parts[i]).len() > 0;
        let named_before = forall|i: int|
            0 <= i < rest.len() - 1 ==> (#[trigger] rest[i]).len() > 0;
        let joins = t.len() > 0 && t.last() == '.' && s.last() == '.';
        assert(dots_apart == (dots_apart_before && !joins)) by {
            if dots_apart {
                assert forall|i: int| 0 <= i < t.len() - 1 implies !(#[trigger] t[i] == '.' && t[i
                    + 1] == '.') by {
                    assert(!(s[i] == '.' && s[i + 1] == '.'));
                }
                if joins {
                    let k = t.len() - 1;
                    assert(s[k] == '.' && s[k + 1] == '.');
                }
            }
            if dots_apart_before && !joins {
                assert forall|i: int| 0 <= i < s.len() - 1 implies !(#[trigger] s[i] == '.' && s[i
                    + 1] == '.') by {
                    if i < t.len() - 1 {
                        assert(!(t[i] == '.' && t[i + 1] == '.'));
                    }
                }
            }
        }
        if s.last() == '.' {
            assert(named == (named_before && rest.last().len() > 0)) by {
                if named {
                    assert forall|i: int| 0 <= i < rest.len() - 1 implies (
                    #[trigger] rest[i]).len() > 0 by {
                        assert(parts[i].len() > 0);
                    }
                    assert(parts[rest.len() - 1].len() > 0);
                }
                if named_before && rest.last().len() > 0 {
                    assert forall|i: int| 0 <= i < parts.len() - 1 implies (
                    #[trigger] parts[i]).len() > 0 by {
                        assert(parts[i] == rest[i]);
                    }
                }
            }
        } else {
            assert(named == named_before) by {
                assert forall|i: int| 0 <= i < parts.len() - 1 implies #[trigger] parts[i]
                    == rest[i] by {}
                if named {
                    assert forall|i: int| 0 <= i < rest.len() - 1 implies (
                    #[trigger] rest[i]).len() > 0 by {
                        assert(parts[i].len() > 0);
                    }
                }
            }
        }
        if t.len() > 0 {
            assert(s[0] == t[0]);
        }
    }
}

/// A topic is well formed exactly where it is not empty, neither begins nor ends
/// with a dot, and has no two dots next to each other.
pub proof fn well_formed_topics_keep_dots_apart(topic: Seq<char>)
    ensures
        valid_segments(topic) <==> topic.len() > 0 && topic[0] != '.' && topic.last() != '.'
            && forall|i: int|
            0 <= i < topic.len() - 1 ==> !(#[trigger] topic[i] == '.' && topic[i + 1] == '.'),
{
    lemma_parts(topic);
    let parts = split(topic, '.');
    let n = parts.len() - 1;
    if valid_segments(topic) {
        assert(parts[n].len() > 0);
        assert forall|i: int| 0 <= i < parts.len() - 1 implies (#[trigger] parts[i]).len() > 0 by {}
    } else {
        let i = choose|i: int| 0 <= i < parts.len() && !((#[trigger] parts[i]).len() > 0);
        if i < n {
            assert(!(parts[i].len() > 0));
        }
    }
}

/// A pattern without wildcards covers itself alone.
pub proof fn plain_patterns_cover_themselves_alone(pattern: Seq<char>, topic: Seq<char>)
    requires
        !split(pattern, '.').contains("*"@),
    ensures
        covers(pattern, topic) <==> pattern == topic,
{
    parts_make_up_the_text(pattern, '.');
    parts_make_up_the_text(topic, '.');
    let p = split(pattern, '.');
    let t = split(topic, '.');
    if covers(pattern, topic) {
        assert forall|i: int| 0 <= i < p.len() implies p[i] == t[i] by {
            assert(p[i] == "*"@ || p[i] == t[i]);
            assert(p.contains(p[i]));
        }
        assert(p =~= t);
    }
}

/// A wildcard covers every single segment and nothing longer.
pub proof fn wildcard_covers_one_segment(topic: Seq<char>)
    ensures
        covers("*"@, topic) <==> !topic.contains('.'),
{
    reveal_strlit("*");
    assert(!"*"@.contains('.')) by {
        assert("*"@ =~= seq!['*']);
    }
    lemma_split_whole("*"@, '.');
    let t = split(topic, '.');
    if !topic.contains('.') {
        lemma_split_whole(topic, '.');
    } else if t.len() == 1 {
        parts_make_up_the_text(topic, '.');
        assert(t[0] == topic);
        assert(!t[0].contains('.'));
    }
    assert(split("*"@, '.')[0] == "*"@);
}

/// A pattern is compared segment by segment.
pub proof fn patterns_cover_segment_by_segment(
    p: Seq<char>,
    q: Seq<char>,
    t: Seq<char>,
    u: Seq<char>,
)
    requires
        covers(p, t),
        covers(q, u),
    ensures
        covers(p + seq!['.'] + q, t + seq!['.'] + u),
{
    lemma_split_concat(p, q, '.');
    lemma_split_concat(t, u, '.');
    let a = split(p, '.');
    let b = split(q, '.');
    let c = split(t, '.');
    let d = split(u, '.');
    let whole = a + b;
    assert forall|i: int| 0 <= i < whole.len() implies #[trigger] whole[i] == "*"@ || whole[i] == (
    c + d)[i] by {
        if i < a.len() {
            assert(a[i] == "*"@ || a[i] == c[i]);
        } else {
            let k = i - a.len();
            assert(b[k] == "*"@ || b[k] == d[k]);
        }
    }
}

}
