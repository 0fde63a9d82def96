//! Dotted topic names and the glob-style patterns that hats subscribe with.

use crate::text::chars_of;
use vstd::prelude::*;

verus! {

/// The pieces of `s` between occurrences of `sep` (always at least one).
pub open spec fn split(s: Seq<char>, sep: char) -> Seq<Seq<char>>
    decreases s.len(),
{
    if s.len() == 0 {
        seq![Seq::empty()]
    } else {
        let init = split(s.drop_last(), sep);
        if s.last() == sep {
            init.push(Seq::empty())
        } else {
            init.update(init.len() - 1, init.last().push(s.last()))
        }
    }
}

/// The segment that matches any single topic segment, and, alone, any topic.
pub open spec fn wildcard() -> Seq<char> {
    seq!['*']
}

/// Segment-wise match: same arity, each pattern segment is `*` or equal.
pub open spec fn segments_match(p: Seq<Seq<char>>, t: Seq<Seq<char>>) -> bool {
    &&& p.len() == t.len()
    &&& forall|i: int| 0 <= i < p.len() ==> (#[trigger] p[i] == wildcard() || p[i] == t[i])
}

/// Whether `pattern` matches `topic`. Empty patterns and topics are invalid and match nothing.
pub open spec fn pattern_matches(pattern: Seq<char>, topic: Seq<char>) -> bool {
    &&& pattern.len() > 0
    &&& topic.len() > 0
    &&& (pattern == wildcard() || segments_match(split(pattern, '.'), split(topic, '.')))
}

/// The views of a list of character vectors.
pub open spec fn vec_views(v: Seq<Vec<char>>) -> Seq<Seq<char>> {
    v.map_values(|x: Vec<char>| x@)
}

fn split_chars(v: &Vec<char>, sep: char) -> (r: Vec<Vec<char>>)
    ensures
        vec_views(r@) == split(v@, sep),
{
    let mut done: Vec<Vec<char>> = Vec::new();
    let mut cur: Vec<char> = Vec::new();
    let mut i: usize = 0;
    while i < v.len()
        invariant
            i <= v.len(),
            split(v@.take(i as int), sep) == vec_views(done@).push(cur@),
        decreases v.len() - i,
    {
        let c = v[i];
        let ghost before = vec_views(done@).push(cur@);
        assert(v@.take(i + 1).drop_last() == v@.take(i as int));
        assert(v@.take(i + 1).last() == c);
        if c == sep {
            let full = cur;
            cur = Vec::new();
            done.push(full);
            assert(vec_views(done@).push(cur@) == before.push(Seq::empty()));
        } else {
            cur.push(c);
            assert(vec_views(done@).push(cur@) == before.update(
                before.len() - 1,
                before.last().push(c),
            ));
        }
        i = i + 1;
    }
    assert(v@.take(v.len() as int) == v@);
    done.push(cur);
    assert(vec_views(done@) == split(v@, sep));
    done
}

fn same_chars(a: &Vec<char>, b: &Vec<char>) -> (r: bool)
    ensures
        r == (a@ == b@),
{
    if a.len() != b.len() {
        return false;
    }
    let mut i: usize = 0;
    while i < a.len()
        invariant
            a.len() == b.len(),
            i <= a.len(),
            forall|k: int| 0 <= k < i ==> a@[k] == b@[k],
        decreases a.len() - i,
    {
        if a[i] != b[i] {
            return false;
        }
        i = i + 1;
    }
    assert(a@ == b@);
    true
}

fn is_wildcard(a: &Vec<char>) -> (r: bool)
    ensures
        r == (a@ == wildcard()),
{
    if a.len() == 1 && a[0] == '*' {
        assert(a@ == wildcard());
        true
    } else {
        false
    }
}

/// Why a pattern test could not be made.
#[derive(Debug, Clone, Copy, PartialEq, Eq, Structural)]
pub enum TopicError {
    /// The pattern or the topic is empty.
    InvalidTopic,
}

/// An immutable dotted topic name, such as `build.done`, or a pattern over them.
#[derive(Debug)]
pub struct Topic {
    name: String,
}

impl View for Topic {
    type V = Seq<char>;

    closed spec fn view(&self) -> Seq<char> {
        self.name@
    }
}

impl Clone for Topic {
    fn clone(&self) -> (r: Self)
        ensures
            r == *self,
    {
        Topic { name: self.name.clone() }
    }
}

impl Topic {
    /// A topic with the given name.
    pub fn new(name: &str) -> (t: Topic)
        ensures
            t@ == name@,
    {
        Topic { name: name.to_owned() }
    }

    /// The topic's name.
    pub fn as_str(&self) -> (r: &str)
        ensures
            r@ == self@,
    {
        self.name.as_str()
    }

    /// Whether this pattern matches `topic`: `*` alone matches every topic; otherwise the
    /// two have as many dot-separated segments, and each pattern segment is `*` or equal
    /// to the topic's segment. An empty pattern or topic matches nothing.
    pub fn matches(&self, topic: &Topic) -> (r: bool)
        ensures
            r == pattern_matches(self@, topic@),
    {
        match self.try_matches(topic) {
            Ok(b) => b,
            Err(_) => false,
        }
    }

    /// Like `matches`, but an empty pattern or topic is an error.
    pub fn try_matches(&self, topic: &Topic) -> (r: Result<bool, TopicError>)
        ensures
            r is Err <==> (self@.len() == 0 || topic@.len() == 0),
            r matches Ok(b) ==> b == pattern_matches(self@, topic@),
    {
        let p = chars_of(self.name.as_str());
        let t = chars_of(topic.name.as_str());
        if p.len() == 0 || t.len() == 0 {
            return Err(TopicError::InvalidTopic);
        }
        if is_wildcard(&p) {
            return Ok(true);
        }
        let ps = split_chars(&p, '.');
        let ts = split_chars(&t, '.');
        if ps.len() != ts.len() {
            return Ok(false);
        }
        let mut i: usize = 0;
        while i < ps.len()
            invariant
                self@.len() > 0,
                topic@.len() > 0,
                self@ != wildcard(),
                vec_views(ps@) == split(self@, '.'),
                vec_views(ts@) == split(topic@, '.'),
                ps.len() == ts.len(),
                i <= ps.len(),
                forall|k: int|
                    0 <= k < i ==> (#[trigger] vec_views(ps@)[k] == wildcard() || vec_views(
                        ps@,
                    )[k] == vec_views(ts@)[k]),
            decreases ps.len() - i,
        {
            if !is_wildcard(&ps[i]) && !same_chars(&ps[i], &ts[i]) {
                assert(!(vec_views(ps@)[i as int] == wildcard() || vec_views(ps@)[i as int]
                    == vec_views(ts@)[i as int]));
                return Ok(false);
            }
            i = i + 1;
        }
        Ok(true)
    }
}

} // verus!
