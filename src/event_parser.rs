//! Parsing of event tags out of agent output:
//! `<event topic="TOPIC" target="HAT">PAYLOAD</event>`, the target being optional.

use crate::event::{event_views, id_view, Event, EventView};
use crate::hat::HatId;
use crate::text::{
    chars_of, contains, contains_seq, find, occurs_at, find_from, lemma_find_from, lemma_find_from_first, string_of, trim,
    trim_bounds,
};
use crate::topic::Topic;
use vstd::prelude::*;

verus! {

/// The text that opens an event tag.
pub open spec fn open_tag() -> Seq<char> {
    seq!['<', 'e', 'v', 'e', 'n', 't', ' ']
}

/// The text that closes an event.
pub open spec fn close_tag() -> Seq<char> {
    seq!['<', '/', 'e', 'v', 'e', 'n', 't', '>']
}

/// What precedes the topic's value in an opening tag.
pub open spec fn topic_attr() -> Seq<char> {
    seq!['t', 'o', 'p', 'i', 'c', '=', '"']
}

/// What precedes the target's value in an opening tag.
pub open spec fn target_attr() -> Seq<char> {
    seq!['t', 'a', 'r', 'g', 'e', 't', '=', '"']
}

/// The value of an attribute in an opening tag: the text after the first occurrence of
/// `attr` (the name, `=` and a quote) up to the next quote.
pub open spec fn attr_value(tag: Seq<char>, attr: Seq<char>) -> Option<Seq<char>> {
    match find_from(tag, attr, 0) {
        None => None,
        Some(k) => match find_from(tag, seq!['"'], k + attr.len()) {
            None => None,
            Some(e) => Some(tag.subrange(k + attr.len(), e)),
        },
    }
}

/// The events of the well-formed tags in `s` at or after `pos`, left to right, stamped
/// with `source`. A tag without `>` is skipped past `<event `; a tag without a topic or
/// without a closing `</event>` is skipped past its `>`. The payload is trimmed.
pub open spec fn parse_from(s: Seq<char>, pos: int, source: Option<Seq<char>>) -> Seq<EventView>
    decreases s.len() + 1 - pos,
    via parse_from_decreases
{
    if pos < 0 || pos > s.len() {
        Seq::empty()
    } else {
        match find_from(s, open_tag(), pos) {
            None => Seq::empty(),
            Some(start) => match find_from(s, seq!['>'], start) {
                None => parse_from(s, start + 7, source),
                Some(gt) => {
                    let tag = s.subrange(start, gt + 1);
                    match attr_value(tag, topic_attr()) {
                        None => parse_from(s, gt + 1, source),
                        Some(topic) => match find_from(s, close_tag(), gt + 1) {
                            None => parse_from(s, gt + 1, source),
                            Some(close) => seq![
                                EventView {
                                    topic,
                                    payload: trim(s.subrange(gt + 1, close)),
                                    source,
                                    target: attr_value(tag, target_attr()),
                                },
                            ] + parse_from(s, close + 8, source),
                        },
                    }
                },
            },
        }
    }
}

#[via_fn]
proof fn parse_from_decreases(s: Seq<char>, pos: int, source: Option<Seq<char>>) {
    if 0 <= pos <= s.len() {
        lemma_find_from(s, open_tag(), pos);
        match find_from(s, open_tag(), pos) {
            None => {},
            Some(start) => {
                lemma_find_from(s, seq!['>'], start);
                match find_from(s, seq!['>'], start) {
                    None => {},
                    Some(gt) => {
                        lemma_find_from(s, close_tag(), gt + 1);
                    },
                }
            },
        }
    }
}

/// The events in `s`, stamped with `source`.
pub open spec fn parse_events(s: Seq<char>, source: Option<Seq<char>>) -> Seq<EventView> {
    parse_from(s, 0, source)
}

fn open_tag_chars() -> (r: Vec<char>)
    ensures
        r@ == open_tag(),
{
    let r = vec!['<', 'e', 'v', 'e', 'n', 't', ' '];
    assert(r@ == open_tag());
    r
}

fn close_tag_chars() -> (r: Vec<char>)
    ensures
        r@ == close_tag(),
{
    let r = vec!['<', '/', 'e', 'v', 'e', 'n', 't', '>'];
    assert(r@ == close_tag());
    r
}

fn topic_attr_chars() -> (r: Vec<char>)
    ensures
        r@ == topic_attr(),
{
    let r = vec!['t', 'o', 'p', 'i', 'c', '=', '"'];
    assert(r@ == topic_attr());
    r
}

fn target_attr_chars() -> (r: Vec<char>)
    ensures
        r@ == target_attr(),
{
    let r = vec!['t', 'a', 'r', 'g', 'e', 't', '=', '"'];
    assert(r@ == target_attr());
    r
}

fn one_char(c: char) -> (r: Vec<char>)
    ensures
        r@ == seq![c],
{
    let r = vec![c];
    assert(r@ == seq![c]);
    r
}

/// A copy of `v[lo..hi]`.
fn slice_chars(v: &Vec<char>, lo: usize, hi: usize) -> (r: Vec<char>)
    requires
        lo <= hi <= v.len(),
    ensures
        r@ == v@.subrange(lo as int, hi as int),
{
    let mut r: Vec<char> = Vec::new();
    let mut i = lo;
    while i < hi
        invariant
            lo <= i <= hi <= v.len(),
            r@ == v@.subrange(lo as int, i as int),
        decreases hi - i,
    {
        r.push(v[i]);
        assert(v@.subrange(lo as int, i + 1) == v@.subrange(lo as int, i as int).push(v@[i as int]));
        i = i + 1;
    }
    r
}

/// The value of the attribute `attr` in `tag`.
fn extract_attr(tag: &Vec<char>, attr: &Vec<char>) -> (r: Option<String>)
    ensures
        r matches Some(v) ==> attr_value(tag@, attr@) == Some(v@),
        r is None ==> attr_value(tag@, attr@) is None,
{
    match find(tag, attr, 0) {
        None => None,
        Some(k) => {
            proof {
                lemma_find_from(tag@, attr@, 0);
                assert(find_from(tag@, attr@, 0) == Some(k as int));
                assert(occurs_at(tag@, attr@, k as int));
            }
            let tag_len = tag.len();
            assert(k + attr@.len() <= tag_len);
            let quote = one_char('"');
            let vs = k + attr.len();
            match find(tag, &quote, vs) {
                None => None,
                Some(e) => {
                    proof {
                        lemma_find_from(tag@, seq!['"'], k + attr.len());
                    }
                    Some(string_of(tag, k + attr.len(), e))
                },
            }
        },
    }
}

/// Extracts events from agent output.
#[derive(Debug)]
pub struct EventParser {
    source: Option<HatId>,
}

impl EventParser {
    /// The hat stamped as source on every parsed event, if any.
    pub closed spec fn source(&self) -> Option<Seq<char>> {
        id_view(self.source)
    }

    /// A parser that stamps no source.
    pub fn new() -> (p: EventParser)
        ensures
            p.source() is None,
    {
        EventParser { source: None }
    }

    /// This parser, stamping `source` on the events it parses.
    pub fn with_source(self, source: &str) -> (p: EventParser)
        ensures
            p.source() == Some(source@),
    {
        EventParser { source: Some(HatId::new(source)) }
    }

    /// The events of the well-formed event tags in `output`, in order, as `parse_events`
    /// describes them.
    pub fn parse(&self, output: &str) -> (r: Vec<Event>)
        ensures
            event_views(r@) == parse_events(output@, self.source()),
    {
        let s = chars_of(output);
        let open = open_tag_chars();
        let close = close_tag_chars();
        let gt_char = one_char('>');
        let topic_pat = topic_attr_chars();
        let target_pat = target_attr_chars();
        let ghost src = self.source();
        let mut events: Vec<Event> = Vec::new();
        let mut pos: usize = 0;
        while pos <= s.len()
            invariant
                s@ == output@,
                open@ == open_tag(),
                close@ == close_tag(),
                gt_char@ == seq!['>'],
                topic_pat@ == topic_attr(),
                target_pat@ == target_attr(),
                src == self.source(),
                event_views(events@) + parse_from(s@, pos as int, src) == parse_from(s@, 0, src),
            decreases s.len() + 1 - pos,
        {
            let ghost before = event_views(events@);
            let start = match find(&s, &open, pos) {
                None => {
                    assert(parse_from(s@, pos as int, src) == Seq::<EventView>::empty());
                    assert(before + Seq::<EventView>::empty() == before);
                    return events;
                },
                Some(k) => k,
            };
            proof {
                lemma_find_from(s@, open_tag(), pos as int);
            }
            let gt = match find(&s, &gt_char, start) {
                None => {
                    pos = start + 7;
                    continue ;
                },
                Some(k) => k,
            };
            proof {
                lemma_find_from(s@, seq!['>'], start as int);
            }
            let tag = slice_chars(&s, start, gt + 1);
            let topic = match extract_attr(&tag, &topic_pat) {
                None => {
                    pos = gt + 1;
                    continue ;
                },
                Some(t) => t,
            };
            let close_at = match find(&s, &close, gt + 1) {
                None => {
                    pos = gt + 1;
                    continue ;
                },
                Some(k) => k,
            };
            proof {
                lemma_find_from(s@, close_tag(), gt + 1);
            }
            let target = extract_attr(&tag, &target_pat);
            let body = slice_chars(&s, gt + 1, close_at);
            let (lo, hi) = trim_bounds(&body);
            let payload = string_of(&body, lo, hi);
            let event = Event {
                topic: Topic::new(topic.as_str()),
                payload,
                source: match &self.source {
                    Some(h) => Some(h.clone()),
                    None => None,
                },
                target: match target {
                    Some(t) => Some(HatId::new(t.as_str())),
                    None => None,
                },
            };
            let ghost ev = event@;
            events.push(event);
            assert(event_views(events@) == before.push(ev));
            assert(parse_from(s@, pos as int, src) == seq![ev] + parse_from(
                s@,
                close_at + 8,
                src,
            ));
            assert(before.push(ev) + parse_from(s@, close_at + 8, src) == before + (seq![ev]
                + parse_from(s@, close_at + 8, src)));
            pos = close_at + 8;
        }
        proof {
            if pos > s.len() {
                assert(parse_from(s@, pos as int, src) == Seq::<EventView>::empty());
                assert(event_views(events@) + Seq::<EventView>::empty() == event_views(events@));
            }
        }
        events
    }

    /// Whether `output` contains the completion promise.
    pub fn contains_promise(output: &str, promise: &str) -> (r: bool)
        ensures
            r == contains_seq(output@, promise@),
    {
        contains(output, promise)
    }
}

/// The tag of an event: `<event topic="T" target="X">P</event>`, without the target
/// attribute when there is no target.
pub open spec fn render(topic: Seq<char>, target: Option<Seq<char>>, payload: Seq<char>) -> Seq<
    char,
> {
    open_tag() + topic_attr() + topic + target_part(target) + seq!['"', '>'] + payload + close_tag()
}

/// The target attribute of a rendered tag, after the topic's value.
pub open spec fn target_part(target: Option<Seq<char>>) -> Seq<char> {
    match target {
        Some(x) => seq!['"', ' '] + target_attr() + x,
        None => Seq::empty(),
    }
}

/// `v` holds none of the characters that end an attribute value or a tag.
pub open spec fn plain_value(v: Seq<char>) -> bool {
    forall|i: int| 0 <= i < v.len() ==> v[i] != '"' && v[i] != '>'
}

proof fn lemma_char_occurs(s: Seq<char>, c: char, j: int)
    ensures
        occurs_at(s, seq![c], j) <==> (0 <= j < s.len() && s[j] == c),
{
    if 0 <= j < s.len() {
        if s[j] == c {
            assert(s.subrange(j, j + 1) =~= seq![c]);
        } else {
            assert(s.subrange(j, j + 1)[0] != seq![c][0]);
        }
    }
}

proof fn lemma_first_char(s: Seq<char>, c: char, from: int, k: int)
    requires
        0 <= from <= k < s.len(),
        s[k] == c,
        forall|j: int| from <= j < k ==> s[j] != c,
    ensures
        find_from(s, seq![c], from) == Some(k),
{
    lemma_char_occurs(s, c, k);
    assert forall|j: int| from <= j < k implies !occurs_at(s, seq![c], j) by {
        lemma_char_occurs(s, c, j);
    }
    lemma_find_from_first(s, seq![c], from, k);
}

/// The opening part of a rendered tag, up to the quote that ends its last value.
pub open spec fn rendered_head(topic: Seq<char>, target: Option<Seq<char>>) -> Seq<char> {
    open_tag() + topic_attr() + topic + target_part(target)
}

#[verifier::rlimit(50)]
proof fn lemma_head_shape(topic: Seq<char>, target: Option<Seq<char>>)
    requires
        plain_value(topic),
        target matches Some(x) ==> plain_value(x),
    ensures
        ({
            let head = rendered_head(topic, target);
            let a: int = 14 + topic.len() as int;
            &&& head.subrange(0, 7) == open_tag()
            &&& head.subrange(7, 14) == topic_attr()
            &&& head.subrange(14, a) == topic
            &&& head[13] == '"'
            &&& topic.len() > 0 ==> head[a - 1] == topic[topic.len() - 1]
            &&& forall|j: int| 0 <= j < head.len() ==> head[j] != '>'
            &&& forall|j: int| 14 <= j < a ==> head[j] != '"'
            &&& forall|j: int|
                0 <= j < head.len() && head[j] == '"' ==> j == 13 || j == a || (target is Some
                    && j == a + 9)
            &&& target is None ==> head.len() == a
            &&& target matches Some(x) ==> {
                &&& head.len() == a + 10 + x.len()
                &&& head[a] == '"'
                &&& head.subrange(a + 2, a + 10) == target_attr()
                &&& head.subrange(a + 10, head.len() as int) == x
                &&& forall|j: int| a + 10 <= j < head.len() ==> head[j] != '"'
            }
        }),
{
    let head = rendered_head(topic, target);
    let mid = target_part(target);
    let a: int = 14 + topic.len() as int;
    assert(head.subrange(0, 7) =~= open_tag());
    assert(head.subrange(7, 14) =~= topic_attr());
    assert(head.subrange(14, a) =~= topic);
    assert forall|j: int| 0 <= j < head.len() implies head[j] != '>' && (head[j] == '"' ==> j
        == 13 || j == a || (target is Some && j == a + 9)) by {
        if j < 7 {
            assert(head[j] == open_tag()[j]);
        } else if j < 14 {
            assert(head[j] == topic_attr()[j - 7]);
        } else if j < a {
            assert(head[j] == topic[j - 14]);
        } else {
            assert(head[j] == mid[j - a]);
            match target {
                Some(x) => {
                    if j - a >= 10 {
                        assert(mid[j - a] == x[j - a - 10]);
                    } else if j - a >= 2 {
                        assert(mid[j - a] == target_attr()[j - a - 2]);
                    }
                },
                None => {},
            }
        }
    }
    assert forall|j: int| 14 <= j < a implies head[j] != '"' by {
        assert(head[j] == topic[j - 14]);
    }
    match target {
        Some(x) => {
            assert(head.subrange(a + 2, a + 10) =~= target_attr());
            assert(head.subrange(a + 10, head.len() as int) =~= x);
            assert forall|j: int| a + 10 <= j < head.len() implies head[j] != '"' by {
                assert(head[j] == mid[j - a]);
                assert(mid[j - a] == x[j - a - 10]);
            }
        },
        None => {},
    }
}

#[verifier::rlimit(50)]
proof fn lemma_head_attrs(topic: Seq<char>, target: Option<Seq<char>>)
    requires
        plain_value(topic),
        forall|i: int| 0 <= i < topic.len() ==> topic[i] != '=',
        target matches Some(x) ==> plain_value(x),
    ensures
        attr_value(rendered_head(topic, target) + seq!['"', '>'], topic_attr()) == Some(topic),
        attr_value(rendered_head(topic, target) + seq!['"', '>'], target_attr()) == target,
{
    lemma_head_shape(topic, target);
    let head = rendered_head(topic, target);
    let tag = head + seq!['"', '>'];
    let a: int = 14 + topic.len() as int;
    let hl = head.len() as int;
    assert forall|j: int| 0 <= j < hl implies tag[j] == head[j] by {}
    assert(tag[hl] == '"');
    assert(tag[hl + 1] == '>');
    // The topic's value.
    assert(tag.subrange(7, 14) =~= head.subrange(7, 14));
    assert forall|j: int| 0 <= j < 7 implies !occurs_at(tag, topic_attr(), j) by {
        assert(tag[j] == head.subrange(0, 7)[j]);
        assert(tag[j + 1] == head.subrange(0, 7)[j + 1] || j + 1 == 7);
        if j == 5 {
            assert(tag.subrange(j, j + 7)[1] != topic_attr()[1]);
        } else {
            assert(tag.subrange(j, j + 7)[0] != topic_attr()[0]);
        }
    }
    lemma_find_from_first(tag, topic_attr(), 0, 7);
    assert(tag[a] == '"');
    assert forall|j: int| 14 <= j < a implies tag[j] != '"' by {}
    lemma_first_char(tag, '"', 14, a);
    assert(tag.subrange(14, a) =~= head.subrange(14, a));
    // The target's value.
    assert forall|j: int|
        0 <= j && (target is None || j < a + 2) implies !occurs_at(tag, target_attr(), j) by {
        if occurs_at(tag, target_attr(), j) {
            let w = tag.subrange(j, j + 8);
            assert(w[7] == target_attr()[7]);
            assert(w[6] == target_attr()[6]);
            assert(w[0] == target_attr()[0]);
            assert(tag[j + 7] == '"');
            assert(tag[j + 6] == '=');
            assert(tag[j] == 't');
            if j + 7 == 13 {
                assert(head.subrange(0, 7)[6] == ' ');
            } else if j + 7 == a {
                if topic.len() > 0 {
                    assert(topic[topic.len() - 1] != '=');
                }
            }
        }
    }
    match target {
        Some(x) => {
            assert(tag.subrange(a + 2, a + 10) =~= head.subrange(a + 2, a + 10));
            lemma_find_from_first(tag, target_attr(), 0, a + 2);
            assert forall|j: int| a + 10 <= j < hl implies tag[j] != '"' by {}
            lemma_first_char(tag, '"', a + 10, hl);
            assert(tag.subrange(a + 10, hl) =~= head.subrange(a + 10, hl));
        },
        None => {
            lemma_find_from(tag, target_attr(), 0);
        },
    }
}

#[verifier::rlimit(50)]
proof fn lemma_render_tag_end(topic: Seq<char>, target: Option<Seq<char>>, payload: Seq<char>)
    requires
        plain_value(topic),
        target matches Some(x) ==> plain_value(x),
    ensures
        ({
            let s = render(topic, target, payload);
            let hl = rendered_head(topic, target).len() as int;
            &&& find_from(s, open_tag(), 0) == Some(0int)
            &&& find_from(s, seq!['>'], 0) == Some(hl + 1)
            &&& s.subrange(0, hl + 2) == rendered_head(topic, target) + seq!['"', '>']
        }),
{
    lemma_head_shape(topic, target);
    let head = rendered_head(topic, target);
    let tag = head + seq!['"', '>'];
    let s = render(topic, target, payload);
    let hl = head.len() as int;
    assert(s =~= tag + payload + close_tag());
    assert(s.subrange(0, 7) =~= head.subrange(0, 7));
    lemma_find_from_first(s, open_tag(), 0, 0);
    assert forall|j: int| 0 <= j < hl + 1 implies s[j] != '>' by {
        if j < hl {
            assert(s[j] == head[j]);
        } else {
            assert(s[j] == tag[j]);
        }
    }
    assert(s[hl + 1] == tag[hl + 1]);
    lemma_first_char(s, '>', 0, hl + 1);
    assert(s.subrange(0, hl + 2) =~= tag);
}

#[verifier::rlimit(50)]
proof fn lemma_render_close(topic: Seq<char>, target: Option<Seq<char>>, payload: Seq<char>)
    requires
        !contains_seq(payload, close_tag()),
    ensures
        ({
            let s = render(topic, target, payload);
            let hl = rendered_head(topic, target).len() as int;
            let c = hl + 2 + payload.len();
            &&& s.len() == c + 8
            &&& find_from(s, close_tag(), hl + 2) == Some(c)
            &&& s.subrange(hl + 2, c) == payload
        }),
{
    let head = rendered_head(topic, target);
    let tag = head + seq!['"', '>'];
    let s = render(topic, target, payload);
    let hl = head.len() as int;
    let c = hl + 2 + payload.len();
    assert(s =~= tag + payload + close_tag());
    assert(s.subrange(c, c + 8) =~= close_tag());
    assert forall|j: int| hl + 2 <= j < c implies !occurs_at(s, close_tag(), j) by {
        if occurs_at(s, close_tag(), j) {
            if j + 8 <= c {
                assert(s.subrange(j, j + 8) =~= payload.subrange(j - hl - 2, j - hl + 6));
                assert(occurs_at(payload, close_tag(), j - hl - 2));
            } else {
                let w = s.subrange(j, j + 8);
                assert(w[c - j] == close_tag()[c - j]);
                assert(s[c] == close_tag()[0]);
            }
        }
    }
    lemma_find_from_first(s, close_tag(), hl + 2, c);
    assert(s.subrange(hl + 2, c) =~= payload);
}

/// Round trip: parsing a rendered tag gives back its event, with the payload trimmed, when
/// the topic and target hold no quote or `>`, the topic no `=`, and the payload no `</event>`.
#[verifier::rlimit(100)]
pub proof fn lemma_parse_render(
    topic: Seq<char>,
    target: Option<Seq<char>>,
    payload: Seq<char>,
    source: Option<Seq<char>>,
)
    requires
        plain_value(topic),
        forall|i: int| 0 <= i < topic.len() ==> topic[i] != '=',
        target matches Some(x) ==> plain_value(x),
        !contains_seq(payload, close_tag()),
    ensures
        parse_events(render(topic, target, payload), source) == seq![
            EventView { topic, payload: trim(payload), source, target },
        ],
{
    lemma_head_attrs(topic, target);
    lemma_render_tag_end(topic, target, payload);
    lemma_render_close(topic, target, payload);
    let s = render(topic, target, payload);
    let hl = rendered_head(topic, target).len() as int;
    let c = hl + 2 + payload.len();
    let ev = EventView { topic, payload: trim(payload), source, target };
    assert(parse_from(s, c + 8, source) == Seq::<EventView>::empty());
    assert(parse_from(s, 0, source) == seq![ev] + parse_from(s, c + 8, source));
    assert(seq![ev] + Seq::<EventView>::empty() =~= seq![ev]);
}

} // verus!
