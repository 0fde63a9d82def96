//! Incremental reading of the append-only JSONL event log.
//!
//! The reader keeps the byte offset up to which the log has been consumed. The bytes
//! found past that offset are framed here into lines; decoding each line as a record is
//! left to the caller, which skips the lines that do not decode.

use vstd::prelude::*;

verus! {

/// A record of the event log.
#[derive(Debug)]
pub struct Event {
    /// The topic of the event.
    pub topic: String,
    /// The message body, when present.
    pub payload: Option<String>,
    /// The timestamp, as written in the log.
    pub ts: String,
}

impl Clone for Event {
    fn clone(&self) -> (r: Self)
        ensures
            r == *self,
    {
        Event {
            topic: self.topic.clone(),
            payload: match &self.payload {
                Some(p) => Some(p.clone()),
                None => None,
            },
            ts: self.ts.clone(),
        }
    }
}

impl Event {
    /// A record with the given fields.
    pub fn new(topic: &str, payload: Option<&str>, ts: &str) -> (e: Event)
        ensures
            e.topic@ == topic@,
            e.ts@ == ts@,
            payload is None ==> e.payload is None,
            payload matches Some(p) ==> e.payload matches Some(q) && q@ == p@,
    {
        Event {
            topic: topic.to_owned(),
            payload: match payload {
                Some(p) => Some(p.to_owned()),
                None => None,
            },
            ts: ts.to_owned(),
        }
    }
}

/// The ASCII characters with the Unicode `White_Space` property.
pub open spec fn is_blank_byte(b: u8) -> bool {
    (9 <= b <= 13) || b == 32
}

/// A line that is empty once trimmed of whitespace.
pub open spec fn blank_line(line: Seq<u8>) -> bool {
    forall|i: int| 0 <= i < line.len() ==> is_blank_byte(#[trigger] line[i])
}

/// The index of the first newline at or after `i`, or the length of `s` when there is none.
pub open spec fn line_end_from(s: Seq<u8>, i: int) -> int
    decreases s.len() - i,
{
    if i < 0 || i >= s.len() {
        s.len() as int
    } else if s[i] == 10 {
        i
    } else {
        line_end_from(s, i + 1)
    }
}

proof fn lemma_line_end_from(s: Seq<u8>, i: int)
    requires
        0 <= i <= s.len(),
    ensures
        i <= line_end_from(s, i) <= s.len(),
        line_end_from(s, i) < s.len() ==> s[line_end_from(s, i)] == 10,
        forall|j: int| i <= j < line_end_from(s, i) ==> s[j] != 10,
    decreases s.len() - i,
{
    if i < s.len() && s[i] != 10 {
        lemma_line_end_from(s, i + 1);
    }
}

/// The lines of `s` that start at or after the line start `i` and are not blank, in order.
/// A line ends at a newline, or at the end of `s`.
pub open spec fn kept_from(s: Seq<u8>, i: int) -> Seq<Seq<u8>>
    decreases s.len() + 1 - i,
    via kept_from_decreases
{
    if i < 0 || i >= s.len() {
        Seq::empty()
    } else {
        let k = line_end_from(s, i);
        let line = s.subrange(i, k);
        if blank_line(line) {
            kept_from(s, k + 1)
        } else {
            seq![line] + kept_from(s, k + 1)
        }
    }
}

#[via_fn]
proof fn kept_from_decreases(s: Seq<u8>, i: int) {
    if 0 <= i < s.len() {
        lemma_line_end_from(s, i);
    }
}

/// The non-blank lines of `tail`, in order.
pub open spec fn kept_lines(tail: Seq<u8>) -> Seq<Seq<u8>> {
    kept_from(tail, 0)
}

/// The bytes that reading `tail` accounts for: each line counts its length and one
/// newline, so a last line without a newline counts one byte more than it has.
pub open spec fn consumed(tail: Seq<u8>) -> nat {
    if tail.len() == 0 {
        0
    } else if tail.last() == 10 {
        tail.len()
    } else {
        tail.len() + 1
    }
}

/// The bytes of `log` past the offset `position`.
pub open spec fn tail_at(log: Seq<u8>, position: int) -> Seq<u8> {
    if position >= log.len() {
        Seq::empty()
    } else {
        log.subrange(position, log.len() as int)
    }
}

/// The views of a list of byte vectors.
pub open spec fn byte_views(v: Seq<Vec<u8>>) -> Seq<Seq<u8>> {
    v.map_values(|x: Vec<u8>| x@)
}

/// Reads the records appended to the event log since the last read.
#[derive(Debug)]
pub struct EventReader {
    path: String,
    position: u64,
}

impl EventReader {
    /// The log's path.
    pub closed spec fn path_view(&self) -> Seq<char> {
        self.path@
    }

    /// The offset up to which the log has been consumed.
    pub closed spec fn position_view(&self) -> u64 {
        self.position
    }

    /// A reader of the log at `path`, at offset zero.
    pub fn new(path: &str) -> (r: EventReader)
        ensures
            r.path_view() == path@,
            r.position_view() == 0,
    {
        EventReader { path: path.to_owned(), position: 0 }
    }

    /// The log's path.
    pub fn path(&self) -> (r: &str)
        ensures
            r@ == self.path_view(),
    {
        self.path.as_str()
    }

    /// The offset up to which the log has been consumed.
    pub fn position(&self) -> (r: u64)
        ensures
            r == self.position_view(),
    {
        self.position
    }

    /// Sets the offset back to the start of the log.
    pub fn reset(&mut self)
        ensures
            final(self).position_view() == 0,
            final(self).path_view() == old(self).path_view(),
    {
        self.position = 0;
    }

    /// Consumes `tail`, the bytes of the log past the current offset: returns its
    /// non-blank lines in order and advances the offset past every line, blank or not.
    pub fn take_lines(&mut self, tail: &[u8]) -> (r: Vec<Vec<u8>>)
        requires
            old(self).position_view() + tail@.len() + 1 <= u64::MAX,
        ensures
            byte_views(r@) == kept_lines(tail@),
            final(self).position_view() == old(self).position_view() + consumed(tail@),
            final(self).path_view() == old(self).path_view(),
    {
        let n = tail.len();
        let mut lines: Vec<Vec<u8>> = Vec::new();
        let mut i: usize = 0;
        let mut counted: u64 = 0;
        while i < n
            invariant
                n == tail@.len(),
                i <= n,
                old(self).position_view() + n + 1 <= u64::MAX,
                counted == if i == n && n > 0 && tail@[n - 1] != 10 {
                    n + 1
                } else {
                    i as int
                },
                0 < i < n ==> tail@[i - 1] == 10,
                byte_views(lines@) + kept_from(tail@, i as int) == kept_from(tail@, 0),
            decreases n - i,
        {
            let ghost before = byte_views(lines@);
            let mut k = i;
            let mut line: Vec<u8> = Vec::new();
            let mut blank = true;
            while k < n && tail[k] != 10
                invariant
                    n == tail@.len(),
                    i <= k <= n,
                    forall|j: int| i <= j < k ==> tail@[j] != 10,
                    line@ == tail@.subrange(i as int, k as int),
                    blank == blank_line(line@),
                decreases n - k,
            {
                let b = tail[k];
                line.push(b);
                blank = blank && ((9 <= b && b <= 13) || b == 32);
                proof {
                    let l = tail@.subrange(i as int, k + 1);
                    assert(l == tail@.subrange(i as int, k as int).push(b));
                    if blank {
                        assert forall|j: int| 0 <= j < l.len() implies is_blank_byte(
                            #[trigger] l[j],
                        ) by {
                            if j < l.len() - 1 {
                                assert(l[j] == tail@.subrange(i as int, k as int)[j]);
                            }
                        }
                    } else {
                        if !is_blank_byte(b) {
                            assert(!is_blank_byte(l[l.len() - 1]));
                        } else {
                            let j = choose|j: int|
                                0 <= j < k - i && !is_blank_byte(
                                    #[trigger] tail@.subrange(i as int, k as int)[j],
                                );
                            assert(l[j] == tail@.subrange(i as int, k as int)[j]);
                        }
                    }
                }
                k = k + 1;
            }
            proof {
                lemma_line_end_from(tail@, i as int);
                assert(line_end_from(tail@, i as int) == k) by {
                    lemma_line_end_from(tail@, i as int);
                    let e = line_end_from(tail@, i as int);
                    if e < k {
                        assert(tail@[e] == 10);
                    }
                    if k < e {
                        assert(tail@[k as int] == 10);
                    }
                }
            }
            if !blank {
                lines.push(line);
                assert(byte_views(lines@) == before.push(tail@.subrange(i as int, k as int)));
                assert(before.push(tail@.subrange(i as int, k as int)) + kept_from(tail@, k + 1)
                    == before + (seq![tail@.subrange(i as int, k as int)] + kept_from(
                    tail@,
                    k + 1,
                )));
            }
            counted = counted + (k - i) as u64 + 1;
            if k < n {
                i = k + 1;
            } else {
                assert(kept_from(tail@, k + 1) == Seq::<Seq<u8>>::empty());
                assert(kept_from(tail@, k as int) == Seq::<Seq<u8>>::empty());
                i = n;
            }
        }
        assert(kept_from(tail@, i as int) == Seq::<Seq<u8>>::empty());
        assert(byte_views(lines@) + Seq::<Seq<u8>>::empty() == byte_views(lines@));
        self.position = self.position + counted;
        lines
    }
}

/// Monotonicity: consuming any tail never moves the offset back.
pub proof fn lemma_position_monotonic(position: nat, tail: Seq<u8>)
    ensures
        position + consumed(tail) >= position,
{
}

/// Idempotence: once the bytes past the offset are consumed, the log holds nothing past
/// the new offset until it grows, so a further read yields no line.
pub proof fn lemma_read_idempotent(log: Seq<u8>, position: nat)
    ensures
        ({
            let next = (position + consumed(tail_at(log, position as int))) as int;
            &&& tail_at(log, next) == Seq::<u8>::empty()
            &&& kept_lines(tail_at(log, next)) == Seq::<Seq<u8>>::empty()
        }),
{
    let t = tail_at(log, position as int);
    if position < log.len() {
        assert(t.len() == log.len() - position);
    }
}

} // verus!
