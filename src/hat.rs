//! Hats: the personas that the agent wears for one iteration.

use crate::topic::{pattern_matches, Topic};
use vstd::prelude::*;

verus! {

/// Unique identifier of a hat.
#[derive(Debug)]
pub struct HatId(String);

impl View for HatId {
    type V = Seq<char>;

    closed spec fn view(&self) -> Seq<char> {
        self.0@
    }
}

impl Clone for HatId {
    fn clone(&self) -> (r: Self)
        ensures
            r == *self,
    {
        HatId(self.0.clone())
    }
}

impl PartialEq for HatId {
    fn eq(&self, other: &HatId) -> (r: bool) {
        self.0 == other.0
    }
}

impl vstd::std_specs::cmp::PartialEqSpecImpl for HatId {
    open spec fn obeys_eq_spec() -> bool {
        true
    }

    open spec fn eq_spec(&self, other: &HatId) -> bool {
        self@ == other@
    }
}

impl HatId {
    /// An identifier with the given text.
    pub fn new(id: &str) -> (r: HatId)
        ensures
            r@ == id@,
    {
        HatId(id.to_owned())
    }

    /// The identifier's text.
    pub fn as_str(&self) -> (r: &str)
        ensures
            r@ == self@,
    {
        self.0.as_str()
    }

    /// Whether two identifiers have the same text.
    pub fn same(&self, other: &HatId) -> (r: bool)
        ensures
            r == (self@ == other@),
    {
        self.0 == other.0
    }
}

/// The names of a list of topics.
pub open spec fn topic_views(ts: Seq<Topic>) -> Seq<Seq<char>> {
    ts.map_values(|t: Topic| t@)
}

/// Some pattern of `subscriptions` matches `topic`.
pub open spec fn subscribed(subscriptions: Seq<Seq<char>>, topic: Seq<char>) -> bool {
    exists|i: int| 0 <= i < subscriptions.len() && pattern_matches(#[trigger] subscriptions[i], topic)
}

/// A hat as plain values.
pub struct HatView {
    pub id: Seq<char>,
    pub name: Seq<char>,
    pub subscriptions: Seq<Seq<char>>,
    pub publishes: Seq<Seq<char>>,
    pub instructions: Seq<char>,
}

/// A hat (persona) that defines the agent's behaviour for an iteration.
#[derive(Debug)]
pub struct Hat {
    /// Unique identifier for this hat.
    pub id: HatId,
    /// Human-readable name for the hat.
    pub name: String,
    /// Topic patterns this hat subscribes to.
    pub subscriptions: Vec<Topic>,
    /// Topics this hat is expected to publish.
    pub publishes: Vec<Topic>,
    /// Instructions prepended to prompts for this hat.
    pub instructions: String,
}

impl View for Hat {
    type V = HatView;

    open spec fn view(&self) -> HatView {
        HatView {
            id: self.id@,
            name: self.name@,
            subscriptions: topic_views(self.subscriptions@),
            publishes: topic_views(self.publishes@),
            instructions: self.instructions@,
        }
    }
}

/// A copy of a list of topics.
pub fn clone_topics(ts: &Vec<Topic>) -> (r: Vec<Topic>)
    ensures
        r@ == ts@,
{
    let mut r: Vec<Topic> = Vec::new();
    let mut i: usize = 0;
    while i < ts.len()
        invariant
            i <= ts.len(),
            r@ == ts@.take(i as int),
        decreases ts.len() - i,
    {
        r.push(ts[i].clone());
        assert(ts@.take(i + 1) == ts@.take(i as int).push(ts@[i as int]));
        i = i + 1;
    }
    assert(ts@.take(ts.len() as int) == ts@);
    r
}

impl Clone for Hat {
    fn clone(&self) -> (r: Self)
        ensures
            r@ == self@,
    {
        Hat {
            id: self.id.clone(),
            name: self.name.clone(),
            subscriptions: clone_topics(&self.subscriptions),
            publishes: clone_topics(&self.publishes),
            instructions: self.instructions.clone(),
        }
    }
}

impl Hat {
    /// A hat with the given id and name, no subscriptions, publications or instructions.
    pub fn new(id: &str, name: &str) -> (h: Hat)
        ensures
            h@.id == id@,
            h@.name == name@,
            h@.subscriptions.len() == 0,
            h@.publishes.len() == 0,
            h@.instructions.len() == 0,
    {
        Hat {
            id: HatId::new(id),
            name: name.to_owned(),
            subscriptions: Vec::new(),
            publishes: Vec::new(),
            instructions: String::new(),
        }
    }

    /// The default hat for single-hat mode: id `default`, subscribed to every topic,
    /// publishing `task.done`.
    pub fn default_single() -> (h: Hat)
        ensures
            h@.id == "default"@,
            h@.name == "Default"@,
            h@.subscriptions == seq!["*"@],
            h@.publishes == seq!["task.done"@],
            h@.instructions.len() == 0,
    {
        let mut subscriptions: Vec<Topic> = Vec::new();
        subscriptions.push(Topic::new("*"));
        let mut publishes: Vec<Topic> = Vec::new();
        publishes.push(Topic::new("task.done"));
        let h = Hat {
            id: HatId::new("default"),
            name: "Default".to_owned(),
            subscriptions,
            publishes,
            instructions: String::new(),
        };
        assert(h@.subscriptions == seq!["*"@]);
        assert(h@.publishes == seq!["task.done"@]);
        h
    }

    /// This hat with one more subscription pattern, at the end.
    pub fn subscribe(self, topic: &str) -> (h: Hat)
        ensures
            h@.subscriptions == self@.subscriptions.push(topic@),
            h@.id == self@.id,
            h@.name == self@.name,
            h@.publishes == self@.publishes,
            h@.instructions == self@.instructions,
    {
        let mut h = self;
        h.subscriptions.push(Topic::new(topic));
        assert(h@.subscriptions == self@.subscriptions.push(topic@));
        h
    }

    /// This hat with one more published topic, at the end.
    pub fn publish_topic(self, topic: &str) -> (h: Hat)
        ensures
            h@.publishes == self@.publishes.push(topic@),
            h@.id == self@.id,
            h@.name == self@.name,
            h@.subscriptions == self@.subscriptions,
            h@.instructions == self@.instructions,
    {
        let mut h = self;
        h.publishes.push(Topic::new(topic));
        assert(h@.publishes == self@.publishes.push(topic@));
        h
    }

    /// This hat with the given instructions.
    pub fn with_instructions(self, instructions: &str) -> (h: Hat)
        ensures
            h@.instructions == instructions@,
            h@.id == self@.id,
            h@.name == self@.name,
            h@.subscriptions == self@.subscriptions,
            h@.publishes == self@.publishes,
    {
        let mut h = self;
        h.instructions = instructions.to_owned();
        h
    }

    /// Whether one of this hat's patterns matches `topic`.
    pub fn is_subscribed(&self, topic: &Topic) -> (r: bool)
        ensures
            r == subscribed(self@.subscriptions, topic@),
    {
        let mut i: usize = 0;
        while i < self.subscriptions.len()
            invariant
                i <= self.subscriptions.len(),
                forall|k: int|
                    0 <= k < i ==> !pattern_matches(
                        #[trigger] topic_views(self.subscriptions@)[k],
                        topic@,
                    ),
            decreases self.subscriptions.len() - i,
        {
            if self.subscriptions[i].matches(topic) {
                assert(topic_views(self.subscriptions@)[i as int] == self.subscriptions@[i as int]@);
                return true;
            }
            i = i + 1;
        }
        false
    }
}

} // verus!
