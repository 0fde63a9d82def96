//! Events routed between hats.

use crate::hat::HatId;
use crate::topic::Topic;
use vstd::prelude::*;

verus! {

/// An event as plain values.
pub struct EventView {
    pub topic: Seq<char>,
    pub payload: Seq<char>,
    pub source: Option<Seq<char>>,
    pub target: Option<Seq<char>>,
}

/// The view of an optional hat id.
pub open spec fn id_view(id: Option<HatId>) -> Option<Seq<char>> {
    match id {
        Some(h) => Some(h@),
        None => None,
    }
}

/// A topic-tagged message, possibly naming the hat that sent it and the hat it is for.
#[derive(Debug)]
pub struct Event {
    /// The topic the event is published on.
    pub topic: Topic,
    /// The message body.
    pub payload: String,
    /// The hat that published the event, if any.
    pub source: Option<HatId>,
    /// The only hat that should receive the event, if any.
    pub target: Option<HatId>,
}

impl View for Event {
    type V = EventView;

    open spec fn view(&self) -> EventView {
        EventView {
            topic: self.topic@,
            payload: self.payload@,
            source: id_view(self.source),
            target: id_view(self.target),
        }
    }
}

fn clone_id(id: &Option<HatId>) -> (r: Option<HatId>)
    ensures
        r == *id,
{
    match id {
        Some(h) => Some(h.clone()),
        None => None,
    }
}

impl Clone for Event {
    fn clone(&self) -> (r: Self)
        ensures
            r == *self,
    {
        Event {
            topic: self.topic.clone(),
            payload: self.payload.clone(),
            source: clone_id(&self.source),
            target: clone_id(&self.target),
        }
    }
}

impl Event {
    /// An event on `topic` with `payload`, without source or target.
    pub fn new(topic: &str, payload: &str) -> (e: Event)
        ensures
            e@ == (EventView { topic: topic@, payload: payload@, source: None, target: None }),
    {
        Event { topic: Topic::new(topic), payload: payload.to_owned(), source: None, target: None }
    }

    /// This event, sent by the hat `source`.
    pub fn with_source(self, source: &str) -> (e: Event)
        ensures
            e@ == (EventView { source: Some(source@), ..self@ }),
    {
        let mut e = self;
        e.source = Some(HatId::new(source));
        e
    }

    /// This event, meant for the hat `target` only.
    pub fn with_target(self, target: &str) -> (e: Event)
        ensures
            e@ == (EventView { target: Some(target@), ..self@ }),
    {
        let mut e = self;
        e.target = Some(HatId::new(target));
        e
    }
}

/// The views of a list of events.
pub open spec fn event_views(es: Seq<Event>) -> Seq<EventView> {
    es.map_values(|e: Event| e@)
}

} // verus!
