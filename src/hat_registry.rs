//! The hats configured for a run, in registration order.

use crate::config::RalphConfig;
use crate::event_bus::unique_ids;
use crate::hat::{Hat, HatId, HatView};
use crate::text::views;
use vstd::prelude::*;

verus! {

/// Why a hat could not be added to a registry.
#[derive(Debug, Clone, Copy, PartialEq, Eq, Structural)]
pub enum RegistryError {
    /// A hat with the same id is already registered.
    DuplicateHat,
}

/// The ids that a configuration gives its hats, as hats with nothing else.
pub open spec fn configured_ids(config: RalphConfig) -> Seq<HatView> {
    Seq::new(
        config.hats@.len(),
        |i: int|
            HatView {
                id: config.hats@[i].0@,
                name: Seq::empty(),
                subscriptions: Seq::empty(),
                publishes: Seq::empty(),
                instructions: Seq::empty(),
            },
    )
}

/// The configured hats, ids unique, in registration order.
#[derive(Debug)]
pub struct HatRegistry {
    hats: Vec<Hat>,
}

impl View for HatRegistry {
    type V = Seq<HatView>;

    closed spec fn view(&self) -> Seq<HatView> {
        self.hats@.map_values(|h: Hat| h@)
    }
}

impl HatRegistry {
    /// An empty registry.
    pub fn new() -> (r: HatRegistry)
        ensures
            r@.len() == 0,
    {
        let r = HatRegistry { hats: Vec::new() };
        assert(r@ =~= Seq::empty());
        r
    }

    /// Adds `hat` after the hats already registered; a duplicate id is refused.
    pub fn register(&mut self, hat: Hat) -> (r: Result<(), RegistryError>)
        requires
            unique_ids(old(self)@),
        ensures
            unique_ids(final(self)@),
            r is Err <==> exists|i: int| 0 <= i < old(self)@.len() && old(self)@[i].id == hat@.id,
            r is Ok ==> final(self)@ == old(self)@.push(hat@),
            r is Err ==> final(self)@ == old(self)@,
    {
        let mut i: usize = 0;
        while i < self.hats.len()
            invariant
                i <= self.hats.len(),
                self@ == old(self)@,
                unique_ids(old(self)@),
                self@.len() == self.hats.len(),
                forall|k: int| 0 <= k < i ==> self@[k].id != hat@.id,
            decreases self.hats.len() - i,
        {
            assert(self.hats@[i as int]@ == self@[i as int]);
            if self.hats[i].id.same(&hat.id) {
                return Err(RegistryError::DuplicateHat);
            }
            i = i + 1;
        }
        let ghost hv = hat@;
        self.hats.push(hat);
        assert(self@ =~= old(self)@.push(hv));
        Ok(())
    }

    /// The registry of the hats that `config` defines, in its order.
    pub fn from_config(config: &RalphConfig) -> (r: Result<HatRegistry, RegistryError>)
        ensures
            r matches Ok(reg) ==> {
                &&& unique_ids(reg@)
                &&& reg@.len() == config.hats@.len()
                &&& forall|i: int|
                    0 <= i < reg@.len() ==> {
                        &&& (#[trigger] reg@[i]).id == config.hats@[i].0@
                        &&& reg@[i].name == config.hats@[i].1.name@
                        &&& reg@[i].subscriptions == views(config.hats@[i].1.subscriptions@)
                        &&& reg@[i].publishes == views(config.hats@[i].1.publishes@)
                        &&& reg@[i].instructions == config.hats@[i].1.instructions@
                    }
            },
            r is Err <==> !unique_ids(configured_ids(*config)),
    {
        let ghost ids = configured_ids(*config);
        let mut reg = HatRegistry::new();
        let mut i: usize = 0;
        while i < config.hats.len()
            invariant
                i <= config.hats.len(),
                ids.len() == config.hats@.len(),
                ids == configured_ids(*config),
                unique_ids(reg@),
                unique_ids(ids.take(i as int)),
                reg@.len() == i,
                forall|k: int|
                    0 <= k < i ==> {
                        &&& (#[trigger] reg@[k]).id == config.hats@[k].0@
                        &&& reg@[k].name == config.hats@[k].1.name@
                        &&& reg@[k].subscriptions == views(config.hats@[k].1.subscriptions@)
                        &&& reg@[k].publishes == views(config.hats@[k].1.publishes@)
                        &&& reg@[k].instructions == config.hats@[k].1.instructions@
                    },
            decreases config.hats.len() - i,
        {
            let (id, hc) = &config.hats[i];
            let hat = Hat {
                id: HatId::new(id.as_str()),
                name: hc.name.clone(),
                subscriptions: hc.subscription_topics(),
                publishes: hc.publish_topics(),
                instructions: hc.instructions.clone(),
            };
            let ghost before = reg@;
            match reg.register(hat) {
                Ok(()) => {
                    let ghost t = ids.take(i + 1);
                    assert forall|a: int, b: int|
                        0 <= a < t.len() && 0 <= b < t.len() && a != b implies #[trigger] t[a].id
                        != #[trigger] t[b].id by {
                        if a < i && b < i {
                            assert(ids.take(i as int)[a].id != ids.take(i as int)[b].id);
                        } else if a == i {
                            assert(before[b].id == ids[b].id);
                        } else {
                            assert(before[a].id == ids[a].id);
                        }
                    }
                    assert(unique_ids(ids.take(i + 1)));
                },
                Err(e) => {
                    proof {
                        let k = choose|k: int| 0 <= k < before.len() && before[k].id == id@;
                        assert(ids[k].id == ids[i as int].id);
                        assert(!unique_ids(ids));
                    }
                    return Err(e);
                },
            }
            i = i + 1;
        }
        assert(ids.take(config.hats.len() as int) == ids);
        Ok(reg)
    }

    /// Whether no hat is registered.
    pub fn is_empty(&self) -> (r: bool)
        ensures
            r == (self@.len() == 0),
    {
        self.hats.len() == 0
    }

    /// The number of registered hats.
    pub fn len(&self) -> (r: usize)
        ensures
            r == self@.len(),
    {
        self.hats.len()
    }

    /// The registered hats, in registration order.
    pub fn all(&self) -> (r: &Vec<Hat>)
        ensures
            r@.map_values(|h: Hat| h@) == self@,
    {
        &self.hats
    }
}

} // verus!
