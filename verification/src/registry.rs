//! Services found by name: each registry holds at most one service per name, a
//! later registration replacing an earlier one, and lists its names in order.

use vstd::prelude::*;
use crate::json::{first_index, lookup, entries_insert, entry_keys, lemma_first_index, lemma_lookup_insert};
use crate::services::{lex_lt, sorted_strictly, insert_sorted, lemma_lex_irreflexive};
use crate::text::{views, str_eq};

verus! {

/// A service with a name.
pub trait Named: Sized {
    spec fn spec_name(&self) -> Seq<char>;

    fn name(&self) -> (r: String)
        ensures
            r@ == self.spec_name(),
    ;
}

/// Services by name.
pub struct Registry<S: Named> {
    services: Vec<S>,
}

/// Whether no two entries share a key.
pub open spec fn keys_unique<V>(es: Seq<(Seq<char>, V)>) -> bool {
    forall|i: int, j: int| 0 <= i < j < es.len() ==> #[trigger] es[i].0 != #[trigger] es[j].0
}

impl<S: Named> Registry<S> {
    /// The services with their names, in registration order.
    pub closed spec fn entries(&self) -> Seq<(Seq<char>, S)> {
        self.services@.map_values(|s: S| (s.spec_name(), s))
    }

    #[verifier::type_invariant]
    closed spec fn names_unique(&self) -> bool {
        keys_unique(self.entries())
    }

    /// An empty registry.
    pub fn new() -> (r: Self)
        ensures
            r.entries() == Seq::<(Seq<char>, S)>::empty(),
    {
        let r = Registry { services: Vec::new() };
        assert(r.entries() =~= Seq::<(Seq<char>, S)>::empty());
        r
    }

    /// Registers a service under its name, replacing one of the same name.
    pub fn register(&mut self, service: S)
        ensures
            final(self).entries() == entries_insert(old(self).entries(), service.spec_name(), service),
    {
        proof {
            use_type_invariant(&*self);
        }
        let ghost es = self.entries();
        let name = service.name();
        let ghost sv = service;
        let mut i: usize = 0;
        while i < self.services.len()
            invariant
                es == self.entries(),
                es.len() == self.services@.len(),
                keys_unique(es),
                name@ == sv.spec_name(),
                sv == service,
                es == old(self).entries(),
                i <= self.services@.len(),
                forall|k: int| 0 <= k < i ==> #[trigger] es[k].0 != name@,
            decreases self.services@.len() - i,
        {
            let n = self.services[i].name();
            if str_eq(n.as_str(), name.as_str()) {
                proof {
                    crate::json::lemma_first_index_is(es, name@, i as int);
                }
                let ghost old_svc = self.services@;
                let mut services: Vec<S> = Vec::new();
                std::mem::swap(&mut services, &mut self.services);
                services.set(i, service);
                proof {
                    assert(services@ == old_svc.update(i as int, sv));
                    assert(es == old_svc.map_values(|s: S| (s.spec_name(), s)));
                    let ns = services@.map_values(|s: S| (s.spec_name(), s));
                    assert(ns =~= es.update(i as int, (name@, sv)));
                    assert(keys_unique(ns)) by {
                        assert forall|a: int, b: int| 0 <= a < b < ns.len() implies #[trigger] ns[a].0 != #[trigger] ns[b].0 by {
                            if a != i && b != i {
                                assert(es[a].0 != es[b].0);
                            } else if a == i {
                                assert(es[b].0 != es[i as int].0);
                            } else {
                                assert(es[a].0 != es[i as int].0);
                            }
                        }
                    }
                }
                self.services = services;
                return ;
            }
            i = i + 1;
        }
        proof {
            crate::json::lemma_first_index_none(es, name@);
        }
        let mut services: Vec<S> = Vec::new();
        std::mem::swap(&mut services, &mut self.services);
        services.push(service);
        proof {
            let ns = services@.map_values(|s: S| (s.spec_name(), s));
            assert(ns =~= es.push((name@, sv)));
        }
        self.services = services;
    }

    /// The service registered under `name`.
    pub fn get(&self, name: &str) -> (r: Option<&S>)
        ensures
            match r {
                Some(s) => lookup(self.entries(), name@) == Some(*s),
                None => lookup(self.entries(), name@) is None,
            },
    {
        let ghost es = self.entries();
        let mut i: usize = 0;
        while i < self.services.len()
            invariant
                es == self.entries(),
                es.len() == self.services@.len(),
                i <= self.services@.len(),
                forall|k: int| 0 <= k < i ==> #[trigger] es[k].0 != name@,
            decreases self.services@.len() - i,
        {
            let n = self.services[i].name();
            if str_eq(n.as_str(), name) {
                proof {
                    crate::json::lemma_first_index_is(es, name@, i as int);
                }
                return Some(&self.services[i]);
            }
            i = i + 1;
        }
        proof {
            crate::json::lemma_first_index_none(es, name@);
        }
        None
    }

    /// The names of the services, in increasing order.
    pub fn list(&self) -> (r: Vec<String>)
        ensures
            sorted_strictly(views(r@)),
            views(r@).to_set() == entry_keys(self.entries()).to_set(),
            r@.len() == self.entries().len(),
    {
        proof {
            use_type_invariant(self);
        }
        let ghost es = self.entries();
        let ghost keys = entry_keys(es);
        let mut out: Vec<String> = Vec::new();
        let mut i: usize = 0;
        proof {
            assert(views(out@).to_set() =~= keys.take(0).to_set());
        }
        while i < self.services.len()
            invariant
                es == self.entries(),
                keys == entry_keys(es),
                es.len() == self.services@.len(),
                keys_unique(es),
                i <= self.services@.len(),
                sorted_strictly(views(out@)),
                views(out@).to_set() == keys.take(i as int).to_set(),
                out@.len() == i,
            decreases self.services@.len() - i,
        {
            let n = self.services[i].name();
            proof {
                assert(keys[i as int] == n@);
                if views(out@).contains(n@) {
                    assert(views(out@).to_set().contains(n@));
                    assert(keys.take(i as int).to_set().contains(n@));
                    let k = choose|k: int| 0 <= k < i && keys.take(i as int)[k] == n@;
                    assert(es[k].0 == es[i as int].0);
                }
            }
            insert_sorted(&mut out, n);
            proof {
                assert(keys.take(i + 1) =~= keys.take(i as int).push(n@));
                keys.take(i as int).lemma_push_to_set_commute(n@);
            }
            i = i + 1;
        }
        assert(keys.take(self.services@.len() as int) =~= keys);
        out
    }

    /// The number of services.
    pub fn len(&self) -> (r: usize)
        ensures
            r == self.entries().len(),
    {
        self.services.len()
    }
}

/// After a registration the new service is found under its name, and every other
/// name finds what it found before.
pub proof fn law_register_then_get<S: Named>(es: Seq<(Seq<char>, S)>, s: S, name: Seq<char>)
    ensures
        lookup(entries_insert(es, s.spec_name(), s), name) == (if name == s.spec_name() {
            Some(s)
        } else {
            lookup(es, name)
        }),
{
    lemma_lookup_insert(es, s.spec_name(), s, name);
}

} // verus!
