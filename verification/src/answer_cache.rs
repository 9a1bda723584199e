//! A bounded, insertion-ordered cache of answer slots, keyed by random
//! tokens. When the cache outgrows its limit the oldest entries leave.

use vstd::prelude::*;
use std::sync::Arc;
use tokio::sync::Notify;
use crate::notify::{clone_notifier, new_notify};
use crate::token::{generate_token, TOKEN_LENGTH};

verus! {

#[derive(Debug)]
pub enum SlotState {
    Pending,
    Content(String),
}

pub ghost enum SlotStateView {
    Pending,
    Content(Seq<char>),
}

impl View for SlotState {
    type V = SlotStateView;

    open spec fn view(&self) -> SlotStateView {
        match self {
            SlotState::Pending => SlotStateView::Pending,
            SlotState::Content(s) => SlotStateView::Content(s@),
        }
    }
}

impl Clone for SlotState {
    fn clone(&self) -> (r: Self)
        ensures
            r@ == self@,
    {
        match self {
            SlotState::Pending => SlotState::Pending,
            SlotState::Content(s) => SlotState::Content(s.clone()),
        }
    }
}

/// One slot: its notifier and what it holds so far.
#[derive(Debug)]
pub struct Slot {
    pub notify: Arc<Notify>,
    pub state: SlotState,
}

pub ghost struct SlotView {
    pub notify: Arc<Notify>,
    pub state: SlotStateView,
}

impl View for Slot {
    type V = SlotView;

    open spec fn view(&self) -> SlotView {
        SlotView { notify: self.notify, state: self.state@ }
    }
}

impl Clone for Slot {
    fn clone(&self) -> (r: Self)
        ensures
            r@ == self@,
    {
        Slot { notify: clone_notifier(&self.notify), state: self.state.clone() }
    }
}

impl Slot {
    fn new() -> (r: Slot)
        ensures
            r@.state is Pending,
    {
        Slot { notify: new_notify(), state: SlotState::Pending }
    }
}

/// What a lookup finds in the cache.
#[derive(Debug, Clone, PartialEq, Eq)]
pub enum AnswerCacheEntry {
    Text(String),
    Pending,
    Missing,
}

struct CacheEntry {
    token: String,
    slot: Slot,
}

pub ghost struct CacheEntryView {
    pub token: Seq<char>,
    pub slot: SlotView,
}

/// The cache: entries in insertion order, oldest first.
pub struct AnswerCache {
    map: Vec<CacheEntry>,
    limit: usize,
}

impl View for AnswerCache {
    type V = Seq<CacheEntryView>;

    closed spec fn view(&self) -> Seq<CacheEntryView> {
        self.map@.map_values(|e: CacheEntry| CacheEntryView { token: e.token@, slot: e.slot@ })
    }
}

impl AnswerCache {
    pub closed spec fn spec_limit(self) -> usize {
        self.limit
    }

    pub open spec fn wf(self) -> bool {
        forall|a: int, b: int|
            0 <= a < self@.len() && 0 <= b < self@.len() && a != b ==> self@[a].token
                != self@[b].token
    }

    pub open spec fn spec_has(self, t: Seq<char>) -> bool {
        exists|i: int| 0 <= i < self@.len() && self@[i].token == t
    }

    pub open spec fn spec_idx(self, t: Seq<char>) -> int {
        choose|i: int| 0 <= i < self@.len() && self@[i].token == t
    }

    pub open spec fn spec_slot(self, t: Seq<char>) -> SlotView {
        self@[self.spec_idx(t)].slot
    }

    proof fn lemma_found(self, i: int, t: Seq<char>)
        requires
            self.wf(),
            0 <= i < self@.len(),
            self@[i].token == t,
        ensures
            self.spec_has(t),
            self.spec_idx(t) == i,
    {
        assert(self.spec_has(t));
        let j = self.spec_idx(t);
        if j != i {
            assert(self@[j].token == self@[i].token);
        }
    }

    pub fn new() -> (r: AnswerCache)
        ensures
            r@ =~= Seq::<CacheEntryView>::empty(),
            r.wf(),
            r.spec_limit() == 2048,
    {
        AnswerCache { map: Vec::new(), limit: 2048 }
    }

    fn find(&self, token: &str) -> (r: Option<usize>)
        requires
            self.wf(),
        ensures
            match r {
                Some(i) => {
                    &&& i < self@.len()
                    &&& self@[i as int].token == token@
                    &&& self.spec_has(token@)
                    &&& self.spec_idx(token@) == i
                },
                None => !self.spec_has(token@),
            },
    {
        let n = self.map.len();
        let mut i: usize = 0;
        while i < n
            invariant
                self.wf(),
                n == self@.len(),
                i <= n,
                forall|j: int| 0 <= j < i ==> self@[j].token != token@,
            decreases n - i,
        {
            if crate::text::str_eq(self.map[i].token.as_str(), token) {
                proof {
                    self.lemma_found(i as int, token@);
                }
                return Some(i);
            }
            i = i + 1;
        }
        None
    }

    /// Makes a fresh pending slot under a random token and returns the
    /// token; the oldest entries leave when the cache outgrows its limit.
    pub fn reserve_token(&mut self) -> (r: String)
        requires
            old(self).wf(),
        ensures
            final(self).wf(),
            final(self).spec_limit() == old(self).spec_limit(),
            r@.len() == TOKEN_LENGTH,
            ({
                let added = if old(self).spec_has(r@) {
                    old(self)@.update(
                        old(self).spec_idx(r@),
                        CacheEntryView { token: r@, slot: final(self).spec_slot(r@) },
                    )
                } else {
                    old(self)@.push(CacheEntryView { token: r@, slot: final(self).spec_slot(r@) })
                };
                &&& final(self)@ =~= if added.len() > old(self).spec_limit() {
                    added.skip(added.len() - old(self).spec_limit())
                } else {
                    added
                }
                &&& final(self).spec_has(r@) ==> final(self).spec_slot(r@).state is Pending
            }),
    {
        let token = generate_token();
        let slot = Slot::new();
        match self.find(token.as_str()) {
            Some(i) => {
                let ghost oldv = self@;
                let entry = CacheEntry { token: token.clone(), slot };
                self.map.remove(i);
                self.map.insert(i, entry);
                proof {
                    assert(self@ =~= oldv.update(
                        i as int,
                        CacheEntryView { token: token@, slot: self@[i as int].slot },
                    ));
                    self.lemma_found(i as int, token@);
                }
            },
            None => {
                let ghost oldv = self@;
                let entry = CacheEntry { token: token.clone(), slot };
                self.map.push(entry);
                proof {
                    assert(self@ =~= oldv.push(self@[oldv.len() as int]));
                    self.lemma_found(oldv.len() as int, token@);
                    assert forall|a: int, b: int|
                        0 <= a < self@.len() && 0 <= b < self@.len() && a != b implies self@[a]
                        .token != self@[b].token by {
                        if a < oldv.len() && b < oldv.len() {
                        } else if a == oldv.len() {
                            assert(self@[b].token == oldv[b].token);
                        } else {
                            assert(self@[a].token == oldv[a].token);
                        }
                    }
                }
            },
        }
        let ghost added = self@;
        let ghost lim = self.limit;
        while self.map.len() > self.limit
            invariant
                self.limit == lim,
                self@.len() <= added.len(),
                self@ =~= added.skip(added.len() - self@.len()),
                self@.len() > lim ==> self@.len() > 0,
                added.len() > lim ==> self@.len() >= lim,
                added.len() <= lim ==> self@ =~= added,
                self.wf(),
            decreases self@.len(),
        {
            let ghost pre = self@;
            self.map.remove(0);
            proof {
                assert(self@ =~= pre.skip(1));
                assert(self@ =~= added.skip(added.len() - self@.len()));
                assert forall|a: int, b: int|
                    0 <= a < self@.len() && 0 <= b < self@.len() && a != b implies self@[a].token
                    != self@[b].token by {
                    assert(self@[a] == pre[a + 1]);
                    assert(self@[b] == pre[b + 1]);
                }
            }
        }
        proof {
            if self.spec_has(token@) {
                let j = self.spec_idx(token@);
                assert(self@[j].slot.state is Pending) by {
                    assert(self@[j] == added.skip(added.len() - self@.len())[j]);
                }
            }
        }
        token
    }

    /// Stores the text of a reserved token; a token the cache no longer
    /// holds is reported back as `false`.
    pub fn insert(&mut self, token: &str, text: &str) -> (r: bool)
        requires
            old(self).wf(),
        ensures
            final(self).wf(),
            final(self).spec_limit() == old(self).spec_limit(),
            r == old(self).spec_has(token@),
            if old(self).spec_has(token@) {
                final(self)@ =~= old(self)@.update(
                    old(self).spec_idx(token@),
                    CacheEntryView {
                        token: token@,
                        slot: SlotView {
                            notify: old(self).spec_slot(token@).notify,
                            state: SlotStateView::Content(text@),
                        },
                    },
                )
            } else {
                final(self)@ == old(self)@
            },
    {
        let i = match self.find(token) {
            Some(i) => i,
            None => {
                return false;
            },
        };
        let ghost oldv = self@;
        let mut entry = self.map.remove(i);
        entry.slot.state = SlotState::Content(text.to_owned());
        self.map.insert(i, entry);
        proof {
            assert(self@ =~= oldv.update(
                i as int,
                CacheEntryView {
                    token: token@,
                    slot: SlotView {
                        notify: oldv[i as int].slot.notify,
                        state: SlotStateView::Content(text@),
                    },
                },
            ));
            assert(self.wf()) by {
                assert(forall|a: int| 0 <= a < self@.len() ==> self@[a].token == oldv[a].token);
            }
        }
        true
    }

    /// What the cache holds under a token.
    pub fn get(&self, token: &str) -> (r: AnswerCacheEntry)
        requires
            self.wf(),
        ensures
            match r {
                AnswerCacheEntry::Missing => !self.spec_has(token@),
                AnswerCacheEntry::Pending => self.spec_has(token@) && self.spec_slot(
                    token@,
                ).state is Pending,
                AnswerCacheEntry::Text(t) => self.spec_has(token@) && self.spec_slot(
                    token@,
                ).state == SlotStateView::Content(t@),
            },
    {
        match self.find(token) {
            Some(i) => match &self.map[i].slot.state {
                SlotState::Content(text) => AnswerCacheEntry::Text(text.clone()),
                SlotState::Pending => AnswerCacheEntry::Pending,
            },
            None => AnswerCacheEntry::Missing,
        }
    }

    /// A copy of the whole slot, notifier handle included.
    pub fn snapshot(&self, token: &str) -> (r: Option<Slot>)
        requires
            self.wf(),
        ensures
            match r {
                Some(slot) => self.spec_has(token@) && slot@ == self.spec_slot(token@),
                None => !self.spec_has(token@),
            },
    {
        match self.find(token) {
            Some(i) => Some(self.map[i].slot.clone()),
            None => None,
        }
    }

    /// A fresh random token in the cache's format.
    pub fn generate_token() -> (r: String)
        ensures
            r@.len() == TOKEN_LENGTH,
    {
        generate_token()
    }
}

} // verus!
