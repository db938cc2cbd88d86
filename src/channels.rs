use vstd::prelude::*;

use crate::client::{Channel, ChannelKey};

verus! {

/// Values keyed by channel, at most one per channel.
#[derive(Debug)]
pub struct ChannelMap<V> {
    pub entries: Vec<(Channel, V)>,
}

/// No two entries share a channel.
pub open spec fn keys_unique<V>(s: Seq<(Channel, V)>) -> bool {
    forall|i: int, j: int|
        0 <= i < s.len() && 0 <= j < s.len() && i != j ==> (#[trigger] s[i]).0@ != (#[trigger] s[j]).0@
}

/// Whether an entry has key `k`.
pub open spec fn has_key<V>(s: Seq<(Channel, V)>, k: ChannelKey) -> bool {
    exists|i: int| 0 <= i < s.len() && (#[trigger] s[i]).0@ == k
}

/// The entries as a map from channel to the value's view.
pub open spec fn key_map<V: View>(s: Seq<(Channel, V)>) -> Map<ChannelKey, V::V> {
    Map::new(
        |k: ChannelKey| has_key(s, k),
        |k: ChannelKey| s[choose|i: int| 0 <= i < s.len() && (#[trigger] s[i]).0@ == k].1@,
    )
}

proof fn lemma_key_map_at<V: View>(s: Seq<(Channel, V)>, i: int)
    requires
        keys_unique(s),
        0 <= i < s.len(),
    ensures
        key_map(s).contains_key(s[i].0@),
        key_map(s)[s[i].0@] == s[i].1@,
{
    let k = s[i].0@;
    assert(has_key(s, k));
    let c = choose|c: int| 0 <= c < s.len() && (#[trigger] s[c]).0@ == k;
    assert(0 <= c < s.len() && s[c].0@ == k);
}

/// Replacing the value of entry `i`, under the same key, sets that key.
proof fn lemma_key_map_update<V: View>(s: Seq<(Channel, V)>, i: int, e: (Channel, V))
    requires
        keys_unique(s),
        0 <= i < s.len(),
        e.0@ == s[i].0@,
    ensures
        keys_unique(s.update(i, e)),
        key_map(s.update(i, e)) == key_map(s).insert(e.0@, e.1@),
{
    let t = s.update(i, e);
    assert forall|a: int, b: int|
        0 <= a < t.len() && 0 <= b < t.len() && a != b implies (#[trigger] t[a]).0@ != (
    #[trigger] t[b]).0@ by {
        assert(t[a].0@ == s[a].0@ && t[b].0@ == s[b].0@);
    }
    let expected = key_map(s).insert(e.0@, e.1@);
    assert forall|k: ChannelKey| #[trigger] key_map(t).contains_key(k) implies expected.contains_key(
        k,
    ) && key_map(t)[k] == expected[k] by {
        let m = choose|m: int| 0 <= m < t.len() && (#[trigger] t[m]).0@ == k;
        lemma_key_map_at(t, m);
        if m != i {
            lemma_key_map_at(s, m);
        }
    }
    assert forall|k: ChannelKey| #[trigger] expected.contains_key(k) implies has_key(t, k) by {
        if k == e.0@ {
            assert(t[i].0@ == k);
        } else {
            let m = choose|m: int| 0 <= m < s.len() && (#[trigger] s[m]).0@ == k;
            assert(t[m].0@ == k);
        }
    }
    assert(key_map(t) =~= expected);
}

/// Adding an entry under a new key inserts that key.
proof fn lemma_key_map_push<V: View>(s: Seq<(Channel, V)>, e: (Channel, V))
    requires
        keys_unique(s),
        !has_key(s, e.0@),
    ensures
        keys_unique(s.push(e)),
        key_map(s.push(e)) == key_map(s).insert(e.0@, e.1@),
{
    let t = s.push(e);
    assert forall|a: int, b: int|
        0 <= a < t.len() && 0 <= b < t.len() && a != b implies (#[trigger] t[a]).0@ != (
    #[trigger] t[b]).0@ by {
        if a < s.len() && b < s.len() {
            assert(t[a] == s[a] && t[b] == s[b]);
        } else if a < s.len() {
            assert(t[a] == s[a]);
        } else {
            assert(t[b] == s[b]);
        }
    }
    let expected = key_map(s).insert(e.0@, e.1@);
    assert forall|k: ChannelKey| #[trigger] key_map(t).contains_key(k) implies expected.contains_key(
        k,
    ) && key_map(t)[k] == expected[k] by {
        let m = choose|m: int| 0 <= m < t.len() && (#[trigger] t[m]).0@ == k;
        lemma_key_map_at(t, m);
        if m < s.len() {
            assert(t[m] == s[m]);
            lemma_key_map_at(s, m);
        }
    }
    assert forall|k: ChannelKey| #[trigger] expected.contains_key(k) implies has_key(t, k) by {
        if k == e.0@ {
            assert(t[s.len() as int].0@ == k);
        } else {
            let m = choose|m: int| 0 <= m < s.len() && (#[trigger] s[m]).0@ == k;
            assert(t[m] == s[m]);
        }
    }
    assert(key_map(t) =~= expected);
}

/// Removing entry `i` removes its key.
proof fn lemma_key_map_remove<V: View>(s: Seq<(Channel, V)>, i: int)
    requires
        keys_unique(s),
        0 <= i < s.len(),
    ensures
        keys_unique(s.remove(i)),
        key_map(s.remove(i)) == key_map(s).remove(s[i].0@),
{
    let t = s.remove(i);
    assert forall|a: int, b: int|
        0 <= a < t.len() && 0 <= b < t.len() && a != b implies (#[trigger] t[a]).0@ != (
    #[trigger] t[b]).0@ by {
        let oa = if a < i {
            a
        } else {
            a + 1
        };
        let ob = if b < i {
            b
        } else {
            b + 1
        };
        assert(t[a] == s[oa] && t[b] == s[ob]);
    }
    let expected = key_map(s).remove(s[i].0@);
    assert forall|k: ChannelKey| #[trigger] key_map(t).contains_key(k) implies expected.contains_key(
        k,
    ) && key_map(t)[k] == expected[k] by {
        let m = choose|m: int| 0 <= m < t.len() && (#[trigger] t[m]).0@ == k;
        lemma_key_map_at(t, m);
        let o = if m < i {
            m
        } else {
            m + 1
        };
        assert(t[m] == s[o]);
        lemma_key_map_at(s, o);
    }
    assert forall|k: ChannelKey| #[trigger] expected.contains_key(k) implies has_key(t, k) by {
        let m = choose|m: int| 0 <= m < s.len() && (#[trigger] s[m]).0@ == k;
        assert(m != i);
        if m < i {
            assert(t[m] == s[m]);
        } else {
            assert(t[m - 1] == s[m]);
        }
    }
    assert(key_map(t) =~= expected);
}

impl<V: View> View for ChannelMap<V> {
    type V = Map<ChannelKey, V::V>;

    open spec fn view(&self) -> Map<ChannelKey, V::V> {
        key_map(self.entries@)
    }
}

impl<V: View> ChannelMap<V> {
    pub open spec fn wf(&self) -> bool {
        keys_unique(self.entries@)
    }

    /// An empty map.
    pub fn new() -> (r: Self)
        ensures
            r.wf(),
            r@ == Map::<ChannelKey, V::V>::empty(),
    {
        let r = ChannelMap { entries: Vec::new() };
        assert(r@ =~= Map::<ChannelKey, V::V>::empty());
        r
    }

    /// The index of the channel's entry, if it has one.
    fn index_of(&self, channel: &Channel) -> (r: Option<usize>)
        requires
            self.wf(),
        ensures
            match r {
                Some(i) => i < self.entries@.len() && self.entries@[i as int].0@ == channel@,
                None => !self@.contains_key(channel@),
            },
    {
        let mut i: usize = 0;
        while i < self.entries.len()
            invariant
                i <= self.entries@.len(),
                forall|m: int| 0 <= m < i ==> (#[trigger] self.entries@[m]).0@ != channel@,
            decreases self.entries@.len() - i,
        {
            if self.entries[i].0 == *channel {
                return Some(i);
            }
            i = i + 1;
        }
        None
    }

    /// Whether the channel has an entry.
    pub fn contains_key(&self, channel: &Channel) -> (r: bool)
        requires
            self.wf(),
        ensures
            r == self@.contains_key(channel@),
    {
        match self.index_of(channel) {
            Some(i) => {
                proof {
                    lemma_key_map_at(self.entries@, i as int);
                }
                true
            },
            None => false,
        }
    }

    /// The channel's value, if it has one.
    pub fn get(&self, channel: &Channel) -> (r: Option<&V>)
        requires
            self.wf(),
        ensures
            match r {
                Some(v) => self@.contains_key(channel@) && v@ == self@[channel@],
                None => !self@.contains_key(channel@),
            },
    {
        match self.index_of(channel) {
            Some(i) => {
                proof {
                    lemma_key_map_at(self.entries@, i as int);
                }
                Some(&self.entries[i].1)
            },
            None => None,
        }
    }

    /// Sets the channel's value, replacing any it had.
    pub fn insert(&mut self, channel: Channel, value: V)
        requires
            old(self).wf(),
        ensures
            final(self).wf(),
            final(self)@ == old(self)@.insert(channel@, value@),
    {
        match self.index_of(&channel) {
            Some(i) => {
                proof {
                    lemma_key_map_update(self.entries@, i as int, (channel, value));
                }
                self.entries.set(i, (channel, value));
            },
            None => {
                proof {
                    lemma_key_map_push(self.entries@, (channel, value));
                }
                self.entries.push((channel, value));
            },
        }
    }

    /// Takes the channel's value out, if it has one.
    pub fn remove(&mut self, channel: &Channel) -> (r: Option<V>)
        requires
            old(self).wf(),
        ensures
            final(self).wf(),
            final(self)@ == old(self)@.remove(channel@),
            match r {
                Some(v) => old(self)@.contains_key(channel@) && v@ == old(self)@[channel@],
                None => !old(self)@.contains_key(channel@),
            },
    {
        match self.index_of(channel) {
            Some(i) => {
                proof {
                    lemma_key_map_at(self.entries@, i as int);
                    lemma_key_map_remove(self.entries@, i as int);
                }
                let (_, v) = self.entries.remove(i);
                Some(v)
            },
            None => {
                proof {
                    assert(self@.remove(channel@) =~= self@);
                }
                None
            },
        }
    }
}

} // verus!
