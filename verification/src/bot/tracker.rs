//! The channels and roles that the guild was seen to have.
use vstd::prelude::*;

use crate::discord::message::{Channel, Role};
use crate::text::str_eq;

verus! {

/// Things with IDs and names, in the order in which they were seen.
pub struct NameTracker {
    ids: Vec<u64>,
    names: Vec<String>,
}

/// What a name stands for.
#[derive(Debug, Clone, Copy, PartialEq, Eq, Structural)]
pub enum Lookup {
    Unknown,
    One(u64),
    /// Several things have the name.
    Ambiguous,
}

/// Something that was seen.
pub struct Seen {
    pub id: u64,
    pub name: Seq<char>,
}

/// Something with that ID was seen.
pub open spec fn has_id(seen: Seq<Seen>, id: u64) -> bool {
    exists|i: int| 0 <= i < seen.len() && (#[trigger] seen[i]).id == id
}

/// How many things have a name.
pub open spec fn count_named(seen: Seq<Seen>, name: Seq<char>) -> nat
    decreases seen.len(),
{
    if seen.len() == 0 {
        0
    } else {
        count_named(seen.drop_last(), name) + (if seen.last().name == name {
            1nat
        } else {
            0
        })
    }
}

/// The first thing that has a name.
pub open spec fn first_named(seen: Seq<Seen>, name: Seq<char>) -> Option<u64>
    decreases seen.len(),
{
    if seen.len() == 0 {
        None
    } else {
        match first_named(seen.drop_last(), name) {
            Some(id) => Some(id),
            None => if seen.last().name == name {
                Some(seen.last().id)
            } else {
                None
            },
        }
    }
}

/// What a name stands for: nothing, or the one thing that has it, or nothing
/// certain.
pub open spec fn lookup_of(seen: Seq<Seen>, name: Seq<char>) -> Lookup {
    if count_named(seen, name) >= 2 {
        Lookup::Ambiguous
    } else {
        match first_named(seen, name) {
            Some(id) => Lookup::One(id),
            None => Lookup::Unknown,
        }
    }
}

/// The things seen after one more: each ID counts once.
pub open spec fn seen_after(seen: Seq<Seen>, id: u64, name: Seq<char>) -> Seq<Seen> {
    if has_id(seen, id) {
        seen
    } else {
        seen.push(Seen { id, name })
    }
}

impl NameTracker {
    pub closed spec fn seen(&self) -> Seq<Seen> {
        Seq::new(self.ids@.len(), |i: int| Seen { id: self.ids@[i], name: self.names@[i]@ })
    }

    /// No ID was noted twice.
    pub closed spec fn wf(&self) -> bool {
        &&& self.ids@.len() == self.names@.len()
        &&& self.ids@.no_duplicates()
    }

    pub fn new() -> (r: Self)
        ensures
            r.wf(),
            r.seen() == Seq::<Seen>::empty(),
    {
        let r = NameTracker { ids: Vec::new(), names: Vec::new() };
        assert(r.seen() =~= Seq::<Seen>::empty());
        r
    }

    /// Note that something was seen.
    pub fn insert(&mut self, id: u64, name: &str)
        requires
            old(self).wf(),
        ensures
            final(self).wf(),
            final(self).seen() == seen_after(old(self).seen(), id, name@),
    {
        let ghost before = self.seen();
        let mut i: usize = 0;
        while i < self.ids.len()
            invariant
                self.wf(),
                before == old(self).seen(),
                self.seen() == before,
                i <= self.ids@.len(),
                forall|k: int| 0 <= k < i ==> (#[trigger] before[k]).id != id,
            decreases self.ids@.len() - i,
        {
            assert(before[i as int].id == self.ids@[i as int]);
            if self.ids[i] == id {
                return;
            }
            i = i + 1;
        }
        assert(!has_id(before, id));
        proof {
            assert forall|k: int| 0 <= k < self.ids@.len() implies self.ids@[k] != id by {
                assert(before[k].id == self.ids@[k]);
            }
        }
        self.ids.push(id);
        self.names.push(name.to_string());
        assert(self.seen() =~= before.push(Seen { id, name: name@ }));
    }

    /// Number of things seen.
    pub fn len(&self) -> (n: usize)
        ensures
            n == self.seen().len(),
    {
        self.ids.len()
    }

    /// What a name stands for.
    pub fn lookup(&self, name: &str) -> (r: Lookup)
        requires
            self.wf(),
        ensures
            r == lookup_of(self.seen(), name@),
    {
        let ghost seen = self.seen();
        let mut first: Option<u64> = None;
        let mut count: usize = 0;
        let mut i: usize = 0;
        assert(seen.take(0) =~= Seq::<Seen>::empty());
        while i < self.ids.len()
            invariant
                self.wf(),
                seen == self.seen(),
                i <= self.ids@.len(),
                count <= i,
                count == count_named(seen.take(i as int), name@),
                first == first_named(seen.take(i as int), name@),
            decreases self.ids@.len() - i,
        {
            proof {
                assert(seen.take(i + 1).drop_last() =~= seen.take(i as int));
                assert(seen.take(i + 1).last() == seen[i as int]);
            }
            if str_eq(self.names[i].as_str(), name) {
                count = count + 1;
                if first.is_none() {
                    first = Some(self.ids[i]);
                }
            }
            i = i + 1;
        }
        assert(seen.take(i as int) =~= seen);
        if count >= 2 {
            return Lookup::Ambiguous;
        }
        match first {
            Some(id) => Lookup::One(id),
            None => Lookup::Unknown,
        }
    }
}

/// The channels and roles that the guild was seen to have.
pub struct ChannelRoleTracker {
    pub channels: NameTracker,
    pub roles: NameTracker,
}

/// The channels seen after a list of them.
pub open spec fn channels_after(seen: Seq<Seen>, channels: Seq<Channel>) -> Seq<Seen>
    decreases channels.len(),
{
    if channels.len() == 0 {
        seen
    } else {
        seen_after(
            channels_after(seen, channels.drop_last()),
            channels.last().id,
            channels.last().name@,
        )
    }
}

/// The roles seen after a list of them.
pub open spec fn roles_after(seen: Seq<Seen>, roles: Seq<Role>) -> Seq<Seen>
    decreases roles.len(),
{
    if roles.len() == 0 {
        seen
    } else {
        seen_after(
            roles_after(seen, roles.drop_last()),
            roles.last().id,
            roles.last().name@,
        )
    }
}

impl ChannelRoleTracker {
    pub open spec fn wf(&self) -> bool {
        self.channels.wf() && self.roles.wf()
    }

    pub fn new() -> (r: Self)
        ensures
            r.wf(),
            r.channels.seen() == Seq::<Seen>::empty(),
            r.roles.seen() == Seq::<Seen>::empty(),
    {
        ChannelRoleTracker { channels: NameTracker::new(), roles: NameTracker::new() }
    }

    /// Forget everything.
    pub fn clear(&mut self)
        ensures
            final(self).wf(),
            final(self).channels.seen() == Seq::<Seen>::empty(),
            final(self).roles.seen() == Seq::<Seen>::empty(),
    {
        self.channels = NameTracker::new();
        self.roles = NameTracker::new();
    }

    pub fn insert_channel(&mut self, id: u64, name: &str)
        requires
            old(self).wf(),
        ensures
            final(self).wf(),
            final(self).channels.seen() == seen_after(old(self).channels.seen(), id, name@),
            final(self).roles == old(self).roles,
    {
        self.channels.insert(id, name);
    }

    pub fn insert_role(&mut self, id: u64, name: &str)
        requires
            old(self).wf(),
        ensures
            final(self).wf(),
            final(self).roles.seen() == seen_after(old(self).roles.seen(), id, name@),
            final(self).channels == old(self).channels,
    {
        self.roles.insert(id, name);
    }

    /// Note the channels and roles of a guild.
    pub fn load_guild(&mut self, channels: &[Channel], roles: &[Role])
        requires
            old(self).wf(),
        ensures
            final(self).wf(),
            final(self).channels.seen() == channels_after(old(self).channels.seen(), channels@),
            final(self).roles.seen() == roles_after(old(self).roles.seen(), roles@),
    {
        let mut i: usize = 0;
        assert(channels@.take(0) =~= Seq::<Channel>::empty());
        while i < channels.len()
            invariant
                self.wf(),
                i <= channels@.len(),
                self.channels.seen() == channels_after(
                    old(self).channels.seen(),
                    channels@.take(i as int),
                ),
                self.roles == old(self).roles,
            decreases channels@.len() - i,
        {
            self.insert_channel(channels[i].id, channels[i].name.as_str());
            i = i + 1;
            assert(channels@.take(i as int).drop_last() =~= channels@.take(i - 1));
        }
        assert(channels@.take(i as int) =~= channels@);
        let mut i: usize = 0;
        assert(roles@.take(0) =~= Seq::<Role>::empty());
        while i < roles.len()
            invariant
                self.wf(),
                i <= roles@.len(),
                self.channels.seen() == channels_after(old(self).channels.seen(), channels@),
                self.roles.seen() == roles_after(old(self).roles.seen(), roles@.take(i as int)),
            decreases roles@.len() - i,
        {
            self.insert_role(roles[i].id, roles[i].name.as_str());
            i = i + 1;
            assert(roles@.take(i as int).drop_last() =~= roles@.take(i - 1));
        }
        assert(roles@.take(i as int) =~= roles@);
    }
}

/// Seeing the same thing again, perhaps under another name, changes nothing.
pub proof fn law_seen_once(seen: Seq<Seen>, id: u64, name: Seq<char>, again: Seq<char>)
    ensures
        seen_after(seen_after(seen, id, name), id, again) == seen_after(seen, id, name),
{
    let once = seen_after(seen, id, name);
    if !has_id(seen, id) {
        assert(once[seen.len() as int].id == id);
    }
    assert(has_id(once, id));
}

/// A name that is certain stands for something that was seen under it, and
/// nothing else was.
pub proof fn law_certain_name(seen: Seq<Seen>, name: Seq<char>, i: int, id: u64)
    requires
        lookup_of(seen, name) == Lookup::One(id),
        0 <= i < seen.len(),
        seen[i].name == name,
    ensures
        seen[i].id == id,
    decreases seen.len(),
{
    lemma_counted(seen, name, i);
    if i == seen.len() - 1 {
        if first_named(seen.drop_last(), name) is Some {
            lemma_first_counted(seen.drop_last(), name);
        }
    } else {
        assert(seen.drop_last()[i] == seen[i]);
        lemma_counted(seen.drop_last(), name, i);
        if seen.last().name != name {
            law_certain_name(seen.drop_last(), name, i, id);
        }
    }
}

proof fn lemma_counted(seen: Seq<Seen>, name: Seq<char>, i: int)
    requires
        0 <= i < seen.len(),
        seen[i].name == name,
    ensures
        count_named(seen, name) >= 1,
    decreases seen.len(),
{
    if i < seen.len() - 1 {
        assert(seen.drop_last()[i] == seen[i]);
        lemma_counted(seen.drop_last(), name, i);
    }
}

proof fn lemma_first_counted(seen: Seq<Seen>, name: Seq<char>)
    requires
        first_named(seen, name) is Some,
    ensures
        count_named(seen, name) >= 1,
    decreases seen.len(),
{
    if first_named(seen.drop_last(), name) is Some {
        lemma_first_counted(seen.drop_last(), name);
    }
}

} // verus!
