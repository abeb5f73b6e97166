//! References to channels, messages, roles and users: by ID, or by a stable
//! name that is looked up in the state.
use vstd::prelude::*;
use vstd::slice::slice_subrange;

use crate::bot::names::NameMap;
use crate::bot::state::ManagedMsg;
use crate::bytes::has_prefix;
use crate::text::{
    chars_of, number_in, parse_number, parse_u64, range_contains, range_eq, str_eq,
    string_of_range,
};

verus! {

/// Tells direct IDs from indices of stable names.  IDs begin with a time in
/// milliseconds, and the highest bit will not be set before the year 2084.
pub const DIRECT_BIT: u64 = 0x8000_0000_0000_0000;

/// A table of stable names and the IDs they stand for.
pub struct RefTable {
    names: Vec<String>,
    ids: Vec<u64>,
}

/// A table as sequences.
pub struct TableModel {
    pub names: Seq<Seq<char>>,
    /// One ID per name once the table is normalized; 0 where there is none.
    pub ids: Seq<u64>,
}

impl TableModel {
    /// The ID that an index stands for.
    pub open spec fn at(self, index: u64) -> Option<u64> {
        if index < self.ids.len() && self.ids[index as int] != 0 {
            Some(self.ids[index as int])
        } else {
            None
        }
    }

    /// The ID that a reference stands for: its own, or that of its name.
    pub open spec fn lookup(self, raw: u64) -> Option<u64> {
        if raw & DIRECT_BIT != 0 {
            Some(raw & !DIRECT_BIT)
        } else {
            self.at(raw)
        }
    }

    /// The table with a name in it, and the name's place.
    pub open spec fn pushed(self, name: Seq<char>) -> (TableModel, int) {
        let i = self.names.index_of_first(name);
        match i {
            Some(i) => (self, i),
            None => (
                TableModel { names: self.names.push(name), ..self },
                self.names.len() as int,
            ),
        }
    }

    /// Each name once.
    pub open spec fn distinct(self) -> bool {
        self.names.no_duplicates()
    }
}

/// The IDs of some names by a map; 0 where it has none.
pub open spec fn ids_by(names: Seq<Seq<char>>, map: Map<Seq<char>, u64>) -> Seq<u64> {
    Seq::new(
        names.len(),
        |i: int|
            if map.dom().contains(names[i]) {
                map[names[i]]
            } else {
                0
            },
    )
}

/// The IDs of some managed messages; 0 where there is none.
pub open spec fn message_ids_by(
    names: Seq<Seq<char>>,
    map: Map<Seq<char>, ManagedMsg>,
) -> Seq<u64> {
    Seq::new(
        names.len(),
        |i: int|
            if map.dom().contains(names[i]) {
                map[names[i]].message_id
            } else {
                0
            },
    )
}

impl RefTable {
    pub closed spec fn model(&self) -> TableModel {
        TableModel { names: Seq::new(self.names@.len(), |i: int| self.names@[i]@), ids: self.ids@ }
    }

    pub fn new() -> (r: Self)
        ensures
            r.model() == empty_table(),
    {
        let r = RefTable { names: Vec::new(), ids: Vec::new() };
        assert(r.model().names =~= Seq::<Seq<char>>::empty());
        assert(r.model().ids =~= Seq::<u64>::empty());
        r
    }

    /// The index of a name, which is added if it is new.
    pub fn push(&mut self, name: String) -> (r: u64)
        requires
            old(self).model().distinct(),
        ensures
            (final(self).model(), r as int) == old(self).model().pushed(name@),
            final(self).model().distinct(),
    {
        let ghost before = self.model();
        let mut i: usize = 0;
        while i < self.names.len()
            invariant
                i <= self.names@.len(),
                self.model() == before,
                before == old(self).model(),
                before.distinct(),
                forall|k: int| 0 <= k < i ==> before.names[k] != name@,
            decreases self.names@.len() - i,
        {
            assert(before.names[i as int] == self.names@[i as int]@);
            if str_eq(self.names[i].as_str(), name.as_str()) {
                assert(before.names.contains(name@));
                proof {
                    before.names.index_of_first_ensures(name@);
                }
                return i as u64;
            }
            i = i + 1;
        }
        assert(!before.names.contains(name@));
        let index: usize = self.names.len();
        self.names.push(name);
        proof {
            before.names.index_of_first_ensures(name@);
            assert(self.model().names =~= before.names.push(name@));
        }
        index as u64
    }

    /// Look all names up.
    pub fn normalize_with(&mut self, map: &NameMap<u64>)
        requires
            map.wf(),
        ensures
            final(self).model() == (TableModel {
                ids: ids_by(old(self).model().names, map@),
                ..old(self).model()
            }),
    {
        let ghost names = self.model().names;
        let mut ids: Vec<u64> = Vec::new();
        let mut i: usize = 0;
        while i < self.names.len()
            invariant
                map.wf(),
                names == self.model().names,
                i <= self.names@.len(),
                ids@ == ids_by(names, map@).take(i as int),
            decreases self.names@.len() - i,
        {
            assert(names[i as int] == self.names@[i as int]@);
            let id: u64 = match map.get(self.names[i].as_str()) {
                Some(id) => *id,
                None => 0,
            };
            ids.push(id);
            i = i + 1;
            assert(ids@ =~= ids_by(names, map@).take(i as int));
        }
        assert(ids@ =~= ids_by(names, map@));
        self.ids = ids;
        assert(self.model().names =~= names);
    }

    /// Look all names up among the managed messages.
    pub fn normalize_messages(&mut self, map: &NameMap<ManagedMsg>)
        requires
            map.wf(),
        ensures
            final(self).model() == (TableModel {
                ids: message_ids_by(old(self).model().names, map@),
                ..old(self).model()
            }),
    {
        let ghost names = self.model().names;
        let mut ids: Vec<u64> = Vec::new();
        let mut i: usize = 0;
        while i < self.names.len()
            invariant
                map.wf(),
                names == self.model().names,
                i <= self.names@.len(),
                ids@ == message_ids_by(names, map@).take(i as int),
            decreases self.names@.len() - i,
        {
            assert(names[i as int] == self.names@[i as int]@);
            let id: u64 = match map.get(self.names[i].as_str()) {
                Some(entry) => entry.message_id,
                None => 0,
            };
            ids.push(id);
            i = i + 1;
            assert(ids@ =~= message_ids_by(names, map@).take(i as int));
        }
        assert(ids@ =~= message_ids_by(names, map@));
        self.ids = ids;
        assert(self.model().names =~= names);
    }

    /// The name at an index.
    pub fn name(&self, index: u64) -> (r: Option<&str>)
        ensures
            match r {
                Some(s) => index < self.model().names.len() && s@ == self.model().names[index as int],
                None => index >= self.model().names.len(),
            },
    {
        if index < self.names.len() as u64 {
            Some(self.names[index as usize].as_str())
        } else {
            None
        }
    }

    /// The ID that an index stands for.
    pub fn resolve(&self, index: u64) -> (r: Option<u64>)
        ensures
            r == self.model().at(index),
    {
        if index >= self.ids.len() as u64 {
            return None;
        }
        let id: u64 = self.ids[index as usize];
        if id != 0 {
            Some(id)
        } else {
            None
        }
    }

    /// The ID that a reference stands for.
    pub fn lookup(&self, raw: u64) -> (r: Option<u64>)
        ensures
            r == self.model().lookup(raw),
    {
        if raw & DIRECT_BIT != 0 {
            return Some(raw & !DIRECT_BIT);
        }
        self.resolve(raw)
    }
}

pub open spec fn empty_table() -> TableModel {
    TableModel { names: Seq::empty(), ids: Seq::empty() }
}

/// The stable names in use, and what they stand for.
pub struct RefRegistry {
    channels: RefTable,
    messages: RefTable,
    roles: RefTable,
}

/// A registry as tables.
pub struct RegistryModel {
    pub channels: TableModel,
    pub messages: TableModel,
    pub roles: TableModel,
}

pub open spec fn empty_registry() -> RegistryModel {
    RegistryModel { channels: empty_table(), messages: empty_table(), roles: empty_table() }
}

impl RegistryModel {
    /// The registry with all names looked up.
    pub open spec fn normalized(
        self,
        channels: Map<Seq<char>, u64>,
        roles: Map<Seq<char>, u64>,
        managed: Map<Seq<char>, ManagedMsg>,
    ) -> RegistryModel {
        RegistryModel {
            channels: TableModel { ids: ids_by(self.channels.names, channels), ..self.channels },
            roles: TableModel { ids: ids_by(self.roles.names, roles), ..self.roles },
            messages: TableModel {
                ids: message_ids_by(self.messages.names, managed),
                ..self.messages
            },
        }
    }

    /// The stable name of a message reference, if it has one.
    pub open spec fn message_name(self, raw: u64) -> Option<Seq<char>> {
        if raw & DIRECT_BIT == 0 && raw < self.messages.names.len() {
            Some(self.messages.names[raw as int])
        } else {
            None
        }
    }
}

impl RefRegistry {
    pub closed spec fn model(&self) -> RegistryModel {
        RegistryModel {
            channels: self.channels.model(),
            messages: self.messages.model(),
            roles: self.roles.model(),
        }
    }

    /// No table holds a name twice.
    pub open spec fn wf(&self) -> bool {
        &&& self.model().channels.distinct()
        &&& self.model().messages.distinct()
        &&& self.model().roles.distinct()
    }

    pub fn new() -> (r: Self)
        ensures
            r.wf(),
            r.model() == empty_registry(),
    {
        RefRegistry {
            channels: RefTable::new(),
            messages: RefTable::new(),
            roles: RefTable::new(),
        }
    }

    /// Look all names up.
    pub fn normalize(
        &mut self,
        channels: &NameMap<u64>,
        roles: &NameMap<u64>,
        managed: &NameMap<ManagedMsg>,
    )
        requires
            channels.wf(),
            roles.wf(),
            managed.wf(),
        ensures
            final(self).model() == old(self).model().normalized(channels@, roles@, managed@),
            old(self).wf() ==> final(self).wf(),
    {
        self.channels.normalize_with(channels);
        self.roles.normalize_with(roles);
        self.messages.normalize_messages(managed);
    }

    /// The channel names, in the order in which they were registered.
    pub fn channel_names(&self) -> (r: &[String])
        ensures
            r@.len() == self.model().channels.names.len(),
            forall|i: int|
                0 <= i < r@.len() ==> (#[trigger] r@[i])@ == self.model().channels.names[i],
    {
        self.channels.names.as_slice()
    }

    /// The role names, in the order in which they were registered.
    pub fn role_names(&self) -> (r: &[String])
        ensures
            r@.len() == self.model().roles.names.len(),
            forall|i: int|
                0 <= i < r@.len() ==> (#[trigger] r@[i])@ == self.model().roles.names[i],
    {
        self.roles.names.as_slice()
    }

    /// The stable name of a message reference, if it has one.
    pub fn message_name(&self, r: MessageRef) -> (name: Option<&str>)
        ensures
            match name {
                Some(s) => self.model().message_name(r.raw_value()) == Some(s@),
                None => self.model().message_name(r.raw_value()) is None,
            },
    {
        if r.0 & DIRECT_BIT != 0 {
            return None;
        }
        self.messages.name(r.0)
    }
}

/// What is wrong with a reference in the configuration.
#[derive(Debug, Clone, Copy, PartialEq, Eq, Structural)]
pub enum RefError {
    /// The ID is no number.
    InvalidId,
    /// The stable name holds a tab or a line end.
    InvalidName,
    /// It is neither an ID nor a stable name.
    InvalidForm,
    /// It is no ID where only an ID will do.
    NotAnId,
}

impl RefError {
    /// What the error says.
    pub open spec fn text(self) -> Seq<char> {
        match self {
            RefError::InvalidId => "invalid snowflake id"@,
            RefError::InvalidName =>
                "stable name must not contain tab, newline, or carriage return"@,
            RefError::InvalidForm => "expected 'id:...' or 'stablename:...'"@,
            RefError::NotAnId => "expected 'id:...'"@,
        }
    }

    /// What the error says.
    pub fn message(&self) -> (r: String)
        ensures
            r@ == self.text(),
    {
        match self {
            RefError::InvalidId => "invalid snowflake id".to_string(),
            RefError::InvalidName =>
                "stable name must not contain tab, newline, or carriage return".to_string(),
            RefError::InvalidForm => "expected 'id:...' or 'stablename:...'".to_string(),
            RefError::NotAnId => "expected 'id:...'".to_string(),
        }
    }
}

/// A stable name that a line of the state file can hold.
pub open spec fn name_ok(name: Seq<char>) -> bool {
    !name.contains('\t') && !name.contains('\n') && !name.contains('\r')
}

/// What a reference in the configuration is.
#[derive(Debug)]
pub enum RefSpec {
    Id(u64),
    Name(String),
}

/// A reference in the configuration: `id:` and a number, or `stablename:` and
/// a name.
pub open spec fn reads_as(s: Seq<char>, r: Result<RefSpec, RefError>) -> bool {
    if has_prefix(s, "id:"@) {
        match parse_number(s.skip("id:"@.len() as int), u64::MAX as nat) {
            Some(id) => r matches Ok(RefSpec::Id(n)) && n == id,
            None => r == Err::<RefSpec, RefError>(RefError::InvalidId),
        }
    } else if has_prefix(s, "stablename:"@) {
        let name = s.skip("stablename:"@.len() as int);
        if name_ok(name) {
            r matches Ok(RefSpec::Name(n)) && n@ == name
        } else {
            r == Err::<RefSpec, RefError>(RefError::InvalidName)
        }
    } else {
        r == Err::<RefSpec, RefError>(RefError::InvalidForm)
    }
}

/// Whether a name is one that a line of the state file can hold.
pub fn check_name(name: &str) -> (r: bool)
    ensures
        r == name_ok(name@),
{
    let chars = chars_of(name);
    assert(chars@.subrange(0, chars@.len() as int) =~= chars@);
    !range_contains(chars.as_slice(), '\t', 0, chars.len()) && !range_contains(
        chars.as_slice(),
        '\n',
        0,
        chars.len(),
    ) && !range_contains(chars.as_slice(), '\r', 0, chars.len())
}

/// Whether `s` begins with `prefix`.
fn begins_with(s: &[char], prefix: &[char]) -> (r: bool)
    ensures
        r == has_prefix(s@, prefix@),
{
    if s.len() < prefix.len() {
        return false;
    }
    assert(s@.subrange(0, prefix@.len() as int) =~= s@.take(prefix@.len() as int));
    range_eq(s, 0, prefix.len(), prefix)
}

/// Read a reference in the configuration.
pub fn read_ref(s: &str) -> (r: Result<RefSpec, RefError>)
    ensures
        reads_as(s@, r),
{
    let chars = chars_of(s);
    let id = chars_of("id:");
    let stable = chars_of("stablename:");
    if begins_with(chars.as_slice(), id.as_slice()) {
        let digits = slice_subrange(chars.as_slice(), id.len(), chars.len());
        assert(digits@ =~= chars@.skip(id@.len() as int));
        match number_in(digits, u64::MAX) {
            Some(n) => Ok(RefSpec::Id(n)),
            None => Err(RefError::InvalidId),
        }
    } else if begins_with(chars.as_slice(), stable.as_slice()) {
        let name = string_of_range(chars.as_slice(), stable.len(), chars.len());
        assert(name@ =~= chars@.skip(stable@.len() as int));
        if check_name(name.as_str()) {
            Ok(RefSpec::Name(name))
        } else {
            Err(RefError::InvalidName)
        }
    } else {
        Err(RefError::InvalidForm)
    }
}

/// Something that stands for an ID.
pub trait Ref: Copy {
    /// The reference as a number.
    spec fn raw_value(self) -> u64;

    /// What the reference stands for.
    spec fn meaning(self, m: RegistryModel) -> Option<u64>;

    /// The reference as a number.
    fn raw(self) -> (r: u64)
        ensures
            r == self.raw_value(),
    ;

    /// What the reference stands for.
    fn resolve(self, registry: &RefRegistry) -> (r: Option<u64>)
        ensures
            r == self.meaning(registry.model()),
    ;
}

/// A reference to a channel.
#[derive(Clone, Copy, Debug, PartialEq, Eq, Structural, Hash)]
pub struct ChannelRef(u64);

impl ChannelRef {
    /// The channel with that ID.
    pub closed spec fn direct(id: u64) -> Self {
        ChannelRef(id | DIRECT_BIT)
    }

    /// The channel with that ID.
    pub fn from_id(id: u64) -> (r: Self)
        ensures
            r == ChannelRef::direct(id),
            r.raw_value() == id | DIRECT_BIT,
    {
        ChannelRef(id | DIRECT_BIT)
    }

    /// The channel with the ID that a string holds.
    pub fn parse(s: &str) -> (r: Option<Self>)
        ensures
            match parse_number(s@, u64::MAX as nat) {
                Some(id) => r matches Some(x) && x.raw_value() == id as u64 | DIRECT_BIT,
                None => r is None,
            },
    {
        match parse_u64(s) {
            Some(id) => Some(ChannelRef::from_id(id)),
            None => None,
        }
    }

    /// The channel with that stable name.
    pub fn from_stablename(name: &str, registry: &mut RefRegistry) -> (r: Self)
        requires
            name_ok(name@),
            old(registry).wf(),
        ensures
            final(registry).wf(),
            ({
                let (table, index) = old(registry).model().channels.pushed(name@);
                &&& r.raw_value() == index
                &&& final(registry).model() == (RegistryModel {
                    channels: table,
                    ..old(registry).model()
                })
            }),
    {
        ChannelRef(registry.channels.push(name.to_string()))
    }

    /// The channel that the configuration names.
    pub fn from_config(s: &str, registry: &mut RefRegistry) -> (r: Result<Self, RefError>)
        requires
            old(registry).wf(),
        ensures
            final(registry).wf(),
            exists|read: Result<RefSpec, RefError>|
                #[trigger] reads_as(s@, read) && match read {
                    Ok(RefSpec::Id(id)) => {
                        &&& r matches Ok(x)
                        &&& x.raw_value() == id | DIRECT_BIT
                        &&& final(registry).model() == old(registry).model()
                    },
                    Ok(RefSpec::Name(name)) => {
                        let (table, index) = old(registry).model().channels.pushed(name@);
                        &&& r matches Ok(x)
                        &&& x.raw_value() == index
                        &&& final(registry).model() == (RegistryModel {
                            channels: table,
                            ..old(registry).model()
                        })
                    },
                    Err(e) => {
                        &&& r == Err::<Self, RefError>(e)
                        &&& final(registry).model() == old(registry).model()
                    },
                },
    {
        let read = read_ref(s);
        assert(reads_as(s@, read));
        match read {
            Ok(RefSpec::Id(id)) => Ok(ChannelRef::from_id(id)),
            Ok(RefSpec::Name(name)) => Ok(ChannelRef(registry.channels.push(name))),
            Err(e) => Err(e),
        }
    }
}

impl Ref for ChannelRef {
    closed spec fn raw_value(self) -> u64 {
        self.0
    }

    open spec fn meaning(self, m: RegistryModel) -> Option<u64> {
        m.channels.lookup(self.raw_value())
    }

    fn raw(self) -> (r: u64) {
        self.0
    }

    fn resolve(self, registry: &RefRegistry) -> (r: Option<u64>) {
        registry.resolve_channel(self)
    }
}

impl RefRegistry {
    /// The ID that a channel reference stands for.
    pub fn resolve_channel(&self, r: ChannelRef) -> (id: Option<u64>)
        ensures
            id == r.meaning(self.model()),
    {
        self.channels.lookup(r.0)
    }
}

/// A reference to a message.
#[derive(Clone, Copy, Debug, PartialEq, Eq, Structural, Hash)]
pub struct MessageRef(u64);

impl MessageRef {
    /// The message with that ID.
    pub closed spec fn direct(id: u64) -> Self {
        MessageRef(id | DIRECT_BIT)
    }

    /// The message with that ID.
    pub fn from_id(id: u64) -> (r: Self)
        ensures
            r == MessageRef::direct(id),
            r.raw_value() == id | DIRECT_BIT,
    {
        MessageRef(id | DIRECT_BIT)
    }

    /// The message with the ID that a string holds.
    pub fn parse(s: &str) -> (r: Option<Self>)
        ensures
            match parse_number(s@, u64::MAX as nat) {
                Some(id) => r matches Some(x) && x.raw_value() == id as u64 | DIRECT_BIT,
                None => r is None,
            },
    {
        match parse_u64(s) {
            Some(id) => Some(MessageRef::from_id(id)),
            None => None,
        }
    }

    /// The message with that stable name.
    pub fn from_stablename(name: &str, registry: &mut RefRegistry) -> (r: Self)
        requires
            name_ok(name@),
            old(registry).wf(),
        ensures
            final(registry).wf(),
            ({
                let (table, index) = old(registry).model().messages.pushed(name@);
                &&& r.raw_value() == index
                &&& final(registry).model() == (RegistryModel {
                    messages: table,
                    ..old(registry).model()
                })
            }),
    {
        MessageRef(registry.messages.push(name.to_string()))
    }

    /// The message that the configuration names.
    pub fn from_config(s: &str, registry: &mut RefRegistry) -> (r: Result<Self, RefError>)
        requires
            old(registry).wf(),
        ensures
            final(registry).wf(),
            exists|read: Result<RefSpec, RefError>|
                #[trigger] reads_as(s@, read) && match read {
                    Ok(RefSpec::Id(id)) => {
                        &&& r matches Ok(x)
                        &&& x.raw_value() == id | DIRECT_BIT
                        &&& final(registry).model() == old(registry).model()
                    },
                    Ok(RefSpec::Name(name)) => {
                        let (table, index) = old(registry).model().messages.pushed(name@);
                        &&& r matches Ok(x)
                        &&& x.raw_value() == index
                        &&& final(registry).model() == (RegistryModel {
                            messages: table,
                            ..old(registry).model()
                        })
                    },
                    Err(e) => {
                        &&& r == Err::<Self, RefError>(e)
                        &&& final(registry).model() == old(registry).model()
                    },
                },
    {
        let read = read_ref(s);
        assert(reads_as(s@, read));
        match read {
            Ok(RefSpec::Id(id)) => Ok(MessageRef::from_id(id)),
            Ok(RefSpec::Name(name)) => Ok(MessageRef(registry.messages.push(name))),
            Err(e) => Err(e),
        }
    }
}

impl Ref for MessageRef {
    closed spec fn raw_value(self) -> u64 {
        self.0
    }

    open spec fn meaning(self, m: RegistryModel) -> Option<u64> {
        m.messages.lookup(self.raw_value())
    }

    fn raw(self) -> (r: u64) {
        self.0
    }

    fn resolve(self, registry: &RefRegistry) -> (r: Option<u64>) {
        registry.resolve_message(self)
    }
}

impl RefRegistry {
    /// The ID that a message reference stands for.
    pub fn resolve_message(&self, r: MessageRef) -> (id: Option<u64>)
        ensures
            id == r.meaning(self.model()),
    {
        self.messages.lookup(r.0)
    }
}

/// A reference to a role.
#[derive(Clone, Copy, Debug, PartialEq, Eq, Structural, Hash)]
pub struct RoleRef(u64);

impl RoleRef {
    /// The role with that ID.
    pub closed spec fn direct(id: u64) -> Self {
        RoleRef(id | DIRECT_BIT)
    }

    /// The role with that ID.
    pub fn from_id(id: u64) -> (r: Self)
        ensures
            r == RoleRef::direct(id),
            r.raw_value() == id | DIRECT_BIT,
    {
        RoleRef(id | DIRECT_BIT)
    }

    /// The role with the ID that a string holds.
    pub fn parse(s: &str) -> (r: Option<Self>)
        ensures
            match parse_number(s@, u64::MAX as nat) {
                Some(id) => r matches Some(x) && x.raw_value() == id as u64 | DIRECT_BIT,
                None => r is None,
            },
    {
        match parse_u64(s) {
            Some(id) => Some(RoleRef::from_id(id)),
            None => None,
        }
    }

    /// The role with that stable name.
    pub fn from_stablename(name: &str, registry: &mut RefRegistry) -> (r: Self)
        requires
            name_ok(name@),
            old(registry).wf(),
        ensures
            final(registry).wf(),
            ({
                let (table, index) = old(registry).model().roles.pushed(name@);
                &&& r.raw_value() == index
                &&& final(registry).model() == (RegistryModel {
                    roles: table,
                    ..old(registry).model()
                })
            }),
    {
        RoleRef(registry.roles.push(name.to_string()))
    }

    /// The role that the configuration names.
    pub fn from_config(s: &str, registry: &mut RefRegistry) -> (r: Result<Self, RefError>)
        requires
            old(registry).wf(),
        ensures
            final(registry).wf(),
            exists|read: Result<RefSpec, RefError>|
                #[trigger] reads_as(s@, read) && match read {
                    Ok(RefSpec::Id(id)) => {
                        &&& r matches Ok(x)
                        &&& x.raw_value() == id | DIRECT_BIT
                        &&& final(registry).model() == old(registry).model()
                    },
                    Ok(RefSpec::Name(name)) => {
                        let (table, index) = old(registry).model().roles.pushed(name@);
                        &&& r matches Ok(x)
                        &&& x.raw_value() == index
                        &&& final(registry).model() == (RegistryModel {
                            roles: table,
                            ..old(registry).model()
                        })
                    },
                    Err(e) => {
                        &&& r == Err::<Self, RefError>(e)
                        &&& final(registry).model() == old(registry).model()
                    },
                },
    {
        let read = read_ref(s);
        assert(reads_as(s@, read));
        match read {
            Ok(RefSpec::Id(id)) => Ok(RoleRef::from_id(id)),
            Ok(RefSpec::Name(name)) => Ok(RoleRef(registry.roles.push(name))),
            Err(e) => Err(e),
        }
    }
}

impl Ref for RoleRef {
    closed spec fn raw_value(self) -> u64 {
        self.0
    }

    open spec fn meaning(self, m: RegistryModel) -> Option<u64> {
        m.roles.lookup(self.raw_value())
    }

    fn raw(self) -> (r: u64) {
        self.0
    }

    fn resolve(self, registry: &RefRegistry) -> (r: Option<u64>) {
        registry.resolve_role(self)
    }
}

impl RefRegistry {
    /// The ID that a role reference stands for.
    pub fn resolve_role(&self, r: RoleRef) -> (id: Option<u64>)
        ensures
            id == r.meaning(self.model()),
    {
        self.roles.lookup(r.0)
    }
}

/// A reference to a user, always by ID.
#[derive(Clone, Copy, Debug, PartialEq, Eq, Structural, Hash)]
pub struct UserRef(u64);

impl UserRef {
    /// The user with that ID.
    pub closed spec fn direct(id: u64) -> Self {
        UserRef(id | DIRECT_BIT)
    }

    /// The user with that ID.
    pub fn from_id(id: u64) -> (r: Self)
        ensures
            r == UserRef::direct(id),
            r.raw_value() == id | DIRECT_BIT,
    {
        UserRef(id | DIRECT_BIT)
    }

    /// The user with the ID that a string holds.
    pub fn parse(s: &str) -> (r: Option<Self>)
        ensures
            match parse_number(s@, u64::MAX as nat) {
                Some(id) => r matches Some(x) && x.raw_value() == id as u64 | DIRECT_BIT,
                None => r is None,
            },
    {
        match parse_u64(s) {
            Some(id) => Some(UserRef::from_id(id)),
            None => None,
        }
    }

    /// The user that the configuration names: `id:` and a number.
    pub fn from_config(s: &str) -> (r: Result<Self, RefError>)
        ensures
            if has_prefix(s@, "id:"@) {
                match parse_number(s@.skip("id:"@.len() as int), u64::MAX as nat) {
                    Some(id) => r matches Ok(x) && x.raw_value() == id as u64 | DIRECT_BIT,
                    None => r == Err::<Self, RefError>(RefError::InvalidId),
                }
            } else {
                r == Err::<Self, RefError>(RefError::NotAnId)
            },
    {
        match read_ref(s) {
            Ok(RefSpec::Id(id)) => Ok(UserRef::from_id(id)),
            Err(RefError::InvalidId) => Err(RefError::InvalidId),
            _ => Err(RefError::NotAnId),
        }
    }
}

impl Ref for UserRef {
    closed spec fn raw_value(self) -> u64 {
        self.0
    }

    open spec fn meaning(self, m: RegistryModel) -> Option<u64> {
        Some(self.raw_value() & !DIRECT_BIT)
    }

    fn raw(self) -> (r: u64) {
        self.0
    }

    fn resolve(self, registry: &RefRegistry) -> (r: Option<u64>) {
        registry.resolve_user(self)
    }
}

impl RefRegistry {
    /// The ID that a user reference stands for.
    pub fn resolve_user(&self, r: UserRef) -> (id: Option<u64>)
        ensures
            id == r.meaning(self.model()),
    {
        Some(r.0 & !DIRECT_BIT)
    }
}

/// A reference made from an ID stands for that ID, whatever names are in use,
/// as long as the ID leaves the highest bit alone.
pub proof fn law_direct_reference(id: u64, table: TableModel)
    requires
        id < DIRECT_BIT,
    ensures
        table.lookup(id | DIRECT_BIT) == Some(id),
        (id | DIRECT_BIT) & !DIRECT_BIT == id,
{
    assert((id | 0x8000_0000_0000_0000u64) & 0x8000_0000_0000_0000u64 != 0 && (id
        | 0x8000_0000_0000_0000u64) & !0x8000_0000_0000_0000u64 == id) by (bit_vector)
        requires
            id < 0x8000_0000_0000_0000u64,
    ;
}

/// References made from different IDs are different.
pub proof fn law_direct_references_differ(a: u64, b: u64)
    requires
        a < DIRECT_BIT,
        b < DIRECT_BIT,
        a != b,
    ensures
        a | DIRECT_BIT != b | DIRECT_BIT,
{
    law_direct_reference(a, empty_table());
    law_direct_reference(b, empty_table());
}

/// Registering a name twice gives one reference, and leaves the others alone.
pub proof fn law_names_are_registered_once(table: TableModel, name: Seq<char>, other: Seq<char>)
    requires
        table.distinct(),
    ensures
        ({
            let (t1, i) = table.pushed(name);
            let (t2, j) = t1.pushed(other);
            &&& t1.distinct()
            &&& 0 <= i < t1.names.len()
            &&& t1.names[i] == name
            &&& t1.pushed(name) == (t1, i)
            &&& t2.pushed(name) == (t2, i)
            &&& i == j <==> name == other
        }),
{
    table.names.index_of_first_ensures(name);
    let (t1, i) = table.pushed(name);
    assert(t1.names[i] == name);
    t1.names.index_of_first_ensures(name);
    t1.names.index_of_first_ensures(other);
    let (t2, j) = t1.pushed(other);
    assert(t2.names[j] == other);
    assert(t2.names[i] == name);
    t2.names.index_of_first_ensures(name);
    assert(t1.names.contains(name));
    assert(t2.names.contains(name));
}

/// The table with some names in it.
pub open spec fn with_names(table: TableModel, names: Seq<Seq<char>>) -> TableModel
    decreases names.len(),
{
    if names.len() == 0 {
        table
    } else {
        with_names(table, names.drop_last()).pushed(names.last()).0
    }
}

proof fn lemma_names_stay(table: TableModel, names: Seq<Seq<char>>)
    requires
        table.distinct(),
    ensures
        ({
            let t = with_names(table, names);
            &&& t.distinct()
            &&& t.ids == table.ids
            &&& table.names.len() <= t.names.len()
            &&& forall|i: int| 0 <= i < table.names.len() ==> t.names[i] == table.names[i]
        }),
    decreases names.len(),
{
    if names.len() > 0 {
        lemma_names_stay(table, names.drop_last());
        law_names_are_registered_once(
            with_names(table, names.drop_last()),
            names.last(),
            names.last(),
        );
    }
}

/// In a table that was made by registering names, no name is twice.  A name
/// that is registered is found at its index, whatever is registered later, and
/// registering it again gives that index and adds nothing.
pub proof fn law_indices_keep_their_names(
    earlier: Seq<Seq<char>>,
    name: Seq<char>,
    later: Seq<Seq<char>>,
)
    ensures
        ({
            let (t, i) = with_names(empty_table(), earlier).pushed(name);
            let end = with_names(t, later);
            &&& end.distinct()
            &&& 0 <= i < t.names.len()
            &&& t.names[i] == name
            &&& end.names[i] == name
            &&& end.pushed(name) == (end, i)
            &&& forall|k: int| 0 <= k < t.names.len() ==> end.names[k] == t.names[k]
        }),
{
    let start = with_names(empty_table(), earlier);
    lemma_names_stay(empty_table(), earlier);
    law_names_are_registered_once(start, name, name);
    let (t, i) = start.pushed(name);
    lemma_names_stay(t, later);
    let end = with_names(t, later);
    assert(end.names.contains(name));
    end.names.index_of_first_ensures(name);
}

/// Once the names have been looked up, a reference by name stands for what the
/// map has under that name; ID 0 counts as nothing.
pub proof fn law_named_reference(
    table: TableModel,
    name: Seq<char>,
    map: Map<Seq<char>, u64>,
    index: u64,
)
    requires
        table.pushed(name).1 == index,
        index < DIRECT_BIT,
        table.distinct(),
    ensures
        ({
            let named = table.pushed(name).0;
            let normalized = TableModel { ids: ids_by(named.names, map), ..named };
            normalized.lookup(index) == (if map.dom().contains(name) && map[name] != 0 {
                Some(map[name])
            } else {
                None
            })
        }),
{
    table.names.index_of_first_ensures(name);
    assert(table.pushed(name).0.names[index as int] == name);
    assert(index & 0x8000_0000_0000_0000u64 == 0) by (bit_vector)
        requires
            index < 0x8000_0000_0000_0000u64,
    ;
}

} // verus!
