//! Storage of the board fields (keyed by field id) and of the players'
//! accounts (keyed by player name).

use std::collections::HashMap;
use vstd::hash_map::StringHashMap;
use vstd::prelude::*;

verus! {

broadcast use vstd::std_specs::hash::group_hash_axioms;

/// What a deed (a property or a railroad) holds, with the owner's name
/// taken as a sequence of characters.
pub struct DeedView {
    pub owner: Option<Seq<char>>,
    pub price: u32,
    pub groupid: u32,
}

/// The name of an optional owner, as characters.
pub open spec fn owner_view(owner: Option<String>) -> Option<Seq<char>> {
    match owner {
        Some(name) => Some(name@),
        None => None,
    }
}

/// A property field: an optional owner, a price and a colour group.
#[derive(Debug, Clone)]
pub struct PropertyData {
    pub owner: Option<String>,
    pub price: u32,
    pub groupid: u32,
}

impl View for PropertyData {
    type V = DeedView;

    open spec fn view(&self) -> DeedView {
        DeedView { owner: owner_view(self.owner), price: self.price, groupid: self.groupid }
    }
}

impl PropertyData {
    pub fn new(owner: Option<String>, price: u32, groupid: u32) -> (r: Self)
        ensures
            r.owner == owner,
            r.price == price,
            r.groupid == groupid,
    {
        PropertyData { owner, price, groupid }
    }

    pub fn owner(&self) -> (r: &Option<String>)
        ensures
            *r == self.owner,
    {
        &self.owner
    }

    pub fn price(&self) -> (r: u32)
        ensures
            r == self.price,
    {
        self.price
    }

    pub fn groupid(&self) -> (r: u32)
        ensures
            r == self.groupid,
    {
        self.groupid
    }
}

/// A railroad field: an optional owner, a price and a group.
#[derive(Debug, Clone)]
pub struct RailroadData {
    pub owner: Option<String>,
    pub price: u32,
    pub groupid: u32,
}

impl View for RailroadData {
    type V = DeedView;

    open spec fn view(&self) -> DeedView {
        DeedView { owner: owner_view(self.owner), price: self.price, groupid: self.groupid }
    }
}

impl RailroadData {
    pub fn owner(&self) -> (r: &Option<String>)
        ensures
            *r == self.owner,
    {
        &self.owner
    }

    pub fn price(&self) -> (r: u32)
        ensures
            r == self.price,
    {
        self.price
    }

    pub fn groupid(&self) -> (r: u32)
        ensures
            r == self.groupid,
    {
        self.groupid
    }
}

/// A field of the board, seen through the views of its data.
pub enum FieldView {
    Property(DeedView),
    Jail,
    Chance,
    Start,
    Railroad(DeedView),
}

impl FieldView {
    /// Two fields are of the same kind when they are the same variant.
    pub open spec fn same_kind(self, other: FieldView) -> bool {
        match (self, other) {
            (FieldView::Property(_), FieldView::Property(_)) => true,
            (FieldView::Jail, FieldView::Jail) => true,
            (FieldView::Chance, FieldView::Chance) => true,
            (FieldView::Start, FieldView::Start) => true,
            (FieldView::Railroad(_), FieldView::Railroad(_)) => true,
            _ => false,
        }
    }
}

/// A field of the board.
#[derive(Debug, Clone)]
pub enum FieldType {
    Property(PropertyData),
    Jail,
    Chance,
    Start,
    Railroad(RailroadData),
}

impl View for FieldType {
    type V = FieldView;

    open spec fn view(&self) -> FieldView {
        match self {
            FieldType::Property(d) => FieldView::Property(d@),
            FieldType::Jail => FieldView::Jail,
            FieldType::Chance => FieldView::Chance,
            FieldType::Start => FieldView::Start,
            FieldType::Railroad(d) => FieldView::Railroad(d@),
        }
    }
}

/// A player's account: cash and whether the player is in jail.
#[derive(Debug, Clone)]
pub struct UserData {
    pub cash: u32,
    pub jail: bool,
}

impl UserData {
    pub fn new(cash: u32, jail: bool) -> (r: Self)
        ensures
            r.cash == cash,
            r.jail == jail,
    {
        Self { cash, jail }
    }

    pub fn cash(&self) -> (r: u32)
        ensures
            r == self.cash,
    {
        self.cash
    }

    pub fn jail(&self) -> (r: bool)
        ensures
            r == self.jail,
    {
        self.jail
    }
}

/// The whole game state: the fields by id and the accounts by player name.
pub struct MemoryView {
    pub fields: Map<u32, FieldView>,
    pub users: Map<Seq<char>, UserData>,
}

impl MemoryView {
    pub open spec fn empty() -> MemoryView {
        MemoryView { fields: Map::empty(), users: Map::empty() }
    }

    /// The field stored under `key`, if any.
    pub open spec fn field(self, key: u32) -> Option<FieldView> {
        if self.fields.contains_key(key) {
            Some(self.fields[key])
        } else {
            None
        }
    }

    /// The account stored under `key`, if any.
    pub open spec fn user(self, key: Seq<char>) -> Option<UserData> {
        if self.users.contains_key(key) {
            Some(self.users[key])
        } else {
            None
        }
    }

    /// The state with `value` stored under `key`, replacing what was there.
    pub open spec fn insert_field(self, key: u32, value: FieldView) -> MemoryView {
        MemoryView { fields: self.fields.insert(key, value), ..self }
    }

    /// The state with `value` stored under `key`, replacing what was there.
    pub open spec fn insert_user(self, key: Seq<char>, value: UserData) -> MemoryView {
        MemoryView { users: self.users.insert(key, value), ..self }
    }

    /// Replacing a field succeeds when one of the same kind is stored under `key`.
    pub open spec fn can_modify_field(self, key: u32, value: FieldView) -> bool {
        self.fields.contains_key(key) && self.fields[key].same_kind(value)
    }

    /// Replacing a field: the new state, and whether it succeeded.
    pub open spec fn modify_field(self, key: u32, value: FieldView) -> (MemoryView, Result<(), ()>) {
        if self.can_modify_field(key, value) {
            (self.insert_field(key, value), Ok(()))
        } else {
            (self, Err(()))
        }
    }

    /// Replacing an account: the new state, and whether it succeeded.
    pub open spec fn modify_user(self, key: Seq<char>, value: UserData) -> (MemoryView, Result<(), ()>) {
        if self.users.contains_key(key) {
            (self.insert_user(key, value), Ok(()))
        } else {
            (self, Err(()))
        }
    }
}

/// The game state held in hash maps.
pub struct MemoryManager {
    pub field_map: HashMap<u32, FieldType>,
    pub user_map: StringHashMap<UserData>,
}

impl View for MemoryManager {
    type V = MemoryView;

    open spec fn view(&self) -> MemoryView {
        MemoryView {
            fields: self.field_map@.map_values(|f: FieldType| f@),
            users: self.user_map@,
        }
    }
}

impl MemoryManager {
    pub fn new() -> (r: Self)
        ensures
            r@ == MemoryView::empty(),
    {
        let r = MemoryManager { field_map: HashMap::new(), user_map: StringHashMap::new() };
        assert(r@.fields =~= Map::<u32, FieldView>::empty());
        r
    }

    pub fn insert_field(&mut self, key: u32, value: FieldType)
        ensures
            final(self)@ == old(self)@.insert_field(key, value@),
    {
        self.field_map.insert(key, value);
        assert(self@.fields =~= old(self)@.fields.insert(key, value@));
    }

    pub fn get_field(&self, key: u32) -> (r: Option<&FieldType>)
        ensures
            match r {
                Some(f) => self@.field(key) == Some(f@),
                None => self@.field(key) is None,
            },
    {
        self.field_map.get(&key)
    }

    pub fn modify_field(&mut self, key: u32, value: FieldType) -> (r: Result<(), ()>)
        ensures
            (final(self)@, r) == old(self)@.modify_field(key, value@),
    {
        let kind_matches = match self.field_map.get(&key) {
            None => {
                return Err(());
            },
            Some(field) => match (field, &value) {
                (FieldType::Railroad(_), FieldType::Railroad(_)) => true,
                (FieldType::Property(_), FieldType::Property(_)) => true,
                (FieldType::Chance, FieldType::Chance) => true,
                (FieldType::Start, FieldType::Start) => true,
                (FieldType::Jail, FieldType::Jail) => true,
                _ => false,
            },
        };
        if !kind_matches {
            return Err(());
        }
        let ghost v = value@;
        self.field_map.insert(key, value);
        assert(self@.fields =~= old(self)@.fields.insert(key, v));
        Ok(())
    }

    pub fn insert_user(&mut self, key: String, value: UserData)
        ensures
            final(self)@ == old(self)@.insert_user(key@, value),
    {
        self.user_map.insert(key, value);
    }

    pub fn get_user(&self, key: &str) -> (r: Option<&UserData>)
        ensures
            match r {
                Some(u) => self@.user(key@) == Some(*u),
                None => self@.user(key@) is None,
            },
    {
        self.user_map.get(key)
    }

    pub fn modify_user(&mut self, key: &str, value: UserData) -> (r: Result<(), ()>)
        ensures
            (final(self)@, r) == old(self)@.modify_user(key@, value),
    {
        if !self.user_map.contains_key(key) {
            return Err(());
        }
        self.user_map.insert(key.to_owned(), value);
        Ok(())
    }
}

/// A read gives back what the last write under the same key wrote, and a
/// write leaves every other key, and the other map, as they were.
pub proof fn lemma_read_after_write(
    v: MemoryView,
    key: u32,
    value: FieldView,
    other_key: u32,
    name: Seq<char>,
    user: UserData,
    other_name: Seq<char>,
)
    ensures
        v.insert_field(key, value).field(key) == Some(value),
        other_key != key ==> v.insert_field(key, value).field(other_key) == v.field(other_key),
        v.insert_field(key, value).users == v.users,
        v.insert_user(name, user).user(name) == Some(user),
        other_name != name ==> v.insert_user(name, user).user(other_name) == v.user(other_name),
        v.insert_user(name, user).fields == v.fields,
{
}

/// Replacing a field succeeds exactly when a field of the same kind is
/// stored under the key, and a read then gives the new field; replacing an
/// account succeeds exactly when the player exists. A replacement that
/// fails changes nothing.
pub proof fn lemma_modify(v: MemoryView, key: u32, value: FieldView, name: Seq<char>, user: UserData)
    ensures
        v.modify_field(key, value).1 is Ok <==> (v.field(key) matches Some(f) && f.same_kind(value)),
        v.modify_field(key, value).1 is Ok ==> v.modify_field(key, value).0.field(key) == Some(value),
        v.modify_field(key, value).1 is Err ==> v.modify_field(key, value).0 == v,
        v.modify_user(name, user).1 is Ok <==> v.user(name) is Some,
        v.modify_user(name, user).1 is Ok ==> v.modify_user(name, user).0.user(name) == Some(user),
        v.modify_user(name, user).1 is Err ==> v.modify_user(name, user).0 == v,
{
}

/// A lookup finds exactly what the map holds under the key.
pub proof fn lemma_lookup(v: MemoryView, key: u32, name: Seq<char>)
    ensures
        v.fields.contains_key(key) ==> v.field(key) == Some(v.fields[key]),
        !v.fields.contains_key(key) ==> v.field(key) is None,
        v.users.contains_key(name) ==> v.user(name) == Some(v.users[name]),
        !v.users.contains_key(name) ==> v.user(name) is None,
        v.insert_field(key, FieldView::Jail).fields.contains_key(key),
        v.insert_user(name, (UserData { cash: 0, jail: false })).users.contains_key(name),
{
}

/// Fields are of the same kind exactly when they are the same variant: a
/// property is never replaced by a railroad or a plain field, and the
/// other way round.
pub proof fn lemma_same_kind(a: FieldView, b: FieldView)
    ensures
        a.same_kind(b) <==> ((a is Property && b is Property) || (a is Railroad && b is Railroad)
            || (a is Jail && b is Jail) || (a is Chance && b is Chance) || (a is Start && b is Start)),
{
}

/// A field's view shows the data it holds, with owner names as characters.
pub proof fn lemma_field_view(owner: Option<String>, price: u32, groupid: u32)
    ensures
        FieldType::Property((PropertyData { owner, price, groupid }))@ == FieldView::Property(
            (DeedView { owner: owner_view(owner), price, groupid }),
        ),
        FieldType::Railroad((RailroadData { owner, price, groupid }))@ == FieldView::Railroad(
            (DeedView { owner: owner_view(owner), price, groupid }),
        ),
        FieldType::Jail@ == FieldView::Jail,
        FieldType::Chance@ == FieldView::Chance,
        FieldType::Start@ == FieldView::Start,
        owner_view(None) is None,
        owner matches Some(name) ==> owner_view(owner) == Some(name@),
{
}

} // verus!
