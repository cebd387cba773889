//! Financial rules of the game: player accounts (balances, deposits,
//! withdrawals, transfers, bankruptcy) and property deals (buying,
//! selling, ownership), applied to a `MemoryManager`.

use crate::memory_mgmt::{
    DeedView, FieldType, FieldView, MemoryManager, MemoryView, PropertyData, UserData,
};
use vstd::prelude::*;

verus! {

/// Errors that may occur during financial operations in the game.
#[derive(Debug, PartialEq, Eq)]
pub enum FinancialManagerError {
    PlayerNotFound(String),
    InsufficientFunds { required: u32, available: u32 },
    NotOwnerOfField(String, u32),
    InvalidRecipient(String, u32),
    FieldNotFound(u32),
    FieldNotBuyable(u32),
    FieldNotSellable(u32),
    PropertyAlreadyOwned(u32),
    FieldHasNoOwner(u32),
    TransactionFailed(String),
    BankruptcyFailed(String),
    TransferFailed(String, String, u32),
    InternalError,
}

/// A `FinancialManagerError` with each player name taken as characters.
pub enum FinancialError {
    PlayerNotFound(Seq<char>),
    InsufficientFunds { required: u32, available: u32 },
    NotOwnerOfField(Seq<char>, u32),
    InvalidRecipient(Seq<char>, u32),
    FieldNotFound(u32),
    FieldNotBuyable(u32),
    FieldNotSellable(u32),
    PropertyAlreadyOwned(u32),
    FieldHasNoOwner(u32),
    TransactionFailed(Seq<char>),
    BankruptcyFailed(Seq<char>),
    TransferFailed(Seq<char>, Seq<char>, u32),
    InternalError,
}

impl View for FinancialManagerError {
    type V = FinancialError;

    open spec fn view(&self) -> FinancialError {
        match self {
            FinancialManagerError::PlayerNotFound(p) => FinancialError::PlayerNotFound(p@),
            FinancialManagerError::InsufficientFunds { required, available } =>
                FinancialError::InsufficientFunds { required: *required, available: *available },
            FinancialManagerError::NotOwnerOfField(p, f) => FinancialError::NotOwnerOfField(p@, *f),
            FinancialManagerError::InvalidRecipient(p, f) => FinancialError::InvalidRecipient(p@, *f),
            FinancialManagerError::FieldNotFound(f) => FinancialError::FieldNotFound(*f),
            FinancialManagerError::FieldNotBuyable(f) => FinancialError::FieldNotBuyable(*f),
            FinancialManagerError::FieldNotSellable(f) => FinancialError::FieldNotSellable(*f),
            FinancialManagerError::PropertyAlreadyOwned(f) => FinancialError::PropertyAlreadyOwned(*f),
            FinancialManagerError::FieldHasNoOwner(f) => FinancialError::FieldHasNoOwner(*f),
            FinancialManagerError::TransactionFailed(p) => FinancialError::TransactionFailed(p@),
            FinancialManagerError::BankruptcyFailed(p) => FinancialError::BankruptcyFailed(p@),
            FinancialManagerError::TransferFailed(p, q, a) =>
                FinancialError::TransferFailed(p@, q@, *a),
            FinancialManagerError::InternalError => FinancialError::InternalError,
        }
    }
}

/// The outcome of an operation, with the error taken by its view.
pub open spec fn outcome(r: Result<(), FinancialManagerError>) -> Result<(), FinancialError> {
    match r {
        Ok(()) => Ok(()),
        Err(e) => Err(e@),
    }
}

/// What each financial operation does to the game state: the state after
/// it, and its outcome.
impl MemoryView {
    /// The cash of `player`, if the player exists.
    pub open spec fn balance(self, player: Seq<char>) -> Option<u32> {
        if self.users.contains_key(player) {
            Some(self.users[player].cash)
        } else {
            None
        }
    }

    /// The name of the owner of field `field_id`, if it is an owned
    /// property or railroad.
    pub open spec fn owner_of(self, field_id: u32) -> Option<Seq<char>> {
        match self.field(field_id) {
            Some(FieldView::Property(d)) => d.owner,
            Some(FieldView::Railroad(d)) => d.owner,
            _ => None,
        }
    }

    /// Adding `amount` to the balance of `player` stays within `u32`.
    pub open spec fn deposit_fits(self, player: Seq<char>, amount: u32) -> bool {
        self.users.contains_key(player) ==> self.users[player].cash + amount <= u32::MAX
    }

    pub open spec fn deposit(self, player: Seq<char>, amount: u32) -> (MemoryView, Result<(), FinancialError>) {
        if !self.users.contains_key(player) {
            (self, Err(FinancialError::PlayerNotFound(player)))
        } else {
            let u = self.users[player];
            (
                self.insert_user(player, UserData { cash: (u.cash + amount) as u32, jail: u.jail }),
                Ok(()),
            )
        }
    }

    pub open spec fn withdraw(self, player: Seq<char>, amount: u32) -> (MemoryView, Result<(), FinancialError>) {
        if !self.users.contains_key(player) {
            (self, Err(FinancialError::PlayerNotFound(player)))
        } else if self.users[player].cash < amount {
            (
                self,
                Err(
                    FinancialError::InsufficientFunds {
                        required: amount,
                        available: self.users[player].cash,
                    },
                ),
            )
        } else {
            let u = self.users[player];
            (
                self.insert_user(player, UserData { cash: (u.cash - amount) as u32, jail: u.jail }),
                Ok(()),
            )
        }
    }

    /// A transfer withdraws from `from` and then deposits to `to`; the
    /// withdrawal stands even when the deposit fails.
    pub open spec fn transfer(self, from: Seq<char>, to: Seq<char>, amount: u32) -> (MemoryView, Result<(), FinancialError>) {
        let (after_withdraw, withdrawn) = self.withdraw(from, amount);
        if withdrawn is Err {
            (after_withdraw, Err(FinancialError::TransferFailed(from, to, amount)))
        } else {
            let (after_deposit, deposited) = after_withdraw.deposit(to, amount);
            if deposited is Err {
                (after_deposit, Err(FinancialError::TransferFailed(from, to, amount)))
            } else {
                (after_deposit, Ok(()))
            }
        }
    }

    /// The deposit step of a transfer, if reached, stays within `u32`.
    pub open spec fn transfer_fits(self, from: Seq<char>, to: Seq<char>, amount: u32) -> bool {
        self.withdraw(from, amount).1 is Ok ==> self.withdraw(from, amount).0.deposit_fits(to, amount)
    }

    pub open spec fn declare_bankruptcy(self, player: Seq<char>) -> (MemoryView, Result<(), FinancialError>) {
        if !self.users.contains_key(player) {
            (self, Err(FinancialError::PlayerNotFound(player)))
        } else {
            (self.insert_user(player, UserData { cash: 0, jail: false }), Ok(()))
        }
    }

    pub open spec fn buy_property(self, player: Seq<char>, field_id: u32) -> (MemoryView, Result<(), FinancialError>) {
        match self.field(field_id) {
            None => (self, Err(FinancialError::FieldNotFound(field_id))),
            Some(FieldView::Property(d)) => {
                if d.owner is Some {
                    (self, Err(FinancialError::PropertyAlreadyOwned(field_id)))
                } else if !self.users.contains_key(player) {
                    (self, Err(FinancialError::PlayerNotFound(player)))
                } else if self.users[player].cash < d.price {
                    (
                        self,
                        Err(
                            FinancialError::InsufficientFunds {
                                required: d.price,
                                available: self.users[player].cash,
                            },
                        ),
                    )
                } else {
                    let u = self.users[player];
                    (
                        self.insert_field(
                            field_id,
                            FieldView::Property(DeedView { owner: Some(player), ..d }),
                        ).insert_user(
                            player,
                            UserData { cash: (u.cash - d.price) as u32, jail: u.jail },
                        ),
                        Ok(()),
                    )
                }
            },
            Some(_) => (self, Err(FinancialError::FieldNotBuyable(field_id))),
        }
    }

    /// Selling clears the ownership first and credits the player after;
    /// the ownership stays cleared when the player has no account.
    pub open spec fn sell_property(self, player: Seq<char>, field_id: u32, sell_price: u32) -> (MemoryView, Result<(), FinancialError>) {
        match self.field(field_id) {
            None => (self, Err(FinancialError::FieldNotFound(field_id))),
            Some(FieldView::Property(d)) => {
                if d.owner != Some(player) {
                    (self, Err(FinancialError::NotOwnerOfField(player, field_id)))
                } else {
                    let cleared = self.insert_field(
                        field_id,
                        FieldView::Property(DeedView { owner: None, ..d }),
                    );
                    if !self.users.contains_key(player) {
                        (cleared, Err(FinancialError::PlayerNotFound(player)))
                    } else {
                        let u = self.users[player];
                        (
                            cleared.insert_user(
                                player,
                                UserData { cash: (u.cash + sell_price) as u32, jail: u.jail },
                            ),
                            Ok(()),
                        )
                    }
                }
            },
            Some(_) => (self, Err(FinancialError::FieldNotSellable(field_id))),
        }
    }

    /// The credit step of a sale, if reached, stays within `u32`.
    pub open spec fn sell_fits(self, player: Seq<char>, field_id: u32, sell_price: u32) -> bool {
        match self.field(field_id) {
            Some(FieldView::Property(d)) => d.owner == Some(player) ==> self.deposit_fits(
                player,
                sell_price,
            ),
            _ => true,
        }
    }
}

/// Acts as a centralized manager for handling financial actions,
/// including player account management and property transactions.
pub struct FinancialManager<'a> {
    pub memory_manager: &'a mut MemoryManager,
}

impl<'a> FinancialManager<'a> {
    /// Create a new FinancialManager with access to MemoryManager.
    pub fn new(memory_manager: &'a mut MemoryManager) -> (r: Self)
        ensures
            *r.memory_manager == *old(memory_manager),
            *final(r.memory_manager) == *final(memory_manager),
    {
        FinancialManager { memory_manager }
    }

    /// Obtain an instance of AccountHandler for player account actions.
    pub fn accounts(&mut self) -> (h: AccountHandler<'_>)
        ensures
            *h.memory_manager == *old(self).memory_manager,
            *final(self).memory_manager == *final(h.memory_manager),
            *final(final(self).memory_manager) == *final(old(self).memory_manager),
    {
        AccountHandler { memory_manager: &mut *self.memory_manager }
    }

    /// Obtain an instance of PropertyHandler for property-related actions.
    pub fn properties(&mut self) -> (h: PropertyHandler<'_>)
        ensures
            *h.memory_manager == *old(self).memory_manager,
            *final(self).memory_manager == *final(h.memory_manager),
            *final(final(self).memory_manager) == *final(old(self).memory_manager),
    {
        PropertyHandler { memory_manager: &mut *self.memory_manager }
    }
}

/// Handles player cash balances and transactions.
pub struct AccountHandler<'a> {
    pub memory_manager: &'a mut MemoryManager,
}

impl<'a> AccountHandler<'a> {
    /// The game state that the handler works on.
    pub open spec fn state(&self) -> MemoryView {
        (*self.memory_manager)@
    }

    /// Retrieves the current cash balance of the given player.
    pub fn get_balance(&self, player_id: &str) -> (r: Option<u32>)
        ensures
            r == self.state().balance(player_id@),
    {
        match self.memory_manager.get_user(player_id) {
            Some(u) => Some(u.cash()),
            None => None,
        }
    }

    /// Adds a specified amount of money to the player's balance.
    /// Returns an error if the player does not exist.
    pub fn deposit(&mut self, player_id: &str, amount: u32) -> (r: Result<(), FinancialManagerError>)
        requires
            old(self).state().deposit_fits(player_id@, amount),
        ensures
            (final(self).state(), outcome(r)) == old(self).state().deposit(
                player_id@,
                amount,
            ),
            *final(final(self).memory_manager) == *final(old(self).memory_manager),
    {
        let (cash, jail) = match self.memory_manager.get_user(player_id) {
            Some(u) => (u.cash(), u.jail()),
            None => {
                return Err(FinancialManagerError::PlayerNotFound(player_id.to_owned()));
            },
        };
        let updated_user = UserData::new(cash + amount, jail);
        match self.memory_manager.modify_user(player_id, updated_user) {
            Ok(()) => Ok(()),
            Err(()) => Err(FinancialManagerError::TransactionFailed(player_id.to_owned())),
        }
    }

    /// Deducts a specified amount of money from the player's balance.
    /// Returns an error if the player does not exist or has insufficient funds.
    pub fn withdraw(&mut self, player_id: &str, amount: u32) -> (r: Result<(), FinancialManagerError>)
        ensures
            (final(self).state(), outcome(r)) == old(self).state().withdraw(
                player_id@,
                amount,
            ),
            *final(final(self).memory_manager) == *final(old(self).memory_manager),
    {
        let (cash, jail) = match self.memory_manager.get_user(player_id) {
            Some(u) => (u.cash(), u.jail()),
            None => {
                return Err(FinancialManagerError::PlayerNotFound(player_id.to_owned()));
            },
        };
        if cash < amount {
            return Err(FinancialManagerError::InsufficientFunds { required: amount, available: cash });
        }
        let updated_user = UserData::new(cash - amount, jail);
        match self.memory_manager.modify_user(player_id, updated_user) {
            Ok(()) => Ok(()),
            Err(()) => Err(FinancialManagerError::TransactionFailed(player_id.to_owned())),
        }
    }

    /// Transfers funds between two players.
    /// Returns an error if either player is not found or the withdrawal fails;
    /// a withdrawal already made is not undone when the deposit fails.
    pub fn transfer(&mut self, from_player: &str, to_player: &str, amount: u32) -> (r: Result<(), FinancialManagerError>)
        requires
            old(self).state().transfer_fits(from_player@, to_player@, amount),
        ensures
            (final(self).state(), outcome(r)) == old(self).state().transfer(
                from_player@,
                to_player@,
                amount,
            ),
            *final(final(self).memory_manager) == *final(old(self).memory_manager),
    {
        match self.withdraw(from_player, amount) {
            Ok(()) => {},
            Err(_) => {
                return Err(
                    FinancialManagerError::TransferFailed(
                        from_player.to_owned(),
                        to_player.to_owned(),
                        amount,
                    ),
                );
            },
        }
        match self.deposit(to_player, amount) {
            Ok(()) => {},
            Err(_) => {
                return Err(
                    FinancialManagerError::TransferFailed(
                        from_player.to_owned(),
                        to_player.to_owned(),
                        amount,
                    ),
                );
            },
        }
        Ok(())
    }

    /// Sets the player's balance to zero and marks them as no longer in jail.
    /// Returns an error if the player is not found.
    pub fn declare_bankruptcy(&mut self, player_id: &str) -> (r: Result<(), FinancialManagerError>)
        ensures
            (final(self).state(), outcome(r))
                == old(self).state().declare_bankruptcy(player_id@),
            *final(final(self).memory_manager) == *final(old(self).memory_manager),
    {
        if self.memory_manager.get_user(player_id).is_none() {
            return Err(FinancialManagerError::PlayerNotFound(player_id.to_owned()));
        }
        let updated_user = UserData::new(0, false);
        match self.memory_manager.modify_user(player_id, updated_user) {
            Ok(()) => Ok(()),
            Err(()) => Err(FinancialManagerError::BankruptcyFailed(player_id.to_owned())),
        }
    }
}

/// Handles property ownership and transactions.
pub struct PropertyHandler<'a> {
    pub memory_manager: &'a mut MemoryManager,
}

impl<'a> PropertyHandler<'a> {
    /// The game state that the handler works on.
    pub open spec fn state(&self) -> MemoryView {
        (*self.memory_manager)@
    }

    /// Returns the name of the current owner of the given field, if any.
    pub fn get_owner(&self, field_id: u32) -> (r: Option<String>)
        ensures
            owner_name(r) == self.state().owner_of(field_id),
    {
        let owner = match self.memory_manager.get_field(field_id) {
            Some(FieldType::Property(data)) => data.owner(),
            Some(FieldType::Railroad(data)) => data.owner(),
            _ => {
                return None;
            },
        };
        match owner {
            Some(name) => Some(name.clone()),
            None => None,
        }
    }

    /// Attempts to purchase a property.
    /// Validates ownership, player funds, and field type.
    pub fn buy_property(&mut self, player_id: &str, field_id: u32) -> (r: Result<(), FinancialManagerError>)
        ensures
            (final(self).state(), outcome(r)) == old(self).state().buy_property(
                player_id@,
                field_id,
            ),
            *final(final(self).memory_manager) == *final(old(self).memory_manager),
    {
        let (price, groupid) = match self.memory_manager.get_field(field_id) {
            Some(FieldType::Property(data)) => {
                if data.owner().is_some() {
                    return Err(FinancialManagerError::PropertyAlreadyOwned(field_id));
                }
                (data.price(), data.groupid())
            },
            Some(_) => {
                return Err(FinancialManagerError::FieldNotBuyable(field_id));
            },
            None => {
                return Err(FinancialManagerError::FieldNotFound(field_id));
            },
        };
        let (cash, jail) = match self.memory_manager.get_user(player_id) {
            Some(u) => (u.cash(), u.jail()),
            None => {
                return Err(FinancialManagerError::PlayerNotFound(player_id.to_owned()));
            },
        };
        if cash < price {
            return Err(FinancialManagerError::InsufficientFunds { required: price, available: cash });
        }
        let updated_field = FieldType::Property(
            PropertyData::new(Some(player_id.to_owned()), price, groupid),
        );
        match self.memory_manager.modify_field(field_id, updated_field) {
            Ok(()) => {},
            Err(()) => {
                return Err(FinancialManagerError::TransactionFailed(player_id.to_owned()));
            },
        }
        let updated_user = UserData::new(cash - price, jail);
        match self.memory_manager.modify_user(player_id, updated_user) {
            Ok(()) => {},
            Err(()) => {
                return Err(FinancialManagerError::TransactionFailed(player_id.to_owned()));
            },
        }
        Ok(())
    }

    /// Sells a property and credits the player with the sell price.
    /// Returns an error if the player doesn't own the property or if the field type is invalid.
    pub fn sell_property(&mut self, player_id: &str, field_id: u32, sell_price: u32) -> (r: Result<(), FinancialManagerError>)
        requires
            old(self).state().sell_fits(player_id@, field_id, sell_price),
        ensures
            (final(self).state(), outcome(r)) == old(self).state().sell_property(
                player_id@,
                field_id,
                sell_price,
            ),
            *final(final(self).memory_manager) == *final(old(self).memory_manager),
    {
        let player = player_id.to_owned();
        let (price, groupid) = match self.memory_manager.get_field(field_id) {
            Some(FieldType::Property(data)) => {
                let is_owner = match data.owner() {
                    Some(name) => name.eq(&player),
                    None => false,
                };
                if !is_owner {
                    return Err(FinancialManagerError::NotOwnerOfField(player, field_id));
                }
                (data.price(), data.groupid())
            },
            Some(_) => {
                return Err(FinancialManagerError::FieldNotSellable(field_id));
            },
            None => {
                return Err(FinancialManagerError::FieldNotFound(field_id));
            },
        };
        let updated_field = FieldType::Property(PropertyData::new(None, price, groupid));
        match self.memory_manager.modify_field(field_id, updated_field) {
            Ok(()) => {},
            Err(()) => {
                return Err(FinancialManagerError::TransactionFailed(player));
            },
        }
        let (cash, jail) = match self.memory_manager.get_user(player_id) {
            Some(u) => (u.cash(), u.jail()),
            None => {
                return Err(FinancialManagerError::PlayerNotFound(player));
            },
        };
        let updated_user = UserData::new(cash + sell_price, jail);
        match self.memory_manager.modify_user(player_id, updated_user) {
            Ok(()) => Ok(()),
            Err(()) => Err(FinancialManagerError::TransactionFailed(player)),
        }
    }
}

/// An optional owner name, as characters.
pub open spec fn owner_name(owner: Option<String>) -> Option<Seq<char>> {
    match owner {
        Some(name) => Some(name@),
        None => None,
    }
}

/// Two states have the same board and the same players: the same field
/// ids, each field of the same kind, and the same player names.
pub open spec fn same_layout(a: MemoryView, b: MemoryView) -> bool {
    &&& a.fields.dom() == b.fields.dom()
    &&& a.users.dom() == b.users.dom()
    &&& forall|k: u32| #[trigger] a.fields.contains_key(k) ==> a.fields[k].same_kind(b.fields[k])
}

/// A deposit to an existing player always succeeds and adds exactly the
/// amount to the player's cash, keeping the jail flag and every other
/// account; a deposit to an unknown player fails with `PlayerNotFound`.
pub proof fn lemma_deposit_effect(v: MemoryView, player: Seq<char>, amount: u32, other: Seq<char>)
    requires
        v.users.contains_key(player) ==> v.users[player].cash + amount <= u32::MAX,
    ensures
        v.users.contains_key(player) ==> {
            let (w, r) = v.deposit(player, amount);
            &&& r is Ok
            &&& w.users.contains_key(player)
            &&& w.users[player].cash == v.users[player].cash + amount
            &&& w.users[player].jail == v.users[player].jail
            &&& w.fields == v.fields
            &&& other != player ==> w.user(other) == v.user(other)
        },
        !v.users.contains_key(player) ==> v.deposit(player, amount) == (
            v,
            Err::<(), FinancialError>(FinancialError::PlayerNotFound(player)),
        ),
{
}

/// A withdrawal succeeds exactly when the player exists with at least the
/// amount in cash; it then takes exactly the amount, keeping the jail flag
/// and every other account. It fails with `InsufficientFunds` naming the
/// amount and the cash when the cash is short.
pub proof fn lemma_withdraw_effect(v: MemoryView, player: Seq<char>, amount: u32, other: Seq<char>)
    ensures
        (v.withdraw(player, amount).1 is Ok) <==> (v.users.contains_key(player)
            && v.users[player].cash >= amount),
        v.users.contains_key(player) && v.users[player].cash >= amount ==> {
            let w = v.withdraw(player, amount).0;
            &&& w.users.contains_key(player)
            &&& w.users[player].cash + amount == v.users[player].cash
            &&& w.users[player].jail == v.users[player].jail
            &&& w.fields == v.fields
            &&& other != player ==> w.user(other) == v.user(other)
        },
        v.users.contains_key(player) && v.users[player].cash < amount ==> v.withdraw(player, amount).1
            == Err::<(), FinancialError>(
            FinancialError::InsufficientFunds { required: amount, available: v.users[player].cash },
        ),
        !v.users.contains_key(player) ==> v.withdraw(player, amount).1 == Err::<(), FinancialError>(
            FinancialError::PlayerNotFound(player),
        ),
{
}

/// A transfer succeeds exactly when the sender exists with at least the
/// amount and the recipient exists; the sender then has the amount less and
/// the recipient the amount more (a transfer to oneself changes nothing),
/// and no other account changes. Any failure is `TransferFailed` naming
/// both players and the amount.
pub proof fn lemma_transfer_effect(v: MemoryView, from: Seq<char>, to: Seq<char>, amount: u32, other: Seq<char>)
    requires
        from != to && v.users.contains_key(to) ==> v.users[to].cash + amount <= u32::MAX,
    ensures
        (v.transfer(from, to, amount).1 is Ok) <==> (v.users.contains_key(from) && v.users[from].cash
            >= amount && v.users.contains_key(to)),
        v.transfer(from, to, amount).1 is Ok ==> {
            let w = v.transfer(from, to, amount).0;
            &&& w.users.dom() == v.users.dom()
            &&& w.fields == v.fields
            &&& from != to ==> w.users[from].cash + amount == v.users[from].cash
            &&& from != to ==> w.users[to].cash == v.users[to].cash + amount
            &&& from == to ==> w.users[from] == v.users[from]
            &&& other != from && other != to ==> w.user(other) == v.user(other)
        },
        v.transfer(from, to, amount).1 is Err ==> v.transfer(from, to, amount).1 == Err::<
            (),
            FinancialError,
        >(FinancialError::TransferFailed(from, to, amount)),
{
    let (w1, r1) = v.withdraw(from, amount);
    if r1 is Ok {
        assert(w1.users.contains_key(to) == v.users.contains_key(to));
        let w = v.transfer(from, to, amount).0;
        assert(w.users.dom() =~= v.users.dom());
    }
}

/// Declaring an existing player bankrupt always succeeds and leaves the
/// player with no cash and out of jail, whatever the account held before;
/// no other account changes. An unknown player gives `PlayerNotFound`.
pub proof fn lemma_bankruptcy_effect(v: MemoryView, player: Seq<char>, other: Seq<char>)
    ensures
        v.users.contains_key(player) ==> {
            let (w, r) = v.declare_bankruptcy(player);
            &&& r is Ok
            &&& w.users.contains_key(player)
            &&& w.users[player].cash == 0
            &&& !w.users[player].jail
            &&& w.fields == v.fields
            &&& other != player ==> w.user(other) == v.user(other)
        },
        !v.users.contains_key(player) ==> v.declare_bankruptcy(player) == (
            v,
            Err::<(), FinancialError>(FinancialError::PlayerNotFound(player)),
        ),
{
}

/// A purchase succeeds exactly when the field is an unowned property and
/// the buyer exists with cash of at least its price (equal cash suffices).
/// The buyer then owns the field, whose price and group stay, and pays
/// exactly the price. Each failure names its cause: a missing field, a
/// field that is no property, an owned property, a missing buyer, or cash
/// below the price (with the price and the cash).
pub proof fn lemma_buy_effect(v: MemoryView, player: Seq<char>, field_id: u32, other: Seq<char>)
    ensures
        (v.buy_property(player, field_id).1 is Ok) <==> ({
            &&& v.fields.contains_key(field_id)
            &&& v.fields[field_id] matches FieldView::Property(d)
            &&& d.owner is None
            &&& v.users.contains_key(player)
            &&& v.users[player].cash >= d.price
        }),
        v.buy_property(player, field_id).1 is Ok ==> {
            let w = v.buy_property(player, field_id).0;
            let d = v.fields[field_id]->Property_0;
            &&& w.fields.contains_key(field_id)
            &&& w.fields[field_id] == FieldView::Property(
                DeedView { owner: Some(player), price: d.price, groupid: d.groupid },
            )
            &&& w.users.contains_key(player)
            &&& w.users[player].cash + d.price == v.users[player].cash
            &&& w.users[player].jail == v.users[player].jail
            &&& other != player ==> w.user(other) == v.user(other)
            &&& forall|k: u32| k != field_id ==> #[trigger] w.field(k) == v.field(k)
        },
        !v.fields.contains_key(field_id) ==> v.buy_property(player, field_id).1 == Err::<
            (),
            FinancialError,
        >(FinancialError::FieldNotFound(field_id)),
        v.fields.contains_key(field_id) && !(v.fields[field_id] is Property) ==> v.buy_property(
            player,
            field_id,
        ).1 == Err::<(), FinancialError>(FinancialError::FieldNotBuyable(field_id)),
        v.fields.contains_key(field_id) ==> (v.fields[field_id] matches FieldView::Property(d)
            && d.owner is Some ==> v.buy_property(player, field_id).1 == Err::<(), FinancialError>(
            FinancialError::PropertyAlreadyOwned(field_id),
        )),
        v.fields.contains_key(field_id) ==> (v.fields[field_id] matches FieldView::Property(d)
            && d.owner is None && !v.users.contains_key(player) ==> v.buy_property(player, field_id).1
            == Err::<(), FinancialError>(FinancialError::PlayerNotFound(player))),
        v.fields.contains_key(field_id) ==> (v.fields[field_id] matches FieldView::Property(d) ==> (
        d.owner is None && v.users.contains_key(player) && v.users[player].cash < d.price
            ==> v.buy_property(player, field_id).1 == Err::<(), FinancialError>(
            FinancialError::InsufficientFunds {
                required: d.price,
                available: v.users[player].cash,
            },
        ))),
{
}

/// A sale by the owner of a property succeeds for every sell price when
/// the owner has an account: the field loses its owner (price and group
/// stay) and the owner is credited exactly the sell price. The sale fails
/// only for a missing field, a field that is no property, a property the
/// player does not own, or an owner without an account.
pub proof fn lemma_sell_effect(v: MemoryView, player: Seq<char>, field_id: u32, sell_price: u32, other: Seq<char>)
    requires
        v.users.contains_key(player) ==> v.users[player].cash + sell_price <= u32::MAX,
    ensures
        (v.sell_property(player, field_id, sell_price).1 is Ok) <==> ({
            &&& v.fields.contains_key(field_id)
            &&& v.fields[field_id] matches FieldView::Property(d)
            &&& d.owner == Some(player)
            &&& v.users.contains_key(player)
        }),
        v.sell_property(player, field_id, sell_price).1 is Ok ==> {
            let w = v.sell_property(player, field_id, sell_price).0;
            let d = v.fields[field_id]->Property_0;
            &&& w.fields.contains_key(field_id)
            &&& w.fields[field_id] == FieldView::Property(
                DeedView { owner: None, price: d.price, groupid: d.groupid },
            )
            &&& w.users.contains_key(player)
            &&& w.users[player].cash == v.users[player].cash + sell_price
            &&& w.users[player].jail == v.users[player].jail
            &&& other != player ==> w.user(other) == v.user(other)
            &&& forall|k: u32| k != field_id ==> #[trigger] w.field(k) == v.field(k)
        },
        !v.fields.contains_key(field_id) ==> v.sell_property(player, field_id, sell_price).1
            == Err::<(), FinancialError>(FinancialError::FieldNotFound(field_id)),
        v.fields.contains_key(field_id) && !(v.fields[field_id] is Property) ==> v.sell_property(
            player,
            field_id,
            sell_price,
        ).1 == Err::<(), FinancialError>(FinancialError::FieldNotSellable(field_id)),
        v.fields.contains_key(field_id) ==> (v.fields[field_id] matches FieldView::Property(d)
            && d.owner != Some(player) ==> v.sell_property(player, field_id, sell_price).1 == Err::<
            (),
            FinancialError,
        >(FinancialError::NotOwnerOfField(player, field_id))),
{
}

/// The owner reported for a field is the owner recorded in it when it is a
/// property or a railroad, and none for every other field or a missing one.
pub proof fn lemma_owner_of(v: MemoryView, field_id: u32)
    ensures
        v.fields.contains_key(field_id) ==> (v.fields[field_id] matches FieldView::Property(d)
            ==> v.owner_of(field_id) == d.owner),
        v.fields.contains_key(field_id) ==> (v.fields[field_id] matches FieldView::Railroad(d)
            ==> v.owner_of(field_id) == d.owner),
        !v.fields.contains_key(field_id) || !(v.fields[field_id] is Property || v.fields[field_id] is Railroad)
            ==> v.owner_of(field_id) is None,
{
}

/// The balance reported for a player is the cash in the player's account,
/// and none for a player without an account.
pub proof fn lemma_balance(v: MemoryView, player: Seq<char>)
    ensures
        v.users.contains_key(player) ==> v.balance(player) == Some(v.users[player].cash),
        !v.users.contains_key(player) ==> v.balance(player) is None,
{
}

/// An owner name read back from a field is the owner's characters.
pub proof fn lemma_owner_name(name: String)
    ensures
        owner_name(Some(name)) == Some(name@),
        owner_name(None) is None,
{
}

/// An error's view names the same players (as characters), fields and
/// amounts as the error.
pub proof fn lemma_error_view(p: String, q: String, n: u32, m: u32)
    ensures
        FinancialManagerError::PlayerNotFound(p)@ == FinancialError::PlayerNotFound(p@),
        (FinancialManagerError::InsufficientFunds { required: n, available: m })@
            == (FinancialError::InsufficientFunds { required: n, available: m }),
        FinancialManagerError::NotOwnerOfField(p, n)@ == FinancialError::NotOwnerOfField(p@, n),
        FinancialManagerError::FieldNotFound(n)@ == FinancialError::FieldNotFound(n),
        FinancialManagerError::FieldNotBuyable(n)@ == FinancialError::FieldNotBuyable(n),
        FinancialManagerError::FieldNotSellable(n)@ == FinancialError::FieldNotSellable(n),
        FinancialManagerError::PropertyAlreadyOwned(n)@ == FinancialError::PropertyAlreadyOwned(n),
        FinancialManagerError::TransactionFailed(p)@ == FinancialError::TransactionFailed(p@),
        FinancialManagerError::BankruptcyFailed(p)@ == FinancialError::BankruptcyFailed(p@),
        FinancialManagerError::TransferFailed(p, q, n)@ == FinancialError::TransferFailed(p@, q@, n),
        outcome(Ok(())) == Ok::<(), FinancialError>(()),
        outcome(Err(FinancialManagerError::PlayerNotFound(p))) == Err::<(), FinancialError>(
            FinancialError::PlayerNotFound(p@),
        ),
{
}

/// Withdrawing what was just deposited restores the state.
pub proof fn lemma_withdraw_undoes_deposit(v: MemoryView, player: Seq<char>, amount: u32)
    requires
        v.users.contains_key(player),
        v.deposit_fits(player, amount),
    ensures
        v.deposit(player, amount).1 is Ok,
        v.deposit(player, amount).0.withdraw(player, amount) == (v, Ok::<(), FinancialError>(())),
{
    let w = v.deposit(player, amount).0.withdraw(player, amount).0;
    assert(w.users =~= v.users);
    assert(w.fields =~= v.fields);
}

/// Depositing what was just withdrawn restores the state.
pub proof fn lemma_deposit_undoes_withdraw(v: MemoryView, player: Seq<char>, amount: u32)
    requires
        v.withdraw(player, amount).1 is Ok,
    ensures
        v.withdraw(player, amount).0.deposit(player, amount) == (v, Ok::<(), FinancialError>(())),
{
    let w = v.withdraw(player, amount).0.deposit(player, amount).0;
    assert(w.users =~= v.users);
    assert(w.fields =~= v.fields);
}

/// A successful transfer moves money without creating or destroying it:
/// the two balances keep their sum, every other account and the board are
/// unchanged, and a transfer to oneself changes nothing.
pub proof fn lemma_transfer_conserves_money(v: MemoryView, from: Seq<char>, to: Seq<char>, amount: u32)
    requires
        v.transfer_fits(from, to, amount),
        v.transfer(from, to, amount).1 is Ok,
    ensures
        ({
            let w = v.transfer(from, to, amount).0;
            &&& w.fields == v.fields
            &&& w.users.dom() == v.users.dom()
            &&& from != to ==> w.users[from].cash + w.users[to].cash == v.users[from].cash
                + v.users[to].cash
            &&& w.users[from].cash == v.users[from].cash - amount || from == to
            &&& forall|q: Seq<char>| q != from && q != to ==> #[trigger] w.users[q] == v.users[q]
            &&& from == to ==> w == v
        }),
{
    let w = v.transfer(from, to, amount).0;
    assert(w.users.dom() =~= v.users.dom());
    if from == to {
        assert(w.users =~= v.users);
    }
}

/// Selling a property at the price it was bought for right after buying it
/// restores the state.
pub proof fn lemma_sell_undoes_buy(v: MemoryView, player: Seq<char>, field_id: u32)
    requires
        v.buy_property(player, field_id).1 is Ok,
    ensures
        v.fields[field_id] is Property,
        v.buy_property(player, field_id).0.sell_property(
            player,
            field_id,
            v.fields[field_id]->Property_0.price,
        ) == (v, Ok::<(), FinancialError>(())),
{
    let price = v.fields[field_id]->Property_0.price;
    let w = v.buy_property(player, field_id).0.sell_property(player, field_id, price).0;
    assert(w.users =~= v.users);
    assert(w.fields =~= v.fields);
}

/// A successful purchase makes the buyer the owner and charges the price;
/// a successful sale leaves the field without an owner and credits the
/// sell price.
pub proof fn lemma_deals_move_ownership(v: MemoryView, player: Seq<char>, field_id: u32, sell_price: u32)
    ensures
        v.buy_property(player, field_id).1 is Ok ==> {
            let w = v.buy_property(player, field_id).0;
            &&& w.owner_of(field_id) == Some(player)
            &&& w.balance(player) == Some(
                (v.users[player].cash - v.fields[field_id]->Property_0.price) as u32,
            )
        },
        v.sell_property(player, field_id, sell_price).1 is Ok ==> {
            let w = v.sell_property(player, field_id, sell_price).0;
            &&& v.owner_of(field_id) == Some(player)
            &&& w.owner_of(field_id) is None
            &&& w.balance(player) == Some((v.users[player].cash + sell_price) as u32)
        },
{
}

/// An operation that fails leaves the state as it was, except where the
/// failure comes after a first step: a transfer whose deposit fails keeps
/// its withdrawal, and a sale by an owner without an account keeps the
/// field's ownership cleared.
pub proof fn lemma_failures_change_nothing(
    v: MemoryView,
    player: Seq<char>,
    other: Seq<char>,
    field_id: u32,
    amount: u32,
)
    ensures
        v.deposit(player, amount).1 is Err ==> v.deposit(player, amount).0 == v,
        v.withdraw(player, amount).1 is Err ==> v.withdraw(player, amount).0 == v,
        v.declare_bankruptcy(player).1 is Err ==> v.declare_bankruptcy(player).0 == v,
        v.buy_property(player, field_id).1 is Err ==> v.buy_property(player, field_id).0 == v,
        v.withdraw(player, amount).1 is Err ==> v.transfer(player, other, amount).0 == v,
        v.transfer(player, other, amount).1 is Err && v.withdraw(player, amount).1 is Ok
            ==> v.transfer(player, other, amount).0 == v.withdraw(player, amount).0,
        !(v.sell_property(player, field_id, amount).1 matches Err(FinancialError::PlayerNotFound(_)))
            && v.sell_property(player, field_id, amount).1 is Err ==> v.sell_property(
            player,
            field_id,
            amount,
        ).0 == v,
{
}

/// No financial operation adds or removes a field or a player, or changes
/// the kind of a field.
pub proof fn lemma_operations_keep_layout(
    v: MemoryView,
    player: Seq<char>,
    other: Seq<char>,
    field_id: u32,
    amount: u32,
)
    ensures
        same_layout(v, v.deposit(player, amount).0),
        same_layout(v, v.withdraw(player, amount).0),
        same_layout(v, v.transfer(player, other, amount).0),
        same_layout(v, v.declare_bankruptcy(player).0),
        same_layout(v, v.buy_property(player, field_id).0),
        same_layout(v, v.sell_property(player, field_id, amount).0),
{
    lemma_update_keeps_layout(v, player, field_id);
    let w = v.withdraw(player, amount).0;
    lemma_update_keeps_layout(w, other, field_id);
    lemma_layout_transitive(v, w, v.transfer(player, other, amount).0);
    if v.fields.contains_key(field_id) {
        lemma_update_keeps_layout(
            v.insert_field(field_id, v.fields[field_id]),
            player,
            field_id,
        );
    }
}

proof fn lemma_layout_transitive(a: MemoryView, b: MemoryView, c: MemoryView)
    requires
        same_layout(a, b),
        same_layout(b, c),
    ensures
        same_layout(a, c),
{
    assert forall|k: u32| #[trigger] a.fields.contains_key(k) implies a.fields[k].same_kind(c.fields[k]) by {
        assert(b.fields.contains_key(k));
    }
}

/// Replacing an existing account, or an existing field by one of the same
/// kind, keeps the layout.
proof fn lemma_update_keeps_layout(v: MemoryView, player: Seq<char>, field_id: u32)
    ensures
        same_layout(v, v),
        forall|u: UserData|
            v.users.contains_key(player) ==> #[trigger] same_layout(v, v.insert_user(player, u)),
        forall|f: FieldView|
            v.fields.contains_key(field_id) && v.fields[field_id].same_kind(f) ==> #[trigger] same_layout(
                v,
                v.insert_field(field_id, f),
            ),
        forall|u: UserData, f: FieldView|
            v.users.contains_key(player) && v.fields.contains_key(field_id) && v.fields[field_id].same_kind(f)
                ==> #[trigger] same_layout(v, v.insert_field(field_id, f).insert_user(player, u)),
{
    assert forall|u: UserData| v.users.contains_key(player) implies #[trigger] same_layout(
        v,
        v.insert_user(player, u),
    ) by {
        assert(v.insert_user(player, u).users.dom() =~= v.users.dom());
    }
    assert forall|f: FieldView|
        v.fields.contains_key(field_id) && v.fields[field_id].same_kind(f) implies #[trigger] same_layout(
        v,
        v.insert_field(field_id, f),
    ) by {
        assert(v.insert_field(field_id, f).fields.dom() =~= v.fields.dom());
    }
    assert forall|u: UserData, f: FieldView|
        v.users.contains_key(player) && v.fields.contains_key(field_id) && v.fields[field_id].same_kind(f)
        implies #[trigger] same_layout(v, v.insert_field(field_id, f).insert_user(player, u)) by {
        assert(v.insert_field(field_id, f).insert_user(player, u).users.dom() =~= v.users.dom());
        assert(v.insert_field(field_id, f).fields.dom() =~= v.fields.dom());
    }
}

} // verus!
