use rustopoly::financial_mgmt::{FinancialManager, FinancialManagerError};
use rustopoly::memory_mgmt::{FieldType, MemoryManager, PropertyData, RailroadData, UserData};

#[test]
fn test_account_get_balance() {
    // Verify basic balance retrieval works.
    let mut mm = MemoryManager::new();
    mm.insert_user("Alice".into(), UserData::new(500, false));

    let mut fm = FinancialManager::new(&mut mm);
    assert_eq!(fm.accounts().get_balance("Alice"), Some(500));
}

#[test]
fn test_account_deposit() {
    // Deposit to user account and check updated balance.
    let mut mm = MemoryManager::new();
    mm.insert_user("Bob".into(), UserData::new(300, false));

    let mut fm = FinancialManager::new(&mut mm);
    assert_eq!(fm.accounts().deposit("Bob", 200), Ok(()));
    assert_eq!(fm.accounts().get_balance("Bob"), Some(500));
}

#[test]
fn test_account_withdraw() {
    // Withdraw funds and verify the balance is updated.
    let mut mm = MemoryManager::new();
    mm.insert_user("Charlie".into(), UserData::new(400, false));

    let mut fm = FinancialManager::new(&mut mm);
    assert_eq!(fm.accounts().withdraw("Charlie", 150), Ok(()));
    assert_eq!(fm.accounts().get_balance("Charlie"), Some(250));
}

#[test]
fn test_account_transfer() {
    // Transfer between users and validate balances.
    let mut mm = MemoryManager::new();
    mm.insert_user("Dave".into(), UserData::new(500, false));
    mm.insert_user("Eve".into(), UserData::new(300, false));

    let mut fm = FinancialManager::new(&mut mm);
    assert_eq!(fm.accounts().transfer("Dave", "Eve", 200), Ok(()));
    assert_eq!(fm.accounts().get_balance("Dave"), Some(300));
    assert_eq!(fm.accounts().get_balance("Eve"), Some(500));
}

#[test]
fn test_buy_property() {
    // Successful property purchase: check ownership and balance deduction.
    let mut mm = MemoryManager::new();
    mm.insert_user("Alice".into(), UserData::new(500, false));
    mm.insert_field(1, FieldType::Property(PropertyData::new(None, 200, 1)));

    let mut fm = FinancialManager::new(&mut mm);
    assert_eq!(fm.properties().buy_property("Alice", 1), Ok(()));
    assert_eq!(fm.properties().get_owner(1).unwrap(), "Alice");
    assert_eq!(fm.accounts().get_balance("Alice"), Some(300));
}

#[test]
fn test_sell_property() {
    // Selling property credits the player's balance and clears ownership.
    let mut mm = MemoryManager::new();
    mm.insert_user("Alice".into(), UserData::new(300, false));
    mm.insert_field(
        1,
        FieldType::Property(PropertyData::new(Some("Alice".into()), 200, 1)),
    );

    let mut fm = FinancialManager::new(&mut mm);
    assert_eq!(fm.properties().sell_property("Alice", 1, 150), Ok(()));
    assert_eq!(fm.properties().get_owner(1), None);
    assert_eq!(fm.accounts().get_balance("Alice"), Some(450));
}

#[test]
fn test_property_get_owner() {
    // Retrieve owner name of already-owned field.
    let mut mm = MemoryManager::new();
    mm.insert_field(
        2,
        FieldType::Property(PropertyData::new(Some("Bob".into()), 300, 1)),
    );

    let mut fm = FinancialManager::new(&mut mm);
    assert_eq!(fm.properties().get_owner(2), Some("Bob".into()));
}

#[test]
fn test_buy_property_insufficient_funds() {
    // Attempt to buy property with too little money should fail with error.
    let mut mm = MemoryManager::new();
    mm.insert_user("Charlie".into(), UserData::new(100, false));
    mm.insert_field(3, FieldType::Property(PropertyData::new(None, 200, 2)));

    let mut fm = FinancialManager::new(&mut mm);
    assert_eq!(
        fm.properties().buy_property("Charlie", 3),
        Err(FinancialManagerError::InsufficientFunds {
            required: 200,
            available: 100
        })
    );
    assert_eq!(fm.properties().get_owner(3), None);
}

#[test]
fn test_declare_bankruptcy() {
    // Declaring bankruptcy should reset balance and jail status.
    let mut mm = MemoryManager::new();
    mm.insert_user("Eve".into(), UserData::new(250, true));

    let mut fm = FinancialManager::new(&mut mm);
    assert_eq!(fm.accounts().declare_bankruptcy("Eve"), Ok(()));
    assert_eq!(fm.accounts().get_balance("Eve"), Some(0));
    assert!(!mm.get_user("Eve").unwrap().jail());
}

fn railroad(owner: Option<&str>, price: u32, groupid: u32) -> FieldType {
    FieldType::Railroad(RailroadData { owner: owner.map(|o| o.to_string()), price, groupid })
}

#[test]
fn get_balance_of_unknown_player_is_none() {
    let mut mm = MemoryManager::new();
    let mut fm = FinancialManager::new(&mut mm);
    assert_eq!(fm.accounts().get_balance("Nobody"), None);
}

#[test]
fn deposit_to_unknown_player_fails() {
    let mut mm = MemoryManager::new();
    let mut fm = FinancialManager::new(&mut mm);
    assert_eq!(
        fm.accounts().deposit("Nobody", 10),
        Err(FinancialManagerError::PlayerNotFound("Nobody".to_string()))
    );
}

#[test]
fn withdraw_errors_leave_balance() {
    let mut mm = MemoryManager::new();
    mm.insert_user("Ann".into(), UserData::new(100, true));
    let mut fm = FinancialManager::new(&mut mm);
    assert_eq!(
        fm.accounts().withdraw("Ann", 101),
        Err(FinancialManagerError::InsufficientFunds { required: 101, available: 100 })
    );
    assert_eq!(
        fm.accounts().withdraw("Bea", 1),
        Err(FinancialManagerError::PlayerNotFound("Bea".to_string()))
    );
    assert_eq!(fm.accounts().withdraw("Ann", 100), Ok(()));
    assert_eq!(fm.accounts().get_balance("Ann"), Some(0));
    // the jail flag is kept
    assert!(mm.get_user("Ann").unwrap().jail());
}

#[test]
fn deposit_up_to_the_limit() {
    let mut mm = MemoryManager::new();
    mm.insert_user("Ann".into(), UserData::new(u32::MAX - 5, false));
    let mut fm = FinancialManager::new(&mut mm);
    assert_eq!(fm.accounts().deposit("Ann", 5), Ok(()));
    assert_eq!(fm.accounts().get_balance("Ann"), Some(u32::MAX));
}

#[test]
fn withdraw_undoes_deposit() {
    let mut mm = MemoryManager::new();
    mm.insert_user("Ann".into(), UserData::new(70, true));
    let mut fm = FinancialManager::new(&mut mm);
    assert_eq!(fm.accounts().deposit("Ann", 30), Ok(()));
    assert_eq!(fm.accounts().withdraw("Ann", 30), Ok(()));
    assert_eq!(fm.accounts().get_balance("Ann"), Some(70));
    assert!(mm.get_user("Ann").unwrap().jail());
}

#[test]
fn deposit_undoes_withdraw() {
    let mut mm = MemoryManager::new();
    mm.insert_user("Ann".into(), UserData::new(70, false));
    let mut fm = FinancialManager::new(&mut mm);
    assert_eq!(fm.accounts().withdraw("Ann", 50), Ok(()));
    assert_eq!(fm.accounts().deposit("Ann", 50), Ok(()));
    assert_eq!(fm.accounts().get_balance("Ann"), Some(70));
}

#[test]
fn transfer_conserves_money() {
    let mut mm = MemoryManager::new();
    mm.insert_user("Ann".into(), UserData::new(120, false));
    mm.insert_user("Ben".into(), UserData::new(80, false));
    mm.insert_user("Cid".into(), UserData::new(5, false));
    let mut fm = FinancialManager::new(&mut mm);
    assert_eq!(fm.accounts().transfer("Ann", "Ben", 45), Ok(()));
    assert_eq!(fm.accounts().get_balance("Ann"), Some(75));
    assert_eq!(fm.accounts().get_balance("Ben"), Some(125));
    assert_eq!(fm.accounts().get_balance("Cid"), Some(5));
    assert_eq!(fm.accounts().transfer("Ann", "Ann", 75), Ok(()));
    assert_eq!(fm.accounts().get_balance("Ann"), Some(75));
}

#[test]
fn transfer_with_insufficient_funds_changes_nothing() {
    let mut mm = MemoryManager::new();
    mm.insert_user("Ann".into(), UserData::new(10, false));
    mm.insert_user("Ben".into(), UserData::new(0, false));
    let mut fm = FinancialManager::new(&mut mm);
    assert_eq!(
        fm.accounts().transfer("Ann", "Ben", 11),
        Err(FinancialManagerError::TransferFailed("Ann".to_string(), "Ben".to_string(), 11))
    );
    assert_eq!(fm.accounts().get_balance("Ann"), Some(10));
    assert_eq!(fm.accounts().get_balance("Ben"), Some(0));
}

#[test]
fn transfer_to_unknown_player_keeps_the_withdrawal() {
    let mut mm = MemoryManager::new();
    mm.insert_user("Ann".into(), UserData::new(10, false));
    let mut fm = FinancialManager::new(&mut mm);
    assert_eq!(
        fm.accounts().transfer("Ann", "Ghost", 4),
        Err(FinancialManagerError::TransferFailed("Ann".to_string(), "Ghost".to_string(), 4))
    );
    assert_eq!(fm.accounts().get_balance("Ann"), Some(6));
}

#[test]
fn bankruptcy_of_unknown_player_fails() {
    let mut mm = MemoryManager::new();
    let mut fm = FinancialManager::new(&mut mm);
    assert_eq!(
        fm.accounts().declare_bankruptcy("Nobody"),
        Err(FinancialManagerError::PlayerNotFound("Nobody".to_string()))
    );
}

#[test]
fn buy_property_errors() {
    let mut mm = MemoryManager::new();
    mm.insert_user("Ann".into(), UserData::new(1000, false));
    mm.insert_field(1, FieldType::Property(PropertyData::new(Some("Ben".into()), 100, 1)));
    mm.insert_field(2, FieldType::Jail);
    mm.insert_field(3, railroad(None, 200, 9));
    mm.insert_field(4, FieldType::Property(PropertyData::new(None, 100, 1)));
    let mut fm = FinancialManager::new(&mut mm);
    assert_eq!(
        fm.properties().buy_property("Ann", 1),
        Err(FinancialManagerError::PropertyAlreadyOwned(1))
    );
    assert_eq!(
        fm.properties().buy_property("Ann", 2),
        Err(FinancialManagerError::FieldNotBuyable(2))
    );
    assert_eq!(
        fm.properties().buy_property("Ann", 3),
        Err(FinancialManagerError::FieldNotBuyable(3))
    );
    assert_eq!(
        fm.properties().buy_property("Ann", 7),
        Err(FinancialManagerError::FieldNotFound(7))
    );
    assert_eq!(
        fm.properties().buy_property("Nobody", 4),
        Err(FinancialManagerError::PlayerNotFound("Nobody".to_string()))
    );
    assert_eq!(fm.properties().get_owner(4), None);
    assert_eq!(fm.accounts().get_balance("Ann"), Some(1000));
}

#[test]
fn sell_property_errors() {
    let mut mm = MemoryManager::new();
    mm.insert_user("Ann".into(), UserData::new(10, false));
    mm.insert_field(1, FieldType::Property(PropertyData::new(Some("Ben".into()), 100, 1)));
    mm.insert_field(2, FieldType::Chance);
    mm.insert_field(3, railroad(Some("Ann"), 200, 9));
    let mut fm = FinancialManager::new(&mut mm);
    assert_eq!(
        fm.properties().sell_property("Ann", 1, 50),
        Err(FinancialManagerError::NotOwnerOfField("Ann".to_string(), 1))
    );
    assert_eq!(
        fm.properties().sell_property("Ann", 2, 50),
        Err(FinancialManagerError::FieldNotSellable(2))
    );
    assert_eq!(
        fm.properties().sell_property("Ann", 3, 50),
        Err(FinancialManagerError::FieldNotSellable(3))
    );
    assert_eq!(
        fm.properties().sell_property("Ann", 8, 50),
        Err(FinancialManagerError::FieldNotFound(8))
    );
    assert_eq!(fm.properties().get_owner(1), Some("Ben".to_string()));
    assert_eq!(fm.accounts().get_balance("Ann"), Some(10));
}

#[test]
fn sell_by_owner_without_account_clears_ownership() {
    let mut mm = MemoryManager::new();
    mm.insert_field(1, FieldType::Property(PropertyData::new(Some("Ben".into()), 100, 1)));
    let mut fm = FinancialManager::new(&mut mm);
    assert_eq!(
        fm.properties().sell_property("Ben", 1, 50),
        Err(FinancialManagerError::PlayerNotFound("Ben".to_string()))
    );
    assert_eq!(fm.properties().get_owner(1), None);
}

#[test]
fn sell_at_purchase_price_undoes_buy() {
    let mut mm = MemoryManager::new();
    mm.insert_user("Ann".into(), UserData::new(500, true));
    mm.insert_field(5, FieldType::Property(PropertyData::new(None, 120, 3)));
    let mut fm = FinancialManager::new(&mut mm);
    assert_eq!(fm.properties().buy_property("Ann", 5), Ok(()));
    assert_eq!(fm.properties().get_owner(5), Some("Ann".to_string()));
    assert_eq!(fm.accounts().get_balance("Ann"), Some(380));
    assert_eq!(fm.properties().sell_property("Ann", 5, 120), Ok(()));
    assert_eq!(fm.properties().get_owner(5), None);
    assert_eq!(fm.accounts().get_balance("Ann"), Some(500));
    assert!(mm.get_user("Ann").unwrap().jail());
    match mm.get_field(5) {
        Some(FieldType::Property(d)) => {
            assert_eq!(d.price(), 120);
            assert_eq!(d.groupid(), 3);
        }
        _ => panic!("field 5 should still be a property"),
    }
}

#[test]
fn get_owner_of_railroad_and_plain_fields() {
    let mut mm = MemoryManager::new();
    mm.insert_field(1, railroad(Some("Cid"), 200, 9));
    mm.insert_field(2, FieldType::Start);
    let mut fm = FinancialManager::new(&mut mm);
    assert_eq!(fm.properties().get_owner(1), Some("Cid".to_string()));
    assert_eq!(fm.properties().get_owner(2), None);
    assert_eq!(fm.properties().get_owner(3), None);
}

#[test]
fn operations_keep_players_and_fields() {
    let mut mm = MemoryManager::new();
    mm.insert_user("Ann".into(), UserData::new(50, false));
    mm.insert_field(1, FieldType::Property(PropertyData::new(None, 20, 1)));
    mm.insert_field(2, FieldType::Jail);
    {
        let mut fm = FinancialManager::new(&mut mm);
        let _ = fm.accounts().deposit("Ann", 1);
        let _ = fm.accounts().withdraw("Ann", 2);
        let _ = fm.accounts().transfer("Ann", "Zed", 3);
        let _ = fm.properties().buy_property("Ann", 1);
        let _ = fm.properties().sell_property("Ann", 1, 4);
        let _ = fm.accounts().declare_bankruptcy("Ann");
    }
    assert_eq!(mm.user_map.len(), 1);
    assert_eq!(mm.field_map.len(), 2);
    assert!(matches!(mm.get_field(1), Some(FieldType::Property(_))));
    assert!(matches!(mm.get_field(2), Some(FieldType::Jail)));
}
