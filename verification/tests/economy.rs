use capitol_backend::currency::{check_amount, check_transfer, credit, debit, hourly_property_tax, tax_payment, transfer_balances, TransactionType};
use capitol_backend::exchange::{add_withdrawn_fiber, check_deposit_request, check_withdraw_quantity, deposit_fee, deposit_total, withdrawal_cost};

#[test]
fn transaction_type_names() {
    assert_eq!(TransactionType::ExchangeDeposit.as_str(), "exchange_deposit");
    assert_eq!(TransactionType::ExchangeWithdraw.as_str(), "exchange_withdraw");
    assert_eq!(TransactionType::TradeReceived.as_str(), "trade_received");
    assert_eq!(TransactionType::TradeSent.as_str(), "trade_sent");
    assert_eq!(TransactionType::AdminAdjustment.as_str(), "admin_adjustment");
}

#[test]
fn balances() {
    assert_eq!(check_amount(0).unwrap_err(), "Amount must be positive");
    assert_eq!(credit(10, 5), Ok(15));
    assert_eq!(credit(10, -5).unwrap_err(), "Amount must be positive");
    assert_eq!(debit(10, 4), Ok(6));
    assert_eq!(debit(10, 10), Ok(0));
    assert_eq!(debit(3, 4).unwrap_err(), "Insufficient strands: have 3, need 4");
    assert_eq!(debit(-25, 100).unwrap_err(), "Insufficient strands: have -25, need 100");
    assert_eq!(debit(3, 0).unwrap_err(), "Amount must be positive");
}

#[test]
fn transfers() {
    assert_eq!(check_transfer(9, 4, 1), Ok((4, 9)));
    assert_eq!(check_transfer(4, 9, 1), Ok((4, 9)));
    assert_eq!(check_transfer(4, 4, 1).unwrap_err(), "Cannot transfer to self");
    assert_eq!(check_transfer(4, 9, 0).unwrap_err(), "Amount must be positive");
    let (f, t) = transfer_balances(50, 7, 20).unwrap();
    assert_eq!((f, t), (30, 27));
    assert_eq!(f + t, 57);
    assert_eq!(transfer_balances(5, 7, 20).unwrap_err(), "Insufficient strands: have 5, need 20");
}

#[test]
fn tax_payments() {
    assert_eq!(tax_payment(100, 30), Ok(30));
    assert_eq!(tax_payment(10, 30), Ok(10));
    assert_eq!(tax_payment(10, 0).unwrap_err(), "No tax debt to pay");
    assert_eq!(tax_payment(0, 30).unwrap_err(), "No tax debt to pay");
}

#[test]
fn deposits() {
    assert_eq!(check_deposit_request(0).unwrap_err(), "No items specified");
    assert!(check_deposit_request(2).is_ok());
    let items = vec![(1u128, "fiber".to_string(), 30), (2u128, "fiber".to_string(), 12)];
    assert_eq!(deposit_total(&items, 2), Ok(42));
    assert_eq!(deposit_total(&items, 3).unwrap_err(), "Some items not found or not owned by you");
    let mixed = vec![(1u128, "fiber".to_string(), 30), (2u128, "rope".to_string(), 1)];
    assert_eq!(deposit_total(&mixed, 2).unwrap_err(), "Item type 'rope' cannot be deposited, only fiber");
    let empty = vec![(1u128, "fiber".to_string(), 0)];
    assert_eq!(deposit_total(&empty, 1).unwrap_err(), "No fiber to deposit");
}

#[test]
fn withdrawals() {
    assert_eq!(check_withdraw_quantity(0).unwrap_err(), "Quantity must be positive");
    assert!(check_withdraw_quantity(1).is_ok());
    let m = add_withdrawn_fiber(80, 10, 30);
    assert_eq!(m.quantity, 40);
    assert_eq!(m.quality, 57);
}

#[test]
fn hourly_property_taxes() {
    // 2% of 10,000 is 200 a week; 200 / 168 rounds up to 2 an hour
    assert_eq!(hourly_property_tax(10_000), 2);
    // 2% of 8,400 is 168 a week: exactly 1 an hour
    assert_eq!(hourly_property_tax(8_400), 1);
    // 2% of 8,425 is 168.5, rounded to 169: just over 1 an hour
    assert_eq!(hourly_property_tax(8_425), 2);
    // 2% of 24 is 0.48, rounded to 0: no tax
    assert_eq!(hourly_property_tax(24), 0);
    // 2% of 25 is 0.5, rounded away from zero to 1: rounds up to 1 an hour
    assert_eq!(hourly_property_tax(25), 1);
    assert_eq!(hourly_property_tax(0), 0);
    assert_eq!(hourly_property_tax(-10_000), -1);
    assert_eq!(hourly_property_tax(i32::MAX), 255_653);
}

#[test]
fn exchange_fees() {
    assert_eq!(deposit_fee(1000), (5, 995));
    assert_eq!(deposit_fee(199), (0, 199));
    assert_eq!(deposit_fee(200), (1, 199));
    assert_eq!(deposit_fee(1), (0, 1));
    // 100 / 0.995 = 100.50..., rounded up
    assert_eq!(withdrawal_cost(100), 101);
    // 199 / 0.995 = 200 exactly
    assert_eq!(withdrawal_cost(199), 200);
    assert_eq!(withdrawal_cost(1), 2);
    assert_eq!(withdrawal_cost(1000), 1006);
}
