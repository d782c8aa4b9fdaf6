use vstd::prelude::*;
use vstd::string::StringExecFns;

use crate::text::{decimal, decimal_text, join3};
use crate::trade_execution::fits_i64;

verus! {

/// Kinds of strand transactions in the audit log.
#[derive(Debug, Clone, Copy, PartialEq, Eq, Structural)]
pub enum TransactionType {
    ExchangeDeposit,
    ExchangeWithdraw,
    TradeReceived,
    TradeSent,
    AdminAdjustment,
}

/// The name under which a transaction type is logged.
pub open spec fn transaction_type_name(t: TransactionType) -> Seq<char> {
    match t {
        TransactionType::ExchangeDeposit => "exchange_deposit"@,
        TransactionType::ExchangeWithdraw => "exchange_withdraw"@,
        TransactionType::TradeReceived => "trade_received"@,
        TransactionType::TradeSent => "trade_sent"@,
        TransactionType::AdminAdjustment => "admin_adjustment"@,
    }
}

impl TransactionType {
    /// The name under which this transaction type is logged.
    pub fn as_str(&self) -> (r: &'static str)
        ensures
            r@ == transaction_type_name(*self),
    {
        match self {
            TransactionType::ExchangeDeposit => "exchange_deposit",
            TransactionType::ExchangeWithdraw => "exchange_withdraw",
            TransactionType::TradeReceived => "trade_received",
            TransactionType::TradeSent => "trade_sent",
            TransactionType::AdminAdjustment => "admin_adjustment",
        }
    }
}

/// Kinds of property-tax events.
#[derive(Debug, Clone, Copy, PartialEq, Eq, Structural)]
pub enum PropertyTaxType {
    Collection,
    Delinquent,
}

/// The message for a balance `have` too small for a payment of `need`.
pub open spec fn insufficient_error(have: int, need: int) -> Seq<char> {
    "Insufficient strands: have "@ + decimal(have) + ", need "@ + decimal(need)
}

/// Message for a balance too small for a payment.
fn insufficient_message(have: i64, need: i64) -> (r: String)
    ensures
        r@ == insufficient_error(have as int, need as int),
{
    let have_text = decimal_text(have);
    let need_text = decimal_text(need);
    let mut out = join3("Insufficient strands: have ", have_text.as_str(), ", need ");
    out.append(need_text.as_str());
    out
}

/// A balance after `amount` strands are added.
pub open spec fn credited(balance: int, amount: int) -> int {
    balance + amount
}

/// A balance after `amount` strands are taken.
pub open spec fn debited(balance: int, amount: int) -> int {
    balance - amount
}

/// The sender's and the recipient's balances after `amount` strands pass between them.
pub open spec fn transferred(from_before: int, to_before: int, amount: int) -> (int, int) {
    (debited(from_before, amount), credited(to_before, amount))
}

/// Rejects amounts that are not positive.
pub fn check_amount(amount: i64) -> (r: Result<(), String>)
    ensures
        amount > 0 <==> r is Ok,
        r matches Err(e) ==> e@ == "Amount must be positive"@,
{
    if amount <= 0 {
        return Err("Amount must be positive".to_owned());
    }
    Ok(())
}

/// The balance after adding `amount` strands; the amount must be positive.
pub fn credit(balance_before: i64, amount: i64) -> (r: Result<i64, String>)
    requires
        amount > 0 ==> fits_i64(balance_before + amount),
    ensures
        amount > 0 <==> r is Ok,
        r matches Ok(b) ==> b == credited(balance_before as int, amount as int),
        r matches Err(e) ==> e@ == "Amount must be positive"@,
{
    check_amount(amount)?;
    Ok(balance_before + amount)
}

/// The balance after taking `amount` strands; the amount must be positive and covered.
pub fn debit(balance_before: i64, amount: i64) -> (r: Result<i64, String>)
    ensures
        (amount > 0 && balance_before >= amount) <==> r is Ok,
        r matches Ok(b) ==> b == debited(balance_before as int, amount as int),
        amount <= 0 ==> (r matches Err(e) && e@ == "Amount must be positive"@),
        amount > 0 && balance_before < amount ==> (r matches Err(e) && e@ == insufficient_error(
            balance_before as int,
            amount as int,
        )),
{
    if amount <= 0 {
        return Err("Amount must be positive".to_owned());
    }
    if balance_before < amount {
        return Err(insufficient_message(balance_before, amount));
    }
    Ok(balance_before - amount)
}

/// Checks a transfer request and gives the order in which the two balances are locked
/// (lower id first), so that concurrent transfers cannot deadlock.
pub fn check_transfer(from_id: u128, to_id: u128, amount: i64) -> (r: Result<(u128, u128), String>)
    ensures
        (amount > 0 && from_id != to_id) <==> r is Ok,
        amount <= 0 ==> (r matches Err(e) && e@ == "Amount must be positive"@),
        amount > 0 && from_id == to_id ==> (r matches Err(e) && e@ == "Cannot transfer to self"@),
        r matches Ok(order) ==> order == (if from_id < to_id {
            (from_id, to_id)
        } else {
            (to_id, from_id)
        }),
{
    check_amount(amount)?;
    if from_id == to_id {
        return Err("Cannot transfer to self".to_owned());
    }
    if from_id < to_id {
        Ok((from_id, to_id))
    } else {
        Ok((to_id, from_id))
    }
}

/// The sender's and recipient's balances after a transfer of `amount`; the sender must cover it.
pub fn transfer_balances(from_before: i64, to_before: i64, amount: i64) -> (r: Result<
    (i64, i64),
    String,
>)
    requires
        from_before >= amount ==> fits_i64(from_before - amount) && fits_i64(to_before + amount),
    ensures
        from_before >= amount <==> r is Ok,
        r matches Err(e) ==> e@ == insufficient_error(from_before as int, amount as int),
        r matches Ok(p) ==> (p.0 as int, p.1 as int) == transferred(
            from_before as int,
            to_before as int,
            amount as int,
        ),
{
    if from_before < amount {
        return Err(insufficient_message(from_before, amount));
    }
    Ok((from_before - amount, to_before + amount))
}

/// A transfer moves strands from one balance to the other without changing their sum.
pub proof fn lemma_transfer_conserves_strands(from_before: int, to_before: int, amount: int)
    ensures
        transferred(from_before, to_before, amount).0 + transferred(from_before, to_before, amount).1
            == from_before + to_before,
{
}

/// A debit followed by a credit of the same positive amount restores the balance.
pub proof fn lemma_debit_then_credit_restores(balance: int, amount: int)
    requires
        amount > 0,
        balance >= amount,
    ensures
        credited(debited(balance, amount), amount) == balance,
{
}

/// A plot's weekly property tax: 2% of its assessed value (one fiftieth), rounded to the nearest
/// strand, halves away from zero.
pub open spec fn weekly_property_tax(assessed_value: int) -> int {
    if assessed_value >= 0 {
        (assessed_value + 25) / 50
    } else {
        -((-assessed_value + 25) / 50)
    }
}

/// A plot's hourly property tax: its weekly tax over the 168 hours of a week, rounded up.
pub open spec fn hourly_property_tax_of(assessed_value: int) -> int {
    let w = weekly_property_tax(assessed_value);
    if w >= 0 {
        (w + 167) / 168
    } else {
        -((-w) / 168)
    }
}

/// The tax collected each hour from a plot of the given assessed value (nothing is collected
/// when it is not positive). Computed on integers; the two roundings are those of rounding
/// `assessed_value * 0.02` to the nearest integer and of dividing that by 168 upward.
pub fn hourly_property_tax(assessed_value: i32) -> (r: i64)
    ensures
        r == hourly_property_tax_of(assessed_value as int),
{
    let a = assessed_value as i64;
    let weekly: i64 = if a >= 0 {
        (a + 25) / 50
    } else {
        0 - ((0 - a + 25) / 50)
    };
    if weekly >= 0 {
        (weekly + 167) / 168
    } else {
        0 - ((0 - weekly) / 168)
    }
}

/// A plot assessed at no more than 24 strands (of either sign) owes no tax.
pub proof fn lemma_small_plots_pay_no_tax(assessed_value: int)
    requires
        -24 <= assessed_value <= 24,
    ensures
        weekly_property_tax(assessed_value) == 0,
        hourly_property_tax_of(assessed_value) == 0,
{
}

/// For a plot of non-negative value, a week of hourly taxes covers the weekly tax, and with one
/// hour's tax less it would not: the hourly tax is the weekly tax over 168, rounded up.
pub proof fn lemma_hourly_tax_covers_week(assessed_value: int)
    requires
        assessed_value >= 0,
    ensures
        168 * hourly_property_tax_of(assessed_value) >= weekly_property_tax(assessed_value),
        168 * (hourly_property_tax_of(assessed_value) - 1) < weekly_property_tax(assessed_value),
        hourly_property_tax_of(assessed_value) > 0 <==> weekly_property_tax(assessed_value) > 0,
{
}

/// How much of a plot's tax debt a payment of `amount` settles: the smaller of the two, which
/// must be positive.
pub fn tax_payment(amount: i64, tax_owed: i32) -> (r: Result<i64, String>)
    ensures
        r is Ok <==> (if amount < tax_owed { amount } else { tax_owed as i64 }) > 0,
        r matches Ok(p) ==> p == (if amount < tax_owed { amount } else { tax_owed as i64 }),
        r matches Err(e) ==> e@ == "No tax debt to pay"@,
{
    let owed = tax_owed as i64;
    let payment = if amount < owed { amount } else { owed };
    if payment <= 0 {
        return Err("No tax debt to pay".to_owned());
    }
    Ok(payment)
}

} // verus!
