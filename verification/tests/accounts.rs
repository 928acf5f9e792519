use orga::coins::{Accounts, Address, Amount, Coin, MultiShare, Ratio, Symbol};
use orga::error::{Error, Result};

#[derive(Clone, Debug, Default)]
struct Simp;
impl Symbol for Simp {
    const INDEX: u8 = 0;
    const NAME: &'static str = "SIMP";
}

fn coins(n: u64) -> Coin<Simp> {
    Simp::mint(Amount::new(n))
}

#[test]
fn transfer_moves_exact_amount() -> Result<()> {
    let alice = Address::from_pubkey([0; 33]);
    let bob = Address::from_pubkey([1; 33]);
    let mut accounts: Accounts<Simp> = Accounts::new();
    accounts.deposit(alice, coins(100))?;
    match accounts.transfer(Some(alice), bob, Amount::new(10)) {
        Err(Error::Coins(msg)) => assert_eq!(msg, "Transfers are currently disabled"),
        other => panic!("unexpected {:?}", other),
    }
    accounts.allow_transfers(true);
    accounts.transfer(Some(alice), bob, Amount::new(30))?;
    assert_eq!(accounts.balance(alice)?.value, 70);
    assert_eq!(accounts.balance(bob)?.value, 30);
    match accounts.transfer(Some(bob), alice, Amount::new(31)) {
        Err(Error::Coins(msg)) => assert_eq!(msg, "Insufficient funds"),
        other => panic!("unexpected {:?}", other),
    }
    match accounts.transfer(None, alice, Amount::new(1)) {
        Err(Error::Coins(msg)) => assert_eq!(msg, "Unauthorized account action"),
        other => panic!("unexpected {:?}", other),
    }
    Ok(())
}

#[test]
fn transfer_exception_allows_transfer() -> Result<()> {
    let alice = Address::from_pubkey([0; 33]);
    let bob = Address::from_pubkey([1; 33]);
    let mut accounts: Accounts<Simp> = Accounts::new();
    accounts.deposit(alice, coins(5))?;
    accounts.add_transfer_exception(alice)?;
    accounts.transfer(Some(alice), bob, Amount::new(5))?;
    assert_eq!(accounts.balance(alice)?.value, 0);
    assert!(accounts.account_exists(bob)?);
    assert!(!accounts.account_exists(Address::from_pubkey([2; 33]))?);
    Ok(())
}

#[test]
fn withdraw_and_funding() -> Result<()> {
    let alice = Address::from_pubkey([0; 33]);
    let mut accounts: Accounts<Simp> = Accounts::new();
    accounts.deposit(alice, coins(20))?;
    assert_eq!(accounts.withdraw(alice, Amount::new(5))?.amount.value, 5);
    assert!(accounts.withdraw(alice, Amount::new(16)).is_err());
    let mut paid = MultiShare::new();
    accounts.take_as_funding(Some(alice), Amount::new(15), &mut paid)?;
    assert_eq!(accounts.balance(alice)?.value, 0);
    accounts.give_from_funding(Some(alice), Amount::new(4), &mut paid)?;
    assert_eq!(accounts.balance(alice)?.value, 4);
    accounts.give_from_funding_all(Some(alice), &mut paid)?;
    assert_eq!(accounts.balance(alice)?.value, 15);
    Ok(())
}

#[test]
fn ratio_reduces_and_compares() -> Result<()> {
    let r = Ratio::new(6, 4)?;
    assert_eq!((r.numer, r.denom), (3, 2));
    assert_eq!(r.amount().value, 1);
    assert!(matches!(Ratio::new(1, 0), Err(Error::DivideByZero)));
    let half = Ratio::new(1, 2)?;
    assert!(half.lt(&r));
    assert!(Ratio::new(2, 4)?.value_eq(&half));
    assert_eq!(Ratio::default().numer, 0);
    Ok(())
}

#[test]
fn address_bech32_roundtrip() -> Result<()> {
    let a = Address::from_pubkey([3; 33]);
    let s = a.to_bech32();
    assert!(s.starts_with("nomic1"));
    let b = Address::from_bech32(&s)?;
    assert_eq!(a.bytes, b.bytes);
    assert!(matches!(Address::from_bech32("nomic1qqqq"), Err(Error::Address(_))));
    assert!(matches!(Address::from_bech32("not an address"), Err(Error::Address(_))));
    Ok(())
}

#[test]
fn address_parses_from_str() -> Result<()> {
    let a = Address::from_pubkey([5; 33]);
    let parsed: Address = a.to_bech32().parse()?;
    assert_eq!(parsed.bytes, a.bytes);
    assert!("cosmos1qqqqqqqqqqqqqqqqqqqqqqqqqqqqqqqqnrql8a".parse::<Address>().is_err());
    Ok(())
}
