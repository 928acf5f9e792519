use orga::coins::{Address, Amount, Balance, Coin, Decimal, Give, Pool, Share, Symbol, Take, Wf};
use orga::coins::pool::PoolValue;
use orga::error::Result;

#[derive(Clone, Debug, Default)]
struct Simp;
impl Symbol for Simp {
    const INDEX: u8 = 0;
    const NAME: &'static str = "SIMP";
}

fn dec(v: u64) -> Decimal {
    Decimal::from_u64(v)
}

fn is(d: Decimal, v: u64) -> bool {
    d.value_eq(&dec(v))
}

fn amount_of(r: Result<Amount>) -> u64 {
    r.unwrap().value
}

fn give_to(pool: &mut Pool<Address, Share<Simp>, Simp>, who: Address, coin: Coin<Simp>) -> Result<()> {
    let mut child = pool.get_mut(who)?;
    let res = child.entry.inner.give(coin);
    pool.commit(child);
    res
}

fn touch(pool: &mut Pool<Address, Share<Simp>, Simp>, who: Address) -> Result<()> {
    let child = pool.get_mut(who)?;
    pool.commit(child);
    Ok(())
}

fn pool_balance<V: PoolValue<Simp>>(pool: &Pool<Address, V, Simp>) -> Decimal {
    Balance::<Simp, Decimal>::balance(pool).unwrap()
}

#[test]
fn order_a() -> Result<()> {
    let mut pool: Pool<Address, Share<Simp>, Simp> = Pool::new();

    let alice = Address::from_pubkey([0; 33]);
    let bob = Address::from_pubkey([1; 33]);

    give_to(&mut pool, alice, Simp::mint(Amount::new(50)))?;
    pool.give(Simp::mint(Amount::new(100)))?;
    give_to(&mut pool, bob, Simp::mint(Amount::new(50)))?;

    assert!(is(pool_balance(&pool), 100));
    touch(&mut pool, alice)?;
    assert!(is(pool_balance(&pool), 200));
    assert_eq!(amount_of(pool.get(alice)?.value().amount()), 150);
    assert_eq!(amount_of(pool.get(bob)?.value().amount()), 50);

    Ok(())
}

#[test]
fn order_b() -> Result<()> {
    let mut pool: Pool<Address, Share<Simp>, Simp> = Pool::new();

    let alice = Address::from_pubkey([0; 33]);
    let bob = Address::from_pubkey([1; 33]);

    give_to(&mut pool, alice, Simp::mint(Amount::new(50)))?;
    give_to(&mut pool, bob, Simp::mint(Amount::new(50)))?;
    pool.give(Simp::mint(Amount::new(100)))?;

    assert!(is(pool_balance(&pool), 100));
    assert_eq!(amount_of(pool.get(alice)?.value().amount()), 100);
    assert_eq!(amount_of(pool.get(bob)?.value().amount()), 100);
    touch(&mut pool, alice)?;
    touch(&mut pool, bob)?;

    Ok(())
}

struct SimpAccount {
    liquid: Decimal,
    locked: Decimal,
}

impl SimpAccount {
    fn deposit_locked(&mut self, amount: u64) -> Result<()> {
        self.locked = self.locked.add_amount(Amount::new(amount))?;
        Ok(())
    }
}

impl Wf for SimpAccount {
    fn wf(&self) -> bool {
        true
    }
}

impl Give<(u8, Amount)> for SimpAccount {
    fn give_post(self, _value: (u8, Amount), _new: Self, _r: Result<()>) -> bool {
        true
    }

    fn give(&mut self, value: (u8, Amount)) -> Result<()> {
        self.liquid = self.liquid.add_amount(value.1)?;
        Ok(())
    }
}

impl Balance<Simp, Decimal> for SimpAccount {
    fn balance_post(&self, _r: Result<Decimal>) -> bool {
        true
    }

    fn balance(&self) -> Result<Decimal> {
        Ok(self.locked)
    }
}

impl PoolValue<Simp> for SimpAccount {
    fn is_fresh(&self) -> bool {
        true
    }

    fn lemma_balance_wf(_value: Self, _balance: Decimal) {}

    fn empty() -> Self {
        SimpAccount { liquid: Decimal::zero(), locked: Decimal::zero() }
    }
}

fn with_account<F: FnOnce(&mut SimpAccount) -> Result<()>>(
    pool: &mut Pool<Address, SimpAccount, Simp>,
    who: Address,
    f: F,
) -> Result<(Decimal, Decimal)> {
    let mut child = pool.get_mut(who)?;
    let res = f(&mut child.entry.inner);
    let out = (child.entry.inner.locked, child.entry.inner.liquid);
    pool.commit(child);
    res.map(|_| out)
}

#[test]
fn dividends() -> Result<()> {
    let mut pool: Pool<Address, SimpAccount, Simp> = Pool::new();

    let alice = Address::from_pubkey([0; 33]);
    let bob = Address::from_pubkey([1; 33]);

    with_account(&mut pool, alice, |a| a.deposit_locked(50))?;
    assert!(is(pool.contributions, 50));
    assert!(is(with_account(&mut pool, alice, |_| Ok(()))?.0, 50));
    pool.give(Simp::mint(Amount::new(100)))?;
    assert!(is(pool.contributions, 50));
    assert!(is(with_account(&mut pool, alice, |_| Ok(()))?.0, 50));
    assert!(is(with_account(&mut pool, alice, |_| Ok(()))?.1, 100));
    assert!(is(pool.contributions, 50));
    with_account(&mut pool, bob, |b| b.deposit_locked(50))?;
    pool.give(Simp::mint(Amount::new(100)))?;
    with_account(&mut pool, alice, |_| Ok(()))?;

    assert!(is(with_account(&mut pool, alice, |_| Ok(()))?.0, 50));
    assert!(is(with_account(&mut pool, alice, |_| Ok(()))?.1, 150));
    assert!(is(with_account(&mut pool, bob, |_| Ok(()))?.0, 50));
    assert!(is(with_account(&mut pool, bob, |_| Ok(()))?.1, 50));

    Ok(())
}

#[test]
fn emptied_pool() -> Result<()> {
    let mut pool: Pool<Address, Share<Simp>, Simp> = Pool::new();

    let alice = Address::from_pubkey([0; 33]);

    give_to(&mut pool, alice, Simp::mint(Amount::new(50)))?;
    let mut child = pool.get_mut(alice)?;
    let taken = child.entry.inner.take(Amount::new(50));
    pool.commit(child);
    taken?.burn();

    assert!(is(pool_balance(&pool), 0));

    give_to(&mut pool, alice, Simp::mint(Amount::new(50)))?;
    pool.give(Simp::mint(Amount::new(50)))?;
    let mut child = pool.get_mut(alice)?;
    let taken = child.entry.inner.take(Amount::new(100));
    pool.commit(child);
    taken?.burn();
    assert!(is(pool_balance(&pool), 0));
    pool.give(Simp::mint(Amount::new(50)))
        .expect_err("Should not be able to give to emptied pool");

    Ok(())
}
