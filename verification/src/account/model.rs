//! The client accounts domain model.
//!
//! As a domain model, this module does not concern itself with I/O or
//! data serialisation.

use vstd::pervasive::VecAdditionalExecFns;
use vstd::prelude::*;

verus! {

/// Domain errors.
#[derive(Debug, PartialEq, Eq, Structural)]
pub enum Error {
    /// Errors such as arithmetic overflow or underflow.
    Arithmetic,

    /// Not enough funds for processing transactions.
    InsufficientFunds,
}

/// Thin wrapper around monetary amounts.
///
/// Floating-point numbers cannot represent exactly all decimal
/// fractions with four digits of precision, so monetary amounts are
/// modelled with unsigned 64-bit numbers instead. The number is
/// wrapped within a struct in order to forbid the use of regular
/// arithmetic operators on it.
///
/// This type holds the quantity of 1/10000 fractions of a coin.
#[derive(Copy, Clone, Debug, Eq, Ord, PartialEq, PartialOrd, Structural)]
pub struct Amount(u64);

impl View for Amount {
    type V = u64;

    closed spec fn view(&self) -> u64 {
        self.0
    }
}

/// Checked addition over the raw counts of ten-thousandths: the sum,
/// or an arithmetic error when it does not fit in 64 bits.
pub open spec fn amount_add(a: u64, b: u64) -> Result<u64, Error> {
    if a + b <= u64::MAX {
        Ok((a + b) as u64)
    } else {
        Err(Error::Arithmetic)
    }
}

/// Checked subtraction over the raw counts of ten-thousandths: the
/// difference, or an arithmetic error when it would go negative.
pub open spec fn amount_sub(a: u64, b: u64) -> Result<u64, Error> {
    if b <= a {
        Ok((a - b) as u64)
    } else {
        Err(Error::Arithmetic)
    }
}

/// An amount result seen through the raw count it carries.
pub open spec fn amount_res_view(r: Result<Amount, Error>) -> Result<u64, Error> {
    match r {
        Ok(a) => Ok(a@),
        Err(e) => Err(e),
    }
}

impl Amount {
    /// The zero amount.
    pub fn new() -> (r: Self)
        ensures
            r@ == 0,
    {
        Amount(0)
    }

    /// Builds an amount from a raw count of ten-thousandths of a coin.
    pub fn from_raw(raw: u64) -> (r: Self)
        ensures
            r@ == raw,
    {
        Amount(raw)
    }

    /// The raw count of ten-thousandths of a coin this amount holds.
    pub fn raw(self) -> (r: u64)
        ensures
            r == self@,
    {
        self.0
    }

    /// Adds another Amount to this one, while detecting overflows.
    pub fn add(self, other: Self) -> (r: Result<Amount, Error>)
        ensures
            amount_res_view(r) == amount_add(self@, other@),
    {
        if self.0 <= u64::MAX - other.0 {
            Ok(Amount(self.0 + other.0))
        } else {
            Err(Error::Arithmetic)
        }
    }

    /// Subtracts another Amount from this one, while detecting underflows.
    pub fn sub(self, other: Self) -> (r: Result<Amount, Error>)
        ensures
            amount_res_view(r) == amount_sub(self@, other@),
    {
        if other.0 <= self.0 {
            Ok(Amount(self.0 - other.0))
        } else {
            Err(Error::Arithmetic)
        }
    }

    /// Renders the amount for user interfaces, with exactly four
    /// fractional digits.
    pub fn to_decimal_string(&self) -> (s: String)
        ensures
            s@ == amount_text(self@),
    {
        let mut s = String::new();
        push_digits(&mut s, self.0 / 10000);
        push_char(&mut s, '.');
        let f = self.0 % 10000;
        push_char(&mut s, digit_of(f / 1000 % 10));
        push_char(&mut s, digit_of(f / 100 % 10));
        push_char(&mut s, digit_of(f / 10 % 10));
        push_char(&mut s, digit_of(f % 10));
        proof {
            assert(s@ =~= amount_text(self@));
        }
        s
    }
}

/// The character for one decimal digit.
pub open spec fn digit_char(d: nat) -> char {
    if d == 0 {
        '0'
    } else if d == 1 {
        '1'
    } else if d == 2 {
        '2'
    } else if d == 3 {
        '3'
    } else if d == 4 {
        '4'
    } else if d == 5 {
        '5'
    } else if d == 6 {
        '6'
    } else if d == 7 {
        '7'
    } else if d == 8 {
        '8'
    } else {
        '9'
    }
}

/// The decimal digits of `n`, most significant first, with no
/// leading zeroes except for `n == 0` itself.
pub open spec fn dec_digits(n: nat) -> Seq<char>
    decreases n,
{
    if n < 10 {
        seq![digit_char(n)]
    } else {
        dec_digits(n / 10).push(digit_char(n % 10))
    }
}

/// The four fractional digits of a raw count, zero-padded.
pub open spec fn frac_digits(f: nat) -> Seq<char> {
    seq![
        digit_char(f / 1000 % 10),
        digit_char(f / 100 % 10),
        digit_char(f / 10 % 10),
        digit_char(f % 10),
    ]
}

/// The canonical rendering of a raw count of ten-thousandths: the
/// whole units, a decimal point, and exactly four fractional digits.
pub open spec fn amount_text(v: u64) -> Seq<char> {
    dec_digits(v as nat / 10000) + seq!['.'] + frac_digits(v as nat % 10000)
}

/// Relies on std's `String::push`: appends exactly the one character.
#[verifier::external_body]
fn push_char(s: &mut String, c: char)
    ensures
        final(s)@ == old(s)@.push(c),
{
    s.push(c);
}

/// The character for one decimal digit.
fn digit_of(d: u64) -> (c: char)
    requires
        d < 10,
    ensures
        c == digit_char(d as nat),
{
    if d == 0 {
        '0'
    } else if d == 1 {
        '1'
    } else if d == 2 {
        '2'
    } else if d == 3 {
        '3'
    } else if d == 4 {
        '4'
    } else if d == 5 {
        '5'
    } else if d == 6 {
        '6'
    } else if d == 7 {
        '7'
    } else if d == 8 {
        '8'
    } else {
        '9'
    }
}

/// Appends the decimal digits of `n` to `s`.
fn push_digits(s: &mut String, n: u64)
    ensures
        final(s)@ == old(s)@ + dec_digits(n as nat),
    decreases n,
{
    if n < 10 {
        push_char(s, digit_of(n));
        assert(s@ =~= old(s)@ + dec_digits(n as nat));
    } else {
        push_digits(s, n / 10);
        push_char(s, digit_of(n % 10));
        assert(s@ =~= old(s)@ + dec_digits(n as nat));
    }
}

/// Alias for a client identifier.
///
/// It's wrapped in a struct in order to forbid arithmetic and
/// ordering on it.
#[derive(Clone, Copy, Debug, Eq, Hash, PartialEq, Structural)]
pub struct ClientId(u16);

impl View for ClientId {
    type V = u16;

    closed spec fn view(&self) -> u16 {
        self.0
    }
}

impl ClientId {
    /// Builds a client identifier from its wire representation.
    pub fn from(id: u16) -> (r: ClientId)
        ensures
            r@ == id,
    {
        ClientId(id)
    }

    /// The wire representation of this client identifier.
    pub fn as_u16(self) -> (r: u16)
        ensures
            r == self@,
    {
        self.0
    }
}

/// Alias for a transaction identifier.
///
/// It's wrapped in a struct in order to forbid arithmetic and
/// ordering on it.
#[derive(Clone, Copy, Debug, Eq, Hash, PartialEq, Structural)]
pub struct Tx(u32);

impl View for Tx {
    type V = u32;

    closed spec fn view(&self) -> u32 {
        self.0
    }
}

impl Tx {
    /// Builds a transaction identifier from its wire representation.
    pub fn from(tx: u32) -> (r: Tx)
        ensures
            r@ == tx,
    {
        Tx(tx)
    }

    /// The wire representation of this transaction identifier.
    pub fn as_u32(self) -> (r: u32)
        ensures
            r == self@,
    {
        self.0
    }
}

/// The extant types of transactions.
#[derive(Debug, Eq, PartialEq, Structural)]
pub enum Transaction {
    /// A credit to the client's asset account.
    ///
    /// It has an identifier and the amount that was deposited.
    Deposit(Tx, Amount),

    /// A debit to the client's asset account.
    ///
    /// It has an identifier and the amount that was withdrawn.
    Withdrawal(Tx, Amount),

    /// A client's claim that a transaction was erroneous.
    ///
    /// It has the identifier of the transaction that's being
    /// disputed.
    Dispute(Tx),

    /// A resolution to a dispute.
    ///
    /// It has the identifier of the transaction that's being
    /// resolved.
    Resolve(Tx),

    /// The final state of a dispute.
    ///
    /// It has the identifier of the transaction that will be
    /// reversed.
    Chargeback(Tx),
}

/// A single transaction against a client account.
#[derive(Debug, Eq, PartialEq, Structural)]
pub struct ClientTransaction {
    /// The account this transaction is related to.
    pub client_id: ClientId,

    /// The contents of this transaction.
    pub transaction: Transaction,
}

/// A deposit stored in the client's account.
#[derive(Clone, Copy, Debug, Eq, PartialEq, Structural)]
struct Deposit {
    /// The identifier of the transaction for this deposit.
    tx: Tx,

    /// The amount that was deposited.
    amount: Amount,

    /// If this deposit is currently being disputed.
    disputed: bool,
}

impl View for Deposit {
    type V = DepositModel;

    closed spec fn view(&self) -> DepositModel {
        DepositModel { tx: self.tx@, amount: self.amount@, disputed: self.disputed }
    }
}

impl Deposit {
    fn new(tx: Tx, amount: Amount) -> (r: Self)
        ensures
            r@ == (DepositModel { tx: tx@, amount: amount@, disputed: false }),
    {
        Deposit { tx, amount, disputed: false }
    }
}

/// Mathematical image of one ledger entry: the deposit's transaction
/// identifier, its raw amount, and whether it is under dispute.
pub ghost struct DepositModel {
    /// The identifier of the transaction for this deposit.
    pub tx: u32,

    /// The raw count of ten-thousandths that was deposited.
    pub amount: u64,

    /// If this deposit is currently being disputed.
    pub disputed: bool,
}

/// Mathematical image of an account: plain numbers for the balances
/// and a sequence for the deposit log.
pub ghost struct AccountModel {
    /// The owner of this account.
    pub owner: u16,

    /// The available funds, as a raw count of ten-thousandths.
    pub available: u64,

    /// Funds held in disputes, as a raw count of ten-thousandths.
    pub held: u64,

    /// If the account is locked due to a chargeback.
    pub locked: bool,

    /// Log of deposits.
    pub deposits: Seq<DepositModel>,
}

/// The state of a freshly created account: both balances zero, not
/// locked, and an empty deposit log.
pub open spec fn account_init(owner: u16) -> AccountModel {
    AccountModel { owner, available: 0, held: 0, locked: false, deposits: Seq::empty() }
}

/// Index of the first ledger entry that carries `tx`, or -1 when none
/// does. Later entries with the same identifier are never reached.
pub open spec fn find_index(deps: Seq<DepositModel>, tx: u32) -> int
    decreases deps.len(),
{
    if deps.len() == 0 {
        -1
    } else if deps[0].tx == tx {
        0
    } else {
        let rest = find_index(deps.drop_first(), tx);
        if rest == -1 {
            -1
        } else {
            rest + 1
        }
    }
}

/// What `find_index` returns: either -1 and no entry carries `tx`, or
/// the position of the first entry that does.
pub proof fn lemma_find_index(deps: Seq<DepositModel>, tx: u32)
    ensures
        find_index(deps, tx) == -1 ==> forall|i: int| 0 <= i < deps.len() ==> deps[i].tx != tx,
        find_index(deps, tx) != -1 ==> {
            let j = find_index(deps, tx);
            &&& 0 <= j < deps.len()
            &&& deps[j].tx == tx
            &&& forall|i: int| 0 <= i < j ==> deps[i].tx != tx
        },
    decreases deps.len(),
{
    if deps.len() != 0 && deps[0].tx != tx {
        let rest = deps.drop_first();
        lemma_find_index(rest, tx);
        assert(forall|i: int| 0 <= i < rest.len() ==> rest[i] == deps[i + 1]);
        if find_index(rest, tx) == -1 {
            assert forall|i: int| 0 <= i < deps.len() implies deps[i].tx != tx by {
                if i > 0 {
                    assert(deps[i] == rest[i - 1]);
                }
            }
        } else {
            let j = find_index(rest, tx);
            assert(deps[j + 1] == rest[j]);
            assert forall|i: int| 0 <= i < j + 1 implies deps[i].tx != tx by {
                if i > 0 {
                    assert(deps[i] == rest[i - 1]);
                }
            }
        }
    }
}

/// What one transaction does to an account: the account state after
/// the step and the result handed back to the caller. A failed step
/// leaves the account exactly as it was.
pub open spec fn apply_model(a: AccountModel, t: Transaction) -> (AccountModel, Result<(), Error>) {
    match t {
        Transaction::Deposit(tx, amt) => match amount_add(a.available, amt@) {
            Ok(av) => (
                AccountModel {
                    available: av,
                    deposits: a.deposits.push(
                        DepositModel { tx: tx@, amount: amt@, disputed: false },
                    ),
                    ..a
                },
                Ok(()),
            ),
            Err(e) => (a, Err(e)),
        },
        Transaction::Withdrawal(_, amt) => match amount_sub(a.available, amt@) {
            Ok(av) => (AccountModel { available: av, ..a }, Ok(())),
            Err(_) => (a, Err(Error::InsufficientFunds)),
        },
        Transaction::Dispute(tx) => {
            let j = find_index(a.deposits, tx@);
            if j == -1 || a.deposits[j].disputed {
                (a, Ok(()))
            } else {
                let amt = a.deposits[j].amount;
                match amount_sub(a.available, amt) {
                    Ok(av) => match amount_add(a.held, amt) {
                        Ok(h) => (
                            AccountModel {
                                available: av,
                                held: h,
                                deposits: a.deposits.update(
                                    j,
                                    DepositModel { disputed: true, ..a.deposits[j] },
                                ),
                                ..a
                            },
                            Ok(()),
                        ),
                        Err(e) => (a, Err(e)),
                    },
                    Err(_) => (a, Err(Error::InsufficientFunds)),
                }
            }
        },
        Transaction::Resolve(tx) => {
            let j = find_index(a.deposits, tx@);
            if j == -1 || !a.deposits[j].disputed {
                (a, Ok(()))
            } else {
                let amt = a.deposits[j].amount;
                match amount_sub(a.held, amt) {
                    Ok(h) => match amount_add(a.available, amt) {
                        Ok(av) => (
                            AccountModel {
                                available: av,
                                held: h,
                                deposits: a.deposits.update(
                                    j,
                                    DepositModel { disputed: false, ..a.deposits[j] },
                                ),
                                ..a
                            },
                            Ok(()),
                        ),
                        Err(e) => (a, Err(e)),
                    },
                    Err(_) => (a, Err(Error::InsufficientFunds)),
                }
            }
        },
        Transaction::Chargeback(tx) => {
            let j = find_index(a.deposits, tx@);
            if j == -1 || !a.deposits[j].disputed {
                (a, Ok(()))
            } else {
                let amt = a.deposits[j].amount;
                match amount_sub(a.held, amt) {
                    Ok(h) => (AccountModel { held: h, locked: true, ..a }, Ok(())),
                    Err(_) => (a, Err(Error::InsufficientFunds)),
                }
            }
        },
    }
}

/// Law: adding an amount to zero and then subtracting the same
/// amount again yields zero, for every representable amount.
pub proof fn lemma_zero_add_sub_round_trip(v: u64)
    ensures
        amount_add(0, v) == Ok::<u64, Error>(v),
        amount_sub(v, v) == Ok::<u64, Error>(0),
{
}

/// Pushing an entry onto the log moves `find_index` predictably: an
/// already-present identifier keeps its position, a fresh one is
/// found at the end, and any other is still missing.
pub proof fn lemma_find_index_push(deps: Seq<DepositModel>, e: DepositModel, tx: u32)
    ensures
        find_index(deps, tx) != -1 ==> find_index(deps.push(e), tx) == find_index(deps, tx),
        find_index(deps, tx) == -1 && e.tx == tx ==> find_index(deps.push(e), tx) == deps.len(),
        find_index(deps, tx) == -1 && e.tx != tx ==> find_index(deps.push(e), tx) == -1,
    decreases deps.len(),
{
    if deps.len() == 0 {
        assert(deps.push(e)[0] == e);
        assert(deps.push(e).drop_first() =~= Seq::<DepositModel>::empty());
        assert(find_index(Seq::<DepositModel>::empty(), tx) == -1);
    } else {
        assert(deps.push(e)[0] == deps[0]);
        assert(deps.push(e).drop_first() =~= deps.drop_first().push(e));
        lemma_find_index_push(deps.drop_first(), e, tx);
        lemma_find_index(deps.drop_first(), tx);
        if deps[0].tx != tx {
            let rest = find_index(deps.drop_first(), tx);
            if rest == -1 && e.tx == tx {
                assert(find_index(deps.drop_first().push(e), tx) == deps.drop_first().len());
                assert(find_index(deps.push(e), tx) == deps.len());
            }
        }
    }
}

/// Law: on an account with nothing available, a deposit followed by a
/// withdrawal of the full amount succeeds and brings the available
/// funds back to zero.
pub proof fn lemma_deposit_then_full_withdrawal(a: AccountModel, tx1: Tx, tx2: Tx, amt: Amount)
    requires
        a.available == 0,
    ensures
        ({
            let (a1, r1) = apply_model(a, Transaction::Deposit(tx1, amt));
            let (a2, r2) = apply_model(a1, Transaction::Withdrawal(tx2, amt));
            &&& r1 == Ok::<(), Error>(())
            &&& r2 == Ok::<(), Error>(())
            &&& a2.available == 0
        }),
{
}

/// Law: on an account with nothing available and nothing held, a
/// deposit under a fresh transaction identifier followed by a dispute
/// of that identifier moves the full amount from available to held.
pub proof fn lemma_deposit_then_dispute(a: AccountModel, tx: Tx, amt: Amount)
    requires
        a.available == 0,
        a.held == 0,
        find_index(a.deposits, tx@) == -1,
    ensures
        ({
            let (a1, r1) = apply_model(a, Transaction::Deposit(tx, amt));
            let (a2, r2) = apply_model(a1, Transaction::Dispute(tx));
            &&& r1 == Ok::<(), Error>(())
            &&& r2 == Ok::<(), Error>(())
            &&& a2.available == 0
            &&& a2.held == amt@
        }),
{
    let e = DepositModel { tx: tx@, amount: amt@, disputed: false };
    lemma_find_index_push(a.deposits, e, tx@);
    let a1 = apply_model(a, Transaction::Deposit(tx, amt)).0;
    assert(a1.deposits == a.deposits.push(e));
    assert(a1.deposits[find_index(a1.deposits, tx@)] == e);
}

/// Law: a dispute that references an unknown transaction identifier
/// is a no-op: the account is unchanged and no error is returned.
pub proof fn lemma_dispute_unknown_noop(a: AccountModel, tx: Tx)
    requires
        find_index(a.deposits, tx@) == -1,
    ensures
        apply_model(a, Transaction::Dispute(tx)) == (a, Ok::<(), Error>(())),
{
}

/// Law: a dispute of a deposit that is already under dispute is a
/// no-op as well.
pub proof fn lemma_dispute_disputed_noop(a: AccountModel, tx: Tx)
    requires
        find_index(a.deposits, tx@) != -1,
        a.deposits[find_index(a.deposits, tx@)].disputed,
    ensures
        apply_model(a, Transaction::Dispute(tx)) == (a, Ok::<(), Error>(())),
{
}

/// Law: a resolve that references an unknown transaction identifier
/// or a deposit that is not under dispute is a no-op.
pub proof fn lemma_resolve_noop(a: AccountModel, tx: Tx)
    requires
        find_index(a.deposits, tx@) == -1 || !a.deposits[find_index(a.deposits, tx@)].disputed,
    ensures
        apply_model(a, Transaction::Resolve(tx)) == (a, Ok::<(), Error>(())),
{
}

/// Law: a chargeback on a disputed deposit whose amount fits in the
/// held funds locks the account and reduces held by exactly that
/// amount, leaving available as it was.
pub proof fn lemma_chargeback_disputed(a: AccountModel, tx: Tx)
    requires
        find_index(a.deposits, tx@) != -1,
        a.deposits[find_index(a.deposits, tx@)].disputed,
        a.deposits[find_index(a.deposits, tx@)].amount <= a.held,
    ensures
        ({
            let (a2, r) = apply_model(a, Transaction::Chargeback(tx));
            &&& r == Ok::<(), Error>(())
            &&& a2.locked
            &&& a2.held == a.held - a.deposits[find_index(a.deposits, tx@)].amount
            &&& a2.available == a.available
        }),
{
}

/// Law: a chargeback that references an unknown transaction
/// identifier or a non-disputed deposit is a no-op; in particular it
/// leaves the locked flag as it was.
pub proof fn lemma_chargeback_non_disputed_noop(a: AccountModel, tx: Tx)
    requires
        find_index(a.deposits, tx@) == -1 || !a.deposits[find_index(a.deposits, tx@)].disputed,
    ensures
        apply_model(a, Transaction::Chargeback(tx)) == (a, Ok::<(), Error>(())),
{
}

/// A client's account.
#[derive(Debug)]
pub struct Account {
    /// The owner of this account.
    pub owner: ClientId,

    /// The available funds.
    pub available: Amount,

    /// Funds held in disputes.
    pub held: Amount,

    /// If the account is locked due to a chargeback.
    pub locked: bool,

    /// Log of deposits.
    deposits: Vec<Deposit>,
}

impl View for Account {
    type V = AccountModel;

    closed spec fn view(&self) -> AccountModel {
        AccountModel {
            owner: self.owner@,
            available: self.available@,
            held: self.held@,
            locked: self.locked,
            deposits: self.deposits@.map_values(|d: Deposit| d@),
        }
    }
}

impl Clone for Account {
    /// An equal snapshot of the account.
    fn clone(&self) -> (res: Self)
        ensures
            res@ == self@,
    {
        let mut deposits: Vec<Deposit> = Vec::new();
        let mut i: usize = 0;
        while i < self.deposits.len()
            invariant
                i <= self.deposits.len(),
                deposits@ == self.deposits@.subrange(0, i as int),
            decreases self.deposits.len() - i,
        {
            deposits.push(self.deposits[i]);
            proof {
                assert(deposits@ =~= self.deposits@.subrange(0, i + 1));
            }
            i += 1;
        }
        proof {
            assert(deposits@ =~= self.deposits@);
        }
        Account {
            owner: self.owner,
            available: self.available,
            held: self.held,
            locked: self.locked,
            deposits,
        }
    }
}

impl Account {
    /// Creates the empty account owned by `client_id`.
    pub fn new(client_id: ClientId) -> (r: Self)
        ensures
            r@ == account_init(client_id@),
    {
        let r = Account {
            owner: client_id,
            available: Amount::new(),
            held: Amount::new(),
            locked: false,
            deposits: Vec::new(),
        };
        proof {
            assert(r@.deposits =~= account_init(client_id@).deposits);
        }
        r
    }

    /// Position of the first logged deposit carrying `tx`, if any.
    fn find_deposit(&self, tx: Tx) -> (r: Option<usize>)
        ensures
            match r {
                Some(i) => find_index(self@.deposits, tx@) == i as int,
                None => find_index(self@.deposits, tx@) == -1,
            },
    {
        let mut i: usize = 0;
        while i < self.deposits.len()
            invariant
                i <= self.deposits.len(),
                forall|k: int| 0 <= k < i ==> self@.deposits[k].tx != tx@,
            decreases self.deposits.len() - i,
        {
            if self.deposits[i].tx == tx {
                proof {
                    lemma_find_index(self@.deposits, tx@);
                    assert(self@.deposits[i as int].tx == tx@);
                }
                return Some(i);
            }
            i += 1;
        }
        proof {
            lemma_find_index(self@.deposits, tx@);
        }
        None
    }

    /// Applies one transaction to this account, as `apply_model`
    /// describes: a failed step hands back the error and leaves the
    /// account exactly as it was.
    pub fn apply(&mut self, tx: Transaction) -> (r: Result<(), Error>)
        ensures
            final(self)@ == apply_model(old(self)@, tx).0,
            r == apply_model(old(self)@, tx).1,
    {
        match tx {
            Transaction::Deposit(id, amount) => {
                match self.available.add(amount) {
                    Ok(new_avail) => {
                        self.available = new_avail;
                        self.deposits.push(Deposit::new(id, amount));
                        proof {
                            assert(self@.deposits =~= apply_model(old(self)@, tx).0.deposits);
                        }
                        Ok(())
                    },
                    Err(e) => Err(e),
                }
            },
            Transaction::Withdrawal(_, amount) => {
                match self.available.sub(amount) {
                    Ok(new_avail) => {
                        self.available = new_avail;
                        Ok(())
                    },
                    Err(_) => Err(Error::InsufficientFunds),
                }
            },
            Transaction::Dispute(other_tx) => {
                match self.find_deposit(other_tx) {
                    Some(i) => {
                        proof {
                            lemma_find_index(self@.deposits, other_tx@);
                        }
                        let dep = self.deposits[i];
                        if !dep.disputed {
                            match self.available.sub(dep.amount) {
                                Ok(new_avail) => match self.held.add(dep.amount) {
                                    Ok(new_held) => {
                                        self.available = new_avail;
                                        self.held = new_held;
                                        self.deposits.set(i, Deposit { disputed: true, ..dep });
                                        proof {
                                            assert(self@.deposits =~= apply_model(
                                                old(self)@,
                                                tx,
                                            ).0.deposits);
                                        }
                                        Ok(())
                                    },
                                    Err(e) => Err(e),
                                },
                                Err(_) => Err(Error::InsufficientFunds),
                            }
                        } else {
                            Ok(())
                        }
                    },
                    None => Ok(()),
                }
            },
            Transaction::Resolve(other_tx) => {
                match self.find_deposit(other_tx) {
                    Some(i) => {
                        proof {
                            lemma_find_index(self@.deposits, other_tx@);
                        }
                        let dep = self.deposits[i];
                        if dep.disputed {
                            match self.held.sub(dep.amount) {
                                Ok(new_held) => match self.available.add(dep.amount) {
                                    Ok(new_avail) => {
                                        self.available = new_avail;
                                        self.held = new_held;
                                        self.deposits.set(i, Deposit { disputed: false, ..dep });
                                        proof {
                                            assert(self@.deposits =~= apply_model(
                                                old(self)@,
                                                tx,
                                            ).0.deposits);
                                        }
                                        Ok(())
                                    },
                                    Err(e) => Err(e),
                                },
                                Err(_) => Err(Error::InsufficientFunds),
                            }
                        } else {
                            Ok(())
                        }
                    },
                    None => Ok(()),
                }
            },
            Transaction::Chargeback(other_tx) => {
                match self.find_deposit(other_tx) {
                    Some(i) => {
                        proof {
                            lemma_find_index(self@.deposits, other_tx@);
                        }
                        let dep = self.deposits[i];
                        if dep.disputed {
                            match self.held.sub(dep.amount) {
                                Ok(new_held) => {
                                    self.held = new_held;
                                    self.locked = true;
                                    Ok(())
                                },
                                Err(_) => Err(Error::InsufficientFunds),
                            }
                        } else {
                            Ok(())
                        }
                    },
                    None => Ok(()),
                }
            },
        }
    }
}

} // verus!
