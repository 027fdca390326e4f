use crate::api::Api;
use crate::error::Error;
use crate::msg::Coin;
use crate::msg::ConfigResponse;
use crate::msg::Env;
use crate::msg::HandleMsg;
use crate::msg::HandleResponse;
use crate::msg::InitMsg;
use crate::msg::InitResponse;
use crate::msg::LogEntry;
use crate::msg::LogValue;
use crate::msg::QueryMsg;
use crate::state::config_get;
use crate::state::config_set;
use crate::state::has_config;
use crate::state::lemma_encode_utf8_len;
use crate::state::lemma_with_config;
use crate::state::lemma_with_lock;
use crate::state::lemma_with_total;
use crate::state::lock_map_get;
use crate::state::lock_map_set;
use crate::state::lock_of;
use crate::state::spec_config_of;
use crate::state::total_amount_increase;
use crate::state::total_of;
use crate::state::with_config;
use crate::state::with_lock;
use crate::state::with_total;
use crate::state::Config;
use crate::store::Store;
use vstd::prelude::*;

verus! {

/// The single denomination the module accepts in lock transfers.
pub open spec fn supported_denom() -> Seq<char> {
    "ukrw"@
}

/// A lock request must attach exactly one transfer, in the supported
/// denomination.
pub open spec fn funds_valid(funds: Seq<Coin>) -> bool {
    funds.len() == 1 && funds[0].denom@ == supported_denom()
}

/// The amount carried by a valid attachment.
pub open spec fn lock_amount(funds: Seq<Coin>) -> u128 {
    funds[0].amount
}

/// Both counters a lock touches stay within the machine word.
pub open spec fn lock_fits(m: Map<Seq<u8>, Seq<u8>>, sender: Seq<u8>, amount: u128) -> bool {
    &&& total_of(m) + amount <= u128::MAX
    &&& lock_of(m, sender) + amount <= u128::MAX
}

/// What a lock message must fit within the machine word, given the store
/// it will run against.
pub open spec fn lock_msg_fits(m: Map<Seq<u8>, Seq<u8>>, env: Env) -> bool {
    funds_valid(env.message.sent_funds@) ==> lock_fits(
        m,
        env.message.sender@,
        lock_amount(env.message.sent_funds@),
    )
}

/// The store contents after a successful lock: the total and the sender's
/// balance each grow by the locked amount.
pub open spec fn lock_transition(m: Map<Seq<u8>, Seq<u8>>, sender: Seq<u8>, amount: u128) -> Map<
    Seq<u8>,
    Seq<u8>,
> {
    with_lock(
        with_total(m, (total_of(m) + amount) as u128),
        sender,
        (lock_of(m, sender) + amount) as u128,
    )
}

/// The log attributes a successful lock emits.
pub open spec fn lock_log(log: Seq<LogEntry>, sender: Seq<u8>, amount: u128) -> bool {
    &&& log.len() == 3
    &&& log[0].key@ == "action"@
    &&& (log[0].value matches LogValue::Text(t) && t@ == "lock"@)
    &&& log[1].key@ == "address"@
    &&& (log[1].value matches LogValue::Address(a) && a@ == sender)
    &&& log[2].key@ == "amount"@
    &&& (log[2].value matches LogValue::Amount(x) && x == amount)
}

/// The log attributes an unlock emits.
pub open spec fn unlock_log(log: Seq<LogEntry>, amount: u128) -> bool {
    &&& log.len() == 2
    &&& log[0].key@ == "action"@
    &&& (log[0].value matches LogValue::Text(t) && t@ == "unlock"@)
    &&& log[1].key@ == "amount"@
    &&& (log[1].value matches LogValue::Amount(x) && x == amount)
}

/// Everything a lock call guarantees, relating the store before and after
/// the call to its result.  A failing store write may leave the total
/// already raised; the host discards all writes of a failed call.
pub open spec fn lock_post(
    pre: Map<Seq<u8>, Seq<u8>>,
    post: Map<Seq<u8>, Seq<u8>>,
    env: Env,
    r: Result<HandleResponse, Error>,
) -> bool {
    match r {
        Ok(resp) => {
            &&& funds_valid(env.message.sent_funds@)
            &&& post == lock_transition(
                pre,
                env.message.sender@,
                lock_amount(env.message.sent_funds@),
            )
            &&& lock_log(resp.log@, env.message.sender@, lock_amount(env.message.sent_funds@))
            &&& resp.data is None
        },
        Err(Error::InvalidFunds) => !funds_valid(env.message.sent_funds@) && post == pre,
        Err(Error::StorageError) => funds_valid(env.message.sent_funds@) && (post == pre || post
            == with_total(
            pre,
            (total_of(pre) + lock_amount(env.message.sent_funds@)) as u128,
        )),
        Err(_) => false,
    }
}

/// Everything an unlock call guarantees: it always succeeds, changes no
/// record, and only reports what was asked.
pub open spec fn unlock_post(
    pre: Map<Seq<u8>, Seq<u8>>,
    post: Map<Seq<u8>, Seq<u8>>,
    amount: u128,
    r: Result<HandleResponse, Error>,
) -> bool {
    match r {
        Ok(resp) => post == pre && unlock_log(resp.log@, amount) && resp.data is None,
        Err(_) => false,
    }
}

/// Initialization: records the given name and the sender as the owner.
/// It runs unguarded, so a second call silently overwrites the record.
pub fn init<S: Store>(store: &mut S, env: Env, msg: InitMsg) -> (r: Result<InitResponse, Error>)
    ensures
        match r {
            Ok(resp) => final (store).contents() == with_config(
                old(store).contents(),
                msg.name@,
                env.message.sender@,
            ) && resp.log@ == Seq::<LogEntry>::empty(),
            Err(e) => e == Error::StorageError && final (store).contents() == old(
                store,
            ).contents(),
        },
{
    let config = Config { name: msg.name, owner: env.message.sender };
    match config_set(store, &config) {
        Ok(()) => Ok(InitResponse::default()),
        Err(e) => Err(e),
    }
}

/// Transaction dispatch: a lock accumulates the attached transfer, an
/// unlock only logs the request.
pub fn handle<S: Store>(store: &mut S, env: Env, msg: HandleMsg) -> (r: Result<
    HandleResponse,
    Error,
>)
    requires
        msg is Lock ==> lock_msg_fits(old(store).contents(), env),
    ensures
        match msg {
            HandleMsg::Lock {  } => lock_post(
                old(store).contents(),
                final (store).contents(),
                env,
                r,
            ),
            HandleMsg::Unlock { amount } => unlock_post(
                old(store).contents(),
                final (store).contents(),
                amount,
                r,
            ),
        },
{
    match msg {
        HandleMsg::Lock {  } => try_lock(store, env),
        HandleMsg::Unlock { amount } => try_unlock(store, env, amount),
    }
}

fn try_lock<S: Store>(store: &mut S, env: Env) -> (r: Result<HandleResponse, Error>)
    requires
        lock_msg_fits(old(store).contents(), env),
    ensures
        lock_post(old(store).contents(), final (store).contents(), env, r),
{
    let sender_address = &env.message.sender;
    let funds = &env.message.sent_funds;

    // Only transfers of the single supported token are accepted.
    if funds.len() != 1 {
        return Err(Error::InvalidFunds);
    }
    let expected = "ukrw".to_owned();
    if !(funds[0].denom == expected) {
        return Err(Error::InvalidFunds);
    }

    let amount = funds[0].amount;
    let ghost pre = store.contents();
    match total_amount_increase(store, amount) {
        Ok(()) => (),
        Err(e) => {
            return Err(e);
        },
    }
    proof {
        lemma_with_total(pre, (total_of(pre) + amount) as u128);
    }
    let old_lock_amount = lock_map_get(store, sender_address);
    let new_lock_amount = old_lock_amount + amount;
    match lock_map_set(store, sender_address, new_lock_amount) {
        Ok(()) => (),
        Err(e) => {
            return Err(e);
        },
    }

    let mut log: Vec<LogEntry> = Vec::new();
    log.push(LogEntry { key: "action".to_owned(), value: LogValue::Text("lock".to_owned()) });
    log.push(
        LogEntry {
            key: "address".to_owned(),
            value: LogValue::Address(vstd::slice::slice_to_vec(sender_address.as_slice())),
        },
    );
    log.push(LogEntry { key: "amount".to_owned(), value: LogValue::Amount(amount) });
    let res = HandleResponse { log, data: None };
    Ok(res)
}

fn try_unlock<S: Store>(store: &mut S, env: Env, amount: u128) -> (r: Result<
    HandleResponse,
    Error,
>)
    ensures
        unlock_post(old(store).contents(), final (store).contents(), amount, r),
{
    let mut log: Vec<LogEntry> = Vec::new();
    log.push(LogEntry { key: "action".to_owned(), value: LogValue::Text("unlock".to_owned()) });
    log.push(LogEntry { key: "amount".to_owned(), value: LogValue::Amount(amount) });
    let res = HandleResponse { log, data: None };
    Ok(res)
}

/// The configuration query: reports the stored name and the display form
/// of the stored owner.
pub fn query<S: Store, A: Api>(storage: &S, api: &A, msg: QueryMsg) -> (r: Result<
    ConfigResponse,
    Error,
>)
    ensures
        match r {
            Ok(resp) => (spec_config_of(storage.contents()) matches Some(cv) && api.human_ok(cv.1)
                && resp.name@ == cv.0 && resp.owner@ == api.human_spec(cv.1)),
            Err(Error::NotInitialized) => !has_config(storage.contents()),
            Err(Error::StorageError) => has_config(storage.contents()) && spec_config_of(
                storage.contents(),
            ) is None,
            Err(Error::IdentityFormatError) => (spec_config_of(storage.contents()) matches Some(cv)
                && !api.human_ok(cv.1)),
            Err(_) => false,
        },
{
    match msg {
        QueryMsg::Config {  } => {
            let config = match config_get(storage) {
                Ok(c) => c,
                Err(e) => {
                    return Err(e);
                },
            };
            let owner = match api.human_address(&config.owner) {
                Ok(h) => h,
                Err(e) => {
                    return Err(e);
                },
            };
            Ok(ConfigResponse { name: config.name, owner })
        },
    }
}

/// Law: after initialization stores a name and owner, reading the
/// configuration back gives exactly that name and owner.  The premise is a
/// machine limit: a name no store could hold is out of scope.
pub proof fn lemma_init_then_query(m: Map<Seq<u8>, Seq<u8>>, name: Seq<char>, owner: Seq<u8>)
    requires
        4 * name.len() <= u64::MAX,
    ensures
        spec_config_of(with_config(m, name, owner)) == Some((name, owner)),
{
    lemma_encode_utf8_len(name);
    lemma_with_config(m, name, owner);
}

/// Law: one successful lock raises the running total and the sender's
/// balance by the locked amount, and leaves the configuration and every
/// other balance unchanged.
pub proof fn lemma_lock_transition(m: Map<Seq<u8>, Seq<u8>>, sender: Seq<u8>, amount: u128)
    requires
        lock_fits(m, sender, amount),
    ensures
        total_of(lock_transition(m, sender, amount)) == total_of(m) + amount,
        lock_of(lock_transition(m, sender, amount), sender) == lock_of(m, sender) + amount,
        has_config(lock_transition(m, sender, amount)) == has_config(m),
        spec_config_of(lock_transition(m, sender, amount)) == spec_config_of(m),
        forall|a: Seq<u8>| a != sender ==> #[trigger] lock_of(lock_transition(m, sender, amount), a)
            == lock_of(m, a),
{
    let mt = with_total(m, (total_of(m) + amount) as u128);
    lemma_with_total(m, (total_of(m) + amount) as u128);
    lemma_with_lock(mt, sender, (lock_of(m, sender) + amount) as u128);
}

/// The sum of the locked balances of a list of addresses.
pub open spec fn sum_locks(m: Map<Seq<u8>, Seq<u8>>, addrs: Seq<Seq<u8>>) -> int
    decreases addrs.len(),
{
    if addrs.len() == 0 {
        0
    } else {
        lock_of(m, addrs[0]) + sum_locks(m, addrs.drop_first())
    }
}

/// How often an address occurs in a list.
pub open spec fn occurrences(addrs: Seq<Seq<u8>>, a: Seq<u8>) -> int
    decreases addrs.len(),
{
    if addrs.len() == 0 {
        0
    } else {
        (if addrs[0] == a {
            1int
        } else {
            0int
        }) + occurrences(addrs.drop_first(), a)
    }
}

proof fn lemma_sum_locks_step(
    m1: Map<Seq<u8>, Seq<u8>>,
    m2: Map<Seq<u8>, Seq<u8>>,
    addrs: Seq<Seq<u8>>,
    sender: Seq<u8>,
    amount: u128,
)
    requires
        forall|a: Seq<u8>| a != sender ==> lock_of(m2, a) == lock_of(m1, a),
        lock_of(m2, sender) == lock_of(m1, sender) + amount,
    ensures
        sum_locks(m2, addrs) == sum_locks(m1, addrs) + occurrences(addrs, sender) * amount,
    decreases addrs.len(),
{
    if addrs.len() > 0 {
        lemma_sum_locks_step(m1, m2, addrs.drop_first(), sender, amount);
        let occ = occurrences(addrs.drop_first(), sender);
        assert((occ + 1) * amount == occ * amount + amount) by (nonlinear_arith);
    }
}

/// Law: funds stay balanced.  Over any list of accounts that names the
/// sender once, a successful lock raises the sum of the locked balances by
/// exactly what it adds to the running total; so a total that equalled the
/// sum before the lock equals it after.
pub proof fn lemma_lock_preserves_balance(
    m: Map<Seq<u8>, Seq<u8>>,
    sender: Seq<u8>,
    amount: u128,
    addrs: Seq<Seq<u8>>,
)
    requires
        lock_fits(m, sender, amount),
        occurrences(addrs, sender) == 1,
        total_of(m) == sum_locks(m, addrs),
    ensures
        total_of(lock_transition(m, sender, amount)) == sum_locks(
            lock_transition(m, sender, amount),
            addrs,
        ),
{
    lemma_lock_transition(m, sender, amount);
    lemma_sum_locks_step(m, lock_transition(m, sender, amount), addrs, sender, amount);
}

/// Law: starting from an empty ledger, two locks by the same sender
/// accumulate in both the running total and the sender's balance.
pub proof fn lemma_lock_accumulates(
    m: Map<Seq<u8>, Seq<u8>>,
    sender: Seq<u8>,
    first: u128,
    second: u128,
)
    requires
        total_of(m) == 0,
        lock_of(m, sender) == 0,
        first + second <= u128::MAX,
    ensures
        total_of(lock_transition(lock_transition(m, sender, first), sender, second)) == first
            + second,
        lock_of(lock_transition(lock_transition(m, sender, first), sender, second), sender)
            == first + second,
{
    lemma_lock_transition(m, sender, first);
    lemma_lock_transition(lock_transition(m, sender, first), sender, second);
}

} // verus!
