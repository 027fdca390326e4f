use crate::codec::decode_amount;
use crate::codec::encode_amount;
use crate::codec::lemma_amount_round_trip;
use crate::codec::spec_decode_amount;
use crate::codec::spec_encode_amount;
use crate::codec::string_from_utf8;
use crate::error::Error;
use crate::store::Store;
use vstd::bytes::lemma_auto_spec_u64_to_from_le_bytes;
use vstd::bytes::spec_u64_from_le_bytes;
use vstd::bytes::spec_u64_to_le_bytes;
use vstd::bytes::u64_from_le_bytes;
use vstd::bytes::u64_to_le_bytes;
use vstd::prelude::*;
use vstd::slice::slice_subrange;
use vstd::slice::slice_to_vec;
use vstd::string::StrSliceExecFns;
use vstd::utf8::decode_utf8;
use vstd::utf8::encode_utf8;
use vstd::utf8::encode_utf8_decode_utf8;
use vstd::utf8::encode_utf8_valid_utf8;
use vstd::utf8::valid_utf8;

verus! {

/// The singleton configuration record, created by initialization.
#[derive(Clone, Debug, PartialEq)]
pub struct Config {
    /// Human-readable label, arbitrary text taken from the init request.
    pub name: String,
    /// Canonical identity of the account that sent the init transaction.
    pub owner: Vec<u8>,
}

// ---------------------------------------------------------------------------
// Store keys.  The module keeps exactly three kinds of entries: the
// configuration, the running total, and one lock entry per address.
// ---------------------------------------------------------------------------
/// Key of the configuration record: the ASCII bytes of "config".
pub open spec fn config_key() -> Seq<u8> {
    seq![99u8, 111u8, 110u8, 102u8, 105u8, 103u8]
}

/// Key of the running total: the ASCII bytes of "total_amount".
pub open spec fn total_amount_key() -> Seq<u8> {
    seq![116u8, 111u8, 116u8, 97u8, 108u8, 95u8, 97u8, 109u8, 111u8, 117u8, 110u8, 116u8]
}

/// Prefix of every lock entry: the ASCII bytes of "lock_map".
pub open spec fn lock_map_prefix() -> Seq<u8> {
    seq![108u8, 111u8, 99u8, 107u8, 95u8, 109u8, 97u8, 112u8]
}

/// Key of the lock entry of one address.
pub open spec fn lock_map_key(addr: Seq<u8>) -> Seq<u8> {
    lock_map_prefix() + addr
}

pub fn config_key_vec() -> (r: Vec<u8>)
    ensures
        r@ == config_key(),
{
    let mut v: Vec<u8> = Vec::new();
    v.push(99u8);
    v.push(111u8);
    v.push(110u8);
    v.push(102u8);
    v.push(105u8);
    v.push(103u8);
    proof {
        assert(v@ =~= config_key());
    }
    v
}

pub fn total_amount_key_vec() -> (r: Vec<u8>)
    ensures
        r@ == total_amount_key(),
{
    let mut v: Vec<u8> = Vec::new();
    v.push(116u8);
    v.push(111u8);
    v.push(116u8);
    v.push(97u8);
    v.push(108u8);
    v.push(95u8);
    v.push(97u8);
    v.push(109u8);
    v.push(111u8);
    v.push(117u8);
    v.push(110u8);
    v.push(116u8);
    proof {
        assert(v@ =~= total_amount_key());
    }
    v
}

pub fn lock_map_key_vec(address: &Vec<u8>) -> (r: Vec<u8>)
    ensures
        r@ == lock_map_key(address@),
{
    let mut v: Vec<u8> = Vec::new();
    v.push(108u8);
    v.push(111u8);
    v.push(99u8);
    v.push(107u8);
    v.push(95u8);
    v.push(109u8);
    v.push(97u8);
    v.push(112u8);
    let mut a = slice_to_vec(address.as_slice());
    v.append(&mut a);
    proof {
        assert(v@ =~= lock_map_key(address@));
    }
    v
}

/// No lock entry ever collides with the two singleton records, and the
/// singletons do not collide with each other.
pub proof fn lemma_keys_distinct(addr: Seq<u8>)
    ensures
        config_key() != total_amount_key(),
        lock_map_key(addr) != config_key(),
        lock_map_key(addr) != total_amount_key(),
{
    assert(config_key()[0] == 99u8);
    assert(total_amount_key()[0] == 116u8);
    assert(lock_map_key(addr)[0] == 108u8);
}

/// Lock keys of distinct addresses are distinct.
pub proof fn lemma_lock_key_injective(a: Seq<u8>, b: Seq<u8>)
    requires
        lock_map_key(a) == lock_map_key(b),
    ensures
        a == b,
{
    assert(lock_map_key(a).len() == 8 + a.len());
    assert(lock_map_key(b).len() == 8 + b.len());
    assert(a =~= b) by {
        assert forall|i: int| 0 <= i < a.len() implies a[i] == b[i] by {
            assert(lock_map_key(a)[8 + i] == a[i]);
            assert(lock_map_key(b)[8 + i] == b[i]);
        }
    }
}

// ---------------------------------------------------------------------------
// Stored form of the configuration: eight little-endian length bytes of the
// UTF-8 form of the name, the name bytes, then the owner bytes.
// ---------------------------------------------------------------------------
pub open spec fn spec_encode_config(name: Seq<char>, owner: Seq<u8>) -> Seq<u8> {
    spec_u64_to_le_bytes(encode_utf8(name).len() as u64) + encode_utf8(name) + owner
}

pub open spec fn spec_decode_config(b: Seq<u8>) -> Option<(Seq<char>, Seq<u8>)> {
    if b.len() >= 8 {
        let n = spec_u64_from_le_bytes(b.subrange(0, 8)) as int;
        if n + 8 <= b.len() {
            let nb = b.subrange(8, 8 + n);
            if valid_utf8(nb) {
                Some((decode_utf8(nb), b.subrange(8 + n, b.len() as int)))
            } else {
                None
            }
        } else {
            None
        }
    } else {
        None
    }
}

pub fn encode_config(config: &Config) -> (r: Vec<u8>)
    ensures
        r@ == spec_encode_config(config.name@, config.owner@),
{
    let name_bytes = config.name.as_str().as_bytes_vec();
    let mut out = u64_to_le_bytes(name_bytes.len() as u64);
    let mut nb = name_bytes;
    out.append(&mut nb);
    let mut ow = slice_to_vec(config.owner.as_slice());
    out.append(&mut ow);
    proof {
        assert(out@ =~= spec_encode_config(config.name@, config.owner@));
    }
    out
}

pub fn decode_config(b: &[u8]) -> (r: Option<Config>)
    ensures
        match r {
            Some(c) => (spec_decode_config(b@) matches Some(cv) && c.name@ == cv.0 && c.owner@
                == cv.1),
            None => spec_decode_config(b@) is None,
        },
{
    if b.len() < 8 {
        return None;
    }
    let n64 = u64_from_le_bytes(slice_subrange(b, 0, 8));
    if n64 > (b.len() - 8) as u64 {
        return None;
    }
    let n = n64 as usize;
    let name_bytes = slice_to_vec(slice_subrange(b, 8, 8 + n));
    match string_from_utf8(name_bytes) {
        None => None,
        Some(name) => {
            let owner = slice_to_vec(slice_subrange(b, 8 + n, b.len()));
            proof {
                encode_utf8_decode_utf8(name@);
            }
            Some(Config { name, owner })
        },
    }
}

/// A UTF-8 encoding takes at most four bytes per character.
pub proof fn lemma_encode_utf8_len(chars: Seq<char>)
    ensures
        encode_utf8(chars).len() <= 4 * chars.len(),
    decreases chars.len(),
{
    if chars.len() > 0 {
        lemma_encode_utf8_len(chars.drop_first());
    }
}

/// Law: decoding a stored configuration gives back what was encoded.
pub proof fn lemma_config_round_trip(name: Seq<char>, owner: Seq<u8>)
    requires
        encode_utf8(name).len() <= u64::MAX,
    ensures
        spec_decode_config(spec_encode_config(name, owner)) == Some((name, owner)),
{
    lemma_auto_spec_u64_to_from_le_bytes();
    encode_utf8_valid_utf8(name);
    encode_utf8_decode_utf8(name);
    let nb = encode_utf8(name);
    let lb = spec_u64_to_le_bytes(nb.len() as u64);
    let e = spec_encode_config(name, owner);
    assert(e.subrange(0, 8) =~= lb);
    assert(spec_u64_from_le_bytes(e.subrange(0, 8)) as int == nb.len());
    assert(e.subrange(8, 8 + nb.len() as int) =~= nb);
    assert(e.subrange(8 + nb.len() as int, e.len() as int) =~= owner);
}

// ---------------------------------------------------------------------------
// The abstract state: what the three records hold, read off the store
// contents.  A missing or undecodable amount entry reads as zero, the
// documented default; a missing configuration is the uninitialized state.
// ---------------------------------------------------------------------------
/// Whether initialization has ever written a configuration.
pub open spec fn has_config(m: Map<Seq<u8>, Seq<u8>>) -> bool {
    m.contains_key(config_key())
}

/// The stored configuration, as the pair of its name and owner, if the
/// record is present and decodes.
pub open spec fn spec_config_of(m: Map<Seq<u8>, Seq<u8>>) -> Option<(Seq<char>, Seq<u8>)> {
    if m.contains_key(config_key()) {
        spec_decode_config(m[config_key()])
    } else {
        None
    }
}

/// The running total of locked funds; zero when the record is absent.
pub open spec fn total_of(m: Map<Seq<u8>, Seq<u8>>) -> u128 {
    if m.contains_key(total_amount_key()) {
        match spec_decode_amount(m[total_amount_key()]) {
            Some(n) => n,
            None => 0,
        }
    } else {
        0
    }
}

/// The locked balance of one address; zero when no entry exists.
pub open spec fn lock_of(m: Map<Seq<u8>, Seq<u8>>, addr: Seq<u8>) -> u128 {
    if m.contains_key(lock_map_key(addr)) {
        match spec_decode_amount(m[lock_map_key(addr)]) {
            Some(n) => n,
            None => 0,
        }
    } else {
        0
    }
}

// ---------------------------------------------------------------------------
// The three write transitions, and how each changes the abstract state.
// ---------------------------------------------------------------------------
/// The store contents after the configuration is written.
pub open spec fn with_config(m: Map<Seq<u8>, Seq<u8>>, name: Seq<char>, owner: Seq<u8>) -> Map<
    Seq<u8>,
    Seq<u8>,
> {
    m.insert(config_key(), spec_encode_config(name, owner))
}

/// The store contents after the running total is written.
pub open spec fn with_total(m: Map<Seq<u8>, Seq<u8>>, n: u128) -> Map<Seq<u8>, Seq<u8>> {
    m.insert(total_amount_key(), spec_encode_amount(n))
}

/// The store contents after one address's lock entry is written.
pub open spec fn with_lock(m: Map<Seq<u8>, Seq<u8>>, addr: Seq<u8>, n: u128) -> Map<
    Seq<u8>,
    Seq<u8>,
> {
    m.insert(lock_map_key(addr), spec_encode_amount(n))
}

/// Writing the configuration stores exactly the given name and owner and
/// leaves the total and every lock balance unchanged.
pub proof fn lemma_with_config(m: Map<Seq<u8>, Seq<u8>>, name: Seq<char>, owner: Seq<u8>)
    requires
        encode_utf8(name).len() <= u64::MAX,
    ensures
        has_config(with_config(m, name, owner)),
        spec_config_of(with_config(m, name, owner)) == Some((name, owner)),
        total_of(with_config(m, name, owner)) == total_of(m),
        forall|a: Seq<u8>| #[trigger] lock_of(with_config(m, name, owner), a) == lock_of(m, a),
{
    lemma_config_round_trip(name, owner);
    lemma_keys_distinct(Seq::<u8>::empty());
    assert forall|a: Seq<u8>| #[trigger] lock_of(with_config(m, name, owner), a) == lock_of(
        m,
        a,
    ) by {
        lemma_keys_distinct(a);
    }
}

/// Writing the running total stores exactly the given value and leaves the
/// configuration and every lock balance unchanged.
pub proof fn lemma_with_total(m: Map<Seq<u8>, Seq<u8>>, n: u128)
    ensures
        total_of(with_total(m, n)) == n,
        has_config(with_total(m, n)) == has_config(m),
        spec_config_of(with_total(m, n)) == spec_config_of(m),
        forall|a: Seq<u8>| #[trigger] lock_of(with_total(m, n), a) == lock_of(m, a),
{
    lemma_amount_round_trip(n);
    lemma_keys_distinct(Seq::<u8>::empty());
    assert forall|a: Seq<u8>| #[trigger] lock_of(with_total(m, n), a) == lock_of(m, a) by {
        lemma_keys_distinct(a);
    }
}

/// Writing one address's lock entry stores exactly the given value and
/// leaves the configuration, the total, and every other lock balance
/// unchanged.
pub proof fn lemma_with_lock(m: Map<Seq<u8>, Seq<u8>>, addr: Seq<u8>, n: u128)
    ensures
        lock_of(with_lock(m, addr, n), addr) == n,
        total_of(with_lock(m, addr, n)) == total_of(m),
        has_config(with_lock(m, addr, n)) == has_config(m),
        spec_config_of(with_lock(m, addr, n)) == spec_config_of(m),
        forall|a: Seq<u8>| a != addr ==> #[trigger] lock_of(with_lock(m, addr, n), a) == lock_of(
            m,
            a,
        ),
{
    lemma_amount_round_trip(n);
    lemma_keys_distinct(addr);
    assert forall|a: Seq<u8>| a != addr implies #[trigger] lock_of(with_lock(m, addr, n), a)
        == lock_of(m, a) by {
        if lock_map_key(a) == lock_map_key(addr) {
            lemma_lock_key_injective(a, addr);
        }
    }
}

/// Law: an address that was never locked reads as zero, not as an error.
pub proof fn lemma_never_locked_zero(m: Map<Seq<u8>, Seq<u8>>, addr: Seq<u8>)
    requires
        !m.contains_key(lock_map_key(addr)),
    ensures
        lock_of(m, addr) == 0,
{
}

// ---------------------------------------------------------------------------
// Storage accessors.
// ---------------------------------------------------------------------------
/// Writes the configuration record.
pub fn config_set<S: Store>(storage: &mut S, config: &Config) -> (r: Result<(), Error>)
    ensures
        match r {
            Ok(()) => final (storage).contents() == with_config(
                old(storage).contents(),
                config.name@,
                config.owner@,
            ),
            Err(e) => e == Error::StorageError && final (storage).contents() == old(
                storage,
            ).contents(),
        },
{
    let key = config_key_vec();
    let val = encode_config(config);
    storage.set(key.as_slice(), val.as_slice())
}

/// Reads the configuration record; strict, so reading before initialization
/// is an error rather than a default.
pub fn config_get<S: Store>(storage: &S) -> (r: Result<Config, Error>)
    ensures
        match r {
            Ok(c) => (spec_config_of(storage.contents()) matches Some(cv) && c.name@ == cv.0
                && c.owner@ == cv.1),
            Err(Error::NotInitialized) => !has_config(storage.contents()),
            Err(Error::StorageError) => has_config(storage.contents()) && spec_config_of(
                storage.contents(),
            ) is None,
            Err(_) => false,
        },
{
    let key = config_key_vec();
    match storage.get(key.as_slice()) {
        None => Err(Error::NotInitialized),
        Some(v) => match decode_config(v.as_slice()) {
            None => Err(Error::StorageError),
            Some(c) => Ok(c),
        },
    }
}

/// Reads the running total; zero when the record was never written.
pub fn total_amount_get<S: Store>(storage: &S) -> (r: u128)
    ensures
        r == total_of(storage.contents()),
{
    let key = total_amount_key_vec();
    match storage.get(key.as_slice()) {
        Some(v) => match decode_amount(v.as_slice()) {
            Some(n) => n,
            None => 0,
        },
        None => 0,
    }
}

/// Adds `amount` to the running total.
pub fn total_amount_increase<S: Store>(storage: &mut S, amount: u128) -> (r: Result<(), Error>)
    requires
        total_of(old(storage).contents()) + amount <= u128::MAX,
    ensures
        match r {
            Ok(()) => final (storage).contents() == with_total(
                old(storage).contents(),
                (total_of(old(storage).contents()) + amount) as u128,
            ),
            Err(e) => e == Error::StorageError && final (storage).contents() == old(
                storage,
            ).contents(),
        },
{
    let current_amount = total_amount_get(storage);
    let new_amount = current_amount + amount;
    let key = total_amount_key_vec();
    let val = encode_amount(new_amount);
    storage.set(key.as_slice(), val.as_slice())
}

/// Reads one address's locked balance; zero when no entry exists.
pub fn lock_map_get<S: Store>(storage: &S, address: &Vec<u8>) -> (r: u128)
    ensures
        r == lock_of(storage.contents(), address@),
{
    let key = lock_map_key_vec(address);
    match storage.get(key.as_slice()) {
        Some(v) => match decode_amount(v.as_slice()) {
            Some(n) => n,
            None => 0,
        },
        None => 0,
    }
}

/// Writes one address's locked balance.
pub fn lock_map_set<S: Store>(storage: &mut S, address: &Vec<u8>, amount: u128) -> (r: Result<
    (),
    Error,
>)
    ensures
        match r {
            Ok(()) => final (storage).contents() == with_lock(
                old(storage).contents(),
                address@,
                amount,
            ),
            Err(e) => e == Error::StorageError && final (storage).contents() == old(
                storage,
            ).contents(),
        },
{
    let key = lock_map_key_vec(address);
    let val = encode_amount(amount);
    storage.set(key.as_slice(), val.as_slice())
}

} // verus!
