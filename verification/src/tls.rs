//! TLS material from a JKS keystore: the certificate chain and private key
//! of the keystore's first private key entry.

use vstd::prelude::*;
use crate::text::concat;

verus! {

/// The entries that `jks::KeyStore::load` reads from the keystore bytes
/// with the password: each alias that `KeyStore::aliases` lists, mapped to
/// what `KeyStore::is_private_key_entry` reports for it; or the load
/// error's text.
pub uninterp spec fn spec_keystore_entries(keystore: Seq<u8>, password: Seq<char>) -> Result<
    Map<Seq<char>, bool>,
    Seq<char>,
>;

/// The private key entry `alias` of the keystore loaded with `password`, as
/// `KeyStore::get_private_key_entry` decrypts it with `key_password`: the
/// contents of its certificate chain and the private key; or the error's
/// text.
pub uninterp spec fn spec_key_entry(
    keystore: Seq<u8>,
    password: Seq<char>,
    alias: Seq<char>,
    key_password: Seq<char>,
) -> Result<(Seq<Seq<u8>>, Seq<u8>), Seq<char>>;

/// `v` lists the entries of `m`, each alias once, in some order.
pub open spec fn lists_entries(v: Seq<(String, bool)>, m: Map<Seq<char>, bool>) -> bool {
    &&& forall|i: int| 0 <= i < v.len() ==> m.contains_key((#[trigger] v[i]).0@) && m[v[i].0@] == v[i].1
    &&& forall|a: Seq<char>| #[trigger] m.contains_key(a) ==> exists|i: int| 0 <= i < v.len() && (#[trigger] v[i]).0@ == a
    &&& forall|i: int, j: int| 0 <= i < j < v.len() ==> (#[trigger] v[i]).0@ != (#[trigger] v[j]).0@
}

/// Loads the keystore with `jks::KeyStore::load` and lists its aliases
/// (`KeyStore::aliases`, which walks a `HashMap`, so in no fixed order), each
/// with `KeyStore::is_private_key_entry`. Not stated: a malformed keystore
/// whose declared lengths or counts are huge can make the decoder abort for
/// want of memory; describing those inputs would mean writing out the
/// decoder.
#[verifier::external_body]
fn keystore_aliases(keystore: &Vec<u8>, password: &str) -> (r: Result<Vec<(String, bool)>, String>)
    ensures
        match r {
            Ok(v) => spec_keystore_entries(keystore@, password@) matches Ok(m) && lists_entries(v@, m),
            Err(e) => spec_keystore_entries(keystore@, password@) == Err::<Map<Seq<char>, bool>, Seq<char>>(e@),
        },
{
    let mut store = jks::KeyStore::new();
    store.load(std::io::Cursor::new(keystore.as_slice()), password.as_bytes()).map_err(|e| e.to_string())?;
    let mut out = Vec::new();
    for alias in store.aliases() {
        let private = store.is_private_key_entry(&alias);
        out.push((alias, private));
    }
    Ok(out)
}

/// The stored (still encrypted) key of the private key entry `alias` of the
/// keystore loaded with `password`, as `KeyStore::get_raw_private_key_entry`
/// returns it; or the error's text.
pub uninterp spec fn spec_stored_key(keystore: Seq<u8>, password: Seq<char>, alias: Seq<char>) -> Result<
    Seq<u8>,
    Seq<char>,
>;

/// Loads the keystore and returns the stored key of the entry `alias` with
/// `KeyStore::get_raw_private_key_entry`, without decrypting it; the result
/// is the named `spec_stored_key`.
#[verifier::external_body]
fn stored_key(keystore: &Vec<u8>, password: &str, alias: &str) -> (r: Result<Vec<u8>, String>)
    ensures
        match r {
            Ok(k) => spec_stored_key(keystore@, password@, alias@) == Ok::<Seq<u8>, Seq<char>>(k@),
            Err(e) => spec_stored_key(keystore@, password@, alias@) == Err::<Seq<u8>, Seq<char>>(e@),
        },
{
    let mut store = jks::KeyStore::new();
    store.load(std::io::Cursor::new(keystore.as_slice()), password.as_bytes()).map_err(|e| e.to_string())?;
    let entry = store.get_raw_private_key_entry(alias).map_err(|e| e.to_string())?;
    Ok(entry.private_key)
}

/// The value of big-endian bytes.
pub open spec fn be_value(s: Seq<u8>) -> int
    decreases s.len(),
{
    if s.len() == 0 {
        0
    } else {
        be_value(s.drop_last()) * 256 + s.last()
    }
}

/// A DER length at the start of `s`, as jks's `read_der_length` reads it:
/// the length and the number of bytes it takes; `None` where it refuses.
/// The short form is one byte below `0x80`; the long form is `0x80 + k`
/// followed by `k` big-endian bytes, `1 <= k <= 4`.
pub open spec fn der_length(s: Seq<u8>) -> Option<(int, int)> {
    if s.len() == 0 {
        None
    } else if s[0] < 0x80 {
        Some((s[0] as int, 1))
    } else {
        let k = s[0] - 0x80;
        if k == 0 || k > 4 || s.len() < 1 + k {
            None
        } else {
            Some((be_value(s.subrange(1, 1 + k)), 1 + k))
        }
    }
}

/// The OID prefix that jks compares with.
pub open spec fn jks_oid_prefix() -> Seq<u8> {
    seq![0x2Bu8, 0x06u8, 0x01u8, 0x04u8, 0x01u8, 0x2Au8, 0x02u8, 0x11u8, 0x01u8, 0x01u8]
}

/// The octet string's length, read at `pos`, stays within the data.
pub open spec fn octets_in_bounds(d: Seq<u8>, pos: int) -> bool {
    match der_length(d.subrange(pos, d.len() as int)) {
        None => true,
        Some((len, used)) => pos + used + len <= d.len(),
    }
}

/// After the OID, at `pos`: the optional NULL parameter and the octet
/// string tag at `algo_end` are read within the data.
pub open spec fn after_oid_in_bounds(d: Seq<u8>, pos: int, algo_end: int) -> bool {
    let n = d.len() as int;
    if pos < algo_end && pos >= n {
        false
    } else if pos < algo_end && d[pos] == 0x05 && pos + 1 >= n {
        false
    } else if algo_end >= n {
        false
    } else if d[algo_end] != 0x04 {
        true
    } else {
        octets_in_bounds(d, algo_end + 1)
    }
}

/// From the OID tag at `pos`: the tag, its length byte and the compared
/// prefix are read within the data.
pub open spec fn oid_in_bounds(d: Seq<u8>, pos: int, algo_end: int) -> bool {
    let n = d.len() as int;
    if pos >= n {
        false
    } else if d[pos] != 0x06 {
        true
    } else if pos + 1 >= n {
        false
    } else {
        let oid_len = d[pos + 1] as int;
        let m = if oid_len < 10 { oid_len } else { 10 };
        let p = pos + 2;
        if p + m > n {
            false
        } else if d.subrange(p, p + m) != jks_oid_prefix().subrange(0, m) {
            true
        } else {
            after_oid_in_bounds(d, p + oid_len, algo_end)
        }
    }
}

/// From the algorithm sequence tag at `pos`: it and its length are read
/// within the data.
pub open spec fn algorithm_in_bounds(d: Seq<u8>, pos: int) -> bool {
    let n = d.len() as int;
    if pos >= n {
        false
    } else if d[pos] != 0x30 {
        true
    } else {
        match der_length(d.subrange(pos + 1, n)) {
            None => true,
            Some((len, used)) => oid_in_bounds(d, pos + 1 + used, pos + 1 + used + len),
        }
    }
}

/// jks's key decryption (`keyprotector::decrypt`) reads the stored key `d`
/// only within its bounds: every index and slice it takes on the way to an
/// answer or an error lies inside `d`. Where this fails, `decrypt` panics.
pub open spec fn decrypt_in_bounds(d: Seq<u8>) -> bool {
    let n = d.len() as int;
    if n == 0 || d[0] != 0x30 {
        true
    } else {
        match der_length(d.subrange(1, n)) {
            None => true,
            Some((len, used)) => if 1 + used + len > n {
                true
            } else {
                algorithm_in_bounds(d, 1 + used)
            },
        }
    }
}

/// `256` to the power `k`.
pub open spec fn pow256(k: nat) -> int
    decreases k,
{
    if k == 0 {
        1
    } else {
        pow256((k - 1) as nat) * 256
    }
}

proof fn lemma_be_value_bound(s: Seq<u8>)
    ensures
        0 <= be_value(s) < pow256(s.len()),
    decreases s.len(),
{
    if s.len() > 0 {
        lemma_be_value_bound(s.drop_last());
    }
}

/// The DER length at `pos` of `d`.
fn der_length_at(d: &Vec<u8>, pos: u128) -> (r: Option<(u128, u128)>)
    requires
        pos <= d.len(),
    ensures
        match der_length(d@.subrange(pos as int, d@.len() as int)) {
            None => r is None,
            Some((len, used)) => r matches Some((x, y)) && x == len && y == used,
        },
        r matches Some((x, y)) ==> x < 0x1_0000_0000 && 1 <= y <= 5,
{
    let ghost s = d@.subrange(pos as int, d@.len() as int);
    let n = d.len() as u128;
    if pos >= n {
        return None;
    }
    let first = d[pos as usize];
    if first < 0x80 {
        return Some((first as u128, 1));
    }
    let k = (first - 0x80) as u128;
    if k == 0 || k > 4 || n - pos < 1 + k {
        return None;
    }
    let mut v: u128 = 0;
    let mut i: u128 = 0;
    assert(s.subrange(1, 1) =~= Seq::<u8>::empty());
    while i < k
        invariant
            s == d@.subrange(pos as int, d@.len() as int),
            n == d.len(),
            pos < n,
            1 <= k <= 4,
            1 + k <= n - pos,
            i <= k,
            v == be_value(s.subrange(1, 1 + i as int)),
            0 <= v < 0x1_0000_0000,
        decreases k - i,
    {
        let b = d[(pos + 1 + i) as usize];
        assert(b == s[1 + i as int]);
        assert(s.subrange(1, 1 + i + 1).drop_last() =~= s.subrange(1, 1 + i as int));
        v = v * 256 + b as u128;
        i = i + 1;
        proof {
            lemma_be_value_bound(s.subrange(1, 1 + i as int));
            assert(pow256(4) == 0x1_0000_0000) by {
                reveal_with_fuel(pow256, 5);
            }
            assert(pow256(3) == 0x100_0000) by {
                reveal_with_fuel(pow256, 4);
            }
            assert(pow256(2) == 0x1_0000) by {
                reveal_with_fuel(pow256, 3);
            }
            assert(pow256(1) == 0x100) by {
                reveal_with_fuel(pow256, 2);
            }
        }
    }
    Some((v, 1 + k))
}

/// Whether the octet string's length at `pos` stays within `d`.
fn octets_check(d: &Vec<u8>, pos: u128) -> (r: bool)
    requires
        pos <= d.len(),
    ensures
        r == octets_in_bounds(d@, pos as int),
{
    match der_length_at(d, pos) {
        None => true,
        Some((len, used)) => pos + used + len <= d.len() as u128,
    }
}

/// Whether the part after the OID is read within `d`.
fn after_oid_check(d: &Vec<u8>, pos: u128, algo_end: u128) -> (r: bool)
    requires
        pos < 0x1_0000_0000_0000_0000_0000,
        algo_end < 0x1_0000_0000_0000_0000_0000,
    ensures
        r == after_oid_in_bounds(d@, pos as int, algo_end as int),
{
    let n = d.len() as u128;
    if pos < algo_end && pos >= n {
        false
    } else if pos < algo_end && d[pos as usize] == 0x05 && pos + 1 >= n {
        false
    } else if algo_end >= n {
        false
    } else if d[algo_end as usize] != 0x04 {
        true
    } else {
        octets_check(d, algo_end + 1)
    }
}

/// Whether the OID part, from its tag at `pos`, is read within `d`.
fn oid_check(d: &Vec<u8>, pos: u128, algo_end: u128) -> (r: bool)
    requires
        pos <= d.len() + 8,
        algo_end < 0x1_0000_0000_0000_0000_0000,
    ensures
        r == oid_in_bounds(d@, pos as int, algo_end as int),
{
    let n = d.len() as u128;
    if pos >= n {
        return false;
    }
    if d[pos as usize] != 0x06 {
        return true;
    }
    if pos + 1 >= n {
        return false;
    }
    let oid_len = d[(pos + 1) as usize] as u128;
    let m = if oid_len < 10 { oid_len } else { 10 };
    let p = pos + 2;
    if p + m > n {
        return false;
    }
    let prefix: [u8; 10] = [0x2B, 0x06, 0x01, 0x04, 0x01, 0x2A, 0x02, 0x11, 0x01, 0x01];
    assert(prefix@ =~= jks_oid_prefix());
    let mut i: u128 = 0;
    while i < m
        invariant
            n == d.len(),
            pos < n,
            pos + 1 < n,
            d@[pos as int] == 0x06,
            oid_len == d@[pos + 1],
            m == (if oid_len < 10 { oid_len } else { 10 }),
            p == pos + 2,
            p + m <= n,
            m <= 10,
            i <= m,
            prefix@ == jks_oid_prefix(),
            forall|j: int| 0 <= j < i ==> d@[p + j] == jks_oid_prefix()[j],
        decreases m - i,
    {
        if d[(p + i) as usize] != prefix[i as usize] {
            assert(d@.subrange(p as int, (p + m) as int)[i as int] != jks_oid_prefix().subrange(0, m as int)[i as int]);
            assert(d@.subrange(p as int, (p + m) as int) != jks_oid_prefix().subrange(0, m as int));
            return true;
        }
        i = i + 1;
    }
    assert(d@.subrange(p as int, (p + m) as int) =~= jks_oid_prefix().subrange(0, m as int));
    after_oid_check(d, p + oid_len, algo_end)
}

/// Whether the algorithm part, from its tag at `pos`, is read within `d`.
fn algorithm_check(d: &Vec<u8>, pos: u128) -> (r: bool)
    requires
        pos <= d.len(),
    ensures
        r == algorithm_in_bounds(d@, pos as int),
{
    let n = d.len() as u128;
    if pos >= n {
        return false;
    }
    if d[pos as usize] != 0x30 {
        return true;
    }
    match der_length_at(d, pos + 1) {
        None => true,
        Some((len, used)) => oid_check(d, pos + 1 + used, pos + 1 + used + len),
    }
}

/// Whether jks's key decryption reads the stored key `d` within its bounds.
pub fn decrypt_in_bounds_check(d: &Vec<u8>) -> (r: bool)
    ensures
        r == decrypt_in_bounds(d@),
{
    let n = d.len() as u128;
    if n == 0 || d[0] != 0x30 {
        return true;
    }
    match der_length_at(d, 1) {
        None => true,
        Some((len, used)) => if 1 + used + len > n {
            true
        } else {
            algorithm_check(d, 1 + used)
        },
    }
}

/// The certificate contents of a chain.
pub open spec fn chain_view(c: Seq<Vec<u8>>) -> Seq<Seq<u8>> {
    c.map_values(|v: Vec<u8>| v@)
}

/// Loads the keystore and decrypts the private key entry `alias` with
/// `KeyStore::get_private_key_entry`; the result is the named
/// `spec_key_entry`. The decryption indexes the stored key without bounds
/// checks, so a stored key it would read past the end of is left out.
#[verifier::external_body]
fn key_entry(keystore: &Vec<u8>, password: &str, alias: &str, key_password: &str) -> (r: Result<
    (Vec<Vec<u8>>, Vec<u8>),
    String,
>)
    requires
        match spec_stored_key(keystore@, password@, alias@) {
            Ok(k) => decrypt_in_bounds(k),
            Err(_) => true,
        },
    ensures
        match r {
            Ok((c, k)) => spec_key_entry(keystore@, password@, alias@, key_password@) == Ok::<
                (Seq<Seq<u8>>, Seq<u8>),
                Seq<char>,
            >((chain_view(c@), k@)),
            Err(e) => spec_key_entry(keystore@, password@, alias@, key_password@) == Err::<
                (Seq<Seq<u8>>, Seq<u8>),
                Seq<char>,
            >(e@),
        },
{
    let mut store = jks::KeyStore::new();
    store.load(std::io::Cursor::new(keystore.as_slice()), password.as_bytes()).map_err(|e| e.to_string())?;
    let entry = store.get_private_key_entry(alias, key_password.as_bytes()).map_err(|e| e.to_string())?;
    Ok((entry.certificate_chain.into_iter().map(|c| c.content).collect(), entry.private_key))
}

/// Whether some entry is a private key entry.
pub open spec fn has_private_key(m: Map<Seq<char>, bool>) -> bool {
    exists|a: Seq<char>| #[trigger] m.contains_key(a) && m[a]
}

/// The password that decrypts the key: its own, else the keystore's.
pub open spec fn effective_key_password(password: Seq<char>, key_password: Option<Seq<char>>) -> Seq<char> {
    match key_password {
        Some(k) => k,
        None => password,
    }
}

/// The material of the private key entry `alias`: a stored key that the
/// decryption would read past the end of, a decrypt failure and an empty
/// chain are errors naming the alias.
pub open spec fn material_of(
    keystore: Seq<u8>,
    password: Seq<char>,
    alias: Seq<char>,
    key_password: Seq<char>,
) -> Result<(Seq<Seq<u8>>, Seq<u8>), Seq<char>> {
    if spec_stored_key(keystore, password, alias) matches Ok(k) && !decrypt_in_bounds(k) {
        Err("private key entry '"@ + alias + "' holds malformed encrypted key data"@)
    } else {
        match spec_key_entry(keystore, password, alias, key_password) {
        Err(e) => Err("failed to decrypt private key entry '"@ + alias + "' (check key_password): "@ + e),
        Ok((c, k)) => if c.len() == 0 {
            Err("private key entry '"@ + alias + "' has no certificate chain"@)
        } else {
            Ok((c, k))
        },
        }
    }
}

/// Model of a result of `tls_material`.
pub open spec fn material_view(r: Result<(Vec<Vec<u8>>, Vec<u8>), String>) -> Result<(Seq<Seq<u8>>, Seq<u8>), Seq<char>> {
    match r {
        Ok((c, k)) => Ok((chain_view(c@), k@)),
        Err(e) => Err(e@),
    }
}

/// The certificate chain and private key of a JKS keystore, read from its
/// bytes: the keystore is unlocked with `keystore_password`, the first
/// private key entry that the keystore lists is taken, and its key is
/// decrypted with `key_password`, or with the keystore password when there
/// is none. A stored key that the decryption would read past the end of is
/// refused with an error instead of being decrypted. Which entry is first is not fixed when there are several (the
/// keystore keeps them in a hash map).
pub fn tls_material(
    keystore_file: &str,
    keystore: &Vec<u8>,
    keystore_password: &str,
    key_password: Option<&str>,
) -> (r: Result<(Vec<Vec<u8>>, Vec<u8>), String>)
    ensures
        match spec_keystore_entries(keystore@, keystore_password@) {
            Err(e) => r matches Err(m) && m@ == "failed to load keystore '"@ + keystore_file@
                + "' (check keystore_password): "@ + e,
            Ok(entries) => if !has_private_key(entries) {
                r matches Err(m) && m@ == "keystore '"@ + keystore_file@ + "' contains no private key entry"@
            } else {
                exists|a: Seq<char>|
                    #![trigger entries.contains_key(a)]
                    entries.contains_key(a) && entries[a] && material_view(r) == material_of(
                        keystore@,
                        keystore_password@,
                        a,
                        effective_key_password(
                            keystore_password@,
                            match key_password {
                                Some(k) => Some(k@),
                                None => None,
                            },
                        ),
                    )
            },
        },
{
    let entries = match keystore_aliases(keystore, keystore_password) {
        Ok(v) => v,
        Err(e) => {
            let a = concat("failed to load keystore '", keystore_file);
            let b = concat(a.as_str(), "' (check keystore_password): ");
            return Err(concat(b.as_str(), e.as_str()));
        },
    };
    let ghost m = spec_keystore_entries(keystore@, keystore_password@)->Ok_0;
    let mut i: usize = 0;
    while i < entries.len() && !entries[i].1
        invariant
            i <= entries.len(),
            spec_keystore_entries(keystore@, keystore_password@) == Ok::<Map<Seq<char>, bool>, Seq<char>>(m),
            lists_entries(entries@, m),
            forall|j: int| 0 <= j < i ==> !(#[trigger] entries@[j]).1,
        decreases entries.len() - i,
    {
        i = i + 1;
    }
    if i == entries.len() {
        proof {
            assert forall|a: Seq<char>| #[trigger] m.contains_key(a) implies !m[a] by {
                let j = choose|j: int| 0 <= j < entries@.len() && (#[trigger] entries@[j]).0@ == a;
                assert(m[entries@[j].0@] == entries@[j].1);
            }
        }
        let a = concat("keystore '", keystore_file);
        return Err(concat(a.as_str(), "' contains no private key entry"));
    }
    let alias = entries[i].0.as_str();
    assert(m.contains_key(alias@) && m[alias@]);
    match stored_key(keystore, keystore_password, alias) {
        Ok(k) => {
            if !decrypt_in_bounds_check(&k) {
                let a = concat("private key entry '", alias);
                return Err(concat(a.as_str(), "' holds malformed encrypted key data"));
            }
        },
        Err(_) => {},
    }
    let kp = match key_password {
        Some(k) => k,
        None => keystore_password,
    };
    match key_entry(keystore, keystore_password, alias, kp) {
        Err(e) => {
            let a = concat("failed to decrypt private key entry '", alias);
            let b = concat(a.as_str(), "' (check key_password): ");
            Err(concat(b.as_str(), e.as_str()))
        },
        Ok((chain, key)) => {
            if chain.len() == 0 {
                let a = concat("private key entry '", alias);
                Err(concat(a.as_str(), "' has no certificate chain"))
            } else {
                Ok((chain, key))
            }
        },
    }
}

} // verus!
