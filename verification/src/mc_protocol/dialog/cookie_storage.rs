//! Cookies that a server stores on the client, to be asked for again later.

use crate::mc_protocol::buffer::{bytes_clone, bytes_len, bytes_view};
use crate::mc_protocol::dialog::packets::CookieResponsePacket;
use vstd::prelude::*;

verus! {

/// A cookie was refused: storing it would pass the limit. Holds the number
/// of bytes the storage was trying to reach: those counted so far and the
/// refused payload.
#[derive(Debug, PartialEq, Eq, Structural)]
pub struct CookieStorageError(pub usize);

/// The most bytes of cookie payloads a dialog stores.
pub const MAX_COOKIE_BYTES: usize = 5120;

/// The byte count a put tries to reach: the bytes counted so far and the
/// payload, held at the largest `usize` should the sum not fit.
pub open spec fn attempted_bytes(stored: nat, payload_len: nat) -> usize {
    if stored + payload_len <= usize::MAX {
        (stored + payload_len) as usize
    } else {
        usize::MAX
    }
}

/// The cookies of a dialog, by key, and the bytes stored over all puts.
#[derive(Debug)]
pub struct CookieStorage {
    cookies: Vec<(String, bytes::Bytes)>,
    size: usize,
}

/// The keys and payloads of a list of cookies, as a map.
pub open spec fn cookie_map(s: Seq<(String, bytes::Bytes)>) -> Map<Seq<char>, Seq<u8>> {
    Map::new(
        |k: Seq<char>| exists|i: int| 0 <= i < s.len() && s[i].0@ == k,
        |k: Seq<char>| bytes_view(s[choose|i: int| 0 <= i < s.len() && s[i].0@ == k].1),
    )
}

/// No key occurs twice.
pub open spec fn distinct_keys(s: Seq<(String, bytes::Bytes)>) -> bool {
    forall|i: int, j: int|
        0 <= i < s.len() && 0 <= j < s.len() && i != j ==> #[trigger] s[i].0@ != #[trigger] s[j].0@
}

/// What a get gives back of a put: once a put is accepted, the key holds
/// the payload put, and every other key holds what it held.
pub proof fn lemma_put_then_get(
    before: Map<Seq<char>, Seq<u8>>,
    after: Map<Seq<char>, Seq<u8>>,
    key: Seq<char>,
    payload: Seq<u8>,
    other: Seq<char>,
)
    requires
        after == before.insert(key, payload),
    ensures
        after.contains_key(key) && after[key] == payload,
        other != key ==> after.contains_key(other) == before.contains_key(other),
        other != key && before.contains_key(other) ==> after[other] == before[other],
{
}

impl CookieStorage {
    #[verifier::type_invariant]
    spec fn inv(self) -> bool {
        &&& distinct_keys(self.cookies@)
        &&& self.size <= MAX_COOKIE_BYTES
    }

    /// The stored cookies: key to payload.
    pub closed spec fn contents(&self) -> Map<Seq<char>, Seq<u8>> {
        cookie_map(self.cookies@)
    }

    /// The bytes counted against the limit: the payloads of every accepted
    /// put, replaced ones too.
    pub closed spec fn stored(&self) -> nat {
        self.size as nat
    }

    /// An empty storage.
    pub fn new() -> (r: CookieStorage)
        ensures
            r.contents() == Map::<Seq<char>, Seq<u8>>::empty(),
            r.stored() == 0,
    {
        let r = CookieStorage { cookies: Vec::new(), size: 0 };
        assert(r.contents() =~= Map::<Seq<char>, Seq<u8>>::empty());
        r
    }

    /// Stores `data` under `key`, replacing what was stored under it, unless
    /// the bytes counted so far and `data` together pass the limit: then the
    /// error holds the byte count it was trying to reach and nothing changes. The count
    /// never passes the limit.
    pub fn try_put(&mut self, key: String, data: bytes::Bytes) -> (r: Result<(), CookieStorageError>)
        ensures
            final(self).stored() <= MAX_COOKIE_BYTES,
            old(self).stored() + bytes_view(data).len() > MAX_COOKIE_BYTES ==> {
                &&& r == Err::<(), CookieStorageError>(
                    CookieStorageError(attempted_bytes(old(self).stored(), bytes_view(data).len())),
                )
                &&& final(self).contents() == old(self).contents()
                &&& final(self).stored() == old(self).stored()
            },
            old(self).stored() + bytes_view(data).len() <= MAX_COOKIE_BYTES ==> {
                &&& r is Ok
                &&& final(self).contents() == old(self).contents().insert(key@, bytes_view(data))
                &&& final(self).stored() == old(self).stored() + bytes_view(data).len()
            },
    {
        proof {
            use_type_invariant(&*self);
        }
        let len = bytes_len(&data);
        if len > MAX_COOKIE_BYTES - self.size {
            return Err(CookieStorageError(self.size.saturating_add(len)));
        }
        let mut cookies: Vec<(String, bytes::Bytes)> = Vec::new();
        std::mem::swap(&mut cookies, &mut self.cookies);
        let ghost before = cookies@;
        let ghost k = key@;
        let ghost v = bytes_view(data);
        let mut i: usize = 0;
        while i < cookies.len()
            invariant
                i <= cookies@.len(),
                cookies@ == before,
                forall|j: int| 0 <= j < i ==> cookies@[j].0@ != key@,
            ensures
                i <= cookies@.len(),
                i < cookies@.len() ==> cookies@[i as int].0@ == key@,
                forall|j: int| 0 <= j < i ==> cookies@[j].0@ != key@,
            decreases cookies@.len() - i,
        {
            if cookies[i].0 == key {
                break;
            }
            i = i + 1;
        }
        self.size = self.size + len;
        if i < cookies.len() {
            assert(cookies@[i as int].0@ == k);
            cookies.set(i, (key, data));
            proof {
                let after = cookies@;
                assert(after == before.update(i as int, after[i as int]));
                assert forall|a: int, b: int|
                    0 <= a < after.len() && 0 <= b < after.len() && a != b implies after[a].0@
                    != after[b].0@ by {
                    if a == i as int {
                        assert(before[b].0@ != before[a].0@);
                    } else if b == i as int {
                        assert(before[a].0@ != before[b].0@);
                    }
                }
                assert forall|kk: Seq<char>| #[trigger] cookie_map(after).contains_key(kk)
                    == cookie_map(before).insert(k, v).contains_key(kk) by {
                    if kk == k {
                        assert(after[i as int].0@ == k);
                    } else if cookie_map(before).contains_key(kk) {
                        let j = choose|j: int| 0 <= j < before.len() && before[j].0@ == kk;
                        assert(after[j].0@ == kk);
                    } else if cookie_map(after).contains_key(kk) {
                        let j = choose|j: int| 0 <= j < after.len() && after[j].0@ == kk;
                        assert(before[j].0@ == kk);
                    }
                }
                assert forall|kk: Seq<char>| #[trigger] cookie_map(after).contains_key(kk)
                    implies cookie_map(after)[kk] == cookie_map(before).insert(k, v)[kk] by {
                    let j = choose|j: int| 0 <= j < after.len() && after[j].0@ == kk;
                    if kk == k {
                        assert(j == i as int);
                    } else {
                        let j2 = choose|j2: int| 0 <= j2 < before.len() && before[j2].0@ == kk;
                        assert(before[j].0@ == kk);
                        assert(j == j2);
                    }
                }
                assert(cookie_map(after) =~= cookie_map(before).insert(k, v));
            }
        } else {
            cookies.push((key, data));
            proof {
                let after = cookies@;
                assert(after == before.push(after[before.len() as int]));
                assert forall|kk: Seq<char>| #[trigger] cookie_map(after).contains_key(kk)
                    == cookie_map(before).insert(k, v).contains_key(kk) by {
                    if kk == k {
                        assert(after[before.len() as int].0@ == k);
                    } else if cookie_map(before).contains_key(kk) {
                        let j = choose|j: int| 0 <= j < before.len() && before[j].0@ == kk;
                        assert(after[j].0@ == kk);
                    } else if cookie_map(after).contains_key(kk) {
                        let j = choose|j: int| 0 <= j < after.len() && after[j].0@ == kk;
                        assert(before[j].0@ == kk);
                    }
                }
                assert forall|kk: Seq<char>| #[trigger] cookie_map(after).contains_key(kk)
                    implies cookie_map(after)[kk] == cookie_map(before).insert(k, v)[kk] by {
                    let j = choose|j: int| 0 <= j < after.len() && after[j].0@ == kk;
                    if kk == k {
                        assert(j == before.len() as int);
                    } else {
                        let j2 = choose|j2: int| 0 <= j2 < before.len() && before[j2].0@ == kk;
                        assert(before[j].0@ == kk);
                        assert(j == j2);
                    }
                }
                assert(cookie_map(after) =~= cookie_map(before).insert(k, v));
            }
        }
        self.cookies = cookies;
        Ok(())
    }

    /// The payload stored under `key`, if any.
    pub fn get(&self, key: &str) -> (r: Option<&bytes::Bytes>)
        ensures
            r is Some <==> self.contents().contains_key(key@),
            r matches Some(b) ==> bytes_view(*b) == self.contents()[key@],
    {
        proof {
            use_type_invariant(self);
        }
        let wanted = key.to_owned();
        let mut i: usize = 0;
        while i < self.cookies.len()
            invariant
                i <= self.cookies@.len(),
                wanted@ == key@,
                distinct_keys(self.cookies@),
                forall|j: int| 0 <= j < i ==> self.cookies@[j].0@ != key@,
            decreases self.cookies@.len() - i,
        {
            if self.cookies[i].0 == wanted {
                proof {
                    let s = self.cookies@;
                    let j = choose|j: int| 0 <= j < s.len() && s[j].0@ == key@;
                    assert(s[j].0@ == s[i as int].0@);
                    assert(j == i as int);
                }
                return Some(&self.cookies[i].1);
            }
            i = i + 1;
        }
        None
    }

    /// The answer to a request for the cookie under `key`: its payload, or
    /// none when nothing is stored under it.
    pub fn format_packet(&self, key: String) -> (r: CookieResponsePacket)
        ensures
            r.key == key,
            r.payload is Some <==> self.contents().contains_key(key@),
            r.payload matches Some(b) ==> bytes_view(b) == self.contents()[key@],
    {
        match self.get(key.as_str()) {
            None => CookieResponsePacket { key, payload: None },
            Some(payload) => CookieResponsePacket { key, payload: Some(bytes_clone(payload)) },
        }
    }
}

} // verus!
