//! The store of the current token and record, and the validity of a token.
//!
//! A token is three segments separated by dots. The middle segment is
//! URL-safe base64 of a JSON object; its `exp` member is the time, in
//! seconds, at which the token ends. A token is valid while that time is
//! still ahead.

use crate::json::as_i64;
use crate::json::json_as_i64;
use crate::json::json_is_null;
use crate::json::json_member;
use crate::json::json_parsed_bytes;
use crate::json::member;
use crate::json::null_value;
use crate::json::parse_bytes;
use crate::text::chars_of;
use crate::text::lemma_position_of_unique;
use crate::text::position_of;
use crate::text::string_of;
use crate::text::sub_chars;
use crate::utils::base64_decoded;
use crate::utils::base64_prepared;
use crate::utils::base64_url_decode;
use serde_json::Value;
use vstd::prelude::*;
use vstd::utf8::*;

verus! {

/// The pieces of a text between the occurrences of a separator.
pub open spec fn split_on(s: Seq<char>, c: char) -> Seq<Seq<char>>
    decreases s.len(),
{
    if 0 <= position_of(s, c) < s.len() {
        seq![s.take(position_of(s, c))] + split_on(s.skip(position_of(s, c) + 1), c)
    } else {
        seq![s]
    }
}

/// The views of a list of character vectors.
pub open spec fn piece_views(pieces: Seq<Vec<char>>) -> Seq<Seq<char>> {
    Seq::new(pieces.len(), |i: int| pieces[i]@)
}

/// Splits a text at every occurrence of a separator.
pub fn split_chars(chars: &Vec<char>, c: char) -> (r: Vec<Vec<char>>)
    ensures
        piece_views(r@) == split_on(chars@, c),
{
    let mut out: Vec<Vec<char>> = Vec::new();
    let mut pos: usize = 0;
    let mut done = false;
    proof {
        assert(chars@.skip(0) =~= chars@);
        assert(piece_views(out@) + split_on(chars@, c) =~= split_on(chars@, c));
    }
    while !done
        invariant
            pos <= chars.len(),
            !done ==> split_on(chars@, c) == piece_views(out@) + split_on(
                chars@.skip(pos as int),
                c,
            ),
            done ==> split_on(chars@, c) == piece_views(out@),
        decreases (if done { 0int } else { 1int }), chars.len() - pos,
    {
        let ghost rest = chars@.skip(pos as int);
        let ghost before = piece_views(out@);
        let mut end: usize = pos;
        while end < chars.len() && chars[end] != c
            invariant
                pos <= end <= chars.len(),
                forall|j: int| pos <= j < end ==> chars@[j] != c,
            decreases chars.len() - end,
        {
            end += 1;
        }
        proof {
            assert forall|j: int| 0 <= j < end - pos implies rest[j] != c by {
                assert(rest[j] == chars@[pos + j]);
            }
            if end < chars.len() {
                assert(rest[end - pos] == c);
            }
            lemma_position_of_unique(rest, c, end - pos);
        }
        let piece = sub_chars(chars, pos, end);
        proof {
            assert(piece@ =~= rest.take(end - pos));
        }
        out.push(piece);
        proof {
            assert(piece_views(out@) =~= before + seq![piece@]);
        }
        if end < chars.len() {
            proof {
                assert(chars@.skip(end as int + 1) =~= rest.skip(end - pos + 1));
                assert(before + (seq![piece@] + split_on(rest.skip(end - pos + 1), c)) =~= (before
                    + seq![piece@]) + split_on(rest.skip(end - pos + 1), c));
            }
            pos = end + 1;
        } else {
            proof {
                assert(piece@ =~= rest);
            }
            done = true;
        }
    }
    out
}

/// The middle segment of a token that has exactly three.
pub open spec fn jwt_payload_segment(token: Seq<char>) -> Option<Seq<char>> {
    if split_on(token, '.').len() == 3 {
        Some(split_on(token, '.')[1])
    } else {
        None
    }
}

/// The `exp` member of a JSON value, where it is an integer.
pub open spec fn claims_expiry(claims: Option<Value>) -> Option<i64> {
    match claims {
        Some(v) => match json_member(v, "exp"@) {
            Some(e) => json_as_i64(e),
            None => None,
        },
        None => None,
    }
}

/// The JSON value that a segment of a token holds: the segment is
/// URL-safe base64 of a JSON text.
pub open spec fn segment_claims(segment: Seq<char>) -> Option<Value> {
    match base64_decoded(base64_prepared(encode_utf8(segment))) {
        Some(bytes) => json_parsed_bytes(bytes),
        None => None,
    }
}

/// The claims that the middle segment of a token holds.
pub open spec fn jwt_claims(token: Seq<char>) -> Option<Value> {
    match jwt_payload_segment(token) {
        Some(segment) => segment_claims(segment),
        None => None,
    }
}

/// The time at which a token ends, where the token tells it.
pub open spec fn jwt_expiry(token: Seq<char>) -> Option<i64> {
    claims_expiry(jwt_claims(token))
}

/// Whether an end time, if there is one, is still ahead of `now`.
pub open spec fn expiry_allows(expiry: Option<i64>, now: i64) -> bool {
    match expiry {
        Some(e) => e > now,
        None => false,
    }
}

/// The middle segment of a token that has exactly three.
pub fn payload_segment(token: &str) -> (r: Option<String>)
    ensures
        match r {
            Some(s) => jwt_payload_segment(token@) == Some(s@),
            None => jwt_payload_segment(token@) is None,
        },
{
    let parts = split_chars(&chars_of(token), '.');
    if parts.len() != 3 {
        return None;
    }
    assert(piece_views(parts@)[1] == parts@[1]@);
    Some(string_of(&parts[1]))
}

/// The `exp` member of a token's claims, where it is an integer.
pub fn expiry_of_claims(claims: Option<Value>) -> (r: Option<i64>)
    ensures
        r == claims_expiry(claims),
{
    match claims {
        Some(v) => match member(&v, "exp") {
            Some(e) => as_i64(e),
            None => None,
        },
        None => None,
    }
}

/// The JSON value that a segment of a token holds.
pub fn jwt_claims_of(segment: &str) -> (r: Option<Value>)
    ensures
        r == segment_claims(segment@),
{
    match base64_url_decode(segment) {
        Some(bytes) => parse_bytes(&bytes),
        None => None,
    }
}

/// The time at which a token ends, where the token tells it.
pub fn token_expiry(token: &str) -> (r: Option<i64>)
    ensures
        r == jwt_expiry(token@),
{
    let claims = match payload_segment(token) {
        Some(segment) => jwt_claims_of(segment.as_str()),
        None => None,
    };
    expiry_of_claims(claims)
}

/// Whether an end time, if there is one, is still ahead of `now`.
pub fn expires_after(expiry: Option<i64>, now: i64) -> (r: bool)
    ensures
        r == expiry_allows(expiry, now),
{
    match expiry {
        Some(e) => e > now,
        None => false,
    }
}

/// Whether a token is valid at the time `now`, in seconds: it has three
/// segments, its claims can be read, and its end is still ahead.
pub fn is_jwt_valid(token: &str, now: i64) -> (r: bool)
    ensures
        r == expiry_allows(jwt_expiry(token@), now),
{
    expires_after(token_expiry(token), now)
}

/// The store as plain values.
pub struct AuthModel<L> {
    pub token: Seq<char>,
    pub record: Value,
    pub listeners: Seq<(usize, L)>,
    pub next_id: usize,
}

/// The listeners of a list whose identifier is not `id`, in order.
pub open spec fn listeners_without<L>(listeners: Seq<(usize, L)>, id: usize) -> Seq<(usize, L)> {
    listeners.filter(|p: (usize, L)| p.0 != id)
}

/// The identifier after `counter`.
pub open spec fn next_listener_id(counter: usize) -> usize {
    if counter == usize::MAX {
        0
    } else {
        (counter + 1) as usize
    }
}

/// The store of the current token and record, with the listeners that are
/// told of every change. `L` is the type of the listeners' callbacks.
pub struct AuthStore<L> {
    token: String,
    record: Value,
    listeners: Vec<(usize, L)>,
    next_id: usize,
}

impl<L> View for AuthStore<L> {
    type V = AuthModel<L>;

    closed spec fn view(&self) -> AuthModel<L> {
        AuthModel {
            token: self.token@,
            record: self.record,
            listeners: self.listeners@,
            next_id: self.next_id,
        }
    }
}

impl<L> AuthStore<L> {
    /// An empty store: no token, a null record, no listener.
    pub fn new() -> (r: Self)
        ensures
            r@.token.len() == 0,
            json_is_null(r@.record),
            r@.listeners.len() == 0,
            r@.next_id == 0,
    {
        AuthStore { token: String::new(), record: null_value(), listeners: Vec::new(), next_id: 0 }
    }

    /// The current token.
    pub fn token(&self) -> (r: String)
        ensures
            r@ == self@.token,
    {
        self.token.clone()
    }

    /// The current record.
    pub fn record(&self) -> (r: Value)
        ensures
            r == self@.record,
    {
        self.record.clone()
    }

    /// Whether the store holds a token that is valid at the time `now`, in seconds.
    pub fn is_valid(&self, now: i64) -> (r: bool)
        ensures
            r == (self@.token.len() > 0 && expiry_allows(jwt_expiry(self@.token), now)),
    {
        if chars_of(self.token.as_str()).len() == 0 {
            return false;
        }
        is_jwt_valid(self.token.as_str(), now)
    }

    /// The token to attach to a request at the time `now`, in seconds: the
    /// token of the store where it is valid, and none otherwise.
    pub fn valid_token(&self, now: i64) -> (r: Option<String>)
        ensures
            match r {
                Some(t) => t@ == self@.token && self@.token.len() > 0 && expiry_allows(
                    jwt_expiry(self@.token),
                    now,
                ),
                None => !(self@.token.len() > 0 && expiry_allows(jwt_expiry(self@.token), now)),
            },
    {
        if self.is_valid(now) {
            Some(self.token.clone())
        } else {
            None
        }
    }

    /// Replaces the token and the record. The listeners stay as they are;
    /// they are to be told of the change.
    pub fn save(&mut self, token: String, record: Value)
        ensures
            final(self)@ == (AuthModel { token: token@, record, ..old(self)@ }),
    {
        self.token = token;
        self.record = record;
    }

    /// Empties the store: no token, a null record.
    pub fn clear(&mut self)
        ensures
            final(self)@.token.len() == 0,
            json_is_null(final(self)@.record),
            final(self)@.listeners == old(self)@.listeners,
            final(self)@.next_id == old(self)@.next_id,
    {
        self.save(String::new(), null_value());
    }

    /// The callbacks of the listeners, in order of registration.
    pub fn listeners(&self) -> (r: Vec<&L>)
        ensures
            r@.len() == self@.listeners.len(),
            forall|i: int| 0 <= i < r@.len() ==> *r@[i] == self@.listeners[i].1,
    {
        let mut out: Vec<&L> = Vec::new();
        let mut i: usize = 0;
        while i < self.listeners.len()
            invariant
                i <= self.listeners.len(),
                out@.len() == i,
                forall|k: int| 0 <= k < i ==> *out@[k] == self.listeners@[k].1,
            decreases self.listeners.len() - i,
        {
            out.push(&self.listeners[i].1);
            i += 1;
        }
        out
    }

    /// Registers a listener and hands back its identifier.
    pub fn add_listener(&mut self, listener: L) -> (id: usize)
        ensures
            id == next_listener_id(old(self)@.next_id),
            final(self)@ == (AuthModel {
                listeners: old(self)@.listeners.push((id, listener)),
                next_id: id,
                ..old(self)@
            }),
    {
        let id: usize = if self.next_id == usize::MAX {
            0
        } else {
            self.next_id + 1
        };
        self.next_id = id;
        self.listeners.push((id, listener));
        id
    }

    /// Removes the listener with the given identifier.
    pub fn remove_listener(&mut self, id: usize)
        ensures
            final(self)@ == (AuthModel {
                listeners: listeners_without(old(self)@.listeners, id),
                ..old(self)@
            }),
    {
        let mut rest: Vec<(usize, L)> = Vec::new();
        core::mem::swap(&mut self.listeners, &mut rest);
        let ghost orig = rest@;
        let total = rest.len();
        let mut done: usize = 0;
        proof {
            assert(orig.take(0) =~= Seq::empty());
        }
        while rest.len() > 0
            invariant
                done + rest@.len() == orig.len(),
                orig.len() == total,
                rest@ == orig.skip(done as int),
                self.listeners@ == listeners_without(orig.take(done as int), id),
                self.token == old(self).token,
                self.record == old(self).record,
                self.next_id == old(self).next_id,
            decreases rest@.len(),
        {
            let pair = rest.remove(0);
            proof {
                let next = orig.take(done as int + 1);
                assert(next.drop_last() =~= orig.take(done as int));
                assert(next.last() == pair);
                assert(rest@ =~= orig.skip(done as int + 1));
                reveal(Seq::filter);
            }
            if pair.0 != id {
                self.listeners.push(pair);
            }
            done += 1;
        }
        proof {
            assert(orig.take(orig.len() as int) =~= orig);
        }
    }
}

} // verus!
