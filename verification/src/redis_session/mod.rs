//! Sessions kept in Redis: how session identifiers map to keys, and the session record.
use vstd::prelude::*;
use crate::error::prefixed_message;
use crate::text::{chars_of, chars_start_with, copy_range, seq_starts_with, string_of};

verus! {

broadcast use vstd::string::group_string_axioms;

/// `serde_json::Value`, any JSON value.
#[verifier::external_type_specification]
#[verifier::external_body]
pub struct ExJsonValue(serde_json::Value);

/// `serde_json::Value::Object(serde_json::Map::new())`: an empty JSON object. Nothing is
/// claimed of the value, which Verus cannot see into.
#[verifier::external_body]
fn empty_json_object() -> (r: serde_json::Value) {
    serde_json::Value::Object(serde_json::Map::new())
}

/// `chrono::Utc::now().timestamp()`: the current time in whole seconds since the Unix
/// epoch. Nothing is claimed of it.
#[verifier::external_body]
fn now_unix_secs() -> (r: i64) {
    chrono::Utc::now().timestamp()
}

/// The keys of sessions stored under a common prefix.
pub struct RedisSessionKeys {
    pub key_prefix: String,
}

/// The session identifiers that `keys` hold under `prefix`, in order; keys without the
/// prefix are left out.
pub open spec fn ids_under(prefix: Seq<char>, keys: Seq<Seq<char>>) -> Seq<Seq<char>>
    decreases keys.len(),
{
    if keys.len() == 0 {
        Seq::empty()
    } else {
        let rest = ids_under(prefix, keys.drop_last());
        if seq_starts_with(keys.last(), prefix) {
            rest.push(keys.last().subrange(prefix.len() as int, keys.last().len() as int))
        } else {
            rest
        }
    }
}

impl RedisSessionKeys {
    /// Keys under `key_prefix`.
    pub fn new(key_prefix: String) -> (r: RedisSessionKeys)
        ensures
            r.key_prefix == key_prefix,
    {
        RedisSessionKeys { key_prefix }
    }

    /// The key of a session: the prefix followed by the session identifier.
    pub fn make_key(&self, session_id: &str) -> (r: String)
        ensures
            r@ == self.key_prefix@ + session_id@,
    {
        prefixed_message(self.key_prefix.as_str(), session_id)
    }

    /// The pattern matching every session key: the prefix followed by `*`.
    pub fn key_pattern(&self) -> (r: String)
        ensures
            r@ == self.key_prefix@ + "*"@,
    {
        prefixed_message(self.key_prefix.as_str(), "*")
    }

    /// The session identifiers of `keys`: each key that starts with the prefix, with the
    /// prefix taken off.
    pub fn session_ids(&self, keys: &Vec<String>) -> (r: Vec<String>)
        ensures
            crate::deployment::ab_test::string_views(r@) == ids_under(
                self.key_prefix@,
                crate::deployment::ab_test::string_views(keys@),
            ),
    {
        let prefix = chars_of(self.key_prefix.as_str());
        let ghost views = crate::deployment::ab_test::string_views(keys@);
        let mut out: Vec<String> = Vec::new();
        let mut i: usize = 0;
        while i < keys.len()
            invariant
                prefix@ == self.key_prefix@,
                views == crate::deployment::ab_test::string_views(keys@),
                i <= keys@.len(),
                crate::deployment::ab_test::string_views(out@) == ids_under(self.key_prefix@, views.subrange(0, i as int)),
            decreases keys@.len() - i,
        {
            assert(views.subrange(0, i + 1).drop_last() =~= views.subrange(0, i as int));
            assert(views.subrange(0, i + 1).last() == keys@[i as int]@);
            let k = chars_of(keys[i].as_str());
            if chars_start_with(k.as_slice(), prefix.as_slice()) {
                let id = string_of(copy_range(k.as_slice(), prefix.len(), k.len()).as_slice());
                let ghost before = out@;
                out.push(id);
                assert(crate::deployment::ab_test::string_views(out@) =~= crate::deployment::ab_test::string_views(before).push(id@));
            }
            i += 1;
        }
        assert(views.subrange(0, keys@.len() as int) =~= views);
        out
    }
}

/// A stored session: its user, when it was made and last used (seconds since the Unix
/// epoch), and its data.
#[derive(Debug)]
pub struct SessionData {
    pub user_id: Option<String>,
    pub created_at: i64,
    pub last_accessed: i64,
    pub data: serde_json::Value,
}

impl SessionData {
    /// A session made now, used now, with no user and an empty JSON object as data. Both
    /// times are one reading of the system clock, of which nothing is claimed; the data is
    /// a `serde_json::Value`, whose contents Verus cannot see.
    pub fn new() -> (r: SessionData)
        ensures
            r.user_id is None,
            r.created_at == r.last_accessed,
    {
        let now = now_unix_secs();
        SessionData { user_id: None, created_at: now, last_accessed: now, data: empty_json_object() }
    }

    /// Marks the session as used now: the last-use time becomes a new reading of the system
    /// clock, of which nothing is claimed; the rest of the session is kept.
    pub fn touch(&mut self)
        ensures
            final(self).user_id == old(self).user_id,
            final(self).created_at == old(self).created_at,
            final(self).data == old(self).data,
    {
        self.last_accessed = now_unix_secs();
    }
}

} // verus!
