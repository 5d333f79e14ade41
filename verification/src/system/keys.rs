//! Event keys: how handlers and emitters name the events they meet on.
//!
//! - core events: `core:{event}`
//! - client events: `client:{namespace}:{event}`
//! - plugin events: `plugin:{plugin}:{event}`
//! - GORC events: `gorc:{object_type}:{channel}:{event}`
//! - GORC instance events: `gorc_instance:{object_type}:{channel}:{event}`

use crate::text::{decimal_text, find_char_from, push_decimal};
use vstd::prelude::*;
use vstd::string::{StrSliceExecFns, StringExecFns};

verus! {

/// `core:{event}`.
pub open spec fn core_key_spec(event: Seq<char>) -> Seq<char> {
    "core:"@ + event
}

/// `client:{namespace}:{event}`.
pub open spec fn client_key_spec(namespace: Seq<char>, event: Seq<char>) -> Seq<char> {
    "client:"@ + namespace + ":"@ + event
}

/// `plugin:{plugin}:{event}`.
pub open spec fn plugin_key_spec(plugin: Seq<char>, event: Seq<char>) -> Seq<char> {
    "plugin:"@ + plugin + ":"@ + event
}

/// `gorc:{object_type}:{channel}:{event}`.
pub open spec fn gorc_key_spec(object_type: Seq<char>, channel: u8, event: Seq<char>) -> Seq<char> {
    "gorc:"@ + object_type + ":"@ + decimal_text(channel as nat) + ":"@ + event
}

/// `gorc_instance:{object_type}:{channel}:{event}`.
pub open spec fn gorc_instance_key_spec(object_type: Seq<char>, channel: u8, event: Seq<char>) -> Seq<char> {
    "gorc_instance:"@ + object_type + ":"@ + decimal_text(channel as nat) + ":"@ + event
}

/// The key of a core server event.
pub fn core_event_key(event_name: &str) -> (key: String)
    ensures
        key@ == core_key_spec(event_name@),
{
    let mut key = "core:".to_owned();
    key.append(event_name);
    key
}

/// The key of a client event within a namespace.
pub fn client_event_key(namespace: &str, event_name: &str) -> (key: String)
    ensures
        key@ == client_key_spec(namespace@, event_name@),
{
    let mut key = "client:".to_owned();
    key.append(namespace);
    key.append(":");
    key.append(event_name);
    key
}

/// The key of a plugin-to-plugin event.
pub fn plugin_event_key(plugin_name: &str, event_name: &str) -> (key: String)
    ensures
        key@ == plugin_key_spec(plugin_name@, event_name@),
{
    let mut key = "plugin:".to_owned();
    key.append(plugin_name);
    key.append(":");
    key.append(event_name);
    key
}

/// The key of a GORC object event on a channel.
pub fn gorc_event_key(object_type: &str, channel: u8, event_name: &str) -> (key: String)
    ensures
        key@ == gorc_key_spec(object_type@, channel, event_name@),
{
    let mut key = "gorc:".to_owned();
    key.append(object_type);
    key.append(":");
    push_decimal(&mut key, channel as u64);
    key.append(":");
    key.append(event_name);
    key
}

/// The key of a GORC instance event on a channel.
pub fn gorc_instance_event_key(object_type: &str, channel: u8, event_name: &str) -> (key: String)
    ensures
        key@ == gorc_instance_key_spec(object_type@, channel, event_name@),
{
    let mut key = "gorc_instance:".to_owned();
    key.append(object_type);
    key.append(":");
    push_decimal(&mut key, channel as u64);
    key.append(":");
    key.append(event_name);
    key
}

/// The first index of `c` in `s`, if any.
pub open spec fn first_index_of(s: Seq<char>, c: char, from: int) -> Option<int> {
    if exists|i: int| from <= i < s.len() && s[i] == c {
        Some(choose|i: int| from <= i < s.len() && s[i] == c && forall|k: int| from <= k < i ==> s[k] != c)
    } else {
        None
    }
}

/// The namespace part of an event key: the text between the first and the
/// second `:`, or everything after the first `:` when there is no second
/// one, or the empty text when the key has no `:`.
pub open spec fn namespace_spec(key: Seq<char>) -> Seq<char> {
    match first_index_of(key, ':', 0) {
        None => Seq::empty(),
        Some(first) => match first_index_of(key, ':', first + 1) {
            None => key.subrange(first + 1, key.len() as int),
            Some(second) => key.subrange(first + 1, second),
        },
    }
}

proof fn lemma_first_index(s: Seq<char>, c: char, from: int, i: int)
    requires
        0 <= from <= i < s.len(),
        s[i] == c,
        forall|k: int| from <= k < i ==> s[k] != c,
    ensures
        first_index_of(s, c, from) == Some(i),
{
    assert(exists|j: int| from <= j < s.len() && s[j] == c);
    let j = choose|j: int| from <= j < s.len() && s[j] == c && forall|k: int| from <= k < j ==> s[k] != c;
    assert(j == i) by {
        if j < i {
            assert(s[j] != c);
        } else if j > i {
            assert(s[i] != c);
        }
    }
}

/// Extracts the namespace part of an event key.
pub fn namespace_from_key(event_key: &str) -> (ns: &str)
    ensures
        ns@ == namespace_spec(event_key@),
{
    let len = event_key.unicode_len();
    match find_char_from(event_key, ':', 0) {
        None => {
            proof {
                reveal_strlit("");
            }
            assert(first_index_of(event_key@, ':', 0) is None);
            event_key.substring_char(0, 0)
        },
        Some(first) => {
            proof {
                lemma_first_index(event_key@, ':', 0, first as int);
            }
            match find_char_from(event_key, ':', first + 1) {
                None => {
                    assert(first_index_of(event_key@, ':', first + 1) is None);
                    event_key.substring_char(first + 1, len)
                },
                Some(second) => {
                    proof {
                        lemma_first_index(event_key@, ':', first + 1, second as int);
                    }
                    event_key.substring_char(first + 1, second)
                },
            }
        },
    }
}


/// `s` holds no `:`.
pub open spec fn no_colon(s: Seq<char>) -> bool {
    forall|i: int| 0 <= i < s.len() ==> s[i] != ':'
}

proof fn lemma_no_further_colon(s: Seq<char>, from: int)
    requires
        0 <= from <= s.len(),
        forall|k: int| from <= k < s.len() ==> s[k] != ':',
    ensures
        first_index_of(s, ':', from) is None,
{
}

proof fn lemma_namespace_of_prefixed(prefix: Seq<char>, namespace: Seq<char>, event: Seq<char>)
    requires
        prefix.len() >= 1,
        prefix[prefix.len() - 1] == ':',
        forall|i: int| 0 <= i < prefix.len() - 1 ==> prefix[i] != ':',
        no_colon(namespace),
    ensures
        namespace_spec(prefix + namespace + ":"@ + event) == namespace,
{
    reveal_strlit(":");
    let key = prefix + namespace + ":"@ + event;
    let p = prefix.len() as int;
    let n = namespace.len() as int;
    assert(key[p - 1] == ':');
    assert forall|k: int| 0 <= k < p - 1 implies key[k] != ':' by {
        assert(key[k] == prefix[k]);
    }
    lemma_first_index(key, ':', 0, p - 1);
    assert(key[p + n] == ':');
    assert forall|k: int| p <= k < p + n implies key[k] != ':' by {
        assert(key[k] == namespace[k - p]);
    }
    lemma_first_index(key, ':', p, p + n);
    assert(key.subrange(p, p + n) =~= namespace);
}

/// The namespace of a client event key is the namespace it was built from,
/// when that namespace holds no `:`.
pub proof fn law_client_key_namespace(namespace: Seq<char>, event: Seq<char>)
    requires
        no_colon(namespace),
    ensures
        namespace_spec(client_key_spec(namespace, event)) == namespace,
{
    reveal_strlit("client:");
    let prefix = "client:"@;
    assert(prefix =~= seq!['c', 'l', 'i', 'e', 'n', 't', ':']);
    assert forall|i: int| 0 <= i < prefix.len() - 1 implies prefix[i] != ':' by {
        assert(seq!['c', 'l', 'i', 'e', 'n', 't', ':'][i] != ':');
    }
    lemma_namespace_of_prefixed(prefix, namespace, event);
}

/// The namespace of a plugin event key is the plugin name it was built
/// from, when that name holds no `:`.
pub proof fn law_plugin_key_namespace(plugin: Seq<char>, event: Seq<char>)
    requires
        no_colon(plugin),
    ensures
        namespace_spec(plugin_key_spec(plugin, event)) == plugin,
{
    reveal_strlit("plugin:");
    let prefix = "plugin:"@;
    assert(prefix =~= seq!['p', 'l', 'u', 'g', 'i', 'n', ':']);
    assert forall|i: int| 0 <= i < prefix.len() - 1 implies prefix[i] != ':' by {
        assert(seq!['p', 'l', 'u', 'g', 'i', 'n', ':'][i] != ':');
    }
    lemma_namespace_of_prefixed(prefix, plugin, event);
}

/// The namespace of a GORC event key is the object type it was built from,
/// when that type holds no `:`.
pub proof fn law_gorc_key_namespace(object_type: Seq<char>, channel: u8, event: Seq<char>)
    requires
        no_colon(object_type),
    ensures
        namespace_spec(gorc_key_spec(object_type, channel, event)) == object_type,
{
    reveal_strlit("gorc:");
    reveal_strlit(":");
    let prefix = "gorc:"@;
    assert(prefix =~= seq!['g', 'o', 'r', 'c', ':']);
    assert forall|i: int| 0 <= i < prefix.len() - 1 implies prefix[i] != ':' by {
        assert(seq!['g', 'o', 'r', 'c', ':'][i] != ':');
    }
    let rest = decimal_text(channel as nat) + ":"@ + event;
    assert(gorc_key_spec(object_type, channel, event) =~= "gorc:"@ + object_type + ":"@ + rest);
    lemma_namespace_of_prefixed("gorc:"@, object_type, rest);
}

/// The namespace of a core event key is the event name, when that name
/// holds no `:`.
pub proof fn law_core_key_namespace(event: Seq<char>)
    requires
        no_colon(event),
    ensures
        namespace_spec(core_key_spec(event)) == event,
{
    reveal_strlit("core:");
    let key = core_key_spec(event);
    assert(key[4] == ':');
    assert forall|k: int| 0 <= k < 4 implies key[k] != ':' by {}
    lemma_first_index(key, ':', 0, 4);
    assert forall|k: int| 5 <= k < key.len() implies key[k] != ':' by {
        assert(key[k] == event[k - 5]);
    }
    lemma_no_further_colon(key, 5);
    assert(key.subrange(5, key.len() as int) =~= event);
}

} // verus!
