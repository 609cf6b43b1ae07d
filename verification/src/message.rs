//! The data shapes for inbound messages and outbound responses, and the
//! lookup of named tags carried alongside a message.

use vstd::prelude::*;
use vstd::string::StringExecFns;
use crate::strutil::str_eq;

verus! {

/// An inbound message. Every field is optional; handlers supply defaults
/// (an absent sender is addressed as "unknown"). `tags` carries out-of-band
/// directives such as the action name and the operation key; insertion order
/// is irrelevant and the first entry with a given name is the one that counts.
#[derive(Debug, Clone)]
pub struct AOMessage {
    pub id: Option<String>,
    pub from: Option<String>,
    pub owner: Option<String>,
    pub target: Option<String>,
    pub anchor: Option<String>,
    pub data: Option<String>,
    pub tags: Option<Vec<(String, String)>>,
    pub timestamp: Option<String>,
    pub block_height: Option<String>,
    pub hash_chain: Option<String>,
}

impl Default for AOMessage {
    fn default() -> (r: Self)
        ensures
            r.id is None,
            r.from is None,
            r.owner is None,
            r.target is None,
            r.anchor is None,
            r.data is None,
            r.tags is None,
            r.timestamp is None,
            r.block_height is None,
            r.hash_chain is None,
    {
        Self {
            id: None,
            from: None,
            owner: None,
            target: None,
            anchor: None,
            data: None,
            tags: None,
            timestamp: None,
            block_height: None,
            hash_chain: None,
        }
    }
}

/// The value of the first tag named `name`, if any.
pub open spec fn tag_spec(tags: Seq<(String, String)>, name: Seq<char>) -> Option<Seq<char>>
    decreases tags.len(),
{
    if tags.len() == 0 {
        None
    } else if tags[0].0@ == name {
        Some(tags[0].1@)
    } else {
        tag_spec(tags.drop_first(), name)
    }
}

/// The value of the message tag named `name`, if the message carries tags
/// and one of them has that name.
pub open spec fn msg_tag(msg: &AOMessage, name: Seq<char>) -> Option<Seq<char>> {
    match msg.tags {
        Some(tags) => tag_spec(tags@, name),
        None => None,
    }
}

/// The address every response to `msg` is directed at: the sender, or
/// "unknown" if the message does not name one.
pub open spec fn reply_to(msg: &AOMessage) -> Seq<char> {
    match msg.from {
        Some(f) => f@,
        None => "unknown"@,
    }
}

proof fn lemma_tag_spec_step(tags: Seq<(String, String)>, name: Seq<char>, i: int)
    requires
        0 <= i < tags.len(),
        tags[i].0@ != name,
    ensures
        tag_spec(tags.skip(i), name) == tag_spec(tags.skip(i + 1), name),
{
    assert(tags.skip(i).len() > 0);
    assert(tags.skip(i)[0] == tags[i]);
    assert(tags.skip(i).drop_first() =~= tags.skip(i + 1));
}

impl AOMessage {
    /// Looks the named tag up, returning a copy of its value.
    pub fn tag_value(&self, name: &str) -> (r: Option<String>)
        ensures
            r is Some <==> msg_tag(self, name@) is Some,
            r matches Some(v) ==> msg_tag(self, name@) == Some(v@),
    {
        match self.tags.as_ref() {
            None => None,
            Some(tags) => {
                let n = tags.len();
                let mut i: usize = 0;
                proof {
                    assert(tags@.skip(0) =~= tags@);
                }
                while i < n
                    invariant
                        n == tags@.len(),
                        i <= n,
                        msg_tag(self, name@) == tag_spec(tags@.skip(i as int), name@),
                    decreases n - i,
                {
                    if str_eq(tags[i].0.as_str(), name) {
                        proof {
                            assert(tags@.skip(i as int).len() > 0);
                            assert(tags@.skip(i as int)[0] == tags@[i as int]);
                            assert(tag_spec(tags@.skip(i as int), name@) == Some(
                                tags@[i as int].1@,
                            ));
                        }
                        return Some(tags[i].1.clone());
                    }
                    proof {
                        lemma_tag_spec_step(tags@, name@, i as int);
                    }
                    i += 1;
                }
                proof {
                    assert(tags@.skip(n as int) =~= Seq::<(String, String)>::empty());
                }
                None
            },
        }
    }

    /// The sender to address the reply to, defaulting to "unknown".
    pub fn reply_target(&self) -> (r: String)
        ensures
            r@ == reply_to(self),
    {
        match self.from.as_ref() {
            Some(f) => f.clone(),
            None => String::from_str("unknown"),
        }
    }
}

/// An outbound response: always a recipient, a response-type tag, and a
/// primary payload, plus an open extension mapping for auxiliary fields.
#[derive(Debug, Clone)]
pub struct AOResponse {
    pub target: String,
    pub action: String,
    pub data: String,
    pub extra_fields: Vec<(String, String)>,
}

impl AOResponse {
    pub fn new(target: &str, action: &str, data: &str) -> (r: Self)
        ensures
            r.target@ == target@,
            r.action@ == action@,
            r.data@ == data@,
            r.extra_fields@.len() == 0,
    {
        Self {
            target: String::from_str(target),
            action: String::from_str(action),
            data: String::from_str(data),
            extra_fields: Vec::new(),
        }
    }

    /// Adds one extension field, keeping everything already present. A
    /// duplicate of an existing name is appended, not overwritten; an
    /// encoding layer that flattens the fields lets the later entry win.
    pub fn with_field(self, key: &str, value: &str) -> (r: Self)
        ensures
            r.target == self.target,
            r.action == self.action,
            r.data == self.data,
            r.extra_fields@.len() == self.extra_fields@.len() + 1,
            r.extra_fields@[self.extra_fields@.len() as int].0@ == key@,
            r.extra_fields@[self.extra_fields@.len() as int].1@ == value@,
            forall|i: int|
                0 <= i < self.extra_fields@.len() ==> r.extra_fields@[i]
                    == self.extra_fields@[i],
    {
        let mut this = self;
        this.extra_fields.push((String::from_str(key), String::from_str(value)));
        this
    }

    /// A response of the error kind, carrying a human-readable message.
    pub fn error(target: &str, message: &str) -> (r: Self)
        ensures
            r.target@ == target@,
            r.action@ == "Error"@,
            r.data@ == message@,
            r.extra_fields@.len() == 0,
    {
        Self::new(target, "Error", message)
    }
}

} // verus!
