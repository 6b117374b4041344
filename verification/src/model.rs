//! The message as a mathematical value, and what holds of it.

use vstd::prelude::*;
use vstd::string::*;

use crate::validators::valid_topic;

verus! {

/// A message as a mathematical value: the topic, where one is set, and the
/// parameters as pairs of key and value, in the order in which their keys
/// were first added.
pub struct MsgView {
    pub topic: Option<Seq<char>>,
    pub params: Seq<(Seq<char>, Seq<char>)>,
}

impl MsgView {
    /// The message without a topic and without parameters.
    pub open spec fn empty() -> MsgView {
        MsgView { topic: None, params: Seq::empty() }
    }

    /// What holds of every message: its topic, where it has one, is a topic
    /// by the grammar, and no key occurs twice.
    pub open spec fn well_formed(self) -> bool {
        &&& self.topic matches Some(t) ==> valid_topic(t)
        &&& forall|i: int, j: int|
            0 <= i < j < self.params.len() ==> (#[trigger] self.params[i]).0 != (
            #[trigger] self.params[j]).0
    }

    /// The message with its topic replaced where the new one is a topic by
    /// the grammar, and unchanged where it is not.
    pub open spec fn set_topic(self, topic: Seq<char>) -> MsgView {
        if valid_topic(topic) {
            MsgView { topic: Some(topic), params: self.params }
        } else {
            self
        }
    }

    /// Whether a parameter has this key.
    pub open spec fn has_key(self, key: Seq<char>) -> bool {
        exists|i: int| 0 <= i < self.params.len() && (#[trigger] self.params[i]).0 == key
    }

    /// The place of the parameter with this key, where there is one.
    pub open spec fn position(self, key: Seq<char>) -> int {
        choose|i: int| 0 <= i < self.params.len() && (#[trigger] self.params[i]).0 == key
    }

    /// The value of the parameter with this key, where there is one.
    pub open spec fn value_of(self, key: Seq<char>) -> Option<Seq<char>> {
        if self.has_key(key) {
            Some(self.params[self.position(key)].1)
        } else {
            None
        }
    }

    /// The message with a parameter added: a key that is there already keeps
    /// its place and gets the new value, a new key goes to the end.
    pub open spec fn with_param(self, key: Seq<char>, value: Seq<char>) -> MsgView {
        if self.has_key(key) {
            MsgView {
                topic: self.topic,
                params: self.params.update(self.position(key), (key, value)),
            }
        } else {
            MsgView { topic: self.topic, params: self.params.push((key, value)) }
        }
    }

    /// The message as a line for a reader: the topic (`<None>` where none is
    /// set), a colon, and the parameters in braces.
    pub open spec fn display(self) -> Seq<char> {
        let topic = match self.topic {
            Some(t) => t,
            None => "<None>"@,
        };
        topic + ":{"@ + listing(self.params) + "}"@
    }

    /// The parameters as a mapping from key to value.
    pub open spec fn param_map(self) -> Map<Seq<char>, Seq<char>> {
        Map::new(|key: Seq<char>| self.has_key(key), |key: Seq<char>| self.value_of(key)->0)
    }
}

/// Parameters as `key=value`, with commas between them.
pub open spec fn listing(params: Seq<(Seq<char>, Seq<char>)>) -> Seq<char>
    decreases params.len(),
{
    if params.len() == 0 {
        Seq::empty()
    } else {
        let last = params.last().0 + "="@ + params.last().1;
        if params.len() == 1 {
            last
        } else {
            listing(params.drop_last()) + ","@ + last
        }
    }
}

/// In a well-formed message a key stands at one place only.
pub proof fn lemma_position(m: MsgView, key: Seq<char>, i: int)
    requires
        m.well_formed(),
        0 <= i < m.params.len(),
        m.params[i].0 == key,
    ensures
        m.has_key(key),
        m.position(key) == i,
        m.value_of(key) == Some(m.params[i].1),
{
    let j = m.position(key);
    assert(m.params[j].0 == m.params[i].0);
}

/// A parameter that was added is read back with the value it was given, the
/// other keys keep what they had, and the message stays well-formed.
pub proof fn lemma_with_param(m: MsgView, key: Seq<char>, value: Seq<char>)
    requires
        m.well_formed(),
    ensures
        m.with_param(key, value).well_formed(),
        m.with_param(key, value).topic == m.topic,
        m.with_param(key, value).value_of(key) == Some(value),
        forall|other: Seq<char>|
            other != key ==> #[trigger] m.with_param(key, value).value_of(other) == m.value_of(
                other,
            ),
        m.with_param(key, value).param_map() == m.param_map().insert(key, value),
{
    lemma_with_param_values(m, key, value);
    let n = m.with_param(key, value);
    assert forall|k: Seq<char>| n.has_key(k) == (k == key || m.has_key(k)) by {
        if k != key {
            assert(n.value_of(k) == m.value_of(k));
        }
    }
}

/// The part of [`lemma_with_param`] that speaks of single keys.
proof fn lemma_with_param_values(m: MsgView, key: Seq<char>, value: Seq<char>)
    requires
        m.well_formed(),
    ensures
        m.with_param(key, value).well_formed(),
        m.with_param(key, value).topic == m.topic,
        m.with_param(key, value).value_of(key) == Some(value),
        forall|other: Seq<char>|
            other != key ==> #[trigger] m.with_param(key, value).value_of(other) == m.value_of(
                other,
            ),
{
    let n = m.with_param(key, value);
    let i = if m.has_key(key) {
        m.position(key)
    } else {
        m.params.len() as int
    };
    lemma_position(n, key, i);
    assert forall|other: Seq<char>| other != key implies #[trigger] n.value_of(other)
        == m.value_of(other) by {
        if m.has_key(other) {
            lemma_position(n, other, m.position(other));
        } else if n.has_key(other) {
            assert(m.params[n.position(other)].0 == other);
        }
    }
}

/// A parameter that is added twice has the value that was given last.
pub proof fn lemma_with_param_twice(
    m: MsgView,
    key: Seq<char>,
    first: Seq<char>,
    second: Seq<char>,
)
    requires
        m.well_formed(),
    ensures
        m.with_param(key, first).with_param(key, second).value_of(key) == Some(second),
        m.with_param(key, first).with_param(key, second).params.len() == m.with_param(
            key,
            first,
        ).params.len(),
{
    lemma_with_param(m, key, first);
    lemma_with_param(m.with_param(key, first), key, second);
}

/// Setting a topic that the grammar accepts makes it the topic; one that the
/// grammar refuses changes nothing, so that the topic set before it stays.
pub proof fn lemma_set_topic(m: MsgView, topic: Seq<char>)
    requires
        m.well_formed(),
    ensures
        m.set_topic(topic).well_formed(),
        m.set_topic(topic).params == m.params,
        valid_topic(topic) ==> m.set_topic(topic).topic == Some(topic),
        !valid_topic(topic) ==> m.set_topic(topic) == m,
{
}

/// The empty message has no topic, and no key has a value in it.
pub proof fn lemma_empty(key: Seq<char>)
    ensures
        MsgView::empty().well_formed(),
        MsgView::empty().topic is None,
        MsgView::empty().value_of(key) is None,
        MsgView::empty().param_map() == Map::<Seq<char>, Seq<char>>::empty(),
{
}

/// The pairs of a parameter list, each string as its characters.
pub open spec fn pairs_view(pairs: Seq<(String, String)>) -> Seq<(Seq<char>, Seq<char>)> {
    Seq::new(pairs.len(), |i: int| (pairs[i].0@, pairs[i].1@))
}

} // verus!
