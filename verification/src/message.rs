//! The message: a topic and parameters, and the operations on them.

use bytes::BytesMut;
use vstd::prelude::*;
use vstd::string::*;

use crate::buffer::buffer_bytes;
use crate::convert::{ParamInt, ParamText};
use crate::err::{Error, ErrorView};
use crate::model::{lemma_position, lemma_with_param, listing, pairs_view, MsgView};
use crate::text::same_text;
use crate::validators::{topic_fault, valid_topic, validate_topic};
use crate::wire::{encode, encode_into, wire_bytes, wire_len, wire_size};

verus! {

/// The text that says that a parameter's value is no number.
pub open spec fn unparsable(key: Seq<char>) -> Seq<char> {
    "Unable to parse numeric value from parameter '"@ + key + "'"@
}

/// A topic and a set of parameters with unique keys.
///
/// The topic, once set, is always one that the grammar accepts. The
/// parameters keep the order in which their keys were first added, and the
/// encoding follows that order, so that a message always encodes to the same
/// bytes.
#[derive(Debug)]
pub struct Msg {
    topic: Option<String>,
    params: Vec<(String, String)>,
}

impl View for Msg {
    type V = MsgView;

    closed spec fn view(&self) -> MsgView {
        MsgView {
            topic: match self.topic {
                Some(t) => Some(t@),
                None => None,
            },
            params: pairs_view(self.params@),
        }
    }
}

impl Msg {
    /// Every message is well-formed, at all times.
    #[verifier::type_invariant]
    spec fn inv(&self) -> bool {
        self@.well_formed()
    }

    /// Makes a message without a topic and without parameters. It cannot be
    /// encoded until a topic is set.
    pub fn new() -> (r: Msg)
        ensures
            r@ == MsgView::empty(),
            r@.well_formed(),
    {
        let r = Msg { topic: None, params: Vec::new() };
        assert(r@.params =~= Seq::empty());
        r
    }

    /// Makes a message with a topic and without parameters, or says what is
    /// wrong with the topic.
    pub fn new_topic(topic: &str) -> (r: Result<Msg, Error>)
        ensures
            match topic_fault(topic@) {
                None => r is Ok && r->Ok_0@ == (MsgView {
                    topic: Some(topic@),
                    params: Seq::empty(),
                }),
                Some(f) => r is Err && r->Err_0@ == f.error(),
            },
            r matches Ok(m) ==> m@.well_formed(),
    {
        match validate_topic(topic) {
            Ok(()) => {
                let r = Msg { topic: Some(topic.to_string()), params: Vec::new() };
                assert(r@.params =~= Seq::empty());
                Ok(r)
            },
            Err(e) => Err(e),
        }
    }

    /// Sets the topic, in place of the one that was set before, if any. A
    /// string that is no topic is refused, and the message stays as it was.
    pub fn set_topic(&mut self, topic: &str) -> (r: Result<(), Error>)
        ensures
            final(self)@ == old(self)@.set_topic(topic@),
            final(self)@.well_formed(),
            match topic_fault(topic@) {
                None => r is Ok && final(self)@.topic == Some(topic@),
                Some(f) => r is Err && r->Err_0@ == f.error() && final(self)@ == old(self)@,
            },
    {
        proof {
            use_type_invariant(&*self);
        }
        match validate_topic(topic) {
            Ok(()) => {
                self.topic = Some(topic.to_string());
                Ok(())
            },
            Err(e) => Err(e),
        }
    }

    /// The topic, where one is set. It is a topic by the grammar.
    pub fn get_topic(&self) -> (r: Option<&str>)
        ensures
            match self@.topic {
                Some(t) => r is Some && r->0@ == t && valid_topic(t),
                None => r is None,
            },
            self@.well_formed(),
    {
        proof {
            use_type_invariant(self);
        }
        match &self.topic {
            Some(t) => Some(t.as_str()),
            None => None,
        }
    }

    /// Takes the topic and all parameters away.
    pub fn clear(&mut self)
        ensures
            final(self)@ == MsgView::empty(),
            final(self)@.well_formed(),
            final(self)@.topic is None,
            forall|key: Seq<char>| #[trigger] final(self)@.value_of(key) is None,
    {
        proof {
            use_type_invariant(&*self);
        }
        self.params = Vec::new();
        self.topic = None;
        assert(self@.params =~= Seq::empty());
    }

    /// The parameters, in the order in which their keys were first added.
    pub fn get_params(&self) -> (r: &Vec<(String, String)>)
        ensures
            pairs_view(r@) == self@.params,
            self@.well_formed(),
    {
        proof {
            use_type_invariant(self);
        }
        &self.params
    }

    /// The place of the parameter with this key, where there is one.
    fn find(&self, key: &str) -> (r: Option<usize>)
        ensures
            self@.well_formed(),
            match r {
                Some(i) => i < self.params.len() && self@.has_key(key@) && i == self@.position(
                    key@,
                ),
                None => !self@.has_key(key@),
            },
    {
        proof {
            use_type_invariant(self);
        }
        let mut i: usize = 0;
        while i < self.params.len()
            invariant
                i <= self.params.len(),
                self@.well_formed(),
                forall|j: int| 0 <= j < i ==> (#[trigger] self@.params[j]).0 != key@,
            decreases self.params.len() - i,
        {
            if same_text(self.params[i].0.as_str(), key) {
                proof {
                    lemma_position(self@, key@, i as int);
                }
                return Some(i);
            }
            i = i + 1;
        }
        None
    }

    /// Adds a parameter. A key that the message holds already gets the new
    /// value; nothing is asked of what key and value hold.
    pub fn add_param<K: ParamText, V: ParamText>(&mut self, key: K, value: V)
        ensures
            final(self)@ == old(self)@.with_param(key.text(), value.text()),
            final(self)@.well_formed(),
            final(self)@.topic == old(self)@.topic,
            final(self)@.value_of(key.text()) == Some(value.text()),
            forall|other: Seq<char>|
                other != key.text() ==> #[trigger] final(self)@.value_of(other) == old(
                    self,
                )@.value_of(other),
            final(self)@.param_map() == old(self)@.param_map().insert(key.text(), value.text()),
    {
        let k = key.to_text();
        let v = value.to_text();
        proof {
            use_type_invariant(&*self);
            lemma_with_param(self@, k@, v@);
        }
        let ghost before = self@;
        let found = self.find(k.as_str());
        let mut params = Vec::new();
        core::mem::swap(&mut self.params, &mut params);
        match found {
            Some(i) => {
                params[i] = (k, v);
            },
            None => {
                params.push((k, v));
            },
        }
        assert(pairs_view(params@) == before.with_param(k@, v@).params);
        self.params = params;
    }

    /// Adds a parameter, as [`Msg::add_param`] does.
    pub fn add_str<K: ParamText, V: ParamText>(&mut self, key: K, value: V)
        ensures
            final(self)@ == old(self)@.with_param(key.text(), value.text()),
            final(self)@.well_formed(),
            final(self)@.topic == old(self)@.topic,
            final(self)@.value_of(key.text()) == Some(value.text()),
            forall|other: Seq<char>|
                other != key.text() ==> #[trigger] final(self)@.value_of(other) == old(
                    self,
                )@.value_of(other),
            final(self)@.param_map() == old(self)@.param_map().insert(key.text(), value.text()),
    {
        self.add_param(key, value)
    }

    /// The value of the parameter with this key, where there is one.
    pub fn get_param(&self, key: &str) -> (r: Option<&str>)
        ensures
            match self@.value_of(key@) {
                Some(v) => r is Some && r->0@ == v,
                None => r is None,
            },
    {
        match self.find(key) {
            Some(i) => Some(self.params[i].1.as_str()),
            None => None,
        }
    }

    /// The value of the parameter with this key, as [`Msg::get_param`] gives
    /// it.
    pub fn get_str(&self, key: &str) -> (r: Option<&str>)
        ensures
            match self@.value_of(key@) {
                Some(v) => r is Some && r->0@ == v,
                None => r is None,
            },
    {
        self.get_param(key)
    }

    /// The value of the parameter with this key, read as a whole number in
    /// decimal. A key that is not there is reported as not found, a value
    /// that is no number of the type asked for as badly formed.
    pub fn get_int<T: ParamInt>(&self, key: &str) -> (r: Result<T, Error>)
        ensures
            match self@.value_of(key@) {
                None => r is Err && r->Err_0@ == ErrorView::KeyNotFound(key@),
                Some(v) => match T::parsed(v) {
                    Some(n) => r is Ok && r->Ok_0 == n,
                    None => r is Err && r->Err_0@ == ErrorView::BadFormat(unparsable(key@)),
                },
            },
    {
        match self.get_str(key) {
            Some(val) => match T::parse(val) {
                Some(n) => Ok(n),
                None => {
                    let mut detail = "Unable to parse numeric value from parameter '".to_string();
                    detail.append(key);
                    detail.append("'");
                    Err(Error::BadFormat(detail))
                },
            },
            None => Err(Error::KeyNotFound(key.to_string())),
        }
    }

    /// Encodes the message: the topic on a line, each parameter on a line
    /// with a space between key and value, and an empty line. A message
    /// without a topic is refused.
    pub fn serialize(&self) -> (r: Result<Vec<u8>, Error>)
        ensures
            match self@.topic {
                Some(t) => r is Ok && r->Ok_0@ == wire_bytes(t, self@.params),
                None => r is Err && r->Err_0@ == ErrorView::BadFormat("Missing heading"@),
            },
    {
        match &self.topic {
            Some(t) => Ok(encode(t.as_str(), &self.params)),
            None => Err(Error::BadFormat("Missing heading".to_string())),
        }
    }

    /// Appends the encoding of the message to a buffer, after making room
    /// for all of it at once. A message without a topic is refused, and so is
    /// one that would take the buffer beyond `isize::MAX` bytes; the buffer
    /// then holds what it held.
    pub fn encoder_write(&self, buf: &mut BytesMut) -> (r: Result<(), Error>)
        ensures
            match self@.topic {
                None => r is Err && r->Err_0@ == ErrorView::SerializeError("Missing Msg topic"@),
                Some(t) => if buffer_bytes(*old(buf)).len() + wire_len(t, self@.params)
                    <= isize::MAX {
                    r is Ok
                } else {
                    r is Err && r->Err_0@ == ErrorView::SerializeError("Msg too large"@)
                },
            },
            r is Ok ==> buffer_bytes(*final(buf)) == buffer_bytes(*old(buf)) + wire_bytes(
                self@.topic->0,
                self@.params,
            ),
            r is Err ==> buffer_bytes(*final(buf)) == buffer_bytes(*old(buf)),
    {
        let topic = match &self.topic {
            Some(t) => t.as_str(),
            None => {
                return Err(Error::SerializeError("Missing Msg topic".to_string()));
            },
        };
        let held = buf.len();
        let limit = isize::MAX as usize;
        let size = match wire_size(topic, &self.params) {
            Some(n) => n,
            None => {
                return Err(Error::SerializeError("Msg too large".to_string()));
            },
        };
        if held > limit || size > limit - held {
            return Err(Error::SerializeError("Msg too large".to_string()));
        }
        buf.reserve(size);
        encode_into(topic, &self.params, buf);
        Ok(())
    }

    /// Describes the message for a reader, as `topic:{key=value,key=value}`.
    /// This is not the encoding.
    pub fn to_text(&self) -> (r: String)
        ensures
            r@ == self@.display(),
    {
        let mut s = match &self.topic {
            Some(t) => t.clone(),
            None => "<None>".to_string(),
        };
        s.append(":{");
        let ghost head = s@;
        let mut i: usize = 0;
        while i < self.params.len()
            invariant
                i <= self.params.len(),
                s@ == head + listing(self@.params.take(i as int)),
            decreases self.params.len() - i,
        {
            assert(self@.params.take(i + 1).drop_last() =~= self@.params.take(i as int));
            if i > 0 {
                s.append(",");
            }
            s.append(self.params[i].0.as_str());
            s.append("=");
            s.append(self.params[i].1.as_str());
            i = i + 1;
        }
        s.append("}");
        assert(self@.params.take(i as int) =~= self@.params);
        s
    }
}

impl Clone for Msg {
    /// Makes a message with the same topic and the same parameters.
    fn clone(&self) -> (r: Msg)
        ensures
            r@ == self@,
    {
        proof {
            use_type_invariant(self);
        }
        let topic = match &self.topic {
            Some(t) => Some(t.clone()),
            None => None,
        };
        let mut params: Vec<(String, String)> = Vec::new();
        let mut i: usize = 0;
        while i < self.params.len()
            invariant
                i <= self.params.len(),
                pairs_view(params@) == pairs_view(self.params@).take(i as int),
            decreases self.params.len() - i,
        {
            let ghost before = pairs_view(params@);
            let key = self.params[i].0.clone();
            let value = self.params[i].1.clone();
            params.push((key, value));
            i = i + 1;
            assert(pairs_view(params@) =~= before.push((key@, value@)));
        }
        assert(pairs_view(self.params@).take(i as int) =~= pairs_view(self.params@));
        Msg { topic, params }
    }
}

} // verus!
