//! The message: what the session keeps of a PUBLISH while it is in
//! flight.
use std::sync::Arc;
use vstd::prelude::*;
use vstd::slice::slice_to_vec;

use vstd::utf8::encode_utf8;
use super::error::Result;
use super::mqtt::{Publish, PublishView};
use super::topic::{parse_path, topic_name, topic_name_of, TopicPath, TopicPathView};
use super::{LastWill, PacketIdentifier, QoS};

verus! {

/// An application message with the topic it goes to.
#[derive(Debug)]
pub struct Message {
    pub topic: TopicPath,
    pub qos: QoS,
    pub retain: bool,
    /// Only with a tier above 0.
    pub pid: Option<PacketIdentifier>,
    pub payload: Arc<Vec<u8>>,
}

pub ghost struct MessageView {
    pub topic: TopicPathView,
    pub qos: QoS,
    pub retain: bool,
    pub pid: Option<PacketIdentifier>,
    pub payload: Seq<u8>,
}

impl View for Message {
    type V = MessageView;

    open spec fn view(&self) -> MessageView {
        MessageView {
            topic: self.topic@,
            qos: self.qos,
            retain: self.retain,
            pid: self.pid,
            payload: self.payload@,
        }
    }
}

impl Clone for Message {
    fn clone(&self) -> (copy: Message)
        ensures
            copy@ == self@,
    {
        Message {
            topic: self.topic.clone(),
            qos: self.qos,
            retain: self.retain,
            pid: self.pid,
            payload: self.payload.clone(),
        }
    }
}

impl MessageView {
    /// The message has a packet identifier exactly with a tier above
    /// 0, and its topic is a topic name.
    pub open spec fn wf(self) -> bool {
        &&& self.pid is Some <==> self.qos != QoS::AtMostOnce
        &&& self.topic.wf()
        &&& !self.topic.wildcards
    }

    /// The message of a PUBLISH, if its topic is a topic name.
    pub open spec fn from_pub(publish: PublishView) -> Result<MessageView> {
        match topic_name_of(parse_path(publish.topic_name)) {
            Ok(topic) => Ok(
                MessageView {
                    topic: topic,
                    qos: publish.qos,
                    retain: publish.retain,
                    pid: publish.pid,
                    payload: publish.payload,
                },
            ),
            Err(e) => Err(e),
        }
    }

    /// The PUBLISH that carries the message, at the tier `qos` if there
    /// is one, else at the message's own.
    pub open spec fn to_pub(self, qos: Option<QoS>, dup: bool) -> PublishView {
        PublishView {
            dup: dup,
            qos: match qos {
                Some(qos) => qos,
                None => self.qos,
            },
            retain: self.retain,
            topic_name: self.topic.path,
            pid: self.pid,
            payload: self.payload,
        }
    }

    /// The message with `pid` and `qos` in place of its own, where
    /// they are given.
    pub open spec fn transform(
        self,
        pid: Option<PacketIdentifier>,
        qos: Option<QoS>,
    ) -> MessageView {
        MessageView {
            topic: self.topic,
            qos: match qos {
                Some(qos) => qos,
                None => self.qos,
            },
            retain: self.retain,
            pid: match pid {
                Some(pid) => Some(pid),
                None => self.pid,
            },
            payload: self.payload,
        }
    }
}

impl Message {
    /// The message of a PUBLISH. Its topic must be a topic name: a
    /// valid topic path without a wildcard.
    pub fn from_pub(publish: Publish) -> (r: Result<Message>)
        ensures
            match MessageView::from_pub(publish@) {
                Ok(m) => r matches Ok(message) && message@ == m,
                Err(e) => r matches Err(err) && err == e,
            },
    {
        let topic = match topic_name(TopicPath::from_str(publish.topic_name.as_str())) {
            Ok(topic) => topic,
            Err(e) => {
                return Err(e);
            },
        };
        Ok(
            Message {
                topic: topic,
                qos: publish.qos,
                retain: publish.retain,
                pid: publish.pid,
                payload: publish.payload,
            },
        )
    }

    /// The message that a will asks for. The topic of the will must be
    /// a valid topic path.
    pub fn from_last_will(last_will: LastWill) -> (message: Message)
        requires
            parse_path(last_will.topic@) is Ok,
        ensures
            message@ == (MessageView {
                topic: parse_path(last_will.topic@)->Ok_0,
                qos: last_will.qos,
                retain: last_will.retain,
                pid: None,
                payload: encode_utf8(last_will.message@),
            }),
    {
        let payload = slice_to_vec(last_will.message.as_str().as_bytes());
        match TopicPath::from_str(last_will.topic.as_str()) {
            Ok(topic) => Message {
                topic: topic,
                qos: last_will.qos,
                retain: last_will.retain,
                pid: None,
                payload: Arc::new(payload),
            },
            Err(_) => vstd::pervasive::unreached(),
        }
    }

    /// The PUBLISH that carries the message, at the tier `qos` if there
    /// is one, else at the message's own.
    pub fn to_pub(&self, qos: Option<QoS>, dup: bool) -> (publish: Publish)
        ensures
            publish@ == self@.to_pub(qos, dup),
    {
        let qos = match qos {
            Some(qos) => qos,
            None => self.qos,
        };
        Publish {
            dup: dup,
            qos: qos,
            retain: self.retain,
            topic_name: self.topic.path.clone(),
            pid: self.pid,
            payload: self.payload.clone(),
        }
    }

    /// A copy of the message with `pid` and `qos` in place of its own,
    /// where they are given.
    pub fn transform(&self, pid: Option<PacketIdentifier>, qos: Option<QoS>) -> (message: Message)
        ensures
            message@ == self@.transform(pid, qos),
    {
        let pid = match pid {
            Some(pid) => Some(pid),
            None => self.pid,
        };
        let qos = match qos {
            Some(qos) => qos,
            None => self.qos,
        };
        Message {
            topic: self.topic.clone(),
            qos: qos,
            retain: self.retain,
            pid: pid,
            payload: self.payload.clone(),
        }
    }
}

} // verus!
