//! Subscriptions, and what can be read as a list of topic filters.
use vstd::prelude::*;
use crate::mqtt3::mqtt::{
    clone_strings, clone_topics, strings_view, topics_view, SubscribeTopic, SubscribeTopicView,
};
use crate::mqtt3::topic::{TopicPath, TopicPathView};
use crate::mqtt3::{PacketIdentifier, QoS};
use super::error::Result;

verus! {

/// The tier that a subscription asks for where none is named.
pub const MAX_QOS: QoS = QoS::AtLeastOnce;

/// A topic filter that the server granted.
#[derive(Debug)]
pub struct Subscription {
    pub pid: PacketIdentifier,
    pub topic_path: TopicPath,
    pub qos: QoS,
}

pub ghost struct SubscriptionView {
    pub pid: PacketIdentifier,
    pub topic_path: TopicPathView,
    pub qos: QoS,
}

impl View for Subscription {
    type V = SubscriptionView;

    open spec fn view(&self) -> SubscriptionView {
        SubscriptionView { pid: self.pid, topic_path: self.topic_path@, qos: self.qos }
    }
}

impl Clone for Subscription {
    fn clone(&self) -> (copy: Subscription)
        ensures
            copy@ == self@,
    {
        Subscription { pid: self.pid, topic_path: self.topic_path.clone(), qos: self.qos }
    }
}

impl SubscriptionView {
    /// The filter and the granted tier, as a SUBSCRIBE asks for them.
    pub open spec fn to_subscribe_topic(self) -> SubscribeTopicView {
        SubscribeTopicView { topic_path: self.topic_path.path, qos: self.qos }
    }
}

impl Subscription {
    /// The filter and the granted tier, as a SUBSCRIBE asks for them.
    pub fn to_subscribe_topic(&self) -> (topic: SubscribeTopic)
        ensures
            topic@ == self@.to_subscribe_topic(),
    {
        SubscribeTopic { topic_path: self.topic_path.path(), qos: self.qos }
    }
}

/// Something that can be read as the topic filters of a SUBSCRIBE.
pub trait ToSubTopics {
    /// The topic filters that the value stands for.
    spec fn sub_topics(&self) -> Seq<SubscribeTopicView>;

    fn to_subscribe_topics(&self) -> (r: Result<Vec<SubscribeTopic>>)
        ensures
            r matches Ok(topics) && topics_view(topics@) == self.sub_topics(),
    ;
}

impl ToSubTopics for SubscribeTopic {
    open spec fn sub_topics(&self) -> Seq<SubscribeTopicView> {
        seq![self@]
    }

    fn to_subscribe_topics(&self) -> (r: Result<Vec<SubscribeTopic>>) {
        let mut topics: Vec<SubscribeTopic> = Vec::new();
        topics.push(self.clone());
        assert(topics_view(topics@) =~= seq![self@]);
        Ok(topics)
    }
}

impl ToSubTopics for Vec<SubscribeTopic> {
    open spec fn sub_topics(&self) -> Seq<SubscribeTopicView> {
        topics_view(self@)
    }

    fn to_subscribe_topics(&self) -> (r: Result<Vec<SubscribeTopic>>) {
        Ok(clone_topics(self))
    }
}

impl<'a> ToSubTopics for &'a str {
    open spec fn sub_topics(&self) -> Seq<SubscribeTopicView> {
        seq![SubscribeTopicView { topic_path: self@, qos: MAX_QOS }]
    }

    fn to_subscribe_topics(&self) -> (r: Result<Vec<SubscribeTopic>>) {
        let mut topics: Vec<SubscribeTopic> = Vec::new();
        topics.push(SubscribeTopic { topic_path: (*self).to_owned(), qos: MAX_QOS });
        assert(topics_view(topics@) =~= self.sub_topics());
        Ok(topics)
    }
}

impl ToSubTopics for (String, QoS) {
    open spec fn sub_topics(&self) -> Seq<SubscribeTopicView> {
        seq![SubscribeTopicView { topic_path: self.0@, qos: self.1 }]
    }

    fn to_subscribe_topics(&self) -> (r: Result<Vec<SubscribeTopic>>) {
        let mut topics: Vec<SubscribeTopic> = Vec::new();
        topics.push(SubscribeTopic { topic_path: self.0.clone(), qos: self.1 });
        assert(topics_view(topics@) =~= self.sub_topics());
        Ok(topics)
    }
}

impl<'a> ToSubTopics for (&'a str, QoS) {
    open spec fn sub_topics(&self) -> Seq<SubscribeTopicView> {
        seq![SubscribeTopicView { topic_path: self.0@, qos: self.1 }]
    }

    fn to_subscribe_topics(&self) -> (r: Result<Vec<SubscribeTopic>>) {
        let mut topics: Vec<SubscribeTopic> = Vec::new();
        topics.push(SubscribeTopic { topic_path: self.0.to_owned(), qos: self.1 });
        assert(topics_view(topics@) =~= self.sub_topics());
        Ok(topics)
    }
}

/// Something that can be read as the topic filters of an UNSUBSCRIBE.
pub trait ToUnSubTopics {
    /// The topic filters that the value stands for.
    spec fn unsub_topics(&self) -> Seq<Seq<char>>;

    fn to_unsubscribe_topics(&self) -> (r: Result<Vec<String>>)
        ensures
            r matches Ok(topics) && strings_view(topics@) == self.unsub_topics(),
    ;
}

impl ToUnSubTopics for Vec<String> {
    open spec fn unsub_topics(&self) -> Seq<Seq<char>> {
        strings_view(self@)
    }

    fn to_unsubscribe_topics(&self) -> (r: Result<Vec<String>>) {
        Ok(clone_strings(self))
    }
}

impl<'a> ToUnSubTopics for &'a str {
    open spec fn unsub_topics(&self) -> Seq<Seq<char>> {
        seq![self@]
    }

    fn to_unsubscribe_topics(&self) -> (r: Result<Vec<String>>) {
        let mut topics: Vec<String> = Vec::new();
        topics.push((*self).to_owned());
        assert(strings_view(topics@) =~= seq![self@]);
        Ok(topics)
    }
}

} // verus!
