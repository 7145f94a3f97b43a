//! Topic paths: a string, split at `/` into segments.
use vstd::prelude::*;
use super::error::{Error, Result};

verus! {

/// The delimiter between the segments of a topic path.
pub const TOPIC_PATH_DELIMITER: char = '/';

/// One segment of a topic path.
#[derive(Debug, PartialEq)]
pub enum Topic {
    Normal(String),
    /// A segment that starts with `$`.
    System(String),
    /// An empty segment.
    Blank,
    /// `+`
    SingleWildcard,
    /// `#`
    MultiWildcard,
}

pub ghost enum TopicView {
    Normal(Seq<char>),
    System(Seq<char>),
    Blank,
    SingleWildcard,
    MultiWildcard,
}

impl View for Topic {
    type V = TopicView;

    open spec fn view(&self) -> TopicView {
        match self {
            Topic::Normal(s) => TopicView::Normal(s@),
            Topic::System(s) => TopicView::System(s@),
            Topic::Blank => TopicView::Blank,
            Topic::SingleWildcard => TopicView::SingleWildcard,
            Topic::MultiWildcard => TopicView::MultiWildcard,
        }
    }
}

impl Clone for Topic {
    fn clone(&self) -> (copy: Topic)
        ensures
            copy@ == self@,
    {
        match self {
            Topic::Normal(s) => Topic::Normal(s.clone()),
            Topic::System(s) => Topic::System(s.clone()),
            Topic::Blank => Topic::Blank,
            Topic::SingleWildcard => Topic::SingleWildcard,
            Topic::MultiWildcard => Topic::MultiWildcard,
        }
    }
}

impl TopicView {
    pub open spec fn is_wildcard(self) -> bool {
        self is SingleWildcard || self is MultiWildcard
    }

    /// Whether a segment fits another: a normal one fits the same
    /// normal one and the wildcards; a system one fits only the same
    /// system one; a blank one fits a blank one and the wildcards; a
    /// wildcard fits all but a system one.
    pub open spec fn fit(self, other: TopicView) -> bool {
        match self {
            TopicView::Normal(s) => match other {
                TopicView::Normal(o) => s == o,
                TopicView::SingleWildcard | TopicView::MultiWildcard => true,
                _ => false,
            },
            TopicView::System(s) => match other {
                TopicView::System(o) => s == o,
                _ => false,
            },
            TopicView::Blank => other is Blank || other.is_wildcard(),
            TopicView::SingleWildcard => !(other is System),
            TopicView::MultiWildcard => !(other is System),
        }
    }

    /// The segment as it is written.
    pub open spec fn text(self) -> Seq<char> {
        match self {
            TopicView::Normal(s) => s,
            TopicView::System(s) => s,
            TopicView::Blank => Seq::empty(),
            TopicView::SingleWildcard => seq!['+'],
            TopicView::MultiWildcard => seq!['#'],
        }
    }
}

/// A segment may hold `+` or `#` only if it is nothing else.
pub open spec fn segment_valid(segment: Seq<char>) -> bool {
    ||| segment == seq!['+']
    ||| segment == seq!['#']
    ||| (!segment.contains('+') && !segment.contains('#'))
}

/// What a segment is: a wildcard, blank, a system segment if it starts
/// with `$`, else a normal one.
pub open spec fn classify(segment: Seq<char>) -> TopicView {
    if segment == seq!['+'] {
        TopicView::SingleWildcard
    } else if segment == seq!['#'] {
        TopicView::MultiWildcard
    } else if segment.len() == 0 {
        TopicView::Blank
    } else if segment[0] == '$' {
        TopicView::System(segment)
    } else {
        TopicView::Normal(segment)
    }
}

/// The segments of a path: a `/` starts a new one, any other character
/// goes to the last one. The empty path has one empty segment.
pub open spec fn segments(path: Seq<char>) -> Seq<Seq<char>>
    decreases path.len(),
{
    if path.len() == 0 {
        seq![Seq::<char>::empty()]
    } else {
        let before = segments(path.drop_last());
        if path.last() == '/' {
            before.push(Seq::<char>::empty())
        } else {
            before.drop_last().push(before.last().push(path.last()))
        }
    }
}

/// Every segment is valid, and `#` is no segment but the last.
pub open spec fn segments_valid(segs: Seq<Seq<char>>) -> bool {
    &&& forall|i: int| 0 <= i < segs.len() ==> segment_valid(#[trigger] segs[i])
    &&& forall|i: int| 0 <= i < segs.len() - 1 ==> #[trigger] segs[i] != seq!['#']
}

/// A segment that is `+` or `#`.
pub open spec fn is_wildcard_segment(segment: Seq<char>) -> bool {
    segment == seq!['+'] || segment == seq!['#']
}

pub open spec fn has_wildcard(segs: Seq<Seq<char>>) -> bool {
    exists|i: int| 0 <= i < segs.len() && is_wildcard_segment(#[trigger] segs[i])
}

/// A topic path: the string, whether a segment of it is a wildcard,
/// and its segments.
#[derive(Debug)]
pub struct TopicPath {
    pub path: String,
    /// False for a topic name.
    pub wildcards: bool,
    pub topics: Vec<Topic>,
}

pub ghost struct TopicPathView {
    pub path: Seq<char>,
    pub wildcards: bool,
    pub topics: Seq<TopicView>,
}

/// The views of a sequence of segments.
pub open spec fn topic_views(topics: Seq<Topic>) -> Seq<TopicView> {
    Seq::new(topics.len(), |i: int| topics[i]@)
}

impl View for TopicPath {
    type V = TopicPathView;

    open spec fn view(&self) -> TopicPathView {
        TopicPathView {
            path: self.path@,
            wildcards: self.wildcards,
            topics: topic_views(self.topics@),
        }
    }
}

/// The topic path that a string is, if its segments are valid.
pub open spec fn parse_path(path: Seq<char>) -> Result<TopicPathView> {
    let segs = segments(path);
    if segments_valid(segs) {
        Ok(
            TopicPathView {
                path: path,
                wildcards: has_wildcard(segs),
                topics: Seq::new(segs.len(), |i: int| classify(segs[i])),
            },
        )
    } else {
        Err(Error::InvalidTopicPath)
    }
}

/// The topic name that a topic path is, if it has no wildcard.
pub open spec fn topic_name_of(parsed: Result<TopicPathView>) -> Result<TopicPathView> {
    match parsed {
        Ok(p) => if p.wildcards {
            Err(Error::TopicNameMustNotContainWildcard)
        } else {
            Ok(p)
        },
        Err(e) => Err(e),
    }
}

impl TopicPathView {
    /// The path was parsed from its string.
    pub open spec fn wf(self) -> bool {
        parse_path(self.path) == Ok::<TopicPathView, Error>(self)
    }
}

/// The characters of a string, in order.
pub fn chars_of(s: &str) -> (chars: Vec<char>)
    ensures
        chars@ == s@,
{
    let mut chars: Vec<char> = Vec::new();
    for c in it: s.chars()
        invariant
            it.seq() == s@,
            chars@ == s@.take(it.index() as int),
    {
        assert(s@.take(it.index() + 1) =~= s@.take(it.index() as int).push(c));
        chars.push(c);
    }
    assert(s@.take(s@.len() as int) =~= s@);
    chars
}

/// The string of these characters.
///
/// Calls `String::from_iter` on the characters, which makes the string
/// that holds them in order.
#[verifier::external_body]
pub(crate) fn string_of(chars: &Vec<char>) -> (s: String)
    ensures
        s@ == chars@,
{
    String::from_iter(chars)
}

/// Whether the characters are a valid segment.
fn validate_chars(segment: &Vec<char>) -> (valid: bool)
    ensures
        valid == segment_valid(segment@),
{
    if segment.len() == 1 && (segment[0] == '+' || segment[0] == '#') {
        assert(segment@ =~= seq![segment@[0]]);
        return true;
    }
    let mut i: usize = 0;
    while i < segment.len()
        invariant
            i <= segment@.len(),
            !(segment@.len() == 1 && (segment@[0] == '+' || segment@[0] == '#')),
            forall|j: int| 0 <= j < i ==> segment@[j] != '+' && segment@[j] != '#',
        decreases segment@.len() - i,
    {
        if segment[i] == '+' || segment[i] == '#' {
            assert(segment@.contains(segment@[i as int]));
            assert(segment@ != seq!['+'] && segment@ != seq!['#']) by {
                assert(seq!['+'].len() == 1);
                assert(seq!['#'].len() == 1);
            }
            return false;
        }
        i += 1;
    }
    true
}

/// The segment that the characters are.
fn classify_chars(segment: &Vec<char>) -> (topic: Topic)
    ensures
        topic@ == classify(segment@),
{
    if segment.len() == 0 {
        assert(segment@ != seq!['+'] && segment@ != seq!['#']) by {
            assert(seq!['+'].len() == 1);
            assert(seq!['#'].len() == 1);
        }
        return Topic::Blank;
    }
    if segment.len() == 1 && segment[0] == '+' {
        assert(segment@ =~= seq!['+']);
        return Topic::SingleWildcard;
    }
    if segment.len() == 1 && segment[0] == '#' {
        assert(segment@ =~= seq!['#']);
        assert(seq!['#'][0] != seq!['+'][0]);
        return Topic::MultiWildcard;
    }
    assert(segment@ != seq!['+'] && segment@ != seq!['#']) by {
        if segment@.len() == 1 {
            assert(seq!['+'][0] == '+');
            assert(seq!['#'][0] == '#');
        } else {
            assert(seq!['+'].len() == 1);
            assert(seq!['#'].len() == 1);
        }
    }
    if segment[0] == '$' {
        Topic::System(string_of(segment))
    } else {
        Topic::Normal(string_of(segment))
    }
}

/// Whether the characters are the segment `#`.
fn is_multi_chars(segment: &Vec<char>) -> (multi: bool)
    ensures
        multi == (segment@ == seq!['#']),
{
    if segment.len() == 1 && segment[0] == '#' {
        assert(segment@ =~= seq!['#']);
        true
    } else {
        assert(segment@ != seq!['#']) by {
            if segment@.len() == 1 {
                assert(seq!['#'][0] == '#');
            } else {
                assert(seq!['#'].len() == 1);
            }
        }
        false
    }
}

/// Whether the characters are the segment `+` or `#`.
fn is_wildcard_chars(segment: &Vec<char>) -> (wild: bool)
    ensures
        wild == is_wildcard_segment(segment@),
{
    if segment.len() == 1 && (segment[0] == '+' || segment[0] == '#') {
        assert(segment@ =~= seq![segment@[0]]);
        true
    } else {
        assert(segment@ != seq!['+'] && segment@ != seq!['#']) by {
            if segment@.len() == 1 {
                assert(seq!['+'][0] == '+');
                assert(seq!['#'][0] == '#');
            } else {
                assert(seq!['+'].len() == 1);
                assert(seq!['#'].len() == 1);
            }
        }
        false
    }
}

impl Topic {
    /// Whether a string is a valid segment.
    pub fn validate(topic: &str) -> (valid: bool)
        ensures
            valid == segment_valid(topic@),
    {
        let chars = chars_of(topic);
        validate_chars(&chars)
    }

    /// Whether this segment fits the other.
    pub fn fit(&self, other: &Topic) -> (fits: bool)
        ensures
            fits == self@.fit(other@),
    {
        match self {
            Topic::Normal(s) => match other {
                Topic::Normal(o) => *s == *o,
                Topic::SingleWildcard | Topic::MultiWildcard => true,
                _ => false,
            },
            Topic::System(s) => match other {
                Topic::System(o) => *s == *o,
                _ => false,
            },
            Topic::Blank => match other {
                Topic::Blank | Topic::SingleWildcard | Topic::MultiWildcard => true,
                _ => false,
            },
            Topic::SingleWildcard => match other {
                Topic::System(_) => false,
                _ => true,
            },
            Topic::MultiWildcard => match other {
                Topic::System(_) => false,
                _ => true,
            },
        }
    }

    /// The segment as it is written.
    pub fn into_string(self) -> (text: String)
        ensures
            text@ == self@.text(),
    {
        match self {
            Topic::Normal(s) => s,
            Topic::System(s) => s,
            Topic::Blank => {
                let text = String::new();
                text
            },
            Topic::SingleWildcard => {
                proof {
                    reveal_strlit("+");
                }
                let text = "+".to_owned();
                assert(text@ =~= seq!['+']);
                text
            },
            Topic::MultiWildcard => {
                proof {
                    reveal_strlit("#");
                }
                let text = "#".to_owned();
                assert(text@ =~= seq!['#']);
                text
            },
        }
    }
}

/// Every segment is valid and none is `#`: what holds of the segments
/// before the last of a valid path.
pub open spec fn inner_valid(segs: Seq<Seq<char>>) -> bool {
    forall|i: int|
        0 <= i < segs.len() ==> segment_valid(#[trigger] segs[i]) && segs[i] != seq!['#']
}

proof fn lemma_inner_valid_push(segs: Seq<Seq<char>>, last: Seq<char>)
    ensures
        inner_valid(segs.push(last)) == (inner_valid(segs) && segment_valid(last) && last
            != seq!['#']),
        segments_valid(segs.push(last)) == (inner_valid(segs) && segment_valid(last)),
{
    let all = segs.push(last);
    assert(all[segs.len() as int] == last);
    if inner_valid(segs) && segment_valid(last) {
        assert forall|i: int| 0 <= i < all.len() implies segment_valid(#[trigger] all[i]) by {
            if i < segs.len() {
                assert(all[i] == segs[i]);
            }
        }
        assert forall|i: int| 0 <= i < all.len() - 1 implies #[trigger] all[i] != seq!['#'] by {
            assert(all[i] == segs[i]);
        }
        if last != seq!['#'] {
            assert forall|i: int| 0 <= i < all.len() implies segment_valid(#[trigger] all[i])
                && all[i] != seq!['#'] by {
                if i < segs.len() {
                    assert(all[i] == segs[i]);
                }
            }
        }
    }
    if segments_valid(all) {
        assert forall|i: int| 0 <= i < segs.len() implies segment_valid(#[trigger] segs[i])
            && segs[i] != seq!['#'] by {
            assert(all[i] == segs[i]);
        }
    }
    if inner_valid(all) {
        assert forall|i: int| 0 <= i < segs.len() implies segment_valid(#[trigger] segs[i])
            && segs[i] != seq!['#'] by {
            assert(all[i] == segs[i]);
        }
    }
}

proof fn lemma_has_wildcard_push(segs: Seq<Seq<char>>, last: Seq<char>)
    ensures
        has_wildcard(segs.push(last)) == (has_wildcard(segs) || is_wildcard_segment(last)),
{
    let all = segs.push(last);
    assert(all[segs.len() as int] == last);
    if has_wildcard(segs) {
        let i = choose|i: int| 0 <= i < segs.len() && is_wildcard_segment(#[trigger] segs[i]);
        assert(all[i] == segs[i]);
    }
    if has_wildcard(all) {
        let i = choose|i: int| 0 <= i < all.len() && is_wildcard_segment(#[trigger] all[i]);
        if i < segs.len() {
            assert(all[i] == segs[i]);
        }
    }
}

impl TopicPath {
    /// The topic path that a string is. A string with a segment that
    /// holds `+` or `#` beside other characters, or with `#` before its
    /// last segment, is none.
    pub fn from_str(path: &str) -> (r: Result<TopicPath>)
        ensures
            match parse_path(path@) {
                Ok(p) => r matches Ok(topic_path) && topic_path@ == p,
                Err(e) => r matches Err(err) && err == e,
            },
    {
        let mut topics: Vec<Topic> = Vec::new();
        let mut current: Vec<char> = Vec::new();
        let mut valid = true;
        let mut wildcards = false;
        let ghost mut done: Seq<Seq<char>> = Seq::empty();
        assert(path@.take(0) =~= Seq::<char>::empty());
        assert(done.push(current@) =~= seq![Seq::<char>::empty()]);
        for c in it: path.chars()
            invariant
                it.seq() == path@,
                segments(path@.take(it.index() as int)) == done.push(current@),
                topics@.len() == done.len(),
                forall|j: int| 0 <= j < done.len() ==> (#[trigger] topics@[j])@ == classify(done[j]),
                valid == inner_valid(done),
                wildcards == has_wildcard(done),
        {
            let ghost prefix = path@.take(it.index() as int);
            let ghost next = path@.take(it.index() + 1);
            assert(next.drop_last() =~= prefix);
            assert(next.last() == c);
            if c == TOPIC_PATH_DELIMITER {
                let segment_ok = validate_chars(&current);
                let multi = is_multi_chars(&current);
                let wild = is_wildcard_chars(&current);
                proof {
                    lemma_inner_valid_push(done, current@);
                    lemma_has_wildcard_push(done, current@);
                }
                topics.push(classify_chars(&current));
                valid = valid && segment_ok && !multi;
                wildcards = wildcards || wild;
                proof {
                    done = done.push(current@);
                }
                current = Vec::new();
            } else {
                let ghost before = done.push(current@);
                current.push(c);
                assert(before.drop_last().push(before.last().push(c)) =~= done.push(current@));
            }
        }
        assert(path@.take(path@.len() as int) =~= path@);
        let segment_ok = validate_chars(&current);
        let wild = is_wildcard_chars(&current);
        proof {
            lemma_inner_valid_push(done, current@);
            lemma_has_wildcard_push(done, current@);
        }
        if !(valid && segment_ok) {
            return Err(Error::InvalidTopicPath);
        }
        topics.push(classify_chars(&current));
        let topic_path = TopicPath {
            path: path.to_owned(),
            wildcards: wildcards || wild,
            topics: topics,
        };
        proof {
            let segs = segments(path@);
            assert(topic_path@.topics =~= Seq::new(segs.len(), |i: int| classify(segs[i])));
        }
        Ok(topic_path)
    }

    /// The path as a string.
    pub fn path(&self) -> (path: String)
        ensures
            path@ == self.path@,
    {
        self.path.clone()
    }

    /// The segment at `index`, if there is one.
    pub fn get(&self, index: usize) -> (topic: Option<&Topic>)
        ensures
            index < self.topics@.len() ==> topic == Some(&self.topics@[index as int]),
            index >= self.topics@.len() ==> topic is None,
    {
        if index < self.topics.len() {
            Some(&self.topics[index])
        } else {
            None
        }
    }

    /// The segment at `index`, to be changed, if there is one. The
    /// path and the wildcard flag stay as they are, whatever becomes
    /// of the segment.
    pub fn get_mut(&mut self, index: usize) -> (topic: Option<&mut Topic>)
        ensures
            index >= old(self).topics@.len() ==> topic is None && *final(self) == *old(self),
            index < old(self).topics@.len() ==> topic is Some && *topic->Some_0 == old(
                self,
            ).topics@[index as int] && final(self).topics@ == old(self).topics@.update(
                index as int,
                *final(topic->Some_0),
            ) && final(self).path == old(self).path && final(self).wildcards == old(
                self,
            ).wildcards,
    {
        if index < self.topics.len() {
            Some(&mut self.topics[index])
        } else {
            None
        }
    }

    /// The number of segments.
    pub fn len(&self) -> (len: usize)
        ensures
            len == self.topics@.len(),
    {
        self.topics.len()
    }

    /// The segments.
    pub fn topics(&self) -> (topics: &[Topic])
        ensures
            topics@ == self.topics@,
    {
        self.topics.as_slice()
    }

    /// The segments, given away.
    pub fn into_topics(self) -> (topics: Vec<Topic>)
        ensures
            topics@ == self.topics@,
    {
        self.topics
    }

    /// Whether `index` is that of the last segment; with no segment,
    /// every index is.
    pub fn is_final(&self, index: usize) -> (last: bool)
        ensures
            last == (self.topics@.len() == 0 || self.topics@.len() - 1 == index),
    {
        let len = self.topics.len();
        len == 0 || len - 1 == index
    }

    /// Whether the segment at `index` is `#`.
    pub fn is_multi(&self, index: usize) -> (multi: bool)
        ensures
            multi == (index < self.topics@.len() && self.topics@[index as int]@
                is MultiWildcard),
    {
        if index < self.topics.len() {
            match &self.topics[index] {
                Topic::MultiWildcard => true,
                _ => false,
            }
        } else {
            false
        }
    }
}

impl Clone for TopicPath {
    fn clone(&self) -> (copy: TopicPath)
        ensures
            copy@ == self@,
    {
        let mut topics: Vec<Topic> = Vec::new();
        let mut i: usize = 0;
        while i < self.topics.len()
            invariant
                i <= self.topics@.len(),
                topics@.len() == i,
                forall|j: int| 0 <= j < i ==> (#[trigger] topics@[j])@ == self.topics@[j]@,
            decreases self.topics@.len() - i,
        {
            topics.push(self.topics[i].clone());
            i += 1;
        }
        assert(topic_views(topics@) =~= topic_views(self.topics@));
        TopicPath { path: self.path.clone(), wildcards: self.wildcards, topics: topics }
    }
}

/// Something that can be read as a topic path.
pub trait ToTopicPath {
    /// The topic path that the value is, or why it is none.
    spec fn parsed(&self) -> Result<TopicPathView>;

    fn to_topic_path(&self) -> (r: Result<TopicPath>)
        ensures
            match self.parsed() {
                Ok(p) => r matches Ok(topic_path) && topic_path@ == p,
                Err(e) => r matches Err(err) && err == e,
            },
    ;

    /// The topic path that the value is, if it is one without a
    /// wildcard.
    fn to_topic_name(&self) -> (r: Result<TopicPath>)
        ensures
            match topic_name_of(self.parsed()) {
                Ok(p) => r matches Ok(topic_path) && topic_path@ == p,
                Err(e) => r matches Err(err) && err == e,
            },
    ;
}

/// The topic name that a topic path is, if it has no wildcard.
pub fn topic_name(parsed: Result<TopicPath>) -> (r: Result<TopicPath>)
    ensures
        match parsed {
            Ok(p) => if p.wildcards {
                r matches Err(e) && e == Error::TopicNameMustNotContainWildcard
            } else {
                r matches Ok(name) && name == p
            },
            Err(e) => r matches Err(err) && err == e,
        },
{
    match parsed {
        Ok(topic_path) => {
            if topic_path.wildcards {
                Err(Error::TopicNameMustNotContainWildcard)
            } else {
                Ok(topic_path)
            }
        },
        Err(e) => Err(e),
    }
}

impl ToTopicPath for TopicPath {
    open spec fn parsed(&self) -> Result<TopicPathView> {
        Ok(self@)
    }

    fn to_topic_path(&self) -> (r: Result<TopicPath>) {
        Ok(self.clone())
    }

    fn to_topic_name(&self) -> (r: Result<TopicPath>) {
        topic_name(self.to_topic_path())
    }
}

impl ToTopicPath for String {
    open spec fn parsed(&self) -> Result<TopicPathView> {
        parse_path(self@)
    }

    fn to_topic_path(&self) -> (r: Result<TopicPath>) {
        TopicPath::from_str(self.as_str())
    }

    fn to_topic_name(&self) -> (r: Result<TopicPath>) {
        topic_name(self.to_topic_path())
    }
}

impl<'a> ToTopicPath for &'a str {
    open spec fn parsed(&self) -> Result<TopicPathView> {
        parse_path(self@)
    }

    fn to_topic_path(&self) -> (r: Result<TopicPath>) {
        TopicPath::from_str(*self)
    }

    fn to_topic_name(&self) -> (r: Result<TopicPath>) {
        topic_name(self.to_topic_path())
    }
}

/// Topic-name guard: a path with a segment `+` or `#` is no topic name.
pub proof fn lemma_wildcard_is_no_topic_name(path: Seq<char>, i: int)
    requires
        0 <= i < segments(path).len(),
        is_wildcard_segment(segments(path)[i]),
    ensures
        topic_name_of(parse_path(path)) is Err,
{
}

/// Topic-path guard: a path with a segment that holds `+` or `#` and is
/// not equal to it is no topic path.
pub proof fn lemma_mixed_segment_is_no_topic_path(path: Seq<char>, i: int)
    requires
        0 <= i < segments(path).len(),
        segments(path)[i].contains('+') || segments(path)[i].contains('#'),
        !is_wildcard_segment(segments(path)[i]),
    ensures
        parse_path(path) == Err::<TopicPathView, Error>(Error::InvalidTopicPath),
{
    assert(!segment_valid(segments(path)[i]));
}

} // verus!
