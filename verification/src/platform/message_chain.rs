//! Message chains: the components a message is made of.
use vstd::prelude::*;

use crate::text::{push_str, string_from};

verus! {

/// Plain text.
#[derive(Debug, Clone)]
pub struct Plain {
    pub text: String,
}

impl Plain {
    pub fn new(text: &str) -> (r: Plain)
        ensures
            r.text@ == text@,
    {
        Plain { text: string_from(text) }
    }
}

/// An image, by URL, by file path or inline.
#[derive(Debug, Clone)]
pub struct Image {
    pub url: Option<String>,
    pub path: Option<String>,
    pub base64: Option<String>,
}

impl Image {
    pub fn from_url(url: &str) -> (r: Image)
        ensures
            r.url matches Some(u) && u@ == url@,
            r.path is None,
            r.base64 is None,
    {
        Image { url: Some(string_from(url)), path: None, base64: None }
    }

    pub fn from_file(path: &str) -> (r: Image)
        ensures
            r.url is None,
            r.path matches Some(p) && p@ == path@,
            r.base64 is None,
    {
        Image { url: None, path: Some(string_from(path)), base64: None }
    }
}

/// A mention of a user.
#[derive(Debug, Clone)]
pub struct At {
    pub user_id: String,
    pub nickname: Option<String>,
}

impl At {
    pub fn new(user_id: &str) -> (r: At)
        ensures
            r.user_id@ == user_id@,
            r.nickname is None,
    {
        At { user_id: string_from(user_id), nickname: None }
    }
}

/// A reference to an earlier message.
#[derive(Debug, Clone)]
pub struct Reply {
    pub message_id: String,
    pub sender_id: String,
    pub message_str: Option<String>,
}

impl Reply {
    pub fn new(message_id: &str, sender_id: &str) -> (r: Reply)
        ensures
            r.message_id@ == message_id@,
            r.sender_id@ == sender_id@,
            r.message_str is None,
    {
        Reply {
            message_id: string_from(message_id),
            sender_id: string_from(sender_id),
            message_str: None,
        }
    }
}

/// A file attachment.
#[derive(Debug, Clone)]
pub struct File {
    pub name: String,
    pub file: String,
}

impl File {
    pub fn new(name: &str, file: &str) -> (r: File)
        ensures
            r.name@ == name@,
            r.file@ == file@,
    {
        File { name: string_from(name), file: string_from(file) }
    }
}

/// A voice recording.
#[derive(Debug, Clone)]
pub struct Record {
    pub file: String,
    pub url: Option<String>,
}

impl Record {
    pub fn new(file: &str) -> (r: Record)
        ensures
            r.file@ == file@,
            r.url is None,
    {
        Record { file: string_from(file), url: None }
    }
}

/// One component of a message chain.
#[derive(Debug, Clone)]
pub enum MessageComponent {
    Plain(Plain),
    Image(Image),
    File(File),
    Record(Record),
    At(At),
    Reply(Reply),
}

/// A message as a sequence of components.
#[derive(Debug, Clone)]
pub struct MessageChain {
    pub chain: Vec<MessageComponent>,
}

/// The text a component contributes to the plain text of a chain.
pub open spec fn component_text(c: MessageComponent) -> Seq<char> {
    match c {
        MessageComponent::Plain(p) => p.text@,
        _ => Seq::empty(),
    }
}

/// The concatenated text of the `Plain` components of `chain`, in order.
pub open spec fn plain_text(chain: Seq<MessageComponent>) -> Seq<char>
    decreases chain.len(),
{
    if chain.len() == 0 {
        Seq::empty()
    } else {
        plain_text(chain.drop_last()) + component_text(chain.last())
    }
}

impl MessageChain {
    /// The plain text of this chain.
    pub open spec fn text_of(&self) -> Seq<char> {
        plain_text(self.chain@)
    }

    pub fn new() -> (r: MessageChain)
        ensures
            r.chain@.len() == 0,
    {
        MessageChain { chain: Vec::new() }
    }

    /// A chain of one `Plain` component holding `text`.
    pub fn text(text: &str) -> (r: MessageChain)
        ensures
            r.chain@.len() == 1,
            r.chain@[0] matches MessageComponent::Plain(p) && p.text@ == text@,
            r.text_of() == text@,
    {
        let mut chain: Vec<MessageComponent> = Vec::new();
        chain.push(MessageComponent::Plain(Plain::new(text)));
        let r = MessageChain { chain };
        assert(r.chain@.drop_last() =~= Seq::<MessageComponent>::empty());
        assert(plain_text(r.chain@.drop_last()) == Seq::<char>::empty());
        assert(Seq::<char>::empty() + text@ =~= text@);
        r
    }

    pub fn push(&mut self, component: MessageComponent)
        ensures
            final(self).chain@ == old(self).chain@.push(component),
            final(self).text_of() == old(self).text_of() + component_text(component),
    {
        self.chain.push(component);
        assert(self.chain@.drop_last() =~= old(self).chain@);
    }

    /// The texts of the `Plain` components joined without separator.
    pub fn get_plain_text(&self) -> (r: String)
        ensures
            r@ == self.text_of(),
    {
        let mut out = String::new();
        let mut i: usize = 0;
        while i < self.chain.len()
            invariant
                i <= self.chain@.len(),
                out@ == plain_text(self.chain@.take(i as int)),
            decreases self.chain.len() - i,
        {
            assert(self.chain@.take(i + 1).drop_last() =~= self.chain@.take(i as int));
            match &self.chain[i] {
                MessageComponent::Plain(p) => {
                    push_str(&mut out, p.text.as_str());
                },
                _ => {
                    assert(out@ =~= out@ + Seq::<char>::empty());
                },
            }
            i = i + 1;
        }
        assert(self.chain@.take(self.chain@.len() as int) =~= self.chain@);
        out
    }

    pub fn is_empty(&self) -> (r: bool)
        ensures
            r == (self.chain@.len() == 0),
    {
        self.chain.len() == 0
    }
}

impl From<String> for MessageChain {
    /// The chain of one `Plain` component holding `text`.
    fn from(text: String) -> (r: MessageChain)
        ensures
            r.chain@.len() == 1,
            r.text_of() == text@,
    {
        MessageChain::text(text.as_str())
    }
}

impl<'a> From<&'a str> for MessageChain {
    /// The chain of one `Plain` component holding `text`.
    fn from(text: &'a str) -> (r: MessageChain)
        ensures
            r.chain@.len() == 1,
            r.text_of() == text@,
    {
        MessageChain::text(text)
    }
}

impl<'a> vstd::std_specs::convert::FromSpecImpl<&'a str> for MessageChain {
    open spec fn obeys_from_spec() -> bool {
        false
    }

    open spec fn from_spec(v: &'a str) -> MessageChain {
        arbitrary()
    }
}

impl Default for MessageChain {
    /// The empty chain.
    fn default() -> (r: MessageChain)
        ensures
            r.chain@.len() == 0,
    {
        MessageChain::new()
    }
}

impl vstd::std_specs::convert::FromSpecImpl<String> for MessageChain {
    open spec fn obeys_from_spec() -> bool {
        false
    }

    open spec fn from_spec(v: String) -> MessageChain {
        arbitrary()
    }
}

/// Law: the plain text of a chain built from `text` is `text`, and appending a
/// component appends exactly its text (nothing for non-text components).
pub proof fn lemma_plain_text_push(chain: Seq<MessageComponent>, c: MessageComponent)
    ensures
        plain_text(chain.push(c)) == plain_text(chain) + component_text(c),
        !(c is Plain) ==> plain_text(chain.push(c)) == plain_text(chain),
{
    assert(chain.push(c).drop_last() =~= chain);
    assert(plain_text(chain) + Seq::<char>::empty() =~= plain_text(chain));
}

/// Law: the plain text of two chains one after the other is the two plain texts
/// one after the other.
pub proof fn lemma_plain_text_concat(a: Seq<MessageComponent>, b: Seq<MessageComponent>)
    ensures
        plain_text(a + b) == plain_text(a) + plain_text(b),
    decreases b.len(),
{
    if b.len() == 0 {
        assert(a + b =~= a);
        assert(plain_text(a) + Seq::<char>::empty() =~= plain_text(a));
    } else {
        lemma_plain_text_concat(a, b.drop_last());
        assert((a + b).drop_last() =~= a + b.drop_last());
        assert((a + b).last() == b.last());
        assert(plain_text(a) + plain_text(b.drop_last()) + component_text(b.last()) =~= plain_text(a)
            + (plain_text(b.drop_last()) + component_text(b.last())));
    }
}

} // verus!
