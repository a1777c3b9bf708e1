use vstd::prelude::*;

verus! {

/// A message as the contracts see it: a role label and a text.
pub type MessageView = (Seq<char>, Seq<char>);

/// The view of one message entry.
pub open spec fn message_view(m: (String, String)) -> MessageView {
    (m.0@, m.1@)
}

/// An ordered list of (role, text) messages. The order is the order in which
/// the messages are presented to the backend.
pub struct PromptTemplate {
    messages: Vec<(String, String)>,
}

impl View for PromptTemplate {
    type V = Seq<MessageView>;

    closed spec fn view(&self) -> Seq<MessageView> {
        self.messages@.map_values(|m: (String, String)| message_view(m))
    }
}

impl PromptTemplate {
    /// A prompt with no messages.
    pub fn new() -> (r: PromptTemplate)
        ensures
            r@ == Seq::<MessageView>::empty(),
    {
        let r = PromptTemplate { messages: Vec::new() };
        assert(r@ =~= Seq::<MessageView>::empty());
        r
    }

    /// Appends the message `(role, text)` after the existing ones.
    pub fn add_prompt(&mut self, message: (&str, &str))
        ensures
            final(self)@ == old(self)@.push((message.0@, message.1@)),
    {
        let (role, text) = message;
        self.messages.push((role.to_owned(), text.to_owned()));
        assert(self@ =~= old(self)@.push((message.0@, message.1@)));
    }

    /// The number of messages.
    pub fn len(&self) -> (r: usize)
        ensures
            r == self@.len(),
    {
        self.messages.len()
    }

    /// The messages in order, as (role, text) pairs.
    pub fn messages(&self) -> (r: &Vec<(String, String)>)
        ensures
            r@.map_values(|m: (String, String)| message_view(m)) == self@,
    {
        &self.messages
    }
}

} // verus!
