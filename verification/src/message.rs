use vstd::prelude::*;

verus! {

/// One turn of a conversation with a completion model: who speaks, and
/// what is said.
#[derive(Debug)]
pub struct Message {
    pub role: String,
    pub content: String,
}

/// A message as plain values.
pub struct MessageView {
    pub role: Seq<char>,
    pub content: Seq<char>,
}

impl View for Message {
    type V = MessageView;

    open spec fn view(&self) -> MessageView {
        MessageView { role: self.role@, content: self.content@ }
    }
}

impl DeepView for Message {
    type V = MessageView;

    open spec fn deep_view(&self) -> MessageView {
        self@
    }
}

impl Message {
    /// A message spoken by the user.
    pub fn user(content: String) -> (message: Self)
        ensures
            message@ == (MessageView { role: "user"@, content: content@ }),
    {
        Message { role: "user".to_owned(), content }
    }

    /// A message that sets the scene for the model.
    pub fn system(content: String) -> (message: Self)
        ensures
            message@ == (MessageView { role: "system"@, content: content@ }),
    {
        Message { role: "system".to_owned(), content }
    }
}

} // verus!
