//! The conversation state behind the terminal view. Drawing and key
//! handling live in the surrounding binary; the state and its transitions
//! are verified here.

use vstd::prelude::*;
use vstd::string::*;

verus! {

#[derive(Debug, Clone)]
pub enum MessageRole {
    User,
    Assistant,
    System,
}

#[derive(Debug, Clone)]
pub struct Message {
    pub role: MessageRole,
    pub content: String,
}

/// The conversation: its transcript, the input line being typed, and the
/// two state flags the event loop reads.
pub struct App {
    pub messages: Vec<Message>,
    pub input: String,
    pub should_quit: bool,
    pub is_processing: bool,
}

/// One transcript paragraph: the message under its role's marker, a
/// blank line after it.
pub open spec fn message_text(m: Message) -> Seq<char> {
    match m.role {
        MessageRole::User => "> "@ + m.content@ + "\n\n"@,
        MessageRole::Assistant => "\u{23fa} "@ + m.content@ + "\n\n"@,
        MessageRole::System => m.content@ + "\n\n"@,
    }
}

pub open spec fn messages_text(ms: Seq<Message>) -> Seq<char>
    decreases ms.len(),
{
    if ms.len() == 0 {
        Seq::empty()
    } else {
        messages_text(ms.drop_last()) + message_text(ms.last())
    }
}

/// The whole transcript shown in the messages pane: every message in
/// order, and the working note while a request runs.
pub open spec fn transcript_text(a: App) -> Seq<char> {
    messages_text(a.messages@) + if a.is_processing {
        "\u{2722} Working\u{2026} (esc to interrupt)\n"@
    } else {
        Seq::<char>::empty()
    }
}

impl App {
    /// Renders the transcript the messages pane displays.
    pub fn transcript(&self) -> (r: String)
        ensures
            r@ == transcript_text(*self),
    {
        let mut text = String::new();
        let ghost ms = self.messages@;
        proof {
            assert(ms.take(0) =~= Seq::<Message>::empty());
        }
        let n = self.messages.len();
        let mut i: usize = 0;
        while i < n
            invariant
                n == self.messages@.len(),
                ms == self.messages@,
                i <= n,
                text@ == messages_text(ms.take(i as int)),
            decreases n - i,
        {
            let m = &self.messages[i];
            match m.role {
                MessageRole::User => {
                    text.append("> ");
                    text.append(m.content.as_str());
                    text.append("\n\n");
                },
                MessageRole::Assistant => {
                    text.append("\u{23fa} ");
                    text.append(m.content.as_str());
                    text.append("\n\n");
                },
                MessageRole::System => {
                    text.append(m.content.as_str());
                    text.append("\n\n");
                },
            }
            proof {
                assert(ms.take(i + 1).drop_last() =~= ms.take(i as int));
                assert(ms.take(i + 1).last() == ms[i as int]);
                assert(text@ =~= messages_text(ms.take(i + 1)));
            }
            i = i + 1;
        }
        proof {
            assert(ms.take(n as int) =~= ms);
        }
        if self.is_processing {
            text.append("\u{2722} Working\u{2026} (esc to interrupt)\n");
        }
        text
    }

    /// A fresh conversation holding only the welcome message.
    pub fn new() -> (r: App)
        ensures
            r.messages@.len() == 1,
            r.messages@[0].role is System,
            r.messages@[0].content@ == "Welcome to Ada. Type /help for commands, or chat with GPT-4."@,
            r.input@ == Seq::<char>::empty(),
            !r.should_quit,
            !r.is_processing,
    {
        let mut messages: Vec<Message> = Vec::new();
        messages.push(
            Message {
                role: MessageRole::System,
                content: "Welcome to Ada. Type /help for commands, or chat with GPT-4.".to_owned(),
            },
        );
        App { messages, input: String::new(), should_quit: false, is_processing: false }
    }

    /// Appends one message to the transcript; nothing else moves.
    pub fn add_message(&mut self, role: MessageRole, content: String)
        ensures
            final(self).messages@ == old(self).messages@.push(Message { role, content }),
            final(self).input == old(self).input,
            final(self).should_quit == old(self).should_quit,
            final(self).is_processing == old(self).is_processing,
    {
        self.messages.push(Message { role, content });
    }

    /// Takes the typed line: a non-empty input is handed out and cleared,
    /// an empty input yields nothing and changes nothing.
    pub fn submit_input(&mut self) -> (r: Option<String>)
        ensures
            final(self).messages == old(self).messages,
            final(self).should_quit == old(self).should_quit,
            final(self).is_processing == old(self).is_processing,
            old(self).input@.len() == 0 ==> r is None && final(self).input == old(self).input,
            old(self).input@.len() > 0 ==> final(self).input@ == Seq::<char>::empty() && (
            r matches Some(s) && s@ == old(self).input@),
    {
        if self.input.as_str().is_empty() {
            return None;
        }
        let input = self.input.clone();
        self.input = String::new();
        Some(input)
    }
}

} // verus!
