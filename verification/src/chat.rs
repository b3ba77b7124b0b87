//! The chat history shown in the in-game chat window.

use vstd::prelude::*;

verus! {

/// Identifier of a connected client.
pub type ClientId = u16;

/// One line of the chat.
pub enum ChatMessage {
    PlayerMessage { id: ClientId, username: String, message: String },
    PlayerJoin { id: ClientId, username: String },
    PlayerLeave { id: ClientId, username: String },
    System(String),
}

/// The chat lines, oldest first.
pub struct ChatHistory {
    pub messages: Vec<ChatMessage>,
}

impl Default for ChatHistory {
    fn default() -> (history: Self)
        ensures
            history.messages@.len() == 0,
    {
        ChatHistory { messages: Vec::new() }
    }
}

impl ChatHistory {
    /// Append a message.
    pub fn add_message(&mut self, message: ChatMessage)
        ensures
            final(self).messages@ == old(self).messages@.push(message),
    {
        self.messages.push(message);
    }

    /// Append a player's chat message.
    pub fn add_chat_message(&mut self, id: ClientId, username: String, message: String)
        ensures
            final(self).messages@ == old(self).messages@.push(
                ChatMessage::PlayerMessage { id, username, message },
            ),
    {
        self.messages.push(ChatMessage::PlayerMessage { id, username, message });
    }

    /// Append the notice that a player joined.
    pub fn add_player_join(&mut self, id: ClientId, username: String)
        ensures
            final(self).messages@ == old(self).messages@.push(ChatMessage::PlayerJoin { id, username }),
    {
        self.messages.push(ChatMessage::PlayerJoin { id, username });
    }

    /// Append the notice that a player left.
    pub fn add_player_leave(&mut self, id: ClientId, username: String)
        ensures
            final(self).messages@ == old(self).messages@.push(ChatMessage::PlayerLeave { id, username }),
    {
        self.messages.push(ChatMessage::PlayerLeave { id, username });
    }

    /// Append a system message.
    pub fn add_system_message(&mut self, message: String)
        ensures
            final(self).messages@ == old(self).messages@.push(ChatMessage::System(message)),
    {
        self.messages.push(ChatMessage::System(message));
    }

    /// All messages, oldest first.
    pub fn get_messages(&self) -> (messages: &[ChatMessage])
        ensures
            messages@ == self.messages@,
    {
        self.messages.as_slice()
    }
}

/// The chat history a game starts with: the welcome line and the key help line.
pub fn init_chat_manager() -> (history: ChatHistory)
    ensures
        history.messages@.len() == 2,
        history.messages@[0] matches ChatMessage::System(m)
            && m@ == "Welcome to Kubi! Chat messages will appear here"@,
        history.messages@[1] matches ChatMessage::System(m)
            && m@ == "F1 (Hold): Settings; F3: Release cursor; F4/F5: Gamemode"@,
{
    let mut chat_manager = ChatHistory::default();
    chat_manager.add_system_message("Welcome to Kubi! Chat messages will appear here".to_owned());
    chat_manager.add_system_message("F1 (Hold): Settings; F3: Release cursor; F4/F5: Gamemode".to_owned());
    chat_manager
}

} // verus!
