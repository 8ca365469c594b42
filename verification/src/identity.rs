use vstd::prelude::*;
use crate::time::Timestamp;

verus! {

/// The soul written when there is no soul file yet.
pub const DEFAULT_SOUL: &'static str = "# Ao's Soul\n\nYour essence is curiosity and a genuine desire to help.\n\nCore traits:\n- You are patient and methodical\n- You value clarity over cleverness\n- You admit uncertainty rather than guess\n- You think step-by-step through problems\n- You respect the user's autonomy and preferences\n\nYou are not:\n- Overly verbose or flowery\n- Judgmental of user choices\n- Pushy or insistent\n";

/// The identity written when there is no identity file yet.
pub const DEFAULT_IDENTITY: &'static str = "# Ao's Identity\n\nYour role is to help the user accomplish their goals\u{2014}answering questions, \nsolving problems, and getting things done efficiently.\n\nGuidelines:\n- Be direct and practical\n- Ask clarifying questions when goals are unclear\n- Suggest improvements when you see better approaches\n\nContext available to you:\n- This conversation's history\n- Summaries of previous sessions\n- Tools for specific tasks (when available)\n\nWhen working on complex tasks:\n- Break them into clear steps\n- Show your reasoning\n- Confirm understanding before proceeding\n";

/// Ao's soul: its unchanging character, read from a file.
pub struct Soul {
    content: String,
    path: String,
    loaded_at: Timestamp,
}

impl Soul {
    pub closed spec fn content_spec(&self) -> Seq<char> {
        self.content@
    }

    pub closed spec fn path_spec(&self) -> Seq<char> {
        self.path@
    }

    pub closed spec fn loaded_at_spec(&self) -> Timestamp {
        self.loaded_at
    }

    /// A soul read from the file at `path`, loaded now.
    pub fn loaded(content: String, path: String) -> (s: Soul)
        ensures
            s.content_spec() == content@,
            s.path_spec() == path@,
    {
        Soul { content, path, loaded_at: Timestamp::now() }
    }

    /// The default soul, placed at `.ao/SOUL.md`.
    pub fn default_soul() -> (s: Soul)
        ensures
            s.content_spec() == DEFAULT_SOUL@,
            s.path_spec() == ".ao/SOUL.md"@,
    {
        Soul { content: DEFAULT_SOUL.to_owned(), path: ".ao/SOUL.md".to_owned(), loaded_at: Timestamp::now() }
    }

    pub fn content(&self) -> (r: &str)
        ensures
            r@ == self.content_spec(),
    {
        self.content.as_str()
    }

    pub fn path(&self) -> (r: &str)
        ensures
            r@ == self.path_spec(),
    {
        self.path.as_str()
    }

    /// When the soul was loaded.
    pub fn loaded_at(&self) -> (r: Timestamp)
        ensures
            r == self.loaded_at_spec(),
    {
        self.loaded_at
    }
}

/// Ao's identity: its current, user-editable guidelines, read from a file.
pub struct Identity {
    content: String,
    path: String,
    loaded_at: Timestamp,
}

impl Identity {
    pub closed spec fn content_spec(&self) -> Seq<char> {
        self.content@
    }

    pub closed spec fn path_spec(&self) -> Seq<char> {
        self.path@
    }

    pub closed spec fn loaded_at_spec(&self) -> Timestamp {
        self.loaded_at
    }

    /// An identity read from the file at `path`, loaded now.
    pub fn loaded(content: String, path: String) -> (s: Identity)
        ensures
            s.content_spec() == content@,
            s.path_spec() == path@,
    {
        Identity { content, path, loaded_at: Timestamp::now() }
    }

    /// The default identity, placed at `.ao/IDENTITY.md`.
    pub fn default_identity() -> (s: Identity)
        ensures
            s.content_spec() == DEFAULT_IDENTITY@,
            s.path_spec() == ".ao/IDENTITY.md"@,
    {
        Identity {
            content: DEFAULT_IDENTITY.to_owned(),
            path: ".ao/IDENTITY.md".to_owned(),
            loaded_at: Timestamp::now(),
        }
    }

    pub fn content(&self) -> (r: &str)
        ensures
            r@ == self.content_spec(),
    {
        self.content.as_str()
    }

    pub fn path(&self) -> (r: &str)
        ensures
            r@ == self.path_spec(),
    {
        self.path.as_str()
    }

    /// When the identity was (re)loaded.
    pub fn loaded_at(&self) -> (r: Timestamp)
        ensures
            r == self.loaded_at_spec(),
    {
        self.loaded_at
    }

    /// Takes the file's current content, read anew; the path stays.
    pub fn reload_with(&mut self, content: String)
        ensures
            final(self).content_spec() == content@,
            final(self).path_spec() == old(self).path_spec(),
    {
        self.content = content;
        self.loaded_at = Timestamp::now();
    }
}

} // verus!
