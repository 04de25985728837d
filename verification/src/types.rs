//! Core data model: conversation messages, chats, and projects.

use vstd::prelude::*;

verus! {

/// A file attached to a single message.
#[derive(Debug, Clone)]
pub struct Attachment {
    pub name: String,
    pub mime: String,
    /// One of "processing", "ready", "error".
    pub status: String,
}

/// A file attached to a project.
#[derive(Debug, Clone)]
pub struct ProjectAttachment {
    pub id: String,
    pub name: String,
    pub path: String,
    pub mime: String,
    pub size: u64,
    pub uploaded_at: String,
}

/// One conversation message. Messages are ordered and append-only within a
/// conversation.
#[derive(Debug, Clone)]
pub struct Message {
    pub id: String,
    /// One of "user", "assistant", "tool", "system".
    pub role: String,
    pub text: String,
    pub name: Option<String>,
    pub attachments: Option<Vec<Attachment>>,
}

/// A stored conversation.
#[derive(Debug, Clone)]
pub struct Chat {
    pub id: String,
    pub title: String,
    pub thread_id: String,
    pub messages: Vec<Message>,
    pub project_id: Option<String>,
    pub created_at: String,
    pub updated_at: String,
}

/// A project grouping chats and attached files.
#[derive(Debug, Clone)]
pub struct Project {
    pub id: String,
    pub name: String,
    pub description: Option<String>,
    pub attachments: Vec<ProjectAttachment>,
    pub chat_ids: Vec<String>,
    pub created_at: String,
    pub updated_at: String,
}

impl Project {
    /// The stored path of the attachment with the given id, if the
    /// project has it; the first match decides.
    pub fn attachment_path(&self, attachment_id: &str) -> (r: Option<String>)
        ensures
            match r {
                Some(p) => exists|i: int|
                    0 <= i < self.attachments@.len() && (#[trigger] self.attachments@.index(
                        i,
                    )).id@ == attachment_id@ && p@ == self.attachments@.index(i).path@,
                None => forall|i: int|
                    0 <= i < self.attachments@.len() ==> (#[trigger] self.attachments@.index(
                        i,
                    )).id@ != attachment_id@,
            },
    {
        let mut i: usize = 0;
        while i < self.attachments.len()
            invariant
                i <= self.attachments@.len(),
                forall|k: int|
                    0 <= k < i ==> (#[trigger] self.attachments@.index(k)).id@ != attachment_id@,
            decreases self.attachments@.len() - i,
        {
            let a = &self.attachments[i];
            if crate::strutil::str_eq(a.id.as_str(), attachment_id) {
                return Some(a.path.clone());
            }
            i = i + 1;
        }
        None
    }
}

} // verus!
