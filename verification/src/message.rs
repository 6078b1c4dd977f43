//! Messages that come in, replies that go out, and how a reply is addressed.

use vstd::prelude::*;

verus! {

/// The fields of one tag, or the tags of one message, as plain texts.
pub type TagTexts = Seq<Seq<Seq<char>>>;

/// A message as it was received: who sent it, what it says, and the tags that
/// place it in a thread. Every tag holds at least one field, its name.
#[derive(Debug, PartialEq, Eq)]
pub struct IncomingMessage {
    id: String,
    sender: String,
    tags: Vec<Vec<String>>,
    content: String,
}

/// A reply that is ready to be sent: its text, and the tags that address it
/// to the sender and the thread of the message it answers.
#[derive(Debug, PartialEq, Eq)]
pub struct OutgoingReply {
    pub tags: Vec<Vec<String>>,
    pub content: String,
}

/// Whether every tag holds at least one field.
pub open spec fn tags_have_names(tags: TagTexts) -> bool {
    forall|i: int| 0 <= i < tags.len() ==> (#[trigger] tags[i]).len() > 0
}

/// The first of `tags` whose name, its first field, is `name`.
pub open spec fn first_tag_named(tags: TagTexts, name: Seq<char>) -> Option<Seq<Seq<char>>>
    decreases tags.len(),
{
    if tags.len() == 0 {
        None
    } else if tags[0].len() > 0 && tags[0][0] == name {
        Some(tags[0])
    } else {
        first_tag_named(tags.drop_first(), name)
    }
}

/// The tags of a reply to the message `id` that `sender` sent with `tags`:
/// a "p" tag that mentions the sender; then the first "e" tag of the message,
/// if it has one, which names the root of its thread; then an "e" tag that
/// names the message itself.
pub open spec fn reply_tags(id: Seq<char>, sender: Seq<char>, tags: TagTexts) -> TagTexts {
    let mention = seq!["p"@, sender];
    let answered = seq!["e"@, id];
    match first_tag_named(tags, "e"@) {
        Some(root) => seq![mention, root, answered],
        None => seq![mention, answered],
    }
}

impl IncomingMessage {
    /// Every tag of a message holds at least one field.
    #[verifier::type_invariant]
    pub closed spec fn wf(self) -> bool {
        tags_have_names(self.tags.deep_view())
    }

    /// The identifier of the message.
    pub closed spec fn id_text(self) -> Seq<char> {
        self.id@
    }

    /// The identity of the sender.
    pub closed spec fn sender_text(self) -> Seq<char> {
        self.sender@
    }

    /// The tags of the message.
    pub closed spec fn tag_texts(self) -> TagTexts {
        self.tags.deep_view()
    }

    /// The text of the message.
    pub closed spec fn content_text(self) -> Seq<char> {
        self.content@
    }

    /// The tags of a reply to this message.
    pub open spec fn reply_tags(self) -> TagTexts {
        reply_tags(self.id_text(), self.sender_text(), self.tag_texts())
    }

    /// A message from its parts; `None` exactly when one of `tags` is empty.
    pub fn new(id: String, sender: String, tags: Vec<Vec<String>>, content: String) -> (made:
        Option<IncomingMessage>)
        ensures
            made is Some <==> tags_have_names(tags.deep_view()),
            made matches Some(m) ==> {
                &&& m.wf()
                &&& m.id_text() == id@
                &&& m.sender_text() == sender@
                &&& m.tag_texts() == tags.deep_view()
                &&& m.content_text() == content@
            },
    {
        let mut i: usize = 0;
        while i < tags.len()
            invariant
                i <= tags.len(),
                forall|j: int| 0 <= j < i ==> (#[trigger] tags.deep_view()[j]).len() > 0,
            decreases tags.len() - i,
        {
            if tags[i].len() == 0 {
                assert(tags.deep_view()[i as int].len() == 0);
                return None;
            }
            assert(tags.deep_view()[i as int].len() == tags@[i as int]@.len());
            i += 1;
        }
        Some(IncomingMessage { id, sender, tags, content })
    }

    /// The identifier of the message.
    pub fn id(&self) -> (id: &str)
        ensures
            id@ == self.id_text(),
    {
        self.id.as_str()
    }

    /// The identity of the sender.
    pub fn sender(&self) -> (sender: &str)
        ensures
            sender@ == self.sender_text(),
    {
        self.sender.as_str()
    }

    /// The tags of the message.
    pub fn tags(&self) -> (tags: &Vec<Vec<String>>)
        ensures
            tags.deep_view() == self.tag_texts(),
            tags_have_names(tags.deep_view()),
    {
        proof {
            use_type_invariant(self);
        }
        &self.tags
    }

    /// The text of the message.
    pub fn content(&self) -> (content: &str)
        ensures
            content@ == self.content_text(),
    {
        self.content.as_str()
    }
}

/// The tags that `nostr_bot::tags_for_reply` gives for an event with this
/// message's identifier, sender and tags: the sender's "p" tag, the first
/// "e" tag of the message if there is one, and an "e" tag with the message's
/// identifier. The outside function reads the first field of every tag, so
/// the message must be well formed. It reads nothing else of the event: the
/// other fields are handed over empty.
#[verifier::external_body]
fn tags_for_reply(message: &IncomingMessage) -> (tags: Vec<Vec<String>>)
    requires
        message.wf(),
    ensures
        tags.deep_view() == message.reply_tags(),
{
    nostr_bot::tags_for_reply(
        nostr_bot::Event {
            id: message.id.clone(),
            pubkey: message.sender.clone(),
            created_at: 0,
            kind: 0,
            tags: message.tags.clone(),
            content: String::new(),
            sig: String::new(),
        },
    )
}

/// The reply to `source` that says `text`: it is addressed with the reply
/// tags of `source`, and its text is `text` as it stands, unescaped.
pub fn reply(source: &IncomingMessage, text: String) -> (reply: OutgoingReply)
    ensures
        reply.content@ == text@,
        reply.tags.deep_view() == source.reply_tags(),
{
    proof {
        use_type_invariant(source);
    }
    OutgoingReply { tags: tags_for_reply(source), content: text }
}

/// A reply always holds the sender's mention first and the answered message
/// last, with at most the root of the thread between them.
pub proof fn reply_tags_shape(id: Seq<char>, sender: Seq<char>, tags: TagTexts)
    ensures
        2 <= reply_tags(id, sender, tags).len() <= 3,
        reply_tags(id, sender, tags).first() == seq!["p"@, sender],
        reply_tags(id, sender, tags).last() == seq!["e"@, id],
        reply_tags(id, sender, tags).len() == 3 <==> first_tag_named(tags, "e"@) is Some,
        tags_have_names(reply_tags(id, sender, tags)),
{
    first_tag_named_is_first(tags, "e"@);
}

/// The first tag of a name is one of the tags, carries that name, and no tag
/// before it does; there is none exactly when no tag carries the name.
pub proof fn first_tag_named_is_first(tags: TagTexts, name: Seq<char>)
    ensures
        match first_tag_named(tags, name) {
            Some(tag) => exists|i: int|
                {
                    &&& 0 <= i < tags.len()
                    &&& #[trigger] tags[i] == tag
                    &&& tag.len() > 0
                    &&& tag[0] == name
                    &&& forall|j: int|
                        0 <= j < i ==> !((#[trigger] tags[j]).len() > 0 && tags[j][0] == name)
                },
            None => forall|j: int|
                0 <= j < tags.len() ==> !((#[trigger] tags[j]).len() > 0 && tags[j][0] == name),
        },
    decreases tags.len(),
{
    if tags.len() > 0 && !(tags[0].len() > 0 && tags[0][0] == name) {
        let rest = tags.drop_first();
        first_tag_named_is_first(rest, name);
        match first_tag_named(rest, name) {
            Some(tag) => {
                let i = choose|i: int|
                    {
                        &&& 0 <= i < rest.len()
                        &&& #[trigger] rest[i] == tag
                        &&& tag.len() > 0
                        &&& tag[0] == name
                        &&& forall|j: int|
                            0 <= j < i ==> !((#[trigger] rest[j]).len() > 0 && rest[j][0] == name)
                    };
                assert(tags[i + 1] == tag);
                assert forall|j: int| 0 <= j < i + 1 implies !((#[trigger] tags[j]).len() > 0
                    && tags[j][0] == name) by {
                    if j > 0 {
                        assert(tags[j] == rest[j - 1]);
                    }
                }
            },
            None => {
                assert forall|j: int| 0 <= j < tags.len() implies !((#[trigger] tags[j]).len() > 0
                    && tags[j][0] == name) by {
                    if j > 0 {
                        assert(tags[j] == rest[j - 1]);
                    }
                }
            },
        }
    } else if tags.len() > 0 {
        assert(tags[0] == tags[0]);
    }
}

} // verus!
