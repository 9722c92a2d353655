//! UML sequence-diagram model.
//!
//! Participants own vertical lifelines, and time runs top-to-bottom as an
//! ordered list of messages between lifelines. This module is independent of
//! the flowchart `engine` and has its own exporters.

pub mod export;

use vstd::prelude::*;

use crate::engine::first_index;
use crate::error::{is_duplicate, is_invalid, is_not_found, quoted, quoted_name, FlowError};
use crate::text::{decimal, eq_lit, is_blank, key_of, key_spec, owned, push_decimal, str_blank,
    str_eq};
use crate::engine::lemma_first_index;
use crate::engine::lemma_first_index_at;
use crate::engine::lemma_first_index_push;

verus! {

/// A participant (object/actor) owning a lifeline.
#[derive(Debug, Clone)]
pub struct Participant {
    pub id: String,
    pub label: String,
    /// Render as a UML actor (stick figure) rather than a box.
    pub actor: bool,
}

/// Message arrow style.
#[derive(Debug, Clone, Copy, PartialEq, Eq, Structural)]
pub enum MessageKind {
    /// Synchronous call (solid line, filled arrowhead).
    Sync,
    /// Asynchronous message (solid line, open arrowhead).
    Async,
    /// Return / reply (dashed line, open arrowhead).
    Return,
    /// Creation message (dashed line to a created participant).
    Create,
    /// Destruction message (ends a lifeline with an X).
    Destroy,
}

impl MessageKind {
    pub open spec fn parse_spec(k: Seq<char>) -> Option<MessageKind> {
        if k == "sync"@ || k == "call"@ || k == "->>"@ {
            Some(MessageKind::Sync)
        } else if k == "async"@ || k == "signal"@ || k == "->"@ {
            Some(MessageKind::Async)
        } else if k == "return"@ || k == "reply"@ || k == "-->>"@ || k == "-->"@ {
            Some(MessageKind::Return)
        } else if k == "create"@ || k == "new"@ {
            Some(MessageKind::Create)
        } else if k == "destroy"@ || k == "delete"@ {
            Some(MessageKind::Destroy)
        } else {
            None
        }
    }

    /// Parse a message kind (case-insensitive; `-` and space read as `_`).
    pub fn parse(s: &str) -> (r: Option<MessageKind>)
        ensures
            r == MessageKind::parse_spec(key_spec(s@)),
    {
        let k = key_of(s);
        if eq_lit(&k, "sync") || eq_lit(&k, "call") || eq_lit(&k, "->>") {
            Some(MessageKind::Sync)
        } else if eq_lit(&k, "async") || eq_lit(&k, "signal") || eq_lit(&k, "->") {
            Some(MessageKind::Async)
        } else if eq_lit(&k, "return") || eq_lit(&k, "reply") || eq_lit(&k, "-->>") || eq_lit(
            &k,
            "-->",
        ) {
            Some(MessageKind::Return)
        } else if eq_lit(&k, "create") || eq_lit(&k, "new") {
            Some(MessageKind::Create)
        } else if eq_lit(&k, "destroy") || eq_lit(&k, "delete") {
            Some(MessageKind::Destroy)
        } else {
            None
        }
    }

    pub open spec fn label_spec(self) -> Seq<char> {
        match self {
            MessageKind::Sync => "sync"@,
            MessageKind::Async => "async"@,
            MessageKind::Return => "return"@,
            MessageKind::Create => "create"@,
            MessageKind::Destroy => "destroy"@,
        }
    }

    /// The canonical kind name.
    pub fn label(self) -> (r: &'static str)
        ensures
            r@ == self.label_spec(),
    {
        match self {
            MessageKind::Sync => "sync",
            MessageKind::Async => "async",
            MessageKind::Return => "return",
            MessageKind::Create => "create",
            MessageKind::Destroy => "destroy",
        }
    }

    pub open spec fn mermaid_spec(self) -> Seq<char> {
        match self {
            MessageKind::Sync => "->>"@,
            MessageKind::Async => "-)"@,
            MessageKind::Return => "-->>"@,
            MessageKind::Create => "->>"@,
            MessageKind::Destroy => "-x"@,
        }
    }

    /// Mermaid arrow token between participants.
    pub fn mermaid(self) -> (r: &'static str)
        ensures
            r@ == self.mermaid_spec(),
    {
        match self {
            MessageKind::Sync => "->>",
            MessageKind::Async => "-)",
            MessageKind::Return => "-->>",
            MessageKind::Create => "->>",
            MessageKind::Destroy => "-x",
        }
    }

    pub open spec fn dashed_spec(self) -> bool {
        self == MessageKind::Return || self == MessageKind::Create
    }

    /// Whether the message line is drawn dashed.
    pub fn dashed(self) -> (r: bool)
        ensures
            r == self.dashed_spec(),
    {
        match self {
            MessageKind::Return | MessageKind::Create => true,
            _ => false,
        }
    }
}

/// A single message from one lifeline to another (or a self-message).
#[derive(Debug, Clone)]
pub struct Message {
    pub from: String,
    pub to: String,
    pub label: String,
    pub kind: MessageKind,
}

/// A full sequence diagram.
#[derive(Debug, Clone)]
pub struct Sequence {
    pub title: Option<String>,
    pub participants: Vec<Participant>,
    pub messages: Vec<Message>,
}

pub open spec fn participant_ids(ps: Seq<Participant>) -> Seq<Seq<char>> {
    ps.map_values(|p: Participant| p.id@)
}

impl Sequence {
    pub open spec fn col_of_spec(self, id: Seq<char>) -> Option<int> {
        first_index(participant_ids(self.participants@), id)
    }

    pub open spec fn has_participant_spec(self, id: Seq<char>) -> bool {
        self.col_of_spec(id) is Some
    }

    /// `self` is `o` with participant `(id, label, actor)` appended.
    pub open spec fn participant_added(
        self,
        o: Sequence,
        id: Seq<char>,
        label: Seq<char>,
        actor: bool,
    ) -> bool {
        &&& self.title == o.title
        &&& self.messages == o.messages
        &&& self.participants@.len() == o.participants@.len() + 1
        &&& self.participants@.drop_last() == o.participants@
        &&& self.participants@.last().id@ == id
        &&& self.participants@.last().label@ == label
        &&& self.participants@.last().actor == actor
    }

    /// An empty diagram.
    pub fn new() -> (r: Sequence)
        ensures
            r.title is None,
            r.participants@.len() == 0,
            r.messages@.len() == 0,
    {
        Sequence { title: None, participants: Vec::new(), messages: Vec::new() }
    }

    /// Column index of a participant id.
    pub fn col_of(&self, id: &str) -> (r: Option<usize>)
        ensures
            match r {
                Some(i) => self.col_of_spec(id@) == Some(i as int) && i < self.participants@.len(),
                None => self.col_of_spec(id@) is None,
            },
    {
        let mut i: usize = 0;
        while i < self.participants.len()
            invariant
                i <= self.participants.len(),
                first_index(participant_ids(self.participants@).take(i as int), id@) is None,
            decreases self.participants.len() - i,
        {
            proof {
                lemma_first_index_push(participant_ids(self.participants@).take(i as int), self.participants@[i as int].id@, id@);
                assert(participant_ids(self.participants@).take(i as int).push(self.participants@[i as int].id@)
                    =~= participant_ids(self.participants@).take(i + 1));
            }
            if str_eq(self.participants[i].id.as_str(), id) {
                proof {
                    lemma_first_index(participant_ids(self.participants@).take(i as int), id@);
                    assert forall|j: int| 0 <= j < i implies participant_ids(self.participants@)[j] != id@ by {
                        assert(participant_ids(self.participants@).take(i as int)[j] == participant_ids(self.participants@)[j]);
                    }
                    lemma_first_index_at(participant_ids(self.participants@), id@, i as int);
                }
                return Some(i);
            }
            i += 1;
        }
        assert(participant_ids(self.participants@).take(self.participants.len() as int) =~= participant_ids(self.participants@));
        None
    }

    /// Whether a participant with id `id` exists.
    pub fn has_participant(&self, id: &str) -> (r: bool)
        ensures
            r == self.has_participant_spec(id@),
    {
        self.col_of(id).is_some()
    }

    /// Add a participant. Errors on a blank or duplicate id.
    pub fn add_participant(&mut self, id: &str, label: &str, actor: bool) -> (r: Result<
        (),
        FlowError,
    >)
        ensures
            is_blank(id@) ==> is_invalid(r, "participant id must not be empty"@) && *final(self)
                == *old(self),
            !is_blank(id@) && old(self).has_participant_spec(id@) ==> is_duplicate(
                r,
                quoted("participant"@, id@),
            ) && *final(self) == *old(self),
            !is_blank(id@) && !old(self).has_participant_spec(id@) ==> r is Ok
                && final(self).participant_added(*old(self), id@, label@, actor),
    {
        if str_blank(id) {
            return Err(FlowError::InvalidInput(owned("participant id must not be empty")));
        }
        if self.has_participant(id) {
            return Err(FlowError::Duplicate(quoted_name("participant", id)));
        }
        self.participants.push(Participant { id: owned(id), label: owned(label), actor });
        assert(self.participants@.drop_last() =~= old(self).participants@);
        Ok(())
    }

    /// Add a message. Endpoints are created as participants (labelled by
    /// their id) when missing; returns the new message index.
    pub fn add_message(&mut self, from: &str, to: &str, label: &str, kind: MessageKind) -> (r:
        Result<usize, FlowError>)
        ensures
            is_blank(from@) || is_blank(to@) ==> is_invalid(
                r,
                "message endpoints must not be empty"@,
            ) && *final(self) == *old(self),
            !is_blank(from@) && !is_blank(to@) ==> {
                let added_from = !old(self).has_participant_spec(from@);
                let added_to = !old(self).has_participant_spec(to@) && to@ != from@;
                let n = old(self).participants@.len();
                &&& r == Ok::<usize, FlowError>(old(self).messages@.len() as usize)
                &&& final(self).title == old(self).title
                &&& final(self).participants@.len() == n + (if added_from { 1int } else { 0 }) + (
                if added_to {
                    1int
                } else {
                    0
                })
                &&& final(self).participants@.take(n as int) == old(self).participants@
                &&& added_from ==> final(self).participants@[n as int].id@ == from@
                    && final(self).participants@[n as int].label@ == from@
                    && !final(self).participants@[n as int].actor
                &&& added_to ==> final(self).participants@.last().id@ == to@
                    && final(self).participants@.last().label@ == to@
                    && !final(self).participants@.last().actor
                &&& final(self).messages@.len() == old(self).messages@.len() + 1
                &&& final(self).messages@.drop_last() == old(self).messages@
                &&& final(self).messages@.last().from@ == from@
                &&& final(self).messages@.last().to@ == to@
                &&& final(self).messages@.last().label@ == label@
                &&& final(self).messages@.last().kind == kind
                &&& final(self).has_participant_spec(from@)
                &&& final(self).has_participant_spec(to@)
            },
    {
        if str_blank(from) || str_blank(to) {
            return Err(FlowError::InvalidInput(owned("message endpoints must not be empty")));
        }
        let ghost n = self.participants@.len();
        if !self.has_participant(from) {
            let _ = self.add_participant(from, from, false);
        }
        let ghost mid = self.participants@;
        if !self.has_participant(to) {
            proof {
                if old(self).has_participant_spec(to@) {
                    lemma_col_of_prefix(*old(self), *self, to@);
                }
                if to@ == from@ && !old(self).has_participant_spec(from@) {
                    assert(participant_ids(self.participants@).last() == to@);
                    lemma_first_index(participant_ids(self.participants@), to@);
                }
            }
            let _ = self.add_participant(to, to, false);
        } else {
            proof {
                if !old(self).has_participant_spec(to@) && to@ != from@ {
                    lemma_col_of_absent_after_push(*old(self), *self, to@);
                }
            }
        }
        assert(self.participants@.take(n as int) =~= old(self).participants@);
        self.messages.push(
            Message { from: owned(from), to: owned(to), label: owned(label), kind },
        );
        assert(self.messages@.drop_last() =~= old(self).messages@);
        proof {
            if old(self).has_participant_spec(from@) {
                lemma_col_of_prefix(*old(self), *self, from@);
            } else {
                lemma_has_at(*self, from@, n as int);
            }
            if old(self).has_participant_spec(to@) {
                lemma_col_of_prefix(*old(self), *self, to@);
            } else if to@ == from@ {
                lemma_has_at(*self, from@, n as int);
            } else {
                lemma_has_at(*self, to@, self.participants@.len() - 1);
            }
        }
        Ok(self.messages.len() - 1)
    }

    /// Remove the message at `index`.
    pub fn remove_message(&mut self, index: usize) -> (r: Result<(), FlowError>)
        ensures
            index >= old(self).messages@.len() ==> is_not_found(
                r,
                "message index "@ + decimal(index as nat),
            ) && *final(self) == *old(self),
            index < old(self).messages@.len() ==> r is Ok && final(self).title == old(self).title
                && final(self).participants == old(self).participants && final(self).messages@
                == old(self).messages@.remove(index as int),
    {
        if index >= self.messages.len() {
            let mut m = owned("message index ");
            push_decimal(&mut m, index);
            return Err(FlowError::NotFound(m));
        }
        self.messages.remove(index);
        Ok(())
    }
}

/// Appending participants keeps every existing participant found.
proof fn lemma_col_of_prefix(a: Sequence, b: Sequence, id: Seq<char>)
    requires
        a.has_participant_spec(id),
        b.participants@.len() >= a.participants@.len(),
        b.participants@.take(a.participants@.len() as int) == a.participants@,
    ensures
        b.has_participant_spec(id),
{
    lemma_first_index(participant_ids(a.participants@), id);
    let i = a.col_of_spec(id)->0;
    assert(participant_ids(b.participants@)[i] == participant_ids(a.participants@)[i]);
    lemma_first_index(participant_ids(b.participants@), id);
}

/// A participant at position `i` is found by its id.
proof fn lemma_has_at(s: Sequence, id: Seq<char>, i: int)
    requires
        0 <= i < s.participants@.len(),
        s.participants@[i].id@ == id,
    ensures
        s.has_participant_spec(id),
{
    lemma_first_index(participant_ids(s.participants@), id);
    assert(participant_ids(s.participants@)[i] == id);
}

/// An id that was absent and is present after appending one participant
/// with another id... cannot be: appending a different id keeps it absent.
proof fn lemma_col_of_absent_after_push(a: Sequence, b: Sequence, id: Seq<char>)
    requires
        !a.has_participant_spec(id),
        b.participants@.len() <= a.participants@.len() + 1,
        b.participants@.take(a.participants@.len() as int) == a.participants@,
        b.participants@.len() == a.participants@.len() + 1 ==> b.participants@.last().id@ != id,
        b.participants@.len() >= a.participants@.len(),
    ensures
        !b.has_participant_spec(id),
{
    lemma_first_index(participant_ids(a.participants@), id);
    lemma_first_index(participant_ids(b.participants@), id);
    assert forall|j: int| 0 <= j < b.participants@.len() implies participant_ids(b.participants@)[j]
        != id by {
        if j < a.participants@.len() {
            assert(b.participants@.take(a.participants@.len() as int)[j] == b.participants@[j]);
            assert(participant_ids(a.participants@)[j] == a.participants@[j].id@);
        } else {
            assert(b.participants@[j] == b.participants@.last());
        }
    }
}

impl Default for Sequence {
    fn default() -> (r: Sequence)
        ensures
            r.title is None,
            r.participants@.len() == 0,
            r.messages@.len() == 0,
    {
        Sequence::new()
    }
}

} // verus!
