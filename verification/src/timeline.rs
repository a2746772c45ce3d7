//! Messages, reactions, and the order that messages are kept in.

use vstd::prelude::*;

verus! {

/// A reaction to a message.
#[derive(Debug)]
pub struct Reaction {
    pub id: String,
    /// The hex event id of the message being reacted to.
    pub reference_id: String,
    /// The hex id of the author.
    pub author_id: String,
    /// The emoji of the reaction.
    pub emoji: String,
}

/// What a [`Reaction`] holds.
pub struct ReactionView {
    pub id: Seq<char>,
    pub reference_id: Seq<char>,
    pub author_id: Seq<char>,
    pub emoji: Seq<char>,
}

impl View for Reaction {
    type V = ReactionView;

    open spec fn view(&self) -> ReactionView {
        ReactionView {
            id: self.id@,
            reference_id: self.reference_id@,
            author_id: self.author_id@,
            emoji: self.emoji@,
        }
    }
}

impl Clone for Reaction {
    fn clone(&self) -> (copy: Self)
        ensures
            copy@ == self@,
    {
        Reaction {
            id: self.id.clone(),
            reference_id: self.reference_id.clone(),
            author_id: self.author_id.clone(),
            emoji: self.emoji.clone(),
        }
    }
}

/// A chat message.
#[derive(Debug)]
pub struct Message {
    pub id: String,
    pub content: String,
    pub reactions: Vec<Reaction>,
    /// When the message was written, in seconds since the epoch.
    pub at: u64,
    pub pending: bool,
    pub failed: bool,
    pub mine: bool,
}

/// What a [`Message`] holds.
pub struct MessageView {
    pub id: Seq<char>,
    pub content: Seq<char>,
    pub reactions: Seq<ReactionView>,
    pub at: u64,
    pub pending: bool,
    pub failed: bool,
    pub mine: bool,
}

/// What each item of a sequence holds, in the same order.
pub open spec fn views<T: View>(items: Seq<T>) -> Seq<T::V> {
    Seq::new(items.len(), |i: int| items[i]@)
}

/// Replacing an item replaces what is held there.
pub broadcast proof fn lemma_views_update<T: View>(items: Seq<T>, i: int, item: T)
    requires
        0 <= i < items.len(),
    ensures
        #[trigger] views(items.update(i, item)) == views(items).update(i, item@),
{
    assert(views(items.update(i, item)) =~= views(items).update(i, item@));
}

/// A further item adds what it holds.
pub broadcast proof fn lemma_views_push<T: View>(items: Seq<T>, item: T)
    ensures
        #[trigger] views(items.push(item)) == views(items).push(item@),
{
    assert(views(items.push(item)) =~= views(items).push(item@));
}

impl View for Message {
    type V = MessageView;

    open spec fn view(&self) -> MessageView {
        MessageView {
            id: self.id@,
            content: self.content@,
            reactions: views(self.reactions@),
            at: self.at,
            pending: self.pending,
            failed: self.failed,
            mine: self.mine,
        }
    }
}

impl Clone for Message {
    fn clone(&self) -> (copy: Self)
        ensures
            copy@ == self@,
    {
        let reactions = self.reactions.clone();
        let copy = Message {
            id: self.id.clone(),
            content: self.content.clone(),
            reactions,
            at: self.at,
            pending: self.pending,
            failed: self.failed,
            mine: self.mine,
        };
        assert(copy@.reactions =~= self@.reactions);
        copy
    }
}

impl MessageView {
    /// Whether a reaction with this id is on the message.
    pub open spec fn has_reaction(self, id: Seq<char>) -> bool {
        exists|i: int| 0 <= i < self.reactions.len() && (#[trigger] self.reactions[i]).id == id
    }

    /// The message with one reaction more, unless it has one with that id.
    pub open spec fn with_reaction(self, reaction: ReactionView) -> MessageView {
        if self.has_reaction(reaction.id) {
            self
        } else {
            MessageView { reactions: self.reactions.push(reaction), ..self }
        }
    }
}

impl Message {
    /// Puts a reaction on the message, unless it has one with that id.
    pub fn add_reaction(&mut self, reaction: Reaction)
        ensures
            final(self)@ == old(self)@.with_reaction(reaction@),
    {
        let mut i: usize = 0;
        while i < self.reactions.len()
            invariant
                i <= self.reactions.len(),
                *self == *old(self),
                forall|j: int| 0 <= j < i ==> (#[trigger] self@.reactions[j]).id != reaction@.id,
            decreases self.reactions.len() - i,
        {
            if self.reactions[i].id == reaction.id {
                assert(self@.reactions[i as int].id == reaction@.id);
                return;
            }
            i = i + 1;
        }
        broadcast use lemma_views_push;

        self.reactions.push(reaction);
    }
}

/// Whether messages stand in the order of their times.
pub open spec fn is_chronological(messages: Seq<MessageView>) -> bool {
    forall|i: int, j: int|
        0 <= i <= j < messages.len() ==> (#[trigger] messages[i]).at <= (
        #[trigger] messages[j]).at
}

/// The messages with one more among them, which stands before the later ones at the end and
/// behind all others.
pub open spec fn insert_by_time(messages: Seq<MessageView>, message: MessageView) -> Seq<
    MessageView,
>
    decreases messages.len(),
{
    if messages.len() == 0 || messages.last().at <= message.at {
        messages.push(message)
    } else {
        insert_by_time(messages.drop_last(), message).push(messages.last())
    }
}

/// The messages in the order of their times, those of one time in the order they had.
pub open spec fn chronological(messages: Seq<MessageView>) -> Seq<MessageView>
    decreases messages.len(),
{
    if messages.len() == 0 {
        messages
    } else {
        insert_by_time(chronological(messages.drop_last()), messages.last())
    }
}

/// Inserting by time is inserting where the earlier messages end.
pub proof fn lemma_insert_position(messages: Seq<MessageView>, message: MessageView, place: int)
    requires
        0 <= place <= messages.len(),
        place == 0 || messages[place - 1].at <= message.at,
        forall|j: int| place <= j < messages.len() ==> (#[trigger] messages[j]).at > message.at,
    ensures
        insert_by_time(messages, message) == messages.insert(place, message),
    decreases messages.len(),
{
    if place == messages.len() {
        assert(messages.insert(place, message) =~= messages.push(message));
    } else {
        let front = messages.drop_last();
        lemma_insert_position(front, message, place);
        assert(messages.insert(place, message) =~= front.insert(place, message).push(
            messages.last(),
        ));
    }
}

/// A message that is inserted is there once more, and all others are there as before.
proof fn lemma_insert_by_time(messages: Seq<MessageView>, message: MessageView)
    ensures
        insert_by_time(messages, message).to_multiset() == messages.to_multiset().insert(message),
        is_chronological(messages) ==> is_chronological(insert_by_time(messages, message)),
    decreases messages.len(),
{
    broadcast use vstd::seq_lib::group_to_multiset_ensures;

    if messages.len() > 0 && messages.last().at > message.at {
        let front = messages.drop_last();
        let longer = insert_by_time(front, message);
        lemma_insert_by_time(front, message);
        assert(messages =~= front.push(messages.last()));
        assert(messages.to_multiset() =~= front.to_multiset().insert(messages.last()));
        assert(longer.push(messages.last()).to_multiset() =~= messages.to_multiset().insert(
            message,
        ));
        if is_chronological(messages) {
            assert forall|i: int| 0 <= i < longer.len() implies (#[trigger] longer[i]).at
                <= messages.last().at by {
                assert(longer.to_multiset().count(longer[i]) > 0);
                assert(front.to_multiset().insert(message).count(longer[i]) > 0);
                if longer[i] != message {
                    assert(front.to_multiset().count(longer[i]) > 0);
                    let j = choose|j: int| 0 <= j < front.len() && front[j] == longer[i];
                    assert(messages[j] == longer[i]);
                }
            }
        }
    }
}

/// A chat is put in the order of time, and holds just the messages that it held.
pub proof fn chronological_sorts(messages: Seq<MessageView>)
    ensures
        is_chronological(chronological(messages)),
        chronological(messages).to_multiset() == messages.to_multiset(),
        chronological(messages).len() == messages.len(),
    decreases messages.len(),
{
    broadcast use vstd::seq_lib::group_to_multiset_ensures;

    if messages.len() > 0 {
        let front = messages.drop_last();
        chronological_sorts(front);
        lemma_insert_by_time(chronological(front), messages.last());
        assert(messages =~= front.push(messages.last()));
    }
    assert(chronological(messages).to_multiset().len() == messages.to_multiset().len());
}

/// The messages of one time.
pub open spec fn written_at(messages: Seq<MessageView>, at: u64) -> Seq<MessageView> {
    messages.filter(|message: MessageView| message.at == at)
}

/// A message that is inserted stands behind those of its time.
proof fn lemma_insert_is_stable(messages: Seq<MessageView>, message: MessageView, at: u64)
    ensures
        written_at(insert_by_time(messages, message), at) == written_at(messages.push(message), at),
    decreases messages.len(),
{
    if messages.len() > 0 && messages.last().at > message.at {
        let front = messages.drop_last();
        let last = messages.last();
        lemma_insert_is_stable(front, message, at);
        lemma_filter_push(insert_by_time(front, message), last, at);
        lemma_filter_push(front, message, at);
        lemma_filter_push(front, last, at);
        assert(messages =~= front.push(last));
        lemma_filter_push(messages, message, at);
    }
}

/// One message more is one message more of its time.
proof fn lemma_filter_push(messages: Seq<MessageView>, message: MessageView, at: u64)
    ensures
        written_at(messages.push(message), at) == if message.at == at {
            written_at(messages, at).push(message)
        } else {
            written_at(messages, at)
        },
{
    reveal(Seq::filter);
    assert(messages.push(message).drop_last() =~= messages);
}

/// Messages of one time keep their order.
pub proof fn chronological_is_stable(messages: Seq<MessageView>, at: u64)
    ensures
        written_at(chronological(messages), at) == written_at(messages, at),
    decreases messages.len(),
{
    if messages.len() > 0 {
        let front = messages.drop_last();
        chronological_is_stable(front, at);
        lemma_insert_is_stable(chronological(front), messages.last(), at);
        lemma_filter_push(chronological(front), messages.last(), at);
        lemma_filter_push(front, messages.last(), at);
        assert(messages =~= front.push(messages.last()));
    }
}

/// Messages that stand in the order of time stay as they are.
pub proof fn chronological_keeps_order(messages: Seq<MessageView>)
    requires
        is_chronological(messages),
    ensures
        chronological(messages) == messages,
    decreases messages.len(),
{
    if messages.len() > 0 {
        let front = messages.drop_last();
        chronological_keeps_order(front);
        if front.len() > 0 {
            assert(messages[front.len() - 1].at <= messages[front.len() as int].at);
        }
        assert(messages =~= front.push(messages.last()));
    }
}

/// Two messages of different times can be inserted in either order.
pub proof fn insertions_commute(messages: Seq<MessageView>, a: MessageView, b: MessageView)
    requires
        a.at != b.at,
    ensures
        insert_by_time(insert_by_time(messages, a), b) == insert_by_time(
            insert_by_time(messages, b),
            a,
        ),
    decreases messages.len(),
{
    reveal_with_fuel(insert_by_time, 3);
    if messages.len() > 0 {
        insertions_commute(messages.drop_last(), a, b);
    }
    assert(messages.push(a).drop_last() =~= messages);
    assert(messages.push(b).drop_last() =~= messages);
    if messages.len() > 0 {
        let front = messages.drop_last();
        assert(insert_by_time(front, a).push(messages.last()).drop_last() =~= insert_by_time(
            front,
            a,
        ));
        assert(insert_by_time(front, b).push(messages.last()).drop_last() =~= insert_by_time(
            front,
            b,
        ));
    }
}

/// Puts messages in the order of their times. Those of one time keep their order.
pub fn sort_by_time(messages: &mut Vec<Message>)
    ensures
        views(final(messages)@) == chronological(views(old(messages)@)),
{
    let ghost start = messages@;
    let count: usize = messages.len();
    let mut done: usize = 0;
    assert(views(messages@).take(0) =~= chronological(views(start).take(0)));
    while done < count
        invariant
            done <= count,
            messages@.len() == count,
            start.len() == count,
            views(messages@).take(done as int) == chronological(views(start).take(done as int)),
            forall|j: int| done <= j < count ==> messages@[j] == #[trigger] start[j],
        decreases count - done,
    {
        let ghost before = views(messages@).take(done as int);
        let mut place: usize = done;
        while place > 0 && messages[place - 1].at > messages[done].at
            invariant
                place <= done < count,
                messages@.len() == count,
                before == views(messages@).take(done as int),
                forall|j: int|
                    place <= j < done ==> (#[trigger] before[j]).at > messages@[done as int].at,
            decreases place,
        {
            assert(before[place - 1] == messages@[place - 1]@);
            place = place - 1;
        }
        proof {
            let message = messages@[done as int]@;
            if place > 0 {
                assert(before[place - 1] == messages@[place - 1]@);
            }
            lemma_insert_position(before, message, place as int);
            let next = views(start).take(done + 1);
            assert(next.drop_last() =~= views(start).take(done as int));
            assert(next.last() == message);
        }
        if place < done {
            let message = messages.remove(done);
            messages.insert(place, message);
        }
        assert(views(messages@).take(done + 1) =~= before.insert(
            place as int,
            start[done as int]@,
        ));
        done = done + 1;
    }
    assert(views(messages@).take(count as int) =~= views(messages@));
    assert(views(start).take(count as int) =~= views(start));
}

} // verus!
