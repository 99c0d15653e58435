//! `clear <count> [userId]`: which messages to delete.

use vstd::prelude::*;

verus! {

/// A message of the channel: its id and its author's id.
#[derive(Debug)]
pub struct ChannelMessage {
    pub id: u64,
    pub author_id: u64,
}

/// How many messages before the command to fetch: 25 when only one
/// member's messages are cleared, else `count`.
pub fn clear_fetch_limit(delete_count: u64, author: Option<u64>) -> (res: u64)
    ensures
        res == if author.is_some() { 25 } else { delete_count },
{
    match author {
        Some(_) => 25,
        None => delete_count,
    }
}

/// The ids of the messages written by `author`, in order.
pub open spec fn ids_by_author(messages: Seq<ChannelMessage>, author: u64) -> Seq<u64>
    decreases messages.len(),
{
    if messages.len() == 0 {
        seq![]
    } else {
        let rest = ids_by_author(messages.drop_last(), author);
        if messages.last().author_id == author {
            rest.push(messages.last().id)
        } else {
            rest
        }
    }
}

/// The messages that `clear` deletes among those fetched: all of them, or,
/// when a member is named, at most `count` of that member's messages.
pub open spec fn clear_selection_spec(delete_count: u64, author: Option<u64>, messages: Seq<ChannelMessage>) -> Seq<u64> {
    match author {
        None => messages.map_values(|m: ChannelMessage| m.id),
        Some(a) => {
            let mine = ids_by_author(messages, a);
            if mine.len() <= delete_count {
                mine
            } else {
                mine.take(delete_count as int)
            }
        },
    }
}

/// Picks the ids of the messages to delete.
pub fn clear_selection(delete_count: u64, author: Option<u64>, messages: &Vec<ChannelMessage>) -> (res: Vec<u64>)
    ensures
        res@ == clear_selection_spec(delete_count, author, messages@),
{
    let mut out: Vec<u64> = Vec::new();
    let mut count: u64 = 0;
    let mut i: usize = 0;
    while i < messages.len()
        invariant
            i <= messages.len(),
            author.is_some() ==> count as nat == out@.len() && count <= delete_count,
            author matches Some(a) ==> {
                let mine = ids_by_author(messages@.take(i as int), a);
                out@ == if mine.len() <= delete_count { mine } else { mine.take(delete_count as int) }
            },
            author.is_none() ==> out@ == messages@.take(i as int).map_values(|m: ChannelMessage| m.id),
        decreases messages.len() - i,
    {
        assert(messages@.take(i + 1).drop_last() =~= messages@.take(i as int));
        assert(messages@.take(i + 1).last() == messages@[i as int]);
        match author {
            Some(a) => {
                let ghost mine0 = ids_by_author(messages@.take(i as int), a);
                if messages[i].author_id == a {
                    if count < delete_count {
                        out.push(messages[i].id);
                        count = count + 1;
                    } else {
                        assert(mine0.push(messages@[i as int].id).take(delete_count as int) =~= mine0.take(delete_count as int));
                    }
                }
                proof {
                    let mine1 = ids_by_author(messages@.take(i + 1), a);
                    if mine0.len() > delete_count && mine1.len() > delete_count && messages@[i as int].author_id == a {
                        assert(mine1.take(delete_count as int) =~= mine0.take(delete_count as int));
                    }
                }
            },
            None => {
                out.push(messages[i].id);
                assert(out@ =~= messages@.take(i + 1).map_values(|m: ChannelMessage| m.id));
            },
        }
        i = i + 1;
    }
    assert(messages@.take(messages.len() as int) =~= messages@);
    out
}


/// Whether `id` is the id of a message written by `author`.
pub open spec fn written_by(messages: Seq<ChannelMessage>, author: u64, id: u64) -> bool {
    exists|j: int| 0 <= j < messages.len() && #[trigger] messages[j].author_id == author && messages[j].id == id
}

proof fn lemma_ids_by_author(messages: Seq<ChannelMessage>, author: u64)
    ensures
        forall|k: int| 0 <= k < ids_by_author(messages, author).len() ==> written_by(
            messages,
            author,
            #[trigger] ids_by_author(messages, author)[k],
        ),
    decreases messages.len(),
{
    if messages.len() > 0 {
        let init = messages.drop_last();
        lemma_ids_by_author(init, author);
        let r = ids_by_author(messages, author);
        let r0 = ids_by_author(init, author);
        assert forall|k: int| 0 <= k < r.len() implies written_by(messages, author, #[trigger] r[k]) by {
            if k < r0.len() {
                assert(r[k] == r0[k]);
                assert(written_by(init, author, r0[k]));
                let j = choose|j: int| 0 <= j < init.len() && #[trigger] init[j].author_id == author && init[j].id == r0[k];
                assert(messages[j] == init[j]);
            } else {
                let j = messages.len() - 1;
                assert(messages[j].author_id == author);
                assert(r[k] == messages[j].id);
            }
        }
    }
}

/// When a member is named, `clear` deletes at most `count` messages, each
/// one written by that member.
pub proof fn lemma_clear_only_authors_messages(delete_count: u64, author: u64, messages: Seq<ChannelMessage>)
    ensures
        clear_selection_spec(delete_count, Some(author), messages).len() <= delete_count,
        forall|k: int| 0 <= k < clear_selection_spec(delete_count, Some(author), messages).len() ==> written_by(
            messages,
            author,
            #[trigger] clear_selection_spec(delete_count, Some(author), messages)[k],
        ),
{
    lemma_ids_by_author(messages, author);
    let mine = ids_by_author(messages, author);
    let sel = clear_selection_spec(delete_count, Some(author), messages);
    assert forall|k: int| 0 <= k < sel.len() implies written_by(messages, author, #[trigger] sel[k]) by {
        assert(sel[k] == mine[k]);
    }
}

} // verus!
