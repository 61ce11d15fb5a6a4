use vstd::prelude::*;

use crate::ChatMessage;
use crate::registry::SessionRegistry;

verus! {

/// How `route` relates the registry before and after the call. When the
/// destination has a live session, exactly one message is appended to its
/// queue, carrying the authenticated sender in `from` — whatever the wire
/// frame claimed — and the given destination and content; every other
/// session is untouched. When it has none, the registry is untouched: the
/// message is dropped silently and no error surfaces to the sender.
pub open spec fn route_post(
    pre: SessionRegistry,
    post: SessionRegistry,
    sender: Seq<char>,
    to: Seq<char>,
    content: Seq<char>,
) -> bool {
    if pre.has_session(to) {
        &&& post.has_session(to)
        &&& post.queue_of(to).len() == pre.queue_of(to).len() + 1
        &&& post.queue_of(to).drop_last() == pre.queue_of(to)
        &&& post.queue_of(to).last().from@ == sender
        &&& post.queue_of(to).last().to@ == to
        &&& post.queue_of(to).last().content@ == content
        &&& SessionRegistry::others_unchanged(pre, post, to)
    } else {
        post == pre
    }
}

/// Delivery is FIFO: two messages routed to the same connected recipient
/// stand in its queue in submission order, behind everything already
/// queued, and the write path drains that queue from the front. No
/// ordering is promised across different recipients.
pub proof fn lemma_delivery_order(
    pre: SessionRegistry,
    mid: SessionRegistry,
    post: SessionRegistry,
    sender: Seq<char>,
    to: Seq<char>,
    content1: Seq<char>,
    content2: Seq<char>,
)
    requires
        pre.has_session(to),
        route_post(pre, mid, sender, to, content1),
        route_post(mid, post, sender, to, content2),
    ensures
        post.queue_of(to).len() == pre.queue_of(to).len() + 2,
        post.queue_of(to)[post.queue_of(to).len() - 2].content@ == content1,
        post.queue_of(to)[post.queue_of(to).len() - 2].from@ == sender,
        post.queue_of(to).last().content@ == content2,
        post.queue_of(to).last().from@ == sender,
        forall|k: int|
            0 <= k < pre.queue_of(to).len() ==> (#[trigger] post.queue_of(to)[k]) == pre.queue_of(
                to,
            )[k],
{
    let q = post.queue_of(to);
    assert(q[q.len() - 2] == q.drop_last()[q.len() - 2]);
    assert forall|k: int| 0 <= k < pre.queue_of(to).len() implies (#[trigger] post.queue_of(to)[k])
        == pre.queue_of(to)[k] by {
        assert(post.queue_of(to)[k] == post.queue_of(to).drop_last()[k]);
        assert(mid.queue_of(to)[k] == mid.queue_of(to).drop_last()[k]);
    }
}

/// Routes one message from an authenticated sender: overwrites the
/// message's `from` field with the sender's username unconditionally, then
/// hands the message to the destination's live session. An unknown or
/// offline destination is reported to the caller by the returned flag
/// only, for the operator's log: the sender is never notified and never
/// sees an error.
pub fn route(sender: &String, message: ChatMessage, registry: &mut SessionRegistry) -> (delivered:
    bool)
    requires
        old(registry).wf(),
    ensures
        final(registry).wf(),
        route_post(
            *old(registry),
            *final(registry),
            sender@,
            message.to@,
            message.content@,
        ),
        delivered == old(registry).has_session(message.to@),
{
    let to = message.to.clone();
    let stamped = ChatMessage {
        from: sender.clone(),
        to: message.to,
        content: message.content,
    };
    let ghost pre = *registry;
    let r = registry.deliver(&to, stamped);
    proof {
        if pre.has_session(to@) {
            assert(registry.queue_of(to@).drop_last() =~= pre.queue_of(to@));
        }
    }
    r.is_ok()
}

} // verus!
