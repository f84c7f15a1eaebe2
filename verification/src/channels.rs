use vstd::prelude::*;

use crate::text::str_eq;

verus! {

/// What a message from a websocket client asks for.
#[derive(Debug)]
pub enum ChannelCommand {
    Subscribe(String),
    Unsubscribe(String),
    Ignore,
}

/// Read a client message from its "action" and "channel" fields: an action
/// "subscribe" or "unsubscribe" with a channel name asks for that; anything
/// else is ignored.
pub fn classify_message(action: Option<&str>, channel: Option<&str>) -> (res: ChannelCommand)
    ensures
        match (action, channel) {
            (Some(a), Some(c)) => if a@ == "subscribe"@ {
                res matches ChannelCommand::Subscribe(n) && n@ == c@
            } else if a@ == "unsubscribe"@ {
                res matches ChannelCommand::Unsubscribe(n) && n@ == c@
            } else {
                res is Ignore
            },
            _ => res is Ignore,
        },
{
    match (action, channel) {
        (Some(a), Some(c)) => {
            if str_eq(a, "subscribe") {
                ChannelCommand::Subscribe(c.to_string())
            } else if str_eq(a, "unsubscribe") {
                ChannelCommand::Unsubscribe(c.to_string())
            } else {
                ChannelCommand::Ignore
            }
        },
        _ => ChannelCommand::Ignore,
    }
}

/// The channels one websocket client has subscribed to, in order.
pub struct Subscriptions {
    pub channels: Vec<String>,
}

/// The names without those equal to `name`.
pub open spec fn names_without(names: Seq<String>, name: Seq<char>) -> Seq<String>
    decreases names.len(),
{
    if names.len() == 0 {
        Seq::empty()
    } else {
        let rest = names_without(names.drop_last(), name);
        if names.last()@ != name {
            rest.push(names.last())
        } else {
            rest
        }
    }
}

impl Subscriptions {
    /// No subscriptions.
    pub fn new() -> (res: Subscriptions)
        ensures
            res.channels@.len() == 0,
    {
        Subscriptions { channels: Vec::new() }
    }

    /// Note a subscription to `name`.
    pub fn add(&mut self, name: String)
        ensures
            final(self).channels@ == old(self).channels@.push(name),
    {
        self.channels.push(name);
    }

    /// Forget every subscription to `name`.
    pub fn remove(&mut self, name: &str)
        ensures
            final(self).channels@ == names_without(old(self).channels@, name@),
    {
        let mut old_names: Vec<String> = Vec::new();
        std::mem::swap(&mut self.channels, &mut old_names);
        let ghost orig = old_names@;
        let n = old_names.len();
        let mut i: usize = 0;
        while i < n
            invariant
                n == orig.len(),
                i <= n,
                old_names@.len() == n,
                forall|j: int| i <= j < n ==> #[trigger] old_names@[j] == orig[j],
                self.channels@ == names_without(orig.subrange(0, i as int), name@),
            decreases n - i,
        {
            assert(orig.subrange(0, i + 1).drop_last() =~= orig.subrange(0, i as int));
            let mut s = String::new();
            old_names.set_and_swap(i, &mut s);
            if !str_eq(s.as_str(), name) {
                self.channels.push(s);
            }
            i = i + 1;
        }
        assert(orig.subrange(0, n as int) =~= orig);
    }
}

} // verus!
