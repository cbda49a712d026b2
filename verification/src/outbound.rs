//! Messages an agent sends to a channel on its own: where they go when the
//! agent names no recipient, and what the agent is told afterwards.

use crate::domain::{opt_text, ChannelId, Task, TaskId};
use crate::orchestrator::{find_task, lemma_task_position_pub, task_index};
use vstd::prelude::*;

verus! {

/// Where a task's messages are delivered: its routing output channel, else
/// the channel it came from.
pub open spec fn delivery_channel(t: Task) -> Option<ChannelId> {
    match t.output_channel {
        Some(c) => Some(c),
        None => t.origin_channel,
    }
}

/// The delivery channel of the task with the id, if there is such a task.
pub open spec fn task_delivery(tasks: Seq<Task>, id: TaskId) -> Option<ChannelId> {
    match find_task(tasks, id) {
        Some(t) => delivery_channel(t),
        None => None,
    }
}

/// Recipient and thread of an outgoing message.
#[derive(Debug)]
pub struct OutboundTarget {
    pub recipient: String,
    pub thread_id: Option<String>,
}

/// How sending went, as the agent is told.
#[derive(Debug)]
pub enum ChannelSendReport {
    Queued { channel: String },
    Failed { error: String },
}

/// Addresses a message of task `task_id`: to `recipient` when one is given,
/// else to the user of the task's delivery channel; the thread is that of
/// the delivery channel. With neither, the message cannot be sent.
pub fn plan_channel_send(tasks: &[Task], task_id: TaskId, recipient: &Option<String>) -> (r: Option<OutboundTarget>)
    ensures
        ({
            let ch = task_delivery(tasks@, task_id);
            let thread = match ch {
                Some(c) => opt_text(c.thread_id),
                None => None,
            };
            match *recipient {
                Some(x) => r matches Some(t) && t.recipient@ == x@ && opt_text(t.thread_id) == thread,
                None => match ch {
                    Some(c) => r matches Some(t) && t.recipient@ == c.user_id@ && opt_text(t.thread_id)
                        == thread,
                    None => r is None,
                },
            }
        }),
{
    proof {
        lemma_task_position_pub(tasks@, task_id);
    }
    let channel: Option<&ChannelId> = match task_index(tasks, task_id) {
        Some(i) => match &tasks[i].output_channel {
            Some(c) => Some(c),
            None => match &tasks[i].origin_channel {
                Some(c) => Some(c),
                None => None,
            },
        },
        None => None,
    };
    let thread_id = match channel {
        Some(c) => match &c.thread_id {
            Some(t) => Some(t.clone()),
            None => None,
        },
        None => None,
    };
    match recipient {
        Some(x) => Some(OutboundTarget { recipient: x.clone(), thread_id }),
        None => match channel {
            Some(c) => Some(OutboundTarget { recipient: c.user_id.clone(), thread_id }),
            None => None,
        },
    }
}

/// The text and report the agent gets for a send on `channel`: queued, or
/// failed with the channel's error.
pub fn channel_send_result(channel: &str, outcome: Result<(), String>) -> (r: (String, ChannelSendReport))
    ensures
        match outcome {
            Ok(()) => {
                &&& r.0@ == "channel_send queued: "@ + channel@
                &&& r.1 matches ChannelSendReport::Queued { channel: c }
                &&& c@ == channel@
            },
            Err(e) => {
                &&& r.0@ == "channel_send failed: "@ + e@
                &&& r.1 matches ChannelSendReport::Failed { error: x }
                &&& x@ == e@
            },
        },
{
    match outcome {
        Ok(()) => (
            crate::text::concat2("channel_send queued: ", channel),
            ChannelSendReport::Queued { channel: channel.to_owned() },
        ),
        Err(e) => (
            crate::text::concat2("channel_send failed: ", e.as_str()),
            ChannelSendReport::Failed { error: e },
        ),
    }
}

/// With no recipient named, a message goes to the task's routing output
/// channel when it has one, else to the channel the task came from; a
/// missing task has nowhere to send.
pub proof fn lemma_delivery_prefers_output_channel(tasks: Seq<Task>, id: TaskId)
    ensures
        match find_task(tasks, id) {
            None => task_delivery(tasks, id) is None,
            Some(t) => match t.output_channel {
                Some(c) => task_delivery(tasks, id) == Some(c),
                None => task_delivery(tasks, id) == t.origin_channel,
            },
        },
{
}

} // verus!
