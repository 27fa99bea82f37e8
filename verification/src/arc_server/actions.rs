//! What the device does in answer to a request.
use vstd::prelude::*;

use crate::protocol::proto_arc::Reply;

verus! {

/// One step of the answer to a request. The steps are carried out in order.
#[derive(Debug)]
pub enum Action {
    /// Send a response to the sender of the request.
    Respond(Reply),
    /// Withdraw the services that advertise a transmit channel under its names.
    WithdrawTx { index: usize },
    /// Give a transmit channel a new name, and keep it.
    RenameTx { index: usize, name: String },
    /// Advertise a transmit channel under its names.
    AdvertiseTx { index: usize },
    /// Give a receive channel a new name, and keep it.
    RenameRx { index: usize, name: String },
    /// Tell the network that the settings of these receive channels changed.
    NotifyChannelChange { indices: Vec<usize> },
    /// Subscribe a receive channel to a channel of another device.
    Subscribe { local_channel_index: usize, tx_channel_name: String, tx_hostname: String },
    /// End the subscription of a receive channel.
    Unsubscribe { local_channel_index: usize },
}

/// What a step does, in terms of plain numbers and texts.
pub enum Step {
    Respond { code: u16, payload: Seq<u8> },
    WithdrawTx { index: nat },
    RenameTx { index: nat, name: Seq<char> },
    AdvertiseTx { index: nat },
    RenameRx { index: nat, name: Seq<char> },
    NotifyChannelChange { indices: Seq<usize> },
    Subscribe { local_channel_index: nat, tx_channel_name: Seq<char>, tx_hostname: Seq<char> },
    Unsubscribe { local_channel_index: nat },
}

impl View for Action {
    type V = Step;

    open spec fn view(&self) -> Step {
        match self {
            Action::Respond(reply) => Step::Respond { code: reply.code, payload: reply.payload@ },
            Action::WithdrawTx { index } => Step::WithdrawTx { index: *index as nat },
            Action::RenameTx { index, name } => Step::RenameTx {
                index: *index as nat,
                name: name@,
            },
            Action::AdvertiseTx { index } => Step::AdvertiseTx { index: *index as nat },
            Action::RenameRx { index, name } => Step::RenameRx {
                index: *index as nat,
                name: name@,
            },
            Action::NotifyChannelChange { indices } => Step::NotifyChannelChange {
                indices: indices@,
            },
            Action::Subscribe { local_channel_index, tx_channel_name, tx_hostname } =>
                Step::Subscribe {
                    local_channel_index: *local_channel_index as nat,
                    tx_channel_name: tx_channel_name@,
                    tx_hostname: tx_hostname@,
                },
            Action::Unsubscribe { local_channel_index } => Step::Unsubscribe {
                local_channel_index: *local_channel_index as nat,
            },
        }
    }
}

/// What a list of steps does.
pub open spec fn steps(actions: Seq<Action>) -> Seq<Step> {
    actions.map_values(|a: Action| a@)
}

/// Adds a step.
pub(crate) fn add_step(actions: &mut Vec<Action>, action: Action)
    ensures
        steps(final(actions)@) == steps(old(actions)@).push(action@),
{
    actions.push(action);
    assert(steps(actions@) =~= steps(old(actions)@).push(action@));
}

/// The list with no step.
pub(crate) fn no_steps() -> (actions: Vec<Action>)
    ensures
        steps(actions@) == Seq::<Step>::empty(),
{
    let actions: Vec<Action> = Vec::new();
    assert(steps(actions@) =~= Seq::<Step>::empty());
    actions
}

/// The list whose only step is to send a response.
pub(crate) fn only_respond(code: u16, payload: Vec<u8>) -> (actions: Vec<Action>)
    ensures
        steps(actions@) == seq![Step::Respond { code, payload: payload@ }],
{
    let mut actions = no_steps();
    add_step(&mut actions, Action::Respond(Reply { code, payload }));
    assert(steps(actions@) =~= seq![Step::Respond { code, payload: payload@ }]);
    actions
}

} // verus!
