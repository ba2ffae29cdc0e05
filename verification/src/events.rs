//! Notifications.
//!
//! Each successful change publishes one event. Publishing is one-way: nothing
//! comes back from the channel.

use crate::address::Address;
use crate::host::Host;
use vstd::prelude::*;

verus! {

/// A notification.
#[derive(Debug, PartialEq, Eq)]
pub enum Event {
    /// `address` registered `username`.
    ProfileRegistered { address: Address, username: Vec<u8> },
    /// `address` set the field `field`.
    ProfileUpdated { address: Address, field: String },
    /// `address` changed its display name.
    DisplayNameChanged { address: Address },
    /// `address` deleted its profile.
    ProfileDeleted { address: Address },
    /// The administrator banned the profile of `address`.
    ProfileBanned { address: Address },
    /// `username` passed from `from` to `to`.
    UsernameTransferred { username: Vec<u8>, from: Address, to: Address },
    /// The administrator reserved `username`.
    UsernameReserved { username: Vec<u8> },
    /// The administrator released the reservation of `username`.
    UsernameUnreserved { username: Vec<u8> },
}

/// What an event holds.
pub enum EventView {
    ProfileRegistered { address: Seq<u8>, username: Seq<u8> },
    ProfileUpdated { address: Seq<u8>, field: Seq<char> },
    DisplayNameChanged { address: Seq<u8> },
    ProfileDeleted { address: Seq<u8> },
    ProfileBanned { address: Seq<u8> },
    UsernameTransferred { username: Seq<u8>, from: Seq<u8>, to: Seq<u8> },
    UsernameReserved { username: Seq<u8> },
    UsernameUnreserved { username: Seq<u8> },
}

impl View for Event {
    type V = EventView;

    open spec fn view(&self) -> EventView {
        match self {
            Event::ProfileRegistered { address, username } => EventView::ProfileRegistered {
                address: address@,
                username: username@,
            },
            Event::ProfileUpdated { address, field } => EventView::ProfileUpdated {
                address: address@,
                field: field@,
            },
            Event::DisplayNameChanged { address } => EventView::DisplayNameChanged {
                address: address@,
            },
            Event::ProfileDeleted { address } => EventView::ProfileDeleted { address: address@ },
            Event::ProfileBanned { address } => EventView::ProfileBanned { address: address@ },
            Event::UsernameTransferred { username, from, to } => EventView::UsernameTransferred {
                username: username@,
                from: from@,
                to: to@,
            },
            Event::UsernameReserved { username } => EventView::UsernameReserved {
                username: username@,
            },
            Event::UsernameUnreserved { username } => EventView::UsernameUnreserved {
                username: username@,
            },
        }
    }
}

impl Event {
    /// The topic under which the event is published.
    pub fn topic(&self) -> (topic: &'static str)
        ensures
            topic@ == match self@ {
                EventView::ProfileRegistered { .. } => "profile_registered"@,
                EventView::ProfileUpdated { .. } => "profile_updated"@,
                EventView::DisplayNameChanged { .. } => "display_name_changed"@,
                EventView::ProfileDeleted { .. } => "profile_deleted"@,
                EventView::ProfileBanned { .. } => "profile_banned"@,
                EventView::UsernameTransferred { .. } => "username_transferred"@,
                EventView::UsernameReserved { .. } => "username_reserved"@,
                EventView::UsernameUnreserved { .. } => "username_unreserved"@,
            },
    {
        match self {
            Event::ProfileRegistered { .. } => "profile_registered",
            Event::ProfileUpdated { .. } => "profile_updated",
            Event::DisplayNameChanged { .. } => "display_name_changed",
            Event::ProfileDeleted { .. } => "profile_deleted",
            Event::ProfileBanned { .. } => "profile_banned",
            Event::UsernameTransferred { .. } => "username_transferred",
            Event::UsernameReserved { .. } => "username_reserved",
            Event::UsernameUnreserved { .. } => "username_unreserved",
        }
    }
}

/// Publishes that `address` registered `username`.
pub fn emit_profile_registered<H: Host>(env: &mut H, address: &Address, username: &Vec<u8>)
    ensures
        final(env)@ == old(env)@.emit(
            EventView::ProfileRegistered { address: address@, username: username@ },
        ),
{
    env.publish(Event::ProfileRegistered { address: address.clone(), username: username.clone() });
}

/// Publishes that `address` set the field `field`.
pub fn emit_profile_updated<H: Host>(env: &mut H, address: &Address, field: &String)
    ensures
        final(env)@ == old(env)@.emit(
            EventView::ProfileUpdated { address: address@, field: field@ },
        ),
{
    env.publish(Event::ProfileUpdated { address: address.clone(), field: field.clone() });
}

/// Publishes that `address` changed its display name.
pub fn emit_display_name_changed<H: Host>(env: &mut H, address: &Address)
    ensures
        final(env)@ == old(env)@.emit(EventView::DisplayNameChanged { address: address@ }),
{
    env.publish(Event::DisplayNameChanged { address: address.clone() });
}

/// Publishes that `address` deleted its profile.
pub fn emit_profile_deleted<H: Host>(env: &mut H, address: &Address)
    ensures
        final(env)@ == old(env)@.emit(EventView::ProfileDeleted { address: address@ }),
{
    env.publish(Event::ProfileDeleted { address: address.clone() });
}

/// Publishes that the administrator banned the profile of `address`.
pub fn emit_profile_banned<H: Host>(env: &mut H, address: &Address)
    ensures
        final(env)@ == old(env)@.emit(EventView::ProfileBanned { address: address@ }),
{
    env.publish(Event::ProfileBanned { address: address.clone() });
}

/// Publishes that `username` passed from `from` to `to`.
pub fn emit_username_transferred<H: Host>(
    env: &mut H,
    username: &Vec<u8>,
    from: &Address,
    to: &Address,
)
    ensures
        final(env)@ == old(env)@.emit(
            EventView::UsernameTransferred { username: username@, from: from@, to: to@ },
        ),
{
    env.publish(
        Event::UsernameTransferred {
            username: username.clone(),
            from: from.clone(),
            to: to.clone(),
        },
    );
}

/// Publishes that the administrator reserved `username`.
pub fn emit_username_reserved<H: Host>(env: &mut H, username: &Vec<u8>)
    ensures
        final(env)@ == old(env)@.emit(EventView::UsernameReserved { username: username@ }),
{
    env.publish(Event::UsernameReserved { username: username.clone() });
}

/// Publishes that the administrator released the reservation of `username`.
pub fn emit_username_unreserved<H: Host>(env: &mut H, username: &Vec<u8>)
    ensures
        final(env)@ == old(env)@.emit(EventView::UsernameUnreserved { username: username@ }),
{
    env.publish(Event::UsernameUnreserved { username: username.clone() });
}

} // verus!
