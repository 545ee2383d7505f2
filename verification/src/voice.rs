//! Who is in which voice channel, and when that is worth a notice.

use crate::text::{decimal, lex_less, push_decimal, text_less};
use crate::werewolf::messages::{mention_text, push_mention};
use vstd::prelude::*;

verus! {

/// The voice channel whose visitors are no reason for a notice.
pub const BIBLIOTHEK: u64 = 401654567819018252;

/// Somebody in a voice channel.
#[derive(Debug, Clone, PartialEq, Eq)]
pub struct VoiceMember {
    pub id: u64,
    pub name: String,
    pub discriminator: u16,
}

/// A voice channel with those who are in it.
#[derive(Debug, Clone, PartialEq, Eq)]
pub struct VoiceChannel {
    pub id: u64,
    pub name: String,
    pub members: Vec<VoiceMember>,
}

/// A voice channel, as a mathematical value.
pub struct ChannelModel {
    pub id: u64,
    pub name: Seq<char>,
    pub members: Seq<VoiceMember>,
}

impl View for VoiceChannel {
    type V = ChannelModel;

    open spec fn view(&self) -> ChannelModel {
        ChannelModel { id: self.id, name: self.name@, members: self.members@ }
    }
}

/// What each of the channels is.
pub open spec fn channel_views(channels: Seq<VoiceChannel>) -> Seq<ChannelModel> {
    Seq::new(channels.len(), |i: int| channels[i]@)
}

/// `a` is listed before `b`: by name, and by discriminator under one name.
pub open spec fn listed_before(a: VoiceMember, b: VoiceMember) -> bool {
    lex_less(a.name@, b.name@) || (a.name@ == b.name@ && a.discriminator < b.discriminator)
}

/// The two are listed in one place: under one name and discriminator.
pub open spec fn same_place(a: VoiceMember, b: VoiceMember) -> bool {
    a.name@ == b.name@ && a.discriminator == b.discriminator
}

/// The number of members at the start of the list who are listed before
/// `user`.
pub open spec fn rank(members: Seq<VoiceMember>, user: VoiceMember) -> int
    decreases members.len(),
{
    if members.len() == 0 || !listed_before(members[0], user) {
        0
    } else {
        1 + rank(members.drop_first(), user)
    }
}

/// The list with `user` in his place: instead of who was listed there, or
/// before who is listed behind him.
pub open spec fn seated(members: Seq<VoiceMember>, user: VoiceMember) -> Seq<VoiceMember> {
    let at = rank(members, user);
    if at < members.len() && same_place(members[at], user) {
        members.update(at, user)
    } else {
        members.insert(at, user)
    }
}

/// The list without the member with this id.
pub open spec fn left(members: Seq<VoiceMember>, id: u64) -> Seq<VoiceMember>
    decreases members.len(),
{
    if members.len() == 0 {
        Seq::empty()
    } else if members[0].id == id {
        left(members.drop_first(), id)
    } else {
        seq![members[0]] + left(members.drop_first(), id)
    }
}

/// The channels after the member with this id has left them all: a channel
/// that he leaves empty is gone.
pub open spec fn emptied(channels: Seq<ChannelModel>, id: u64) -> Seq<ChannelModel>
    decreases channels.len(),
{
    if channels.len() == 0 {
        Seq::empty()
    } else {
        let rest = emptied(channels.drop_first(), id);
        let members = left(channels[0].members, id);
        if members.len() == 0 {
            rest
        } else {
            seq![ChannelModel { members, ..channels[0] }] + rest
        }
    }
}

/// The number of channels at the start of the list whose id is less.
pub open spec fn place(channels: Seq<ChannelModel>, id: u64) -> int
    decreases channels.len(),
{
    if channels.len() == 0 || channels[0].id >= id {
        0
    } else {
        1 + place(channels.drop_first(), id)
    }
}

/// The channels after `user` has entered the channel with this id, which
/// is listed under `name` where it was not listed before.
pub open spec fn entered(
    channels: Seq<ChannelModel>,
    id: u64,
    name: Seq<char>,
    user: VoiceMember,
) -> Seq<ChannelModel> {
    let at = place(channels, id);
    if at < channels.len() && channels[at].id == id {
        channels.update(
            at,
            ChannelModel { members: seated(channels[at].members, user), ..channels[at] },
        )
    } else {
        channels.insert(at, ChannelModel { id, name, members: seq![user] })
    }
}

/// Nobody is in a voice channel other than the one that does not count.
pub open spec fn quiet(channels: Seq<ChannelModel>, ignored: u64) -> bool {
    forall|i: int|
        0 <= i < channels.len() ==> (#[trigger] channels[i]).id == ignored
            || channels[i].members.len() == 0
}

/// The channels after `user` has moved: out of every channel, and into the
/// channel that he is in now, if any.
pub open spec fn moved(
    channels: Seq<ChannelModel>,
    user: VoiceMember,
    now_in: Option<(u64, Seq<char>)>,
) -> Seq<ChannelModel> {
    match now_in {
        Some((id, name)) => entered(emptied(channels, user.id), id, name, user),
        None => emptied(channels, user.id),
    }
}

fn before(a: &VoiceMember, b: &VoiceMember) -> (yes: bool)
    ensures
        yes == listed_before(*a, *b),
{
    text_less(a.name.as_str(), b.name.as_str()) || (crate::text::same_text(
        a.name.as_str(),
        b.name.as_str(),
    ) && a.discriminator < b.discriminator)
}

/// Lists `user` in his place among the members.
fn seat(members: &mut Vec<VoiceMember>, user: VoiceMember)
    ensures
        final(members)@ == seated(old(members)@, user),
{
    let mut at: usize = 0;
    assert(members@.skip(0) =~= members@);
    while at < members.len() && before(&members[at], &user)
        invariant
            at <= members.len(),
            rank(members@, user) == at + rank(members@.skip(at as int), user),
        decreases members.len() - at,
    {
        assert(members@.skip(at as int)[0] == members@[at as int]);
        assert(members@.skip(at as int).drop_first() =~= members@.skip(at as int + 1));
        at += 1;
    }
    proof {
        if at < members.len() {
            assert(members@.skip(at as int)[0] == members@[at as int]);
        }
    }
    if at < members.len() && crate::text::same_text(
        members[at].name.as_str(),
        user.name.as_str(),
    ) && members[at].discriminator == user.discriminator {
        members.set(at, user);
    } else {
        members.insert(at, user);
    }
}

/// Takes the member with this id out of the list.
fn leave(members: Vec<VoiceMember>, id: u64) -> (out: Vec<VoiceMember>)
    ensures
        out@ == left(members@, id),
{
    let mut rest = members;
    let mut out: Vec<VoiceMember> = Vec::new();
    assert(out@ + left(rest@, id) =~= left(members@, id));
    while rest.len() > 0
        invariant
            out@ + left(rest@, id) == left(members@, id),
        decreases rest.len(),
    {
        let ghost before = rest@;
        let ghost kept = out@;
        let member = rest.remove(0);
        assert(rest@ =~= before.drop_first());
        if member.id != id {
            out.push(member);
            assert(out@ + left(rest@, id) =~= kept + (seq![member] + left(rest@, id)));
        }
    }
    assert(out@ + left(rest@, id) =~= out@);
    out
}

/// Who is in which voice channel of the group.
#[derive(Debug)]
pub struct VoiceStates {
    channels: Vec<VoiceChannel>,
}

impl View for VoiceStates {
    type V = Seq<ChannelModel>;

    closed spec fn view(&self) -> Seq<ChannelModel> {
        channel_views(self.channels@)
    }
}

impl VoiceStates {
    /// Nobody is in any voice channel.
    pub fn new() -> (states: VoiceStates)
        ensures
            states@ == Seq::<ChannelModel>::empty(),
    {
        let states = VoiceStates { channels: Vec::new() };
        assert(states@ =~= Seq::<ChannelModel>::empty());
        states
    }

    /// The channels in which somebody is, in the order of their ids.
    pub fn channels(&self) -> (channels: &Vec<VoiceChannel>)
        ensures
            channel_views(channels@) == self@,
    {
        &self.channels
    }

    /// Whether nobody is in a voice channel other than `ignored`.
    pub fn is_quiet(&self, ignored: u64) -> (yes: bool)
        ensures
            yes == quiet(self@, ignored),
    {
        let mut i: usize = 0;
        while i < self.channels.len()
            invariant
                i <= self.channels@.len(),
                forall|k: int|
                    0 <= k < i ==> (#[trigger] self@[k]).id == ignored || self@[k].members.len()
                        == 0,
            decreases self.channels@.len() - i,
        {
            if self.channels[i].id != ignored && self.channels[i].members.len() > 0 {
                assert(self@[i as int].id != ignored);
                return false;
            }
            i += 1;
        }
        true
    }

    /// Takes the member with this id out of every channel; a channel that
    /// he leaves empty is listed no more.
    fn depart(&mut self, id: u64)
        ensures
            final(self)@ == emptied(old(self)@, id),
    {
        let mut rest: Vec<VoiceChannel> = Vec::new();
        std::mem::swap(&mut rest, &mut self.channels);
        let mut out: Vec<VoiceChannel> = Vec::new();
        assert(channel_views(out@) + emptied(channel_views(rest@), id) =~= emptied(old(self)@, id));
        while rest.len() > 0
            invariant
                channel_views(out@) + emptied(channel_views(rest@), id) == emptied(old(self)@, id),
            decreases rest.len(),
        {
            let ghost before = channel_views(rest@);
            let ghost kept = channel_views(out@);
            let channel = rest.remove(0);
            assert(channel_views(rest@) =~= before.drop_first());
            assert(before[0] == channel@);
            let VoiceChannel { id: channel_id, name, members } = channel;
            let members = leave(members, id);
            if members.len() > 0 {
                let ghost model = ChannelModel { id: channel_id, name: name@, members: members@ };
                out.push(VoiceChannel { id: channel_id, name, members });
                assert(channel_views(out@) =~= kept.push(model));
                assert(channel_views(out@) + emptied(channel_views(rest@), id) =~= kept + (
                seq![model] + emptied(channel_views(rest@), id)));
            }
        }
        assert(channel_views(out@) + emptied(channel_views(rest@), id) =~= channel_views(out@));
        self.channels = out;
    }

    /// Lists `user` in the channel with this id, which is listed under
    /// `name` where it was not listed before.
    fn enter(&mut self, id: u64, name: String, user: VoiceMember)
        ensures
            final(self)@ == entered(old(self)@, id, name@, user),
    {
        let ghost all = self@;
        let mut at: usize = 0;
        assert(all.skip(0) =~= all);
        while at < self.channels.len() && self.channels[at].id < id
            invariant
                at <= self.channels@.len(),
                self@ == all,
                place(all, id) == at + place(all.skip(at as int), id),
            decreases self.channels@.len() - at,
        {
            assert(all.skip(at as int)[0] == all[at as int]);
            assert(all.skip(at as int).drop_first() =~= all.skip(at as int + 1));
            at += 1;
        }
        proof {
            if at < self.channels@.len() {
                assert(all.skip(at as int)[0] == all[at as int]);
            }
        }
        if at < self.channels.len() && self.channels[at].id == id {
            let mut channel = self.channels.remove(at);
            seat(&mut channel.members, user);
            self.channels.insert(at, channel);
            assert(self@ =~= entered(all, id, name@, user));
        } else {
            let mut members: Vec<VoiceMember> = Vec::new();
            members.push(user);
            self.channels.insert(at, VoiceChannel { id, name, members });
            assert(self@ =~= entered(all, id, name@, user));
        }
    }
}

/// What a change in the voice channels stands for, and whether it is worth
/// a notice: `user` has left every channel that he was in and is now in
/// the channel `now_in`, given by id and name, if he is in any. It is worth
/// a notice when the voice channels were quiet before and are not now.
pub fn voice_state_update(
    states: &mut VoiceStates,
    user: VoiceMember,
    now_in: Option<(u64, String)>,
) -> (notify: bool)
    ensures
        final(states)@ == moved(
            old(states)@,
            user,
            match now_in {
                Some((id, name)) => Some((id, name@)),
                None => None,
            },
        ),
        notify == (quiet(old(states)@, BIBLIOTHEK) && !quiet(final(states)@, BIBLIOTHEK)),
{
    let was_empty = states.is_quiet(BIBLIOTHEK);
    states.depart(user.id);
    if let Some((id, name)) = now_in {
        states.enter(id, name, user);
    }
    let is_empty = states.is_quiet(BIBLIOTHEK);
    was_empty && !is_empty
}

/// How a channel is mentioned in a message.
pub open spec fn channel_mention_text(id: u64) -> Seq<char> {
    "<#"@ + decimal(id as nat) + ">"@
}

/// The notice that somebody has come into a voice channel.
pub open spec fn party_text(user: u64, channel: u64) -> Seq<char> {
    "Discord Party? "@ + mention_text(user) + " ist jetzt im voice channel "@
        + channel_mention_text(channel)
}

/// The notice that somebody has come into a voice channel.
pub fn notify_start(user: u64, channel: u64) -> (text: String)
    ensures
        text@ == party_text(user, channel),
{
    let mut text = String::new();
    text.append("Discord Party? ");
    push_mention(&mut text, user);
    text.append(" ist jetzt im voice channel ");
    text.append("<#");
    push_decimal(&mut text, channel as u128);
    text.append(">");
    assert(text@ =~= party_text(user, channel));
    text
}

} // verus!
