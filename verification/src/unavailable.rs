//! The record of guilds that are known but not available.
//!
//! Upstream announces guilds before it sends them: a session-ready event names
//! the guilds of the session, and a guild may be declared out at any time. The
//! store counts such guilds but does not hand out their identifiers, so whoever
//! feeds a store keeps this record beside it, one step for each event. A guild
//! enters the record when it is announced unavailable and leaves it when it is
//! loaded; nothing else changes the record. Fed with the same events as a
//! store that keeps guilds, the record names as many guilds as the store
//! counts as unavailable.

use vstd::prelude::*;
use twilight_model::gateway::event::Event;
use twilight_model::gateway::payload::incoming::GuildCreate;

verus! {

/// The kinds of upstream event that bear on the availability of guilds.
#[derive(Clone, Copy, Debug, PartialEq, Eq)]
pub enum NoticeKind {
    /// The session is ready; the event names the guilds of the session.
    SessionReady,
    /// A guild went out.
    WentOut,
    /// A guild was created as unavailable.
    CreatedUnavailable,
    /// A guild was created in full.
    CreatedAvailable,
    /// Any other event.
    Other,
}

/// What an upstream event gives for the record: its kind and the guilds that
/// it names.
#[derive(Debug)]
pub struct GuildNotice {
    pub kind: NoticeKind,
    pub guild_ids: Vec<u64>,
}

/// What becomes of one guild in the record.
#[derive(Clone, Copy, Debug, PartialEq, Eq)]
pub enum GuildChange {
    /// The guild is known and not available.
    Announced(u64),
    /// The guild was sent in full.
    Loaded(u64),
}

/// The kind of an upstream event and the guilds that it names, in its order;
/// no guilds for an event of any other kind.
pub uninterp spec fn notice_of(event: Event) -> (NoticeKind, Seq<u64>);

/// Reads the kind and the guilds out of an upstream event
/// (`twilight_model::gateway::event::Event`): the guilds that a session-ready
/// event lists, the guild of an unavailable-guild event, and the guild of a
/// guild-create event, told apart by whether it comes as unavailable or in
/// full. Every other event reads as `Other` without guilds.
#[verifier::external_body]
pub(crate) fn read_notice(event: &Event) -> (notice: GuildNotice)
    ensures
        (notice.kind, notice.guild_ids@) == notice_of(*event),
{
    let (kind, guild_ids) = match event {
        Event::Ready(ready) => (NoticeKind::SessionReady, ready.guilds.iter().map(|guild| guild.id.get()).collect()),
        Event::UnavailableGuild(guild) => (NoticeKind::WentOut, vec![guild.id.get()]),
        Event::GuildCreate(create) => match create.as_ref() {
            GuildCreate::Unavailable(guild) => (NoticeKind::CreatedUnavailable, vec![guild.id.get()]),
            GuildCreate::Available(guild) => (NoticeKind::CreatedAvailable, vec![guild.id.get()]),
        },
        _ => (NoticeKind::Other, Vec::new()),
    };
    GuildNotice { kind, guild_ids }
}

/// What an event of a kind does to a guild that it names: a guild that a
/// session-ready event lists, that went out or that was created as unavailable
/// is announced; a guild created in full is loaded; any other event changes
/// nothing.
pub open spec fn change_called_for(kind: NoticeKind, guild_id: u64) -> Option<GuildChange> {
    match kind {
        NoticeKind::SessionReady => Some(GuildChange::Announced(guild_id)),
        NoticeKind::WentOut => Some(GuildChange::Announced(guild_id)),
        NoticeKind::CreatedUnavailable => Some(GuildChange::Announced(guild_id)),
        NoticeKind::CreatedAvailable => Some(GuildChange::Loaded(guild_id)),
        NoticeKind::Other => None,
    }
}

/// The changes that an event of a kind calls for, one for each guild it names,
/// in their order.
pub open spec fn changes_called_for(kind: NoticeKind, guild_ids: Seq<u64>) -> Seq<GuildChange>
    decreases guild_ids.len(),
{
    if guild_ids.len() == 0 {
        Seq::empty()
    } else {
        match change_called_for(kind, guild_ids.last()) {
            Some(change) => changes_called_for(kind, guild_ids.drop_last()).push(change),
            None => changes_called_for(kind, guild_ids.drop_last()),
        }
    }
}

/// The change that an event of a kind calls for on a guild that it names.
pub fn change_for(kind: NoticeKind, guild_id: u64) -> (change: Option<GuildChange>)
    ensures
        change == change_called_for(kind, guild_id),
{
    match kind {
        NoticeKind::SessionReady => Some(GuildChange::Announced(guild_id)),
        NoticeKind::WentOut => Some(GuildChange::Announced(guild_id)),
        NoticeKind::CreatedUnavailable => Some(GuildChange::Announced(guild_id)),
        NoticeKind::CreatedAvailable => Some(GuildChange::Loaded(guild_id)),
        NoticeKind::Other => None,
    }
}

/// The changes that a notice calls for.
pub fn changes_for(notice: &GuildNotice) -> (changes: Vec<GuildChange>)
    ensures
        changes@ == changes_called_for(notice.kind, notice.guild_ids@),
{
    let mut changes: Vec<GuildChange> = Vec::new();
    let mut i: usize = 0;
    while i < notice.guild_ids.len()
        invariant
            i <= notice.guild_ids.len(),
            changes@ == changes_called_for(notice.kind, notice.guild_ids@.take(i as int)),
        decreases notice.guild_ids.len() - i,
    {
        proof {
            let ids = notice.guild_ids@;
            assert(ids.take(i + 1).drop_last() == ids.take(i as int));
            assert(ids.take(i + 1).last() == ids[i as int]);
        }
        match change_for(notice.kind, notice.guild_ids[i]) {
            Some(change) => {
                changes.push(change);
            },
            None => {},
        }
        i += 1;
    }
    proof {
        assert(notice.guild_ids@.take(notice.guild_ids@.len() as int) == notice.guild_ids@);
    }
    changes
}

/// The record with a guild entered: at the end, unless it is in it already.
pub open spec fn with_guild(record: Seq<u64>, guild_id: u64) -> Seq<u64> {
    if record.contains(guild_id) {
        record
    } else {
        record.push(guild_id)
    }
}

/// The record with a guild taken out; the others keep their order.
pub open spec fn without_guild(record: Seq<u64>, guild_id: u64) -> Seq<u64>
    decreases record.len(),
{
    if record.len() == 0 {
        Seq::empty()
    } else if record.last() == guild_id {
        without_guild(record.drop_last(), guild_id)
    } else {
        without_guild(record.drop_last(), guild_id).push(record.last())
    }
}

/// The record after one change.
pub open spec fn stepped(record: Seq<u64>, change: GuildChange) -> Seq<u64> {
    match change {
        GuildChange::Announced(guild_id) => with_guild(record, guild_id),
        GuildChange::Loaded(guild_id) => without_guild(record, guild_id),
    }
}

/// The record after a run of changes, taken in order.
pub open spec fn stepped_all(record: Seq<u64>, changes: Seq<GuildChange>) -> Seq<u64>
    decreases changes.len(),
{
    if changes.len() == 0 {
        record
    } else {
        stepped(stepped_all(record, changes.drop_last()), changes.last())
    }
}

/// Taking a guild out leaves exactly the other guilds of the record.
pub proof fn without_guild_keeps_the_others(record: Seq<u64>, guild_id: u64, other: u64)
    ensures
        without_guild(record, guild_id).contains(other) <==> record.contains(other) && other
            != guild_id,
    decreases record.len(),
{
    let kept = without_guild(record, guild_id);
    if record.len() > 0 {
        let rest = without_guild(record.drop_last(), guild_id);
        without_guild_keeps_the_others(record.drop_last(), guild_id, other);
        if record.contains(other) {
            let i = choose|i: int| 0 <= i < record.len() && record[i] == other;
            if i < record.len() - 1 {
                assert(record.drop_last()[i] == other);
            }
        }
        if record.drop_last().contains(other) {
            let i = choose|i: int| 0 <= i < record.len() - 1 && record.drop_last()[i] == other;
            assert(record[i] == other);
        }
        if record.last() != guild_id {
            assert(kept == rest.push(record.last()));
            if rest.contains(other) {
                let k = choose|k: int| 0 <= k < rest.len() && rest[k] == other;
                assert(kept[k] == other);
            }
            if other == record.last() {
                assert(kept[kept.len() - 1] == other);
                assert(record[record.len() - 1] == other);
            }
            if kept.contains(other) {
                let k = choose|k: int| 0 <= k < kept.len() && kept[k] == other;
                if k < rest.len() {
                    assert(rest[k] == other);
                }
            }
        }
    }
}

/// Taking a guild out of a record without repeats leaves no repeats.
pub proof fn without_guild_keeps_it_free_of_repeats(record: Seq<u64>, guild_id: u64)
    requires
        record.no_duplicates(),
    ensures
        without_guild(record, guild_id).no_duplicates(),
    decreases record.len(),
{
    if record.len() > 0 {
        let rest = without_guild(record.drop_last(), guild_id);
        assert(record.drop_last().no_duplicates());
        without_guild_keeps_it_free_of_repeats(record.drop_last(), guild_id);
        if record.last() != guild_id {
            without_guild_keeps_the_others(record.drop_last(), guild_id, record.last());
            if record.drop_last().contains(record.last()) {
                let i = choose|i: int|
                    0 <= i < record.len() - 1 && record.drop_last()[i] == record.last();
                assert(record[i] == record[record.len() - 1]);
            }
            assert(!rest.contains(record.last()));
            assert forall|i: int, j: int|
                0 <= i < rest.len() + 1 && 0 <= j < rest.len() + 1 && i != j implies rest.push(
                record.last(),
            )[i] != rest.push(record.last())[j] by {
                if i < rest.len() && j < rest.len() {
                } else if i < rest.len() {
                    assert(rest.contains(rest[i]));
                } else {
                    assert(rest.contains(rest[j]));
                }
            }
        }
    }
}

/// A step keeps the record free of repeats.
pub proof fn step_keeps_the_record_free_of_repeats(record: Seq<u64>, change: GuildChange)
    requires
        record.no_duplicates(),
    ensures
        stepped(record, change).no_duplicates(),
{
    match change {
        GuildChange::Announced(guild_id) => {
            if !record.contains(guild_id) {
                assert forall|i: int, j: int|
                    0 <= i < record.len() + 1 && 0 <= j < record.len() + 1 && i
                        != j implies record.push(guild_id)[i] != record.push(guild_id)[j] by {
                    if i < record.len() && j < record.len() {
                    } else if i < record.len() {
                        assert(record.contains(record[i]));
                    } else {
                        assert(record.contains(record[j]));
                    }
                }
            }
        },
        GuildChange::Loaded(guild_id) => {
            without_guild_keeps_it_free_of_repeats(record, guild_id);
        },
    }
}

/// After a step the record holds a guild exactly where the step says: an
/// announced guild is in it, a loaded guild is not, and every other guild is
/// in it as before.
pub proof fn step_changes_one_guild_only(record: Seq<u64>, change: GuildChange, other: u64)
    ensures
        match change {
            GuildChange::Announced(guild_id) => stepped(record, change).contains(other) <==> other
                == guild_id || record.contains(other),
            GuildChange::Loaded(guild_id) => stepped(record, change).contains(other) <==> other
                != guild_id && record.contains(other),
        },
{
    match change {
        GuildChange::Announced(guild_id) => {
            let next = with_guild(record, guild_id);
            if !record.contains(guild_id) {
                assert(next[next.len() - 1] == guild_id);
                if record.contains(other) {
                    let i = choose|i: int| 0 <= i < record.len() && record[i] == other;
                    assert(next[i] == other);
                }
                if next.contains(other) {
                    let k = choose|k: int| 0 <= k < next.len() && next[k] == other;
                    if k < record.len() {
                        assert(record[k] == other);
                    }
                }
            }
        },
        GuildChange::Loaded(guild_id) => {
            without_guild_keeps_the_others(record, guild_id, other);
        },
    }
}

/// The guilds that are known but not available, each once, in the order in
/// which they were first announced.
pub struct UnavailableGuilds {
    ids: Vec<u64>,
}

impl View for UnavailableGuilds {
    type V = Seq<u64>;

    closed spec fn view(&self) -> Seq<u64> {
        self.ids@
    }
}

impl UnavailableGuilds {
    /// No guild is recorded twice.
    pub open spec fn wf(&self) -> bool {
        self@.no_duplicates()
    }

    /// A record without guilds.
    pub fn new() -> (record: UnavailableGuilds)
        ensures
            record.wf(),
            record@ == Seq::<u64>::empty(),
    {
        UnavailableGuilds { ids: Vec::new() }
    }

    /// The recorded guilds.
    pub fn ids(&self) -> (ids: &Vec<u64>)
        ensures
            ids@ == self@,
    {
        &self.ids
    }

    /// Whether a guild is recorded.
    pub fn contains(&self, guild_id: u64) -> (found: bool)
        ensures
            found == self@.contains(guild_id),
    {
        let mut i: usize = 0;
        while i < self.ids.len()
            invariant
                i <= self.ids.len(),
                forall|k: int| 0 <= k < i ==> self.ids@[k] != guild_id,
            decreases self.ids.len() - i,
        {
            if self.ids[i] == guild_id {
                return true;
            }
            i += 1;
        }
        false
    }

    /// Takes one step of the record: an announced guild enters it, a loaded
    /// guild leaves it.
    pub fn apply(&mut self, change: GuildChange)
        ensures
            final(self)@ == stepped(old(self)@, change),
            old(self).wf() ==> final(self).wf(),
    {
        proof {
            if self.wf() {
                step_keeps_the_record_free_of_repeats(self@, change);
            }
        }
        match change {
            GuildChange::Announced(guild_id) => {
                if !self.contains(guild_id) {
                    self.ids.push(guild_id);
                }
            },
            GuildChange::Loaded(guild_id) => {
                let mut kept: Vec<u64> = Vec::new();
                let mut i: usize = 0;
                while i < self.ids.len()
                    invariant
                        i <= self.ids.len(),
                        kept@ == without_guild(self.ids@.take(i as int), guild_id),
                    decreases self.ids.len() - i,
                {
                    proof {
                        assert(self.ids@.take(i + 1).drop_last() == self.ids@.take(i as int));
                        assert(self.ids@.take(i + 1).last() == self.ids@[i as int]);
                    }
                    if self.ids[i] != guild_id {
                        kept.push(self.ids[i]);
                    }
                    i += 1;
                }
                proof {
                    assert(self.ids@.take(self.ids@.len() as int) == self.ids@);
                }
                self.ids = kept;
            },
        }
    }

    /// Takes the steps of a run of changes, in order.
    pub fn apply_all(&mut self, changes: &Vec<GuildChange>)
        ensures
            final(self)@ == stepped_all(old(self)@, changes@),
            old(self).wf() ==> final(self).wf(),
    {
        let ghost start = self@;
        let ghost held = self.wf();
        let mut i: usize = 0;
        while i < changes.len()
            invariant
                i <= changes.len(),
                held ==> self.wf(),
                self@ == stepped_all(start, changes@.take(i as int)),
            decreases changes.len() - i,
        {
            proof {
                assert(changes@.take(i + 1).drop_last() == changes@.take(i as int));
                assert(changes@.take(i + 1).last() == changes@[i as int]);
            }
            self.apply(changes[i]);
            i += 1;
        }
        proof {
            assert(changes@.take(changes@.len() as int) == changes@);
        }
    }

    /// Takes the steps that a notice calls for.
    pub fn note(&mut self, notice: &GuildNotice)
        ensures
            final(self)@ == stepped_all(
                old(self)@,
                changes_called_for(notice.kind, notice.guild_ids@),
            ),
            old(self).wf() ==> final(self).wf(),
    {
        let changes = changes_for(notice);
        self.apply_all(&changes);
    }

    /// Takes the steps that an upstream event calls for.
    pub fn track(&mut self, event: &Event)
        ensures
            final(self)@ == stepped_all(
                old(self)@,
                changes_called_for(notice_of(*event).0, notice_of(*event).1),
            ),
            old(self).wf() ==> final(self).wf(),
    {
        let notice = read_notice(event);
        self.note(&notice);
    }
}

} // verus!
