//! A rendezvous relay: two peers join a room, and every text or binary frame
//! one sends is forwarded to the other. Frames sent before the peer has
//! joined are buffered up to a bound; past it the oldest buffered frame is
//! dropped.

use crate::assoc::assoc;
use crate::assoc::assoc_at;
use crate::assoc::assoc_push;
use crate::assoc::assoc_remove;
use crate::assoc::assoc_update;
use crate::assoc::distinct_keys;
use crate::assoc::has_key;
use crate::assoc::position;
use crate::text::concat;
use crate::text::debug_string;
use crate::text::debug_text;
use crate::text::same_text;
use crate::text::split;
use crate::text::split_spec;
use crate::text::texts;
use crate::text::trimming_starts_takes_the_run;
use crate::text::trimming_ends_takes_the_run;
use crate::text::splits_join_again;
use crate::text::joined_by;
use crate::text::before_is_the_longest_start;
use crate::text::before;
use crate::text::trim_end;
use crate::text::trim_end_matches;
use crate::text::trim_start;
use crate::text::trim_start_matches;
use std::collections::VecDeque;
use vstd::prelude::*;
use vstd::string::*;

verus! {

/// Frames buffered per direction while the destination peer is absent.
pub const MAX_QUEUED_FRAMES: usize = 1024;

/// The two slots of a room. The role only names the slot; the relay treats
/// both identically.
#[derive(Clone, Copy, Debug, PartialEq, Eq, Hash, Structural)]
pub enum Role {
    A,
    B,
}

/// The role that a path segment names.
pub open spec fn role_named(s: Seq<char>) -> Option<Role> {
    if s == "a"@ {
        Some(Role::A)
    } else if s == "b"@ {
        Some(Role::B)
    } else {
        None
    }
}

/// The slot facing this one.
pub open spec fn facing(role: Role) -> Role {
    match role {
        Role::A => Role::B,
        Role::B => Role::A,
    }
}

impl Role {
    /// The slot facing this one.
    pub fn other(self) -> (role: Role)
        ensures
            role == facing(self),
            facing(role) == self,
    {
        match self {
            Role::A => Role::B,
            Role::B => Role::A,
        }
    }

    /// The role that a path segment names.
    pub fn parse(s: &str) -> (role: Option<Role>)
        ensures
            role == role_named(s@),
    {
        if same_text(s, "a") {
            Some(Role::A)
        } else if same_text(s, "b") {
            Some(Role::B)
        } else {
            None
        }
    }
}

/// A frame that peers exchange.
pub enum Frame {
    Text(String),
    Binary(Vec<u8>),
}

/// A frame with its contents as mathematical values.
pub enum FrameModel {
    Text(Seq<char>),
    Binary(Seq<u8>),
}

impl View for Frame {
    type V = FrameModel;

    open spec fn view(&self) -> FrameModel {
        match self {
            Frame::Text(text) => FrameModel::Text(text@),
            Frame::Binary(bytes) => FrameModel::Binary(bytes@),
        }
    }
}

/// Frames with their contents.
pub open spec fn frames(v: Seq<Frame>) -> Seq<FrameModel> {
    v.map_values(|f: Frame| f@)
}

/// One direction's delivery state: the live peer's connection, or a bounded
/// queue holding frames until that peer joins.
pub enum Slot {
    Absent(VecDeque<Frame>),
    Live(u64),
}

/// A delivery slot as mathematical values.
pub enum SlotModel {
    Absent(Seq<FrameModel>),
    Live(u64),
}

impl View for Slot {
    type V = SlotModel;

    open spec fn view(&self) -> SlotModel {
        match self {
            Slot::Absent(queue) => SlotModel::Absent(frames(queue@)),
            Slot::Live(id) => SlotModel::Live(*id),
        }
    }
}

impl Default for Slot {
    fn default() -> (slot: Self)
        ensures
            slot@ == SlotModel::Absent(Seq::empty()),
    {
        let slot = Slot::Absent(VecDeque::new());
        assert(slot@->Absent_0 =~= Seq::<FrameModel>::empty());
        slot
    }
}

/// A room.
pub struct Room {
    /// Frames destined for each role.
    pub slot_a: Slot,
    pub slot_b: Slot,
    /// Roles that have joined at least once, for room teardown.
    pub joined_a: bool,
    pub joined_b: bool,
    /// Live connections.
    pub live: usize,
}

/// A room as mathematical values.
pub struct RoomModel {
    pub slots: Map<Role, SlotModel>,
    pub joined: Set<Role>,
    pub live: nat,
}

/// The roles that have joined.
pub open spec fn joined_roles(a: bool, b: bool) -> Set<Role> {
    let none = Set::<Role>::empty();
    let with_a = if a {
        none.insert(Role::A)
    } else {
        none
    };
    if b {
        with_a.insert(Role::B)
    } else {
        with_a
    }
}

/// The delivery slots by role.
pub open spec fn slot_map(a: SlotModel, b: SlotModel) -> Map<Role, SlotModel> {
    Map::<Role, SlotModel>::empty().insert(Role::A, a).insert(Role::B, b)
}

impl View for Room {
    type V = RoomModel;

    open spec fn view(&self) -> RoomModel {
        RoomModel {
            slots: slot_map(self.slot_a@, self.slot_b@),
            joined: joined_roles(self.joined_a, self.joined_b),
            live: self.live as nat,
        }
    }
}

/// A room that nobody has joined.
pub open spec fn fresh_room() -> RoomModel {
    RoomModel {
        slots: slot_map(SlotModel::Absent(Seq::empty()), SlotModel::Absent(Seq::empty())),
        joined: Set::empty(),
        live: 0,
    }
}

/// The bound on buffered frames holds.
pub open spec fn bounded(slot: SlotModel) -> bool {
    slot matches SlotModel::Absent(queue) ==> queue.len() <= MAX_QUEUED_FRAMES
}

impl RoomModel {
    /// Both slots keep within the bound.
    pub open spec fn valid(self) -> bool {
        bounded(self.slots[Role::A]) && bounded(self.slots[Role::B])
    }
}

/// The last frames of a longer stream, as many as fit.
pub open spec fn kept(stream: Seq<FrameModel>) -> Seq<FrameModel> {
    if stream.len() <= MAX_QUEUED_FRAMES {
        stream
    } else {
        stream.skip(stream.len() - MAX_QUEUED_FRAMES)
    }
}

/// A queue after one more frame: past the bound the oldest goes.
pub open spec fn queued(queue: Seq<FrameModel>, frame: FrameModel) -> Seq<FrameModel> {
    if queue.len() >= MAX_QUEUED_FRAMES {
        queue.drop_first().push(frame)
    } else {
        queue.push(frame)
    }
}

/// A queue after a stream of frames.
pub open spec fn queued_all(stream: Seq<FrameModel>) -> Seq<FrameModel>
    decreases stream.len(),
{
    if stream.len() == 0 {
        Seq::empty()
    } else {
        queued(queued_all(stream.drop_last()), stream.last())
    }
}

/// An absent peer finds, in the order they were sent, the last frames that
/// the bound allows, and none before them.
pub proof fn backlog_is_the_latest(stream: Seq<FrameModel>)
    ensures
        queued_all(stream) == kept(stream),
        queued_all(stream).len() <= MAX_QUEUED_FRAMES,
    decreases stream.len(),
{
    if stream.len() == 0 {
        assert(queued_all(stream) =~= kept(stream));
    } else {
        backlog_is_the_latest(stream.drop_last());
        assert(queued_all(stream) =~= kept(stream));
    }
}

/// What became of a frame.
pub enum Delivery {
    /// There is no such room: the frame is dropped.
    NoRoom,
    /// The peer is absent: the frame waits for it.
    Buffered,
    /// Send the frame on this connection.
    Forward(u64, Frame),
}

/// What joining a room found.
pub struct Joined {
    /// Frames buffered while the role was absent.
    pub backlog: Vec<Frame>,
    /// The connection that held the slot until now.
    pub replaced: Option<u64>,
}

/// A room under its name.
pub struct RoomEntry {
    pub name: String,
    pub room: Room,
}

/// Every room of the relay.
pub struct Registry {
    pub rooms: Vec<RoomEntry>,
}

/// Rooms keyed by name.
pub open spec fn room_list(v: Seq<RoomEntry>) -> Seq<(Seq<char>, RoomModel)> {
    v.map_values(|e: RoomEntry| (e.name@, e.room@))
}

impl View for Registry {
    type V = Map<Seq<char>, RoomModel>;

    open spec fn view(&self) -> Map<Seq<char>, RoomModel> {
        assoc(room_list(self.rooms@))
    }
}

/// The room `name`, or a fresh one.
pub open spec fn room_or_fresh(
    rooms: Map<Seq<char>, RoomModel>,
    name: Seq<char>,
) -> RoomModel {
    if rooms.dom().contains(name) {
        rooms[name]
    } else {
        fresh_room()
    }
}

/// A room after one of its roles joined on connection `id`.
pub open spec fn room_joined(room: RoomModel, role: Role, id: u64) -> RoomModel {
    RoomModel {
        slots: room.slots.insert(role, SlotModel::Live(id)),
        joined: room.joined.insert(role),
        live: room.live + 1,
    }
}

/// A room after one of its roles left.
pub open spec fn room_left(room: RoomModel, role: Role) -> RoomModel {
    RoomModel {
        slots: room.slots.insert(role, SlotModel::Absent(Seq::empty())),
        joined: room.joined,
        live: (room.live - 1) as nat,
    }
}

/// Nobody is left in a room that both roles have joined.
pub open spec fn is_over(room: RoomModel) -> bool {
    room.live == 0 && room.joined.contains(Role::A) && room.joined.contains(Role::B)
}

/// The connection in a slot.
pub open spec fn live_id(slot: SlotModel) -> Option<u64> {
    match slot {
        SlotModel::Live(id) => Some(id),
        SlotModel::Absent(_) => None,
    }
}

/// The frames waiting in a slot.
pub open spec fn waiting(slot: SlotModel) -> Seq<FrameModel> {
    match slot {
        SlotModel::Live(_) => Seq::empty(),
        SlotModel::Absent(queue) => queue,
    }
}

/// The rooms after a frame was delivered.
pub open spec fn rooms_delivered(
    rooms: Map<Seq<char>, RoomModel>,
    name: Seq<char>,
    to: Role,
    frame: FrameModel,
) -> Map<Seq<char>, RoomModel> {
    if rooms.dom().contains(name) {
        match rooms[name].slots[to] {
            SlotModel::Live(_) => rooms,
            SlotModel::Absent(queue) => rooms.insert(
                name,
                RoomModel {
                    slots: rooms[name].slots.insert(
                        to,
                        SlotModel::Absent(queued(queue, frame)),
                    ),
                    ..rooms[name]
                },
            ),
        }
    } else {
        rooms
    }
}

/// The rooms after a role joined one of them.
pub open spec fn rooms_joined(
    rooms: Map<Seq<char>, RoomModel>,
    name: Seq<char>,
    role: Role,
    id: u64,
) -> Map<Seq<char>, RoomModel> {
    rooms.insert(name, room_joined(room_or_fresh(rooms, name), role, id))
}

/// The rooms after a role left one of them.
pub open spec fn rooms_left(
    rooms: Map<Seq<char>, RoomModel>,
    name: Seq<char>,
    role: Role,
) -> Map<Seq<char>, RoomModel> {
    if rooms.dom().contains(name) {
        let after = room_left(rooms[name], role);
        if is_over(after) {
            rooms.remove(name)
        } else {
            rooms.insert(name, after)
        }
    } else {
        rooms
    }
}

impl Room {
    fn new() -> (room: Self)
        ensures
            room@ == fresh_room(),
    {
        let room = Room {
            slot_a: Slot::default(),
            slot_b: Slot::default(),
            joined_a: false,
            joined_b: false,
            live: 0,
        };
        assert(room@.joined =~= Set::<Role>::empty());
        room
    }

    /// Put `slot` in `role`'s place and take out what was there.
    fn replace(&mut self, role: Role, slot: Slot) -> (was: Slot)
        ensures
            was@ == old(self)@.slots[role],
            final(self)@ == (RoomModel {
                slots: old(self)@.slots.insert(role, slot@),
                ..old(self)@
            }),
    {
        let mut was: Slot = slot;
        match role {
            Role::A => {
                std::mem::swap(&mut self.slot_a, &mut was);
            },
            Role::B => {
                std::mem::swap(&mut self.slot_b, &mut was);
            },
        }
        assert(self@.slots =~= old(self)@.slots.insert(role, slot@));
        was
    }
}

/// Buffer `frame`, dropping the oldest past the bound.
fn enqueue(queue: &mut VecDeque<Frame>, frame: Frame)
    ensures
        frames(final(queue)@) == queued(frames(old(queue)@), frame@),
{
    if queue.len() >= MAX_QUEUED_FRAMES {
        queue.pop_front();
        assert(frames(queue@) =~= frames(old(queue)@).drop_first());
    }
    let ghost before = frames(queue@);
    queue.push_back(frame);
    assert(frames(queue@) =~= before.push(frame@));
}

/// The frames of a queue, in order.
fn drain_queue(queue: VecDeque<Frame>) -> (list: Vec<Frame>)
    ensures
        frames(list@) == frames(queue@),
{
    let mut rest: VecDeque<Frame> = queue;
    let mut list: Vec<Frame> = Vec::new();
    let ghost whole = rest@;
    while rest.len() > 0
        invariant
            list@ + rest@ =~= whole,
        decreases rest@.len(),
    {
        match rest.pop_front() {
            Some(frame) => {
                list.push(frame);
            },
            None => {},
        }
    }
    assert(list@ =~= whole);
    list
}

impl Registry {
    /// Room names are distinct, and every buffer keeps within its bound.
    pub open spec fn wf(&self) -> bool {
        &&& distinct_keys(room_list(self.rooms@))
        &&& forall|name: Seq<char>| #[trigger]
            self@.dom().contains(name) ==> self@[name].valid()
    }

    pub fn new() -> (registry: Self)
        ensures
            registry.wf(),
            registry@ == Map::<Seq<char>, RoomModel>::empty(),
    {
        let registry = Registry { rooms: Vec::new() };
        assert(registry@ =~= Map::<Seq<char>, RoomModel>::empty());
        registry
    }

    fn find(&self, name: &str) -> (found: Option<usize>)
        requires
            self.wf(),
        ensures
            match found {
                Some(i) => i < self.rooms@.len() && self.rooms@[i as int].name@ == name@
                    && self@.dom().contains(name@) && self@[name@] == self.rooms@[i as int].room@,
                None => !self@.dom().contains(name@),
            },
    {
        let ghost list = room_list(self.rooms@);
        let mut i: usize = 0;
        while i < self.rooms.len()
            invariant
                i <= self.rooms@.len(),
                self.wf(),
                list == room_list(self.rooms@),
                forall|j: int| 0 <= j < i ==> (#[trigger] self.rooms@[j]).name@ != name@,
            decreases self.rooms@.len() - i,
        {
            if same_text(self.rooms[i].name.as_str(), name) {
                proof {
                    assert(list[i as int].0 == name@);
                    assoc_at(list, i as int);
                }
                return Some(i);
            }
            i = i + 1;
        }
        proof {
            if has_key(list, name@) {
                let p = position(list, name@);
                assert(list[p].0 == name@);
                assert(self.rooms@[p].name@ == name@);
            }
        }
        None
    }

    /// Deliver `frame` to `to` in `room`: forward it if the peer is live,
    /// buffer it (bounded, dropping the oldest) if not.
    pub fn deliver(&mut self, room: &str, to: Role, frame: Frame) -> (delivery: Delivery)
        requires
            old(self).wf(),
        ensures
            final(self).wf(),
            final(self)@ == rooms_delivered(old(self)@, room@, to, frame@),
            match delivery {
                Delivery::NoRoom => !old(self)@.dom().contains(room@) && final(self)@ == old(self)@,
                Delivery::Forward(id, forwarded) => old(self)@.dom().contains(room@) && old(
                    self,
                )@[room@].slots[to] == SlotModel::Live(id) && forwarded@ == frame@ && final(self)@
                    == old(self)@,
                Delivery::Buffered => {
                    &&& old(self)@.dom().contains(room@)
                    &&& old(self)@[room@].slots[to] matches SlotModel::Absent(queue)
                    &&& final(self)@ == old(self)@.insert(
                        room@,
                        RoomModel {
                            slots: old(self)@[room@].slots.insert(
                                to,
                                SlotModel::Absent(queued(queue, frame@)),
                            ),
                            ..old(self)@[room@]
                        },
                    )
                },
            },
    {
        match self.find(room) {
            None => Delivery::NoRoom,
            Some(i) => {
                let ghost list = room_list(self.rooms@);
                let ghost was = self.rooms@[i as int].room@;
                let taken: Slot = self.rooms[i].room.replace(to, Slot::default());
                match taken {
                    Slot::Live(id) => {
                        self.rooms[i].room.replace(to, Slot::Live(id));
                        proof {
                            let now = self.rooms@[i as int].room@;
                            assert(now.slots =~= was.slots);
                            assert(room_list(self.rooms@) =~= list);
                        }
                        Delivery::Forward(id, frame)
                    },
                    Slot::Absent(queue) => {
                        let mut queue: VecDeque<Frame> = queue;
                        let ghost waited = frames(queue@);
                        enqueue(&mut queue, frame);
                        self.rooms[i].room.replace(to, Slot::Absent(queue));
                        proof {
                            let now = self.rooms@[i as int].room@;
                            let want = RoomModel {
                                slots: was.slots.insert(
                                    to,
                                    SlotModel::Absent(queued(waited, frame@)),
                                ),
                                ..was
                            };
                            assert(now.slots =~= want.slots);
                            assoc_update(list, i as int, now);
                            assert(room_list(self.rooms@) =~= list.update(
                                i as int,
                                (list[i as int].0, now),
                            ));
                            assert(was.valid());
                            assert(now.valid());
                        }
                        Delivery::Buffered
                    },
                }
            },
        }
    }

    /// Register `role` in `room` as live on connection `id`. Returns any
    /// frames buffered while it was absent.
    pub fn join(&mut self, room: &str, role: Role, id: u64) -> (joined: Joined)
        requires
            old(self).wf(),
            room_or_fresh(old(self)@, room@).live < usize::MAX,
        ensures
            final(self).wf(),
            final(self)@ == rooms_joined(old(self)@, room@, role, id),
            frames(joined.backlog@) == waiting(room_or_fresh(old(self)@, room@).slots[role]),
            joined.replaced == live_id(room_or_fresh(old(self)@, room@).slots[role]),
            final(self)@ == old(self)@.insert(
                room@,
                room_joined(room_or_fresh(old(self)@, room@), role, id),
            ),
    {
        let ghost before = self@;
        let ghost room_before = room_or_fresh(self@, room@);
        let found: Option<usize> = self.find(room);
        let i: usize = match found {
            Some(i) => i,
            None => {
                let ghost list = room_list(self.rooms@);
                self.rooms.push(RoomEntry { name: room.to_owned(), room: Room::new() });
                proof {
                    assoc_push(list, room@, fresh_room());
                    assert(room_list(self.rooms@) =~= list.push((room@, fresh_room())));
                }
                self.rooms.len() - 1
            },
        };
        let ghost list = room_list(self.rooms@);
        proof {
            assert(list[i as int] == (room@, room_before));
            assert(assoc(list) =~= before.insert(room@, room_before));
        }
        let taken: Slot = self.rooms[i].room.replace(role, Slot::Live(id));
        match role {
            Role::A => {
                self.rooms[i].room.joined_a = true;
            },
            Role::B => {
                self.rooms[i].room.joined_b = true;
            },
        }
        let live: usize = self.rooms[i].room.live;
        self.rooms[i].room.live = live + 1;
        proof {
            let now = self.rooms@[i as int].room@;
            let want = room_joined(room_before, role, id);
            assert(now.slots =~= want.slots);
            assert(now.joined =~= want.joined);
            assoc_update(list, i as int, now);
            assert(room_list(self.rooms@) =~= list.update(i as int, (list[i as int].0, now)));
            assert(self@ =~= before.insert(room@, want));
            assert(room_before.valid());
        }
        match taken {
            Slot::Absent(queue) => Joined { backlog: drain_queue(queue), replaced: None },
            Slot::Live(old_id) => {
                let backlog: Vec<Frame> = Vec::new();
                assert(frames(backlog@) =~= Seq::<FrameModel>::empty());
                Joined { backlog, replaced: Some(old_id) }
            },
        }
    }

    /// Mark `role` in `room` absent again, with nothing buffered; tear the
    /// room down once both roles have joined and neither is live. Returns the
    /// connection that held the slot.
    pub fn leave(&mut self, room: &str, role: Role) -> (ousted: Option<u64>)
        requires
            old(self).wf(),
            old(self)@.dom().contains(room@) ==> old(self)@[room@].live > 0,
        ensures
            final(self).wf(),
            final(self)@ == rooms_left(old(self)@, room@, role),
            if old(self)@.dom().contains(room@) {
                let after = room_left(old(self)@[room@], role);
                &&& ousted == live_id(old(self)@[room@].slots[role])
                &&& final(self)@ == if is_over(after) {
                    old(self)@.remove(room@)
                } else {
                    old(self)@.insert(room@, after)
                }
            } else {
                ousted is None && final(self)@ == old(self)@
            },
    {
        match self.find(room) {
            None => None,
            Some(i) => {
                let ghost before = self@;
                let ghost list = room_list(self.rooms@);
                let ghost was = self.rooms@[i as int].room@;
                let taken: Slot = self.rooms[i].room.replace(role, Slot::default());
                let live: usize = self.rooms[i].room.live;
                self.rooms[i].room.live = live - 1;
                let over: bool = live == 1 && self.rooms[i].room.joined_a
                    && self.rooms[i].room.joined_b;
                let ghost after = room_left(was, role);
                proof {
                    let now = self.rooms@[i as int].room@;
                    assert(now.slots =~= after.slots);
                    assert(now.joined =~= after.joined);
                    assert(now.live == after.live);
                    assert(over == is_over(after));
                    assoc_update(list, i as int, now);
                    assert(room_list(self.rooms@) =~= list.update(
                        i as int,
                        (list[i as int].0, now),
                    ));
                    assert(was.valid());
                    assert(now.valid());
                }
                if over {
                    let ghost updated = room_list(self.rooms@);
                    proof {
                        assoc_remove(updated, i as int);
                    }
                    self.rooms.remove(i);
                    assert(room_list(self.rooms@) =~= updated.remove(i as int));
                    assert(self@ =~= before.remove(room@));
                }
                match taken {
                    Slot::Live(id) => Some(id),
                    Slot::Absent(_) => None,
                }
            },
        }
    }
}

/// A role that leaves and comes back finds only what was sent in between,
/// and a room that both have left is gone.
pub proof fn rooms_forget(room: RoomModel, role: Role, id: u64)
    ensures
        waiting(room_left(room, role).slots[role]) == Seq::<FrameModel>::empty(),
        live_id(room_joined(room, role, id).slots[role]) == Some(id),
        room_left(room_joined(room, role, id), role).live == room.live,
        room.live == 0 && room.joined.contains(facing(role)) ==> is_over(
            room_left(room_joined(room, role, id), role),
        ),
{
}

/// What a relay does with a message from a peer.
#[derive(Clone, Copy, PartialEq, Eq, Structural)]
pub enum Inbound {
    /// Deliver it to the facing slot.
    Deliver,
    /// Skip it.
    Skip,
    /// The connection is over.
    End,
}

/// The kinds of websocket message, and the connection's end.
#[derive(Clone, Copy, PartialEq, Eq, Structural)]
pub enum MessageKind {
    Text,
    Binary,
    Control,
    Close,
    Ended,
}

/// Text and binary frames are forwarded, a close or an end ends the
/// connection, and pings and pongs are skipped.
pub fn on_message(kind: MessageKind) -> (inbound: Inbound)
    ensures
        inbound == (match kind {
            MessageKind::Text => Inbound::Deliver,
            MessageKind::Binary => Inbound::Deliver,
            MessageKind::Control => Inbound::Skip,
            MessageKind::Close => Inbound::End,
            MessageKind::Ended => Inbound::End,
        }),
{
    match kind {
        MessageKind::Text => Inbound::Deliver,
        MessageKind::Binary => Inbound::Deliver,
        MessageKind::Control => Inbound::Skip,
        MessageKind::Close => Inbound::End,
        MessageKind::Ended => Inbound::End,
    }
}

/// The room and role that a request path names, or why it names none.
pub open spec fn route_spec(path: Seq<char>) -> Result<(Seq<char>, Role), Seq<char>> {
    let parts = split_spec(trim_end(trim_start(path, '/'), '/'), '/');
    if parts.len() == 3 && parts[0] == "rooms"@ && parts[1].len() > 0 {
        match role_named(parts[2]) {
            Some(role) => Ok((parts[1], role)),
            None => Err("unknown role in "@ + debug_text(path) + " (expected a or b)"@),
        }
    } else {
        Err(
            "unroutable path "@ + debug_text(path)
                + " (expected /rooms/{room}/{a|b})"@,
        )
    }
}

fn path_problem(what: &str, path: &str, expected: &str) -> (text: String)
    ensures
        text@ == what@ + debug_text(path@) + expected@,
{
    let shown: String = debug_string(path);
    let mut text: String = concat(what, shown.as_str());
    text.append(expected);
    text
}

/// The room and role that a request path names: `/rooms/{room}/{a|b}`.
pub fn route(path: &str) -> (route: Result<(String, Role), String>)
    ensures
        match route {
            Ok((room, role)) => route_spec(path@) == Ok::<(Seq<char>, Role), Seq<char>>(
                (room@, role),
            ),
            Err(text) => route_spec(path@) == Err::<(Seq<char>, Role), Seq<char>>(text@),
        },
{
    let trimmed: String = trim_start_matches(path, '/');
    let trimmed: String = trim_end_matches(trimmed.as_str(), '/');
    let parts: Vec<String> = split(trimmed.as_str(), '/');
    let ghost segments = texts(parts@);
    if parts.len() == 3 {
        assert(segments[0] == parts@[0]@ && segments[1] == parts@[1]@ && segments[2]
            == parts@[2]@);
        if same_text(parts[0].as_str(), "rooms") && parts[1].as_str().unicode_len() > 0 {
            return match Role::parse(parts[2].as_str()) {
                Some(role) => Ok((parts[1].clone(), role)),
                None => Err(path_problem("unknown role in ", path, " (expected a or b)")),
            };
        }
    }
    Err(path_problem("unroutable path ", path, " (expected /rooms/{room}/{a|b})"))
}

pub const ADDR_NEEDS_VALUE: &'static str = "--addr needs a value";

/// What the command line asks for: the listening addresses given, in order
/// (the last one counts), and what stopped the reading, if anything did.
pub struct RelaydArgs {
    pub addrs: Vec<String>,
    pub problem: Option<String>,
}

/// The listening addresses on a command line, and what stops its reading.
pub open spec fn args_spec(args: Seq<Seq<char>>) -> (Seq<Seq<char>>, Option<Seq<char>>)
    decreases args.len(),
{
    if args.len() == 0 {
        (Seq::empty(), None)
    } else if args[0] == "--addr"@ {
        if args.len() == 1 {
            (Seq::empty(), Some(ADDR_NEEDS_VALUE@))
        } else {
            let (rest, problem) = args_spec(args.skip(2));
            (seq![args[1]] + rest, problem)
        }
    } else {
        (
            Seq::empty(),
            Some(
                "unknown argument "@ + debug_text(args[0])
                    + " (usage: iroh-spike-relayd [--addr IP:PORT])"@,
            ),
        )
    }
}

/// Read the command line.
pub fn parse_args(args: &Vec<String>) -> (parsed: RelaydArgs)
    ensures
        texts(parsed.addrs@) == args_spec(texts(args@)).0,
        match parsed.problem {
            Some(text) => args_spec(texts(args@)).1 == Some(text@),
            None => args_spec(texts(args@)).1 is None,
        },
{
    let ghost all = texts(args@);
    let len: usize = args.len();
    let mut addrs: Vec<String> = Vec::new();
    let mut i: usize = 0;
    assert(all.skip(0) =~= all);
    assert(texts(addrs@) + args_spec(all).0 =~= args_spec(all).0);
    while i < len
        invariant
            i <= len == args@.len(),
            all == texts(args@),
            args_spec(all).0 == texts(addrs@) + args_spec(all.skip(i as int)).0,
            args_spec(all).1 == args_spec(all.skip(i as int)).1,
        decreases len - i,
    {
        let ghost rest = all.skip(i as int);
        assert(rest[0] == args@[i as int]@);
        if same_text(args[i].as_str(), "--addr") {
            if i + 1 >= len {
                assert(texts(addrs@) + Seq::<Seq<char>>::empty() =~= texts(addrs@));
                return RelaydArgs { addrs, problem: Some(ADDR_NEEDS_VALUE.to_owned()) };
            }
            let ghost done = texts(addrs@);
            addrs.push(args[i + 1].clone());
            proof {
                assert(rest[1] == args@[i + 1]@);
                assert(rest.skip(2) =~= all.skip(i + 2));
                let tail = args_spec(all.skip(i + 2)).0;
                assert(texts(addrs@) =~= done.push(rest[1]));
                assert(done + (seq![rest[1]] + tail) =~= texts(addrs@) + tail);
            }
            i = i + 2;
        } else {
            assert(texts(addrs@) + Seq::<Seq<char>>::empty() =~= texts(addrs@));
            let problem: String = path_problem(
                "unknown argument ",
                args[i].as_str(),
                " (usage: iroh-spike-relayd [--addr IP:PORT])",
            );
            return RelaydArgs { addrs, problem: Some(problem) };
        }
    }
    assert(texts(addrs@) + Seq::<Seq<char>>::empty() =~= texts(addrs@));
    RelaydArgs { addrs, problem: None }
}

/// Leaving empties the leaver's own slot and nothing else: the facing role's
/// live connection, or the frames that wait for it, stay, and so do the roles
/// that have joined; there is one live connection less.
pub proof fn leaving_keeps_the_facing_slot(room: RoomModel, role: Role, other: Role)
    requires
        other != role,
        room.live > 0,
    ensures
        ({
            let after = room_left(room, role);
            &&& after.slots[other] == room.slots[other]
            &&& after.slots[role] matches SlotModel::Absent(queue) && queue.len() == 0
            &&& after.joined == room.joined
            &&& after.live == room.live - 1
        }),
{
}

/// Joining takes the joiner's own slot and nothing else: the facing role's
/// live connection, or the frames that wait for it, stay.
pub proof fn joining_keeps_the_facing_slot(room: RoomModel, role: Role, id: u64, other: Role)
    requires
        other != role,
    ensures
        ({
            let after = room_joined(room, role, id);
            &&& after.slots[other] == room.slots[other]
            &&& after.slots[role] == SlotModel::Live(id)
            &&& after.joined.contains(role)
            &&& after.joined.contains(other) <==> room.joined.contains(other)
            &&& after.live == room.live + 1
        }),
{
}

/// A room ends exactly when both roles have joined it and nobody is live in
/// it; one that has not ended is kept. Other rooms are not touched.
pub proof fn rooms_end_when_both_have_left(
    rooms: Map<Seq<char>, RoomModel>,
    name: Seq<char>,
    role: Role,
    other: Seq<char>,
)
    requires
        rooms.dom().contains(name),
        rooms[name].live > 0,
    ensures
        ({
            let after = rooms_left(rooms, name, role);
            let room = rooms[name];
            let ends = room.live == 1 && room.joined.contains(Role::A) && room.joined.contains(
                Role::B,
            );
            &&& after.dom().contains(name) <==> !ends
            &&& other != name ==> (after.dom().contains(other) <==> rooms.dom().contains(other))
                && after[other] == rooms[other]
        }),
{
}

/// A room that nobody was in starts empty, with nobody joined; a room that is
/// there is joined as it is. Other rooms are not touched.
pub proof fn joins_find_their_room(
    rooms: Map<Seq<char>, RoomModel>,
    name: Seq<char>,
    role: Role,
    id: u64,
    other: Seq<char>,
)
    ensures
        rooms.dom().contains(name) ==> room_or_fresh(rooms, name) == rooms[name],
        !rooms.dom().contains(name) ==> {
            let room = room_or_fresh(rooms, name);
            &&& room.slots[Role::A] matches SlotModel::Absent(queue) && queue.len() == 0
            &&& room.slots[Role::B] matches SlotModel::Absent(queue) && queue.len() == 0
            &&& forall|r: Role| !room.joined.contains(r)
            &&& room.live == 0
        },
        rooms_joined(rooms, name, role, id).dom().contains(name),
        other != name ==> (rooms_joined(rooms, name, role, id).dom().contains(other)
            <==> rooms.dom().contains(other)) && rooms_joined(rooms, name, role, id)[other]
            == rooms[other],
{
}

/// What waits in a slot is its buffer, and what lives there its connection.
pub proof fn slots_are_live_or_waiting(id: u64, queue: Seq<FrameModel>)
    ensures
        live_id(SlotModel::Live(id)) == Some(id),
        live_id(SlotModel::Absent(queue)) is None,
        waiting(SlotModel::Live(id)).len() == 0,
        waiting(SlotModel::Absent(queue)) == queue,
{
}

/// Frames keep their kind and every byte.
pub proof fn frames_are_kept_whole(list: Seq<Frame>, i: int)
    requires
        0 <= i < list.len(),
    ensures
        frames(list).len() == list.len(),
        list[i] matches Frame::Text(text) ==> frames(list)[i] == FrameModel::Text(text@),
        list[i] matches Frame::Binary(bytes) ==> frames(list)[i] == FrameModel::Binary(bytes@),
{
}

/// What happens to a registry.
pub enum RoomTurn {
    Deliver { name: Seq<char>, to: Role, frame: FrameModel },
    Join { name: Seq<char>, role: Role, id: u64 },
    Leave { name: Seq<char>, role: Role },
}

/// The rooms after a turn.
pub open spec fn rooms_after(
    rooms: Map<Seq<char>, RoomModel>,
    turn: RoomTurn,
) -> Map<Seq<char>, RoomModel> {
    match turn {
        RoomTurn::Deliver { name, to, frame } => rooms_delivered(rooms, name, to, frame),
        RoomTurn::Join { name, role, id } => rooms_joined(rooms, name, role, id),
        RoomTurn::Leave { name, role } => rooms_left(rooms, name, role),
    }
}

/// The rooms of a fresh registry after `turns`.
pub open spec fn rooms_trace(turns: Seq<RoomTurn>) -> Map<Seq<char>, RoomModel>
    decreases turns.len(),
{
    if turns.len() == 0 {
        Map::empty()
    } else {
        rooms_after(rooms_trace(turns.drop_last()), turns.last())
    }
}

/// The frames delivered to `role` in the room `name` since the role last
/// joined or left it, while the room was there.
pub open spec fn frames_since(turns: Seq<RoomTurn>, name: Seq<char>, role: Role) -> Seq<FrameModel>
    decreases turns.len(),
{
    if turns.len() == 0 || !rooms_trace(turns).dom().contains(name) {
        Seq::empty()
    } else {
        let earlier = frames_since(turns.drop_last(), name, role);
        match turns.last() {
            RoomTurn::Deliver { name: n, to, frame } => if n == name && to == role {
                earlier.push(frame)
            } else {
                earlier
            },
            RoomTurn::Join { name: n, role: r, .. } => if n == name && r == role {
                Seq::empty()
            } else {
                earlier
            },
            RoomTurn::Leave { name: n, role: r } => if n == name && r == role {
                Seq::empty()
            } else {
                earlier
            },
        }
    }
}

/// Over any run of a registry, what waits for an absent role is the latest
/// 1024 of the frames delivered to it since it was last live, in order,
/// whatever the facing role, or anyone in another room, did in between.
pub proof fn backlogs_hold_the_latest_frames(turns: Seq<RoomTurn>, name: Seq<char>, role: Role)
    requires
        rooms_trace(turns).dom().contains(name),
        rooms_trace(turns)[name].slots[role] is Absent,
    ensures
        ({
            let queue = rooms_trace(turns)[name].slots[role]->Absent_0;
            let sent = frames_since(turns, name, role);
            let kept = if sent.len() <= 1024 {
                sent.len() as int
            } else {
                1024
            };
            &&& queue.len() == kept
            &&& forall|i: int| 0 <= i < kept ==> queue[i] == sent[sent.len() - kept + i]
        }),
    decreases turns.len(),
{
    let before = rooms_trace(turns.drop_last());
    match turns.last() {
        RoomTurn::Deliver { name: n, to, frame } => {
            assert(before.dom().contains(name));
            if n == name {
                deliveries_keep_presence(before, name, role, to, frame);
            }
            backlogs_hold_the_latest_frames(turns.drop_last(), name, role);
        },
        RoomTurn::Join { name: n, role: r, id } => {
            if n == name && r != role {
                if before.dom().contains(name) {
                    backlogs_hold_the_latest_frames(turns.drop_last(), name, role);
                } else {
                    let earlier = turns.drop_last();
                    assert(frames_since(earlier, name, role).len() == 0);
                }
            } else if n != name {
                backlogs_hold_the_latest_frames(turns.drop_last(), name, role);
            }
        },
        RoomTurn::Leave { name: n, role: r } => {
            if !(n == name && r == role) {
                backlogs_hold_the_latest_frames(turns.drop_last(), name, role);
            }
        },
    }
}

/// A delivery leaves the slots of a room live or absent as they were.
proof fn deliveries_keep_presence(
    rooms: Map<Seq<char>, RoomModel>,
    name: Seq<char>,
    role: Role,
    to: Role,
    frame: FrameModel,
)
    requires
        rooms.dom().contains(name),
    ensures
        ({
            let after = rooms_delivered(rooms, name, to, frame);
            &&& after[name].slots[role] is Absent <==> rooms[name].slots[role] is Absent
            &&& to != role ==> after[name].slots[role] == rooms[name].slots[role]
        }),
{
}

/// A path names its room and role, whatever slashes stand around it.
pub proof fn paths_name_their_room(path: Seq<char>)
    ensures
        match route_spec(path) {
            Ok((room, role)) => exists|from: int, to: int|
                {
                    &&& 0 <= from <= to <= path.len()
                    &&& forall|i: int| 0 <= i < from ==> path[i] == '/'
                    &&& forall|i: int| to <= i < path.len() ==> path[i] == '/'
                    &&& #[trigger] path.subrange(from, to) == "rooms/"@ + room + (if role == Role::A {
                        "/a"@
                    } else {
                        "/b"@
                    })
                    &&& room.len() > 0
                    &&& !room.contains('/')
                },
            Err(_) => true,
        },
{
    let left = trim_start(path, '/');
    let inner = trim_end(left, '/');
    trimming_starts_takes_the_run(path, '/');
    trimming_ends_takes_the_run(left, '/');
    splits_join_again(inner, '/');
    let parts = split_spec(inner, '/');
    if let Ok((room, role)) = route_spec(path) {
        let from = path.len() - left.len();
        let to = from + inner.len();
        assert(path.subrange(from, to) =~= inner);
        assert forall|i: int| to <= i < path.len() implies path[i] == '/' by {
            assert(left[i - from] == '/');
        }
        reveal_strlit("rooms/");
        reveal_strlit("rooms");
        reveal_strlit("/a");
        reveal_strlit("/b");
        reveal_strlit("a");
        reveal_strlit("b");
        let tail = parts.drop_first();
        assert(tail[0] == room);
        assert(tail.drop_first()[0] == parts[2]);
        assert(joined_by(tail.drop_first(), '/') == parts[2]);
        assert(joined_by(tail, '/') == room.push('/') + parts[2]);
        assert(inner == parts[0].push('/') + (room.push('/') + parts[2]));
        assert(inner =~= "rooms/"@ + room + (if role == Role::A {
            "/a"@
        } else {
            "/b"@
        }));
        if room.contains('/') {
            let j = choose|j: int| 0 <= j < room.len() && room[j] == '/';
            assert(parts[1][j] != '/');
        }
    }
}

/// Every path of the right form is routed.
pub proof fn roomed_paths_are_routed(room: Seq<char>, role: Role)
    requires
        room.len() > 0,
        !room.contains('/'),
    ensures
        route_spec(
            "/rooms/"@ + room + (if role == Role::A {
                "/a"@
            } else {
                "/b"@
            }),
        ) == Ok::<(Seq<char>, Role), Seq<char>>((room, role)),
{
    reveal_strlit("/rooms/");
    reveal_strlit("rooms");
    reveal_strlit("/a");
    reveal_strlit("/b");
    reveal_strlit("a");
    reveal_strlit("b");
    let last = if role == Role::A {
        "a"@
    } else {
        "b"@
    };
    let path = "/rooms/"@ + room + (if role == Role::A {
        "/a"@
    } else {
        "/b"@
    });
    let inner = "rooms"@.push('/') + (room.push('/') + last);
    assert(path.drop_first() =~= inner);
    assert(trim_start(path, '/') == trim_start(inner, '/'));
    assert(inner[0] != '/');
    assert(trim_start(inner, '/') == inner);
    assert(inner.last() != '/');
    assert(trim_end(inner, '/') == inner);
    splits_off_the_first("rooms"@, room.push('/') + last, '/');
    splits_off_the_first(room, last, '/');
    before_is_the_longest_start(last, '/');
    assert(before(last, '/') =~= last) by {
        if before(last, '/').len() < last.len() {
            assert(last[before(last, '/').len() as int] == '/');
        }
    }
    let parts = split_spec(inner, '/');
    assert(parts =~= seq!["rooms"@, room, last]);
    assert("a"@ != "b"@) by {
        assert("a"@[0] != "b"@[0]);
    }
}

/// A start without the separator is the first part.
proof fn splits_off_the_first(head: Seq<char>, rest: Seq<char>, c: char)
    requires
        !head.contains(c),
    ensures
        split_spec(head.push(c) + rest, c) == seq![head] + split_spec(rest, c),
{
    let s = head.push(c) + rest;
    before_is_the_longest_start(s, c);
    let first = before(s, c);
    if first.len() < head.len() {
        assert(s[first.len() as int] == head[first.len() as int]);
        assert(head.contains(c));
    }
    if first.len() > head.len() {
        assert(s[head.len() as int] == c);
    }
    assert(first =~= head);
    assert(s.skip(head.len() as int + 1) =~= rest);
}

/// Listening addresses are read pair by pair: `--addr` and its value give one
/// address, in front of those that follow.
pub proof fn arguments_are_read_in_pairs(addr: Seq<char>, rest: Seq<Seq<char>>, arg: Seq<char>)
    ensures
        args_spec(Seq::empty()).0.len() == 0,
        args_spec(Seq::empty()).1 is None,
        args_spec(seq!["--addr"@, addr] + rest) == (
            seq![addr] + args_spec(rest).0,
            args_spec(rest).1,
        ),
        args_spec(seq!["--addr"@]).1 == Some("--addr needs a value"@),
        arg != "--addr"@ ==> args_spec(seq![arg] + rest).0.len() == 0 && args_spec(
            seq![arg] + rest,
        ).1 == Some(
            "unknown argument "@ + debug_text(arg)
                + " (usage: iroh-spike-relayd [--addr IP:PORT])"@,
        ),
{
    let pair = seq!["--addr"@, addr] + rest;
    assert(pair.skip(2) =~= rest);
}

/// Over any run of a registry, the backlog that an absent role gets on joining
/// is the latest 1024 of the frames delivered to it since it was last live; a
/// role that enters a room that is not there gets none.
pub proof fn joining_roles_get_the_latest_frames(turns: Seq<RoomTurn>, name: Seq<char>, role: Role)
    requires
        rooms_trace(turns).dom().contains(name) ==> rooms_trace(turns)[name].slots[role] is Absent,
    ensures
        ({
            let backlog = waiting(room_or_fresh(rooms_trace(turns), name).slots[role]);
            let sent = frames_since(turns, name, role);
            let kept = if sent.len() <= 1024 {
                sent.len() as int
            } else {
                1024
            };
            &&& backlog.len() == kept
            &&& forall|i: int| 0 <= i < kept ==> backlog[i] == sent[sent.len() - kept + i]
        }),
{
    if rooms_trace(turns).dom().contains(name) {
        backlogs_hold_the_latest_frames(turns, name, role);
    }
}

/// Rooms are seen whole: each under its name, with its slots, the roles that
/// have joined and the number of live connections.
pub proof fn rooms_are_seen_whole(registry: Registry, i: int)
    requires
        registry.wf(),
        0 <= i < registry.rooms@.len(),
    ensures
        ({
            let entry = registry.rooms@[i];
            let seen = registry@[entry.name@];
            &&& registry@.dom().contains(entry.name@)
            &&& seen.slots[Role::A] == entry.room.slot_a@
            &&& seen.slots[Role::B] == entry.room.slot_b@
            &&& seen.joined.contains(Role::A) <==> entry.room.joined_a
            &&& seen.joined.contains(Role::B) <==> entry.room.joined_b
            &&& seen.live == entry.room.live
        }),
{
    assoc_at(room_list(registry.rooms@), i);
}

/// A slot is seen whole: its live connection, or every frame that waits.
pub proof fn slots_are_seen_whole(slot: Slot, i: int)
    ensures
        slot matches Slot::Live(id) ==> slot@ == SlotModel::Live(id),
        slot matches Slot::Absent(queue) ==> {
            &&& slot@ matches SlotModel::Absent(seen)
            &&& seen.len() == queue@.len()
            &&& 0 <= i < queue@.len() ==> seen[i] == queue@[i]@
        },
{
}

/// The two roles are named "a" and "b", and face each other.
pub proof fn roles_face_each_other(name: Seq<char>, role: Role)
    ensures
        role_named("a"@) == Some(Role::A),
        role_named("b"@) == Some(Role::B),
        name != "a"@ && name != "b"@ ==> role_named(name) is None,
        facing(role) != role,
{
    reveal_strlit("a");
    reveal_strlit("b");
    assert("a"@[0] != "b"@[0]);
}

/// A delivery to an absent role puts the frame at the back of what waits for
/// it, and drops the oldest one from a full buffer of 1024; one to a live role
/// changes nothing, nor does one to a room that is not there. The facing slot
/// and every other room stay as they are.
pub proof fn deliveries_touch_their_slot_alone(
    rooms: Map<Seq<char>, RoomModel>,
    name: Seq<char>,
    to: Role,
    frame: FrameModel,
    other: Seq<char>,
    role: Role,
    i: int,
)
    ensures
        ({
            let after = rooms_delivered(rooms, name, to, frame);
            &&& after.dom() =~= rooms.dom()
            &&& other != name ==> after[other] == rooms[other]
            &&& !rooms.dom().contains(name) ==> after == rooms
            &&& rooms.dom().contains(name) ==> {
                let before = rooms[name];
                &&& role != to ==> after[name].slots[role] == before.slots[role]
                &&& after[name].joined == before.joined
                &&& after[name].live == before.live
                &&& before.slots[to] is Live ==> after == rooms
                &&& before.slots[to] matches SlotModel::Absent(queue) ==> {
                    let dropped = if queue.len() >= 1024 {
                        1int
                    } else {
                        0
                    };
                    &&& after[name].slots[to] matches SlotModel::Absent(longer)
                    &&& longer.len() == queue.len() + 1 - dropped
                    &&& longer.last() == frame
                    &&& 0 <= i < queue.len() - dropped ==> longer[i] == queue[i + dropped]
                }
            }
        }),
{
}

/// A path that does not name a room and a role is refused.
pub proof fn other_paths_are_refused(path: Seq<char>)
    requires
        forall|from: int, to: int, room: Seq<char>, role: Role|
            0 <= from <= to <= path.len() && room.len() > 0 && !room.contains('/') ==> !(
            #[trigger] path.subrange(from, to) == #[trigger] room_path(room, role)),
    ensures
        route_spec(path) is Err,
{
    paths_name_their_room(path);
    if let Ok((room, role)) = route_spec(path) {
        let (from, to) = choose|from: int, to: int|
            {
                &&& 0 <= from <= to <= path.len()
                &&& #[trigger] path.subrange(from, to) == "rooms/"@ + room + (if role == Role::A {
                    "/a"@
                } else {
                    "/b"@
                })
                &&& room.len() > 0
                &&& !room.contains('/')
            };
        assert(path.subrange(from, to) == room_path(room, role));
    }
}

/// The path of a role in a room, without its outer slashes.
pub open spec fn room_path(room: Seq<char>, role: Role) -> Seq<char> {
    "rooms/"@ + room + (if role == Role::A {
        "/a"@
    } else {
        "/b"@
    })
}

} // verus!
