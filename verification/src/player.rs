//! Who plays a fighter: the player's number, and the tag (the name) the
//! player chose, which the game keeps in a table of UTF-16 strings.
use vstd::prelude::*;
use vstd::utf8::{decode_utf8, valid_utf8};

verus! {

/// Offset of the player tag table from the start of the game's code.
pub const TAG_TABLE: u64 = 0x52c_3758;
/// Distance between two players' entries in the tag table.
pub const TAG_STRIDE: u64 = 0x260;
/// Offset of the tag within a player's entry.
pub const TAG_OFFSET: u64 = 0x8e;

/// The address of a player's tag, given where the game's code starts: the
/// tag table's entry for the player, and the tag within it.
pub open spec fn tag_address_spec(text: u64, player: usize) -> int {
    text + TAG_TABLE + TAG_STRIDE * player + TAG_OFFSET
}

/// The address of a player's tag, given where the game's code starts;
/// `None` where it does not fit in 64 bits.
pub fn tag_address(text: u64, player: usize) -> (r: Option<u64>)
    ensures
        r is Some <==> tag_address_spec(text, player) <= u64::MAX,
        r matches Some(a) ==> a == tag_address_spec(text, player),
{
    let p = player as u64;
    if text > u64::MAX - TAG_TABLE {
        return None;
    }
    let base = text + TAG_TABLE;
    let room: u64 = u64::MAX - base;
    let most: u64 = room / TAG_STRIDE;
    if p > most {
        assert(0x260 * (p as int) > room as int) by (nonlinear_arith)
            requires
                p > most,
                most as int == room as int / 0x260,
        ;
        return None;
    }
    assert(0x260 * (p as int) <= room as int) by (nonlinear_arith)
        requires
            p <= most,
            most as int == room as int / 0x260,
    ;
    let row = base + TAG_STRIDE * p;
    if row > u64::MAX - TAG_OFFSET {
        return None;
    }
    Some(row + TAG_OFFSET)
}

/// The byte the game keeps of a UTF-16 unit of a tag: its low byte, the
/// first in memory on the little-endian console.
pub open spec fn low_byte(unit: u16) -> u8 {
    (unit % 256) as u8
}

/// The number of units of a tag before its terminating zero (or all of them).
pub open spec fn tag_len(units: Seq<u16>) -> nat
    decreases units.len(),
{
    if units.len() == 0 || units[0] == 0 {
        0
    } else {
        1 + tag_len(units.drop_first())
    }
}

/// The bytes of a tag: the low byte of each unit before the terminating zero.
pub open spec fn tag_bytes(units: Seq<u16>) -> Seq<u8> {
    Seq::new(tag_len(units), |i: int| low_byte(units[i]))
}

proof fn lemma_tag_len_prefix(units: Seq<u16>, i: int)
    requires
        0 <= i <= units.len(),
        forall|j: int| 0 <= j < i ==> units[j] != 0,
    ensures
        tag_len(units) == i + tag_len(units.subrange(i, units.len() as int)),
    decreases i,
{
    if i > 0 {
        let rest = units.drop_first();
        assert forall|j: int| 0 <= j < i - 1 implies rest[j] != 0 by {
            assert(rest[j] == units[j + 1]);
        }
        lemma_tag_len_prefix(rest, i - 1);
        assert(rest.subrange(i - 1, rest.len() as int) =~= units.subrange(i, units.len() as int));
    } else {
        assert(units.subrange(0, units.len() as int) =~= units);
    }
}

proof fn lemma_tag_len_bound(units: Seq<u16>)
    ensures
        tag_len(units) <= units.len(),
    decreases units.len(),
{
    if units.len() > 0 && units[0] != 0 {
        lemma_tag_len_bound(units.drop_first());
    }
}

/// The bytes of a tag.
pub fn tag_bytes_of(units: &[u16]) -> (bytes: Vec<u8>)
    ensures
        bytes@ == tag_bytes(units@),
{
    let mut bytes: Vec<u8> = Vec::new();
    let mut i: usize = 0;
    while i < units.len() && units[i] != 0
        invariant
            i <= units.len(),
            forall|j: int| 0 <= j < i ==> units@[j] != 0,
            bytes@ == Seq::new(i as nat, |j: int| low_byte(units@[j])),
        decreases units.len() - i,
    {
        bytes.push((units[i] % 256) as u8);
        i = i + 1;
        assert(bytes@ =~= Seq::new(i as nat, |j: int| low_byte(units@[j])));
    }
    proof {
        lemma_tag_len_prefix(units@, i as int);
        let rest = units@.subrange(i as int, units@.len() as int);
        assert(rest.len() == 0 || rest[0] == 0);
        assert(tag_len(rest) == 0);
        assert(bytes@ =~= tag_bytes(units@));
    }
    bytes
}

/// `std::str::from_utf8`, then owned: the text that the bytes encode,
/// `None` where they are not UTF-8.  Its contract states what the function's
/// documentation promises: success exactly on valid UTF-8, and then the
/// characters those bytes encode.
#[verifier::external_body]
fn utf8_text(bytes: &[u8]) -> (r: Option<String>)
    ensures
        r is Some <==> valid_utf8(bytes@),
        r matches Some(s) ==> s@ == decode_utf8(bytes@),
{
    match std::str::from_utf8(bytes) {
        Ok(s) => Some(s.to_owned()),
        Err(_) => None,
    }
}

/// The player's tag read from its UTF-16 units, or `None` where its bytes
/// are not UTF-8.
pub fn decode_tag(units: &[u16]) -> (r: Option<String>)
    ensures
        r is Some <==> valid_utf8(tag_bytes(units@)),
        r matches Some(s) ==> s@ == decode_utf8(tag_bytes(units@)),
{
    let bytes = tag_bytes_of(units);
    utf8_text(bytes.as_slice())
}

/// The player's tag read from its UTF-16 units: the low byte of each unit
/// before the terminating zero, read as UTF-8.
pub fn read_tag(units: &[u16]) -> (r: String)
    requires
        valid_utf8(tag_bytes(units@)),
    ensures
        r@ == decode_utf8(tag_bytes(units@)),
{
    match decode_tag(units) {
        Some(s) => s,
        None => {
            proof {
                assert(false);
            }
            String::new()
        },
    }
}

/// The game's numbers for the object kinds the player lookup tests.
#[derive(Clone, Copy, Debug, PartialEq, Eq, Structural)]
pub struct ObjectKinds {
    /// The kind of the Pokémon Trainer's trainer object.
    pub trainer_kind: i32,
    /// The category of fighters.
    pub fighter_category: i32,
}

/// What the lookup has read last about the object it looks at.
#[derive(Clone, Copy, Debug, PartialEq, Eq, Structural)]
pub enum Stage {
    /// The kind of the object the lookup starts from.
    Kind,
    /// The category of the object.
    Category,
    /// The battle-object id of the object's owner.
    Owner,
    /// The entry number the object keeps.
    Entry,
}

/// A work value of an object that the hook is to read.
#[derive(Clone, Copy, Debug, PartialEq, Eq, Structural)]
pub enum Probe {
    /// The object's category.
    Category,
    /// The fighter entry that a trainer object keeps.
    TrainerEntry,
    /// The entry that a fighter keeps.
    FighterEntry,
    /// The id of the object that owns a weapon.
    LinkOwner,
}

/// The next step of a lookup.
#[derive(Clone, Copy, Debug, PartialEq, Eq, Structural)]
pub enum Lookup {
    /// Read this of the current object.
    Read(Probe),
    /// Go to the object with this id and read its category.
    Visit(u32),
    /// The player's number.
    Found(usize),
}

/// One step of finding the player that an object belongs to: a trainer
/// keeps its fighter's entry, a fighter its own; any other object is a
/// weapon, whose owners are followed until a fighter is reached.
pub open spec fn player_step(stage: Stage, value: i32, t: ObjectKinds) -> (Stage, Lookup) {
    match stage {
        Stage::Kind => if value == t.trainer_kind {
            (Stage::Entry, Lookup::Read(Probe::TrainerEntry))
        } else {
            (Stage::Category, Lookup::Read(Probe::Category))
        },
        Stage::Category => if value == t.fighter_category {
            (Stage::Entry, Lookup::Read(Probe::FighterEntry))
        } else {
            (Stage::Owner, Lookup::Read(Probe::LinkOwner))
        },
        Stage::Owner => (Stage::Category, Lookup::Visit(value as u32)),
        Stage::Entry => (Stage::Entry, Lookup::Found(value as usize)),
    }
}

/// One step of finding a player's number: given what was read last (the
/// kind of the starting object first), what to read or where to go next.
pub fn get_player_number(stage: Stage, value: i32, t: &ObjectKinds) -> (r: (Stage, Lookup))
    ensures
        r == player_step(stage, value, *t),
{
    match stage {
        Stage::Kind => if value == t.trainer_kind {
            (Stage::Entry, Lookup::Read(Probe::TrainerEntry))
        } else {
            (Stage::Category, Lookup::Read(Probe::Category))
        },
        Stage::Category => if value == t.fighter_category {
            (Stage::Entry, Lookup::Read(Probe::FighterEntry))
        } else {
            (Stage::Owner, Lookup::Read(Probe::LinkOwner))
        },
        Stage::Owner => (Stage::Category, Lookup::Visit(value as u32)),
        Stage::Entry => (Stage::Entry, Lookup::Found(value as usize)),
    }
}

/// A player's number is found only from an entry that a trainer or a fighter
/// keeps: the lookup reads an entry only of a trainer (first object) or of an
/// object of the fighter category, and every owner it visits is tested for
/// being a fighter first.
pub proof fn lemma_found_only_from_entries(stage: Stage, value: i32, t: ObjectKinds)
    ensures
        player_step(stage, value, t).1 is Found ==> stage == Stage::Entry,
        player_step(stage, value, t).1 == Lookup::Read(Probe::TrainerEntry) ==> stage
            == Stage::Kind && value == t.trainer_kind,
        player_step(stage, value, t).1 == Lookup::Read(Probe::FighterEntry) ==> stage
            == Stage::Category && value == t.fighter_category,
        player_step(stage, value, t).1 is Visit ==> player_step(stage, value, t).0
            == Stage::Category,
{
}


/// What the lookup can read of one battle object.
#[derive(Clone, Copy, Debug, PartialEq, Eq, Structural)]
pub struct ObjectFacts {
    pub kind: i32,
    pub category: i32,
    /// The fighter entry that a trainer object keeps.
    pub trainer_entry: i32,
    /// The entry that a fighter keeps.
    pub fighter_entry: i32,
    /// The id of the object that owns a weapon.
    pub owner: i32,
}

/// The value a probe reads of an object.
pub open spec fn probe_value(o: ObjectFacts, p: Probe) -> i32 {
    match p {
        Probe::Category => o.category,
        Probe::TrainerEntry => o.trainer_entry,
        Probe::FighterEntry => o.fighter_entry,
        Probe::LinkOwner => o.owner,
    }
}

/// The lookup run as the hook runs it, against the objects of `world` (by
/// id), from object `obj` at `stage` with `value` read last, for at most
/// `fuel` steps: the player's number, or `None` when the steps run out.
pub open spec fn run_lookup(
    world: spec_fn(u32) -> ObjectFacts,
    t: ObjectKinds,
    obj: u32,
    stage: Stage,
    value: i32,
    fuel: nat,
) -> Option<usize>
    decreases fuel,
{
    if fuel == 0 {
        None
    } else {
        let (next, step) = player_step(stage, value, t);
        match step {
            Lookup::Read(p) => run_lookup(world, t, obj, next, probe_value(world(obj), p), (fuel - 1) as nat),
            Lookup::Visit(id) => run_lookup(world, t, id, next, world(id).category, (fuel - 1) as nat),
            Lookup::Found(n) => Some(n),
        }
    }
}

/// The entry of the first fighter on the chain of owners that starts at
/// `obj`, looking at no more than `depth` objects.
pub open spec fn chain_entry(world: spec_fn(u32) -> ObjectFacts, t: ObjectKinds, obj: u32, depth: nat) -> Option<usize>
    decreases depth,
{
    if depth == 0 {
        None
    } else if world(obj).category == t.fighter_category {
        Some(world(obj).fighter_entry as usize)
    } else {
        chain_entry(world, t, world(obj).owner as u32, (depth - 1) as nat)
    }
}

/// The player an object belongs to: a trainer's fighter entry, or the entry
/// of the first fighter on its chain of owners.
pub open spec fn player_of(world: spec_fn(u32) -> ObjectFacts, t: ObjectKinds, obj: u32, depth: nat) -> Option<usize> {
    if world(obj).kind == t.trainer_kind {
        Some(world(obj).trainer_entry as usize)
    } else {
        chain_entry(world, t, obj, depth)
    }
}

proof fn lemma_lookup_follows_the_chain(world: spec_fn(u32) -> ObjectFacts, t: ObjectKinds, obj: u32, depth: nat)
    ensures
        run_lookup(world, t, obj, Stage::Category, world(obj).category, 2 * depth) == chain_entry(world, t, obj, depth),
    decreases depth,
{
    if depth > 0 {
        let o = world(obj);
        let fuel: nat = 2 * depth;
        if o.category == t.fighter_category {
            assert(run_lookup(world, t, obj, Stage::Entry, o.fighter_entry, (fuel - 1) as nat) == Some(o.fighter_entry as usize));
        } else {
            let owner = o.owner as u32;
            lemma_lookup_follows_the_chain(world, t, owner, (depth - 1) as nat);
            assert(run_lookup(world, t, obj, Stage::Owner, o.owner, (fuel - 1) as nat) == run_lookup(world, t, owner, Stage::Category, world(owner).category, (fuel - 2) as nat));
            assert((fuel - 2) as nat == 2 * ((depth - 1) as nat));
        }
    }
}

/// The lookup finds the player an object belongs to: given room for the
/// chain of owners, it ends with the trainer's fighter entry, or with the
/// entry of the first fighter among the object and its owners.
pub proof fn lemma_lookup_finds_the_player(world: spec_fn(u32) -> ObjectFacts, t: ObjectKinds, obj: u32, depth: nat)
    requires
        depth >= 1,
    ensures
        run_lookup(world, t, obj, Stage::Kind, world(obj).kind, 2 * depth + 1) == player_of(world, t, obj, depth),
{
    let o = world(obj);
    lemma_lookup_follows_the_chain(world, t, obj, depth);
    if o.kind == t.trainer_kind {
        assert(run_lookup(world, t, obj, Stage::Entry, o.trainer_entry, 2 * depth) == Some(o.trainer_entry as usize));
    }
}
} // verus!
