//! The registry of connected players: who is connected, through which
//! channel the controller reaches them, and which display color each name
//! was given.

use crate::gametraits::{user_views, Color, User, UserView};
use vstd::hash_map::StringHashMap;
use vstd::prelude::*;

verus! {

/// The colors handed out to the first names that ask, last one first.
pub open spec fn palette() -> Seq<Color> {
    seq![
        Color { r: 0, g: 0, b: 0 },
        Color { r: 128, g: 128, b: 128 },
        Color { r: 0, g: 0, b: 128 },
        Color { r: 255, g: 215, b: 180 },
        Color { r: 128, g: 128, b: 0 },
        Color { r: 170, g: 255, b: 195 },
        Color { r: 128, g: 0, b: 0 },
        Color { r: 255, g: 250, b: 200 },
        Color { r: 170, g: 110, b: 40 },
        Color { r: 220, g: 190, b: 255 },
        Color { r: 0, g: 128, b: 128 },
        Color { r: 250, g: 190, b: 212 },
        Color { r: 210, g: 245, b: 60 },
        Color { r: 240, g: 50, b: 230 },
        Color { r: 70, g: 240, b: 240 },
        Color { r: 145, g: 30, b: 180 },
        Color { r: 245, g: 130, b: 48 },
        Color { r: 0, g: 130, b: 200 },
        Color { r: 255, g: 225, b: 25 },
        Color { r: 60, g: 180, b: 75 },
        Color { r: 230, g: 25, b: 75 },
    ]
}

/// The color that every name shares once the palette is used up.
pub open spec fn fallback_color() -> Color {
    Color { r: 128, g: 128, b: 128 }
}

/// What a `PaintBucket` is in contracts: the colors not yet handed
/// out, and the color of every name that ever asked.
pub struct PaintBucketView {
    pub free: Seq<Color>,
    pub taken: Map<Seq<char>, Color>,
}

impl PaintBucketView {
    /// No free color occurs twice, and none of them is already taken.
    pub open spec fn wf(self) -> bool {
        &&& self.free.no_duplicates()
        &&& forall|name: Seq<char>| #[trigger]
            self.taken.contains_key(name) ==> !self.free.contains(self.taken[name])
    }

    /// The color that `name` gets: the one it has, else the last free
    /// one, else the fallback.
    pub open spec fn color_of(self, name: Seq<char>) -> Color {
        if self.taken.contains_key(name) {
            self.taken[name]
        } else if self.free.len() > 0 {
            self.free.last()
        } else {
            fallback_color()
        }
    }

    /// The bucket after `name` asked for its color.
    pub open spec fn assigned(self, name: Seq<char>) -> PaintBucketView {
        if self.taken.contains_key(name) {
            self
        } else {
            PaintBucketView {
                free: if self.free.len() > 0 {
                    self.free.drop_last()
                } else {
                    self.free
                },
                taken: self.taken.insert(name, self.color_of(name)),
            }
        }
    }
}

/// A bucket that is in order stays so when a name asks for its color.
pub proof fn lemma_assigned_wf(bucket: PaintBucketView, name: Seq<char>)
    requires
        bucket.wf(),
    ensures
        bucket.assigned(name).wf(),
{
    let after = bucket.assigned(name);
    if !bucket.taken.contains_key(name) {
        let color = bucket.color_of(name);
        assert forall|other: Seq<char>| #[trigger] after.taken.contains_key(other) implies
            !after.free.contains(after.taken[other]) by {
            if other == name {
                if bucket.free.len() > 0 {
                    assert(bucket.free[bucket.free.len() - 1] == color);
                    if after.free.contains(color) {
                        let k = choose|k: int| 0 <= k < after.free.len() && after.free[k] == color;
                        assert(bucket.free[k] == color);
                    }
                }
            } else {
                assert(bucket.taken.contains_key(other));
                if after.free.contains(after.taken[other]) {
                    let k = choose|k: int|
                        0 <= k < after.free.len() && after.free[k] == after.taken[other];
                    assert(bucket.free[k] == bucket.taken[other]);
                }
            }
        }
    }
}

/// The assignment of display colors to names. A name keeps its color for
/// as long as the bucket lives.
pub struct PaintBucket {
    free_paints: Vec<Color>,
    taken_paints: StringHashMap<Color>,
}

impl View for PaintBucket {
    type V = PaintBucketView;

    closed spec fn view(&self) -> PaintBucketView {
        PaintBucketView { free: self.free_paints@, taken: self.taken_paints@ }
    }
}

impl PaintBucket {
    /// A bucket with the whole palette free.
    pub fn new() -> (bucket: Self)
        ensures
            bucket@ == (PaintBucketView { free: palette(), taken: Map::empty() }),
            bucket@.wf(),
    {
        let mut free_paints: Vec<Color> = Vec::new();
        free_paints.push(Color::rgb8(0, 0, 0));
        free_paints.push(Color::rgb8(128, 128, 128));
        free_paints.push(Color::rgb8(0, 0, 128));
        free_paints.push(Color::rgb8(255, 215, 180));
        free_paints.push(Color::rgb8(128, 128, 0));
        free_paints.push(Color::rgb8(170, 255, 195));
        free_paints.push(Color::rgb8(128, 0, 0));
        free_paints.push(Color::rgb8(255, 250, 200));
        free_paints.push(Color::rgb8(170, 110, 40));
        free_paints.push(Color::rgb8(220, 190, 255));
        free_paints.push(Color::rgb8(0, 128, 128));
        free_paints.push(Color::rgb8(250, 190, 212));
        free_paints.push(Color::rgb8(210, 245, 60));
        free_paints.push(Color::rgb8(240, 50, 230));
        free_paints.push(Color::rgb8(70, 240, 240));
        free_paints.push(Color::rgb8(145, 30, 180));
        free_paints.push(Color::rgb8(245, 130, 48));
        free_paints.push(Color::rgb8(0, 130, 200));
        free_paints.push(Color::rgb8(255, 225, 25));
        free_paints.push(Color::rgb8(60, 180, 75));
        free_paints.push(Color::rgb8(230, 25, 75));
        assert(free_paints@ =~= palette());
        Self { free_paints, taken_paints: StringHashMap::new() }
    }

    /// The color of `name`: the one it was given before, else the next
    /// free one, which is then its own; once the palette is used up, the
    /// fallback.
    pub fn get(&mut self, name: &String) -> (color: Color)
        requires
            old(self)@.wf(),
        ensures
            color == old(self)@.color_of(name@),
            final(self)@ == old(self)@.assigned(name@),
            final(self)@.wf(),
    {
        let known = match self.taken_paints.get(name.as_str()) {
            Some(color) => Some(*color),
            None => None,
        };
        match known {
            Some(color) => color,
            None => {
                let ghost before = self@;
                let c = match self.free_paints.pop() {
                    Some(c) => c,
                    None => Color::rgb8(128, 128, 128),
                };
                self.taken_paints.insert(name.clone(), c);
                proof {
                    assert(self@.free =~= before.assigned(name@).free);
                    lemma_assigned_wf(before, name@);
                }
                c
            },
        }
    }
}

/// What a `PlayerInfo` is in contracts.
pub struct PlayerInfoView<C> {
    pub name: Seq<char>,
    pub color: Color,
    pub tx: C,
}

/// One connected player: the name, the display color and the channel on
/// which the controller reaches the player.
pub struct PlayerInfo<C> {
    pub name: String,
    pub color: Color,
    pub tx: C,
}

impl<C> View for PlayerInfo<C> {
    type V = PlayerInfoView<C>;

    open spec fn view(&self) -> PlayerInfoView<C> {
        PlayerInfoView { name: self.name@, color: self.color, tx: self.tx }
    }
}

impl<C> PlayerInfo<C> {
    /// The player as rule engines see it: the name and the color.
    pub fn user(&self) -> (user: User)
        ensures
            user@.name == self@.name,
            user@.color == self@.color,
    {
        User { name: self.name.clone(), color: self.color }
    }
}

/// The characters of each of `names`, in the same order.
pub open spec fn name_views(names: Seq<String>) -> Seq<Seq<char>> {
    names.map_values(|name: String| name@)
}

/// The views of a sequence of entries, in the same order.
pub open spec fn entry_views<C>(entries: Seq<PlayerInfo<C>>) -> Seq<PlayerInfoView<C>> {
    entries.map_values(|e: PlayerInfo<C>| e@)
}

/// The entries that do not go by `name`, in their old order.
pub open spec fn entries_without<C>(entries: Seq<PlayerInfoView<C>>, name: Seq<char>) -> Seq<
    PlayerInfoView<C>,
> {
    entries.filter(|e: PlayerInfoView<C>| e.name != name)
}

/// Whether an entry goes by `name`.
pub open spec fn has_entry<C>(entries: Seq<PlayerInfoView<C>>, name: Seq<char>) -> bool {
    exists|i: int| 0 <= i < entries.len() && (#[trigger] entries[i]).name == name
}

/// What a `PlayerTable` is in contracts: the entries in the order
/// in which they were added, and the color bucket.
pub struct PlayerTableView<C> {
    pub entries: Seq<PlayerInfoView<C>>,
    pub bucket: PaintBucketView,
}

impl<C> PlayerTableView<C> {
    /// No name is registered twice, and every entry wears the color that
    /// the bucket holds for its name.
    pub open spec fn wf(self) -> bool {
        &&& self.bucket.wf()
        &&& names_differ(self.entries)
        &&& forall|i: int|
            0 <= i < self.entries.len() ==> {
                &&& self.bucket.taken.contains_key((#[trigger] self.entries[i]).name)
                &&& self.bucket.taken[self.entries[i].name] == self.entries[i].color
            }
    }

    /// Whether `name` is registered.
    pub open spec fn contains(self, name: Seq<char>) -> bool {
        has_entry(self.entries, name)
    }

    /// The table after `name` left. The bucket keeps the color.
    pub open spec fn removed(self, name: Seq<char>) -> PlayerTableView<C> {
        PlayerTableView { entries: entries_without(self.entries, name), bucket: self.bucket }
    }

    /// The table after `name` joined with channel `tx`: an older entry of
    /// that name is gone, and the new one stands last.
    pub open spec fn added(self, name: Seq<char>, tx: C) -> PlayerTableView<C> {
        PlayerTableView {
            entries: entries_without(self.entries, name).push(
                PlayerInfoView { name, color: self.bucket.color_of(name), tx },
            ),
            bucket: self.bucket.assigned(name),
        }
    }

    /// The table after the players called `names` left, one after the
    /// other.
    pub open spec fn without_all(self, names: Seq<Seq<char>>) -> PlayerTableView<C>
        decreases names.len(),
    {
        if names.len() == 0 {
            self
        } else {
            self.without_all(names.drop_last()).removed(names.last())
        }
    }

    /// The registered players as rule engines see them, in table order.
    pub open spec fn roster(self) -> Seq<UserView> {
        self.entries.map_values(
            |e: PlayerInfoView<C>| UserView { name: e.name, color: e.color },
        )
    }
}

/// The entries that stay when `name` leaves come from the old entries,
/// and none of them goes by `name`.
pub proof fn lemma_kept_are_old<C>(entries: Seq<PlayerInfoView<C>>, name: Seq<char>)
    ensures
        forall|i: int|
            0 <= i < entries_without(entries, name).len() ==> {
                &&& (#[trigger] entries_without(entries, name)[i]).name != name
                &&& entries.contains(entries_without(entries, name)[i])
            },
        entries_without(entries, name).len() <= entries.len(),
{
    let keep = |e: PlayerInfoView<C>| e.name != name;
    let kept = entries_without(entries, name);
    entries.lemma_filter_len(keep);
    assert forall|i: int| 0 <= i < kept.len() implies {
        &&& (#[trigger] kept[i]).name != name
        &&& entries.contains(kept[i])
    } by {
        entries.lemma_filter_pred(keep, i);
        assert(kept.contains(kept[i]));
        entries.lemma_filter_contains_rev(keep, kept[i]);
    }
}

/// Every entry that does not go by `name` stays when `name` leaves.
pub proof fn lemma_others_are_kept<C>(entries: Seq<PlayerInfoView<C>>, name: Seq<char>)
    ensures
        forall|k: int|
            0 <= k < entries.len() && (#[trigger] entries[k]).name != name ==> entries_without(
                entries,
                name,
            ).contains(entries[k]),
{
    let keep = |e: PlayerInfoView<C>| e.name != name;
    assert forall|k: int| 0 <= k < entries.len() && (#[trigger] entries[k]).name
        != name implies entries_without(entries, name).contains(entries[k]) by {
        entries.lemma_filter_contains(keep, k);
    }
}

/// Whether no two of `entries` go by the same name.
pub open spec fn names_differ<C>(entries: Seq<PlayerInfoView<C>>) -> bool {
    forall|i: int, j: int|
        0 <= i < j < entries.len() ==> (#[trigger] entries[i]).name != (#[trigger] entries[j]).name
}

/// Where no two entries go by the same name, no two of those that stay
/// when `name` leaves do.
pub proof fn lemma_names_still_differ<C>(entries: Seq<PlayerInfoView<C>>, name: Seq<char>)
    requires
        names_differ(entries),
    ensures
        names_differ(entries_without(entries, name)),
    decreases entries.len(),
{
    let keep = |e: PlayerInfoView<C>| e.name != name;
    let kept = entries_without(entries, name);
    if entries.len() == 0 {
        entries.lemma_filter_len(keep);
    } else {
        let rest = entries.drop_last();
        let last = entries.last();
        let kept_rest = entries_without(rest, name);
        assert(names_differ(rest)) by {
            assert forall|i: int, j: int| 0 <= i < j < rest.len() implies (#[trigger] rest[i]).name
                != (#[trigger] rest[j]).name by {
                assert(entries[i].name != entries[j].name);
            }
        }
        lemma_names_still_differ(rest, name);
        lemma_kept_are_old(rest, name);
        assert(entries =~= rest.push(last));
        rest.lemma_filter_push(last, keep);
        assert forall|i: int, j: int| 0 <= i < j < kept.len() implies (#[trigger] kept[i]).name
            != (#[trigger] kept[j]).name by {
            if j < kept_rest.len() {
                assert(kept_rest[i].name != kept_rest[j].name);
            } else {
                assert(rest.contains(kept_rest[i]));
                let a = choose|a: int| 0 <= a < rest.len() && rest[a] == kept_rest[i];
                assert(entries[a].name != entries[entries.len() - 1].name);
            }
        }
    }
}

/// Where nobody goes by `name`, everybody stays when `name` leaves.
pub proof fn lemma_absent_name_removes_nobody<C>(entries: Seq<PlayerInfoView<C>>, name: Seq<char>)
    requires
        !has_entry(entries, name),
    ensures
        entries_without(entries, name) == entries,
    decreases entries.len(),
{
    let keep = |e: PlayerInfoView<C>| e.name != name;
    if entries.len() == 0 {
        entries.lemma_filter_len(keep);
        assert(entries.filter(keep) =~= entries);
    } else {
        let rest = entries.drop_last();
        let last = entries.last();
        assert(!has_entry(rest, name)) by {
            if has_entry(rest, name) {
                let i = choose|i: int| 0 <= i < rest.len() && (#[trigger] rest[i]).name == name;
                assert(entries[i].name == name);
            }
        }
        lemma_absent_name_removes_nobody(rest, name);
        assert(entries[entries.len() - 1].name != name);
        assert(entries =~= rest.push(last));
        rest.lemma_filter_push(last, keep);
    }
}

/// A table that is in order stays so when a name leaves.
pub proof fn lemma_removed_wf<C>(table: PlayerTableView<C>, name: Seq<char>)
    requires
        table.wf(),
    ensures
        table.removed(name).wf(),
{
    let kept = table.removed(name).entries;
    lemma_kept_are_old(table.entries, name);
    lemma_names_still_differ(table.entries, name);
    assert forall|i: int| 0 <= i < kept.len() implies {
        &&& table.bucket.taken.contains_key((#[trigger] kept[i]).name)
        &&& table.bucket.taken[kept[i].name] == kept[i].color
    } by {
        assert(table.entries.contains(kept[i]));
        let k = choose|k: int| 0 <= k < table.entries.len() && table.entries[k] == kept[i];
        assert(table.bucket.taken.contains_key(table.entries[k].name));
    }
}

/// A table that is in order stays so when a name joins.
pub proof fn lemma_added_wf<C>(table: PlayerTableView<C>, name: Seq<char>, tx: C)
    requires
        table.wf(),
    ensures
        table.added(name, tx).wf(),
{
    let kept = table.removed(name).entries;
    let after = table.added(name, tx);
    lemma_removed_wf(table, name);
    lemma_kept_are_old(table.entries, name);
    lemma_assigned_wf(table.bucket, name);
    assert forall|i: int, j: int| 0 <= i < j < after.entries.len() implies (
    #[trigger] after.entries[i]).name != (#[trigger] after.entries[j]).name by {
        if j < kept.len() {
            assert(kept[i] == after.entries[i] && kept[j] == after.entries[j]);
        } else {
            assert(kept[i].name != name);
        }
    }
    assert forall|i: int| 0 <= i < after.entries.len() implies {
        &&& after.bucket.taken.contains_key((#[trigger] after.entries[i]).name)
        &&& after.bucket.taken[after.entries[i].name] == after.entries[i].color
    } by {
        if i < kept.len() {
            assert(kept[i] == after.entries[i]);
            assert(kept[i].name != name);
        }
    }
}

/// Who is registered after `name` left: everybody else who was.
pub proof fn lemma_removed_contains<C>(table: PlayerTableView<C>, name: Seq<char>, other: Seq<char>)
    ensures
        table.removed(name).contains(other) <==> other != name && table.contains(other),
{
    lemma_kept_are_old(table.entries, name);
    lemma_others_are_kept(table.entries, name);
    let kept = table.removed(name).entries;
    if table.removed(name).contains(other) {
        let i = choose|i: int| 0 <= i < kept.len() && (#[trigger] kept[i]).name == other;
        let k = choose|k: int| 0 <= k < table.entries.len() && table.entries[k] == kept[i];
        assert(table.entries[k].name == other);
    }
    if other != name && table.contains(other) {
        let k = choose|k: int|
            0 <= k < table.entries.len() && (#[trigger] table.entries[k]).name == other;
        let i = choose|i: int| 0 <= i < kept.len() && kept[i] == table.entries[k];
        assert(kept[i].name == other);
    }
}

/// Who is registered after `name` joined: `name`, and everybody who was.
pub proof fn lemma_added_contains<C>(
    table: PlayerTableView<C>,
    name: Seq<char>,
    tx: C,
    other: Seq<char>,
)
    ensures
        table.added(name, tx).contains(other) <==> other == name || table.contains(other),
{
    lemma_removed_contains(table, name, other);
    let kept = table.removed(name).entries;
    let grown = table.added(name, tx).entries;
    assert(grown[grown.len() - 1].name == name);
    if table.added(name, tx).contains(other) {
        let i = choose|i: int| 0 <= i < grown.len() && (#[trigger] grown[i]).name == other;
        if i < kept.len() {
            assert(kept[i].name == other);
        }
    }
    if other != name && table.contains(other) {
        let i = choose|i: int| 0 <= i < kept.len() && (#[trigger] kept[i]).name == other;
        assert(grown[i].name == other);
    }
}

/// A name keeps its color: whoever joins or leaves, the color that the
/// bucket holds for `name` stays the same.
pub proof fn law_color_persists<C>(
    table: PlayerTableView<C>,
    name: Seq<char>,
    other: Seq<char>,
    tx: C,
)
    requires
        table.wf(),
        table.bucket.taken.contains_key(name),
    ensures
        table.removed(other).bucket.taken.contains_key(name),
        table.removed(other).bucket.taken[name] == table.bucket.taken[name],
        table.added(other, tx).bucket.taken.contains_key(name),
        table.added(other, tx).bucket.taken[name] == table.bucket.taken[name],
{
}

/// A name that comes back after it left wears the color it wore before.
pub proof fn law_returning_name_keeps_color<C>(table: PlayerTableView<C>, name: Seq<char>, tx: C)
    requires
        table.wf(),
        table.bucket.taken.contains_key(name),
    ensures
        table.removed(name).added(name, tx).entries.last().name == name,
        table.removed(name).added(name, tx).entries.last().color == table.bucket.taken[name],
        forall|i: int|
            0 <= i < table.entries.len() && (#[trigger] table.entries[i]).name == name
                ==> table.removed(name).added(name, tx).entries.last().color
                == table.entries[i].color,
{
}

/// While free colors remain, a name that is new to the bucket gets a
/// color that no other name has.
pub proof fn law_new_name_gets_unused_color<C>(
    table: PlayerTableView<C>,
    name: Seq<char>,
    tx: C,
    other: Seq<char>,
)
    requires
        table.wf(),
        !table.bucket.taken.contains_key(name),
        table.bucket.free.len() > 0,
        table.bucket.taken.contains_key(other),
    ensures
        table.added(name, tx).entries.last().color != table.bucket.taken[other],
        table.added(name, tx).bucket.taken[name] != table.added(name, tx).bucket.taken[other],
        forall|i: int|
            0 <= i < table.entries.len() ==> table.added(name, tx).entries.last().color != (
            #[trigger] table.entries[i]).color,
{
    let color = table.bucket.color_of(name);
    assert(table.bucket.free[table.bucket.free.len() - 1] == color);
    assert(table.bucket.free.contains(color));
    assert forall|i: int| 0 <= i < table.entries.len() implies table.added(
        name,
        tx,
    ).entries.last().color != (#[trigger] table.entries[i]).color by {
        assert(table.bucket.taken.contains_key(table.entries[i].name));
    }
}

/// The directory of connected players, keyed by name.
pub struct PlayerTable<C> {
    players: Vec<PlayerInfo<C>>,
    paint_bucket: PaintBucket,
}

impl<C> View for PlayerTable<C> {
    type V = PlayerTableView<C>;

    closed spec fn view(&self) -> PlayerTableView<C> {
        PlayerTableView { entries: entry_views(self.players@), bucket: self.paint_bucket@ }
    }
}

impl<C> Default for PlayerTable<C> {
    /// An empty table with the whole palette free.
    fn default() -> (table: Self)
        ensures
            table@.wf(),
            table@.entries.len() == 0,
            table@.bucket == (PaintBucketView { free: palette(), taken: Map::empty() }),
    {
        Self::new()
    }
}

impl<C> PlayerTable<C> {
    /// An empty table with the whole palette free.
    pub fn new() -> (table: Self)
        ensures
            table@.wf(),
            table@.entries.len() == 0,
            table@.bucket == (PaintBucketView { free: palette(), taken: Map::empty() }),
    {
        Self { players: Vec::new(), paint_bucket: PaintBucket::new() }
    }

    /// Whether nobody is registered.
    pub fn is_empty(&self) -> (empty: bool)
        ensures
            empty == (self@.entries.len() == 0),
    {
        self.players.is_empty()
    }

    /// How many players are registered.
    pub fn len(&self) -> (count: usize)
        ensures
            count == self@.entries.len(),
    {
        self.players.len()
    }

    /// Registers `name` with `channel`, in place of an older entry of
    /// that name, and returns the new entry. The color is the one the
    /// name had before, or the next free one.
    pub fn add_new_player(&mut self, name: String, channel: C) -> (entry: &PlayerInfo<C>)
        requires
            old(self)@.wf(),
        ensures
            final(self)@.wf(),
            final(self)@ == old(self)@.added(name@, channel),
            final(self)@.contains(name@),
            entry@ == final(self)@.entries.last(),
    {
        let ghost before = self@;
        self.remove_player(name.as_str());
        let color = self.paint_bucket.get(&name);
        self.players.push(PlayerInfo { color, name, tx: channel });
        proof {
            assert(self@.entries =~= before.added(name@, channel).entries);
            lemma_added_wf(before, name@, channel);
            lemma_added_contains(before, name@, channel, name@);
        }
        let last = self.players.len() - 1;
        &self.players[last]
    }

    /// Takes the entry of `name` out, if there is one, and says whether
    /// there was. The entries that stay keep their order, and the name
    /// keeps its color for a later return.
    pub fn remove_player(&mut self, name: &str) -> (was_removed: bool)
        requires
            old(self)@.wf(),
        ensures
            final(self)@.wf(),
            final(self)@ == old(self)@.removed(name@),
            was_removed == old(self)@.contains(name@),
            !was_removed ==> final(self)@ == old(self)@,
    {
        let ghost before = self@.entries;
        proof {
            if !has_entry(before, name@) {
                lemma_absent_name_removes_nobody(before, name@);
            }
        }
        let ghost keep = |e: PlayerInfoView<C>| e.name != name@;
        let mut old_players: Vec<PlayerInfo<C>> = Vec::new();
        core::mem::swap(&mut self.players, &mut old_players);
        let mut was_removed = false;
        proof {
            assert(before.take(0) =~= Seq::<PlayerInfoView<C>>::empty());
            assert(Seq::<PlayerInfoView<C>>::empty().filter(keep) =~= Seq::<
                PlayerInfoView<C>,
            >::empty()) by {
                reveal(Seq::filter);
            }
            assert(entry_views(self.players@) =~= Seq::<PlayerInfoView<C>>::empty());
        }
        for player in it: old_players
            invariant
                keep == (|e: PlayerInfoView<C>| e.name != name@),
                entry_views(it.seq()) == before,
                entry_views(self.players@) == before.take(it.index() as int).filter(keep),
                was_removed == has_entry(before.take(it.index() as int), name@),
                self.paint_bucket == old(self).paint_bucket,
        {
            let ghost i = it.index() as int;
            let ghost head = before.take(i);
            let ghost kept = self.players@;
            proof {
                assert(player@ == before[i]);
                assert(before.take(i + 1) =~= head.push(player@));
                head.lemma_filter_push(player@, keep);
                if has_entry(head, name@) {
                    let k = choose|k: int|
                        0 <= k < head.len() && (#[trigger] head[k]).name == name@;
                    assert(before.take(i + 1)[k].name == name@);
                }
                if has_entry(before.take(i + 1), name@) && player@.name != name@ {
                    let k = choose|k: int|
                        0 <= k < i + 1 && (#[trigger] before.take(i + 1)[k]).name == name@;
                    assert(head[k].name == name@);
                }
            }
            if *player.name.as_str() == *name {
                was_removed = true;
                proof {
                    assert(before.take(i + 1)[i].name == name@);
                }
            } else {
                self.players.push(player);
                proof {
                    assert(entry_views(self.players@) =~= entry_views(kept).push(player@));
                }
            }
        }
        proof {
            assert(before.take(before.len() as int) =~= before);
            lemma_removed_wf(old(self)@, name@);
        }
        was_removed
    }

    /// Takes the entries of `names` out, one after the other.
    pub fn remove_players(&mut self, names: &Vec<String>)
        requires
            old(self)@.wf(),
        ensures
            final(self)@.wf(),
            final(self)@ == old(self)@.without_all(name_views(names@)),
    {
        let ghost all = name_views(names@);
        let mut at: usize = 0;
        proof {
            assert(all.take(0) =~= Seq::<Seq<char>>::empty());
        }
        while at < names.len()
            invariant
                at <= names.len(),
                all == name_views(names@),
                self@.wf(),
                self@ == old(self)@.without_all(all.take(at as int)),
            decreases names.len() - at,
        {
            self.remove_player(names[at].as_str());
            proof {
                assert(all.take(at + 1).drop_last() =~= all.take(at as int));
                assert(all.take(at + 1).last() == names[at as int]@);
            }
            at += 1;
        }
        proof {
            assert(all.take(at as int) =~= all);
        }
    }

    /// The entry of `name`, if it is registered.
    pub fn get(&self, name: &str) -> (entry: Option<&PlayerInfo<C>>)
        ensures
            match entry {
                Some(e) => e@.name == name@ && self@.entries.contains(e@),
                None => !self@.contains(name@),
            },
    {
        let mut at: usize = 0;
        while at < self.players.len()
            invariant
                at <= self.players.len(),
                forall|i: int| 0 <= i < at ==> (#[trigger] self.players[i])@.name != name@,
            decreases self.players.len() - at,
        {
            if *self.players[at].name.as_str() == *name {
                assert(self@.entries[at as int] == self.players[at as int]@);
                return Some(&self.players[at]);
            }
            at += 1;
        }
        proof {
            if self@.contains(name@) {
                let i = choose|i: int|
                    0 <= i < self@.entries.len() && (#[trigger] self@.entries[i]).name == name@;
                assert(self.players[i]@.name == name@);
            }
        }
        None
    }

    /// Whether `name` is registered.
    pub fn contains(&self, name: &str) -> (found: bool)
        ensures
            found == self@.contains(name@),
    {
        let entry = self.get(name);
        proof {
            if let Some(e) = entry {
                let i = choose|i: int| 0 <= i < self@.entries.len() && self@.entries[i] == e@;
                assert(self@.entries[i].name == name@);
            }
        }
        entry.is_some()
    }

    /// The entries in the order in which they were added.
    pub fn iter(&self) -> (entries: &[PlayerInfo<C>])
        ensures
            entry_views(entries@) == self@.entries,
    {
        self.players.as_slice()
    }

    /// The registered players as rule engines see them, in table order.
    pub fn roster(&self) -> (users: Vec<User>)
        ensures
            user_views(users@) == self@.roster(),
    {
        let mut users: Vec<User> = Vec::new();
        let mut at: usize = 0;
        while at < self.players.len()
            invariant
                at <= self.players.len(),
                user_views(users@) =~= self@.roster().subrange(0, at as int),
            decreases self.players.len() - at,
        {
            let ghost shorter = users@;
            let user = self.players[at].user();
            users.push(user);
            proof {
                assert(user_views(users@) =~= user_views(
                    shorter,
                ).push(user@));
                assert(self@.roster()[at as int] == user@);
            }
            at += 1;
        }
        proof {
            assert(self@.roster().subrange(0, at as int) =~= self@.roster());
        }
        users
    }
}

} // verus!
