use vstd::prelude::*;
use crate::game::Player;
use crate::Direction;

verus! {

/// Identifier that links buttons to the doors they control.
pub type Id = u32;

/// The kind of a cell on the grid.
#[derive(Clone, Copy, PartialEq, Eq, Structural, Debug)]
pub enum TileType {
    Empty,
    Wall1,
    PushBox,
    /// A pressure plate; its id groups it with the doors of the same id.
    Button(Id),
    /// A door with an optional link id and its open flag.
    Door(Option<Id>, bool),
    WinPad,
}

/// What standing on a tile signals.
#[derive(Clone, Copy, PartialEq, Eq, Structural, Debug)]
pub enum Event {
    Nothing,
    PressButton,
    Win,
}

/// Text attribute a renderer applies on top of a color pair.
#[derive(Clone, Copy, PartialEq, Eq, Structural, Debug)]
pub enum Emphasis {
    Normal,
    Bold,
    Dim,
}

/// How a renderer should paint a tile: a color pair number (none for the
/// terminal default) and an emphasis.
#[derive(Clone, Copy, PartialEq, Eq, Structural, Debug)]
pub struct TileStyle {
    pub color_pair: Option<i16>,
    pub emphasis: Emphasis,
}

impl TileType {
    pub open spec fn spec_glyph(self) -> char {
        match self {
            TileType::Empty => ' ',
            TileType::Wall1 => 'B',
            TileType::PushBox => '@',
            TileType::Button(..) => '^',
            TileType::Door(..) => 'D',
            TileType::WinPad => '#',
        }
    }

    /// A wall, or a door whose flag says closed.
    pub open spec fn solid(self) -> bool {
        match self {
            TileType::Wall1 => true,
            TileType::Door(_, open) => !open,
            _ => false,
        }
    }

    pub open spec fn pushable(self) -> bool {
        self == TileType::PushBox
    }

    pub open spec fn event(self) -> Event {
        match self {
            TileType::WinPad => Event::Win,
            TileType::Button(..) => Event::PressButton,
            _ => Event::Nothing,
        }
    }

    pub open spec fn spec_style(self) -> TileStyle {
        match self {
            TileType::Empty => TileStyle { color_pair: None, emphasis: Emphasis::Normal },
            TileType::Wall1 => TileStyle { color_pair: Some(1), emphasis: Emphasis::Normal },
            TileType::PushBox => TileStyle { color_pair: Some(5), emphasis: Emphasis::Bold },
            TileType::Button(..) => TileStyle { color_pair: Some(2), emphasis: Emphasis::Normal },
            TileType::Door(_, open) => TileStyle {
                color_pair: Some(5),
                emphasis: if open { Emphasis::Dim } else { Emphasis::Bold },
            },
            TileType::WinPad => TileStyle { color_pair: Some(4), emphasis: Emphasis::Normal },
        }
    }

    /// The character a renderer draws for this kind of tile.
    pub fn glyph(self) -> (r: char)
        ensures
            r == self.spec_glyph(),
    {
        match self {
            TileType::Empty => ' ',
            TileType::Wall1 => 'B',
            TileType::PushBox => '@',
            TileType::Button(..) => '^',
            TileType::Door(..) => 'D',
            TileType::WinPad => '#',
        }
    }

    pub fn is_solid(self) -> (r: bool)
        ensures
            r == self.solid(),
    {
        match self {
            TileType::Wall1 => true,
            TileType::Door(_, false) => true,
            _ => false,
        }
    }

    pub fn is_pushable(self) -> (r: bool)
        ensures
            r == self.pushable(),
    {
        match self {
            TileType::PushBox => true,
            _ => false,
        }
    }

    pub fn stood_on_event(self) -> (r: Event)
        ensures
            r == self.event(),
    {
        match self {
            TileType::WinPad => Event::Win,
            TileType::Button(..) => Event::PressButton,
            _ => Event::Nothing,
        }
    }

    /// The color pair and emphasis a colored renderer uses for this tile.
    pub fn style(self) -> (r: TileStyle)
        ensures
            r == self.spec_style(),
    {
        match self {
            TileType::Empty => TileStyle { color_pair: None, emphasis: Emphasis::Normal },
            TileType::Wall1 => TileStyle { color_pair: Some(1), emphasis: Emphasis::Normal },
            TileType::PushBox => TileStyle { color_pair: Some(5), emphasis: Emphasis::Bold },
            TileType::Button(_) => TileStyle { color_pair: Some(2), emphasis: Emphasis::Normal },
            TileType::Door(_, false) => TileStyle { color_pair: Some(5), emphasis: Emphasis::Bold },
            TileType::Door(_, true) => TileStyle { color_pair: Some(5), emphasis: Emphasis::Dim },
            TileType::WinPad => TileStyle { color_pair: Some(4), emphasis: Emphasis::Normal },
        }
    }
}

/// A typed cell at a grid position. Several tiles may share a position.
#[derive(Clone, Copy, PartialEq, Eq, Structural, Debug)]
pub struct Tile {
    pub y: i32,
    pub x: i32,
    pub tile_type: TileType,
}

/// Whether tile `t` stands at row `y`, column `x`.
pub open spec fn at(t: Tile, y: int, x: int) -> bool {
    t.y == y && t.x == x
}

/// `len` tiles of type `tile_type` in a straight line from `(y, x)` towards `d`.
pub open spec fn wall_line(y: int, x: int, tile_type: TileType, d: Direction, len: int) -> Seq<Tile> {
    Seq::new(
        len as nat,
        |k: int| Tile { y: (y + k * d.dy()) as i32, x: (x + k * d.dx()) as i32, tile_type },
    )
}

impl Tile {
    /// This tile moved by `(dy, dx)`, its type kept.
    pub open spec fn shifted(self, dy: int, dx: int) -> Tile {
        Tile { y: (self.y + dy) as i32, x: (self.x + dx) as i32, tile_type: self.tile_type }
    }

    pub fn new(y: i32, x: i32, tile_type: TileType) -> (r: Tile)
        ensures
            r == (Tile { y, x, tile_type }),
    {
        Tile { y, x, tile_type }
    }

    /// `len` tiles of one type in a straight line from `(y, x)` towards `direction`.
    pub fn new_wall(y: i32, x: i32, tile_type: TileType, direction: Direction, len: usize) -> (r:
        Vec<Tile>)
        requires
            len <= i32::MAX,
            len > 0 ==> i32::MIN <= y + (len - 1) * direction.dy() <= i32::MAX,
            len > 0 ==> i32::MIN <= x + (len - 1) * direction.dx() <= i32::MAX,
        ensures
            r@ == wall_line(y as int, x as int, tile_type, direction, len as int),
    {
        let mut tiles: Vec<Tile> = Vec::with_capacity(len);
        let (dy, dx) = direction.get_vec2_move();
        let mut i: usize = 0;
        while i < len
            invariant
                i <= len,
                len <= i32::MAX,
                dy == direction.dy(),
                dx == direction.dx(),
                len > 0 ==> i32::MIN <= y + (len - 1) * direction.dy() <= i32::MAX,
                len > 0 ==> i32::MIN <= x + (len - 1) * direction.dx() <= i32::MAX,
                tiles@.len() == i,
                forall|k: int|
                    0 <= k < i ==> #[trigger] tiles@[k] == (Tile {
                        y: (y + k * direction.dy()) as i32,
                        x: (x + k * direction.dx()) as i32,
                        tile_type,
                    }),
            decreases len - i,
        {
            let ii = i as i32;
            assert(-(ii as int) <= ii * dy <= ii && -(ii as int) <= ii * dx <= ii)
                by (nonlinear_arith)
                requires
                    -1 <= dy <= 1,
                    -1 <= dx <= 1,
                    ii >= 0,
            ;
            assert(i32::MIN <= y + ii * dy <= i32::MAX && i32::MIN <= x + ii * dx <= i32::MAX)
                by (nonlinear_arith)
                requires
                    -1 <= dy <= 1,
                    -1 <= dx <= 1,
                    0 <= ii < len,
                    i32::MIN <= y + (len - 1) * dy <= i32::MAX,
                    i32::MIN <= x + (len - 1) * dx <= i32::MAX,
                    i32::MIN <= y <= i32::MAX,
                    i32::MIN <= x <= i32::MAX,
            ;
            let tile = Tile::new(y + ii * dy, x + ii * dx, tile_type);
            tiles.push(tile);
            i = i + 1;
        }
        assert(tiles@ =~= wall_line(y as int, x as int, tile_type, direction, len as int));
        tiles
    }

    /// Moves the tile one step in `direction`.
    pub fn move_tile(&mut self, direction: Direction)
        requires
            crate::steps_fit(old(self).y as int, old(self).x as int, direction, 1),
        ensures
            *final(self) == old(self).shifted(direction.dy(), direction.dx()),
    {
        let change = direction.get_vec2_move();
        self.y = self.y + change.0;
        self.x = self.x + change.1;
    }
}

/// Abstract value of a level: its tiles in order, the spawn point, the flavor text.
pub ghost struct MapModel {
    pub tiles: Seq<Tile>,
    pub spawn: (i32, i32),
    pub flavor: Option<Seq<char>>,
}

/// One level: its tiles, where the player starts, and an optional line of text.
#[derive(Debug)]
pub struct MapData {
    pub tile_map: Vec<Tile>,
    pub player_spawn: (i32, i32),
    pub flavor_text: Option<String>,
}

impl View for MapData {
    type V = MapModel;

    open spec fn view(&self) -> MapModel {
        MapModel {
            tiles: self.tile_map@,
            spawn: self.player_spawn,
            flavor: match self.flavor_text {
                Some(s) => Some(s@),
                None => None,
            },
        }
    }
}

/// The tiles of `s` standing at `(y, x)`, in order.
pub open spec fn tiles_at_seq(s: Seq<Tile>, y: int, x: int) -> Seq<Tile>
    decreases s.len(),
{
    if s.len() == 0 {
        seq![]
    } else if at(s.last(), y, x) {
        tiles_at_seq(s.drop_last(), y, x).push(s.last())
    } else {
        tiles_at_seq(s.drop_last(), y, x)
    }
}

/// The indices in `s` of the tiles standing at `(y, x)`, in increasing order.
pub open spec fn indices_at(s: Seq<Tile>, y: int, x: int) -> Seq<usize>
    decreases s.len(),
{
    if s.len() == 0 {
        seq![]
    } else if at(s.last(), y, x) {
        indices_at(s.drop_last(), y, x).push((s.len() - 1) as usize)
    } else {
        indices_at(s.drop_last(), y, x)
    }
}

/// The events signalled by the tiles of `s` at `(y, x)`, in order.
pub open spec fn events_at(s: Seq<Tile>, y: int, x: int) -> Seq<Event>
    decreases s.len(),
{
    if s.len() == 0 {
        seq![]
    } else if at(s.last(), y, x) {
        events_at(s.drop_last(), y, x).push(s.last().tile_type.event())
    } else {
        events_at(s.drop_last(), y, x)
    }
}

/// How many tiles of `s` at `(y, x)` are solid or pushable.
pub open spec fn blockers_at(s: Seq<Tile>, y: int, x: int) -> nat
    decreases s.len(),
{
    if s.len() == 0 {
        0
    } else {
        blockers_at(s.drop_last(), y, x) + if at(s.last(), y, x) && (s.last().tile_type.solid()
            || s.last().tile_type.pushable()) {
            1nat
        } else {
            0nat
        }
    }
}

/// Some tile among the first `n` of `s` is solid and stands at `(y, x)`.
pub open spec fn solid_in(s: Seq<Tile>, n: int, y: int, x: int) -> bool {
    exists|k: int| 0 <= k < n && #[trigger] at(s[k], y, x) && s[k].tile_type.solid()
}

/// Some tile of `s` at `(y, x)` is pushable.
pub open spec fn pushable_at(s: Seq<Tile>, y: int, x: int) -> bool {
    exists|k: int| 0 <= k < s.len() && #[trigger] at(s[k], y, x) && s[k].tile_type.pushable()
}

/// Tile `k` is a box at the target `(ty, tx)` that gets pushed: the cell
/// beyond has room and no solid tile precedes it at the target.
pub open spec fn pushes(s: Seq<Tile>, k: int, ty: int, tx: int, room: bool) -> bool {
    room && at(s[k], ty, tx) && s[k].tile_type.pushable() && !solid_in(s, k, ty, tx)
}

/// The tiles after a player at `(py, px)` tries to step by `(dy, dx)`.
pub open spec fn tiles_after_move(s: Seq<Tile>, py: int, px: int, dy: int, dx: int) -> Seq<Tile> {
    let room = blockers_at(s, py + 2 * dy, px + 2 * dx) == 0;
    Seq::new(
        s.len(),
        |k: int|
            if pushes(s, k, py + dy, px + dx, room) {
                s[k].shifted(dy, dx)
            } else {
                s[k]
            },
    )
}

/// Whether a player at `(py, px)` gets to step by `(dy, dx)`: no solid tile
/// at the target, and a box there only if the cell beyond has room.
pub open spec fn player_advances(s: Seq<Tile>, py: int, px: int, dy: int, dx: int) -> bool {
    &&& !solid_in(s, s.len() as int, py + dy, px + dx)
    &&& (blockers_at(s, py + 2 * dy, px + 2 * dx) == 0 || !pushable_at(s, py + dy, px + dx))
}

/// `(y, x)` holds the player at `(py, px)` or a box of `s`.
pub open spec fn covered(s: Seq<Tile>, py: int, px: int, y: int, x: int) -> bool {
    (py == y && px == x) || exists|k: int|
        0 <= k < s.len() && #[trigger] at(s[k], y, x) && s[k].tile_type == TileType::PushBox
}

/// Some tile of `s` is a button of id `id`.
pub open spec fn has_button(s: Seq<Tile>, id: Id) -> bool {
    exists|k: int| 0 <= k < s.len() && #[trigger] s[k].tile_type == TileType::Button(id)
}

/// Button id `id` is satisfied: it has a button, and every one of its
/// buttons holds the player or a box.
pub open spec fn id_satisfied(s: Seq<Tile>, py: int, px: int, id: Id) -> bool {
    &&& has_button(s, id)
    &&& forall|k: int|
        0 <= k < s.len() && #[trigger] s[k].tile_type == TileType::Button(id) ==> covered(
            s,
            py,
            px,
            s[k].y as int,
            s[k].x as int,
        )
}

/// Tile `t` of level `s` after recomputing doors: a linked door opens
/// exactly when its id is satisfied; every other tile stays as it is.
pub open spec fn door_updated(s: Seq<Tile>, py: int, px: int, t: Tile) -> Tile {
    match t.tile_type {
        TileType::Door(Some(id), _) => Tile {
            y: t.y,
            x: t.x,
            tile_type: TileType::Door(Some(id), id_satisfied(s, py, px, id)),
        },
        _ => t,
    }
}

/// The tiles of `s` after recomputing doors for a player at `(py, px)`.
pub open spec fn tiles_after_update(s: Seq<Tile>, py: int, px: int) -> Seq<Tile> {
    Seq::new(s.len(), |k: int| door_updated(s, py, px, s[k]))
}

impl MapData {
    /// A copy of this level with equal contents.
    pub fn duplicate(&self) -> (r: MapData)
        ensures
            r@ == self@,
    {
        let mut tiles: Vec<Tile> = Vec::with_capacity(self.tile_map.len());
        let mut i: usize = 0;
        while i < self.tile_map.len()
            invariant
                i <= self.tile_map@.len(),
                tiles@ == self.tile_map@.subrange(0, i as int),
            decreases self.tile_map@.len() - i,
        {
            tiles.push(self.tile_map[i]);
            i = i + 1;
            assert(tiles@ =~= self.tile_map@.subrange(0, i as int));
        }
        assert(tiles@ =~= self.tile_map@);
        let flavor_text = match &self.flavor_text {
            Some(s) => Some(s.clone()),
            None => None,
        };
        MapData { tile_map: tiles, player_spawn: self.player_spawn, flavor_text }
    }

    pub fn tile_count(&self) -> (r: usize)
        ensures
            r == self.tile_map@.len(),
    {
        self.tile_map.len()
    }

    /// The indices of all tiles at `(y, x)`, through which callers may change them.
    pub fn tiles_at(&self, y: i32, x: i32) -> (r: Vec<usize>)
        ensures
            r@ == indices_at(self.tile_map@, y as int, x as int),
    {
        let ghost s = self.tile_map@;
        let mut r: Vec<usize> = Vec::new();
        let mut i: usize = 0;
        while i < self.tile_map.len()
            invariant
                s == self.tile_map@,
                i <= s.len(),
                r@ == indices_at(s.subrange(0, i as int), y as int, x as int),
            decreases s.len() - i,
        {
            assert(s.subrange(0, i + 1).drop_last() =~= s.subrange(0, i as int));
            let t = self.tile_map[i];
            if t.y == y && t.x == x {
                r.push(i);
            }
            i = i + 1;
        }
        assert(s.subrange(0, s.len() as int) =~= s);
        r
    }

    /// Copies of all tiles at `(y, x)`, in level order.
    pub fn immut_tiles_at(&self, y: i32, x: i32) -> (r: Vec<Tile>)
        ensures
            r@ == tiles_at_seq(self.tile_map@, y as int, x as int),
    {
        let ghost s = self.tile_map@;
        let mut r: Vec<Tile> = Vec::new();
        let mut i: usize = 0;
        while i < self.tile_map.len()
            invariant
                s == self.tile_map@,
                i <= s.len(),
                r@ == tiles_at_seq(s.subrange(0, i as int), y as int, x as int),
            decreases s.len() - i,
        {
            assert(s.subrange(0, i + 1).drop_last() =~= s.subrange(0, i as int));
            let t = self.tile_map[i];
            if t.y == y && t.x == x {
                r.push(t);
            }
            i = i + 1;
        }
        assert(s.subrange(0, s.len() as int) =~= s);
        r
    }

    /// The events of all tiles at `(y, x)`, in level order.
    pub fn events_at(&self, y: i32, x: i32) -> (r: Vec<Event>)
        ensures
            r@ == events_at(self.tile_map@, y as int, x as int),
    {
        let ghost s = self.tile_map@;
        let mut r: Vec<Event> = Vec::new();
        let mut i: usize = 0;
        while i < self.tile_map.len()
            invariant
                s == self.tile_map@,
                i <= s.len(),
                r@ == events_at(s.subrange(0, i as int), y as int, x as int),
            decreases s.len() - i,
        {
            assert(s.subrange(0, i + 1).drop_last() =~= s.subrange(0, i as int));
            let t = self.tile_map[i];
            if t.y == y && t.x == x {
                r.push(t.tile_type.stood_on_event());
            }
            i = i + 1;
        }
        assert(s.subrange(0, s.len() as int) =~= s);
        r
    }

    /// How many tiles at `(y, x)` are solid or pushable.
    pub fn num_solid_or_pushable_tiles_at(&self, y: i32, x: i32) -> (r: usize)
        ensures
            r == blockers_at(self.tile_map@, y as int, x as int),
    {
        let ghost s = self.tile_map@;
        let mut count: usize = 0;
        let mut i: usize = 0;
        while i < self.tile_map.len()
            invariant
                s == self.tile_map@,
                i <= s.len(),
                count <= i,
                count == blockers_at(s.subrange(0, i as int), y as int, x as int),
            decreases s.len() - i,
        {
            assert(s.subrange(0, i + 1).drop_last() =~= s.subrange(0, i as int));
            let t = self.tile_map[i];
            if t.y == y && t.x == x && (t.tile_type.is_solid() || t.tile_type.is_pushable()) {
                count = count + 1;
            }
            i = i + 1;
        }
        assert(s.subrange(0, s.len() as int) =~= s);
        count
    }

    /// Resolves one step of `player` towards `direction`. A solid tile at the
    /// target stops the player; a box there moves one step when the cell beyond
    /// holds nothing solid or pushable, and otherwise holds the player back.
    /// Tiles at the target are taken in level order, so a box met before a
    /// solid tile is still pushed although the player stays.
    pub fn player_move(&mut self, player: &mut Player, direction: Direction)
        requires
            crate::steps_fit(old(player).y as int, old(player).x as int, direction, 2),
        ensures
            final(self).tile_map@ == tiles_after_move(
                old(self).tile_map@,
                old(player).y as int,
                old(player).x as int,
                direction.dy(),
                direction.dx(),
            ),
            final(self).player_spawn == old(self).player_spawn,
            final(self).flavor_text == old(self).flavor_text,
            *final(player) == if player_advances(
                old(self).tile_map@,
                old(player).y as int,
                old(player).x as int,
                direction.dy(),
                direction.dx(),
            ) {
                old(player).shifted(direction)
            } else {
                *old(player)
            },
    {
        let ghost s0 = self.tile_map@;
        let ghost py = player.y as int;
        let ghost px = player.x as int;
        let ghost dy = direction.dy();
        let ghost dx = direction.dx();
        let ghost expected = tiles_after_move(s0, py, px, dy, dx);
        let change = direction.get_vec2_move();
        let new_y = player.y + change.0;
        let new_x = player.x + change.1;
        let tiles_past_tile = self.num_solid_or_pushable_tiles_at(
            new_y + change.0,
            new_x + change.1,
        );
        let ghost room = tiles_past_tile == 0;
        let mut can_move = true;
        let n = self.tile_map.len();
        let mut i: usize = 0;
        while i < n
            invariant
                n == s0.len(),
                n == self.tile_map@.len(),
                s0 == old(self).tile_map@,
                dy == direction.dy(),
                dx == direction.dx(),
                i <= n,
                new_y == py + dy,
                new_x == px + dx,
                crate::steps_fit(py, px, direction, 2),
                -1 <= dy <= 1,
                -1 <= dx <= 1,
                *player == *old(player),
                py == player.y,
                px == player.x,
                self.player_spawn == old(self).player_spawn,
                self.flavor_text == old(self).flavor_text,
                expected == tiles_after_move(s0, py, px, dy, dx),
                room == (blockers_at(s0, py + 2 * dy, px + 2 * dx) == 0),
                room == (tiles_past_tile == 0),
                !solid_in(s0, i as int, new_y as int, new_x as int),
                can_move == (room || !exists|k: int|
                    0 <= k < i && #[trigger] at(s0[k], new_y as int, new_x as int)
                        && s0[k].tile_type.pushable()),
                forall|k: int| 0 <= k < i ==> #[trigger] self.tile_map@[k] == expected[k],
                forall|k: int| i <= k < n ==> #[trigger] self.tile_map@[k] == s0[k],
            decreases n - i,
        {
            let t = self.tile_map[i];
            assert(t == s0[i as int]);
            let ghost can_before = can_move;
            if t.y == new_y && t.x == new_x {
                if t.tile_type.is_solid() {
                    proof {
                        assert forall|k: int| i <= k < n implies #[trigger] self.tile_map@[k]
                            == expected[k] by {
                            if k > i {
                                assert(at(s0[i as int], new_y as int, new_x as int));
                                assert(solid_in(s0, k, new_y as int, new_x as int));
                            }
                        }
                        assert(self.tile_map@ =~= expected);
                        assert(at(s0[i as int], new_y as int, new_x as int));
                        assert(solid_in(s0, n as int, new_y as int, new_x as int));
                    }
                    return ;
                }
                if t.tile_type.is_pushable() {
                    if tiles_past_tile == 0 {
                        let mut moved = t;
                        moved.move_tile(direction);
                        self.tile_map.set(i, moved);
                    } else {
                        can_move = false;
                    }
                }
            }
            proof {
                assert(!solid_in(s0, i + 1, new_y as int, new_x as int)) by {
                    if solid_in(s0, i + 1, new_y as int, new_x as int) {
                        let k = choose|k: int|
                            0 <= k < i + 1 && #[trigger] at(s0[k], new_y as int, new_x as int)
                                && s0[k].tile_type.solid();
                        assert(k != i);
                    }
                }
                assert(self.tile_map@[i as int] == expected[i as int]);
                let ty = new_y as int;
                let tx = new_x as int;
                assert(can_move == (can_before && !(at(s0[i as int], ty, tx) && s0[i as int].tile_type.pushable() && !room)));
                if exists|k: int| 0 <= k < i + 1 && #[trigger] at(s0[k], ty, tx) && s0[k].tile_type.pushable() {
                    let k = choose|k: int| 0 <= k < i + 1 && #[trigger] at(s0[k], ty, tx) && s0[k].tile_type.pushable();
                    if k < i {
                        assert(exists|k: int| 0 <= k < i && #[trigger] at(s0[k], ty, tx) && s0[k].tile_type.pushable());
                    }
                } else {
                    assert(!exists|k: int| 0 <= k < i && #[trigger] at(s0[k], ty, tx) && s0[k].tile_type.pushable()) by {
                        if exists|k: int| 0 <= k < i && #[trigger] at(s0[k], ty, tx) && s0[k].tile_type.pushable() {
                            let k = choose|k: int| 0 <= k < i && #[trigger] at(s0[k], ty, tx) && s0[k].tile_type.pushable();
                            assert(0 <= k < i + 1);
                        }
                    }
                }
            }
            i = i + 1;
        }
        proof {
            assert(self.tile_map@ =~= expected);
        }
        if can_move {
            player.move_pos(direction);
        }
    }

    /// Whether `(y, x)` holds the player at `(py, px)` or a box.
    pub fn is_covered(&self, py: i32, px: i32, y: i32, x: i32) -> (r: bool)
        ensures
            r == covered(self.tile_map@, py as int, px as int, y as int, x as int),
    {
        if py == y && px == x {
            return true;
        }
        let ghost s = self.tile_map@;
        let mut i: usize = 0;
        while i < self.tile_map.len()
            invariant
                s == self.tile_map@,
                i <= s.len(),
                forall|k: int|
                    0 <= k < i ==> !(#[trigger] at(s[k], y as int, x as int) && s[k].tile_type
                        == TileType::PushBox),
            decreases s.len() - i,
        {
            let t = self.tile_map[i];
            if t.y == y && t.x == x && t.tile_type.is_pushable() {
                assert(at(s[i as int], y as int, x as int));
                return true;
            }
            i = i + 1;
        }
        false
    }

    /// Whether button id `id` is satisfied for a player at `(py, px)`.
    pub fn button_id_satisfied(&self, py: i32, px: i32, id: Id) -> (r: bool)
        ensures
            r == id_satisfied(self.tile_map@, py as int, px as int, id),
    {
        let ghost s = self.tile_map@;
        let mut found = false;
        let mut all_covered = true;
        let mut i: usize = 0;
        while i < self.tile_map.len()
            invariant
                s == self.tile_map@,
                i <= s.len(),
                found == exists|k: int|
                    0 <= k < i && #[trigger] s[k].tile_type == TileType::Button(id),
                all_covered == forall|k: int|
                    0 <= k < i && #[trigger] s[k].tile_type == TileType::Button(id) ==> covered(
                        s,
                        py as int,
                        px as int,
                        s[k].y as int,
                        s[k].x as int,
                    ),
            decreases s.len() - i,
        {
            let t = self.tile_map[i];
            if t.tile_type == TileType::Button(id) {
                found = true;
                if !self.is_covered(py, px, t.y, t.x) {
                    all_covered = false;
                }
            }
            i = i + 1;
        }
        found && all_covered
    }

    /// Recomputes every linked door from its buttons: `Door(Some(id), _)` is
    /// open exactly when id `id` is satisfied. Unlinked doors stay as they are.
    pub fn update_button_status(&mut self, player: &Player)
        ensures
            final(self).tile_map@ == tiles_after_update(
                old(self).tile_map@,
                player.y as int,
                player.x as int,
            ),
            final(self).player_spawn == old(self).player_spawn,
            final(self).flavor_text == old(self).flavor_text,
    {
        let ghost s0 = self.tile_map@;
        let ghost py = player.y as int;
        let ghost px = player.x as int;
        let n = self.tile_map.len();
        let mut open_flags: Vec<bool> = Vec::with_capacity(n);
        let mut i: usize = 0;
        while i < n
            invariant
                s0 == self.tile_map@,
                n == s0.len(),
                py == player.y,
                px == player.x,
                i <= n,
                open_flags@.len() == i,
                forall|k: int|
                    0 <= k < i ==> (#[trigger] open_flags@[k] == match s0[k].tile_type {
                        TileType::Door(Some(id), _) => id_satisfied(s0, py, px, id),
                        _ => false,
                    }),
            decreases n - i,
        {
            let open = match self.tile_map[i].tile_type {
                TileType::Door(Some(id), _) => self.button_id_satisfied(player.y, player.x, id),
                _ => false,
            };
            open_flags.push(open);
            i = i + 1;
        }
        let mut j: usize = 0;
        while j < n
            invariant
                s0 == old(self).tile_map@,
                n == s0.len(),
                n == self.tile_map@.len(),
                n == open_flags@.len(),
                j <= n,
                py == player.y,
                px == player.x,
                self.player_spawn == old(self).player_spawn,
                self.flavor_text == old(self).flavor_text,
                forall|k: int|
                    0 <= k < n ==> (#[trigger] open_flags@[k] == match s0[k].tile_type {
                        TileType::Door(Some(id), _) => id_satisfied(s0, py, px, id),
                        _ => false,
                    }),
                forall|k: int|
                    0 <= k < j ==> #[trigger] self.tile_map@[k] == door_updated(s0, py, px, s0[k]),
                forall|k: int| j <= k < n ==> #[trigger] self.tile_map@[k] == s0[k],
            decreases n - j,
        {
            let t = self.tile_map[j];
            if let TileType::Door(Some(id), _) = t.tile_type {
                let updated = Tile { y: t.y, x: t.x, tile_type: TileType::Door(Some(id), open_flags[j]) };
                self.tile_map.set(j, updated);
            }
            j = j + 1;
        }
        assert(self.tile_map@ =~= tiles_after_update(s0, py, px));
    }
}

/// No tile at `(y, x)` is solid or pushable exactly when none is counted.
pub proof fn lemma_no_blockers(s: Seq<Tile>, y: int, x: int)
    ensures
        blockers_at(s, y, x) == 0 <==> forall|j: int|
            0 <= j < s.len() && #[trigger] at(s[j], y, x) ==> !s[j].tile_type.solid()
                && !s[j].tile_type.pushable(),
    decreases s.len(),
{
    if s.len() > 0 {
        let p = s.drop_last();
        lemma_no_blockers(p, y, x);
        assert forall|j: int| 0 <= j < p.len() implies p[j] == s[j] by {}
        if blockers_at(s, y, x) != 0 {
            if blockers_at(p, y, x) != 0 {
                let j = choose|j: int|
                    0 <= j < p.len() && #[trigger] at(p[j], y, x) && !(!p[j].tile_type.solid()
                        && !p[j].tile_type.pushable());
                assert(at(s[j], y, x));
            } else {
                assert(at(s[s.len() - 1], y, x));
            }
        }
    }
}

/// A step into a wall or a closed door leaves the player where it was, and
/// that tile stays in place, so the same step stays blocked.
pub proof fn lemma_wall_blocks(s: Seq<Tile>, py: int, px: int, d: Direction, k: int, id: Option<
    Id,
>)
    requires
        0 <= k < s.len(),
        at(s[k], py + d.dy(), px + d.dx()),
        s[k].tile_type == TileType::Wall1 || s[k].tile_type == TileType::Door(id, false),
    ensures
        !player_advances(s, py, px, d.dy(), d.dx()),
        tiles_after_move(s, py, px, d.dy(), d.dx())[k] == s[k],
{
    assert(solid_in(s, s.len() as int, py + d.dy(), px + d.dx()));
}

/// A lone box at the target with nothing solid or pushable beyond it moves
/// one step along with the player; no other tile moves.
pub proof fn lemma_push_lone_box(s: Seq<Tile>, py: int, px: int, d: Direction, k: int)
    requires
        0 <= k < s.len(),
        s[k].tile_type == TileType::PushBox,
        at(s[k], py + d.dy(), px + d.dx()),
        forall|j: int| 0 <= j < s.len() && j != k ==> !#[trigger] at(s[j], py + d.dy(), px + d.dx()),
        forall|j: int|
            0 <= j < s.len() && #[trigger] at(s[j], py + 2 * d.dy(), px + 2 * d.dx())
                ==> !s[j].tile_type.solid() && !s[j].tile_type.pushable(),
    ensures
        player_advances(s, py, px, d.dy(), d.dx()),
        tiles_after_move(s, py, px, d.dy(), d.dx())[k] == s[k].shifted(d.dy(), d.dx()),
        forall|j: int|
            0 <= j < s.len() && j != k ==> #[trigger] tiles_after_move(s, py, px, d.dy(), d.dx())[j]
                == s[j],
{
    lemma_no_blockers(s, py + 2 * d.dy(), px + 2 * d.dx());
    let ty = py + d.dy();
    let tx = px + d.dx();
    assert(!solid_in(s, s.len() as int, ty, tx));
    assert(!solid_in(s, k, ty, tx));
}

/// Pushing the same lone box twice in a row, with nothing solid or pushable
/// in the two cells ahead of it, carries box and player two steps.
pub proof fn lemma_push_lone_box_twice(s: Seq<Tile>, py: int, px: int, d: Direction, k: int)
    requires
        crate::steps_fit(py, px, d, 3),
        0 <= k < s.len(),
        s[k].tile_type == TileType::PushBox,
        at(s[k], py + d.dy(), px + d.dx()),
        forall|j: int| 0 <= j < s.len() && j != k ==> !#[trigger] at(s[j], py + d.dy(), px + d.dx()),
        forall|j: int|
            0 <= j < s.len() && #[trigger] at(s[j], py + 2 * d.dy(), px + 2 * d.dx())
                ==> !s[j].tile_type.solid() && !s[j].tile_type.pushable(),
        forall|j: int|
            0 <= j < s.len() && #[trigger] at(s[j], py + 3 * d.dy(), px + 3 * d.dx())
                ==> !s[j].tile_type.solid() && !s[j].tile_type.pushable(),
    ensures
        player_advances(s, py, px, d.dy(), d.dx()),
        player_advances(
            tiles_after_move(s, py, px, d.dy(), d.dx()),
            py + d.dy(),
            px + d.dx(),
            d.dy(),
            d.dx(),
        ),
        tiles_after_move(
            tiles_after_move(s, py, px, d.dy(), d.dx()),
            py + d.dy(),
            px + d.dx(),
            d.dy(),
            d.dx(),
        )[k] == s[k].shifted(2 * d.dy(), 2 * d.dx()),
{
    let dy = d.dy();
    let dx = d.dx();
    lemma_push_lone_box(s, py, px, d, k);
    let s1 = tiles_after_move(s, py, px, dy, dx);
    assert(s1[k] == s[k].shifted(dy, dx));
    assert(at(s1[k], py + 2 * dy, px + 2 * dx));
    // The box now stands alone among blockers two cells ahead of the old spot.
    assert forall|j: int|
        0 <= j < s1.len() && #[trigger] at(s1[j], py + 3 * dy, px + 3 * dx) implies !s1[j].tile_type.solid()
            && !s1[j].tile_type.pushable() by {
        if j != k {
            assert(s1[j] == s[j]);
        }
    }
    assert forall|j: int|
        0 <= j < s1.len() && j != k && #[trigger] at(s1[j], py + 2 * dy, px + 2 * dx) implies !s1[j].tile_type.solid() by {
        assert(s1[j] == s[j]);
    }
    lemma_no_blockers(s1, py + 3 * dy, px + 3 * dx);
    assert(!solid_in(s1, s1.len() as int, py + 2 * dy, px + 2 * dx));
    assert(!solid_in(s1, k, py + 2 * dy, px + 2 * dx));
    assert(pushes(s1, k, py + 2 * dy, px + 2 * dx, true));
}

/// A box at the target with something solid or pushable beyond it blocks
/// the step: the player stays and no tile moves.
pub proof fn lemma_push_blocked(s: Seq<Tile>, py: int, px: int, d: Direction, k: int, b: int)
    requires
        0 <= k < s.len(),
        s[k].tile_type.pushable(),
        at(s[k], py + d.dy(), px + d.dx()),
        0 <= b < s.len(),
        at(s[b], py + 2 * d.dy(), px + 2 * d.dx()),
        s[b].tile_type.solid() || s[b].tile_type.pushable(),
    ensures
        !player_advances(s, py, px, d.dy(), d.dx()),
        tiles_after_move(s, py, px, d.dy(), d.dx()) == s,
{
    lemma_no_blockers(s, py + 2 * d.dy(), px + 2 * d.dx());
    assert(pushable_at(s, py + d.dy(), px + d.dx()));
    assert(tiles_after_move(s, py, px, d.dy(), d.dx()) =~= s);
}

/// For an id with at least one button, a recompute opens each door linked
/// to it exactly when every button of that id holds the player or a box.
pub proof fn lemma_doors_follow_buttons(s: Seq<Tile>, py: int, px: int, k: int, id: Id, open: bool)
    requires
        0 <= k < s.len(),
        s[k].tile_type == TileType::Door(Some(id), open),
        has_button(s, id),
    ensures
        tiles_after_update(s, py, px)[k].tile_type == TileType::Door(
            Some(id),
            forall|j: int|
                0 <= j < s.len() && #[trigger] s[j].tile_type == TileType::Button(id) ==> covered(
                    s,
                    py,
                    px,
                    s[j].y as int,
                    s[j].x as int,
                ),
        ),
{
}

/// A button left with neither the player nor a box on it closes, on the
/// next recompute, every door linked to its id, whatever that door was before.
pub proof fn lemma_uncovered_button_closes(
    s: Seq<Tile>,
    py: int,
    px: int,
    k: int,
    id: Id,
    open: bool,
    b: int,
)
    requires
        0 <= k < s.len(),
        s[k].tile_type == TileType::Door(Some(id), open),
        0 <= b < s.len(),
        s[b].tile_type == TileType::Button(id),
        !covered(s, py, px, s[b].y as int, s[b].x as int),
    ensures
        tiles_after_update(s, py, px)[k].tile_type == TileType::Door(Some(id), false),
{
}

/// The tiles of the first built-in level: a bent corridor ending on a goal pad.
pub open spec fn first_level_tiles() -> Seq<Tile> {
    seq![]
        + wall_line(0, 0, TileType::Wall1, Direction::Right, 30)
        + wall_line(0, 0, TileType::Wall1, Direction::Down, 7)
        + wall_line(6, 0, TileType::Wall1, Direction::Right, 23)
        + wall_line(6, 23, TileType::Wall1, Direction::Down, 10)
        + wall_line(16, 23, TileType::Wall1, Direction::Right, 7)
        + wall_line(16, 29, TileType::Wall1, Direction::Up, 17)
        + seq![Tile { y: 13, x: 26, tile_type: TileType::WinPad }]
}

/// The tiles of the second built-in level: two doors, each opened by one button.
pub open spec fn second_level_tiles() -> Seq<Tile> {
    seq![]
        + wall_line(15, 5, TileType::Wall1, Direction::Right, 30)
        + wall_line(14, 34, TileType::Wall1, Direction::Up, 15)
        + wall_line(0, 34, TileType::Wall1, Direction::Left, 35)
        + wall_line(0, 0, TileType::Wall1, Direction::Down, 10)
        + wall_line(9, 0, TileType::Wall1, Direction::Right, 31)
        + wall_line(9, 32, TileType::Wall1, Direction::Right, 2)
        + wall_line(14, 5, TileType::Wall1, Direction::Up, 5)
        + wall_line(14, 17, TileType::Wall1, Direction::Up, 2)
        + seq![Tile { y: 12, x: 17, tile_type: TileType::Door(Some(0), false) }]
        + wall_line(11, 17, TileType::Wall1, Direction::Up, 2)
        + seq![
            Tile { y: 10, x: 11, tile_type: TileType::Button(0) },
            Tile { y: 7, x: 2, tile_type: TileType::WinPad },
            Tile { y: 9, x: 31, tile_type: TileType::Door(Some(1), false) },
            Tile { y: 14, x: 33, tile_type: TileType::Button(1) },
        ]
}

/// The tiles of the third built-in level: one door held by two buttons of
/// the same id, and a box to help cover them.
pub open spec fn third_level_tiles() -> Seq<Tile> {
    seq![]
        + wall_line(0, 0, TileType::Wall1, Direction::Right, 40)
        + wall_line(0, 0, TileType::Wall1, Direction::Down, 6)
        + wall_line(6, 0, TileType::Wall1, Direction::Right, 40)
        + wall_line(0, 39, TileType::Wall1, Direction::Down, 6)
        + wall_line(0, 28, TileType::Wall1, Direction::Down, 3)
        + wall_line(6, 28, TileType::Wall1, Direction::Up, 3)
        + seq![
            Tile { y: 3, x: 28, tile_type: TileType::Door(Some(0), false) },
            Tile { y: 2, x: 24, tile_type: TileType::Button(0) },
            Tile { y: 4, x: 24, tile_type: TileType::Button(0) },
            Tile { y: 3, x: 10, tile_type: TileType::PushBox },
            Tile { y: 3, x: 35, tile_type: TileType::WinPad },
        ]
}

/// Appends a straight line of `len` tiles from `(y, x)` towards `direction`.
fn add_wall(tiles: &mut Vec<Tile>, y: i32, x: i32, tile_type: TileType, direction: Direction, len: usize)
    requires
        len <= i32::MAX,
        len > 0 ==> i32::MIN <= y + (len - 1) * direction.dy() <= i32::MAX,
        len > 0 ==> i32::MIN <= x + (len - 1) * direction.dx() <= i32::MAX,
    ensures
        final(tiles)@ == old(tiles)@ + wall_line(y as int, x as int, tile_type, direction, len as int),
{
    let mut line = Tile::new_wall(y, x, tile_type, direction, len);
    tiles.append(&mut line);
}

/// The built-in levels, in playing order.
pub fn get_maps() -> (r: Vec<MapData>)
    ensures
        r@.len() == 3,
        r@[0].tile_map@ == first_level_tiles(),
        r@[0].player_spawn == (3i32, 3i32),
        r@[0].flavor_text is Some && r@[0].flavor_text->Some_0@ == "Welcome"@,
        r@[1].tile_map@ == second_level_tiles(),
        r@[1].player_spawn == (14i32, 6i32),
        r@[1].flavor_text is Some && r@[1].flavor_text->Some_0@ == "Buttons? What do they do?"@,
        r@[2].tile_map@ == third_level_tiles(),
        r@[2].player_spawn == (3i32, 3i32),
        r@[2].flavor_text is Some && r@[2].flavor_text->Some_0@
            == "You must activate both buttons at once."@,
{
    let mut first: Vec<Tile> = Vec::new();
    add_wall(&mut first, 0, 0, TileType::Wall1, Direction::Right, 30);
    add_wall(&mut first, 0, 0, TileType::Wall1, Direction::Down, 7);
    add_wall(&mut first, 6, 0, TileType::Wall1, Direction::Right, 23);
    add_wall(&mut first, 6, 23, TileType::Wall1, Direction::Down, 10);
    add_wall(&mut first, 16, 23, TileType::Wall1, Direction::Right, 7);
    add_wall(&mut first, 16, 29, TileType::Wall1, Direction::Up, 17);
    first.push(Tile::new(13, 26, TileType::WinPad));
    assert(first@ =~= first_level_tiles());

    let mut second: Vec<Tile> = Vec::new();
    add_wall(&mut second, 15, 5, TileType::Wall1, Direction::Right, 30);
    add_wall(&mut second, 14, 34, TileType::Wall1, Direction::Up, 15);
    add_wall(&mut second, 0, 34, TileType::Wall1, Direction::Left, 35);
    add_wall(&mut second, 0, 0, TileType::Wall1, Direction::Down, 10);
    add_wall(&mut second, 9, 0, TileType::Wall1, Direction::Right, 31);
    add_wall(&mut second, 9, 32, TileType::Wall1, Direction::Right, 2);
    add_wall(&mut second, 14, 5, TileType::Wall1, Direction::Up, 5);
    add_wall(&mut second, 14, 17, TileType::Wall1, Direction::Up, 2);
    second.push(Tile::new(12, 17, TileType::Door(Some(0), false)));
    add_wall(&mut second, 11, 17, TileType::Wall1, Direction::Up, 2);
    second.push(Tile::new(10, 11, TileType::Button(0)));
    second.push(Tile::new(7, 2, TileType::WinPad));
    second.push(Tile::new(9, 31, TileType::Door(Some(1), false)));
    second.push(Tile::new(14, 33, TileType::Button(1)));
    assert(second@ =~= second_level_tiles());

    let mut third: Vec<Tile> = Vec::new();
    add_wall(&mut third, 0, 0, TileType::Wall1, Direction::Right, 40);
    add_wall(&mut third, 0, 0, TileType::Wall1, Direction::Down, 6);
    add_wall(&mut third, 6, 0, TileType::Wall1, Direction::Right, 40);
    add_wall(&mut third, 0, 39, TileType::Wall1, Direction::Down, 6);
    add_wall(&mut third, 0, 28, TileType::Wall1, Direction::Down, 3);
    add_wall(&mut third, 6, 28, TileType::Wall1, Direction::Up, 3);
    third.push(Tile::new(3, 28, TileType::Door(Some(0), false)));
    third.push(Tile::new(2, 24, TileType::Button(0)));
    third.push(Tile::new(4, 24, TileType::Button(0)));
    third.push(Tile::new(3, 10, TileType::PushBox));
    third.push(Tile::new(3, 35, TileType::WinPad));
    assert(third@ =~= third_level_tiles());

    let mut maps: Vec<MapData> = Vec::new();
    maps.push(
        MapData {
            tile_map: first,
            player_spawn: (3, 3),
            flavor_text: Some("Welcome".to_string()),
        },
    );
    maps.push(
        MapData {
            tile_map: second,
            player_spawn: (14, 6),
            flavor_text: Some("Buttons? What do they do?".to_string()),
        },
    );
    maps.push(
        MapData {
            tile_map: third,
            player_spawn: (3, 3),
            flavor_text: Some("You must activate both buttons at once.".to_string()),
        },
    );
    maps
}

/// The first 98 tiles of the third level are walls, and on row 3 they stand
/// only at the two ends, columns 0 and 39.
pub proof fn lemma_third_level_walls()
    ensures
        third_level_tiles().len() == 103,
        forall|k: int|
            0 <= k < 98 ==> (#[trigger] third_level_tiles()[k]).tile_type == TileType::Wall1 && (
            third_level_tiles()[k].y == 3 ==> third_level_tiles()[k].x == 0
                || third_level_tiles()[k].x == 39),
{
    let w1 = wall_line(0, 0, TileType::Wall1, Direction::Right, 40);
    let w2 = wall_line(0, 0, TileType::Wall1, Direction::Down, 6);
    let w3 = wall_line(6, 0, TileType::Wall1, Direction::Right, 40);
    let w4 = wall_line(0, 39, TileType::Wall1, Direction::Down, 6);
    let w5 = wall_line(0, 28, TileType::Wall1, Direction::Down, 3);
    let w6 = wall_line(6, 28, TileType::Wall1, Direction::Up, 3);
    let walls = seq![] + w1 + w2 + w3 + w4 + w5 + w6;
    assert(walls =~= w1 + w2 + w3 + w4 + w5 + w6);
    assert forall|k: int| 0 <= k < 98 implies (#[trigger] walls[k]).tile_type == TileType::Wall1 && (
    walls[k].y == 3 ==> walls[k].x == 0 || walls[k].x == 39) by {
        if k < 40 {
            assert(walls[k] == w1[k]);
        } else if k < 46 {
            assert(walls[k] == w2[k - 40]);
        } else if k < 86 {
            assert(walls[k] == w3[k - 46]);
        } else if k < 92 {
            assert(walls[k] == w4[k - 86]);
        } else if k < 95 {
            assert(walls[k] == w5[k - 92]);
        } else {
            assert(walls[k] == w6[k - 95]);
        }
    }
    assert forall|k: int| 0 <= k < 98 implies third_level_tiles()[k] == walls[k] by {}
}

/// In the third level, a player at (3, 9) stepping right pushes the box from
/// (3, 10) to (3, 11) and follows it to (3, 10); no other tile moves.
pub proof fn lemma_third_level_push()
    ensures
        player_advances(third_level_tiles(), 3, 9, 0, 1),
        tiles_after_move(third_level_tiles(), 3, 9, 0, 1)[101] == (Tile {
            y: 3,
            x: 11,
            tile_type: TileType::PushBox,
        }),
        forall|j: int|
            0 <= j < 103 && j != 101 ==> #[trigger] tiles_after_move(third_level_tiles(), 3, 9, 0, 1)[j]
                == third_level_tiles()[j],
{
    lemma_third_level_walls();
    let s = third_level_tiles();
    assert forall|j: int| 0 <= j < s.len() && j != 101 implies !#[trigger] at(s[j], 3, 10) by {
        if j < 98 {
            assert(s[j].tile_type == TileType::Wall1);
        }
    }
    assert forall|j: int| 0 <= j < s.len() && #[trigger] at(s[j], 3, 11) implies !s[j].tile_type.solid()
        && !s[j].tile_type.pushable() by {
        if j < 98 {
            assert(s[j].tile_type == TileType::Wall1);
        }
    }
    lemma_push_lone_box(s, 3, 9, Direction::Right, 101);
}

/// In the third level, with its box still at (3, 10), the door at (3, 28)
/// stays closed wherever the player stands, since a player covers at most
/// one of the two buttons of id 0; with the box moved onto (2, 24) and the
/// player on (4, 24), it opens.
pub proof fn lemma_third_level_door(py: int, px: int)
    ensures
        tiles_after_update(third_level_tiles(), py, px)[98].tile_type == TileType::Door(
            Some(0),
            false,
        ),
        tiles_after_update(
            third_level_tiles().update(101, Tile { y: 2, x: 24, tile_type: TileType::PushBox }),
            4,
            24,
        )[98].tile_type == TileType::Door(Some(0), true),
{
    lemma_third_level_walls();
    let s = third_level_tiles();
    if py == 2 && px == 24 {
        assert(!covered(s, py, px, 4, 24)) by {
            assert forall|k: int| 0 <= k < s.len() && #[trigger] at(s[k], 4, 24) implies s[k].tile_type
                != TileType::PushBox by {
                if k < 98 {
                    assert(s[k].tile_type == TileType::Wall1);
                }
            }
        }
        lemma_uncovered_button_closes(s, py, px, 98, 0, false, 100);
    } else {
        assert(!covered(s, py, px, 2, 24)) by {
            assert forall|k: int| 0 <= k < s.len() && #[trigger] at(s[k], 2, 24) implies s[k].tile_type
                != TileType::PushBox by {
                if k < 98 {
                    assert(s[k].tile_type == TileType::Wall1);
                }
            }
        }
        lemma_uncovered_button_closes(s, py, px, 98, 0, false, 99);
    }
    let t = s.update(101, Tile { y: 2, x: 24, tile_type: TileType::PushBox });
    assert(t[99].tile_type == TileType::Button(0));
    assert(has_button(t, 0));
    assert(at(t[101], 2, 24));
    assert forall|k: int| 0 <= k < t.len() && #[trigger] t[k].tile_type == TileType::Button(0) implies covered(
        t,
        4,
        24,
        t[k].y as int,
        t[k].x as int,
    ) by {
        if k < 98 {
            assert(s[k].tile_type == TileType::Wall1);
        }
    }
    assert(id_satisfied(t, 4, 24, 0));
}

} // verus!
