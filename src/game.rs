use vstd::prelude::*;
use crate::Direction;
use crate::map::{events_at, player_advances, tiles_after_move, tiles_after_update, at, Event, MapData, MapModel, TileType};

verus! {

/// The player token.
#[derive(Clone, Copy, PartialEq, Eq, Structural, Debug)]
pub struct Player {
    pub y: i32,
    pub x: i32,
    pub glyph: char,
}

impl Player {
    /// This player one step further in direction `d`.
    pub open spec fn shifted(self, d: Direction) -> Player {
        Player { y: (self.y + d.dy()) as i32, x: (self.x + d.dx()) as i32, glyph: self.glyph }
    }

    /// Moves the token one step without looking at the level; movement rules
    /// live in `GameContext::player_movement`.
    pub fn move_pos(&mut self, direction: Direction)
        requires
            crate::steps_fit(old(self).y as int, old(self).x as int, direction, 1),
        ensures
            *final(self) == old(self).shifted(direction),
    {
        let change = direction.get_vec2_move();
        self.y = self.y + change.0;
        self.x = self.x + change.1;
    }
}

/// Failure to load a level.
#[derive(Clone, Copy, PartialEq, Eq, Structural, Debug)]
pub enum LevelError {
    /// No level template exists at the requested index.
    LevelNotFound,
}

/// Abstract value of a session.
pub ghost struct GameModel {
    pub player: Player,
    pub map: Option<MapModel>,
    pub maps: Seq<MapModel>,
    pub level: u32,
}

/// A running game: the player, the working copy of the active level, the
/// level templates, and the index of the current one.
#[derive(Debug)]
pub struct GameContext {
    pub player: Player,
    pub map_data: Option<MapData>,
    pub map_list: Vec<MapData>,
    pub level: u32,
}

impl View for GameContext {
    type V = GameModel;

    open spec fn view(&self) -> GameModel {
        GameModel {
            player: self.player,
            map: match self.map_data {
                Some(m) => Some(m@),
                None => None,
            },
            maps: self.map_list@.map_values(|m: MapData| m@),
            level: self.level,
        }
    }
}

/// Session `g` with the template at its current index loaded: the active
/// level is a copy of it and the player stands on its spawn point.
pub open spec fn loaded(g: GameModel) -> GameModel {
    let m = g.maps[g.level as int];
    GameModel {
        player: Player { y: m.spawn.0, x: m.spawn.1, glyph: g.player.glyph },
        map: Some(m),
        maps: g.maps,
        level: g.level,
    }
}

/// Session `g` with its index moved to `level`.
pub open spec fn at_level(g: GameModel, level: int) -> GameModel {
    GameModel { player: g.player, map: g.map, maps: g.maps, level: level as u32 }
}

/// Session `g` after the player tries a step towards `d`.
pub open spec fn moved(g: GameModel, d: Direction) -> GameModel {
    match g.map {
        Some(m) => GameModel {
            player: if player_advances(m.tiles, g.player.y as int, g.player.x as int, d.dy(), d.dx()) {
                g.player.shifted(d)
            } else {
                g.player
            },
            map: Some(
                MapModel {
                    tiles: tiles_after_move(m.tiles, g.player.y as int, g.player.x as int, d.dy(), d.dx()),
                    spawn: m.spawn,
                    flavor: m.flavor,
                },
            ),
            maps: g.maps,
            level: g.level,
        },
        None => g,
    }
}

/// Session `g` with its active level's doors recomputed.
pub open spec fn doors_recomputed(g: GameModel) -> GameModel {
    match g.map {
        Some(m) => GameModel {
            player: g.player,
            map: Some(
                MapModel {
                    tiles: tiles_after_update(m.tiles, g.player.y as int, g.player.x as int),
                    spawn: m.spawn,
                    flavor: m.flavor,
                },
            ),
            maps: g.maps,
            level: g.level,
        },
        None => g,
    }
}

/// The events at the player's position in session `g`.
pub open spec fn current_events(g: GameModel) -> Seq<Event> {
    match g.map {
        Some(m) => events_at(m.tiles, g.player.y as int, g.player.x as int),
        None => seq![],
    }
}

/// The player of `g` stands on at least one goal pad of the active level.
pub open spec fn on_win_pad(g: GameModel) -> bool {
    match g.map {
        Some(m) => exists|k: int|
            0 <= k < m.tiles.len() && #[trigger] at(m.tiles[k], g.player.y as int, g.player.x as int)
                && m.tiles[k].tile_type == TileType::WinPad,
        None => false,
    }
}

/// Some event at `(y, x)` is a win exactly when a goal pad stands there.
pub proof fn lemma_win_event(s: Seq<crate::map::Tile>, y: int, x: int)
    ensures
        events_at(s, y, x).contains(Event::Win) <==> exists|k: int|
            0 <= k < s.len() && #[trigger] at(s[k], y, x) && s[k].tile_type == TileType::WinPad,
    decreases s.len(),
{
    if s.len() > 0 {
        let p = s.drop_last();
        lemma_win_event(p, y, x);
        let e = events_at(s, y, x);
        let ep = events_at(p, y, x);
        if exists|k: int| 0 <= k < s.len() && #[trigger] at(s[k], y, x) && s[k].tile_type == TileType::WinPad {
            let k = choose|k: int| 0 <= k < s.len() && #[trigger] at(s[k], y, x) && s[k].tile_type == TileType::WinPad;
            if k < s.len() - 1 {
                assert(p[k] == s[k]);
                assert(ep.contains(Event::Win));
                let j = choose|j: int| 0 <= j < ep.len() && ep[j] == Event::Win;
                assert(e[j] == Event::Win);
            } else {
                assert(e[e.len() - 1] == Event::Win);
            }
        }
        if e.contains(Event::Win) {
            let j = choose|j: int| 0 <= j < e.len() && e[j] == Event::Win;
            if j < ep.len() {
                assert(ep[j] == Event::Win);
                assert(ep.contains(Event::Win));
                let k = choose|k: int| 0 <= k < p.len() && #[trigger] at(p[k], y, x) && p[k].tile_type == TileType::WinPad;
                assert(s[k] == p[k]);
            } else {
                assert(at(s[s.len() - 1], y, x));
            }
        }
    }
}

impl GameContext {
    /// Replaces the active level with a copy of the template at the current
    /// index and puts the player on its spawn point. Fails, changing
    /// nothing, when no template exists at that index.
    pub fn load_current_level(&mut self) -> (r: Result<(), LevelError>)
        ensures
            r is Ok <==> old(self)@.level < old(self)@.maps.len(),
            r is Ok ==> final(self)@ == loaded(old(self)@),
            r is Err ==> r == Err::<(), LevelError>(LevelError::LevelNotFound) && final(self)@ == old(self)@,
    {
        let idx = self.level as usize;
        if idx >= self.map_list.len() {
            return Err(LevelError::LevelNotFound);
        }
        let map = self.map_list[idx].duplicate();
        self.player.y = map.player_spawn.0;
        self.player.x = map.player_spawn.1;
        self.map_data = Some(map);
        proof {
            assert(self@.maps =~= old(self)@.maps);
        }
        Ok(())
    }

    /// Moves to the next level and loads it. Fails, changing nothing, when
    /// the current level is the last.
    pub fn increment_level(&mut self) -> (r: Result<(), LevelError>)
        ensures
            r is Ok <==> old(self)@.level < u32::MAX && old(self)@.level + 1 < old(self)@.maps.len(),
            r is Ok ==> final(self)@ == loaded(at_level(old(self)@, old(self)@.level + 1)),
            r is Err ==> r == Err::<(), LevelError>(LevelError::LevelNotFound) && final(self)@ == old(self)@,
    {
        if self.level == u32::MAX || (self.level + 1) as usize >= self.map_list.len() {
            return Err(LevelError::LevelNotFound);
        }
        self.level = self.level + 1;
        let r = self.load_current_level();
        r
    }

    /// Moves to the previous level and loads it. Fails, changing nothing,
    /// when the current index is zero or past the last level.
    pub fn decrement_level(&mut self) -> (r: Result<(), LevelError>)
        ensures
            r is Ok <==> 0 < old(self)@.level <= old(self)@.maps.len(),
            r is Ok ==> final(self)@ == loaded(at_level(old(self)@, old(self)@.level - 1)),
            r is Err ==> r == Err::<(), LevelError>(LevelError::LevelNotFound) && final(self)@ == old(self)@,
    {
        if self.level == 0 || (self.level - 1) as usize >= self.map_list.len() {
            return Err(LevelError::LevelNotFound);
        }
        self.level = self.level - 1;
        let r = self.load_current_level();
        r
    }

    /// Lets the active level resolve one step of the player; does nothing
    /// when no level is active.
    pub fn player_movement(&mut self, direction: Direction)
        requires
            old(self).map_data is Some ==> crate::steps_fit(
                old(self).player.y as int,
                old(self).player.x as int,
                direction,
                2,
            ),
        ensures
            final(self)@ == moved(old(self)@, direction),
    {
        match self.map_data.take() {
            Some(mut map) => {
                map.player_move(&mut self.player, direction);
                self.map_data = Some(map);
            },
            None => {},
        }
        proof {
            assert(self@.maps =~= old(self)@.maps);
        }
    }

    /// The events of every tile under the player, in level order; empty
    /// when no level is active.
    pub fn collect_events(&self) -> (r: Vec<Event>)
        ensures
            r@ == current_events(self@),
    {
        match &self.map_data {
            Some(map) => map.events_at(self.player.y, self.player.x),
            None => Vec::new(),
        }
    }

    /// Ends a turn: if the player stands on a goal pad, moves to the next
    /// level (once, however many pads are there), then recomputes the doors
    /// of the active level. A win on the last level is reported as
    /// `LevelNotFound`, and the doors are still recomputed.
    pub fn update_all(&mut self) -> (r: Result<(), LevelError>)
        ensures
            r is Err <==> on_win_pad(old(self)@) && !(old(self)@.level < u32::MAX
                && old(self)@.level + 1 < old(self)@.maps.len()),
            r is Err ==> r == Err::<(), LevelError>(LevelError::LevelNotFound),
            final(self)@ == doors_recomputed(
                if on_win_pad(old(self)@) && old(self)@.level < u32::MAX && old(self)@.level + 1
                    < old(self)@.maps.len() {
                    loaded(at_level(old(self)@, old(self)@.level + 1))
                } else {
                    old(self)@
                },
            ),
    {
        let events = self.collect_events();
        let mut win = false;
        let mut i: usize = 0;
        while i < events.len()
            invariant
                i <= events@.len(),
                win == exists|j: int| 0 <= j < i && events@[j] == Event::Win,
            decreases events@.len() - i,
        {
            if events[i] == Event::Win {
                win = true;
            }
            i = i + 1;
        }
        proof {
            if let Some(m) = old(self)@.map {
                lemma_win_event(m.tiles, self.player.y as int, self.player.x as int);
            }
            assert(win == events@.contains(Event::Win));
        }
        let mut r: Result<(), LevelError> = Ok(());
        if win {
            r = self.increment_level();
        }
        match self.map_data.take() {
            Some(mut map) => {
                map.update_button_status(&self.player);
                self.map_data = Some(map);
            },
            None => {},
        }
        proof {
            assert(self@.maps =~= old(self)@.maps);
        }
        r
    }
}

/// Loading the current level twice in a row gives the same session as
/// loading it once.
pub proof fn lemma_load_idempotent(g: GameModel)
    requires
        g.level < g.maps.len(),
    ensures
        loaded(loaded(g)) == loaded(g),
{
}

/// Ending a turn on one or more goal pads, with a level after the current
/// one, moves the index up by exactly one and puts the player on that
/// level's spawn point.
pub proof fn lemma_win_advances_once(g: GameModel)
    requires
        on_win_pad(g),
        g.level < u32::MAX,
        g.level + 1 < g.maps.len(),
    ensures
        ({
            let h = doors_recomputed(loaded(at_level(g, g.level + 1)));
            &&& h.level == g.level + 1
            &&& h.player.y == g.maps[g.level + 1].spawn.0
            &&& h.player.x == g.maps[g.level + 1].spawn.1
            &&& h.maps == g.maps
        }),
{
}

} // verus!
