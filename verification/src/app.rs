//! The screen state machine of the interactive timer: which screen is
//! shown, which session is open, the selection cursors, and what happens
//! on every key. The surrounding event loop polls the terminal, hands
//! each key to these functions, and carries out the returned command.

use vstd::prelude::*;

use crate::config::Config;
use crate::cursor::{clamp_model, down_model, top_model, up_model, ListCursor};
use crate::error::Error;
use crate::scramble::{family_groups, family_len, joined, Scramble};
use crate::solve_time::SolveTime;
use crate::stats::stat::Stat;
use crate::stats::stats::{lemma_unique_idx, Stats};

verus! {

/// The screens of the interface.
#[derive(Debug, Clone, Copy, PartialEq, Eq, Structural)]
pub enum Screen {
    Timer,
    Sessions,
}

/// A normalised key event, as the event source hands it in.
#[derive(Debug, Clone, Copy, PartialEq, Eq, Structural)]
pub enum Key {
    Up,
    Down,
    Left,
    Right,
    Enter,
    Esc,
    Delete,
    Tab,
    Char(char),
}

/// Moves a selection up: the arrow or the vim motion.
pub open spec fn is_up_key(k: Key) -> bool {
    k == Key::Up || k == Key::Char('k') || k == Key::Char('K')
}

/// Moves a selection down.
pub open spec fn is_down_key(k: Key) -> bool {
    k == Key::Down || k == Key::Char('j') || k == Key::Char('J')
}

/// Leaves the program.
pub open spec fn is_quit_key(k: Key) -> bool {
    k == Key::Esc || k == Key::Char('q') || k == Key::Char('Q')
}

/// Switches to the next digit font.
pub open spec fn is_font_next_key(k: Key) -> bool {
    k == Key::Right || k == Key::Char('l') || k == Key::Char('L')
}

/// Switches to the previous digit font.
pub open spec fn is_font_prev_key(k: Key) -> bool {
    k == Key::Left || k == Key::Char('h') || k == Key::Char('H')
}

/// Goes back to the sessions screen.
pub open spec fn is_sessions_key(k: Key) -> bool {
    k == Key::Char('s') || k == Key::Char('S')
}

/// Asks for a fresh scramble.
pub open spec fn is_new_scramble_key(k: Key) -> bool {
    k == Key::Char('n') || k == Key::Char('N')
}

/// Starts or stops the running timer.
pub open spec fn is_space_key(k: Key) -> bool {
    k == Key::Char(' ')
}

/// What the surrounding event loop must do after a key was handled.
#[derive(Debug, Clone, Copy, PartialEq, Eq, Structural)]
pub enum Cmd {
    /// Nothing to do.
    Nothing,
    /// Draw the current screen afresh.
    Render,
    /// Redraw with the current layout (a cursor moved).
    Rerender,
    /// Persist the configuration, then draw.
    SaveConfig,
    /// Persist the stats, then draw.
    SaveStats,
    /// Run the running-timer loop, then record the solve.
    StartTimer,
}

/// A scramble freshly generated for the given puzzle family.
pub open spec fn fresh_scramble(sc: Scramble, t: Seq<char>) -> bool {
    &&& sc.moves_view() == family_groups(t)
    &&& sc.spec_length() == family_len(t)
    &&& sc.ok_moves()
    &&& sc.sound()
    &&& sc.current().len() == sc.spec_length()
}

/// App struct containing the screen state the key handlers drive.
pub struct App {
    pub config: Config,
    pub screen: Screen,
    pub session: Option<String>,
    pub scramble: Option<Scramble>,
    pub stats: Stats,
    pub time: SolveTime,
    pub sessions_cursor: ListCursor,
    pub stats_cursor: ListCursor,
}

impl App {
    /// The stat count of the open session.
    pub open spec fn open_session_len(self) -> int {
        match self.session {
            Some(n) => self.stats@.session_of(n@).stats.len() as int,
            None => 0,
        }
    }

    /// The state is consistent: the store is well-formed, the cursors
    /// stay inside their lists, a scramble is generable, and on the
    /// timer screen a session is open with a scramble ready.
    pub open spec fn wf(self) -> bool {
        &&& self.stats@.wf()
        &&& (match self.scramble {
            Some(sc) => sc.ok_moves() && sc.sound(),
            None => true,
        })
        &&& self.sessions_cursor.in_range(self.stats@.sessions.len() as int)
        &&& self.screen is Timer ==> {
            &&& (match self.session {
                Some(n) => self.stats@.has_name(n@),
                None => false,
            })
            &&& self.scramble is Some
            &&& self.stats_cursor.in_range(self.open_session_len())
        }
    }

    /// Creates a new [`App`] on the sessions screen.
    pub fn new(stats: Stats, config: Config) -> (r: App)
        requires
            stats@.wf(),
        ensures
            r.wf(),
            r.screen is Sessions,
            r.stats@ == stats@,
            r.config == config,
            r.session is None,
            r.scramble is None,
            r.time.total_nanos() == 0,
    {
        let count = stats.session_count();
        App {
            config,
            screen: Screen::Sessions,
            session: None,
            scramble: None,
            stats,
            time: SolveTime::zero(),
            sessions_cursor: ListCursor::new(count),
            stats_cursor: ListCursor { selected: None },
        }
    }

    /// Creates a new [`App`] with the named session opened on the timer
    /// screen; an unknown name falls back to the sessions screen.
    pub fn open(stats: Stats, config: Config, session: &str) -> (r: App)
        requires
            stats@.wf(),
        ensures
            r.wf(),
            r.stats@ == stats@,
            r.config == config,
            r.time.total_nanos() == 0,
            stats@.has_name(session@) ==> {
                &&& r.screen is Timer
                &&& (r.session matches Some(n) && n@ == session@)
                &&& (r.scramble matches Some(sc) && fresh_scramble(
                    sc,
                    stats@.session_of(session@).scramble_type,
                ))
            },
            !stats@.has_name(session@) ==> r.screen is Sessions && r.session is None
                && r.scramble is None,
    {
        let count = stats.session_count();
        let ty: Option<String> = match stats.get_session(session) {
            Some(s) => Some(s.scramble_type.clone()),
            None => None,
        };
        match ty {
            Some(t) => {
                let slen = match stats.get_session(session) {
                    Some(s) => s.stats.len(),
                    None => 0,
                };
                let mut sc = Scramble::new(t.as_str());
                sc.generate();
                App {
                    config,
                    screen: Screen::Timer,
                    session: Some(session.to_owned()),
                    scramble: Some(sc),
                    stats,
                    time: SolveTime::zero(),
                    sessions_cursor: ListCursor::new(count),
                    stats_cursor: ListCursor::new(slen),
                }
            },
            None => App {
                config,
                screen: Screen::Sessions,
                session: None,
                scramble: None,
                stats,
                time: SolveTime::zero(),
                sessions_cursor: ListCursor::new(count),
                stats_cursor: ListCursor { selected: None },
            },
        }
    }

    /// Listens to pressed keys while showing the sessions screen.
    pub fn listen_sessions(&mut self, key: Key) -> (r: Result<Cmd, Error>)
        requires
            old(self).wf(),
            old(self).screen is Sessions,
        ensures
            final(self).wf(),
            final(self).config == old(self).config,
            final(self).stats@ == old(self).stats@,
            final(self).time == old(self).time,
            is_quit_key(key) ==> r == Result::<Cmd, Error>::Err(Error::Exit) && *final(self) == *old(self),
            is_up_key(key) ==> r == Result::<Cmd, Error>::Ok(Cmd::Rerender) && final(self).sessions_cursor == up_model(old(self).sessions_cursor) && final(self).screen
                == old(self).screen && final(self).session == old(self).session,
            is_down_key(key) ==> r == Result::<Cmd, Error>::Ok(Cmd::Rerender) && final(self).sessions_cursor == down_model(
                old(self).sessions_cursor,
                old(self).stats@.sessions.len() as int,
            ) && final(self).screen == old(self).screen && final(self).session == old(self).session,
            key == Key::Enter ==> (match old(self).sessions_cursor.selected {
                Some(i) => {
                    &&& r == Result::<Cmd, Error>::Ok(Cmd::Render)
                    &&& final(self).screen is Timer
                    &&& (final(self).session matches Some(n) && n@ == old(self).stats@.sessions[i as int].0)
                    &&& (final(self).scramble matches Some(sc) && fresh_scramble(
                        sc,
                        old(self).stats@.sessions[i as int].1.scramble_type,
                    ))
                    &&& final(self).sessions_cursor == old(self).sessions_cursor
                    &&& final(self).stats_cursor == top_model(
                        old(self).stats@.sessions[i as int].1.stats.len() as int,
                    )
                },
                None => r == Result::<Cmd, Error>::Ok(Cmd::Nothing) && *final(self) == *old(self),
            }),
            !is_quit_key(key) && !is_up_key(key) && !is_down_key(key) && key != Key::Enter ==> r
                == Result::<Cmd, Error>::Ok(Cmd::Nothing) && *final(self) == *old(self),
    {
        match key {
            Key::Up | Key::Char('k') | Key::Char('K') => {
                self.sessions_cursor.up();
                proof {
                    crate::cursor::lemma_cursor_bounds(
                        old(self).sessions_cursor,
                        old(self).stats@.sessions.len() as int,
                    );
                }
                Ok(Cmd::Rerender)
            },
            Key::Down | Key::Char('j') | Key::Char('J') => {
                let count = self.stats.session_count();
                self.sessions_cursor.down(count);
                proof {
                    crate::cursor::lemma_cursor_bounds(
                        old(self).sessions_cursor,
                        old(self).stats@.sessions.len() as int,
                    );
                }
                Ok(Cmd::Rerender)
            },
            Key::Enter => {
                let sel = self.sessions_cursor.selected;
                match sel {
                    Some(i) => {
                        let entry = self.stats.entry_at(i);
                        let name = entry.0.clone();
                        let ty = entry.1.scramble_type.clone();
                        let slen = entry.1.stats.len();
                        let mut sc = Scramble::new(ty.as_str());
                        sc.generate();
                        self.session = Some(name);
                        self.screen = Screen::Timer;
                        self.scramble = Some(sc);
                        self.stats_cursor = ListCursor::new(slen);
                        proof {
                            lemma_unique_idx(self.stats@, self.spec_session_name(), i as int);
                        }
                        Ok(Cmd::Render)
                    },
                    None => Ok(Cmd::Nothing),
                }
            },
            Key::Esc | Key::Char('q') | Key::Char('Q') => Err(Error::Exit),
            _ => Ok(Cmd::Nothing),
        }
    }

    /// The name of the open session, in contracts.
    pub open spec fn spec_session_name(self) -> Seq<char> {
        match self.session {
            Some(n) => n@,
            None => Seq::empty(),
        }
    }

    /// The scramble tokens currently on screen, in contracts.
    pub open spec fn spec_scramble_text(self) -> Seq<char> {
        match self.scramble {
            Some(sc) => joined(sc.current()),
            None => Seq::empty(),
        }
    }

    /// The stat count of the open session, as a machine word.
    fn open_len(&self) -> (r: usize)
        requires
            self.stats@.names_unique(),
            match self.session {
                Some(n) => self.stats@.has_name(n@),
                None => false,
            },
        ensures
            r == self.open_session_len(),
    {
        proof {
            lemma_unique_idx(
                self.stats@,
                self.spec_session_name(),
                self.stats@.idx_of(self.spec_session_name()),
            );
        }
        match &self.session {
            Some(n) => match self.stats.get_session(n.as_str()) {
                Some(s) => s.stats.len(),
                None => 0,
            },
            None => 0,
        }
    }

    /// Listens to pressed keys while showing the timer screen.
    pub fn listen_timer(&mut self, key: Key) -> (r: Result<Cmd, Error>)
        requires
            old(self).wf(),
            old(self).screen is Timer,
        ensures
            final(self).wf(),
            final(self).time == old(self).time,
            is_quit_key(key) ==> r == Result::<Cmd, Error>::Err(Error::Exit) && *final(self)
                == *old(self),
            is_font_next_key(key) ==> r == Result::<Cmd, Error>::Ok(Cmd::SaveConfig) && final(self).config.font == crate::asci::digit_type::spec_next(old(self).config.font) && final(self).stats@ == old(self).stats@ && final(self).screen == old(self).screen && final(self).session == old(self).session,
            is_font_prev_key(key) ==> r == Result::<Cmd, Error>::Ok(Cmd::SaveConfig) && final(self).config.font == crate::asci::digit_type::spec_prev(old(self).config.font) && final(self).stats@ == old(self).stats@ && final(self).screen == old(self).screen && final(self).session == old(self).session,
            is_up_key(key) ==> r == Result::<Cmd, Error>::Ok(Cmd::Rerender) && final(self).stats_cursor == up_model(old(self).stats_cursor) && final(self).stats@ == old(self).stats@ && final(self).screen == old(self).screen && final(self).config == old(self).config,
            is_down_key(key) ==> r == Result::<Cmd, Error>::Ok(Cmd::Rerender) && final(self).stats_cursor == down_model(old(self).stats_cursor, old(self).open_session_len())
                && final(self).stats@ == old(self).stats@ && final(self).screen == old(self).screen && final(self).config == old(self).config,
            key == Key::Delete ==> (match old(self).stats_cursor.selected {
                Some(i) => {
                    &&& r == Result::<Cmd, Error>::Ok(Cmd::SaveStats)
                    &&& final(self).stats@.sessions =~= old(self).stats@.without_stat(
                        i as int,
                        old(self).spec_session_name(),
                    ).sessions
                    &&& final(self).screen == old(self).screen
                    &&& final(self).config == old(self).config
                    &&& final(self).session == old(self).session
                    &&& final(self).stats_cursor == clamp_model(
                        old(self).stats_cursor,
                        final(self).open_session_len(),
                    )
                },
                None => r == Result::<Cmd, Error>::Ok(Cmd::Render) && *final(self) == *old(self),
            }),
            is_sessions_key(key) ==> r == Result::<Cmd, Error>::Ok(Cmd::Render) && final(self).screen is Sessions && final(self).stats@ == old(self).stats@ && final(self).config
                == old(self).config && final(self).session == old(self).session,
            is_new_scramble_key(key) ==> r == Result::<Cmd, Error>::Ok(Cmd::Render) && final(self).stats@ == old(self).stats@ && final(self).config == old(self).config && final(self).screen == old(self).screen && (final(self).scramble matches Some(sc)
                && sc.moves_view() == scramble_moves(old(self).scramble) && sc.current().len()
                == sc.spec_length()),
            is_space_key(key) ==> r == Result::<Cmd, Error>::Ok(Cmd::StartTimer) && *final(self)
                == *old(self),
            !is_quit_key(key) && !is_font_next_key(key) && !is_font_prev_key(key) && !is_up_key(
                key,
            ) && !is_down_key(key) && key != Key::Delete && !is_sessions_key(key)
                && !is_new_scramble_key(key) && !is_space_key(key) ==> r == Result::<
                Cmd,
                Error,
            >::Ok(Cmd::Render) && *final(self) == *old(self),
    {
        match key {
            Key::Right | Key::Char('l') | Key::Char('L') => {
                let f = self.config.font.next();
                self.config.set_font(f);
                Ok(Cmd::SaveConfig)
            },
            Key::Left | Key::Char('h') | Key::Char('H') => {
                let f = self.config.font.prev();
                self.config.set_font(f);
                Ok(Cmd::SaveConfig)
            },
            Key::Up | Key::Char('k') | Key::Char('K') => {
                self.stats_cursor.up();
                proof {
                    crate::cursor::lemma_cursor_bounds(
                        old(self).stats_cursor,
                        old(self).open_session_len(),
                    );
                }
                Ok(Cmd::Rerender)
            },
            Key::Down | Key::Char('j') | Key::Char('J') => {
                let n = self.open_len();
                self.stats_cursor.down(n);
                proof {
                    crate::cursor::lemma_cursor_bounds(
                        old(self).stats_cursor,
                        old(self).open_session_len(),
                    );
                }
                Ok(Cmd::Rerender)
            },
            Key::Delete => {
                let sel = self.stats_cursor.selected;
                match sel {
                    Some(i) => {
                        let name = match &self.session {
                            Some(n) => n.clone(),
                            None => String::new(),
                        };
                        self.stats.remove(i, name.as_str());
                        proof {
                            let sn = old(self).spec_session_name();
                            let gi = old(self).stats@.idx_of(sn);
                            lemma_unique_idx(old(self).stats@, sn, gi);
                            assert(self.stats@.sessions[gi].0 == sn);
                            assert(self.stats@.has_name(sn));
                            lemma_unique_idx(self.stats@, sn, gi);
                        }
                        let n = self.open_len();
                        self.stats_cursor.clamp(n);
                        Ok(Cmd::SaveStats)
                    },
                    None => Ok(Cmd::Render),
                }
            },
            Key::Char('s') | Key::Char('S') => {
                self.screen = Screen::Sessions;
                Ok(Cmd::Render)
            },
            Key::Char('n') | Key::Char('N') => {
                match &mut self.scramble {
                    Some(sc) => {
                        sc.generate();
                    },
                    None => {},
                }
                Ok(Cmd::Render)
            },
            Key::Char(' ') => Ok(Cmd::StartTimer),
            Key::Esc | Key::Char('q') | Key::Char('Q') => Err(Error::Exit),
            _ => Ok(Cmd::Render),
        }
    }

    /// Replaces the current scramble by a fresh one of the same family.
    pub fn next_scramble(&mut self)
        requires
            old(self).wf(),
        ensures
            final(self).wf(),
            final(self).stats@ == old(self).stats@,
            final(self).config == old(self).config,
            final(self).screen == old(self).screen,
            final(self).session == old(self).session,
            final(self).time == old(self).time,
            old(self).scramble is Some ==> (final(self).scramble matches Some(sc)
                && sc.moves_view() == scramble_moves(old(self).scramble) && sc.sound()
                && sc.current().len() == sc.spec_length()),
            old(self).scramble is None ==> final(self).scramble is None,
    {
        match &mut self.scramble {
            Some(sc) => {
                sc.generate();
            },
            None => {},
        }
    }

    /// Records the finished solve: stores its time, appends a stat with
    /// the current scramble and an empty comment to the open session, and
    /// keeps the stats cursor in range. The caller persists the store
    /// afterwards and only then asks for the next scramble.
    pub fn record_solve(&mut self, elapsed: SolveTime) -> (r: Result<(), Error>)
        requires
            old(self).wf(),
            old(self).screen is Timer,
            elapsed.wf(),
        ensures
            final(self).wf(),
            r is Ok,
            final(self).time == elapsed,
            final(self).screen == old(self).screen,
            final(self).config == old(self).config,
            final(self).session == old(self).session,
            final(self).scramble == old(self).scramble,
            final(self).stats_cursor == clamp_model(
                old(self).stats_cursor,
                final(self).open_session_len(),
            ),
            ({
                let n = old(self).spec_session_name();
                let stats0 = old(self).stats@.session_of(n).stats;
                let stats1 = final(self).stats@.session_of(n).stats;
                &&& final(self).stats@.has_name(n)
                &&& stats1.len() == stats0.len() + 1
                &&& stats1.subrange(0, stats0.len() as int) =~= stats0
                &&& stats1.last().secs == elapsed.secs
                &&& stats1.last().nanos == elapsed.nanos
                &&& stats1.last().scramble == old(self).spec_scramble_text()
                &&& stats1.last().comment == Seq::<char>::empty()
                &&& forall|j: int|
                    0 <= j < old(self).stats@.sessions.len() && (#[trigger] old(self).stats@.sessions[j]).0 != n ==> final(self).stats@.sessions[j] == old(self).stats@.sessions[j]
            }),
    {
        self.time = elapsed;
        let scramble_str: String = match &self.scramble {
            Some(sc) => sc.get().to_owned(),
            None => String::new(),
        };
        let name = match &self.session {
            Some(n) => n.clone(),
            None => String::new(),
        };
        let stat = Stat::new(elapsed, scramble_str, String::new());
        let res = self.stats.add(stat, name.as_str());
        proof {
            let sn = old(self).spec_session_name();
            let gi = old(self).stats@.idx_of(sn);
            lemma_unique_idx(old(self).stats@, sn, gi);
            assert(self.stats@.sessions[gi].0 == sn);
            assert(self.stats@.has_name(sn));
            lemma_unique_idx(self.stats@, sn, gi);
        }
        let slen = self.open_len();
        self.stats_cursor.clamp(slen);
        res
    }
}

/// The move groups of an optional scramble.
pub open spec fn scramble_moves(sc: Option<Scramble>) -> Seq<Seq<Seq<char>>> {
    match sc {
        Some(s) => s.moves_view(),
        None => Seq::empty(),
    }
}

/// The running timer stops on space; every other key is ignored.
pub fn is_stop_key(key: &Key) -> (r: bool)
    ensures
        r == is_space_key(*key),
{
    match key {
        Key::Char(c) => *c == ' ',
        _ => false,
    }
}

} // verus!
