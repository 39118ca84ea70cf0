//! Long-press detection for touch input.
//!
//! A single touch that rests in place for [`LONG_PRESS_MS`] counts as a
//! secondary click.  The tracker follows which touches are down, times
//! the first one, and tells its wake-up timer (run by the outer layer)
//! when to fire and when to stand down.

use vstd::prelude::*;

use crate::geom::Pos;

verus! {

/// How long a single touch must rest to count as a long press, in
/// milliseconds.
pub const LONG_PRESS_MS: u64 = 1000;

/// What the tracker asks its wake-up timer to do.
#[derive(Clone, Copy, Debug, Eq, PartialEq, Structural)]
pub enum TrackerCommand {
    /// Wake up once the long-press duration has passed the given start
    /// time, in milliseconds.
    Refresh(u64),
    /// Forget the pending wake-up.
    Cancel,
}

/// One touch phase as the UI reports it.
#[derive(Clone, Copy, Debug, Eq, PartialEq, Structural)]
pub enum TouchPhase {
    Start,
    Move,
    End,
    Cancel,
}

/// Whether a press that started at `time` has lasted long enough by
/// `now_ms`.  A start time in the future counts for nothing.
pub fn check_time(time: Option<u64>, now_ms: u64) -> (r: bool)
    ensures
        r == (time matches Some(t) && now_ms >= t && now_ms - t >= LONG_PRESS_MS),
{
    if let Some(t) = time {
        now_ms >= t && now_ms - t >= LONG_PRESS_MS
    } else {
        false
    }
}

/// The single touch being timed.
#[derive(Clone, Copy, Debug, Eq, PartialEq, Structural)]
struct TouchInfo {
    time: u64,
    pos: Pos,
}

/// Tracks touches and reports a long press through `pos`.
pub struct LongPressTracker {
    ids: Vec<u64>,
    info: Option<TouchInfo>,
    /// Where the last long press landed, if one fired.
    pub pos: Option<Pos>,
}

impl LongPressTracker {
    /// Where the last long press landed, if one fired.
    pub closed spec fn spec_pos(self) -> Option<Pos> {
        self.pos
    }

    /// The touches currently down.
    pub closed spec fn spec_ids(self) -> Set<u64> {
        self.ids@.to_set()
    }

    /// The touch being timed: its start time and position.
    pub closed spec fn spec_pending(self) -> Option<(u64, Pos)> {
        match self.info {
            Some(i) => Some((i.time, i.pos)),
            None => None,
        }
    }

    /// The invariant: each touch id is followed once.
    pub closed spec fn wf(self) -> bool {
        forall|i: int, j: int|
            0 <= i < j < self.ids@.len() ==> #[trigger] self.ids@[i] != #[trigger] self.ids@[j]
    }

    /// A fresh tracker: no touches, nothing timed, no press fired.
    pub fn new() -> (r: LongPressTracker)
        ensures
            r.wf(),
            r.spec_ids() == Set::<u64>::empty(),
            r.spec_pending() is None,
            r.spec_pos() is None,
    {
        let r = LongPressTracker { ids: Vec::new(), info: None, pos: None };
        proof {
            assert(r.ids@.to_set() =~= Set::<u64>::empty());
        }
        r
    }

    /// Forget the timed touch, telling the timer to stand down if one
    /// was being timed.
    fn clear_info(&mut self) -> (cmd: Option<TrackerCommand>)
        ensures
            final(self).ids == old(self).ids,
            final(self).pos == old(self).pos,
            final(self).spec_pending() is None,
            cmd == (if old(self).spec_pending() is Some {
                Some(TrackerCommand::Cancel)
            } else {
                None::<TrackerCommand>
            }),
    {
        if self.info.is_some() {
            self.info = None;
            Some(TrackerCommand::Cancel)
        } else {
            None
        }
    }

    /// Note one touch event.  Only a first, lone touch starts the timer;
    /// any movement, any second touch and any lift stops it.
    pub fn set(&mut self, id: u64, phase: TouchPhase, pos: Pos, now_ms: u64) -> (cmd: Option<
        TrackerCommand,
    >)
        requires
            old(self).wf(),
        ensures
            final(self).wf(),
            final(self).spec_pos() == old(self).spec_pos(),
            match phase {
                TouchPhase::Start => {
                    &&& final(self).spec_ids() == old(self).spec_ids().insert(id)
                    &&& (if old(self).spec_ids() == Set::<u64>::empty() {
                        final(self).spec_pending() == Some((now_ms, pos)) && cmd == Some(
                            TrackerCommand::Refresh(now_ms),
                        )
                    } else {
                        final(self).spec_pending() is None && cmd == (if old(
                            self,
                        ).spec_pending() is Some {
                            Some(TrackerCommand::Cancel)
                        } else {
                            None::<TrackerCommand>
                        })
                    })
                },
                TouchPhase::Move => {
                    &&& final(self).spec_ids() == old(self).spec_ids()
                    &&& final(self).spec_pending() is None
                    &&& cmd == (if old(self).spec_pending() is Some {
                        Some(TrackerCommand::Cancel)
                    } else {
                        None::<TrackerCommand>
                    })
                },
                TouchPhase::End | TouchPhase::Cancel => {
                    &&& final(self).spec_ids() == old(self).spec_ids().remove(id)
                    &&& final(self).spec_pending() is None
                    &&& cmd == (if old(self).spec_pending() is Some {
                        Some(TrackerCommand::Cancel)
                    } else {
                        None::<TrackerCommand>
                    })
                },
            },
    {
        match phase {
            TouchPhase::Start => {
                let cmd = if self.ids.len() == 0 {
                    self.info = Some(TouchInfo { time: now_ms, pos });
                    Some(TrackerCommand::Refresh(now_ms))
                } else {
                    proof {
                        assert(self.ids@.to_set().contains(self.ids@[0]));
                        assert(old(self).spec_ids() != Set::<u64>::empty());
                    }
                    self.clear_info()
                };
                if self.ids.len() == 0 {
                    proof {
                        assert(old(self).spec_ids() =~= Set::<u64>::empty());
                    }
                }
                self.insert_id(id);
                cmd
            },
            TouchPhase::Move => self.clear_info(),
            TouchPhase::End | TouchPhase::Cancel => {
                self.remove_id(id);
                self.clear_info()
            },
        }
    }

    /// Add a touch id, once.
    #[verifier::loop_isolation(false)]
    fn insert_id(&mut self, id: u64)
        requires
            old(self).wf(),
        ensures
            final(self).wf(),
            final(self).spec_ids() == old(self).spec_ids().insert(id),
            final(self).info == old(self).info,
            final(self).pos == old(self).pos,
    {
        let ghost old_ids = self.ids@;
        let mut i: usize = 0;
        while i < self.ids.len()
            invariant
                self.ids@ == old_ids,
                i <= old_ids.len(),
                forall|k: int| 0 <= k < i ==> old_ids[k] != id,
                self.info == old(self).info,
                self.pos == old(self).pos,
            decreases old_ids.len() - i,
        {
            if self.ids[i] == id {
                proof {
                    assert(old_ids.to_set().contains(id));
                    assert(old_ids.to_set() =~= old_ids.to_set().insert(id));
                }
                return ;
            }
            i = i + 1;
        }
        proof {
            assert(!old_ids.to_set().contains(id)) by {
                if old_ids.contains(id) {
                    let k = choose|k: int| 0 <= k < old_ids.len() && old_ids[k] == id;
                    assert(old_ids[k] == id);
                }
            }
        }
        self.ids.push(id);
        proof {
            assert(self.ids@.to_set() =~= old_ids.to_set().insert(id)) by {
                assert forall|e: u64| #[trigger]
                    self.ids@.to_set().contains(e) implies old_ids.to_set().insert(
                    id,
                ).contains(e) by {
                    let k = choose|k: int| 0 <= k < self.ids@.len() && self.ids@[k] == e;
                    if k < old_ids.len() {
                        assert(old_ids[k] == e);
                    }
                }
                assert forall|e: u64|
                    old_ids.to_set().insert(id).contains(e) implies #[trigger] self.ids@.to_set()
                    .contains(e) by {
                    if e == id {
                        assert(self.ids@[old_ids.len() as int] == e);
                    } else {
                        let k = choose|k: int| 0 <= k < old_ids.len() && old_ids[k] == e;
                        assert(self.ids@[k] == e);
                    }
                }
            }
            assert forall|i2: int, j2: int|
                0 <= i2 < j2 < self.ids@.len() implies #[trigger] self.ids@[i2]
                != #[trigger] self.ids@[j2] by {
                if j2 == old_ids.len() as int {
                    assert(old_ids[i2] != id);
                }
            }
        }
    }

    /// Drop a touch id, if it is followed.
    #[verifier::loop_isolation(false)]
    fn remove_id(&mut self, id: u64)
        requires
            old(self).wf(),
        ensures
            final(self).wf(),
            final(self).spec_ids() == old(self).spec_ids().remove(id),
            final(self).info == old(self).info,
            final(self).pos == old(self).pos,
    {
        let ghost old_ids = self.ids@;
        let mut i: usize = 0;
        while i < self.ids.len()
            invariant
                self.ids@ == old_ids,
                i <= old_ids.len(),
                forall|k: int| 0 <= k < i ==> old_ids[k] != id,
                self.info == old(self).info,
                self.pos == old(self).pos,
            decreases old_ids.len() - i,
        {
            if self.ids[i] == id {
                self.ids.remove(i);
                proof {
                    let ghost new_ids = self.ids@;
                    assert(new_ids =~= old_ids.subrange(0, i as int) + old_ids.subrange(
                        i + 1,
                        old_ids.len() as int,
                    ));
                    assert(new_ids.to_set() =~= old_ids.to_set().remove(id)) by {
                        assert forall|e: u64| #[trigger]
                            new_ids.to_set().contains(e) implies old_ids.to_set().remove(
                            id,
                        ).contains(e) by {
                            let k = choose|k: int| 0 <= k < new_ids.len() && new_ids[k] == e;
                            if k < i {
                                assert(old_ids[k] == e);
                                assert(e != id);
                            } else {
                                assert(old_ids[k + 1] == e);
                                assert(e != id);
                            }
                        }
                        assert forall|e: u64|
                            old_ids.to_set().remove(id).contains(e) implies #[trigger] new_ids.to_set().contains(
                            e,
                        ) by {
                            let k = choose|k: int| 0 <= k < old_ids.len() && old_ids[k] == e;
                            if k < i {
                                assert(new_ids[k] == e);
                            } else {
                                assert(k != i);
                                assert(new_ids[k - 1] == e);
                            }
                        }
                    }
                    assert forall|i2: int, j2: int|
                        0 <= i2 < j2 < new_ids.len() implies #[trigger] new_ids[i2]
                        != #[trigger] new_ids[j2] by {
                        let a = if i2 < i {
                            i2
                        } else {
                            i2 + 1
                        };
                        let b = if j2 < i {
                            j2
                        } else {
                            j2 + 1
                        };
                        assert(new_ids[i2] == old_ids[a]);
                        assert(new_ids[j2] == old_ids[b]);
                    }
                }
                return ;
            }
            i = i + 1;
        }
        proof {
            assert(!old_ids.to_set().contains(id)) by {
                if old_ids.contains(id) {
                    let k = choose|k: int| 0 <= k < old_ids.len() && old_ids[k] == id;
                    assert(old_ids[k] == id);
                }
            }
            assert(old_ids.to_set() =~= old_ids.to_set().remove(id));
        }
    }

    /// Let time pass: if the timed touch has rested long enough, report
    /// it through `pos` and stop timing it.  A start time in the future
    /// is meaningless and is dropped.
    pub fn update(&mut self, now_ms: u64)
        requires
            old(self).wf(),
        ensures
            final(self).wf(),
            final(self).spec_ids() == old(self).spec_ids(),
            match old(self).spec_pending() {
                Some((t, p)) => {
                    if now_ms >= t && now_ms - t >= LONG_PRESS_MS {
                        final(self).spec_pos() == Some(p) && final(self).spec_pending() is None
                    } else if now_ms >= t {
                        final(self).spec_pos() == old(self).spec_pos() && final(self).spec_pending() == old(
                            self,
                        ).spec_pending()
                    } else {
                        final(self).spec_pos() == old(self).spec_pos() && final(self).spec_pending() is None
                    }
                },
                None => final(self).spec_pos() == old(self).spec_pos() && final(self).spec_pending() is None,
            },
    {
        if let Some(info) = self.info {
            if now_ms >= info.time {
                if now_ms - info.time >= LONG_PRESS_MS {
                    self.pos = Some(info.pos);
                    self.info = None;
                }
            } else {
                self.info = None;
            }
        }
    }
}

} // verus!
