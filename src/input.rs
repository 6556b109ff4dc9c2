//! Per-frame keyboard bookkeeping: which keys went down this frame, which
//! are held, which came up, and whether the window asked to close.
use vstd::prelude::*;

verus! {

/// The state of one key in the current frame.
#[derive(Clone, Copy, Debug, PartialEq, Eq, Structural)]
pub enum KeyState {
    /// Neither pressed, held nor released.
    Idle,
    /// Held down since an earlier frame.
    Held,
    /// Went down this frame.
    Pressed,
    /// Came up this frame.
    Released,
}

/// An input event, with keys named by their key code.
#[derive(Clone, Copy, Debug, PartialEq, Eq, Structural)]
pub enum Event {
    /// The window asked to close.
    Quit,
    /// A key went down; `repeat` marks an auto-repeat of a held key.
    KeyDown { code: i32, repeat: bool },
    /// A key came up.
    KeyUp { code: i32 },
}

/// The pressed, held and released keys of the current frame.
pub struct KeyTracker {
    pressed: Vec<i32>,
    held: Vec<i32>,
    released: Vec<i32>,
}

proof fn lemma_push_contains(s: Seq<i32>, x: i32)
    ensures
        forall|a: i32| #[trigger] s.push(x).contains(a) <==> s.contains(a) || a == x,
{
    assert forall|a: i32| #[trigger] s.push(x).contains(a) <==> s.contains(a) || a == x by {
        let t = s.push(x);
        if s.contains(a) {
            let j = choose|j: int| 0 <= j < s.len() && s[j] == a;
            assert(t[j] == a);
        }
        if a == x {
            assert(t[s.len() as int] == x);
        }
        if t.contains(a) && a != x {
            let j = choose|j: int| 0 <= j < t.len() && t[j] == a;
            assert(s[j] == a);
        }
    }
}

fn contains(v: &Vec<i32>, k: i32) -> (r: bool)
    ensures
        r <==> v@.contains(k),
{
    let mut i: usize = 0;
    while i < v.len()
        invariant
            i <= v@.len(),
            forall|j: int| 0 <= j < i ==> v@[j] != k,
        decreases v@.len() - i,
    {
        if v[i] == k {
            return true;
        }
        i = i + 1;
    }
    false
}

fn insert(v: &mut Vec<i32>, k: i32)
    ensures
        final(v)@.to_set() == old(v)@.to_set().insert(k),
{
    if !contains(v, k) {
        proof {
            lemma_push_contains(v@, k);
        }
        v.push(k);
    }
    proof {
        assert(final(v)@.to_set() =~= old(v)@.to_set().insert(k));
    }
}

fn remove(v: &mut Vec<i32>, k: i32)
    ensures
        final(v)@.to_set() == old(v)@.to_set().remove(k),
{
    let mut kept: Vec<i32> = Vec::new();
    let mut i: usize = 0;
    while i < v.len()
        invariant
            i <= v@.len(),
            forall|a: i32| #[trigger] kept@.contains(a) <==> (a != k && v@.subrange(0, i as int).contains(a)),
        decreases v@.len() - i,
    {
        let x = v[i];
        proof {
            assert(v@.subrange(0, i + 1) =~= v@.subrange(0, i as int).push(x));
            lemma_push_contains(v@.subrange(0, i as int), x);
            lemma_push_contains(kept@, x);
        }
        if x != k {
            kept.push(x);
        }
        i = i + 1;
    }
    proof {
        assert(v@.subrange(0, v@.len() as int) =~= v@);
        assert(kept@.to_set() =~= v@.to_set().remove(k));
    }
    *v = kept;
}

impl KeyTracker {
    /// Keys that went down this frame.
    pub closed spec fn pressed_set(&self) -> Set<i32> {
        self.pressed@.to_set()
    }

    /// Keys held down since an earlier frame.
    pub closed spec fn held_set(&self) -> Set<i32> {
        self.held@.to_set()
    }

    /// Keys that came up this frame.
    pub closed spec fn released_set(&self) -> Set<i32> {
        self.released@.to_set()
    }

    /// A tracker with no key in any state.
    pub fn new() -> (r: KeyTracker)
        ensures
            r.pressed_set() == Set::<i32>::empty(),
            r.held_set() == Set::<i32>::empty(),
            r.released_set() == Set::<i32>::empty(),
    {
        let r = KeyTracker { pressed: Vec::new(), held: Vec::new(), released: Vec::new() };
        proof {
            assert(r.pressed@.to_set() =~= Set::<i32>::empty());
            assert(r.held@.to_set() =~= Set::<i32>::empty());
            assert(r.released@.to_set() =~= Set::<i32>::empty());
        }
        r
    }

    /// Starts a frame: keys pressed last frame become held, and the pressed
    /// and released sets are emptied.
    pub fn begin_frame(&mut self)
        ensures
            final(self).held_set() == old(self).held_set().union(old(self).pressed_set()),
            final(self).pressed_set() == Set::<i32>::empty(),
            final(self).released_set() == Set::<i32>::empty(),
    {
        let mut i: usize = 0;
        let ghost held0 = self.held@.to_set();
        while i < self.pressed.len()
            invariant
                i <= self.pressed@.len(),
                self.pressed@ == old(self).pressed@,
                held0 == old(self).held@.to_set(),
                self.held@.to_set() == held0.union(self.pressed@.subrange(0, i as int).to_set()),
            decreases self.pressed@.len() - i,
        {
            let k = self.pressed[i];
            proof {
                let pre = self.pressed@.subrange(0, i as int);
                assert(self.pressed@.subrange(0, i + 1) =~= pre.push(k));
                lemma_push_contains(pre, k);
                assert(pre.push(k).to_set() =~= pre.to_set().insert(k));
            }
            insert(&mut self.held, k);
            proof {
                assert(self.held@.to_set() =~= held0.union(self.pressed@.subrange(0, i + 1).to_set()));
            }
            i = i + 1;
        }
        proof {
            assert(self.pressed@.subrange(0, self.pressed@.len() as int) =~= self.pressed@);
            assert(self.held@.to_set() == held0.union(self.pressed@.to_set()));
        }
        self.pressed = Vec::new();
        self.released = Vec::new();
        proof {
            assert(self.pressed@.to_set() =~= Set::<i32>::empty());
            assert(self.released@.to_set() =~= Set::<i32>::empty());
        }
    }

    /// Records one event; returns `false` when the event asks to quit.
    pub fn handle(&mut self, event: Event) -> (running: bool)
        ensures
            running <==> event != Event::Quit,
            match event {
                Event::Quit => *final(self) == *old(self),
                Event::KeyDown { code, repeat } => {
                    &&& final(self).pressed_set() == if repeat {
                        old(self).pressed_set()
                    } else {
                        old(self).pressed_set().insert(code)
                    }
                    &&& final(self).held_set() == old(self).held_set()
                    &&& final(self).released_set() == old(self).released_set()
                },
                Event::KeyUp { code } => {
                    &&& final(self).pressed_set() == old(self).pressed_set().remove(code)
                    &&& final(self).held_set() == old(self).held_set().remove(code)
                    &&& final(self).released_set() == old(self).released_set().insert(code)
                },
            },
    {
        match event {
            Event::Quit => false,
            Event::KeyDown { code, repeat } => {
                if !repeat {
                    insert(&mut self.pressed, code);
                }
                true
            },
            Event::KeyUp { code } => {
                insert(&mut self.released, code);
                remove(&mut self.held, code);
                remove(&mut self.pressed, code);
                true
            },
        }
    }

    /// The state of `key`: pressed before held before released.
    pub fn get_key_state(&self, key: i32) -> (r: KeyState)
        ensures
            r == if self.pressed_set().contains(key) {
                KeyState::Pressed
            } else if self.held_set().contains(key) {
                KeyState::Held
            } else if self.released_set().contains(key) {
                KeyState::Released
            } else {
                KeyState::Idle
            },
    {
        if self.is_pressed(key) {
            return KeyState::Pressed;
        }
        if self.is_held(key) {
            return KeyState::Held;
        }
        if self.is_released(key) {
            return KeyState::Released;
        }
        KeyState::Idle
    }

    /// Whether `key` went down this frame.
    pub fn is_pressed(&self, key: i32) -> (r: bool)
        ensures
            r <==> self.pressed_set().contains(key),
    {
        contains(&self.pressed, key)
    }

    /// Whether `key` is held from an earlier frame.
    pub fn is_held(&self, key: i32) -> (r: bool)
        ensures
            r <==> self.held_set().contains(key),
    {
        contains(&self.held, key)
    }

    /// Whether `key` came up this frame.
    pub fn is_released(&self, key: i32) -> (r: bool)
        ensures
            r <==> self.released_set().contains(key),
    {
        contains(&self.released, key)
    }

    /// The keys that went down this frame.
    pub fn get_pressed(&self) -> (r: Vec<i32>)
        ensures
            r@.to_set() == self.pressed_set(),
    {
        self.pressed.clone()
    }

    /// The keys held from an earlier frame.
    pub fn get_held(&self) -> (r: Vec<i32>)
        ensures
            r@.to_set() == self.held_set(),
    {
        self.held.clone()
    }

    /// The keys that came up this frame.
    pub fn get_released(&self) -> (r: Vec<i32>)
        ensures
            r@.to_set() == self.released_set(),
    {
        self.released.clone()
    }
}

} // verus!
