//! Button-to-action bindings and per-tick action state.
//!
//! A `Button` is a physical control; an `Action` is a named logical input
//! with a current state and two edge flags that live for one tick. `Input`
//! owns the many-to-one map from buttons to action names and the map from
//! action names to action state, both kept as association lists with
//! distinct keys and specified through `Map` views.

use vstd::prelude::*;

verus! {

/// A physical control: a keyboard key or a pointer button, identified by
/// its platform code. Used only as a lookup key, with structural equality.
#[derive(Clone, Copy, Debug, PartialEq, Eq, Structural, Hash)]
pub enum Button {
    Key(u32),
    Mouse(u32),
}

/// The state of one named logical input: whether it is currently held,
/// and whether it changed during the current tick.
#[derive(Clone, Copy, Debug, PartialEq, Eq, Structural)]
pub struct Action {
    pub is_down: bool,
    pub just_down: bool,
    pub just_up: bool,
}

impl Action {
    /// The all-false state: not held, no edge this tick.
    pub open spec fn spec_default() -> Action {
        Action { is_down: false, just_down: false, just_up: false }
    }

    /// Whether the action is currently held.
    pub fn is_down(&self) -> (r: bool)
        ensures
            r == self.is_down,
    {
        self.is_down
    }
}

/// The edge flags are consistent: at most one edge per tick, and an edge
/// always points in the direction of the current state.
pub open spec fn action_ok(a: Action) -> bool {
    &&& !(a.just_down && a.just_up)
    &&& a.just_down ==> a.is_down
    &&& a.just_up ==> !a.is_down
}

impl Default for Action {
    fn default() -> (r: Self)
        ensures
            r == Action::spec_default(),
    {
        Action { is_down: false, just_down: false, just_up: false }
    }
}

// ---------------------------------------------------------------------
// The association-list model: action names to action state.
// ---------------------------------------------------------------------

pub(crate) open spec fn act_has(s: Seq<(String, Action)>, k: Seq<char>) -> bool {
    exists|i: int| 0 <= i < s.len() && s[i].0@ == k
}

pub(crate) open spec fn act_idx(s: Seq<(String, Action)>, k: Seq<char>) -> int {
    choose|i: int| 0 <= i < s.len() && s[i].0@ == k
}

pub(crate) open spec fn act_unique(s: Seq<(String, Action)>) -> bool {
    forall|i: int, j: int| 0 <= i < j < s.len() ==> s[i].0@ != s[j].0@
}

pub(crate) open spec fn act_map(s: Seq<(String, Action)>) -> Map<Seq<char>, Action> {
    Map::new(|k: Seq<char>| act_has(s, k), |k: Seq<char>| s[act_idx(s, k)].1)
}

proof fn lemma_act_idx(s: Seq<(String, Action)>, i: int)
    requires
        act_unique(s),
        0 <= i < s.len(),
    ensures
        act_has(s, s[i].0@),
        act_idx(s, s[i].0@) == i,
        act_map(s).contains_key(s[i].0@),
        act_map(s)[s[i].0@] == s[i].1,
{
    assert(act_has(s, s[i].0@));
    let j = act_idx(s, s[i].0@);
    assert(0 <= j < s.len() && s[j].0@ == s[i].0@);
    if i < j {
        assert(s[i].0@ != s[j].0@);
    } else if j < i {
        assert(s[j].0@ != s[i].0@);
    }
}

proof fn lemma_act_push(s: Seq<(String, Action)>, name: String, a: Action)
    requires
        act_unique(s),
        !act_has(s, name@),
    ensures
        act_unique(s.push((name, a))),
        act_map(s.push((name, a))) == act_map(s).insert(name@, a),
{
    let s2 = s.push((name, a));
    assert forall|i: int, j: int| 0 <= i < j < s2.len() implies s2[i].0@ != s2[j].0@ by {
        if j < s.len() {
            assert(s[i].0@ != s[j].0@);
        } else {
            assert(s2[j] == (name, a));
            assert(s2[i] == s[i]);
            assert(s[i].0@ != name@);
        }
    }
    let m1 = act_map(s2);
    let m2 = act_map(s).insert(name@, a);
    assert forall|k: Seq<char>| m1.contains_key(k) implies m2.contains_key(k) by {
        let i = choose|i: int| 0 <= i < s2.len() && s2[i].0@ == k;
        if i < s.len() {
            assert(act_has(s, k));
        }
    }
    assert forall|k: Seq<char>| m2.contains_key(k) implies m1.contains_key(k) by {
        if k == name@ {
            assert(s2[s.len() as int].0@ == k);
        } else {
            let i = choose|i: int| 0 <= i < s.len() && s[i].0@ == k;
            assert(s2[i].0@ == k);
        }
    }
    assert forall|k: Seq<char>| m1.contains_key(k) implies m1[k] == m2[k] by {
        let i = act_idx(s2, k);
        assert(0 <= i < s2.len() && s2[i].0@ == k);
        if k == name@ {
            lemma_act_idx(s2, s.len() as int);
            assert(i == s.len());
            assert(m1[k] == a);
        } else {
            assert(i < s.len());
            lemma_act_idx(s2, i);
            lemma_act_idx(s, i);
            assert(m1[k] == s[i].1);
            assert(act_map(s)[k] == s[i].1);
        }
    }
    assert(m1 =~= m2);
}

proof fn lemma_act_set(s: Seq<(String, Action)>, i: int, a: Action)
    requires
        act_unique(s),
        0 <= i < s.len(),
    ensures
        act_unique(s.update(i, (s[i].0, a))),
        act_map(s.update(i, (s[i].0, a))) == act_map(s).insert(s[i].0@, a),
{
    let s2 = s.update(i, (s[i].0, a));
    assert(forall|j: int| 0 <= j < s.len() ==> s2[j].0 == s[j].0);
    assert forall|p: int, q: int| 0 <= p < q < s2.len() implies s2[p].0@ != s2[q].0@ by {
        assert(s[p].0@ != s[q].0@);
    }
    let m1 = act_map(s2);
    let m2 = act_map(s).insert(s[i].0@, a);
    assert forall|k: Seq<char>| m1.contains_key(k) implies m2.contains_key(k) by {
        let j = choose|j: int| 0 <= j < s2.len() && s2[j].0@ == k;
        assert(s[j].0@ == k);
    }
    assert forall|k: Seq<char>| m2.contains_key(k) implies m1.contains_key(k) by {
        if k == s[i].0@ {
            assert(s2[i].0@ == k);
        } else {
            let j = choose|j: int| 0 <= j < s.len() && s[j].0@ == k;
            assert(s2[j].0@ == k);
        }
    }
    assert forall|k: Seq<char>| m1.contains_key(k) implies m1[k] == m2[k] by {
        let j = act_idx(s2, k);
        assert(0 <= j < s2.len() && s2[j].0@ == k);
        lemma_act_idx(s2, j);
        if k == s[i].0@ {
            lemma_act_idx(s2, i);
            assert(j == i);
            assert(m1[k] == a);
        } else {
            assert(j != i);
            lemma_act_idx(s, j);
            assert(m1[k] == s[j].1);
            assert(act_map(s)[k] == s[j].1);
        }
    }
    assert(m1 =~= m2);
}

proof fn lemma_act_empty()
    ensures
        act_map(Seq::<(String, Action)>::empty()) == Map::<Seq<char>, Action>::empty(),
{
    assert(act_map(Seq::<(String, Action)>::empty()) =~= Map::<Seq<char>, Action>::empty());
}

// ---------------------------------------------------------------------
// The association-list model: buttons to action names.
// ---------------------------------------------------------------------

pub(crate) open spec fn bind_has(s: Seq<(Button, String)>, b: Button) -> bool {
    exists|i: int| 0 <= i < s.len() && s[i].0 == b
}

pub(crate) open spec fn bind_idx(s: Seq<(Button, String)>, b: Button) -> int {
    choose|i: int| 0 <= i < s.len() && s[i].0 == b
}

pub(crate) open spec fn bind_unique(s: Seq<(Button, String)>) -> bool {
    forall|i: int, j: int| 0 <= i < j < s.len() ==> s[i].0 != s[j].0
}

pub(crate) open spec fn bind_map(s: Seq<(Button, String)>) -> Map<Button, Seq<char>> {
    Map::new(|b: Button| bind_has(s, b), |b: Button| s[bind_idx(s, b)].1@)
}

proof fn lemma_bind_idx(s: Seq<(Button, String)>, i: int)
    requires
        bind_unique(s),
        0 <= i < s.len(),
    ensures
        bind_has(s, s[i].0),
        bind_idx(s, s[i].0) == i,
        bind_map(s).contains_key(s[i].0),
        bind_map(s)[s[i].0] == s[i].1@,
{
    assert(bind_has(s, s[i].0));
    let j = bind_idx(s, s[i].0);
    assert(0 <= j < s.len() && s[j].0 == s[i].0);
    if i < j {
        assert(s[i].0 != s[j].0);
    } else if j < i {
        assert(s[j].0 != s[i].0);
    }
}

proof fn lemma_bind_push(s: Seq<(Button, String)>, b: Button, name: String)
    requires
        bind_unique(s),
        !bind_has(s, b),
    ensures
        bind_unique(s.push((b, name))),
        bind_map(s.push((b, name))) == bind_map(s).insert(b, name@),
{
    let s2 = s.push((b, name));
    assert forall|i: int, j: int| 0 <= i < j < s2.len() implies s2[i].0 != s2[j].0 by {
        if j < s.len() {
            assert(s[i].0 != s[j].0);
        } else {
            assert(s2[i] == s[i]);
            assert(s[i].0 != b);
        }
    }
    let m1 = bind_map(s2);
    let m2 = bind_map(s).insert(b, name@);
    assert forall|k: Button| m1.contains_key(k) implies m2.contains_key(k) by {
        let i = choose|i: int| 0 <= i < s2.len() && s2[i].0 == k;
        if i < s.len() {
            assert(bind_has(s, k));
        }
    }
    assert forall|k: Button| m2.contains_key(k) implies m1.contains_key(k) by {
        if k == b {
            assert(s2[s.len() as int].0 == k);
        } else {
            let i = choose|i: int| 0 <= i < s.len() && s[i].0 == k;
            assert(s2[i].0 == k);
        }
    }
    assert forall|k: Button| m1.contains_key(k) implies m1[k] == m2[k] by {
        let i = bind_idx(s2, k);
        assert(0 <= i < s2.len() && s2[i].0 == k);
        if k == b {
            lemma_bind_idx(s2, s.len() as int);
            assert(i == s.len());
            assert(m1[k] == name@);
        } else {
            assert(i < s.len());
            lemma_bind_idx(s2, i);
            lemma_bind_idx(s, i);
            assert(m1[k] == s[i].1@);
            assert(bind_map(s)[k] == s[i].1@);
        }
    }
    assert(m1 =~= m2);
}

proof fn lemma_bind_set(s: Seq<(Button, String)>, i: int, name: String)
    requires
        bind_unique(s),
        0 <= i < s.len(),
    ensures
        bind_unique(s.update(i, (s[i].0, name))),
        bind_map(s.update(i, (s[i].0, name))) == bind_map(s).insert(s[i].0, name@),
{
    let s2 = s.update(i, (s[i].0, name));
    assert(forall|j: int| 0 <= j < s.len() ==> s2[j].0 == s[j].0);
    assert forall|p: int, q: int| 0 <= p < q < s2.len() implies s2[p].0 != s2[q].0 by {
        assert(s[p].0 != s[q].0);
    }
    let m1 = bind_map(s2);
    let m2 = bind_map(s).insert(s[i].0, name@);
    assert forall|k: Button| m1.contains_key(k) implies m2.contains_key(k) by {
        let j = choose|j: int| 0 <= j < s2.len() && s2[j].0 == k;
        assert(s[j].0 == k);
    }
    assert forall|k: Button| m2.contains_key(k) implies m1.contains_key(k) by {
        if k == s[i].0 {
            assert(s2[i].0 == k);
        } else {
            let j = choose|j: int| 0 <= j < s.len() && s[j].0 == k;
            assert(s2[j].0 == k);
        }
    }
    assert forall|k: Button| m1.contains_key(k) implies m1[k] == m2[k] by {
        let j = bind_idx(s2, k);
        assert(0 <= j < s2.len() && s2[j].0 == k);
        lemma_bind_idx(s2, j);
        if k == s[i].0 {
            lemma_bind_idx(s2, i);
            assert(j == i);
            assert(m1[k] == name@);
        } else {
            assert(j != i);
            lemma_bind_idx(s, j);
            assert(m1[k] == s[j].1@);
            assert(bind_map(s)[k] == s[j].1@);
        }
    }
    assert(m1 =~= m2);
}

proof fn lemma_bind_empty()
    ensures
        bind_map(Seq::<(Button, String)>::empty()) == Map::<Button, Seq<char>>::empty(),
{
    assert(bind_map(Seq::<(Button, String)>::empty()) =~= Map::<Button, Seq<char>>::empty());
}

// ---------------------------------------------------------------------
// Transition functions: what one event does to the action states.
// ---------------------------------------------------------------------

/// The state-machine step of a single action: a press or release changes
/// the state and raises the matching edge flag; a repeated event with the
/// same direction, or an event for an unknown name, changes nothing.
pub open spec fn spec_update_action(
    m: Map<Seq<char>, Action>,
    name: Seq<char>,
    is_down: bool,
) -> Map<Seq<char>, Action> {
    if m.contains_key(name) && m[name].is_down != is_down {
        m.insert(name, Action { is_down, just_down: is_down, just_up: !is_down })
    } else {
        m
    }
}

/// A button event is an action event for the bound name, if there is one.
pub open spec fn spec_update_button(
    bindings: Map<Button, Seq<char>>,
    m: Map<Seq<char>, Action>,
    button: Button,
    is_down: bool,
) -> Map<Seq<char>, Action> {
    if bindings.contains_key(button) {
        spec_update_action(m, bindings[button], is_down)
    } else {
        m
    }
}

/// The per-tick reset: every action keeps its held state and loses its
/// edge flags.
pub open spec fn spec_clear_edges(m: Map<Seq<char>, Action>) -> Map<Seq<char>, Action> {
    Map::new(
        |k: Seq<char>| m.contains_key(k),
        |k: Seq<char>| Action { is_down: m[k].is_down, just_down: false, just_up: false },
    )
}

// ---------------------------------------------------------------------
// The input system.
// ---------------------------------------------------------------------

/// Maps buttons to named actions and tracks each action across ticks.
///
/// Misuse never fails: unknown names and unbound buttons degrade to
/// no-ops or default values. The accumulated pointer motion is kept as
/// `None` between a reset and the first motion event, so that "nothing
/// accumulated" is a stated fact rather than a floating-point comparison.
pub struct Input {
    bindings: Vec<(Button, String)>,
    actions: Vec<(String, Action)>,
    mouse_delta: Option<glam::Vec2>,
}

impl Input {
    /// Both association lists have distinct keys, and every stored action
    /// has consistent edge flags.
    pub closed spec fn wf(&self) -> bool {
        &&& act_unique(self.actions@)
        &&& bind_unique(self.bindings@)
        &&& forall|i: int| 0 <= i < self.actions@.len() ==> action_ok(#[trigger] self.actions@[i].1)
    }

    /// The registered actions, by name.
    pub closed spec fn actions_map(&self) -> Map<Seq<char>, Action> {
        act_map(self.actions@)
    }

    /// The button bindings: each bound button's action name.
    pub closed spec fn bindings_map(&self) -> Map<Button, Seq<char>> {
        bind_map(self.bindings@)
    }

    /// The pointer motion accumulated since the last reset; `None` when
    /// no motion event arrived since then.
    pub closed spec fn spec_mouse_delta(&self) -> Option<glam::Vec2> {
        self.mouse_delta
    }

    /// Whether an action of this name has been registered.
    pub open spec fn registered(&self, name: Seq<char>) -> bool {
        self.actions_map().contains_key(name)
    }

    /// The state of a registered action.
    pub open spec fn action_of(&self, name: Seq<char>) -> Action {
        self.actions_map()[name]
    }

    /// Whether this button is bound to an action name.
    pub open spec fn bound(&self, button: Button) -> bool {
        self.bindings_map().contains_key(button)
    }

    /// The action name a bound button drives.
    pub open spec fn binding_of(&self, button: Button) -> Seq<char> {
        self.bindings_map()[button]
    }

    /// An input system with no actions, no bindings and no accumulated
    /// motion.
    pub fn new() -> (r: Input)
        ensures
            r.wf(),
            r.actions_map() == Map::<Seq<char>, Action>::empty(),
            r.bindings_map() == Map::<Button, Seq<char>>::empty(),
            r.spec_mouse_delta() is None,
    {
        let r = Input { bindings: Vec::new(), actions: Vec::new(), mouse_delta: None };
        proof {
            lemma_act_empty();
            lemma_bind_empty();
        }
        r
    }

    /// The index of the entry registered under `name`, if any.
    fn find_action(&self, name: &str) -> (r: Option<usize>)
        requires
            self.wf(),
        ensures
            match r {
                Some(i) => i < self.actions@.len() && self.actions@[i as int].0@ == name@,
                None => !act_has(self.actions@, name@),
            },
    {
        let owned: String = name.to_owned();
        let n = self.actions.len();
        let mut i: usize = 0;
        while i < n
            invariant
                self.wf(),
                owned@ == name@,
                n == self.actions@.len(),
                i <= n,
                forall|j: int| 0 <= j < i ==> self.actions@[j].0@ != name@,
            decreases n - i,
        {
            if self.actions[i].0 == owned {
                return Some(i);
            }
            i += 1;
        }
        None
    }

    /// The index of the entry binding `button`, if any.
    fn find_binding(&self, button: Button) -> (r: Option<usize>)
        requires
            self.wf(),
        ensures
            match r {
                Some(i) => i < self.bindings@.len() && self.bindings@[i as int].0 == button,
                None => !bind_has(self.bindings@, button),
            },
    {
        let n = self.bindings.len();
        let mut i: usize = 0;
        while i < n
            invariant
                self.wf(),
                n == self.bindings@.len(),
                i <= n,
                forall|j: int| 0 <= j < i ==> self.bindings@[j].0 != button,
            decreases n - i,
        {
            if self.bindings[i].0 == button {
                return Some(i);
            }
            i += 1;
        }
        None
    }

    /// Register a new action under `name`, initially all-false.
    ///
    /// Idempotent: registering a name again keeps the first registration's
    /// state untouched.
    pub fn register_action(&mut self, name: &str)
        requires
            old(self).wf(),
        ensures
            final(self).wf(),
            final(self).bindings_map() == old(self).bindings_map(),
            final(self).spec_mouse_delta() == old(self).spec_mouse_delta(),
            old(self).registered(name@) ==> final(self).actions_map() == old(self).actions_map(),
            !old(self).registered(name@) ==> final(self).actions_map()
                == old(self).actions_map().insert(name@, Action::spec_default()),
    {
        match self.find_action(name) {
            Some(_) => {
                proof {
                    let i = choose|i: int|
                        0 <= i < self.actions@.len() && self.actions@[i].0@ == name@;
                    lemma_act_idx(self.actions@, i);
                }
            }
            None => {
                let owned: String = name.to_owned();
                let entry = (owned, Action::default());
                proof {
                    lemma_act_push(self.actions@, entry.0, entry.1);
                }
                self.actions.push(entry);
            }
        }
    }

    /// Bind `button` to the action named `name`.
    ///
    /// Rebinding an already-bound button overwrites the old association;
    /// the previous action becomes unreachable through this button.
    pub fn bind_button(&mut self, button: Button, name: &str)
        requires
            old(self).wf(),
        ensures
            final(self).wf(),
            final(self).actions_map() == old(self).actions_map(),
            final(self).spec_mouse_delta() == old(self).spec_mouse_delta(),
            final(self).bindings_map() == old(self).bindings_map().insert(button, name@),
    {
        let owned: String = name.to_owned();
        match self.find_binding(button) {
            Some(i) => {
                proof {
                    lemma_bind_idx(self.bindings@, i as int);
                    lemma_bind_set(self.bindings@, i as int, owned);
                }
                self.bindings[i].1 = owned;
            }
            None => {
                proof {
                    lemma_bind_push(self.bindings@, button, owned);
                }
                self.bindings.push((button, owned));
            }
        }
    }

    /// Apply a press or release to the action named `name`.
    ///
    /// Repeated events in the same direction are no-ops, so key repeat
    /// never raises a spurious edge; an unknown name is a no-op too.
    pub fn update_action(&mut self, name: &str, is_down: bool)
        requires
            old(self).wf(),
        ensures
            final(self).wf(),
            final(self).bindings_map() == old(self).bindings_map(),
            final(self).spec_mouse_delta() == old(self).spec_mouse_delta(),
            final(self).actions_map()
                == spec_update_action(old(self).actions_map(), name@, is_down),
    {
        match self.find_action(name) {
            Some(i) => {
                proof {
                    lemma_act_idx(self.actions@, i as int);
                }
                if self.actions[i].1.is_down != is_down {
                    let updated = Action { is_down, just_down: is_down, just_up: !is_down };
                    proof {
                        lemma_act_set(self.actions@, i as int, updated);
                    }
                    self.actions[i].1 = updated;
                }
            }
            None => {}
        }
    }

    /// Apply a press or release of `button` to the action it is bound to.
    ///
    /// A button with no binding leaves every action unchanged.
    pub fn update_button(&mut self, button: Button, is_down: bool)
        requires
            old(self).wf(),
        ensures
            final(self).wf(),
            final(self).bindings_map() == old(self).bindings_map(),
            final(self).spec_mouse_delta() == old(self).spec_mouse_delta(),
            final(self).actions_map() == spec_update_button(
                old(self).bindings_map(),
                old(self).actions_map(),
                button,
                is_down,
            ),
            !old(self).bound(button) ==> final(self).actions_map() == old(self).actions_map(),
    {
        match self.find_binding(button) {
            Some(i) => {
                proof {
                    lemma_bind_idx(self.bindings@, i as int);
                }
                let name = self.bindings[i].1.clone();
                self.update_action(name.as_str(), is_down);
            }
            None => {}
        }
    }

    /// The current state of the action named `name`, by value; an
    /// unregistered name reads as the all-false default and changes
    /// nothing.
    pub fn get_action(&self, name: &str) -> (r: Action)
        requires
            self.wf(),
        ensures
            self.registered(name@) ==> r == self.action_of(name@),
            !self.registered(name@) ==> r == Action::spec_default(),
    {
        match self.find_action(name) {
            Some(i) => {
                proof {
                    lemma_act_idx(self.actions@, i as int);
                }
                self.actions[i].1
            }
            None => Action::default(),
        }
    }

    /// Fold one pointer-motion event into the tick's accumulated total.
    pub fn update_mouse_delta(&mut self, delta: glam::Vec2)
        requires
            old(self).wf(),
        ensures
            final(self).wf(),
            final(self).actions_map() == old(self).actions_map(),
            final(self).bindings_map() == old(self).bindings_map(),
            old(self).spec_mouse_delta() is None ==> final(self).spec_mouse_delta()
                == Some(delta),
            final(self).spec_mouse_delta() is Some,
    {
        self.mouse_delta = match self.mouse_delta {
            None => Some(delta),
            Some(acc) => Some(crate::gfx::vec2_add(acc, delta)),
        };
    }

    /// The pointer motion accumulated since the last reset; the zero
    /// vector when none arrived.
    pub fn get_mouse_delta(&self) -> (r: glam::Vec2)
        ensures
            self.spec_mouse_delta() is Some ==> Some(r) == self.spec_mouse_delta(),
    {
        match self.mouse_delta {
            Some(v) => v,
            None => crate::gfx::vec2_zero(),
        }
    }

    /// The per-tick reset: clear every action's edge flags and drop the
    /// accumulated pointer motion. Call once per tick, after every
    /// consumer has read the edges and the delta.
    pub fn update(&mut self)
        requires
            old(self).wf(),
        ensures
            final(self).wf(),
            final(self).bindings_map() == old(self).bindings_map(),
            final(self).spec_mouse_delta() is None,
            final(self).actions_map() == spec_clear_edges(old(self).actions_map()),
    {
        let n = self.actions.len();
        let mut i: usize = 0;
        while i < n
            invariant
                act_unique(old(self).actions@),
                bind_unique(old(self).bindings@),
                forall|j: int| 0 <= j < old(self).actions@.len()
                    ==> action_ok(#[trigger] old(self).actions@[j].1),
                n == old(self).actions@.len(),
                self.actions@.len() == n,
                i <= n,
                self.bindings@ == old(self).bindings@,
                self.mouse_delta == old(self).mouse_delta,
                forall|j: int| 0 <= j < self.actions@.len()
                    ==> #[trigger] self.actions@[j].0 == old(self).actions@[j].0,
                forall|j: int| 0 <= j < i ==> #[trigger] self.actions@[j].1 == (Action {
                    is_down: old(self).actions@[j].1.is_down,
                    just_down: false,
                    just_up: false,
                }),
                forall|j: int| i <= j < n ==> #[trigger] self.actions@[j].1
                    == old(self).actions@[j].1,
            decreases n - i,
        {
            let kept = self.actions[i].1.is_down;
            self.actions[i].1 = Action { is_down: kept, just_down: false, just_up: false };
            i += 1;
        }
        self.mouse_delta = None;
        proof {
            lemma_clear_edges_pointwise(old(self).actions@, self.actions@);
        }
    }
}

/// Two action lists with the same keys, where the second holds each
/// action of the first with its edge flags cleared, denote the edge-clear
/// of the first's map.
proof fn lemma_clear_edges_pointwise(s1: Seq<(String, Action)>, s2: Seq<(String, Action)>)
    requires
        act_unique(s1),
        s1.len() == s2.len(),
        forall|i: int| 0 <= i < s1.len() ==> #[trigger] s2[i].0 == s1[i].0,
        forall|i: int| 0 <= i < s1.len() ==> #[trigger] s2[i].1 == (Action {
            is_down: s1[i].1.is_down,
            just_down: false,
            just_up: false,
        }),
    ensures
        act_unique(s2),
        act_map(s2) == spec_clear_edges(act_map(s1)),
{
    assert forall|p: int, q: int| 0 <= p < q < s2.len() implies s2[p].0@ != s2[q].0@ by {
        assert(s1[p].0@ != s1[q].0@);
    }
    let m1 = act_map(s2);
    let m2 = spec_clear_edges(act_map(s1));
    assert forall|k: Seq<char>| m1.contains_key(k) implies m2.contains_key(k) by {
        let i = choose|i: int| 0 <= i < s2.len() && s2[i].0@ == k;
        assert(s1[i].0@ == k);
    }
    assert forall|k: Seq<char>| m2.contains_key(k) implies m1.contains_key(k) by {
        let i = choose|i: int| 0 <= i < s1.len() && s1[i].0@ == k;
        assert(s2[i].0@ == k);
    }
    assert forall|k: Seq<char>| m1.contains_key(k) implies m1[k] == m2[k] by {
        let i = act_idx(s2, k);
        assert(0 <= i < s2.len() && s2[i].0@ == k);
        lemma_act_idx(s2, i);
        lemma_act_idx(s1, i);
        assert(act_map(s1)[k] == s1[i].1);
        assert(m1[k] == s2[i].1);
    }
    assert(m1 =~= m2);
}

impl Default for Input {
    fn default() -> (r: Input)
        ensures
            r.wf(),
            r.actions_map() == Map::<Seq<char>, Action>::empty(),
            r.bindings_map() == Map::<Button, Seq<char>>::empty(),
            r.spec_mouse_delta() is None,
    {
        Input::new()
    }
}

// ---------------------------------------------------------------------
// Laws of the action state machine.
// ---------------------------------------------------------------------

/// A registered action stays well formed: its edge flags never disagree
/// with its held state, and never both fire in one tick.
pub proof fn lemma_registered_action_ok(inp: Input, name: Seq<char>)
    requires
        inp.wf(),
        inp.registered(name),
    ensures
        action_ok(inp.action_of(name)),
{
    let s = inp.actions@;
    let i = act_idx(s, name);
    assert(0 <= i < s.len() && s[i].0@ == name);
    lemma_act_idx(s, i);
}

/// Holding a key down reports a down edge exactly once: the first press
/// sets `is_down` and `just_down`; a repeated press changes nothing, and
/// after the per-tick edge clear a further press still changes nothing,
/// so `just_down` stays false until the action goes up and comes down
/// again.
pub proof fn lemma_repeated_down_is_one_edge(m: Map<Seq<char>, Action>, name: Seq<char>)
    requires
        m.contains_key(name),
        !m[name].is_down,
    ensures
        spec_update_action(m, name, true)[name] == (Action {
            is_down: true,
            just_down: true,
            just_up: false,
        }),
        spec_update_action(spec_update_action(m, name, true), name, true)
            == spec_update_action(m, name, true),
        spec_update_action(spec_clear_edges(spec_update_action(m, name, true)), name, true)
            == spec_clear_edges(spec_update_action(m, name, true)),
{
    let m1 = spec_update_action(m, name, true);
    assert(m1[name].is_down);
    let m2 = spec_clear_edges(m1);
    assert(m2.contains_key(name) && m2[name].is_down);
}

/// After the per-tick reset, no action reports an edge, and each keeps
/// its held state.
pub proof fn lemma_reset_clears_edges(m: Map<Seq<char>, Action>, name: Seq<char>)
    requires
        m.contains_key(name),
    ensures
        spec_clear_edges(m).contains_key(name),
        !spec_clear_edges(m)[name].just_down,
        !spec_clear_edges(m)[name].just_up,
        spec_clear_edges(m)[name].is_down == m[name].is_down,
{
}

/// Two buttons bound to the same action name both drive it: a press of
/// either bound button puts the action down, and a press of the second
/// while the first is held keeps it down.
pub proof fn lemma_shared_action_presses(
    bindings: Map<Button, Seq<char>>,
    m: Map<Seq<char>, Action>,
    b1: Button,
    b2: Button,
    name: Seq<char>,
)
    requires
        bindings.contains_key(b1),
        bindings.contains_key(b2),
        bindings[b1] == name,
        bindings[b2] == name,
        m.contains_key(name),
    ensures
        spec_update_button(bindings, m, b1, true)[name].is_down,
        spec_update_button(bindings, m, b2, true)[name].is_down,
        spec_update_button(bindings, spec_update_button(bindings, m, b1, true), b2, true)[
            name].is_down,
{
}

} // verus!
