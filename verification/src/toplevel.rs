//! Which application has the keyboard focus, and whether the crosshair is to
//! be shown over it.
//!
//! The compositor announces each toplevel window by a handle, then its
//! application id, its states (of which one is "activated", i.e. focused)
//! and finally that it was closed. The tracker remembers the application id
//! of every open handle and, each time a toplevel reports that it became
//! activated, decides whether the overlay is shown or hidden.
use std::collections::HashMap;
use vstd::prelude::*;

verus! {

broadcast use vstd::std_specs::hash::group_hash_axioms;

/// The value of the `activated` state of a foreign toplevel handle.
pub const ACTIVATED: u32 = 2;

/// An event that the compositor sends about one toplevel handle.
#[derive(Debug)]
pub enum ToplevelEvent {
    /// The application id of the toplevel.
    AppId(String),
    /// The states that the toplevel is in now.
    State(Vec<u32>),
    /// The toplevel was closed.
    Closed,
    /// Any other event (title, outputs, parent, end of a batch).
    Other,
}

/// What to do with the overlay after an event.
#[derive(Clone, Copy, Debug, PartialEq, Eq, Structural)]
pub enum LayerAction {
    /// Attach the drawn crosshair.
    Show,
    /// Attach the empty buffer.
    Hide,
    /// Leave the overlay as it is.
    Keep,
}

/// The application ids of the open toplevels and the ids for which the
/// crosshair is visible.
pub struct ToplevelTracker {
    toplevels: HashMap<u32, String>,
    visible_app_ids: Vec<String>,
}

/// Whether `app_id` is one of the ids in `visible`.
pub open spec fn is_listed(visible: Seq<String>, app_id: String) -> bool {
    exists|i: int| 0 <= i < visible.len() && (#[trigger] visible[i])@ == app_id@
}

/// Whether the crosshair is shown over `app_id`: every application is
/// accepted when no id is listed, else only the listed ones.
pub open spec fn shows_app(visible: Seq<String>, app_id: String) -> bool {
    visible.len() == 0 || is_listed(visible, app_id)
}

/// Whether the states hold `activated`.
pub open spec fn is_activated(states: Seq<u32>) -> bool {
    states.contains(ACTIVATED)
}

/// The application ids of the open toplevels after `event` about `handle`:
/// an application id is recorded (replacing an earlier one), a closed
/// toplevel is forgotten, and every other event leaves them unchanged.
pub open spec fn next_toplevels(
    toplevels: Map<u32, String>,
    handle: u32,
    event: ToplevelEvent,
) -> Map<u32, String> {
    match event {
        ToplevelEvent::AppId(app_id) => toplevels.insert(handle, app_id),
        ToplevelEvent::Closed => toplevels.remove(handle),
        _ => toplevels,
    }
}

/// The action after `event` about `handle`: when a toplevel whose application
/// id is known reports that it is activated, the overlay is shown if that
/// application is accepted and hidden otherwise; on every other event it is
/// kept as it is.
pub open spec fn layer_action(
    toplevels: Map<u32, String>,
    visible: Seq<String>,
    handle: u32,
    event: ToplevelEvent,
) -> LayerAction {
    match event {
        ToplevelEvent::State(states) => if is_activated(states@) && toplevels.contains_key(handle) {
            if shows_app(visible, toplevels[handle]) {
                LayerAction::Show
            } else {
                LayerAction::Hide
            }
        } else {
            LayerAction::Keep
        },
        _ => LayerAction::Keep,
    }
}

impl ToplevelTracker {
    /// The application id of each open toplevel, by handle.
    pub closed spec fn toplevels(&self) -> Map<u32, String> {
        self.toplevels@
    }

    /// The application ids for which the crosshair is visible.
    pub closed spec fn visible_app_ids(&self) -> Seq<String> {
        self.visible_app_ids@
    }

    /// A tracker that knows of no toplevel yet.
    pub fn new(visible_app_ids: Vec<String>) -> (tracker: Self)
        ensures
            tracker.toplevels() == Map::<u32, String>::empty(),
            tracker.visible_app_ids() == visible_app_ids@,
    {
        ToplevelTracker { toplevels: HashMap::new(), visible_app_ids }
    }

    /// The application id recorded for `handle`.
    pub fn app_id(&self, handle: u32) -> (app_id: Option<&String>)
        ensures
            match app_id {
                Some(id) => self.toplevels().contains_key(handle) && *id == self.toplevels()[handle],
                None => !self.toplevels().contains_key(handle),
            },
    {
        self.toplevels.get(&handle)
    }

    /// Whether the crosshair is shown over the application `app_id`.
    pub fn shows(&self, app_id: &String) -> (shown: bool)
        ensures
            shown == shows_app(self.visible_app_ids(), *app_id),
            shown == (self.visible_app_ids().len() == 0 || exists|i: int|
                0 <= i < self.visible_app_ids().len() && self.visible_app_ids()[i]@ == app_id@),
    {
        if self.visible_app_ids.len() == 0 {
            return true;
        }
        let mut i: usize = 0;
        while i < self.visible_app_ids.len()
            invariant
                i <= self.visible_app_ids@.len(),
                forall|j: int| 0 <= j < i ==> (#[trigger] self.visible_app_ids@[j])@ != app_id@,
            decreases self.visible_app_ids@.len() - i,
        {
            if self.visible_app_ids[i] == *app_id {
                assert(self.visible_app_ids@[i as int]@ == app_id@);
                return true;
            }
            i = i + 1;
        }
        false
    }

    /// Records `event` about the toplevel `handle` and says what to do with
    /// the overlay.
    pub fn handle_event(&mut self, handle: u32, event: ToplevelEvent) -> (action: LayerAction)
        ensures
            final(self).toplevels() == next_toplevels(old(self).toplevels(), handle, event),
            final(self).visible_app_ids() == old(self).visible_app_ids(),
            action == layer_action(old(self).toplevels(), old(self).visible_app_ids(), handle, event),
    {
        match event {
            ToplevelEvent::AppId(app_id) => {
                self.toplevels.insert(handle, app_id);
                LayerAction::Keep
            },
            ToplevelEvent::State(states) => {
                if contains_activated(&states) {
                    match self.toplevels.get(&handle) {
                        Some(app_id) => {
                            if self.shows(app_id) {
                                LayerAction::Show
                            } else {
                                LayerAction::Hide
                            }
                        },
                        None => LayerAction::Keep,
                    }
                } else {
                    LayerAction::Keep
                }
            },
            ToplevelEvent::Closed => {
                self.toplevels.remove(&handle);
                LayerAction::Keep
            },
            ToplevelEvent::Other => LayerAction::Keep,
        }
    }
}

/// Whether the states hold `activated`.
pub fn contains_activated(states: &Vec<u32>) -> (activated: bool)
    ensures
        activated == is_activated(states@),
        activated == exists|i: int| 0 <= i < states@.len() && states@[i] == ACTIVATED,
{
    let mut i: usize = 0;
    while i < states.len()
        invariant
            i <= states@.len(),
            forall|j: int| 0 <= j < i ==> states@[j] != ACTIVATED,
        decreases states@.len() - i,
    {
        if states[i] == ACTIVATED {
            assert(states@[i as int] == ACTIVATED);
            return true;
        }
        i = i + 1;
    }
    false
}

/* The states as the compositor sends them */

/// The `u32` that four bytes stand for, least significant byte first.
pub open spec fn u32_from_le(b: Seq<u8>) -> int {
    b[0] + 256 * b[1] + 65536 * b[2] + 16777216 * b[3]
}

/// The `u32` that four bytes stand for, most significant byte first.
pub open spec fn u32_from_be(b: Seq<u8>) -> int {
    b[3] + 256 * b[2] + 65536 * b[1] + 16777216 * b[0]
}

/// The value of the four bytes at `4 * k`, read in the given byte order.
pub open spec fn state_at(bytes: Seq<u8>, k: int, little_endian: bool) -> int {
    let chunk = bytes.subrange(4 * k, 4 * k + 4);
    if little_endian {
        u32_from_le(chunk)
    } else {
        u32_from_be(chunk)
    }
}

/// The states in a `state` event: an array of `u32` in the byte order of the
/// machine (`little_endian` says which), read four bytes at a time; bytes
/// after the last whole group of four are ignored.
pub fn decode_states(bytes: &[u8], little_endian: bool) -> (states: Vec<u32>)
    ensures
        states@.len() == bytes@.len() / 4,
        forall|k: int|
            0 <= k < states@.len() ==> #[trigger] states@[k] == state_at(bytes@, k, little_endian),
{
    let count = bytes.len() / 4;
    let mut states: Vec<u32> = Vec::new();
    let mut k: usize = 0;
    while k < count
        invariant
            count == bytes@.len() / 4,
            bytes@.len() <= usize::MAX,
            k <= count,
            states@.len() == k,
            forall|j: int|
                0 <= j < k ==> #[trigger] states@[j] == state_at(bytes@, j, little_endian),
        decreases count - k,
    {
        assert(4 * k + 4 <= bytes@.len()) by (nonlinear_arith)
            requires
                k < count,
                count == bytes@.len() / 4,
        ;
        let i = 4 * k;
        let (b0, b1, b2, b3) = if little_endian {
            (bytes[i] as u32, bytes[i + 1] as u32, bytes[i + 2] as u32, bytes[i + 3] as u32)
        } else {
            (bytes[i + 3] as u32, bytes[i + 2] as u32, bytes[i + 1] as u32, bytes[i] as u32)
        };
        let v: u32 = b0 + 256 * b1 + 65536 * b2 + 16777216 * b3;
        proof {
            let c = bytes@.subrange(4 * k as int, 4 * k as int + 4);
            assert(c[0] == bytes@[i as int] && c[1] == bytes@[i + 1] && c[2] == bytes@[i + 2]
                && c[3] == bytes@[i + 3]);
        }
        states.push(v);
        k = k + 1;
    }
    states
}

/* Laws of the tracker */

/// After a toplevel announces its application id, that id is the one
/// recorded for it, and the ids of all other toplevels are unchanged.
pub proof fn lemma_app_id_is_recorded(toplevels: Map<u32, String>, handle: u32, app_id: String)
    ensures
        next_toplevels(toplevels, handle, ToplevelEvent::AppId(app_id)).contains_key(handle),
        next_toplevels(toplevels, handle, ToplevelEvent::AppId(app_id))[handle] == app_id,
        forall|other: u32|
            other != handle ==> (#[trigger] next_toplevels(
                toplevels,
                handle,
                ToplevelEvent::AppId(app_id),
            ).contains_key(other) == toplevels.contains_key(other) && next_toplevels(
                toplevels,
                handle,
                ToplevelEvent::AppId(app_id),
            )[other] == toplevels[other]),
{
}

/// A later application id replaces an earlier one.
pub proof fn lemma_latest_app_id_wins(
    toplevels: Map<u32, String>,
    handle: u32,
    first: String,
    second: String,
)
    ensures
        next_toplevels(
            next_toplevels(toplevels, handle, ToplevelEvent::AppId(first)),
            handle,
            ToplevelEvent::AppId(second),
        ) == next_toplevels(toplevels, handle, ToplevelEvent::AppId(second)),
{
    assert(toplevels.insert(handle, first).insert(handle, second) =~= toplevels.insert(
        handle,
        second,
    ));
}

/// A closed toplevel is forgotten, and the other toplevels stay as they were.
pub proof fn lemma_closed_is_forgotten(toplevels: Map<u32, String>, handle: u32)
    ensures
        !next_toplevels(toplevels, handle, ToplevelEvent::Closed).contains_key(handle),
        forall|other: u32|
            other != handle ==> (#[trigger] next_toplevels(
                toplevels,
                handle,
                ToplevelEvent::Closed,
            ).contains_key(other) == toplevels.contains_key(other) && next_toplevels(
                toplevels,
                handle,
                ToplevelEvent::Closed,
            )[other] == toplevels[other]),
{
}

/// Only application ids and closings change what is recorded: states and
/// other events leave it as it is.
pub proof fn lemma_states_do_not_change_toplevels(
    toplevels: Map<u32, String>,
    handle: u32,
    event: ToplevelEvent,
)
    requires
        !(event is AppId),
        !(event is Closed),
    ensures
        next_toplevels(toplevels, handle, event) == toplevels,
{
}

/// Only a state event that holds `activated` moves the overlay.
pub proof fn lemma_only_activation_moves_overlay(
    toplevels: Map<u32, String>,
    visible: Seq<String>,
    handle: u32,
    event: ToplevelEvent,
)
    requires
        !(event matches ToplevelEvent::State(states) && is_activated(states@)),
    ensures
        layer_action(toplevels, visible, handle, event) == LayerAction::Keep,
{
}

/// A toplevel that was closed does not move the overlay when it reports
/// states, until it announces an application id again.
pub proof fn lemma_closed_toplevel_keeps_overlay(
    toplevels: Map<u32, String>,
    visible: Seq<String>,
    handle: u32,
    states: Vec<u32>,
)
    ensures
        layer_action(
            next_toplevels(toplevels, handle, ToplevelEvent::Closed),
            visible,
            handle,
            ToplevelEvent::State(states),
        ) == LayerAction::Keep,
{
}

/// With no application id listed, the crosshair is never hidden: every
/// activated toplevel with a known application id shows it.
pub proof fn lemma_empty_list_never_hides(
    toplevels: Map<u32, String>,
    visible: Seq<String>,
    handle: u32,
    event: ToplevelEvent,
)
    requires
        visible.len() == 0,
    ensures
        layer_action(toplevels, visible, handle, event) != LayerAction::Hide,
        (event matches ToplevelEvent::State(states) && is_activated(states@))
            && toplevels.contains_key(handle) ==> layer_action(toplevels, visible, handle, event)
            == LayerAction::Show,
{
}

/// Activating a toplevel of a listed application shows the crosshair, and
/// activating one of an unlisted application hides it, when ids are listed.
pub proof fn lemma_activation_follows_list(
    toplevels: Map<u32, String>,
    visible: Seq<String>,
    handle: u32,
    states: Vec<u32>,
)
    requires
        is_activated(states@),
        toplevels.contains_key(handle),
    ensures
        is_listed(visible, toplevels[handle]) ==> layer_action(
            toplevels,
            visible,
            handle,
            ToplevelEvent::State(states),
        ) == LayerAction::Show,
        visible.len() > 0 && !is_listed(visible, toplevels[handle]) ==> layer_action(
            toplevels,
            visible,
            handle,
            ToplevelEvent::State(states),
        ) == LayerAction::Hide,
{
}

/// An application is accepted exactly when no id is listed or one listed id
/// is the same string as its id: an id that only starts or ends like a listed
/// one is not accepted.
pub proof fn lemma_shows_exactly_listed_ids(visible: Seq<String>, app_id: String)
    ensures
        shows_app(visible, app_id) <==> (visible.len() == 0 || exists|i: int|
            0 <= i < visible.len() && visible[i]@ == app_id@),
        visible.len() > 0 && (forall|i: int| 0 <= i < visible.len() ==> visible[i]@ != app_id@)
            ==> !shows_app(visible, app_id),
{
    if exists|i: int| 0 <= i < visible.len() && visible[i]@ == app_id@ {
        let i = choose|i: int| 0 <= i < visible.len() && visible[i]@ == app_id@;
        assert(is_listed(visible, app_id));
    }
}

/// Activation is found wherever it stands among the states: a state list is
/// activated exactly when it holds the `activated` value, whatever comes
/// before or after it, so joining two lists in either order is activated
/// exactly when one of them is.
pub proof fn lemma_activation_ignores_order(a: Seq<u32>, b: Seq<u32>)
    ensures
        is_activated(a) <==> exists|i: int| 0 <= i < a.len() && a[i] == ACTIVATED,
        is_activated(a + b) <==> is_activated(a) || is_activated(b),
        is_activated(a + b) == is_activated(b + a),
{
    lemma_activated_join(a, b);
    lemma_activated_join(b, a);
    if is_activated(a) {
        let i = choose|i: int| 0 <= i < a.len() && a[i] == ACTIVATED;
        assert(a[i] == ACTIVATED);
    }
    if exists|i: int| 0 <= i < a.len() && a[i] == ACTIVATED {
        let i = choose|i: int| 0 <= i < a.len() && a[i] == ACTIVATED;
        assert(a.contains(ACTIVATED));
    }
}

/// Joining two state lists is activated exactly when one of them is.
proof fn lemma_activated_join(a: Seq<u32>, b: Seq<u32>)
    ensures
        is_activated(a + b) <==> is_activated(a) || is_activated(b),
{
    let c = a + b;
    if is_activated(a) {
        let i = choose|i: int| 0 <= i < a.len() && a[i] == ACTIVATED;
        assert(c[i] == ACTIVATED);
    }
    if is_activated(b) {
        let i = choose|i: int| 0 <= i < b.len() && b[i] == ACTIVATED;
        assert(c[a.len() + i] == ACTIVATED);
    }
    if is_activated(c) {
        let i = choose|i: int| 0 <= i < c.len() && c[i] == ACTIVATED;
        if i < a.len() {
            assert(a[i] == ACTIVATED);
        } else {
            assert(b[i - a.len()] == ACTIVATED);
        }
    }
}

/// A known toplevel that reports `activated` anywhere among its states shows
/// the crosshair when its id is listed (or nothing is listed), and hides it
/// when ids are listed and none is the same string as its id.
pub proof fn lemma_activated_toplevel_follows_exact_ids(
    toplevels: Map<u32, String>,
    visible: Seq<String>,
    handle: u32,
    states: Vec<u32>,
    k: int,
)
    requires
        0 <= k < states@.len(),
        states@[k] == ACTIVATED,
        toplevels.contains_key(handle),
    ensures
        (visible.len() == 0 || exists|i: int|
            0 <= i < visible.len() && visible[i]@ == toplevels[handle]@) ==> layer_action(
            toplevels,
            visible,
            handle,
            ToplevelEvent::State(states),
        ) == LayerAction::Show,
        (visible.len() > 0 && forall|i: int|
            0 <= i < visible.len() ==> visible[i]@ != toplevels[handle]@) ==> layer_action(
            toplevels,
            visible,
            handle,
            ToplevelEvent::State(states),
        ) == LayerAction::Hide,
{
    assert(states@.contains(ACTIVATED));
    lemma_shows_exactly_listed_ids(visible, toplevels[handle]);
}

} // verus!
