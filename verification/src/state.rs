//! Canonical data owned by the dispatcher: per-client append-only histories,
//! selection flags, and the application status.
//!
//! Every mutation is stated against the view types below, so the reducer's
//! contract can say exactly which snapshot an observer sees after each
//! applied action.

use std::collections::HashSet;
use vstd::prelude::*;

verus! {

broadcast use vstd::std_specs::hash::group_hash_axioms;

// ---------------------------------------------------------------------------
// History entries
// ---------------------------------------------------------------------------

/// The action half of one recorded step: what the debugged program did.
#[derive(Debug, Clone)]
pub struct HistoryAction {
    pub domain: String,
    pub invocation: String,
    pub amplitude: String,
    pub selected: bool,
}

/// Mathematical value of a [`HistoryAction`].
#[verifier::ext_equal]
pub ghost struct HistoryActionView {
    pub domain: Seq<char>,
    pub invocation: Seq<char>,
    pub amplitude: Seq<char>,
    pub selected: bool,
}

impl View for HistoryAction {
    type V = HistoryActionView;

    open spec fn view(&self) -> HistoryActionView {
        HistoryActionView {
            domain: self.domain@,
            invocation: self.invocation@,
            amplitude: self.amplitude@,
            selected: self.selected,
        }
    }
}

impl DeepView for HistoryAction {
    type V = HistoryActionView;

    open spec fn deep_view(&self) -> HistoryActionView {
        self.view()
    }
}

impl HistoryAction {
    pub fn new(domain: String, invocation: String, amplitude: String) -> (r: HistoryAction)
        ensures
            r@ == (HistoryActionView {
                domain: domain@,
                invocation: invocation@,
                amplitude: amplitude@,
                selected: false,
            }),
    {
        HistoryAction { domain, invocation, amplitude, selected: false }
    }
}

/// The state half of one recorded step: what the debugged program looked
/// like after the action ran.
#[derive(Debug, Clone)]
pub struct HistoryState {
    pub id: String,
    pub content: String,
    pub selected: bool,
}

/// Mathematical value of a [`HistoryState`].
#[verifier::ext_equal]
pub ghost struct HistoryStateView {
    pub id: Seq<char>,
    pub content: Seq<char>,
    pub selected: bool,
}

impl View for HistoryState {
    type V = HistoryStateView;

    open spec fn view(&self) -> HistoryStateView {
        HistoryStateView { id: self.id@, content: self.content@, selected: self.selected }
    }
}

impl DeepView for HistoryState {
    type V = HistoryStateView;

    open spec fn deep_view(&self) -> HistoryStateView {
        self.view()
    }
}

impl HistoryState {
    pub fn new(id: String, content: String) -> (r: HistoryState)
        ensures
            r@ == (HistoryStateView { id: id@, content: content@, selected: false }),
    {
        HistoryState { id, content, selected: false }
    }
}

/// One recorded step of a client's history.  The three `selected` flags (on
/// the item, its action and its state) are always set and cleared together.
#[derive(Debug, Clone)]
pub struct HistoryItem {
    pub action: HistoryAction,
    pub state: HistoryState,
    pub selected: bool,
}

/// Mathematical value of a [`HistoryItem`].
#[verifier::ext_equal]
pub ghost struct HistoryItemView {
    pub action: HistoryActionView,
    pub state: HistoryStateView,
    pub selected: bool,
}

impl HistoryItemView {
    /// The same item with all three `selected` flags set to `b`.
    pub open spec fn with_selected(self, b: bool) -> HistoryItemView {
        HistoryItemView {
            action: HistoryActionView { selected: b, ..self.action },
            state: HistoryStateView { selected: b, ..self.state },
            selected: b,
        }
    }
}

impl View for HistoryItem {
    type V = HistoryItemView;

    open spec fn view(&self) -> HistoryItemView {
        HistoryItemView { action: self.action@, state: self.state@, selected: self.selected }
    }
}

impl DeepView for HistoryItem {
    type V = HistoryItemView;

    open spec fn deep_view(&self) -> HistoryItemView {
        self.view()
    }
}

impl HistoryItem {
    pub fn new(action: HistoryAction, state: HistoryState) -> (r: HistoryItem)
        ensures
            r@ == (HistoryItemView { action: action@, state: state@, selected: false }),
    {
        HistoryItem { action, state, selected: false }
    }

    /// Set all three `selected` flags as one atomic unit.
    pub fn select(&mut self)
        ensures
            final(self)@ == old(self)@.with_selected(true),
    {
        self.action.selected = true;
        self.state.selected = true;
        self.selected = true;
    }

    /// Clear all three `selected` flags as one atomic unit.
    pub fn deselect(&mut self)
        ensures
            final(self)@ == old(self)@.with_selected(false),
    {
        self.action.selected = false;
        self.state.selected = false;
        self.selected = false;
    }
}

// ---------------------------------------------------------------------------
// Clients
// ---------------------------------------------------------------------------

/// One registered sender: its identifier, its append-only history, and the
/// set of history indices currently selected for inspection.
#[derive(Debug)]
pub struct Client {
    pub id: String,
    pub history: Vec<HistoryItem>,
    pub selections: HashSet<usize>,
}

/// Mathematical value of a [`Client`].
#[verifier::ext_equal]
pub ghost struct ClientView {
    pub id: Seq<char>,
    pub history: Seq<HistoryItemView>,
    pub selections: Set<usize>,
}

impl ClientView {
    /// An empty-history client with identifier `id`.
    pub open spec fn empty(id: Seq<char>) -> ClientView {
        ClientView { id: id, history: Seq::empty(), selections: Set::empty() }
    }

    /// The client after a selection update: every item's flags become
    /// exactly "index is in the new set", and the set is stored.
    /// Out-of-range indices select nothing.
    pub open spec fn with_selections(self, sel: Set<usize>) -> ClientView {
        ClientView {
            id: self.id,
            history: Seq::new(self.history.len(), |k: int| self.history[k].with_selected(
                sel.contains(k as usize),
            )),
            selections: sel,
        }
    }
}

impl View for Client {
    type V = ClientView;

    open spec fn view(&self) -> ClientView {
        ClientView { id: self.id@, history: self.history.deep_view(), selections: self.selections@ }
    }
}

impl DeepView for Client {
    type V = ClientView;

    open spec fn deep_view(&self) -> ClientView {
        self.view()
    }
}

/// Index of the first item of `h` whose `selected` flag is set, or -1.
pub open spec fn first_selected(h: Seq<HistoryItemView>) -> int
    decreases h.len(),
{
    if h.len() == 0 {
        -1
    } else if h[0].selected {
        0
    } else {
        let r = first_selected(h.drop_first());
        if r < 0 {
            -1
        } else {
            r + 1
        }
    }
}

/// What `first_selected` finds: the first index whose flag is set, if any.
pub proof fn lemma_first_selected(h: Seq<HistoryItemView>)
    ensures
        first_selected(h) < 0 ==> forall|k: int| 0 <= k < h.len() ==> !h[k].selected,
        first_selected(h) >= 0 ==> {
            &&& first_selected(h) < h.len()
            &&& h[first_selected(h)].selected
            &&& forall|k: int| 0 <= k < first_selected(h) ==> !h[k].selected
        },
    decreases h.len(),
{
    if h.len() > 0 && !h[0].selected {
        let tail = h.drop_first();
        lemma_first_selected(tail);
        assert(forall|k: int| 0 <= k < tail.len() ==> tail[k] == h[k + 1]);
        if first_selected(tail) < 0 {
            assert forall|k: int| 0 <= k < h.len() implies !h[k].selected by {
                if k > 0 {
                    assert(!tail[k - 1].selected);
                }
            }
        } else {
            let r = first_selected(tail);
            assert(h[r + 1] == tail[r]);
            assert forall|k: int| 0 <= k < first_selected(h) implies !h[k].selected by {
                if k > 0 {
                    assert(!tail[k - 1].selected);
                }
            }
        }
    }
}

impl Client {
    pub fn new(id: String) -> (r: Client)
        ensures
            r@ == ClientView::empty(id@),
    {
        let r = Client { id, history: Vec::new(), selections: HashSet::new() };
        proof {
            assert(r@ =~= ClientView::empty(r.id@));
        }
        r
    }

    /// Append one item; earlier indices are untouched.
    pub fn push(&mut self, item: HistoryItem)
        ensures
            final(self)@ == (ClientView {
                history: old(self)@.history.push(item@),
                ..old(self)@
            }),
    {
        self.history.push(item);
        proof {
            assert(self@.history =~= old(self)@.history.push(item@));
        }
    }

    /// Drop the whole history; identifier and stored selection set remain.
    pub fn clear(&mut self)
        ensures
            final(self)@ == (ClientView { history: Seq::empty(), ..old(self)@ }),
    {
        self.history.clear();
        proof {
            assert(self@.history =~= Seq::<HistoryItemView>::empty());
        }
    }

    /// Replace the selection set: clear every item's flags, then set them on
    /// exactly the in-range indices of `selections`.
    pub fn update_selections(&mut self, selections: HashSet<usize>)
        ensures
            final(self)@ == old(self)@.with_selections(selections@),
    {
        let ghost old_hist = self@.history;
        let mut j: usize = 0;
        while j < self.history.len()
            invariant
                0 <= j <= self.history.len(),
                self.history.len() == old_hist.len(),
                self.id@ == old(self)@.id,
                self.selections@ == old(self)@.selections,
                forall|k: int| j <= k < old_hist.len() ==> self.history.deep_view()[k]
                    == old_hist[k],
                forall|k: int| 0 <= k < j ==> self.history.deep_view()[k] == old_hist[k]
                    .with_selected(selections@.contains(k as usize)),
            decreases self.history.len() - j,
        {
            let ghost prev = self.history.deep_view();
            if selections.contains(&j) {
                self.history[j].select();
            } else {
                self.history[j].deselect();
            }
            proof {
                assert(self.history.deep_view() =~= prev.update(
                    j as int,
                    prev[j as int].with_selected(selections@.contains(j)),
                ));
            }
            j = j + 1;
        }
        self.selections = selections;
        proof {
            assert(self@.history =~= old(self)@.with_selections(selections@).history);
            assert(self@ =~= old(self)@.with_selections(selections@));
        }
    }

    pub fn history_item_amount(&self) -> (r: usize)
        ensures
            r == self@.history.len(),
    {
        self.history.len()
    }

    /// The first selected history item, if any item is selected.
    pub fn selected_history_item(&self) -> (r: Option<&HistoryItem>)
        ensures
            match r {
                Some(item) => {
                    &&& first_selected(self@.history) >= 0
                    &&& item@ == self@.history[first_selected(self@.history)]
                },
                None => first_selected(self@.history) < 0,
            },
    {
        proof {
            lemma_first_selected(self@.history);
        }
        let mut j: usize = 0;
        while j < self.history.len()
            invariant
                0 <= j <= self@.history.len(),
                forall|k: int| 0 <= k < j ==> !self@.history[k].selected,
                first_selected(self@.history) < 0 ==> forall|k: int|
                    0 <= k < self@.history.len() ==> !self@.history[k].selected,
                first_selected(self@.history) >= 0 ==> {
                    &&& first_selected(self@.history) < self@.history.len()
                    &&& self@.history[first_selected(self@.history)].selected
                    &&& forall|k: int| 0 <= k < first_selected(self@.history)
                        ==> !self@.history[k].selected
                },
            decreases self@.history.len() - j,
        {
            if self.history[j].selected {
                proof {
                    let h = self@.history;
                    assert(h[j as int].selected);
                    let fs = first_selected(h);
                    if 0 <= fs < j {
                        assert(!h[fs].selected);
                    }
                    assert(fs == j);
                }
                return Some(&self.history[j]);
            }
            j = j + 1;
        }
        None
    }
}

// ---------------------------------------------------------------------------
// Application status
// ---------------------------------------------------------------------------

/// Lifecycle stage of the whole application.  `ShuttingDown` is terminal.
#[derive(Clone, Copy, PartialEq, Eq, Structural, Debug)]
pub enum Status {
    Initializing,
    Running,
    Paused,
    ShuttingDown,
}

// ---------------------------------------------------------------------------
// The state store
// ---------------------------------------------------------------------------

/// Index of the first client of `cs` whose identifier is `id`, or -1.
pub open spec fn find_client(cs: Seq<ClientView>, id: Seq<char>) -> int
    decreases cs.len(),
{
    if cs.len() == 0 {
        -1
    } else if cs[0].id == id {
        0
    } else {
        let r = find_client(cs.drop_first(), id);
        if r < 0 {
            -1
        } else {
            r + 1
        }
    }
}

/// What `find_client` finds: the first index carrying `id`, if any.
pub proof fn lemma_find_client(cs: Seq<ClientView>, id: Seq<char>)
    ensures
        find_client(cs, id) < 0 ==> forall|k: int| 0 <= k < cs.len() ==> cs[k].id != id,
        find_client(cs, id) >= 0 ==> {
            &&& find_client(cs, id) < cs.len()
            &&& cs[find_client(cs, id)].id == id
            &&& forall|k: int| 0 <= k < find_client(cs, id) ==> cs[k].id != id
        },
    decreases cs.len(),
{
    if cs.len() > 0 && cs[0].id != id {
        let tail = cs.drop_first();
        lemma_find_client(tail, id);
        assert(forall|k: int| 0 <= k < tail.len() ==> tail[k] == cs[k + 1]);
        if find_client(tail, id) < 0 {
            assert forall|k: int| 0 <= k < cs.len() implies cs[k].id != id by {
                if k > 0 {
                    assert(tail[k - 1].id != id);
                }
            }
        } else {
            let r = find_client(tail, id);
            assert(cs[r + 1] == tail[r]);
            assert forall|k: int| 0 <= k < find_client(cs, id) implies cs[k].id != id by {
                if k > 0 {
                    assert(tail[k - 1].id != id);
                }
            }
        }
    }
}

/// Total number of history items across all clients of `cs`.
pub open spec fn total_items(cs: Seq<ClientView>) -> nat
    decreases cs.len(),
{
    if cs.len() == 0 {
        0
    } else {
        total_items(cs.drop_last()) + cs.last().history.len()
    }
}

/// Registration: append an empty client unless the identifier is known.
pub open spec fn sv_add_client(cs: Seq<ClientView>, id: Seq<char>) -> Seq<ClientView> {
    if find_client(cs, id) >= 0 {
        cs
    } else {
        cs.push(ClientView::empty(id))
    }
}

/// Append `item` to the history of the client carrying `id`; a no-op when
/// the identifier is unknown.
pub open spec fn sv_add_item(
    cs: Seq<ClientView>,
    id: Seq<char>,
    item: HistoryItemView,
) -> Seq<ClientView> {
    let j = find_client(cs, id);
    if j < 0 {
        cs
    } else {
        cs.update(j, ClientView { history: cs[j].history.push(item), ..cs[j] })
    }
}

/// Replace the selection set of the client carrying `id`; a no-op when the
/// identifier is unknown.
pub open spec fn sv_update_selections(
    cs: Seq<ClientView>,
    id: Seq<char>,
    sel: Set<usize>,
) -> Seq<ClientView> {
    let j = find_client(cs, id);
    if j < 0 {
        cs
    } else {
        cs.update(j, cs[j].with_selections(sel))
    }
}

/// Remove the client carrying `id`; a no-op when the identifier is unknown.
pub open spec fn sv_remove_client(cs: Seq<ClientView>, id: Seq<char>) -> Seq<ClientView> {
    let j = find_client(cs, id);
    if j < 0 {
        cs
    } else {
        cs.remove(j)
    }
}

/// Each identifier appears at most once in `cs`.
pub open spec fn unique_ids(cs: Seq<ClientView>) -> bool {
    forall|i: int, j: int| 0 <= i < j < cs.len() ==> cs[i].id != cs[j].id
}

/// Canonical state: one entry per registered sender, plus the lifecycle
/// status.  Identifiers are unique (see [`State::wf`]); only the dispatcher
/// mutates a value of this type.
#[derive(Debug)]
pub struct State {
    pub clients: Vec<Client>,
    pub status: Status,
}

impl State {
    /// The clients, as a sequence of mathematical values.
    pub open spec fn clients_view(&self) -> Seq<ClientView> {
        self.clients.deep_view()
    }

    /// Each registered identifier appears exactly once.
    pub open spec fn wf(&self) -> bool {
        unique_ids(self.clients_view())
    }

    pub fn new() -> (r: State)
        ensures
            r.clients_view() == Seq::<ClientView>::empty(),
            r.status == Status::Initializing,
            r.wf(),
    {
        let r = State { clients: Vec::new(), status: Status::Initializing };
        proof {
            assert(r.clients_view() =~= Seq::<ClientView>::empty());
        }
        r
    }

    /// Position of the client carrying `id`, if one is registered.
    fn position_of(&self, id: &String) -> (r: Option<usize>)
        ensures
            match r {
                Some(j) => j == find_client(self.clients_view(), id@)
                    && 0 <= find_client(self.clients_view(), id@) < self.clients_view().len(),
                None => find_client(self.clients_view(), id@) < 0,
            },
    {
        proof {
            lemma_find_client(self.clients_view(), id@);
        }
        let mut j: usize = 0;
        while j < self.clients.len()
            invariant
                0 <= j <= self.clients_view().len(),
                forall|k: int| 0 <= k < j ==> self.clients_view()[k].id != id@,
                find_client(self.clients_view(), id@) < 0 ==> forall|k: int|
                    0 <= k < self.clients_view().len() ==> self.clients_view()[k].id != id@,
                find_client(self.clients_view(), id@) >= 0 ==> {
                    &&& find_client(self.clients_view(), id@) < self.clients_view().len()
                    &&& self.clients_view()[find_client(self.clients_view(), id@)].id == id@
                    &&& forall|k: int| 0 <= k < find_client(self.clients_view(), id@)
                        ==> self.clients_view()[k].id != id@
                },
            decreases self.clients_view().len() - j,
        {
            if self.clients[j].id.eq(id) {
                proof {
                    let cs = self.clients_view();
                    assert(cs[j as int].id == id@);
                    let fc = find_client(cs, id@);
                    if 0 <= fc < j {
                        assert(cs[fc].id != id@);
                    }
                    assert(fc == j);
                }
                return Some(j);
            }
            j = j + 1;
        }
        None
    }

    /// Idempotent registration of an empty client under `client`.
    pub fn add_client(&mut self, client: String)
        requires
            old(self).wf(),
        ensures
            final(self).clients_view() == sv_add_client(old(self).clients_view(), client@),
            final(self).status == old(self).status,
            final(self).wf(),
    {
        proof {
            lemma_find_client(self.clients_view(), client@);
        }
        match self.position_of(&client) {
            Some(_) => (),
            None => {
                let ghost before = self.clients_view();
                self.clients.push(Client::new(client));
                proof {
                    assert(self.clients_view() =~= before.push(
                        ClientView::empty(self.clients_view().last().id),
                    ));
                }
            },
        }
    }

    /// Append `item` to the history of the client registered under
    /// `client`; a no-op when no such client exists.
    pub fn add_history_item(&mut self, client: String, item: HistoryItem)
        requires
            old(self).wf(),
        ensures
            final(self).clients_view() == sv_add_item(
                old(self).clients_view(),
                client@,
                item@,
            ),
            final(self).status == old(self).status,
            final(self).wf(),
    {
        let ghost before = self.clients_view();
        match self.position_of(&client) {
            Some(j) => {
                self.clients[j].push(item);
                proof {
                    assert(self.clients_view() =~= sv_add_item(before, client@, item@));
                }
            },
            None => (),
        }
    }

    /// Replace the selection set of the client registered under `client`; a
    /// no-op when no such client exists.
    pub fn update_selection(&mut self, client: String, selections: HashSet<usize>)
        requires
            old(self).wf(),
        ensures
            final(self).clients_view() == sv_update_selections(
                old(self).clients_view(),
                client@,
                selections@,
            ),
            final(self).status == old(self).status,
            final(self).wf(),
    {
        let ghost before = self.clients_view();
        match self.position_of(&client) {
            Some(j) => {
                self.clients[j].update_selections(selections);
                proof {
                    assert(self.clients_view() =~= sv_update_selections(
                        before,
                        client@,
                        selections@,
                    ));
                }
            },
            None => (),
        }
    }

    /// Clear, then remove, the client registered under `client`; a no-op
    /// when no such client exists.
    pub fn remove_client(&mut self, client: String)
        requires
            old(self).wf(),
        ensures
            final(self).clients_view() == sv_remove_client(old(self).clients_view(), client@),
            final(self).status == old(self).status,
            final(self).wf(),
    {
        let ghost before = self.clients_view();
        match self.position_of(&client) {
            Some(j) => {
                self.clients[j].clear();
                self.clients.remove(j);
                proof {
                    assert(self.clients_view() =~= sv_remove_client(before, client@));
                }
            },
            None => (),
        }
    }

    /// Sum of all history lengths, saturating at the machine limit.
    pub fn total_history_item_amount(&self) -> (r: usize)
        ensures
            total_items(self.clients_view()) <= usize::MAX ==> r == total_items(
                self.clients_view(),
            ),
            total_items(self.clients_view()) > usize::MAX ==> r == usize::MAX,
    {
        let mut sum: usize = 0;
        let mut j: usize = 0;
        while j < self.clients.len()
            invariant
                0 <= j <= self.clients_view().len(),
                total_items(self.clients_view().take(j as int)) <= usize::MAX ==> sum
                    == total_items(self.clients_view().take(j as int)),
                total_items(self.clients_view().take(j as int)) > usize::MAX ==> sum
                    == usize::MAX,
            decreases self.clients_view().len() - j,
        {
            let h = self.clients[j].history_item_amount();
            proof {
                assert(self.clients_view().take(j + 1 as int).drop_last() =~= self
                    .clients_view().take(j as int));
                assert(self.clients_view().take(j + 1 as int).last() == self.clients_view()[
                    j as int]);
            }
            if sum <= usize::MAX - h {
                sum = sum + h;
            } else {
                sum = usize::MAX;
            }
            j = j + 1;
        }
        proof {
            assert(self.clients_view().take(self.clients_view().len() as int) =~= self
                .clients_view());
        }
        sum
    }

    /// Number of registered clients.
    pub fn client_amount(&self) -> (r: usize)
        ensures
            r == self.clients_view().len(),
    {
        self.clients.len()
    }
}

} // verus!
