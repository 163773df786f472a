//! Actions: the unit of work handled by the dispatcher, and the reducer
//! that applies one action to the canonical state.

use std::collections::HashSet;
use vstd::prelude::*;

use crate::message_parser::{action_of_packet, parse, DecodeError};
use crate::state::{HistoryItem, HistoryItemView, State, Status};
use crate::state::{sv_add_client, sv_add_item, sv_update_selections};
use crate::text::str_eq;
use crate::wire::decode_packet;

verus! {

/// Payload of one action.  Exactly one variant is populated.
#[derive(Debug)]
pub enum Message {
    /// No payload (control actions such as quit).
    Empty,
    /// One raw, not yet decoded text line.
    Raw(String),
    /// Handle of a newly accepted connection, as an opaque token the
    /// surrounding process maps back to its socket.
    Client(u64),
    /// One decoded history step.
    HistoryItem(HistoryItem),
    /// An opaque JSON text.
    Json(String),
    /// A replacement selection set for one client's history.
    SelectAction((String, HashSet<usize>)),
}

/// Mathematical value of a [`Message`].
pub ghost enum MessageView {
    Empty,
    Raw(Seq<char>),
    Client(u64),
    HistoryItem(HistoryItemView),
    Json(Seq<char>),
    SelectAction(Seq<char>, Set<usize>),
}

impl View for Message {
    type V = MessageView;

    open spec fn view(&self) -> MessageView {
        match self {
            Message::Empty => MessageView::Empty,
            Message::Raw(content) => MessageView::Raw(content@),
            Message::Client(handle) => MessageView::Client(*handle),
            Message::HistoryItem(item) => MessageView::HistoryItem(item@),
            Message::Json(content) => MessageView::Json(content@),
            Message::SelectAction(content) => MessageView::SelectAction(content.0@, content.1@),
        }
    }
}

impl Message {
    pub fn expect_raw(self) -> (r: String)
        requires
            self is Raw,
        ensures
            self@ == MessageView::Raw(r@),
    {
        match self {
            Message::Raw(content) => content,
            _ => vstd::pervasive::unreached(),
        }
    }

    pub fn expect_client(self) -> (r: u64)
        requires
            self is Client,
        ensures
            self@ == MessageView::Client(r),
    {
        match self {
            Message::Client(content) => content,
            _ => vstd::pervasive::unreached(),
        }
    }

    pub fn expect_json(self) -> (r: String)
        requires
            self is Json,
        ensures
            self@ == MessageView::Json(r@),
    {
        match self {
            Message::Json(content) => content,
            _ => vstd::pervasive::unreached(),
        }
    }

    pub fn expect_history_item(self) -> (r: HistoryItem)
        requires
            self is HistoryItem,
        ensures
            self@ == MessageView::HistoryItem(r@),
    {
        match self {
            Message::HistoryItem(content) => content,
            _ => vstd::pervasive::unreached(),
        }
    }

    pub fn expect_select_action(self) -> (r: (String, HashSet<usize>))
        requires
            self is SelectAction,
        ensures
            self@ == MessageView::SelectAction(r.0@, r.1@),
    {
        match self {
            Message::SelectAction(content) => content,
            _ => vstd::pervasive::unreached(),
        }
    }
}

/// One unit of work for the dispatcher: a routing pair, a payload, and the
/// identifier of the sender it came from.
#[derive(Debug)]
pub struct Action {
    pub domain: String,
    pub invocation: String,
    pub message: Message,
    pub sender: String,
}

/// Mathematical value of an [`Action`].
#[verifier::ext_equal]
pub ghost struct ActionView {
    pub domain: Seq<char>,
    pub invocation: Seq<char>,
    pub message: MessageView,
    pub sender: Seq<char>,
}

impl View for Action {
    type V = ActionView;

    open spec fn view(&self) -> ActionView {
        ActionView {
            domain: self.domain@,
            invocation: self.invocation@,
            message: self.message@,
            sender: self.sender@,
        }
    }
}

// ---------------------------------------------------------------------------
// Routing
// ---------------------------------------------------------------------------

/// The handler an action is routed to, by its domain/invocation pair.
pub ghost enum Route {
    ClientAdd,
    ClientReceive,
    ItemAdd,
    ActionSelect,
    ApplicationQuit,
    PingPong,
    Unrouted,
}

/// Routing: which handler the pair of `a` selects.
pub open spec fn route_of(a: ActionView) -> Route {
    if a.domain == "client"@ && a.invocation == "add"@ {
        Route::ClientAdd
    } else if a.domain == "client"@ && a.invocation == "receive"@ {
        Route::ClientReceive
    } else if a.domain == "item"@ && a.invocation == "add"@ {
        Route::ItemAdd
    } else if a.domain == "application"@ && a.invocation == "quit"@ {
        Route::ApplicationQuit
    } else if a.domain == "action"@ && a.invocation == "select"@ {
        Route::ActionSelect
    } else if a.domain == "ping"@ && a.invocation == "pong"@ {
        Route::PingPong
    } else {
        Route::Unrouted
    }
}

/// How one applied action moves the lifecycle status: only the quit action
/// changes it, and it changes it to the terminal stage.
pub open spec fn status_step(st: Status, r: Route) -> Status {
    if r == Route::ApplicationQuit {
        Status::ShuttingDown
    } else {
        st
    }
}

/// The payload variant each route expects.
pub open spec fn action_wf(a: ActionView) -> bool {
    &&& route_of(a) == Route::ClientAdd ==> a.message is Client
    &&& route_of(a) == Route::ClientReceive ==> a.message is Raw
    &&& route_of(a) == Route::ItemAdd ==> a.message is HistoryItem
    &&& route_of(a) == Route::ActionSelect ==> a.message is SelectAction
}

/// What the surrounding process must do after one applied action, besides
/// publishing the new snapshot.
#[derive(Debug)]
pub enum Effect {
    /// Nothing further.
    Nothing,
    /// Start framing the connection behind this handle: its lines come back
    /// as `client.receive` actions from the same sender.
    StartFraming(u64),
    /// Re-enqueue this derived action onto the same ordered stream (the
    /// second phase of `client.receive`).
    Resubmit(Action),
    /// Drop one undecodable line with a diagnostic and continue.
    Report(DecodeError),
}

/// The routing pair of an action no handler matches.
#[derive(Debug, Clone)]
pub struct UnmatchedAction {
    pub domain: String,
    pub invocation: String,
}

/// Apply one action to the state: the only function that mutates it.
///
/// Returns the next state together with what the surrounding process must
/// do; the returned state is complete and self-consistent, so it may be
/// published as a snapshot.  An unrouted pair is the one error, and leaves
/// nothing applied.
pub fn run(action: Action, state: State) -> (r: Result<(State, Effect), UnmatchedAction>)
    requires
        action_wf(action@),
        state.wf(),
    ensures
        r matches Ok((s2, eff)) ==> {
            &&& route_of(action@) != Route::Unrouted
            &&& s2.wf()
            &&& s2.status == status_step(state.status, route_of(action@))
            &&& route_of(action@) == Route::ClientAdd ==> {
                &&& s2.clients_view() == sv_add_client(state.clients_view(), action@.sender)
                &&& eff matches Effect::StartFraming(h) && action@.message == MessageView::Client(
                    h,
                )
            }
            &&& route_of(action@) == Route::ClientReceive ==> {
                &&& s2.clients_view() == state.clients_view()
                &&& action@.message matches MessageView::Raw(line) && (match decode_packet(line) {
                    Some(pm) => eff matches Effect::Resubmit(a2) && a2@ == action_of_packet(
                        pm,
                        action@.sender,
                    ),
                    None => eff matches Effect::Report(e) && e.line@ == line && e.sender@
                        == action@.sender,
                })
            }
            &&& route_of(action@) == Route::ItemAdd ==> {
                &&& action@.message matches MessageView::HistoryItem(item) && s2.clients_view()
                    == sv_add_item(state.clients_view(), action@.sender, item)
                &&& eff is Nothing
            }
            &&& route_of(action@) == Route::ApplicationQuit ==> {
                &&& s2.clients_view() == state.clients_view()
                &&& eff is Nothing
            }
            &&& route_of(action@) == Route::ActionSelect ==> {
                &&& action@.message matches MessageView::SelectAction(cid, sel)
                    && s2.clients_view() == sv_update_selections(state.clients_view(), cid, sel)
                &&& eff is Nothing
            }
            &&& route_of(action@) == Route::PingPong ==> {
                &&& s2.clients_view() == state.clients_view()
                &&& eff is Nothing
            }
        },
        r matches Err(u) ==> {
            &&& route_of(action@) == Route::Unrouted
            &&& u.domain@ == action@.domain
            &&& u.invocation@ == action@.invocation
        },
{
    let Action { domain, invocation, message, sender } = action;
    let mut state = state;
    if str_eq(domain.as_str(), "client") && str_eq(invocation.as_str(), "add") {
        let handle = message.expect_client();
        state.add_client(sender);
        Ok((state, Effect::StartFraming(handle)))
    } else if str_eq(domain.as_str(), "client") && str_eq(invocation.as_str(), "receive") {
        let content = message.expect_raw();
        match parse(content, sender) {
            Ok(derived) => Ok((state, Effect::Resubmit(derived))),
            Err(e) => Ok((state, Effect::Report(e))),
        }
    } else if str_eq(domain.as_str(), "item") && str_eq(invocation.as_str(), "add") {
        let item = message.expect_history_item();
        state.add_history_item(sender, item);
        Ok((state, Effect::Nothing))
    } else if str_eq(domain.as_str(), "application") && str_eq(invocation.as_str(), "quit") {
        let ghost cv = state.clients_view();
        state.status = Status::ShuttingDown;
        proof {
            assert(state.clients_view() == cv);
        }
        Ok((state, Effect::Nothing))
    } else if str_eq(domain.as_str(), "action") && str_eq(invocation.as_str(), "select") {
        let (client_id, selections) = message.expect_select_action();
        state.update_selection(client_id, selections);
        Ok((state, Effect::Nothing))
    } else if str_eq(domain.as_str(), "ping") && str_eq(invocation.as_str(), "pong") {
        Ok((state, Effect::Nothing))
    } else {
        Err(UnmatchedAction { domain, invocation })
    }
}

} // verus!
