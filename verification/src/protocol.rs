//! The long-poll protocol interpreter: turns one parsed poll response into a
//! structured outcome — the new cursor (if any), a refresh classification and
//! the recognized feed events, in the order the server sent them.

use vstd::prelude::*;
use crate::numtext::{u64_dec, u64_to_dec};

verus! {

/// One entry of the `updates` list as the server sent it: either one of the
/// two recognized event kinds, or an entry with an unrecognized tag.
#[derive(Debug, PartialEq)]
pub enum RawUpdate {
    WallPost { id: i64 },
    BoardPost { from_id: i64, text: String, topic_id: i64, id: i64 },
    Unknown,
}

/// A recognized feed event, ready for dispatch.
#[derive(Debug, Clone, PartialEq)]
pub enum Event {
    WallPost { id: i64 },
    BoardPost { from_id: i64, text: String, topic_id: i64, id: i64 },
}

/// A poll response body after parsing: either a cursor with an update list,
/// or a failure report with a code and an optional numeric cursor.
#[derive(Debug, PartialEq)]
pub enum PollResponse {
    Updates { ts: String, updates: Vec<RawUpdate> },
    Failure { failed: u8, ts: Option<u64> },
}

/// The interpreter's verdict on one poll cycle.
#[derive(Debug, PartialEq)]
pub struct PollOutcome {
    pub ts: Option<String>,
    pub refresh_key: bool,
    pub refresh_all: bool,
    pub events: Vec<Event>,
}

/// Mathematical model of a [`RawUpdate`].
#[verifier::ext_equal]
pub enum UpdateModel {
    WallPost { id: int },
    BoardPost { from_id: int, text: Seq<char>, topic_id: int, id: int },
    Unknown,
}

/// Mathematical model of an [`Event`].
#[verifier::ext_equal]
pub enum EventModel {
    WallPost { id: int },
    BoardPost { from_id: int, text: Seq<char>, topic_id: int, id: int },
}

/// Mathematical model of a [`PollResponse`].
#[verifier::ext_equal]
pub enum ResponseModel {
    Updates { ts: Seq<char>, updates: Seq<UpdateModel> },
    Failure { failed: int, ts: Option<int> },
}

/// Mathematical model of a [`PollOutcome`].
#[verifier::ext_equal]
pub struct OutcomeModel {
    pub ts: Option<Seq<char>>,
    pub refresh_key: bool,
    pub refresh_all: bool,
    pub events: Seq<EventModel>,
}

impl View for RawUpdate {
    type V = UpdateModel;

    open spec fn view(&self) -> UpdateModel {
        match *self {
            RawUpdate::WallPost { id } => UpdateModel::WallPost { id: id as int },
            RawUpdate::BoardPost { from_id, text, topic_id, id } => UpdateModel::BoardPost {
                from_id: from_id as int,
                text: text@,
                topic_id: topic_id as int,
                id: id as int,
            },
            RawUpdate::Unknown => UpdateModel::Unknown,
        }
    }
}

impl View for Event {
    type V = EventModel;

    open spec fn view(&self) -> EventModel {
        match *self {
            Event::WallPost { id } => EventModel::WallPost { id: id as int },
            Event::BoardPost { from_id, text, topic_id, id } => EventModel::BoardPost {
                from_id: from_id as int,
                text: text@,
                topic_id: topic_id as int,
                id: id as int,
            },
        }
    }
}

/// The model sequence of a vector of updates.
pub open spec fn updates_view(v: Seq<RawUpdate>) -> Seq<UpdateModel> {
    v.map_values(|u: RawUpdate| u@)
}

/// The model sequence of a vector of events.
pub open spec fn events_view(v: Seq<Event>) -> Seq<EventModel> {
    v.map_values(|e: Event| e@)
}

impl View for PollResponse {
    type V = ResponseModel;

    open spec fn view(&self) -> ResponseModel {
        match *self {
            PollResponse::Updates { ts, updates } => ResponseModel::Updates {
                ts: ts@,
                updates: updates_view(updates@),
            },
            PollResponse::Failure { failed, ts } => ResponseModel::Failure {
                failed: failed as int,
                ts: match ts {
                    Some(t) => Some(t as int),
                    None => None,
                },
            },
        }
    }
}

impl View for PollOutcome {
    type V = OutcomeModel;

    open spec fn view(&self) -> OutcomeModel {
        OutcomeModel {
            ts: match self.ts {
                Some(t) => Some(t@),
                None => None,
            },
            refresh_key: self.refresh_key,
            refresh_all: self.refresh_all,
            events: events_view(self.events@),
        }
    }
}

/// The events one update contributes: the mapped event for a recognized tag,
/// nothing for an unrecognized one.
pub open spec fn map_update(u: UpdateModel) -> Seq<EventModel> {
    match u {
        UpdateModel::WallPost { id } => seq![EventModel::WallPost { id }],
        UpdateModel::BoardPost { from_id, text, topic_id, id } => seq![
            EventModel::BoardPost { from_id, text, topic_id, id },
        ],
        UpdateModel::Unknown => Seq::empty(),
    }
}

/// The events of an update list, in order, with unrecognized tags dropped.
pub open spec fn mapped_events(us: Seq<UpdateModel>) -> Seq<EventModel>
    decreases us.len(),
{
    if us.len() == 0 {
        Seq::empty()
    } else {
        mapped_events(us.drop_last()) + map_update(us.last())
    }
}

/// The classification table of the protocol: what one parsed poll response
/// means.
///
/// - A response with a cursor and an update list advances the cursor and
///   yields the recognized events, no refresh.
/// - Failure code 1 with a cursor yields only that cursor (rendered in
///   decimal), no events, no refresh.
/// - Failure code 2 asks for a key refresh only.
/// - Any other failure — including code 1 without a cursor — asks for a full
///   refresh (key refresh is then also set).
pub open spec fn interpret_spec(r: ResponseModel) -> OutcomeModel {
    match r {
        ResponseModel::Failure { failed, ts } => {
            if failed == 1 && ts is Some {
                OutcomeModel {
                    ts: Some(u64_dec(ts->0)),
                    refresh_key: false,
                    refresh_all: false,
                    events: Seq::empty(),
                }
            } else if failed == 2 {
                OutcomeModel {
                    ts: None,
                    refresh_key: true,
                    refresh_all: false,
                    events: Seq::empty(),
                }
            } else {
                OutcomeModel {
                    ts: None,
                    refresh_key: true,
                    refresh_all: true,
                    events: Seq::empty(),
                }
            }
        },
        ResponseModel::Updates { ts, updates } => OutcomeModel {
            ts: Some(ts),
            refresh_key: false,
            refresh_all: false,
            events: mapped_events(updates),
        },
    }
}

/// A well-formed outcome: whenever a refresh is requested, the cycle carries
/// no events and no cursor, and a full refresh always comes together with a
/// key refresh.
pub open spec fn outcome_wf(o: OutcomeModel) -> bool {
    &&& (o.refresh_key || o.refresh_all) ==> o.events.len() == 0 && o.ts is None
    &&& o.refresh_all ==> o.refresh_key
}

/// Every outcome the interpreter produces is well-formed.
pub proof fn lemma_interpret_wf(r: ResponseModel)
    ensures
        outcome_wf(interpret_spec(r)),
{
}

/// A successful response that carries a cursor and no update list — failure
/// code 1 with a cursor, or an update list that is empty — yields no refresh
/// of either kind, an empty event list, and the cursor it carried.
pub proof fn lemma_cursor_only_response(ts: Seq<char>, t: int)
    ensures
        interpret_spec(ResponseModel::Updates { ts, updates: Seq::empty() }) == (OutcomeModel {
            ts: Some(ts),
            refresh_key: false,
            refresh_all: false,
            events: Seq::<EventModel>::empty(),
        }),
        interpret_spec(ResponseModel::Failure { failed: 1, ts: Some(t) }) == (OutcomeModel {
            ts: Some(u64_dec(t)),
            refresh_key: false,
            refresh_all: false,
            events: Seq::<EventModel>::empty(),
        }),
{
    assert(mapped_events(Seq::empty()) =~= Seq::<EventModel>::empty());
}

/// Failure code 2 always asks for a key refresh and never for a full refresh,
/// whether or not the report carried a cursor; the cursor is discarded.
pub proof fn lemma_failure_code_two(ts: Option<int>)
    ensures
        interpret_spec(ResponseModel::Failure { failed: 2, ts }) == (OutcomeModel {
            ts: None,
            refresh_key: true,
            refresh_all: false,
            events: Seq::<EventModel>::empty(),
        }),
{
}

/// Failure code 1 with a cursor yields only a cursor update; failure code 1
/// without a cursor asks for a full refresh, like any unrecognized code.
pub proof fn lemma_failure_code_one(ts: Option<int>)
    ensures
        ts is Some ==> interpret_spec(ResponseModel::Failure { failed: 1, ts }) == (OutcomeModel {
            ts: Some(u64_dec(ts->0)),
            refresh_key: false,
            refresh_all: false,
            events: Seq::<EventModel>::empty(),
        }),
        ts is None ==> interpret_spec(ResponseModel::Failure { failed: 1, ts }) == (OutcomeModel {
            ts: None,
            refresh_key: true,
            refresh_all: true,
            events: Seq::<EventModel>::empty(),
        }),
{
}

/// An update with an unrecognized tag contributes nothing to the event list,
/// wherever it stands, while the surrounding recognized events keep their
/// order and the cursor still advances to the one the response carried.
pub proof fn lemma_unknown_updates_dropped(
    ts: Seq<char>,
    before: Seq<UpdateModel>,
    after: Seq<UpdateModel>,
)
    ensures
        mapped_events(before + seq![UpdateModel::Unknown] + after) == mapped_events(
            before + after,
        ),
        interpret_spec(
            ResponseModel::Updates { ts, updates: before + seq![UpdateModel::Unknown] + after },
        ).ts == Some(ts),
    decreases after.len(),
{
    let with_unknown = before + seq![UpdateModel::Unknown] + after;
    let without = before + after;
    if after.len() == 0 {
        assert(with_unknown.drop_last() =~= before);
        assert(with_unknown.last() == UpdateModel::Unknown);
        assert(without =~= before);
        assert(mapped_events(with_unknown) =~= mapped_events(before));
    } else {
        lemma_unknown_updates_dropped(ts, before, after.drop_last());
        assert(with_unknown.drop_last() =~= before + seq![UpdateModel::Unknown]
            + after.drop_last());
        assert(without.drop_last() =~= before + after.drop_last());
        assert(with_unknown.last() == after.last());
        assert(without.last() == after.last());
    }
}

/// Turn one parsed poll response into the outcome the classification table
/// prescribes.
pub fn interpret(r: PollResponse) -> (o: PollOutcome)
    ensures
        o@ == interpret_spec(r@),
{
    match r {
        PollResponse::Failure { failed, ts } => {
            if failed == 1 && ts.is_some() {
                let t = ts.unwrap();
                PollOutcome {
                    ts: Some(u64_to_dec(t)),
                    refresh_key: false,
                    refresh_all: false,
                    events: Vec::new(),
                }
            } else if failed == 2 {
                PollOutcome { ts: None, refresh_key: true, refresh_all: false, events: Vec::new() }
            } else {
                PollOutcome { ts: None, refresh_key: true, refresh_all: true, events: Vec::new() }
            }
        },
        PollResponse::Updates { ts, updates } => {
            let ghost us: Seq<UpdateModel> = updates_view(updates@);
            let mut events: Vec<Event> = Vec::new();
            let mut i: usize = 0;
            while i < updates.len()
                invariant
                    i <= updates.len(),
                    us == updates_view(updates@),
                    events_view(events@) =~= mapped_events(us.take(i as int)),
                decreases updates.len() - i,
            {
                let u = &updates[i];
                proof {
                    assert(us[i as int] == u@);
                    assert(us.take(i as int + 1).drop_last() =~= us.take(i as int));
                    assert(us.take(i as int + 1).last() == us[i as int]);
                }
                match u {
                    RawUpdate::WallPost { id } => {
                        events.push(Event::WallPost { id: *id });
                    },
                    RawUpdate::BoardPost { from_id, text, topic_id, id } => {
                        events.push(
                            Event::BoardPost {
                                from_id: *from_id,
                                text: text.clone(),
                                topic_id: *topic_id,
                                id: *id,
                            },
                        );
                    },
                    RawUpdate::Unknown => {},
                }
                i = i + 1;
                proof {
                    assert(events_view(events@) =~= mapped_events(us.take(i as int)));
                }
            }
            proof {
                assert(us.take(updates@.len() as int) =~= us);
            }
            PollOutcome { ts: Some(ts), refresh_key: false, refresh_all: false, events }
        },
    }
}

} // verus!
