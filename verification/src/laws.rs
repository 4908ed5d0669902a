//! What holds of the monitor over several sweep passes, and of what a datagram
//! is read as.
//!
//! Most laws speak of a run: the sweep passes that follow one another while no
//! heartbeat arrives, each with the time it was made at and the transitions it
//! reported.  The clock is monotonic, so the times of a run never go backwards.

use crate::id::{hyphens_before, id_text, is_hyphen_position, nibble, uuid_parse, ServerId};
use crate::listener::{payload_id, payload_text, recorded};
use crate::store::{down_set, initial, is_transition, sweep_report, swept, touched};
use crate::sweeper::{overdue, Health, LivenessEntry, Transition};
use crate::text::{
    all_whitespace, is_trimmed, is_whitespace, law_trimming_removes_what_surrounds, utf8_lossy,
};
use vstd::prelude::*;

verus! {

/// One sweep pass: when it was made and what it reported.
pub struct Pass {
    pub now: u64,
    pub events: Seq<Transition>,
}

/// How often `events` reports that `id` changed to `to`.
pub open spec fn mentions(events: Seq<Transition>, id: ServerId, to: Health) -> nat
    decreases events.len(),
{
    if events.len() == 0 {
        0
    } else {
        mentions(events.drop_last(), id, to) + if events.last() == (Transition { id, to }) {
            1nat
        } else {
            0nat
        }
    }
}

/// Whether `passes` is a run from the store `m`: each pass reports on the store
/// that the pass before it left, and no heartbeat arrives in between.
pub open spec fn is_run(m: Map<ServerId, LivenessEntry>, passes: Seq<Pass>) -> bool
    decreases passes.len(),
{
    passes.len() == 0 || {
        &&& sweep_report(m, passes[0].now, passes[0].events)
        &&& is_run(swept(m, passes[0].now), passes.drop_first())
    }
}

/// Whether the times of `passes` never go backwards.
pub open spec fn in_clock_order(passes: Seq<Pass>) -> bool {
    forall|i: int, j: int| 0 <= i <= j < passes.len() ==> passes[i].now <= passes[j].now
}

/// How often the passes together report that `id` changed to `to`.
pub open spec fn notices(passes: Seq<Pass>, id: ServerId, to: Health) -> nat
    decreases passes.len(),
{
    if passes.len() == 0 {
        0
    } else {
        mentions(passes[0].events, id, to) + notices(passes.drop_first(), id, to)
    }
}

proof fn lemma_mentions_of_distinct(events: Seq<Transition>, id: ServerId, to: Health)
    requires
        forall|i: int, j: int| 0 <= i < j < events.len() ==> events[i].id != events[j].id,
    ensures
        mentions(events, id, to) == if events.contains(Transition { id, to }) {
            1nat
        } else {
            0nat
        },
    decreases events.len(),
{
    let t = Transition { id, to };
    if events.len() > 0 {
        let front = events.drop_last();
        lemma_mentions_of_distinct(front, id, to);
        if events.last() == t {
            if front.contains(t) {
                let k = choose|k: int| 0 <= k < front.len() && front[k] == t;
                assert(events[k].id == events[events.len() - 1].id);
            }
            assert(events[events.len() - 1] == t);
        } else {
            if events.contains(t) {
                let k = choose|k: int| 0 <= k < events.len() && events[k] == t;
                assert(front[k] == t);
            }
            if front.contains(t) {
                let k = choose|k: int| 0 <= k < front.len() && front[k] == t;
                assert(events[k] == t);
            }
        }
    }
}

/// A sweep report mentions a transition once if the pass has to report it, and
/// never otherwise.
pub proof fn law_report_mentions_each_transition_once(
    m: Map<ServerId, LivenessEntry>,
    now: u64,
    events: Seq<Transition>,
    id: ServerId,
    to: Health,
)
    requires
        sweep_report(m, now, events),
    ensures
        mentions(events, id, to) == if is_transition(m, now, Transition { id, to }) {
            1nat
        } else {
            0nat
        },
{
    lemma_mentions_of_distinct(events, id, to);
}

/// What the first pass of a run reports of one server.
proof fn lemma_first_pass(m: Map<ServerId, LivenessEntry>, passes: Seq<Pass>, id: ServerId)
    requires
        passes.len() > 0,
        is_run(m, passes),
    ensures
        mentions(passes[0].events, id, Health::Down) == if is_transition(
            m,
            passes[0].now,
            Transition { id, to: Health::Down },
        ) {
            1nat
        } else {
            0nat
        },
        mentions(passes[0].events, id, Health::Up) == if is_transition(
            m,
            passes[0].now,
            Transition { id, to: Health::Up },
        ) {
            1nat
        } else {
            0nat
        },
{
    law_report_mentions_each_transition_once(m, passes[0].now, passes[0].events, id, Health::Down);
    law_report_mentions_each_transition_once(m, passes[0].now, passes[0].events, id, Health::Up);
}

/// The passes behind the first pass of a run are in clock order as the run is,
/// and where the first pass finds a silence overdue, so does each of them.
proof fn lemma_rest_of_run(passes: Seq<Pass>, last_seen: u64)
    requires
        passes.len() > 0,
        in_clock_order(passes),
    ensures
        in_clock_order(passes.drop_first()),
        overdue(passes[0].now, last_seen) ==> forall|i: int|
            0 <= i < passes.drop_first().len() ==> overdue(
                #[trigger] passes.drop_first()[i].now,
                last_seen,
            ),
{
    let rest = passes.drop_first();
    assert forall|i: int, j: int| 0 <= i <= j < rest.len() implies rest[i].now <= rest[j].now by {
        assert(rest[i] == passes[i + 1]);
        assert(rest[j] == passes[j + 1]);
    }
    assert forall|i: int| 0 <= i < rest.len() implies passes[0].now <= (#[trigger] rest[i]).now by {
        assert(rest[i] == passes[i + 1]);
    }
}

/// A store that was just initialized has every server up and none down.
pub proof fn law_all_up_at_start(ids: Set<ServerId>, now: u64)
    ensures
        forall|id: ServerId|
            ids.contains(id) ==> (#[trigger] initial(ids, now)[id]).health == Health::Up,
        down_set(initial(ids, now)) == Set::<ServerId>::empty(),
{
    assert(down_set(initial(ids, now)) =~= Set::<ServerId>::empty());
}

/// A pass that is repeated at the same time changes nothing and reports
/// nothing.
pub proof fn law_repeated_pass_is_silent(
    m: Map<ServerId, LivenessEntry>,
    now: u64,
    events: Seq<Transition>,
)
    requires
        sweep_report(swept(m, now), now, events),
    ensures
        swept(swept(m, now), now) == swept(m, now),
        events.len() == 0,
{
    assert(swept(swept(m, now), now) =~= swept(m, now));
    if events.len() > 0 {
        assert(events.contains(events[0]));
    }
}

/// While a server that is down stays silent, no pass reports it again.
pub proof fn law_down_and_silent_is_not_reported(
    m: Map<ServerId, LivenessEntry>,
    passes: Seq<Pass>,
    id: ServerId,
)
    requires
        m.contains_key(id),
        m[id].health == Health::Down,
        is_run(m, passes),
        forall|i: int| 0 <= i < passes.len() ==> overdue(passes[i].now, m[id].last_seen),
    ensures
        notices(passes, id, Health::Down) == 0,
        notices(passes, id, Health::Up) == 0,
    decreases passes.len(),
{
    if passes.len() > 0 {
        let first = passes[0];
        let rest = passes.drop_first();
        lemma_first_pass(m, passes, id);
        assert forall|i: int| 0 <= i < rest.len() implies overdue(
            rest[i].now,
            swept(m, first.now)[id].last_seen,
        ) by {
            assert(rest[i] == passes[i + 1]);
        }
        law_down_and_silent_is_not_reported(swept(m, first.now), rest, id);
    }
}

/// Two passes that follow a pass which found a server down, with no heartbeat
/// in between, report nothing about that server.
pub proof fn law_second_look_at_down_server_is_silent(
    m: Map<ServerId, LivenessEntry>,
    id: ServerId,
    found_at: u64,
    first: Pass,
    second: Pass,
)
    requires
        m.contains_key(id),
        swept(m, found_at)[id].health == Health::Down,
        found_at <= first.now <= second.now,
        is_run(swept(m, found_at), seq![first, second]),
    ensures
        forall|i: int| 0 <= i < first.events.len() ==> first.events[i].id != id,
        forall|i: int| 0 <= i < second.events.len() ==> second.events[i].id != id,
{
    let m0 = swept(m, found_at);
    let passes = seq![first, second];
    assert(passes.drop_first() =~= seq![second]);
    assert(sweep_report(m0, first.now, first.events));
    let m1 = swept(m0, first.now);
    assert(is_run(m1, seq![second]));
    assert(sweep_report(m1, second.now, second.events));
    assert forall|i: int| 0 <= i < first.events.len() implies first.events[i].id != id by {
        assert(first.events.contains(first.events[i]));
    }
    assert forall|i: int| 0 <= i < second.events.len() implies second.events[i].id != id by {
        assert(second.events.contains(second.events[i]));
    }
}

/// While a server that is up stays silent, the passes never report it up, and
/// report it down at most once.
pub proof fn law_up_and_silent_is_never_reported_up(
    m: Map<ServerId, LivenessEntry>,
    passes: Seq<Pass>,
    id: ServerId,
)
    requires
        m.contains_key(id),
        m[id].health == Health::Up,
        is_run(m, passes),
        in_clock_order(passes),
    ensures
        notices(passes, id, Health::Up) == 0,
        notices(passes, id, Health::Down) <= 1,
    decreases passes.len(),
{
    if passes.len() > 0 {
        let first = passes[0];
        let rest = passes.drop_first();
        lemma_first_pass(m, passes, id);
        lemma_rest_of_run(passes, m[id].last_seen);
        if overdue(first.now, m[id].last_seen) {
            law_down_and_silent_is_not_reported(swept(m, first.now), rest, id);
        } else {
            law_up_and_silent_is_never_reported_up(swept(m, first.now), rest, id);
        }
    }
}

/// A server that is up and from which no heartbeat arrives is reported down
/// exactly once over the passes of a run, provided that one of them finds its
/// silence longer than the threshold; it is never reported up.
pub proof fn law_silent_server_is_reported_down_once(
    m: Map<ServerId, LivenessEntry>,
    passes: Seq<Pass>,
    id: ServerId,
)
    requires
        m.contains_key(id),
        m[id].health == Health::Up,
        is_run(m, passes),
        in_clock_order(passes),
        exists|k: int| 0 <= k < passes.len() && overdue(passes[k].now, m[id].last_seen),
    ensures
        notices(passes, id, Health::Down) == 1,
        notices(passes, id, Health::Up) == 0,
    decreases passes.len(),
{
    let k = choose|k: int| 0 <= k < passes.len() && overdue(passes[k].now, m[id].last_seen);
    let first = passes[0];
    let rest = passes.drop_first();
    lemma_first_pass(m, passes, id);
    lemma_rest_of_run(passes, m[id].last_seen);
    if overdue(first.now, m[id].last_seen) {
        law_down_and_silent_is_not_reported(swept(m, first.now), rest, id);
    } else {
        assert(k > 0);
        assert(rest[k - 1] == passes[k]);
        law_silent_server_is_reported_down_once(swept(m, first.now), rest, id);
    }
}

/// After a heartbeat of a server that is down, the next pass reports the server
/// up exactly once if it finds the silence within the threshold, and no later
/// pass of the run reports it up again.
pub proof fn law_heartbeat_of_down_server_is_reported_up_once(
    m: Map<ServerId, LivenessEntry>,
    id: ServerId,
    heard: u64,
    passes: Seq<Pass>,
)
    requires
        m.contains_key(id),
        m[id].health == Health::Down,
        passes.len() > 0,
        is_run(touched(m, id, heard), passes),
        in_clock_order(passes),
        !overdue(passes[0].now, heard),
    ensures
        mentions(passes[0].events, id, Health::Up) == 1,
        mentions(passes[0].events, id, Health::Down) == 0,
        swept(touched(m, id, heard), passes[0].now)[id].health == Health::Up,
        notices(passes, id, Health::Up) == 1,
{
    let m1 = touched(m, id, heard);
    let first = passes[0];
    let rest = passes.drop_first();
    lemma_first_pass(m1, passes, id);
    lemma_rest_of_run(passes, heard);
    law_up_and_silent_is_never_reported_up(swept(m1, first.now), rest, id);
}

/// A datagram that carries no identifier, or the identifier of a server that is
/// not registered, leaves every entry as it was and creates none.
pub proof fn law_unreadable_or_unknown_changes_nothing(
    m: Map<ServerId, LivenessEntry>,
    parsed: Option<ServerId>,
    now: u64,
)
    requires
        parsed matches Some(id) ==> !m.contains_key(id),
    ensures
        recorded(m, parsed, now) == m,
{
}

/// A heartbeat never adds or removes an entry, and changes no entry but the
/// sender's.
pub proof fn law_heartbeat_touches_sender_only(
    m: Map<ServerId, LivenessEntry>,
    id: ServerId,
    now: u64,
)
    ensures
        touched(m, id, now).dom() == m.dom(),
        forall|other: ServerId|
            other != id && m.contains_key(other) ==> touched(m, id, now)[other] == m[other],
        down_set(touched(m, id, now)) == down_set(m),
{
    assert(touched(m, id, now).dom() =~= m.dom());
    assert(down_set(touched(m, id, now)) =~= down_set(m));
}

/// The canonical text form of an identifier holds no whitespace.
pub proof fn law_identifier_text_holds_no_whitespace(id: ServerId)
    ensures
        forall|i: int| 0 <= i < 36 ==> !is_whitespace(#[trigger] id_text(id)[i]),
        is_trimmed(id_text(id)),
{
    assert forall|i: int| 0 <= i < 36 implies !is_whitespace(#[trigger] id_text(id)[i]) by {
        if !is_hyphen_position(i) {
            let n = nibble(id, i - hyphens_before(i));
            assert(0 <= n < 16);
        }
    }
    assert(id_text(id).last() == id_text(id)[35]);
}

/// A datagram's text is the sender's canonical identifier text whenever the
/// decoded payload is that text with nothing but whitespace around it.
pub proof fn law_whitespace_around_identifier_is_trimmed(
    payload: Seq<u8>,
    id: ServerId,
    before: Seq<char>,
    after: Seq<char>,
)
    requires
        all_whitespace(before),
        all_whitespace(after),
        utf8_lossy(payload) == before + id_text(id) + after,
    ensures
        payload_text(payload) == id_text(id),
        payload_id(payload) == uuid_parse(id_text(id)),
{
    law_identifier_text_holds_no_whitespace(id);
    law_trimming_removes_what_surrounds(before, id_text(id), after);
}

} // verus!
