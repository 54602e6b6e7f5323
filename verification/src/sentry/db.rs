//! The statements that the sentry sends to its database.
//!
//! Values never stand in the text of a statement: they are numbered
//! placeholders, and the values go along as a list.

use crate::primitives::channel::{channel_id_text, ChannelId};
use crate::primitives::sentry::{AggregateEvents, EventAggregate};
use crate::primitives::string_map::{amount_at, is_key_order, key_order};
use crate::primitives::text::{decimal, u64_to_string};
use crate::sentry::config::texts;
use vstd::prelude::*;
use vstd::string::*;

verus! {

/// The statement that reads one channel by its id.
pub fn get_channel_by_id_statement() -> (r: &'static str)
    ensures
        r@ == "SELECT id, creator, deposit_asset, deposit_amount, valid_until, spec FROM channels WHERE id = $1 LIMIT 1"@,
{
    "SELECT id, creator, deposit_asset, deposit_amount, valid_until, spec FROM channels WHERE id = $1 LIMIT 1"
}

/// The statement that reads one channel by its id and one of its
/// validators.
pub fn get_channel_by_id_and_validator_statement() -> (r: &'static str)
    ensures
        r@ == "SELECT id, creator, deposit_asset, deposit_amount, valid_until, spec FROM channels WHERE id = $1 AND spec->'validators' @> $2 LIMIT 1"@,
{
    "SELECT id, creator, deposit_asset, deposit_amount, valid_until, spec FROM channels WHERE id = $1 AND spec->'validators' @> $2 LIMIT 1"
}

/// The JSON that a channel's validators are matched against to find those
/// of `validator_id`.
pub open spec fn validator_filter_text(validator_id: Seq<char>) -> Seq<char> {
    "[{\"id\": \""@ + validator_id + "\"}]"@
}

/// The JSON that a channel's validators are matched against.
pub fn validator_filter(validator_id: &str) -> (r: String)
    ensures
        r@ == validator_filter_text(validator_id@),
{
    String::from_str("[{\"id\": \"").concat(validator_id).concat("\"}]")
}

/// The statement that stores a channel.
pub fn insert_channel_statement() -> (r: &'static str)
    ensures
        r@ == "INSERT INTO channels (id, creator, deposit_asset, deposit_amount, valid_until, spec) values ($1, $2, $3, $4, $5, $6)"@,
{
    "INSERT INTO channels (id, creator, deposit_asset, deposit_amount, valid_until, spec) values ($1, $2, $3, $4, $5, $6)"
}

/// Whether a statement that was to store `expected` rows stored them all.
pub fn inserted(rows: u64, expected: u64) -> (r: bool)
    ensures
        r == (rows == expected),
{
    rows == expected
}

/// The condition that an aggregate pays something to `from`.
pub open spec fn pays_to(from: Seq<char>) -> Seq<char> {
    "events->'IMPRESSION'->'eventPayouts'->'"@ + from + "' IS NOT NULL"@
}

/// The conditions of a listing, ready to follow the table's name: nothing
/// without conditions, and else `WHERE` and the conditions joined by `AND`.
pub open spec fn where_text(from: Option<Seq<char>>, has_after: bool) -> Seq<char> {
    match (from, has_after) {
        (None, false) => Seq::empty(),
        (Some(f), false) => "WHERE "@ + pays_to(f),
        (None, true) => "WHERE created > $1"@,
        (Some(f), true) => "WHERE "@ + pays_to(f) + " AND created > $1"@,
    }
}

/// The statement that lists event aggregates, newest first, at most
/// `limit` of them.
pub open spec fn list_text(limit: nat, from: Option<Seq<char>>, has_after: bool) -> Seq<char> {
    "SELECT channel_id, created, events FROM event_aggregates "@ + where_text(from, has_after)
        + " ORDER BY created DESC LIMIT "@ + decimal(limit)
}

/// The statement that lists event aggregates: those that pay to `from`,
/// where one is given, and those made after the moment that goes along as
/// the first value, where `has_after` says that one does.
pub fn list_event_aggregates_statement(limit: u32, from: Option<&str>, has_after: bool) -> (r: String)
    ensures
        r@ == list_text(
            limit as nat,
            match from {
                Some(f) => Some(f@),
                None => None,
            },
            has_after,
        ),
{
    let mut clause = String::new();
    match from {
        Some(f) => {
            clause.append("WHERE ");
            clause.append("events->'IMPRESSION'->'eventPayouts'->'");
            clause.append(f);
            clause.append("' IS NOT NULL");
            if has_after {
                clause.append(" AND created > $1");
            }
            proof {
                assert(clause@ =~= where_text(Some(f@), has_after));
            }
        },
        None => {
            if has_after {
                clause.append("WHERE created > $1");
            }
            proof {
                assert(clause@ =~= where_text(None, has_after));
            }
        },
    }
    let number: u64 = limit as u64;
    String::from_str("SELECT channel_id, created, events FROM event_aggregates ").concat(
        clause.as_str(),
    ).concat(" ORDER BY created DESC LIMIT ").concat(u64_to_string(number).as_str())
}

/// The placeholders of row `row`: five numbers, counted on from those of
/// the rows before.
pub open spec fn placeholders(row: nat) -> Seq<char> {
    "($"@ + decimal(5 * row + 1) + ", $"@ + decimal(5 * row + 2) + ", $"@ + decimal(5 * row + 3)
        + ", $"@ + decimal(5 * row + 4) + ", $"@ + decimal(5 * row + 5) + ")"@
}

/// The placeholders of the first `rows` rows, with ` ,` between the rows.
pub open spec fn values_text(rows: nat) -> Seq<char>
    decreases rows,
{
    if rows == 0 {
        Seq::empty()
    } else if rows == 1 {
        placeholders(0)
    } else {
        values_text((rows - 1) as nat) + " ,"@ + placeholders((rows - 1) as nat)
    }
}

/// The statement that stores `rows` rows of an event aggregate.
pub open spec fn insert_text(rows: nat) -> Seq<char> {
    "INSERT INTO event_aggregates (channel_id, event_type, earner, event_counts, event_payouts) values "@
        + values_text(rows)
}

/// The values of the rows of the first `n` earners counted in one event
/// type: for each the channel, the type, the earner, its count and its
/// payout.
pub open spec fn type_rows(
    id: Seq<char>,
    event_type: Seq<char>,
    counts: Map<Seq<char>, nat>,
    payouts: Map<Seq<char>, nat>,
    n: int,
) -> Seq<Seq<char>>
    decreases n,
{
    if n <= 0 {
        Seq::empty()
    } else {
        let earner = key_order(counts.dom())[n - 1];
        type_rows(id, event_type, counts, payouts, n - 1) + seq![
            id,
            event_type,
            earner,
            decimal(counts[earner]),
            decimal(amount_at(payouts, earner)),
        ]
    }
}

/// The values of the rows of the first `n` event types of an aggregate.
pub open spec fn event_rows(id: Seq<char>, events: Map<Seq<char>, AggregateEvents>, n: int) -> Seq<
    Seq<char>,
>
    decreases n,
{
    if n <= 0 {
        Seq::empty()
    } else {
        let event_type = key_order(events.dom())[n - 1];
        let aggr = events[event_type];
        event_rows(id, events, n - 1) + type_rows(
            id,
            event_type,
            aggr.event_counts@,
            aggr.event_payouts@,
            aggr.event_counts@.dom().len() as int,
        )
    }
}

/// Every earner adds five values.
pub proof fn lemma_type_rows_len(
    id: Seq<char>,
    event_type: Seq<char>,
    counts: Map<Seq<char>, nat>,
    payouts: Map<Seq<char>, nat>,
    n: int,
)
    requires
        n >= 0,
    ensures
        type_rows(id, event_type, counts, payouts, n).len() == 5 * n,
    decreases n,
{
    if n > 0 {
        lemma_type_rows_len(id, event_type, counts, payouts, n - 1);
    }
}

/// More event types never make fewer values.
pub proof fn lemma_event_rows_grow(
    id: Seq<char>,
    events: Map<Seq<char>, AggregateEvents>,
    n: int,
    m: int,
)
    requires
        0 <= n <= m,
    ensures
        event_rows(id, events, n).len() <= event_rows(id, events, m).len(),
    decreases m,
{
    if n < m {
        lemma_event_rows_grow(id, events, n, m - 1);
    }
}

/// All values of the rows of an aggregate.
pub open spec fn all_event_rows(id: Seq<u8>, event: &EventAggregate) -> Seq<Seq<char>> {
    event_rows(channel_id_text(id), event.events@, event.events@.dom().len() as int)
}

/// The placeholders of row `row`.
pub fn placeholders_of(row: u64) -> (r: String)
    requires
        row < 0x3333_3333_3333_3330,
    ensures
        r@ == placeholders(row as nat),
{
    let base: u64 = 5 * row;
    let r = String::from_str("($").concat(u64_to_string(base + 1).as_str()).concat(", $").concat(
        u64_to_string(base + 2).as_str(),
    ).concat(", $").concat(u64_to_string(base + 3).as_str()).concat(", $").concat(
        u64_to_string(base + 4).as_str(),
    ).concat(", $").concat(u64_to_string(base + 5).as_str()).concat(")");
    assert(r@ =~= placeholders(row as nat));
    r
}

/// Adds the five values of one row to `data`.
pub fn push_row(
    data: &mut Vec<String>,
    id: String,
    event_type: String,
    earner: String,
    count: String,
    payout: String,
)
    ensures
        texts(final(data)@) == texts(old(data)@) + seq![
            id@,
            event_type@,
            earner@,
            count@,
            payout@,
        ],
        final(data)@.len() == old(data)@.len() + 5,
{
    let ghost row = seq![id@, event_type@, earner@, count@, payout@];
    data.push(id);
    data.push(event_type);
    data.push(earner);
    data.push(count);
    data.push(payout);
    assert(texts(data@) =~= texts(old(data)@) + row);
}

/// Adds the placeholders of row `rows` to a statement that holds those of
/// the rows before.
pub fn push_placeholders(query: &mut String, rows: u64)
    requires
        rows < 0x3333_3333_3333_3330,
        old(query)@ == insert_text(rows as nat),
    ensures
        final(query)@ == insert_text((rows + 1) as nat),
{
    let ghost head = "INSERT INTO event_aggregates (channel_id, event_type, earner, event_counts, event_payouts) values "@;
    if rows > 0 {
        query.append(" ,");
    }
    query.append(placeholders_of(rows).as_str());
    proof {
        if rows == 0 {
            assert(values_text(0) =~= Seq::<char>::empty());
            assert(query@ =~= head + placeholders(0));
        } else {
            assert(query@ =~= head + (values_text(rows as nat) + " ,"@ + placeholders(
                rows as nat,
            )));
        }
    }
}

/// Every earner that one event type counts has a payout under that type.
pub open spec fn type_paid(aggr: AggregateEvents) -> bool {
    forall|k: Seq<char>| #[trigger]
        aggr.event_counts@.dom().contains(k) ==> aggr.event_payouts@.dom().contains(k)
}

/// Every earner that any event type counts has a payout under that type.
pub open spec fn all_paid(events: Map<Seq<char>, AggregateEvents>) -> bool {
    forall|t: Seq<char>| #[trigger] events.dom().contains(t) ==> type_paid(events[t])
}

/// Whether every earner that `aggr` counts has a payout in it.
pub fn type_is_paid(aggr: &AggregateEvents) -> (r: bool)
    ensures
        r == type_paid(*aggr),
{
    let n: usize = aggr.event_counts.len();
    let ghost keys = key_order(aggr.event_counts@.dom());
    let mut i: usize = 0;
    while i < n
        invariant
            n == aggr.event_counts@.dom().len(),
            n == keys.len(),
            keys == key_order(aggr.event_counts@.dom()),
            is_key_order(aggr.event_counts@.dom(), keys),
            i <= n,
            forall|j: int| 0 <= j < i ==> aggr.event_payouts@.dom().contains(#[trigger] keys[j]),
        decreases n - i,
    {
        let earner = aggr.event_counts.key_at(i);
        if !aggr.event_payouts.contains_key(earner.as_str()) {
            assert(aggr.event_counts@.dom().contains(earner@));
            return false;
        }
        i = i + 1;
    }
    proof {
        assert forall|k: Seq<char>| #[trigger]
            aggr.event_counts@.dom().contains(k) implies aggr.event_payouts@.dom().contains(k) by {
            assert(keys.contains(k));
            let j = choose|j: int| 0 <= j < keys.len() && keys[j] == k;
            assert(aggr.event_payouts@.dom().contains(keys[j]));
        }
    }
    true
}

/// Whether every earner that `event` counts has a payout under the same
/// event type.
pub fn counts_are_paid(event: &EventAggregate) -> (r: bool)
    ensures
        r == all_paid(event.events@),
{
    let n: usize = event.events.len();
    let ghost keys = key_order(event.events@.dom());
    let mut i: usize = 0;
    while i < n
        invariant
            n == event.events@.dom().len(),
            n == keys.len(),
            keys == key_order(event.events@.dom()),
            is_key_order(event.events@.dom(), keys),
            i <= n,
            forall|j: int| 0 <= j < i ==> type_paid(event.events@[#[trigger] keys[j]]),
        decreases n - i,
    {
        let event_type = event.events.key_at(i);
        if !type_is_paid(event.events.value_at(i)) {
            assert(event.events@.dom().contains(event_type@));
            return false;
        }
        i = i + 1;
    }
    proof {
        assert forall|t: Seq<char>| #[trigger] event.events@.dom().contains(t) implies type_paid(
            event.events@[t],
        ) by {
            assert(keys.contains(t));
            let j = choose|j: int| 0 <= j < keys.len() && keys[j] == t;
            assert(type_paid(event.events@[keys[j]]));
        }
    }
    true
}

/// A statement with the values that go along with it.
#[derive(Debug)]
pub struct Insert {
    pub query: String,
    pub data: Vec<String>,
    pub rows: u64,
}

/// The statement that stores the event aggregate `event` of the channel
/// `channel_id`, one row for every earner counted in every event type.
///
/// Nothing comes back where an earner is counted without a payout, or
/// where the placeholders of the rows would outgrow a `u64`.
pub fn insert_event_aggregate_statement(channel_id: &ChannelId, event: &EventAggregate) -> (r:
    Option<Insert>)
    ensures
        r.is_some() <==> all_paid(event.events@) && all_event_rows(channel_id.bytes@, event).len()
            <= 0xffff_ffff_ffff_fff0,
        r.is_some() ==> ({
            let insert = r.unwrap();
            &&& texts(insert.data@) == all_event_rows(channel_id.bytes@, event)
            &&& insert.data@.len() == 5 * insert.rows
            &&& insert.query@ == insert_text(insert.rows as nat)
        }),
{
    if !counts_are_paid(event) {
        return None;
    }
    let id = channel_id.to_hex_string();
    let ghost idt = channel_id_text(channel_id.bytes@);
    let types: usize = event.events.len();
    let mut data: Vec<String> = Vec::new();
    let mut query = String::from_str(
        "INSERT INTO event_aggregates (channel_id, event_type, earner, event_counts, event_payouts) values ",
    );
    let mut rows: u64 = 0;
    let mut e: usize = 0;
    proof {
        assert(query@ =~= insert_text(0));
        assert(texts(data@) =~= event_rows(idt, event.events@, 0));
    }
    while e < types
        invariant
            idt == channel_id_text(channel_id.bytes@),
            id@ == idt,
            types == event.events@.dom().len(),
            e <= types,
            texts(data@) == event_rows(idt, event.events@, e as int),
            data@.len() == 5 * rows,
            rows <= 0x3333_3333_3333_3330,
            query@ == insert_text(rows as nat),
        decreases types - e,
    {
        let event_type = event.events.key_at(e);
        let aggr = event.events.value_at(e);
        let earners: usize = aggr.event_counts.len();
        let ghost before = texts(data@);
        let mut i: usize = 0;
        proof {
            assert(before + type_rows(
                idt,
                event_type@,
                aggr.event_counts@,
                aggr.event_payouts@,
                0,
            ) =~= before);
        }
        while i < earners
            invariant
                idt == channel_id_text(channel_id.bytes@),
                id@ == idt,
                earners == aggr.event_counts@.dom().len(),
                i <= earners,
                e < types,
                types == event.events@.dom().len(),
                before == event_rows(idt, event.events@, e as int),
                event_type@ == key_order(event.events@.dom())[e as int],
                *aggr == event.events@[key_order(event.events@.dom())[e as int]],
                texts(data@) == before + type_rows(
                    idt,
                    event_type@,
                    aggr.event_counts@,
                    aggr.event_payouts@,
                    i as int,
                ),
                data@.len() == 5 * rows,
                rows <= 0x3333_3333_3333_3330,
                query@ == insert_text(rows as nat),
            decreases earners - i,
        {
            if rows >= 0x3333_3333_3333_3330 {
                proof {
                    lemma_type_rows_len(
                        idt,
                        event_type@,
                        aggr.event_counts@,
                        aggr.event_payouts@,
                        i as int,
                    );
                    lemma_type_rows_len(
                        idt,
                        event_type@,
                        aggr.event_counts@,
                        aggr.event_payouts@,
                        earners as int,
                    );
                    lemma_event_rows_grow(idt, event.events@, e + 1, types as int);
                    assert(texts(data@).len() == data@.len());
                }
                return None;
            }
            let earner = aggr.event_counts.key_at(i);
            let count = aggr.event_counts.amount_at(i).to_dec_string();
            let payout = aggr.event_payouts.get(earner.as_str()).to_dec_string();
            push_row(&mut data, id.clone(), event_type.clone(), earner.clone(), count, payout);
            push_placeholders(&mut query, rows);
            rows = rows + 1;
            i = i + 1;
        }
        e = e + 1;
    }
    assert(texts(data@).len() == data@.len());
    Some(Insert { query, data, rows })
}

} // verus!
