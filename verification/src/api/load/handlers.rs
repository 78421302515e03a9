//! The loads listing and the inbound mail webhook.

use vstd::prelude::*;
use vstd::string::*;
use vstd::utf8::{decode_utf8, valid_utf8};

use crate::text::{push_char, push_signed_decimal, signed_decimal};

verus! {

/// The query that lists the ids of the teams of a user (`$1`).
pub const USER_TEAMS_SQL: &'static str = "SELECT team_id FROM user_user_teams WHERE user_id = $1";

/// The query that counts the loads a listing can show.
pub const LOADS_COUNT_SQL: &'static str =
    "SELECT COUNT(*) FROM load_load ll WHERE ll.is_deleted = FALSE AND ll.is_active = TRUE";

/// The vehicles that can bid when the user belongs to no team.
pub const ACTIVE_VEHICLES_SQL: &'static str =
    "SELECT id FROM owner_vehicle WHERE status = 1 AND registration_status = 4";

/// The vehicles that can bid, restricted to the user's teams (the team ids
/// and a closing bracket follow).
pub const TEAM_VEHICLES_SQL: &'static str =
    "SELECT id FROM owner_vehicle WHERE status = 1 AND registration_status = 4 AND team_id IN (";

/// The loads query up to the first use of the vehicles subquery.
pub const LOADS_SELECT_HEAD: &'static str = r#"
        SELECT
            ll.id, ll.received_date, ll.pick_up_at, ll.deliver_to,
            ll.suggested_truck, ll.miles, ll.contact_name, ll.source_name,
            ll.vehicle_type, ll.pick_up_at_state, ll.pick_up_date,
            ll.pick_up_latitude::float8 AS pick_up_latitude,
            ll.pick_up_longitude::float8 AS pick_up_longitude, ll.deliver_to_state,
            ll.delivery_date, ll.miles_out, ll.nearest_vehicles_count,
            ll.broker_company_id,
            ll.vehicle_team,
            (SELECT array_agg(team_id) FROM load_load_vehicle_teams lvt WHERE lvt.load_id = ll.id) AS vehicle_teams,
            ll.count_day, ll.is_active,
            bc.rating AS broker_rating,
            EXISTS (
                SELECT 1 FROM load_bid AS bid
                WHERE bid.load_id = ll.id
                  AND bid.vehicle_id IN ("#;

/// The loads query between the two uses of the vehicles subquery.
pub const LOADS_SELECT_MIDDLE: &'static str = r#")
            ) AS is_bid,
            EXISTS (
                SELECT 1 FROM load_driverbid AS driver_bid
                WHERE driver_bid.load_id = ll.id
                  AND driver_bid.vehicle_id IN ("#;

/// The loads query after the second use of the vehicles subquery.
pub const LOADS_SELECT_TAIL: &'static str = r#")
                  AND driver_bid.dispatch_bid_date IS NULL
                  AND driver_bid.created_at >= $3
            ) AS is_driver_bid,
            EXISTS (
                SELECT 1 FROM load_load_is_read_users AS load_is_read_users
                WHERE load_is_read_users.load_id = ll.id
                  AND load_is_read_users.user_id = $4
            ) AS is_read
        FROM load_load ll
        LEFT JOIN broker_brokercompany bc ON ll.broker_company_id = bc.id
        WHERE ll.is_deleted = FALSE
          AND ll.is_active = TRUE
        "#;

/// The filter that keeps only loads with vehicles nearby.
pub const NEAREST_VEHICLES_FILTER: &'static str = " AND ll.nearest_vehicles_count > 0 ";

/// The filter that keeps only loads offered to one of the user's teams, up
/// to the team ids.
pub const TEAM_FILTER_HEAD: &'static str = r#" AND EXISTS (
                SELECT 1 FROM load_load_vehicle_teams lvt
                WHERE lvt.load_id = ll.id
                  AND lvt.team_id IN ("#;

/// The end of the team filter, after the team ids.
pub const TEAM_FILTER_TAIL: &'static str = r#")
            ) "#;

/// The ordering and paging clause: newest first, `$1` rows from offset `$2`.
pub const LOADS_ORDER_AND_PAGE: &'static str = " ORDER BY ll.received_date DESC LIMIT $1 OFFSET $2 ";


/// The ids written in decimal, separated by commas.
pub open spec fn join_ids(ids: Seq<i64>) -> Seq<char>
    decreases ids.len(),
{
    if ids.len() == 0 {
        Seq::<char>::empty()
    } else if ids.len() == 1 {
        signed_decimal(ids[0] as int)
    } else {
        join_ids(ids.drop_last()).push(',') + signed_decimal(ids.last() as int)
    }
}

/// Writes the ids in decimal, separated by commas.
pub fn join_team_ids(ids: &Vec<i64>) -> (r: String)
    ensures
        r@ == join_ids(ids@),
{
    let mut out = String::new();
    let len: usize = ids.len();
    let mut i: usize = 0;
    assert(ids@.take(0) =~= Seq::<i64>::empty());
    while i < len
        invariant
            i <= len,
            len == ids@.len(),
            out@ == join_ids(ids@.take(i as int)),
        decreases len - i,
    {
        assert(ids@.take(i + 1).drop_last() =~= ids@.take(i as int));
        if i > 0 {
            push_char(&mut out, ',');
        }
        push_signed_decimal(&mut out, ids[i]);
        i = i + 1;
    }
    assert(ids@.take(len as int) =~= ids@);
    out
}

/// The vehicles whose bids count for the user: the active, registered
/// vehicles, of the user's teams when the user belongs to any.
pub open spec fn vehicles_subquery(team_ids: Seq<i64>) -> Seq<char> {
    if team_ids.len() > 0 {
        TEAM_VEHICLES_SQL@ + join_ids(team_ids) + ")"@
    } else {
        ACTIVE_VEHICLES_SQL@
    }
}

/// The loads query of a listing: the selection of active, undeleted loads
/// with the bid flags computed over `vehicles_subquery`, then the nearby
/// vehicles filter when `nearest_vehicles_required`, then the team filter
/// when the user belongs to any team, then the ordering and paging clause.
pub open spec fn loads_sql(team_ids: Seq<i64>, nearest_vehicles_required: bool) -> Seq<char> {
    let vehicles = vehicles_subquery(team_ids);
    let select = LOADS_SELECT_HEAD@ + vehicles + LOADS_SELECT_MIDDLE@ + vehicles
        + LOADS_SELECT_TAIL@;
    let nearest = if nearest_vehicles_required {
        NEAREST_VEHICLES_FILTER@
    } else {
        Seq::<char>::empty()
    };
    let teams = if team_ids.len() > 0 {
        TEAM_FILTER_HEAD@ + join_ids(team_ids) + TEAM_FILTER_TAIL@
    } else {
        Seq::<char>::empty()
    };
    select + nearest + teams + LOADS_ORDER_AND_PAGE@
}

/// Builds the subquery of the vehicles whose bids count for the user.
pub fn build_vehicles_subquery(team_ids: &Vec<i64>) -> (r: String)
    ensures
        r@ == vehicles_subquery(team_ids@),
{
    if team_ids.len() > 0 {
        let mut sql = String::from_str(TEAM_VEHICLES_SQL);
        let ids = join_team_ids(team_ids);
        sql.append(ids.as_str());
        sql.append(")");
        sql
    } else {
        String::from_str(ACTIVE_VEHICLES_SQL)
    }
}

/// Builds the loads query for a user of the teams `team_ids`; the caller binds
/// `$1` (page size), `$2` (offset), `$3` (the earliest driver bid time that
/// counts) and `$4` (the user's id).
pub fn build_loads_sql(team_ids: &Vec<i64>, nearest_vehicles_required: bool) -> (r: String)
    ensures
        r@ == loads_sql(team_ids@, nearest_vehicles_required),
{
    let vehicles = build_vehicles_subquery(team_ids);
    let mut sql = String::from_str(LOADS_SELECT_HEAD);
    sql.append(vehicles.as_str());
    sql.append(LOADS_SELECT_MIDDLE);
    sql.append(vehicles.as_str());
    sql.append(LOADS_SELECT_TAIL);
    if nearest_vehicles_required {
        sql.append(NEAREST_VEHICLES_FILTER);
    }
    if team_ids.len() > 0 {
        sql.append(TEAM_FILTER_HEAD);
        let ids = join_team_ids(team_ids);
        sql.append(ids.as_str());
        sql.append(TEAM_FILTER_TAIL);
    }
    sql.append(LOADS_ORDER_AND_PAGE);
    sql
}

/// The answer to the inbound mail webhook.
pub struct WebhookResponse {
    /// Whether the mail was taken.
    pub result: bool,
}

impl WebhookResponse {
    /// The answer given once a mail has been read: `result` is `true`.
    pub fn accepted() -> (r: WebhookResponse)
        ensures
            r.result,
    {
        WebhookResponse { result: true }
    }
}

/// One address of a mail header.
#[derive(Debug)]
pub struct MailAddress {
    /// The display name, comments included.
    pub name: Option<String>,
    /// The e-mail address.
    pub address: Option<String>,
}

/// The headers of an inbound mail that the webhook reports: the first
/// address of `From`, `To` and `Reply-To`, the subject, the message id and
/// the date in RFC 3339 form.
#[derive(Debug)]
pub struct MailSummary {
    /// The first `From` address.
    pub from: Option<MailAddress>,
    /// The first `To` address.
    pub to: Option<MailAddress>,
    /// The first `Reply-To` address.
    pub reply_to: Option<MailAddress>,
    /// The `Subject` header.
    pub subject: Option<String>,
    /// The `Message-ID` header.
    pub message_id: Option<String>,
    /// The `Date` header, in RFC 3339 form.
    pub date: Option<String>,
}

/// What `String::from_utf8_lossy` makes of `bytes`.
pub uninterp spec fn utf8_lossy(bytes: Seq<u8>) -> Seq<char>;

/// `String::from_utf8_lossy`, made an owned `String`: the contract claims that
/// the text depends on the bytes alone (the name `utf8_lossy`) and, as its
/// documentation says, that valid UTF-8 is decoded as it is and that invalid
/// sequences are replaced by U+FFFD, so invalid input gives text holding that
/// character; where exactly each replacement stands is left to the name.
#[verifier::external_body]
fn text_from_utf8_lossy(bytes: &[u8]) -> (r: String)
    ensures
        r@ == utf8_lossy(bytes@),
        valid_utf8(bytes@) ==> r@ == decode_utf8(bytes@),
        !valid_utf8(bytes@) ==> r@.contains('\u{FFFD}'),
{
    String::from_utf8_lossy(bytes).into_owned()
}

/// What `mail_parser` reads from a raw message: `None` when it cannot parse
/// it, otherwise the reported headers.
pub uninterp spec fn parsed_mail(raw: Seq<char>) -> Option<MailSummary>;

/// `mail_parser::MessageParser::default().parse` followed by the accessors
/// `from`, `to`, `reply_to` (each with `Address::first`, `Addr::name`,
/// `Addr::address`), `subject`, `message_id` and `date` (with
/// `DateTime::to_rfc3339`): the contract claims only that the summary
/// depends on the raw text alone (the name `parsed_mail`).
#[verifier::external_body]
fn parse_mail(raw: &str) -> (r: Option<MailSummary>)
    ensures
        r == parsed_mail(raw@),
{
    let m = mail_parser::MessageParser::default().parse(raw)?;
    let first = |a: Option<&mail_parser::Address>| a.and_then(|a| a.first()).map(|a| MailAddress {
        name: a.name().map(String::from),
        address: a.address().map(String::from),
    });
    Some(MailSummary {
        from: first(m.from()),
        to: first(m.to()),
        reply_to: first(m.reply_to()),
        subject: m.subject().map(String::from),
        message_id: m.message_id().map(String::from),
        date: m.date().map(|d| d.to_rfc3339()),
    })
}

/// Reads the body of an inbound mail webhook call: the body is taken as
/// UTF-8, never rejected (valid UTF-8 as it is, invalid sequences replaced by
/// U+FFFD), and parsed as a mail; `None` when it is not one.
pub fn webhook_mail(body: &[u8]) -> (r: Option<MailSummary>)
    ensures
        r == parsed_mail(utf8_lossy(body@)),
        valid_utf8(body@) ==> utf8_lossy(body@) == decode_utf8(body@),
        !valid_utf8(body@) ==> utf8_lossy(body@).contains('\u{FFFD}'),
{
    let raw = text_from_utf8_lossy(body);
    parse_mail(raw.as_str())
}


/// The nearby vehicles filter is there exactly when it is asked for, for
/// every team list: the query with the filter is the query without it, with
/// the filter inserted right after the selection (before any team filter
/// and the ordering), and nothing else differs.
pub proof fn law_nearest_filter_only_when_required(team_ids: Seq<i64>)
    ensures
        ({
            let without = loads_sql(team_ids, false);
            let with = loads_sql(team_ids, true);
            let vehicles = vehicles_subquery(team_ids);
            let k = (LOADS_SELECT_HEAD@ + vehicles + LOADS_SELECT_MIDDLE@ + vehicles
                + LOADS_SELECT_TAIL@).len() as int;
            &&& 0 <= k <= without.len()
            &&& with == without.take(k) + NEAREST_VEHICLES_FILTER@ + without.skip(k)
            &&& with.len() == without.len() + NEAREST_VEHICLES_FILTER@.len()
        }),
{
    let without = loads_sql(team_ids, false);
    let with = loads_sql(team_ids, true);
    let vehicles = vehicles_subquery(team_ids);
    let select = LOADS_SELECT_HEAD@ + vehicles + LOADS_SELECT_MIDDLE@ + vehicles
        + LOADS_SELECT_TAIL@;
    let k = select.len() as int;
    let teams = if team_ids.len() > 0 {
        TEAM_FILTER_HEAD@ + join_ids(team_ids) + TEAM_FILTER_TAIL@
    } else {
        Seq::<char>::empty()
    };
    assert(without =~= select + teams + LOADS_ORDER_AND_PAGE@);
    assert(without.take(k) =~= select);
    assert(without.skip(k) =~= teams + LOADS_ORDER_AND_PAGE@);
    assert(with =~= without.take(k) + NEAREST_VEHICLES_FILTER@ + without.skip(k));
}


/// Joining the ids of two team lists is joining each list and putting a
/// comma between them; a single id is written as its signed decimal text.
/// Together these fix the joined text: every id appears, in order, once.
pub proof fn law_join_ids_concatenates(first: Seq<i64>, second: Seq<i64>)
    requires
        first.len() > 0,
        second.len() > 0,
    ensures
        join_ids(first + second) == join_ids(first).push(',') + join_ids(second),
        join_ids(seq![first[0]]) == signed_decimal(first[0] as int),
    decreases second.len(),
{
    if second.len() == 1 {
        assert((first + second).drop_last() =~= first);
        assert(join_ids(second) == signed_decimal(second[0] as int));
    } else {
        let shorter = second.drop_last();
        law_join_ids_concatenates(first, shorter);
        assert((first + second).drop_last() =~= first + shorter);
        assert(second.drop_last() =~= shorter);
        assert(join_ids(first + second) =~= join_ids(first).push(',') + join_ids(second));
    }
}

} // verus!
