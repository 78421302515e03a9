use loadboard::api::load::handlers::{
    build_loads_sql, build_vehicles_subquery, join_team_ids, webhook_mail, WebhookResponse,
    LOADS_COUNT_SQL,
};
use loadboard::utils::config::{Config, ConfigError};

fn expected_sql(team_ids: &[i64], nearest_vehicles_required: bool) -> String {
    let joined = team_ids.iter().map(|x| x.to_string()).collect::<Vec<_>>().join(",");
    let vehicles_subquery = if !team_ids.is_empty() {
        format!(
            "SELECT id FROM owner_vehicle WHERE status = 1 AND registration_status = 4 AND team_id IN ({})",
            joined
        )
    } else {
        "SELECT id FROM owner_vehicle WHERE status = 1 AND registration_status = 4".to_string()
    };
    let mut sql = format!(
        r#"
        SELECT
            ll.id, ll.received_date, ll.pick_up_at, ll.deliver_to,
            ll.suggested_truck, ll.miles, ll.contact_name, ll.source_name,
            ll.vehicle_type, ll.pick_up_at_state, ll.pick_up_date,
            ll.pick_up_latitude::float8 AS pick_up_latitude,
            ll.pick_up_longitude::float8 AS pick_up_longitude, ll.deliver_to_state,
            ll.delivery_date, ll.miles_out, ll.nearest_vehicles_count,
            ll.broker_company_id,
            ll.vehicle_team,
            (SELECT array_agg(team_id) FROM load_load_vehicle_teams lvt WHERE lvt.load_id = ll.id) AS vehicle_teams,
            ll.count_day, ll.is_active,
            bc.rating AS broker_rating,
            EXISTS (
                SELECT 1 FROM load_bid AS bid
                WHERE bid.load_id = ll.id
                  AND bid.vehicle_id IN ({vehicles})
            ) AS is_bid,
            EXISTS (
                SELECT 1 FROM load_driverbid AS driver_bid
                WHERE driver_bid.load_id = ll.id
                  AND driver_bid.vehicle_id IN ({vehicles})
                  AND driver_bid.dispatch_bid_date IS NULL
                  AND driver_bid.created_at >= $3
            ) AS is_driver_bid,
            EXISTS (
                SELECT 1 FROM load_load_is_read_users AS load_is_read_users
                WHERE load_is_read_users.load_id = ll.id
                  AND load_is_read_users.user_id = $4
            ) AS is_read
        FROM load_load ll
        LEFT JOIN broker_brokercompany bc ON ll.broker_company_id = bc.id
        WHERE ll.is_deleted = FALSE
          AND ll.is_active = TRUE
        "#,
        vehicles = vehicles_subquery,
    );
    if nearest_vehicles_required {
        sql.push_str(" AND ll.nearest_vehicles_count > 0 ");
    }
    if !team_ids.is_empty() {
        sql.push_str(&format!(
            " AND EXISTS (
                SELECT 1 FROM load_load_vehicle_teams lvt
                WHERE lvt.load_id = ll.id
                  AND lvt.team_id IN ({})
            ) ",
            joined
        ));
    }
    sql.push_str(" ORDER BY ll.received_date DESC LIMIT $1 OFFSET $2 ");
    sql
}

#[test]
fn team_ids_are_joined() {
    assert_eq!(join_team_ids(&vec![]), "");
    assert_eq!(join_team_ids(&vec![5]), "5");
    assert_eq!(join_team_ids(&vec![3, -4, 10]), "3,-4,10");
}

#[test]
fn vehicles_subquery_without_teams() {
    assert_eq!(
        build_vehicles_subquery(&vec![]),
        "SELECT id FROM owner_vehicle WHERE status = 1 AND registration_status = 4"
    );
}

#[test]
fn vehicles_subquery_with_teams() {
    assert_eq!(
        build_vehicles_subquery(&vec![1, 2]),
        "SELECT id FROM owner_vehicle WHERE status = 1 AND registration_status = 4 AND team_id IN (1,2)"
    );
}

#[test]
fn loads_sql_without_teams() {
    assert_eq!(build_loads_sql(&vec![], false), expected_sql(&[], false));
    assert_eq!(build_loads_sql(&vec![], true), expected_sql(&[], true));
}

#[test]
fn loads_sql_with_teams() {
    assert_eq!(build_loads_sql(&vec![3, -4], true), expected_sql(&[3, -4], true));
    assert_eq!(build_loads_sql(&vec![9], false), expected_sql(&[9], false));
    assert!(build_loads_sql(&vec![9], false).contains("lvt.team_id IN (9)"));
}

#[test]
fn count_sql_text() {
    assert_eq!(
        LOADS_COUNT_SQL,
        "SELECT COUNT(*) FROM load_load ll WHERE ll.is_deleted = FALSE AND ll.is_active = TRUE"
    );
}

#[test]
fn webhook_reads_mail_headers() {
    let raw = b"From: Ana Lee <ana@example.com>\r\nTo: loads@atrek.icu\r\nReply-To: dispatch@example.com\r\nSubject: Load from Dallas\r\nMessage-ID: <abc@example.com>\r\nDate: Tue, 1 Jul 2003 10:52:37 +0200\r\n\r\nHello\r\n";
    let mail = webhook_mail(raw).unwrap();
    let from = mail.from.unwrap();
    assert_eq!(from.name.as_deref(), Some("Ana Lee"));
    assert_eq!(from.address.as_deref(), Some("ana@example.com"));
    assert_eq!(mail.to.unwrap().address.as_deref(), Some("loads@atrek.icu"));
    assert_eq!(mail.reply_to.unwrap().address.as_deref(), Some("dispatch@example.com"));
    assert_eq!(mail.subject.as_deref(), Some("Load from Dallas"));
    assert_eq!(mail.message_id.as_deref(), Some("abc@example.com"));
    assert_eq!(mail.date.as_deref(), Some("2003-07-01T10:52:37+02:00"));
}

#[test]
fn webhook_reads_mail_with_invalid_utf8() {
    let mut raw = b"Subject: caf".to_vec();
    raw.push(0xff);
    raw.extend_from_slice(b"\r\n\r\nbody\r\n");
    let mail = webhook_mail(&raw).unwrap();
    assert_eq!(mail.subject.as_deref(), Some("caf\u{fffd}"));
    assert!(mail.from.is_none());
}

#[test]
fn webhook_answer_is_positive() {
    assert!(WebhookResponse::accepted().result);
}

#[test]
fn config_defaults_port() {
    let c = Config::from_values(Some("postgres://db".to_string()), None).unwrap();
    assert_eq!(c.database_url, "postgres://db");
    assert_eq!(c.port, 8080);
}

#[test]
fn config_reads_port() {
    let c = Config::from_values(Some("u".to_string()), Some("3000".to_string())).unwrap();
    assert_eq!(c.port, 3000);
}

#[test]
fn config_needs_database_url() {
    assert_eq!(
        Config::from_values(None, Some("x".to_string())).unwrap_err(),
        ConfigError::MissingDatabaseUrl
    );
}

#[test]
fn config_refuses_bad_port() {
    assert_eq!(
        Config::from_values(Some("u".to_string()), Some("70000".to_string())).unwrap_err(),
        ConfigError::InvalidPort
    );
}
