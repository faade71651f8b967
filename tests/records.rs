use focuslock::{BlockRule, Favorite, InsertBlockRule, InsertFavorite, InsertSession, Session};

#[test]
fn favorite_gets_id() {
    let f = InsertFavorite {
        app_id: "firefox".to_string(),
        display_name: "Firefox".to_string(),
        pinned_order: Some(2),
        icon_hint: None,
    }
    .into_favorite("id-1".to_string());
    assert_eq!(
        f,
        Favorite {
            id: "id-1".to_string(),
            app_id: "firefox".to_string(),
            display_name: "Firefox".to_string(),
            pinned_order: Some(2),
            icon_hint: None,
        }
    );
}

#[test]
fn block_rule_gets_id() {
    let r = InsertBlockRule {
        app_id: "game.exe".to_string(),
        match_kind: "exe".to_string(),
        mode: "hard".to_string(),
    }
    .into_block_rule("r-9".to_string());
    assert_eq!(
        r,
        BlockRule {
            id: "r-9".to_string(),
            app_id: "game.exe".to_string(),
            match_kind: "exe".to_string(),
            mode: "hard".to_string(),
        }
    );
}

#[test]
fn session_gets_id() {
    let s = InsertSession {
        start_utc: 10,
        end_utc: 70,
        status: "pending".to_string(),
        duration_secs: 60,
        remaining_secs: Some(60),
    }
    .into_session("s-1".to_string());
    assert_eq!(
        s,
        Session {
            id: "s-1".to_string(),
            start_utc: 10,
            end_utc: 70,
            status: "pending".to_string(),
            duration_secs: 60,
            remaining_secs: Some(60),
        }
    );
}
