use overlay_state::model::{
    default_setup, default_state, AllSetupsState, CommentaryState, OverlayState,
};
use overlay_state::parse::{load_state, parse_all_doc, parse_overlay_doc};
use overlay_state::ser::state_to_json;

fn exotic_state() -> AllSetupsState {
    let mut st = default_state();
    st.setups[0].p1.tag = "Quote \" backslash \\ and tab \t done".to_string();
    st.setups[0].p1.sponsor = Some("C9".to_string());
    st.setups[0].p1.handle = Some("@mango".to_string());
    st.setups[0].p1.score = 4294967295;
    st.setups[0].p1.country_code = Some("US".to_string());
    st.setups[0].p2.tag = "Ünïcödé — プレイヤー".to_string();
    st.setups[0].p2.port = None;
    st.setups[1].meta.tournament = None;
    st.setups[1].meta.best_of = 3;
    st.setups[1].meta.stage = Some("Battlefield".to_string());
    st.setups[1].meta.notes = Some("line one\nline two".to_string());
    st.setups[2].commentators.push(CommentaryState {
        name: "Scar".to_string(),
        handle: Some("@scar".to_string()),
        active: Some(true),
    });
    st.setups[2].commentators.push(CommentaryState {
        name: "Toph".to_string(),
        handle: None,
        active: Some(false),
    });
    st.setups[3].commentators.push(CommentaryState {
        name: "Solo".to_string(),
        handle: None,
        active: None,
    });
    st
}

#[test]
fn pretty_round_trip_returns_equal_state() {
    let st = exotic_state();
    let text = state_to_json(&st, true);
    let back = load_state(Some(&text));
    assert_eq!(back, st);
}

#[test]
fn compact_round_trip_returns_equal_state() {
    let st = exotic_state();
    let text = state_to_json(&st, false);
    let back = load_state(Some(&text));
    assert_eq!(back, st);
}

#[test]
fn load_missing_file_gives_default_state() {
    let st = load_state(None);
    assert_eq!(st, default_state());
    assert_eq!(st.setups.len(), 4);
    assert_eq!(st.setups[0].p1.tag, "Player 1");
    assert_eq!(st.setups[0].p2.tag, "Player 2");
    assert_eq!(st.setups[0].p1.character, "Falco");
    assert_eq!(st.setups[0].p2.character, "Marth");
    assert_eq!(st.setups[0].meta.best_of, 5);
    assert_eq!(st.setups[0].meta.round, "WF");
}

#[test]
fn load_garbage_gives_default_state() {
    assert_eq!(load_state(Some("not json at all")), default_state());
    assert_eq!(load_state(Some("")), default_state());
    assert_eq!(load_state(Some("{\"setups\": [}]")), default_state());
}

#[test]
fn load_legacy_single_setup_pads_to_four_slots() {
    let mut legacy_setup = default_setup();
    legacy_setup.p1.tag = "Legacy One".to_string();
    legacy_setup.p2.tag = "Legacy Two".to_string();
    legacy_setup.meta.best_of = 3;

    // Write the bare setup the way an old state file held it: as the text of
    // one setup object alone. Serialize a one-slot state and strip the
    // wrapper object by parsing the slot back out of it.
    let whole = AllSetupsState { setups: vec![legacy_setup.clone()] };
    let text = state_to_json(&whole, false);
    let prefix = "{\"setups\":[";
    assert!(text.starts_with(prefix));
    assert!(text.ends_with("]}"));
    let legacy_text = &text[prefix.len()..text.len() - 2];

    let loaded = load_state(Some(legacy_text));
    assert_eq!(loaded.setups.len(), 4);
    assert_eq!(loaded.setups[0], legacy_setup);
    assert_eq!(loaded.setups[1], default_setup());
    assert_eq!(loaded.setups[2], default_setup());
    assert_eq!(loaded.setups[3], default_setup());
}

#[test]
fn parse_tolerates_missing_optional_fields_and_whitespace() {
    let text = "{ \"setups\" : [ {\n  \"p1\": {\"side\":\"left\",\"tag\":\"A\",\"character\":\"Fox\",\"characterColor\":\"Red\",\"score\":0},\n  \"p2\": {\"side\":\"right\",\"port\":null,\"tag\":\"B\",\"character\":\"Falco\",\"characterColor\":\"Blue\",\"score\":2},\n  \"meta\": {\"round\":\"GF\",\"bestOf\":5},\n  \"commentators\": [ {\"name\":\"Solo\"} ]\n} ] }";
    let st = parse_all_doc(text).expect("optional fields may be absent");
    assert_eq!(st.setups.len(), 1);
    let s = &st.setups[0];
    assert_eq!(s.p1.tag, "A");
    assert_eq!(s.p1.port, None);
    assert_eq!(s.p1.sponsor, None);
    assert_eq!(s.p1.handle, None);
    assert_eq!(s.p1.country_code, None);
    assert_eq!(s.p2.score, 2);
    assert_eq!(s.meta.tournament, None);
    assert_eq!(s.meta.round, "GF");
    assert_eq!(s.meta.best_of, 5);
    assert_eq!(s.meta.game_number, None);
    assert_eq!(s.commentators.len(), 1);
    assert_eq!(s.commentators[0].name, "Solo");
    assert_eq!(s.commentators[0].handle, None);
    assert_eq!(s.commentators[0].active, None);
}

#[test]
fn parse_decodes_string_escapes() {
    let text = "{\"setups\":[{\"p1\":{\"side\":\"left\",\"tag\":\"q\\\" b\\\\ s\\/ n\\n t\\t u\\u0041\\u00e9\",\"character\":\"Fox\",\"characterColor\":\"Red\",\"score\":0},\"p2\":{\"side\":\"right\",\"tag\":\"B\",\"character\":\"Falco\",\"characterColor\":\"Blue\",\"score\":0},\"meta\":{\"round\":\"GF\",\"bestOf\":3},\"commentators\":[]}]}";
    let st = parse_all_doc(text).expect("escapes are accepted");
    assert_eq!(st.setups[0].p1.tag, "q\" b\\ s/ n\n t\t uA\u{e9}");
}

#[test]
fn parse_rejects_bad_documents() {
    // best-of too large for its byte-sized field
    let mut st = default_state();
    st.setups[0].meta.best_of = 255;
    let text = state_to_json(&st, true).replace("\"bestOf\": 255", "\"bestOf\": 256");
    assert!(parse_all_doc(&text).is_none());

    // trailing garbage after the document
    let good = state_to_json(&default_state(), false);
    assert!(parse_all_doc(&good).is_some());
    let trailing = format!("{} x", good);
    assert!(parse_all_doc(&trailing).is_none());

    // a required field is missing
    let no_tag = good.replace("\"tag\":\"Player 1\",", "");
    assert!(parse_all_doc(&no_tag).is_none());

    // a bare setup is not the multi-setup shape
    assert!(parse_overlay_doc(&good).is_none());
}

#[test]
fn written_json_is_readable_by_serde_json() {
    let st = exotic_state();
    for pretty in [true, false] {
        let text = state_to_json(&st, pretty);
        let v: serde_json::Value = serde_json::from_str(&text).expect("valid JSON");
        let setups = v.get("setups").expect("setups key").as_array().expect("array");
        assert_eq!(setups.len(), 4);
        let p1 = &setups[0]["p1"];
        assert_eq!(p1["tag"].as_str().unwrap(), "Quote \" backslash \\ and tab \t done");
        assert_eq!(p1["side"].as_str().unwrap(), "left");
        assert_eq!(p1["port"].as_u64().unwrap(), 1);
        assert_eq!(p1["score"].as_u64().unwrap(), 4294967295);
        assert_eq!(p1["countryCode"].as_str().unwrap(), "US");
        assert!(setups[0]["p2"]["port"].is_null());
        assert_eq!(setups[0]["p2"]["tag"].as_str().unwrap(), "Ünïcödé — プレイヤー");
        assert!(setups[1]["meta"]["tournament"].is_null());
        assert_eq!(setups[1]["meta"]["bestOf"].as_u64().unwrap(), 3);
        assert_eq!(setups[1]["meta"]["notes"].as_str().unwrap(), "line one\nline two");
        assert_eq!(setups[2]["commentators"][0]["name"].as_str().unwrap(), "Scar");
        assert_eq!(setups[2]["commentators"][0]["active"].as_bool().unwrap(), true);
        assert_eq!(setups[2]["commentators"][1]["active"].as_bool().unwrap(), false);
        assert!(setups[3]["commentators"][0]["active"].is_null());
        assert_eq!(setups[3]["commentators"][0]["handle"], serde_json::Value::Null);
    }
}

#[test]
fn serde_json_written_state_loads_back() {
    // A file written by another tool, members in declaration order, all
    // fields present, as the previous implementation of this tool wrote it.
    let text = "{\n  \"setups\": [\n    {\n      \"p1\": {\n        \"side\": \"left\",\n        \"port\": 1,\n        \"tag\": \"Player 1\",\n        \"sponsor\": null,\n        \"handle\": null,\n        \"character\": \"Falco\",\n        \"characterColor\": \"Blue\",\n        \"score\": 0,\n        \"countryCode\": null\n      },\n      \"p2\": {\n        \"side\": \"right\",\n        \"port\": 2,\n        \"tag\": \"Player 2\",\n        \"sponsor\": null,\n        \"handle\": null,\n        \"character\": \"Marth\",\n        \"characterColor\": \"Red\",\n        \"score\": 0,\n        \"countryCode\": null\n      },\n      \"meta\": {\n        \"tournament\": \"Melee Local\",\n        \"round\": \"WF\",\n        \"bestOf\": 5,\n        \"gameNumber\": 1,\n        \"stage\": null,\n        \"notes\": null\n      },\n      \"commentators\": []\n    }\n  ]\n}\n";
    let st = parse_all_doc(text).expect("external pretty file parses");
    assert_eq!(st.setups.len(), 1);
    assert_eq!(st.setups[0], default_setup());
}

#[test]
fn end_to_end_swap_persists_and_reloads() {
    let mut store = overlay_state::store::Store::new(load_state(None));
    let after = store.swap_sides(Some(2)).expect("slot 2 exists");
    // what the process would write to disk after the mutation
    let text = state_to_json(&after, true);
    let reloaded = load_state(Some(&text));
    assert_eq!(reloaded, after);
    let defaults = default_state();
    for i in [0usize, 1, 3] {
        assert_eq!(reloaded.setups[i], defaults.setups[i]);
    }
    assert_eq!(reloaded.setups[2].p1.tag, "Player 2");
    assert_eq!(reloaded.setups[2].p2.tag, "Player 1");
    assert_eq!(reloaded.setups[2].p1.side, "left");
    assert_eq!(reloaded.setups[2].p2.side, "right");
}
