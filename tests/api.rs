use mcapi::api::{
    check_status, get_id_at, get_skin_data, get_username_history, name_changes, skin_model,
    username_or_id, ApiError, Profile, ProfileProperty, SkinData, SkinError, SkinMetadata,
    UserProfile, UsernameHistoryEntry,
};

fn entry(name: &str, at: Option<i64>) -> UsernameHistoryEntry {
    UsernameHistoryEntry { name: name.to_string(), changed_to_at: at }
}

#[test]
fn status_200_is_success() {
    assert!(check_status(200, "OK".to_string()).is_ok());
}

#[test]
fn other_status_keeps_code_and_reason() {
    for (code, reason) in [(204, "No Content"), (404, "Not Found"), (500, "Server Error")] {
        match check_status(code, reason.to_string()) {
            Err(ApiError::Request { status, reason: r }) => {
                assert_eq!(status, code);
                assert_eq!(r, reason);
            }
            other => panic!("unexpected {:?}", other),
        }
    }
}

#[test]
fn id_is_taken_from_profile() {
    let p = UserProfile { name: "Notch".to_string(), id: "069a79f4".to_string() };
    assert_eq!(get_id_at(Ok(p)).unwrap(), "069a79f4");
    assert!(matches!(get_id_at(Err(ApiError::Fetch("down".to_string()))), Err(ApiError::Fetch(_))));
}

#[test]
fn fallback_to_the_given_name() {
    assert_eq!(username_or_id(Ok("abc123".to_string()), "Notch"), "abc123");
    assert_eq!(username_or_id(Err(ApiError::Parse("x".to_string())), "Notch"), "Notch");
}

#[test]
fn single_entry_history_has_no_changes() {
    let h = get_username_history(Ok(vec![entry("first", None)])).unwrap();
    assert_eq!(name_changes(&h).len(), 0);
}

#[test]
fn history_changes_in_order() {
    let h = get_username_history(Ok(vec![
        entry("a", None),
        entry("b", Some(1000)),
        entry("c", Some(2000)),
    ]))
    .unwrap();
    let c = name_changes(&h);
    assert_eq!(c.len(), 2);
    assert_eq!((c[0].from.as_str(), c[0].to.as_str(), c[0].at), ("a", "b", 1000));
    assert_eq!((c[1].from.as_str(), c[1].to.as_str(), c[1].at), ("b", "c", 2000));
}

#[test]
fn malformed_history_is_a_parse_error() {
    assert!(matches!(get_username_history(Ok(vec![])), Err(ApiError::Parse(_))));
    assert!(matches!(
        get_username_history(Ok(vec![entry("a", Some(5))])),
        Err(ApiError::Parse(_))
    ));
    assert!(matches!(
        get_username_history(Ok(vec![entry("a", None), entry("b", None)])),
        Err(ApiError::Parse(_))
    ));
    assert!(matches!(
        get_username_history(Err(ApiError::Request { status: 404, reason: "Not Found".to_string() })),
        Err(ApiError::Request { status: 404, .. })
    ));
}

#[test]
fn texture_value_is_decoded() {
    let p = ProfileProperty { name: "textures".to_string(), value: "eyJhIjoxfQ==".to_string() };
    assert_eq!(p.textures().unwrap(), b"{\"a\":1}".to_vec());
}

#[test]
fn malformed_base64_is_a_decoding_error() {
    for bad in ["not base64!", "eyJh$IjoxfQ==", "@@@@"] {
        let p = ProfileProperty { name: "textures".to_string(), value: bad.to_string() };
        assert!(matches!(p.textures(), Err(SkinError::Decoding(_))));
    }
}

#[test]
fn skin_data_comes_from_first_property() {
    let profile = Profile {
        id: "id".to_string(),
        name: "n".to_string(),
        properties: vec![
            ProfileProperty { name: "textures".to_string(), value: "e30=".to_string() },
            ProfileProperty { name: "other".to_string(), value: "!!".to_string() },
        ],
    };
    assert_eq!(get_skin_data(&profile).unwrap(), b"{}".to_vec());
}

#[test]
fn skin_model_defaults_to_classic() {
    let plain = SkinData { url: "u".to_string(), metadata: None };
    assert_eq!(skin_model(&plain), "classic");
    let slim = SkinData {
        url: "u".to_string(),
        metadata: Some(SkinMetadata { model: "slim".to_string() }),
    };
    assert_eq!(skin_model(&slim), "slim");
}

#[test]
fn history_out_of_time_order_is_a_parse_error() {
    assert!(matches!(
        get_username_history(Ok(vec![entry("a", None), entry("b", Some(5)), entry("c", Some(3))])),
        Err(ApiError::Parse(_))
    ));
    let same_time = vec![entry("a", None), entry("b", Some(5)), entry("c", Some(5))];
    assert_eq!(get_username_history(Ok(same_time)).unwrap().len(), 3);
}
