use abbs::Callsign;

#[test]
fn callsigns_are_normalized_and_validated() {
    assert_eq!(Callsign::parse(" m0abc-7 ").unwrap().as_str(), "M0ABC-7");
    assert_eq!(Callsign::parse("m0abc-7").unwrap().base(), "M0ABC");
    assert_eq!(Callsign::parse("m0abc").unwrap().base(), "M0ABC");
    assert_eq!(
        Callsign::parse("m0abc-7")
            .unwrap()
            .with_ssid(2)
            .unwrap()
            .as_str(),
        "M0ABC-2"
    );
    assert!(Callsign::parse("m0abc").unwrap().with_ssid(16).is_err());
    assert!(Callsign::parse("").is_err());
    assert!(Callsign::parse("M0 ABC").is_err());
    assert!(Callsign::parse("TOO-LONG-11").is_err());
}

#[test]
fn refusals_have_reasons() {
    let reason = |text: &str| Callsign::parse(text).unwrap_err().message();
    assert_eq!(reason(" \t"), "callsign cannot be empty");
    assert!(reason("M0 ABC").starts_with("invalid callsign: "));
    assert!(reason("TOO-LONG-11").starts_with("invalid callsign: "));
    assert!(reason("M0ABCDEFGH").starts_with("invalid callsign: "));
    assert_eq!(
        reason("M0\0"),
        "invalid callsign: only letters, digits and hyphens are allowed"
    );
    assert_eq!(
        Callsign::parse("M0ABC")
            .unwrap()
            .with_ssid(16)
            .unwrap_err()
            .message(),
        "SSID must be between 0 and 15"
    );
    assert!(Callsign::parse("M0REMOTE").unwrap().with_ssid(1).is_err());
}

#[test]
fn normalized_callsigns_are_fixed() {
    for text in ["m0abc", " M0ABC-15\t", "a", "-", "m0-abc-de", "123456789"] {
        let callsign = Callsign::parse(text).unwrap();
        assert_eq!(Callsign::parse(callsign.as_str()).unwrap(), callsign);
        assert_eq!(text.parse::<Callsign>().unwrap(), callsign.clone());
        assert!(!callsign.base().contains('-'));
        assert_eq!(
            callsign.to_agw_call().unwrap().to_string(),
            callsign.as_str()
        );
    }
    assert_eq!(Callsign::parse("m0-abc-de").unwrap().base(), "M0");
    for ssid in 0..=15 {
        let callsign = Callsign::parse("m0abc-7").unwrap().with_ssid(ssid).unwrap();
        assert_eq!(callsign.as_str(), format!("M0ABC-{ssid}"));
        assert_eq!(callsign.base(), "M0ABC");
    }
}
