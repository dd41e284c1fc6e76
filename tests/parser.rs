use token_vesting::parser::{
    find_and_parse, parse, Contact, SecurityTxtError, SECURITY_TXT_BEGIN, SECURITY_TXT_END,
};

fn sheet(fields: &[(&[u8], &[u8])]) -> Vec<u8> {
    let mut d = SECURITY_TXT_BEGIN.as_bytes().to_vec();
    for (k, v) in fields {
        d.extend_from_slice(k);
        d.push(0);
        d.extend_from_slice(v);
        d.push(0);
    }
    d.extend_from_slice(SECURITY_TXT_END.as_bytes());
    d
}

fn minimal() -> Vec<(&'static [u8], &'static [u8])> {
    vec![
        (b"name", b"Example"),
        (b"project_url", b"https://example.com"),
        (b"contacts", b"email:sec@example.com, discord: ex#1"),
        (b"policy", b"Be kind"),
    ]
}

#[test]
fn parses_a_minimal_sheet() {
    let t = parse(&sheet(&minimal())).unwrap();
    assert_eq!(t.name, "Example");
    assert_eq!(t.project_url, "https://example.com");
    assert_eq!(t.policy, "Be kind");
    assert_eq!(
        t.contacts,
        vec![
            Contact::Email("sec@example.com".to_string()),
            Contact::Discord("ex#1".to_string())
        ]
    );
    assert_eq!(t.preferred_languages, vec!["".to_string()]);
    assert_eq!(t.auditors, vec!["".to_string()]);
    assert_eq!(t.source_code, None);
    assert_eq!(t.expiry, None);
}

#[test]
fn parses_every_field() {
    let mut f = minimal();
    f.push((b"preferred_languages", b"en, de ,fr"));
    f.push((b"source_code", b"https://git"));
    f.push((b"source_release", b"v1"));
    f.push((b"source_revision", b"abc"));
    f.push((b"encryption", b"KEY"));
    f.push((b"auditors", b"A, B"));
    f.push((b"acknowledgements", b"thanks"));
    f.push((b"expiry", b"2030-01-01"));
    let t = parse(&sheet(&f)).unwrap();
    assert_eq!(t.preferred_languages, vec!["en", "de", "fr"]);
    assert_eq!(t.auditors, vec!["A", "B"]);
    assert_eq!(t.source_code.as_deref(), Some("https://git"));
    assert_eq!(t.source_release.as_deref(), Some("v1"));
    assert_eq!(t.source_revision.as_deref(), Some("abc"));
    assert_eq!(t.encryption.as_deref(), Some("KEY"));
    assert_eq!(t.acknowledgements.as_deref(), Some("thanks"));
    assert_eq!(t.expiry.as_deref(), Some("2030-01-01"));
}

#[test]
fn finds_a_sheet_inside_other_bytes() {
    let mut d = vec![1u8, 2, 3, 0, 255];
    d.extend_from_slice(&sheet(&minimal()));
    d.extend_from_slice(b"trailing");
    let t = find_and_parse(&d).unwrap();
    assert_eq!(t.name, "Example");
    assert_eq!(
        find_and_parse(b"no sheet here").unwrap_err(),
        SecurityTxtError::StartNotFound
    );
}

#[test]
fn marker_errors() {
    assert_eq!(
        parse(b"hello").unwrap_err(),
        SecurityTxtError::InvalidSecurityTxtBegin
    );
    let mut d = sheet(&minimal());
    d.truncate(d.len() - 3);
    assert_eq!(parse(&d).unwrap_err(), SecurityTxtError::EndNotFound);
}

#[test]
fn field_errors() {
    let mut f = minimal();
    f.push((b"name", b"Again"));
    assert_eq!(
        parse(&sheet(&f)).unwrap_err(),
        SecurityTxtError::DuplicateField("name".to_string())
    );

    let mut f = minimal();
    f.push((b"colour", b"blue"));
    f.push((b"size", b"big"));
    assert_eq!(
        parse(&sheet(&f)).unwrap_err(),
        SecurityTxtError::UnknownField("colour".to_string())
    );

    let mut f = minimal();
    f.push((&[0xff, 0xfe], b"x"));
    assert_eq!(
        parse(&sheet(&f)).unwrap_err(),
        SecurityTxtError::InvalidField(vec![0xff, 0xfe])
    );

    let mut f = minimal();
    f.push((b"expiry", &[0xc3]));
    assert_eq!(
        parse(&sheet(&f)).unwrap_err(),
        SecurityTxtError::InvalidValue(vec![0xc3], "expiry".to_string())
    );
}

#[test]
fn missing_and_bad_fields() {
    for (skip, missing) in [(0, "name"), (1, "project_url"), (2, "contacts"), (3, "policy")] {
        let f: Vec<_> = minimal()
            .into_iter()
            .enumerate()
            .filter(|(i, _)| *i != skip)
            .map(|(_, p)| p)
            .collect();
        assert_eq!(
            parse(&sheet(&f)).unwrap_err(),
            SecurityTxtError::MissingField(missing.to_string())
        );
    }
    let mut f = minimal();
    f[2] = (b"contacts", b"email: a, pager: 123");
    assert_eq!(
        parse(&sheet(&f)).unwrap_err(),
        SecurityTxtError::InvalidContact("pager: 123".to_string())
    );
}

#[test]
fn contact_from_str() {
    assert_eq!(
        Contact::from_str("Email: a@b.c").unwrap(),
        Contact::Email("a@b.c".to_string())
    );
    assert_eq!(
        Contact::from_str("  LINK :https://x:8080/ ").unwrap(),
        Contact::Link("https://x:8080/".to_string())
    );
    assert_eq!(
        Contact::from_str("telegram:@t").unwrap(),
        Contact::Telegram("@t".to_string())
    );
    assert_eq!(
        Contact::from_str("TwItTeR: @w").unwrap(),
        Contact::Twitter("@w".to_string())
    );
    assert_eq!(
        Contact::from_str("other:\u{3000}x\u{2003}").unwrap(),
        Contact::Other("x".to_string())
    );
    assert_eq!(
        Contact::from_str("no colon").unwrap_err(),
        SecurityTxtError::InvalidContact("no colon".to_string())
    );
    assert_eq!(
        Contact::from_str("fax: 1").unwrap_err(),
        SecurityTxtError::InvalidContact("fax: 1".to_string())
    );
}

#[test]
fn renders_text() {
    assert_eq!(
        Contact::Discord("d#1".to_string()).to_text(),
        "Discord: d#1"
    );
    let mut f = minimal();
    f.push((b"auditors", b"A"));
    f.push((b"expiry", b"soon"));
    let t = parse(&sheet(&f)).unwrap();
    assert_eq!(
        t.to_text(),
        "Name: Example\nProject URL: https://example.com\n\nContacts:\n  Email: sec@example.com\n  Discord: ex#1\n\nPolicy:\nBe kind\n\nPreferred Languages:\n  \n\nAuditors:\n  A\nExpires at: soon\n"
    );
}

#[test]
fn trimming_agrees_with_std_white_space() {
    for v in 0u32..0x3100 {
        if let Some(c) = char::from_u32(v) {
            if c == ':' || c == ',' {
                continue;
            }
            let text = format!("email:{}x{}", c, c);
            let got = Contact::from_str(&text).unwrap();
            let expected = if c.is_whitespace() {
                "x".to_string()
            } else {
                format!("{}x{}", c, c)
            };
            assert_eq!(got, Contact::Email(expected), "code point {:#x}", v);
        }
    }
}
