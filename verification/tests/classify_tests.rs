use mdns_repeater::classify::{classify, dedup_names};

fn s(x: &str) -> String {
    String::from(x)
}

fn name(x: &str) -> simple_dns::Name<'_> {
    simple_dns::Name::new_unchecked(x)
}

#[test]
fn classify_extracts_question_and_answer_names() {
    let mut p = simple_dns::Packet::new_query(7);
    p.questions.push(simple_dns::Question::new(
        name("_http._tcp.local"),
        simple_dns::TYPE::PTR.into(),
        simple_dns::CLASS::IN.into(),
        false,
    ));
    p.answers.push(simple_dns::ResourceRecord::new(
        name("printer.local"),
        simple_dns::CLASS::IN,
        120,
        simple_dns::rdata::RData::A(simple_dns::rdata::A { address: 0xC0A80105 }),
    ));
    let data = p.build_bytes_vec().unwrap();
    let cp = classify(&data).expect("a well-formed DNS message classifies");
    assert_eq!(cp.questions, vec![s("_http._tcp.local")]);
    assert_eq!(cp.answers, vec![s("printer.local")]);
}

#[test]
fn classify_deduplicates_names() {
    let mut p = simple_dns::Packet::new_query(7);
    for _ in 0..3 {
        p.questions.push(simple_dns::Question::new(
            name("_http._tcp.local"),
            simple_dns::TYPE::PTR.into(),
            simple_dns::CLASS::IN.into(),
            false,
        ));
    }
    p.questions.push(simple_dns::Question::new(
        name("_ipp._tcp.local"),
        simple_dns::TYPE::PTR.into(),
        simple_dns::CLASS::IN.into(),
        false,
    ));
    let data = p.build_bytes_vec().unwrap();
    let cp = classify(&data).expect("a well-formed DNS message classifies");
    assert_eq!(cp.questions, vec![s("_http._tcp.local"), s("_ipp._tcp.local")]);
    assert!(cp.answers.is_empty());
}

#[test]
fn classify_rejects_malformed_buffers() {
    assert!(classify(&[0xFFu8, 0x01, 0x02]).is_none());
    assert!(classify(&[]).is_none());
}

#[test]
fn classify_accepts_empty_message() {
    let p = simple_dns::Packet::new_query(1);
    let data = p.build_bytes_vec().unwrap();
    let cp = classify(&data).expect("an empty DNS query still classifies");
    assert!(cp.questions.is_empty());
    assert!(cp.answers.is_empty());
}

#[test]
fn dedup_keeps_first_occurrences_in_order() {
    let input = vec![s("b"), s("a"), s("b"), s("c"), s("a")];
    let out = dedup_names(&input);
    assert_eq!(out, vec![s("b"), s("a"), s("c")]);
}

#[test]
fn dedup_of_distinct_names_is_identity() {
    let input = vec![s("x"), s("y")];
    let out = dedup_names(&input);
    assert_eq!(out, input);
}
