use polly::intro::{
    edit_reply, intro_form, intro_message_content, label_to_id, welcome_text, Intro, IntroError,
    ABOUT_ME_MIN_LENGTH, FIELD_MAX_LENGTH, ID_ABOUT_ME, ID_POLYAMORY_EXPERIENCE, LABEL_ABOUT_ME,
    LABEL_POLYAMORY_EXPERIENCE, MODAL_ID,
};

fn pairs(items: &[(&str, &str)]) -> Vec<(String, String)> {
    items.iter().map(|(k, v)| (k.to_string(), v.to_string())).collect()
}

fn intro(a: &str, p: &str) -> Intro {
    Intro { about_me: a.to_string(), polyamory_experience: p.to_string() }
}

#[test]
fn constants_have_their_text() {
    assert_eq!(MODAL_ID, "onboarding_intro");
    assert_eq!(ID_ABOUT_ME, "about_me");
    assert_eq!(LABEL_POLYAMORY_EXPERIENCE, "Polyamory experience");
}

#[test]
fn from_fields_reads_both() {
    let r = Intro::from_fields(&pairs(&[("about_me", "hi"), ("polyamory_experience", "none")]));
    assert_eq!(r, Ok(intro("hi", "none")));
}

#[test]
fn from_fields_ignores_unknown_and_takes_last() {
    let r = Intro::from_fields(&pairs(&[
        ("polyamory_experience", "old"),
        ("other", "x"),
        ("about_me", "me"),
        ("polyamory_experience", "new"),
    ]));
    assert_eq!(r, Ok(intro("me", "new")));
}

#[test]
fn from_fields_missing_about_me() {
    let r = Intro::from_fields(&pairs(&[("polyamory_experience", "x")]));
    assert_eq!(r, Err(IntroError::MissingAboutMe));
    assert_eq!(Intro::from_fields(&[]), Err(IntroError::MissingAboutMe));
}

#[test]
fn from_fields_missing_polyamory_experience() {
    let r = Intro::from_fields(&pairs(&[("about_me", "x")]));
    assert_eq!(r, Err(IntroError::MissingPolyamoryExperience));
}

#[test]
fn labels_are_not_field_ids() {
    let r = Intro::from_fields(&pairs(&[("About me", "a"), ("Polyamory experience", "b")]));
    assert_eq!(r, Err(IntroError::MissingAboutMe));
}

#[test]
fn message_fields_round_trip() {
    let i = intro("I like tea and long walks. ✨", "Some, with\nnewlines");
    let fields = i.message_fields();
    assert_eq!(
        fields,
        pairs(&[
            ("About me", "I like tea and long walks. ✨"),
            ("Polyamory experience", "Some, with\nnewlines"),
        ])
    );
    assert_eq!(Intro::from_message_fields(&fields), Ok(i));
}

#[test]
fn round_trip_of_empty_texts() {
    let i = intro("", "");
    assert_eq!(Intro::from_message_fields(&i.message_fields()), Ok(i));
}

#[test]
fn message_fields_missing_label() {
    let r = Intro::from_message_fields(&pairs(&[("About me", "a")]));
    assert_eq!(r, Err(IntroError::MissingPolyamoryExperience));
}

#[test]
fn label_mapping() {
    assert_eq!(label_to_id(LABEL_ABOUT_ME), Some(ID_ABOUT_ME));
    assert_eq!(label_to_id("Polyamory experience"), Some(ID_POLYAMORY_EXPERIENCE));
    assert_eq!(label_to_id("about me"), None);
}

#[test]
fn form_is_prefilled_from_existing_intro() {
    let i = intro("about", "poly");
    let form = intro_form(Some(&i));
    assert_eq!(form.len(), 2);
    assert_eq!(form[0].id, "about_me");
    assert_eq!(form[0].min_length, Some(ABOUT_ME_MIN_LENGTH));
    assert_eq!(form[0].max_length, FIELD_MAX_LENGTH);
    assert_eq!(form[0].value.as_deref(), Some("about"));
    assert_eq!(form[1].id, "polyamory_experience");
    assert_eq!(form[1].min_length, None);
    assert_eq!(form[1].value.as_deref(), Some("poly"));
}

#[test]
fn form_without_intro_is_empty() {
    let form = intro_form(None);
    assert!(form[0].value.is_none());
    assert!(form[1].value.is_none());
    assert_eq!(ABOUT_ME_MIN_LENGTH, 50);
    assert_eq!(FIELD_MAX_LENGTH, 1000);
}

#[test]
fn message_texts() {
    assert_eq!(intro_message_content("<@42>"), "Introduction: <@42>");
    assert_eq!(edit_reply("https://x/1"), "Introduction updated https://x/1");
    assert_eq!(
        welcome_text("Polyam", "<@7>"),
        "Welcome to Polyam, <@7>! Please introduce yourself before you can start chatting.\n\n\
        **Rules**\n\
        1. **DM = BAN**. This server is not for dating or hookups.\n\
        2. You must be at least 18 years old.\n\
        3. Always follow the Code of Conduct, available at https://polyam.eu/coc.html.\n\
        4. Speak English in the common channels."
    );
}
