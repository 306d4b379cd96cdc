//! A member's introduction: its two text fields, read from a submitted form
//! or back from the fields of a published message.

use vstd::prelude::*;
use vstd::string::StringExecFns;
use crate::text::{push_text, same_text};

verus! {

/// Custom id of the introduction form and of the button that opens it.
pub const MODAL_ID: &'static str = "onboarding_intro";

/// Form field ids.
pub const ID_ABOUT_ME: &'static str = "about_me";
pub const ID_POLYAMORY_EXPERIENCE: &'static str = "polyamory_experience";

/// Labels of the form, of its fields, and of the published message's fields.
pub const LABEL_INTRODUCE_YOURSELF: &'static str = "Introduce yourself";
pub const LABEL_ABOUT_ME: &'static str = "About me";
pub const LABEL_POLYAMORY_EXPERIENCE: &'static str = "Polyamory experience";

/// What a member wrote about themselves.
#[derive(Clone, Debug, PartialEq, Eq)]
pub struct Intro {
    pub about_me: String,
    pub polyamory_experience: String,
}

/// A field that an introduction needs was not among the given fields.
#[derive(Clone, Copy, Debug, PartialEq, Eq, Structural)]
pub enum IntroError {
    MissingAboutMe,
    MissingPolyamoryExperience,
}

/// The value of the last field named `key`, if any.
pub open spec fn last_value(fields: Seq<(String, String)>, key: Seq<char>) -> Option<Seq<char>>
    decreases fields.len(),
{
    if fields.len() == 0 {
        None
    } else if fields.last().0@ == key {
        Some(fields.last().1@)
    } else {
        last_value(fields.drop_last(), key)
    }
}

/// `r` is the introduction made of the values `about` and `poly`, or, where
/// one is absent, the error that names the first absent one.
pub open spec fn intro_from(
    r: Result<Intro, IntroError>,
    about: Option<Seq<char>>,
    poly: Option<Seq<char>>,
) -> bool {
    match r {
        Ok(intro) => about == Some(intro.about_me@) && poly == Some(intro.polyamory_experience@),
        Err(e) => {
            ||| (about is None && e == IntroError::MissingAboutMe)
            ||| (about is Some && poly is None && e == IntroError::MissingPolyamoryExperience)
        },
    }
}

/// `fields` are the message fields that show `intro`: its two values under
/// their labels.
pub open spec fn shows(fields: Seq<(String, String)>, intro: Intro) -> bool {
    &&& fields.len() == 2
    &&& fields[0].0@ == LABEL_ABOUT_ME@
    &&& fields[0].1@ == intro.about_me@
    &&& fields[1].0@ == LABEL_POLYAMORY_EXPERIENCE@
    &&& fields[1].1@ == intro.polyamory_experience@
}

fn string_of(s: &str) -> (r: String)
    ensures
        r@ == s@,
{
    String::from_str(s)
}

/// Reads an introduction from `(key, value)` fields: the last value under
/// `about_key` and the last one under `poly_key`; other fields are ignored.
fn read_fields(fields: &[(String, String)], about_key: &str, poly_key: &str) -> (r: Result<
    Intro,
    IntroError,
>)
    requires
        about_key@ != poly_key@,
    ensures
        intro_from(r, last_value(fields@, about_key@), last_value(fields@, poly_key@)),
{
    let mut about: Option<String> = None;
    let mut poly: Option<String> = None;
    let mut i: usize = 0;
    while i < fields.len()
        invariant
            i <= fields@.len(),
            about_key@ != poly_key@,
            match about {
                Some(a) => last_value(fields@.subrange(0, i as int), about_key@) == Some(a@),
                None => last_value(fields@.subrange(0, i as int), about_key@) is None,
            },
            match poly {
                Some(p) => last_value(fields@.subrange(0, i as int), poly_key@) == Some(p@),
                None => last_value(fields@.subrange(0, i as int), poly_key@) is None,
            },
        decreases fields@.len() - i,
    {
        let ghost prev = fields@.subrange(0, i as int);
        let (key, value) = &fields[i];
        if same_text(key.as_str(), about_key) {
            about = Some(value.clone());
        } else if same_text(key.as_str(), poly_key) {
            poly = Some(value.clone());
        }
        i = i + 1;
        let ghost cur = fields@.subrange(0, i as int);
        assert(cur.drop_last() =~= prev);
        assert(cur.last() == fields@[i - 1]);
    }
    assert(fields@.subrange(0, fields@.len() as int) =~= fields@);
    match about {
        None => Err(IntroError::MissingAboutMe),
        Some(about_me) => match poly {
            None => Err(IntroError::MissingPolyamoryExperience),
            Some(polyamory_experience) => Ok(Intro { about_me, polyamory_experience }),
        },
    }
}

/// The field id that a message field label stands for.
pub fn label_to_id(label: &str) -> (r: Option<&'static str>)
    ensures
        label@ == LABEL_ABOUT_ME@ ==> r == Some(ID_ABOUT_ME),
        label@ != LABEL_ABOUT_ME@ && label@ == LABEL_POLYAMORY_EXPERIENCE@ ==> r == Some(
            ID_POLYAMORY_EXPERIENCE,
        ),
        label@ != LABEL_ABOUT_ME@ && label@ != LABEL_POLYAMORY_EXPERIENCE@ ==> r is None,
{
    if same_text(label, LABEL_ABOUT_ME) {
        Some(ID_ABOUT_ME)
    } else if same_text(label, LABEL_POLYAMORY_EXPERIENCE) {
        Some(ID_POLYAMORY_EXPERIENCE)
    } else {
        None
    }
}

impl Intro {
    /// Reads an introduction from submitted form fields, as `(field id,
    /// value)` pairs. Where an id repeats, its last value counts.
    pub fn from_fields(fields: &[(String, String)]) -> (r: Result<Intro, IntroError>)
        ensures
            intro_from(
                r,
                last_value(fields@, ID_ABOUT_ME@),
                last_value(fields@, ID_POLYAMORY_EXPERIENCE@),
            ),
    {
        proof {
            reveal_strlit("about_me");
            reveal_strlit("polyamory_experience");
            assert(ID_ABOUT_ME@[0] != ID_POLYAMORY_EXPERIENCE@[0]);
        }
        read_fields(fields, ID_ABOUT_ME, ID_POLYAMORY_EXPERIENCE)
    }

    /// Reads an introduction back from the fields of a published message,
    /// as `(label, value)` pairs. Where a label repeats, its last value counts.
    pub fn from_message_fields(fields: &[(String, String)]) -> (r: Result<Intro, IntroError>)
        ensures
            intro_from(
                r,
                last_value(fields@, LABEL_ABOUT_ME@),
                last_value(fields@, LABEL_POLYAMORY_EXPERIENCE@),
            ),
    {
        proof {
            lemma_labels_differ();
        }
        read_fields(fields, LABEL_ABOUT_ME, LABEL_POLYAMORY_EXPERIENCE)
    }

    /// The `(label, value)` fields of the message that shows this introduction.
    pub fn message_fields(&self) -> (r: Vec<(String, String)>)
        ensures
            shows(r@, *self),
    {
        let mut fields: Vec<(String, String)> = Vec::new();
        fields.push((string_of(LABEL_ABOUT_ME), self.about_me.clone()));
        fields.push((string_of(LABEL_POLYAMORY_EXPERIENCE), self.polyamory_experience.clone()));
        fields
    }
}

/// A text field of the introduction form.
#[derive(Clone, Debug)]
pub struct FormField {
    pub id: &'static str,
    pub label: &'static str,
    pub placeholder: &'static str,
    pub min_length: Option<u16>,
    pub max_length: u16,
    /// The text the field opens with.
    pub value: Option<String>,
}

pub const PLACEHOLDER_ABOUT_ME: &'static str = "I like long walks on the beach... 🏖";
pub const PLACEHOLDER_POLYAMORY_EXPERIENCE: &'static str = "It's okay if you have none 💕";

/// Both fields are required and hold at most this many characters.
pub const FIELD_MAX_LENGTH: u16 = 1000;

/// The about-me field needs at least this many characters.
pub const ABOUT_ME_MIN_LENGTH: u16 = 50;

/// `v` is the opening text of a field whose value in the existing
/// introduction, if there is one, is `existing`.
pub open spec fn prefilled(v: Option<String>, existing: Option<Seq<char>>) -> bool {
    match existing {
        Some(e) => v is Some && v->0@ == e,
        None => v is None,
    }
}

/// The two fields of the introduction form, filled in with the existing
/// introduction where there is one.
pub fn intro_form(existing: Option<&Intro>) -> (r: Vec<FormField>)
    ensures
        r@.len() == 2,
        r@[0].id == ID_ABOUT_ME && r@[0].label == LABEL_ABOUT_ME,
        r@[0].placeholder == PLACEHOLDER_ABOUT_ME,
        r@[0].min_length == Some(ABOUT_ME_MIN_LENGTH) && r@[0].max_length == FIELD_MAX_LENGTH,
        prefilled(
            r@[0].value,
            match existing {
                Some(i) => Some(i.about_me@),
                None => None,
            },
        ),
        r@[1].id == ID_POLYAMORY_EXPERIENCE && r@[1].label == LABEL_POLYAMORY_EXPERIENCE,
        r@[1].placeholder == PLACEHOLDER_POLYAMORY_EXPERIENCE,
        r@[1].min_length is None && r@[1].max_length == FIELD_MAX_LENGTH,
        prefilled(
            r@[1].value,
            match existing {
                Some(i) => Some(i.polyamory_experience@),
                None => None,
            },
        ),
{
    let (about, poly) = match existing {
        Some(i) => (Some(i.about_me.clone()), Some(i.polyamory_experience.clone())),
        None => (None, None),
    };
    let mut fields: Vec<FormField> = Vec::new();
    fields.push(
        FormField {
            id: ID_ABOUT_ME,
            label: LABEL_ABOUT_ME,
            placeholder: PLACEHOLDER_ABOUT_ME,
            min_length: Some(ABOUT_ME_MIN_LENGTH),
            max_length: FIELD_MAX_LENGTH,
            value: about,
        },
    );
    fields.push(
        FormField {
            id: ID_POLYAMORY_EXPERIENCE,
            label: LABEL_POLYAMORY_EXPERIENCE,
            placeholder: PLACEHOLDER_POLYAMORY_EXPERIENCE,
            min_length: None,
            max_length: FIELD_MAX_LENGTH,
            value: poly,
        },
    );
    fields
}

/// The text above a published introduction: "Introduction: " and the
/// member's mention.
pub fn intro_message_content(mention: &str) -> (r: String)
    ensures
        r@ == "Introduction: "@ + mention@,
{
    let mut s = string_of("Introduction: ");
    push_text(&mut s, mention);
    s
}

/// Where the welcome message goes on after the guild's name and the
/// member's mention.
pub const WELCOME_RULES: &'static str = "! Please introduce yourself before you can start chatting.\n\n**Rules**\n1. **DM = BAN**. This server is not for dating or hookups.\n2. You must be at least 18 years old.\n3. Always follow the Code of Conduct, available at https://polyam.eu/coc.html.\n4. Speak English in the common channels.";

/// The welcome message posted for a quarantined member.
pub fn welcome_text(guild_name: &str, mention: &str) -> (r: String)
    ensures
        r@ == "Welcome to "@ + guild_name@ + ", "@ + mention@ + WELCOME_RULES@,
{
    let mut s = string_of("Welcome to ");
    push_text(&mut s, guild_name);
    push_text(&mut s, ", ");
    push_text(&mut s, mention);
    push_text(&mut s, WELCOME_RULES);
    s
}

/// The private reply to a member who submitted their introduction from the
/// quarantine channel.
pub const QUARANTINE_ACK: &'static str = "Thanks for submitting your introduction. In the next few seconds, you'll get access to the rest of the server.";

/// The reply to a member who edited their introduction, with its link.
pub fn edit_reply(message_url: &str) -> (r: String)
    ensures
        r@ == "Introduction updated "@ + message_url@,
{
    let mut s = string_of("Introduction updated ");
    push_text(&mut s, message_url);
    s
}

/// Reading an introduction back from the fields of the message that shows it
/// gives the same introduction.
pub proof fn lemma_message_fields_round_trip(
    intro: Intro,
    fields: Seq<(String, String)>,
    r: Result<Intro, IntroError>,
)
    requires
        shows(fields, intro),
        intro_from(
            r,
            last_value(fields, LABEL_ABOUT_ME@),
            last_value(fields, LABEL_POLYAMORY_EXPERIENCE@),
        ),
    ensures
        r is Ok,
        r->Ok_0.about_me@ == intro.about_me@,
        r->Ok_0.polyamory_experience@ == intro.polyamory_experience@,
{
    lemma_labels_differ();
    let first = fields.drop_last();
    assert(first.last() == fields[0]);
    assert(last_value(fields, LABEL_ABOUT_ME@) == last_value(first, LABEL_ABOUT_ME@));
    assert(last_value(first, LABEL_ABOUT_ME@) == Some(intro.about_me@));
    assert(last_value(fields, LABEL_POLYAMORY_EXPERIENCE@) == Some(intro.polyamory_experience@));
}

proof fn lemma_labels_differ()
    ensures
        LABEL_ABOUT_ME@ != LABEL_POLYAMORY_EXPERIENCE@,
{
    reveal_strlit("About me");
    reveal_strlit("Polyamory experience");
    assert(LABEL_ABOUT_ME@[0] != LABEL_POLYAMORY_EXPERIENCE@[0]);
}

} // verus!
