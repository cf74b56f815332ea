use vstd::prelude::*;
use vstd::string::StringExecFns;

verus! {

/// The account that a name belonged to at a given time.
#[derive(Debug, Clone)]
pub struct UserProfile {
    pub name: String,
    pub id: String,
}

/// One name of an account, with the time (milliseconds since the epoch) it was taken on;
/// the original name has no time.
#[derive(Debug, Clone)]
pub struct UsernameHistoryEntry {
    pub name: String,
    pub changed_to_at: Option<i64>,
}

/// An account with its properties; the first property carries the texture payload.
#[derive(Debug, Clone)]
pub struct Profile {
    pub id: String,
    pub name: String,
    pub properties: Vec<ProfileProperty>,
}

/// A named property of an account whose value is base64 text.
#[derive(Debug, Clone)]
pub struct ProfileProperty {
    pub name: String,
    pub value: String,
}

/// The decoded texture document of an account.
#[derive(Debug, Clone)]
pub struct TexturesEntry {
    pub timestamp: i64,
    pub profile_id: String,
    pub profile_name: String,
    pub textures: Textures,
}

/// The skin of an account, and its cape if it has one.
#[derive(Debug, Clone)]
pub struct Textures {
    pub skin: SkinData,
    pub cape: Option<CapeData>,
}

/// Where a skin is found, and its model where one is given.
#[derive(Debug, Clone)]
pub struct SkinData {
    pub url: String,
    pub metadata: Option<SkinMetadata>,
}

/// Where a cape is found.
#[derive(Debug, Clone)]
pub struct CapeData {
    pub url: String,
}

/// The model of a skin.
#[derive(Debug, Clone)]
pub struct SkinMetadata {
    pub model: String,
}

/// One change of name: from which name, to which, and when.
#[derive(Debug, Clone)]
pub struct NameChange {
    pub from: String,
    pub to: String,
    pub at: i64,
}

#[verifier::external_type_specification]
#[verifier::external_body]
pub struct ExDecodeError(base64::DecodeError);

/// Why reading the texture payload of a property failed.
#[derive(Debug)]
pub enum SkinError {
    /// The property value is not valid base64.
    Decoding(base64::DecodeError),
    /// The decoded bytes are not a texture document.
    Reader(String),
}

/// Why a request to the account service failed.
#[derive(Debug)]
pub enum ApiError {
    /// The service answered with a status other than 200.
    Request { status: i32, reason: String },
    /// No answer came: the connection failed.
    Fetch(String),
    /// The answer does not have the expected shape.
    Parse(String),
    /// The texture payload could not be read.
    Skin(SkinError),
}

/// What standard base64 decoding makes of a text: its bytes, or none where the text is not
/// valid base64.
pub uninterp spec fn base64_decoded(s: Seq<char>) -> Option<Seq<u8>>;

/// Relies on `base64::decode` (standard alphabet; padding is not required): the bytes the
/// text encodes, or an error where it is not valid base64.
#[verifier::external_body]
fn decode_base64(s: &str) -> (r: Result<Vec<u8>, base64::DecodeError>)
    ensures
        match r {
            Ok(v) => base64_decoded(s@) == Some(v@),
            Err(_) => base64_decoded(s@) is None,
        },
{
    base64::decode(s)
}

/// Whether `r` is what decoding the base64 text `value` gives.
pub open spec fn decodes_to(value: Seq<char>, r: Result<Vec<u8>, SkinError>) -> bool {
    match r {
        Ok(v) => base64_decoded(value) == Some(v@),
        Err(e) => base64_decoded(value) is None && e is Decoding,
    }
}

impl ProfileProperty {
    /// The bytes of the texture document that the value holds in base64; malformed base64
    /// gives `SkinError::Decoding`.
    pub fn textures(&self) -> (r: Result<Vec<u8>, SkinError>)
        ensures
            decodes_to(self.value@, r),
    {
        match decode_base64(self.value.as_str()) {
            Ok(v) => Ok(v),
            Err(e) => Err(SkinError::Decoding(e)),
        }
    }
}

/// The bytes of the texture document of an account: the payload of its first property.
pub fn get_skin_data(profile: &Profile) -> (r: Result<Vec<u8>, SkinError>)
    requires
        profile.properties.len() > 0,
    ensures
        decodes_to(profile.properties@[0].value@, r),
{
    profile.properties[0].textures()
}

/// The outcome of a request from its status: success for 200, else the status and the
/// reason phrase the service gave.
pub fn check_status(status_code: i32, reason_phrase: String) -> (r: Result<(), ApiError>)
    ensures
        status_code == 200 <==> r is Ok,
        match r {
            Ok(_) => true,
            Err(ApiError::Request { status, reason }) => status == status_code && reason@
                == reason_phrase@,
            Err(_) => false,
        },
{
    if status_code == 200 {
        Ok(())
    } else {
        Err(ApiError::Request { status: status_code, reason: reason_phrase })
    }
}

/// The account identifier out of the answer to a name lookup.
pub fn get_id_at(fetched: Result<UserProfile, ApiError>) -> (r: Result<String, ApiError>)
    ensures
        match fetched {
            Ok(p) => r == Ok::<String, ApiError>(p.id),
            Err(e) => r == Err::<String, ApiError>(e),
        },
{
    match fetched {
        Ok(p) => Ok(p.id),
        Err(e) => Err(e),
    }
}

/// The identifier where the lookup found one, else the name as given.
pub fn username_or_id(resolved: Result<String, ApiError>, idname: &str) -> (r: String)
    ensures
        match resolved {
            Ok(id) => r@ == id@,
            Err(_) => r@ == idname@,
        },
{
    match resolved {
        Ok(id) => id,
        Err(_) => String::from_str(idname),
    }
}

/// The time of a name change, in milliseconds since the epoch; an entry without one counts
/// as zero.
pub open spec fn change_time(e: UsernameHistoryEntry) -> int {
    match e.changed_to_at {
        Some(t) => t as int,
        None => 0,
    }
}

/// A name history as the service must give it: at least one entry, the first without a time,
/// every later one with its time, and the times oldest first (each at most the next).
pub open spec fn history_wf(h: Seq<UsernameHistoryEntry>) -> bool {
    &&& h.len() >= 1
    &&& h[0].changed_to_at is None
    &&& forall|i: int| 1 <= i < h.len() ==> (#[trigger] h[i]).changed_to_at is Some
    &&& forall|i: int| 1 <= i < h.len() - 1 ==> change_time(#[trigger] h[i]) <= change_time(h[i + 1])
}

fn is_history_wf(h: &Vec<UsernameHistoryEntry>) -> (r: bool)
    ensures
        r == history_wf(h@),
{
    if h.len() == 0 || h[0].changed_to_at.is_some() {
        return false;
    }
    let mut i: usize = 1;
    let mut last: i64 = 0;
    while i < h.len()
        invariant
            1 <= i <= h.len(),
            h.len() >= 1,
            h@[0].changed_to_at is None,
            forall|j: int| 1 <= j < i ==> (#[trigger] h@[j]).changed_to_at is Some,
            forall|j: int| 1 <= j < i - 1 ==> change_time(#[trigger] h@[j]) <= change_time(h@[j + 1]),
            i > 1 ==> last as int == change_time(h@[i - 1]),
        decreases h.len() - i,
    {
        match h[i].changed_to_at {
            None => {
                assert(h@[i as int].changed_to_at is None);
                return false;
            },
            Some(t) => {
                if i > 1 && t < last {
                    assert(change_time(h@[i - 1]) > change_time(h@[i as int]));
                    return false;
                }
                last = t;
            },
        }
        i = i + 1;
    }
    true
}

/// The times of a well-formed history run oldest to newest: a later change is never earlier.
pub proof fn lemma_history_times_ordered(h: Seq<UsernameHistoryEntry>, i: int, j: int)
    requires
        history_wf(h),
        1 <= i <= j < h.len(),
    ensures
        change_time(h[i]) <= change_time(h[j]),
    decreases j - i,
{
    if i < j {
        lemma_history_times_ordered(h, i, j - 1);
        assert(change_time(h[j - 1]) <= change_time(h[j]));
    }
}

/// The name history out of the answer to a history lookup; one that breaks the shape of
/// `history_wf` is a `Parse` error.
pub fn get_username_history(fetched: Result<Vec<UsernameHistoryEntry>, ApiError>) -> (r: Result<
    Vec<UsernameHistoryEntry>,
    ApiError,
>)
    ensures
        match fetched {
            Ok(h) => if history_wf(h@) {
                r == Ok::<Vec<UsernameHistoryEntry>, ApiError>(h)
            } else {
                r matches Err(ApiError::Parse(_))
            },
            Err(e) => r == Err::<Vec<UsernameHistoryEntry>, ApiError>(e),
        },
{
    match fetched {
        Ok(h) => {
            if is_history_wf(&h) {
                Ok(h)
            } else {
                Err(ApiError::Parse(String::from_str("the name history is out of shape")))
            }
        },
        Err(e) => Err(e),
    }
}

/// How many changes of name a history holds.
pub open spec fn change_count(h: Seq<UsernameHistoryEntry>) -> int {
    h.len() - 1
}

/// The changes of name in a history, oldest first: change `i` is from entry `i` to entry
/// `i + 1`, at the time of the latter.
pub fn name_changes(history: &Vec<UsernameHistoryEntry>) -> (r: Vec<NameChange>)
    requires
        history_wf(history@),
    ensures
        r.len() == change_count(history@),
        forall|i: int|
            0 <= i < r.len() ==> {
                &&& (#[trigger] r@[i]).from@ == history@[i].name@
                &&& r@[i].to@ == history@[i + 1].name@
                &&& history@[i + 1].changed_to_at == Some(r@[i].at)
            },
{
    let mut r: Vec<NameChange> = Vec::new();
    let mut i: usize = 1;
    while i < history.len()
        invariant
            history_wf(history@),
            1 <= i <= history.len(),
            r.len() == i - 1,
            forall|j: int|
                0 <= j < r.len() ==> {
                    &&& (#[trigger] r@[j]).from@ == history@[j].name@
                    &&& r@[j].to@ == history@[j + 1].name@
                    &&& history@[j + 1].changed_to_at == Some(r@[j].at)
                },
        decreases history.len() - i,
    {
        assert(history@[i as int].changed_to_at is Some);
        let at = match history[i].changed_to_at {
            Some(t) => t,
            None => 0,
        };
        r.push(
            NameChange {
                from: history[i - 1].name.clone(),
                to: history[i].name.clone(),
                at,
            },
        );
        i = i + 1;
    }
    r
}

/// A history of one entry holds no change of name.
pub proof fn lemma_single_name_no_changes(h: Seq<UsernameHistoryEntry>)
    requires
        history_wf(h),
        h.len() == 1,
    ensures
        change_count(h) == 0,
{
}

/// The model of a skin as shown: the one its metadata names, else `classic`.
pub fn skin_model(skin: &SkinData) -> (r: String)
    ensures
        match skin.metadata {
            Some(m) => r@ == m.model@,
            None => r@ == "classic"@,
        },
{
    match &skin.metadata {
        Some(m) => m.model.clone(),
        None => String::from_str("classic"),
    }
}

} // verus!
